//! What an instruction may write of the regions that it shares with others.

use crate::instruction_error::InstructionError;
use crate::memory_region::{MemoryRegion, RegionTable};
use crate::regions::{abiv2_regions, InvokeContext};
use crate::transaction_context::{
    first_position, lemma_access_is_that_of_the_first_entry,
    lemma_account_is_found_where_it_stands_first, lemma_no_access_without_an_entry, stands_first_at,
    BorrowedInstructionAccount, IndexOfAccount, InstructionContext,
};
use crate::vm_addresses::{
    abiv2_region_index_from_vm_address, area_index, GUEST_ACCOUNT_PAYLOAD_BASE_ADDRESS,
    RETURN_DATA_SCRATCHPAD,
};
use vstd::prelude::*;

verus! {

/// The index under which the `i`-th account of a transaction is known.
pub open spec fn account_index(i: int) -> IndexOfAccount {
    (i % 0x1_0000) as u16
}

/// An account's region as an instruction finds it. Where the instruction may change the account's
/// data, a region that is not writable yet is marked with the account, so that the first write can
/// make it so. Any other region is read-only and stays so.
pub open spec fn prepared_region(
    region: MemoryRegion,
    index: IndexOfAccount,
    access: Option<Result<BorrowedInstructionAccount, InstructionError>>,
) -> MemoryRegion {
    if access matches Some(Ok(account)) && account.can_data_be_changed is Ok {
        if region.host.mutable {
            region
        } else {
            MemoryRegion { access_violation_handler_payload: Some(index), ..region }
        }
    } else {
        MemoryRegion { access_violation_handler_payload: None, ..region.spec_immutable() }
    }
}

/// Whether the instruction names the `i`-th account of the transaction and cannot borrow it.
pub open spec fn borrow_fails(instruction: InstructionContext, i: int) -> bool {
    instruction.access(account_index(i)) matches Some(Err(_))
}

/// The first account in `from..to` that cannot be borrowed, or `to`.
pub open spec fn first_failed_borrow(instruction: InstructionContext, from: int, to: int) -> int
    decreases to - from,
{
    if from >= to || borrow_fails(instruction, from) {
        from
    } else {
        first_failed_borrow(instruction, from + 1, to)
    }
}

/// The regions once the first `done` accounts have been prepared for the instruction.
pub open spec fn prepared_regions(
    regions: Seq<MemoryRegion>,
    instruction: InstructionContext,
    done: int,
) -> Seq<MemoryRegion> {
    let scratchpad = area_index(RETURN_DATA_SCRATCHPAD as int);
    let accounts = area_index(GUEST_ACCOUNT_PAYLOAD_BASE_ADDRESS as int);
    Seq::new(
        regions.len(),
        |i: int|
            if i == scratchpad {
                regions[i].spec_immutable()
            } else if accounts <= i < accounts + done {
                prepared_region(
                    regions[i],
                    account_index(i - accounts),
                    instruction.access(account_index(i - accounts)),
                )
            } else {
                regions[i]
            },
    )
}

/// One past the region of the last account, at most `usize::MAX`.
pub open spec fn account_regions_end(accounts_in_transaction: int) -> int {
    let end = area_index(GUEST_ACCOUNT_PAYLOAD_BASE_ADDRESS as int) + accounts_in_transaction;
    if end > usize::MAX {
        usize::MAX as int
    } else {
        end
    }
}

/// How many accounts are prepared for the instruction: all, or those before the first that cannot
/// be borrowed.
pub open spec fn accounts_prepared(
    instruction: InstructionContext,
    accounts_in_transaction: int,
) -> int {
    first_failed_borrow(
        instruction,
        0,
        account_regions_end(accounts_in_transaction) - area_index(
            GUEST_ACCOUNT_PAYLOAD_BASE_ADDRESS as int,
        ),
    )
}

proof fn lemma_first_failed_borrow_bounds(instruction: InstructionContext, from: int, to: int)
    requires
        from <= to,
    ensures
        from <= first_failed_borrow(instruction, from, to) <= to,
        forall|i: int|
            from <= i < first_failed_borrow(instruction, from, to) ==> !borrow_fails(
                instruction,
                i,
            ),
        first_failed_borrow(instruction, from, to) < to ==> borrow_fails(
            instruction,
            first_failed_borrow(instruction, from, to),
        ),
    decreases to - from,
{
    if from < to && !borrow_fails(instruction, from) {
        lemma_first_failed_borrow_bounds(instruction, from + 1, to);
    }
}

/// Brings the shared regions into the state in which the given instruction finds them: return data
/// read-only, and each account's region as `prepared_region` says. Ends at the first account that
/// cannot be borrowed, with the regions before it prepared.
pub fn prepare_regions<M: RegionTable>(
    mapping: &mut M,
    instruction: &InstructionContext,
    accounts_in_transaction: usize,
) -> (result: Result<(), InstructionError>)
    requires
        area_index(RETURN_DATA_SCRATCHPAD as int) < old(mapping).regions().len(),
        account_regions_end(accounts_in_transaction as int) <= old(mapping).regions().len(),
    ensures
        ({
            let done = accounts_prepared(*instruction, accounts_in_transaction as int);
            let all = account_regions_end(accounts_in_transaction as int) - area_index(
                GUEST_ACCOUNT_PAYLOAD_BASE_ADDRESS as int,
            );
            &&& final(mapping).regions() == prepared_regions(
                old(mapping).regions(),
                *instruction,
                done,
            )
            &&& result is Ok <==> done == all
            &&& result is Err ==> instruction.access(account_index(done)) == Some(
                Err::<BorrowedInstructionAccount, InstructionError>(result->Err_0),
            )
        }),
        !final(mapping).initialized(),
        final(mapping).settings() == old(mapping).settings(),
{
    let scratchpad: usize = abiv2_region_index_from_vm_address(RETURN_DATA_SCRATCHPAD);
    // The instruction has to set the length of its return data before it can write any, which
    // is when the data comes to be known as its own.
    mapping.make_region_immutable(scratchpad);

    let accounts_start: usize = abiv2_region_index_from_vm_address(
        GUEST_ACCOUNT_PAYLOAD_BASE_ADDRESS,
    );
    let accounts_end: usize = accounts_start.saturating_add(accounts_in_transaction);
    let ghost all = accounts_end - accounts_start;
    assert(mapping.regions() =~= prepared_regions(old(mapping).regions(), *instruction, 0));
    let mut tx_idx: usize = 0;
    while tx_idx < accounts_end - accounts_start
        invariant
            scratchpad == area_index(RETURN_DATA_SCRATCHPAD as int),
            accounts_start == area_index(GUEST_ACCOUNT_PAYLOAD_BASE_ADDRESS as int),
            accounts_end == account_regions_end(accounts_in_transaction as int),
            accounts_end <= old(mapping).regions().len(),
            all == accounts_end - accounts_start,
            tx_idx <= all,
            mapping.regions() == prepared_regions(
                old(mapping).regions(),
                *instruction,
                tx_idx as int,
            ),
            !mapping.initialized(),
            mapping.settings() == old(mapping).settings(),
            first_failed_borrow(*instruction, 0, all) == first_failed_borrow(
                *instruction,
                tx_idx as int,
                all,
            ),
        decreases all - tx_idx,
    {
        let index: IndexOfAccount = #[verifier::truncate] (tx_idx as u16);
        assert(index == account_index(tx_idx as int)) by {
            assert(tx_idx as u16 == tx_idx % 0x1_0000) by (bit_vector);
        }
        let acc_region: usize = accounts_start + tx_idx;
        match instruction.get_index_of_account_in_instruction(index) {
            Ok(idx_in_ix) => {
                match instruction.try_borrow_instruction_account(idx_in_ix) {
                    Ok(borrowed_account) => {
                        let can_data_be_changed = borrowed_account.can_data_be_changed();
                        if can_data_be_changed.is_ok() && !mapping.is_region_mutable(acc_region) {
                            mapping.set_region_payload(acc_region, Some(index));
                        } else if can_data_be_changed.is_err() {
                            mapping.set_region_payload(acc_region, None);
                            mapping.make_region_immutable(acc_region);
                        }
                    },
                    Err(e) => {
                        assert(borrow_fails(*instruction, tx_idx as int));
                        return Err(e);
                    },
                }
            },
            Err(_) => {
                mapping.set_region_payload(acc_region, None);
                mapping.make_region_immutable(acc_region);
            },
        }
        assert(mapping.regions() =~= prepared_regions(
            old(mapping).regions(),
            *instruction,
            tx_idx + 1,
        ));
        tx_idx = tx_idx + 1;
    }
    Ok(())
}

/// Preparing regions twice for the same instruction is the same as preparing them once.
pub proof fn lemma_preparing_is_idempotent(
    regions: Seq<MemoryRegion>,
    instruction: InstructionContext,
    done: int,
)
    ensures
        prepared_regions(prepared_regions(regions, instruction, done), instruction, done)
            == prepared_regions(regions, instruction, done),
{
    assert(prepared_regions(prepared_regions(regions, instruction, done), instruction, done)
        =~= prepared_regions(regions, instruction, done));
}

/// Preparing regions moves none of them, in the guest or in the host, changes no length, and makes
/// none writable.
pub proof fn lemma_preparing_keeps_memory(
    regions: Seq<MemoryRegion>,
    instruction: InstructionContext,
    done: int,
    i: int,
)
    requires
        0 <= i < regions.len(),
    ensures
        ({
            let before = regions[i];
            let after = prepared_regions(regions, instruction, done)[i];
            &&& after.vm_addr == before.vm_addr
            &&& after.vm_gap_size == before.vm_gap_size
            &&& after.host.addr == before.host.addr
            &&& after.host.len == before.host.len
            &&& after.host.mutable ==> before.host.mutable
        }),
{
}

/// Once regions are prepared, an account's region is writable only if it was so before and the
/// instruction may change the account's data, and a region that is not writable is marked with
/// its account if and only if the instruction may change the account's data.
pub proof fn lemma_prepared_access(
    regions: Seq<MemoryRegion>,
    instruction: InstructionContext,
    done: int,
    account: int,
)
    requires
        0 <= account < done,
        area_index(GUEST_ACCOUNT_PAYLOAD_BASE_ADDRESS as int) + account < regions.len(),
    ensures
        ({
            let i = area_index(GUEST_ACCOUNT_PAYLOAD_BASE_ADDRESS as int) + account;
            let after = prepared_regions(regions, instruction, done)[i];
            let may_change = instruction.access(account_index(account)) matches Some(Ok(borrowed))
                && borrowed.can_data_be_changed is Ok;
            &&& after.host.mutable <==> regions[i].host.mutable && may_change
            &&& !after.host.mutable ==> after.access_violation_handler_payload == if may_change {
                Some(account_index(account))
            } else {
                None
            }
        }),
{
}

/// Once regions are prepared, return data cannot be written.
pub proof fn lemma_prepared_return_data_is_read_only(
    regions: Seq<MemoryRegion>,
    instruction: InstructionContext,
    done: int,
)
    requires
        area_index(RETURN_DATA_SCRATCHPAD as int) < regions.len(),
    ensures
        !prepared_regions(regions, instruction, done)[area_index(
            RETURN_DATA_SCRATCHPAD as int,
        )].host.mutable,
{
}

/// Preparation covers every account if and only if the instruction can borrow each one that it
/// names; otherwise it ends at the first that it cannot.
pub proof fn lemma_preparation_ends_at_first_failed_borrow(
    instruction: InstructionContext,
    accounts_in_transaction: int,
)
    requires
        0 <= accounts_in_transaction,
    ensures
        ({
            let done = accounts_prepared(instruction, accounts_in_transaction);
            let all = account_regions_end(accounts_in_transaction) - area_index(
                GUEST_ACCOUNT_PAYLOAD_BASE_ADDRESS as int,
            );
            &&& 0 <= done <= all
            &&& forall|i: int| 0 <= i < done ==> !#[trigger] borrow_fails(instruction, i)
            &&& done < all ==> borrow_fails(instruction, done)
            &&& done == all <==> forall|i: int|
                0 <= i < all ==> !#[trigger] borrow_fails(instruction, i)
        }),
{
    lemma_first_failed_borrow_bounds(
        instruction,
        0,
        account_regions_end(accounts_in_transaction) - area_index(
            GUEST_ACCOUNT_PAYLOAD_BASE_ADDRESS as int,
        ),
    );
}

/// The regions that `create_abiv2_regions` lists are enough to be prepared for any instruction.
pub proof fn lemma_created_regions_can_be_prepared(context: InvokeContext)
    ensures
        area_index(RETURN_DATA_SCRATCHPAD as int) < abiv2_regions(context).len(),
        account_regions_end(
            context.transaction_context.accounts.payload_regions@.len() as int,
        ) <= abiv2_regions(context).len(),
{
}

/// Every account of the transaction below the given number that the instruction names can be
/// borrowed, by the entry at which it stands first.
pub open spec fn can_borrow_below(instruction: InstructionContext, bound: int) -> bool {
    forall|q: int, index: int| #[trigger]
        stands_first_at(instruction.instruction_accounts@, q, index) && index < bound
            ==> instruction.instruction_accounts@[q].borrow is Ok
}

proof fn lemma_borrows_below_do_not_fail(instruction: InstructionContext, bound: int)
    requires
        can_borrow_below(instruction, bound),
    ensures
        forall|i: int| 0 <= i < bound ==> !#[trigger] borrow_fails(instruction, i),
{
    assert forall|i: int| 0 <= i < bound implies !#[trigger] borrow_fails(instruction, i) by {
        let accounts = instruction.instruction_accounts@;
        let index = account_index(i);
        lemma_account_is_found_where_it_stands_first(accounts, index);
        if let Some(p) = first_position(accounts, index, 0) {
            assert(stands_first_at(accounts, p, index as int));
            lemma_access_is_that_of_the_first_entry(instruction, index, p);
        }
    }
}

proof fn lemma_preparation_gets_past(instruction: InstructionContext, accounts: int, i: int)
    requires
        0 <= i <= accounts,
        accounts + 8 <= usize::MAX,
        can_borrow_below(instruction, i),
    ensures
        i <= accounts_prepared(instruction, accounts) <= accounts,
        account_regions_end(accounts) == 8 + accounts,
{
    lemma_borrows_below_do_not_fail(instruction, i);
    lemma_preparation_ends_at_first_failed_borrow(instruction, accounts);
}

/// The region with index `8 + i` is that of account `i`. Where the instruction names the account,
/// the entry at which it stands first decides. If that entry lets the instruction change the
/// account's data, a writable region stays as it is, and a read-only one is marked with `i`; if it
/// does not, the region is read-only and has no mark. Nothing else of the region changes. An
/// account's number counts by its lower sixteen bits.
pub proof fn lemma_named_account_is_prepared(
    regions: Seq<MemoryRegion>,
    instruction: InstructionContext,
    accounts: int,
    i: int,
    p: int,
)
    requires
        0 <= i < accounts,
        accounts + 8 <= usize::MAX,
        8 + accounts <= regions.len(),
        stands_first_at(instruction.instruction_accounts@, p, i % 0x1_0000),
        can_borrow_below(instruction, i + 1),
    ensures
        ({
            let before = regions[8 + i];
            let after = prepared_regions(
                regions,
                instruction,
                accounts_prepared(instruction, accounts),
            )[8 + i];
            let borrow = instruction.instruction_accounts@[p].borrow;
            let may_change = borrow->Ok_0.can_data_be_changed is Ok;
            &&& borrow is Ok
            &&& after.vm_addr == before.vm_addr
            &&& after.vm_gap_size == before.vm_gap_size
            &&& after.host.addr == before.host.addr
            &&& after.host.len == before.host.len
            &&& after.host.mutable == (before.host.mutable && may_change)
            &&& !may_change ==> after.access_violation_handler_payload is None
            &&& may_change && before.host.mutable ==> after.access_violation_handler_payload
                == before.access_violation_handler_payload
            &&& may_change && !before.host.mutable ==> {
                &&& after.access_violation_handler_payload is Some
                &&& after.access_violation_handler_payload->0 == i % 0x1_0000
                &&& i < 0x1_0000 ==> after.access_violation_handler_payload->0 == i
            }
        }),
{
    lemma_preparation_gets_past(instruction, accounts, i + 1);
    assert(account_index(i) == i % 0x1_0000);
    lemma_access_is_that_of_the_first_entry(instruction, account_index(i), p);
}

/// The region of an account that the instruction does not name is read-only and has no mark.
/// Nothing else of it changes.
pub proof fn lemma_unnamed_account_is_prepared(
    regions: Seq<MemoryRegion>,
    instruction: InstructionContext,
    accounts: int,
    i: int,
)
    requires
        0 <= i < accounts,
        accounts + 8 <= usize::MAX,
        8 + accounts <= regions.len(),
        forall|q: int|
            0 <= q < instruction.instruction_accounts@.len() ==> (
            #[trigger] instruction.instruction_accounts@[q]).index_in_transaction != i % 0x1_0000,
        can_borrow_below(instruction, i),
    ensures
        ({
            let before = regions[8 + i];
            let after = prepared_regions(
                regions,
                instruction,
                accounts_prepared(instruction, accounts),
            )[8 + i];
            &&& after.vm_addr == before.vm_addr
            &&& after.vm_gap_size == before.vm_gap_size
            &&& after.host.addr == before.host.addr
            &&& after.host.len == before.host.len
            &&& !after.host.mutable
            &&& after.access_violation_handler_payload is None
        }),
{
    assert(account_index(i) == i % 0x1_0000);
    lemma_no_access_without_an_entry(instruction, account_index(i));
    assert(!borrow_fails(instruction, i));
    lemma_borrows_below_do_not_fail(instruction, i);
    lemma_preparation_ends_at_first_failed_borrow(instruction, accounts);
}

/// Return data, which has the index 7, becomes read-only and is otherwise what it was. No region
/// but it and those of the transaction's accounts changes, and none is added or taken away.
pub proof fn lemma_other_regions_stay(
    regions: Seq<MemoryRegion>,
    instruction: InstructionContext,
    accounts: int,
    k: int,
)
    requires
        0 <= accounts,
        accounts + 8 <= usize::MAX,
        8 + accounts <= regions.len(),
        0 <= k < regions.len(),
    ensures
        ({
            let after = prepared_regions(
                regions,
                instruction,
                accounts_prepared(instruction, accounts),
            );
            &&& after.len() == regions.len()
            &&& k < 7 || k >= 8 + accounts ==> after[k] == regions[k]
            &&& !after[7].host.mutable
            &&& after[7].host.addr == regions[7].host.addr
            &&& after[7].host.len == regions[7].host.len
            &&& after[7].vm_addr == regions[7].vm_addr
            &&& after[7].vm_gap_size == regions[7].vm_gap_size
            &&& after[7].access_violation_handler_payload
                == regions[7].access_violation_handler_payload
        }),
{
    lemma_preparation_ends_at_first_failed_borrow(instruction, accounts);
}

/// Preparation covers all accounts of the transaction if the instruction can borrow every one of
/// them that it names.
pub proof fn lemma_preparation_succeeds(instruction: InstructionContext, accounts: int)
    requires
        0 <= accounts,
        accounts + 8 <= usize::MAX,
        can_borrow_below(instruction, accounts),
    ensures
        accounts_prepared(instruction, accounts) == accounts,
        account_regions_end(accounts) - area_index(GUEST_ACCOUNT_PAYLOAD_BASE_ADDRESS as int)
            == accounts,
{
    lemma_preparation_gets_past(instruction, accounts, accounts);
}

/// Where the instruction cannot borrow account `i`, and can borrow all below it that it names,
/// preparation ends there, with the error that borrowing it gives. The regions from that account
/// on stay as they are.
pub proof fn lemma_preparation_fails(
    regions: Seq<MemoryRegion>,
    instruction: InstructionContext,
    accounts: int,
    i: int,
    p: int,
)
    requires
        0 <= i < accounts,
        accounts + 8 <= usize::MAX,
        8 + accounts <= regions.len(),
        stands_first_at(instruction.instruction_accounts@, p, i % 0x1_0000),
        instruction.instruction_accounts@[p].borrow is Err,
        can_borrow_below(instruction, i),
    ensures
        ({
            let done = accounts_prepared(instruction, accounts);
            let after = prepared_regions(regions, instruction, done);
            &&& done == i
            &&& done < account_regions_end(accounts) - area_index(
                GUEST_ACCOUNT_PAYLOAD_BASE_ADDRESS as int,
            )
            &&& instruction.access(account_index(done)) == Some(
                instruction.instruction_accounts@[p].borrow,
            )
            &&& forall|k: int|
                8 + i <= k < regions.len() ==> (#[trigger] after[k]) == regions[k]
        }),
{
    assert(account_index(i) == i % 0x1_0000);
    lemma_access_is_that_of_the_first_entry(instruction, account_index(i), p);
    assert(borrow_fails(instruction, i));
    lemma_preparation_gets_past(instruction, accounts, i);
    lemma_preparation_ends_at_first_failed_borrow(instruction, accounts);
}

} // verus!
