//! The regions that all instructions of a transaction share.

use crate::memory_region::{HostBuffer, MemoryRegion};
use crate::sysvars::{
    clock_key, epoch_rewards_key, epoch_schedule_key, last_restart_slot_key,
    lemma_cache_gives_nothing_without_an_entry, lemma_cache_gives_the_first_entry,
    lemma_sysvar_places, rent_key, slot_hashes_key, stake_history_key, sysvar_ids_by_area,
    sysvar_keys_by_area, SysvarBuffer, SysvarCache,
};
use crate::transaction_context::TransactionContext;
use crate::vm_addresses::{
    abiv2_region_index_from_vm_address, area_address, area_index, from_index,
    ACCOUNT_METADATA_AREA, GUEST_ACCOUNT_PAYLOAD_BASE_ADDRESS,
    GUEST_INSTRUCTION_ACCOUNT_END_ADDRESS, GUEST_REGION_SIZE, GUEST_SYSVARS_BASE_ADDRESS,
    GUEST_SYSVARS_END_ADDRESS, INSTRUCTION_TRACE_AREA, NUM_SYSVARS, TRANSACTION_FRAME_ADDRESS,
};
use vstd::prelude::*;

verus! {

/// What a transaction's memory is made from.
#[derive(Debug)]
pub struct InvokeContext {
    pub transaction_context: TransactionContext,
    pub sysvar_cache: SysvarCache,
}

/// The region of the sysvar that has the given place among those with an area.
pub open spec fn sysvar_region(cache: SysvarCache, place: int) -> MemoryRegion {
    MemoryRegion::spec_new(
        match cache.buffer_of(sysvar_keys_by_area()[place]) {
            Some(data) => data.spec_immutable(),
            None => HostBuffer::spec_empty(),
        },
        (GUEST_SYSVARS_BASE_ADDRESS + place * GUEST_REGION_SIZE) as u64,
    )
}

/// The regions below those of the accounts: four for the program to fill in, and one each for
/// the transaction frame, the accounts' metadata, the instruction trace and the return data.
pub open spec fn leading_regions(tx: TransactionContext) -> Seq<MemoryRegion> {
    seq![
        MemoryRegion::spec_new(HostBuffer::spec_empty(), 0),
        MemoryRegion::spec_new(HostBuffer::spec_empty(), GUEST_REGION_SIZE),
        MemoryRegion::spec_new(HostBuffer::spec_empty(), (2 * GUEST_REGION_SIZE) as u64),
        MemoryRegion::spec_new(HostBuffer::spec_empty(), (3 * GUEST_REGION_SIZE) as u64),
        MemoryRegion::spec_new(tx.transaction_frame, TRANSACTION_FRAME_ADDRESS),
        MemoryRegion::spec_new(tx.accounts.shared_fields, ACCOUNT_METADATA_AREA),
        MemoryRegion::spec_new(tx.instruction_trace, INSTRUCTION_TRACE_AREA),
        tx.return_data_region,
    ]
}

/// The regions of the sysvars, lowest area first.
pub open spec fn sysvar_regions(cache: SysvarCache) -> Seq<MemoryRegion> {
    Seq::new(NUM_SYSVARS as nat, |place: int| sysvar_region(cache, place))
}

/// All regions that the instructions of a transaction share.
pub open spec fn abiv2_regions(context: InvokeContext) -> Seq<MemoryRegion> {
    leading_regions(context.transaction_context)
        + context.transaction_context.accounts.payload_regions@
        + sysvar_regions(context.sysvar_cache)
        + context.transaction_context.instruction_payload_regions@
        + context.transaction_context.instruction_accounts_regions@
}

/// `solana_sbpf::ebpf::{MM_RODATA_START, MM_BYTECODE_START, MM_STACK_START, MM_HEAP_START}`: the
/// lowest four areas.
#[verifier::external_body]
fn program_segment_addresses() -> (addresses: [u64; 4])
    ensures
        addresses@ == seq![
            0u64,
            GUEST_REGION_SIZE,
            (2 * GUEST_REGION_SIZE) as u64,
            (3 * GUEST_REGION_SIZE) as u64,
        ],
{
    [
        solana_sbpf::ebpf::MM_RODATA_START,
        solana_sbpf::ebpf::MM_BYTECODE_START,
        solana_sbpf::ebpf::MM_STACK_START,
        solana_sbpf::ebpf::MM_HEAP_START,
    ]
}

/// Appends copies of all the given regions.
fn extend_regions(regions: &mut Vec<MemoryRegion>, more: &Vec<MemoryRegion>)
    ensures
        final(regions)@ == old(regions)@ + more@,
{
    let mut i: usize = 0;
    while i < more.len()
        invariant
            i <= more@.len(),
            regions@ == old(regions)@ + more@.take(i as int),
        decreases more@.len() - i,
    {
        regions.push(more[i]);
        assert(more@.take(i + 1) =~= more@.take(i as int).push(more@[i as int]));
        i = i + 1;
    }
    assert(more@.take(i as int) =~= more@);
}

/// Lists the regions that the instructions of a transaction share, in ascending order of their
/// areas. Areas between the accounts and the sysvars that no account uses get no region.
pub fn create_abiv2_regions(invoke_context: &InvokeContext) -> (regions: Vec<MemoryRegion>)
    ensures
        regions@ == abiv2_regions(*invoke_context),
{
    let capacity: usize = abiv2_region_index_from_vm_address(GUEST_INSTRUCTION_ACCOUNT_END_ADDRESS);
    let mut v2_regions: Vec<MemoryRegion> = Vec::with_capacity(capacity);
    let transaction_context = &invoke_context.transaction_context;

    let segments = program_segment_addresses();
    v2_regions.push(MemoryRegion::new_empty(segments[0]));
    v2_regions.push(MemoryRegion::new_empty(segments[1]));
    v2_regions.push(MemoryRegion::new_empty(segments[2]));
    v2_regions.push(MemoryRegion::new_empty(segments[3]));
    v2_regions.push(
        MemoryRegion::new(transaction_context.transaction_frame, TRANSACTION_FRAME_ADDRESS),
    );
    v2_regions.push(
        MemoryRegion::new(
            transaction_context.accounts().shared_fields_as_raw_slice(),
            ACCOUNT_METADATA_AREA,
        ),
    );
    v2_regions.push(
        MemoryRegion::new(transaction_context.instruction_trace, INSTRUCTION_TRACE_AREA),
    );
    v2_regions.push(transaction_context.return_data_region);
    assert(v2_regions@ =~= leading_regions(*transaction_context));
    extend_regions(&mut v2_regions, transaction_context.accounts().account_payload_regions());

    let start_idx: usize = abiv2_region_index_from_vm_address(GUEST_SYSVARS_BASE_ADDRESS);
    let end_idx: usize = abiv2_region_index_from_vm_address(GUEST_SYSVARS_END_ADDRESS);
    let sysvar_ids = sysvar_ids_by_area();
    let sysvars = &invoke_context.sysvar_cache;
    let ghost before = v2_regions@;
    let mut idx: usize = start_idx;
    while idx < end_idx
        invariant
            start_idx == 0x1000 - NUM_SYSVARS,
            end_idx == 0x1000,
            start_idx <= idx <= end_idx,
            sysvar_ids@.len() == NUM_SYSVARS,
            forall|i: int|
                0 <= i < sysvar_ids@.len() ==> (#[trigger] sysvar_ids@[i])@
                    == sysvar_keys_by_area()[i],
            v2_regions@ == before + sysvar_regions(*sysvars).take(idx - start_idx),
        decreases end_idx - idx,
    {
        let data = match sysvars.sysvar_id_to_buffer(&sysvar_ids[idx - start_idx]) {
            Some(data) => data.immutable(),
            None => HostBuffer::empty(),
        };
        v2_regions.push(MemoryRegion::new(data, from_index(idx as u64)));
        proof {
            let place = idx - start_idx;
            assert(sysvar_ids@[place]@ == sysvar_keys_by_area()[place]);
            assert(v2_regions@.last() == sysvar_region(*sysvars, place));
            assert(sysvar_regions(*sysvars).take(place + 1) =~= sysvar_regions(*sysvars).take(
                place,
            ).push(sysvar_region(*sysvars, place)));
        }
        idx = idx + 1;
    }
    assert(sysvar_regions(*sysvars).take(end_idx - start_idx) =~= sysvar_regions(*sysvars));

    extend_regions(&mut v2_regions, &transaction_context.instruction_payload_regions);
    extend_regions(&mut v2_regions, &transaction_context.instruction_accounts_regions);
    v2_regions
}

/// The area in which the `i`-th shared region of a transaction lies.
spec fn area_of_region(context: InvokeContext, i: int) -> int {
    let accounts = context.transaction_context.accounts.payload_regions@.len();
    let payloads = context.transaction_context.instruction_payload_regions@.len();
    if i < 8 + accounts {
        i
    } else if i < 8 + accounts + NUM_SYSVARS {
        0x1000 - NUM_SYSVARS + (i - 8 - accounts)
    } else if i < 8 + accounts + NUM_SYSVARS + payloads {
        0x1000 + (i - 8 - accounts - NUM_SYSVARS)
    } else {
        0x1040 + (i - 8 - accounts - NUM_SYSVARS - payloads)
    }
}

proof fn lemma_area_of_region(context: InvokeContext, i: int)
    requires
        context.transaction_context.well_formed(),
        0 <= i < abiv2_regions(context).len(),
    ensures
        abiv2_regions(context)[i].vm_addr == area_address(area_of_region(context, i)),
{
    let tx = context.transaction_context;
    let accounts = tx.accounts.payload_regions@;
    let payloads = tx.instruction_payload_regions@;
    let region = abiv2_regions(context)[i];
    if i < 8 {
        assert(region == leading_regions(tx)[i]);
    } else if i < 8 + accounts.len() {
        assert(region == accounts[i - 8]);
    } else if i < 8 + accounts.len() + NUM_SYSVARS {
        assert(region == sysvar_region(context.sysvar_cache, i - 8 - accounts.len()));
    } else if i < 8 + accounts.len() + NUM_SYSVARS + payloads.len() {
        assert(region == payloads[i - 8 - accounts.len() - NUM_SYSVARS]);
    } else {
        assert(region == tx.instruction_accounts_regions@[i - 8 - accounts.len() - NUM_SYSVARS
            - payloads.len()]);
    }
}

/// No two shared regions of a transaction have the same guest address: each lies above the one
/// before it.
pub proof fn lemma_region_addresses_ascend(context: InvokeContext, i: int, j: int)
    requires
        context.transaction_context.well_formed(),
        0 <= i < j < abiv2_regions(context).len(),
    ensures
        abiv2_regions(context)[i].vm_addr < abiv2_regions(context)[j].vm_addr,
{
    lemma_area_of_region(context, i);
    lemma_area_of_region(context, j);
}

/// Every shared region begins an area of its own below the end of the address space that is laid
/// out, so there are at most as many regions as areas.
pub proof fn lemma_regions_begin_areas(context: InvokeContext, i: int)
    requires
        context.transaction_context.well_formed(),
        0 <= i < abiv2_regions(context).len(),
    ensures
        abiv2_regions(context)[i].vm_addr == area_address(
            area_index(abiv2_regions(context)[i].vm_addr as int),
        ),
        abiv2_regions(context)[i].vm_addr < GUEST_INSTRUCTION_ACCOUNT_END_ADDRESS,
        i <= area_index(abiv2_regions(context)[i].vm_addr as int),
        abiv2_regions(context).len() <= area_index(GUEST_INSTRUCTION_ACCOUNT_END_ADDRESS as int),
{
    lemma_area_of_region(context, i);
}

/// Up to the last account, the shared region of an address stands at the index of the address's
/// area, so that account `k` is found at the index of the `k`-th payload area.
pub proof fn lemma_account_region_stands_at_its_index(context: InvokeContext, address: u64)
    requires
        context.transaction_context.well_formed(),
        address < GUEST_ACCOUNT_PAYLOAD_BASE_ADDRESS + area_address(
            context.transaction_context.accounts.payload_regions@.len() as int,
        ),
    ensures
        area_index(address as int) < abiv2_regions(context).len(),
        abiv2_regions(context)[area_index(address as int)].vm_addr == area_address(
            area_index(address as int),
        ),
        address >= GUEST_ACCOUNT_PAYLOAD_BASE_ADDRESS ==> abiv2_regions(context)[area_index(
            address as int,
        )] == context.transaction_context.accounts.payload_regions@[area_index(
            address - GUEST_ACCOUNT_PAYLOAD_BASE_ADDRESS,
        )],
{
    lemma_area_of_region(context, area_index(address as int));
    if address >= GUEST_ACCOUNT_PAYLOAD_BASE_ADDRESS {
        assert(area_index(address as int) - 8 == area_index(
            address - GUEST_ACCOUNT_PAYLOAD_BASE_ADDRESS,
        ));
    }
}

/// Areas that belong to no account, sysvar or instruction of the transaction have no region.
pub proof fn lemma_unused_areas_have_no_region(context: InvokeContext, area: int, i: int)
    requires
        context.transaction_context.well_formed(),
        0 <= i < abiv2_regions(context).len(),
        ({
            let tx = context.transaction_context;
            ||| 8 + tx.accounts.payload_regions@.len() <= area < 0x1000 - NUM_SYSVARS
            ||| 0x1000 + tx.instruction_payload_regions@.len() <= area < 0x1040
            ||| 0x1040 + tx.instruction_accounts_regions@.len() <= area
        }),
    ensures
        area_index(abiv2_regions(context)[i].vm_addr as int) != area,
{
    lemma_area_of_region(context, i);
}

/// The region lies in the given area and shows, read-only, the data of the first entry with the
/// given key, or nothing where there is no such entry.
pub open spec fn shows_sysvar(
    region: MemoryRegion,
    buffers: Seq<SysvarBuffer>,
    key: Seq<u8>,
    area: int,
) -> bool {
    &&& region.vm_addr == area * 0x1_0000_0000
    &&& region.vm_gap_size == 0
    &&& region.access_violation_handler_payload is None
    &&& !region.host.mutable
    &&& forall|b: int|
        0 <= b < buffers.len() && (#[trigger] buffers[b]).id@ == key && (forall|c: int|
            0 <= c < b ==> (#[trigger] buffers[c]).id@ != key) ==> {
            &&& region.host.addr == buffers[b].data.addr
            &&& region.host.len == buffers[b].data.len
        }
    &&& (forall|b: int| 0 <= b < buffers.len() ==> (#[trigger] buffers[b]).id@ != key)
        ==> region.host.len == 0
}

proof fn lemma_sysvar_region_shows_it(cache: SysvarCache, place: int, key: Seq<u8>)
    requires
        0 <= place < 7,
        key == sysvar_keys_by_area()[place],
    ensures
        shows_sysvar(sysvar_regions(cache)[place], cache.buffers@, key, 0xff9 + place),
{
    let region = sysvar_regions(cache)[place];
    let buffers = cache.buffers@;
    assert(region == sysvar_region(cache, place));
    assert forall|b: int|
        0 <= b < buffers.len() && (#[trigger] buffers[b]).id@ == key && (forall|c: int|
            0 <= c < b ==> (#[trigger] buffers[c]).id@ != key) implies {
        &&& region.host.addr == buffers[b].data.addr
        &&& region.host.len == buffers[b].data.len
    } by {
        lemma_cache_gives_the_first_entry(cache, key, b);
    }
    if forall|b: int| 0 <= b < buffers.len() ==> (#[trigger] buffers[b]).id@ != key {
        lemma_cache_gives_nothing_without_an_entry(cache, key);
    }
}

/// After the regions of the accounts come those of the seven sysvars, each in its own area and
/// with its own data.
pub proof fn lemma_each_sysvar_has_its_area(context: InvokeContext)
    ensures
        ({
            let regions = abiv2_regions(context);
            let buffers = context.sysvar_cache.buffers@;
            let first = 8 + context.transaction_context.accounts.payload_regions@.len() as int;
            &&& shows_sysvar(regions[first], buffers, stake_history_key(), 0xff9)
            &&& shows_sysvar(regions[first + 1], buffers, slot_hashes_key(), 0xffa)
            &&& shows_sysvar(regions[first + 2], buffers, rent_key(), 0xffb)
            &&& shows_sysvar(regions[first + 3], buffers, last_restart_slot_key(), 0xffc)
            &&& shows_sysvar(regions[first + 4], buffers, epoch_schedule_key(), 0xffd)
            &&& shows_sysvar(regions[first + 5], buffers, epoch_rewards_key(), 0xffe)
            &&& shows_sysvar(regions[first + 6], buffers, clock_key(), 0xfff)
        }),
{
    let cache = context.sysvar_cache;
    let regions = abiv2_regions(context);
    let first = 8 + context.transaction_context.accounts.payload_regions@.len() as int;
    lemma_sysvar_places();
    assert forall|place: int| 0 <= place < 7 implies #[trigger] regions[first + place]
        == sysvar_regions(cache)[place] by {}
    lemma_sysvar_region_shows_it(cache, 0, stake_history_key());
    lemma_sysvar_region_shows_it(cache, 1, slot_hashes_key());
    lemma_sysvar_region_shows_it(cache, 2, rent_key());
    lemma_sysvar_region_shows_it(cache, 3, last_restart_slot_key());
    lemma_sysvar_region_shows_it(cache, 4, epoch_schedule_key());
    lemma_sysvar_region_shows_it(cache, 5, epoch_rewards_key());
    lemma_sysvar_region_shows_it(cache, 6, clock_key());
    assert(regions[first + 0] == sysvar_regions(cache)[0]);
    assert(regions[first + 1] == sysvar_regions(cache)[1]);
    assert(regions[first + 2] == sysvar_regions(cache)[2]);
    assert(regions[first + 3] == sysvar_regions(cache)[3]);
    assert(regions[first + 4] == sysvar_regions(cache)[4]);
    assert(regions[first + 5] == sysvar_regions(cache)[5]);
    assert(regions[first + 6] == sysvar_regions(cache)[6]);
}

/// Whatever region of a transaction has the address of a sysvar's area, it shows that sysvar.
pub proof fn lemma_sysvar_is_found_by_address(context: InvokeContext, i: int)
    requires
        context.transaction_context.well_formed(),
        0 <= i < abiv2_regions(context).len(),
    ensures
        ({
            let region = abiv2_regions(context)[i];
            let buffers = context.sysvar_cache.buffers@;
            &&& region.vm_addr == 0xff9_0000_0000u64 ==> shows_sysvar(
                region,
                buffers,
                stake_history_key(),
                0xff9,
            )
            &&& region.vm_addr == 0xffa_0000_0000u64 ==> shows_sysvar(
                region,
                buffers,
                slot_hashes_key(),
                0xffa,
            )
            &&& region.vm_addr == 0xffb_0000_0000u64 ==> shows_sysvar(
                region,
                buffers,
                rent_key(),
                0xffb,
            )
            &&& region.vm_addr == 0xffc_0000_0000u64 ==> shows_sysvar(
                region,
                buffers,
                last_restart_slot_key(),
                0xffc,
            )
            &&& region.vm_addr == 0xffd_0000_0000u64 ==> shows_sysvar(
                region,
                buffers,
                epoch_schedule_key(),
                0xffd,
            )
            &&& region.vm_addr == 0xffe_0000_0000u64 ==> shows_sysvar(
                region,
                buffers,
                epoch_rewards_key(),
                0xffe,
            )
            &&& region.vm_addr == 0xfff_0000_0000u64 ==> shows_sysvar(
                region,
                buffers,
                clock_key(),
                0xfff,
            )
        }),
{
    lemma_area_of_region(context, i);
    lemma_each_sysvar_has_its_area(context);
}

/// The region has the given host memory and address, no gaps and no mark.
pub open spec fn shows_buffer(region: MemoryRegion, host: HostBuffer, vm_addr: int) -> bool {
    &&& region.host.addr == host.addr
    &&& region.host.len == host.len
    &&& region.host.mutable == host.mutable
    &&& region.vm_addr == vm_addr
    &&& region.vm_gap_size == 0
    &&& region.access_violation_handler_payload is None
}

/// The lowest four areas are empty, for the program to fill in; then come the transaction frame,
/// the accounts' metadata, the instruction trace and the return data, each the memory that the
/// transaction has for it.
pub proof fn lemma_leading_areas(context: InvokeContext)
    ensures
        ({
            let regions = abiv2_regions(context);
            let tx = context.transaction_context;
            &&& forall|i: int|
                0 <= i < 4 ==> {
                    &&& (#[trigger] regions[i]).host.len == 0
                    &&& !regions[i].host.mutable
                    &&& regions[i].vm_addr == i * 0x1_0000_0000
                    &&& regions[i].vm_gap_size == 0
                    &&& regions[i].access_violation_handler_payload is None
                }
            &&& shows_buffer(regions[4], tx.transaction_frame, 0x4_0000_0000)
            &&& shows_buffer(regions[5], tx.accounts.shared_fields, 0x5_0000_0000)
            &&& shows_buffer(regions[6], tx.instruction_trace, 0x6_0000_0000)
            &&& regions[7] == tx.return_data_region
        }),
{
    let regions = abiv2_regions(context);
    let leading = leading_regions(context.transaction_context);
    assert forall|i: int| 0 <= i < 8 implies #[trigger] regions[i] == leading[i] by {}
    assert(regions[4] == leading[4]);
    assert(regions[5] == leading[5]);
    assert(regions[6] == leading[6]);
    assert(regions[7] == leading[7]);
}

/// The regions of the accounts, of the instructions' data and of the instructions' accounts are
/// those of the transaction, all of them, in their order and unchanged, and there are no others
/// but the eight leading ones and the seven of the sysvars.
pub proof fn lemma_regions_of_the_transaction(context: InvokeContext)
    ensures
        ({
            let regions = abiv2_regions(context);
            let tx = context.transaction_context;
            let accounts = tx.accounts.payload_regions@;
            let data = tx.instruction_payload_regions@;
            let named = tx.instruction_accounts_regions@;
            &&& regions.len() == accounts.len() + data.len() + named.len() + 15
            &&& forall|i: int| 0 <= i < accounts.len() ==> regions[8 + i] == #[trigger] accounts[i]
            &&& forall|i: int|
                0 <= i < data.len() ==> regions[15 + accounts.len() + i] == #[trigger] data[i]
            &&& forall|i: int|
                0 <= i < named.len() ==> regions[15 + accounts.len() + data.len() + i]
                    == #[trigger] named[i]
        }),
{
}

} // verus!
