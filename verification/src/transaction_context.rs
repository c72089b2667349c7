//! What the runtime knows of the transaction under execution, as far as its memory goes.

use crate::instruction_error::InstructionError;
use crate::memory_region::{HostBuffer, MemoryRegion};
use crate::vm_addresses::{
    GUEST_ACCOUNT_PAYLOAD_BASE_ADDRESS, GUEST_INSTRUCTION_ACCOUNT_BASE_ADDRESS,
    GUEST_INSTRUCTION_DATA_BASE_ADDRESS, GUEST_REGION_SIZE, RETURN_DATA_SCRATCHPAD,
};
use crate::{MAX_ACCOUNTS_PER_TRANSACTION, MAX_INSTRUCTION_TRACE_LENGTH};
use vstd::prelude::*;

verus! {

/// Position of an account, in a transaction or in an instruction.
pub type IndexOfAccount = u16;

/// An account of the running instruction that has been borrowed.
#[derive(Clone, Copy, Debug, PartialEq, Eq)]
pub struct BorrowedInstructionAccount {
    /// Whether the instruction may change the account's data, and if not, why.
    pub can_data_be_changed: Result<(), InstructionError>,
}

impl BorrowedInstructionAccount {
    pub fn can_data_be_changed(&self) -> (result: Result<(), InstructionError>)
        ensures
            result == self.can_data_be_changed,
    {
        self.can_data_be_changed
    }
}

/// An account that the running instruction names, and what borrowing it comes to.
#[derive(Clone, Copy, Debug, PartialEq, Eq)]
pub struct InstructionAccountBorrow {
    pub index_in_transaction: IndexOfAccount,
    pub borrow: Result<BorrowedInstructionAccount, InstructionError>,
}

/// The running instruction.
#[derive(Debug)]
pub struct InstructionContext {
    pub instruction_accounts: Vec<InstructionAccountBorrow>,
}

/// The first position, from `from` on, at which the account of the given index stands.
pub open spec fn first_position(
    accounts: Seq<InstructionAccountBorrow>,
    index_in_transaction: IndexOfAccount,
    from: int,
) -> Option<int>
    decreases accounts.len() - from,
{
    if from < 0 || from >= accounts.len() {
        None
    } else if accounts[from].index_in_transaction == index_in_transaction {
        Some(from)
    } else {
        first_position(accounts, index_in_transaction, from + 1)
    }
}

impl InstructionContext {
    /// What borrowing the given account of the transaction gives, where the instruction names it.
    pub open spec fn access(self, index_in_transaction: IndexOfAccount) -> Option<
        Result<BorrowedInstructionAccount, InstructionError>,
    > {
        match first_position(self.instruction_accounts@, index_in_transaction, 0) {
            Some(i) => Some(self.instruction_accounts@[i].borrow),
            None => None,
        }
    }

    /// Where in the instruction an account of the transaction stands first.
    pub fn get_index_of_account_in_instruction(
        &self,
        index_in_transaction: IndexOfAccount,
    ) -> (result: Result<usize, InstructionError>)
        ensures
            match first_position(self.instruction_accounts@, index_in_transaction, 0) {
                Some(i) => result is Ok && result->Ok_0 == i,
                None => result == Err::<usize, InstructionError>(InstructionError::MissingAccount),
            },
            result is Ok ==> result->Ok_0 < self.instruction_accounts@.len(),
    {
        let mut i: usize = 0;
        while i < self.instruction_accounts.len()
            invariant
                i <= self.instruction_accounts@.len(),
                first_position(self.instruction_accounts@, index_in_transaction, 0)
                    == first_position(self.instruction_accounts@, index_in_transaction, i as int),
            decreases self.instruction_accounts@.len() - i,
        {
            if self.instruction_accounts[i].index_in_transaction == index_in_transaction {
                return Ok(i);
            }
            i = i + 1;
        }
        Err(InstructionError::MissingAccount)
    }

    /// Borrows an account by its position in the instruction.
    pub fn try_borrow_instruction_account(&self, index_in_instruction: usize) -> (result: Result<
        BorrowedInstructionAccount,
        InstructionError,
    >)
        ensures
            result == if index_in_instruction < self.instruction_accounts@.len() {
                self.instruction_accounts@[index_in_instruction as int].borrow
            } else {
                Err(InstructionError::MissingAccount)
            },
    {
        if index_in_instruction < self.instruction_accounts.len() {
            self.instruction_accounts[index_in_instruction].borrow
        } else {
            Err(InstructionError::MissingAccount)
        }
    }
}

/// The accounts of the transaction.
#[derive(Debug)]
pub struct TransactionAccounts {
    /// The memory that holds what guests see of every account.
    pub shared_fields: HostBuffer,
    /// The data of each account, in the transaction's order.
    pub payload_regions: Vec<MemoryRegion>,
}

impl TransactionAccounts {
    /// How many accounts the transaction has.
    pub fn len(&self) -> (len: usize)
        ensures
            len == self.payload_regions@.len(),
    {
        self.payload_regions.len()
    }

    pub fn shared_fields_as_raw_slice(&self) -> (buffer: HostBuffer)
        ensures
            buffer == self.shared_fields,
    {
        self.shared_fields
    }

    pub fn account_payload_regions(&self) -> (regions: &Vec<MemoryRegion>)
        ensures
            *regions == self.payload_regions,
    {
        &self.payload_regions
    }
}

/// The transaction under execution.
#[derive(Debug)]
pub struct TransactionContext {
    /// The memory that holds the transaction frame.
    pub transaction_frame: HostBuffer,
    pub accounts: TransactionAccounts,
    /// The memory that holds the frames of the instructions.
    pub instruction_trace: HostBuffer,
    pub return_data_region: MemoryRegion,
    /// The data of each instruction, in the order of the trace.
    pub instruction_payload_regions: Vec<MemoryRegion>,
    /// The accounts of each instruction, in the order of the trace.
    pub instruction_accounts_regions: Vec<MemoryRegion>,
    /// The running instruction, or why there is none.
    pub current_instruction: Result<InstructionContext, InstructionError>,
}

/// The regions lie in successive areas, the first of them at `base`.
pub open spec fn in_successive_areas(regions: Seq<MemoryRegion>, base: int) -> bool {
    forall|i: int|
        0 <= i < regions.len() ==> (#[trigger] regions[i]).vm_addr == base + i * GUEST_REGION_SIZE
}

impl TransactionContext {
    /// Every region lies in the area that is set aside for it, and no area overflows.
    pub open spec fn well_formed(self) -> bool {
        &&& self.return_data_region.vm_addr == RETURN_DATA_SCRATCHPAD
        &&& self.accounts.payload_regions@.len() <= MAX_ACCOUNTS_PER_TRANSACTION
        &&& in_successive_areas(
            self.accounts.payload_regions@,
            GUEST_ACCOUNT_PAYLOAD_BASE_ADDRESS as int,
        )
        &&& self.instruction_payload_regions@.len() <= MAX_INSTRUCTION_TRACE_LENGTH
        &&& in_successive_areas(
            self.instruction_payload_regions@,
            GUEST_INSTRUCTION_DATA_BASE_ADDRESS as int,
        )
        &&& self.instruction_accounts_regions@.len() <= MAX_INSTRUCTION_TRACE_LENGTH
        &&& in_successive_areas(
            self.instruction_accounts_regions@,
            GUEST_INSTRUCTION_ACCOUNT_BASE_ADDRESS as int,
        )
    }

    pub fn accounts(&self) -> (accounts: &TransactionAccounts)
        ensures
            *accounts == self.accounts,
    {
        &self.accounts
    }

    pub fn get_current_instruction_context(&self) -> (result: Result<
        &InstructionContext,
        InstructionError,
    >)
        ensures
            match self.current_instruction {
                Ok(instruction) => result is Ok && *result->Ok_0 == instruction,
                Err(e) => result is Err && result->Err_0 == e,
            },
    {
        match &self.current_instruction {
            Ok(instruction) => Ok(instruction),
            Err(e) => Err(*e),
        }
    }
}

/// The account with the given index stands at position `p`, and at no position before it.
pub open spec fn stands_first_at(
    accounts: Seq<InstructionAccountBorrow>,
    p: int,
    index: int,
) -> bool {
    &&& 0 <= p < accounts.len()
    &&& accounts[p].index_in_transaction == index
    &&& forall|q: int| 0 <= q < p ==> (#[trigger] accounts[q]).index_in_transaction != index
}

proof fn lemma_first_position_from(
    accounts: Seq<InstructionAccountBorrow>,
    index: IndexOfAccount,
    from: int,
)
    requires
        0 <= from <= accounts.len(),
    ensures
        match first_position(accounts, index, from) {
            Some(p) => {
                &&& from <= p < accounts.len()
                &&& accounts[p].index_in_transaction == index
                &&& forall|q: int|
                    from <= q < p ==> (#[trigger] accounts[q]).index_in_transaction != index
            },
            None => forall|q: int|
                from <= q < accounts.len() ==> (#[trigger] accounts[q]).index_in_transaction
                    != index,
        },
    decreases accounts.len() - from,
{
    if from < accounts.len() && accounts[from].index_in_transaction != index {
        lemma_first_position_from(accounts, index, from + 1);
    }
}

/// An account is found where it stands first among the accounts of an instruction, and is missing
/// if and only if it stands nowhere.
pub proof fn lemma_account_is_found_where_it_stands_first(
    accounts: Seq<InstructionAccountBorrow>,
    index: IndexOfAccount,
)
    ensures
        match first_position(accounts, index, 0) {
            Some(p) => stands_first_at(accounts, p, index as int),
            None => forall|q: int|
                0 <= q < accounts.len() ==> (#[trigger] accounts[q]).index_in_transaction != index,
        },
{
    lemma_first_position_from(accounts, index, 0);
}

/// What borrowing an account of the transaction gives is what the entry gives at which the account
/// stands first in the instruction.
pub proof fn lemma_access_is_that_of_the_first_entry(
    instruction: InstructionContext,
    index: IndexOfAccount,
    p: int,
)
    requires
        stands_first_at(instruction.instruction_accounts@, p, index as int),
    ensures
        instruction.access(index) == Some(instruction.instruction_accounts@[p].borrow),
        first_position(instruction.instruction_accounts@, index, 0) == Some(p),
{
    lemma_account_is_found_where_it_stands_first(instruction.instruction_accounts@, index);
    let found = first_position(instruction.instruction_accounts@, index, 0);
    assert(instruction.instruction_accounts@[p].index_in_transaction == index);
    assert(found is Some);
    assert(instruction.instruction_accounts@[found->0].index_in_transaction == index);
}

/// An account that the instruction does not name cannot be borrowed by it.
pub proof fn lemma_no_access_without_an_entry(
    instruction: InstructionContext,
    index: IndexOfAccount,
)
    requires
        forall|q: int|
            0 <= q < instruction.instruction_accounts@.len() ==> (
            #[trigger] instruction.instruction_accounts@[q]).index_in_transaction != index,
    ensures
        instruction.access(index) is None,
        first_position(instruction.instruction_accounts@, index, 0) is None,
{
    lemma_account_is_found_where_it_stands_first(instruction.instruction_accounts@, index);
}

} // verus!
