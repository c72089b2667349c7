//! A program that reads and writes the memory of its transaction, one way per command.
//!
//! It is a state machine. `entrypoint` takes the transaction as guest memory shows it at that
//! moment and says what to do next; the caller does it and comes back with the new state.

use crate::guest::{
    decimal, push_decimal, same_bytes, saturating_sum, AccountSharedFields, Action, Effect,
    InstructionAccount, InstructionFrame, Next, Reason, Step, VmSlice,
};
use crate::sysvars::{same_key, Pubkey};
use crate::vm_addresses::{
    GUEST_INSTRUCTION_DATA_BASE_ADDRESS, GUEST_REGION_SIZE, RETURN_DATA_SCRATCHPAD,
};
use vstd::prelude::*;

verus! {

/// The transaction frame.
#[derive(Debug)]
pub struct TransactionFrame<'a> {
    /// The program that the return data is from.
    pub return_data_pubkey: Pubkey,
    pub return_data_scratchpad: VmSlice<'a, u8>,
    pub cpi_scratchpad: VmSlice<'a, u8>,
    /// The running instruction's entry in the trace.
    pub current_executing_instruction: u16,
    pub total_number_of_instructions_in_trace: u16,
    pub number_of_cpis_in_trace: u16,
    pub number_of_transaction_accounts: u16,
}

/// The transaction as guest memory shows it.
#[derive(Debug)]
pub struct Transaction<'a> {
    pub frame: TransactionFrame<'a>,
    pub trace: Vec<InstructionFrame<'a>>,
    pub accounts: Vec<AccountSharedFields<'a>>,
}

/// What the first bytes of the instruction data ask for.
#[derive(Clone, Copy, Debug, PartialEq, Eq, Structural)]
pub enum Command {
    /// Read from an address at which nothing lies.
    ReadInvalidRegions,
    /// Overwrite the first bytes of an account.
    WriteToAccount,
    /// Check all that a program can read of its transaction.
    ValidAccesses,
    /// Grow the return data, and write its last byte or the one after it.
    ReturnScratchpad { write_just_outside: bool },
    /// Grow the data of an account of the transaction.
    SetAccountLength { account_idx: u64 },
    /// Give an account to a new owner.
    AssignOwner,
}

/// The text `IX1`.
pub open spec fn first_name() -> Seq<u8> {
    seq![73u8, 88, 49]
}

/// The text `IX2`.
pub open spec fn second_name() -> Seq<u8> {
    seq![73u8, 88, 50]
}

/// The command that instruction data stands for. The first byte decides, except that the two
/// instructions whose accesses are all valid may also go by their names.
pub open spec fn command_of(data: Seq<u8>) -> Option<Command> {
    if data == first_name() || data == second_name() {
        Some(Command::ValidAccesses)
    } else if data.len() == 0 {
        None
    } else if data[0] == 0 {
        Some(Command::ReadInvalidRegions)
    } else if data[0] == 1 {
        Some(Command::WriteToAccount)
    } else if data[0] == 2 || data[0] == 3 {
        Some(Command::ValidAccesses)
    } else if data[0] == 4 || data[0] == 5 {
        Some(Command::ReturnScratchpad { write_just_outside: data[0] == 5 })
    } else if data[0] == 6 {
        Some(Command::SetAccountLength { account_idx: 1 })
    } else if data[0] == 7 {
        Some(Command::SetAccountLength { account_idx: 3 })
    } else if data[0] == 8 {
        Some(Command::SetAccountLength { account_idx: 2 })
    } else if data[0] == 9 {
        Some(Command::AssignOwner)
    } else {
        None
    }
}

/// Whether the data is the text `IX1`.
fn is_first_name(data: &[u8]) -> (is: bool)
    ensures
        is == (data@ == first_name()),
{
    let name: Vec<u8> = vec![73u8, 88, 49];
    assert(name@ =~= first_name());
    same_bytes(data, name.as_slice())
}

/// Whether the data is the text `IX2`.
fn is_second_name(data: &[u8]) -> (is: bool)
    ensures
        is == (data@ == second_name()),
{
    let name: Vec<u8> = vec![73u8, 88, 50];
    assert(name@ =~= second_name());
    same_bytes(data, name.as_slice())
}

/// Reads the command off instruction data.
pub fn parse_command(data: &[u8]) -> (command: Option<Command>)
    ensures
        command == command_of(data@),
{
    if is_first_name(data) || is_second_name(data) {
        return Some(Command::ValidAccesses);
    }
    if data.len() == 0 {
        return None;
    }
    match data[0] {
        0 => Some(Command::ReadInvalidRegions),
        1 => Some(Command::WriteToAccount),
        2 | 3 => Some(Command::ValidAccesses),
        4 => Some(Command::ReturnScratchpad { write_just_outside: false }),
        5 => Some(Command::ReturnScratchpad { write_just_outside: true }),
        6 => Some(Command::SetAccountLength { account_idx: 1 }),
        7 => Some(Command::SetAccountLength { account_idx: 3 }),
        8 => Some(Command::SetAccountLength { account_idx: 2 }),
        9 => Some(Command::AssignOwner),
        _ => None,
    }
}

/// Where in a command the program is: what it waits for to be done.
#[derive(Debug)]
pub enum State {
    Entered,
    /// The number of accounts is being logged.
    AccountsLogged { instruction: u16 },
    /// The invalid address is being read.
    AreaRead,
    /// A byte is being read from the invalid address.
    InvalidRead,
    /// The byte from the invalid address is being logged.
    InvalidLogged,
    /// So many bytes of the account at the address are written or being written.
    AccountWritten { address: u64, count: u64 },
    /// The return data is being given its first length.
    ScratchpadSet { write_just_outside: bool },
    /// The byte at the offset is being read, to be zero.
    FreshRead { write_just_outside: bool, offset: u64 },
    /// The mark is being written.
    MarkWritten,
    /// The return data is being given its second length.
    ScratchpadExtended,
    /// The byte that should hold the mark is being read.
    MarkRead,
    /// The byte at the offset, which the return data has gained, is being read, to be zero.
    GainedRead { offset: u64 },
    /// The account is being given a new length, after which it should hold the expected bytes.
    AccountResized { account_idx: u64, expected: Vec<u8> },
    /// The first account's lamports are being logged.
    LamportsLogged { instruction: u16 },
    /// The account is being given to the new owner.
    OwnerAssigned { account_idx: u64, new_owner: Pubkey, write_afterwards: bool },
    /// The account that was given away is being written.
    GivenAwayWritten,
}

/// What a state stands for.
pub ghost enum Stage {
    Entered,
    AccountsLogged(u16),
    AreaRead,
    InvalidRead,
    InvalidLogged,
    AccountWritten(u64, u64),
    ScratchpadSet(bool),
    FreshRead(bool, u64),
    MarkWritten,
    ScratchpadExtended,
    MarkRead,
    GainedRead(u64),
    AccountResized(u64, Seq<u8>),
    LamportsLogged(u16),
    OwnerAssigned(u64, Seq<u8>, bool),
    GivenAwayWritten,
}

impl View for State {
    type V = Stage;

    open spec fn view(&self) -> Stage {
        match *self {
            State::Entered => Stage::Entered,
            State::AccountsLogged { instruction } => Stage::AccountsLogged(instruction),
            State::AreaRead => Stage::AreaRead,
            State::InvalidRead => Stage::InvalidRead,
            State::InvalidLogged => Stage::InvalidLogged,
            State::AccountWritten { address, count } => Stage::AccountWritten(address, count),
            State::ScratchpadSet { write_just_outside } => Stage::ScratchpadSet(write_just_outside),
            State::FreshRead { write_just_outside, offset } => Stage::FreshRead(
                write_just_outside,
                offset,
            ),
            State::MarkWritten => Stage::MarkWritten,
            State::ScratchpadExtended => Stage::ScratchpadExtended,
            State::MarkRead => Stage::MarkRead,
            State::GainedRead { offset } => Stage::GainedRead(offset),
            State::AccountResized { account_idx, expected } => Stage::AccountResized(
                account_idx,
                expected@,
            ),
            State::LamportsLogged { instruction } => Stage::LamportsLogged(instruction),
            State::OwnerAssigned { account_idx, new_owner, write_afterwards } =>
                Stage::OwnerAssigned(account_idx, new_owner@, write_afterwards),
            State::GivenAwayWritten => Stage::GivenAwayWritten,
        }
    }
}

/// The system program's key, which owns accounts that no other program has taken.
pub open spec fn system_program_key() -> Seq<u8> {
    Seq::new(32, |i: int| 0u8)
}

/// The account, of those in the transaction, that an instruction names at the given position.
pub open spec fn named_account<'a>(
    tx: Transaction<'a>,
    instruction: InstructionFrame,
    position: int,
) -> Option<AccountSharedFields<'a>> {
    if 0 <= position < instruction.instruction_accounts.data@.len() {
        let index = instruction.instruction_accounts.data@[position].index_in_transaction;
        if index < tx.accounts@.len() {
            Some(tx.accounts@[index as int])
        } else {
            None
        }
    } else {
        None
    }
}

/// What the frame and the trace tell an instruction that the transaction itself has sent, when
/// the transaction has two instructions and seven accounts and nothing has been returned or
/// called yet.
pub open spec fn frame_is_as_sent(tx: Transaction, instruction: InstructionFrame) -> bool {
    &&& instruction.program_account_index_in_tx < tx.accounts@.len()
    &&& tx.frame.return_data_pubkey@
        == tx.accounts@[instruction.program_account_index_in_tx as int].key@
    &&& tx.frame.return_data_scratchpad.ptr == RETURN_DATA_SCRATCHPAD
    &&& tx.frame.return_data_scratchpad.data@.len() == 0
    &&& tx.frame.total_number_of_instructions_in_trace == 2
    &&& tx.frame.number_of_cpis_in_trace == 0
    &&& tx.frame.number_of_transaction_accounts == 7
    &&& tx.frame.cpi_scratchpad.ptr == GUEST_INSTRUCTION_DATA_BASE_ADDRESS + 2 * GUEST_REGION_SIZE
    &&& tx.frame.cpi_scratchpad.data@.len() == 0
    &&& instruction.nesting_level == 0
    &&& instruction.index_of_caller_instruction == u16::MAX
}

/// What the first of the two instructions finds.
pub open spec fn first_instruction_is_as_sent(
    tx: Transaction,
    instruction: InstructionFrame,
) -> bool {
    let accounts = instruction.instruction_accounts.data@;
    &&& accounts.len() == 2
    &&& accounts[0].is_writable && accounts[0].is_signer
    &&& !accounts[1].is_signer && !accounts[1].is_writable
    &&& named_account(tx, instruction, 0) matches Some(account) && {
        &&& account.lamports == 223450
        &&& account.owner@ == system_program_key()
        &&& account.payload.data@ == seq![1u8, 2, 3]
    }
    &&& named_account(tx, instruction, 1) matches Some(account) && {
        &&& account.lamports == 90123
        &&& account.payload.data@ == account.key@
    }
    &&& instruction.instruction_data.data@ == seq![2u8] || instruction.instruction_data.data@
        == first_name()
}

/// What the second of the two instructions finds.
pub open spec fn second_instruction_is_as_sent(
    tx: Transaction,
    instruction: InstructionFrame,
) -> bool {
    let accounts = instruction.instruction_accounts.data@;
    &&& accounts.len() == 2
    &&& !accounts[0].is_writable && accounts[0].is_signer
    &&& !accounts[1].is_signer && accounts[1].is_writable
    &&& named_account(tx, instruction, 0) matches Some(account) && {
        &&& account.lamports == 35
        &&& account.owner@ == system_program_key()
        &&& account.payload.data@ == seq![3u8, 4, 5]
        &&& named_account(tx, instruction, 1) matches Some(other) && {
            &&& other.lamports == 9123
            &&& other.owner@ == account.key@
        }
    }
    &&& instruction.instruction_data.data@ == seq![3u8] || instruction.instruction_data.data@
        == second_name()
}

/// All that a program can read of its transaction is as it was sent.
pub open spec fn valid_accesses(tx: Transaction) -> bool {
    let current = tx.frame.current_executing_instruction as int;
    &&& current < tx.trace@.len()
    &&& frame_is_as_sent(tx, tx.trace@[current])
    &&& if current == 0 {
        first_instruction_is_as_sent(tx, tx.trace@[current])
    } else {
        current == 1 && second_instruction_is_as_sent(tx, tx.trace@[current])
    }
}

/// Why the program panics when something that it can read is not as it was sent. That an account
/// of the instruction is none of the transaction counts as a failed check.
pub open spec fn access_failure(tx: Transaction) -> Reason {
    let current = tx.frame.current_executing_instruction as int;
    if current >= tx.trace@.len() || tx.trace@[current].program_account_index_in_tx
        >= tx.accounts@.len() {
        Reason::NothingThere
    } else if current > 1 && frame_is_as_sent(tx, tx.trace@[current]) {
        Reason::TooManyInstructions
    } else {
        Reason::FailedCheck
    }
}

/// Whether a key is the system program's.
fn is_system_program(key: &Pubkey) -> (is: bool)
    ensures
        is == (key@ == system_program_key()),
{
    let zeros: Pubkey = [0u8; 32];
    assert(zeros@ =~= system_program_key());
    same_key(key, &zeros)
}

fn find_named_account<'a>(
    tx: &'a Transaction<'a>,
    instruction: &InstructionFrame,
    position: usize,
) -> (account: Option<&'a AccountSharedFields<'a>>)
    ensures
        match named_account(*tx, *instruction, position as int) {
            Some(named) => account is Some && *account->0 == named,
            None => account is None,
        },
{
    if position < instruction.instruction_accounts.data.len() {
        let index: usize =
            instruction.instruction_accounts.data[position].index_in_transaction as usize;
        if index < tx.accounts.len() {
            return Some(&tx.accounts[index]);
        }
    }
    None
}

fn check_frame(tx: &Transaction, instruction: &InstructionFrame) -> (valid: bool)
    ensures
        valid == frame_is_as_sent(*tx, *instruction),
{
    let program: usize = instruction.program_account_index_in_tx as usize;
    if program >= tx.accounts.len() {
        return false;
    }
    same_key(&tx.frame.return_data_pubkey, &tx.accounts[program].key)
        && tx.frame.return_data_scratchpad.ptr == RETURN_DATA_SCRATCHPAD
        && tx.frame.return_data_scratchpad.data.len() == 0
        && tx.frame.total_number_of_instructions_in_trace == 2
        && tx.frame.number_of_cpis_in_trace == 0
        && tx.frame.number_of_transaction_accounts == 7
        && tx.frame.cpi_scratchpad.ptr == GUEST_INSTRUCTION_DATA_BASE_ADDRESS + GUEST_REGION_SIZE
        * (tx.frame.total_number_of_instructions_in_trace as u64)
        && tx.frame.cpi_scratchpad.data.len() == 0
        && instruction.nesting_level == 0
        && instruction.index_of_caller_instruction == u16::MAX
}

fn check_first_instruction(tx: &Transaction, instruction: &InstructionFrame) -> (valid: bool)
    ensures
        valid == first_instruction_is_as_sent(*tx, *instruction),
{
    let ix_accounts = instruction.instruction_accounts.data;
    if ix_accounts.len() != 2 {
        return false;
    }
    if !(ix_accounts[0].is_writable() && ix_accounts[0].is_signer()) {
        return false;
    }
    if ix_accounts[1].is_signer() || ix_accounts[1].is_writable() {
        return false;
    }
    let payload: Vec<u8> = vec![1u8, 2, 3];
    let command: Vec<u8> = vec![2u8];
    assert(payload@ =~= seq![1u8, 2, 3]);
    assert(command@ =~= seq![2u8]);
    match (find_named_account(tx, instruction, 0), find_named_account(tx, instruction, 1)) {
        (Some(acc_1), Some(acc_2)) => {
            acc_1.lamports == 223450
                && is_system_program(&acc_1.owner)
                && same_bytes(acc_1.payload.data, payload.as_slice())
                && acc_2.lamports == 90123
                && same_bytes(acc_2.payload.data, acc_2.key.as_slice())
                && (same_bytes(
                instruction.instruction_data.data,
                command.as_slice(),
            ) || is_first_name(instruction.instruction_data.data))
        },
        _ => false,
    }
}

fn check_second_instruction(tx: &Transaction, instruction: &InstructionFrame) -> (valid: bool)
    ensures
        valid == second_instruction_is_as_sent(*tx, *instruction),
{
    let ix_accounts = instruction.instruction_accounts.data;
    if ix_accounts.len() != 2 {
        return false;
    }
    if !(!ix_accounts[0].is_writable() && ix_accounts[0].is_signer()) {
        return false;
    }
    if !(!ix_accounts[1].is_signer() && ix_accounts[1].is_writable()) {
        return false;
    }
    let payload: Vec<u8> = vec![3u8, 4, 5];
    let command: Vec<u8> = vec![3u8];
    assert(payload@ =~= seq![3u8, 4, 5]);
    assert(command@ =~= seq![3u8]);
    match (find_named_account(tx, instruction, 0), find_named_account(tx, instruction, 1)) {
        (Some(acc_1), Some(acc_2)) => {
            acc_1.lamports == 35
                && is_system_program(&acc_1.owner)
                && same_bytes(acc_1.payload.data, payload.as_slice())
                && acc_2.lamports == 9123
                && same_key(&acc_2.owner, &acc_1.key)
                && (same_bytes(
                instruction.instruction_data.data,
                command.as_slice(),
            ) || is_second_name(instruction.instruction_data.data))
        },
        _ => false,
    }
}

/// Checks all that the running instruction can read of its transaction.
pub fn test_valid_accesses(tx: &Transaction) -> (checked: Result<(), Reason>)
    ensures
        checked == if valid_accesses(*tx) {
            Ok::<(), Reason>(())
        } else {
            Err(access_failure(*tx))
        },
{
    let current: usize = tx.frame.current_executing_instruction as usize;
    if current >= tx.trace.len() {
        return Err(Reason::NothingThere);
    }
    let current_ix = &tx.trace[current];
    if current_ix.program_account_index_in_tx as usize >= tx.accounts.len() {
        return Err(Reason::NothingThere);
    }
    if !check_frame(tx, current_ix) {
        return Err(Reason::FailedCheck);
    }
    let valid = if current == 0 {
        check_first_instruction(tx, current_ix)
    } else if current == 1 {
        check_second_instruction(tx, current_ix)
    } else {
        return Err(Reason::TooManyInstructions);
    };
    if valid {
        Ok(())
    } else {
        Err(Reason::FailedCheck)
    }
}

/// The text `tx accs: ` and a number.
pub open spec fn accounts_message(n: nat) -> Seq<u8> {
    seq![116u8, 120, 32, 97, 99, 99, 115, 58, 32] + decimal(n)
}

/// The text `Read: ` and a number.
pub open spec fn read_message(n: nat) -> Seq<u8> {
    seq![82u8, 101, 97, 100, 58, 32] + decimal(n)
}

/// The text `lamports: ` and a number.
pub open spec fn lamports_message(n: nat) -> Seq<u8> {
    seq![108u8, 97, 109, 112, 111, 114, 116, 115, 58, 32] + decimal(n)
}

/// The first address of the area whose index is the lower half of the given word.
pub open spec fn area_of_word(word: u64) -> u64 {
    (word % 0x1_0000_0000 * GUEST_REGION_SIZE) as u64
}

/// Bytes that the return data first has.
pub const FIRST_LENGTH: u64 = 128;

/// Bytes that the return data then has.
pub const SECOND_LENGTH: u64 = 256;

/// The byte that is written to the return data.
pub const MARK: u8 = 42;

/// The address of a byte of the return data.
pub open spec fn scratchpad_byte(offset: int) -> u64 {
    (RETURN_DATA_SCRATCHPAD + offset) as u64
}

/// The reading of an address at which nothing lies, step by step. It ends in a panic.
pub open spec fn read_invalid_regions_next(stage: Stage, tx: Transaction, value: u64) -> Next<
    Stage,
> {
    match stage {
        Stage::AccountsLogged(instruction) => if instruction < tx.trace@.len() {
            Next::Go(
                Stage::AreaRead,
                Effect::ReadWord(
                    saturating_sum(tx.trace@[instruction as int].instruction_data.ptr, 1),
                ),
            )
        } else {
            Next::Panic(Reason::NothingThere)
        },
        Stage::AreaRead => Next::Go(Stage::InvalidRead, Effect::ReadByte(area_of_word(value))),
        Stage::InvalidRead => Next::Go(
            Stage::InvalidLogged,
            Effect::Log(read_message(value as nat)),
        ),
        Stage::InvalidLogged => Next::Panic(Reason::InvalidReadPassed),
        _ => Next::Panic(Reason::OutOfTurn),
    }
}

/// The writing of 7, 8 and 9 to the first account of the instruction, step by step.
pub open spec fn write_to_account_next(address: u64, count: u64) -> Next<Stage> {
    if count < 3 {
        Next::Go(
            Stage::AccountWritten(address, (count + 1) as u64),
            Effect::Write(saturating_sum(address, count as int), seq![(7 + count) as u8]),
        )
    } else {
        Next::Exit(0)
    }
}

/// The growing of the return data, step by step: once it has its first length it must be zero
/// throughout; the mark is written to its last byte or the one after it; once it has its second
/// length the mark must stand in what was the last byte, and all that follows must be zero.
pub open spec fn return_scratchpad_next(stage: Stage, value: u64) -> Next<Stage> {
    match stage {
        Stage::ScratchpadSet(write_just_outside) => Next::Go(
            Stage::FreshRead(write_just_outside, 0),
            Effect::ReadByte(scratchpad_byte(0)),
        ),
        Stage::FreshRead(write_just_outside, offset) => if value != 0 {
            Next::Panic(Reason::FailedCheck)
        } else if offset + 1 < FIRST_LENGTH {
            Next::Go(
                Stage::FreshRead(write_just_outside, (offset + 1) as u64),
                Effect::ReadByte(scratchpad_byte(offset + 1)),
            )
        } else {
            Next::Go(
                Stage::MarkWritten,
                Effect::Write(
                    scratchpad_byte(
                        if write_just_outside {
                            FIRST_LENGTH as int
                        } else {
                            FIRST_LENGTH - 1
                        },
                    ),
                    seq![MARK],
                ),
            )
        },
        Stage::MarkWritten => Next::Go(
            Stage::ScratchpadExtended,
            Effect::SetBufferLength(RETURN_DATA_SCRATCHPAD, SECOND_LENGTH),
        ),
        Stage::ScratchpadExtended => Next::Go(
            Stage::MarkRead,
            Effect::ReadByte(scratchpad_byte(FIRST_LENGTH - 1)),
        ),
        Stage::MarkRead => if value != MARK {
            Next::Panic(Reason::FailedCheck)
        } else {
            Next::Go(
                Stage::GainedRead(FIRST_LENGTH),
                Effect::ReadByte(scratchpad_byte(FIRST_LENGTH as int)),
            )
        },
        Stage::GainedRead(offset) => if value != 0 {
            Next::Panic(Reason::FailedCheck)
        } else if offset + 1 < SECOND_LENGTH {
            Next::Go(
                Stage::GainedRead((offset + 1) as u64),
                Effect::ReadByte(scratchpad_byte(offset + 1)),
            )
        } else {
            Next::Exit(0)
        },
        _ => Next::Panic(Reason::OutOfTurn),
    }
}

/// The beginning of the growing of an account from three bytes to six.
pub open spec fn set_account_length_first(tx: Transaction, account_idx: u64) -> Next<Stage> {
    if account_idx >= tx.accounts@.len() {
        Next::Panic(Reason::OutOfBounds)
    } else if tx.accounts@[account_idx as int].payload.data@.len() != 3 {
        Next::Panic(Reason::FailedCheck)
    } else {
        let payload = tx.accounts@[account_idx as int].payload;
        Next::Go(
            Stage::AccountResized(account_idx, payload.data@ + seq![0u8, 0, 0]),
            Effect::SetBufferLength(payload.ptr, 6),
        )
    }
}

/// The end of it: the account must hold what it held, and zeros after that.
pub open spec fn set_account_length_last(
    tx: Transaction,
    account_idx: u64,
    expected: Seq<u8>,
) -> Next<Stage> {
    if account_idx >= tx.accounts@.len() {
        Next::Panic(Reason::OutOfBounds)
    } else if tx.accounts@[account_idx as int].payload.data@ == expected {
        Next::Exit(0)
    } else {
        Next::Panic(Reason::FailedCheck)
    }
}

/// The giving away of the instruction's second account, step by step. The first account holds
/// the new owner's key, and after it a byte that is 1 where the account is to be written once it
/// has been given away.
pub open spec fn assign_owner_next(stage: Stage, tx: Transaction) -> Next<Stage> {
    match stage {
        Stage::LamportsLogged(instruction) => if instruction < tx.trace@.len() {
            let ix = tx.trace@[instruction as int];
            match (named_account(tx, ix, 0), named_account(tx, ix, 1)) {
                (Some(first), Some(second)) => if first.payload.data@.len() <= 32
                    || ix.program_account_index_in_tx >= tx.accounts@.len() {
                    Next::Panic(Reason::OutOfBounds)
                } else if tx.accounts@[ix.program_account_index_in_tx as int].key@
                    != second.owner@ {
                    Next::Panic(Reason::FailedCheck)
                } else {
                    let account_idx = ix.instruction_accounts.data@[1].index_in_transaction as u64;
                    let new_owner = first.payload.data@.take(32);
                    Next::Go(
                        Stage::OwnerAssigned(account_idx, new_owner, first.payload.data@[32] == 1),
                        Effect::AssignOwner(account_idx, new_owner),
                    )
                },
                _ => Next::Panic(Reason::OutOfBounds),
            }
        } else {
            Next::Panic(Reason::NothingThere)
        },
        Stage::OwnerAssigned(account_idx, new_owner, write_afterwards) => if account_idx
            >= tx.accounts@.len() {
            Next::Panic(Reason::OutOfBounds)
        } else if tx.accounts@[account_idx as int].owner@ != new_owner {
            Next::Panic(Reason::FailedCheck)
        } else if write_afterwards {
            Next::Go(
                Stage::GivenAwayWritten,
                Effect::Write(tx.accounts@[account_idx as int].payload.ptr, seq![9u8]),
            )
        } else {
            Next::Exit(0)
        },
        Stage::GivenAwayWritten => Next::Exit(0),
        _ => Next::Panic(Reason::OutOfTurn),
    }
}

/// The first step of the running instruction, as its command has it.
pub open spec fn first_next(tx: Transaction) -> Next<Stage> {
    let current = tx.frame.current_executing_instruction;
    if current >= tx.trace@.len() {
        Next::Panic(Reason::NothingThere)
    } else {
        let ix = tx.trace@[current as int];
        match command_of(ix.instruction_data.data@) {
            None => Next::Panic(Reason::UnknownCommand),
            Some(Command::ReadInvalidRegions) => Next::Go(
                Stage::AccountsLogged(current),
                Effect::Log(accounts_message(tx.frame.number_of_transaction_accounts as nat)),
            ),
            Some(Command::WriteToAccount) => match named_account(tx, ix, 0) {
                Some(account) => write_to_account_next(account.payload.ptr, 0),
                None => Next::Panic(Reason::OutOfBounds),
            },
            Some(Command::ValidAccesses) => if valid_accesses(tx) {
                Next::Exit(0)
            } else {
                Next::Panic(access_failure(tx))
            },
            Some(Command::ReturnScratchpad { write_just_outside }) => Next::Go(
                Stage::ScratchpadSet(write_just_outside),
                Effect::SetBufferLength(RETURN_DATA_SCRATCHPAD, FIRST_LENGTH),
            ),
            Some(Command::SetAccountLength { account_idx }) => set_account_length_first(
                tx,
                account_idx,
            ),
            Some(Command::AssignOwner) => match (
                named_account(tx, ix, 0),
                named_account(tx, ix, 1),
            ) {
                (Some(first), Some(_)) => Next::Go(
                    Stage::LamportsLogged(current),
                    Effect::Log(lamports_message(first.lamports as nat)),
                ),
                _ => Next::Panic(Reason::OutOfBounds),
            },
        }
    }
}

/// What the program does from a stage on, with the transaction as memory shows it now and the
/// value that the last action read.
pub open spec fn program_next(stage: Stage, tx: Transaction, value: u64) -> Next<Stage> {
    match stage {
        Stage::Entered => first_next(tx),
        Stage::AccountsLogged(_) | Stage::AreaRead | Stage::InvalidRead | Stage::InvalidLogged =>
            read_invalid_regions_next(stage, tx, value),
        Stage::AccountWritten(address, count) => write_to_account_next(address, count),
        Stage::ScratchpadSet(_)
        | Stage::FreshRead(_, _)
        | Stage::MarkWritten
        | Stage::ScratchpadExtended
        | Stage::MarkRead
        | Stage::GainedRead(_) => return_scratchpad_next(stage, value),
        Stage::AccountResized(account_idx, expected) => set_account_length_last(
            tx,
            account_idx,
            expected,
        ),
        Stage::LamportsLogged(_) | Stage::OwnerAssigned(_, _, _) | Stage::GivenAwayWritten =>
            assign_owner_next(stage, tx),
    }
}

/// Reads an address at which nothing lies. Ends in a panic if the machine lets it get that far.
pub fn read_invalid_regions(state: State, tx: &Transaction, value: u64) -> (step: Step<State>)
    ensures
        step@ == read_invalid_regions_next(state@, *tx, value),
{
    match state {
        State::AccountsLogged { instruction } => {
            if (instruction as usize) < tx.trace.len() {
                let ptr: u64 = tx.trace[instruction as usize].instruction_data.ptr;
                Step::Go {
                    state: State::AreaRead,
                    action: Action::ReadWord { address: ptr.saturating_add(1) },
                }
            } else {
                Step::Panic(Reason::NothingThere)
            }
        },
        State::AreaRead => {
            assert(value << 32u64 == (value % 0x1_0000_0000) * 0x1_0000_0000) by (bit_vector);
            Step::Go {
                state: State::InvalidRead,
                action: Action::ReadByte { address: value << 32 },
            }
        },
        State::InvalidRead => {
            let mut message: Vec<u8> = vec![82u8, 101, 97, 100, 58, 32];
            push_decimal(&mut message, value);
            assert(message@ =~= read_message(value as nat));
            Step::Go { state: State::InvalidLogged, action: Action::Log(message) }
        },
        State::InvalidLogged => Step::Panic(Reason::InvalidReadPassed),
        _ => Step::Panic(Reason::OutOfTurn),
    }
}

/// Writes 7, 8 and 9 to the account at the address, of which `count` bytes are written.
pub fn write_to_account(address: u64, count: u64) -> (step: Step<State>)
    ensures
        step@ == write_to_account_next(address, count),
{
    if count < 3 {
        let bytes: Vec<u8> = vec![(7 + count) as u8];
        assert(bytes@ =~= seq![(7 + count) as u8]);
        Step::Go {
            state: State::AccountWritten { address, count: count + 1 },
            action: Action::Write { address: address.saturating_add(count), bytes },
        }
    } else {
        Step::Exit(0)
    }
}

/// Grows the return data and checks what it holds.
pub fn test_set_buffer_length_return_scratchpad(state: State, value: u64) -> (step: Step<State>)
    ensures
        step@ == return_scratchpad_next(state@, value),
{
    match state {
        State::ScratchpadSet { write_just_outside } => Step::Go {
            state: State::FreshRead { write_just_outside, offset: 0 },
            action: Action::ReadByte { address: RETURN_DATA_SCRATCHPAD },
        },
        State::FreshRead { write_just_outside, offset } => {
            if value != 0 {
                Step::Panic(Reason::FailedCheck)
            } else if offset < FIRST_LENGTH - 1 {
                Step::Go {
                    state: State::FreshRead { write_just_outside, offset: offset + 1 },
                    action: Action::ReadByte { address: RETURN_DATA_SCRATCHPAD + offset + 1 },
                }
            } else {
                let write_offset: u64 = if write_just_outside {
                    FIRST_LENGTH
                } else {
                    FIRST_LENGTH - 1
                };
                let bytes: Vec<u8> = vec![MARK];
                assert(bytes@ =~= seq![MARK]);
                Step::Go {
                    state: State::MarkWritten,
                    action: Action::Write { address: RETURN_DATA_SCRATCHPAD + write_offset, bytes },
                }
            }
        },
        State::MarkWritten => Step::Go {
            state: State::ScratchpadExtended,
            action: Action::SetBufferLength {
                base_address: RETURN_DATA_SCRATCHPAD,
                new_length: SECOND_LENGTH,
            },
        },
        State::ScratchpadExtended => Step::Go {
            state: State::MarkRead,
            action: Action::ReadByte { address: RETURN_DATA_SCRATCHPAD + (FIRST_LENGTH - 1) },
        },
        State::MarkRead => {
            if value != MARK as u64 {
                Step::Panic(Reason::FailedCheck)
            } else {
                Step::Go {
                    state: State::GainedRead { offset: FIRST_LENGTH },
                    action: Action::ReadByte { address: RETURN_DATA_SCRATCHPAD + FIRST_LENGTH },
                }
            }
        },
        State::GainedRead { offset } => {
            if value != 0 {
                Step::Panic(Reason::FailedCheck)
            } else if offset < SECOND_LENGTH - 1 {
                Step::Go {
                    state: State::GainedRead { offset: offset + 1 },
                    action: Action::ReadByte { address: RETURN_DATA_SCRATCHPAD + offset + 1 },
                }
            } else {
                Step::Exit(0)
            }
        },
        _ => Step::Panic(Reason::OutOfTurn),
    }
}

/// Begins to grow an account of three bytes to six.
pub fn test_set_buffer_length_account(tx: &Transaction, account_idx: u64) -> (step: Step<State>)
    ensures
        step@ == set_account_length_first(*tx, account_idx),
{
    if account_idx >= tx.accounts.len() as u64 {
        return Step::Panic(Reason::OutOfBounds);
    }
    let payload = &tx.accounts[account_idx as usize].payload;
    if payload.data.len() != 3 {
        return Step::Panic(Reason::FailedCheck);
    }
    let expected: Vec<u8> = vec![payload.data[0], payload.data[1], payload.data[2], 0, 0, 0];
    assert(expected@ =~= payload.data@ + seq![0u8, 0, 0]);
    Step::Go {
        state: State::AccountResized { account_idx, expected },
        action: Action::SetBufferLength { base_address: payload.ptr, new_length: 6 },
    }
}

/// Checks what an account holds once it has grown.
pub fn check_grown_account(tx: &Transaction, account_idx: u64, expected: &Vec<u8>) -> (step: Step<
    State,
>)
    ensures
        step@ == set_account_length_last(*tx, account_idx, expected@),
{
    if account_idx >= tx.accounts.len() as u64 {
        Step::Panic(Reason::OutOfBounds)
    } else if same_bytes(
        tx.accounts[account_idx as usize].payload.data,
        expected.as_slice(),
    ) {
        Step::Exit(0)
    } else {
        Step::Panic(Reason::FailedCheck)
    }
}

/// The first 32 of the given bytes.
fn first_key(bytes: &[u8]) -> (key: Pubkey)
    requires
        bytes@.len() >= 32,
    ensures
        key@ == bytes@.take(32),
{
    let mut key: Pubkey = [0u8; 32];
    let mut i: usize = 0;
    while i < 32
        invariant
            i <= 32,
            bytes@.len() >= 32,
            forall|j: int| 0 <= j < i ==> key@[j] == bytes@[j],
        decreases 32 - i,
    {
        key[i] = bytes[i];
        i = i + 1;
    }
    assert(key@ =~= bytes@.take(32));
    key
}

/// Gives the instruction's second account to the owner that its first account holds.
pub fn test_assign_owner(state: State, tx: &Transaction) -> (step: Step<State>)
    ensures
        step@ == assign_owner_next(state@, *tx),
{
    match state {
        State::LamportsLogged { instruction } => {
            if (instruction as usize) >= tx.trace.len() {
                return Step::Panic(Reason::NothingThere);
            }
            let ix = &tx.trace[instruction as usize];
            let program: usize = ix.program_account_index_in_tx as usize;
            match (find_named_account(tx, ix, 0), find_named_account(tx, ix, 1)) {
                (Some(first), Some(second)) => {
                    if first.payload.data.len() <= 32 || program >= tx.accounts.len() {
                        return Step::Panic(Reason::OutOfBounds);
                    }
                    if !same_key(&tx.accounts[program].key, &second.owner) {
                        return Step::Panic(Reason::FailedCheck);
                    }
                    let account_idx: u64 = ix.instruction_accounts.data[1].index_in_transaction
                        as u64;
                    let new_owner = first_key(first.payload.data);
                    Step::Go {
                        state: State::OwnerAssigned {
                            account_idx,
                            new_owner,
                            write_afterwards: first.payload.data[32] == 1,
                        },
                        action: Action::AssignOwner { account_idx, new_owner },
                    }
                },
                _ => Step::Panic(Reason::OutOfBounds),
            }
        },
        State::OwnerAssigned { account_idx, new_owner, write_afterwards } => {
            if account_idx >= tx.accounts.len() as u64 {
                Step::Panic(Reason::OutOfBounds)
            } else if !same_key(&tx.accounts[account_idx as usize].owner, &new_owner) {
                Step::Panic(Reason::FailedCheck)
            } else if write_afterwards {
                // The account is not the program's any more: this write should fail.
                let bytes: Vec<u8> = vec![9u8];
                assert(bytes@ =~= seq![9u8]);
                Step::Go {
                    state: State::GivenAwayWritten,
                    action: Action::Write {
                        address: tx.accounts[account_idx as usize].payload.ptr,
                        bytes,
                    },
                }
            } else {
                Step::Exit(0)
            }
        },
        State::GivenAwayWritten => Step::Exit(0),
        _ => Step::Panic(Reason::OutOfTurn),
    }
}

/// Takes up the command of the running instruction.
fn enter(tx: &Transaction) -> (step: Step<State>)
    ensures
        step@ == first_next(*tx),
{
    let current: u16 = tx.frame.current_executing_instruction;
    if (current as usize) >= tx.trace.len() {
        return Step::Panic(Reason::NothingThere);
    }
    let current_ix = &tx.trace[current as usize];
    match parse_command(current_ix.instruction_data.data) {
        None => Step::Panic(Reason::UnknownCommand),
        Some(Command::ReadInvalidRegions) => {
            let mut message: Vec<u8> = vec![116u8, 120, 32, 97, 99, 99, 115, 58, 32];
            push_decimal(&mut message, tx.frame.number_of_transaction_accounts as u64);
            assert(message@ =~= accounts_message(tx.frame.number_of_transaction_accounts as nat));
            Step::Go {
                state: State::AccountsLogged { instruction: current },
                action: Action::Log(message),
            }
        },
        Some(Command::WriteToAccount) => match find_named_account(tx, current_ix, 0) {
            Some(account) => write_to_account(account.payload.ptr, 0),
            None => Step::Panic(Reason::OutOfBounds),
        },
        Some(Command::ValidAccesses) => {
            match test_valid_accesses(tx) {
                Ok(()) => Step::Exit(0),
                Err(reason) => Step::Panic(reason),
            }
        },
        Some(Command::ReturnScratchpad { write_just_outside }) => Step::Go {
            state: State::ScratchpadSet { write_just_outside },
            action: Action::SetBufferLength {
                base_address: RETURN_DATA_SCRATCHPAD,
                new_length: FIRST_LENGTH,
            },
        },
        Some(Command::SetAccountLength { account_idx }) => test_set_buffer_length_account(
            tx,
            account_idx,
        ),
        Some(Command::AssignOwner) => match (
            find_named_account(tx, current_ix, 0),
            find_named_account(tx, current_ix, 1),
        ) {
            (Some(first), Some(_)) => {
                let mut message: Vec<u8> = vec![108u8, 97, 109, 112, 111, 114, 116, 115, 58, 32];
                push_decimal(&mut message, first.lamports);
                assert(message@ =~= lamports_message(first.lamports as nat));
                Step::Go {
                    state: State::LamportsLogged { instruction: current },
                    action: Action::Log(message),
                }
            },
            _ => Step::Panic(Reason::OutOfBounds),
        },
    }
}

/// Runs the program from a state to its next action. A run begins in `State::Entered`, and after
/// each action goes on from the state that came with it. `tx` is the transaction as memory shows
/// it now, and `value` what the last action read, if it read anything.
pub fn entrypoint(state: State, tx: &Transaction, value: u64) -> (step: Step<State>)
    ensures
        step@ == program_next(state@, *tx, value),
{
    match state {
        State::Entered => enter(tx),
        State::AccountWritten { address, count } => write_to_account(address, count),
        State::ScratchpadSet { .. } => test_set_buffer_length_return_scratchpad(state, value),
        State::FreshRead { .. } => test_set_buffer_length_return_scratchpad(state, value),
        State::MarkWritten => test_set_buffer_length_return_scratchpad(state, value),
        State::ScratchpadExtended => test_set_buffer_length_return_scratchpad(state, value),
        State::MarkRead => test_set_buffer_length_return_scratchpad(state, value),
        State::GainedRead { .. } => test_set_buffer_length_return_scratchpad(state, value),
        State::AccountResized { account_idx, expected } => check_grown_account(
            tx,
            account_idx,
            &expected,
        ),
        State::LamportsLogged { .. } => test_assign_owner(state, tx),
        State::OwnerAssigned { .. } => test_assign_owner(state, tx),
        State::GivenAwayWritten => test_assign_owner(state, tx),
        _ => read_invalid_regions(state, tx, value),
    }
}

/// Steps that the program takes at most from a stage on.
pub open spec fn steps_left(stage: Stage) -> int {
    match stage {
        Stage::Entered => 300,
        Stage::AccountsLogged(_) => 4,
        Stage::AreaRead => 3,
        Stage::InvalidRead => 2,
        Stage::InvalidLogged => 1,
        Stage::AccountWritten(_, count) => if count < 3 {
            4 - count
        } else {
            1
        },
        Stage::ScratchpadSet(_) => 260,
        Stage::FreshRead(_, offset) => if offset < FIRST_LENGTH {
            259 - offset
        } else {
            132
        },
        Stage::MarkWritten => 131,
        Stage::ScratchpadExtended => 130,
        Stage::MarkRead => 129,
        Stage::GainedRead(offset) => if offset < SECOND_LENGTH {
            SECOND_LENGTH - offset
        } else {
            1
        },
        Stage::AccountResized(_, _) => 1,
        Stage::LamportsLogged(_) => 3,
        Stage::OwnerAssigned(_, _, _) => 2,
        Stage::GivenAwayWritten => 1,
    }
}

/// Every run ends: each step leaves fewer steps to take.
pub proof fn lemma_runs_end(stage: Stage, tx: Transaction, value: u64)
    ensures
        steps_left(stage) > 0,
        program_next(stage, tx, value) matches Next::Go(next, _) ==> steps_left(next) < steps_left(
            stage,
        ),
{
}

/// The program never returns anything but 0.
pub proof fn lemma_exit_code_is_zero(stage: Stage, tx: Transaction, value: u64)
    ensures
        program_next(stage, tx, value) matches Next::Exit(code) ==> code == 0,
{
}

/// What the program is given at one step.
pub ghost struct Input<'a> {
    pub tx: Transaction<'a>,
    pub value: u64,
}

/// Where the program stands after the given inputs, or how it ended before.
pub open spec fn outcome(stage: Stage, inputs: Seq<Input>) -> Next<Stage>
    recommends
        inputs.len() > 0,
    decreases inputs.len(),
{
    if inputs.len() == 0 {
        Next::Panic(Reason::OutOfTurn)
    } else {
        let next = program_next(stage, inputs[0].tx, inputs[0].value);
        match next {
            Next::Go(stage, _) if inputs.len() > 1 => outcome(stage, inputs.drop_first()),
            _ => next,
        }
    }
}

/// What the program does with the given inputs, in this order.
pub open spec fn effects(stage: Stage, inputs: Seq<Input>) -> Seq<Effect>
    decreases inputs.len(),
{
    if inputs.len() == 0 {
        Seq::empty()
    } else {
        match program_next(stage, inputs[0].tx, inputs[0].value) {
            Next::Go(stage, effect) => seq![effect] + effects(stage, inputs.drop_first()),
            _ => Seq::empty(),
        }
    }
}

/// A run begins in an instruction with the given command.
pub open spec fn begins_with(inputs: Seq<Input>, command: Command) -> bool {
    let tx = inputs[0].tx;
    let current = tx.frame.current_executing_instruction;
    &&& inputs.len() > 0
    &&& current < tx.trace@.len()
    &&& command_of(tx.trace@[current as int].instruction_data.data@) == Some(command)
}

/// A program that reads an address at which nothing lies never returns.
pub proof fn lemma_invalid_reads_never_return(stage: Stage, inputs: Seq<Input>)
    requires
        stage is AccountsLogged || stage is AreaRead || stage is InvalidRead
            || stage is InvalidLogged,
    ensures
        !(outcome(stage, inputs) is Exit),
    decreases inputs.len(),
{
    if inputs.len() > 1 {
        if let Next::Go(next, _) = program_next(stage, inputs[0].tx, inputs[0].value) {
            lemma_invalid_reads_never_return(next, inputs.drop_first());
        }
    }
}

proof fn lemma_gained_bytes(offset: u64, inputs: Seq<Input>)
    requires
        FIRST_LENGTH <= offset < SECOND_LENGTH,
        inputs.len() == SECOND_LENGTH - offset,
    ensures
        outcome(Stage::GainedRead(offset), inputs) == if forall|i: int|
            0 <= i < inputs.len() ==> (#[trigger] inputs[i]).value == 0 {
            Next::<Stage>::Exit(0)
        } else {
            Next::<Stage>::Panic(Reason::FailedCheck)
        },
    decreases inputs.len(),
{
    let rest = inputs.drop_first();
    assert forall|i: int| 1 <= i < inputs.len() implies #[trigger] inputs[i] == rest[i - 1] by {}
    if inputs.len() > 1 && inputs[0].value == 0 {
        lemma_gained_bytes((offset + 1) as u64, rest);
        if forall|i: int| 0 <= i < rest.len() ==> (#[trigger] rest[i]).value == 0 {
            assert forall|i: int| 0 <= i < inputs.len() implies (#[trigger] inputs[i]).value
                == 0 by {}
        } else {
            let i = choose|i: int| 0 <= i < rest.len() && (#[trigger] rest[i]).value != 0;
            assert(inputs[i + 1].value != 0);
        }
    }
}

/// The bytes read of the return data are as they should be: zero while it is fresh, then the
/// mark, then zero for what it gains. `first` is the place of the first byte read.
pub open spec fn scratchpad_reads_are_right(inputs: Seq<Input>, first: int) -> bool {
    let mark = first + FIRST_LENGTH + 2;
    &&& forall|i: int| first <= i < first + FIRST_LENGTH ==> (#[trigger] inputs[i]).value == 0
    &&& inputs[mark].value == MARK
    &&& forall|i: int|
        mark < i <= mark + (SECOND_LENGTH - FIRST_LENGTH) ==> (#[trigger] inputs[i]).value == 0
}

proof fn lemma_fresh_bytes(write_just_outside: bool, offset: u64, inputs: Seq<Input>)
    requires
        offset < FIRST_LENGTH,
        inputs.len() == FIRST_LENGTH - offset + 3 + (SECOND_LENGTH - FIRST_LENGTH),
    ensures
        outcome(Stage::FreshRead(write_just_outside, offset), inputs)
            == if scratchpad_reads_are_right(
            Seq::new(offset as nat, |i: int| Input { value: 0, ..inputs[0] }) + inputs,
            0,
        ) {
            Next::<Stage>::Exit(0)
        } else {
            Next::<Stage>::Panic(Reason::FailedCheck)
        },
    decreases inputs.len(),
{
    let padded = Seq::new(offset as nat, |i: int| Input { value: 0, ..inputs[0] }) + inputs;
    let rest = inputs.drop_first();
    assert(padded[offset as int] == inputs[0]);
    if inputs[0].value == 0 {
        if offset + 1 < FIRST_LENGTH {
            lemma_fresh_bytes(write_just_outside, (offset + 1) as u64, rest);
            let padded_rest = Seq::new(
                (offset + 1) as nat,
                |i: int| Input { value: 0, ..rest[0] },
            ) + rest;
            assert forall|i: int| 0 <= i < padded.len() implies (#[trigger] padded[i]).value
                == padded_rest[i].value by {
                if i > offset {
                    assert(padded[i] == inputs[i - offset]);
                    assert(padded_rest[i] == rest[i - offset - 1]);
                }
            }
            assert(scratchpad_reads_are_right(padded, 0) == scratchpad_reads_are_right(
                padded_rest,
                0,
            )) by {
                if scratchpad_reads_are_right(padded, 0) {
                    assert forall|i: int| 0 <= i < FIRST_LENGTH implies (
                    #[trigger] padded_rest[i]).value == 0 by {
                        assert(padded[i].value == padded_rest[i].value);
                    }
                    assert(padded[FIRST_LENGTH + 2].value == padded_rest[FIRST_LENGTH + 2].value);
                    assert forall|i: int|
                        FIRST_LENGTH + 2 < i <= FIRST_LENGTH + 2 + (SECOND_LENGTH
                            - FIRST_LENGTH) implies (#[trigger] padded_rest[i]).value == 0 by {
                        assert(padded[i].value == padded_rest[i].value);
                    }
                }
            }
        } else {
            let written = rest;
            let extended = written.drop_first();
            let marked = extended.drop_first();
            assert(written.len() > 1 && extended.len() > 1 && marked.len() > 1);
            assert(padded[FIRST_LENGTH + 2] == marked[0]);
            let gained = marked.drop_first();
            assert(outcome(Stage::MarkWritten, written) == outcome(
                Stage::ScratchpadExtended,
                extended,
            ));
            assert(outcome(Stage::ScratchpadExtended, extended) == outcome(
                Stage::MarkRead,
                marked,
            ));
            lemma_gained_bytes(FIRST_LENGTH, gained);
            assert forall|i: int|
                FIRST_LENGTH + 2 < i <= FIRST_LENGTH + 2 + (SECOND_LENGTH
                    - FIRST_LENGTH) implies #[trigger] padded[i] == gained[i - FIRST_LENGTH
                - 3] by {}
            assert forall|i: int| 0 <= i < gained.len() implies #[trigger] gained[i]
                == padded[i + FIRST_LENGTH + 3] by {}
            assert forall|i: int| 0 <= i < FIRST_LENGTH implies (#[trigger] padded[i]).value
                == 0 by {}
        }
    }
}

/// From the moment the return data is given its first length, the program ends after as many steps
/// as there are bytes to read and actions between them, and returns if and only if all bytes
/// were as they should be, wherever it wrote the mark.
pub proof fn lemma_scratchpad_outcome(write_just_outside: bool, inputs: Seq<Input>)
    requires
        inputs.len() == 4 + SECOND_LENGTH,
    ensures
        outcome(Stage::ScratchpadSet(write_just_outside), inputs) == if scratchpad_reads_are_right(
            inputs,
            1,
        ) {
            Next::<Stage>::Exit(0)
        } else {
            Next::<Stage>::Panic(Reason::FailedCheck)
        },
{
    let rest = inputs.drop_first();
    lemma_fresh_bytes(write_just_outside, 0, rest);
    assert(Seq::new(0, |i: int| Input { value: 0, ..rest[0] }) + rest =~= rest);
    assert forall|i: int| 1 <= i < inputs.len() implies #[trigger] inputs[i] == rest[i - 1] by {}
    assert forall|i: int| 0 <= i < rest.len() implies #[trigger] rest[i] == inputs[i + 1] by {}
    assert(rest[FIRST_LENGTH + 2] == inputs[FIRST_LENGTH + 3]);
}

/// A program that grows an account returns if and only if the account then holds what it held
/// before, followed by three zeros.
pub proof fn lemma_account_growth_outcome(before: Transaction, after: Transaction, account_idx: u64)
    requires
        account_idx < before.accounts@.len(),
        before.accounts@[account_idx as int].payload.data@.len() == 3,
    ensures
        ({
            let old_data = before.accounts@[account_idx as int].payload.data@;
            set_account_length_first(before, account_idx) matches Next::Go(stage, _)
                && program_next(stage, after, 0) == if account_idx < after.accounts@.len()
                && after.accounts@[account_idx as int].payload.data@ == old_data + seq![0u8, 0, 0] {
                Next::<Stage>::Exit(0)
            } else if account_idx < after.accounts@.len() {
                Next::<Stage>::Panic(Reason::FailedCheck)
            } else {
                Next::<Stage>::Panic(Reason::OutOfBounds)
            }
        }),
{
}

/// What a program does that grows its return data: it gives it its first length, reads all of it,
/// writes the mark, gives it its second length, reads the byte that was the last, and then all
/// that was gained.
pub open spec fn scratchpad_effects(write_just_outside: bool) -> Seq<Effect> {
    let fresh = Seq::new(FIRST_LENGTH as nat, |i: int| Effect::ReadByte(scratchpad_byte(i)));
    let gained = Seq::new(
        (SECOND_LENGTH - FIRST_LENGTH) as nat,
        |i: int| Effect::ReadByte(scratchpad_byte(FIRST_LENGTH + i)),
    );
    let mark = scratchpad_byte(
        if write_just_outside {
            FIRST_LENGTH as int
        } else {
            FIRST_LENGTH - 1
        },
    );
    seq![Effect::SetBufferLength(RETURN_DATA_SCRATCHPAD, FIRST_LENGTH)] + fresh + seq![
        Effect::Write(mark, seq![MARK]),
        Effect::SetBufferLength(RETURN_DATA_SCRATCHPAD, SECOND_LENGTH),
        Effect::ReadByte(scratchpad_byte(FIRST_LENGTH - 1)),
    ] + gained
}

/// How many of these effects have been performed or are being performed at a stage.
spec fn scratchpad_effects_done(stage: Stage) -> int {
    match stage {
        Stage::ScratchpadSet(_) => 1,
        Stage::FreshRead(_, offset) => offset + 2,
        Stage::MarkWritten => FIRST_LENGTH + 2,
        Stage::ScratchpadExtended => FIRST_LENGTH + 3,
        Stage::MarkRead => FIRST_LENGTH + 4,
        Stage::GainedRead(offset) => offset + 5,
        _ => 0,
    }
}

/// A stage that a program that grows its return data gets to.
spec fn is_scratchpad_stage(stage: Stage, write_just_outside: bool) -> bool {
    match stage {
        Stage::ScratchpadSet(outside) => outside == write_just_outside,
        Stage::FreshRead(outside, offset) => outside == write_just_outside && offset < FIRST_LENGTH,
        Stage::MarkWritten | Stage::ScratchpadExtended | Stage::MarkRead => true,
        Stage::GainedRead(offset) => FIRST_LENGTH <= offset < SECOND_LENGTH,
        _ => false,
    }
}

proof fn lemma_scratchpad_effects_from(
    stage: Stage,
    inputs: Seq<Input>,
    write_just_outside: bool,
)
    requires
        is_scratchpad_stage(stage, write_just_outside),
    ensures
        ({
            let all = scratchpad_effects(write_just_outside);
            let from = scratchpad_effects_done(stage);
            let done = effects(stage, inputs);
            &&& from + done.len() <= all.len()
            &&& done.len() <= inputs.len()
            &&& done == all.subrange(from, from + done.len())
            &&& inputs.len() > 0 && outcome(stage, inputs) is Exit ==> {
                &&& from + done.len() == all.len()
                &&& outcome(stage, inputs) == Next::<Stage>::Exit(0)
            }
        }),
    decreases inputs.len(),
{
    let all = scratchpad_effects(write_just_outside);
    let from = scratchpad_effects_done(stage);
    if inputs.len() > 0 {
        let rest = inputs.drop_first();
        if let Next::Go(next, effect) = program_next(stage, inputs[0].tx, inputs[0].value) {
            assert(effect == all[from]);
            lemma_scratchpad_effects_from(next, rest, write_just_outside);
        }
    }
    let done = effects(stage, inputs);
    assert(done =~= all.subrange(from, from + done.len()));
}

/// A whole run of a program that grows its return data. However far it gets, it does what such a
/// program does in that order, and nothing else; if it returns, it has done all of it. Given all
/// the inputs that there are for it, it returns if and only if all bytes were as they should be.
pub proof fn lemma_scratchpad_run(inputs: Seq<Input>, write_just_outside: bool)
    requires
        begins_with(inputs, Command::ReturnScratchpad { write_just_outside }),
    ensures
        ({
            let done = effects(Stage::Entered, inputs);
            let all = scratchpad_effects(write_just_outside);
            let end = outcome(Stage::Entered, inputs);
            &&& done.len() <= all.len()
            &&& done == all.take(done.len() as int)
            &&& end is Exit ==> end == Next::<Stage>::Exit(0) && done == all
            &&& inputs.len() == all.len() + 1 ==> (end is Exit <==> scratchpad_reads_are_right(
                inputs,
                2,
            ))
        }),
{
    let all = scratchpad_effects(write_just_outside);
    let rest = inputs.drop_first();
    let next = Stage::ScratchpadSet(write_just_outside);
    lemma_scratchpad_effects_from(next, rest, write_just_outside);
    let done = effects(Stage::Entered, inputs);
    assert(done == seq![all[0]] + effects(next, rest));
    assert(done =~= all.take(done.len() as int));
    assert(all.take(all.len() as int) =~= all);
    if inputs.len() == all.len() + 1 {
        lemma_scratchpad_outcome(write_just_outside, rest);
        assert forall|i: int| 1 <= i < inputs.len() implies #[trigger] inputs[i]
            == rest[i - 1] by {}
        assert forall|i: int| 0 <= i < rest.len() implies #[trigger] rest[i] == inputs[i + 1] by {}
        assert(rest[FIRST_LENGTH + 3] == inputs[FIRST_LENGTH + 4]);
    }
}

/// What a program does that writes to an account at an address.
pub open spec fn account_write_effects(address: u64) -> Seq<Effect> {
    Seq::new(3, |i: int| Effect::Write(saturating_sum(address, i), seq![(7 + i) as u8]))
}

/// A whole run of a program that writes to an account: it writes 7, 8 and 9 to the first three
/// bytes of its first account, in this order, does nothing else, and then returns.
pub proof fn lemma_account_write_run(inputs: Seq<Input>, account: AccountSharedFields)
    requires
        begins_with(inputs, Command::WriteToAccount),
        named_account(
            inputs[0].tx,
            inputs[0].tx.trace@[inputs[0].tx.frame.current_executing_instruction as int],
            0,
        ) == Some(account),
    ensures
        ({
            let done = effects(Stage::Entered, inputs);
            let all = account_write_effects(account.payload.ptr);
            let end = outcome(Stage::Entered, inputs);
            &&& done.len() <= 3
            &&& done == all.take(done.len() as int)
            &&& end is Exit <==> inputs.len() >= 4
            &&& end is Exit ==> end == Next::<Stage>::Exit(0) && done == all
            &&& !(end is Panic)
        }),
{
    reveal_with_fuel(outcome, 5);
    reveal_with_fuel(effects, 5);
    let done = effects(Stage::Entered, inputs);
    let all = account_write_effects(account.payload.ptr);
    assert(done =~= all.take(done.len() as int));
    assert(all.take(3) =~= all);
}

/// A whole run of a program that grows an account: it sets one length, and does nothing else. It
/// returns if and only if the account had three bytes and then holds them, followed by three
/// zeros.
pub proof fn lemma_account_growth_run(inputs: Seq<Input>, account_idx: u64)
    requires
        begins_with(inputs, Command::SetAccountLength { account_idx }),
    ensures
        ({
            let done = effects(Stage::Entered, inputs);
            let before = inputs[0].tx.accounts@;
            let after = inputs[1].tx.accounts@;
            let idx = account_idx as int;
            let grows = idx < before.len() && before[idx].payload.data@.len() == 3;
            &&& done == if grows {
                seq![Effect::SetBufferLength(before[idx].payload.ptr, 6)]
            } else {
                Seq::<Effect>::empty()
            }
            &&& outcome(Stage::Entered, inputs) is Exit <==> {
                &&& grows
                &&& inputs.len() >= 2
                &&& idx < after.len()
                &&& after[idx].payload.data@ == before[idx].payload.data@ + seq![0u8, 0, 0]
            }
        }),
{
    reveal_with_fuel(outcome, 3);
    reveal_with_fuel(effects, 3);
    let done = effects(Stage::Entered, inputs);
    if done.len() > 0 {
        assert(done =~= seq![done[0]]);
    }
}

/// A whole run of a program that checks all that it can read: it does nothing but read, and
/// returns if and only if all is as it was sent.
pub proof fn lemma_valid_accesses_run(inputs: Seq<Input>)
    requires
        begins_with(inputs, Command::ValidAccesses),
    ensures
        effects(Stage::Entered, inputs) == Seq::<Effect>::empty(),
        outcome(Stage::Entered, inputs) == if valid_accesses(inputs[0].tx) {
            Next::<Stage>::Exit(0)
        } else {
            Next::<Stage>::Panic(access_failure(inputs[0].tx))
        },
{
}

/// A program that gives an account away goes on only if the account was its own before and is the
/// new owner's afterwards.
pub proof fn lemma_owner_is_assigned(stage: Stage, tx: Transaction, value: u64)
    ensures
        program_next(stage, tx, value) matches Next::Go(
            Stage::OwnerAssigned(account_idx, new_owner, _),
            effect,
        ) ==> {
            &&& stage matches Stage::LamportsLogged(instruction) && {
                let program = tx.trace@[instruction as int].program_account_index_in_tx;
                &&& account_idx < tx.accounts@.len()
                &&& tx.accounts@[account_idx as int].owner@ == tx.accounts@[program as int].key@
            }
            &&& effect == Effect::AssignOwner(account_idx, new_owner)
        },
        stage matches Stage::OwnerAssigned(account_idx, new_owner, _) ==> (!(program_next(
            stage,
            tx,
            value,
        ) is Panic) <==> account_idx < tx.accounts@.len() && tx.accounts@[account_idx as int].owner@
            == new_owner),
{
}

/// A whole run of a program that reads an address at which nothing lies: it logs the number of
/// accounts, reads the area from behind its command, reads that area's first byte, logs it should
/// the machine have let the read pass, and never returns.
pub proof fn lemma_invalid_read_run(inputs: Seq<Input>)
    requires
        begins_with(inputs, Command::ReadInvalidRegions),
    ensures
        ({
            let done = effects(Stage::Entered, inputs);
            let current = inputs[0].tx.frame.current_executing_instruction as int;
            &&& !(outcome(Stage::Entered, inputs) is Exit)
            &&& done.len() <= 4
            &&& done[0] == Effect::Log(
                accounts_message(inputs[0].tx.frame.number_of_transaction_accounts as nat),
            )
            &&& done.len() > 1 ==> done[1] == Effect::ReadWord(
                saturating_sum(inputs[1].tx.trace@[current].instruction_data.ptr, 1),
            )
            &&& done.len() > 2 ==> done[2] == Effect::ReadByte(area_of_word(inputs[2].value))
            &&& done.len() > 3 ==> done[3] == Effect::Log(read_message(inputs[3].value as nat))
            &&& done.len() == 4 && inputs.len() > 4 ==> outcome(Stage::Entered, inputs)
                == Next::<Stage>::Panic(Reason::InvalidReadPassed)
        }),
{
    reveal_with_fuel(outcome, 6);
    reveal_with_fuel(effects, 6);
}

/// A whole run of a program that gives an account away. If it returns, it has given its second
/// account, which was its own, to the owner whose key its first account holds, and has found the
/// account to be that owner's; it has then written to the account if and only if it was told to.
pub proof fn lemma_owner_run(inputs: Seq<Input>)
    requires
        begins_with(inputs, Command::AssignOwner),
        outcome(Stage::Entered, inputs) is Exit,
    ensures
        inputs.len() >= 3,
        ({
            let done = effects(Stage::Entered, inputs);
            let ix =
                inputs[1].tx.trace@[inputs[0].tx.frame.current_executing_instruction as int];
            let first = named_account(inputs[1].tx, ix, 0);
            let second = named_account(inputs[1].tx, ix, 1);
            let given = ix.instruction_accounts.data@[1].index_in_transaction;
            let new_owner = first->0.payload.data@.take(32);
            let writes = first->0.payload.data@[32] == 1;
            &&& first is Some && first->0.payload.data@.len() > 32
            &&& second is Some && second->0.owner@
                == inputs[1].tx.accounts@[ix.program_account_index_in_tx as int].key@
            &&& done.len() == if writes {
                3
            } else {
                2int
            }
            &&& done[0] is Log
            &&& done[1] == Effect::AssignOwner(given as u64, new_owner)
            &&& given < inputs[2].tx.accounts@.len()
            &&& inputs[2].tx.accounts@[given as int].owner@ == new_owner
            &&& writes ==> done[2] == Effect::Write(
                inputs[2].tx.accounts@[given as int].payload.ptr,
                seq![9u8],
            )
        }),
{
    reveal_with_fuel(outcome, 5);
    reveal_with_fuel(effects, 5);
}

/// The first byte of instruction data is its command, whatever follows it; only the texts `IX1`
/// and `IX2` are known by more than that.
pub proof fn lemma_first_byte_is_the_command(data: Seq<u8>)
    ensures
        data.len() == 0 ==> command_of(data) is None,
        data.len() > 0 && data[0] == 0 ==> command_of(data) == Some(Command::ReadInvalidRegions),
        data.len() > 0 && data[0] == 1 ==> command_of(data) == Some(Command::WriteToAccount),
        data.len() > 0 && data[0] == 2 ==> command_of(data) == Some(Command::ValidAccesses),
        data.len() > 0 && data[0] == 3 ==> command_of(data) == Some(Command::ValidAccesses),
        data.len() > 0 && data[0] == 4 ==> command_of(data) == Some(
            Command::ReturnScratchpad { write_just_outside: false },
        ),
        data.len() > 0 && data[0] == 5 ==> command_of(data) == Some(
            Command::ReturnScratchpad { write_just_outside: true },
        ),
        data.len() > 0 && data[0] == 6 ==> command_of(data) == Some(
            Command::SetAccountLength { account_idx: 1 },
        ),
        data.len() > 0 && data[0] == 7 ==> command_of(data) == Some(
            Command::SetAccountLength { account_idx: 3 },
        ),
        data.len() > 0 && data[0] == 8 ==> command_of(data) == Some(
            Command::SetAccountLength { account_idx: 2 },
        ),
        data.len() > 0 && data[0] == 9 ==> command_of(data) == Some(Command::AssignOwner),
        data == seq![73u8, 88, 49] || data == seq![73u8, 88, 50] ==> command_of(data) == Some(
            Command::ValidAccesses,
        ),
        data.len() > 0 && data[0] > 9 && data != seq![73u8, 88, 49] && data != seq![73u8, 88, 50]
            ==> command_of(data) is None,
{
}

/// A state stands for the stage of the same name, with all that the state holds.
pub proof fn lemma_state_stands_for_its_parts(state: State)
    ensures
        state is Entered ==> state@ == Stage::Entered,
        state matches State::AccountsLogged { instruction } ==> state@ == Stage::AccountsLogged(
            instruction,
        ),
        state is AreaRead ==> state@ == Stage::AreaRead,
        state is InvalidRead ==> state@ == Stage::InvalidRead,
        state is InvalidLogged ==> state@ == Stage::InvalidLogged,
        state matches State::AccountWritten { address, count } ==> state@ == Stage::AccountWritten(
            address,
            count,
        ),
        state matches State::ScratchpadSet { write_just_outside } ==> state@
            == Stage::ScratchpadSet(write_just_outside),
        state matches State::FreshRead { write_just_outside, offset } ==> state@
            == Stage::FreshRead(write_just_outside, offset),
        state is MarkWritten ==> state@ == Stage::MarkWritten,
        state is ScratchpadExtended ==> state@ == Stage::ScratchpadExtended,
        state is MarkRead ==> state@ == Stage::MarkRead,
        state matches State::GainedRead { offset } ==> state@ == Stage::GainedRead(offset),
        state matches State::AccountResized { account_idx, expected } ==> state@
            == Stage::AccountResized(account_idx, expected@),
        state matches State::LamportsLogged { instruction } ==> state@ == Stage::LamportsLogged(
            instruction,
        ),
        state matches State::OwnerAssigned { account_idx, new_owner, write_afterwards } ==> state@
            == Stage::OwnerAssigned(account_idx, new_owner@, write_afterwards),
        state is GivenAwayWritten ==> state@ == Stage::GivenAwayWritten,
{
}

/// The bytes of the running instruction's data, for an instruction that is in the trace.
pub open spec fn running_data(tx: Transaction) -> Seq<u8> {
    tx.trace@[tx.frame.current_executing_instruction as int].instruction_data.data@
}

/// The accounts that the running instruction names.
pub open spec fn running_accounts(tx: Transaction) -> Seq<InstructionAccount> {
    tx.trace@[tx.frame.current_executing_instruction as int].instruction_accounts.data@
}

/// An instruction that is not in the trace, or whose command is not known, does nothing and
/// panics.
pub proof fn lemma_nothing_is_done_without_a_command(tx: Transaction, value: u64)
    ensures
        tx.frame.current_executing_instruction >= tx.trace@.len() ==> program_next(
            Stage::Entered,
            tx,
            value,
        ) == Next::<Stage>::Panic(Reason::NothingThere),
        tx.frame.current_executing_instruction < tx.trace@.len() && (running_data(tx).len() == 0
            || running_data(tx)[0] > 9 && running_data(tx) != seq![73u8, 88, 49] && running_data(
            tx,
        ) != seq![73u8, 88, 50]) ==> program_next(Stage::Entered, tx, value)
            == Next::<Stage>::Panic(Reason::UnknownCommand),
{
    lemma_first_byte_is_the_command(running_data(tx));
}

/// However many accounts the instruction names, the first write of the command 1 goes to the first
/// byte of the account that the instruction names first; the command panics only where there is
/// no such account.
pub proof fn lemma_first_account_is_written(tx: Transaction, value: u64)
    requires
        tx.frame.current_executing_instruction < tx.trace@.len(),
        running_data(tx).len() > 0,
        running_data(tx)[0] == 1,
    ensures
        ({
            let accounts = running_accounts(tx);
            let next = program_next(Stage::Entered, tx, value);
            if accounts.len() > 0 && accounts[0].index_in_transaction < tx.accounts@.len() {
                let address = tx.accounts@[accounts[0].index_in_transaction as int].payload.ptr;
                next == Next::Go(
                    Stage::AccountWritten(address, 1),
                    Effect::Write(address, seq![7u8]),
                )
            } else {
                next == Next::<Stage>::Panic(Reason::OutOfBounds)
            }
        }),
{
    lemma_first_byte_is_the_command(running_data(tx));
    lemma_write_by_write(
        tx.accounts@[running_accounts(tx)[0].index_in_transaction as int].payload.ptr,
        tx,
        value,
    );
}

/// A program that writes to an account writes 7, 8 and 9 to the address and the two after it, none
/// beyond the highest address, and then returns 0.
pub proof fn lemma_write_by_write(address: u64, tx: Transaction, value: u64)
    ensures
        ({
            let second = if address == 0xffff_ffff_ffff_ffff {
                address as int
            } else {
                address + 1
            };
            let third = if address >= 0xffff_ffff_ffff_fffe {
                0xffff_ffff_ffff_ffff
            } else {
                address + 2
            };
            &&& write_to_account_next(address, 0) == Next::Go(
                Stage::AccountWritten(address, 1),
                Effect::Write(address, seq![7u8]),
            )
            &&& write_to_account_next(address, 1) == Next::Go(
                Stage::AccountWritten(address, 2),
                Effect::Write(second as u64, seq![8u8]),
            )
            &&& write_to_account_next(address, 2) == Next::Go(
                Stage::AccountWritten(address, 3),
                Effect::Write(third as u64, seq![9u8]),
            )
            &&& forall|count: u64|
                count >= 3 ==> #[trigger] write_to_account_next(address, count)
                    == Next::<Stage>::Exit(0)
            &&& forall|count: u64| #[trigger]
                program_next(Stage::AccountWritten(address, count), tx, value)
                    == write_to_account_next(address, count)
        }),
{
}

/// A whole run of the command 1, in terms of the transaction alone: once it returns, the writes of
/// 7, 8 and 9 to the account that the instruction names first are all that it has done.
pub proof fn lemma_write_run_reaches_the_first_account(inputs: Seq<Input>)
    requires
        inputs.len() >= 4,
        inputs[0].tx.frame.current_executing_instruction < inputs[0].tx.trace@.len(),
        running_data(inputs[0].tx).len() > 0,
        running_data(inputs[0].tx)[0] == 1,
        running_accounts(inputs[0].tx).len() > 0,
        running_accounts(inputs[0].tx)[0].index_in_transaction < inputs[0].tx.accounts@.len(),
        inputs[0].tx.accounts@[running_accounts(
            inputs[0].tx,
        )[0].index_in_transaction as int].payload.ptr + 2 <= u64::MAX,
    ensures
        ({
            let tx = inputs[0].tx;
            let address = tx.accounts@[running_accounts(
                tx,
            )[0].index_in_transaction as int].payload.ptr;
            &&& outcome(Stage::Entered, inputs) == Next::<Stage>::Exit(0)
            &&& effects(Stage::Entered, inputs) == seq![
                Effect::Write(address, seq![7u8]),
                Effect::Write((address + 1) as u64, seq![8u8]),
                Effect::Write((address + 2) as u64, seq![9u8]),
            ]
        }),
{
    let tx = inputs[0].tx;
    let address = tx.accounts@[running_accounts(tx)[0].index_in_transaction as int].payload.ptr;
    lemma_first_account_is_written(tx, inputs[0].value);
    lemma_write_by_write(address, tx, 0);
    reveal_with_fuel(outcome, 5);
    reveal_with_fuel(effects, 5);
    assert(effects(Stage::Entered, inputs) =~= seq![
        Effect::Write(address, seq![7u8]),
        Effect::Write((address + 1) as u64, seq![8u8]),
        Effect::Write((address + 2) as u64, seq![9u8]),
    ]);
}

/// The command 0 logs how many accounts the transaction has, reads the word behind its own byte,
/// reads the first byte of the area whose index is the lower half of that word, and should the
/// machine have let it, logs what it read and panics.
pub proof fn lemma_invalid_read_by_step(tx: Transaction, instruction: u16, value: u64)
    ensures
        tx.frame.current_executing_instruction < tx.trace@.len() && running_data(tx).len() > 0
            && running_data(tx)[0] == 0 ==> program_next(Stage::Entered, tx, value) == Next::Go(
            Stage::AccountsLogged(tx.frame.current_executing_instruction),
            Effect::Log(
                seq![116u8, 120, 32, 97, 99, 99, 115, 58, 32] + decimal(
                    tx.frame.number_of_transaction_accounts as nat,
                ),
            ),
        ),
        instruction >= tx.trace@.len() ==> program_next(
            Stage::AccountsLogged(instruction),
            tx,
            value,
        ) == Next::<Stage>::Panic(Reason::NothingThere),
        instruction < tx.trace@.len() ==> (program_next(
            Stage::AccountsLogged(instruction),
            tx,
            value,
        ) matches Next::Go(next, Effect::ReadWord(address)) && next == Stage::AreaRead && address
            == if tx.trace@[instruction as int].instruction_data.ptr == 0xffff_ffff_ffff_ffff {
            0xffff_ffff_ffff_ffff
        } else {
            tx.trace@[instruction as int].instruction_data.ptr + 1
        }),
        program_next(Stage::AreaRead, tx, value) matches Next::Go(
            next,
            Effect::ReadByte(address),
        ) && next == Stage::InvalidRead && address % 0x1_0000_0000 == 0 && address / 0x1_0000_0000
            == value % 0x1_0000_0000,
        program_next(Stage::InvalidRead, tx, value) == Next::Go(
            Stage::InvalidLogged,
            Effect::Log(seq![82u8, 101, 97, 100, 58, 32] + decimal(value as nat)),
        ),
        program_next(Stage::InvalidLogged, tx, value) == Next::<Stage>::Panic(
            Reason::InvalidReadPassed,
        ),
{
    lemma_first_byte_is_the_command(running_data(tx));
}

/// The commands 4 and 5 give the return data 128 bytes, read each of them and panic unless it is
/// zero, write 42 to the last or to the one behind it, give the return data 256 bytes, read the
/// byte that was the last and panic unless it is 42, read each of those that were gained and panic
/// unless it is zero, and then return 0.
pub proof fn lemma_scratchpad_by_step(tx: Transaction, outside: bool, offset: u64, value: u64)
    ensures
        tx.frame.current_executing_instruction < tx.trace@.len() && running_data(tx).len() > 0 && (
        running_data(tx)[0] == 4 || running_data(tx)[0] == 5) ==> program_next(
            Stage::Entered,
            tx,
            value,
        ) == Next::Go(
            Stage::ScratchpadSet(running_data(tx)[0] == 5),
            Effect::SetBufferLength(0x7_0000_0000, 128),
        ),
        program_next(Stage::ScratchpadSet(outside), tx, value) == Next::Go(
            Stage::FreshRead(outside, 0),
            Effect::ReadByte(0x7_0000_0000),
        ),
        value != 0 ==> program_next(Stage::FreshRead(outside, offset), tx, value)
            == Next::<Stage>::Panic(Reason::FailedCheck),
        value == 0 && offset < 127 ==> program_next(Stage::FreshRead(outside, offset), tx, value)
            == Next::Go(
            Stage::FreshRead(outside, (offset + 1) as u64),
            Effect::ReadByte((0x7_0000_0001 + offset) as u64),
        ),
        value == 0 && offset >= 127 ==> program_next(Stage::FreshRead(outside, offset), tx, value)
            == Next::Go(
            Stage::MarkWritten,
            Effect::Write(
                if outside {
                    0x7_0000_0080
                } else {
                    0x7_0000_007f
                },
                seq![42u8],
            ),
        ),
        program_next(Stage::MarkWritten, tx, value) == Next::Go(
            Stage::ScratchpadExtended,
            Effect::SetBufferLength(0x7_0000_0000, 256),
        ),
        program_next(Stage::ScratchpadExtended, tx, value) == Next::Go(
            Stage::MarkRead,
            Effect::ReadByte(0x7_0000_007f),
        ),
        program_next(Stage::MarkRead, tx, value) == if value == 42 {
            Next::Go(Stage::GainedRead(128), Effect::ReadByte(0x7_0000_0080))
        } else {
            Next::<Stage>::Panic(Reason::FailedCheck)
        },
        value != 0 ==> program_next(Stage::GainedRead(offset), tx, value) == Next::<Stage>::Panic(
            Reason::FailedCheck,
        ),
        value == 0 && offset < 255 ==> program_next(Stage::GainedRead(offset), tx, value)
            == Next::Go(
            Stage::GainedRead((offset + 1) as u64),
            Effect::ReadByte((0x7_0000_0001 + offset) as u64),
        ),
        value == 0 && offset >= 255 ==> program_next(Stage::GainedRead(offset), tx, value)
            == Next::<Stage>::Exit(0),
{
    lemma_first_byte_is_the_command(running_data(tx));
}

/// The commands 6, 7 and 8 grow the transaction's account 1, 3 or 2 from three bytes to six, and
/// then return 0 if it holds what it held and three zeros after that. They panic where the account
/// is not there, or does not have three bytes, or holds anything else afterwards.
pub proof fn lemma_account_growth_by_step(tx: Transaction, later: Transaction, value: u64)
    requires
        tx.frame.current_executing_instruction < tx.trace@.len(),
        running_data(tx).len() > 0,
        6 <= running_data(tx)[0] <= 8,
    ensures
        ({
            let command = running_data(tx)[0];
            let idx: int = if command == 6 {
                1
            } else if command == 7 {
                3
            } else {
                2
            };
            let next = program_next(Stage::Entered, tx, value);
            let held = tx.accounts@[idx].payload.data@;
            &&& idx >= tx.accounts@.len() ==> next == Next::<Stage>::Panic(Reason::OutOfBounds)
            &&& idx < tx.accounts@.len() && held.len() != 3 ==> next == Next::<Stage>::Panic(
                Reason::FailedCheck,
            )
            &&& idx < tx.accounts@.len() && held.len() == 3 ==> {
                &&& next matches Next::Go(stage, Effect::SetBufferLength(address, length))
                &&& address == tx.accounts@[idx].payload.ptr
                &&& length == 6
                &&& idx >= later.accounts@.len() ==> program_next(stage, later, value)
                    == Next::<Stage>::Panic(Reason::OutOfBounds)
                &&& idx < later.accounts@.len() ==> program_next(stage, later, value)
                    == if later.accounts@[idx].payload.data@ == seq![
                    held[0],
                    held[1],
                    held[2],
                    0u8,
                    0u8,
                    0u8,
                ] {
                    Next::<Stage>::Exit(0)
                } else {
                    Next::<Stage>::Panic(Reason::FailedCheck)
                }
            }
        }),
{
    let command = running_data(tx)[0];
    let idx: int = if command == 6 {
        1
    } else if command == 7 {
        3
    } else {
        2
    };
    let held = tx.accounts@[idx].payload.data@;
    lemma_first_byte_is_the_command(running_data(tx));
    if held.len() == 3 {
        assert(held + seq![0u8, 0, 0] =~= seq![held[0], held[1], held[2], 0u8, 0u8, 0u8]);
    }
}

/// The growing of any account, whichever command asks for it.
pub proof fn lemma_any_account_growth(tx: Transaction, account_idx: u64, expected: Seq<u8>)
    ensures
        account_idx >= tx.accounts@.len() ==> {
            &&& set_account_length_first(tx, account_idx) == Next::<Stage>::Panic(
                Reason::OutOfBounds,
            )
            &&& set_account_length_last(tx, account_idx, expected) == Next::<Stage>::Panic(
                Reason::OutOfBounds,
            )
        },
        account_idx < tx.accounts@.len() ==> {
            let payload = tx.accounts@[account_idx as int].payload;
            &&& payload.data@.len() != 3 ==> set_account_length_first(tx, account_idx)
                == Next::<Stage>::Panic(Reason::FailedCheck)
            &&& payload.data@.len() == 3 ==> set_account_length_first(tx, account_idx) == Next::Go(
                Stage::AccountResized(
                    account_idx,
                    seq![payload.data@[0], payload.data@[1], payload.data@[2], 0u8, 0u8, 0u8],
                ),
                Effect::SetBufferLength(payload.ptr, 6),
            )
            &&& set_account_length_last(tx, account_idx, expected) == if payload.data@
                == expected {
                Next::<Stage>::Exit(0)
            } else {
                Next::<Stage>::Panic(Reason::FailedCheck)
            }
        },
{
    let data = tx.accounts@[account_idx as int].payload.data@;
    if data.len() == 3 {
        assert(data + seq![0u8, 0, 0] =~= seq![data[0], data[1], data[2], 0u8, 0u8, 0u8]);
    }
}

/// The command 9 logs the lamports of the account that the instruction names first. It panics
/// where the instruction does not name two accounts of the transaction.
pub proof fn lemma_lamports_are_logged(tx: Transaction, value: u64)
    requires
        tx.frame.current_executing_instruction < tx.trace@.len(),
        running_data(tx).len() > 0,
        running_data(tx)[0] == 9,
    ensures
        ({
            let accounts = running_accounts(tx);
            program_next(Stage::Entered, tx, value) == if accounts.len() > 1
                && accounts[0].index_in_transaction < tx.accounts@.len()
                && accounts[1].index_in_transaction < tx.accounts@.len() {
                Next::Go(
                    Stage::LamportsLogged(tx.frame.current_executing_instruction),
                    Effect::Log(
                        seq![108u8, 97, 109, 112, 111, 114, 116, 115, 58, 32] + decimal(
                            tx.accounts@[accounts[0].index_in_transaction as int].lamports as nat,
                        ),
                    ),
                )
            } else {
                Next::<Stage>::Panic(Reason::OutOfBounds)
            }
        }),
{
    lemma_first_byte_is_the_command(running_data(tx));
}

/// The command 9 then gives the account that the instruction names second, which must be its
/// program's own, to the owner whose key are the first 32 bytes of the account that it names first.
/// The byte behind the key says by being 1 that the account is to be written afterwards.
pub proof fn lemma_owner_comes_from_the_first_account(
    tx: Transaction,
    instruction: u16,
    value: u64,
)
    ensures
        ({
            let next = program_next(Stage::LamportsLogged(instruction), tx, value);
            let ix = tx.trace@[instruction as int];
            let accounts = ix.instruction_accounts.data@;
            let first = tx.accounts@[accounts[0].index_in_transaction as int];
            let second = tx.accounts@[accounts[1].index_in_transaction as int];
            let program = ix.program_account_index_in_tx;
            let reachable = {
                &&& accounts.len() > 1
                &&& accounts[0].index_in_transaction < tx.accounts@.len()
                &&& accounts[1].index_in_transaction < tx.accounts@.len()
                &&& first.payload.data@.len() > 32
                &&& program < tx.accounts@.len()
            };
            let own = second.owner@ == tx.accounts@[program as int].key@;
            &&& instruction >= tx.trace@.len() ==> next == Next::<Stage>::Panic(
                Reason::NothingThere,
            )
            &&& instruction < tx.trace@.len() && !reachable ==> next == Next::<Stage>::Panic(
                Reason::OutOfBounds,
            )
            &&& instruction < tx.trace@.len() && reachable && !own ==> next
                == Next::<Stage>::Panic(Reason::FailedCheck)
            &&& instruction < tx.trace@.len() && reachable && own ==> {
                &&& next matches Next::Go(
                    Stage::OwnerAssigned(given, new_owner, write_afterwards),
                    Effect::AssignOwner(account_idx, assigned),
                )
                &&& given == accounts[1].index_in_transaction
                &&& account_idx == accounts[1].index_in_transaction
                &&& assigned == new_owner
                &&& new_owner.len() == 32
                &&& forall|i: int| 0 <= i < 32 ==> #[trigger] new_owner[i] == first.payload.data@[i]
                &&& write_afterwards == (first.payload.data@[32] == 1)
            }
        }),
{
}

/// Once the account has been given away, the program panics unless it is the new owner's. It then
/// writes 9 to the account's first byte if it was told to, and in any case returns 0.
pub proof fn lemma_given_account_is_checked(
    tx: Transaction,
    account_idx: u64,
    new_owner: Seq<u8>,
    write_afterwards: bool,
    value: u64,
)
    ensures
        ({
            let next = program_next(
                Stage::OwnerAssigned(account_idx, new_owner, write_afterwards),
                tx,
                value,
            );
            let account = tx.accounts@[account_idx as int];
            &&& account_idx >= tx.accounts@.len() ==> next == Next::<Stage>::Panic(
                Reason::OutOfBounds,
            )
            &&& account_idx < tx.accounts@.len() && account.owner@ != new_owner ==> next
                == Next::<Stage>::Panic(Reason::FailedCheck)
            &&& account_idx < tx.accounts@.len() && account.owner@ == new_owner ==> next
                == if write_afterwards {
                Next::Go(Stage::GivenAwayWritten, Effect::Write(account.payload.ptr, seq![9u8]))
            } else {
                Next::<Stage>::Exit(0)
            }
            &&& program_next(Stage::GivenAwayWritten, tx, value) == Next::<Stage>::Exit(0)
        }),
{
}

/// A part of the program that is asked to go on in a stage of another part panics.
pub proof fn lemma_parts_keep_to_their_stages(stage: Stage, tx: Transaction, value: u64)
    ensures
        !(stage is AccountsLogged || stage is AreaRead || stage is InvalidRead
            || stage is InvalidLogged) ==> read_invalid_regions_next(stage, tx, value)
            == Next::<Stage>::Panic(Reason::OutOfTurn),
        !(stage is ScratchpadSet || stage is FreshRead || stage is MarkWritten
            || stage is ScratchpadExtended || stage is MarkRead || stage is GainedRead)
            ==> return_scratchpad_next(stage, value) == Next::<Stage>::Panic(Reason::OutOfTurn),
        !(stage is LamportsLogged || stage is OwnerAssigned || stage is GivenAwayWritten)
            ==> assign_owner_next(stage, tx) == Next::<Stage>::Panic(Reason::OutOfTurn),
        stage is AccountsLogged || stage is AreaRead || stage is InvalidRead
            || stage is InvalidLogged ==> program_next(stage, tx, value)
            == read_invalid_regions_next(stage, tx, value),
        stage is ScratchpadSet || stage is FreshRead || stage is MarkWritten
            || stage is ScratchpadExtended || stage is MarkRead || stage is GainedRead
            ==> program_next(stage, tx, value) == return_scratchpad_next(stage, value),
        stage is LamportsLogged || stage is OwnerAssigned || stage is GivenAwayWritten
            ==> program_next(stage, tx, value) == assign_owner_next(stage, tx),
        stage matches Stage::AccountResized(account_idx, expected) ==> program_next(
            stage,
            tx,
            value,
        ) == set_account_length_last(tx, account_idx, expected),
{
}

/// What an instruction finds in the frame and the trace where all accesses are valid: the return
/// data is its program's and empty, the transaction has two instructions, seven accounts and no
/// calls, the area for the next call's data lies behind those of the two instructions and is
/// empty, and nothing has called the instruction.
pub open spec fn frame_reads(tx: Transaction) -> bool {
    let ix = tx.trace@[tx.frame.current_executing_instruction as int];
    &&& ix.program_account_index_in_tx < tx.accounts@.len()
    &&& tx.frame.return_data_pubkey@ == tx.accounts@[ix.program_account_index_in_tx as int].key@
    &&& tx.frame.return_data_scratchpad.ptr == 0x7_0000_0000
    &&& tx.frame.return_data_scratchpad.data@.len() == 0
    &&& tx.frame.total_number_of_instructions_in_trace == 2
    &&& tx.frame.number_of_cpis_in_trace == 0
    &&& tx.frame.number_of_transaction_accounts == 7
    &&& tx.frame.cpi_scratchpad.ptr == 0x1002_0000_0000
    &&& tx.frame.cpi_scratchpad.data@.len() == 0
    &&& ix.nesting_level == 0
    &&& ix.index_of_caller_instruction == 0xffff
}

/// The first instruction accepts what it can read if and only if the frame is as it should be, it
/// names two accounts, a writable signer and one that is neither, the first has 223450 lamports,
/// the system program as its owner and the bytes 1, 2 and 3, the second has 90123 lamports and its
/// own key as its data, and the instruction's own data is the command 2 or `IX1`.
pub proof fn lemma_first_instruction_reads(tx: Transaction)
    requires
        tx.frame.current_executing_instruction == 0,
        tx.trace@.len() > 0,
    ensures
        ({
            let accounts = running_accounts(tx);
            let data = running_data(tx);
            let first = tx.accounts@[accounts[0].index_in_transaction as int];
            let second = tx.accounts@[accounts[1].index_in_transaction as int];
            valid_accesses(tx) <==> {
                &&& frame_reads(tx)
                &&& accounts.len() == 2
                &&& accounts[0].is_writable
                &&& accounts[0].is_signer
                &&& !accounts[1].is_writable
                &&& !accounts[1].is_signer
                &&& accounts[0].index_in_transaction < tx.accounts@.len()
                &&& accounts[1].index_in_transaction < tx.accounts@.len()
                &&& first.lamports == 223450
                &&& first.owner@ == Seq::new(32, |i: int| 0u8)
                &&& first.payload.data@ == seq![1u8, 2, 3]
                &&& second.lamports == 90123
                &&& second.payload.data@ == second.key@
                &&& data == seq![2u8] || data == seq![73u8, 88, 49]
            }
        }),
{
}

/// The second instruction accepts what it can read if and only if the frame is as it should be, it
/// names two accounts, a signer that is not writable and a writable one that is no signer, the
/// first has 35 lamports, the system program as its owner and the bytes 3, 4 and 5, the second has
/// 9123 lamports and the first as its owner, and the instruction's own data is the command 3 or
/// `IX2`.
pub proof fn lemma_second_instruction_reads(tx: Transaction)
    requires
        tx.frame.current_executing_instruction == 1,
        tx.trace@.len() > 1,
    ensures
        ({
            let accounts = running_accounts(tx);
            let data = running_data(tx);
            let first = tx.accounts@[accounts[0].index_in_transaction as int];
            let second = tx.accounts@[accounts[1].index_in_transaction as int];
            valid_accesses(tx) <==> {
                &&& frame_reads(tx)
                &&& accounts.len() == 2
                &&& !accounts[0].is_writable
                &&& accounts[0].is_signer
                &&& accounts[1].is_writable
                &&& !accounts[1].is_signer
                &&& accounts[0].index_in_transaction < tx.accounts@.len()
                &&& accounts[1].index_in_transaction < tx.accounts@.len()
                &&& first.lamports == 35
                &&& first.owner@ == Seq::new(32, |i: int| 0u8)
                &&& first.payload.data@ == seq![3u8, 4, 5]
                &&& second.lamports == 9123
                &&& second.owner@ == first.key@
                &&& data == seq![3u8] || data == seq![73u8, 88, 50]
            }
        }),
{
}

/// No third instruction accepts what it can read, nor one that is not in the trace. Why an
/// instruction does not accept it: it or its program's account is not there, or it is the third or
/// a later one and the frame is as it should be, or else a check fails.
pub proof fn lemma_other_instructions_read(tx: Transaction)
    ensures
        ({
            let current = tx.frame.current_executing_instruction as int;
            let there = current < tx.trace@.len()
                && tx.trace@[current].program_account_index_in_tx < tx.accounts@.len();
            &&& current > 1 || !there ==> !valid_accesses(tx)
            &&& !there ==> access_failure(tx) == Reason::NothingThere
            &&& there && current > 1 && frame_reads(tx) ==> access_failure(tx)
                == Reason::TooManyInstructions
            &&& there && (current <= 1 || !frame_reads(tx)) ==> access_failure(tx)
                == Reason::FailedCheck
        }),
{
}

/// The commands 2 and 3, and the texts `IX1` and `IX2`, do nothing, and return 0 if the instruction
/// accepts what it can read.
pub proof fn lemma_reads_are_all_that_is_done(tx: Transaction, value: u64)
    requires
        tx.frame.current_executing_instruction < tx.trace@.len(),
        running_data(tx) == seq![73u8, 88, 49] || running_data(tx) == seq![73u8, 88, 50]
            || running_data(tx).len() > 0 && 2 <= running_data(tx)[0] <= 3,
    ensures
        program_next(Stage::Entered, tx, value) == if valid_accesses(tx) {
            Next::<Stage>::Exit(0)
        } else {
            Next::<Stage>::Panic(access_failure(tx))
        },
{
    lemma_first_byte_is_the_command(running_data(tx));
}

} // verus!
