//! A program that calls another, hands it two accounts as read-only, and takes its answer.
//!
//! It is both sides of the call, and a state machine: `entrypoint` takes the transaction as guest
//! memory shows it at that moment and says what to do next; the caller of `entrypoint` does it and
//! comes back with the new state.

use crate::guest::{
    same_bytes, saturating_sum, AccountSharedFields, Action, Effect, InstructionAccount,
    InstructionFrame, Next, Reason, Step, VmSlice,
};
use crate::sysvars::{same_key, Pubkey};
use crate::vm_addresses::GUEST_REGION_SIZE;
use vstd::prelude::*;

verus! {

/// The transaction frame.
#[derive(Debug)]
pub struct TransactionFrame<'a> {
    /// The program that the return data is from.
    pub return_data_pubkey: Pubkey,
    pub return_data_scratchpad: VmSlice<'a, u8>,
    /// Where the data of the next call is put.
    pub cpi_data_scratchpad: VmSlice<'a, u8>,
    /// Where the accounts of the next call are put.
    pub cpi_accounts_scratchpad: VmSlice<'a, InstructionAccount>,
    /// The running instruction's entry in the trace.
    pub current_executing_instruction: u16,
}

/// The transaction as guest memory shows it.
#[derive(Debug)]
pub struct Transaction<'a> {
    pub frame: TransactionFrame<'a>,
    pub trace: Vec<InstructionFrame<'a>>,
    pub accounts: Vec<AccountSharedFields<'a>>,
    /// Bytes that an `InstructionAccount` takes up in guest memory.
    pub instruction_account_size: u64,
}

/// The text `Hello!`, with which the program is called.
pub open spec fn greeting() -> Seq<u8> {
    seq![72u8, 101, 108, 108, 111, 33]
}

/// The text `Hi!`, with which it answers.
pub open spec fn reply() -> Seq<u8> {
    seq![72u8, 105, 33]
}

/// Where in its work the program is: what it waits for to be done.
#[derive(Clone, Copy, Debug, PartialEq, Eq, Structural)]
pub enum State {
    Entered,
    /// The return data is being given the length of the answer.
    ReplySized,
    /// The answer is being written.
    ReplyWritten,
    /// The data of the call is being given its length.
    DataSized { instruction: u16 },
    /// The data of the call is being written.
    DataWritten { instruction: u16 },
    /// The accounts of the call are being given their length.
    AccountsSized { instruction: u16 },
    /// The first account of the call is being written.
    FirstAccountWritten { instruction: u16 },
    /// The second account of the call is being written.
    SecondAccountWritten { instruction: u16 },
    /// The program with this account is being called.
    Invoked { callee_program: u16 },
}

impl View for State {
    type V = State;

    open spec fn view(&self) -> State {
        *self
    }
}

/// The account as read-only.
pub open spec fn read_only(account: InstructionAccount) -> InstructionAccount {
    InstructionAccount { is_writable: false, ..account }
}

/// What the program finds when it has been called as it calls: no account is writable, the data
/// is the greeting, the caller is the transaction's first instruction, and the areas for the next
/// call follow those of this one.
pub open spec fn called_as_agreed(frame: TransactionFrame, instruction: InstructionFrame) -> bool {
    &&& forall|i: int|
        0 <= i < instruction.instruction_accounts.data@.len()
            ==> !(#[trigger] instruction.instruction_accounts.data@[i]).is_writable
    &&& instruction.instruction_data.data@ == greeting()
    &&& instruction.nesting_level == 1
    &&& instruction.index_of_caller_instruction == 0
    &&& frame.cpi_data_scratchpad.ptr == saturating_sum(
        instruction.instruction_data.ptr,
        GUEST_REGION_SIZE as int,
    )
    &&& frame.cpi_accounts_scratchpad.ptr == saturating_sum(
        instruction.instruction_accounts.ptr,
        GUEST_REGION_SIZE as int,
    )
}

/// All accounts from the given position on are writable.
pub open spec fn writable_from(accounts: Seq<InstructionAccount>, from: int) -> bool {
    forall|i: int| from <= i < accounts.len() ==> (#[trigger] accounts[i]).is_writable
}

/// What the called program does, step by step: check the call, make room for the answer, and
/// write it.
pub open spec fn inside_cpi_next(state: State, tx: Transaction) -> Next<State> {
    match state {
        State::Entered => if tx.frame.current_executing_instruction >= tx.trace@.len() {
            Next::Panic(Reason::NothingThere)
        } else if called_as_agreed(
            tx.frame,
            tx.trace@[tx.frame.current_executing_instruction as int],
        ) {
            Next::Go(
                State::ReplySized,
                Effect::SetBufferLength(tx.frame.return_data_scratchpad.ptr, 3),
            )
        } else {
            Next::Panic(Reason::FailedCheck)
        },
        State::ReplySized => if tx.frame.return_data_scratchpad.data@.len() == 3 {
            Next::Go(
                State::ReplyWritten,
                Effect::Write(tx.frame.return_data_scratchpad.ptr, reply()),
            )
        } else {
            Next::Panic(Reason::FailedCheck)
        },
        State::ReplyWritten => Next::Exit(0),
        _ => Next::Panic(Reason::OutOfTurn),
    }
}

/// What the calling program does from an instruction's entry in the trace on, step by step: write
/// the greeting, hand over its second and third account as read-only, call the program whose
/// account is its first, and check the answer.
pub open spec fn caller_next(state: State, tx: Transaction, instruction: u16) -> Next<State> {
    if instruction >= tx.trace@.len() {
        Next::Panic(Reason::NothingThere)
    } else {
        let accounts = tx.trace@[instruction as int].instruction_accounts.data@;
        match state {
            State::Entered => Next::Go(
                State::DataSized { instruction },
                Effect::SetBufferLength(tx.frame.cpi_data_scratchpad.ptr, 6),
            ),
            State::DataSized { .. } => if tx.frame.cpi_data_scratchpad.data@.len() == 6 {
                Next::Go(
                    State::DataWritten { instruction },
                    Effect::Write(tx.frame.cpi_data_scratchpad.ptr, greeting()),
                )
            } else {
                Next::Panic(Reason::FailedCheck)
            },
            State::DataWritten { .. } => if writable_from(accounts, 1) {
                Next::Go(
                    State::AccountsSized { instruction },
                    Effect::SetBufferLength(
                        tx.frame.cpi_accounts_scratchpad.ptr,
                        saturating_sum(
                            tx.instruction_account_size,
                            tx.instruction_account_size as int,
                        ),
                    ),
                )
            } else {
                Next::Panic(Reason::FailedCheck)
            },
            State::AccountsSized { .. } => if tx.frame.cpi_accounts_scratchpad.data@.len() != 2 {
                Next::Panic(Reason::FailedCheck)
            } else if accounts.len() > 1 {
                Next::Go(
                    State::FirstAccountWritten { instruction },
                    Effect::WriteInstructionAccount(
                        tx.frame.cpi_accounts_scratchpad.ptr,
                        read_only(accounts[1]),
                    ),
                )
            } else {
                Next::Panic(Reason::NothingThere)
            },
            State::FirstAccountWritten { .. } => if accounts.len() > 2 {
                Next::Go(
                    State::SecondAccountWritten { instruction },
                    Effect::WriteInstructionAccount(
                        saturating_sum(
                            tx.frame.cpi_accounts_scratchpad.ptr,
                            tx.instruction_account_size as int,
                        ),
                        read_only(accounts[2]),
                    ),
                )
            } else {
                Next::Panic(Reason::NothingThere)
            },
            State::SecondAccountWritten { .. } => if accounts.len() > 0 {
                Next::Go(
                    State::Invoked { callee_program: accounts[0].index_in_transaction },
                    Effect::InvokeCpi(accounts[0].index_in_transaction as u64, 0, 0),
                )
            } else {
                Next::Panic(Reason::OutOfBounds)
            },
            _ => Next::Panic(Reason::OutOfTurn),
        }
    }
}

/// The answer, and the program that it is said to be from.
pub open spec fn answered_as_agreed(tx: Transaction, callee_program: u16) -> bool {
    &&& tx.frame.return_data_scratchpad.data@ == reply()
    &&& callee_program < tx.accounts@.len()
    &&& tx.frame.return_data_pubkey@ == tx.accounts@[callee_program as int].key@
}

/// What the program does from a state on, with the transaction as memory shows it now.
pub open spec fn program_next(state: State, tx: Transaction) -> Next<State> {
    match state {
        State::Entered => {
            let current = tx.frame.current_executing_instruction;
            if current < tx.trace@.len() && tx.trace@[current as int].nesting_level > 0 {
                inside_cpi_next(state, tx)
            } else {
                caller_next(state, tx, current)
            }
        },
        State::ReplySized | State::ReplyWritten => inside_cpi_next(state, tx),
        State::DataSized { instruction }
        | State::DataWritten { instruction }
        | State::AccountsSized { instruction }
        | State::FirstAccountWritten { instruction }
        | State::SecondAccountWritten { instruction } => caller_next(state, tx, instruction),
        State::Invoked { callee_program } => if answered_as_agreed(tx, callee_program) {
            Next::Exit(0)
        } else if tx.frame.return_data_scratchpad.data@ == reply() && callee_program
            >= tx.accounts@.len() {
            Next::Panic(Reason::OutOfBounds)
        } else {
            Next::Panic(Reason::FailedCheck)
        },
    }
}

fn greeting_bytes() -> (bytes: Vec<u8>)
    ensures
        bytes@ == greeting(),
{
    let bytes: Vec<u8> = vec![72u8, 101, 108, 108, 111, 33];
    assert(bytes@ =~= greeting());
    bytes
}

fn reply_bytes() -> (bytes: Vec<u8>)
    ensures
        bytes@ == reply(),
{
    let bytes: Vec<u8> = vec![72u8, 105, 33];
    assert(bytes@ =~= reply());
    bytes
}

fn all_read_only(accounts: &[InstructionAccount]) -> (all: bool)
    ensures
        all == forall|i: int|
            0 <= i < accounts@.len() ==> !(#[trigger] accounts@[i]).is_writable,
{
    let mut i: usize = 0;
    while i < accounts.len()
        invariant
            i <= accounts@.len(),
            forall|j: int| 0 <= j < i ==> !(#[trigger] accounts@[j]).is_writable,
        decreases accounts@.len() - i,
    {
        if accounts[i].is_writable() {
            return false;
        }
        i = i + 1;
    }
    true
}

fn all_writable_but_first(accounts: &[InstructionAccount]) -> (all: bool)
    ensures
        all == writable_from(accounts@, 1),
{
    let mut i: usize = 1;
    while i < accounts.len()
        invariant
            1 <= i,
            i <= accounts@.len() || i == 1,
            forall|j: int| 1 <= j < i ==> (#[trigger] accounts@[j]).is_writable,
        decreases accounts@.len() - i,
    {
        if !accounts[i].is_writable() {
            return false;
        }
        i = i + 1;
    }
    true
}

fn check_call(frame: &TransactionFrame, instruction: &InstructionFrame) -> (agreed: bool)
    ensures
        agreed == called_as_agreed(*frame, *instruction),
{
    // All accounts are supposed to be readonly
    all_read_only(instruction.instruction_accounts.data)
        && same_bytes(
        instruction.instruction_data.data,
        greeting_bytes().as_slice(),
    )
        && instruction.nesting_level == 1
        && instruction.index_of_caller_instruction == 0
        && frame.cpi_data_scratchpad.ptr == instruction.instruction_data.ptr.saturating_add(
        GUEST_REGION_SIZE,
    )
        && frame.cpi_accounts_scratchpad.ptr
        == instruction.instruction_accounts.ptr.saturating_add(GUEST_REGION_SIZE)
}

/// The program as it has been called: checks the call, then answers.
pub fn perform_checks_inside_cpi(state: State, tx: &Transaction) -> (step: Step<State>)
    ensures
        step@ == inside_cpi_next(state, *tx),
{
    match state {
        State::Entered => {
            let current: usize = tx.frame.current_executing_instruction as usize;
            if current >= tx.trace.len() {
                Step::Panic(Reason::NothingThere)
            } else if check_call(&tx.frame, &tx.trace[current]) {
                Step::Go {
                    state: State::ReplySized,
                    action: Action::SetBufferLength {
                        base_address: tx.frame.return_data_scratchpad.ptr,
                        new_length: 3,
                    },
                }
            } else {
                Step::Panic(Reason::FailedCheck)
            }
        },
        State::ReplySized => {
            if tx.frame.return_data_scratchpad.data.len() == 3 {
                Step::Go {
                    state: State::ReplyWritten,
                    action: Action::Write {
                        address: tx.frame.return_data_scratchpad.ptr,
                        bytes: reply_bytes(),
                    },
                }
            } else {
                Step::Panic(Reason::FailedCheck)
            }
        },
        State::ReplyWritten => Step::Exit(0),
        _ => Step::Panic(Reason::OutOfTurn),
    }
}

/// The program as a caller.
fn call(state: State, tx: &Transaction, instruction: u16) -> (step: Step<State>)
    ensures
        step@ == caller_next(state, *tx, instruction),
{
    if (instruction as usize) >= tx.trace.len() {
        return Step::Panic(Reason::NothingThere);
    }
    let ix_accounts = tx.trace[instruction as usize].instruction_accounts.data;
    match state {
        State::Entered => Step::Go {
            state: State::DataSized { instruction },
            action: Action::SetBufferLength {
                base_address: tx.frame.cpi_data_scratchpad.ptr,
                new_length: 6,
            },
        },
        State::DataSized { .. } => {
            if tx.frame.cpi_data_scratchpad.data.len() == 6 {
                Step::Go {
                    state: State::DataWritten { instruction },
                    action: Action::Write {
                        address: tx.frame.cpi_data_scratchpad.ptr,
                        bytes: greeting_bytes(),
                    },
                }
            } else {
                Step::Panic(Reason::FailedCheck)
            }
        },
        State::DataWritten { .. } => {
            // Ensure all accounts are writable (except the first which is the program to be
            // called), so we can see if we restrict visibility in CPI
            if all_writable_but_first(ix_accounts) {
                Step::Go {
                    state: State::AccountsSized { instruction },
                    action: Action::SetBufferLength {
                        base_address: tx.frame.cpi_accounts_scratchpad.ptr,
                        new_length: tx.instruction_account_size.saturating_add(
                            tx.instruction_account_size,
                        ),
                    },
                }
            } else {
                Step::Panic(Reason::FailedCheck)
            }
        },
        State::AccountsSized { .. } => {
            if tx.frame.cpi_accounts_scratchpad.data.len() != 2 {
                Step::Panic(Reason::FailedCheck)
            } else if ix_accounts.len() > 1 {
                let mut account = ix_accounts[1];
                account.set_is_writable(false);
                Step::Go {
                    state: State::FirstAccountWritten { instruction },
                    action: Action::WriteInstructionAccount {
                        address: tx.frame.cpi_accounts_scratchpad.ptr,
                        account,
                    },
                }
            } else {
                Step::Panic(Reason::NothingThere)
            }
        },
        State::FirstAccountWritten { .. } => {
            if ix_accounts.len() > 2 {
                let mut account = ix_accounts[2];
                account.set_is_writable(false);
                Step::Go {
                    state: State::SecondAccountWritten { instruction },
                    action: Action::WriteInstructionAccount {
                        address: tx.frame.cpi_accounts_scratchpad.ptr.saturating_add(
                            tx.instruction_account_size,
                        ),
                        account,
                    },
                }
            } else {
                Step::Panic(Reason::NothingThere)
            }
        },
        State::SecondAccountWritten { .. } => {
            if ix_accounts.len() > 0 {
                let callee_program: u16 = ix_accounts[0].index_in_transaction;
                Step::Go {
                    state: State::Invoked { callee_program },
                    action: Action::InvokeCpi {
                        program_idx: callee_program as u64,
                        signer_seeds_ptr: 0,
                        signer_seeds_len: 0,
                    },
                }
            } else {
                Step::Panic(Reason::OutOfBounds)
            }
        },
        _ => Step::Panic(Reason::OutOfTurn),
    }
}

/// Takes the answer of the called program.
fn check_answer(tx: &Transaction, callee_program: u16) -> (step: Step<State>)
    ensures
        step@ == program_next(State::Invoked { callee_program }, *tx),
{
    let callee: usize = callee_program as usize;
    if !same_bytes(tx.frame.return_data_scratchpad.data, reply_bytes().as_slice()) {
        Step::Panic(Reason::FailedCheck)
    } else if callee >= tx.accounts.len() {
        Step::Panic(Reason::OutOfBounds)
    } else if same_key(&tx.frame.return_data_pubkey, &tx.accounts[callee].key) {
        Step::Exit(0)
    } else {
        Step::Panic(Reason::FailedCheck)
    }
}

/// Runs the program from a state to its next action. A run begins in `State::Entered`, and after
/// each action goes on from the state that came with it. `tx` is the transaction as memory shows
/// it now.
pub fn entrypoint(state: State, tx: &Transaction) -> (step: Step<State>)
    ensures
        step@ == program_next(state, *tx),
{
    match state {
        State::Entered => {
            let current: u16 = tx.frame.current_executing_instruction;
            if (current as usize) < tx.trace.len() && tx.trace[current as usize].nesting_level > 0 {
                perform_checks_inside_cpi(state, tx)
            } else {
                call(state, tx, current)
            }
        },
        State::ReplySized => perform_checks_inside_cpi(state, tx),
        State::ReplyWritten => perform_checks_inside_cpi(state, tx),
        State::DataSized { instruction } => call(state, tx, instruction),
        State::DataWritten { instruction } => call(state, tx, instruction),
        State::AccountsSized { instruction } => call(state, tx, instruction),
        State::FirstAccountWritten { instruction } => call(state, tx, instruction),
        State::SecondAccountWritten { instruction } => call(state, tx, instruction),
        State::Invoked { callee_program } => check_answer(tx, callee_program),
    }
}

/// Steps that the program takes at most from a state on.
pub open spec fn steps_left(state: State) -> int {
    match state {
        State::Entered => 7,
        State::DataSized { .. } => 6,
        State::DataWritten { .. } => 5,
        State::AccountsSized { .. } => 4,
        State::FirstAccountWritten { .. } => 3,
        State::SecondAccountWritten { .. } => 2,
        State::Invoked { .. } => 1,
        State::ReplySized => 2,
        State::ReplyWritten => 1,
    }
}

/// Every run ends: each step leaves fewer steps to take.
pub proof fn lemma_runs_end(state: State, tx: Transaction)
    ensures
        steps_left(state) > 0,
        program_next(state, tx) matches Next::Go(next, _) ==> steps_left(next) < steps_left(state),
{
}

/// The program never hands a writable account to the program that it calls, and changes nothing
/// else of the accounts that it hands over.
pub proof fn lemma_accounts_are_handed_over_read_only(state: State, tx: Transaction)
    ensures
        program_next(state, tx) matches Next::Go(
            _,
            Effect::WriteInstructionAccount(_, account),
        ) ==> {
            &&& !account.is_writable
            &&& exists|ix: int, i: int|
                0 <= ix < tx.trace@.len() && 0 < i
                    < tx.trace@[ix].instruction_accounts.data@.len() && account == read_only(
                    #[trigger] tx.trace@[ix].instruction_accounts.data@[i],
                )
        },
{
    let next = program_next(state, tx);
    if let Next::Go(_, Effect::WriteInstructionAccount(_, account)) = next {
        match state {
            State::AccountsSized { instruction } => {
                let named = tx.trace@[instruction as int].instruction_accounts.data@[1];
                assert(account == read_only(named));
            },
            State::FirstAccountWritten { instruction } => {
                let named = tx.trace@[instruction as int].instruction_accounts.data@[2];
                assert(account == read_only(named));
            },
            _ => {},
        }
    }
}

/// The two sides of the call agree: a program that finds what the caller writes as its data and
/// accounts, in areas that follow one another, accepts the call.
pub proof fn lemma_callee_accepts_call(
    callee: Transaction,
    first: InstructionAccount,
    second: InstructionAccount,
)
    requires
        callee.frame.current_executing_instruction < callee.trace@.len(),
        ({
            let ix = callee.trace@[callee.frame.current_executing_instruction as int];
            &&& ix.instruction_data.data@ == greeting()
            &&& ix.instruction_accounts.data@ == seq![read_only(first), read_only(second)]
            &&& ix.nesting_level == 1
            &&& ix.index_of_caller_instruction == 0
            &&& callee.frame.cpi_data_scratchpad.ptr == ix.instruction_data.ptr + GUEST_REGION_SIZE
            &&& callee.frame.cpi_accounts_scratchpad.ptr == ix.instruction_accounts.ptr
                + GUEST_REGION_SIZE
        }),
    ensures
        program_next(State::Entered, callee) == Next::Go(
            State::ReplySized,
            Effect::SetBufferLength(callee.frame.return_data_scratchpad.ptr, 3),
        ),
{
}

/// The two sides of the call agree: a caller that finds what the called program writes as the
/// return data, under that program's key, returns.
pub proof fn lemma_caller_accepts_answer(
    callee: Transaction,
    caller: Transaction,
    callee_program: u16,
)
    requires
        program_next(State::ReplySized, callee) matches Next::Go(_, Effect::Write(_, written))
            && caller.frame.return_data_scratchpad.data@ == written,
        callee_program < caller.accounts@.len(),
        caller.frame.return_data_pubkey@ == caller.accounts@[callee_program as int].key@,
    ensures
        program_next(State::Invoked { callee_program }, caller) == Next::<State>::Exit(0),
{
}

/// How a run from a state on stands once it has been given the inputs from the given place on, or
/// how it ended before. An input is the transaction as memory shows it at one step.
pub open spec fn outcome(state: State, inputs: Seq<Transaction>, at: int) -> Next<State>
    recommends
        0 <= at < inputs.len(),
    decreases inputs.len() - at,
{
    let next = program_next(state, inputs[at]);
    match next {
        Next::Go(state, _) if at + 1 < inputs.len() => outcome(state, inputs, at + 1),
        _ => next,
    }
}

/// What such a run does, in this order.
pub open spec fn effects(state: State, inputs: Seq<Transaction>, at: int) -> Seq<Effect>
    decreases inputs.len() - at,
{
    if at >= inputs.len() {
        Seq::empty()
    } else {
        match program_next(state, inputs[at]) {
            Next::Go(state, effect) => seq![effect] + effects(state, inputs, at + 1),
            _ => Seq::empty(),
        }
    }
}

/// A run begins in an instruction that has so many callers.
pub open spec fn begins_at_level(inputs: Seq<Transaction>, level: u16) -> bool {
    let current = inputs[0].frame.current_executing_instruction;
    &&& inputs.len() > 0
    &&& current < inputs[0].trace@.len()
    &&& inputs[0].trace@[current as int].nesting_level == level
}

/// The accounts that an entry of the trace names.
pub open spec fn named_by(tx: Transaction, instruction: u16) -> Seq<InstructionAccount> {
    tx.trace@[instruction as int].instruction_accounts.data@
}

/// All that the calling program checks on its way, from an instruction's entry in the trace on, up
/// to the answer.
pub open spec fn call_succeeds(inputs: Seq<Transaction>, instruction: u16) -> bool {
    &&& inputs.len() >= 7
    &&& forall|i: int| 0 <= i < 6 ==> instruction < (#[trigger] inputs[i]).trace@.len()
    &&& inputs[1].frame.cpi_data_scratchpad.data@.len() == 6
    &&& writable_from(named_by(inputs[2], instruction), 1)
    &&& inputs[3].frame.cpi_accounts_scratchpad.data@.len() == 2
    &&& named_by(inputs[3], instruction).len() > 1
    &&& named_by(inputs[4], instruction).len() > 2
    &&& named_by(inputs[5], instruction).len() > 0
    &&& answered_as_agreed(inputs[6], named_by(inputs[5], instruction)[0].index_in_transaction)
}

/// All that a call consists of: its data, its two accounts, and the call itself.
pub open spec fn call_effects(inputs: Seq<Transaction>, instruction: u16) -> Seq<Effect> {
    seq![
        Effect::SetBufferLength(inputs[0].frame.cpi_data_scratchpad.ptr, 6),
        Effect::Write(inputs[1].frame.cpi_data_scratchpad.ptr, greeting()),
        Effect::SetBufferLength(
            inputs[2].frame.cpi_accounts_scratchpad.ptr,
            saturating_sum(
                inputs[2].instruction_account_size,
                inputs[2].instruction_account_size as int,
            ),
        ),
        Effect::WriteInstructionAccount(
            inputs[3].frame.cpi_accounts_scratchpad.ptr,
            read_only(named_by(inputs[3], instruction)[1]),
        ),
        Effect::WriteInstructionAccount(
            saturating_sum(
                inputs[4].frame.cpi_accounts_scratchpad.ptr,
                inputs[4].instruction_account_size as int,
            ),
            read_only(named_by(inputs[4], instruction)[2]),
        ),
        Effect::InvokeCpi(
            named_by(inputs[5], instruction)[0].index_in_transaction as u64,
            0,
            0,
        ),
    ]
}

/// A run of the program in an instruction that the transaction itself has sent does, however far
/// it gets, the parts of a call in their order: it calls a program at most once, and only after
/// it has written the greeting and handed over two accounts as read-only.
pub proof fn lemma_call_is_made_in_order(inputs: Seq<Transaction>)
    requires
        begins_at_level(inputs, 0),
    ensures
        ({
            let instruction = inputs[0].frame.current_executing_instruction;
            let done = effects(State::Entered, inputs, 0);
            &&& done.len() <= 6
            &&& done == call_effects(inputs, instruction).take(done.len() as int)
            &&& forall|i: int|
                0 <= i < done.len() ==> ((#[trigger] done[i]) is InvokeCpi <==> i == 5)
        }),
{
    reveal_with_fuel(effects, 8);
    let instruction = inputs[0].frame.current_executing_instruction;
    let done = effects(State::Entered, inputs, 0);
    assert(done =~= call_effects(inputs, instruction).take(done.len() as int));
}

/// A run of the program in an instruction that the transaction itself has sent returns if and only
/// if all its checks hold, the last of them that the answer is as agreed. It then has done all
/// that a call consists of, and so has called one program once.
pub proof fn lemma_call_outcome(inputs: Seq<Transaction>)
    requires
        begins_at_level(inputs, 0),
    ensures
        ({
            let instruction = inputs[0].frame.current_executing_instruction;
            &&& outcome(State::Entered, inputs, 0) is Exit <==> call_succeeds(inputs, instruction)
            &&& outcome(State::Entered, inputs, 0) is Exit ==> {
                &&& outcome(State::Entered, inputs, 0) == Next::<State>::Exit(0)
                &&& effects(State::Entered, inputs, 0) == call_effects(inputs, instruction)
            }
        }),
{
    reveal_with_fuel(outcome, 8);
    reveal_with_fuel(effects, 8);
    let instruction = inputs[0].frame.current_executing_instruction;
    if outcome(State::Entered, inputs, 0) is Exit {
        assert(effects(State::Entered, inputs, 0) =~= call_effects(inputs, instruction));
    }
}

/// A run of the program in an instruction that has a caller never calls a program. It returns if
/// and only if it was called as agreed and given room for its answer, and it then has written
/// that answer.
pub proof fn lemma_called_program_answers(inputs: Seq<Transaction>, level: u16)
    requires
        level > 0,
        begins_at_level(inputs, level),
    ensures
        ({
            let current = inputs[0].frame.current_executing_instruction;
            let done = effects(State::Entered, inputs, 0);
            let end = outcome(State::Entered, inputs, 0);
            &&& forall|i: int| 0 <= i < done.len() ==> !((#[trigger] done[i]) is InvokeCpi)
            &&& end is Exit <==> {
                &&& inputs.len() >= 3
                &&& called_as_agreed(inputs[0].frame, inputs[0].trace@[current as int])
                &&& inputs[1].frame.return_data_scratchpad.data@.len() == 3
            }
            &&& end is Exit ==> {
                &&& end == Next::<State>::Exit(0)
                &&& done == seq![
                    Effect::SetBufferLength(inputs[0].frame.return_data_scratchpad.ptr, 3),
                    Effect::Write(inputs[1].frame.return_data_scratchpad.ptr, reply()),
                ]
            }
        }),
{
    reveal_with_fuel(outcome, 4);
    reveal_with_fuel(effects, 4);
    let done = effects(State::Entered, inputs, 0);
    if outcome(State::Entered, inputs, 0) is Exit {
        assert(done =~= seq![
            Effect::SetBufferLength(inputs[0].frame.return_data_scratchpad.ptr, 3),
            Effect::Write(inputs[1].frame.return_data_scratchpad.ptr, reply()),
        ]);
    }
}

/// A called program that finds any of its accounts writable, wherever it stands, panics and does
/// nothing.
pub proof fn lemma_writable_account_is_refused(tx: Transaction, i: int)
    requires
        tx.frame.current_executing_instruction < tx.trace@.len(),
        ({
            let ix = tx.trace@[tx.frame.current_executing_instruction as int];
            &&& ix.nesting_level > 0
            &&& 0 <= i < ix.instruction_accounts.data@.len()
            &&& ix.instruction_accounts.data@[i].is_writable
        }),
    ensures
        program_next(State::Entered, tx) == Next::<State>::Panic(Reason::FailedCheck),
        inside_cpi_next(State::Entered, tx) == Next::<State>::Panic(Reason::FailedCheck),
        effects(State::Entered, seq![tx], 0) == Seq::<Effect>::empty(),
{
    let accounts = tx.trace@[tx.frame.current_executing_instruction as int].instruction_accounts;
    assert(accounts.data@[i].is_writable);
}

/// A program that finds itself called goes on to answer if and only if no account is writable, its
/// data is `Hello!`, it was called by the first instruction of the transaction and by it directly,
/// and the areas for the next call lie one above those of this one, or at the highest address
/// where there is no area above. Otherwise a check fails.
pub proof fn lemma_call_is_checked(tx: Transaction)
    requires
        tx.frame.current_executing_instruction < tx.trace@.len(),
    ensures
        ({
            let ix = tx.trace@[tx.frame.current_executing_instruction as int];
            let accounts = ix.instruction_accounts.data@;
            let next_data = ix.instruction_data.ptr + 0x1_0000_0000;
            let next_accounts = ix.instruction_accounts.ptr + 0x1_0000_0000;
            let highest = 0xffff_ffff_ffff_ffffu64;
            let agreed = {
                &&& forall|i: int|
                    0 <= i < accounts.len() ==> !(#[trigger] accounts[i]).is_writable
                &&& ix.instruction_data.data@ == seq![72u8, 101, 108, 108, 111, 33]
                &&& ix.nesting_level == 1
                &&& ix.index_of_caller_instruction == 0
                &&& tx.frame.cpi_data_scratchpad.ptr == if next_data > highest {
                    highest as int
                } else {
                    next_data
                }
                &&& tx.frame.cpi_accounts_scratchpad.ptr == if next_accounts > highest {
                    highest as int
                } else {
                    next_accounts
                }
            };
            let next = if agreed {
                Next::Go(
                    State::ReplySized,
                    Effect::SetBufferLength(tx.frame.return_data_scratchpad.ptr, 3),
                )
            } else {
                Next::<State>::Panic(Reason::FailedCheck)
            };
            &&& inside_cpi_next(State::Entered, tx) == next
            &&& ix.nesting_level > 0 ==> program_next(State::Entered, tx) == next
        }),
{
    let ix = tx.trace@[tx.frame.current_executing_instruction as int];
    let accounts = ix.instruction_accounts.data@;
    if inside_cpi_next(State::Entered, tx) is Go {
        assert forall|i: int| 0 <= i < accounts.len() implies !(
        #[trigger] accounts[i]).is_writable by {}
    }
}

/// A program whose instruction is not in the trace panics and does nothing.
pub proof fn lemma_no_instruction_no_run(tx: Transaction)
    requires
        tx.frame.current_executing_instruction >= tx.trace@.len(),
    ensures
        program_next(State::Entered, tx) == Next::<State>::Panic(Reason::NothingThere),
        inside_cpi_next(State::Entered, tx) == Next::<State>::Panic(Reason::NothingThere),
{
}

/// A called program writes `Hi!` as its return data once that has three bytes, fails its check if
/// it has any other length, and then returns 0. It never does anything else.
pub proof fn lemma_answer_is_written(state: State, tx: Transaction)
    ensures
        ({
            let answer = if tx.frame.return_data_scratchpad.data@.len() == 3 {
                Next::Go(
                    State::ReplyWritten,
                    Effect::Write(tx.frame.return_data_scratchpad.ptr, seq![72u8, 105, 33]),
                )
            } else {
                Next::<State>::Panic(Reason::FailedCheck)
            };
            &&& program_next(State::ReplySized, tx) == answer
            &&& inside_cpi_next(State::ReplySized, tx) == answer
            &&& program_next(State::ReplyWritten, tx) == Next::<State>::Exit(0)
            &&& inside_cpi_next(State::ReplyWritten, tx) == Next::<State>::Exit(0)
            &&& state != State::Entered && state != State::ReplySized && state
                != State::ReplyWritten ==> inside_cpi_next(state, tx) == Next::<State>::Panic(
                Reason::OutOfTurn,
            )
        }),
{
}

/// A calling program asks for six bytes of data for the call, whatever its accounts are, and
/// writes `Hello!` there once it has just that many.
pub proof fn lemma_greeting_is_written(tx: Transaction, instruction: u16)
    ensures
        ({
            let current = tx.frame.current_executing_instruction;
            current < tx.trace@.len() && tx.trace@[current as int].nesting_level == 0
                ==> program_next(State::Entered, tx) == Next::Go(
                State::DataSized { instruction: current },
                Effect::SetBufferLength(tx.frame.cpi_data_scratchpad.ptr, 6),
            )
        }),
        instruction < tx.trace@.len() ==> program_next(State::DataSized { instruction }, tx)
            == if tx.frame.cpi_data_scratchpad.data@.len() == 6 {
            Next::Go(
                State::DataWritten { instruction },
                Effect::Write(
                    tx.frame.cpi_data_scratchpad.ptr,
                    seq![72u8, 101, 108, 108, 111, 33],
                ),
            )
        } else {
            Next::<State>::Panic(Reason::FailedCheck)
        },
{
}

/// A calling program asks for room for two accounts if and only if all its accounts but the first
/// are writable; if any is not, wherever it stands, a check fails.
pub proof fn lemma_accounts_must_be_writable(tx: Transaction, instruction: u16)
    requires
        instruction < tx.trace@.len(),
    ensures
        ({
            let accounts = tx.trace@[instruction as int].instruction_accounts.data@;
            let size = 2 * tx.instruction_account_size;
            let highest = 0xffff_ffff_ffff_ffffu64;
            &&& (forall|i: int| 1 <= i < accounts.len() ==> (#[trigger] accounts[i]).is_writable)
                ==> (program_next(State::DataWritten { instruction }, tx) matches Next::Go(
                next,
                Effect::SetBufferLength(address, length),
            ) && next == State::AccountsSized { instruction } && address
                == tx.frame.cpi_accounts_scratchpad.ptr && length == if size > highest {
                highest as int
            } else {
                size
            })
            &&& (exists|i: int| 1 <= i < accounts.len() && !(#[trigger] accounts[i]).is_writable)
                ==> program_next(State::DataWritten { instruction }, tx) == Next::<State>::Panic(
                Reason::FailedCheck,
            )
        }),
{
}

/// A calling program hands over its second account, then its third, each with nothing changed but
/// that it is not writable, the third behind the second, and then calls the program whose account
/// is its first. It takes no account that is not there.
pub proof fn lemma_accounts_are_handed_over(tx: Transaction, instruction: u16)
    requires
        instruction < tx.trace@.len(),
    ensures
        ({
            let accounts = tx.trace@[instruction as int].instruction_accounts.data@;
            let first = program_next(State::AccountsSized { instruction }, tx);
            let second = program_next(State::FirstAccountWritten { instruction }, tx);
            let call = program_next(State::SecondAccountWritten { instruction }, tx);
            let room = tx.frame.cpi_accounts_scratchpad;
            let behind = room.ptr + tx.instruction_account_size;
            let highest = 0xffff_ffff_ffff_ffffu64;
            &&& room.data@.len() == 2 && accounts.len() > 1 ==> (first matches Next::Go(
                next,
                Effect::WriteInstructionAccount(address, account),
            ) && next == State::FirstAccountWritten { instruction } && address == room.ptr
                && !account.is_writable && account.is_signer == accounts[1].is_signer
                && account.index_in_transaction == accounts[1].index_in_transaction)
            &&& room.data@.len() != 2 ==> first == Next::<State>::Panic(Reason::FailedCheck)
            &&& room.data@.len() == 2 && accounts.len() <= 1 ==> first == Next::<State>::Panic(
                Reason::NothingThere,
            )
            &&& accounts.len() > 2 ==> (second matches Next::Go(
                next,
                Effect::WriteInstructionAccount(address, account),
            ) && next == State::SecondAccountWritten { instruction } && address == if behind
                > highest {
                highest as int
            } else {
                behind
            } && !account.is_writable && account.is_signer == accounts[2].is_signer
                && account.index_in_transaction == accounts[2].index_in_transaction)
            &&& accounts.len() <= 2 ==> second == Next::<State>::Panic(Reason::NothingThere)
            &&& accounts.len() > 0 ==> (call matches Next::Go(
                next,
                Effect::InvokeCpi(program, seeds, seeds_len),
            ) && next == State::Invoked { callee_program: accounts[0].index_in_transaction }
                && program == accounts[0].index_in_transaction && seeds == 0 && seeds_len == 0)
            &&& accounts.len() == 0 ==> call == Next::<State>::Panic(Reason::OutOfBounds)
        }),
{
}

/// A calling program whose instruction is not in the trace any more panics.
pub proof fn lemma_caller_needs_its_instruction(tx: Transaction, instruction: u16)
    requires
        instruction >= tx.trace@.len(),
    ensures
        ({
            let panic = Next::<State>::Panic(Reason::NothingThere);
            &&& program_next(State::DataSized { instruction }, tx) == panic
            &&& program_next(State::DataWritten { instruction }, tx) == panic
            &&& program_next(State::AccountsSized { instruction }, tx) == panic
            &&& program_next(State::FirstAccountWritten { instruction }, tx) == panic
            &&& program_next(State::SecondAccountWritten { instruction }, tx) == panic
        }),
{
}

/// After the call, a calling program returns 0 if and only if the return data is `Hi!` and is said
/// to be from the program that was called. Otherwise it panics.
pub proof fn lemma_answer_is_checked(tx: Transaction, callee_program: u16)
    ensures
        ({
            let end = program_next(State::Invoked { callee_program }, tx);
            let answer = tx.frame.return_data_scratchpad.data@;
            let known = callee_program < tx.accounts@.len();
            &&& answer != seq![72u8, 105, 33] ==> end == Next::<State>::Panic(Reason::FailedCheck)
            &&& answer == seq![72u8, 105, 33] && !known ==> end == Next::<State>::Panic(
                Reason::OutOfBounds,
            )
            &&& answer == seq![72u8, 105, 33] && known ==> end
                == if tx.frame.return_data_pubkey@ == tx.accounts@[callee_program as int].key@ {
                Next::<State>::Exit(0)
            } else {
                Next::<State>::Panic(Reason::FailedCheck)
            }
        }),
{
}

/// A state stands for itself.
pub proof fn lemma_state_stands_for_itself(state: State)
    ensures
        state@ == state,
{
}

} // verus!
