//! What a program sees of its transaction, and what it can do.

use crate::sysvars::Pubkey;
use vstd::prelude::*;

verus! {

/// A slice in guest memory: its address and what it holds.
#[derive(Debug)]
pub struct VmSlice<'a, T> {
    pub ptr: u64,
    pub data: &'a [T],
}

/// An account as an instruction names it.
#[derive(Clone, Copy, Debug, PartialEq, Eq, Structural)]
pub struct InstructionAccount {
    pub index_in_transaction: u16,
    pub is_signer: bool,
    pub is_writable: bool,
}

impl InstructionAccount {
    pub fn new(index_in_transaction: u16, is_signer: bool, is_writable: bool) -> (account:
        InstructionAccount)
        ensures
            account == (InstructionAccount { index_in_transaction, is_signer, is_writable }),
    {
        InstructionAccount { index_in_transaction, is_signer, is_writable }
    }

    pub fn is_signer(&self) -> (signer: bool)
        ensures
            signer == self.is_signer,
    {
        self.is_signer
    }

    pub fn is_writable(&self) -> (writable: bool)
        ensures
            writable == self.is_writable,
    {
        self.is_writable
    }

    pub fn set_is_writable(&mut self, value: bool)
        ensures
            *final(self) == (InstructionAccount { is_writable: value, ..*old(self) }),
    {
        self.is_writable = value;
    }
}

/// One entry of the instruction trace.
#[derive(Debug)]
pub struct InstructionFrame<'a> {
    /// The program, by its account's index in the transaction.
    pub program_account_index_in_tx: u16,
    /// How many callers the instruction has.
    pub nesting_level: u16,
    /// The caller's entry in the trace, `u16::MAX` where there is none.
    pub index_of_caller_instruction: u16,
    pub instruction_accounts: VmSlice<'a, InstructionAccount>,
    pub instruction_data: VmSlice<'a, u8>,
}

/// What programs see of an account.
#[derive(Debug)]
pub struct AccountSharedFields<'a> {
    pub key: Pubkey,
    pub owner: Pubkey,
    pub lamports: u64,
    pub payload: VmSlice<'a, u8>,
}

/// What a program asks of the machine that runs it.
#[derive(Debug)]
pub enum Action {
    Log(Vec<u8>),
    /// Set the length of the buffer at an address.
    SetBufferLength { base_address: u64, new_length: u64 },
    AssignOwner { account_idx: u64, new_owner: Pubkey },
    InvokeCpi { program_idx: u64, signer_seeds_ptr: u64, signer_seeds_len: u64 },
    ReadByte { address: u64 },
    /// Read the eight bytes from an address on.
    ReadWord { address: u64 },
    Write { address: u64, bytes: Vec<u8> },
    WriteInstructionAccount { address: u64, account: InstructionAccount },
}

/// What an action stands for.
pub ghost enum Effect {
    Log(Seq<u8>),
    SetBufferLength(u64, u64),
    AssignOwner(u64, Seq<u8>),
    InvokeCpi(u64, u64, u64),
    ReadByte(u64),
    ReadWord(u64),
    Write(u64, Seq<u8>),
    WriteInstructionAccount(u64, InstructionAccount),
}

impl View for Action {
    type V = Effect;

    open spec fn view(&self) -> Effect {
        match *self {
            Action::Log(message) => Effect::Log(message@),
            Action::SetBufferLength { base_address, new_length } => Effect::SetBufferLength(
                base_address,
                new_length,
            ),
            Action::AssignOwner { account_idx, new_owner } => Effect::AssignOwner(
                account_idx,
                new_owner@,
            ),
            Action::InvokeCpi { program_idx, signer_seeds_ptr, signer_seeds_len } =>
                Effect::InvokeCpi(program_idx, signer_seeds_ptr, signer_seeds_len),
            Action::ReadByte { address } => Effect::ReadByte(address),
            Action::ReadWord { address } => Effect::ReadWord(address),
            Action::Write { address, bytes } => Effect::Write(address, bytes@),
            Action::WriteInstructionAccount { address, account } =>
                Effect::WriteInstructionAccount(address, account),
        }
    }
}

/// Why a program panics.
#[derive(Clone, Copy, Debug, PartialEq, Eq, Structural)]
pub enum Reason {
    /// What the program checks is not so.
    FailedCheck,
    /// The program looks for something that is not there.
    NothingThere,
    /// The program reaches past the end of a slice.
    OutOfBounds,
    /// No command begins like the instruction data.
    UnknownCommand,
    /// The transaction has sent more instructions than the program knows.
    TooManyInstructions,
    /// The machine has let an invalid read pass.
    InvalidReadPassed,
    /// The part of the program that was asked to go on has nothing to do in that state.
    OutOfTurn,
}

/// What the program says when it panics.
pub open spec fn panic_message(reason: Reason) -> Seq<char> {
    match reason {
        Reason::FailedCheck => "assertion failed"@,
        Reason::NothingThere => "called `Option::unwrap()` on a `None` value"@,
        Reason::OutOfBounds => "index out of bounds"@,
        Reason::UnknownCommand => "unknown command"@,
        Reason::TooManyInstructions => "Not expecting more than two instructions."@,
        Reason::InvalidReadPassed => "Should not have reached this stage!"@,
        Reason::OutOfTurn => "nothing to do in this state"@,
    }
}

impl Reason {
    pub fn message(&self) -> (message: &'static str)
        ensures
            message@ == panic_message(*self),
    {
        match self {
            Reason::FailedCheck => "assertion failed",
            Reason::NothingThere => "called `Option::unwrap()` on a `None` value",
            Reason::OutOfBounds => "index out of bounds",
            Reason::UnknownCommand => "unknown command",
            Reason::TooManyInstructions => "Not expecting more than two instructions.",
            Reason::InvalidReadPassed => "Should not have reached this stage!",
            Reason::OutOfTurn => "nothing to do in this state",
        }
    }
}

/// What a program does next: perform an action and go on from a state, return, or panic. An
/// access outside a slice that the program does not check for is a panic too.
#[derive(Debug)]
pub enum Step<S> {
    Go { state: S, action: Action },
    Exit(u64),
    Panic(Reason),
}

/// What a step stands for.
pub ghost enum Next<S> {
    Go(S, Effect),
    Exit(u64),
    Panic(Reason),
}

impl<S: View> View for Step<S> {
    type V = Next<S::V>;

    open spec fn view(&self) -> Next<S::V> {
        match *self {
            Step::Go { state, action } => Next::Go(state@, action@),
            Step::Exit(code) => Next::Exit(code),
            Step::Panic(reason) => Next::Panic(reason),
        }
    }
}

/// A sum of an address and an offset, at most the highest address.
pub open spec fn saturating_sum(address: u64, offset: int) -> u64 {
    if address + offset > u64::MAX {
        u64::MAX
    } else {
        (address + offset) as u64
    }
}

/// Decimal digits of a number, as text.
pub open spec fn decimal(n: nat) -> Seq<u8>
    decreases n,
{
    if n < 10 {
        seq![(48 + n) as u8]
    } else {
        decimal(n / 10).push((48 + n % 10) as u8)
    }
}

/// Appends the decimal digits of a number.
pub fn push_decimal(text: &mut Vec<u8>, n: u64)
    ensures
        final(text)@ == old(text)@ + decimal(n as nat),
    decreases n,
{
    if n >= 10 {
        push_decimal(text, n / 10);
    }
    text.push((48 + n % 10) as u8);
    assert(text@ =~= old(text)@ + decimal(n as nat));
}

/// Whether two byte strings are the same.
pub fn same_bytes(a: &[u8], b: &[u8]) -> (same: bool)
    ensures
        same == (a@ == b@),
{
    if a.len() != b.len() {
        return false;
    }
    let mut i: usize = 0;
    while i < a.len()
        invariant
            i <= a@.len(),
            a@.len() == b@.len(),
            forall|j: int| 0 <= j < i ==> a@[j] == b@[j],
        decreases a@.len() - i,
    {
        if a[i] != b[i] {
            return false;
        }
        i = i + 1;
    }
    assert(a@ =~= b@);
    true
}

/// The number that a text of decimal digits stands for.
pub open spec fn number_of(text: Seq<u8>) -> int
    decreases text.len(),
{
    if text.len() == 0 {
        0
    } else {
        number_of(text.drop_last()) * 10 + (text.last() - 48)
    }
}

/// The decimal digits of a number are digits, stand for that number, and do not begin with a zero
/// but for the number zero itself.
pub proof fn lemma_decimal_stands_for_number(n: nat)
    ensures
        decimal(n).len() > 0,
        forall|i: int| 0 <= i < decimal(n).len() ==> 48 <= #[trigger] decimal(n)[i] <= 57,
        number_of(decimal(n)) == n,
        n > 0 ==> decimal(n)[0] != 48,
        n == 0 ==> decimal(n) == seq![48u8],
    decreases n,
{
    reveal_with_fuel(number_of, 2);
    if n >= 10 {
        lemma_decimal_stands_for_number(n / 10);
        assert(decimal(n).drop_last() =~= decimal(n / 10));
    } else {
        assert(decimal(n).drop_last() =~= Seq::<u8>::empty());
    }
}

/// A sum that fits in an address is that sum, and any other is the highest address.
pub proof fn lemma_saturating_sum(address: u64, offset: int)
    requires
        0 <= offset,
    ensures
        address + offset <= 0xffff_ffff_ffff_ffff ==> saturating_sum(address, offset) == address
            + offset,
        address + offset > 0xffff_ffff_ffff_ffff ==> saturating_sum(address, offset)
            == 0xffff_ffff_ffff_ffff,
{
}

/// What an action stands for has all that the action holds, each part in its place.
pub proof fn lemma_action_stands_for_its_parts(action: Action)
    ensures
        action matches Action::Log(message) ==> action@ == Effect::Log(message@),
        action matches Action::SetBufferLength { base_address, new_length } ==> action@
            == Effect::SetBufferLength(base_address, new_length),
        action matches Action::AssignOwner { account_idx, new_owner } ==> action@
            == Effect::AssignOwner(account_idx, new_owner@),
        action matches Action::InvokeCpi { program_idx, signer_seeds_ptr, signer_seeds_len }
            ==> action@ == Effect::InvokeCpi(program_idx, signer_seeds_ptr, signer_seeds_len),
        action matches Action::ReadByte { address } ==> action@ == Effect::ReadByte(address),
        action matches Action::ReadWord { address } ==> action@ == Effect::ReadWord(address),
        action matches Action::Write { address, bytes } ==> action@ == Effect::Write(
            address,
            bytes@,
        ),
        action matches Action::WriteInstructionAccount { address, account } ==> action@
            == Effect::WriteInstructionAccount(address, account),
{
}

/// What a step stands for has all that the step holds.
pub proof fn lemma_step_stands_for_its_parts<S: View>(step: Step<S>)
    ensures
        step matches Step::Go { state, action } ==> step@ == Next::Go(state@, action@),
        step matches Step::Exit(code) ==> step@ == Next::<S::V>::Exit(code),
        step matches Step::Panic(reason) ==> step@ == Next::<S::V>::Panic(reason),
{
}

/// What a program says when it panics.
pub proof fn lemma_panic_messages()
    ensures
        panic_message(Reason::FailedCheck) == "assertion failed"@,
        panic_message(Reason::NothingThere) == "called `Option::unwrap()` on a `None` value"@,
        panic_message(Reason::OutOfBounds) == "index out of bounds"@,
        panic_message(Reason::UnknownCommand) == "unknown command"@,
        panic_message(Reason::TooManyInstructions) == "Not expecting more than two instructions."@,
        panic_message(Reason::InvalidReadPassed) == "Should not have reached this stage!"@,
        panic_message(Reason::OutOfTurn) == "nothing to do in this state"@,
{
}

} // verus!
