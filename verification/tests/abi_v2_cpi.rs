use abi_v2::abi_v2_cpi::{
    entrypoint, perform_checks_inside_cpi, State, Transaction, TransactionFrame,
};
use abi_v2::guest::{
    AccountSharedFields, Action, InstructionAccount, InstructionFrame, Reason, Step, VmSlice,
};
use abi_v2::vm_addresses::{
    from_index, GUEST_ACCOUNT_PAYLOAD_BASE_ADDRESS, GUEST_INSTRUCTION_ACCOUNT_BASE_ADDRESS,
    GUEST_INSTRUCTION_DATA_BASE_ADDRESS, RETURN_DATA_SCRATCHPAD,
};

fn slice<T: Clone>(ptr: u64, data: &[T]) -> VmSlice<'static, T> {
    VmSlice { ptr, data: data.to_vec().leak() }
}

fn account(index: u64, key: [u8; 32]) -> AccountSharedFields<'static> {
    AccountSharedFields {
        key,
        owner: [0; 32],
        lamports: 1,
        payload: slice(GUEST_ACCOUNT_PAYLOAD_BASE_ADDRESS + from_index(index), &[]),
    }
}

fn instruction(
    place: u64,
    level: u16,
    data: &[u8],
    accounts: Vec<InstructionAccount>,
) -> InstructionFrame<'static> {
    InstructionFrame {
        program_account_index_in_tx: 3,
        nesting_level: level,
        index_of_caller_instruction: if level == 0 { u16::MAX } else { 0 },
        instruction_accounts: slice(
            GUEST_INSTRUCTION_ACCOUNT_BASE_ADDRESS + from_index(place),
            &accounts,
        ),
        instruction_data: slice(GUEST_INSTRUCTION_DATA_BASE_ADDRESS + from_index(place), data),
    }
}

fn transaction(trace: Vec<InstructionFrame<'static>>) -> Transaction<'static> {
    let next = trace.len() as u64;
    Transaction {
        frame: TransactionFrame {
            return_data_pubkey: [0; 32],
            return_data_scratchpad: slice(RETURN_DATA_SCRATCHPAD, &[]),
            cpi_data_scratchpad: slice(
                GUEST_INSTRUCTION_DATA_BASE_ADDRESS + from_index(next),
                &[],
            ),
            cpi_accounts_scratchpad: slice(
                GUEST_INSTRUCTION_ACCOUNT_BASE_ADDRESS + from_index(next),
                &[],
            ),
            current_executing_instruction: next as u16 - 1,
        },
        trace,
        accounts: vec![
            account(0, [1; 32]),
            account(1, [2; 32]),
            account(2, [3; 32]),
            account(3, [4; 32]),
        ],
        instruction_account_size: 4,
    }
}

fn caller() -> Transaction<'static> {
    transaction(vec![instruction(
        0,
        0,
        &[],
        vec![
            InstructionAccount::new(3, false, false),
            InstructionAccount::new(1, true, true),
            InstructionAccount::new(2, false, true),
        ],
    )])
}

fn callee(accounts: Vec<InstructionAccount>, data: &[u8]) -> Transaction<'static> {
    let mut trace = caller().trace;
    trace.push(instruction(1, 1, data, accounts));
    transaction(trace)
}

fn go(step: Step<State>) -> (State, Action) {
    match step {
        Step::Go { state, action } => (state, action),
        Step::Exit(code) => panic!("returned {code}"),
        Step::Panic(reason) => panic!("{}", reason.message()),
    }
}

fn reason_of(step: Step<State>) -> Option<Reason> {
    match step {
        Step::Panic(reason) => Some(reason),
        _ => None,
    }
}

#[test]
fn a_call_goes_through_on_both_sides() {
    let mut tx = caller();
    let (state, action) = go(entrypoint(State::Entered, &tx));
    match action {
        Action::SetBufferLength { base_address, new_length } => {
            assert_eq!(base_address, GUEST_INSTRUCTION_DATA_BASE_ADDRESS + from_index(1));
            assert_eq!(new_length, 6);
        }
        _ => panic!("no length"),
    }
    tx.frame.cpi_data_scratchpad.data = &[0; 6];
    let (state, action) = go(entrypoint(state, &tx));
    let data = match action {
        Action::Write { address, bytes } => {
            assert_eq!(address, tx.frame.cpi_data_scratchpad.ptr);
            bytes
        }
        _ => panic!("no data"),
    };
    assert_eq!(data, b"Hello!");
    let (state, action) = go(entrypoint(state, &tx));
    match action {
        Action::SetBufferLength { base_address, new_length } => {
            assert_eq!(base_address, GUEST_INSTRUCTION_ACCOUNT_BASE_ADDRESS + from_index(1));
            assert_eq!(new_length, 8);
        }
        _ => panic!("no length"),
    }
    tx.frame.cpi_accounts_scratchpad.data =
        vec![InstructionAccount::new(0, false, false); 2].leak();
    let mut accounts = vec![];
    let mut state = state;
    for i in 0..2 {
        let (next, action) = go(entrypoint(state, &tx));
        match action {
            Action::WriteInstructionAccount { address, account } => {
                assert_eq!(address, tx.frame.cpi_accounts_scratchpad.ptr + 4 * i);
                accounts.push(account);
            }
            _ => panic!("no account"),
        }
        state = next;
    }
    assert_eq!(
        accounts,
        vec![InstructionAccount::new(1, true, false), InstructionAccount::new(2, false, false)]
    );
    let (state, action) = go(entrypoint(state, &tx));
    assert!(matches!(
        action,
        Action::InvokeCpi { program_idx: 3, signer_seeds_ptr: 0, signer_seeds_len: 0 }
    ));

    let mut inside = callee(accounts, &data);
    let (inner, action) = go(entrypoint(State::Entered, &inside));
    assert!(matches!(
        action,
        Action::SetBufferLength { base_address: RETURN_DATA_SCRATCHPAD, new_length: 3 }
    ));
    inside.frame.return_data_scratchpad.data = &[0; 3];
    let (inner, action) = go(entrypoint(inner, &inside));
    match action {
        Action::Write { address, bytes } => {
            assert_eq!(address, RETURN_DATA_SCRATCHPAD);
            assert_eq!(bytes, b"Hi!");
            tx.frame.return_data_scratchpad.data = bytes.leak();
        }
        _ => panic!("no answer"),
    }
    assert!(matches!(entrypoint(inner, &inside), Step::Exit(0)));

    assert_eq!(reason_of(entrypoint(state, &tx)), Some(Reason::FailedCheck));
    tx.frame.return_data_pubkey = [4; 32];
    assert!(matches!(entrypoint(state, &tx), Step::Exit(0)));
    tx.frame.return_data_scratchpad.data = b"Ho!";
    assert_eq!(reason_of(entrypoint(state, &tx)), Some(Reason::FailedCheck));
}

#[test]
fn a_callee_notices_what_was_not_agreed() {
    let read_only = || vec![InstructionAccount::new(1, true, false)];
    let started = |tx: &Transaction| matches!(entrypoint(State::Entered, tx), Step::Go { .. });
    assert!(started(&callee(read_only(), b"Hello!")));
    assert!(!started(&callee(read_only(), b"Hello")));
    assert!(!started(&callee(vec![InstructionAccount::new(1, false, true)], b"Hello!")));
    let mut tx = callee(read_only(), b"Hello!");
    tx.trace[1].nesting_level = 2;
    assert!(!started(&tx));
    let mut tx = callee(read_only(), b"Hello!");
    tx.trace[1].index_of_caller_instruction = 1;
    assert!(!started(&tx));
    let mut tx = callee(read_only(), b"Hello!");
    tx.frame.cpi_data_scratchpad.ptr += 1;
    assert!(!started(&tx));
    let mut tx = callee(read_only(), b"Hello!");
    tx.frame.cpi_accounts_scratchpad.ptr += 1;
    assert!(!started(&tx));
    let tx = callee(read_only(), b"Hello!");
    assert_eq!(reason_of(perform_checks_inside_cpi(State::ReplySized, &tx)), Some(Reason::FailedCheck));
}

#[test]
fn a_caller_notices_what_it_lacks() {
    // The data has not grown.
    assert_eq!(reason_of(entrypoint(State::DataSized { instruction: 0 }, &caller())), Some(Reason::FailedCheck));
    let written = State::DataWritten { instruction: 0 };
    assert!(matches!(entrypoint(written, &caller()), Step::Go { .. }));
    let mut tx = caller();
    let mut accounts = tx.trace[0].instruction_accounts.data.to_vec();
    accounts[2].set_is_writable(false);
    tx.trace[0].instruction_accounts.data = &accounts;
    assert_eq!(reason_of(entrypoint(written, &tx)), Some(Reason::FailedCheck));
    let sized = State::AccountsSized { instruction: 0 };
    assert_eq!(reason_of(entrypoint(sized, &caller())), Some(Reason::FailedCheck));
    let mut tx = caller();
    tx.trace[0].instruction_accounts.data = &tx.trace[0].instruction_accounts.data[..2];
    let first = State::FirstAccountWritten { instruction: 0 };
    assert_eq!(reason_of(entrypoint(first, &tx)), Some(Reason::NothingThere));
    tx.trace.clear();
    assert_eq!(reason_of(entrypoint(State::Entered, &tx)), Some(Reason::NothingThere));
}

/// Runs the program in the given transaction and lists what it does. The machine does as it is
/// told: lengths and data are what the program has set, and a call is answered by the program at 3.
fn run(tx: &mut Transaction<'static>) -> (Vec<Action>, Result<u64, Reason>) {
    let mut done = vec![];
    let mut state = State::Entered;
    loop {
        match entrypoint(state, tx) {
            Step::Exit(code) => return (done, Ok(code)),
            Step::Panic(reason) => return (done, Err(reason)),
            Step::Go { state: next, action } => {
                match &action {
                    Action::SetBufferLength { base_address, new_length } => {
                        let zeros: &[u8] = vec![0; *new_length as usize].leak();
                        if *base_address == tx.frame.return_data_scratchpad.ptr {
                            tx.frame.return_data_scratchpad.data = zeros;
                        } else if *base_address == tx.frame.cpi_data_scratchpad.ptr {
                            tx.frame.cpi_data_scratchpad.data = zeros;
                        } else {
                            assert_eq!(*base_address, tx.frame.cpi_accounts_scratchpad.ptr);
                            let count = new_length / tx.instruction_account_size;
                            tx.frame.cpi_accounts_scratchpad.data =
                                vec![InstructionAccount::new(0, false, false); count as usize]
                                    .leak();
                        }
                    }
                    Action::InvokeCpi { program_idx, .. } => {
                        tx.frame.return_data_scratchpad.data = b"Hi!";
                        tx.frame.return_data_pubkey = tx.accounts[*program_idx as usize].key;
                    }
                    _ => (),
                }
                done.push(action);
                state = next;
            }
        }
    }
}

#[test]
fn a_run_calls_once_and_last() {
    let (done, end) = run(&mut caller());
    assert_eq!(end, Ok(0));
    assert_eq!(done.len(), 6);
    let calls = |action: &Action| matches!(action, Action::InvokeCpi { .. });
    assert_eq!(done.iter().position(calls), Some(5));
    assert!(matches!(&done[1], Action::Write { bytes, .. } if bytes == b"Hello!"));
    for (i, named) in [(3, 1), (4, 2)] {
        assert!(matches!(
            &done[i],
            Action::WriteInstructionAccount { account, .. }
                if !account.is_writable() && account.index_in_transaction == named
        ));
    }

    // A run that fails its checks does not get as far as the call.
    let mut tx = caller();
    tx.trace[0].instruction_accounts.data = &tx.trace[0].instruction_accounts.data[..2];
    let (done, end) = run(&mut tx);
    assert_eq!(end, Err(Reason::NothingThere));
    assert_eq!(done.len(), 4);
    assert!(!done.iter().any(calls));

    // Nor does one that was itself called.
    let (done, end) = run(&mut callee(vec![], b"Hello!"));
    assert_eq!(end, Ok(0));
    assert_eq!(done.len(), 2);
    assert!(!done.iter().any(calls));
}

#[test]
fn a_callee_that_is_no_account_is_out_of_bounds() {
    let mut tx = caller();
    tx.frame.return_data_scratchpad.data = b"Hi!";
    let invoked = State::Invoked { callee_program: 4 };
    assert_eq!(reason_of(entrypoint(invoked, &tx)), Some(Reason::OutOfBounds));
    tx.frame.return_data_scratchpad.data = b"";
    assert_eq!(reason_of(entrypoint(invoked, &tx)), Some(Reason::FailedCheck));
    tx.trace[0].instruction_accounts.data = &[];
    let second = State::SecondAccountWritten { instruction: 0 };
    assert_eq!(reason_of(entrypoint(second, &tx)), Some(Reason::OutOfBounds));
    assert_eq!(
        reason_of(perform_checks_inside_cpi(second, &tx)),
        Some(Reason::OutOfTurn)
    );
}
