use abi_v2::abi_v2_memory::{
    entrypoint, parse_command, read_invalid_regions, test_assign_owner, test_valid_accesses,
    Command, State, Transaction, TransactionFrame,
};
use abi_v2::guest::{
    push_decimal, AccountSharedFields, Action, InstructionAccount, InstructionFrame, Reason, Step,
    VmSlice,
};
use abi_v2::instruction_error::InstructionError;
use abi_v2::memory_region::{HostBuffer, MemoryRegion};
use abi_v2::regions::{create_abiv2_regions, InvokeContext};
use abi_v2::sysvars::{sysvar_ids_by_area, SysvarBuffer, SysvarCache};
use abi_v2::transaction_context::{TransactionAccounts, TransactionContext};
use abi_v2::vm_addresses::{
    from_index, GUEST_ACCOUNT_PAYLOAD_BASE_ADDRESS, GUEST_INSTRUCTION_ACCOUNT_BASE_ADDRESS,
    GUEST_INSTRUCTION_DATA_BASE_ADDRESS, GUEST_REGION_SIZE, RETURN_DATA_SCRATCHPAD,
};
use solana_sbpf::error::EbpfError;
use solana_sbpf::memory_region::AccessType;

fn slice<T: Clone>(ptr: u64, data: &[T]) -> VmSlice<'static, T> {
    VmSlice { ptr, data: data.to_vec().leak() }
}

fn edit<T: Clone>(slice: &mut VmSlice<'static, T>, change: impl FnOnce(&mut Vec<T>)) {
    let mut data = slice.data.to_vec();
    change(&mut data);
    slice.data = data.leak();
}

fn account(
    index: u64,
    key: [u8; 32],
    lamports: u64,
    data: &[u8],
    owner: [u8; 32],
) -> AccountSharedFields<'static> {
    AccountSharedFields {
        key,
        owner,
        lamports,
        payload: slice(GUEST_ACCOUNT_PAYLOAD_BASE_ADDRESS + from_index(index), data),
    }
}

fn instruction(
    place: u64,
    program: u16,
    data: &[u8],
    accounts: Vec<InstructionAccount>,
) -> InstructionFrame<'static> {
    InstructionFrame {
        program_account_index_in_tx: program,
        nesting_level: 0,
        index_of_caller_instruction: u16::MAX,
        instruction_accounts: slice(
            GUEST_INSTRUCTION_ACCOUNT_BASE_ADDRESS + from_index(place),
            &accounts,
        ),
        instruction_data: slice(GUEST_INSTRUCTION_DATA_BASE_ADDRESS + from_index(place), data),
    }
}

const SYSTEM_PROGRAM: [u8; 32] = [0; 32];
const MINT: [u8; 32] = [9; 32];
const PROGRAM_1: [u8; 32] = [11; 32];
const PROGRAM_2: [u8; 32] = [12; 32];
const ACC_1: [u8; 32] = [21; 32];
const ACC_2: [u8; 32] = [22; 32];
const ACC_3: [u8; 32] = [23; 32];
const ACC_4: [u8; 32] = [24; 32];

/// A transaction of two instructions, to the programs at 5 and 6.
fn transaction(current: u16, data_1: &[u8], data_2: &[u8]) -> Transaction<'static> {
    Transaction {
        frame: TransactionFrame {
            return_data_pubkey: if current == 0 { PROGRAM_1 } else { PROGRAM_2 },
            return_data_scratchpad: slice(RETURN_DATA_SCRATCHPAD, &[]),
            cpi_scratchpad: slice(
                GUEST_INSTRUCTION_DATA_BASE_ADDRESS + 2 * GUEST_REGION_SIZE,
                &[],
            ),
            current_executing_instruction: current,
            total_number_of_instructions_in_trace: 2,
            number_of_cpis_in_trace: 0,
            number_of_transaction_accounts: 7,
        },
        trace: vec![
            instruction(
                0,
                5,
                data_1,
                vec![
                    InstructionAccount::new(1, true, true),
                    InstructionAccount::new(4, false, false),
                ],
            ),
            instruction(
                1,
                6,
                data_2,
                vec![
                    InstructionAccount::new(2, true, false),
                    InstructionAccount::new(3, false, true),
                ],
            ),
        ],
        accounts: vec![
            account(0, MINT, 50, &[], SYSTEM_PROGRAM),
            account(1, ACC_1, 223450, &[1, 2, 3], SYSTEM_PROGRAM),
            account(2, ACC_2, 35, &[3, 4, 5], SYSTEM_PROGRAM),
            account(3, ACC_3, 9123, &[6, 7, 8], ACC_2),
            account(4, ACC_4, 90123, &ACC_4, ACC_2),
            account(5, PROGRAM_1, 1, &[], [99; 32]),
            account(6, PROGRAM_2, 1, &[], [99; 32]),
        ],
    }
}

fn exits(tx: &Transaction) -> bool {
    matches!(entrypoint(State::Entered, tx, 0), Step::Exit(0))
}

fn panics(tx: &Transaction) -> bool {
    panic_of(tx).is_some()
}

fn panic_of(tx: &Transaction) -> Option<Reason> {
    reason_of(entrypoint(State::Entered, tx, 0))
}

fn reason_of(step: Step<State>) -> Option<Reason> {
    match step {
        Step::Panic(reason) => Some(reason),
        _ => None,
    }
}

#[test]
fn regions_sanity_test() {
    let result = exits(&transaction(0, b"IX1", b"IX2")) && exits(&transaction(1, b"IX1", b"IX2"));
    println!("result: {:?}", result);
    assert!(result);
}

#[test]
fn valid_accesses_by_command() {
    assert!(exits(&transaction(0, &[2], &[3])));
    assert!(exits(&transaction(1, &[2], &[3])));
    // Each instruction has its own command.
    assert!(panics(&transaction(0, &[3], &[3])));
    assert!(panics(&transaction(1, &[2], &[2])));
    assert!(panics(&transaction(0, &[2, 0], &[3])));
    assert!(panics(&transaction(0, b"IX2", b"IX2")));
}

#[test]
fn any_deviation_is_noticed() {
    let edits: [fn(&mut Transaction<'static>); 22] = [
        |tx| tx.frame.return_data_pubkey[31] = 0,
        |tx| tx.frame.return_data_scratchpad.ptr += 1,
        |tx| edit(&mut tx.frame.return_data_scratchpad, |data| data.push(0)),
        |tx| tx.frame.cpi_scratchpad.ptr += 1,
        |tx| edit(&mut tx.frame.cpi_scratchpad, |data| data.push(0)),
        |tx| tx.frame.total_number_of_instructions_in_trace = 3,
        |tx| tx.frame.number_of_cpis_in_trace = 1,
        |tx| tx.frame.number_of_transaction_accounts = 6,
        |tx| tx.frame.current_executing_instruction = 2,
        |tx| tx.trace[0].nesting_level = 1,
        |tx| tx.trace[0].index_of_caller_instruction = 0,
        |tx| tx.trace[0].program_account_index_in_tx = 7,
        |tx| edit(&mut tx.trace[0].instruction_accounts, |data| data[0].set_is_writable(false)),
        |tx| edit(&mut tx.trace[0].instruction_accounts, |data| data[0].is_signer = false),
        |tx| edit(&mut tx.trace[0].instruction_accounts, |data| data[1].set_is_writable(true)),
        |tx| edit(&mut tx.trace[0].instruction_accounts, |data| data[1].index_in_transaction = 7),
        |tx| tx.accounts[1].lamports = 223451,
        |tx| tx.accounts[1].owner[0] = 1,
        |tx| edit(&mut tx.accounts[1].payload, |data| data[2] = 4),
        |tx| tx.accounts[4].lamports = 0,
        |tx| edit(&mut tx.accounts[4].payload, |data| data[0] = 0),
        |tx| edit(&mut tx.trace[0].instruction_accounts, |data| data.truncate(1)),
    ];
    for edit in edits {
        let mut tx = transaction(0, &[2], &[3]);
        edit(&mut tx);
        assert!(panics(&tx), "{:?}", tx);
    }
    let edits: [fn(&mut Transaction<'static>); 6] = [
        |tx| edit(&mut tx.trace[1].instruction_accounts, |data| data[0].set_is_writable(true)),
        |tx| edit(&mut tx.trace[1].instruction_accounts, |data| data[1].is_signer = true),
        |tx| tx.accounts[2].lamports = 36,
        |tx| edit(&mut tx.accounts[2].payload, |data| data[0] = 0),
        |tx| tx.accounts[3].lamports = 9122,
        |tx| tx.accounts[3].owner = ACC_1,
    ];
    for edit in edits {
        let mut tx = transaction(1, &[2], &[3]);
        edit(&mut tx);
        assert!(panics(&tx), "{:?}", tx);
    }
}

#[test]
fn commands() {
    let parse = |data: &[u8]| parse_command(data);
    assert_eq!(parse(&[0, 1]), Some(Command::ReadInvalidRegions));
    assert_eq!(parse(&[1]), Some(Command::WriteToAccount));
    assert_eq!(parse(&[2]), Some(Command::ValidAccesses));
    assert_eq!(parse(&[3, 9]), Some(Command::ValidAccesses));
    assert_eq!(parse(b"IX1"), Some(Command::ValidAccesses));
    assert_eq!(parse(b"IX2"), Some(Command::ValidAccesses));
    assert_eq!(parse(b"IX3"), None);
    assert_eq!(parse(&[4]), Some(Command::ReturnScratchpad { write_just_outside: false }));
    assert_eq!(parse(&[5]), Some(Command::ReturnScratchpad { write_just_outside: true }));
    assert_eq!(parse(&[6]), Some(Command::SetAccountLength { account_idx: 1 }));
    assert_eq!(parse(&[7]), Some(Command::SetAccountLength { account_idx: 3 }));
    assert_eq!(parse(&[8]), Some(Command::SetAccountLength { account_idx: 2 }));
    assert_eq!(parse(&[9]), Some(Command::AssignOwner));
    assert_eq!(parse(&[10]), None);
    assert_eq!(parse(&[]), None);
    assert_eq!(panic_of(&transaction(0, &[10], &[3])), Some(Reason::UnknownCommand));
    assert_eq!(panic_of(&transaction(0, &[], &[3])), Some(Reason::UnknownCommand));
}

fn go(step: Step<State>) -> (State, Action) {
    match step {
        Step::Go { state, action } => (state, action),
        Step::Exit(code) => panic!("returned {code}"),
        Step::Panic(reason) => panic!("{}", reason.message()),
    }
}

/// A transaction of one instruction and four accounts, the last of which is its program.
fn small_transaction(data: &[u8]) -> Transaction<'static> {
    let mut tx = transaction(0, data, &[]);
    tx.frame.total_number_of_instructions_in_trace = 1;
    tx.frame.number_of_transaction_accounts = 4;
    tx.trace.truncate(1);
    tx.trace[0].program_account_index_in_tx = 3;
    tx.trace[0].instruction_accounts.data = vec![
        InstructionAccount::new(1, false, true),
        InstructionAccount::new(2, false, false),
    ]
    .leak();
    tx.accounts = vec![
        account(0, MINT, 50, &[], SYSTEM_PROGRAM),
        account(1, ACC_1, 223450, &[1, 2, 3], SYSTEM_PROGRAM),
        account(2, ACC_2, 90123, &[4, 5, 6], ACC_1),
        account(3, PROGRAM_1, 1, &[], [99; 32]),
    ];
    tx
}

/// What the machine maps for a transaction.
fn mapped_regions(tx: &Transaction) -> Vec<MemoryRegion> {
    let region = |addr: usize, len: usize, vm_addr: u64| {
        MemoryRegion::new(HostBuffer { addr, len, mutable: false }, vm_addr)
    };
    let of_slice = |ptr: u64, len: usize| region(0x8000, len, ptr);
    create_abiv2_regions(&InvokeContext {
        transaction_context: TransactionContext {
            transaction_frame: HostBuffer { addr: 0x4000, len: 96, mutable: false },
            accounts: TransactionAccounts {
                shared_fields: HostBuffer { addr: 0x5000, len: 88 * 4, mutable: false },
                payload_regions: tx
                    .accounts
                    .iter()
                    .map(|account| of_slice(account.payload.ptr, account.payload.data.len()))
                    .collect(),
            },
            instruction_trace: HostBuffer { addr: 0x6000, len: 48, mutable: false },
            return_data_region: region(0x7000, 0, RETURN_DATA_SCRATCHPAD),
            instruction_payload_regions: tx
                .trace
                .iter()
                .map(|ix| of_slice(ix.instruction_data.ptr, ix.instruction_data.data.len()))
                .collect(),
            instruction_accounts_regions: tx
                .trace
                .iter()
                .map(|ix| {
                    of_slice(ix.instruction_accounts.ptr, 4 * ix.instruction_accounts.data.len())
                })
                .collect(),
            current_instruction: Err(InstructionError::CallDepth),
        },
        sysvar_cache: SysvarCache {
            buffers: sysvar_ids_by_area()
                .into_iter()
                .map(|id| SysvarBuffer {
                    id,
                    data: HostBuffer { addr: 0x9000, len: 40, mutable: false },
                })
                .collect(),
        },
    })
}

/// Reads a byte as a machine does that finds a region by the area of the address.
fn load(regions: &[MemoryRegion], address: u64) -> Result<(), EbpfError> {
    match regions.iter().find(|region| region.vm_addr >> 32 == address >> 32) {
        Some(region)
            if region.vm_addr <= address
                && address - region.vm_addr < region.host.len as u64 =>
        {
            Ok(())
        }
        _ => Err(EbpfError::AccessViolation(AccessType::Load, address, 1, "unallocated")),
    }
}

#[test]
fn test_access_invalid_regions() {
    let check_invalid_access = |area: u64| {
        let mut data = area.to_le_bytes().to_vec();
        data.insert(0, 0);
        let tx = small_transaction(&data);
        let regions = mapped_regions(&tx);
        let mut logs: Vec<String> = vec![];
        let mut state = State::Entered;
        let mut value = 0;
        loop {
            let (next, action) = go(entrypoint(state, &tx, value));
            match action {
                Action::Log(message) => logs.push(String::from_utf8(message).unwrap()),
                Action::ReadWord { address } => {
                    let data = tx.trace[0].instruction_data.data;
                    let offset = (address - tx.trace[0].instruction_data.ptr) as usize;
                    value = u64::from_le_bytes(data[offset..offset + 8].try_into().unwrap());
                }
                Action::ReadByte { address } => match load(&regions, address) {
                    Ok(()) => value = 0,
                    Err(error) => {
                        logs.push(error.to_string());
                        break;
                    }
                },
                _ => panic!("not expected"),
            }
            state = next;
        }
        assert_eq!(logs[0], "tx accs: 4");
        let last_line = logs.last().unwrap();
        assert!(last_line.contains("Access violation"));
        assert!(
            last_line.contains(&format!("at address 0x{:x}0000000", area)),
            "{last_line}"
        );
        // No region begins in that area.
        assert!(regions.iter().all(|region| region.vm_addr >> 32 != area));
    };

    for i in 0x1a..0x108u64 {
        check_invalid_access(i);
    }

    for i in 0x109..0x148u64 {
        check_invalid_access(i);
    }

    for i in 0x149..0x160 {
        check_invalid_access(i);
    }
}

#[test]
fn mapped_areas_can_be_read() {
    let regions = mapped_regions(&small_transaction(&[0, 1]));
    for area in [4, 5, 6, 9, 10, 0xff9, 0xfff, 0x1000, 0x1040] {
        assert!(load(&regions, from_index(area)).is_ok(), "{area:x}");
    }
    // The fee payer and the program hold no data.
    for area in [7, 8, 11, 12, 0x1001, 0x1041] {
        assert!(load(&regions, from_index(area)).is_err(), "{area:x}");
    }
}

#[test]
fn an_invalid_read_that_passes_is_noticed() {
    let area = 0x1au64;
    let mut data = area.to_le_bytes().to_vec();
    data.insert(0, 0);
    let tx = transaction(0, &data, &[3]);
    let (state, action) = go(entrypoint(State::Entered, &tx, 0));
    assert!(matches!(action, Action::Log(message) if message == b"tx accs: 7"));
    let (state, action) = go(entrypoint(state, &tx, 0));
    assert!(matches!(
        action,
        Action::ReadWord { address } if address == GUEST_INSTRUCTION_DATA_BASE_ADDRESS + 1
    ));
    let (state, action) = go(entrypoint(state, &tx, area));
    assert!(matches!(action, Action::ReadByte { address: 0x1a_0000_0000 }));
    let (state, action) = go(entrypoint(state, &tx, 205));
    assert!(matches!(action, Action::Log(message) if message == b"Read: 205"));
    let reason = reason_of(entrypoint(state, &tx, 0)).unwrap();
    assert_eq!(reason.message(), "Should not have reached this stage!");
}

#[test]
fn panics_say_why() {
    assert_eq!(panic_of(&transaction(0, &[10], &[])).unwrap().message(), "unknown command");
    let mut tx = transaction(0, &[2], &[3]);
    tx.frame.current_executing_instruction = 2;
    let reason = panic_of(&tx).unwrap();
    assert_eq!(reason.message(), "called `Option::unwrap()` on a `None` value");
    tx.frame.return_data_pubkey = PROGRAM_1;
    let third = instruction(2, 5, &[2], vec![]);
    tx.trace.push(third);
    assert_eq!(
        panic_of(&tx).unwrap().message(),
        "Not expecting more than two instructions."
    );
    assert_eq!(test_valid_accesses(&tx), Err(Reason::TooManyInstructions));
    tx.frame.number_of_cpis_in_trace = 1;
    assert_eq!(panic_of(&tx).unwrap().message(), "assertion failed");
    tx.trace[2].program_account_index_in_tx = 7;
    assert_eq!(test_valid_accesses(&tx), Err(Reason::NothingThere));
    let mut tx = transaction(1, &[2], &[1]);
    tx.trace[1].instruction_accounts.data = &[];
    assert_eq!(panic_of(&tx).unwrap().message(), "index out of bounds");
    let reason = reason_of(read_invalid_regions(State::MarkRead, &tx, 0)).unwrap();
    assert_eq!(reason.message(), "nothing to do in this state");
    assert_eq!(reason_of(test_assign_owner(State::Entered, &tx)), Some(Reason::OutOfTurn));
    assert_eq!(test_valid_accesses(&transaction(0, &[2], &[3])), Ok(()));
}

#[test]
fn only_the_lower_half_of_a_word_is_an_area() {
    let tx = transaction(0, &[0], &[3]);
    let (_, action) = go(entrypoint(State::AreaRead, &tx, 0xabcd_0000_1234_5678));
    assert!(matches!(action, Action::ReadByte { address: 0x1234_5678_0000_0000 }));
}

#[test]
fn three_bytes_are_written_to_the_first_account() {
    let tx = transaction(1, &[2], &[1]);
    let base = GUEST_ACCOUNT_PAYLOAD_BASE_ADDRESS + from_index(2);
    let mut state = State::Entered;
    for (i, byte) in [7u8, 8, 9].iter().enumerate() {
        let (next, action) = go(entrypoint(state, &tx, 0));
        match action {
            Action::Write { address, bytes } => {
                assert_eq!(address, base + i as u64);
                assert_eq!(bytes, vec![*byte]);
            }
            _ => panic!("no write"),
        }
        state = next;
    }
    assert!(matches!(entrypoint(state, &tx, 0), Step::Exit(0)));
    let mut tx = transaction(1, &[2], &[1]);
    tx.trace[1].instruction_accounts.data = &[];
    assert!(panics(&tx));
}

/// Runs a command on return data that behaves as it should. Accesses beyond its end fail.
fn run_scratchpad(command: u8) -> Option<u64> {
    let tx = transaction(0, &[command], &[3]);
    let mut memory: Vec<u8> = vec![];
    let mut value = 0;
    let mut state = State::Entered;
    loop {
        match entrypoint(state, &tx, value) {
            Step::Exit(code) => return Some(code),
            Step::Panic(_) => return None,
            Step::Go { state: next, action } => {
                match action {
                    Action::SetBufferLength { base_address, new_length } => {
                        assert_eq!(base_address, RETURN_DATA_SCRATCHPAD);
                        memory.resize(new_length as usize, 0);
                    }
                    Action::ReadByte { address } => {
                        value = *memory.get((address - RETURN_DATA_SCRATCHPAD) as usize)? as u64;
                    }
                    Action::Write { address, bytes } => {
                        *memory.get_mut((address - RETURN_DATA_SCRATCHPAD) as usize)? = bytes[0];
                    }
                    _ => panic!("not expected"),
                }
                state = next;
            }
        }
    }
}

#[test]
fn return_data_grows_with_zeros() {
    assert_eq!(run_scratchpad(4), Some(0));
    assert_eq!(run_scratchpad(5), None);
}

#[test]
fn a_scratchpad_run_does_what_it_should_and_no_more() {
    let tx = transaction(0, &[5], &[3]);
    let mut done = vec![];
    let mut state = State::Entered;
    loop {
        // The byte that should hold the mark is the one thing read that is not zero.
        let value = if matches!(state, State::MarkRead) { 42 } else { 0 };
        match entrypoint(state, &tx, value) {
            Step::Exit(code) => {
                assert_eq!(code, 0);
                break;
            }
            Step::Panic(reason) => panic!("{}", reason.message()),
            Step::Go { state: next, action } => {
                done.push(format!("{action:?}"));
                state = next;
            }
        }
    }
    let length = |new_length| {
        format!("{:?}", Action::SetBufferLength { base_address: 0x7_0000_0000, new_length })
    };
    let read = |offset: u64| format!("{:?}", Action::ReadByte { address: 0x7_0000_0000 + offset });
    let mut expected = vec![length(128)];
    expected.extend((0..128).map(read));
    expected.push(format!(
        "{:?}",
        Action::Write { address: 0x7_0000_0080, bytes: vec![42] }
    ));
    expected.push(length(256));
    expected.push(read(127));
    expected.extend((128..256).map(read));
    assert_eq!(done, expected);
    assert_eq!(done.len(), 260);
}

#[test]
fn return_data_is_checked_byte_by_byte() {
    let tx = transaction(0, &[4], &[3]);
    let at = |write_just_outside, offset| State::FreshRead { write_just_outside, offset };
    assert_eq!(reason_of(entrypoint(at(false, 5), &tx, 1)), Some(Reason::FailedCheck));
    let (_, action) = go(entrypoint(at(false, 126), &tx, 0));
    assert!(matches!(action, Action::ReadByte { address: 0x7_0000_007f }));
    let (_, action) = go(entrypoint(at(false, 127), &tx, 0));
    assert!(
        matches!(action, Action::Write { address: 0x7_0000_007f, bytes } if bytes == vec![42])
    );
    let (_, action) = go(entrypoint(at(true, 127), &tx, 0));
    assert!(
        matches!(action, Action::Write { address: 0x7_0000_0080, bytes } if bytes == vec![42])
    );
    assert_eq!(reason_of(entrypoint(State::MarkRead, &tx, 41)), Some(Reason::FailedCheck));
    let (_, action) = go(entrypoint(State::MarkRead, &tx, 42));
    assert!(matches!(action, Action::ReadByte { address: 0x7_0000_0080 }));
    assert_eq!(reason_of(entrypoint(State::GainedRead { offset: 200 }, &tx, 3)), Some(Reason::FailedCheck));
    assert!(matches!(entrypoint(State::GainedRead { offset: 255 }, &tx, 0), Step::Exit(0)));
}

#[test]
fn accounts_grow_with_zeros() {
    for (command, index, grown) in
        [(6, 1, [1, 2, 3, 0, 0, 0]), (7, 3, [6, 7, 8, 0, 0, 0]), (8, 2, [3, 4, 5, 0, 0, 0])]
    {
        let mut tx = transaction(0, &[command], &[3]);
        let (state, action) = go(entrypoint(State::Entered, &tx, 0));
        match action {
            Action::SetBufferLength { base_address, new_length } => {
                assert_eq!(base_address, GUEST_ACCOUNT_PAYLOAD_BASE_ADDRESS + from_index(index));
                assert_eq!(new_length, 6);
            }
            _ => panic!("no new length"),
        }
        tx.accounts[index as usize].payload.data = grown.to_vec().leak();
        assert!(matches!(entrypoint(state, &tx, 0), Step::Exit(0)));
    }
}

#[test]
fn accounts_that_do_not_grow_are_noticed() {
    let tx = transaction(0, &[6], &[3]);
    let (state, _) = go(entrypoint(State::Entered, &tx, 0));
    assert_eq!(reason_of(entrypoint(state, &tx, 0)), Some(Reason::FailedCheck));
    let mut tx = transaction(0, &[6], &[3]);
    let (state, _) = go(entrypoint(State::Entered, &tx, 0));
    tx.accounts[1].payload.data = &[1, 2, 3, 0, 0, 1];
    assert_eq!(reason_of(entrypoint(state, &tx, 0)), Some(Reason::FailedCheck));
    // Only accounts of three bytes are grown.
    let mut tx = transaction(0, &[6], &[3]);
    edit(&mut tx.accounts[1].payload, |data| data.push(0));
    assert_eq!(panic_of(&tx), Some(Reason::FailedCheck));
    tx.accounts.truncate(1);
    assert_eq!(panic_of(&tx), Some(Reason::OutOfBounds));
}

fn owner_transaction(flag: u8) -> Transaction<'static> {
    let mut tx = transaction(0, &[9], &[3]);
    edit(&mut tx.accounts[1].payload, |data| {
        *data = vec![55; 32];
        data.push(flag);
    });
    tx.accounts[4].owner = PROGRAM_1;
    tx
}

#[test]
fn an_account_is_given_away() {
    for flag in [0, 1, 2] {
        let mut tx = owner_transaction(flag);
        let (state, action) = go(entrypoint(State::Entered, &tx, 0));
        assert!(matches!(action, Action::Log(message) if message == b"lamports: 223450"));
        let (state, action) = go(entrypoint(state, &tx, 0));
        match action {
            Action::AssignOwner { account_idx, new_owner } => {
                assert_eq!(account_idx, 4);
                assert_eq!(new_owner, [55; 32]);
            }
            _ => panic!("no new owner"),
        }
        tx.accounts[4].owner = [55; 32];
        let step = entrypoint(state, &tx, 0);
        if flag == 1 {
            let (state, action) = go(step);
            match action {
                Action::Write { address, bytes } => {
                    assert_eq!(address, GUEST_ACCOUNT_PAYLOAD_BASE_ADDRESS + from_index(4));
                    assert_eq!(bytes, vec![9]);
                }
                _ => panic!("no write"),
            }
            assert!(matches!(entrypoint(state, &tx, 0), Step::Exit(0)));
        } else {
            assert!(matches!(step, Step::Exit(0)));
        }
    }
}

#[test]
fn accounts_that_cannot_be_given_away_are_noticed() {
    let logged = State::LamportsLogged { instruction: 0 };
    let mut tx = owner_transaction(0);
    tx.accounts[4].owner = PROGRAM_2;
    assert_eq!(reason_of(entrypoint(logged, &tx, 0)), Some(Reason::FailedCheck));
    let mut tx = owner_transaction(0);
    edit(&mut tx.accounts[1].payload, |data| data.truncate(32));
    let logged = State::LamportsLogged { instruction: 0 };
    assert_eq!(reason_of(entrypoint(logged, &tx, 0)), Some(Reason::OutOfBounds));
    // The owner has not changed.
    let tx = owner_transaction(0);
    let assigned =
        State::OwnerAssigned { account_idx: 4, new_owner: [55; 32], write_afterwards: false };
    assert_eq!(reason_of(entrypoint(assigned, &tx, 0)), Some(Reason::FailedCheck));
}

#[test]
fn numbers_are_written_in_decimal() {
    for n in [0, 7, 10, 99, 100, 65535, u64::MAX] {
        let mut text = b"n=".to_vec();
        push_decimal(&mut text, n);
        assert_eq!(text, format!("n={}", n).into_bytes());
    }
}
