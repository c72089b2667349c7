use abi_v2::instruction_error::InstructionError;
use abi_v2::memory_context::{
    BpfAllocator, MemoryContext, MemoryContexts, SerializedAccountMetadata,
};
use abi_v2::memory_region::{
    AccessViolationHandler, Config, HostBuffer, MemoryRegion, PlainMapping, SBPFVersion,
};
use abi_v2::preparation::prepare_regions;
use abi_v2::regions::{create_abiv2_regions, InvokeContext};
use abi_v2::sysvars::{sysvar_ids_by_area, SysvarBuffer, SysvarCache};
use abi_v2::transaction_context::{
    BorrowedInstructionAccount, InstructionAccountBorrow, InstructionContext, TransactionAccounts,
    TransactionContext,
};
use abi_v2::vm_addresses::{
    abiv2_region_index_from_vm_address, from_index, ACCOUNT_METADATA_AREA,
    GUEST_ACCOUNT_PAYLOAD_BASE_ADDRESS, GUEST_INSTRUCTION_ACCOUNT_BASE_ADDRESS,
    GUEST_INSTRUCTION_DATA_BASE_ADDRESS, GUEST_SYSVARS_BASE_ADDRESS, INSTRUCTION_TRACE_AREA,
    RETURN_DATA_SCRATCHPAD, TRANSACTION_FRAME_ADDRESS,
};
use solana_sbpf::memory_region::{
    AccessType, AccessViolationHandler as SbpfHandler, HostBuffer as SbpfBuffer,
    MemoryRegion as SbpfRegion,
};

const CONFIG: Config = Config {
    max_call_depth: 64,
    stack_frame_size: 4096,
    enable_address_translation: true,
    aligned_memory_mapping: false,
};

struct Account {
    owner: [u8; 32],
    data_len: usize,
}

fn account_regions(accounts: &[Account]) -> Vec<MemoryRegion> {
    accounts
        .iter()
        .enumerate()
        .map(|(i, account)| {
            MemoryRegion::new(
                HostBuffer { addr: 0x8000 + 0x100 * i, len: account.data_len, mutable: false },
                GUEST_ACCOUNT_PAYLOAD_BASE_ADDRESS + from_index(i as u64),
            )
        })
        .collect()
}

fn regions_at(base: u64, lens: &[usize]) -> Vec<MemoryRegion> {
    lens.iter()
        .enumerate()
        .map(|(i, len)| {
            MemoryRegion::new(
                HostBuffer { addr: 0x10000 + i, len: *len, mutable: false },
                base + from_index(i as u64),
            )
        })
        .collect()
}

fn transaction(accounts: &[Account]) -> TransactionContext {
    TransactionContext {
        transaction_frame: HostBuffer { addr: 0x4000, len: 96, mutable: false },
        accounts: TransactionAccounts {
            shared_fields: HostBuffer { addr: 0x5000, len: 88 * accounts.len(), mutable: false },
            payload_regions: account_regions(accounts),
        },
        instruction_trace: HostBuffer { addr: 0x6000, len: 48, mutable: false },
        return_data_region: MemoryRegion::new(
            HostBuffer { addr: 0x7000, len: 0, mutable: true },
            RETURN_DATA_SCRATCHPAD,
        ),
        instruction_payload_regions: regions_at(GUEST_INSTRUCTION_DATA_BASE_ADDRESS, &[9, 0]),
        instruction_accounts_regions: regions_at(GUEST_INSTRUCTION_ACCOUNT_BASE_ADDRESS, &[8, 0]),
        current_instruction: Err(InstructionError::CallDepth),
    }
}

/// An instruction of `program` that names accounts by their index, and whether it may write them.
/// It may change the data of those that it may write and that its program owns.
fn instruction(
    accounts: &[Account],
    program: [u8; 32],
    named: &[(u16, bool)],
) -> InstructionContext {
    InstructionContext {
        instruction_accounts: named
            .iter()
            .map(|(index, is_writable)| InstructionAccountBorrow {
                index_in_transaction: *index,
                borrow: Ok(BorrowedInstructionAccount {
                    can_data_be_changed: if !is_writable {
                        Err(InstructionError::ReadonlyDataModified)
                    } else if accounts[*index as usize].owner != program {
                        Err(InstructionError::ExternalAccountDataModified)
                    } else {
                        Ok(())
                    },
                }),
            })
            .collect(),
    }
}

fn accounts() -> (Vec<Account>, [u8; 32]) {
    let program = [77; 32];
    (
        vec![
            Account { owner: program, data_len: 10 },
            Account { owner: program, data_len: 15 },
            Account { owner: program, data_len: 5 },
            Account { owner: program, data_len: 2 },
            Account { owner: [78; 32], data_len: 3 },
        ],
        program,
    )
}

/// Contexts with one instruction of the second ABI, over the regions of a transaction.
fn contexts(context: &InvokeContext) -> MemoryContexts<PlainMapping<u8>> {
    let mut contexts = MemoryContexts::<PlainMapping<u8>>::new();
    contexts.create_abi_v2_mappings(
        create_abiv2_regions(context),
        CONFIG,
        SBPFVersion::V4,
        AccessViolationHandler::Default,
    );
    contexts.push_placeholder();
    contexts.set_abi_v2().unwrap();
    contexts
}

fn shared_regions(contexts: &MemoryContexts<PlainMapping<u8>>) -> Vec<MemoryRegion> {
    contexts.memory_mapping().unwrap().get_regions().clone()
}

#[test]
fn test_update_account_permissions() {
    let (accounts, program) = accounts();
    let mut invoke_context = InvokeContext {
        transaction_context: transaction(&accounts),
        sysvar_cache: SysvarCache { buffers: vec![] },
    };
    let mut memory_contexts = contexts(&invoke_context);
    let start = abiv2_region_index_from_vm_address(GUEST_ACCOUNT_PAYLOAD_BASE_ADDRESS);

    // IX 1
    invoke_context.transaction_context.current_instruction = Ok(instruction(
        &accounts,
        program,
        &[(0, false), (2, true), (1, false), (3, true)],
    ));
    memory_contexts
        .abi_v2_prepare_for_instruction(&invoke_context.transaction_context)
        .unwrap();
    let end = start.saturating_add(invoke_context.transaction_context.accounts().len());
    let regions = shared_regions(&memory_contexts);
    let ix1_regions = regions.get(start..end).unwrap();

    let reg_zero = ix1_regions.first().unwrap();
    assert!(reg_zero.access_violation_handler_payload.is_none());
    assert!(!reg_zero.host.is_mutable());
    let reg_one = ix1_regions.get(1).unwrap();
    assert!(reg_one.access_violation_handler_payload.is_none());
    assert!(!reg_one.host.is_mutable());
    let reg_two = ix1_regions.get(2).unwrap();
    assert_eq!(reg_two.access_violation_handler_payload, Some(2));
    assert!(!reg_two.host.is_mutable());
    let reg_three = ix1_regions.get(3).unwrap();
    assert_eq!(reg_three.access_violation_handler_payload, Some(3));
    assert!(!reg_three.host.is_mutable());
    for account_region in ix1_regions.iter().skip(4) {
        assert!(account_region.access_violation_handler_payload.is_none());
    }

    // IX 2
    invoke_context.transaction_context.current_instruction =
        Ok(instruction(&accounts, program, &[(1, false), (2, false), (0, true)]));
    memory_contexts
        .abi_v2_prepare_for_instruction(&invoke_context.transaction_context)
        .unwrap();
    let regions = shared_regions(&memory_contexts);
    let ix2_regions = regions.get(start..end).unwrap();

    let reg_zero = ix2_regions.first().unwrap();
    assert_eq!(reg_zero.access_violation_handler_payload, Some(0));
    assert!(!reg_zero.host.is_mutable());
    let reg_one = ix2_regions.get(1).unwrap();
    assert!(reg_one.access_violation_handler_payload.is_none());
    assert!(!reg_one.host.is_mutable());
    let reg_two = ix2_regions.get(2).unwrap();
    assert!(reg_two.access_violation_handler_payload.is_none());
    assert!(!reg_two.host.is_mutable());
    let reg_three = ix2_regions.get(3).unwrap();
    assert!(reg_three.access_violation_handler_payload.is_none());
    assert!(!reg_three.host.is_mutable());
    for account_region in ix2_regions.iter().skip(4) {
        assert!(account_region.access_violation_handler_payload.is_none());
    }

    // IX 3
    invoke_context.transaction_context.current_instruction =
        Ok(instruction(&accounts, program, &[(0, true), (1, true), (2, false)]));
    memory_contexts
        .abi_v2_prepare_for_instruction(&invoke_context.transaction_context)
        .unwrap();
    let regions = shared_regions(&memory_contexts);
    let ix3_regions = regions.get(start..end).unwrap();

    let reg_zero = ix3_regions.first().unwrap();
    assert_eq!(reg_zero.access_violation_handler_payload, Some(0));
    assert!(!reg_zero.host.is_mutable());
    let reg_one = ix3_regions.get(1).unwrap();
    assert_eq!(reg_one.access_violation_handler_payload, Some(1));
    assert!(!reg_one.host.is_mutable());
    let reg_two = ix3_regions.get(2).unwrap();
    assert!(reg_two.access_violation_handler_payload.is_none());
    assert!(!reg_two.host.is_mutable());
    for account_region in ix3_regions.iter().skip(3) {
        assert!(account_region.access_violation_handler_payload.is_none());
    }

    // IX 3 again, but with region made writable
    let first_account = &mut memory_contexts.memory_mapping_mut().unwrap().regions[start];
    first_account.host.mutable = true;
    first_account.access_violation_handler_payload = None;
    memory_contexts
        .abi_v2_prepare_for_instruction(&invoke_context.transaction_context)
        .unwrap();
    let regions = shared_regions(&memory_contexts);
    let ix3_regions = regions.get(start..end).unwrap();

    let reg_zero = ix3_regions.first().unwrap();
    assert!(reg_zero.access_violation_handler_payload.is_none());
    assert!(reg_zero.host.is_mutable());
    let reg_one = ix3_regions.get(1).unwrap();
    assert_eq!(reg_one.access_violation_handler_payload, Some(1));
    assert!(!reg_one.host.is_mutable());
    let reg_two = ix3_regions.get(2).unwrap();
    assert!(reg_two.access_violation_handler_payload.is_none());
    assert!(!reg_two.host.is_mutable());
    for account_region in ix3_regions.iter().skip(3) {
        assert!(account_region.access_violation_handler_payload.is_none());
    }
}

#[test]
fn preparing_makes_return_data_read_only() {
    let (accounts, program) = accounts();
    let mut invoke_context = InvokeContext {
        transaction_context: transaction(&accounts),
        sysvar_cache: SysvarCache { buffers: vec![] },
    };
    invoke_context.transaction_context.current_instruction =
        Ok(instruction(&accounts, program, &[]));
    let mut memory_contexts = contexts(&invoke_context);
    assert!(shared_regions(&memory_contexts)[7].host.is_mutable());
    memory_contexts
        .abi_v2_prepare_for_instruction(&invoke_context.transaction_context)
        .unwrap();
    let regions = shared_regions(&memory_contexts);
    assert_eq!(
        regions[7],
        MemoryRegion::new(
            HostBuffer { addr: 0x7000, len: 0, mutable: false },
            RETURN_DATA_SCRATCHPAD
        )
    );
}

#[test]
fn preparing_is_idempotent_and_ends_the_lookup_of_addresses() {
    let (accounts, program) = accounts();
    let mut invoke_context = InvokeContext {
        transaction_context: transaction(&accounts),
        sysvar_cache: SysvarCache { buffers: vec![] },
    };
    invoke_context.transaction_context.current_instruction =
        Ok(instruction(&accounts, program, &[(3, true), (4, true)]));
    let mut memory_contexts = contexts(&invoke_context);
    memory_contexts.memory_mapping_mut().unwrap().initialized = true;
    memory_contexts
        .abi_v2_prepare_for_instruction(&invoke_context.transaction_context)
        .unwrap();
    let once = shared_regions(&memory_contexts);
    assert!(!memory_contexts.memory_mapping().unwrap().initialized);
    memory_contexts
        .abi_v2_prepare_for_instruction(&invoke_context.transaction_context)
        .unwrap();
    assert_eq!(shared_regions(&memory_contexts), once);
    assert_eq!(once[8 + 3].access_violation_handler_payload, Some(3));
    // Writable to the instruction, yet another program's.
    assert_eq!(once[8 + 4].access_violation_handler_payload, None);
}

#[test]
fn preparing_takes_write_access_away() {
    let (accounts, program) = accounts();
    let mut invoke_context = InvokeContext {
        transaction_context: transaction(&accounts),
        sysvar_cache: SysvarCache { buffers: vec![] },
    };
    invoke_context.transaction_context.current_instruction =
        Ok(instruction(&accounts, program, &[(1, false)]));
    let mut memory_contexts = contexts(&invoke_context);
    for i in 0..5 {
        let region = &mut memory_contexts.memory_mapping_mut().unwrap().regions[8 + i];
        region.host.mutable = true;
        region.access_violation_handler_payload = Some(i as u16);
    }
    memory_contexts
        .abi_v2_prepare_for_instruction(&invoke_context.transaction_context)
        .unwrap();
    let regions = shared_regions(&memory_contexts);
    assert_eq!(&regions[8..13], account_regions(&accounts).as_slice());
}

#[test]
fn preparing_ends_at_the_first_account_that_cannot_be_borrowed() {
    let (accounts, program) = accounts();
    let mut invoke_context = InvokeContext {
        transaction_context: transaction(&accounts),
        sysvar_cache: SysvarCache { buffers: vec![] },
    };
    let mut current =
        instruction(&accounts, program, &[(3, true), (2, true), (1, true), (0, true)]);
    current.instruction_accounts[1].borrow = Err(InstructionError::AccountBorrowFailed);
    current.instruction_accounts[0].borrow = Err(InstructionError::MissingAccount);
    invoke_context.transaction_context.current_instruction = Ok(current);
    let mut memory_contexts = contexts(&invoke_context);
    assert_eq!(
        memory_contexts.abi_v2_prepare_for_instruction(&invoke_context.transaction_context),
        Err(InstructionError::AccountBorrowFailed)
    );
    let regions = shared_regions(&memory_contexts);
    assert!(!regions[7].host.is_mutable());
    assert_eq!(regions[8].access_violation_handler_payload, Some(0));
    assert_eq!(regions[9].access_violation_handler_payload, Some(1));
    assert_eq!(&regions[10..13], &account_regions(&accounts)[2..]);
}

#[test]
fn preparing_without_an_instruction_changes_nothing() {
    let (accounts, _) = accounts();
    let invoke_context = InvokeContext {
        transaction_context: transaction(&accounts),
        sysvar_cache: SysvarCache { buffers: vec![] },
    };
    let mut memory_contexts = contexts(&invoke_context);
    memory_contexts.memory_mapping_mut().unwrap().initialized = true;
    let before = shared_regions(&memory_contexts);
    assert_eq!(
        memory_contexts.abi_v2_prepare_for_instruction(&invoke_context.transaction_context),
        Err(InstructionError::CallDepth)
    );
    assert_eq!(shared_regions(&memory_contexts), before);
    assert!(memory_contexts.memory_mapping().unwrap().initialized);
}

#[test]
fn preparing_goes_by_the_first_of_duplicate_accounts() {
    let (accounts, program) = accounts();
    let current = instruction(&accounts, program, &[(0, false), (0, true)]);
    assert_eq!(current.get_index_of_account_in_instruction(0), Ok(0));
    assert_eq!(
        current.get_index_of_account_in_instruction(1),
        Err(InstructionError::MissingAccount)
    );
    assert_eq!(
        current.try_borrow_instruction_account(2),
        Err(InstructionError::MissingAccount)
    );
    let context = InvokeContext {
        transaction_context: transaction(&accounts),
        sysvar_cache: SysvarCache { buffers: vec![] },
    };
    let mut mapping = PlainMapping::<u8>::new_uninitialized(
        create_abiv2_regions(&context),
        CONFIG,
        SBPFVersion::V4,
        AccessViolationHandler::Default,
    );
    prepare_regions(&mut mapping, &current, 5).unwrap();
    assert_eq!(mapping.regions[8].access_violation_handler_payload, None);
}

#[test]
fn accounts_are_marked_with_sixteen_bits() {
    let (accounts, program) = accounts();
    let current = instruction(&accounts, program, &[(0, true)]);
    let mut mapping = PlainMapping::<u8>::new_uninitialized(
        vec![MemoryRegion::new_empty(0); 8 + 65538],
        CONFIG,
        SBPFVersion::V4,
        AccessViolationHandler::Default,
    );
    prepare_regions(&mut mapping, &current, 65538).unwrap();
    assert_eq!(mapping.regions[8].access_violation_handler_payload, Some(0));
    assert_eq!(mapping.regions[8 + 65535].access_violation_handler_payload, None);
    assert_eq!(mapping.regions[8 + 65536].access_violation_handler_payload, Some(0));
    assert_eq!(mapping.regions[8 + 65537].access_violation_handler_payload, None);
}

#[test]
fn shared_regions_are_listed_in_order() {
    let (accounts, _) = accounts();
    let clock = HostBuffer { addr: 0x900, len: 40, mutable: true };
    let ids = sysvar_ids_by_area();
    let context = InvokeContext {
        transaction_context: transaction(&accounts),
        sysvar_cache: SysvarCache { buffers: vec![SysvarBuffer { id: ids[6], data: clock }] },
    };
    let regions = create_abiv2_regions(&context);
    assert_eq!(regions.len(), 8 + 5 + 7 + 2 + 2);
    assert_eq!(regions[0], MemoryRegion::new_empty(solana_sbpf::ebpf::MM_RODATA_START));
    assert_eq!(regions[1], MemoryRegion::new_empty(solana_sbpf::ebpf::MM_BYTECODE_START));
    assert_eq!(regions[2], MemoryRegion::new_empty(solana_sbpf::ebpf::MM_STACK_START));
    assert_eq!(regions[3], MemoryRegion::new_empty(solana_sbpf::ebpf::MM_HEAP_START));
    assert_eq!(regions[3].vm_addr, 0x3_0000_0000);
    assert_eq!(regions[4].vm_addr, TRANSACTION_FRAME_ADDRESS);
    assert_eq!(regions[4].host.addr, 0x4000);
    assert_eq!(regions[5].vm_addr, ACCOUNT_METADATA_AREA);
    assert_eq!(regions[5].host.len, 88 * 5);
    assert_eq!(regions[6].vm_addr, INSTRUCTION_TRACE_AREA);
    assert_eq!(regions[6].host.addr, 0x6000);
    assert_eq!(regions[7], context.transaction_context.return_data_region);
    assert_eq!(&regions[8..13], account_regions(&accounts).as_slice());
    // Sysvars without data are empty, and the last area is the clock's.
    for i in 0..6 {
        assert_eq!(
            regions[13 + i],
            MemoryRegion::new_empty(GUEST_SYSVARS_BASE_ADDRESS + from_index(i as u64))
        );
    }
    assert_eq!(
        regions[19],
        MemoryRegion::new(
            HostBuffer { addr: 0x900, len: 40, mutable: false },
            GUEST_SYSVARS_BASE_ADDRESS + from_index(6)
        )
    );
    assert_eq!(regions[20].vm_addr, GUEST_INSTRUCTION_DATA_BASE_ADDRESS);
    assert_eq!(regions[20].host.len, 9);
    assert_eq!(regions[22].vm_addr, GUEST_INSTRUCTION_ACCOUNT_BASE_ADDRESS);
    assert_eq!(regions[23].vm_addr, GUEST_INSTRUCTION_ACCOUNT_BASE_ADDRESS + from_index(1));
}

#[test]
fn shared_regions_ascend_and_leave_unused_areas_out() {
    let (accounts, _) = accounts();
    let context = InvokeContext {
        transaction_context: transaction(&accounts),
        sysvar_cache: SysvarCache { buffers: vec![] },
    };
    let regions = create_abiv2_regions(&context);
    for pair in regions.windows(2) {
        assert!(pair[0].vm_addr < pair[1].vm_addr);
    }
    for (i, region) in regions.iter().enumerate().take(13) {
        assert_eq!(abiv2_region_index_from_vm_address(region.vm_addr), i);
    }
    for area in (13..0xff9).chain(0x1002..0x1040).chain(0x1042..0x1100) {
        assert!(!regions
            .iter()
            .any(|region| abiv2_region_index_from_vm_address(region.vm_addr) == area));
    }
}

#[test]
fn regions_behave_as_those_of_the_virtual_machine() {
    let mut memory = [1u8, 2, 3];
    let mut theirs = SbpfRegion::new(SbpfBuffer::Mutable(&mut memory), 0x8_0000_0000);
    let mut ours = MemoryRegion::new(
        HostBuffer { addr: 0x800, len: 3, mutable: true },
        0x8_0000_0000,
    );
    for _ in 0..2 {
        assert_eq!(theirs.host_buffer().is_mutable(), ours.host.is_mutable());
        assert_eq!(theirs.len(), ours.host.len);
        assert_eq!(theirs.vm_addr_range().start, ours.vm_addr);
        assert_eq!(theirs.gap_size(), ours.vm_gap_size);
        assert_eq!(
            theirs.access_violation_handler_payload,
            ours.access_violation_handler_payload
        );
        theirs.make_immutable();
        ours.make_immutable();
    }
    let theirs = SbpfRegion::new_empty(0x1_0000_0000);
    let ours = MemoryRegion::new_empty(0x1_0000_0000);
    assert_eq!(theirs.host_buffer().is_mutable(), ours.host.is_mutable());
    assert_eq!(theirs.len(), ours.host.len);
    assert_eq!(theirs.vm_addr_range().start, ours.vm_addr);
    assert_eq!(theirs.gap_size(), ours.vm_gap_size);
}

#[test]
fn new_contexts_are_empty() {
    let contexts = MemoryContexts::<PlainMapping<u8>>::new();
    assert!(!contexts.abi_v2_regions_exist());
    assert_eq!(contexts.memory_mapping().unwrap_err(), InstructionError::CallDepth);
    assert_eq!(contexts.memory_context_abi_v1().unwrap_err(), InstructionError::CallDepth);
    let mut contexts = contexts;
    assert_eq!(contexts.memory_mapping_mut().unwrap_err(), InstructionError::CallDepth);
    assert_eq!(contexts.memory_context_mut_abi_v1().unwrap_err(), InstructionError::CallDepth);
    assert_eq!(contexts.set_abi_v2(), Err(InstructionError::CallDepth));
    contexts.pop();
    contexts.push_placeholder();
    contexts.set_abi_v2().unwrap();
    let mapping = contexts.memory_mapping().unwrap();
    let defaults = solana_sbpf::vm::Config::default();
    assert_eq!(mapping.config.max_call_depth, defaults.max_call_depth);
    assert_eq!(mapping.config.stack_frame_size, defaults.stack_frame_size);
    assert_eq!(mapping.config, CONFIG);
    assert_eq!(mapping.sbpf_version, SBPFVersion::Reserved);
    assert_eq!(mapping.access_violation_handler, AccessViolationHandler::Default);
    assert!(mapping.initialized);
}

fn own_mapping(vm_addr: u64) -> PlainMapping<u8> {
    PlainMapping::new_uninitialized(
        vec![MemoryRegion::new_empty(vm_addr)],
        CONFIG,
        SBPFVersion::V3,
        AccessViolationHandler::Default,
    )
}

fn metadata(vm_addr: u64) -> SerializedAccountMetadata {
    SerializedAccountMetadata {
        vm_addr,
        original_data_len: 1,
        vm_data_addr: 2,
        vm_key_addr: 3,
        vm_lamports_addr: 4,
        vm_owner_addr: 5,
    }
}

#[test]
fn placeholders_have_no_memory() {
    let mut contexts = MemoryContexts::<PlainMapping<u8>>::new();
    contexts.push_placeholder();
    let e = InstructionError::ProgramEnvironmentSetupFailure;
    assert_eq!(contexts.memory_mapping().unwrap_err(), e);
    assert_eq!(contexts.memory_mapping_mut().unwrap_err(), e);
    assert_eq!(contexts.memory_context_abi_v1().unwrap_err(), e);
    assert_eq!(contexts.memory_context_mut_abi_v1().unwrap_err(), e);
}

#[test]
fn instructions_of_the_first_abi_have_their_own_memory() {
    let mut contexts = MemoryContexts::<PlainMapping<u8>>::new();
    let context = MemoryContext::new(BpfAllocator::new(9), vec![metadata(6)], own_mapping(1));
    assert_eq!(
        contexts.set_memory_context_abi_v1(MemoryContext::new(
            BpfAllocator::new(9),
            vec![],
            own_mapping(1)
        )),
        Err(InstructionError::CallDepth)
    );
    contexts.push_placeholder();
    contexts.set_memory_context_abi_v1(context).unwrap();
    let context = contexts.memory_context_abi_v1().unwrap();
    assert_eq!(context.allocator.len, 9);
    assert_eq!(context.allocator.pos, 0);
    assert_eq!(context.accounts_metadata[0].vm_addr, 6);
    assert_eq!(contexts.memory_mapping().unwrap().regions[0].vm_addr, 1);

    contexts.memory_context_mut_abi_v1().unwrap().accounts_metadata.push(metadata(7));
    contexts.memory_mapping_mut().unwrap().regions[0].vm_addr = 2;
    let context = contexts.memory_context_abi_v1().unwrap();
    assert_eq!(context.accounts_metadata[1].vm_addr, 7);
    assert_eq!(context.memory_mapping.regions[0].vm_addr, 2);

    // A callee has none of it, and its caller finds it again.
    contexts.push_placeholder();
    contexts.set_abi_v2().unwrap();
    assert!(contexts.memory_mapping().unwrap().regions.is_empty());
    contexts.pop();
    assert_eq!(contexts.memory_mapping().unwrap().regions[0].vm_addr, 2);
}

#[test]
fn instructions_of_the_second_abi_share_their_memory() {
    let mut contexts = MemoryContexts::<PlainMapping<u8>>::new();
    contexts.create_abi_v2_mappings(
        vec![MemoryRegion::new_empty(0)],
        Config { aligned_memory_mapping: true, ..CONFIG },
        SBPFVersion::V4,
        AccessViolationHandler::Custom(33),
    );
    assert!(contexts.abi_v2_regions_exist());
    contexts.push_placeholder();
    contexts.set_abi_v2().unwrap();
    assert_eq!(
        contexts.memory_context_abi_v1().unwrap_err(),
        InstructionError::InvalidAccountData
    );
    assert_eq!(
        contexts.memory_context_mut_abi_v1().unwrap_err(),
        InstructionError::ProgramEnvironmentSetupFailure
    );
    assert!(!contexts.memory_mapping().unwrap().initialized);
    assert!(contexts.memory_mapping().unwrap().config.aligned_memory_mapping);
    assert_eq!(
        contexts.memory_mapping().unwrap().access_violation_handler,
        AccessViolationHandler::Custom(33)
    );
    contexts.push_placeholder();
    contexts.set_abi_v2().unwrap();
    contexts.memory_mapping_mut().unwrap().regions[0].vm_addr = 5;
    contexts.pop();
    assert_eq!(contexts.memory_mapping().unwrap().regions[0].vm_addr, 5);
}

#[test]
fn mocked_mappings_leave_one_instruction() {
    let mut contexts = MemoryContexts::<PlainMapping<u8>>::new();
    contexts.push_placeholder();
    contexts.push_placeholder();
    contexts.mock_set_mapping_abi_v1(own_mapping(3));
    assert_eq!(contexts.memory_mapping().unwrap().regions[0].vm_addr, 3);
    assert_eq!(contexts.memory_context_abi_v1().unwrap().allocator.len, 0);
    assert!(contexts.memory_context_abi_v1().unwrap().accounts_metadata.is_empty());
    assert!(!contexts.abi_v2_regions_exist());
    contexts.mock_set_mapping_abi_v2(own_mapping(4));
    assert_eq!(contexts.memory_mapping().unwrap().regions[0].vm_addr, 4);
    assert!(contexts.abi_v2_regions_exist());
    contexts.pop();
    assert_eq!(contexts.memory_mapping().unwrap_err(), InstructionError::CallDepth);
}

#[test]
fn a_new_shared_mapping_has_the_given_handler() {
    let mut contexts = MemoryContexts::<PlainMapping<SbpfHandler>>::new();
    for mark in [11, 12] {
        let handler: SbpfHandler =
            Box::new(move |region: &mut SbpfRegion, _, _: AccessType, _, _| {
                region.access_violation_handler_payload = Some(mark);
            });
        contexts.create_abi_v2_mappings(
            vec![MemoryRegion::new_empty(0)],
            CONFIG,
            SBPFVersion::V4,
            AccessViolationHandler::Custom(handler),
        );
        contexts.push_placeholder();
        assert!(contexts.set_abi_v2().is_ok());
        // The handler that is kept is the one that was given last.
        let mut region = SbpfRegion::new_empty(0);
        match contexts.memory_mapping() {
            Ok(mapping) => match &mapping.access_violation_handler {
                AccessViolationHandler::Custom(handler) => {
                    handler(&mut region, 0, AccessType::Load, 0, 1)
                }
                AccessViolationHandler::Default => panic!("no handler"),
            },
            Err(_) => panic!("no mapping"),
        }
        assert_eq!(region.access_violation_handler_payload, Some(mark));
    }
}

#[test]
fn preparation_keeps_the_handler() {
    let (accounts, program) = accounts();
    let current = instruction(&accounts, program, &[(0, true)]);
    let mut mapping = PlainMapping::new_uninitialized(
        vec![MemoryRegion::new_empty(0); 16],
        CONFIG,
        SBPFVersion::V4,
        AccessViolationHandler::Custom(5u8),
    );
    prepare_regions(&mut mapping, &current, 5).unwrap();
    assert_eq!(mapping.access_violation_handler, AccessViolationHandler::Custom(5));
    assert_eq!(mapping.config, CONFIG);
}
