//! The memory of each instruction on the call stack.

use crate::instruction_error::InstructionError;
use crate::memory_region::{
    AccessViolationHandler, Config, MemoryRegion, PlainMapping, RegionTable, SBPFVersion,
};
use crate::preparation::{
    account_index, account_regions_end, accounts_prepared, prepare_regions, prepared_regions,
};
use crate::transaction_context::{BorrowedInstructionAccount, TransactionContext};
use crate::vm_addresses::{
    area_index, GUEST_ACCOUNT_PAYLOAD_BASE_ADDRESS, RETURN_DATA_SCRATCHPAD,
};
use vstd::prelude::*;

verus! {

/// The heap of one instruction: its size, and how much of it is taken.
#[derive(Debug)]
pub struct BpfAllocator {
    pub len: u64,
    pub pos: u64,
}

impl BpfAllocator {
    pub fn new(len: u64) -> (allocator: BpfAllocator)
        ensures
            allocator == (BpfAllocator { len, pos: 0 }),
    {
        BpfAllocator { len, pos: 0 }
    }
}

/// Where the parts of a serialized account lie in guest memory.
#[derive(Debug, Clone)]
pub struct SerializedAccountMetadata {
    /// Address of the first byte of the serialized account record (the
    /// `NON_DUP_MARKER`/duplicate-marker byte).
    pub vm_addr: u64,
    pub original_data_len: usize,
    pub vm_data_addr: u64,
    pub vm_key_addr: u64,
    pub vm_lamports_addr: u64,
    pub vm_owner_addr: u64,
}

/// This structure contains metadata about the memory for each instruction under execution.
/// The BpfAllocator, accounts addresses in the guest and the memory mapping.
#[derive(Debug)]
pub struct MemoryContext<M> {
    pub allocator: BpfAllocator,
    pub accounts_metadata: Vec<SerializedAccountMetadata>,
    /// Public like the rest: contracts can speak of a struct's fields only where none is private.
    pub memory_mapping: Box<M>,
}

impl<M> MemoryContext<M> {
    /// The instruction's own mapping.
    pub open spec fn mapping(self) -> M {
        *self.memory_mapping
    }

    /// The same context with another mapping.
    pub open spec fn with_mapping(self, mapping: M) -> MemoryContext<M> {
        MemoryContext { memory_mapping: Box::new(mapping), ..self }
    }

    /// Creates a new memory context
    pub fn new(
        allocator: BpfAllocator,
        accounts_metadata: Vec<SerializedAccountMetadata>,
        memory_mapping: M,
    ) -> (context: MemoryContext<M>)
        ensures
            context.allocator == allocator,
            context.accounts_metadata == accounts_metadata,
            context.mapping() == memory_mapping,
    {
        MemoryContext { allocator, accounts_metadata, memory_mapping: Box::new(memory_mapping) }
    }
}

/// The memory of one instruction on the call stack.
#[derive(Debug)]
pub enum MemoryContextType<M> {
    /// A mapping of its own.
    ABIv1(MemoryContext<M>),
    /// Not configured yet.
    Placeholder,
    /// The mapping that all such instructions of the transaction share.
    ABIv2,
}

/// The memory of every instruction on the call stack, innermost last, and the mapping that those
/// of the second ABI share.
#[derive(Debug)]
pub struct MemoryContexts<M> {
    contexts: Vec<MemoryContextType<M>>,
    abiv2_mappings: Box<M>,
}

impl<M: RegionTable> MemoryContexts<M> {
    /// The instructions on the call stack, innermost last.
    pub closed spec fn contexts(self) -> Seq<MemoryContextType<M>> {
        self.contexts@
    }

    /// The shared mapping.
    pub closed spec fn abiv2_mapping(self) -> M {
        *self.abiv2_mappings
    }

    /// An empty call stack, and the given shared mapping.
    pub fn with_mapping(abiv2_mappings: M) -> (contexts: MemoryContexts<M>)
        ensures
            contexts.contexts() == Seq::<MemoryContextType<M>>::empty(),
            contexts.abiv2_mapping() == abiv2_mappings,
    {
        MemoryContexts { contexts: Vec::new(), abiv2_mappings: Box::new(abiv2_mappings) }
    }

    /// Puts the given memory in place of that of the innermost instruction.
    fn set_last(&mut self, context: MemoryContextType<M>) -> (result: Result<(), InstructionError>)
        ensures
            final(self).abiv2_mapping() == old(self).abiv2_mapping(),
            old(self).contexts().len() == 0 ==> {
                &&& result == Err::<(), InstructionError>(InstructionError::CallDepth)
                &&& final(self).contexts() == old(self).contexts()
            },
            old(self).contexts().len() > 0 ==> {
                &&& result == Ok::<(), InstructionError>(())
                &&& final(self).contexts() == old(self).contexts().drop_last().push(context)
            },
    {
        let depth = self.contexts.len();
        if depth == 0 {
            return Err(InstructionError::CallDepth);
        }
        self.contexts.set(depth - 1, context);
        assert(self.contexts@ =~= old(self).contexts@.drop_last().push(context));
        Ok(())
    }

    /// Set this instruction's [`MemoryContext`].
    pub fn set_memory_context_abi_v1(
        &mut self,
        memory_context: MemoryContext<M>,
    ) -> (result: Result<(), InstructionError>)
        ensures
            final(self).abiv2_mapping() == old(self).abiv2_mapping(),
            old(self).contexts().len() == 0 ==> {
                &&& result == Err::<(), InstructionError>(InstructionError::CallDepth)
                &&& final(self).contexts() == old(self).contexts()
            },
            old(self).contexts().len() > 0 ==> {
                &&& result == Ok::<(), InstructionError>(())
                &&& final(self).contexts() == old(self).contexts().drop_last().push(
                    MemoryContextType::ABIv1(memory_context),
                )
            },
    {
        self.set_last(MemoryContextType::ABIv1(memory_context))
    }

    /// Get current instruction's [`MemoryContext`]
    pub fn memory_context_abi_v1(&self) -> (result: Result<&MemoryContext<M>, InstructionError>)
        ensures
            match context_abi_v1(self.contexts()) {
                Ok(context) => result is Ok && *result->Ok_0 == context,
                Err(e) => result is Err && result->Err_0 == e,
            },
    {
        let depth = self.contexts.len();
        if depth == 0 {
            return Err(InstructionError::CallDepth);
        }
        match &self.contexts[depth - 1] {
            MemoryContextType::ABIv1(ctx) => Ok(ctx),
            MemoryContextType::Placeholder => Err(InstructionError::ProgramEnvironmentSetupFailure),
            MemoryContextType::ABIv2 => Err(InstructionError::InvalidAccountData),
        }
    }

    /// Get current instruction's [`MemoryContext`] for mutable use.
    pub fn memory_context_mut_abi_v1(&mut self) -> (result: Result<
        &mut MemoryContext<M>,
        InstructionError,
    >)
        ensures
            final(self).abiv2_mapping() == old(self).abiv2_mapping(),
            match result {
                Ok(ctx) => {
                    &&& context_mut_abi_v1(old(self).contexts()) == Ok::<
                        MemoryContext<M>,
                        InstructionError,
                    >(*ctx)
                    &&& final(self).contexts() == old(self).contexts().drop_last().push(
                        MemoryContextType::ABIv1(*final(ctx)),
                    )
                },
                Err(e) => {
                    &&& context_mut_abi_v1(old(self).contexts()) == Err::<
                        MemoryContext<M>,
                        InstructionError,
                    >(e)
                    &&& final(self).contexts() == old(self).contexts()
                },
            },
    {
        let depth = self.contexts.len();
        if depth == 0 {
            return Err(InstructionError::CallDepth);
        }
        match &mut self.contexts[depth - 1] {
            MemoryContextType::ABIv1(ctx) => Ok(ctx),
            MemoryContextType::Placeholder => Err(InstructionError::ProgramEnvironmentSetupFailure),
            MemoryContextType::ABIv2 => Err(InstructionError::ProgramEnvironmentSetupFailure),
        }
    }

    /// The mapping that the innermost instruction runs in.
    pub fn memory_mapping(&self) -> (result: Result<&M, InstructionError>)
        ensures
            match current_mapping(self.contexts(), self.abiv2_mapping()) {
                Ok(mapping) => result is Ok && *result->Ok_0 == mapping,
                Err(e) => result is Err && result->Err_0 == e,
            },
    {
        let depth = self.contexts.len();
        if depth == 0 {
            return Err(InstructionError::CallDepth);
        }
        match &self.contexts[depth - 1] {
            MemoryContextType::ABIv1(ctx) => Ok(&ctx.memory_mapping),
            MemoryContextType::Placeholder => Err(InstructionError::ProgramEnvironmentSetupFailure),
            MemoryContextType::ABIv2 => Ok(&self.abiv2_mappings),
        }
    }

    /// The mapping that the innermost instruction runs in, to be changed in place.
    pub fn memory_mapping_mut(&mut self) -> (result: Result<&mut M, InstructionError>)
        ensures
            match result {
                Ok(mapping) => {
                    &&& current_mapping(old(self).contexts(), old(self).abiv2_mapping()) == Ok::<
                        M,
                        InstructionError,
                    >(*mapping)
                    &&& match old(self).contexts().last() {
                        MemoryContextType::ABIv1(ctx) => {
                            &&& final(self).contexts() == old(self).contexts().drop_last().push(
                                MemoryContextType::ABIv1(ctx.with_mapping(*final(mapping))),
                            )
                            &&& final(self).abiv2_mapping() == old(self).abiv2_mapping()
                        },
                        _ => {
                            &&& final(self).contexts() == old(self).contexts()
                            &&& final(self).abiv2_mapping() == *final(mapping)
                        },
                    }
                },
                Err(e) => {
                    &&& current_mapping(old(self).contexts(), old(self).abiv2_mapping()) == Err::<
                        M,
                        InstructionError,
                    >(e)
                    &&& final(self).contexts() == old(self).contexts()
                    &&& final(self).abiv2_mapping() == old(self).abiv2_mapping()
                },
            },
    {
        let depth = self.contexts.len();
        if depth == 0 {
            return Err(InstructionError::CallDepth);
        }
        match &mut self.contexts[depth - 1] {
            MemoryContextType::ABIv1(ctx) => Ok(&mut ctx.memory_mapping),
            MemoryContextType::Placeholder => Err(InstructionError::ProgramEnvironmentSetupFailure),
            MemoryContextType::ABIv2 => Ok(&mut self.abiv2_mappings),
        }
    }

    /// Leaves one instruction on the call stack, with the given mapping as its own.
    pub fn mock_set_mapping_abi_v1(&mut self, memory_mapping: M)
        ensures
            final(self).abiv2_mapping() == old(self).abiv2_mapping(),
            final(self).contexts().len() == 1,
            final(self).contexts()[0] matches MemoryContextType::ABIv1(ctx) && {
                &&& ctx.allocator == (BpfAllocator { len: 0, pos: 0 })
                &&& ctx.accounts_metadata@ == Seq::<SerializedAccountMetadata>::empty()
                &&& ctx.mapping() == memory_mapping
            },
    {
        let mut contexts: Vec<MemoryContextType<M>> = Vec::new();
        contexts.push(
            MemoryContextType::ABIv1(
                MemoryContext::new(BpfAllocator::new(0), Vec::new(), memory_mapping),
            ),
        );
        self.contexts = contexts;
    }

    /// Leaves one instruction on the call stack, which runs in the shared mapping, now the given
    /// one.
    pub fn mock_set_mapping_abi_v2(&mut self, memory_mapping: M)
        ensures
            final(self).abiv2_mapping() == memory_mapping,
            final(self).contexts() == seq![MemoryContextType::<M>::ABIv2],
    {
        *self.abiv2_mappings = memory_mapping;
        let mut contexts: Vec<MemoryContextType<M>> = Vec::new();
        contexts.push(MemoryContextType::ABIv2);
        self.contexts = contexts;
    }

    /// Puts an instruction on the call stack that is to be configured later.
    pub fn push_placeholder(&mut self)
        ensures
            final(self).abiv2_mapping() == old(self).abiv2_mapping(),
            final(self).contexts() == old(self).contexts().push(MemoryContextType::Placeholder),
    {
        self.contexts.push(MemoryContextType::Placeholder);
    }

    /// Takes the innermost instruction off the call stack, if there is one.
    pub fn pop(&mut self)
        ensures
            final(self).abiv2_mapping() == old(self).abiv2_mapping(),
            final(self).contexts() == if old(self).contexts().len() > 0 {
                old(self).contexts().drop_last()
            } else {
                old(self).contexts()
            },
    {
        self.contexts.pop();
    }

    /// How many regions the shared mapping has.
    pub fn abi_v2_region_count(&self) -> (count: usize)
        ensures
            count == self.abiv2_mapping().regions().len(),
    {
        self.abiv2_mappings.region_count()
    }

    /// Whether the shared mapping has any region.
    pub fn abi_v2_regions_exist(&self) -> (exist: bool)
        ensures
            exist == (self.abiv2_mapping().regions().len() > 0),
    {
        self.abi_v2_region_count() > 0
    }

    /// Puts another mapping in place of the shared one.
    pub fn replace_abi_v2_mappings(&mut self, mapping: M)
        ensures
            final(self).contexts() == old(self).contexts(),
            final(self).abiv2_mapping() == mapping,
    {
        *self.abiv2_mappings = mapping;
    }

    /// Lets the innermost instruction run in the shared mapping.
    pub fn set_abi_v2(&mut self) -> (result: Result<(), InstructionError>)
        ensures
            final(self).abiv2_mapping() == old(self).abiv2_mapping(),
            old(self).contexts().len() == 0 ==> {
                &&& result == Err::<(), InstructionError>(InstructionError::CallDepth)
                &&& final(self).contexts() == old(self).contexts()
            },
            old(self).contexts().len() > 0 ==> {
                &&& result == Ok::<(), InstructionError>(())
                &&& final(self).contexts() == old(self).contexts().drop_last().push(
                    MemoryContextType::ABIv2,
                )
            },
    {
        self.set_last(MemoryContextType::ABIv2)
    }

    /// Modifies the memory regions as needed between any instruction edges.
    ///
    /// This function is to be called before execution changes between instructions: before a new
    /// program is executed, after a CPI return, etc.
    pub fn abi_v2_prepare_for_instruction(
        &mut self,
        transaction_context: &TransactionContext,
    ) -> (result: Result<(), InstructionError>)
        requires
            transaction_context.current_instruction is Ok ==> {
                &&& area_index(RETURN_DATA_SCRATCHPAD as int) < old(
                    self,
                ).abiv2_mapping().regions().len()
                &&& account_regions_end(transaction_context.accounts.payload_regions@.len() as int)
                    <= old(self).abiv2_mapping().regions().len()
            },
        ensures
            final(self).contexts() == old(self).contexts(),
            final(self).abiv2_mapping().settings() == old(self).abiv2_mapping().settings(),
            match transaction_context.current_instruction {
                Err(e) => {
                    &&& result == Err::<(), InstructionError>(e)
                    &&& final(self).abiv2_mapping() == old(self).abiv2_mapping()
                },
                Ok(instruction) => {
                    let accounts = transaction_context.accounts.payload_regions@.len() as int;
                    let done = accounts_prepared(instruction, accounts);
                    let all = account_regions_end(accounts) - area_index(
                        GUEST_ACCOUNT_PAYLOAD_BASE_ADDRESS as int,
                    );
                    &&& !final(self).abiv2_mapping().initialized()
                    &&& final(self).abiv2_mapping().regions() == prepared_regions(
                        old(self).abiv2_mapping().regions(),
                        instruction,
                        done,
                    )
                    &&& result is Ok <==> done == all
                    &&& result is Err ==> instruction.access(account_index(done)) == Some(
                        Err::<BorrowedInstructionAccount, InstructionError>(result->Err_0),
                    )
                },
            },
    {
        let current_instruction = match transaction_context.get_current_instruction_context() {
            Ok(instruction) => instruction,
            Err(e) => {
                return Err(e);
            },
        };
        let accounts_in_transaction: usize = transaction_context.accounts().len();
        let abiv2_mappings: &mut M = &mut self.abiv2_mappings;
        prepare_regions(abiv2_mappings, current_instruction, accounts_in_transaction)
    }
}

impl<H> MemoryContexts<PlainMapping<H>> {
    /// An empty call stack, and a shared mapping without regions.
    pub fn new() -> (contexts: MemoryContexts<PlainMapping<H>>)
        ensures
            contexts.contexts() == Seq::<MemoryContextType<PlainMapping<H>>>::empty(),
            contexts.abiv2_mapping().regions@ == Seq::<MemoryRegion>::empty(),
            contexts.abiv2_mapping().config == (Config {
                max_call_depth: 64,
                stack_frame_size: 4096,
                enable_address_translation: true,
                aligned_memory_mapping: false,
            }),
            contexts.abiv2_mapping().sbpf_version == SBPFVersion::Reserved,
            contexts.abiv2_mapping().access_violation_handler == AccessViolationHandler::<
                H,
            >::Default,
            contexts.abiv2_mapping().initialized,
    {
        MemoryContexts::with_mapping(
            PlainMapping::new_without_regions(Config::sbpf_default(), SBPFVersion::Reserved),
        )
    }

    /// Makes a new shared mapping of the given regions, to be initialized before use. The given
    /// handler is asked before an access to it is refused.
    pub fn create_abi_v2_mappings(
        &mut self,
        regions: Vec<MemoryRegion>,
        config: Config,
        sbpf_version: SBPFVersion,
        access_violation_handler: AccessViolationHandler<H>,
    )
        ensures
            final(self).contexts() == old(self).contexts(),
            final(self).abiv2_mapping() == (PlainMapping {
                regions,
                config,
                sbpf_version,
                access_violation_handler,
                initialized: false,
            }),
    {
        self.replace_abi_v2_mappings(
            PlainMapping::new_uninitialized(
                regions,
                config,
                sbpf_version,
                access_violation_handler,
            ),
        );
    }
}

/// The memory of the innermost instruction where it has a mapping of its own, or why that cannot
/// be read.
pub open spec fn context_abi_v1<M>(contexts: Seq<MemoryContextType<M>>) -> Result<
    MemoryContext<M>,
    InstructionError,
> {
    if contexts.len() == 0 {
        Err(InstructionError::CallDepth)
    } else {
        match contexts.last() {
            MemoryContextType::ABIv1(context) => Ok(context),
            MemoryContextType::Placeholder => Err(InstructionError::ProgramEnvironmentSetupFailure),
            MemoryContextType::ABIv2 => Err(InstructionError::InvalidAccountData),
        }
    }
}

/// The memory of the innermost instruction where it has a mapping of its own, or why that cannot
/// be changed.
pub open spec fn context_mut_abi_v1<M>(contexts: Seq<MemoryContextType<M>>) -> Result<
    MemoryContext<M>,
    InstructionError,
> {
    if contexts.len() == 0 {
        Err(InstructionError::CallDepth)
    } else {
        match contexts.last() {
            MemoryContextType::ABIv1(context) => Ok(context),
            _ => Err(InstructionError::ProgramEnvironmentSetupFailure),
        }
    }
}

/// The mapping that the innermost instruction runs in: its own or the shared one.
pub open spec fn current_mapping<M>(contexts: Seq<MemoryContextType<M>>, shared: M) -> Result<
    M,
    InstructionError,
> {
    if contexts.len() == 0 {
        Err(InstructionError::CallDepth)
    } else {
        match contexts.last() {
            MemoryContextType::ABIv1(context) => Ok(context.mapping()),
            MemoryContextType::Placeholder => Err(InstructionError::ProgramEnvironmentSetupFailure),
            MemoryContextType::ABIv2 => Ok(shared),
        }
    }
}

/// An instruction that has been put on the call stack and taken off again leaves it as it was,
/// whatever memory it was given in between.
pub proof fn lemma_pop_undoes_push<M>(
    contexts: Seq<MemoryContextType<M>>,
    context: MemoryContextType<M>,
)
    ensures
        contexts.push(MemoryContextType::Placeholder).drop_last() == contexts,
        contexts.push(MemoryContextType::Placeholder).drop_last().push(context).drop_last()
            == contexts,
{
    assert(contexts.push(MemoryContextType::Placeholder).drop_last() =~= contexts);
    assert(contexts.push(context).drop_last() =~= contexts);
}

/// Without an instruction on the call stack there is no memory to read or change.
pub proof fn lemma_no_memory_without_instruction<M>(shared: M)
    ensures
        ({
            let none = Seq::<MemoryContextType<M>>::empty();
            let e = InstructionError::CallDepth;
            &&& context_abi_v1(none) == Err::<MemoryContext<M>, InstructionError>(e)
            &&& context_mut_abi_v1(none) == Err::<MemoryContext<M>, InstructionError>(e)
            &&& current_mapping(none, shared) == Err::<M, InstructionError>(e)
        }),
{
}

/// An instruction that has not been configured yet has no memory, whatever its callers have.
pub proof fn lemma_placeholder_has_no_memory<M>(
    contexts: Seq<MemoryContextType<M>>,
    shared: M,
)
    ensures
        ({
            let pushed = contexts.push(MemoryContextType::Placeholder);
            let e = InstructionError::ProgramEnvironmentSetupFailure;
            &&& context_abi_v1(pushed) == Err::<MemoryContext<M>, InstructionError>(e)
            &&& context_mut_abi_v1(pushed) == Err::<MemoryContext<M>, InstructionError>(e)
            &&& current_mapping(pushed, shared) == Err::<M, InstructionError>(e)
        }),
{
}

/// The memory that an instruction of the first ABI is given is what it then reads, changes and
/// runs in; its callers' memory stays what it was.
pub proof fn lemma_set_abi_v1_then_get<M>(
    contexts: Seq<MemoryContextType<M>>,
    context: MemoryContext<M>,
    shared: M,
)
    requires
        contexts.len() > 0,
    ensures
        ({
            let set = contexts.drop_last().push(MemoryContextType::ABIv1(context));
            &&& context_abi_v1(set) == Ok::<MemoryContext<M>, InstructionError>(context)
            &&& context_mut_abi_v1(set) == Ok::<MemoryContext<M>, InstructionError>(context)
            &&& current_mapping(set, shared) == Ok::<M, InstructionError>(
                context.mapping(),
            )
            &&& set.drop_last() == contexts.drop_last()
        }),
{
    let set = contexts.drop_last().push(MemoryContextType::ABIv1(context));
    assert(set.drop_last() =~= contexts.drop_last());
}

/// An instruction of the second ABI runs in the shared mapping and has no memory of its own.
pub proof fn lemma_set_abi_v2_then_get<M>(contexts: Seq<MemoryContextType<M>>, shared: M)
    requires
        contexts.len() > 0,
    ensures
        ({
            let set = contexts.drop_last().push(MemoryContextType::ABIv2);
            &&& context_abi_v1(set) == Err::<MemoryContext<M>, InstructionError>(
                InstructionError::InvalidAccountData,
            )
            &&& context_mut_abi_v1(set) == Err::<MemoryContext<M>, InstructionError>(
                InstructionError::ProgramEnvironmentSetupFailure,
            )
            &&& current_mapping(set, shared) == Ok::<M, InstructionError>(shared)
            &&& set.drop_last() == contexts.drop_last()
        }),
{
    let set = contexts.drop_last().push(MemoryContextType::ABIv2);
    assert(set.drop_last() =~= contexts.drop_last());
}

/// A context whose mapping is replaced has the new mapping, and otherwise what it had.
pub proof fn lemma_replaced_mapping<M>(context: MemoryContext<M>, mapping: M)
    ensures
        context.mapping() == *context.memory_mapping,
        context.with_mapping(mapping).mapping() == mapping,
        context.with_mapping(mapping).allocator == context.allocator,
        context.with_mapping(mapping).accounts_metadata == context.accounts_metadata,
{
}

} // verus!
