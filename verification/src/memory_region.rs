//! Regions of guest memory and the mapping that holds them.

use vstd::prelude::*;

verus! {

/// Host memory that backs a region: where it starts, how many bytes it has, and whether the guest
/// may write it.
#[derive(Clone, Copy, Debug, PartialEq, Eq, Structural)]
pub struct HostBuffer {
    pub addr: usize,
    pub len: usize,
    pub mutable: bool,
}

impl HostBuffer {
    /// No memory at all. The address is 0, since nothing is read or written through it.
    pub open spec fn spec_empty() -> HostBuffer {
        HostBuffer { addr: 0, len: 0, mutable: false }
    }

    /// The same memory, which the guest may only read.
    pub open spec fn spec_immutable(self) -> HostBuffer {
        HostBuffer { mutable: false, ..self }
    }

    pub fn empty() -> (buffer: HostBuffer)
        ensures
            buffer == HostBuffer::spec_empty(),
    {
        HostBuffer { addr: 0, len: 0, mutable: false }
    }

    pub fn is_mutable(&self) -> (mutable: bool)
        ensures
            mutable == self.mutable,
    {
        self.mutable
    }

    pub fn immutable(self) -> (buffer: HostBuffer)
        ensures
            buffer == self.spec_immutable(),
    {
        HostBuffer { addr: self.addr, len: self.len, mutable: false }
    }
}

/// A stretch of guest memory and the host memory behind it.
#[derive(Clone, Copy, Debug, PartialEq, Eq, Structural)]
pub struct MemoryRegion {
    pub host: HostBuffer,
    /// First guest address.
    pub vm_addr: u64,
    /// Size of the gaps between the frames of a gapped region, 0 for a continuous one.
    pub vm_gap_size: u64,
    /// The account, by its index in the transaction, whose memory a refused access may still
    /// obtain.
    pub access_violation_handler_payload: Option<u16>,
}

impl MemoryRegion {
    /// A continuous region over the given host memory.
    pub open spec fn spec_new(host: HostBuffer, vm_addr: u64) -> MemoryRegion {
        MemoryRegion { host, vm_addr, vm_gap_size: 0, access_violation_handler_payload: None }
    }

    /// The region with its host memory read-only.
    pub open spec fn spec_immutable(self) -> MemoryRegion {
        MemoryRegion { host: self.host.spec_immutable(), ..self }
    }

    /// The region with another mark.
    pub open spec fn spec_with_payload(self, payload: Option<u16>) -> MemoryRegion {
        MemoryRegion { access_violation_handler_payload: payload, ..self }
    }

    pub fn new(host: HostBuffer, vm_addr: u64) -> (region: MemoryRegion)
        ensures
            region == MemoryRegion::spec_new(host, vm_addr),
    {
        MemoryRegion { host, vm_addr, vm_gap_size: 0, access_violation_handler_payload: None }
    }

    /// A region that has an address and no memory.
    pub fn new_empty(vm_addr: u64) -> (region: MemoryRegion)
        ensures
            region == MemoryRegion::spec_new(HostBuffer::spec_empty(), vm_addr),
    {
        MemoryRegion::new(HostBuffer::empty(), vm_addr)
    }

    pub fn make_immutable(&mut self)
        ensures
            *final(self) == old(self).spec_immutable(),
    {
        self.host = self.host.immutable();
    }
}

/// Versions of the bytecode, oldest first.
#[derive(Clone, Copy, Debug, PartialEq, Eq, Structural)]
pub enum SBPFVersion {
    V0,
    V1,
    V2,
    V3,
    V4,
    /// Stands for versions to come.
    Reserved,
}

/// The settings of a virtual machine that bear on its memory.
#[derive(Clone, Copy, Debug, PartialEq, Eq, Structural)]
pub struct Config {
    pub max_call_depth: usize,
    pub stack_frame_size: usize,
    pub enable_address_translation: bool,
    pub aligned_memory_mapping: bool,
}

impl Config {
    /// `solana_sbpf::vm::Config::default`: 64 calls deep, stack frames of 4096 bytes, addresses
    /// translated, regions not tied to areas. Its other settings do not bear on memory and are
    /// left out.
    #[verifier::external_body]
    pub(crate) fn sbpf_default() -> (config: Config)
        ensures
            config == (Config {
                max_call_depth: 64,
                stack_frame_size: 4096,
                enable_address_translation: true,
                aligned_memory_mapping: false,
            }),
    {
        let config = solana_sbpf::vm::Config::default();
        Config {
            max_call_depth: config.max_call_depth,
            stack_frame_size: config.stack_frame_size,
            enable_address_translation: config.enable_address_translation,
            aligned_memory_mapping: config.aligned_memory_mapping,
        }
    }
}

/// What is asked before an access is refused for good.
#[derive(Clone, Copy, Debug, PartialEq, Eq)]
pub enum AccessViolationHandler<H> {
    /// Nothing: the access is refused.
    Default,
    /// The given handler, which may obtain memory for the access.
    Custom(H),
}

/// The regions that a program's memory is made of, in the order in which they were given, and the
/// settings under which addresses are looked up in them. `H` is what handles refused accesses.
#[derive(Debug)]
pub struct PlainMapping<H> {
    pub regions: Vec<MemoryRegion>,
    pub config: Config,
    pub sbpf_version: SBPFVersion,
    pub access_violation_handler: AccessViolationHandler<H>,
    /// Whether addresses can be looked up. Handing out the regions for change ends it.
    pub initialized: bool,
}

impl<H> PlainMapping<H> {
    /// A mapping over the given regions in which no address can be looked up yet.
    pub fn new_uninitialized(
        regions: Vec<MemoryRegion>,
        config: Config,
        sbpf_version: SBPFVersion,
        access_violation_handler: AccessViolationHandler<H>,
    ) -> (mapping: PlainMapping<H>)
        ensures
            mapping == (PlainMapping {
                regions,
                config,
                sbpf_version,
                access_violation_handler,
                initialized: false,
            }),
    {
        PlainMapping { regions, config, sbpf_version, access_violation_handler, initialized: false }
    }

    /// A mapping without regions, ready for use: every address is unmapped, and every access is
    /// refused.
    pub fn new_without_regions(config: Config, sbpf_version: SBPFVersion) -> (mapping:
        PlainMapping<H>)
        ensures
            mapping.regions@ == Seq::<MemoryRegion>::empty(),
            mapping.config == config,
            mapping.sbpf_version == sbpf_version,
            mapping.access_violation_handler == AccessViolationHandler::<H>::Default,
            mapping.initialized,
    {
        PlainMapping {
            regions: Vec::new(),
            config,
            sbpf_version,
            access_violation_handler: AccessViolationHandler::Default,
            initialized: true,
        }
    }

    pub fn get_regions(&self) -> (regions: &Vec<MemoryRegion>)
        ensures
            *regions == self.regions,
    {
        &self.regions
    }
}

/// What holds the regions of a program's memory.
pub trait RegionTable: Sized {
    /// What the table was made with besides its regions.
    type Settings;

    /// The regions, in their order in the table.
    spec fn regions(&self) -> Seq<MemoryRegion>;

    /// Whether addresses can be looked up. Any change of a region ends it.
    spec fn initialized(&self) -> bool;

    spec fn settings(&self) -> Self::Settings;

    fn region_count(&self) -> (count: usize)
        ensures
            count == self.regions().len(),
    ;

    /// Whether the guest may write a region.
    fn is_region_mutable(&self, index: usize) -> (mutable: bool)
        requires
            index < self.regions().len(),
        ensures
            mutable == self.regions()[index as int].host.mutable,
    ;

    /// Makes a region read-only.
    fn make_region_immutable(&mut self, index: usize)
        requires
            index < old(self).regions().len(),
        ensures
            final(self).regions() == old(self).regions().update(
                index as int,
                old(self).regions()[index as int].spec_immutable(),
            ),
            !final(self).initialized(),
            final(self).settings() == old(self).settings(),
    ;

    /// Marks a region with an account, or with none.
    fn set_region_payload(&mut self, index: usize, payload: Option<u16>)
        requires
            index < old(self).regions().len(),
        ensures
            final(self).regions() == old(self).regions().update(
                index as int,
                old(self).regions()[index as int].spec_with_payload(payload),
            ),
            !final(self).initialized(),
            final(self).settings() == old(self).settings(),
    ;
}

impl<H> RegionTable for PlainMapping<H> {
    type Settings = (Config, SBPFVersion, AccessViolationHandler<H>);

    open spec fn regions(&self) -> Seq<MemoryRegion> {
        self.regions@
    }

    open spec fn initialized(&self) -> bool {
        self.initialized
    }

    open spec fn settings(&self) -> (Config, SBPFVersion, AccessViolationHandler<H>) {
        (self.config, self.sbpf_version, self.access_violation_handler)
    }

    fn region_count(&self) -> (count: usize) {
        self.regions.len()
    }

    fn is_region_mutable(&self, index: usize) -> (mutable: bool) {
        self.regions[index].host.is_mutable()
    }

    fn make_region_immutable(&mut self, index: usize) {
        let mut region = self.regions[index];
        region.make_immutable();
        self.regions.set(index, region);
        self.initialized = false;
    }

    fn set_region_payload(&mut self, index: usize, payload: Option<u16>) {
        let mut region = self.regions[index];
        region.access_violation_handler_payload = payload;
        self.regions.set(index, region);
        self.initialized = false;
    }
}

/// A new region is the host memory it was given, at the address it was given, without gaps and
/// without a mark; an empty one has no bytes and cannot be written.
pub proof fn lemma_new_region(host: HostBuffer, vm_addr: u64)
    ensures
        MemoryRegion::spec_new(host, vm_addr).host.addr == host.addr,
        MemoryRegion::spec_new(host, vm_addr).host.len == host.len,
        MemoryRegion::spec_new(host, vm_addr).host.mutable == host.mutable,
        MemoryRegion::spec_new(host, vm_addr).vm_addr == vm_addr,
        MemoryRegion::spec_new(host, vm_addr).vm_gap_size == 0,
        MemoryRegion::spec_new(host, vm_addr).access_violation_handler_payload is None,
        HostBuffer::spec_empty().addr == 0,
        HostBuffer::spec_empty().len == 0,
        !HostBuffer::spec_empty().mutable,
{
}

/// A region that is made read-only cannot be written, and stays where and as long as it was, with
/// its mark. A region that gets a mark has that mark, and is otherwise what it was.
pub proof fn lemma_changed_region(region: MemoryRegion, payload: Option<u16>)
    ensures
        !region.spec_immutable().host.mutable,
        region.spec_immutable().host.addr == region.host.addr,
        region.spec_immutable().host.len == region.host.len,
        region.spec_immutable().vm_addr == region.vm_addr,
        region.spec_immutable().vm_gap_size == region.vm_gap_size,
        region.spec_immutable().access_violation_handler_payload
            == region.access_violation_handler_payload,
        !region.host.spec_immutable().mutable,
        region.host.spec_immutable().addr == region.host.addr,
        region.host.spec_immutable().len == region.host.len,
        region.spec_with_payload(payload).access_violation_handler_payload == payload,
        region.spec_with_payload(payload).host == region.host,
        region.spec_with_payload(payload).vm_addr == region.vm_addr,
        region.spec_with_payload(payload).vm_gap_size == region.vm_gap_size,
{
}

/// A mapping of plain regions lists just the regions that it holds.
pub proof fn lemma_plain_mapping_lists_its_regions<H>(mapping: PlainMapping<H>)
    ensures
        mapping.regions() == mapping.regions@,
        mapping.initialized() == mapping.initialized,
        mapping.settings().0 == mapping.config,
        mapping.settings().1 == mapping.sbpf_version,
        mapping.settings().2 == mapping.access_violation_handler,
{
}

} // verus!
