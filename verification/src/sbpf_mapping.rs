//! The virtual machine's own mapping as a table of regions.

use crate::memory_region::{MemoryRegion, RegionTable, SBPFVersion};
use solana_sbpf::memory_region::MemoryMapping;
use vstd::prelude::*;

verus! {

/// `solana_sbpf::memory_region::MemoryMapping`.
#[verifier::external_type_specification]
#[verifier::external_body]
pub struct ExMemoryMapping(solana_sbpf::memory_region::MemoryMapping);

/// The regions of a mapping, each with its host memory, its addresses and its mark.
pub uninterp spec fn mapping_regions(mapping: MemoryMapping) -> Seq<MemoryRegion>;

/// Whether a mapping can look up addresses.
pub uninterp spec fn mapping_initialized(mapping: MemoryMapping) -> bool;

/// What a mapping was made with besides its regions.
pub ghost struct MappingSettings {
    pub max_call_depth: int,
    pub stack_frame_size: int,
    pub address_translation: bool,
    pub sbpf_version: SBPFVersion,
    /// Whether the upper half of an address is the index of its region.
    pub aligned: bool,
    /// A number that stands for the handler of refused accesses.
    pub access_violation_handler: int,
}

/// The settings of a mapping, among them the handler of refused accesses.
pub uninterp spec fn mapping_settings(mapping: MemoryMapping) -> MappingSettings;

/// `MemoryMapping::get_regions`, of which only the length is taken: the number of regions.
#[verifier::external_body]
fn sbpf_region_count(mapping: &MemoryMapping) -> (count: usize)
    ensures
        count == mapping_regions(*mapping).len(),
{
    mapping.get_regions().len()
}

/// `MemoryRegion::host_buffer` and `HostBuffer::is_mutable` on one of the regions that
/// `MemoryMapping::get_regions` gives: whether that region is writable.
#[verifier::external_body]
fn sbpf_is_region_mutable(mapping: &MemoryMapping, index: usize) -> (mutable: bool)
    requires
        index < mapping_regions(*mapping).len(),
    ensures
        mutable == mapping_regions(*mapping)[index as int].host.mutable,
{
    mapping.get_regions()[index].host_buffer().is_mutable()
}

/// `MemoryRegion::make_immutable` on one of the regions that `MemoryMapping::get_regions_mut`
/// gives: that region becomes read-only and stays where it is, the other regions stay as they
/// are, the mapping has to be initialized anew, and its settings stay the same.
#[verifier::external_body]
fn sbpf_make_region_immutable(mapping: &mut MemoryMapping, index: usize)
    requires
        index < mapping_regions(*old(mapping)).len(),
    ensures
        mapping_regions(*final(mapping)) == mapping_regions(*old(mapping)).update(
            index as int,
            mapping_regions(*old(mapping))[index as int].spec_immutable(),
        ),
        !mapping_initialized(*final(mapping)),
        mapping_settings(*final(mapping)) == mapping_settings(*old(mapping)),
{
    mapping.get_regions_mut()[index].make_immutable();
}

/// The field `MemoryRegion::access_violation_handler_payload` of one of the regions that
/// `MemoryMapping::get_regions_mut` gives: that region gets the mark, the other regions stay as
/// they are, the mapping has to be initialized anew, and its settings stay the same.
#[verifier::external_body]
fn sbpf_set_region_payload(mapping: &mut MemoryMapping, index: usize, payload: Option<u16>)
    requires
        index < mapping_regions(*old(mapping)).len(),
    ensures
        mapping_regions(*final(mapping)) == mapping_regions(*old(mapping)).update(
            index as int,
            mapping_regions(*old(mapping))[index as int].spec_with_payload(payload),
        ),
        !mapping_initialized(*final(mapping)),
        mapping_settings(*final(mapping)) == mapping_settings(*old(mapping)),
{
    mapping.get_regions_mut()[index].access_violation_handler_payload = payload;
}

impl RegionTable for MemoryMapping {
    type Settings = MappingSettings;

    open spec fn regions(&self) -> Seq<MemoryRegion> {
        mapping_regions(*self)
    }

    open spec fn initialized(&self) -> bool {
        mapping_initialized(*self)
    }

    open spec fn settings(&self) -> MappingSettings {
        mapping_settings(*self)
    }

    fn region_count(&self) -> (count: usize) {
        sbpf_region_count(self)
    }

    fn is_region_mutable(&self, index: usize) -> (mutable: bool) {
        sbpf_is_region_mutable(self, index)
    }

    fn make_region_immutable(&mut self, index: usize) {
        sbpf_make_region_immutable(self, index)
    }

    fn set_region_payload(&mut self, index: usize, payload: Option<u16>) {
        sbpf_set_region_payload(self, index, payload)
    }
}

} // verus!
