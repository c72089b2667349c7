//! The guest's address space: areas of `GUEST_REGION_SIZE` bytes, each known by its index.

use crate::{MAX_ACCOUNTS_PER_TRANSACTION, MAX_INSTRUCTION_TRACE_LENGTH};
use vstd::prelude::*;

verus! {

/// Bits of an address that lie within one area.
pub const SHIFT: u32 = 32;

/// Bytes of address space that each area spans.
pub const GUEST_REGION_SIZE: u64 = 0x1_0000_0000;

pub const TRANSACTION_FRAME_ADDRESS: u64 = 4 * GUEST_REGION_SIZE;

pub const ACCOUNT_METADATA_AREA: u64 = 5 * GUEST_REGION_SIZE;

pub const INSTRUCTION_TRACE_AREA: u64 = 6 * GUEST_REGION_SIZE;

pub const RETURN_DATA_SCRATCHPAD: u64 = 7 * GUEST_REGION_SIZE;

pub const GUEST_ACCOUNT_PAYLOAD_BASE_ADDRESS: u64 = 8 * GUEST_REGION_SIZE;

pub const GUEST_ACCOUNT_PAYLOAD_END_ADDRESS: u64 = GUEST_ACCOUNT_PAYLOAD_BASE_ADDRESS
    + (MAX_ACCOUNTS_PER_TRANSACTION as u64) * GUEST_REGION_SIZE;

/// Sysvars that have an area of their own.
pub const NUM_SYSVARS: u64 = 7;

pub const GUEST_SYSVARS_BASE_ADDRESS: u64 = (0x1000 - NUM_SYSVARS) * GUEST_REGION_SIZE;

pub const GUEST_SYSVARS_END_ADDRESS: u64 = GUEST_SYSVARS_BASE_ADDRESS + NUM_SYSVARS
    * GUEST_REGION_SIZE;

pub const GUEST_INSTRUCTION_DATA_BASE_ADDRESS: u64 = 0x1000 * GUEST_REGION_SIZE;

pub const GUEST_INSTRUCTION_DATA_END_ADDRESS: u64 = GUEST_INSTRUCTION_DATA_BASE_ADDRESS
    + (MAX_INSTRUCTION_TRACE_LENGTH as u64) * GUEST_REGION_SIZE;

pub const GUEST_INSTRUCTION_ACCOUNT_BASE_ADDRESS: u64 = 0x1040 * GUEST_REGION_SIZE;

pub const GUEST_INSTRUCTION_ACCOUNT_END_ADDRESS: u64 = GUEST_INSTRUCTION_ACCOUNT_BASE_ADDRESS
    + (MAX_INSTRUCTION_TRACE_LENGTH as u64) * GUEST_REGION_SIZE;

/// First address of the area with this index.
pub open spec fn area_address(index: int) -> int {
    index * GUEST_REGION_SIZE
}

/// Index of the area that holds this address.
pub open spec fn area_index(address: int) -> int {
    address / (GUEST_REGION_SIZE as int)
}

/// The first address of the area with the given index, which must lie within 64 bits.
pub fn from_index(index: u64) -> (address: u64)
    requires
        area_address(index as int) <= u64::MAX,
    ensures
        address == area_address(index as int),
{
    index * GUEST_REGION_SIZE
}

/// The first address of the area `base_index`, which must not lie below `previous_address`, the
/// end of what comes before it.
pub fn nonoverlapping_base_address(base_index: u64, previous_address: u64) -> (address: u64)
    requires
        area_address(base_index as int) <= u64::MAX,
        previous_address <= area_address(base_index as int),
    ensures
        address == area_address(base_index as int),
{
    from_index(base_index)
}

/// The index of the area that holds the given address, which is also the index of its region in
/// a mapping.
pub fn abiv2_region_index_from_vm_address(vm_base_address: u64) -> (index: usize)
    ensures
        index == area_index(vm_base_address as int),
{
    assert(vm_base_address >> 32u32 == vm_base_address / 0x1_0000_0000) by (bit_vector);
    (vm_base_address >> SHIFT) as usize
}

/// An area's size is two to the power of the bits that address within it.
pub proof fn lemma_region_size_is_shifted_one()
    ensures
        GUEST_REGION_SIZE == 1u64 << SHIFT,
{
    assert(1u64 << 32 == 0x1_0000_0000u64) by (bit_vector);
}

/// An area's index is recovered from any address inside the area.
pub proof fn lemma_index_of_area_address(index: int, offset: int)
    requires
        0 <= offset < GUEST_REGION_SIZE,
    ensures
        area_index(area_address(index) + offset) == index,
{
}

/// Two areas with different indexes have no address in common.
pub proof fn lemma_areas_are_disjoint(i: int, j: int, address: int)
    requires
        i != j,
    ensures
        !(area_address(i) <= address < area_address(i) + GUEST_REGION_SIZE && area_address(j)
            <= address < area_address(j) + GUEST_REGION_SIZE),
{
}

/// The fixed areas and the ranges of areas follow one another, from the transaction frame up,
/// and no range begins before the one below it has ended.
pub proof fn lemma_areas_follow_one_another()
    ensures
        TRANSACTION_FRAME_ADDRESS == area_address(4),
        ACCOUNT_METADATA_AREA == TRANSACTION_FRAME_ADDRESS + GUEST_REGION_SIZE,
        INSTRUCTION_TRACE_AREA == ACCOUNT_METADATA_AREA + GUEST_REGION_SIZE,
        RETURN_DATA_SCRATCHPAD == INSTRUCTION_TRACE_AREA + GUEST_REGION_SIZE,
        GUEST_ACCOUNT_PAYLOAD_BASE_ADDRESS == RETURN_DATA_SCRATCHPAD + GUEST_REGION_SIZE,
        GUEST_ACCOUNT_PAYLOAD_END_ADDRESS == GUEST_ACCOUNT_PAYLOAD_BASE_ADDRESS + area_address(
            MAX_ACCOUNTS_PER_TRANSACTION as int,
        ),
        GUEST_SYSVARS_BASE_ADDRESS == area_address(0x1000 - NUM_SYSVARS),
        GUEST_ACCOUNT_PAYLOAD_END_ADDRESS <= GUEST_SYSVARS_BASE_ADDRESS,
        GUEST_SYSVARS_END_ADDRESS == GUEST_SYSVARS_BASE_ADDRESS + area_address(NUM_SYSVARS as int),
        GUEST_INSTRUCTION_DATA_BASE_ADDRESS == area_address(0x1000),
        GUEST_SYSVARS_END_ADDRESS <= GUEST_INSTRUCTION_DATA_BASE_ADDRESS,
        GUEST_INSTRUCTION_DATA_END_ADDRESS == GUEST_INSTRUCTION_DATA_BASE_ADDRESS + area_address(
            MAX_INSTRUCTION_TRACE_LENGTH as int,
        ),
        GUEST_INSTRUCTION_ACCOUNT_BASE_ADDRESS == area_address(0x1040),
        GUEST_INSTRUCTION_DATA_END_ADDRESS <= GUEST_INSTRUCTION_ACCOUNT_BASE_ADDRESS,
        GUEST_INSTRUCTION_ACCOUNT_END_ADDRESS == GUEST_INSTRUCTION_ACCOUNT_BASE_ADDRESS
            + area_address(MAX_INSTRUCTION_TRACE_LENGTH as int),
{
}

/// Areas are four gibibytes each, one after another from address 0 on: an area's first address is
/// its index times that, and an address lies in the area whose index is found for it.
pub proof fn lemma_areas_tile_addresses(index: int, address: int)
    ensures
        area_address(index) == index * 0x1_0000_0000,
        area_index(address) * 0x1_0000_0000 <= address,
        address < area_index(address) * 0x1_0000_0000 + 0x1_0000_0000,
{
}

/// Where everything lies in the address space.
pub proof fn lemma_area_indexes()
    ensures
        TRANSACTION_FRAME_ADDRESS == 0x4_0000_0000,
        ACCOUNT_METADATA_AREA == 0x5_0000_0000,
        INSTRUCTION_TRACE_AREA == 0x6_0000_0000,
        RETURN_DATA_SCRATCHPAD == 0x7_0000_0000,
        GUEST_ACCOUNT_PAYLOAD_BASE_ADDRESS == 0x8_0000_0000,
        GUEST_ACCOUNT_PAYLOAD_END_ADDRESS == 0x108_0000_0000,
        GUEST_SYSVARS_BASE_ADDRESS == 0xff9_0000_0000,
        GUEST_SYSVARS_END_ADDRESS == 0x1000_0000_0000,
        GUEST_INSTRUCTION_DATA_BASE_ADDRESS == 0x1000_0000_0000,
        GUEST_INSTRUCTION_DATA_END_ADDRESS == 0x1040_0000_0000,
        GUEST_INSTRUCTION_ACCOUNT_BASE_ADDRESS == 0x1040_0000_0000,
        GUEST_INSTRUCTION_ACCOUNT_END_ADDRESS == 0x1080_0000_0000,
{
}

} // verus!
