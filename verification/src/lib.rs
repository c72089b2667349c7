//! Memory of the second program ABI: where each area of a transaction lies in the guest's
//! address space, which regions back it, which of them the running instruction may write, and
//! the guest programs that exercise all of it.

pub mod abi_v2_cpi;
pub mod abi_v2_memory;
pub mod bump_allocator;
pub mod guest;
pub mod instruction_error;
pub mod memory_context;
pub mod memory_region;
pub mod preparation;
pub mod regions;
pub mod sbpf_mapping;
pub mod sysvars;
pub mod transaction_context;
pub mod vm_addresses;

use vstd::prelude::*;

verus! {

/// Most accounts that one transaction can load.
pub const MAX_ACCOUNTS_PER_TRANSACTION: usize = 256;

/// Most instructions, top-level and nested, that one transaction can execute.
pub const MAX_INSTRUCTION_TRACE_LENGTH: usize = 64;

} // verus!
