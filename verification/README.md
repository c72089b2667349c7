# abi_v2

Memory of the second program ABI, verified with Verus.

- `src/vm_addresses.rs`: the areas of the guest's address space.
- `src/memory_region.rs`, `src/sbpf_mapping.rs`: regions, and what holds them.
- `src/transaction_context.rs`, `src/sysvars.rs`: what the runtime knows of a transaction.
- `src/regions.rs`: the regions that the instructions of a transaction share.
- `src/preparation.rs`: which of them an instruction may write.
- `src/memory_context.rs`: the memory of each instruction on the call stack.
- `src/bump_allocator.rs`: the guest's heap.
- `src/guest.rs`, `src/abi_v2_memory.rs`, `src/abi_v2_cpi.rs`: what a guest program sees and does,
  and two programs that exercise it.

`app/` is what surrounds the library: the runtime's transaction, mappings over host memory, and the
guests' system calls. To build a guest, set `--cfg abi_v2_program="memory"` or
`--cfg abi_v2_program="cpi"`; its `entrypoint` is then exported.
