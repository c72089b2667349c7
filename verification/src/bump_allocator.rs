//! An allocator that hands out an arena from its end downwards and takes nothing back.

use core::mem::size_of;
use vstd::arithmetic::power::pow;
use vstd::arithmetic::power2::{
    is_pow2, is_pow2_equiv, is_pow2_exists, lemma_pow2, lemma_pow2_pos, pow2,
};
use vstd::bits::{lemma_usize_low_bits_mask_is_mod, low_bits_mask};
use vstd::layout;
use vstd::prelude::*;

verus! {

/// Hands out the `len` bytes from address `start` on. The first word of the arena is the
/// allocator's own: it holds its position, the lowest address handed out so far, or 0 before the
/// first allocation.
#[derive(Debug)]
pub struct BumpAllocator {
    pub start: usize,
    pub len: usize,
}

/// Bytes of the word that holds the position.
pub open spec fn word_size() -> int {
    layout::size_of::<usize>() as int
}

/// The highest multiple of `align` that is not above `address`.
pub open spec fn align_down(address: int, align: int) -> int {
    address - address % align
}

proof fn lemma_masked_is_aligned_down(address: usize, align: usize)
    requires
        is_pow2(align as int),
    ensures
        align > 0,
        (address & !((align - 1) as usize)) == align_down(address as int, align as int),
{
    is_pow2_equiv(align as int);
    assert(is_pow2_exists(align as int));
    let k = choose|k: nat| pow(2, k) == align as int;
    lemma_pow2(k);
    lemma_pow2_pos(k);
    let mask = (align - 1) as usize;
    assert(low_bits_mask(k) == mask);
    assert(k < usize::BITS) by {
        if k >= usize::BITS {
            lemma_pow2_exceeds(k);
        }
    }
    lemma_usize_low_bits_mask_is_mod(address, k);
    assert((address & !mask) == address - (address & mask)) by (bit_vector);
}

proof fn lemma_pow2_exceeds(k: nat)
    requires
        k >= usize::BITS,
    ensures
        pow2(k) > usize::MAX,
{
    vstd::arithmetic::power2::lemma2_to64();
    vstd::arithmetic::power2::lemma2_to64_rest();
    if k > usize::BITS {
        vstd::arithmetic::power2::lemma_pow2_strictly_increases(usize::BITS as nat, k);
    }
    vstd::layout::unsigned_int_max_values();
}

impl BumpAllocator {
    /// One past the highest address that is still free.
    pub open spec fn top(self, position: int) -> int {
        if position == 0 {
            self.start + self.len
        } else {
            position
        }
    }

    /// The address of a block of `size` bytes, aligned to `align`, where there is room for it
    /// above the position's own word.
    pub open spec fn block(self, position: int, size: int, align: int) -> Option<int> {
        let top = self.top(position);
        let address = align_down(
            if top < size {
                0
            } else {
                top - size
            },
            align,
        );
        if address < self.start + word_size() {
            None
        } else {
            Some(address)
        }
    }

    /// The position after a request for a block.
    pub open spec fn position_after(self, position: int, size: int, align: int) -> int {
        match self.block(position, size, align) {
            Some(address) => address,
            None => position,
        }
    }

    /// Takes over an arena of `arena_len` bytes at `arena_start`, whose first word is `position`.
    pub fn new(arena_start: usize, arena_len: usize, position: &mut usize) -> (allocator:
        BumpAllocator)
        requires
            arena_start + arena_len <= usize::MAX,
        ensures
            allocator == (BumpAllocator { start: arena_start, len: arena_len }),
            *final(position) == arena_start + arena_len,
    {
        *position = arena_start + arena_len;
        BumpAllocator { start: arena_start, len: arena_len }
    }

    /// An allocator of the `len` bytes from `start` on, whose first word is 0.
    pub fn with_fixed_address_range(start: usize, len: usize) -> (allocator: BumpAllocator)
        ensures
            allocator == (BumpAllocator { start, len }),
    {
        BumpAllocator { start, len }
    }

    /// Hands out the address of a block, or nothing where the arena has no room left for it.
    /// `position` is the arena's first word.
    pub fn allocate(&self, position: &mut usize, size: usize, align: usize) -> (address: Option<
        usize,
    >)
        requires
            *old(position) == 0 ==> self.start + self.len <= usize::MAX,
            self.start + word_size() <= usize::MAX,
            is_pow2(align as int),
        ensures
            match self.block(*old(position) as int, size as int, align as int) {
                Some(block) => address is Some && address->0 == block,
                None => address is None,
            },
            *final(position) == self.position_after(
                *old(position) as int,
                size as int,
                align as int,
            ),
    {
        let mut pos: usize = *position;
        if pos == 0 {
            // First time, set starting position
            pos = self.start + self.len;
        }
        pos = pos.saturating_sub(size);
        proof {
            lemma_masked_is_aligned_down(pos, align);
        }
        pos = pos & !(align.wrapping_sub(1));
        if pos < self.start + size_of::<usize>() {
            return None;
        }
        *position = pos;
        Some(pos)
    }

    /// Takes a block back, which frees nothing.
    pub fn dealloc(&self, position: &mut usize, _address: usize, _size: usize, _align: usize)
        ensures
            *final(position) == *old(position),
    {
    }
}

/// A request for a block: its size and its alignment.
pub struct Request {
    pub size: usize,
    pub align: usize,
}

impl BumpAllocator {
    /// The position after all the given requests.
    pub open spec fn position_after_all(self, position: int, requests: Seq<Request>) -> int
        decreases requests.len(),
    {
        if requests.len() == 0 {
            position
        } else {
            self.position_after(
                self.position_after_all(position, requests.drop_last()),
                requests.last().size as int,
                requests.last().align as int,
            )
        }
    }

    /// What the `i`-th of the given requests is answered.
    pub open spec fn answer(self, position: int, requests: Seq<Request>, i: int) -> Option<int> {
        self.block(
            self.position_after_all(position, requests.take(i)),
            requests[i].size as int,
            requests[i].align as int,
        )
    }
}

/// A block is aligned as asked, lies between the position's own word and what was free, and is
/// the highest such block. A request that cannot be met leaves the position as it was.
pub proof fn lemma_block_fits(allocator: BumpAllocator, position: int, request: Request)
    requires
        0 <= position,
        is_pow2(request.align as int),
    ensures
        match allocator.block(position, request.size as int, request.align as int) {
            Some(address) => {
                &&& address % (request.align as int) == 0
                &&& allocator.start + word_size() <= address
                &&& address + request.size <= allocator.top(position)
                &&& forall|higher: int|
                    address < higher && #[trigger] (higher % (request.align as int)) == 0
                        ==> allocator.top(position) < higher + request.size
            },
            None => {
                &&& forall|address: int|
                    allocator.start + word_size() <= address && #[trigger] (address
                        % (request.align as int)) == 0 ==> allocator.top(position) < address
                        + request.size
                &&& allocator.position_after(position, request.size as int, request.align as int)
                    == position
            },
        },
{
    reveal(is_pow2);
    vstd::layout::unsigned_int_max_values();
    lemma_word_is_not_empty();
    let align = request.align as int;
    let top = allocator.top(position);
    if top >= request.size {
        lemma_align_down_is_highest(top - request.size, align);
    } else {
        lemma_align_down_is_highest(0, align);
    }
}

proof fn lemma_word_is_not_empty()
    ensures
        word_size() > 0,
{
    broadcast use vstd::layout::group_layout_axioms;

}

proof fn lemma_align_down_is_highest(address: int, align: int)
    requires
        0 <= address,
        0 < align,
    ensures
        0 <= align_down(address, align) <= address,
        align_down(address, align) % align == 0,
        forall|higher: int|
            align_down(address, align) < higher && #[trigger] (higher % align) == 0 ==> address
                < higher,
{
    let low = align_down(address, align);
    vstd::arithmetic::div_mod::lemma_fundamental_div_mod(address, align);
    vstd::arithmetic::div_mod::lemma_mod_bound(address, align);
    assert(low == align * (address / align));
    vstd::arithmetic::div_mod::lemma_mod_multiples_basic(address / align, align);
    vstd::arithmetic::mul::lemma_mul_is_commutative(address / align, align);
    assert(low >= 0) by (nonlinear_arith)
        requires
            low == align * (address / align),
            0 <= address,
            0 < align,
    ;
    assert forall|higher: int| low < higher && #[trigger] (higher % align) == 0 implies address
        < higher by {
        vstd::arithmetic::div_mod::lemma_fundamental_div_mod(higher, align);
        let q = address / align;
        let h = higher / align;
        assert(h >= q + 1) by (nonlinear_arith)
            requires
                align * q < align * h,
                0 < align,
        ;
        assert(align * h >= align * q + align) by (nonlinear_arith)
            requires
                h >= q + 1,
                0 < align,
        ;
    }
}

/// From the first block that is handed out on, the position is at or below that block.
proof fn lemma_position_descends(
    allocator: BumpAllocator,
    position: int,
    requests: Seq<Request>,
    i: int,
    k: int,
)
    requires
        0 <= position,
        forall|n: int| 0 <= n < requests.len() ==> is_pow2((#[trigger] requests[n]).align as int),
        0 <= i < k <= requests.len(),
        allocator.answer(position, requests, i) is Some,
    ensures
        0 < allocator.position_after_all(position, requests.take(k)) <= allocator.answer(
            position,
            requests,
            i,
        )->0,
    decreases k,
{
    let before = requests.take(k - 1);
    assert(requests.take(k).drop_last() =~= before);
    assert(requests.take(k).last() == requests[k - 1]);
    lemma_positions_are_not_negative(allocator, position, requests, k - 1);
    lemma_block_fits(
        allocator,
        allocator.position_after_all(position, before),
        requests[k - 1],
    );
    lemma_word_is_not_empty();
    if i < k - 1 {
        lemma_position_descends(allocator, position, requests, i, k - 1);
    }
}

proof fn lemma_positions_are_not_negative(
    allocator: BumpAllocator,
    position: int,
    requests: Seq<Request>,
    k: int,
)
    requires
        0 <= position,
        0 <= k <= requests.len(),
    ensures
        0 <= allocator.position_after_all(position, requests.take(k)),
    decreases k,
{
    if k > 0 {
        assert(requests.take(k).drop_last() =~= requests.take(k - 1));
        lemma_positions_are_not_negative(allocator, position, requests, k - 1);
    }
}

/// No two blocks overlap: each lies below all that were handed out before it.
pub proof fn lemma_blocks_do_not_overlap(
    allocator: BumpAllocator,
    position: usize,
    requests: Seq<Request>,
    i: int,
    j: int,
)
    requires
        forall|n: int| 0 <= n < requests.len() ==> is_pow2((#[trigger] requests[n]).align as int),
        0 <= i < j < requests.len(),
        allocator.answer(position as int, requests, i) is Some,
        allocator.answer(position as int, requests, j) is Some,
    ensures
        allocator.answer(position as int, requests, j)->0 + requests[j].size <= allocator.answer(
            position as int,
            requests,
            i,
        )->0,
{
    lemma_position_descends(allocator, position as int, requests, i, j);
    lemma_block_fits(
        allocator,
        allocator.position_after_all(position as int, requests.take(j)),
        requests[j],
    );
}

/// Every block lies in the arena, above the word that holds the position, as long as the arena was
/// fresh or the position within it at the beginning.
pub proof fn lemma_blocks_lie_in_arena(
    allocator: BumpAllocator,
    position: usize,
    requests: Seq<Request>,
    i: int,
)
    requires
        position <= allocator.start + allocator.len,
        forall|n: int| 0 <= n < requests.len() ==> is_pow2((#[trigger] requests[n]).align as int),
        0 <= i < requests.len(),
        allocator.answer(position as int, requests, i) is Some,
    ensures
        allocator.start + word_size() <= allocator.answer(position as int, requests, i)->0,
        allocator.answer(position as int, requests, i)->0 + requests[i].size <= allocator.start
            + allocator.len,
{
    lemma_positions_are_not_negative(allocator, position as int, requests, i);
    lemma_positions_stay_in_arena(allocator, position as int, requests, i);
    lemma_block_fits(
        allocator,
        allocator.position_after_all(position as int, requests.take(i)),
        requests[i],
    );
}

proof fn lemma_positions_stay_in_arena(
    allocator: BumpAllocator,
    position: int,
    requests: Seq<Request>,
    k: int,
)
    requires
        0 <= position <= allocator.start + allocator.len,
        forall|n: int| 0 <= n < requests.len() ==> is_pow2((#[trigger] requests[n]).align as int),
        0 <= k <= requests.len(),
    ensures
        allocator.position_after_all(position, requests.take(k)) <= allocator.start
            + allocator.len,
    decreases k,
{
    if k > 0 {
        assert(requests.take(k).drop_last() =~= requests.take(k - 1));
        assert(requests.take(k).last() == requests[k - 1]);
        lemma_positions_stay_in_arena(allocator, position, requests, k - 1);
        lemma_positions_are_not_negative(allocator, position, requests, k - 1);
        lemma_block_fits(
            allocator,
            allocator.position_after_all(position, requests.take(k - 1)),
            requests[k - 1],
        );
    }
}

/// What is free ends where the arena ends before the first allocation, and at the position after
/// that. A request is met if and only if a block of its size, aligned as asked, fits between the
/// arena's first word and that end. It is given the highest such block, which ends less than the
/// alignment below that end, and the position is then the block's address. A request that is not
/// met leaves the position as it was.
pub proof fn lemma_highest_block_is_handed_out(
    allocator: BumpAllocator,
    position: int,
    size: int,
    align: int,
)
    requires
        0 <= position,
        0 <= size,
        0 < align,
    ensures
        ({
            let end = if position == 0 {
                allocator.start + allocator.len
            } else {
                position
            };
            let lowest = allocator.start + layout::size_of::<usize>();
            let after = allocator.position_after(position, size, align);
            match allocator.block(position, size, align) {
                Some(address) => {
                    &&& address % align == 0
                    &&& lowest <= address
                    &&& address + size <= end
                    &&& end < address + size + align
                    &&& after == address
                },
                None => {
                    &&& forall|address: int|
                        lowest <= address && #[trigger] (address % align) == 0 ==> end < address
                            + size
                    &&& after == position
                },
            }
        }),
{
    lemma_word_is_not_empty();
    let end = if position == 0 {
        allocator.start + allocator.len
    } else {
        position
    };
    if end >= size {
        lemma_align_down_is_highest(end - size, align);
        vstd::arithmetic::div_mod::lemma_mod_bound(end - size, align);
    } else {
        lemma_align_down_is_highest(0, align);
    }
}

/// In a fresh arena, a request is met whenever an aligned block of its size fits between the
/// arena's first word and its end, and the block reaches up to less than the alignment below that
/// end.
pub proof fn lemma_fresh_arena_is_all_free(
    allocator: BumpAllocator,
    size: int,
    align: int,
    fitting: int,
)
    requires
        0 <= size,
        0 < align,
        fitting % align == 0,
        allocator.start + layout::size_of::<usize>() <= fitting,
        fitting + size <= allocator.start + allocator.len,
    ensures
        allocator.block(0, size, align) is Some,
        allocator.block(0, size, align)->0 >= fitting,
        allocator.block(0, size, align)->0 + size + align > allocator.start + allocator.len,
        allocator.block(0, size, align)->0 + size <= allocator.start + allocator.len,
        allocator.position_after(0, size, align) == allocator.block(0, size, align)->0,
{
    lemma_highest_block_is_handed_out(allocator, 0, size, align);
    lemma_word_is_not_empty();
    let end = allocator.start + allocator.len;
    assert(fitting % align == 0);
    lemma_align_down_is_highest(end - size, align);
}

} // verus!
