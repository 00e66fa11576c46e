//! The memory in which type-erased values live.
//!
//! Addresses and sizes describe the layout of that memory. A value itself is kept
//! in a box beside its block, so a reference to it does not point into the bytes
//! from the address of the block on.

use crate::erased::ErasedWrapper;
use crate::layout::checked_round_up;
use vstd::prelude::*;

verus! {

/// An allocated block of memory.
pub struct Block {
    /// The number of bytes that were asked for.
    pub size: usize,
    /// The value in the block, or `None` while the memory is uninitialized.
    pub contents: Option<ErasedWrapper>,
}

/// A block and the address of its first byte.
struct Slot {
    addr: usize,
    block: Block,
}

/// The memory in which type-erased values live, as far as it is allocated.
///
/// Each value is kept in a box beside its block. A value that was not dropped is
/// not dropped with the heap either.
pub struct ErasedHeap {
    slots: Vec<Slot>,
}

/// The bytes that a block takes if `size` bytes were asked for. It takes at least
/// one, so that different blocks have different addresses.
pub open spec fn taken(size: int) -> int {
    if size == 0 {
        1
    } else {
        size
    }
}

/// Whether `n` bytes from `a` on and `m` bytes from `b` on have none in common.
pub open spec fn apart(a: int, n: int, b: int, m: int) -> bool {
    a + n <= b || b + m <= a
}

/// Whether no block has any of the `bytes` bytes from `addr` on.
pub open spec fn is_free(heap: Map<usize, Block>, addr: int, bytes: int) -> bool {
    forall|p: usize| #[trigger]
        heap.contains_key(p) ==> apart(addr, bytes, p as int, taken(heap[p].size as int))
}

/// Whether a block of `size` bytes can be put at `addr`.
pub open spec fn room_at(heap: Map<usize, Block>, addr: int, size: int, align: int) -> bool {
    &&& 0 < addr
    &&& addr % align == 0
    &&& addr + taken(size) <= usize::MAX
    &&& is_free(heap, addr, taken(size))
}

/// Whether a block of `size` bytes can be put anywhere.
pub open spec fn has_room(heap: Map<usize, Block>, size: int, align: int) -> bool {
    exists|addr: int| #[trigger] room_at(heap, addr, size, align)
}

/// What holds of the blocks of every heap: none is at the null pointer, no two
/// have a byte in common, all lie within the address space, and the header of
/// each value names its type.
pub open spec fn valid_blocks(heap: Map<usize, Block>) -> bool {
    &&& forall|p: usize| #[trigger]
        heap.contains_key(p) ==> {
            &&& 0 < p
            &&& p + taken(heap[p].size as int) <= usize::MAX
            &&& heap[p].contents matches Some(w) ==> crate::payload::type_of(w.data@) == w.header.type_id
        }
    &&& forall|p: usize, q: usize| #[trigger]
        heap.contains_key(p) && #[trigger] heap.contains_key(q) && p != q ==> apart(
            p as int,
            taken(heap[p].size as int),
            q as int,
            taken(heap[q].size as int),
        )
}

/// Whether no two slots are at one address.
spec fn distinct(slots: Seq<Slot>) -> bool {
    forall|i: int, j: int|
        0 <= i < j < slots.len() ==> (#[trigger] slots[i]).addr != (#[trigger] slots[j]).addr
}

/// Whether some slot is at `addr`.
spec fn has_slot(slots: Seq<Slot>, addr: usize) -> bool {
    exists|i: int| 0 <= i < slots.len() && (#[trigger] slots[i]).addr == addr
}

/// The slot at `addr`.
spec fn slot_at(slots: Seq<Slot>, addr: usize) -> int {
    choose|i: int| 0 <= i < slots.len() && (#[trigger] slots[i]).addr == addr
}

/// The blocks by address.
spec fn blocks_of(slots: Seq<Slot>) -> Map<usize, Block> {
    Map::new(|p: usize| has_slot(slots, p), |p: usize| slots[slot_at(slots, p)].block)
}

proof fn lemma_blocks_of(slots: Seq<Slot>, i: int)
    requires
        distinct(slots),
        0 <= i < slots.len(),
    ensures
        blocks_of(slots).contains_key(slots[i].addr),
        blocks_of(slots)[slots[i].addr] == slots[i].block,
{
    let addr = slots[i].addr;
    let k = slot_at(slots, addr);
    assert(has_slot(slots, addr));
    assert(k == i) by {
        if k < i {
            assert(slots[k].addr != slots[i].addr);
        }
        if i < k {
            assert(slots[i].addr != slots[k].addr);
        }
    }
}

proof fn lemma_push(slots: Seq<Slot>, slot: Slot)
    requires
        distinct(slots),
        !blocks_of(slots).contains_key(slot.addr),
    ensures
        distinct(slots.push(slot)),
        blocks_of(slots.push(slot)) == blocks_of(slots).insert(slot.addr, slot.block),
{
    let after = slots.push(slot);
    assert(distinct(after)) by {
        assert forall|i: int, j: int| 0 <= i < j < after.len() implies (#[trigger] after[i]).addr
            != (#[trigger] after[j]).addr by {
            assert(after[i] == slots[i]);
            if j == slots.len() {
                lemma_blocks_of(slots, i);
            } else {
                assert(slots[i].addr != slots[j].addr);
            }
        }
    }
    lemma_blocks_of(after, slots.len() as int);
    let expected = blocks_of(slots).insert(slot.addr, slot.block);
    assert forall|p: usize|
        #![trigger blocks_of(after).dom().contains(p)]
        #![trigger expected.dom().contains(p)]
        #![trigger blocks_of(after)[p]]
        blocks_of(after).dom().contains(p) == expected.dom().contains(p) && (
        blocks_of(after).dom().contains(p) ==> blocks_of(after)[p] == expected[p]) by {
        if has_slot(slots, p) {
            let i = slot_at(slots, p);
            lemma_blocks_of(slots, i);
            lemma_blocks_of(after, i);
            assert(after[i] == slots[i]);
        }
        if has_slot(after, p) && p != slot.addr {
            let i = slot_at(after, p);
            assert(slots[i] == after[i]);
        }
    }
    assert(blocks_of(after).dom() =~= expected.dom());
    assert(blocks_of(after) =~= expected);
}

proof fn lemma_swap_remove(slots: Seq<Slot>, k: int)
    requires
        distinct(slots),
        0 <= k < slots.len(),
    ensures
        distinct(slots.update(k, slots.last()).drop_last()),
        blocks_of(slots.update(k, slots.last()).drop_last()) == blocks_of(slots).remove(
            slots[k].addr,
        ),
{
    let after = slots.update(k, slots.last()).drop_last();
    let last = slots.len() - 1;
    assert forall|i: int, j: int| 0 <= i < j < after.len() implies (#[trigger] after[i]).addr != (
    #[trigger] after[j]).addr by {
        let a = if i == k {
            last
        } else {
            i
        };
        let b = if j == k {
            last
        } else {
            j
        };
        assert(after[i] == slots[a] && after[j] == slots[b]);
        if a < b {
            assert(slots[a].addr != slots[b].addr);
        } else {
            assert(slots[b].addr != slots[a].addr);
        }
    }
    let expected = blocks_of(slots).remove(slots[k].addr);
    assert forall|p: usize|
        #![trigger blocks_of(after).dom().contains(p)]
        #![trigger expected.dom().contains(p)]
        #![trigger blocks_of(after)[p]]
        blocks_of(after).dom().contains(p) == expected.dom().contains(p) && (
        blocks_of(after).dom().contains(p) ==> blocks_of(after)[p] == expected[p]) by {
        if has_slot(after, p) {
            let i = slot_at(after, p);
            let a = if i == k {
                last
            } else {
                i
            };
            assert(after[i] == slots[a]);
            lemma_blocks_of(after, i);
            lemma_blocks_of(slots, a);
            if a < k {
                assert(slots[a].addr != slots[k].addr);
            } else {
                assert(a != k);
                assert(slots[k].addr != slots[a].addr);
            }
        }
        if has_slot(slots, p) && p != slots[k].addr {
            let a = slot_at(slots, p);
            let i = if a == last {
                k
            } else {
                a
            };
            assert(after[i] == slots[a]);
        }
    }
    assert(blocks_of(after).dom() =~= expected.dom());
    assert(blocks_of(after) =~= expected);
}

/// If a block can be put anywhere, it can be put at the lowest address there is
/// or right behind some other block.
proof fn lemma_lowest_room(heap: Map<usize, Block>, addr: int, size: int, align: int)
    requires
        0 < align,
        0 <= size,
        room_at(heap, addr, size, align),
    ensures
        room_at(heap, align, size, align) || exists|p: usize| #[trigger]
            heap.contains_key(p) && room_at(
                heap,
                crate::layout::round_up(p + taken(heap[p].size as int), align),
                size,
                align,
            ),
    decreases addr,
{
    if addr != align {
        let below = addr - align;
        let bytes = taken(size);
        vstd::arithmetic::div_mod::lemma_fundamental_div_mod(addr, align);
        let k = addr / align;
        assert(below > 0) by (nonlinear_arith)
            requires
                addr == align * k,
                addr > 0,
                addr != align,
                align > 0,
                below == addr - align,
        ;
        crate::layout::lemma_mod_add(addr, align);
        if is_free(heap, below, bytes) {
            lemma_lowest_room(heap, below, size, align);
        } else {
            let p = choose|p: usize| #[trigger]
                heap.contains_key(p) && !apart(
                    below,
                    bytes,
                    p as int,
                    taken(heap[p].size as int),
                );
            crate::layout::lemma_round_up_between(
                p + taken(heap[p].size as int),
                align,
                below,
            );
            assert(heap.contains_key(p));
        }
    }
}

impl View for ErasedHeap {
    type V = Map<usize, Block>;

    /// The allocated blocks by address.
    closed spec fn view(&self) -> Map<usize, Block> {
        blocks_of(self.slots@)
    }
}

impl ErasedHeap {
    /// Whether no address occurs twice.
    pub closed spec fn lists_blocks_once(self) -> bool {
        distinct(self.slots@)
    }

    /// What holds of every heap.
    pub open spec fn wf(self) -> bool {
        &&& self.lists_blocks_once()
        &&& valid_blocks(self@)
    }

    /// A heap with nothing allocated.
    pub fn new() -> (heap: Self)
        ensures
            heap.wf(),
            heap@ == Map::<usize, Block>::empty(),
    {
        let heap = ErasedHeap { slots: Vec::new() };
        assert(heap@ =~= Map::<usize, Block>::empty());
        heap
    }

    /// Where the block at `ptr` is listed.
    fn slot(&self, ptr: usize) -> (i: usize)
        requires
            self.wf(),
            self@.contains_key(ptr),
        ensures
            i < self.slots@.len(),
            self.slots@[i as int].addr == ptr,
            self.slots@[i as int].block == self@[ptr],
    {
        let n: usize = self.slots.len();
        let mut i: usize = 0;
        while self.slots[i].addr != ptr
            invariant
                self.wf(),
                n == self.slots@.len(),
                has_slot(self.slots@, ptr),
                i < self.slots@.len(),
                forall|j: int| 0 <= j < i ==> (#[trigger] self.slots@[j]).addr != ptr,
            decreases self.slots@.len() - i,
        {
            proof {
                let k = slot_at(self.slots@, ptr);
                assert(i < k);
            }
            i = i + 1;
        }
        proof {
            lemma_blocks_of(self.slots@, i as int);
        }
        i
    }

    /// The block at `ptr`.
    pub fn block(&self, ptr: usize) -> (block: &Block)
        requires
            self.wf(),
            self@.contains_key(ptr),
        ensures
            *block == self@[ptr],
    {
        let i: usize = self.slot(ptr);
        &self.slots[i].block
    }

    /// Takes the block at `ptr` out of the heap.
    pub(crate) fn take_block(&mut self, ptr: usize) -> (block: Block)
        requires
            old(self).wf(),
            old(self)@.contains_key(ptr),
        ensures
            final(self).wf(),
            block == old(self)@[ptr],
            final(self)@ == old(self)@.remove(ptr),
    {
        let i: usize = self.slot(ptr);
        proof {
            lemma_swap_remove(self.slots@, i as int);
        }
        self.slots.swap_remove(i).block
    }

    /// Puts `block` into the heap.
    pub(crate) fn put_block(&mut self, ptr: usize, block: Block)
        requires
            old(self).wf(),
            !old(self)@.contains_key(ptr),
            valid_blocks(old(self)@.insert(ptr, block)),
        ensures
            final(self).wf(),
            final(self)@ == old(self)@.insert(ptr, block),
    {
        proof {
            lemma_push(self.slots@, Slot { addr: ptr, block });
        }
        self.slots.push(Slot { addr: ptr, block });
    }

    /// Whether a block of `size` bytes can be put at `addr`.
    fn has_room_at(&self, addr: usize, size: usize, align: usize) -> (yes: bool)
        requires
            self.wf(),
            0 < addr,
            addr as int % align as int == 0,
        ensures
            yes == room_at(self@, addr as int, size as int, align as int),
    {
        let bytes: usize = if size == 0 {
            1
        } else {
            size
        };
        if bytes > usize::MAX - addr {
            return false;
        }
        let mut i: usize = 0;
        while i < self.slots.len()
            invariant
                self.wf(),
                bytes == taken(size as int),
                addr + bytes <= usize::MAX,
                i <= self.slots@.len(),
                forall|j: int|
                    0 <= j < i ==> apart(
                        addr as int,
                        bytes as int,
                        (#[trigger] self.slots@[j]).addr as int,
                        taken(self.slots@[j].block.size as int),
                    ),
            decreases self.slots@.len() - i,
        {
            proof {
                lemma_blocks_of(self.slots@, i as int);
            }
            let other: usize = self.slots[i].addr;
            let end: usize = self.end(i);
            if addr + bytes > other && end > addr {
                return false;
            }
            i = i + 1;
        }
        assert forall|p: usize| #[trigger] self@.contains_key(p) implies apart(
            addr as int,
            bytes as int,
            p as int,
            taken(self@[p].size as int),
        ) by {
            lemma_blocks_of(self.slots@, slot_at(self.slots@, p));
        }
        true
    }

    /// The first address behind a block.
    fn end(&self, i: usize) -> (end: usize)
        requires
            self.wf(),
            i < self.slots@.len(),
        ensures
            end == self.slots@[i as int].addr + taken(self.slots@[i as int].block.size as int),
    {
        proof {
            lemma_blocks_of(self.slots@, i as int);
        }
        let size: usize = self.slots[i].block.size;
        if size == 0 {
            self.slots[i].addr + 1
        } else {
            self.slots[i].addr + size
        }
    }

    /// An address at which a block of `size` bytes can be put, if there is any.
    fn find_room(&self, size: usize, align: usize) -> (addr: Option<usize>)
        requires
            self.wf(),
            0 < align,
        ensures
            addr is Some <==> has_room(self@, size as int, align as int),
            addr matches Some(a) ==> room_at(self@, a as int, size as int, align as int),
    {
        proof {
            vstd::arithmetic::div_mod::lemma_mod_self_0(align as int);
        }
        if self.has_room_at(align, size, align) {
            return Some(align);
        }
        let mut i: usize = 0;
        while i < self.slots.len()
            invariant
                self.wf(),
                0 < align,
                i <= self.slots@.len(),
                !room_at(self@, align as int, size as int, align as int),
                forall|j: int|
                    0 <= j < i ==> !room_at(
                        self@,
                        crate::layout::round_up(
                            (#[trigger] self.slots@[j]).addr + taken(
                                self.slots@[j].block.size as int,
                            ),
                            align as int,
                        ),
                        size as int,
                        align as int,
                    ),
            decreases self.slots@.len() - i,
        {
            let end: usize = self.end(i);
            proof {
                crate::layout::lemma_round_up(end as int, align as int);
            }
            if let Some(addr) = checked_round_up(end, align) {
                if self.has_room_at(addr, size, align) {
                    return Some(addr);
                }
            }
            i = i + 1;
        }
        proof {
            if has_room(self@, size as int, align as int) {
                let a = choose|a: int| #[trigger] room_at(self@, a, size as int, align as int);
                lemma_lowest_room(self@, a, size as int, align as int);
                let p = choose|p: usize| #[trigger]
                    self@.contains_key(p) && room_at(
                        self@,
                        crate::layout::round_up(p + taken(self@[p].size as int), align as int),
                        size as int,
                        align as int,
                    );
                lemma_blocks_of(self.slots@, slot_at(self.slots@, p));
            }
        }
        None
    }

    /// Whether a block of `size` bytes can be put anywhere.
    pub fn has_room(&self, size: usize, align: usize) -> (yes: bool)
        requires
            self.wf(),
            0 < align,
        ensures
            yes == has_room(self@, size as int, align as int),
    {
        self.find_room(size, align).is_some()
    }

    /// Adds `block` at a free multiple of `align`.
    pub(crate) fn add_block(&mut self, block: Block, align: usize) -> (ptr: usize)
        requires
            old(self).wf(),
            0 < align,
            has_room(old(self)@, block.size as int, align as int),
            block.contents matches Some(w) ==> crate::payload::type_of(w.data@)
                == w.header.type_id,
        ensures
            final(self).wf(),
            room_at(old(self)@, ptr as int, block.size as int, align as int),
            0 < ptr < usize::MAX,
            ptr as int % align as int == 0,
            ptr + block.size <= usize::MAX,
            forall|p: usize| #[trigger]
                old(self)@.contains_key(p) ==> {
                    ||| ptr < p && ptr + block.size <= p
                    ||| p < ptr && p + old(self)@[p].size <= ptr
                },
            !old(self)@.contains_key(ptr),
            final(self)@ == old(self)@.insert(ptr, block),
    {
        let ptr: usize = self.find_room(block.size, align).unwrap();
        self.put_block(ptr, block);
        ptr
    }

    /// Allocates `size` bytes of uninitialized memory at a multiple of `align`.
    pub fn gc_allocate(&mut self, size: usize, align: usize) -> (ptr: usize)
        requires
            old(self).wf(),
            0 < align,
            has_room(old(self)@, size as int, align as int),
        ensures
            final(self).wf(),
            room_at(old(self)@, ptr as int, size as int, align as int),
            0 < ptr < usize::MAX,
            ptr as int % align as int == 0,
            ptr + size <= usize::MAX,
            forall|p: usize| #[trigger]
                old(self)@.contains_key(p) ==> {
                    ||| ptr < p && ptr + size <= p
                    ||| p < ptr && p + old(self)@[p].size <= ptr
                },
            !old(self)@.contains_key(ptr),
            final(self)@ == old(self)@.insert(ptr, (Block { size, contents: None })),
    {
        self.add_block(Block { size, contents: None }, align)
    }

    /// Frees memory that holds no value.
    pub fn gc_free(&mut self, ptr: usize)
        requires
            old(self).wf(),
            old(self)@.contains_key(ptr),
            old(self)@[ptr].contents is None,
        ensures
            final(self).wf(),
            final(self)@ == old(self)@.remove(ptr),
    {
        self.take_block(ptr);
    }
}

/// Nothing is ever allocated at the null pointer, and no two blocks have a byte
/// in common.
pub proof fn lemma_blocks_are_apart(heap: ErasedHeap, p: usize, q: usize)
    requires
        heap.wf(),
        heap@.contains_key(p),
        heap@.contains_key(q),
        p != q,
    ensures
        !heap@.contains_key(0),
        apart(
            p as int,
            heap@[p].size as int,
            q as int,
            heap@[q].size as int,
        ),
{
}

/// No byte belongs to two blocks, and all the bytes of a block lie within the
/// address space, above the null pointer.
pub proof fn lemma_blocks_share_no_byte(heap: ErasedHeap, p: usize, q: usize, x: int)
    requires
        heap.wf(),
        heap@.contains_key(p),
        heap@.contains_key(q),
        p != q,
    ensures
        0 < p < usize::MAX,
        p + heap@[p].size <= usize::MAX,
        !(p <= x < p + heap@[p].size && q <= x < q + heap@[q].size),
        p < q ==> p + heap@[p].size <= q,
{
}

/// A block takes the bytes that were asked for, and one if none were.
pub proof fn lemma_block_takes_what_was_asked_for(size: int)
    requires
        0 <= size,
    ensures
        size <= taken(size),
        1 <= taken(size),
        taken(size) <= size || taken(size) <= 1,
{
}

/// Two ranges are apart if and only if neither starts within the other. No byte
/// is then in both.
pub proof fn lemma_ranges_apart_share_no_byte(a: int, n: int, b: int, m: int, x: int)
    requires
        0 < n,
        0 < m,
    ensures
        apart(a, n, b, m) <==> !(a <= b < a + n) && !(b <= a < b + m),
        apart(a, n, b, m) ==> !(a <= x < a + n && b <= x < b + m),
{
}

/// A block can be put exactly at the multiples of its alignment, above the null
/// pointer, from which on there are as many bytes as were asked for, none of them
/// in any other block. Different blocks start at different addresses.
pub proof fn lemma_room_is_free_memory(
    heap: Map<usize, Block>,
    addr: int,
    size: int,
    align: int,
)
    requires
        0 <= size,
    ensures
        room_at(heap, addr, size, align) <==> {
            &&& 0 < addr < usize::MAX
            &&& addr % align == 0
            &&& addr + size <= usize::MAX
            &&& forall|p: usize| #[trigger]
                heap.contains_key(p) ==> {
                    ||| addr < p && addr + size <= p
                    ||| p < addr && p + heap[p].size <= addr
                }
        },
{
    if room_at(heap, addr, size, align) {
        assert forall|p: usize| #[trigger] heap.contains_key(p) implies (addr < p && addr + size
            <= p) || (p < addr && p + heap[p].size <= addr) by {
            assert(apart(addr, taken(size), p as int, taken(heap[p].size as int)));
        }
    }
}

/// There is room for a block exactly if there is free memory for it at some
/// multiple of its alignment.
pub proof fn lemma_has_room_where_memory_is_free(
    heap: Map<usize, Block>,
    addr: int,
    size: int,
    align: int,
)
    requires
        0 <= size,
    ensures
        ({
            &&& 0 < addr < usize::MAX
            &&& addr % align == 0
            &&& addr + size <= usize::MAX
            &&& forall|p: usize| #[trigger]
                heap.contains_key(p) ==> {
                    ||| addr < p && addr + size <= p
                    ||| p < addr && p + heap[p].size <= addr
                }
        }) ==> has_room(heap, size, align),
        has_room(heap, size, align) ==> exists|a: int|
            {
                &&& 0 < a < usize::MAX
                &&& #[trigger] (a % align) == 0
                &&& a + size <= usize::MAX
                &&& forall|p: usize| #[trigger]
                    heap.contains_key(p) ==> {
                        ||| a < p && a + size <= p
                        ||| p < a && p + heap[p].size <= a
                    }
            },
{
    lemma_room_is_free_memory(heap, addr, size, align);
    if has_room(heap, size, align) {
        let a = choose|a: int| #[trigger] room_at(heap, a, size, align);
        lemma_room_is_free_memory(heap, a, size, align);
        assert(a % align == 0);
    }
}

/// The header of a value names the type that the value has.
pub proof fn lemma_header_names_type(heap: ErasedHeap, p: usize)
    requires
        heap.wf(),
        heap@.contains_key(p),
    ensures
        heap@[p].contents matches Some(w) ==> crate::payload::type_of(w.data@) == w.header.type_id,
{
}

/// There is room for a block if the memory behind all other blocks suffices for it.
pub proof fn lemma_room_behind_all_blocks(
    heap: Map<usize, Block>,
    end: int,
    size: int,
    align: int,
)
    requires
        0 < align,
        0 <= end,
        0 <= size,
        forall|p: usize| #[trigger]
            heap.contains_key(p) ==> p + taken(heap[p].size as int) <= end,
        end + align + taken(size) <= usize::MAX,
    ensures
        has_room(heap, size, align),
{
    crate::layout::lemma_round_up(end + 1, align);
    let addr = crate::layout::round_up(end + 1, align);
    assert(room_at(heap, addr, size, align));
}

} // verus!
