//! Type-erased values: a header that records the type of a value and how the
//! value is dropped, stored in front of the value itself.
//!
//! A type-erased pointer is an address in an [`ErasedHeap`]; the address zero
//! is the null pointer.

use crate::heap::{Block, ErasedHeap};
use crate::layout::layout_behind;
use crate::payload::Erased;
use crate::type_key::{same_type_id, TypeKey};
use std::any::TypeId;
use std::mem::ManuallyDrop;
use vstd::prelude::*;

verus! {

/// What dropping a type-erased value does to the memory that holds it.
#[derive(Debug, Copy, Clone, PartialEq, Eq, Structural)]
pub enum DropFn {
    /// The value owns its memory: dropping it also frees the memory.
    FreeBox,
    /// The memory belongs to the garbage collector, which frees it later:
    /// dropping the value leaves it allocated.
    DropInPlace,
}

/// What stands in front of every type-erased value.
pub struct ErasedHeader {
    pub type_id: TypeId,
    pub drop_fn: DropFn,
}

/// A value with its header in front of it.
///
/// Nothing but [`ErasedHeader::drop`] drops the value: it is not dropped with the
/// wrapper, nor with the heap that holds the wrapper.
pub struct ErasedWrapper {
    pub header: ErasedHeader,
    pub data: ManuallyDrop<Erased>,
}

/// Whether `ptr` points to a block that holds a value.
pub open spec fn is_live(heap: Map<usize, Block>, ptr: usize) -> bool {
    heap.contains_key(ptr) && heap[ptr].contents is Some
}

/// Whether `ptr` points to allocated memory that holds no value.
pub open spec fn is_uninit(heap: Map<usize, Block>, ptr: usize) -> bool {
    heap.contains_key(ptr) && heap[ptr].contents is None
}

/// Whether `ptr` is null or points to a value.
pub open spec fn null_or_live(heap: Map<usize, Block>, ptr: usize) -> bool {
    ptr == 0 || is_live(heap, ptr)
}

/// The header of the value that `ptr` points to.
pub open spec fn header_at(heap: Map<usize, Block>, ptr: usize) -> ErasedHeader {
    heap[ptr].contents->0.header
}

/// The value that `ptr` points to, in the form in which the wrapper holds it.
pub open spec fn stored_at(heap: Map<usize, Block>, ptr: usize) -> ManuallyDrop<Erased> {
    heap[ptr].contents->0.data
}

/// The value that `ptr` points to, in its erased form.
pub open spec fn payload_at(heap: Map<usize, Block>, ptr: usize) -> Erased {
    stored_at(heap, ptr)@
}

/// The type of the value that `ptr` points to, if `ptr` is not null.
pub open spec fn type_at(heap: Map<usize, Block>, ptr: usize) -> Option<TypeId> {
    if ptr == 0 {
        None
    } else {
        Some(header_at(heap, ptr).type_id)
    }
}

/// The number of bytes of a `T` with its header.
pub open spec fn wrapper_bytes<T>() -> nat {
    crate::layout::bytes_behind::<ErasedHeader, T>()
}

/// The alignment of a `T` with its header.
pub open spec fn wrapper_alignment<T>() -> nat {
    crate::layout::align_behind::<ErasedHeader, T>()
}

/// What reading `ptr` as a `T`, with the identifier `id`, gives: what the payload
/// shows at that type if `ptr` is not null and the header names that type, and
/// nothing otherwise.
pub open spec fn reads_as<T: 'static>(
    heap: Map<usize, Block>,
    ptr: usize,
    id: TypeId,
    value: Option<&T>,
) -> bool {
    &&& value is Some <==> type_at(heap, ptr) == Some(id)
    &&& value is Some ==> exists|key: TypeKey<T>| #[trigger]
        call_ensures(Erased::peek::<T>, (&payload_at(heap, ptr), &key), value)
}

/// The heap once `payload`, a value of type `id`, was written to `ptr`.
pub open spec fn with_value(
    heap: Map<usize, Block>,
    ptr: usize,
    size: usize,
    id: TypeId,
    drop_fn: DropFn,
    payload: ManuallyDrop<Erased>,
) -> Map<usize, Block> {
    let header = ErasedHeader { type_id: id, drop_fn };
    heap.insert(ptr, Block { size, contents: Some(ErasedWrapper { header, data: payload }) })
}

/// The heap once the value that `ptr` points to was dropped.
pub open spec fn without_value(heap: Map<usize, Block>, ptr: usize) -> Map<usize, Block> {
    if ptr == 0 {
        heap
    } else {
        match header_at(heap, ptr).drop_fn {
            DropFn::FreeBox => heap.remove(ptr),
            DropFn::DropInPlace => heap.insert(
                ptr,
                Block { size: heap[ptr].size, contents: None },
            ),
        }
    }
}

impl ErasedHeader {
    /// Moves `data` to memory of its own and returns the type-erased pointer to it.
    pub fn into_raw<T: 'static>(heap: &mut ErasedHeap, data: T) -> (ptr: usize)
        requires
            old(heap).wf(),
            crate::heap::has_room(
                old(heap)@,
                wrapper_bytes::<T>() as int,
                wrapper_alignment::<T>() as int,
            ),
        ensures
            final(heap).wf(),
            crate::heap::room_at(
                old(heap)@,
                ptr as int,
                wrapper_bytes::<T>() as int,
                wrapper_alignment::<T>() as int,
            ),
            0 < ptr < usize::MAX,
            ptr as int % vstd::layout::align_of::<ErasedHeader>() as int == 0,
            ptr as int % vstd::layout::align_of::<T>() as int == 0,
            ptr + final(heap)@[ptr].size <= usize::MAX,
            forall|start: int|
                vstd::layout::size_of::<ErasedHeader>() <= start
                    < vstd::layout::size_of::<ErasedHeader>() + vstd::layout::align_of::<T>()
                    && #[trigger] (start % vstd::layout::align_of::<T>() as int) == 0 ==> start
                    + vstd::layout::size_of::<T>() <= final(heap)@[ptr].size,
            (ptr + crate::layout::round_up(
                vstd::layout::size_of::<ErasedHeader>() as int,
                vstd::layout::align_of::<T>() as int,
            )) % vstd::layout::align_of::<T>() as int == 0,
            forall|p: usize| #[trigger]
                old(heap)@.contains_key(p) ==> {
                    ||| ptr < p && ptr + final(heap)@[ptr].size <= p
                    ||| p < ptr && p + old(heap)@[p].size <= ptr
                },
            final(heap)@[ptr].contents->0.header.drop_fn == DropFn::FreeBox,
            !old(heap)@.contains_key(ptr),
            is_live(final(heap)@, ptr),
            call_ensures(TypeId::of::<T>, (), header_at(final(heap)@, ptr).type_id),
            payload_at(final(heap)@, ptr).holds(header_at(final(heap)@, ptr).type_id, data),
            final(heap)@[ptr].size == wrapper_bytes::<T>(),
            final(heap)@ == with_value(
                old(heap)@,
                ptr,
                final(heap)@[ptr].size,
                header_at(final(heap)@, ptr).type_id,
                DropFn::FreeBox,
                stored_at(final(heap)@, ptr),
            ),
    {
        Self::into_raw_keyed(heap, data, &TypeKey::new())
    }

    /// Like [`ErasedHeader::into_raw`], with the key of `T` given.
    pub fn into_raw_keyed<T: 'static>(
        heap: &mut ErasedHeap,
        data: T,
        key: &TypeKey<T>,
    ) -> (ptr: usize)
        requires
            old(heap).wf(),
            crate::heap::has_room(
                old(heap)@,
                wrapper_bytes::<T>() as int,
                wrapper_alignment::<T>() as int,
            ),
        ensures
            final(heap).wf(),
            crate::heap::room_at(
                old(heap)@,
                ptr as int,
                wrapper_bytes::<T>() as int,
                wrapper_alignment::<T>() as int,
            ),
            0 < ptr < usize::MAX,
            ptr as int % vstd::layout::align_of::<ErasedHeader>() as int == 0,
            ptr as int % vstd::layout::align_of::<T>() as int == 0,
            ptr + final(heap)@[ptr].size <= usize::MAX,
            forall|start: int|
                vstd::layout::size_of::<ErasedHeader>() <= start
                    < vstd::layout::size_of::<ErasedHeader>() + vstd::layout::align_of::<T>()
                    && #[trigger] (start % vstd::layout::align_of::<T>() as int) == 0 ==> start
                    + vstd::layout::size_of::<T>() <= final(heap)@[ptr].size,
            (ptr + crate::layout::round_up(
                vstd::layout::size_of::<ErasedHeader>() as int,
                vstd::layout::align_of::<T>() as int,
            )) % vstd::layout::align_of::<T>() as int == 0,
            forall|p: usize| #[trigger]
                old(heap)@.contains_key(p) ==> {
                    ||| ptr < p && ptr + final(heap)@[ptr].size <= p
                    ||| p < ptr && p + old(heap)@[p].size <= ptr
                },
            final(heap)@[ptr].contents->0.header.drop_fn == DropFn::FreeBox,
            !old(heap)@.contains_key(ptr),
            is_live(final(heap)@, ptr),
            payload_at(final(heap)@, ptr).holds(key.id(), data),
            final(heap)@[ptr].size == wrapper_bytes::<T>(),
            final(heap)@ == with_value(
                old(heap)@,
                ptr,
                final(heap)@[ptr].size,
                key.id(),
                DropFn::FreeBox,
                stored_at(final(heap)@, ptr),
            ),
    {
        let (size, align): (usize, usize) = layout_behind::<ErasedHeader, T>();
        let header = ErasedHeader { type_id: key.type_id(), drop_fn: DropFn::FreeBox };
        let wrapper = ErasedWrapper { header, data: ManuallyDrop::new(Erased::put(data, key)) };
        let ptr: usize = heap.add_block(Block { size, contents: Some(wrapper) }, align);
        proof {
            let header_size = vstd::layout::size_of::<ErasedHeader>() as int;
            let value_align = vstd::layout::align_of::<T>() as int;
            crate::layout::lemma_round_up(header_size, value_align);
            crate::layout::lemma_value_is_aligned::<ErasedHeader, T>(
                ptr as int,
                crate::layout::round_up(header_size, value_align),
            );
        }
        ptr
    }

    /// Returns the exact number of bytes needed to store a `T` with its header in the GC heap.
    pub fn wrapper_size<T: 'static>() -> (bytes: usize)
        ensures
            bytes == wrapper_bytes::<T>(),
            vstd::layout::size_of::<ErasedHeader>() + vstd::layout::size_of::<T>() <= bytes,
            bytes as int % wrapper_alignment::<T>() as int == 0,
            bytes as int % vstd::layout::align_of::<ErasedHeader>() as int == 0,
            bytes as int % vstd::layout::align_of::<T>() as int == 0,
            forall|start: int|
                vstd::layout::size_of::<ErasedHeader>() <= start < vstd::layout::size_of::<ErasedHeader>()
                    + vstd::layout::align_of::<T>() && #[trigger] (start
                    % vstd::layout::align_of::<T>() as int) == 0 ==> {
                    &&& start + vstd::layout::size_of::<T>() <= bytes
                    &&& bytes < start + vstd::layout::size_of::<T>() + vstd::layout::align_of::<ErasedHeader>()
                        || bytes < start + vstd::layout::size_of::<T>() + vstd::layout::align_of::<T>()
                },
    {
        layout_behind::<ErasedHeader, T>().0
    }

    /// Returns the alignment of the memory that can store a `T` with its header.
    pub fn wrapper_align<T: 'static>() -> (align: usize)
        ensures
            align == wrapper_alignment::<T>(),
            0 < align,
            align as int % vstd::layout::align_of::<ErasedHeader>() as int == 0,
            align as int % vstd::layout::align_of::<T>() as int == 0,
            align == vstd::layout::align_of::<ErasedHeader>() || align == vstd::layout::align_of::<
                T,
            >(),
    {
        layout_behind::<ErasedHeader, T>().1
    }

    /// Initializes uninitialized memory allocated by the Luau GC.
    ///
    /// The memory stays with the GC, so dropping the value does not free it. What
    /// the memory held counts as uninitialized: it is given up, not dropped.
    pub fn place_into_gc_memory<T: 'static>(heap: &mut ErasedHeap, ptr: usize, data: T)
        requires
            old(heap).wf(),
            old(heap)@.contains_key(ptr),
            old(heap)@[ptr].size >= wrapper_bytes::<T>(),
            ptr as int % wrapper_alignment::<T>() as int == 0,
        ensures
            final(heap).wf(),
            is_live(final(heap)@, ptr),
            call_ensures(TypeId::of::<T>, (), header_at(final(heap)@, ptr).type_id),
            payload_at(final(heap)@, ptr).holds(header_at(final(heap)@, ptr).type_id, data),
            final(heap)@ == with_value(
                old(heap)@,
                ptr,
                old(heap)@[ptr].size,
                header_at(final(heap)@, ptr).type_id,
                DropFn::DropInPlace,
                stored_at(final(heap)@, ptr),
            ),
            is_live(old(heap)@, ptr) ==> call_ensures(
                core::mem::forget::<Erased>,
                (payload_at(old(heap)@, ptr),),
                (),
            ),
    {
        Self::place_into_gc_memory_keyed(heap, ptr, data, &TypeKey::new())
    }

    /// Like [`ErasedHeader::place_into_gc_memory`], with the key of `T` given.
    pub fn place_into_gc_memory_keyed<T: 'static>(
        heap: &mut ErasedHeap,
        ptr: usize,
        data: T,
        key: &TypeKey<T>,
    )
        requires
            old(heap).wf(),
            old(heap)@.contains_key(ptr),
            old(heap)@[ptr].size >= wrapper_bytes::<T>(),
            ptr as int % wrapper_alignment::<T>() as int == 0,
        ensures
            final(heap).wf(),
            is_live(final(heap)@, ptr),
            payload_at(final(heap)@, ptr).holds(key.id(), data),
            final(heap)@ == with_value(
                old(heap)@,
                ptr,
                old(heap)@[ptr].size,
                key.id(),
                DropFn::DropInPlace,
                stored_at(final(heap)@, ptr),
            ),
            is_live(old(heap)@, ptr) ==> call_ensures(
                core::mem::forget::<Erased>,
                (payload_at(old(heap)@, ptr),),
                (),
            ),
    {
        let block = heap.take_block(ptr);
        let size: usize = block.size;
        if let Some(forgotten) = block.contents {
            core::mem::forget(ManuallyDrop::into_inner(forgotten.data));
        }
        let header = ErasedHeader { type_id: key.type_id(), drop_fn: DropFn::DropInPlace };
        let wrapper = ErasedWrapper { header, data: ManuallyDrop::new(Erased::put(data, key)) };
        let placed = Block { size, contents: Some(wrapper) };
        assert(old(heap)@.remove(ptr).insert(ptr, placed) =~= old(heap)@.insert(ptr, placed));
        heap.put_block(ptr, placed)
    }

    /// The type of the value that `ptr` points to, or `None` if `ptr` is null.
    pub fn type_id(heap: &ErasedHeap, ptr: usize) -> (id: Option<TypeId>)
        requires
            heap.wf(),
            null_or_live(heap@, ptr),
        ensures
            id == type_at(heap@, ptr),
            ptr == 0 ==> id is None,
            ptr != 0 ==> id == Some(heap@[ptr].contents->0.header.type_id),
    {
        if ptr == 0 {
            return None;
        }
        let wrapper = heap.block(ptr).contents.as_ref().unwrap();
        Some(wrapper.header.type_id)
    }

    /// The value that `ptr` points to, if `ptr` is not null and the value is a `T`.
    pub fn downcast_ref<'a, T: 'static>(heap: &'a ErasedHeap, ptr: usize) -> (value: Option<&'a T>)
        requires
            heap.wf(),
            null_or_live(heap@, ptr),
        ensures
            exists|id: TypeId| #[trigger]
                call_ensures(TypeId::of::<T>, (), id) && reads_as(heap@, ptr, id, value),
    {
        let key = TypeKey::<T>::new();
        let value = Self::downcast_ref_keyed(heap, ptr, &key);
        assert(call_ensures(TypeId::of::<T>, (), key.id()) && reads_as(
            heap@,
            ptr,
            key.id(),
            value,
        ));
        value
    }

    /// Like [`ErasedHeader::downcast_ref`], with the key of `T` given.
    pub fn downcast_ref_keyed<'a, T: 'static>(
        heap: &'a ErasedHeap,
        ptr: usize,
        key: &TypeKey<T>,
    ) -> (value: Option<&'a T>)
        requires
            heap.wf(),
            null_or_live(heap@, ptr),
        ensures
            reads_as(heap@, ptr, key.id(), value),
            value is Some <==> ptr != 0 && heap@[ptr].contents->0.header.type_id == key.id(),
            value is Some ==> exists|k: TypeKey<T>| #[trigger]
                call_ensures(
                    Erased::peek::<T>,
                    (&heap@[ptr].contents->0.data@, &k),
                    value,
                ),
    {
        if ptr == 0 {
            return None;
        }
        let wrapper = heap.block(ptr).contents.as_ref().unwrap();
        if same_type_id(&wrapper.header.type_id, &key.type_id()) {
            let payload: &Erased = &wrapper.data;
            let seen = payload.peek(key);
            assert(call_ensures(Erased::peek::<T>, (&payload_at(heap@, ptr), key), seen));
            seen
        } else {
            None
        }
    }

    /// Drops the value that `ptr` points to; nothing happens if `ptr` is null.
    pub fn drop(heap: &mut ErasedHeap, ptr: usize)
        requires
            old(heap).wf(),
            null_or_live(old(heap)@, ptr),
        ensures
            final(heap).wf(),
            final(heap)@ == without_value(old(heap)@, ptr),
            ptr == 0 ==> final(heap)@ == old(heap)@,
            ptr != 0 ==> match old(heap)@[ptr].contents->0.header.drop_fn {
                DropFn::FreeBox => final(heap)@ == old(heap)@.remove(ptr),
                DropFn::DropInPlace => final(heap)@ == old(heap)@.insert(
                    ptr,
                    (Block { size: old(heap)@[ptr].size, contents: None }),
                ),
            },
            ptr != 0 ==> call_ensures(
                core::mem::drop::<Erased>,
                (old(heap)@[ptr].contents->0.data@,),
                (),
            ),
            ptr != 0 ==> call_ensures(
                core::mem::drop::<Erased>,
                (payload_at(old(heap)@, ptr),),
                (),
            ),
    {
        if ptr != 0 {
            let block = heap.take_block(ptr);
            let size: usize = block.size;
            let wrapper = block.contents.unwrap();
            match wrapper.header.drop_fn {
                DropFn::FreeBox => {},
                DropFn::DropInPlace => {
                    let empty = Block { size, contents: None };
                    assert(old(heap)@.remove(ptr).insert(ptr, empty) =~= old(heap)@.insert(
                        ptr,
                        empty,
                    ));
                    heap.put_block(ptr, empty);
                },
            }
            core::mem::drop(ManuallyDrop::into_inner(wrapper.data));
        }
    }
}

/// The null pointer has no type and no value, and dropping it changes nothing.
pub proof fn lemma_null_is_empty<T: 'static>(
    heap: Map<usize, Block>,
    id: TypeId,
    value: Option<&T>,
)
    requires
        reads_as(heap, 0, id, value),
    ensures
        null_or_live(heap, 0),
        type_at(heap, 0) is None,
        value is None,
        without_value(heap, 0) == heap,
{
}

/// What is read as a `T` from a pointer to which a `T` was written is the value
/// that was written, wherever the memory came from. It is read exactly if both
/// times `T` had the same identifier.
pub proof fn lemma_read_gives_back_write<T: 'static>(
    heap: Map<usize, Block>,
    ptr: usize,
    size: usize,
    drop_fn: DropFn,
    written: TypeId,
    data: T,
    payload: ManuallyDrop<Erased>,
    read: TypeId,
    value: Option<&T>,
)
    requires
        ptr != 0,
        payload@.holds(written, data),
        reads_as(with_value(heap, ptr, size, written, drop_fn, payload), ptr, read, value),
    ensures
        is_live(with_value(heap, ptr, size, written, drop_fn, payload), ptr),
        null_or_live(with_value(heap, ptr, size, written, drop_fn, payload), ptr),
        type_at(with_value(heap, ptr, size, written, drop_fn, payload), ptr) == Some(written),
        value == if read == written {
            Some(&data)
        } else {
            None
        },
{
}

/// A `T` is read back wherever `TypeId::of::<T>()` returns one identifier only.
pub proof fn lemma_read_gives_back_write_at_its_type<T: 'static>(
    heap: Map<usize, Block>,
    ptr: usize,
    size: usize,
    drop_fn: DropFn,
    written: TypeId,
    data: T,
    payload: ManuallyDrop<Erased>,
    read: TypeId,
    value: Option<&T>,
)
    requires
        ptr != 0,
        forall|a: TypeId, b: TypeId| #[trigger]
            call_ensures(TypeId::of::<T>, (), a) && #[trigger] call_ensures(
                TypeId::of::<T>,
                (),
                b,
            ) ==> a == b,
        call_ensures(TypeId::of::<T>, (), written),
        call_ensures(TypeId::of::<T>, (), read),
        payload@.holds(written, data),
        reads_as(with_value(heap, ptr, size, written, drop_fn, payload), ptr, read, value),
    ensures
        value == Some(&data),
{
    lemma_read_gives_back_write(heap, ptr, size, drop_fn, written, data, payload, read, value);
}

/// Reading a pointer as a type with another identifier than the one written to
/// it gives nothing.
pub proof fn lemma_read_as_other_type_gives_nothing<U: 'static>(
    heap: Map<usize, Block>,
    ptr: usize,
    size: usize,
    drop_fn: DropFn,
    written: TypeId,
    payload: ManuallyDrop<Erased>,
    read: TypeId,
    value: Option<&U>,
)
    requires
        ptr != 0,
        read != written,
        reads_as(with_value(heap, ptr, size, written, drop_fn, payload), ptr, read, value),
    ensures
        value is None,
{
}

/// Every read of a value that a pointer holds shows the same.
pub proof fn lemma_reads_agree<T: 'static>(
    heap: Map<usize, Block>,
    ptr: usize,
    data: T,
    id: TypeId,
    first: Option<&T>,
    later: Option<&T>,
)
    requires
        is_live(heap, ptr),
        payload_at(heap, ptr).holds(header_at(heap, ptr).type_id, data),
        reads_as(heap, ptr, id, first),
        reads_as(heap, ptr, id, later),
    ensures
        first == later,
{
}

/// What was written to a pointer is what its block holds: a value of that type,
/// to be dropped in that way, in a block of that size.
pub proof fn lemma_write_is_found(
    heap: Map<usize, Block>,
    ptr: usize,
    size: usize,
    id: TypeId,
    drop_fn: DropFn,
    payload: ManuallyDrop<Erased>,
)
    ensures
        ({
            let after = with_value(heap, ptr, size, id, drop_fn, payload);
            &&& after.contains_key(ptr)
            &&& after[ptr].size == size
            &&& after[ptr].contents matches Some(w) && {
                &&& w.header.type_id == id
                &&& w.header.drop_fn == drop_fn
                &&& w.data == payload
            }
            &&& header_at(after, ptr).type_id == id
            &&& header_at(after, ptr).drop_fn == drop_fn
            &&& stored_at(after, ptr) == payload
            &&& payload_at(after, ptr) == payload@
        }),
{
}

/// A pointer is live exactly if its block holds a value, and its type is then the
/// one that the header in front of that value names.
pub proof fn lemma_live_pointer_has_its_type(heap: Map<usize, Block>, ptr: usize)
    ensures
        is_live(heap, ptr) <==> heap.contains_key(ptr) && heap[ptr].contents is Some,
        is_uninit(heap, ptr) <==> heap.contains_key(ptr) && heap[ptr].contents is None,
        null_or_live(heap, ptr) <==> ptr == 0 || heap.contains_key(ptr)
            && heap[ptr].contents is Some,
        ptr != 0 && heap.contains_key(ptr) ==> (heap[ptr].contents matches Some(w) ==> type_at(
            heap,
            ptr,
        ) == Some(w.header.type_id)),
{
}

/// Writing to a pointer leaves every other block as it was.
pub proof fn lemma_write_keeps_other_blocks(
    heap: Map<usize, Block>,
    ptr: usize,
    size: usize,
    id: TypeId,
    drop_fn: DropFn,
    payload: ManuallyDrop<Erased>,
    other: usize,
)
    requires
        other != ptr,
    ensures
        ({
            let after = with_value(heap, ptr, size, id, drop_fn, payload);
            &&& after.contains_key(other) == heap.contains_key(other)
            &&& heap.contains_key(other) ==> after[other] == heap[other]
        }),
{
}

/// Of two values that were placed at a pointer one after the other, only the
/// later one is left.
pub proof fn lemma_write_replaces_value(
    heap: Map<usize, Block>,
    ptr: usize,
    size: usize,
    first_id: TypeId,
    first: ManuallyDrop<Erased>,
    later_id: TypeId,
    later: ManuallyDrop<Erased>,
)
    ensures
        with_value(
            with_value(heap, ptr, size, first_id, DropFn::DropInPlace, first),
            ptr,
            size,
            later_id,
            DropFn::DropInPlace,
            later,
        ) == with_value(heap, ptr, size, later_id, DropFn::DropInPlace, later),
{
    assert(with_value(
        with_value(heap, ptr, size, first_id, DropFn::DropInPlace, first),
        ptr,
        size,
        later_id,
        DropFn::DropInPlace,
        later,
    ) =~= with_value(heap, ptr, size, later_id, DropFn::DropInPlace, later));
}

/// Dropping a value leaves every other block as it was.
pub proof fn lemma_drop_keeps_other_blocks(heap: Map<usize, Block>, ptr: usize, other: usize)
    requires
        null_or_live(heap, ptr),
        other != ptr,
    ensures
        without_value(heap, ptr).contains_key(other) == heap.contains_key(other),
        heap.contains_key(other) ==> without_value(heap, ptr)[other] == heap[other],
{
}

/// A dropped value is gone, so it cannot be dropped again. Its memory is freed
/// with it if the value owned it, and stays allocated, at the same size, if it
/// belongs to the garbage collector.
pub proof fn lemma_drop_ends_value(heap: Map<usize, Block>, ptr: usize)
    requires
        ptr != 0,
        is_live(heap, ptr),
    ensures
        !null_or_live(without_value(heap, ptr), ptr),
        header_at(heap, ptr).drop_fn == DropFn::FreeBox
            <==> !without_value(heap, ptr).contains_key(ptr),
        header_at(heap, ptr).drop_fn == DropFn::DropInPlace ==> {
            &&& is_uninit(without_value(heap, ptr), ptr)
            &&& without_value(heap, ptr)[ptr].size == heap[ptr].size
        },
        match heap[ptr].contents->0.header.drop_fn {
            DropFn::FreeBox => !without_value(heap, ptr).contains_key(ptr),
            DropFn::DropInPlace => {
                &&& without_value(heap, ptr).contains_key(ptr)
                &&& without_value(heap, ptr)[ptr].contents is None
            },
        },
{
}

/// Dropping a value that was given memory of its own leaves the heap as it was
/// before the value was moved there.
pub proof fn lemma_drop_undoes_into_raw(
    heap: Map<usize, Block>,
    ptr: usize,
    size: usize,
    id: TypeId,
    payload: ManuallyDrop<Erased>,
)
    requires
        ptr != 0,
        !heap.contains_key(ptr),
    ensures
        without_value(with_value(heap, ptr, size, id, DropFn::FreeBox, payload), ptr) == heap,
{
    assert(without_value(with_value(heap, ptr, size, id, DropFn::FreeBox, payload), ptr) =~= heap);
}

/// Dropping a value that was placed into uninitialized GC memory leaves the heap
/// as it was before the value was placed there.
pub proof fn lemma_drop_undoes_placement(
    heap: Map<usize, Block>,
    ptr: usize,
    id: TypeId,
    payload: ManuallyDrop<Erased>,
)
    requires
        ptr != 0,
        is_uninit(heap, ptr),
    ensures
        without_value(
            with_value(heap, ptr, heap[ptr].size, id, DropFn::DropInPlace, payload),
            ptr,
        ) == heap,
{
    assert(without_value(
        with_value(heap, ptr, heap[ptr].size, id, DropFn::DropInPlace, payload),
        ptr,
    ) =~= heap);
}

} // verus!
