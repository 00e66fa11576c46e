use mluau_types::{Erased, ErasedHeader, ErasedHeap, Lua, RawLua, TypeKey, TypedRef};
use std::any::TypeId;
use std::cell::Cell;
use std::rc::Rc;
use std::sync::Arc;

fn boxed<T: 'static>(heap: &mut ErasedHeap, value: T) -> usize {
    assert!(heap.has_room(ErasedHeader::wrapper_size::<T>(), ErasedHeader::wrapper_align::<T>()));
    ErasedHeader::into_raw(heap, value)
}

fn gc_memory<T: 'static>(heap: &mut ErasedHeap) -> usize {
    let (size, align) = (ErasedHeader::wrapper_size::<T>(), ErasedHeader::wrapper_align::<T>());
    assert!(heap.has_room(size, align));
    heap.gc_allocate(size, align)
}

fn placed<T: 'static>(heap: &mut ErasedHeap, value: T) -> usize {
    let ptr = gc_memory::<T>(heap);
    ErasedHeader::place_into_gc_memory(heap, ptr, value);
    ptr
}

fn read<T: 'static>(heap: &ErasedHeap, ptr: usize) -> Option<&T> {
    ErasedHeader::downcast_ref::<T>(heap, ptr)
}

struct UserData1(i64);
struct UserData2(Box<i64>);

struct CountsDrops {
    magic: u64,
    drops: Rc<Cell<usize>>,
}

impl Drop for CountsDrops {
    fn drop(&mut self) {
        assert_eq!(self.magic, 0x1111_2222_3333_4444);
        self.drops.set(self.drops.get() + 1);
    }
}

fn counting(drops: &Rc<Cell<usize>>) -> CountsDrops {
    CountsDrops { magic: 0x1111_2222_3333_4444, drops: drops.clone() }
}

struct Ud(i32);

#[test]
fn test_userdata() {
    let mut heap = ErasedHeap::new();
    let userdata1 = placed(&mut heap, UserData1(1));
    let userdata2 = placed(&mut heap, UserData2(Box::new(2)));

    assert_eq!(read::<UserData1>(&heap, userdata1).unwrap().0, 1);
    assert_eq!(*read::<UserData2>(&heap, userdata2).unwrap().0, 2);
    assert!(read::<UserData2>(&heap, userdata1).is_none());
    assert!(read::<UserData1>(&heap, userdata2).is_none());

    let userdata1 = placed(&mut heap, 1292);
    assert_eq!(*read::<i32>(&heap, userdata1).unwrap(), 1292);

    let my_ud = placed(&mut heap, Ud(128));
    assert_eq!(read::<Ud>(&heap, my_ud).unwrap().0, 128);
    assert_eq!(read::<Ud>(&heap, my_ud).map(|data| data.0 + 1), Some(129));
}

#[test]
fn boxed_values_are_read_back_as_written() {
    let mut heap = ErasedHeap::new();
    let p1 = boxed(&mut heap, UserData1(1));
    let p2 = boxed(&mut heap, UserData2(Box::new(2)));
    assert_eq!(read::<UserData1>(&heap, p1).unwrap().0, 1);
    assert_eq!(*read::<UserData2>(&heap, p2).unwrap().0, 2);
}

#[test]
fn another_type_reads_nothing() {
    let mut heap = ErasedHeap::new();
    let p1 = boxed(&mut heap, UserData1(1));
    let p2 = placed(&mut heap, 1292i32);
    assert!(read::<UserData2>(&heap, p1).is_none());
    assert!(read::<i64>(&heap, p1).is_none());
    assert!(read::<u32>(&heap, p2).is_none());
    assert!(read::<UserData1>(&heap, p2).is_none());
}

trait Reads<'a> {
    fn read(&self, text: &'a str) -> usize;
}

struct Length;

impl<'a> Reads<'a> for Length {
    fn read(&self, text: &'a str) -> usize {
        text.len()
    }
}

#[test]
fn types_that_differ_in_lifetimes_are_other_types() {
    let mut heap = ErasedHeap::new();
    let reader: Box<dyn for<'a> Reads<'a>> = Box::new(Length);
    let ptr = boxed(&mut heap, reader);
    assert!(read::<Box<dyn Reads<'static>>>(&heap, ptr).is_none());
    assert_eq!(read::<Box<dyn for<'a> Reads<'a>>>(&heap, ptr).unwrap().read("abc"), 3);
}

#[test]
fn keys_read_what_they_wrote() {
    let mut heap = ErasedHeap::new();
    let (numbers, texts) = (TypeKey::<u64>::new(), TypeKey::<&'static str>::new());
    assert_eq!(numbers.type_id(), TypeId::of::<u64>());
    let p = ErasedHeader::into_raw_keyed(&mut heap, 7u64, &numbers);
    let q = gc_memory::<&'static str>(&mut heap);
    ErasedHeader::place_into_gc_memory_keyed(&mut heap, q, "hello", &texts);
    assert_eq!(ErasedHeader::downcast_ref_keyed(&heap, p, &TypeKey::<u64>::new()), Some(&7));
    assert_eq!(ErasedHeader::downcast_ref_keyed(&heap, q, &texts), Some(&"hello"));
    assert_eq!(ErasedHeader::downcast_ref_keyed(&heap, p, &texts), None);
    assert_eq!(ErasedHeader::downcast_ref_keyed(&heap, q, &numbers), None);
    let payload: &Erased = &heap.block(p).contents.as_ref().unwrap().data;
    assert_eq!(payload.peek(&numbers), Some(&7));
    assert_eq!(payload.peek(&texts), None);
}

#[test]
fn reads_show_the_same_place() {
    let mut heap = ErasedHeap::new();
    let ptr = placed(&mut heap, 5u64);
    let first = std::ptr::from_ref(read::<u64>(&heap, ptr).unwrap()).addr();
    assert!(read::<u8>(&heap, ptr).is_none());
    let other = boxed(&mut heap, 6u64);
    assert_eq!(std::ptr::from_ref(read::<u64>(&heap, ptr).unwrap()).addr(), first);
    assert_ne!(std::ptr::from_ref(read::<u64>(&heap, other).unwrap()).addr(), first);
}

#[test]
fn type_id_is_that_of_the_value() {
    let mut heap = ErasedHeap::new();
    let p1 = boxed(&mut heap, 5u8);
    let p2 = placed(&mut heap, "hello");
    assert_eq!(ErasedHeader::type_id(&heap, p1), Some(TypeId::of::<u8>()));
    assert_eq!(ErasedHeader::type_id(&heap, p2), Some(TypeId::of::<&'static str>()));
}

#[test]
fn null_is_nothing() {
    let mut heap = ErasedHeap::new();
    let ptr = boxed(&mut heap, 5u8);
    assert_ne!(ptr, 0);
    assert_eq!(ErasedHeader::type_id(&heap, 0), None);
    assert!(read::<u8>(&heap, 0).is_none());
    ErasedHeader::drop(&mut heap, 0);
    assert_eq!(*read::<u8>(&heap, ptr).unwrap(), 5);
}

#[test]
fn wrapper_size_is_padded_header_and_value() {
    let header = std::mem::size_of::<ErasedHeader>();
    assert_eq!(std::mem::align_of::<ErasedHeader>(), 8);
    assert_eq!(header, 24);
    assert_eq!(ErasedHeader::wrapper_size::<()>(), 24);
    assert_eq!(ErasedHeader::wrapper_size::<u8>(), 32);
    assert_eq!(ErasedHeader::wrapper_size::<u64>(), 32);
    assert_eq!(ErasedHeader::wrapper_size::<[u8; 9]>(), 40);
    assert_eq!(std::mem::align_of::<u128>(), 16);
    assert_eq!(ErasedHeader::wrapper_size::<u128>(), 48);
    assert_eq!(ErasedHeader::wrapper_align::<u8>(), 8);
    assert_eq!(ErasedHeader::wrapper_align::<u128>(), 16);
}

#[test]
fn blocks_are_aligned_and_apart() {
    let mut heap = ErasedHeap::new();
    let mut blocks: Vec<(usize, usize)> = Vec::new();
    for i in 0..20u8 {
        let p = boxed(&mut heap, i);
        blocks.push((p, ErasedHeader::wrapper_size::<u8>()));
        assert_eq!(p % 8, 0);
        let q = boxed(&mut heap, 1u128);
        blocks.push((q, ErasedHeader::wrapper_size::<u128>()));
        assert_eq!(q % 16, 0);
        let r = placed(&mut heap, ());
        blocks.push((r, ErasedHeader::wrapper_size::<()>()));
        assert_ne!(p * q * r, 0);
    }
    for i in 0..blocks.len() {
        for j in 0..i {
            let ((p, n), (q, m)) = (blocks[i], blocks[j]);
            assert!(p + n <= q || q + m <= p);
        }
    }
}

#[test]
fn freed_memory_is_used_again() {
    let mut heap = ErasedHeap::new();
    let p = boxed(&mut heap, 1u64);
    let q = boxed(&mut heap, 2u64);
    ErasedHeader::drop(&mut heap, p);
    assert_eq!(boxed(&mut heap, 3u64), p);
    assert_eq!(*read::<u64>(&heap, p).unwrap(), 3);
    assert_eq!(*read::<u64>(&heap, q).unwrap(), 2);
}

#[test]
fn room_ends_with_the_address_space() {
    let mut heap = ErasedHeap::new();
    assert!(!heap.has_room(usize::MAX, 1));
    assert!(heap.has_room(usize::MAX - 1, 1));
    let all = heap.gc_allocate(usize::MAX - 1, 1);
    assert_eq!(all, 1);
    assert!(!heap.has_room(0, 1));
    heap.gc_free(all);
    assert!(heap.has_room(0, 1));
    let p = heap.gc_allocate(0, 4);
    let q = heap.gc_allocate(0, 4);
    assert_eq!((p, q), (4, 8));
}

#[test]
fn every_value_is_dropped_once() {
    let drops = Rc::new(Cell::new(0));
    let mut heap = ErasedHeap::new();
    let mut pointers: Vec<usize> = Vec::new();
    for _ in 0..50 {
        pointers.push(boxed(&mut heap, counting(&drops)));
        pointers.push(placed(&mut heap, counting(&drops)));
    }
    assert_eq!(drops.get(), 0);
    for i in 0..pointers.len() {
        ErasedHeader::drop(&mut heap, pointers[i]);
        assert_eq!(drops.get(), i + 1);
        for ptr in &pointers[i + 1..] {
            assert_eq!(read::<CountsDrops>(&heap, *ptr).unwrap().magic, 0x1111_2222_3333_4444);
        }
    }
    drop(heap);
    assert_eq!(drops.get(), 100);
}

#[test]
fn values_are_not_dropped_with_the_heap() {
    let drops = Rc::new(Cell::new(0));
    let mut heap = ErasedHeap::new();
    boxed(&mut heap, counting(&drops));
    placed(&mut heap, counting(&drops));
    drop(heap);
    assert_eq!(drops.get(), 0);
    assert_eq!(Rc::strong_count(&drops), 3);
}

#[test]
fn gc_memory_outlives_its_value() {
    let mut heap = ErasedHeap::new();
    let ptr = placed(&mut heap, 1u32);
    ErasedHeader::drop(&mut heap, ptr);
    ErasedHeader::place_into_gc_memory(&mut heap, ptr, -7i32);
    assert_eq!(*read::<i32>(&heap, ptr).unwrap(), -7);
    assert!(read::<u32>(&heap, ptr).is_none());
    ErasedHeader::drop(&mut heap, ptr);
    heap.gc_free(ptr);
    let other = boxed(&mut heap, 2u32);
    assert_eq!(*read::<u32>(&heap, other).unwrap(), 2);
}

#[test]
fn placing_over_a_value_does_not_drop_it() {
    let drops = Rc::new(Cell::new(0));
    let mut heap = ErasedHeap::new();
    let ptr = placed(&mut heap, counting(&drops));
    ErasedHeader::place_into_gc_memory(&mut heap, ptr, 5u16);
    assert_eq!(drops.get(), 0);
    assert_eq!(ErasedHeader::type_id(&heap, ptr), Some(TypeId::of::<u16>()));
    assert_eq!(*read::<u16>(&heap, ptr).unwrap(), 5);
    assert!(read::<CountsDrops>(&heap, ptr).is_none());
    ErasedHeader::drop(&mut heap, ptr);
    assert_eq!(drops.get(), 0);
}

#[test]
fn read_values_go_into_typed_refs() {
    let mut heap = ErasedHeap::new();
    let ptr = boxed(&mut heap, UserData1(42));
    let lua = Rc::new(RawLua::new(Lua { main_state: 1 }));
    let r: TypedRef<UserData1, usize, 0> =
        TypedRef::new_opt(lua.clone(), read::<UserData1>(&heap, ptr), ptr).unwrap();
    assert_eq!(r.0, 42);
    assert_eq!(*r.backer(), ptr);
    let none: Option<TypedRef<i64, usize, 0>> =
        TypedRef::new_opt(lua.clone(), read::<i64>(&heap, ptr), ptr);
    assert!(none.is_none());
    assert_eq!(Rc::strong_count(&lua), 2);
}

#[test]
fn test_nested_userdata_gc() {
    let mut heap = ErasedHeap::new();

    let counter = Arc::new(());
    let arr = vec![placed(&mut heap, counter.clone())];
    let arr_ud = placed(&mut heap, arr);

    assert_eq!(Arc::strong_count(&counter), 2);
    let inner = read::<Vec<usize>>(&heap, arr_ud).unwrap().clone();
    // First the array is destroyed, then the userdata in it
    ErasedHeader::drop(&mut heap, arr_ud);
    assert_eq!(Arc::strong_count(&counter), 2);
    for ptr in inner {
        ErasedHeader::drop(&mut heap, ptr);
    }
    assert_eq!(Arc::strong_count(&counter), 1);
}
