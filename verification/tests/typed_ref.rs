use mluau_types::typed_ref::address_of;
use mluau_types::{DataPtr, Lua, RawLua, TypedRef, UnbackedTypedRef, ValueRef};
use std::rc::Rc;

type StrRef<'a> = TypedRef<'a, &'static str, u32, 127>;

fn vm(main_state: usize) -> Rc<RawLua> {
    Rc::new(RawLua::new(Lua { main_state }))
}

/// Has one impl for every type, and a second one for every type that is `Send`:
/// `not_send` is ambiguous for those, and naming it does not compile.
trait NotSend<A> {
    fn not_send() -> bool {
        true
    }
}

struct IsSend;

impl<T: ?Sized> NotSend<()> for T {}
impl<T: ?Sized + Send> NotSend<IsSend> for T {}

#[test]
fn value_refs_stay_on_their_thread() {
    assert!(<ValueRef as NotSend<_>>::not_send());
}

#[test]
fn test_userdata_pointer() {
    let lua = vm(1);
    let (first, second) = (Box::new("hello"), Box::new("hello"));
    let ud1 = StrRef::new_opt(lua.clone(), Some(&*first), 0).unwrap();
    let ud2 = StrRef::new_opt(lua, Some(&*second), 0).unwrap();

    assert!(ud1 == ud1.clone());
    // Different userdata objects with the same value should have different pointers
    assert!(ud1 != ud2);
    assert_eq!(*ud1, *ud2);
}

#[test]
fn references_to_one_value_are_equal() {
    let value = "hello";
    let a = StrRef::new_opt(vm(1), Some(&value), 1).unwrap();
    let b = StrRef::new_opt(vm(1), Some(&value), 1).unwrap();
    assert!(a == b);
}

#[test]
fn equality_asks_for_equal_backers() {
    let value = "hello";
    let ptr = DataPtr::from(&value);
    let a = StrRef::new(vm(1), ptr, 1);
    let b = StrRef::new(vm(1), ptr, 2);
    let c = StrRef::new(vm(2), ptr, 1);
    assert!(a != b);
    assert!(a == c);
}

#[test]
fn equality_is_an_equivalence() {
    let value = "hello";
    let ptr = DataPtr::from(&value);
    let a = StrRef::new(vm(1), ptr, 1);
    let b = StrRef::new(vm(1), ptr, 1);
    let c = StrRef::new(vm(1), ptr, 1);
    assert!(a == a);
    assert!(a == b && b == a);
    assert!(b == c && a == c);
}

#[test]
fn data_ptr_is_the_address_of_its_target() {
    let target = 5u64;
    let ptr = DataPtr::from(&target);
    assert_eq!(ptr.address(), std::ptr::from_ref(&target).addr());
    assert_eq!(ptr.address(), address_of(&target));
    assert_eq!(ptr.address() % std::mem::align_of::<u64>(), 0);
    assert_eq!(ptr.clone().address(), ptr.address());
    assert_eq!(std::ptr::from_ref(ptr.as_ref()).addr(), ptr.address());
    assert_eq!(*ptr.clone().as_ref(), 5);
}

#[test]
fn data_ptr_to_nothing_sized_is_not_null() {
    assert_ne!(DataPtr::from(&()).address(), 0);
}

#[test]
fn typed_ref_gives_what_it_was_made_of() {
    let lua = vm(77);
    let value = 128;
    let r: TypedRef<i32, String, 55> =
        TypedRef::new_opt(lua.clone(), Some(&value), String::from("backer")).unwrap();
    assert_eq!(*r, 128);
    assert_eq!(std::ptr::from_ref(&*r).addr(), std::ptr::from_ref(&value).addr());
    assert_eq!(r.backer(), "backer");
    assert_eq!(r.lua().main_state, 77);
    assert_eq!(Rc::strong_count(&lua), 2);
    assert_eq!(r.into_backer(), "backer");
    assert_eq!(Rc::strong_count(&lua), 1);
}

#[test]
fn typed_ref_of_nothing_is_none() {
    let (lua, backer) = (vm(1), Rc::new(3));
    let r: Option<TypedRef<i32, Rc<i32>, 55>> = TypedRef::new_opt(lua.clone(), None, backer.clone());
    assert!(r.is_none());
    assert_eq!(Rc::strong_count(&lua), 1);
    assert_eq!(Rc::strong_count(&backer), 1);
}

#[test]
fn clone_shares_value_and_vm() {
    let (lua, backer) = (vm(9), Rc::new(3));
    let value = 128;
    let r: TypedRef<i32, Rc<i32>, 55> =
        TypedRef::new_opt(lua.clone(), Some(&value), backer.clone()).unwrap();
    assert_eq!(Rc::strong_count(&lua), 2);
    let copy = r.clone();
    assert_eq!(*copy, 128);
    assert_eq!(**copy.backer(), 3);
    assert_eq!(copy.lua().main_state, 9);
    assert_eq!(Rc::strong_count(&lua), 3);
    assert_eq!(Rc::strong_count(&backer), 3);
    drop(r);
    assert_eq!(*copy, 128);
    assert_eq!(Rc::strong_count(&lua), 2);
}

#[test]
fn unbacked_ref_gives_what_it_was_made_of() {
    let lua = vm(12);
    let vref = ValueRef { lua: vm(12), index: 4 };
    let value = String::from("value");
    let r = UnbackedTypedRef::new(lua.clone(), &value, &vref);
    assert_eq!(*r, "value");
    assert_eq!(r.lua().main_state, 12);
    assert_eq!(Rc::strong_count(&lua), 2);
    let s = UnbackedTypedRef::new_opt(lua.clone(), Some(&value), &vref).unwrap();
    assert_eq!(s.len(), 5);
    assert_eq!(s.lua().main_state, 12);
}

#[test]
fn unbacked_ref_of_nothing_is_none() {
    let vref = ValueRef { lua: vm(1), index: 4 };
    let lua = vm(1);
    assert!(UnbackedTypedRef::<u8>::new_opt(lua.clone(), None, &vref).is_none());
    assert_eq!(Rc::strong_count(&lua), 1);
}
