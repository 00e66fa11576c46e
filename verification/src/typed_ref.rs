//! References to values of a known type that the Lua VM keeps alive.

use crate::state::{Lua, RawLua, ValueRef};
use std::ops::Deref;
use std::rc::Rc;
use vstd::prelude::*;
use vstd::std_specs::cmp::PartialEqSpec;

verus! {

/// Calls `std::ptr::NonNull::from` and takes the address of the pointer.
///
/// Claimed without proof: the address is not zero, and is one that a `T` may lie
/// on. Which address it is depends on where the value lies.
#[verifier::external_body]
pub fn address_of<T>(value: &T) -> (address: usize)
    ensures
        address != 0,
        address as nat % vstd::layout::align_of::<T>() == 0,
{
    std::ptr::NonNull::from(value).addr().get()
}

/// A non-null pointer to a value of type `T`.
pub struct DataPtr<'a, T> {
    address: usize,
    target: &'a T,
}

impl<'a, T> DataPtr<'a, T> {
    #[verifier::type_invariant]
    spec fn is_non_null(self) -> bool {
        self.address != 0
    }

    /// The address that the pointer holds.
    pub closed spec fn addr(self) -> usize {
        self.address
    }

    /// The value that the pointer points to.
    pub closed spec fn pointee(self) -> T {
        *self.target
    }

    /// The pointer to `target`: it holds the address that [`address_of`] gives of it.
    pub fn from(target: &'a T) -> (ptr: Self)
        ensures
            call_ensures(address_of::<T>, (target,), ptr.addr()),
            ptr.addr() != 0,
            ptr.pointee() == *target,
    {
        let address: usize = address_of(target);
        DataPtr { address, target }
    }

    /// The address that the pointer holds.
    pub fn address(&self) -> (address: usize)
        ensures
            address == self.addr(),
            address != 0,
    {
        proof {
            use_type_invariant(self);
        }
        self.address
    }

    /// The value that the pointer points to.
    pub fn as_ref(&self) -> (value: &'a T)
        ensures
            *value == self.pointee(),
    {
        self.target
    }
}

impl<'a, T> Clone for DataPtr<'a, T> {
    /// The same pointer again: neither the address nor the value is another one.
    fn clone(&self) -> (ptr: Self)
        ensures
            ptr == *self,
    {
        *self
    }
}

impl<'a, T> Copy for DataPtr<'a, T> {

}

/// A Luau-backed reference to a value of type `T` pinning both the Luau VM and
/// the backer it came from.
///
/// The reference lives no longer than `vref`, the Lua reference that keeps the
/// value alive. `L` is the strong reference that holds the VM alive. Wherever no
/// more is known of `L`, it is kept or given up, never duplicated.
pub struct UnbackedTypedRef<'a, T: 'static, L = Rc<RawLua>> {
    ud: &'a ValueRef,
    ptr: &'a T,
    // holds the VM alive
    lua: L,
}

impl<'a, T: 'static, L> UnbackedTypedRef<'a, T, L> {
    /// The value that is referred to.
    pub closed spec fn target(self) -> T {
        *self.ptr
    }

    /// The Lua reference that keeps the value alive.
    pub closed spec fn vref(self) -> ValueRef {
        *self.ud
    }

    /// The strong reference to the VM that the value belongs to.
    pub closed spec fn vm_ref(self) -> L {
        self.lua
    }

    /// The reference to `data`, which `vref` keeps alive.
    pub fn new(lua: L, data: &'a T, vref: &'a ValueRef) -> (r: Self)
        ensures
            r.target() == *data,
            r.vref() == *vref,
            r.vm_ref() == lua,
    {
        UnbackedTypedRef { lua, ptr: data, ud: vref }
    }

    /// The reference to `data`, if there is any.
    pub fn new_opt(lua: L, data: Option<&'a T>, vref: &'a ValueRef) -> (r: Option<Self>)
        ensures
            r is Some <==> data is Some,
            r matches Some(s) ==> {
                &&& s.target() == *data->0
                &&& s.vref() == *vref
                &&& s.vm_ref() == lua
            },
            data is None ==> call_ensures(core::mem::drop::<L>, (lua,), ()),
    {
        match data {
            Some(ptr) => Some(Self::new(lua, ptr, vref)),
            None => {
                core::mem::drop(lua);
                None
            },
        }
    }
}

impl<'a, T: 'static> UnbackedTypedRef<'a, T> {
    /// The VM that the value belongs to.
    pub open spec fn vm(self) -> RawLua {
        *self.vm_ref()
    }

    /// Returns a reference to the Lua reference backing `T`.
    pub fn lua(&self) -> (lua: &Lua)
        ensures
            *lua == self.vm().handle(),
        no_unwind
    {
        self.lua.lua()
    }
}

impl<'a, T: 'static, L> Deref for UnbackedTypedRef<'a, T, L> {
    type Target = T;

    fn deref(&self) -> (value: &T)
        ensures
            *value == self.target(),
    {
        self.ptr
    }
}

/// A Luau-backed reference to a value of type `T` pinning both the Luau VM and
/// the backer it came from.
///
/// The pointer to the value is cached: it is the one that was given when the
/// reference was made. `L` is the strong reference that holds the VM alive.
/// Wherever no more is known of `L`, it is kept or given up, never duplicated.
pub struct TypedRef<'a, T: 'static, Backer: 'static + Clone, const TAG: u32, L = Rc<RawLua>> {
    ud: Backer,
    // cached data ptr
    ptr: DataPtr<'a, T>,
    // holds the VM alive
    lua: L,
}

impl<'a, T: 'static, Backer: 'static + Clone, const TAG: u32, L> TypedRef<'a, T, Backer, TAG, L> {
    /// The backer that keeps the value alive.
    pub closed spec fn backed_by(self) -> Backer {
        self.ud
    }

    /// The pointer to the value.
    pub closed spec fn data(self) -> DataPtr<'a, T> {
        self.ptr
    }

    /// The value that is referred to.
    pub open spec fn target(self) -> T {
        self.data().pointee()
    }

    /// The strong reference to the VM that the value belongs to.
    pub closed spec fn vm_ref(self) -> L {
        self.lua
    }

    /// The reference to the value behind `data`, which `ud` keeps alive.
    pub fn new(lua: L, data: DataPtr<'a, T>, ud: Backer) -> (r: Self)
        ensures
            r.backed_by() == ud,
            r.data() == data,
            r.vm_ref() == lua,
    {
        TypedRef { lua, ptr: data, ud }
    }

    /// The reference to `data`, if there is any.
    pub fn new_opt(lua: L, data: Option<&'a T>, ud: Backer) -> (r: Option<Self>)
        ensures
            r is Some <==> data is Some,
            r matches Some(s) ==> {
                &&& s.backed_by() == ud
                &&& s.target() == *data->0
                &&& call_ensures(address_of::<T>, (data->0,), s.data().addr())
                &&& s.data().addr() != 0
                &&& s.vm_ref() == lua
            },
            data is None ==> {
                &&& call_ensures(core::mem::drop::<L>, (lua,), ())
                &&& call_ensures(core::mem::drop::<Backer>, (ud,), ())
            },
    {
        match data {
            Some(x) => Some(Self::new(lua, DataPtr::from(x), ud)),
            None => {
                core::mem::drop(lua);
                core::mem::drop(ud);
                None
            },
        }
    }

    /// Returns the backer that backs `T` consuming the TypedRef in the process.
    pub fn into_backer(self) -> (ud: Backer)
        ensures
            ud == self.backed_by(),
            call_ensures(core::mem::drop::<L>, (self.vm_ref(),), ()),
    {
        let TypedRef { ud, ptr: _, lua } = self;
        core::mem::drop(lua);
        ud
    }

    /// Returns a reference to the backer that backs `T`.
    pub fn backer(&self) -> (ud: &Backer)
        ensures
            *ud == self.backed_by(),
    {
        &self.ud
    }
}

impl<'a, T: 'static, Backer: 'static + Clone, const TAG: u32> TypedRef<'a, T, Backer, TAG> {
    /// The VM that the value belongs to.
    pub open spec fn vm(self) -> RawLua {
        *self.vm_ref()
    }

    /// Whether `copy` refers to the same place in the same VM as `self`, and is
    /// backed by a clone of its backer.
    pub open spec fn is_cloned_by(self, copy: Self) -> bool {
        &&& call_ensures(Backer::clone, (&self.backed_by(),), copy.backed_by())
        &&& copy.data() == self.data()
        &&& copy.vm() == self.vm()
    }

    /// Returns a reference to the Lua reference backing `T`.
    pub fn lua(&self) -> (lua: &Lua)
        ensures
            *lua == self.vm().handle(),
        no_unwind
    {
        self.lua.lua()
    }
}

impl<'a, T: 'static, Backer: 'static + Clone, const TAG: u32> Clone for TypedRef<'a, T, Backer, TAG> {
    fn clone(&self) -> (copy: Self)
        ensures
            self.is_cloned_by(copy),
    {
        TypedRef {
            // new valueref refcount
            ud: self.ud.clone(),
            // we can keep same ptr
            ptr: self.ptr,
            // one new vm ref
            lua: self.lua.clone(),
        }
    }
}

impl<'a, T: 'static, Backer: 'static + Clone + PartialEq, const TAG: u32, L> PartialEq
    for TypedRef<'a, T, Backer, TAG, L> {
    fn eq(&self, other: &Self) -> (same: bool)
        ensures
            same ==> {
                &&& call_ensures(Backer::ne, (&self.backed_by(), &other.backed_by()), false)
                &&& self.data().addr() == other.data().addr()
            },
            !same ==> {
                ||| call_ensures(Backer::ne, (&self.backed_by(), &other.backed_by()), true)
                ||| self.data().addr() != other.data().addr()
            },
    {
        if self.ud.ne(&other.ud) {
            return false;
        }
        self.ptr.address == other.ptr.address
    }
}

impl<'a, T: 'static, Backer: 'static + Clone + PartialEq, const TAG: u32, L>
    vstd::std_specs::cmp::PartialEqSpecImpl for TypedRef<'a, T, Backer, TAG, L> {
    open spec fn obeys_eq_spec() -> bool {
        Backer::obeys_eq_spec()
    }

    /// Two references are equal if their backers are, and they point to the same
    /// place. The values there play no part.
    open spec fn eq_spec(&self, other: &Self) -> bool {
        &&& self.backed_by().eq_spec(&other.backed_by())
        &&& self.data().addr() == other.data().addr()
    }
}

impl<'a, T: 'static, Backer: 'static + Clone, const TAG: u32, L> Deref
    for TypedRef<'a, T, Backer, TAG, L> {
    type Target = T;

    fn deref(&self) -> (value: &T)
        ensures
            *value == self.target(),
    {
        self.ptr.as_ref()
    }
}

/// A clone is equal to the reference it was made from if the clone of a backer
/// is equal to the backer, and it refers to the same value in the same VM.
pub proof fn lemma_clone_is_equal<'a, T: 'static, Backer: 'static + Clone + PartialEq, const TAG: u32>(
    source: TypedRef<'a, T, Backer, TAG>,
    copy: TypedRef<'a, T, Backer, TAG>,
)
    requires
        source.is_cloned_by(copy),
        forall|a: Backer, b: Backer| #[trigger]
            call_ensures(Backer::clone, (&a,), b) ==> b.eq_spec(&a),
    ensures
        copy.eq_spec(&source),
        copy.target() == source.target(),
        copy.vm() == source.vm(),
{
}

/// References to different places are not equal, even where the values there,
/// the backers and the VMs are.
pub proof fn lemma_different_places_differ<
    'a,
    T: 'static,
    Backer: 'static + Clone + PartialEq,
    const TAG: u32,
>(a: TypedRef<'a, T, Backer, TAG>, b: TypedRef<'a, T, Backer, TAG>)
    requires
        a.data().addr() != b.data().addr(),
    ensures
        !a.eq_spec(&b),
{
}

/// References to one place are equal exactly if their backers are.
pub proof fn lemma_same_place_is_equal<
    'a,
    T: 'static,
    Backer: 'static + Clone + PartialEq,
    const TAG: u32,
    L,
>(a: TypedRef<'a, T, Backer, TAG, L>, b: TypedRef<'a, T, Backer, TAG, L>)
    requires
        a.data().addr() == b.data().addr(),
    ensures
        a.eq_spec(&b) <==> a.backed_by().eq_spec(&b.backed_by()),
{
}

/// The strong reference that a typed reference is made of is the one that is
/// dropped when the typed reference is consumed, and the backer comes back.
pub proof fn lemma_into_backer_undoes_new<
    'a,
    T: 'static,
    Backer: 'static + Clone,
    const TAG: u32,
    L,
>(
    lua: L,
    data: DataPtr<'a, T>,
    ud: Backer,
    r: TypedRef<'a, T, Backer, TAG, L>,
    back: Backer,
)
    requires
        call_ensures(TypedRef::<'a, T, Backer, TAG, L>::new, (lua, data, ud), r),
        call_ensures(TypedRef::<'a, T, Backer, TAG, L>::into_backer, (r,), back),
    ensures
        back == ud,
        call_ensures(core::mem::drop::<L>, (lua,), ()),
{
}

/// The strong reference that is given for a value that may be missing is dropped:
/// at once, with the backer, if the value is missing, and otherwise when the typed
/// reference is consumed, which hands the backer back.
pub proof fn lemma_vm_reference_is_always_dropped<
    'a,
    T: 'static,
    Backer: 'static + Clone,
    const TAG: u32,
    L,
>(
    lua: L,
    data: Option<&'a T>,
    ud: Backer,
    r: Option<TypedRef<'a, T, Backer, TAG, L>>,
    back: Backer,
)
    requires
        call_ensures(TypedRef::<'a, T, Backer, TAG, L>::new_opt, (lua, data, ud), r),
        r matches Some(s) ==> call_ensures(
            TypedRef::<'a, T, Backer, TAG, L>::into_backer,
            (s,),
            back,
        ),
    ensures
        call_ensures(core::mem::drop::<L>, (lua,), ()),
        data is Some ==> back == ud,
        data is None ==> call_ensures(core::mem::drop::<Backer>, (ud,), ()),
{
}

/// A reference to a value gives that value, its backer and the handle to its VM
/// back.
pub proof fn lemma_reference_gives_back_its_parts<
    'a,
    T: 'static,
    Backer: 'static + Clone,
    const TAG: u32,
>(
    lua: Rc<RawLua>,
    data: &'a T,
    ud: Backer,
    r: TypedRef<'a, T, Backer, TAG>,
    value: &T,
    handle: &Lua,
    backer: &Backer,
)
    requires
        call_ensures(
            TypedRef::<'a, T, Backer, TAG>::new_opt,
            (lua, Some(data), ud),
            Some(r),
        ),
        call_ensures(TypedRef::<'a, T, Backer, TAG>::deref, (&r,), value),
        call_ensures(TypedRef::<'a, T, Backer, TAG>::lua, (&r,), handle),
        call_ensures(TypedRef::<'a, T, Backer, TAG>::backer, (&r,), backer),
    ensures
        *value == *data,
        *handle == lua.handle(),
        *backer == ud,
{
}

/// Equality of references is an equivalence if equality of backers is one.
pub proof fn lemma_eq_is_equivalence<
    'a,
    T: 'static,
    Backer: 'static + Clone + PartialEq,
    const TAG: u32,
>(a: TypedRef<'a, T, Backer, TAG>, b: TypedRef<'a, T, Backer, TAG>, c: TypedRef<'a, T, Backer, TAG>)
    requires
        forall|x: Backer| #[trigger] x.eq_spec(&x),
        forall|x: Backer, y: Backer| #[trigger] x.eq_spec(&y) ==> y.eq_spec(&x),
        forall|x: Backer, y: Backer, z: Backer| #[trigger]
            x.eq_spec(&y) && #[trigger] y.eq_spec(&z) ==> x.eq_spec(&z),
    ensures
        a.eq_spec(&a),
        a.eq_spec(&b) ==> b.eq_spec(&a),
        a.eq_spec(&b) && b.eq_spec(&c) ==> a.eq_spec(&c),
{
}

} // verus!
