//! Identifiers of types, tied to the types they identify.

use std::any::TypeId;
use std::marker::PhantomData;
use vstd::prelude::*;

verus! {

/// `std::any::TypeId`, carried through as it is.
#[verifier::external_type_specification]
#[verifier::external_body]
pub struct ExTypeId(TypeId);

/// `std::any::TypeId::of`. Nothing is claimed of what it returns.
///
/// In particular it is not claimed that it returns one identifier for a type as
/// a specification sees it: specifications do not see lifetimes, and two types
/// that differ in a higher-ranked lifetime alone have different identifiers.
/// That different types have different identifiers is not claimed either: a
/// specification cannot compare two types.
pub assume_specification<T: ?Sized + 'static>[ TypeId::of::<T> ]() -> (id: TypeId);

/// Calls `==` of `std::any::TypeId`.
///
/// Claimed without proof: it holds exactly between equal identifiers.
#[verifier::external_body]
pub(crate) fn same_type_id(a: &TypeId, b: &TypeId) -> (same: bool)
    ensures
        same == (*a == *b),
{
    *a == *b
}

/// The identifier of the type `T`.
///
/// [`TypeKey::new`] is the only way to make a key, and a key of one type cannot
/// be turned into a key of another one, not even of a subtype. So a `TypeKey<T>`
/// always holds what `TypeId::of::<T>()` returns.
pub struct TypeKey<T: 'static> {
    id: TypeId,
    of: PhantomData<&'static mut T>,
}

impl<T: 'static> TypeKey<T> {
    /// The identifier that the key holds.
    pub closed spec fn id(self) -> TypeId {
        self.id
    }

    /// The key of `T`.
    pub fn new() -> (key: Self)
        ensures
            call_ensures(TypeId::of::<T>, (), key.id()),
    {
        TypeKey { id: TypeId::of::<T>(), of: PhantomData }
    }

    /// The identifier that the key holds.
    pub fn type_id(&self) -> (id: TypeId)
        ensures
            id == self.id(),
    {
        self.id
    }
}

} // verus!
