//! Values whose type was taken off.

use crate::type_key::TypeKey;
use std::any::{Any, TypeId};
use vstd::prelude::*;

verus! {

/// A value of any type, with its type taken off: a `Box<dyn std::any::Any>`,
/// which nothing but the functions below looks into.
#[verifier::external_body]
pub struct Erased {
    inner: Box<dyn Any>,
}

/// The identifier of the type of the value in `erased`, which
/// `std::any::Any::type_id` returns.
pub uninterp spec fn type_of(erased: Erased) -> TypeId;

impl Erased {
    /// Whether `erased` holds `value`, a value of the type with the identifier
    /// `id`: looking into it at that type shows `value` or nothing.
    pub open spec fn holds<T: 'static>(self, id: TypeId, value: T) -> bool {
        &&& type_of(self) == id
        &&& forall|key: TypeKey<T>, seen: Option<&T>| #[trigger]
            call_ensures(Erased::peek::<T>, (&self, &key), seen) ==> (seen matches Some(v) ==> *v
                == value)
    }

    /// Takes the type off `value`: calls `Box::new`, and makes the box one of
    /// `dyn std::any::Any`.
    ///
    /// Claimed without proof: the type of the value in the box is the one that
    /// `key` is the key of, and what [`Erased::peek`] shows of it is `value`.
    #[verifier::external_body]
    pub(crate) fn put<T: 'static>(value: T, key: &TypeKey<T>) -> (erased: Erased)
        ensures
            erased.holds(key.id(), value),
    {
        Erased { inner: Box::new(value) }
    }

    /// Puts the type `T` back on the value: calls `downcast_ref` of
    /// `dyn std::any::Any`.
    ///
    /// Claimed without proof: it shows the value if the identifier of its type is
    /// that of `T`, which every `TypeKey<T>` holds, and nothing otherwise.
    #[verifier::external_body]
    pub fn peek<T: 'static>(&self, key: &TypeKey<T>) -> (seen: Option<&T>)
        ensures
            seen is Some <==> type_of(*self) == key.id(),
    {
        self.inner.downcast_ref::<T>()
    }
}

} // verus!
