//! The two ways to give a value up.

use vstd::prelude::*;

verus! {

/// `core::mem::drop`. Nothing is claimed of it: that it holds of a value and `()`
/// says that the value was handed to it, and so that its destructor was run.
pub assume_specification<T>[ core::mem::drop::<T> ](value: T);

/// `core::mem::forget`. Nothing is claimed of it: that it holds of a value and
/// `()` says that the value was handed to it, and so given up without its
/// destructor being run.
pub assume_specification<T>[ core::mem::forget::<T> ](value: T);

} // verus!
