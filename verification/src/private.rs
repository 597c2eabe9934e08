//! Keeps the traits of the type-level vocabulary closed.

use vstd::prelude::*;

verus! {

/// Implemented by the words and lists of this crate alone.
pub trait Sealed {

}

} // verus!
