//! A guard around a sponge: a session declares the absorb and squeeze calls
//! it is going to make, and every call is held against what is still owed.

pub mod error;
pub mod laws;
pub mod pattern;
mod private;
pub mod sponge;
pub mod traits;

pub use crate::error::Error;
pub use crate::pattern::{IOPattern, SpongeOp, Word};
pub use crate::sponge::{ExtraSponge, Refused, SpongeAPI};
pub use crate::traits::{ToIOPattern, ToSpongeOp};
