//! A small native library: wrapping integer arithmetic, a factorial, and a
//! greeting whose text is handed to the caller as an owned, null-terminated
//! byte string that the caller later gives back for release.
use vstd::prelude::*;

pub mod arith;
pub mod greeting;
pub mod utf8_check;

pub use arith::{add, factorial, multiply};
pub use greeting::{free_string, greet, greet_in, Language, TransferredString};
pub use utf8_check::is_valid_utf8;

verus! {

} // verus!
