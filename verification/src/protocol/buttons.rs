//! Stylus button flags carried in the `buttons` byte of pen and button events.
use vstd::prelude::*;

verus! {

pub const STYLUS_PRIMARY: u8 = 1;
pub const STYLUS_SECONDARY: u8 = 2;
pub const ERASER: u8 = 4;
pub const BARREL: u8 = 8;

} // verus!
