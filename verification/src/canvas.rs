//! Colors of the canvas.

use vstd::prelude::*;

verus! {

/// A color: red, green, blue and opacity.
#[derive(Clone, Copy, Debug, PartialEq, Eq, Structural)]
pub struct Color(pub u8, pub u8, pub u8, pub u8);

} // verus!
