//! Colors, and a few of them by name.
//!
//! A color is its red, green, blue and alpha channels, each from 0 to 255.
//! Layout never looks inside one: colors ride along to whoever draws.

use vstd::prelude::*;

verus! {

/// A color: red, green, blue and alpha, each from 0 to 255.
pub type Color = [u8; 4];

/// Red
pub const RED: Color = [255, 0, 0, 255];

/// Orange
pub const ORANGE: Color = [255, 128, 0, 255];

/// Yellow
pub const YELLOW: Color = [255, 255, 0, 255];

/// Green
pub const GREEN: Color = [0, 255, 0, 255];

/// Cyan
pub const CYAN: Color = [0, 255, 255, 255];

/// Blue
pub const BLUE: Color = [0, 0, 255, 255];

/// Purple
pub const PURPLE: Color = [128, 0, 128, 255];

/// Magenta
pub const MAGENTA: Color = [255, 0, 255, 255];

/// Black
pub const BLACK: Color = [0, 0, 0, 255];

/// Gray (the same as `GREY`)
pub const GRAY: Color = [128, 128, 128, 255];

/// Grey (the same as `GRAY`)
pub const GREY: Color = [128, 128, 128, 255];

/// White
pub const WHITE: Color = [255, 255, 255, 255];

/// Transparent
pub const TRANSPARENT: Color = [0, 0, 0, 0];

} // verus!
