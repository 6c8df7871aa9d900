//! Rectangular panes that split into weighted children, and the text
//! metrics that decide where wrapped lines of text sit inside them.
//!
//! A [`Pane`] is a rectangle with a margin, an orientation and any number
//! of weighted children; whatever changes its geometry lays out all of its
//! descendants anew. A [`CharacterWidthCache`] measures characters, and on
//! top of it text is wrapped into lines, justified, and fitted into
//! rectangles by font size, width or height.
//!
//! Nothing here draws, reads fonts or knows a number type: scalars, vectors
//! and rectangles are traits in [`math`], and whoever draws brings them.

pub mod color;
pub mod format;
pub mod glyphs;
pub mod math;
pub mod orientation;
pub mod pane;
pub mod prelude;
pub mod rewrap;
pub mod text;
pub mod words;
pub mod wrap;

pub use crate::color::Color;
pub use crate::format::{Justification, Resize, TextFormat};
pub use crate::glyphs::Glyphs;
pub use crate::orientation::Orientation;
pub use crate::pane::{Contents, IndexError, NamedWeightedPane, Pane};
pub use crate::text::{CharacterWidthCache, PositionedLines, TextError, MIN_FONT_SIZE};
