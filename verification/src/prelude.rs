//! What most users of panes want in scope.

pub use crate::color;
pub use crate::format::{Justification, TextFormat};
pub use crate::math::{Rectangle, Scalar, Vector2};
pub use crate::orientation::Orientation;
pub use crate::pane::{Contents, Pane};
