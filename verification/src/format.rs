//! How a piece of text wants to be set: its size, alignment, spacing,
//! indentation and color, and whether fitting may change its size.

use vstd::prelude::*;
use crate::color::Color;
use crate::math::{converted, converts, Scalar};

verus! {

/// How lines of text are aligned between the left and right edge.
#[derive(Debug, Clone, Copy, PartialEq, Eq, PartialOrd, Ord, Hash)]
pub enum Justification {
    /// Each line begins at the left edge.
    Left,
    /// Each line is centered between the edges.
    Centered,
    /// Each line ends at the right edge.
    Right,
}

/// What fitting text into a rectangle may do to its font size.
#[derive(Debug, Clone, Copy, PartialEq, Eq, PartialOrd, Ord, Hash)]
pub enum Resize {
    /// Shrink the text to fit, but never make it larger than it was.
    NoLarger,
    /// Take whatever size fitting arrives at.
    Max,
    /// Leave the size alone.
    Never,
}

/// A format for some text.
#[derive(Debug, Clone, Copy, PartialEq)]
pub struct TextFormat<S: Scalar> {
    /// The font size.
    pub font_size: u32,
    /// The horizontal justification.
    pub just: Justification,
    /// The distance from one baseline to the next, as a multiple of the font
    /// size. Usually between one and two, but any scalar is taken.
    pub line_spacing: S,
    /// The number of spaces that indent the first line of the text.
    pub first_line_indent: usize,
    /// The number of spaces that indent every line after the first.
    pub lines_indent: usize,
    /// The color of the text.
    pub color: Color,
    /// What fitting may do to the font size.
    pub resize: Resize,
}

impl<S: Scalar> TextFormat<S> {
    /// Make a format of the given font size: left-aligned, single-spaced,
    /// without indentation, black, and not to be enlarged by fitting.
    pub fn new(font_size: u32) -> (format: Self)
        ensures
            format == (TextFormat {
                font_size,
                just: Justification::Left,
                line_spacing: S::ONE,
                first_line_indent: 0,
                lines_indent: 0,
                color: [0u8, 0u8, 0u8, 255u8],
                resize: Resize::NoLarger,
            }),
    {
        TextFormat {
            font_size,
            just: Justification::Left,
            line_spacing: S::ONE,
            first_line_indent: 0,
            lines_indent: 0,
            color: [0, 0, 0, 255],
            resize: Resize::NoLarger,
        }
    }

    /// Align to the left.
    pub fn left(self) -> (format: Self)
        ensures
            format == (TextFormat { just: Justification::Left, ..self }),
    {
        TextFormat { just: Justification::Left, ..self }
    }

    /// Center.
    pub fn centered(self) -> (format: Self)
        ensures
            format == (TextFormat { just: Justification::Centered, ..self }),
    {
        TextFormat { just: Justification::Centered, ..self }
    }

    /// Align to the right.
    pub fn right(self) -> (format: Self)
        ensures
            format == (TextFormat { just: Justification::Right, ..self }),
    {
        TextFormat { just: Justification::Right, ..self }
    }

    /// Set the font size.
    pub fn font_size(self, font_size: u32) -> (format: Self)
        ensures
            format == (TextFormat { font_size, ..self }),
    {
        TextFormat { font_size, ..self }
    }

    /// Set the line spacing.
    pub fn line_spacing(self, line_spacing: S) -> (format: Self)
        ensures
            format == (TextFormat { line_spacing, ..self }),
    {
        TextFormat { line_spacing, ..self }
    }

    /// The same format over another scalar type: the line spacing is
    /// converted, everything else is kept.
    pub fn map_line_spacing<U>(&self) -> (format: TextFormat<U>) where U: Scalar + From<S>
        ensures
            format.font_size == self.font_size,
            format.just == self.just,
            converts::<S, U>() ==> format.line_spacing == converted::<S, U>(self.line_spacing),
            format.first_line_indent == self.first_line_indent,
            format.lines_indent == self.lines_indent,
            format.color == self.color,
            format.resize == self.resize,
    {
        TextFormat {
            font_size: self.font_size,
            just: self.just,
            line_spacing: U::from(self.line_spacing),
            first_line_indent: self.first_line_indent,
            lines_indent: self.lines_indent,
            color: self.color,
            resize: self.resize,
        }
    }

    /// Set the indentation of the first line.
    pub fn first_line_indent(self, first_line_indent: usize) -> (format: Self)
        ensures
            format == (TextFormat { first_line_indent, ..self }),
    {
        TextFormat { first_line_indent, ..self }
    }

    /// Set the indentation of every line after the first.
    pub fn lines_indent(self, lines_indent: usize) -> (format: Self)
        ensures
            format == (TextFormat { lines_indent, ..self }),
    {
        TextFormat { lines_indent, ..self }
    }

    /// Set the color.
    pub fn color(self, color: Color) -> (format: Self)
        ensures
            format == (TextFormat { color, ..self }),
    {
        TextFormat { color, ..self }
    }

    /// Set what fitting may do to the font size.
    pub fn resize(self, resize: Resize) -> (format: Self)
        ensures
            format == (TextFormat { resize, ..self }),
    {
        TextFormat { resize, ..self }
    }

    /// The font size that fitting leaves this format with, given the
    /// largest size that fits.
    pub open spec fn resized_font_size(self, max_size: u32) -> u32 {
        match self.resize {
            Resize::NoLarger => if self.font_size <= max_size {
                self.font_size
            } else {
                max_size
            },
            Resize::Max => max_size,
            Resize::Never => self.font_size,
        }
    }

    /// Change the font size as the resize strategy says, given the largest
    /// size that fits: the smaller of the two for `NoLarger`, that size for
    /// `Max`, and no change for `Never`.
    pub fn resize_font(self, max_size: u32) -> (format: Self)
        ensures
            format == (TextFormat { font_size: self.resized_font_size(max_size), ..self }),
    {
        match self.resize {
            Resize::NoLarger => if self.font_size <= max_size {
                self
            } else {
                TextFormat { font_size: max_size, ..self }
            },
            Resize::Max => TextFormat { font_size: max_size, ..self },
            Resize::Never => self,
        }
    }
}

} // verus!
