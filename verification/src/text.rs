//! Measuring text, wrapping it into lines and fitting it into rectangles.

use vstd::prelude::*;
use crate::format::{Justification, TextFormat};
use crate::math::{abs_spec, height_of, left_of, max_spec, top_of, width_of};
use crate::math::{Rectangle, Scalar, Vector2, ZeroOneTwo};
use crate::words::{
    chars_of, split_lines, split_lines_spec, split_words, split_words_spec, string_of, string_views,
    views,
};
use crate::wrap::{measured_views, text_width, wrap_paragraph, wrap_words};

verus! {

/// Some words, each with its width at a font size.
pub open spec fn measure_words<S: Scalar>(
    w: spec_fn(char, u32) -> S,
    words: Seq<Seq<char>>,
    size: u32,
) -> Seq<(Seq<char>, S)> {
    Seq::new(words.len(), |i: int| (words[i], text_width(w, words[i], size)))
}

/// The lines that wrapping some paragraphs gives, one paragraph after the
/// other.
pub open spec fn wrap_paragraphs<S: Scalar>(
    w: spec_fn(char, u32) -> S,
    paragraphs: Seq<Seq<char>>,
    max_width: S,
    format: TextFormat<S>,
) -> Seq<Seq<char>>
    decreases paragraphs.len(),
{
    if paragraphs.len() == 0 {
        Seq::empty()
    } else {
        wrap_paragraph(
            wrap_paragraphs(w, paragraphs.drop_last(), max_width, format),
            measure_words(w, split_words_spec(paragraphs.last()), format.font_size),
            w(' ', format.font_size),
            max_width,
            format,
        )
    }
}

/// The lines that wrapping a text gives: each line of the text is a
/// paragraph, its words are measured, and the paragraphs are wrapped in
/// their order.
pub open spec fn wrap_text<S: Scalar>(
    w: spec_fn(char, u32) -> S,
    text: Seq<char>,
    max_width: S,
    format: TextFormat<S>,
) -> Seq<Seq<char>> {
    wrap_paragraphs(w, split_lines_spec(text), max_width, format)
}

/// Why a measurement or a fit has no answer.
#[derive(Debug, Clone, Copy, PartialEq, Eq)]
pub enum TextError {
    /// Two line widths compare neither as less, nor as equal, nor as
    /// greater, so no line is the widest.
    IncomparableScalar,
    /// The text fits at no font size from the format's own down to
    /// [`MIN_FONT_SIZE`].
    NoFit,
    /// A search moved the allowed number of steps and did not end.
    OutOfSteps,
}

/// The smallest font size that fitting tries.
pub const MIN_FONT_SIZE: u32 = 1;

/// Lines of text, each with the position at which it begins.
pub type PositionedLines<V> = Vec<(V, String)>;

/// An answer where there is one, and `IncomparableScalar` where there is
/// none.
pub open spec fn or_incomparable<T>(answer: Option<T>) -> Result<T, TextError> {
    match answer {
        Some(t) => Ok(t),
        None => Err(TextError::IncomparableScalar),
    }
}

/// Whether two scalars compare: one is less than the other, or they are
/// numerically equal.
pub open spec fn comparable<S: Scalar>(a: S, b: S) -> bool {
    a.lt_spec(b) || a.eq_spec(b) || b.lt_spec(a)
}

/// The widest of some widths, found from left to right: a width replaces
/// the widest so far unless it is less. Among equals the last wins, no
/// widths give zero, and there is no widest where a width does not compare
/// with the widest before it.
pub open spec fn widest<S: Scalar>(widths: Seq<S>) -> Option<S>
    decreases widths.len(),
{
    if widths.len() == 0 {
        Some(S::ZERO)
    } else if widths.len() == 1 {
        Some(widths[0])
    } else {
        match widest(widths.drop_last()) {
            None => None,
            Some(best) => if !comparable(best, widths.last()) {
                None
            } else if widths.last().lt_spec(best) {
                Some(best)
            } else {
                Some(widths.last())
            },
        }
    }
}

/// The widths of some lines at a font size.
pub open spec fn line_widths<S: Scalar>(
    w: spec_fn(char, u32) -> S,
    lines: Seq<Seq<char>>,
    size: u32,
) -> Seq<S> {
    Seq::new(lines.len(), |i: int| text_width(w, lines[i], size))
}

/// The width of the widest line that wrapping a text gives.
pub open spec fn max_line_width_spec<S: Scalar>(
    w: spec_fn(char, u32) -> S,
    text: Seq<char>,
    max_width: S,
    format: TextFormat<S>,
) -> Option<S> {
    widest(line_widths(w, wrap_text(w, text, max_width, format), format.font_size))
}

/// Where the baseline of line `index` lies below `top`: one font size down
/// for the first line, and for each further line the font size times the
/// line spacing more. The index counts as a `u32`.
pub open spec fn line_y<S: Scalar>(top: S, format: TextFormat<S>, index: int) -> S {
    top.add_spec(S::from_u32_spec(format.font_size)).add_spec(
        S::from_u32_spec(index as u32).mul_spec(S::from_u32_spec(format.font_size)).mul_spec(
            format.line_spacing,
        ),
    )
}

/// Where a line of width `line_width` begins between the edges of a
/// rectangle that begins at `left` and is `width` wide: at the left edge,
/// half its width left of the center, or its width left of the right edge.
pub open spec fn line_x<S: Scalar>(just: Justification, left: S, width: S, line_width: S) -> S {
    match just {
        Justification::Left => left,
        Justification::Centered => left.add_spec(width.div_spec(S::TWO)).sub_spec(
            line_width.div_spec(S::TWO),
        ),
        Justification::Right => left.add_spec(width).sub_spec(line_width),
    }
}

/// Whether a text fits a width: wrapped at that width, its widest line is
/// less than the width.
pub open spec fn fits_horizontal_at<S: Scalar>(
    w: spec_fn(char, u32) -> S,
    text: Seq<char>,
    width: S,
    format: TextFormat<S>,
) -> Option<bool> {
    match max_line_width_spec(w, text, width, format) {
        Some(widest) => Some(widest.lt_spec(width)),
        None => None,
    }
}

/// Whether a text fits a height: wrapped at the rectangle's width, the
/// baseline of its last line lies above the bottom edge. A text without
/// lines fits.
pub open spec fn fits_vertical_at<S: Scalar>(
    w: spec_fn(char, u32) -> S,
    text: Seq<char>,
    top: S,
    width: S,
    height: S,
    format: TextFormat<S>,
) -> bool {
    let lines = wrap_text(w, text, width, format);
    lines.len() == 0 || line_y(top, format, lines.len() - 1).lt_spec(top.add_spec(height))
}

/// Whether a text fits a rectangle: its width and its height.
pub open spec fn fits_at<S: Scalar>(
    w: spec_fn(char, u32) -> S,
    text: Seq<char>,
    top: S,
    width: S,
    height: S,
    format: TextFormat<S>,
) -> Option<bool> {
    match fits_horizontal_at(w, text, width, format) {
        Some(true) => Some(fits_vertical_at(w, text, top, width, height, format)),
        other => other,
    }
}

/// A format at another font size.
pub open spec fn at_size<S: Scalar>(format: TextFormat<S>, font_size: u32) -> TextFormat<S> {
    TextFormat { font_size, ..format }
}

/// Whether a text fits a rectangle, as a function of the font size.
pub open spec fn fits_by_size<S: Scalar>(
    w: spec_fn(char, u32) -> S,
    text: Seq<char>,
    top: S,
    width: S,
    height: S,
    format: TextFormat<S>,
) -> spec_fn(u32) -> Option<bool> {
    |size: u32| fits_at(w, text, top, width, height, at_size(format, size))
}

/// Whether a text fits the height of a rectangle, as a function of that
/// height.
pub open spec fn fits_by_height<S: Scalar>(
    w: spec_fn(char, u32) -> S,
    text: Seq<char>,
    top: S,
    width: S,
    format: TextFormat<S>,
) -> spec_fn(S) -> Option<bool> {
    |height: S| Some(fits_vertical_at(w, text, top, width, height, format))
}

/// Whether a text fits a rectangle, as a function of the rectangle's
/// width.
pub open spec fn fits_by_width<S: Scalar>(
    w: spec_fn(char, u32) -> S,
    text: Seq<char>,
    top: S,
    height: S,
    format: TextFormat<S>,
) -> spec_fn(S) -> Option<bool> {
    |width: S| fits_at(w, text, top, width, height, format)
}

/// The step of a search: the absolute value of `delta`, and one where that
/// is not larger than one.
pub open spec fn search_step<S: Scalar>(delta: S) -> S {
    max_spec(abs_spec(delta), S::ONE)
}

/// Where stepping down from `from` arrives: at the first length at which
/// the text no longer fits. At most `steps` steps are taken.
pub open spec fn descend<S: Scalar>(
    fits: spec_fn(S) -> Option<bool>,
    from: S,
    step: S,
    steps: nat,
) -> Result<S, TextError>
    decreases steps,
{
    match fits(from) {
        None => Err(TextError::IncomparableScalar),
        Some(false) => Ok(from),
        Some(true) => if steps == 0 {
            Err(TextError::OutOfSteps)
        } else {
            descend(fits, from.sub_spec(step), step, (steps - 1) as nat)
        },
    }
}

/// Where stepping up from `from` arrives: at the first length at which the
/// text fits. At most `steps` steps are taken.
pub open spec fn ascend<S: Scalar>(
    fits: spec_fn(S) -> Option<bool>,
    from: S,
    step: S,
    steps: nat,
) -> Result<S, TextError>
    decreases steps,
{
    match fits(from) {
        None => Err(TextError::IncomparableScalar),
        Some(true) => Ok(from),
        Some(false) => if steps == 0 {
            Err(TextError::OutOfSteps)
        } else {
            ascend(fits, from.add_spec(step), step, (steps - 1) as nat)
        },
    }
}

/// The length that a search for the least fitting length arrives at: it
/// steps down from `from` while the text fits, and from there up until it
/// fits again. Each way it takes at most `steps` steps.
pub open spec fn least_fit<S: Scalar>(
    fits: spec_fn(S) -> Option<bool>,
    from: S,
    step: S,
    steps: nat,
) -> Result<S, TextError> {
    match descend(fits, from, step, steps) {
        Ok(low) => ascend(fits, low, step, steps),
        Err(e) => Err(e),
    }
}

/// The font size that trying the sizes from `from` down arrives at: the
/// first that fits. There is none where the sizes run out below
/// [`MIN_FONT_SIZE`], or where a size is reached at which whether the text
/// fits has no answer.
pub open spec fn largest_fit(fits: spec_fn(u32) -> Option<bool>, from: u32) -> Result<u32, TextError>
    decreases from,
{
    if from < MIN_FONT_SIZE {
        Err(TextError::NoFit)
    } else {
        match fits(from) {
            None => Err(TextError::IncomparableScalar),
            Some(true) => Ok(from),
            Some(false) => largest_fit(fits, (from - 1) as u32),
        }
    }
}

/// Find the widest of some widths.
pub fn widest_of<S: Scalar>(widths: &Vec<S>) -> (result: Result<S, TextError>)
    ensures
        result == or_incomparable(widest(widths@)),
{
    if widths.len() == 0 {
        return Ok(S::ZERO);
    }
    let mut best = widths[0];
    let mut i: usize = 1;
    assert(widths@.take(1) =~= seq![widths[0]]);
    while i < widths.len()
        invariant
            1 <= i <= widths.len(),
            widest(widths@.take(i as int)) == Some(best),
        decreases widths.len() - i,
    {
        let next = widths[i];
        assert(widths@.take(i + 1).drop_last() =~= widths@.take(i as int));
        if !(best.lt(next) || best.eq(next) || next.lt(best)) {
            proof {
                lemma_widest_stays_none(widths@, i + 1);
            }
            return Err(TextError::IncomparableScalar);
        }
        if !next.lt(best) {
            best = next;
        }
        i += 1;
    }
    assert(widths@.take(widths.len() as int) =~= widths@);
    Ok(best)
}

/// Once some first widths have no widest, no more of them have one.
pub proof fn lemma_widest_stays_none<S: Scalar>(widths: Seq<S>, n: int)
    requires
        0 <= n <= widths.len(),
        widest(widths.take(n)) is None,
    ensures
        widest(widths) is None,
    decreases widths.len() - n,
{
    if n < widths.len() {
        assert(widths.take(n + 1).drop_last() =~= widths.take(n));
        assert(widths.take(n).len() >= 2);
        lemma_widest_stays_none(widths, n + 1);
    } else {
        assert(widths.take(n) =~= widths);
    }
}

/// A source of character widths that may remember what it has measured.
///
/// The width of a character at a font size is a function of the two:
/// `char_width_spec` names it, and no call changes it. What a call may
/// change is only what the source remembers.
pub trait CharacterWidthCache {
    /// The scalar type of the widths.
    type Scalar: Scalar;

    /// The width of a character at a font size.
    spec fn char_width_spec(&self, character: char, font_size: u32) -> Self::Scalar;

    /// Get the width of a character at a font size.
    fn char_width(&mut self, character: char, font_size: u32) -> (width: Self::Scalar)
        ensures
            width == old(self).char_width_spec(character, font_size),
            forall|c: char, s: u32| #[trigger]
                final(self).char_width_spec(c, s) == old(self).char_width_spec(c, s),
    ;

    /// Get the width of some characters at a font size: the sum of their
    /// widths.
    fn chars_width(&mut self, chars: &Vec<char>, font_size: u32) -> (width: Self::Scalar)
        ensures
            width == text_width(
                |c: char, s: u32| old(self).char_width_spec(c, s),
                chars@,
                font_size,
            ),
            forall|c: char, s: u32| #[trigger]
                final(self).char_width_spec(c, s) == old(self).char_width_spec(c, s),
    {
        let ghost w = |c: char, s: u32| old(self).char_width_spec(c, s);
        let mut total = Self::Scalar::ZERO;
        let mut i: usize = 0;
        while i < chars.len()
            invariant
                i <= chars.len(),
                total == text_width(w, chars@.take(i as int), font_size),
                forall|c: char, s: u32| #[trigger] self.char_width_spec(c, s) == w(c, s),
            decreases chars.len() - i,
        {
            let width = self.char_width(chars[i], font_size);
            assert(chars@.take(i + 1).drop_last() =~= chars@.take(i as int));
            total = total.add(width);
            i += 1;
        }
        assert(chars@.take(chars.len() as int) =~= chars@);
        total
    }

    /// Get the width of a string at a font size: the sum of the widths of
    /// its characters.
    fn width(&mut self, text: &str, font_size: u32) -> (width: Self::Scalar)
        ensures
            width == text_width(
                |c: char, s: u32| old(self).char_width_spec(c, s),
                text@,
                font_size,
            ),
            forall|c: char, s: u32| #[trigger]
                final(self).char_width_spec(c, s) == old(self).char_width_spec(c, s),
    {
        let chars = chars_of(text);
        self.chars_width(&chars, font_size)
    }

    /// Split a text into lines, none wider than `max_width` unless it holds
    /// a single word that is. Line feeds in the text are kept as line ends.
    fn format_lines(
        &mut self,
        text: &str,
        max_width: Self::Scalar,
        format: TextFormat<Self::Scalar>,
    ) -> (lines: Vec<String>)
        ensures
            string_views(lines@) == wrap_text(
                |c: char, s: u32| old(self).char_width_spec(c, s),
                text@,
                max_width,
                format,
            ),
            forall|c: char, s: u32| #[trigger]
                final(self).char_width_spec(c, s) == old(self).char_width_spec(c, s),
    {
        let ghost w = |c: char, s: u32| old(self).char_width_spec(c, s);
        let chars = chars_of(text);
        let paragraphs = split_lines(&chars);
        let space = self.char_width(' ', format.font_size);
        let mut done: Vec<Vec<char>> = Vec::new();
        let mut p: usize = 0;
        assert(views(paragraphs@).take(0) =~= Seq::empty());
        assert(views(done@) =~= Seq::empty());
        while p < paragraphs.len()
            invariant
                p <= paragraphs.len(),
                space == w(' ', format.font_size),
                views(done@) == wrap_paragraphs(w, views(paragraphs@).take(p as int), max_width, format),
                forall|c: char, s: u32| #[trigger] self.char_width_spec(c, s) == w(c, s),
            decreases paragraphs.len() - p,
        {
            let words = split_words(&paragraphs[p]);
            let ghost goal = measure_words(w, views(words@), format.font_size);
            let mut measured: Vec<(Vec<char>, Self::Scalar)> = Vec::new();
            let mut k: usize = 0;
            assert(measured_views(measured@) =~= goal.take(0));
            while k < words.len()
                invariant
                    k <= words.len(),
                    goal == measure_words(w, views(words@), format.font_size),
                    measured_views(measured@) == goal.take(k as int),
                    forall|c: char, s: u32| #[trigger] self.char_width_spec(c, s) == w(c, s),
                decreases words.len() - k,
            {
                assert((|c: char, s: u32| self.char_width_spec(c, s)) =~= w);
                let width = self.chars_width(&words[k], format.font_size);
                let word = words[k].clone();
                assert(word@ =~= words[k as int]@);
                let ghost before = measured_views(measured@);
                measured.push((word, width));
                assert(measured_views(measured@) =~= before.push((word@, width)));
                assert(goal.take(k + 1) =~= goal.take(k as int).push(goal[k as int]));
                k += 1;
            }
            assert(goal.take(words.len() as int) =~= goal);
            assert(views(paragraphs@).take(p + 1).drop_last() =~= views(paragraphs@).take(p as int));
            done = wrap_words(done, &measured, space, max_width, &format);
            p += 1;
        }
        assert(views(paragraphs@).take(paragraphs.len() as int) =~= views(paragraphs@));
        let mut lines: Vec<String> = Vec::new();
        let mut i: usize = 0;
        while i < done.len()
            invariant
                i <= done.len(),
                string_views(lines@) == views(done@).take(i as int),
            decreases done.len() - i,
        {
            let line = string_of(&done[i]);
            let ghost before = string_views(lines@);
            lines.push(line);
            assert(string_views(lines@) =~= before.push(line@));
            assert(views(done@).take(i + 1) =~= views(done@).take(i as int).push(done[i as int]@));
            i += 1;
        }
        assert(views(done@).take(done.len() as int) =~= views(done@));
        lines
    }

    /// Get the width of the widest line that wrapping a text gives.
    fn max_line_width(
        &mut self,
        text: &str,
        max_width: Self::Scalar,
        format: TextFormat<Self::Scalar>,
    ) -> (result: Result<Self::Scalar, TextError>)
        ensures
            result == or_incomparable(
                max_line_width_spec(
                    |c: char, s: u32| old(self).char_width_spec(c, s),
                    text@,
                    max_width,
                    format,
                ),
            ),
            forall|c: char, s: u32| #[trigger]
                final(self).char_width_spec(c, s) == old(self).char_width_spec(c, s),
    {
        let ghost w = |c: char, s: u32| old(self).char_width_spec(c, s);
        let lines = self.format_lines(text, max_width, format);
        let ghost goal = line_widths(w, string_views(lines@), format.font_size);
        let mut widths: Vec<Self::Scalar> = Vec::new();
        let mut i: usize = 0;
        while i < lines.len()
            invariant
                i <= lines.len(),
                goal == line_widths(w, string_views(lines@), format.font_size),
                widths@ == goal.take(i as int),
                forall|c: char, s: u32| #[trigger] self.char_width_spec(c, s) == w(c, s),
            decreases lines.len() - i,
        {
            assert((|c: char, s: u32| self.char_width_spec(c, s)) =~= w);
            let width = self.width(lines[i].as_str(), format.font_size);
            widths.push(width);
            assert(widths@ =~= goal.take(i + 1));
            i += 1;
        }
        assert(goal.take(lines.len() as int) =~= goal);
        widest_of(&widths)
    }

    /// Wrap a text at the width of a rectangle and say where each line
    /// begins: its baseline by its number, its left end by the format's
    /// justification and the line's own width.
    fn justify_text<R>(
        &mut self,
        text: &str,
        rect: R,
        format: TextFormat<Self::Scalar>,
    ) -> (positioned: PositionedLines<R::Vector>) where R: Rectangle<Scalar = Self::Scalar>
        ensures
            positioned.len() == wrap_text(
                |c: char, s: u32| old(self).char_width_spec(c, s),
                text@,
                width_of(&rect),
                format,
            ).len(),
            forall|i: int|
                #![trigger positioned[i]]
                0 <= i < positioned.len() ==> {
                    let line = wrap_text(
                        |c: char, s: u32| old(self).char_width_spec(c, s),
                        text@,
                        width_of(&rect),
                        format,
                    )[i];
                    &&& positioned[i].1@ == line
                    &&& positioned[i].0.x_spec() == line_x(
                        format.just,
                        left_of(&rect),
                        width_of(&rect),
                        text_width(
                            |c: char, s: u32| old(self).char_width_spec(c, s),
                            line,
                            format.font_size,
                        ),
                    )
                    &&& positioned[i].0.y_spec() == line_y(top_of(&rect), format, i)
                },
            forall|c: char, s: u32| #[trigger]
                final(self).char_width_spec(c, s) == old(self).char_width_spec(c, s),
    {
        let ghost w = |c: char, s: u32| old(self).char_width_spec(c, s);
        let lines = self.format_lines(text, rect.width(), format);
        let ghost wrapped = string_views(lines@);
        let mut positioned: Vec<(R::Vector, String)> = Vec::new();
        let mut i: usize = 0;
        while i < lines.len()
            invariant
                i <= lines.len(),
                wrapped == string_views(lines@),
                positioned.len() == i,
                forall|j: int|
                    #![trigger positioned[j]]
                    0 <= j < i ==> {
                        &&& positioned[j].1@ == wrapped[j]
                        &&& positioned[j].0.x_spec() == line_x(
                            format.just,
                            left_of(&rect),
                            width_of(&rect),
                            text_width(w, wrapped[j], format.font_size),
                        )
                        &&& positioned[j].0.y_spec() == line_y(top_of(&rect), format, j)
                    },
                forall|c: char, s: u32| #[trigger] self.char_width_spec(c, s) == w(c, s),
            decreases lines.len() - i,
        {
            assert((|c: char, s: u32| self.char_width_spec(c, s)) =~= w);
            let size = Self::Scalar::from_u32(format.font_size);
            let number = Self::Scalar::from_u32(#[verifier::truncate] (i as u32));
            let y = rect.top().add(size).add(number.mul(size).mul(format.line_spacing));
            let line_width = self.width(lines[i].as_str(), format.font_size);
            let x = match format.just {
                Justification::Left => rect.left(),
                Justification::Centered => rect.center().x().sub(line_width.div(Self::Scalar::TWO)),
                Justification::Right => rect.right().sub(line_width),
            };
            let line = lines[i].clone();
            assert(line@ == wrapped[i as int]);
            positioned.push((R::Vector::new(x, y), line));
            i += 1;
        }
        positioned
    }

    /// Check whether a text fits the width of a rectangle: wrapped at that
    /// width, its widest line is less than the width.
    fn text_fits_horizontal<R>(
        &mut self,
        text: &str,
        rect: R,
        format: TextFormat<Self::Scalar>,
    ) -> (result: Result<bool, TextError>) where R: Rectangle<Scalar = Self::Scalar>
        ensures
            result == or_incomparable(
                fits_horizontal_at(
                    |c: char, s: u32| old(self).char_width_spec(c, s),
                    text@,
                    width_of(&rect),
                    format,
                ),
            ),
            forall|c: char, s: u32| #[trigger]
                final(self).char_width_spec(c, s) == old(self).char_width_spec(c, s),
    {
        match self.max_line_width(text, rect.width(), format) {
            Ok(widest) => Ok(widest.lt(rect.width())),
            Err(e) => Err(e),
        }
    }

    /// Check whether a text fits the height of a rectangle: wrapped at the
    /// rectangle's width, the baseline of its last line lies above the
    /// bottom edge. A text without lines fits.
    fn text_fits_vertical<R>(
        &mut self,
        text: &str,
        rect: R,
        format: TextFormat<Self::Scalar>,
    ) -> (fits: bool) where R: Rectangle<Scalar = Self::Scalar>
        ensures
            fits == fits_vertical_at(
                |c: char, s: u32| old(self).char_width_spec(c, s),
                text@,
                top_of(&rect),
                width_of(&rect),
                height_of(&rect),
                format,
            ),
            forall|c: char, s: u32| #[trigger]
                final(self).char_width_spec(c, s) == old(self).char_width_spec(c, s),
    {
        let lines = self.format_lines(text, rect.width(), format);
        if lines.len() == 0 {
            return true;
        }
        let size = Self::Scalar::from_u32(format.font_size);
        let number = Self::Scalar::from_u32(#[verifier::truncate] ((lines.len() - 1) as u32));
        let last_line_y = rect.top().add(size).add(number.mul(size).mul(format.line_spacing));
        last_line_y.lt(rect.bottom())
    }

    /// Check whether a text fits a rectangle: its width, and then its
    /// height.
    fn text_fits<R>(
        &mut self,
        text: &str,
        rect: R,
        format: TextFormat<Self::Scalar>,
    ) -> (result: Result<bool, TextError>) where R: Rectangle<Scalar = Self::Scalar>
        ensures
            result == or_incomparable(
                fits_at(
                    |c: char, s: u32| old(self).char_width_spec(c, s),
                    text@,
                    top_of(&rect),
                    width_of(&rect),
                    height_of(&rect),
                    format,
                ),
            ),
            forall|c: char, s: u32| #[trigger]
                final(self).char_width_spec(c, s) == old(self).char_width_spec(c, s),
    {
        let ghost w = |c: char, s: u32| old(self).char_width_spec(c, s);
        match self.text_fits_horizontal(text, rect, format) {
            Ok(true) => {
                assert((|c: char, s: u32| self.char_width_spec(c, s)) =~= w);
                Ok(self.text_fits_vertical(text, rect, format))
            },
            other => other,
        }
    }

    /// Find the largest font size, from the format's own down to
    /// [`MIN_FONT_SIZE`], at which a text fits a rectangle.
    ///
    /// The sizes are tried from the largest down. The first that fits is
    /// the answer; where none fits the answer is `NoFit`, and where a size
    /// is reached whose line widths do not compare, `IncomparableScalar`.
    #[verifier::loop_isolation(false)]
    fn fit_max_font_size<R>(
        &mut self,
        text: &str,
        rect: R,
        format: TextFormat<Self::Scalar>,
    ) -> (result: Result<u32, TextError>) where R: Rectangle<Scalar = Self::Scalar>
        ensures
            result == largest_fit(
                fits_by_size(
                    |c: char, s: u32| old(self).char_width_spec(c, s),
                    text@,
                    top_of(&rect),
                    width_of(&rect),
                    height_of(&rect),
                    format,
                ),
                format.font_size,
            ),
            result matches Ok(size) ==> {
                &&& MIN_FONT_SIZE <= size <= format.font_size
                &&& fits_at(
                    |c: char, s: u32| old(self).char_width_spec(c, s),
                    text@,
                    top_of(&rect),
                    width_of(&rect),
                    height_of(&rect),
                    at_size(format, size),
                ) == Some(true)
            },
            forall|c: char, s: u32| #[trigger]
                final(self).char_width_spec(c, s) == old(self).char_width_spec(c, s),
    {
        let ghost w = |c: char, s: u32| old(self).char_width_spec(c, s);
        let ghost fits = fits_by_size(
            w,
            text@,
            top_of(&rect),
            width_of(&rect),
            height_of(&rect),
            format,
        );
        let mut size = format.font_size;
        while size >= MIN_FONT_SIZE
            invariant
                size <= format.font_size,
                largest_fit(fits, size) == largest_fit(fits, format.font_size),
                forall|c: char, s: u32| #[trigger] self.char_width_spec(c, s) == w(c, s),
            decreases size,
        {
            assert((|c: char, s: u32| self.char_width_spec(c, s)) =~= w);
            let candidate = TextFormat { font_size: size, ..format };
            match self.text_fits(text, rect, candidate) {
                Err(e) => {
                    return Err(e);
                },
                Ok(true) => {
                    return Ok(size);
                },
                Ok(false) => {},
            }
            size -= 1;
        }
        Err(TextError::NoFit)
    }

    /// Find the least height at which a text fits a rectangle of the given
    /// width, to within one step.
    ///
    /// The search steps the height down from the rectangle's own while the
    /// text fits, and from there up until it fits again. A step is the
    /// absolute value of `delta`, and one where that is not larger than
    /// one. Each way at most `max_steps` steps are taken; where that does
    /// not suffice the answer is `OutOfSteps`.
    #[verifier::loop_isolation(false)]
    fn fit_min_height<R>(
        &mut self,
        text: &str,
        rect: R,
        format: TextFormat<Self::Scalar>,
        delta: Self::Scalar,
        max_steps: usize,
    ) -> (result: Result<Self::Scalar, TextError>) where R: Rectangle<Scalar = Self::Scalar>
        ensures
            result == least_fit(
                fits_by_height(
                    |c: char, s: u32| old(self).char_width_spec(c, s),
                    text@,
                    top_of(&rect),
                    width_of(&rect),
                    format,
                ),
                height_of(&rect),
                search_step(delta),
                max_steps as nat,
            ),
            forall|c: char, s: u32| #[trigger]
                final(self).char_width_spec(c, s) == old(self).char_width_spec(c, s),
    {
        let ghost w = |c: char, s: u32| old(self).char_width_spec(c, s);
        let ghost fits = fits_by_height(w, text@, top_of(&rect), width_of(&rect), format);
        let step = delta.abs().max(Self::Scalar::ONE);
        let mut length = rect.height();
        let mut left = max_steps;
        loop
            invariant
                descend(fits, length, step, left as nat) == descend(
                    fits,
                    height_of(&rect),
                    step,
                    max_steps as nat,
                ),
                forall|c: char, s: u32| #[trigger] self.char_width_spec(c, s) == w(c, s),
            decreases left,
        {
            assert((|c: char, s: u32| self.char_width_spec(c, s)) =~= w);
            let sized = R::new(rect.top_left(), R::Vector::new(rect.width(), length));
            if !self.text_fits_vertical(text, sized, format) {
                break;
            }
            if left == 0 {
                return Err(TextError::OutOfSteps);
            }
            length = length.sub(step);
            left -= 1;
        }
        let ghost low = length;
        let mut left = max_steps;
        loop
            invariant
                ascend(fits, length, step, left as nat) == ascend(fits, low, step, max_steps as nat),
                forall|c: char, s: u32| #[trigger] self.char_width_spec(c, s) == w(c, s),
            decreases left,
        {
            assert((|c: char, s: u32| self.char_width_spec(c, s)) =~= w);
            let sized = R::new(rect.top_left(), R::Vector::new(rect.width(), length));
            if self.text_fits_vertical(text, sized, format) {
                break;
            }
            if left == 0 {
                return Err(TextError::OutOfSteps);
            }
            length = length.add(step);
            left -= 1;
        }
        Ok(length)
    }

    /// Find the least width at which a text fits a rectangle of the given
    /// height, to within one step.
    ///
    /// The search steps the width down from the rectangle's own while the
    /// text fits, and from there up until it fits again. A step is the
    /// absolute value of `delta`, and one where that is not larger than
    /// one. Each way at most `max_steps` steps are taken; where that does
    /// not suffice the answer is `OutOfSteps`, and where a width is reached
    /// at which line widths do not compare, `IncomparableScalar`.
    #[verifier::loop_isolation(false)]
    fn fit_min_width<R>(
        &mut self,
        text: &str,
        rect: R,
        format: TextFormat<Self::Scalar>,
        delta: Self::Scalar,
        max_steps: usize,
    ) -> (result: Result<Self::Scalar, TextError>) where R: Rectangle<Scalar = Self::Scalar>
        ensures
            result == least_fit(
                fits_by_width(
                    |c: char, s: u32| old(self).char_width_spec(c, s),
                    text@,
                    top_of(&rect),
                    height_of(&rect),
                    format,
                ),
                width_of(&rect),
                search_step(delta),
                max_steps as nat,
            ),
            forall|c: char, s: u32| #[trigger]
                final(self).char_width_spec(c, s) == old(self).char_width_spec(c, s),
    {
        let ghost w = |c: char, s: u32| old(self).char_width_spec(c, s);
        let ghost fits = fits_by_width(w, text@, top_of(&rect), height_of(&rect), format);
        let step = delta.abs().max(Self::Scalar::ONE);
        let mut length = rect.width();
        let mut left = max_steps;
        loop
            invariant
                descend(fits, length, step, left as nat) == descend(
                    fits,
                    width_of(&rect),
                    step,
                    max_steps as nat,
                ),
                forall|c: char, s: u32| #[trigger] self.char_width_spec(c, s) == w(c, s),
            decreases left,
        {
            assert((|c: char, s: u32| self.char_width_spec(c, s)) =~= w);
            let sized = R::new(rect.top_left(), R::Vector::new(length, rect.height()));
            match self.text_fits(text, sized, format) {
                Err(e) => {
                    return Err(e);
                },
                Ok(false) => {
                    break;
                },
                Ok(true) => {},
            }
            if left == 0 {
                return Err(TextError::OutOfSteps);
            }
            length = length.sub(step);
            left -= 1;
        }
        let ghost low = length;
        let mut left = max_steps;
        loop
            invariant
                ascend(fits, length, step, left as nat) == ascend(fits, low, step, max_steps as nat),
                forall|c: char, s: u32| #[trigger] self.char_width_spec(c, s) == w(c, s),
            decreases left,
        {
            assert((|c: char, s: u32| self.char_width_spec(c, s)) =~= w);
            let sized = R::new(rect.top_left(), R::Vector::new(length, rect.height()));
            match self.text_fits(text, sized, format) {
                Err(e) => {
                    return Err(e);
                },
                Ok(true) => {
                    break;
                },
                Ok(false) => {},
            }
            if left == 0 {
                return Err(TextError::OutOfSteps);
            }
            length = length.add(step);
            left -= 1;
        }
        Ok(length)
    }
}

/// What the search for the largest fitting font size arrives at, told
/// without the search: a size that fits, with no size above it up to
/// `from` that does; `NoFit` where no size from [`MIN_FONT_SIZE`] to
/// `from` fits; `IncomparableScalar` where a size has no answer and no
/// size above it fits.
pub proof fn lemma_largest_fit(fits: spec_fn(u32) -> Option<bool>, from: u32)
    ensures
        match largest_fit(fits, from) {
            Ok(size) => {
                &&& MIN_FONT_SIZE <= size <= from
                &&& fits(size) == Some(true)
                &&& forall|s: u32| size < s <= from ==> #[trigger] fits(s) == Some(false)
            },
            Err(TextError::NoFit) => forall|s: u32|
                MIN_FONT_SIZE <= s <= from ==> #[trigger] fits(s) == Some(false),
            Err(TextError::IncomparableScalar) => exists|size: u32|
                {
                    &&& MIN_FONT_SIZE <= size <= from
                    &&& #[trigger] fits(size) is None
                    &&& forall|s: u32| size < s <= from ==> #[trigger] fits(s) == Some(false)
                },
            Err(TextError::OutOfSteps) => false,
        },
    decreases from,
{
    if from >= MIN_FONT_SIZE {
        match fits(from) {
            Some(false) => {
                lemma_largest_fit(fits, (from - 1) as u32);
                match largest_fit(fits, from) {
                    Err(TextError::IncomparableScalar) => {
                        let size = choose|size: u32|
                            {
                                &&& MIN_FONT_SIZE <= size <= from - 1
                                &&& #[trigger] fits(size) is None
                                &&& forall|s: u32| size < s <= from - 1 ==> #[trigger] fits(s) == Some(false)
                            };
                        assert(fits(size) is None);
                    },
                    _ => {},
                }
            },
            Some(true) => {},
            None => {
                assert(fits(from) is None);
            },
        }
    }
}

/// The text fits at the font size that the search finds, and the search
/// finds one whenever there is one to find: a size from [`MIN_FONT_SIZE`]
/// to `from` at which the text fits, with an answer at every size above it.
pub proof fn lemma_fitting_size_is_found(fits: spec_fn(u32) -> Option<bool>, from: u32, size: u32)
    requires
        MIN_FONT_SIZE <= size <= from,
        fits(size) == Some(true),
        forall|s: u32| size < s <= from ==> #[trigger] fits(s) is Some,
    ensures
        largest_fit(fits, from) matches Ok(found) && size <= found <= from && fits(found) == Some(
            true,
        ),
    decreases from,
{
    if size < from && fits(from) == Some(false) {
        lemma_fitting_size_is_found(fits, (from - 1) as u32, size);
    }
}

/// A centered line lies about the center: where the arithmetic is exact
/// under a reading of the scalars as real numbers, the line's left end and
/// half its width add up to the x coordinate of the rectangle's center,
/// which is the left edge and half the width.
pub proof fn lemma_centered_line<S: Scalar>(
    value: spec_fn(S) -> real,
    left: S,
    width: S,
    line_width: S,
)
    requires
        ({
            let x = line_x(Justification::Centered, left, width, line_width);
            let half = line_width.div_spec(S::TWO);
            let center = left.add_spec(width.div_spec(S::TWO));
            &&& value(center.sub_spec(half)) == value(center) - value(half)
            &&& value(x.add_spec(half)) == value(x) + value(half)
        }),
    ensures
        value(
            line_x(Justification::Centered, left, width, line_width).add_spec(
                line_width.div_spec(S::TWO),
            ),
        ) == value(left.add_spec(width.div_spec(S::TWO))),
{
}

} // verus!
