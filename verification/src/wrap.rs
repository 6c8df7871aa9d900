//! Word wrap as a machine that sets one word after another.
//!
//! The machine holds the lines that are done, the line that is open and how
//! wide the open line is. A word goes onto the open line where the line
//! stays under the width limit with it, or is still of zero width; where it
//! does not, the open line is closed and the word begins the next one. A
//! word is never cut, so a word wider than the limit gets a line of its own.
//!
//! Widths come in as plain scalars, measured by whoever calls: nothing here
//! knows a font.

use vstd::prelude::*;
use crate::format::TextFormat;
use crate::math::Scalar;
use crate::words::{spaces, spaces_of, views};

verus! {

/// The state of a word wrap between two words.
pub struct Wrapping<S> {
    /// The lines that are done, as they will be handed out.
    pub done: Seq<Seq<char>>,
    /// The open line: its indentation, then each of its words with one
    /// space behind it.
    pub line: Seq<char>,
    /// The width of the open line.
    pub width: S,
}

/// The width of a text: the widths of its characters, added up from zero
/// in their order.
pub open spec fn text_width<S: Scalar>(w: spec_fn(char, u32) -> S, text: Seq<char>, size: u32) -> S
    decreases text.len(),
{
    if text.len() == 0 {
        S::ZERO
    } else {
        text_width(w, text.drop_last(), size).add_spec(w(text.last(), size))
    }
}

/// The width of `count` spaces, each `space` wide, added up from zero.
pub open spec fn indent_width<S: Scalar>(space: S, count: nat) -> S
    decreases count,
{
    if count == 0 {
        S::ZERO
    } else {
        indent_width(space, (count - 1) as nat).add_spec(space)
    }
}

/// A line as it is handed out: without the character it ends in, which is
/// the space behind its last word, or the last space of its indentation
/// where it has no word. An empty line stays empty.
pub open spec fn cut(line: Seq<char>) -> Seq<char> {
    if line.len() > 0 {
        line.drop_last()
    } else {
        line
    }
}

/// How many spaces indent the line that follows `done` lines: the first
/// line of a text has an indentation of its own.
pub open spec fn indent_after<S: Scalar>(done: Seq<Seq<char>>, format: TextFormat<S>) -> nat {
    if done.len() == 0 {
        format.first_line_indent as nat
    } else {
        format.lines_indent as nat
    }
}

/// The machine with a fresh line open behind the lines that are done.
pub open spec fn open_line<S: Scalar>(done: Seq<Seq<char>>, space: S, format: TextFormat<S>) -> Wrapping<S> {
    Wrapping {
        done,
        line: spaces(indent_after(done, format)),
        width: indent_width(space, indent_after(done, format)),
    }
}

/// The lines that are done once the open line is closed.
pub open spec fn close_line<S: Scalar>(at: Wrapping<S>) -> Seq<Seq<char>> {
    at.done.push(cut(at.line))
}

/// Whether a word stays on a line: the line with the word is under the
/// limit, or the line is of zero width.
pub open spec fn stays_on_line<S: Scalar>(line_width: S, word_width: S, max_width: S) -> bool {
    line_width.add_spec(word_width).lt_spec(max_width) || line_width.eq_spec(S::ZERO)
}

/// The machine after one more word.
pub open spec fn place_word<S: Scalar>(
    at: Wrapping<S>,
    word: Seq<char>,
    word_width: S,
    space: S,
    max_width: S,
    format: TextFormat<S>,
) -> Wrapping<S> {
    let on = if stays_on_line(at.width, word_width, max_width) {
        at
    } else {
        open_line(close_line(at), space, format)
    };
    Wrapping {
        done: on.done,
        line: on.line + word + seq![' '],
        width: on.width.add_spec(word_width).add_spec(space),
    }
}

/// The machine after some words, each with its width.
pub open spec fn place_words<S: Scalar>(
    at: Wrapping<S>,
    words: Seq<(Seq<char>, S)>,
    space: S,
    max_width: S,
    format: TextFormat<S>,
) -> Wrapping<S>
    decreases words.len(),
{
    if words.len() == 0 {
        at
    } else {
        place_word(
            place_words(at, words.drop_last(), space, max_width, format),
            words.last().0,
            words.last().1,
            space,
            max_width,
            format,
        )
    }
}

/// The lines that are done after one paragraph more: a line is opened, the
/// paragraph's words are placed, and the line that is then open is closed.
/// A paragraph without words gives one line.
pub open spec fn wrap_paragraph<S: Scalar>(
    done: Seq<Seq<char>>,
    words: Seq<(Seq<char>, S)>,
    space: S,
    max_width: S,
    format: TextFormat<S>,
) -> Seq<Seq<char>> {
    close_line(place_words(open_line(done, space, format), words, space, max_width, format))
}

/// Some words, each with its vector of characters seen as a sequence.
pub open spec fn measured_views<S>(words: Seq<(Vec<char>, S)>) -> Seq<(Seq<char>, S)> {
    Seq::new(words.len(), |i: int| (words[i].0@, words[i].1))
}

/// Add up the width of `count` spaces.
pub fn indent_width_of<S: Scalar>(space: S, count: usize) -> (width: S)
    ensures
        width == indent_width(space, count as nat),
{
    let mut width = S::ZERO;
    let mut i: usize = 0;
    while i < count
        invariant
            i <= count,
            width == indent_width(space, i as nat),
        decreases count - i,
    {
        width = width.add(space);
        i += 1;
    }
    width
}

/// Wrap one paragraph behind the lines that are done.
///
/// `words` holds the paragraph's words in their order, each with its
/// measured width, and `space` is the width of one space.
pub fn wrap_words<S: Scalar>(
    done: Vec<Vec<char>>,
    words: &Vec<(Vec<char>, S)>,
    space: S,
    max_width: S,
    format: &TextFormat<S>,
) -> (lines: Vec<Vec<char>>)
    ensures
        views(lines@) == wrap_paragraph(views(done@), measured_views(words@), space, max_width, *format),
{
    let ghost start = open_line(views(done@), space, *format);
    let mut done = done;
    let count = if done.len() == 0 {
        format.first_line_indent
    } else {
        format.lines_indent
    };
    let mut line = spaces_of(count);
    let mut width = indent_width_of(space, count);
    let mut i: usize = 0;
    assert(measured_views(words@).take(0) =~= Seq::empty());
    while i < words.len()
        invariant
            i <= words.len(),
            (Wrapping { done: views(done@), line: line@, width }) == place_words(
                start,
                measured_views(words@).take(i as int),
                space,
                max_width,
                *format,
            ),
        decreases words.len() - i,
    {
        let ghost before = Wrapping { done: views(done@), line: line@, width };
        let ghost all = measured_views(words@);
        assert(all.take(i + 1).drop_last() =~= all.take(i as int));
        assert(all.take(i + 1).last() == (words[i as int].0@, words[i as int].1));
        let word_width = words[i].1;
        if !(width.add(word_width).lt(max_width) || width.eq(S::ZERO)) {
            line.pop();
            assert(line@ =~= cut(before.line));
            let ghost closed = views(done@);
            done.push(line);
            assert(views(done@) =~= closed.push(cut(before.line)));
            line = spaces_of(format.lines_indent);
            width = indent_width_of(space, format.lines_indent);
        }
        let ghost on = line@;
        let word = &words[i].0;
        let mut k: usize = 0;
        while k < word.len()
            invariant
                k <= word.len(),
                line@ == on + word@.take(k as int),
            decreases word.len() - k,
        {
            line.push(word[k]);
            assert(on + word@.take(k + 1) =~= (on + word@.take(k as int)).push(word[k as int]));
            k += 1;
        }
        assert(word@.take(word.len() as int) =~= word@);
        line.push(' ');
        assert(line@ =~= on + word@ + seq![' ']);
        width = width.add(word_width).add(space);
        i += 1;
    }
    assert(measured_views(words@).take(words.len() as int) =~= measured_views(words@));
    let ghost end_line = line@;
    line.pop();
    assert(line@ =~= cut(end_line));
    let ghost closed = views(done@);
    done.push(line);
    assert(views(done@) =~= closed.push(cut(end_line)));
    done
}

} // verus!
