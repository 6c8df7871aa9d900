//! Wrapping what was wrapped: the lines that word wrap hands out wrap to
//! themselves.
//!
//! Every line that word wrap makes is its indentation followed by its
//! words, one space between them. Put together again with line feeds and
//! wrapped at the same width, the lines come out as they went in, as long
//! as each line's first word stays behind the indentation and the last
//! line is not empty.

use vstd::prelude::*;
use crate::format::TextFormat;
use crate::math::Scalar;
use crate::text::{measure_words, wrap_paragraphs, wrap_text};
use crate::words::{
    gap_len, is_whitespace_spec, lemma_gap_len, lemma_line_end, lemma_word_len, spaces,
    split_lines_spec, split_words_spec, word_len,
};
use crate::wrap::{
    close_line, cut, indent_width, open_line, place_word, place_words, stays_on_line, text_width,
    wrap_paragraph, Wrapping,
};

verus! {

/// Whether some characters are a word: at least one, and none of them
/// white space.
pub open spec fn is_word(word: Seq<char>) -> bool {
    &&& word.len() > 0
    &&& forall|i: int| 0 <= i < word.len() ==> !is_whitespace_spec(#[trigger] word[i])
}

/// Whether each of some sequences of characters is a word.
pub open spec fn all_words(words: Seq<Seq<char>>) -> bool {
    forall|i: int| 0 <= i < words.len() ==> is_word(#[trigger] words[i])
}

/// Some words in a row, each with one space behind it.
pub open spec fn spaced(words: Seq<Seq<char>>) -> Seq<char>
    decreases words.len(),
{
    if words.len() == 0 {
        Seq::empty()
    } else {
        spaced(words.drop_last()) + words.last() + seq![' ']
    }
}

/// An open line: an indentation of `indent` spaces, then some words, each
/// with one space behind it.
pub open spec fn padded(indent: nat, words: Seq<Seq<char>>) -> Seq<char> {
    spaces(indent) + spaced(words)
}

/// Some lines put together to a text, with a line feed between each two.
pub open spec fn join_lines(lines: Seq<Seq<char>>) -> Seq<char>
    decreases lines.len(),
{
    if lines.len() == 0 {
        Seq::empty()
    } else if lines.len() == 1 {
        lines[0]
    } else {
        lines[0] + seq!['\n'] + join_lines(lines.drop_first())
    }
}

/// The white space that a text begins with is white space, and what
/// follows it is not.
pub proof fn lemma_gap_len_is_gap(text: Seq<char>)
    ensures
        0 <= gap_len(text) <= text.len(),
        forall|i: int| 0 <= i < gap_len(text) ==> is_whitespace_spec(#[trigger] text[i]),
        gap_len(text) < text.len() ==> !is_whitespace_spec(text[gap_len(text)]),
    decreases text.len(),
{
    if text.len() == 0 || !is_whitespace_spec(text[0]) {
    } else {
        lemma_gap_len_is_gap(text.drop_first());
        assert forall|i: int| 0 <= i < gap_len(text) implies is_whitespace_spec(
            #[trigger] text[i],
        ) by {
            if i > 0 {
                assert(text[i] == text.drop_first()[i - 1]);
            }
        }
    }
}

/// The word that a text begins with has no white space in it, and what
/// follows it is white space.
pub proof fn lemma_word_len_is_word(text: Seq<char>)
    ensures
        0 <= word_len(text) <= text.len(),
        forall|i: int| 0 <= i < word_len(text) ==> !is_whitespace_spec(#[trigger] text[i]),
        word_len(text) < text.len() ==> is_whitespace_spec(text[word_len(text)]),
    decreases text.len(),
{
    if text.len() == 0 || is_whitespace_spec(text[0]) {
    } else {
        lemma_word_len_is_word(text.drop_first());
        assert forall|i: int| 0 <= i < word_len(text) implies !is_whitespace_spec(
            #[trigger] text[i],
        ) by {
            if i > 0 {
                assert(text[i] == text.drop_first()[i - 1]);
            }
        }
    }
}

/// What a text is cut into are words.
pub proof fn lemma_split_words_are_words(text: Seq<char>)
    ensures
        all_words(split_words_spec(text)),
    decreases text.len(),
{
    lemma_gap_len_is_gap(text);
    let gap = gap_len(text);
    if 0 <= gap < text.len() {
        let tail = text.skip(gap);
        lemma_word_len_is_word(tail);
        let len = word_len(tail);
        if 0 < len <= tail.len() {
            lemma_split_words_are_words(tail.skip(len));
            let first = tail.take(len);
            let rest = split_words_spec(tail.skip(len));
            assert(is_word(first));
            assert forall|i: int| 0 <= i < (seq![first] + rest).len() implies is_word(
                #[trigger] (seq![first] + rest)[i],
            ) by {
                if i > 0 {
                    assert((seq![first] + rest)[i] == rest[i - 1]);
                }
            }
        }
    }
}

/// A word behind some spaces, with nothing or white space behind it, is
/// the first word that the text is cut into, and the rest is cut as if it
/// stood alone.
pub proof fn lemma_split_first_word(indent: nat, word: Seq<char>, rest: Seq<char>)
    requires
        is_word(word),
        rest.len() == 0 || is_whitespace_spec(rest[0]),
    ensures
        split_words_spec(spaces(indent) + word + rest) == seq![word] + split_words_spec(rest),
{
    let text = spaces(indent) + word + rest;
    assert forall|k: int| 0 <= k < indent implies is_whitespace_spec(text[k]) by {
        assert(text[k] == ' ');
    }
    assert(text[indent as int] == word[0]);
    lemma_gap_len(text, indent as int);
    let tail = text.skip(indent as int);
    assert(tail =~= word + rest);
    assert forall|k: int| 0 <= k < word.len() implies !is_whitespace_spec(tail[k]) by {
        assert(tail[k] == word[k]);
    }
    if word.len() < tail.len() {
        assert(tail[word.len() as int] == rest[0]);
    }
    lemma_word_len(tail, word.len() as int);
    assert(tail.take(word.len() as int) =~= word);
    assert(tail.skip(word.len() as int) =~= rest);
}

/// Spaces alone are cut into no words.
pub proof fn lemma_split_spaces(indent: nat)
    ensures
        split_words_spec(spaces(indent)) == Seq::<Seq<char>>::empty(),
{
    let text = spaces(indent);
    assert forall|k: int| 0 <= k < indent implies is_whitespace_spec(text[k]) by {
        assert(text[k] == ' ');
    }
    lemma_gap_len(text, indent as int);
}

/// Words in a row begin with the first of them and a space.
pub proof fn lemma_spaced_first(words: Seq<Seq<char>>)
    requires
        words.len() > 0,
    ensures
        spaced(words) == words[0] + seq![' '] + spaced(words.drop_first()),
    decreases words.len(),
{
    if words.len() == 1 {
        assert(words.drop_last() =~= Seq::empty());
        assert(words.drop_first() =~= Seq::empty());
        assert(spaced(words) =~= words[0] + seq![' '] + spaced(words.drop_first()));
    } else {
        lemma_spaced_first(words.drop_last());
        assert(words.drop_last().drop_first() =~= words.drop_first().drop_last());
        assert(words.drop_last()[0] == words[0]);
        assert(words.drop_first().last() == words.last());
        assert(spaced(words) =~= words[0] + seq![' '] + spaced(words.drop_first()));
    }
}

/// An open line is cut into its words.
pub proof fn lemma_split_padded(indent: nat, words: Seq<Seq<char>>)
    requires
        all_words(words),
    ensures
        split_words_spec(padded(indent, words)) == words,
    decreases words.len(),
{
    if words.len() == 0 {
        lemma_split_spaces(indent);
        assert(padded(indent, words) =~= spaces(indent));
    } else {
        let rest = words.drop_first();
        lemma_spaced_first(words);
        assert(all_words(rest)) by {
            assert forall|i: int| 0 <= i < rest.len() implies is_word(#[trigger] rest[i]) by {
                assert(rest[i] == words[i + 1]);
            }
        }
        lemma_split_padded(1, rest);
        let behind = padded(1, rest);
        assert(behind =~= seq![' '] + spaced(rest));
        assert(behind[0] == ' ');
        assert(padded(indent, words) =~= spaces(indent) + words[0] + behind);
        lemma_split_first_word(indent, words[0], behind);
        assert(seq![words[0]] + rest =~= words);
    }
}

/// A line is cut into the same words as the open line that it was.
pub proof fn lemma_split_cut(indent: nat, words: Seq<Seq<char>>)
    requires
        all_words(words),
    ensures
        split_words_spec(cut(padded(indent, words))) == words,
    decreases words.len(),
{
    if words.len() == 0 {
        assert(padded(indent, words) =~= spaces(indent));
        if indent > 0 {
            assert(cut(spaces(indent)) =~= spaces((indent - 1) as nat));
            lemma_split_spaces((indent - 1) as nat);
        } else {
            lemma_split_spaces(0);
        }
    } else {
        let rest = words.drop_first();
        lemma_spaced_first(words);
        assert(all_words(rest)) by {
            assert forall|i: int| 0 <= i < rest.len() implies is_word(#[trigger] rest[i]) by {
                assert(rest[i] == words[i + 1]);
            }
        }
        lemma_split_cut(1, rest);
        let behind = padded(1, rest);
        assert(behind =~= seq![' '] + spaced(rest));
        assert(behind.len() >= 1);
        assert(padded(indent, words) =~= spaces(indent) + words[0] + behind);
        assert(cut(padded(indent, words)) =~= spaces(indent) + words[0] + cut(behind));
        if cut(behind).len() > 0 {
            assert(cut(behind)[0] == behind[0]);
        }
        lemma_split_first_word(indent, words[0], cut(behind));
        assert(seq![words[0]] + rest =~= words);
    }
}

/// The width of an open line that began `start` wide, after some words:
/// each word adds its own width and that of the space behind it.
pub open spec fn run_width<S: Scalar>(
    w: spec_fn(char, u32) -> S,
    start: S,
    words: Seq<Seq<char>>,
    space: S,
    size: u32,
) -> S
    decreases words.len(),
{
    if words.len() == 0 {
        start
    } else {
        run_width(w, start, words.drop_last(), space, size).add_spec(
            text_width(w, words.last(), size),
        ).add_spec(space)
    }
}

/// Whether word `i` of a line stays on it, behind the words before it.
pub open spec fn word_stays<S: Scalar>(
    w: spec_fn(char, u32) -> S,
    start: S,
    words: Seq<Seq<char>>,
    i: int,
    space: S,
    max_width: S,
    size: u32,
) -> bool {
    stays_on_line(
        run_width(w, start, words.take(i), space, size),
        text_width(w, words[i], size),
        max_width,
    )
}

/// How many spaces indent line `j` of a wrapped text.
pub open spec fn indent_at<S: Scalar>(j: int, format: TextFormat<S>) -> nat {
    if j == 0 {
        format.first_line_indent as nat
    } else {
        format.lines_indent as nat
    }
}

/// The width of the indentation of line `j` of a wrapped text.
pub open spec fn indent_width_at<S: Scalar>(
    w: spec_fn(char, u32) -> S,
    j: int,
    format: TextFormat<S>,
) -> S {
    indent_width(w(' ', format.font_size), indent_at(j, format))
}

/// Whether the first word of line `j` of a wrapped text stays behind the
/// line's indentation: the indentation and the word are together under the
/// width limit, or the indentation is of zero width. A line without words
/// has no word to move.
pub open spec fn first_word_stays<S: Scalar>(
    w: spec_fn(char, u32) -> S,
    line: Seq<char>,
    j: int,
    max_width: S,
    format: TextFormat<S>,
) -> bool {
    let words = split_words_spec(line);
    words.len() > 0 ==> stays_on_line(
        indent_width_at(w, j, format),
        text_width(w, words[0], format.font_size),
        max_width,
    )
}

/// Whether line `j` of a wrapped text is as word wrap makes it: its
/// indentation and its words with one space between them, where each word
/// but the first stays behind the words before it.
pub open spec fn is_set_line<S: Scalar>(
    w: spec_fn(char, u32) -> S,
    line: Seq<char>,
    j: int,
    max_width: S,
    format: TextFormat<S>,
) -> bool {
    let words = split_words_spec(line);
    &&& line == cut(padded(indent_at(j, format), words))
    &&& forall|i: int|
        1 <= i < words.len() ==> #[trigger] word_stays(
            w,
            indent_width_at(w, j, format),
            words,
            i,
            w(' ', format.font_size),
            max_width,
            format.font_size,
        )
}

/// Whether each of some lines is as word wrap makes it.
pub open spec fn are_set_lines<S: Scalar>(
    w: spec_fn(char, u32) -> S,
    lines: Seq<Seq<char>>,
    max_width: S,
    format: TextFormat<S>,
) -> bool {
    forall|j: int| 0 <= j < lines.len() ==> is_set_line(w, #[trigger] lines[j], j, max_width, format)
}

/// Whether a word wrap is in order between two words: the lines that are
/// done are as word wrap makes them, and the open line is its indentation
/// and its words, as wide as they make it, where each word but the first
/// stayed behind the words before it.
pub open spec fn is_setting<S: Scalar>(
    w: spec_fn(char, u32) -> S,
    at: Wrapping<S>,
    max_width: S,
    format: TextFormat<S>,
) -> bool {
    let words = split_words_spec(at.line);
    let j = at.done.len() as int;
    let space = w(' ', format.font_size);
    &&& are_set_lines(w, at.done, max_width, format)
    &&& at.line == padded(indent_at(j, format), words)
    &&& at.width == run_width(w, indent_width_at(w, j, format), words, space, format.font_size)
    &&& forall|i: int|
        1 <= i < words.len() ==> #[trigger] word_stays(
            w,
            indent_width_at(w, j, format),
            words,
            i,
            space,
            max_width,
            format.font_size,
        )
}

/// A fresh line behind lines that are in order leaves the word wrap in
/// order.
pub proof fn lemma_open_line_is_setting<S: Scalar>(
    w: spec_fn(char, u32) -> S,
    done: Seq<Seq<char>>,
    max_width: S,
    format: TextFormat<S>,
)
    requires
        are_set_lines(w, done, max_width, format),
    ensures
        is_setting(w, open_line(done, w(' ', format.font_size), format), max_width, format),
{
    let at = open_line(done, w(' ', format.font_size), format);
    let indent = indent_at(done.len() as int, format);
    lemma_split_spaces(indent);
    assert(padded(indent, Seq::empty()) =~= spaces(indent));
}

/// Closing the open line of a word wrap in order leaves lines in order.
pub proof fn lemma_close_line_is_set<S: Scalar>(
    w: spec_fn(char, u32) -> S,
    at: Wrapping<S>,
    max_width: S,
    format: TextFormat<S>,
)
    requires
        is_setting(w, at, max_width, format),
    ensures
        are_set_lines(w, close_line(at), max_width, format),
{
    let words = split_words_spec(at.line);
    let j = at.done.len() as int;
    let indent = indent_at(j, format);
    lemma_split_words_are_words(at.line);
    lemma_split_cut(indent, words);
    let closed = close_line(at);
    assert forall|i: int| 0 <= i < closed.len() implies is_set_line(
        w,
        #[trigger] closed[i],
        i,
        max_width,
        format,
    ) by {
        if i < j {
            assert(closed[i] == at.done[i]);
        } else {
            assert(closed[i] == cut(at.line));
        }
    }
}

/// A word more leaves a word wrap in order.
pub proof fn lemma_place_word_is_setting<S: Scalar>(
    w: spec_fn(char, u32) -> S,
    at: Wrapping<S>,
    word: Seq<char>,
    max_width: S,
    format: TextFormat<S>,
)
    requires
        is_setting(w, at, max_width, format),
        is_word(word),
    ensures
        is_setting(
            w,
            place_word(
                at,
                word,
                text_width(w, word, format.font_size),
                w(' ', format.font_size),
                max_width,
                format,
            ),
            max_width,
            format,
        ),
{
    let size = format.font_size;
    let space = w(' ', size);
    let width = text_width(w, word, size);
    let next = place_word(at, word, width, space, max_width, format);
    let on = if stays_on_line(at.width, width, max_width) {
        at
    } else {
        open_line(close_line(at), space, format)
    };
    if !stays_on_line(at.width, width, max_width) {
        lemma_close_line_is_set(w, at, max_width, format);
        lemma_open_line_is_setting(w, close_line(at), max_width, format);
    }
    assert(is_setting(w, on, max_width, format));
    let words = split_words_spec(on.line);
    let j = on.done.len() as int;
    let indent = indent_at(j, format);
    let start = indent_width_at(w, j, format);
    let more = words.push(word);
    lemma_split_words_are_words(on.line);
    assert(all_words(more)) by {
        assert forall|i: int| 0 <= i < more.len() implies is_word(#[trigger] more[i]) by {
            if i < words.len() {
                assert(more[i] == words[i]);
            }
        }
    }
    assert(more.drop_last() =~= words);
    assert(next.line =~= padded(indent, more));
    lemma_split_padded(indent, more);
    assert(split_words_spec(next.line) == more);
    assert(next.width == run_width(w, start, more, space, size));
    assert forall|i: int| 1 <= i < more.len() implies #[trigger] word_stays(
        w,
        start,
        more,
        i,
        space,
        max_width,
        size,
    ) by {
        if i < words.len() {
            assert(more.take(i) =~= words.take(i));
            assert(more[i] == words[i]);
            assert(word_stays(w, start, words, i, space, max_width, size));
        } else {
            assert(more.take(i) =~= words);
            assert(words.len() >= 1);
            assert(on == at) by {
                if !stays_on_line(at.width, width, max_width) {
                    lemma_split_spaces(indent_at(close_line(at).len() as int, format));
                }
            }
        }
    }
}

/// Some words more leave a word wrap in order.
pub proof fn lemma_place_words_is_setting<S: Scalar>(
    w: spec_fn(char, u32) -> S,
    at: Wrapping<S>,
    words: Seq<Seq<char>>,
    max_width: S,
    format: TextFormat<S>,
)
    requires
        is_setting(w, at, max_width, format),
        all_words(words),
    ensures
        is_setting(
            w,
            place_words(
                at,
                measure_words(w, words, format.font_size),
                w(' ', format.font_size),
                max_width,
                format,
            ),
            max_width,
            format,
        ),
    decreases words.len(),
{
    let measured = measure_words(w, words, format.font_size);
    if words.len() > 0 {
        let before = words.drop_last();
        assert(all_words(before)) by {
            assert forall|i: int| 0 <= i < before.len() implies is_word(#[trigger] before[i]) by {
                assert(before[i] == words[i]);
            }
        }
        lemma_place_words_is_setting(w, at, before, max_width, format);
        assert(measured.drop_last() =~= measure_words(w, before, format.font_size));
        assert(measured.last() == (words.last(), text_width(w, words.last(), format.font_size)));
        lemma_place_word_is_setting(
            w,
            place_words(
                at,
                measure_words(w, before, format.font_size),
                w(' ', format.font_size),
                max_width,
                format,
            ),
            words.last(),
            max_width,
            format,
        );
    }
}

/// Every line that word wrap hands out is as word wrap makes it: its
/// indentation and its words with one space between them, where each word
/// but the first stays behind the words before it.
pub proof fn lemma_wrapped_lines_are_set<S: Scalar>(
    w: spec_fn(char, u32) -> S,
    paragraphs: Seq<Seq<char>>,
    max_width: S,
    format: TextFormat<S>,
)
    ensures
        are_set_lines(w, wrap_paragraphs(w, paragraphs, max_width, format), max_width, format),
    decreases paragraphs.len(),
{
    if paragraphs.len() > 0 {
        lemma_wrapped_lines_are_set(w, paragraphs.drop_last(), max_width, format);
        let done = wrap_paragraphs(w, paragraphs.drop_last(), max_width, format);
        let words = split_words_spec(paragraphs.last());
        lemma_split_words_are_words(paragraphs.last());
        lemma_open_line_is_setting(w, done, max_width, format);
        let at = open_line(done, w(' ', format.font_size), format);
        lemma_place_words_is_setting(w, at, words, max_width, format);
        lemma_close_line_is_set(
            w,
            place_words(
                at,
                measure_words(w, words, format.font_size),
                w(' ', format.font_size),
                max_width,
                format,
            ),
            max_width,
            format,
        );
    }
}

/// Placing the first `n` words of a line whose words all stay puts them
/// on one line.
pub proof fn lemma_words_stay_on_line<S: Scalar>(
    w: spec_fn(char, u32) -> S,
    done: Seq<Seq<char>>,
    words: Seq<Seq<char>>,
    n: int,
    max_width: S,
    format: TextFormat<S>,
)
    requires
        0 <= n <= words.len(),
        forall|i: int|
            0 <= i < words.len() ==> #[trigger] word_stays(
                w,
                indent_width_at(w, done.len() as int, format),
                words,
                i,
                w(' ', format.font_size),
                max_width,
                format.font_size,
            ),
    ensures
        place_words(
            open_line(done, w(' ', format.font_size), format),
            measure_words(w, words, format.font_size).take(n),
            w(' ', format.font_size),
            max_width,
            format,
        ) == (Wrapping {
            done,
            line: padded(indent_at(done.len() as int, format), words.take(n)),
            width: run_width(
                w,
                indent_width_at(w, done.len() as int, format),
                words.take(n),
                w(' ', format.font_size),
                format.font_size,
            ),
        }),
    decreases n,
{
    let size = format.font_size;
    let space = w(' ', size);
    let measured = measure_words(w, words, size);
    let indent = indent_at(done.len() as int, format);
    if n == 0 {
        assert(measured.take(0) =~= Seq::empty());
        assert(words.take(0) =~= Seq::empty());
        assert(padded(indent, words.take(0)) =~= spaces(indent));
    } else {
        lemma_words_stay_on_line(w, done, words, n - 1, max_width, format);
        assert(measured.take(n).drop_last() =~= measured.take(n - 1));
        assert(measured.take(n).last() == (words[n - 1], text_width(w, words[n - 1], size)));
        assert(words.take(n).drop_last() =~= words.take(n - 1));
        assert(words.take(n).last() == words[n - 1]);
        assert(word_stays(
            w,
            indent_width_at(w, done.len() as int, format),
            words,
            n - 1,
            space,
            max_width,
            size,
        ));
        assert(padded(indent, words.take(n)) =~= padded(indent, words.take(n - 1)) + words[n - 1]
            + seq![' ']);
    }
}

/// A line that is as word wrap makes it, and whose first word stays behind
/// its indentation, wraps to itself.
pub proof fn lemma_set_line_wraps_to_itself<S: Scalar>(
    w: spec_fn(char, u32) -> S,
    done: Seq<Seq<char>>,
    line: Seq<char>,
    max_width: S,
    format: TextFormat<S>,
)
    requires
        is_set_line(w, line, done.len() as int, max_width, format),
        first_word_stays(w, line, done.len() as int, max_width, format),
    ensures
        wrap_paragraph(
            done,
            measure_words(w, split_words_spec(line), format.font_size),
            w(' ', format.font_size),
            max_width,
            format,
        ) == done.push(line),
{
    let size = format.font_size;
    let space = w(' ', size);
    let words = split_words_spec(line);
    let start = indent_width_at(w, done.len() as int, format);
    assert forall|i: int| 0 <= i < words.len() implies #[trigger] word_stays(
        w,
        start,
        words,
        i,
        space,
        max_width,
        size,
    ) by {
        if i == 0 {
            assert(words.take(0) =~= Seq::empty());
        }
    }
    lemma_words_stay_on_line(w, done, words, words.len() as int, max_width, format);
    assert(measure_words(w, words, size).take(words.len() as int) =~= measure_words(w, words, size));
    assert(words.take(words.len() as int) =~= words);
}

/// An open line holds spaces and characters that are not white space, and
/// nothing else.
pub proof fn lemma_padded_chars(indent: nat, words: Seq<Seq<char>>, i: int)
    requires
        all_words(words),
        0 <= i < padded(indent, words).len(),
    ensures
        padded(indent, words)[i] == ' ' || !is_whitespace_spec(padded(indent, words)[i]),
    decreases words.len(),
{
    if words.len() > 0 {
        let before = words.drop_last();
        let line = padded(indent, before);
        assert(padded(indent, words) =~= line + words.last() + seq![' ']);
        assert(is_word(words.last()));
        if i < line.len() {
            assert(all_words(before)) by {
                assert forall|k: int| 0 <= k < before.len() implies is_word(#[trigger] before[k]) by {
                    assert(before[k] == words[k]);
                }
            }
            lemma_padded_chars(indent, before, i);
        } else if i < line.len() + words.last().len() {
            assert(padded(indent, words)[i] == words.last()[i - line.len()]);
        }
    } else {
        assert(padded(indent, words) =~= spaces(indent));
    }
}

/// A line that is as word wrap makes it has no line feed in it.
pub proof fn lemma_set_line_has_no_line_feed<S: Scalar>(
    w: spec_fn(char, u32) -> S,
    line: Seq<char>,
    j: int,
    max_width: S,
    format: TextFormat<S>,
)
    requires
        is_set_line(w, line, j, max_width, format),
    ensures
        forall|i: int| 0 <= i < line.len() ==> line[i] != '\n',
{
    let words = split_words_spec(line);
    lemma_split_words_are_words(line);
    assert forall|i: int| 0 <= i < line.len() implies line[i] != '\n' by {
        let open = padded(indent_at(j, format), words);
        assert(line[i] == open[i]);
        lemma_padded_chars(indent_at(j, format), words, i);
    }
}

/// Lines without line feeds, of which the last is not empty, are the
/// lines of the text that they are put together to.
pub proof fn lemma_split_joined_lines(lines: Seq<Seq<char>>)
    requires
        forall|j: int, i: int|
            0 <= j < lines.len() && 0 <= i < lines[j].len() ==> (#[trigger] lines[j][i]) != '\n',
        lines.len() > 0 ==> lines.last().len() > 0,
    ensures
        split_lines_spec(join_lines(lines)) == lines,
    decreases lines.len(),
{
    if lines.len() == 0 {
    } else if lines.len() == 1 {
        let text = lines[0];
        assert forall|k: int| 0 <= k < text.len() implies text[k] != '\n' by {
            assert(lines[0][k] != '\n');
        }
        lemma_line_end(text, text.len() as int);
        assert(text.take(text.len() as int) =~= text);
        assert(seq![text] + Seq::<Seq<char>>::empty() =~= lines);
    } else {
        let first = lines[0];
        let rest = lines.drop_first();
        let text = join_lines(lines);
        assert forall|j: int, i: int| 0 <= j < rest.len() && 0 <= i < rest[j].len() implies (
        #[trigger] rest[j][i]) != '\n' by {
            assert(rest[j] == lines[j + 1]);
            assert(lines[j + 1][i] != '\n');
        }
        assert(rest.last() == lines.last());
        lemma_split_joined_lines(rest);
        assert(text =~= first + seq!['\n'] + join_lines(rest));
        assert forall|k: int| 0 <= k < first.len() implies text[k] != '\n' by {
            assert(text[k] == lines[0][k]);
        }
        assert(text[first.len() as int] == '\n');
        lemma_line_end(text, first.len() as int);
        assert(text.take(first.len() as int) =~= first);
        assert(text.skip(first.len() as int + 1) =~= join_lines(rest));
        assert(seq![first] + rest =~= lines);
    }
}

/// Lines that are as word wrap makes them, and whose first words stay
/// behind their indentation, wrap to themselves, one after the other.
pub proof fn lemma_set_lines_wrap_to_themselves<S: Scalar>(
    w: spec_fn(char, u32) -> S,
    lines: Seq<Seq<char>>,
    n: int,
    max_width: S,
    format: TextFormat<S>,
)
    requires
        0 <= n <= lines.len(),
        are_set_lines(w, lines, max_width, format),
        forall|j: int|
            0 <= j < lines.len() ==> first_word_stays(w, #[trigger] lines[j], j, max_width, format),
    ensures
        wrap_paragraphs(w, lines.take(n), max_width, format) == lines.take(n),
    decreases n,
{
    if n == 0 {
        assert(lines.take(0) =~= Seq::empty());
    } else {
        lemma_set_lines_wrap_to_themselves(w, lines, n - 1, max_width, format);
        assert(lines.take(n).drop_last() =~= lines.take(n - 1));
        assert(lines.take(n).last() == lines[n - 1]);
        assert(is_set_line(w, lines[n - 1], n - 1, max_width, format));
        assert(first_word_stays(w, lines[n - 1], n - 1, max_width, format));
        lemma_set_line_wraps_to_itself(w, lines.take(n - 1), lines[n - 1], max_width, format);
        assert(lines.take(n - 1).push(lines[n - 1]) =~= lines.take(n));
    }
}

/// Wrapping what was wrapped changes nothing.
///
/// The lines that wrapping a text gives, put together with line feeds and
/// wrapped at the same width in the same format, are the same lines again,
/// provided that the last of them is not empty and that the first word of
/// each stays behind the line's indentation. An empty last line would be
/// lost in the text put together, which ends in the line feed before it;
/// and a word that does not stay behind an indentation is moved to the
/// next line each time it is wrapped.
pub proof fn lemma_wrap_again<S: Scalar>(
    w: spec_fn(char, u32) -> S,
    text: Seq<char>,
    max_width: S,
    format: TextFormat<S>,
)
    requires
        wrap_text(w, text, max_width, format).len() > 0 ==> wrap_text(
            w,
            text,
            max_width,
            format,
        ).last().len() > 0,
        forall|j: int|
            0 <= j < wrap_text(w, text, max_width, format).len() ==> first_word_stays(
                w,
                #[trigger] wrap_text(w, text, max_width, format)[j],
                j,
                max_width,
                format,
            ),
    ensures
        wrap_text(w, join_lines(wrap_text(w, text, max_width, format)), max_width, format)
            == wrap_text(w, text, max_width, format),
{
    let lines = wrap_text(w, text, max_width, format);
    lemma_wrapped_lines_are_set(w, split_lines_spec(text), max_width, format);
    assert forall|j: int, i: int| 0 <= j < lines.len() && 0 <= i < lines[j].len() implies (
    #[trigger] lines[j][i]) != '\n' by {
        lemma_set_line_has_no_line_feed(w, lines[j], j, max_width, format);
    }
    lemma_split_joined_lines(lines);
    lemma_set_lines_wrap_to_themselves(w, lines, lines.len() as int, max_width, format);
    assert(lines.take(lines.len() as int) =~= lines);
}

} // verus!
