//! Text as characters: its lines, and the words of a line.
//!
//! A text is cut into lines at each line feed, and a line into words at
//! each run of white space. Both cuts are stated over sequences of
//! characters and computed over vectors of them.

use vstd::prelude::*;

verus! {

/// `String::push` appends one character to the end of the string.
pub assume_specification[ String::push ](s: &mut String, ch: char)
    ensures
        final(s)@ == old(s)@.push(ch),
;

/// Whether a character is white space: one of the characters to which
/// Unicode gives the property `White_Space`.
pub open spec fn is_whitespace_spec(c: char) -> bool {
    let n = c as u32;
    ||| 0x09 <= n <= 0x0D
    ||| n == 0x20
    ||| n == 0x85
    ||| n == 0xA0
    ||| n == 0x1680
    ||| 0x2000 <= n <= 0x200A
    ||| n == 0x2028
    ||| n == 0x2029
    ||| n == 0x202F
    ||| n == 0x205F
    ||| n == 0x3000
}

/// Tell whether a character is white space.
pub fn is_whitespace(c: char) -> (b: bool)
    ensures
        b == is_whitespace_spec(c),
{
    let n = c as u32;
    (0x09 <= n && n <= 0x0D) || n == 0x20 || n == 0x85 || n == 0xA0 || n == 0x1680 || (0x2000 <= n
        && n <= 0x200A) || n == 0x2028 || n == 0x2029 || n == 0x202F || n == 0x205F || n == 0x3000
}

/// The views of some vectors of characters, in their order.
pub open spec fn views(v: Seq<Vec<char>>) -> Seq<Seq<char>> {
    Seq::new(v.len(), |i: int| v[i]@)
}

/// The views of some strings, in their order.
pub open spec fn string_views(v: Seq<String>) -> Seq<Seq<char>> {
    Seq::new(v.len(), |i: int| v[i]@)
}

/// `count` spaces.
pub open spec fn spaces(count: nat) -> Seq<char> {
    Seq::new(count, |i: int| ' ')
}

/// The characters of a string, in a vector.
pub fn chars_of(text: &str) -> (chars: Vec<char>)
    ensures
        chars@ == text@,
{
    let mut chars: Vec<char> = Vec::new();
    for c in it: text.chars()
        invariant
            it.seq() == text@,
            chars@ == text@.take(it.index() as int),
    {
        chars.push(c);
        assert(text@.take(it.index() + 1) =~= text@.take(it.index() as int).push(c));
    }
    assert(text@.take(text@.len() as int) =~= text@);
    chars
}

/// The string that some characters spell.
pub fn string_of(chars: &Vec<char>) -> (s: String)
    ensures
        s@ == chars@,
{
    let mut s = String::new();
    let mut i: usize = 0;
    while i < chars.len()
        invariant
            i <= chars.len(),
            s@ == chars@.take(i as int),
        decreases chars.len() - i,
    {
        s.push(chars[i]);
        assert(chars@.take(i + 1) =~= chars@.take(i as int).push(chars[i as int]));
        i += 1;
    }
    assert(chars@.take(chars.len() as int) =~= chars@);
    s
}

/// A vector of `count` spaces.
pub fn spaces_of(count: usize) -> (v: Vec<char>)
    ensures
        v@ == spaces(count as nat),
{
    let mut v: Vec<char> = Vec::new();
    let mut i: usize = 0;
    while i < count
        invariant
            i <= count,
            v@ == spaces(i as nat),
        decreases count - i,
    {
        v.push(' ');
        assert(v@ =~= spaces((i + 1) as nat));
        i += 1;
    }
    v
}

/// How many characters stand before the first line feed of a text; all of
/// them where it has none.
pub open spec fn line_end(text: Seq<char>) -> int
    decreases text.len(),
{
    if text.len() == 0 || text[0] == '\n' {
        0
    } else {
        1 + line_end(text.drop_first())
    }
}

/// The lines of a text: what stands between its line feeds. A line feed at
/// the very end ends the last line and begins no further one, so the empty
/// text has no lines and a text of one line feed has one empty line.
pub open spec fn split_lines_spec(text: Seq<char>) -> Seq<Seq<char>>
    decreases text.len(),
{
    if text.len() == 0 {
        Seq::empty()
    } else {
        let end = line_end(text);
        let rest = if 0 <= end < text.len() {
            split_lines_spec(text.skip(end + 1))
        } else {
            Seq::empty()
        };
        seq![text.take(end)] + rest
    }
}

/// The first line feed of a text is where no line feed stands before it.
pub proof fn lemma_line_end(text: Seq<char>, end: int)
    requires
        0 <= end <= text.len(),
        forall|k: int| 0 <= k < end ==> text[k] != '\n',
        end < text.len() ==> text[end] == '\n',
    ensures
        line_end(text) == end,
    decreases text.len(),
{
    if text.len() == 0 || text[0] == '\n' {
    } else {
        assert forall|k: int| 0 <= k < end - 1 implies text.drop_first()[k] != '\n' by {
            assert(text.drop_first()[k] == text[k + 1]);
        }
        lemma_line_end(text.drop_first(), end - 1);
    }
}

/// Cut a text into its lines.
pub fn split_lines(text: &Vec<char>) -> (lines: Vec<Vec<char>>)
    ensures
        views(lines@) == split_lines_spec(text@),
{
    let n = text.len();
    let mut lines: Vec<Vec<char>> = Vec::new();
    let mut start: usize = 0;
    assert(views(lines@) =~= Seq::empty());
    assert(text@.skip(0) =~= text@);
    while start < n
        invariant
            n == text.len(),
            start <= n,
            views(lines@) + split_lines_spec(text@.skip(start as int)) == split_lines_spec(text@),
        decreases n - start,
    {
        let ghost rest = text@.skip(start as int);
        let mut end: usize = start;
        let mut line: Vec<char> = Vec::new();
        while end < n && text[end] != '\n'
            invariant
                n == text.len(),
                start <= end <= n,
                forall|k: int| start <= k < end ==> text[k] != '\n',
                line@ == text@.subrange(start as int, end as int),
            decreases n - end,
        {
            line.push(text[end]);
            assert(text@.subrange(start as int, end + 1) =~= text@.subrange(
                start as int,
                end as int,
            ).push(text[end as int]));
            end += 1;
        }
        proof {
            assert forall|k: int| 0 <= k < end - start implies rest[k] != '\n' by {
                assert(rest[k] == text[start + k]);
            }
            lemma_line_end(rest, end - start);
            assert(rest.take(end - start) =~= line@);
            if end < n {
                assert(rest.skip(end - start + 1) =~= text@.skip(end + 1));
            }
            let ghost before = views(lines@);
            assert(views(lines@.push(line)) =~= before.push(line@));
            assert(before.push(line@) + split_lines_spec(
                if end < n {
                    text@.skip(end + 1)
                } else {
                    Seq::empty()
                },
            ) =~= before + split_lines_spec(rest));
        }
        lines.push(line);
        if end < n {
            start = end + 1;
        } else {
            start = end;
            assert(text@.skip(n as int) =~= Seq::empty());
        }
    }
    assert(text@.skip(n as int) =~= Seq::empty());
    assert(views(lines@) + Seq::<Seq<char>>::empty() =~= views(lines@));
    lines
}

/// How many white-space characters a text begins with.
pub open spec fn gap_len(text: Seq<char>) -> int
    decreases text.len(),
{
    if text.len() == 0 || !is_whitespace_spec(text[0]) {
        0
    } else {
        1 + gap_len(text.drop_first())
    }
}

/// How many characters that are not white space a text begins with.
pub open spec fn word_len(text: Seq<char>) -> int
    decreases text.len(),
{
    if text.len() == 0 || is_whitespace_spec(text[0]) {
        0
    } else {
        1 + word_len(text.drop_first())
    }
}

/// The words of a text: its longest runs of characters that are not white
/// space, from left to right. White space only parts them, so a text of
/// white space has no words.
pub open spec fn split_words_spec(text: Seq<char>) -> Seq<Seq<char>>
    decreases text.len(),
{
    let gap = gap_len(text);
    if 0 <= gap < text.len() {
        let tail = text.skip(gap);
        let len = word_len(tail);
        if 0 < len <= tail.len() {
            seq![tail.take(len)] + split_words_spec(tail.skip(len))
        } else {
            Seq::empty()
        }
    } else {
        Seq::empty()
    }
}

/// A text begins with `gap` white-space characters where those are white
/// space and the next one is not.
pub proof fn lemma_gap_len(text: Seq<char>, gap: int)
    requires
        0 <= gap <= text.len(),
        forall|k: int| 0 <= k < gap ==> is_whitespace_spec(text[k]),
        gap < text.len() ==> !is_whitespace_spec(text[gap]),
    ensures
        gap_len(text) == gap,
    decreases text.len(),
{
    if text.len() == 0 || !is_whitespace_spec(text[0]) {
    } else {
        assert forall|k: int| 0 <= k < gap - 1 implies is_whitespace_spec(text.drop_first()[k]) by {
            assert(text.drop_first()[k] == text[k + 1]);
        }
        lemma_gap_len(text.drop_first(), gap - 1);
    }
}

/// A text begins with a word of `len` characters where those are not white
/// space and the next one is.
pub proof fn lemma_word_len(text: Seq<char>, len: int)
    requires
        0 <= len <= text.len(),
        forall|k: int| 0 <= k < len ==> !is_whitespace_spec(text[k]),
        len < text.len() ==> is_whitespace_spec(text[len]),
    ensures
        word_len(text) == len,
    decreases text.len(),
{
    if text.len() == 0 || is_whitespace_spec(text[0]) {
    } else {
        assert forall|k: int| 0 <= k < len - 1 implies !is_whitespace_spec(text.drop_first()[k]) by {
            assert(text.drop_first()[k] == text[k + 1]);
        }
        lemma_word_len(text.drop_first(), len - 1);
    }
}

/// Cut a line into its words.
pub fn split_words(text: &Vec<char>) -> (words: Vec<Vec<char>>)
    ensures
        views(words@) == split_words_spec(text@),
{
    let n = text.len();
    let mut words: Vec<Vec<char>> = Vec::new();
    let mut start: usize = 0;
    assert(views(words@) =~= Seq::empty());
    assert(text@.skip(0) =~= text@);
    loop
        invariant
            n == text.len(),
            start <= n,
            views(words@) + split_words_spec(text@.skip(start as int)) == split_words_spec(text@),
        ensures
            views(words@) == split_words_spec(text@),
        decreases n - start,
    {
        let ghost rest = text@.skip(start as int);
        let mut begin: usize = start;
        while begin < n && is_whitespace(text[begin])
            invariant
                n == text.len(),
                start <= begin <= n,
                forall|k: int| start <= k < begin ==> is_whitespace_spec(text[k]),
            decreases n - begin,
        {
            begin += 1;
        }
        proof {
            assert forall|k: int| 0 <= k < begin - start implies is_whitespace_spec(rest[k]) by {
                assert(rest[k] == text[start + k]);
            }
            lemma_gap_len(rest, begin - start);
        }
        if begin >= n {
            assert(split_words_spec(rest) =~= Seq::empty());
            assert(views(words@) + Seq::<Seq<char>>::empty() =~= views(words@));
            break;
        }
        let ghost tail = rest.skip(begin - start);
        assert(tail =~= text@.skip(begin as int));
        let mut end: usize = begin;
        let mut word: Vec<char> = Vec::new();
        while end < n && !is_whitespace(text[end])
            invariant
                n == text.len(),
                begin <= end <= n,
                forall|k: int| begin <= k < end ==> !is_whitespace_spec(text[k]),
                word@ == text@.subrange(begin as int, end as int),
            decreases n - end,
        {
            word.push(text[end]);
            assert(text@.subrange(begin as int, end + 1) =~= text@.subrange(
                begin as int,
                end as int,
            ).push(text[end as int]));
            end += 1;
        }
        proof {
            assert forall|k: int| 0 <= k < end - begin implies !is_whitespace_spec(tail[k]) by {
                assert(tail[k] == text[begin + k]);
            }
            lemma_word_len(tail, end - begin);
            assert(end > begin);
            assert(tail.take(end - begin) =~= word@);
            assert(tail.skip(end - begin) =~= text@.skip(end as int));
            let ghost before = views(words@);
            assert(views(words@.push(word)) =~= before.push(word@));
            assert(before.push(word@) + split_words_spec(text@.skip(end as int)) =~= before
                + split_words_spec(rest));
        }
        words.push(word);
        start = end;
    }
    words
}

} // verus!
