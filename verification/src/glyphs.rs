//! A cache of character widths in front of whatever measures them.
//!
//! Measuring a glyph means asking a font, which is slow and always gives
//! the same answer. `Glyphs` asks once for each character at each font size
//! and remembers the answer for as long as it lives.

use vstd::prelude::*;
use std::collections::HashMap;
use crate::math::Scalar;
use crate::text::CharacterWidthCache;

verus! {

/// The character that stands in for one that a font has no glyph for.
pub const REPLACEMENT_CHARACTER: char = '\u{FFFD}';

/// Whether a font lacks a character: it answers with the glyph numbered
/// zero, and that glyph has no outline.
pub open spec fn is_missing(glyph_id: u32, has_outline: bool) -> bool {
    glyph_id == 0 && !has_outline
}

/// Pick the character to measure in place of one that was looked up in a
/// font: the replacement character where the font lacks the character, and
/// the character itself where it has it.
pub fn substitute(character: char, glyph_id: u32, has_outline: bool) -> (measured: char)
    ensures
        measured == if is_missing(glyph_id, has_outline) {
            REPLACEMENT_CHARACTER
        } else {
            character
        },
{
    if glyph_id == 0 && !has_outline {
        REPLACEMENT_CHARACTER
    } else {
        character
    }
}

/// The key under which the width of a character at a font size is kept:
/// the font size in the upper half and the character in the lower.
pub open spec fn key_of(character: char, font_size: u32) -> u64 {
    (font_size as u64 * 0x1_0000_0000 + character as u32 as u64) as u64
}

/// A cache of character widths in front of a function that measures.
///
/// The function is asked at most once for each character at each font
/// size. It must take every character and font size, and give the same
/// width whenever it is asked the same.
#[verifier::reject_recursive_types(S)]
pub struct Glyphs<S: Scalar, M: Fn(char, u32) -> S> {
    widths: HashMap<u64, S>,
    measure: M,
}

impl<S: Scalar, M: Fn(char, u32) -> S> Glyphs<S, M> {
    /// Whether a function can serve as the measure behind a cache: it takes
    /// every character and font size, and no two of its answers to the same
    /// question differ.
    pub open spec fn measures(measure: M) -> bool {
        &&& forall|c: char, s: u32| call_requires(measure, (c, s))
        &&& forall|c: char, s: u32, a: S, b: S|
            call_ensures(measure, (c, s), a) && call_ensures(measure, (c, s), b) ==> a == b
    }

    #[verifier::type_invariant]
    spec fn inv(self) -> bool {
        &&& Self::measures(self.measure)
        &&& forall|c: char, s: u32| #[trigger]
            self.widths@.contains_key(key_of(c, s)) ==> call_ensures(
                self.measure,
                (c, s),
                self.widths@[key_of(c, s)],
            )
    }

    /// The function that measures.
    pub closed spec fn measure_spec(self) -> M {
        self.measure
    }

    /// Whether the width of a character at a font size is remembered.
    pub closed spec fn remembers(self, character: char, font_size: u32) -> bool {
        self.widths@.contains_key(key_of(character, font_size))
    }

    /// Make an empty cache in front of a function that measures.
    pub fn new(measure: M) -> (glyphs: Self)
        requires
            Self::measures(measure),
        ensures
            glyphs.measure_spec() == measure,
            forall|c: char, s: u32| !glyphs.remembers(c, s),
    {
        Glyphs { widths: HashMap::new(), measure }
    }
}

impl<S: Scalar, M: Fn(char, u32) -> S> CharacterWidthCache for Glyphs<S, M> {
    type Scalar = S;

    /// The width of a character at a font size is what the function that
    /// measures gives for it.
    open spec fn char_width_spec(&self, character: char, font_size: u32) -> S {
        choose|width: S| call_ensures(self.measure_spec(), (character, font_size), width)
    }

    /// Get the width of a character at a font size: the remembered one
    /// where there is one, and else a measured one, which is remembered
    /// from then on.
    fn char_width(&mut self, character: char, font_size: u32) -> (width: S)
        ensures
            call_ensures(old(self).measure_spec(), (character, font_size), width),
            final(self).measure_spec() == old(self).measure_spec(),
            final(self).remembers(character, font_size),
            forall|c: char, s: u32| old(self).remembers(c, s) ==> final(self).remembers(c, s),
    {
        proof {
            use_type_invariant(&*self);
            lemma_key_of(character, font_size);
        }
        broadcast use vstd::std_specs::hash::group_hash_axioms;

        let key = (font_size as u64) * 0x1_0000_0000 + (character as u32 as u64);
        let known = match self.widths.get(&key) {
            Some(width) => Some(*width),
            None => None,
        };
        match known {
            Some(width) => width,
            None => {
                let width = (self.measure)(character, font_size);
                let mut widths: HashMap<u64, S> = HashMap::new();
                std::mem::swap(&mut self.widths, &mut widths);
                widths.insert(key, width);
                proof {
                    assert forall|c: char, s: u32| #[trigger]
                        widths@.contains_key(key_of(c, s)) implies call_ensures(
                        self.measure,
                        (c, s),
                        widths@[key_of(c, s)],
                    ) by {
                        lemma_key_of_differs(c, s, character, font_size);
                    }
                }
                std::mem::swap(&mut self.widths, &mut widths);
                width
            },
        }
    }
}

/// A key fits in 64 bits.
pub proof fn lemma_key_of(character: char, font_size: u32)
    ensures
        key_of(character, font_size) == font_size as int * 0x1_0000_0000 + character as u32 as int,
{
}

/// Two keys are the same only for the same character at the same font
/// size.
pub proof fn lemma_key_of_differs(c: char, s: u32, d: char, t: u32)
    ensures
        key_of(c, s) == key_of(d, t) ==> c == d && s == t,
{
    lemma_key_of(c, s);
    lemma_key_of(d, t);
}

} // verus!
