use pane::glyphs::{substitute, Glyphs, REPLACEMENT_CHARACTER};
use pane::math::{Cos, Pow, Scalar, Sin, ZeroOneTwo};
use pane::text::CharacterWidthCache;
use std::cell::Cell;

#[derive(Clone, Copy, Debug, PartialEq)]
struct F(f64);

impl ZeroOneTwo for F {
    const ZERO: Self = F(0.0);
    const ONE: Self = F(1.0);
    const TWO: Self = F(2.0);
}

impl Sin for F {
    type Output = F;
    fn sin_spec(&self) -> F {
        F(self.0.sin())
    }
    fn sin(&self) -> F {
        F(self.0.sin())
    }
}

impl Cos for F {
    type Output = F;
    fn cos_spec(&self) -> F {
        F(self.0.cos())
    }
    fn cos(&self) -> F {
        F(self.0.cos())
    }
}

impl Pow<F> for F {
    type Output = F;
    fn pow_spec(&self, power: F) -> F {
        F(self.0.powf(power.0))
    }
    fn pow(&self, power: F) -> F {
        F(self.0.powf(power.0))
    }
}

impl Scalar for F {
    fn add_spec(self, rhs: Self) -> Self {
        F(self.0 + rhs.0)
    }
    fn sub_spec(self, rhs: Self) -> Self {
        F(self.0 - rhs.0)
    }
    fn mul_spec(self, rhs: Self) -> Self {
        F(self.0 * rhs.0)
    }
    fn div_spec(self, rhs: Self) -> Self {
        F(self.0 / rhs.0)
    }
    fn neg_spec(self) -> Self {
        F(-self.0)
    }
    fn lt_spec(self, rhs: Self) -> bool {
        self.0 < rhs.0
    }
    fn eq_spec(self, rhs: Self) -> bool {
        self.0 == rhs.0
    }
    fn from_u32_spec(n: u32) -> Self {
        F(f64::from(n))
    }
    fn add(self, rhs: Self) -> Self {
        F(self.0 + rhs.0)
    }
    fn sub(self, rhs: Self) -> Self {
        F(self.0 - rhs.0)
    }
    fn mul(self, rhs: Self) -> Self {
        F(self.0 * rhs.0)
    }
    fn div(self, rhs: Self) -> Self {
        F(self.0 / rhs.0)
    }
    fn neg(self) -> Self {
        F(-self.0)
    }
    fn lt(self, rhs: Self) -> bool {
        self.0 < rhs.0
    }
    fn eq(self, rhs: Self) -> bool {
        self.0 == rhs.0
    }
    fn from_u32(n: u32) -> Self {
        F(f64::from(n))
    }
}

#[test]
fn a_width_is_measured_once() {
    let asked = Cell::new(0u32);
    let mut glyphs = Glyphs::new(|c: char, size: u32| {
        asked.set(asked.get() + 1);
        F(f64::from(size) * if c == 'i' { 0.25 } else { 0.5 })
    });
    assert_eq!(glyphs.char_width('a', 20), F(10.0));
    assert_eq!(glyphs.char_width('a', 20), F(10.0));
    assert_eq!(asked.get(), 1);
    assert_eq!(glyphs.char_width('i', 20), F(5.0));
    assert_eq!(glyphs.char_width('a', 40), F(20.0));
    assert_eq!(asked.get(), 3);
    assert_eq!(glyphs.char_width('i', 20), F(5.0));
    assert_eq!(asked.get(), 3);
}

#[test]
fn the_width_of_a_string_is_the_sum() {
    let mut glyphs = Glyphs::new(|_c: char, size: u32| F(f64::from(size) / 2.0));
    assert_eq!(glyphs.width("", 20), F(0.0));
    assert_eq!(glyphs.width("abc", 20), F(30.0));
}

#[test]
fn a_missing_glyph_is_replaced() {
    assert_eq!(substitute('x', 0, false), REPLACEMENT_CHARACTER);
    assert_eq!(substitute('x', 0, true), 'x');
    assert_eq!(substitute('x', 7, false), 'x');
    assert_eq!(substitute('x', 7, true), 'x');
    assert_eq!(REPLACEMENT_CHARACTER, '\u{FFFD}');
}
