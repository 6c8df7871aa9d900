use pane::math::{Cos, Pow, Scalar, Sin, ZeroOneTwo};
use pane::text::{widest_of, CharacterWidthCache, TextError, MIN_FONT_SIZE};
use pane::{Justification, Resize, TextFormat};

#[derive(Clone, Copy, Debug, PartialEq)]
struct F(f64);

impl ZeroOneTwo for F {
    const ZERO: Self = F(0.0);
    const ONE: Self = F(1.0);
    const TWO: Self = F(2.0);
}

impl Sin for F {
    type Output = F;
    fn sin_spec(&self) -> F {
        F(self.0.sin())
    }
    fn sin(&self) -> F {
        F(self.0.sin())
    }
}

impl Cos for F {
    type Output = F;
    fn cos_spec(&self) -> F {
        F(self.0.cos())
    }
    fn cos(&self) -> F {
        F(self.0.cos())
    }
}

impl Pow<F> for F {
    type Output = F;
    fn pow_spec(&self, power: F) -> F {
        F(self.0.powf(power.0))
    }
    fn pow(&self, power: F) -> F {
        F(self.0.powf(power.0))
    }
}

impl Scalar for F {
    fn add_spec(self, rhs: Self) -> Self {
        F(self.0 + rhs.0)
    }
    fn sub_spec(self, rhs: Self) -> Self {
        F(self.0 - rhs.0)
    }
    fn mul_spec(self, rhs: Self) -> Self {
        F(self.0 * rhs.0)
    }
    fn div_spec(self, rhs: Self) -> Self {
        F(self.0 / rhs.0)
    }
    fn neg_spec(self) -> Self {
        F(-self.0)
    }
    fn lt_spec(self, rhs: Self) -> bool {
        self.0 < rhs.0
    }
    fn eq_spec(self, rhs: Self) -> bool {
        self.0 == rhs.0
    }
    fn from_u32_spec(n: u32) -> Self {
        F(f64::from(n))
    }
    fn add(self, rhs: Self) -> Self {
        F(self.0 + rhs.0)
    }
    fn sub(self, rhs: Self) -> Self {
        F(self.0 - rhs.0)
    }
    fn mul(self, rhs: Self) -> Self {
        F(self.0 * rhs.0)
    }
    fn div(self, rhs: Self) -> Self {
        F(self.0 / rhs.0)
    }
    fn neg(self) -> Self {
        F(-self.0)
    }
    fn lt(self, rhs: Self) -> bool {
        self.0 < rhs.0
    }
    fn eq(self, rhs: Self) -> bool {
        self.0 == rhs.0
    }
    fn from_u32(n: u32) -> Self {
        F(f64::from(n))
    }
}

/// Every character is ten wide, at every font size.
struct TenWide;

impl CharacterWidthCache for TenWide {
    type Scalar = F;
    fn char_width_spec(&self, _character: char, _font_size: u32) -> F {
        F(10.0)
    }
    fn char_width(&mut self, _character: char, _font_size: u32) -> F {
        F(10.0)
    }
}

/// Every character is half as wide as the font is high.
struct HalfSize;

impl CharacterWidthCache for HalfSize {
    type Scalar = F;
    fn char_width_spec(&self, _character: char, font_size: u32) -> F {
        F(f64::from(font_size) / 2.0)
    }
    fn char_width(&mut self, _character: char, font_size: u32) -> F {
        F(f64::from(font_size) / 2.0)
    }
}

/// Every character is ten wide, but for `?`, whose width is no number.
struct NoNumber;

impl CharacterWidthCache for NoNumber {
    type Scalar = F;
    fn char_width_spec(&self, character: char, _font_size: u32) -> F {
        if character == '?' {
            F(f64::NAN)
        } else {
            F(10.0)
        }
    }
    fn char_width(&mut self, character: char, _font_size: u32) -> F {
        if character == '?' {
            F(f64::NAN)
        } else {
            F(10.0)
        }
    }
}

const WEATHER: &str = "Nice weather we are having, isn't it? It's such a beautiful day.";

fn rect(left: f64, top: f64, width: f64, height: f64) -> [F; 4] {
    [F(left), F(top), F(width), F(height)]
}

fn lines(text: &str, max_width: f64, format: TextFormat<F>) -> Vec<String> {
    TenWide.format_lines(text, F(max_width), format)
}

#[test]
fn weather_wraps_on_white_space() {
    let wrapped = lines(WEATHER, 120.0, TextFormat::new(20));
    assert_eq!(
        wrapped,
        vec!["Nice", "weather we", "are having,", "isn't it?", "It's such a", "beautiful", "day."]
    );
    let words: Vec<&str> = WEATHER.split_whitespace().collect();
    let again: Vec<&str> = wrapped.iter().flat_map(|line| line.split(' ')).collect();
    assert_eq!(again, words);
    for line in &wrapped {
        let width = TenWide.width(line, 20);
        assert!(width.0 < 120.0 || !line.contains(' '));
        assert_eq!(width, F(10.0 * line.chars().count() as f64));
    }
}

#[test]
fn a_word_wider_than_the_limit_has_a_line_of_its_own() {
    let wrapped = lines("a extraordinarily b", 50.0, TextFormat::new(20));
    assert_eq!(wrapped, vec!["a", "extraordinarily", "b"]);
}

#[test]
fn a_line_that_reaches_the_limit_breaks() {
    assert_eq!(lines("ab cd", 50.0, TextFormat::new(20)), vec!["ab", "cd"]);
    assert_eq!(lines("ab cd", 51.0, TextFormat::new(20)), vec!["ab cd"]);
}

#[test]
fn line_feeds_end_lines() {
    assert_eq!(lines("a\n\nb", 100.0, TextFormat::new(20)), vec!["a", "", "b"]);
    assert_eq!(lines("a\n", 100.0, TextFormat::new(20)), vec!["a"]);
    assert_eq!(lines("\n", 100.0, TextFormat::new(20)), vec![""]);
    assert_eq!(lines("a b\r\nc", 100.0, TextFormat::new(20)), vec!["a b", "c"]);
    assert!(lines("", 100.0, TextFormat::new(20)).is_empty());
    assert_eq!(lines("   ", 100.0, TextFormat::new(20)), vec![""]);
}

#[test]
fn white_space_between_words_becomes_one_space() {
    assert_eq!(lines("  a \t  b\u{3000}c  ", 1000.0, TextFormat::new(20)), vec!["a b c"]);
}

#[test]
fn the_first_line_has_its_own_indentation() {
    let format = TextFormat::new(20).first_line_indent(2).lines_indent(1);
    assert_eq!(lines("ab cd ef\ngh", 80.0, format), vec!["  ab cd", " ef", " gh"]);
}

#[test]
fn an_indented_line_without_words_loses_one_space() {
    let format = TextFormat::new(20).first_line_indent(3).lines_indent(2);
    assert_eq!(lines("\n\na", 100.0, format), vec!["  ", " ", "  a"]);
}

#[test]
fn a_word_that_does_not_fit_behind_the_indentation_leaves_it_alone() {
    let format = TextFormat::new(20).first_line_indent(2).lines_indent(1);
    assert_eq!(lines("abcdef", 50.0, format), vec![" ", " abcdef"]);
}

#[test]
fn wrapping_what_was_wrapped_changes_nothing() {
    for max_width in [30.0, 50.0, 80.0, 120.0, 200.0, 1000.0] {
        for first in [0, 3] {
            let format = TextFormat::new(20).first_line_indent(first);
            let once = lines(WEATHER, max_width, format);
            let twice = lines(&once.join("\n"), max_width, format);
            assert_eq!(twice, once);
        }
    }
    let text = "one two\n\nthree four five\nsix";
    let once = lines(text, 90.0, TextFormat::new(20));
    assert_eq!(lines(&once.join("\n"), 90.0, TextFormat::new(20)), once);
}

#[test]
fn a_word_that_leaves_its_indentation_moves_again() {
    let format = TextFormat::new(20).first_line_indent(2).lines_indent(1);
    let once = lines("abcdef", 50.0, format);
    assert_eq!(once, vec![" ", " abcdef"]);
    assert_eq!(lines(&once.join("\n"), 50.0, format), vec![" ", "", " abcdef"]);
}

#[test]
fn an_empty_last_line_is_lost_when_lines_are_put_together() {
    let once = lines("a\n\n", 50.0, TextFormat::new(20));
    assert_eq!(once, vec!["a", ""]);
    assert_eq!(lines(&once.join("\n"), 50.0, TextFormat::new(20)), vec!["a"]);
}

#[test]
fn the_width_of_a_text_adds_up_its_characters() {
    assert_eq!(TenWide.width("", 20), F(0.0));
    assert_eq!(TenWide.width("hello", 20), F(50.0));
    assert_eq!(TenWide.chars_width(&vec!['a', 'b'], 20), F(20.0));
    assert_eq!(HalfSize.width("hello", 20), F(50.0));
    assert_eq!(HalfSize.width("hello", 21), F(52.5));
}

#[test]
fn the_widest_line_is_found() {
    assert_eq!(TenWide.max_line_width(WEATHER, F(120.0), TextFormat::new(20)), Ok(F(110.0)));
    assert_eq!(TenWide.max_line_width("", F(120.0), TextFormat::new(20)), Ok(F(0.0)));
    assert_eq!(TenWide.max_line_width("abc", F(5.0), TextFormat::new(20)), Ok(F(30.0)));
}

#[test]
fn the_widest_of_widths_takes_the_last_among_equals() {
    assert_eq!(widest_of::<F>(&vec![]), Ok(F(0.0)));
    assert_eq!(widest_of(&vec![F(3.0)]), Ok(F(3.0)));
    assert_eq!(widest_of(&vec![F(3.0), F(7.0), F(5.0)]), Ok(F(7.0)));
    let widest = widest_of(&vec![F(0.0), F(-0.0)]);
    assert!(matches!(widest, Ok(w) if w.0.is_sign_negative()));
}

#[test]
fn widths_that_do_not_compare_have_no_widest() {
    assert_eq!(widest_of(&vec![F(3.0), F(f64::NAN)]), Err(TextError::IncomparableScalar));
    assert_eq!(widest_of(&vec![F(f64::NAN), F(3.0)]), Err(TextError::IncomparableScalar));
    assert!(matches!(widest_of(&vec![F(f64::NAN)]), Ok(w) if w.0.is_nan()));
    assert_eq!(
        NoNumber.max_line_width("ab\nc?", F(100.0), TextFormat::new(20)),
        Err(TextError::IncomparableScalar)
    );
    assert_eq!(
        NoNumber.text_fits_horizontal("ab\nc?", rect(0.0, 0.0, 100.0, 100.0), TextFormat::new(20)),
        Err(TextError::IncomparableScalar)
    );
    assert_eq!(
        NoNumber.text_fits("ab\nc?", rect(0.0, 0.0, 100.0, 100.0), TextFormat::new(20)),
        Err(TextError::IncomparableScalar)
    );
    assert_eq!(
        NoNumber.fit_max_font_size("ab\nc?", rect(0.0, 0.0, 100.0, 100.0), TextFormat::new(20)),
        Err(TextError::IncomparableScalar)
    );
    assert_eq!(
        NoNumber.fit_min_width("ab\nc?", rect(0.0, 0.0, 100.0, 100.0), TextFormat::new(20), F(1.0), 10),
        Err(TextError::IncomparableScalar)
    );
}

#[test]
fn lines_are_stacked_by_font_size_and_spacing() {
    let format = TextFormat::new(20).line_spacing(F(1.5));
    let placed = TenWide.justify_text("ab cd ef", rect(5.0, 7.0, 50.0, 100.0), format);
    assert_eq!(
        placed,
        vec![
            ([F(5.0), F(27.0)], "ab".to_string()),
            ([F(5.0), F(57.0)], "cd".to_string()),
            ([F(5.0), F(87.0)], "ef".to_string()),
        ]
    );
}

#[test]
fn a_centered_line_lies_about_the_center() {
    let frame = rect(10.0, 0.0, 200.0, 100.0);
    let placed = TenWide.justify_text("hello", frame, TextFormat::new(20).centered());
    assert_eq!(placed, vec![([F(85.0), F(20.0)], "hello".to_string())]);
    let half = TenWide.width("hello", 20).0 / 2.0;
    assert!((placed[0].0[0].0 + half - 110.0).abs() < 1e-9);
}

#[test]
fn a_line_on_the_right_ends_at_the_right_edge() {
    let frame = rect(10.0, 0.0, 200.0, 100.0);
    let placed = TenWide.justify_text("hello", frame, TextFormat::new(20).right());
    assert_eq!(placed, vec![([F(160.0), F(20.0)], "hello".to_string())]);
    let placed = TenWide.justify_text("hello", frame, TextFormat::new(20).left());
    assert_eq!(placed, vec![([F(10.0), F(20.0)], "hello".to_string())]);
    assert!(TenWide.justify_text("", frame, TextFormat::new(20)).is_empty());
}

#[test]
fn text_fits_a_width_that_is_larger_than_its_widest_line() {
    let format = TextFormat::new(20);
    assert_eq!(TenWide.text_fits_horizontal("abc", rect(0.0, 0.0, 31.0, 1.0), format), Ok(true));
    assert_eq!(TenWide.text_fits_horizontal("abc", rect(0.0, 0.0, 30.0, 1.0), format), Ok(false));
    assert_eq!(TenWide.text_fits_horizontal("", rect(0.0, 0.0, 1.0, 1.0), format), Ok(true));
    assert_eq!(TenWide.text_fits_horizontal("", rect(0.0, 0.0, 0.0, 1.0), format), Ok(false));
}

#[test]
fn text_fits_a_height_that_reaches_below_its_last_baseline() {
    let format = TextFormat::new(20);
    assert!(TenWide.text_fits_vertical("ab cd", rect(0.0, 10.0, 50.0, 40.5), format));
    assert!(!TenWide.text_fits_vertical("ab cd", rect(0.0, 10.0, 50.0, 40.0), format));
    assert!(TenWide.text_fits_vertical("ab", rect(0.0, 10.0, 50.0, 20.5), format));
    assert!(!TenWide.text_fits_vertical("ab", rect(0.0, 10.0, 50.0, 20.0), format));
    assert!(TenWide.text_fits_vertical("", rect(0.0, 10.0, 50.0, -5.0), format));
}

#[test]
fn text_fits_a_rectangle_by_width_and_height() {
    let format = TextFormat::new(20);
    assert_eq!(TenWide.text_fits("ab cd", rect(0.0, 0.0, 50.0, 41.0), format), Ok(true));
    assert_eq!(TenWide.text_fits("ab cd", rect(0.0, 0.0, 50.0, 40.0), format), Ok(false));
    assert_eq!(TenWide.text_fits("abcdef", rect(0.0, 0.0, 50.0, 41.0), format), Ok(false));
}

#[test]
fn the_largest_font_size_that_fits_is_found() {
    let frame = rect(0.0, 0.0, 50.0, 100.0);
    assert_eq!(HalfSize.fit_max_font_size("abcd", frame, TextFormat::new(50)), Ok(24));
    assert_eq!(HalfSize.fit_max_font_size("abcd", frame, TextFormat::new(24)), Ok(24));
    assert_eq!(HalfSize.fit_max_font_size("abcd", frame, TextFormat::new(10)), Ok(10));
    assert_eq!(HalfSize.fit_max_font_size("ab cd", frame, TextFormat::new(60)), Ok(49));
    assert_eq!(HalfSize.fit_max_font_size("ab cd ef", frame, TextFormat::new(60)), Ok(33));
}

#[test]
fn the_text_fits_at_the_size_that_fitting_finds() {
    for width in [20.0, 35.0, 50.0, 90.0, 300.0] {
        for height in [15.0, 40.0, 100.0] {
            let frame = rect(3.0, 4.0, width, height);
            let format = TextFormat::new(40);
            match HalfSize.fit_max_font_size("ab cd ef", frame, format) {
                Ok(size) => {
                    assert!(MIN_FONT_SIZE <= size && size <= 40);
                    assert_eq!(HalfSize.text_fits("ab cd ef", frame, format.font_size(size)), Ok(true));
                    for larger in size + 1..=40 {
                        let at = format.font_size(larger);
                        assert_eq!(HalfSize.text_fits("ab cd ef", frame, at), Ok(false));
                    }
                }
                Err(e) => {
                    assert_eq!(e, TextError::NoFit);
                    for size in MIN_FONT_SIZE..=40 {
                        let at = format.font_size(size);
                        assert_eq!(HalfSize.text_fits("ab cd ef", frame, at), Ok(false));
                    }
                }
            }
        }
    }
}

#[test]
fn no_font_size_fits_a_rectangle_that_is_too_small() {
    let frame = rect(0.0, 0.0, 1.0, 100.0);
    assert_eq!(HalfSize.fit_max_font_size("abcd", frame, TextFormat::new(50)), Err(TextError::NoFit));
    let frame = rect(0.0, 0.0, 50.0, 100.0);
    assert_eq!(HalfSize.fit_max_font_size("abcd", frame, TextFormat::new(0)), Err(TextError::NoFit));
    assert_eq!(MIN_FONT_SIZE, 1);
}

#[test]
fn the_least_height_is_found_to_within_one_step() {
    let format = TextFormat::new(20);
    let frame = rect(0.0, 0.0, 50.0, 100.0);
    assert_eq!(TenWide.fit_min_height("ab cd", frame, format, F(7.0), 100), Ok(F(44.0)));
    assert_eq!(TenWide.fit_min_height("ab cd", frame, format, F(-7.0), 100), Ok(F(44.0)));
    assert_eq!(TenWide.fit_min_height("ab cd", frame, format, F(0.25), 100), Ok(F(41.0)));
    let low = rect(0.0, 0.0, 50.0, 2.0);
    assert_eq!(TenWide.fit_min_height("ab cd", low, format, F(10.0), 100), Ok(F(42.0)));
}

#[test]
fn the_least_width_is_found_to_within_one_step() {
    let format = TextFormat::new(20);
    let frame = rect(0.0, 0.0, 100.0, 100.0);
    assert_eq!(TenWide.fit_min_width("ab cd", frame, format, F(7.0), 100), Ok(F(23.0)));
    assert_eq!(TenWide.fit_min_width("ab cd", frame, format, F(1.0), 100), Ok(F(21.0)));
    let flat = rect(0.0, 0.0, 100.0, 30.0);
    assert_eq!(TenWide.fit_min_width("ab cd", flat, format, F(7.0), 100), Ok(F(51.0)));
}

#[test]
fn a_search_gives_up_when_its_steps_run_out() {
    let format = TextFormat::new(20);
    let frame = rect(0.0, 0.0, 50.0, 100.0);
    assert_eq!(TenWide.fit_min_height("ab cd", frame, format, F(1.0), 59), Err(TextError::OutOfSteps));
    assert_eq!(TenWide.fit_min_height("ab cd", frame, format, F(1.0), 60), Ok(F(41.0)));
    assert_eq!(TenWide.fit_min_height("", frame, format, F(1.0), 1000), Err(TextError::OutOfSteps));
    let wide = rect(0.0, 0.0, 100.0, 100.0);
    assert_eq!(TenWide.fit_min_width("ab cd", wide, format, F(1.0), 10), Err(TextError::OutOfSteps));
    let narrow = rect(0.0, 0.0, 10.0, 100.0);
    assert_eq!(TenWide.fit_min_width("ab cd", narrow, format, F(1.0), 10), Err(TextError::OutOfSteps));
    assert_eq!(TenWide.fit_min_width("ab cd", narrow, format, F(1.0), 11), Ok(F(21.0)));
}

#[test]
fn a_format_is_built_step_by_step() {
    let format: TextFormat<F> = TextFormat::new(12);
    assert_eq!(format.font_size, 12);
    assert_eq!(format.just, Justification::Left);
    assert_eq!(format.line_spacing, F(1.0));
    assert_eq!(format.first_line_indent, 0);
    assert_eq!(format.lines_indent, 0);
    assert_eq!(format.color, [0, 0, 0, 255]);
    assert_eq!(format.resize, Resize::NoLarger);
    let format = format
        .centered()
        .font_size(30)
        .line_spacing(F(1.25))
        .first_line_indent(4)
        .lines_indent(2)
        .color(pane::color::RED)
        .resize(Resize::Max);
    assert_eq!(format.just, Justification::Centered);
    assert_eq!(format.font_size, 30);
    assert_eq!(format.line_spacing, F(1.25));
    assert_eq!(format.first_line_indent, 4);
    assert_eq!(format.lines_indent, 2);
    assert_eq!(format.color, [255, 0, 0, 255]);
    assert_eq!(format.resize, Resize::Max);
    assert_eq!(format.right().just, Justification::Right);
    assert_eq!(format.left().just, Justification::Left);
    assert_eq!(format.left().font_size, 30);
}

#[test]
fn a_font_is_resized_as_the_strategy_says() {
    let format: TextFormat<F> = TextFormat::new(20);
    assert_eq!(format.resize(Resize::NoLarger).resize_font(15).font_size, 15);
    assert_eq!(format.resize(Resize::NoLarger).resize_font(25).font_size, 20);
    assert_eq!(format.resize(Resize::Max).resize_font(15).font_size, 15);
    assert_eq!(format.resize(Resize::Max).resize_font(25).font_size, 25);
    assert_eq!(format.resize(Resize::Never).resize_font(15).font_size, 20);
    assert_eq!(format.resize(Resize::Never).resize_font(25).font_size, 20);
    assert_eq!(format.resize(Resize::Max).resize_font(25).resize, Resize::Max);
}
