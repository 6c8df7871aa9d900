use pane::color::{BLUE, RED, TRANSPARENT};
use pane::math::{Cos, Pow, Scalar, Sin, ZeroOneTwo};
use pane::text::{CharacterWidthCache, TextError};
use pane::{Contents, IndexError, Orientation, Pane, Resize, TextFormat};

#[derive(Clone, Copy, Debug, PartialEq)]
struct F(f64);

impl ZeroOneTwo for F {
    const ZERO: Self = F(0.0);
    const ONE: Self = F(1.0);
    const TWO: Self = F(2.0);
}

impl Sin for F {
    type Output = F;
    fn sin_spec(&self) -> F {
        F(self.0.sin())
    }
    fn sin(&self) -> F {
        F(self.0.sin())
    }
}

impl Cos for F {
    type Output = F;
    fn cos_spec(&self) -> F {
        F(self.0.cos())
    }
    fn cos(&self) -> F {
        F(self.0.cos())
    }
}

impl Pow<F> for F {
    type Output = F;
    fn pow_spec(&self, power: F) -> F {
        F(self.0.powf(power.0))
    }
    fn pow(&self, power: F) -> F {
        F(self.0.powf(power.0))
    }
}

impl Scalar for F {
    fn add_spec(self, rhs: Self) -> Self {
        F(self.0 + rhs.0)
    }
    fn sub_spec(self, rhs: Self) -> Self {
        F(self.0 - rhs.0)
    }
    fn mul_spec(self, rhs: Self) -> Self {
        F(self.0 * rhs.0)
    }
    fn div_spec(self, rhs: Self) -> Self {
        F(self.0 / rhs.0)
    }
    fn neg_spec(self) -> Self {
        F(-self.0)
    }
    fn lt_spec(self, rhs: Self) -> bool {
        self.0 < rhs.0
    }
    fn eq_spec(self, rhs: Self) -> bool {
        self.0 == rhs.0
    }
    fn from_u32_spec(n: u32) -> Self {
        F(f64::from(n))
    }
    fn add(self, rhs: Self) -> Self {
        F(self.0 + rhs.0)
    }
    fn sub(self, rhs: Self) -> Self {
        F(self.0 - rhs.0)
    }
    fn mul(self, rhs: Self) -> Self {
        F(self.0 * rhs.0)
    }
    fn div(self, rhs: Self) -> Self {
        F(self.0 / rhs.0)
    }
    fn neg(self) -> Self {
        F(-self.0)
    }
    fn lt(self, rhs: Self) -> bool {
        self.0 < rhs.0
    }
    fn eq(self, rhs: Self) -> bool {
        self.0 == rhs.0
    }
    fn from_u32(n: u32) -> Self {
        F(f64::from(n))
    }
}

type Rect = [F; 4];

/// Every character is half as wide as the font is high.
struct HalfSize;

impl CharacterWidthCache for HalfSize {
    type Scalar = F;
    fn char_width_spec(&self, _character: char, font_size: u32) -> F {
        F(f64::from(font_size) / 2.0)
    }
    fn char_width(&mut self, _character: char, font_size: u32) -> F {
        F(f64::from(font_size) / 2.0)
    }
}

/// Every character is ten wide, but for `?`, whose width is no number.
struct NoNumber;

impl CharacterWidthCache for NoNumber {
    type Scalar = F;
    fn char_width_spec(&self, character: char, _font_size: u32) -> F {
        if character == '?' {
            F(f64::NAN)
        } else {
            F(10.0)
        }
    }
    fn char_width(&mut self, character: char, _font_size: u32) -> F {
        if character == '?' {
            F(f64::NAN)
        } else {
            F(10.0)
        }
    }
}

fn rect(left: f64, top: f64, width: f64, height: f64) -> Rect {
    [F(left), F(top), F(width), F(height)]
}

fn blank() -> Pane<Rect> {
    Pane::new()
}

fn font_size(pane: &Pane<Rect>) -> u32 {
    match pane.contents() {
        Some(Contents::Text(_, format)) => format.font_size,
        None => panic!("the pane has no text"),
    }
}

#[test]
fn a_new_pane_is_the_unit_square() {
    let pane = blank();
    assert_eq!(pane.rect(), rect(0.0, 0.0, 1.0, 1.0));
    assert_eq!(pane.top_left(), [F(0.0), F(0.0)]);
    assert_eq!(pane.size(), [F(1.0), F(1.0)]);
    assert_eq!(pane.margin(), F(0.0));
    assert_eq!(pane.margin_rect(), rect(0.0, 0.0, 1.0, 1.0));
    assert_eq!(pane.orientation(), Orientation::Vertical);
    assert_eq!(pane.color(), TRANSPARENT);
    assert!(pane.contents().is_none());
    assert!(pane.children().is_empty());
    assert!(pane.weights().is_empty());
    assert_eq!(Orientation::default(), Orientation::Vertical);
}

#[test]
fn two_equal_children_share_a_pane() {
    let pane = blank()
        .with_rect(rect(0.0, 0.0, 400.0, 300.0))
        .with_orientation(Orientation::Vertical)
        .with_panes(vec![(F(1.0), blank()), (F(1.0), blank())]);
    let children = pane.children();
    assert_eq!(children.len(), 2);
    assert_eq!(children[0].size(), [F(400.0), F(150.0)]);
    assert_eq!(children[1].size(), [F(400.0), F(150.0)]);
    assert_eq!(children[0].top_left(), [F(0.0), F(0.0)]);
    assert_eq!(children[1].top_left(), [F(0.0), F(150.0)]);
    assert_eq!(pane.weights(), vec![F(1.0), F(1.0)]);
}

#[test]
fn children_follow_the_rectangle_whenever_it_is_set() {
    let pane = blank()
        .with_panes(vec![(F(1.0), blank()), (F(3.0), blank())])
        .with_orientation(Orientation::Horizontal)
        .with_rect(rect(10.0, 20.0, 400.0, 300.0));
    assert_eq!(pane.index(0).map(|child| child.rect()), Ok(rect(10.0, 20.0, 100.0, 300.0)));
    assert_eq!(pane.index(1).map(|child| child.rect()), Ok(rect(110.0, 20.0, 300.0, 300.0)));
    let pane = pane.with_size([F(800.0), F(100.0)]);
    assert_eq!(pane.rect(), rect(10.0, 20.0, 800.0, 100.0));
    assert_eq!(pane.index(1).map(|child| child.rect()), Ok(rect(210.0, 20.0, 600.0, 100.0)));
    let pane = pane.with_top_left([F(0.0), F(0.0)]);
    assert_eq!(pane.rect(), rect(0.0, 0.0, 800.0, 100.0));
    assert_eq!(pane.index(1).map(|child| child.rect()), Ok(rect(200.0, 0.0, 600.0, 100.0)));
    let pane = pane.with_orientation(Orientation::Vertical);
    assert_eq!(pane.index(0).map(|child| child.rect()), Ok(rect(0.0, 0.0, 800.0, 25.0)));
    assert_eq!(pane.index(1).map(|child| child.rect()), Ok(rect(0.0, 25.0, 800.0, 75.0)));
}

#[test]
fn a_margin_is_kept_free_inside_each_edge() {
    let pane = blank()
        .with_rect(rect(0.0, 0.0, 400.0, 300.0))
        .with_margin(F(10.0))
        .with_orientation(Orientation::Horizontal)
        .with_panes(vec![blank().with_margin(F(5.0)), blank()]);
    assert_eq!(pane.margin(), F(10.0));
    assert_eq!(pane.margin_rect(), rect(10.0, 10.0, 380.0, 280.0));
    let children = pane.children();
    assert_eq!(children[0].rect(), rect(10.0, 10.0, 190.0, 280.0));
    assert_eq!(children[0].margin_rect(), rect(15.0, 15.0, 180.0, 270.0));
    assert_eq!(children[1].rect(), rect(200.0, 10.0, 190.0, 280.0));
}

#[test]
fn grandchildren_are_laid_out_with_their_parents() {
    let inner = blank().with_panes(vec![blank(), blank()]);
    let pane = blank()
        .with_orientation(Orientation::Horizontal)
        .with_panes(vec![blank(), inner])
        .with_rect(rect(0.0, 0.0, 400.0, 300.0));
    let right = pane.index(1).map(|child| child.children().iter().map(|p| p.rect()).collect());
    assert_eq!(right, Ok(vec![rect(200.0, 0.0, 200.0, 150.0), rect(200.0, 150.0, 200.0, 150.0)]));
}

#[test]
fn children_are_found_by_name() {
    let pane = blank()
        .with_rect(rect(0.0, 0.0, 90.0, 30.0))
        .with_orientation(Orientation::Horizontal)
        .with_panes(vec![
            (Some("left"), F(1.0), blank()),
            (None, F(1.0), blank()),
            (Some("right"), F(1.0), blank()),
        ]);
    assert_eq!(pane.index_name("left").map(|child| child.rect()), Ok(rect(0.0, 0.0, 30.0, 30.0)));
    assert_eq!(pane.index_name("right").map(|child| child.rect()), Ok(rect(60.0, 0.0, 30.0, 30.0)));
}

#[test]
fn a_name_never_given_is_unknown() {
    let pane = blank().with_panes(vec![("here", F(1.0), blank())]);
    assert!(matches!(pane.index_name("there"), Err(IndexError::UnknownName)));
    assert!(matches!(pane.index_name(""), Err(IndexError::UnknownName)));
    assert!(matches!(blank().index_name("here"), Err(IndexError::UnknownName)));
    assert!(pane.index_name("here").is_ok());
    let pane = pane.with_panes(vec![("there", F(1.0), blank())]);
    assert!(matches!(pane.index_name("here"), Err(IndexError::UnknownName)));
    assert!(pane.index_name("there").is_ok());
}

#[test]
fn a_position_beyond_the_children_is_out_of_range() {
    let pane = blank().with_panes(vec![blank(), blank()]);
    assert!(pane.index(0).is_ok());
    assert!(pane.index(1).is_ok());
    assert!(matches!(pane.index(2), Err(IndexError::IndexOutOfRange)));
    assert!(matches!(blank().index(0), Err(IndexError::IndexOutOfRange)));
}

#[test]
fn the_later_of_two_children_keeps_a_shared_name() {
    let pane = blank()
        .with_rect(rect(0.0, 0.0, 90.0, 30.0))
        .with_orientation(Orientation::Horizontal)
        .with_panes(vec![("twin", F(1.0), blank()), ("twin", F(2.0), blank())]);
    assert_eq!(pane.index_name("twin").map(|child| child.rect()), Ok(rect(30.0, 0.0, 60.0, 30.0)));
}

#[test]
fn a_name_alone_is_a_new_child_of_weight_one() {
    let pane = blank()
        .with_rect(rect(0.0, 0.0, 100.0, 100.0))
        .with_panes(vec!["top", "bottom"]);
    assert_eq!(pane.weights(), vec![F(1.0), F(1.0)]);
    assert_eq!(pane.index_name("bottom").map(|child| child.rect()), Ok(rect(0.0, 50.0, 100.0, 50.0)));
    assert_eq!(pane.index_name("top").map(|child| child.color()), Ok(TRANSPARENT));
}

#[test]
fn contents_and_color_leave_the_layout_alone() {
    let format = TextFormat::new(12);
    let pane = blank()
        .with_rect(rect(0.0, 0.0, 100.0, 100.0))
        .with_panes(vec![blank(), blank()])
        .with_color(RED)
        .with_contents(Contents::text("hi", format));
    assert_eq!(pane.color(), RED);
    assert_eq!(pane.contents(), Some(&Contents::Text("hi".to_string(), format)));
    assert_eq!(pane.index(1).map(|child| child.rect()), Ok(rect(0.0, 50.0, 100.0, 50.0)));
    let pane = pane.with_no_contents();
    assert!(pane.contents().is_none());
    assert_eq!(pane.color(), RED);
    assert_eq!(pane.children().len(), 2);
}

#[test]
fn a_child_is_replaced_where_it_stands() {
    let pane = blank()
        .with_rect(rect(0.0, 0.0, 100.0, 100.0))
        .with_panes(vec![("top", F(1.0), blank()), ("bottom", F(1.0), blank())]);
    let pane = pane.map_child(1, |child| child.with_color(BLUE).with_rect(rect(1.0, 2.0, 3.0, 4.0)));
    assert_eq!(pane.index(0).map(|child| child.color()), Ok(TRANSPARENT));
    assert_eq!(pane.index(1).map(|child| child.color()), Ok(BLUE));
    assert_eq!(pane.index(0).map(|child| child.rect()), Ok(rect(0.0, 0.0, 100.0, 50.0)));
    assert_eq!(pane.index(1).map(|child| child.rect()), Ok(rect(0.0, 50.0, 100.0, 50.0)));
    let pane = pane.map_child(2, |child| child.with_color(RED));
    assert_eq!(pane.index(0).map(|child| child.color()), Ok(TRANSPARENT));
    assert_eq!(pane.index(1).map(|child| child.color()), Ok(BLUE));
    let pane = match pane.map_child_name("top", |child| child.with_color(RED)) {
        Ok(pane) => pane,
        Err(_) => panic!("the pane has a child of that name"),
    };
    assert_eq!(pane.index_name("top").map(|child| child.color()), Ok(RED));
    assert_eq!(pane.index_name("bottom").map(|child| child.color()), Ok(BLUE));
    assert!(matches!(pane.map_child_name("middle", |child| child), Err(IndexError::UnknownName)));
}

#[test]
fn text_is_fitted_in_every_pane() {
    let format = TextFormat::new(50);
    let pane = blank()
        .with_rect(rect(0.0, 0.0, 120.0, 200.0))
        .with_margin(F(10.0))
        .with_contents(Contents::text("abcd", format))
        .with_panes(vec![
            blank().with_contents(Contents::text("ab", format)),
            blank().with_contents(Contents::text("abcd", format.resize(Resize::Never))),
            blank(),
        ]);
    let pane = match pane.fit_text(&mut HalfSize) {
        Ok(pane) => pane,
        Err(_) => panic!("every text fits at some size"),
    };
    assert_eq!(pane.margin_rect(), rect(10.0, 10.0, 100.0, 180.0));
    assert_eq!(font_size(&pane), 49);
    let children = pane.children();
    assert_eq!(children[0].rect(), rect(10.0, 10.0, 100.0, 60.0));
    assert_eq!(font_size(children[0]), 50);
    assert_eq!(font_size(children[1]), 50);
    assert!(children[2].contents().is_none());
}

#[test]
fn fitting_lays_out_before_it_measures() {
    let format = TextFormat::new(50).resize(Resize::Max);
    let child = blank().with_contents(Contents::text("abcd", format));
    let pane = blank()
        .with_orientation(Orientation::Horizontal)
        .with_panes(vec![child, blank()])
        .with_rect(rect(0.0, 0.0, 100.0, 100.0));
    let fitted = pane.fit_text(&mut HalfSize).ok().map(|pane| {
        pane.children().iter().map(|child| child.contents().cloned()).collect::<Vec<_>>()
    });
    assert_eq!(
        fitted,
        Some(vec![Some(Contents::Text("abcd".to_string(), format.font_size(24))), None])
    );
}

#[test]
fn fitting_fails_with_the_first_text_that_cannot_be_fitted() {
    let format = TextFormat::new(50);
    let pane = blank()
        .with_rect(rect(0.0, 0.0, 100.0, 100.0))
        .with_panes(vec![
            blank().with_contents(Contents::text("ab", format)),
            blank().with_margin(F(30.0)).with_contents(Contents::text("ab", format)),
        ]);
    assert!(matches!(pane.fit_text(&mut HalfSize), Err(TextError::NoFit)));
    let pane = blank()
        .with_rect(rect(0.0, 0.0, 100.0, 100.0))
        .with_contents(Contents::text("ab\nc?", format))
        .with_panes(vec![blank().with_margin(F(30.0)).with_contents(Contents::text("ab", format))]);
    assert!(matches!(pane.fit_text(&mut NoNumber), Err(TextError::IncomparableScalar)));
}
