//! The pane: a rectangle that splits among weighted children.

use vstd::prelude::*;
use vstd::hash_map::StringHashMap;
use crate::color::{Color, TRANSPARENT};
use crate::format::{Resize, TextFormat};
use crate::math::{height_of, left_of, rect_is, top_of, width_of};
use crate::math::{Rectangle, Scalar, Vector2, ZeroOneTwo};
use crate::orientation::{split_length, split_offset, Orientation};
use crate::text::{fits_by_size, largest_fit, CharacterWidthCache, TextError};

verus! {

/// What a pane can hold.
#[derive(Debug, Clone, PartialEq)]
pub enum Contents<S: Scalar> {
    /// Text in some format.
    Text(String, TextFormat<S>),
}

/// What a pane holds, with text seen as a sequence of characters.
pub enum ContentsView<S: Scalar> {
    /// Text in some format.
    Text(Seq<char>, TextFormat<S>),
}

impl<S: Scalar> View for Contents<S> {
    type V = ContentsView<S>;

    open spec fn view(&self) -> ContentsView<S> {
        match self {
            Contents::Text(text, format) => ContentsView::Text(text@, *format),
        }
    }
}

impl<S: Scalar> Contents<S> {
    /// Make text contents of a string and its format.
    pub fn text(text: &str, format: TextFormat<S>) -> (contents: Self)
        ensures
            contents@ == ContentsView::Text(text@, format),
    {
        Contents::Text(String::from_str(text), format)
    }
}

/// A pane as a value: its rectangle, its own settings, and its children
/// with their weights and names.
pub struct PaneView<S: Scalar> {
    /// The x coordinate of the left edge.
    pub left: S,
    /// The y coordinate of the top edge.
    pub top: S,
    /// The width.
    pub width: S,
    /// The height.
    pub height: S,
    /// The margin kept free inside each of the four edges.
    pub margin: S,
    /// The axis along which the children are arranged.
    pub orientation: Orientation,
    /// What the pane holds, if anything.
    pub contents: Option<ContentsView<S>>,
    /// The color of the background.
    pub color: Color,
    /// The position among the children that each name stands for.
    pub names: Map<Seq<char>, usize>,
    /// The weight of each child.
    pub weights: Seq<S>,
    /// The children, in their order.
    pub children: Seq<PaneView<S>>,
}

impl<S: Scalar> PaneView<S> {
    /// Whether the pane makes sense: each child has a weight, and each name
    /// stands for a child.
    pub open spec fn wf(self) -> bool
        decreases self,
    {
        &&& self.weights.len() == self.children.len()
        &&& forall|name: Seq<char>| #[trigger]
            self.names.contains_key(name) ==> self.names[name] < self.children.len()
        &&& forall|i: int| 0 <= i < self.children.len() ==> (#[trigger] self.children[i]).wf()
    }

    /// The x coordinate at which the margin ends on the left.
    pub open spec fn inner_left(self) -> S {
        self.left.add_spec(self.margin)
    }

    /// The y coordinate at which the margin ends at the top.
    pub open spec fn inner_top(self) -> S {
        self.top.add_spec(self.margin)
    }

    /// The width that the margins leave.
    pub open spec fn inner_width(self) -> S {
        self.width.sub_spec(self.margin.mul_spec(S::TWO))
    }

    /// The height that the margins leave.
    pub open spec fn inner_height(self) -> S {
        self.height.sub_spec(self.margin.mul_spec(S::TWO))
    }

    /// The left edge that child `i` must have.
    pub open spec fn child_left(self, i: int) -> S {
        match self.orientation {
            Orientation::Horizontal => split_offset(
                self.inner_left(),
                self.inner_width(),
                self.weights,
                i,
            ),
            Orientation::Vertical => self.inner_left(),
        }
    }

    /// The top edge that child `i` must have.
    pub open spec fn child_top(self, i: int) -> S {
        match self.orientation {
            Orientation::Horizontal => self.inner_top(),
            Orientation::Vertical => split_offset(
                self.inner_top(),
                self.inner_height(),
                self.weights,
                i,
            ),
        }
    }

    /// The width that child `i` must have.
    pub open spec fn child_width(self, i: int) -> S {
        match self.orientation {
            Orientation::Horizontal => split_length(self.inner_width(), self.weights, i),
            Orientation::Vertical => self.inner_width(),
        }
    }

    /// The height that child `i` must have.
    pub open spec fn child_height(self, i: int) -> S {
        match self.orientation {
            Orientation::Horizontal => self.inner_height(),
            Orientation::Vertical => split_length(self.inner_height(), self.weights, i),
        }
    }

    /// The pane put at a rectangle, and its descendants laid out anew: the
    /// rectangle less the margin is split among the children by their
    /// weights along the pane's orientation, and each child is put at its
    /// part.
    pub open spec fn placed(self, left: S, top: S, width: S, height: S) -> PaneView<S>
        decreases self,
    {
        let at = PaneView { left, top, width, height, ..self };
        PaneView {
            children: Seq::new(
                self.children.len(),
                |i: int|
                    if 0 <= i < self.children.len() {
                        self.children[i].placed(
                            at.child_left(i),
                            at.child_top(i),
                            at.child_width(i),
                            at.child_height(i),
                        )
                    } else {
                        self
                    },
            ),
            ..at
        }
    }

    /// The pane with its descendants laid out anew, where it is.
    pub open spec fn laid_out(self) -> PaneView<S> {
        self.placed(self.left, self.top, self.width, self.height)
    }
}

/// Why a pane has no child to hand out.
#[derive(Debug, Clone, Copy, PartialEq, Eq)]
pub enum IndexError {
    /// No child of the pane has the name.
    UnknownName,
    /// The pane has fewer children than the position asks for.
    IndexOutOfRange,
}

/// The position that each name stands for, given the name of each child in
/// order, for those that have one: where two children share a name, it
/// stands for the later one.
pub open spec fn names_of(names: Seq<Option<Seq<char>>>) -> Map<Seq<char>, usize>
    decreases names.len(),
{
    if names.len() == 0 {
        Map::empty()
    } else {
        let before = names_of(names.drop_last());
        match names.last() {
            Some(name) => before.insert(name, (names.len() - 1) as usize),
            None => before,
        }
    }
}

/// What can become a child of a pane: a pane with a weight and, if it has
/// one, a name.
pub trait NamedWeightedPane<'a, R: Rectangle>: Sized {
    /// The name of the child, if it has one.
    spec fn name_spec(&self) -> Option<Seq<char>>;

    /// The weight of the child.
    spec fn weight_spec(&self) -> R::Scalar;

    /// The child pane.
    spec fn pane_spec(&self) -> PaneView<R::Scalar>;

    /// Take the child apart into its name, its weight and its pane.
    fn named_weighted_pane(self) -> (parts: (Option<&'a str>, R::Scalar, Pane<R>))
        ensures
            match parts.0 {
                Some(name) => self.name_spec() == Some(name@),
                None => self.name_spec() is None,
            },
            parts.1 == self.weight_spec(),
            parts.2@ == self.pane_spec(),
    ;
}

/// A pane alone is a child without a name and of weight one.
impl<'a, R: Rectangle> NamedWeightedPane<'a, R> for Pane<R> {
    open spec fn name_spec(&self) -> Option<Seq<char>> {
        None
    }

    open spec fn weight_spec(&self) -> R::Scalar {
        R::Scalar::ONE
    }

    open spec fn pane_spec(&self) -> PaneView<R::Scalar> {
        self@
    }

    fn named_weighted_pane(self) -> (Option<&'a str>, R::Scalar, Pane<R>) {
        (None, R::Scalar::ONE, self)
    }
}

/// A weight and a pane are a child without a name.
impl<'a, R: Rectangle> NamedWeightedPane<'a, R> for (R::Scalar, Pane<R>) {
    open spec fn name_spec(&self) -> Option<Seq<char>> {
        None
    }

    open spec fn weight_spec(&self) -> R::Scalar {
        self.0
    }

    open spec fn pane_spec(&self) -> PaneView<R::Scalar> {
        self.1@
    }

    fn named_weighted_pane(self) -> (Option<&'a str>, R::Scalar, Pane<R>) {
        (None, self.0, self.1)
    }
}

/// A name or none, a weight and a pane are a child as it stands.
impl<'a, R: Rectangle> NamedWeightedPane<'a, R> for (Option<&'a str>, R::Scalar, Pane<R>) {
    open spec fn name_spec(&self) -> Option<Seq<char>> {
        match self.0 {
            Some(name) => Some(name@),
            None => None,
        }
    }

    open spec fn weight_spec(&self) -> R::Scalar {
        self.1
    }

    open spec fn pane_spec(&self) -> PaneView<R::Scalar> {
        self.2@
    }

    fn named_weighted_pane(self) -> (Option<&'a str>, R::Scalar, Pane<R>) {
        self
    }
}

/// A name, a weight and a pane are a child with that name.
impl<'a, R: Rectangle> NamedWeightedPane<'a, R> for (&'a str, R::Scalar, Pane<R>) {
    open spec fn name_spec(&self) -> Option<Seq<char>> {
        Some(self.0@)
    }

    open spec fn weight_spec(&self) -> R::Scalar {
        self.1
    }

    open spec fn pane_spec(&self) -> PaneView<R::Scalar> {
        self.2@
    }

    fn named_weighted_pane(self) -> (Option<&'a str>, R::Scalar, Pane<R>) {
        (Some(self.0), self.1, self.2)
    }
}

/// A name alone is a new pane with that name and of weight one.
impl<'a, R: Rectangle> NamedWeightedPane<'a, R> for &'a str {
    open spec fn name_spec(&self) -> Option<Seq<char>> {
        Some(self@)
    }

    open spec fn weight_spec(&self) -> R::Scalar {
        R::Scalar::ONE
    }

    open spec fn pane_spec(&self) -> PaneView<R::Scalar> {
        PaneView {
            left: R::Scalar::ZERO,
            top: R::Scalar::ZERO,
            width: R::Scalar::ONE,
            height: R::Scalar::ONE,
            margin: R::Scalar::ZERO,
            orientation: Orientation::Vertical,
            contents: None,
            color: TRANSPARENT,
            names: Map::empty(),
            weights: Seq::empty(),
            children: Seq::empty(),
        }
    }

    fn named_weighted_pane(self) -> (Option<&'a str>, R::Scalar, Pane<R>) {
        (Some(self), R::Scalar::ONE, Pane::new())
    }
}

/// The first failure among some results, counted from the left.
pub open spec fn first_failure<T, E>(results: Seq<Result<T, E>>) -> Option<E>
    decreases results.len(),
{
    if results.len() == 0 {
        None
    } else {
        match first_failure(results.drop_last()) {
            Some(e) => Some(e),
            None => match results.last() {
                Err(e) => Some(e),
                Ok(_) => None,
            },
        }
    }
}

impl<S: Scalar> PaneView<S> {
    /// The pane's contents with their font fitted to the rectangle that the
    /// margin leaves: text takes the font size that its format's resize
    /// strategy makes of the largest size that fits. Text that is never to
    /// be resized is not even measured.
    pub open spec fn fitted_contents(self, w: spec_fn(char, u32) -> S) -> Result<
        Option<ContentsView<S>>,
        TextError,
    > {
        match self.contents {
            Some(ContentsView::Text(text, format)) => match format.resize {
                Resize::Never => Ok(self.contents),
                _ => match largest_fit(
                    fits_by_size(
                        w,
                        text,
                        self.inner_top(),
                        self.inner_width(),
                        self.inner_height(),
                        format,
                    ),
                    format.font_size,
                ) {
                    Ok(size) => Ok(
                        Some(
                            ContentsView::Text(
                                text,
                                TextFormat { font_size: format.resized_font_size(size), ..format },
                            ),
                        ),
                    ),
                    Err(e) => Err(e),
                },
            },
            None => Ok(None),
        }
    }

    /// What fitting the font of all text makes of each child.
    pub open spec fn fitted_children(self, w: spec_fn(char, u32) -> S) -> Seq<
        Result<PaneView<S>, TextError>,
    >
        decreases self, 0nat,
    {
        Seq::new(
            self.children.len(),
            |i: int|
                if 0 <= i < self.children.len() {
                    self.children[i].fitted(w)
                } else {
                    Ok(self)
                },
        )
    }

    /// The pane with the font of all text in it fitted, each pane's to the
    /// rectangle that it has. The pane itself comes first, then its
    /// children in their order, and the first failure is the answer.
    pub open spec fn fitted(self, w: spec_fn(char, u32) -> S) -> Result<PaneView<S>, TextError>
        decreases self, 1nat,
    {
        match self.fitted_contents(w) {
            Err(e) => Err(e),
            Ok(contents) => match first_failure(self.fitted_children(w)) {
                Some(e) => Err(e),
                None => Ok(
                    PaneView {
                        contents,
                        children: Seq::new(
                            self.children.len(),
                            |i: int| self.fitted_children(w)[i].unwrap(),
                        ),
                        ..self
                    },
                ),
            },
        }
    }
}

/// A pane or a failure, with the pane seen as a value.
pub open spec fn result_view<R: Rectangle>(result: Result<Pane<R>, TextError>) -> Result<
    PaneView<R::Scalar>,
    TextError,
> {
    match result {
        Ok(pane) => Ok(pane@),
        Err(e) => Err(e),
    }
}

/// Some results that begin with successes and have a failure behind them
/// have that failure for their first.
pub proof fn lemma_first_failure<T, E>(results: Seq<Result<T, E>>, at: int)
    requires
        0 <= at < results.len(),
        forall|j: int| 0 <= j < at ==> (#[trigger] results[j]) is Ok,
        results[at] is Err,
    ensures
        first_failure(results) == Some(results[at]->Err_0),
    decreases results.len(),
{
    if at == results.len() - 1 {
        lemma_no_failure(results.drop_last());
    } else {
        lemma_first_failure(results.drop_last(), at);
    }
}

/// Successes alone have no first failure.
pub proof fn lemma_no_failure<T, E>(results: Seq<Result<T, E>>)
    requires
        forall|j: int| 0 <= j < results.len() ==> (#[trigger] results[j]) is Ok,
    ensures
        first_failure(results) is None,
    decreases results.len(),
{
    if results.len() > 0 {
        lemma_no_failure(results.drop_last());
    }
}

/// A name stands for a child exactly if some child was given it, and then
/// for the last child that was: a name that no child was given stands for
/// none.
pub proof fn lemma_names_of(names: Seq<Option<Seq<char>>>, name: Seq<char>)
    requires
        names.len() <= usize::MAX,
    ensures
        names_of(names).contains_key(name) <==> exists|i: int|
            0 <= i < names.len() && #[trigger] names[i] == Some(name),
        names_of(names).contains_key(name) ==> {
            let at = names_of(names)[name] as int;
            &&& 0 <= at < names.len()
            &&& names[at] == Some(name)
            &&& forall|i: int| at < i < names.len() ==> #[trigger] names[i] != Some(name)
        },
    decreases names.len(),
{
    if names.len() > 0 {
        let before = names.drop_last();
        lemma_names_of(before, name);
        if names.last() == Some(name) {
            assert(names[names.len() - 1] == Some(name));
        } else {
            if names_of(names).contains_key(name) {
                assert(names_of(before).contains_key(name));
                let i = choose|i: int| 0 <= i < before.len() && #[trigger] before[i] == Some(name);
                assert(names[i] == Some(name));
                let at = names_of(before)[name] as int;
                assert(names[at] == before[at]);
                assert forall|i: int| at < i < names.len() implies #[trigger] names[i] != Some(
                    name,
                ) by {
                    if i < before.len() {
                        assert(names[i] == before[i]);
                    }
                }
            }
            if exists|i: int| 0 <= i < names.len() && #[trigger] names[i] == Some(name) {
                let i = choose|i: int| 0 <= i < names.len() && #[trigger] names[i] == Some(name);
                assert(before[i] == Some(name));
            }
        }
    }
}

/// A pane that was put somewhere is there, and each of its children has
/// the part of it that the child's weight gives it: within the margin, the
/// children follow each other along the pane's orientation and span the
/// pane across it. Nothing but rectangles has changed, in the pane or
/// below it.
pub proof fn lemma_placed<S: Scalar>(pane: PaneView<S>, left: S, top: S, width: S, height: S)
    ensures
        ({
            let placed = pane.placed(left, top, width, height);
            &&& placed == (PaneView { children: placed.children, left, top, width, height, ..pane })
            &&& placed.children.len() == pane.children.len()
            &&& forall|i: int|
                0 <= i < pane.children.len() ==> {
                    let child = #[trigger] placed.children[i];
                    &&& child.left == placed.child_left(i)
                    &&& child.top == placed.child_top(i)
                    &&& child.width == placed.child_width(i)
                    &&& child.height == placed.child_height(i)
                    &&& child.margin == pane.children[i].margin
                    &&& child.orientation == pane.children[i].orientation
                    &&& child.contents == pane.children[i].contents
                    &&& child.color == pane.children[i].color
                    &&& child.names == pane.children[i].names
                    &&& child.weights == pane.children[i].weights
                    &&& child.children.len() == pane.children[i].children.len()
                }
        }),
{
    let placed = pane.placed(left, top, width, height);
    let at = PaneView { left, top, width, height, ..pane };
    assert forall|i: int| 0 <= i < pane.children.len() implies {
        let child = #[trigger] placed.children[i];
        &&& child.left == placed.child_left(i)
        &&& child.top == placed.child_top(i)
        &&& child.width == placed.child_width(i)
        &&& child.height == placed.child_height(i)
        &&& child.margin == pane.children[i].margin
        &&& child.orientation == pane.children[i].orientation
        &&& child.contents == pane.children[i].contents
        &&& child.color == pane.children[i].color
        &&& child.names == pane.children[i].names
        &&& child.weights == pane.children[i].weights
        &&& child.children.len() == pane.children[i].children.len()
    } by {
        assert(placed.children[i] == pane.children[i].placed(
            at.child_left(i),
            at.child_top(i),
            at.child_width(i),
            at.child_height(i),
        ));
        assert(placed.child_left(i) == at.child_left(i));
        assert(placed.child_top(i) == at.child_top(i));
        assert(placed.child_width(i) == at.child_width(i));
        assert(placed.child_height(i) == at.child_height(i));
    }
}

/// Where a pane is put last decides its layout: putting it somewhere first
/// leaves no trace.
pub proof fn lemma_placed_again<S: Scalar>(
    pane: PaneView<S>,
    first: (S, S, S, S),
    last: (S, S, S, S),
)
    ensures
        pane.placed(first.0, first.1, first.2, first.3).placed(last.0, last.1, last.2, last.3)
            == pane.placed(last.0, last.1, last.2, last.3),
    decreases pane,
{
    let once = pane.placed(first.0, first.1, first.2, first.3);
    let twice = once.placed(last.0, last.1, last.2, last.3);
    let direct = pane.placed(last.0, last.1, last.2, last.3);
    let at = PaneView { left: last.0, top: last.1, width: last.2, height: last.3, ..pane };
    let from = PaneView { left: first.0, top: first.1, width: first.2, height: first.3, ..pane };
    let again = PaneView { left: last.0, top: last.1, width: last.2, height: last.3, ..once };
    assert forall|i: int| 0 <= i < pane.children.len() implies twice.children[i]
        == direct.children[i] by {
        lemma_placed_again(
            pane.children[i],
            (from.child_left(i), from.child_top(i), from.child_width(i), from.child_height(i)),
            (at.child_left(i), at.child_top(i), at.child_width(i), at.child_height(i)),
        );
        assert(again.child_left(i) == at.child_left(i));
        assert(again.child_top(i) == at.child_top(i));
        assert(again.child_width(i) == at.child_width(i));
        assert(again.child_height(i) == at.child_height(i));
    }
    assert(twice.children =~= direct.children);
}

/// A pane that is laid out stays as it is when it is laid out again.
pub proof fn lemma_laid_out_again<S: Scalar>(pane: PaneView<S>)
    ensures
        pane.laid_out().laid_out() == pane.laid_out(),
{
    let own = (pane.left, pane.top, pane.width, pane.height);
    lemma_placed_again(pane, own, own);
}

/// A rectangle that lays out what is inside it.
///
/// A pane can have any number of child panes. Each child has a weight, and
/// gets the share of the pane that its weight has among its siblings, along
/// the pane's orientation. A pane can also hold contents, and a margin keeps
/// both contents and children away from its edges.
///
/// Whatever changes a pane's rectangle, margin, orientation or children
/// lays out all of its descendants anew.
pub struct Pane<R: Rectangle> {
    contents: Option<Contents<R::Scalar>>,
    orientation: Orientation,
    margin: R::Scalar,
    names: StringHashMap<usize>,
    rect: R,
    children: Vec<(R::Scalar, Pane<R>)>,
    color: Color,
}

impl<R: Rectangle> View for Pane<R> {
    type V = PaneView<R::Scalar>;

    closed spec fn view(&self) -> PaneView<R::Scalar> {
        self.model()
    }
}

impl<R: Rectangle> Pane<R> {
    spec fn model(self) -> PaneView<R::Scalar>
        decreases self,
    {
        PaneView {
            left: left_of(&self.rect),
            top: top_of(&self.rect),
            width: width_of(&self.rect),
            height: height_of(&self.rect),
            margin: self.margin,
            orientation: self.orientation,
            contents: match self.contents {
                Some(contents) => Some(contents@),
                None => None,
            },
            color: self.color,
            names: self.names@,
            weights: Seq::new(self.children.len() as nat, |i: int| self.children[i].0),
            children: Seq::new(
                self.children.len() as nat,
                |i: int|
                    if 0 <= i < self.children.len() {
                        self.children[i].1.model()
                    } else {
                        arbitrary()
                    },
            ),
        }
    }

    #[verifier::type_invariant]
    spec fn inv(self) -> bool
        decreases self,
    {
        &&& forall|name: Seq<char>| #[trigger]
            self.names@.contains_key(name) ==> self.names@[name] < self.children.len()
        &&& forall|i: int| 0 <= i < self.children.len() ==> (#[trigger] self.children[i]).1.inv()
    }

    proof fn lemma_inv_wf(self)
        requires
            self.inv(),
        ensures
            self@.wf(),
        decreases self,
    {
        assert(self@.children.len() == self.children.len());
        assert forall|i: int| 0 <= i < self.children.len() implies (#[trigger] self@.children[i]).wf() by {
            assert(self.children[i].1.inv());
            self.children[i].1.lemma_inv_wf();
            assert(self@.children[i] == self.children[i].1@);
        }
    }

    /// Make a pane: the unit square at the origin, transparent, without
    /// margin, contents or children, to be split from top to bottom.
    pub fn new() -> (pane: Self)
        ensures
            pane@ == (PaneView {
                left: R::Scalar::ZERO,
                top: R::Scalar::ZERO,
                width: R::Scalar::ONE,
                height: R::Scalar::ONE,
                margin: R::Scalar::ZERO,
                orientation: Orientation::Vertical,
                contents: None,
                color: TRANSPARENT,
                names: Map::empty(),
                weights: Seq::empty(),
                children: Seq::empty(),
            }),
            pane@.wf(),
    {
        let pane = Pane {
            contents: None,
            orientation: Orientation::Vertical,
            margin: R::Scalar::ZERO,
            names: StringHashMap::new(),
            children: Vec::new(),
            rect: R::new(
                R::Vector::new(R::Scalar::ZERO, R::Scalar::ZERO),
                R::Vector::new(R::Scalar::ONE, R::Scalar::ONE),
            ),
            color: TRANSPARENT,
        };
        assert(pane@.weights =~= Seq::empty());
        assert(pane@.children =~= Seq::empty());
        proof {
            pane.lemma_inv_wf();
        }
        pane
    }

    /// Get the rectangle that the margin leaves inside the pane's own.
    pub fn margin_rect(&self) -> (inner: R)
        ensures
            rect_is(
                &inner,
                self@.inner_left(),
                self@.inner_top(),
                self@.inner_width(),
                self@.inner_height(),
            ),
    {
        Self::inset(&self.rect, self.margin)
    }

    /// A rectangle less a margin inside each of its four edges.
    fn inset(rect: &R, margin: R::Scalar) -> (inner: R)
        ensures
            rect_is(
                &inner,
                left_of(rect).add_spec(margin),
                top_of(rect).add_spec(margin),
                width_of(rect).sub_spec(margin.mul_spec(R::Scalar::TWO)),
                height_of(rect).sub_spec(margin.mul_spec(R::Scalar::TWO)),
            ),
    {
        R::new(
            rect.top_left().add(R::Vector::new(margin, margin)),
            rect.size().sub(R::Vector::new(margin, margin).mul(R::Scalar::TWO)),
        )
    }

    /// Put the pane at a rectangle and lay out all of its descendants.
    #[verifier::loop_isolation(false)]
    fn placed_at(self, rect: R) -> (pane: Self)
        ensures
            pane@ == self@.placed(left_of(&rect), top_of(&rect), width_of(&rect), height_of(&rect)),
        decreases self,
    {
        proof {
            use_type_invariant(&self);
        }
        let ghost before = self;
        let ghost at = PaneView {
            left: left_of(&rect),
            top: top_of(&rect),
            width: width_of(&rect),
            height: height_of(&rect),
            ..self@
        };
        let Pane { contents, orientation, margin, names, rect: _, children, color } = self;
        let inner = Self::inset(&rect, margin);
        let mut weights: Vec<R::Scalar> = Vec::new();
        let mut k: usize = 0;
        while k < children.len()
            invariant
                k <= children.len(),
                weights@ == before@.weights.take(k as int),
                children == before.children,
            decreases children.len() - k,
        {
            weights.push(children[k].0);
            assert(weights@ =~= before@.weights.take(k + 1));
            k += 1;
        }
        assert(before@.weights.take(children.len() as int) =~= before@.weights);
        let rects = orientation.split_rect(inner, weights.as_slice());
        let ghost goal = before@.placed(
            left_of(&rect),
            top_of(&rect),
            width_of(&rect),
            height_of(&rect),
        ).children;
        let mut placed: Vec<(R::Scalar, Pane<R>)> = Vec::new();
        for child in it: children.into_iter()
            invariant
                it.seq() == before.children@,
                placed.len() == it.index(),
                forall|j: int| 0 <= j < placed.len() ==> (#[trigger] placed[j]).0 == before.children[j].0,
                forall|j: int| 0 <= j < placed.len() ==> (#[trigger] placed[j]).1@ == goal[j],
                forall|j: int| 0 <= j < placed.len() ==> (#[trigger] placed[j]).1.inv(),
        {
            let ghost i = it.index() as int;
            let (weight, pane) = child;
            assert(pane == before.children[i].1);
            assert(orientation.is_split_child(&inner, weights@, i, &rects[i]));
            proof {
                broadcast use vstd::std_specs::vec::axiom_vec_index_decreases;
                assert(decreases_to!(before.children => before.children[i]));
                assert(decreases_to!(before => pane));
            }
            let moved = pane.placed_at(rects[placed.len()]);
            proof {
                use_type_invariant(&moved);
                assert(before@.children[i] == pane@);
                assert(goal[i] == before@.children[i].placed(
                    at.child_left(i),
                    at.child_top(i),
                    at.child_width(i),
                    at.child_height(i),
                ));
                assert(rect_is(
                    &rects[i],
                    at.child_left(i),
                    at.child_top(i),
                    at.child_width(i),
                    at.child_height(i),
                ));
            }
            placed.push((weight, moved));
        }
        let pane = Pane { contents, orientation, margin, names, rect, children: placed, color };
        assert(pane@.weights =~= before@.weights);
        assert(pane@.children =~= goal);
        pane
    }

    /// Lay out all descendants of the pane anew.
    fn update_rects(self) -> (pane: Self)
        ensures
            pane@ == self@.laid_out(),
    {
        let rect = self.rect;
        self.placed_at(rect)
    }

    /// Get the pane's children, in their order.
    pub fn children(&self) -> (children: Vec<&Pane<R>>)
        ensures
            children.len() == self@.children.len(),
            forall|i: int| 0 <= i < children.len() ==> (#[trigger] children[i])@ == self@.children[i],
    {
        let mut children: Vec<&Pane<R>> = Vec::new();
        let mut i: usize = 0;
        while i < self.children.len()
            invariant
                i <= self.children.len(),
                children.len() == i,
                forall|j: int| 0 <= j < i ==> (#[trigger] children[j])@ == self@.children[j],
            decreases self.children.len() - i,
        {
            children.push(&self.children[i].1);
            i += 1;
        }
        children
    }

    /// Get the weight of each child, in their order.
    pub fn weights(&self) -> (weights: Vec<R::Scalar>)
        ensures
            weights@ == self@.weights,
    {
        let mut weights: Vec<R::Scalar> = Vec::new();
        let mut i: usize = 0;
        while i < self.children.len()
            invariant
                i <= self.children.len(),
                weights@ == self@.weights.take(i as int),
            decreases self.children.len() - i,
        {
            weights.push(self.children[i].0);
            assert(weights@ =~= self@.weights.take(i + 1));
            i += 1;
        }
        assert(self@.weights.take(self.children.len() as int) =~= self@.weights);
        weights
    }

    /// Get the pane's contents.
    pub fn contents(&self) -> (contents: Option<&Contents<R::Scalar>>)
        ensures
            match contents {
                Some(c) => self@.contents == Some(c@),
                None => self@.contents is None,
            },
    {
        self.contents.as_ref()
    }

    /// Set the pane's contents.
    pub fn with_contents(self, contents: Contents<R::Scalar>) -> (pane: Self)
        ensures
            pane@ == (PaneView { contents: Some(contents@), ..self@ }),
    {
        proof {
            use_type_invariant(&self);
        }
        let Pane { contents: _, orientation, margin, names, rect, children, color } = self;
        let pane = Pane { contents: Some(contents), orientation, margin, names, rect, children, color };
        assert(pane@.weights =~= self@.weights);
        assert(pane@.children =~= self@.children);
        pane
    }

    /// Remove the pane's contents.
    pub fn with_no_contents(self) -> (pane: Self)
        ensures
            pane@ == (PaneView { contents: None, ..self@ }),
    {
        proof {
            use_type_invariant(&self);
        }
        let Pane { contents: _, orientation, margin, names, rect, children, color } = self;
        let pane = Pane { contents: None, orientation, margin, names, rect, children, color };
        assert(pane@.weights =~= self@.weights);
        assert(pane@.children =~= self@.children);
        pane
    }

    /// Get the pane's rectangle.
    pub fn rect(&self) -> (rect: R)
        ensures
            rect_is(&rect, self@.left, self@.top, self@.width, self@.height),
    {
        self.rect
    }

    /// Set the pane's rectangle, and lay out its descendants.
    pub fn with_rect(self, rect: R) -> (pane: Self)
        ensures
            pane@ == self@.placed(left_of(&rect), top_of(&rect), width_of(&rect), height_of(&rect)),
    {
        self.placed_at(rect)
    }

    /// Get the pane's size.
    pub fn size(&self) -> (size: R::Vector)
        ensures
            size.x_spec() == self@.width,
            size.y_spec() == self@.height,
    {
        self.rect.size()
    }

    /// Set the pane's size, and lay out its descendants.
    pub fn with_size(self, size: R::Vector) -> (pane: Self)
        ensures
            pane@ == self@.placed(self@.left, self@.top, size.x_spec(), size.y_spec()),
    {
        let rect = self.rect.with_size(size);
        self.placed_at(rect)
    }

    /// Get the position of the pane's top-left corner.
    pub fn top_left(&self) -> (top_left: R::Vector)
        ensures
            top_left.x_spec() == self@.left,
            top_left.y_spec() == self@.top,
    {
        self.rect.top_left()
    }

    /// Set the position of the pane's top-left corner, and lay out its
    /// descendants.
    pub fn with_top_left(self, top_left: R::Vector) -> (pane: Self)
        ensures
            pane@ == self@.placed(top_left.x_spec(), top_left.y_spec(), self@.width, self@.height),
    {
        let rect = self.rect.with_top_left(top_left);
        self.placed_at(rect)
    }

    /// Get the axis along which the pane's children are arranged.
    pub fn orientation(&self) -> (orientation: Orientation)
        ensures
            orientation == self@.orientation,
    {
        self.orientation
    }

    /// Set the axis along which the pane's children are arranged, and lay
    /// out its descendants.
    pub fn with_orientation(self, orientation: Orientation) -> (pane: Self)
        ensures
            pane@ == (PaneView { orientation, ..self@ }).laid_out(),
    {
        proof {
            use_type_invariant(&self);
        }
        let Pane { contents, orientation: _, margin, names, rect, children, color } = self;
        let pane = Pane { contents, orientation, margin, names, rect, children, color };
        assert(pane@.weights =~= self@.weights);
        assert(pane@.children =~= self@.children);
        pane.update_rects()
    }

    /// Get the pane's color.
    pub fn color(&self) -> (color: Color)
        ensures
            color == self@.color,
    {
        self.color
    }

    /// Set the pane's color.
    pub fn with_color(self, color: Color) -> (pane: Self)
        ensures
            pane@ == (PaneView { color, ..self@ }),
    {
        proof {
            use_type_invariant(&self);
        }
        let Pane { contents, orientation, margin, names, rect, children, color: _ } = self;
        let pane = Pane { contents, orientation, margin, names, rect, children, color };
        assert(pane@.weights =~= self@.weights);
        assert(pane@.children =~= self@.children);
        pane
    }

    /// Get the pane's margin.
    pub fn margin(&self) -> (margin: R::Scalar)
        ensures
            margin == self@.margin,
    {
        self.margin
    }

    /// Set the pane's margin, and lay out its descendants.
    pub fn with_margin(self, margin: R::Scalar) -> (pane: Self)
        ensures
            pane@ == (PaneView { margin, ..self@ }).laid_out(),
    {
        proof {
            use_type_invariant(&self);
        }
        let Pane { contents, orientation, margin: _, names, rect, children, color } = self;
        let pane = Pane { contents, orientation, margin, names, rect, children, color };
        assert(pane@.weights =~= self@.weights);
        assert(pane@.children =~= self@.children);
        pane.update_rects()
    }

    /// Set the pane's children, and lay out its descendants.
    ///
    /// Each child has a weight, which says how large it is beside its
    /// siblings, and may have a name, by which the pane then finds it. The
    /// children that the pane had are dropped, and their names with them.
    #[verifier::loop_isolation(false)]
    pub fn with_panes<'a, P: NamedWeightedPane<'a, R>>(self, panes: Vec<P>) -> (pane: Self)
        ensures
            pane@ == (PaneView {
                names: names_of(Seq::new(panes.len() as nat, |i: int| panes[i].name_spec())),
                weights: Seq::new(panes.len() as nat, |i: int| panes[i].weight_spec()),
                children: Seq::new(panes.len() as nat, |i: int| panes[i].pane_spec()),
                ..self@
            }).laid_out(),
    {
        let ghost given = Seq::new(panes.len() as nat, |i: int| panes[i].name_spec());
        let Pane { contents, orientation, margin, names: _, rect, children: _, color } = self;
        let mut names: StringHashMap<usize> = StringHashMap::new();
        let mut children: Vec<(R::Scalar, Pane<R>)> = Vec::new();
        assert(given.take(0) =~= Seq::empty());
        for item in it: panes.into_iter()
            invariant
                it.seq() == panes@,
                children.len() == it.index(),
                names@ == names_of(given.take(it.index() as int)),
                forall|name: Seq<char>| #[trigger]
                    names@.contains_key(name) ==> names@[name] < children.len(),
                forall|j: int| 0 <= j < children.len() ==> (#[trigger] children[j]).1.inv(),
                forall|j: int|
                    0 <= j < children.len() ==> (#[trigger] children[j]).0 == panes[j].weight_spec(),
                forall|j: int|
                    0 <= j < children.len() ==> (#[trigger] children[j]).1@ == panes[j].pane_spec(),
        {
            let ghost i = it.index() as int;
            let position = children.len();
            let (name, weight, child) = item.named_weighted_pane();
            proof {
                use_type_invariant(&child);
                assert(given.take(i + 1).drop_last() =~= given.take(i));
                assert(given.take(i + 1).last() == panes[i].name_spec());
            }
            if let Some(name) = name {
                names.insert(String::from_str(name), position);
            }
            children.push((weight, child));
        }
        assert(given.take(panes.len() as int) =~= given);
        let pane = Pane { contents, orientation, margin, names, rect, children, color };
        assert(pane@.weights =~= Seq::new(panes.len() as nat, |i: int| panes[i].weight_spec()));
        assert(pane@.children =~= Seq::new(panes.len() as nat, |i: int| panes[i].pane_spec()));
        pane.update_rects()
    }

    /// Get the child at a position, counted from zero in the order in
    /// which the children were given.
    pub fn index(&self, index: usize) -> (result: Result<&Pane<R>, IndexError>)
        ensures
            match result {
                Ok(child) => index < self@.children.len() && child@ == self@.children[index as int],
                Err(e) => e == IndexError::IndexOutOfRange && index >= self@.children.len(),
            },
    {
        if index < self.children.len() {
            Ok(&self.children[index].1)
        } else {
            Err(IndexError::IndexOutOfRange)
        }
    }

    /// Get the child that has a name.
    pub fn index_name(&self, name: &str) -> (result: Result<&Pane<R>, IndexError>)
        ensures
            match result {
                Ok(child) => {
                    &&& self@.names.contains_key(name@)
                    &&& self@.names[name@] < self@.children.len()
                    &&& child@ == self@.children[self@.names[name@] as int]
                },
                Err(e) => e == IndexError::UnknownName && !self@.names.contains_key(name@),
            },
    {
        proof {
            use_type_invariant(self);
        }
        match self.names.get(name) {
            Some(index) => Ok(&self.children[*index].1),
            None => Err(IndexError::UnknownName),
        }
    }

    /// Fit the font of all text in the pane, each pane's to the rectangle
    /// that it has.
    #[verifier::loop_isolation(false)]
    fn fit_fonts<C>(self, glyphs: &mut C) -> (result: Result<Self, TextError>) where
        C: CharacterWidthCache<Scalar = R::Scalar>,

        ensures
            result_view(result) == self@.fitted(|c: char, s: u32| old(glyphs).char_width_spec(c, s)),
            forall|c: char, s: u32| #[trigger]
                final(glyphs).char_width_spec(c, s) == old(glyphs).char_width_spec(c, s),
        decreases self,
    {
        proof {
            use_type_invariant(&self);
        }
        let ghost w = |c: char, s: u32| old(glyphs).char_width_spec(c, s);
        let ghost before = self;
        let ghost results = before@.fitted_children(w);
        let Pane { contents, orientation, margin, names, rect, children, color } = self;
        let inner = Self::inset(&rect, margin);
        let contents = match contents {
            Some(Contents::Text(text, format)) => match format.resize {
                Resize::Never => Some(Contents::Text(text, format)),
                _ => match glyphs.fit_max_font_size(text.as_str(), inner, format) {
                    Ok(size) => Some(Contents::Text(text, format.resize_font(size))),
                    Err(e) => {
                        return Err(e);
                    },
                },
            },
            None => None,
        };
        assert(before@.fitted_contents(w) == Ok::<_, TextError>(
            match contents {
                Some(c) => Some(c@),
                None => None,
            },
        ));
        let mut fitted: Vec<(R::Scalar, Pane<R>)> = Vec::new();
        for child in it: children.into_iter()
            invariant
                it.seq() == before.children@,
                fitted.len() == it.index(),
                forall|c: char, s: u32| #[trigger] glyphs.char_width_spec(c, s) == w(c, s),
                forall|j: int| 0 <= j < fitted.len() ==> (#[trigger] fitted[j]).0 == before.children[j].0,
                forall|j: int| 0 <= j < fitted.len() ==> results[j] == Ok::<_, TextError>((#[trigger] fitted[j]).1@),
                forall|j: int| 0 <= j < fitted.len() ==> (#[trigger] fitted[j]).1.inv(),
        {
            let ghost i = it.index() as int;
            let (weight, pane) = child;
            proof {
                broadcast use vstd::std_specs::vec::axiom_vec_index_decreases;
                assert(pane == before.children[i].1);
                assert(decreases_to!(before.children => before.children[i]));
                assert(decreases_to!(before => pane));
                assert((|c: char, s: u32| glyphs.char_width_spec(c, s)) =~= w);
                assert(before@.children[i] == pane@);
            }
            match pane.fit_fonts(glyphs) {
                Ok(done) => {
                    proof {
                        use_type_invariant(&done);
                    }
                    fitted.push((weight, done));
                },
                Err(e) => {
                    proof {
                        assert(results[i] == Err::<PaneView<R::Scalar>, _>(e));
                        assert forall|j: int| 0 <= j < i implies (#[trigger] results[j]) is Ok by {
                            assert(results[j] == Ok::<_, TextError>(fitted[j].1@));
                        }
                        lemma_first_failure(results, i);
                    }
                    return Err(e);
                },
            }
        }
        proof {
            assert forall|j: int| 0 <= j < results.len() implies (#[trigger] results[j]) is Ok by {
                assert(results[j] == Ok::<_, TextError>(fitted[j].1@));
            }
            lemma_no_failure(results);
        }
        let pane = Pane { contents, orientation, margin, names, rect, children: fitted, color };
        assert(pane@.weights =~= before@.weights);
        assert(pane@.children =~= Seq::new(
            before@.children.len(),
            |i: int| before@.fitted_children(w)[i].unwrap(),
        ));
        Ok(pane)
    }

    /// Lay out the pane's descendants, and fit the font of all text in the
    /// pane and in its descendants, each pane's to the rectangle that the
    /// pane's margin leaves.
    ///
    /// Text takes the size that its format's resize strategy makes of the
    /// largest size at which it fits. The first text that fits at no size,
    /// or whose line widths do not compare, ends the pass with its failure.
    pub fn fit_text<C>(self, glyphs: &mut C) -> (result: Result<Self, TextError>) where
        C: CharacterWidthCache<Scalar = R::Scalar>,

        ensures
            result_view(result) == self@.laid_out().fitted(
                |c: char, s: u32| old(glyphs).char_width_spec(c, s),
            ),
            forall|c: char, s: u32| #[trigger]
                final(glyphs).char_width_spec(c, s) == old(glyphs).char_width_spec(c, s),
    {
        self.update_rects().fit_fonts(glyphs)
    }

    /// Put another pane in the place of the child at a position: the one
    /// that `f` makes of the child. The pane's descendants are laid out
    /// anew, so the new child gets the rectangle of the old one. Where the
    /// pane has no child at the position, it stays as it is.
    pub fn map_child<F>(self, index: usize, f: F) -> (pane: Self) where F: FnOnce(Pane<R>) -> Pane<R>
        requires
            forall|child: Pane<R>|
                index < self@.children.len() && child@ == self@.children[index as int]
                    ==> call_requires(f, (child,)),
        ensures
            index >= self@.children.len() ==> pane@ == self@,
            index < self@.children.len() ==> exists|child: Pane<R>, made: Pane<R>|
                {
                    &&& child@ == self@.children[index as int]
                    &&& call_ensures(f, (child,), made)
                    &&& pane@ == (PaneView {
                        children: self@.children.update(index as int, made@),
                        ..self@
                    }).laid_out()
                },
    {
        proof {
            use_type_invariant(&self);
        }
        if index >= self.children.len() {
            return self;
        }
        let ghost before = self;
        let Pane { contents, orientation, margin, names, rect, children, color } = self;
        let mut children = children;
        let (weight, child) = children.remove(index);
        assert(child@ == before@.children[index as int]) by {
            assert(child == before.children[index as int].1);
        }
        let made = f(child);
        proof {
            use_type_invariant(&made);
        }
        children.insert(index, (weight, made));
        let pane = Pane { contents, orientation, margin, names, rect, children, color };
        assert(pane@.weights =~= before@.weights);
        assert(pane@.children =~= before@.children.update(index as int, made@));
        assert(child@ == before@.children[index as int]);
        pane.update_rects()
    }

    /// Put another pane in the place of the child that has a name: the one
    /// that `f` makes of the child. The pane's descendants are laid out
    /// anew, so the new child gets the rectangle of the old one.
    pub fn map_child_name<F>(self, name: &str, f: F) -> (result: Result<Self, IndexError>) where
        F: FnOnce(Pane<R>) -> Pane<R>,

        requires
            forall|child: Pane<R>|
                self@.names.contains_key(name@) && child@ == self@.children[self@.names[name@] as int]
                    ==> call_requires(f, (child,)),
        ensures
            match result {
                Ok(pane) => self@.names.contains_key(name@) && exists|child: Pane<R>, made: Pane<R>|
                    {
                        &&& child@ == self@.children[self@.names[name@] as int]
                        &&& call_ensures(f, (child,), made)
                        &&& pane@ == (PaneView {
                            children: self@.children.update(self@.names[name@] as int, made@),
                            ..self@
                        }).laid_out()
                    },
                Err(e) => e == IndexError::UnknownName && !self@.names.contains_key(name@),
            },
    {
        proof {
            use_type_invariant(&self);
        }
        let found = match self.names.get(name) {
            Some(index) => Some(*index),
            None => None,
        };
        match found {
            Some(index) => Ok(self.map_child(index, f)),
            None => Err(IndexError::UnknownName),
        }
    }
}

} // verus!
