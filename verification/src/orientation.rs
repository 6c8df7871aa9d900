//! Splitting a rectangle among weighted children along one axis.
//!
//! The children sit edge to edge: each begins where the one before it ends,
//! and nothing is left between them. A gap between neighbours comes from the
//! margin that each child pane applies to itself, never from the split.

use vstd::prelude::*;
use crate::math::{height_of, left_of, top_of, width_of};
use crate::math::{Rectangle, Scalar, Vector2, ZeroOneTwo};

verus! {

/// The axis along which a pane arranges its children.
#[derive(Debug, Clone, Copy, PartialEq, Eq, PartialOrd, Ord, Hash)]
pub enum Orientation {
    /// Children sit side by side, from left to right.
    Horizontal,
    /// Children are stacked, from top to bottom.
    Vertical,
}

impl Default for Orientation {
    /// Children are stacked unless told otherwise.
    fn default() -> (o: Self)
        ensures
            o == Orientation::Vertical,
    {
        Orientation::Vertical
    }
}

/// The sum of some weights, added up from zero in their order.
pub open spec fn weight_sum<S: Scalar>(weights: Seq<S>) -> S
    decreases weights.len(),
{
    if weights.len() == 0 {
        S::ZERO
    } else {
        weight_sum(weights.drop_last()).add_spec(weights.last())
    }
}

/// The length that child `i` gets along the split axis: the whole length
/// times the child's share of the summed weights.
pub open spec fn split_length<S: Scalar>(length: S, weights: Seq<S>, i: int) -> S {
    length.mul_spec(weights[i].div_spec(weight_sum(weights)))
}

/// Where child `i` begins along the split axis: at `start` for the first
/// child, and for each later one where the child before it ends.
pub open spec fn split_offset<S: Scalar>(start: S, length: S, weights: Seq<S>, i: int) -> S
    decreases i,
{
    if i <= 0 {
        start
    } else {
        split_offset(start, length, weights, i - 1).add_spec(split_length(length, weights, i - 1))
    }
}

impl Orientation {
    /// Where a rectangle begins along this axis.
    pub open spec fn start_of<R: Rectangle>(self, rect: &R) -> R::Scalar {
        match self {
            Orientation::Horizontal => left_of(rect),
            Orientation::Vertical => top_of(rect),
        }
    }

    /// How long a rectangle is along this axis.
    pub open spec fn length_of<R: Rectangle>(self, rect: &R) -> R::Scalar {
        match self {
            Orientation::Horizontal => width_of(rect),
            Orientation::Vertical => height_of(rect),
        }
    }

    /// Where a rectangle ends along this axis: its start plus its length.
    pub open spec fn end_of<R: Rectangle>(self, rect: &R) -> R::Scalar {
        self.start_of(rect).add_spec(self.length_of(rect))
    }

    /// The other axis.
    pub open spec fn across(self) -> Orientation {
        match self {
            Orientation::Horizontal => Orientation::Vertical,
            Orientation::Vertical => Orientation::Horizontal,
        }
    }

    /// Whether `child` is what child `i` of `rect` must be when `rect` is
    /// split along this axis by `weights`: along the axis it begins at its
    /// offset and has its share of the length, across the axis it is as
    /// `rect` is.
    pub open spec fn is_split_child<R: Rectangle>(
        self,
        rect: &R,
        weights: Seq<R::Scalar>,
        i: int,
        child: &R,
    ) -> bool {
        &&& self.start_of(child) == split_offset(self.start_of(rect), self.length_of(rect), weights, i)
        &&& self.length_of(child) == split_length(self.length_of(rect), weights, i)
        &&& self.across().start_of(child) == self.across().start_of(rect)
        &&& self.across().length_of(child) == self.across().length_of(rect)
    }

    /// Whether `children` are the rectangles that splitting `rect` along
    /// this axis by `weights` gives, one for each weight and in their order.
    pub open spec fn is_split<R: Rectangle>(
        self,
        rect: &R,
        weights: Seq<R::Scalar>,
        children: Seq<R>,
    ) -> bool {
        &&& children.len() == weights.len()
        &&& forall|i: int|
            0 <= i < weights.len() ==> self.is_split_child(rect, weights, i, #[trigger] &children[i])
    }

    /// Split a rectangle along this axis into one rectangle for each weight.
    ///
    /// Each child gets the share of the length that its weight has in the
    /// sum of the weights, the children follow each other in the order of
    /// the weights without a gap, and across the axis each is as long as
    /// `rect`. No weights give no children.
    pub fn split_rect<R: Rectangle>(&self, rect: R, weights: &[R::Scalar]) -> (children: Vec<R>)
        ensures
            self.is_split(&rect, weights@, children@),
    {
        let n = weights.len();
        let mut sum = R::Scalar::ZERO;
        let mut k: usize = 0;
        while k < n
            invariant
                n == weights.len(),
                k <= n,
                sum == weight_sum(weights@.take(k as int)),
            decreases n - k,
        {
            assert(weights@.take(k + 1).drop_last() =~= weights@.take(k as int));
            sum = sum.add(weights[k]);
            k += 1;
        }
        assert(weights@.take(n as int) =~= weights@);
        let length = match self {
            Orientation::Horizontal => rect.width(),
            Orientation::Vertical => rect.height(),
        };
        let mut offset = match self {
            Orientation::Horizontal => rect.left(),
            Orientation::Vertical => rect.top(),
        };
        let mut children: Vec<R> = Vec::new();
        let mut i: usize = 0;
        while i < n
            invariant
                n == weights.len(),
                i <= n,
                sum == weight_sum(weights@),
                length == self.length_of(&rect),
                offset == split_offset(self.start_of(&rect), length, weights@, i as int),
                children.len() == i,
                forall|j: int|
                    0 <= j < i ==> self.is_split_child(&rect, weights@, j, #[trigger] &children[j]),
            decreases n - i,
        {
            let share = length.mul(weights[i].div(sum));
            let child = match self {
                Orientation::Horizontal => R::new(
                    R::Vector::new(offset, rect.top()),
                    R::Vector::new(share, rect.height()),
                ),
                Orientation::Vertical => R::new(
                    R::Vector::new(rect.left(), offset),
                    R::Vector::new(rect.width(), share),
                ),
            };
            assert(self.is_split_child(&rect, weights@, i as int, &child));
            children.push(child);
            offset = offset.add(share);
            i += 1;
        }
        children
    }
}

/// Whether the arithmetic for child `i` of a split is exact under a
/// reading of the scalars as real numbers: its weight is truly added to the
/// weights before it, its share of the sum and of the length is the true
/// quotient and product, and it ends at the true sum of its start and its
/// length.
pub open spec fn split_step_is_exact<S: Scalar>(
    value: spec_fn(S) -> real,
    start: S,
    length: S,
    weights: Seq<S>,
    i: int,
) -> bool {
    let sum = weight_sum(weights);
    &&& value(weight_sum(weights.take(i + 1))) == value(weight_sum(weights.take(i))) + value(
        weights[i],
    )
    &&& value(weights[i].div_spec(sum)) * value(sum) == value(weights[i])
    &&& value(split_length(length, weights, i)) == value(length) * value(weights[i].div_spec(sum))
    &&& value(split_offset(start, length, weights, i + 1)) == value(
        split_offset(start, length, weights, i),
    ) + value(split_length(length, weights, i))
}

/// Whether the arithmetic of a split is exact under a reading of the
/// scalars as real numbers: zero reads as zero, the weights add up to a sum
/// that is not zero, and the arithmetic for each child is exact.
pub open spec fn split_is_exact<S: Scalar>(
    value: spec_fn(S) -> real,
    start: S,
    length: S,
    weights: Seq<S>,
) -> bool {
    &&& value(S::ZERO) == 0real
    &&& value(weight_sum(weights)) != 0real
    &&& forall|i: int|
        0 <= i < weights.len() ==> #[trigger] split_step_is_exact(value, start, length, weights, i)
}

/// The children of a split follow each other, in the order of their
/// weights, without a gap and without overlap: the first begins where the
/// rectangle begins, and each other begins where the one before it ends.
/// Across the axis each child begins and ends where the rectangle does.
pub proof fn lemma_split_contiguous<R: Rectangle>(
    axis: Orientation,
    rect: &R,
    weights: Seq<R::Scalar>,
    children: Seq<R>,
    i: int,
)
    requires
        axis.is_split(rect, weights, children),
        0 <= i < children.len(),
    ensures
        i == 0 ==> axis.start_of(&children[i]) == axis.start_of(rect),
        i > 0 ==> axis.start_of(&children[i]) == axis.end_of(&children[i - 1]),
        axis.across().start_of(&children[i]) == axis.across().start_of(rect),
        axis.across().end_of(&children[i]) == axis.across().end_of(rect),
{
    assert(axis.is_split_child(rect, weights, i, &children[i]));
    if i > 0 {
        assert(axis.is_split_child(rect, weights, i - 1, &children[i - 1]));
    }
}

/// Where the arithmetic is exact, the children of a split fill the
/// rectangle: the first `n` of them are together as long as the first `n`
/// weights' share of the whole length, so that the last child ends where
/// the rectangle ends and the lengths of all children add up to the length
/// of the rectangle.
pub proof fn lemma_split_fills<S: Scalar>(
    value: spec_fn(S) -> real,
    start: S,
    length: S,
    weights: Seq<S>,
    n: int,
)
    requires
        split_is_exact(value, start, length, weights),
        0 <= n <= weights.len(),
    ensures
        (value(split_offset(start, length, weights, n)) - value(start)) * value(weight_sum(weights))
            == value(length) * value(weight_sum(weights.take(n))),
        n == weights.len() ==> value(split_offset(start, length, weights, n)) == value(start)
            + value(length),
    decreases n,
{
    let sum = value(weight_sum(weights));
    if n == 0 {
        assert(weights.take(0) =~= Seq::empty());
        assert(value(length) * 0real == 0real) by (nonlinear_arith);
        assert((value(start) - value(start)) * sum == 0real) by (nonlinear_arith);
    } else {
        lemma_split_fills(value, start, length, weights, n - 1);
        assert(split_step_is_exact(value, start, length, weights, n - 1));
        let before = value(split_offset(start, length, weights, n - 1)) - value(start);
        let part = value(weight_sum(weights.take(n - 1)));
        let quotient = value(weights[n - 1].div_spec(weight_sum(weights)));
        let weight = value(weights[n - 1]);
        let whole = value(length);
        let share = value(split_length(length, weights, n - 1));
        assert(value(split_offset(start, length, weights, n)) == value(
            split_offset(start, length, weights, n - 1),
        ) + share);
        assert(value(weight_sum(weights.take(n))) == part + weight);
        assert((before + share) * sum == whole * (part + weight)) by (nonlinear_arith)
            requires
                before * sum == whole * part,
                share == whole * quotient,
                quotient * sum == weight,
        ;
    }
    if n == weights.len() {
        assert(weights.take(n) =~= weights);
        let reach = value(split_offset(start, length, weights, n)) - value(start);
        assert(reach == value(length)) by (nonlinear_arith)
            requires
                reach * sum == value(length) * sum,
                sum != 0real,
        ;
    }
}

} // verus!
