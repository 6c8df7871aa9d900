//! Scalars, two-dimensional vectors and rectangles, each as a trait, so that
//! layout code works over whatever number type its caller brings.
//!
//! Nothing here relies on arithmetic laws. Every scalar operation has a spec
//! function that names its result, and every contract is stated over those
//! names: a vector is known by its two components, a rectangle by its
//! top-left corner and its size.

use vstd::prelude::*;

verus! {

/// Two items of one type.
///
/// A pair of scalars serves as a vector, and a pair of vectors as a
/// rectangle, so a flat array or tuple of four scalars is a pair of pairs.
pub trait Pair: Sized {
    /// What the pair is made of.
    type Item;

    /// The first item.
    spec fn first_spec(&self) -> Self::Item;

    /// The second item.
    spec fn second_spec(&self) -> Self::Item;

    /// Get the first item.
    fn first(&self) -> (a: Self::Item)
        ensures
            a == self.first_spec(),
    ;

    /// Get the second item.
    fn second(&self) -> (b: Self::Item)
        ensures
            b == self.second_spec(),
    ;

    /// Make a pair of two items.
    fn from_items(a: Self::Item, b: Self::Item) -> (p: Self)
        ensures
            p.first_spec() == a,
            p.second_spec() == b,
    ;
}

impl<T: Copy> Pair for (T, T) {
    type Item = T;

    open spec fn first_spec(&self) -> T {
        self.0
    }

    open spec fn second_spec(&self) -> T {
        self.1
    }

    fn first(&self) -> T {
        self.0
    }

    fn second(&self) -> T {
        self.1
    }

    fn from_items(a: T, b: T) -> Self {
        (a, b)
    }
}

impl<T: Copy> Pair for [T; 2] {
    type Item = T;

    open spec fn first_spec(&self) -> T {
        self[0]
    }

    open spec fn second_spec(&self) -> T {
        self[1]
    }

    fn first(&self) -> T {
        self[0]
    }

    fn second(&self) -> T {
        self[1]
    }

    fn from_items(a: T, b: T) -> Self {
        [a, b]
    }
}

impl<T: Copy> Pair for (T, T, T, T) {
    type Item = (T, T);

    open spec fn first_spec(&self) -> (T, T) {
        (self.0, self.1)
    }

    open spec fn second_spec(&self) -> (T, T) {
        (self.2, self.3)
    }

    fn first(&self) -> (T, T) {
        (self.0, self.1)
    }

    fn second(&self) -> (T, T) {
        (self.2, self.3)
    }

    fn from_items(a: (T, T), b: (T, T)) -> Self {
        (a.0, a.1, b.0, b.1)
    }
}

impl<T: Copy> Pair for [T; 4] {
    type Item = [T; 2];

    open spec fn first_spec(&self) -> [T; 2] {
        [self[0], self[1]]
    }

    open spec fn second_spec(&self) -> [T; 2] {
        [self[2], self[3]]
    }

    fn first(&self) -> [T; 2] {
        [self[0], self[1]]
    }

    fn second(&self) -> [T; 2] {
        [self[2], self[3]]
    }

    fn from_items(a: [T; 2], b: [T; 2]) -> Self {
        let p = [a[0], a[1], b[0], b[1]];
        assert(p.first_spec() =~= a);
        assert(p.second_spec() =~= b);
        p
    }
}

/// Numbers that have a sine.
pub trait Sin {
    /// The type of the sine.
    type Output;

    /// The sine of this number.
    spec fn sin_spec(&self) -> Self::Output;

    /// Get the sine.
    fn sin(&self) -> (r: Self::Output)
        ensures
            r == self.sin_spec(),
    ;
}

/// Numbers that have a cosine.
pub trait Cos {
    /// The type of the cosine.
    type Output;

    /// The cosine of this number.
    spec fn cos_spec(&self) -> Self::Output;

    /// Get the cosine.
    fn cos(&self) -> (r: Self::Output)
        ensures
            r == self.cos_spec(),
    ;
}

/// Numbers that can be raised to a power of type `P`.
pub trait Pow<P> {
    /// The type of the result.
    type Output;

    /// This number raised to `power`.
    spec fn pow_spec(&self, power: P) -> Self::Output;

    /// Raise this number to a power.
    fn pow(&self, power: P) -> (r: Self::Output)
        ensures
            r == self.pow_spec(power),
    ;
}

/// The three small constants that geometry needs.
pub trait ZeroOneTwo: Sized {
    /// Zero.
    const ZERO: Self;

    /// One.
    const ONE: Self;

    /// Two.
    const TWO: Self;
}

/// A number type to measure and lay out with.
///
/// Each operation is total and its result is a function of its operands,
/// named by the spec function beside it. No law relates the operations to
/// each other: a type that rounds, saturates or has values that compare with
/// nothing is as welcome as an exact one. In particular `eq_spec` is the
/// type's own numeric equality, which need not be reflexive and need not
/// agree with `==` in specifications.
pub trait Scalar: Copy + Sin<Output = Self> + Cos<Output = Self> + Pow<Self, Output = Self> + ZeroOneTwo {
    /// The sum of two scalars.
    spec fn add_spec(self, rhs: Self) -> Self;

    /// The difference of two scalars.
    spec fn sub_spec(self, rhs: Self) -> Self;

    /// The product of two scalars.
    spec fn mul_spec(self, rhs: Self) -> Self;

    /// The quotient of two scalars.
    spec fn div_spec(self, rhs: Self) -> Self;

    /// The negation of a scalar.
    spec fn neg_spec(self) -> Self;

    /// Whether this scalar is strictly below `rhs`.
    spec fn lt_spec(self, rhs: Self) -> bool;

    /// Whether this scalar is numerically equal to `rhs`.
    spec fn eq_spec(self, rhs: Self) -> bool;

    /// The scalar that stands for a whole number.
    spec fn from_u32_spec(n: u32) -> Self;

    /// Add.
    fn add(self, rhs: Self) -> (r: Self)
        ensures
            r == self.add_spec(rhs),
    ;

    /// Subtract.
    fn sub(self, rhs: Self) -> (r: Self)
        ensures
            r == self.sub_spec(rhs),
    ;

    /// Multiply.
    fn mul(self, rhs: Self) -> (r: Self)
        ensures
            r == self.mul_spec(rhs),
    ;

    /// Divide.
    fn div(self, rhs: Self) -> (r: Self)
        ensures
            r == self.div_spec(rhs),
    ;

    /// Negate.
    fn neg(self) -> (r: Self)
        ensures
            r == self.neg_spec(),
    ;

    /// Compare: strictly less.
    fn lt(self, rhs: Self) -> (b: bool)
        ensures
            b == self.lt_spec(rhs),
    ;

    /// Compare: numerically equal.
    fn eq(self, rhs: Self) -> (b: bool)
        ensures
            b == self.eq_spec(rhs),
    ;

    /// Convert from a whole number.
    fn from_u32(n: u32) -> (r: Self)
        ensures
            r == Self::from_u32_spec(n),
    ;

    /// Get the absolute value: the scalar itself where it is at least zero,
    /// and its negation otherwise.
    fn abs(self) -> (r: Self)
        ensures
            r == (if Self::ZERO.lt_spec(self) || self.eq_spec(Self::ZERO) {
                self
            } else {
                self.neg_spec()
            }),
    {
        if Self::ZERO.lt(self) || self.eq(Self::ZERO) {
            self
        } else {
            self.neg()
        }
    }

    /// Get the larger of this scalar and another; `other` where neither is
    /// larger.
    fn max(self, other: Self) -> (r: Self)
        ensures
            r == (if other.lt_spec(self) {
                self
            } else {
                other
            }),
    {
        if other.lt(self) {
            self
        } else {
            other
        }
    }

    /// Get the smaller of this scalar and another; `other` where neither is
    /// smaller.
    fn min(self, other: Self) -> (r: Self)
        ensures
            r == (if self.lt_spec(other) {
                self
            } else {
                other
            }),
    {
        if self.lt(other) {
            self
        } else {
            other
        }
    }
}

/// Whether `a` is at least `b`: above it or numerically equal to it.
pub open spec fn ge_spec<S: Scalar>(a: S, b: S) -> bool {
    b.lt_spec(a) || a.eq_spec(b)
}

/// The absolute value of a scalar.
pub open spec fn abs_spec<S: Scalar>(x: S) -> S {
    if ge_spec(x, S::ZERO) {
        x
    } else {
        x.neg_spec()
    }
}

/// The larger of two scalars, the second where neither is larger.
pub open spec fn max_spec<S: Scalar>(a: S, b: S) -> S {
    if b.lt_spec(a) {
        a
    } else {
        b
    }
}

/// The smaller of two scalars, the second where neither is smaller.
pub open spec fn min_spec<S: Scalar>(a: S, b: S) -> S {
    if a.lt_spec(b) {
        a
    } else {
        b
    }
}

/// The square of a scalar, as raising to the power two gives it.
pub open spec fn square_spec<S: Scalar>(x: S) -> S {
    x.pow_spec(S::TWO)
}

/// The square root of a scalar, as raising to the power one half gives it.
pub open spec fn sqrt_spec<S: Scalar>(x: S) -> S {
    x.pow_spec(S::ONE.div_spec(S::TWO))
}

/// The length of the vector `(x, y)`.
pub open spec fn mag_spec<S: Scalar>(x: S, y: S) -> S {
    sqrt_spec(square_spec(x).add_spec(square_spec(y)))
}

/// The x component of `(x, y)` turned clockwise by `radians` about the
/// origin.
pub open spec fn rotated_x_spec<S: Scalar>(x: S, y: S, radians: S) -> S {
    x.mul_spec(radians.neg_spec().cos_spec()).sub_spec(y.mul_spec(radians.neg_spec().sin_spec()))
}

/// The y component of `(x, y)` turned clockwise by `radians` about the
/// origin.
pub open spec fn rotated_y_spec<S: Scalar>(x: S, y: S, radians: S) -> S {
    x.mul_spec(radians.neg_spec().sin_spec()).add_spec(y.mul_spec(radians.neg_spec().cos_spec()))
}

/// A vector of two scalars, known by its components.
pub trait Vector2: Sized {
    /// The type of the components.
    type Scalar: Scalar;

    /// The x component.
    spec fn x_spec(&self) -> Self::Scalar;

    /// The y component.
    spec fn y_spec(&self) -> Self::Scalar;

    /// Get the x component.
    fn x(&self) -> (r: Self::Scalar)
        ensures
            r == self.x_spec(),
    ;

    /// Get the y component.
    fn y(&self) -> (r: Self::Scalar)
        ensures
            r == self.y_spec(),
    ;

    /// Make a vector of its two components.
    fn new(x: Self::Scalar, y: Self::Scalar) -> (v: Self)
        ensures
            v.x_spec() == x,
            v.y_spec() == y,
    ;

    /// Negate both components.
    fn neg(self) -> (r: Self)
        ensures
            r.x_spec() == self.x_spec().neg_spec(),
            r.y_spec() == self.y_spec().neg_spec(),
    {
        Self::new(self.x().neg(), self.y().neg())
    }

    /// Add another vector, component by component.
    fn add(self, other: Self) -> (r: Self)
        ensures
            r.x_spec() == self.x_spec().add_spec(other.x_spec()),
            r.y_spec() == self.y_spec().add_spec(other.y_spec()),
    {
        Self::new(self.x().add(other.x()), self.y().add(other.y()))
    }

    /// Subtract another vector, component by component.
    fn sub(self, other: Self) -> (r: Self)
        ensures
            r.x_spec() == self.x_spec().sub_spec(other.x_spec()),
            r.y_spec() == self.y_spec().sub_spec(other.y_spec()),
    {
        Self::new(self.x().sub(other.x()), self.y().sub(other.y()))
    }

    /// Multiply both components by a scalar.
    fn mul(self, by: Self::Scalar) -> (r: Self)
        ensures
            r.x_spec() == self.x_spec().mul_spec(by),
            r.y_spec() == self.y_spec().mul_spec(by),
    {
        Self::new(self.x().mul(by), self.y().mul(by))
    }

    /// Multiply by another vector, component by component.
    fn mul2(self, other: Self) -> (r: Self)
        ensures
            r.x_spec() == self.x_spec().mul_spec(other.x_spec()),
            r.y_spec() == self.y_spec().mul_spec(other.y_spec()),
    {
        Self::new(self.x().mul(other.x()), self.y().mul(other.y()))
    }

    /// Divide both components by a scalar.
    fn div(self, by: Self::Scalar) -> (r: Self)
        ensures
            r.x_spec() == self.x_spec().div_spec(by),
            r.y_spec() == self.y_spec().div_spec(by),
    {
        Self::new(self.x().div(by), self.y().div(by))
    }

    /// Divide by another vector, component by component.
    fn div2(self, other: Self) -> (r: Self)
        ensures
            r.x_spec() == self.x_spec().div_spec(other.x_spec()),
            r.y_spec() == self.y_spec().div_spec(other.y_spec()),
    {
        Self::new(self.x().div(other.x()), self.y().div(other.y()))
    }

    /// Get the distance to another vector: the length of the difference.
    fn dist(self, to: Self) -> (r: Self::Scalar)
        ensures
            r == mag_spec(self.x_spec().sub_spec(to.x_spec()), self.y_spec().sub_spec(to.y_spec())),
    {
        let dx = self.x().sub(to.x());
        let dy = self.y().sub(to.y());
        let two = Self::Scalar::TWO;
        let half = Self::Scalar::ONE.div(two);
        dx.pow(two).add(dy.pow(two)).pow(half)
    }

    /// Get the length of the vector.
    fn mag(self) -> (r: Self::Scalar)
        ensures
            r == mag_spec(self.x_spec(), self.y_spec()),
    {
        let two = Self::Scalar::TWO;
        let half = Self::Scalar::ONE.div(two);
        self.x().pow(two).add(self.y().pow(two)).pow(half)
    }

    /// Turn the vector about a pivot by an angle in radians, clockwise for a
    /// positive angle: the offset from the pivot is turned about the origin
    /// and the pivot is added back.
    fn rotate_about(self, pivot: Self, radians: Self::Scalar) -> (r: Self)
        ensures
            r.x_spec() == rotated_x_spec(
                self.x_spec().sub_spec(pivot.x_spec()),
                self.y_spec().sub_spec(pivot.y_spec()),
                radians,
            ).add_spec(pivot.x_spec()),
            r.y_spec() == rotated_y_spec(
                self.x_spec().sub_spec(pivot.x_spec()),
                self.y_spec().sub_spec(pivot.y_spec()),
                radians,
            ).add_spec(pivot.y_spec()),
    {
        let sin = radians.neg().sin();
        let cos = radians.neg().cos();
        let ox = self.x().sub(pivot.x());
        let oy = self.y().sub(pivot.y());
        let rx = ox.mul(cos).sub(oy.mul(sin));
        let ry = ox.mul(sin).add(oy.mul(cos));
        Self::new(rx.add(pivot.x()), ry.add(pivot.y()))
    }
}

impl<P> Vector2 for P where P: Pair, P::Item: Scalar {
    type Scalar = P::Item;

    open spec fn x_spec(&self) -> P::Item {
        self.first_spec()
    }

    open spec fn y_spec(&self) -> P::Item {
        self.second_spec()
    }

    fn x(&self) -> P::Item {
        self.first()
    }

    fn y(&self) -> P::Item {
        self.second()
    }

    fn new(x: P::Item, y: P::Item) -> Self {
        Self::from_items(x, y)
    }
}

/// A rectangle, known by its top-left corner and its size.
///
/// Nothing asks the size to be positive: a rectangle with a negative width
/// has its right edge left of its left edge, and the accessors say so.
pub trait Rectangle: Copy {
    /// The type of the coordinates.
    type Scalar: Scalar;

    /// The type of the corner and of the size.
    type Vector: Vector2<Scalar = Self::Scalar>;

    /// The top-left corner.
    spec fn top_left_spec(&self) -> Self::Vector;

    /// The size: width and height.
    spec fn size_spec(&self) -> Self::Vector;

    /// Make a rectangle of its top-left corner and its size.
    fn new(top_left: Self::Vector, size: Self::Vector) -> (r: Self)
        ensures
            r.top_left_spec() == top_left,
            r.size_spec() == size,
    ;

    /// Get the top-left corner.
    fn top_left(&self) -> (v: Self::Vector)
        ensures
            v == self.top_left_spec(),
    ;

    /// Get the size.
    fn size(&self) -> (v: Self::Vector)
        ensures
            v == self.size_spec(),
    ;

    /// Get the top-right corner.
    fn top_right(&self) -> (v: Self::Vector)
        ensures
            v.x_spec() == self.top_left_spec().x_spec().add_spec(self.size_spec().x_spec()),
            v.y_spec() == self.top_left_spec().y_spec(),
    {
        Self::Vector::new(self.top_left().x().add(self.size().x()), self.top_left().y())
    }

    /// Get the bottom-left corner.
    fn bottom_left(&self) -> (v: Self::Vector)
        ensures
            v.x_spec() == self.top_left_spec().x_spec(),
            v.y_spec() == self.top_left_spec().y_spec().add_spec(self.size_spec().y_spec()),
    {
        Self::Vector::new(self.top_left().x(), self.top_left().y().add(self.size().y()))
    }

    /// Get the bottom-right corner.
    fn bottom_right(&self) -> (v: Self::Vector)
        ensures
            v.x_spec() == self.top_left_spec().x_spec().add_spec(self.size_spec().x_spec()),
            v.y_spec() == self.top_left_spec().y_spec().add_spec(self.size_spec().y_spec()),
    {
        self.top_left().add(self.size())
    }

    /// Get the y coordinate of the top edge.
    fn top(&self) -> (r: Self::Scalar)
        ensures
            r == self.top_left_spec().y_spec(),
    {
        self.top_left().y()
    }

    /// Get the y coordinate of the bottom edge.
    fn bottom(&self) -> (r: Self::Scalar)
        ensures
            r == self.top_left_spec().y_spec().add_spec(self.size_spec().y_spec()),
    {
        self.top_left().y().add(self.size().y())
    }

    /// Get the x coordinate of the left edge.
    fn left(&self) -> (r: Self::Scalar)
        ensures
            r == self.top_left_spec().x_spec(),
    {
        self.top_left().x()
    }

    /// Get the x coordinate of the right edge.
    fn right(&self) -> (r: Self::Scalar)
        ensures
            r == self.top_left_spec().x_spec().add_spec(self.size_spec().x_spec()),
    {
        self.top_left().x().add(self.size().x())
    }

    /// Get the width.
    fn width(&self) -> (r: Self::Scalar)
        ensures
            r == self.size_spec().x_spec(),
    {
        self.size().x()
    }

    /// Get the height.
    fn height(&self) -> (r: Self::Scalar)
        ensures
            r == self.size_spec().y_spec(),
    {
        self.size().y()
    }

    /// Get the center: the top-left corner moved by half the size.
    fn center(&self) -> (v: Self::Vector)
        ensures
            v.x_spec() == self.top_left_spec().x_spec().add_spec(self.size_spec().x_spec().div_spec(Self::Scalar::TWO)),
            v.y_spec() == self.top_left_spec().y_spec().add_spec(self.size_spec().y_spec().div_spec(Self::Scalar::TWO)),
    {
        self.top_left().add(self.size().div(Self::Scalar::TWO))
    }

    /// The same rectangle at another top-left corner.
    fn with_top_left(self, top_left: Self::Vector) -> (r: Self)
        ensures
            r.top_left_spec() == top_left,
            r.size_spec() == self.size_spec(),
    {
        Self::new(top_left, self.size())
    }

    /// The rectangle at the same corner with another size.
    fn with_size(self, size: Self::Vector) -> (r: Self)
        ensures
            r.top_left_spec() == self.top_left_spec(),
            r.size_spec() == size,
    {
        Self::new(self.top_left(), size)
    }
}

/// The x coordinate of a rectangle's left edge.
pub open spec fn left_of<R: Rectangle>(r: &R) -> R::Scalar {
    r.top_left_spec().x_spec()
}

/// The y coordinate of a rectangle's top edge.
pub open spec fn top_of<R: Rectangle>(r: &R) -> R::Scalar {
    r.top_left_spec().y_spec()
}

/// A rectangle's width.
pub open spec fn width_of<R: Rectangle>(r: &R) -> R::Scalar {
    r.size_spec().x_spec()
}

/// A rectangle's height.
pub open spec fn height_of<R: Rectangle>(r: &R) -> R::Scalar {
    r.size_spec().y_spec()
}

/// The x coordinate of a rectangle's right edge: left plus width.
pub open spec fn right_of<R: Rectangle>(r: &R) -> R::Scalar {
    left_of(r).add_spec(width_of(r))
}

/// The y coordinate of a rectangle's bottom edge: top plus height.
pub open spec fn bottom_of<R: Rectangle>(r: &R) -> R::Scalar {
    top_of(r).add_spec(height_of(r))
}

/// The x coordinate of a rectangle's center: left plus half the width.
pub open spec fn center_x_of<R: Rectangle>(r: &R) -> R::Scalar {
    left_of(r).add_spec(width_of(r).div_spec(R::Scalar::TWO))
}

/// The y coordinate of a rectangle's center: top plus half the height.
pub open spec fn center_y_of<R: Rectangle>(r: &R) -> R::Scalar {
    top_of(r).add_spec(height_of(r).div_spec(R::Scalar::TWO))
}

/// Whether a rectangle has the given left, top, width and height.
pub open spec fn rect_is<R: Rectangle>(
    r: &R,
    left: R::Scalar,
    top: R::Scalar,
    width: R::Scalar,
    height: R::Scalar,
) -> bool {
    &&& left_of(r) == left
    &&& top_of(r) == top
    &&& width_of(r) == width
    &&& height_of(r) == height
}

impl<P> Rectangle for P where P: Pair + Copy, P::Item: Vector2 {
    type Scalar = <P::Item as Vector2>::Scalar;

    type Vector = P::Item;

    open spec fn top_left_spec(&self) -> P::Item {
        self.first_spec()
    }

    open spec fn size_spec(&self) -> P::Item {
        self.second_spec()
    }

    fn new(top_left: P::Item, size: P::Item) -> Self {
        Self::from_items(top_left, size)
    }

    fn top_left(&self) -> P::Item {
        self.first()
    }

    fn size(&self) -> P::Item {
        self.second()
    }
}

/// Whether converting a `T` into a `U` is specified, so that
/// [`converted`] names what the conversion gives.
pub open spec fn converts<T, U: From<T>>() -> bool {
    <U as vstd::std_specs::convert::FromSpec<T>>::obeys_from_spec()
}

/// The `U` that a `T` converts into.
pub open spec fn converted<T, U: From<T>>(t: T) -> U {
    <U as vstd::std_specs::convert::FromSpec<T>>::from_spec(t)
}

/// Carry a vector over to another vector type, converting each component.
pub fn map_vector<V, W>(v: &V) -> (w: W) where V: Vector2, W: Vector2, W::Scalar: From<V::Scalar>
    ensures
        converts::<V::Scalar, W::Scalar>() ==> {
            &&& w.x_spec() == converted::<V::Scalar, W::Scalar>(v.x_spec())
            &&& w.y_spec() == converted::<V::Scalar, W::Scalar>(v.y_spec())
        },
{
    W::new(W::Scalar::from(v.x()), W::Scalar::from(v.y()))
}

/// Carry a rectangle over to another rectangle type, converting each of
/// left, top, width and height.
pub fn map_rectangle<R, Q>(r: &R) -> (q: Q) where R: Rectangle, Q: Rectangle, Q::Scalar: From<R::Scalar>
    ensures
        converts::<R::Scalar, Q::Scalar>() ==> rect_is(
            &q,
            converted::<R::Scalar, Q::Scalar>(left_of(r)),
            converted::<R::Scalar, Q::Scalar>(top_of(r)),
            converted::<R::Scalar, Q::Scalar>(width_of(r)),
            converted::<R::Scalar, Q::Scalar>(height_of(r)),
        ),
{
    Q::new(
        Q::Vector::new(Q::Scalar::from(r.left()), Q::Scalar::from(r.top())),
        Q::Vector::new(Q::Scalar::from(r.width()), Q::Scalar::from(r.height())),
    )
}

} // verus!
