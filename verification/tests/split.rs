use pane::math::{Cos, Pow, Rectangle, Scalar, Sin, ZeroOneTwo};
use pane::Orientation;

#[derive(Clone, Copy, Debug, PartialEq)]
struct F(f64);

impl ZeroOneTwo for F {
    const ZERO: Self = F(0.0);
    const ONE: Self = F(1.0);
    const TWO: Self = F(2.0);
}

impl Sin for F {
    type Output = F;
    fn sin_spec(&self) -> F {
        F(self.0.sin())
    }
    fn sin(&self) -> F {
        F(self.0.sin())
    }
}

impl Cos for F {
    type Output = F;
    fn cos_spec(&self) -> F {
        F(self.0.cos())
    }
    fn cos(&self) -> F {
        F(self.0.cos())
    }
}

impl Pow<F> for F {
    type Output = F;
    fn pow_spec(&self, power: F) -> F {
        F(self.0.powf(power.0))
    }
    fn pow(&self, power: F) -> F {
        F(self.0.powf(power.0))
    }
}

impl Scalar for F {
    fn add_spec(self, rhs: Self) -> Self {
        F(self.0 + rhs.0)
    }
    fn sub_spec(self, rhs: Self) -> Self {
        F(self.0 - rhs.0)
    }
    fn mul_spec(self, rhs: Self) -> Self {
        F(self.0 * rhs.0)
    }
    fn div_spec(self, rhs: Self) -> Self {
        F(self.0 / rhs.0)
    }
    fn neg_spec(self) -> Self {
        F(-self.0)
    }
    fn lt_spec(self, rhs: Self) -> bool {
        self.0 < rhs.0
    }
    fn eq_spec(self, rhs: Self) -> bool {
        self.0 == rhs.0
    }
    fn from_u32_spec(n: u32) -> Self {
        F(f64::from(n))
    }
    fn add(self, rhs: Self) -> Self {
        F(self.0 + rhs.0)
    }
    fn sub(self, rhs: Self) -> Self {
        F(self.0 - rhs.0)
    }
    fn mul(self, rhs: Self) -> Self {
        F(self.0 * rhs.0)
    }
    fn div(self, rhs: Self) -> Self {
        F(self.0 / rhs.0)
    }
    fn neg(self) -> Self {
        F(-self.0)
    }
    fn lt(self, rhs: Self) -> bool {
        self.0 < rhs.0
    }
    fn eq(self, rhs: Self) -> bool {
        self.0 == rhs.0
    }
    fn from_u32(n: u32) -> Self {
        F(f64::from(n))
    }
}

#[test]
fn two_equal_children_stacked() {
    let rect = [F(0.0), F(0.0), F(400.0), F(300.0)];
    let children = Orientation::Vertical.split_rect(rect, &[F(1.0), F(1.0)]);
    assert_eq!(children.len(), 2);
    assert_eq!(children[0], [F(0.0), F(0.0), F(400.0), F(150.0)]);
    assert_eq!(children[1], [F(0.0), F(150.0), F(400.0), F(150.0)]);
    assert_eq!(Rectangle::bottom(&children[1]), F(300.0));
}
