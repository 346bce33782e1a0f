//! Three-channel colors over the fixed-point scalar.
//!
//! Channels are unbounded during computation (no clamping to `[0, 1]`;
//! tone-mapping is the image writer's concern), but scenes keep them within
//! `COORD_MAX` so shading arithmetic cannot overflow.

use vstd::prelude::*;

verus! {

use crate::common::{fmul, lemma_mul_abs_bound, Real};
use crate::math::vector3::{DOT_LIMIT, VEC_LIMIT};

/// A color: red, green and blue channels as fixed-point scalars.
#[derive(Clone, Copy, Debug, PartialEq, Eq, Structural)]
pub struct Color3 {
    pub r: Real,
    pub g: Real,
    pub b: Real,
}

/// Mathematical model of a `Color3`: its channels as unbounded integers.
pub ghost struct ColorM {
    pub r: int,
    pub g: int,
    pub b: int,
}

impl ColorM {
    /// Every channel within `[-m, m]`.
    pub open spec fn bounded(self, m: int) -> bool {
        &&& -m <= self.r <= m
        &&& -m <= self.g <= m
        &&& -m <= self.b <= m
    }

    pub open spec fn plus(self, o: ColorM) -> ColorM {
        ColorM { r: self.r + o.r, g: self.g + o.g, b: self.b + o.b }
    }

    /// Channelwise fixed-point product (filtering one color by another).
    pub open spec fn modulate(self, o: ColorM) -> ColorM {
        ColorM { r: fmul(self.r, o.r), g: fmul(self.g, o.g), b: fmul(self.b, o.b) }
    }

    /// Every channel multiplied by the fixed-point scalar `t`.
    pub open spec fn scaled(self, t: int) -> ColorM {
        ColorM { r: fmul(self.r, t), g: fmul(self.g, t), b: fmul(self.b, t) }
    }
}

/// The all-zero color.
pub open spec fn black() -> ColorM {
    ColorM { r: 0, g: 0, b: 0 }
}

impl Color3 {
    /// The color's mathematical model.
    pub open spec fn model(self) -> ColorM {
        ColorM { r: self.r as int, g: self.g as int, b: self.b as int }
    }

    pub fn new(r: Real, g: Real, b: Real) -> (c: Self)
        ensures
            c.r == r,
            c.g == g,
            c.b == b,
    {
        Self { r, g, b }
    }

    /// A gray color with the same value in every channel.
    pub fn from_value(v: Real) -> (c: Self)
        ensures
            c.r == v,
            c.g == v,
            c.b == v,
    {
        Self { r: v, g: v, b: v }
    }

    pub fn plus(&self, o: &Color3) -> (c: Color3)
        requires
            self.model().bounded(VEC_LIMIT as int),
            o.model().bounded(VEC_LIMIT as int),
        ensures
            c.model() == self.model().plus(o.model()),
    {
        Color3 { r: self.r + o.r, g: self.g + o.g, b: self.b + o.b }
    }

    pub fn modulate(&self, o: &Color3) -> (c: Color3)
        requires
            self.model().bounded(DOT_LIMIT as int),
            o.model().bounded(DOT_LIMIT as int),
        ensures
            c.model() == self.model().modulate(o.model()),
    {
        proof {
            lemma_mul_abs_bound(self.r as int, o.r as int, DOT_LIMIT as int, DOT_LIMIT as int);
            lemma_mul_abs_bound(self.g as int, o.g as int, DOT_LIMIT as int, DOT_LIMIT as int);
            lemma_mul_abs_bound(self.b as int, o.b as int, DOT_LIMIT as int, DOT_LIMIT as int);
        }
        Color3 {
            r: crate::common::fixed_mul(self.r, o.r),
            g: crate::common::fixed_mul(self.g, o.g),
            b: crate::common::fixed_mul(self.b, o.b),
        }
    }

    pub fn scaled(&self, t: Real) -> (c: Color3)
        requires
            self.model().bounded(DOT_LIMIT as int),
            -DOT_LIMIT <= t <= DOT_LIMIT,
        ensures
            c.model() == self.model().scaled(t as int),
    {
        proof {
            lemma_mul_abs_bound(self.r as int, t as int, DOT_LIMIT as int, DOT_LIMIT as int);
            lemma_mul_abs_bound(self.g as int, t as int, DOT_LIMIT as int, DOT_LIMIT as int);
            lemma_mul_abs_bound(self.b as int, t as int, DOT_LIMIT as int, DOT_LIMIT as int);
        }
        Color3 {
            r: crate::common::fixed_mul(self.r, t),
            g: crate::common::fixed_mul(self.g, t),
            b: crate::common::fixed_mul(self.b, t),
        }
    }
}

} // verus!
