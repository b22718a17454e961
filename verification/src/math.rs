//! Simple math primitives for working with pixel coordinates.

use crate::decimal::Decimal;
use crate::errors::Error;
use crate::parse::{attribute_or_default, optional_fault, or_else, reads_or};
use crate::xml::Element;
use vstd::prelude::*;

verus! {

/// A vector of two integers.
#[derive(Debug, PartialEq, Eq, Structural, Copy, Clone)]
#[allow(non_camel_case_types)]
pub struct ivec2 {
    pub x: i32,
    pub y: i32,
}

impl ivec2 {
    pub fn new(x: i32, y: i32) -> (r: Self)
        ensures
            r == (ivec2 { x, y }),
    {
        Self { x, y }
    }

    /// Reads a vector from two attributes; a coordinate that `tmx` does not
    /// give is 0.
    pub fn from_tmx_or_default(tmx: &Element, x_attr: &str, y_attr: &str) -> (r: Result<
        Self,
        Error,
    >)
        ensures
            match r {
                Ok(v) => {
                    &&& optional_fault::<i32>(tmx, x_attr@) is None
                    &&& optional_fault::<i32>(tmx, y_attr@) is None
                    &&& reads_or(tmx, x_attr@, v.x, v.x == 0)
                    &&& reads_or(tmx, y_attr@, v.y, v.y == 0)
                },
                Err(e) => or_else(
                    optional_fault::<i32>(tmx, x_attr@),
                    optional_fault::<i32>(tmx, y_attr@),
                ) == Some(e@),
            },
    {
        let x = match attribute_or_default::<i32>(tmx, x_attr) {
            Ok(v) => v,
            Err(e) => {
                return Err(e);
            },
        };
        let y = match attribute_or_default::<i32>(tmx, y_attr) {
            Ok(v) => v,
            Err(e) => {
                return Err(e);
            },
        };
        Ok(Self::new(x, y))
    }
}

/// Whether `v` fits in 32 bits.
pub open spec fn fits(v: int) -> bool {
    i32::MIN <= v <= i32::MAX
}

/// The sum, coordinate by coordinate. Each must fit in 32 bits.
impl core::ops::Add for ivec2 {
    type Output = ivec2;

    fn add(self, rhs: ivec2) -> (r: ivec2) {
        ivec2 { x: self.x + rhs.x, y: self.y + rhs.y }
    }
}

impl vstd::std_specs::ops::AddSpecImpl for ivec2 {
    open spec fn obeys_add_spec() -> bool {
        true
    }

    open spec fn add_req(self, rhs: ivec2) -> bool {
        fits(self.x + rhs.x) && fits(self.y + rhs.y)
    }

    open spec fn add_spec(self, rhs: ivec2) -> ivec2 {
        ivec2 { x: (self.x + rhs.x) as i32, y: (self.y + rhs.y) as i32 }
    }
}

/// The difference, coordinate by coordinate. Each must fit in 32 bits.
impl core::ops::Sub for ivec2 {
    type Output = ivec2;

    fn sub(self, rhs: ivec2) -> (r: ivec2) {
        ivec2 { x: self.x - rhs.x, y: self.y - rhs.y }
    }
}

impl vstd::std_specs::ops::SubSpecImpl for ivec2 {
    open spec fn obeys_sub_spec() -> bool {
        true
    }

    open spec fn sub_req(self, rhs: ivec2) -> bool {
        fits(self.x - rhs.x) && fits(self.y - rhs.y)
    }

    open spec fn sub_spec(self, rhs: ivec2) -> ivec2 {
        ivec2 { x: (self.x - rhs.x) as i32, y: (self.y - rhs.y) as i32 }
    }
}

/// The product, coordinate by coordinate. Each must fit in 32 bits.
impl core::ops::Mul for ivec2 {
    type Output = ivec2;

    fn mul(self, rhs: ivec2) -> (r: ivec2) {
        ivec2 { x: self.x * rhs.x, y: self.y * rhs.y }
    }
}

impl vstd::std_specs::ops::MulSpecImpl for ivec2 {
    open spec fn obeys_mul_spec() -> bool {
        true
    }

    open spec fn mul_req(self, rhs: ivec2) -> bool {
        fits(self.x * rhs.x) && fits(self.y * rhs.y)
    }

    open spec fn mul_spec(self, rhs: ivec2) -> ivec2 {
        ivec2 { x: (self.x * rhs.x) as i32, y: (self.y * rhs.y) as i32 }
    }
}

/// Both coordinates times a number. Each product must fit in 32 bits.
impl core::ops::Mul<i32> for ivec2 {
    type Output = ivec2;

    fn mul(self, rhs: i32) -> (r: ivec2) {
        ivec2 { x: self.x * rhs, y: self.y * rhs }
    }
}

impl vstd::std_specs::ops::MulSpecImpl<i32> for ivec2 {
    open spec fn obeys_mul_spec() -> bool {
        true
    }

    open spec fn mul_req(self, rhs: i32) -> bool {
        fits(self.x * rhs) && fits(self.y * rhs)
    }

    open spec fn mul_spec(self, rhs: i32) -> ivec2 {
        ivec2 { x: (self.x * rhs) as i32, y: (self.y * rhs) as i32 }
    }
}

/// A number times both coordinates. Each product must fit in 32 bits.
impl core::ops::Mul<ivec2> for i32 {
    type Output = ivec2;

    fn mul(self, rhs: ivec2) -> (r: ivec2) {
        ivec2 { x: rhs.x * self, y: rhs.y * self }
    }
}

impl vstd::std_specs::ops::MulSpecImpl<ivec2> for i32 {
    open spec fn obeys_mul_spec() -> bool {
        true
    }

    open spec fn mul_req(self, rhs: ivec2) -> bool {
        fits(rhs.x * self) && fits(rhs.y * self)
    }

    open spec fn mul_spec(self, rhs: ivec2) -> ivec2 {
        ivec2 { x: (rhs.x * self) as i32, y: (rhs.y * self) as i32 }
    }
}

/// The quotient, coordinate by coordinate, rounded towards zero. No divisor
/// may be zero, and each quotient must fit in 32 bits.
impl core::ops::Div for ivec2 {
    type Output = ivec2;

    fn div(self, rhs: ivec2) -> (r: ivec2) {
        ivec2 { x: self.x / rhs.x, y: self.y / rhs.y }
    }
}

impl vstd::std_specs::ops::DivSpecImpl for ivec2 {
    open spec fn obeys_div_spec() -> bool {
        true
    }

    open spec fn div_req(self, rhs: ivec2) -> bool {
        rhs.x != 0 && rhs.y != 0 && !(self.x == i32::MIN && rhs.x == -1) && !(self.y == i32::MIN
            && rhs.y == -1)
    }

    open spec fn div_spec(self, rhs: ivec2) -> ivec2 {
        ivec2 {
            x: truncated(self.x as int, rhs.x as int) as i32,
            y: truncated(self.y as int, rhs.y as int) as i32,
        }
    }
}

/// The quotient of `a` by `b`, rounded towards zero.
pub open spec fn truncated(a: int, b: int) -> int {
    if a >= 0 {
        a / b
    } else {
        -((-a) / b)
    }
}

impl Default for ivec2 {
    fn default() -> (r: ivec2)
        ensures
            r == (ivec2 { x: 0, y: 0 }),
    {
        ivec2 { x: 0, y: 0 }
    }
}

/// A vector of two numbers with a fractional part.
#[derive(Debug, PartialEq, Eq)]
#[allow(non_camel_case_types)]
pub struct fvec2 {
    pub x: Decimal,
    pub y: Decimal,
}

impl Clone for fvec2 {
    fn clone(&self) -> (r: Self)
        ensures
            r == *self,
    {
        fvec2 { x: self.x.clone(), y: self.y.clone() }
    }
}

impl fvec2 {
    pub fn new(x: Decimal, y: Decimal) -> (r: Self)
        ensures
            r.x == x,
            r.y == y,
    {
        Self { x, y }
    }

    /// Reads a vector from two attributes; a coordinate that `tmx` does not
    /// give is 0.
    pub fn from_tmx_or_default(tmx: &Element, x_attr: &str, y_attr: &str) -> (r: Result<
        Self,
        Error,
    >)
        ensures
            match r {
                Ok(v) => {
                    &&& optional_fault::<Decimal>(tmx, x_attr@) is None
                    &&& optional_fault::<Decimal>(tmx, y_attr@) is None
                    &&& reads_or(tmx, x_attr@, v.x, v.x.written() == seq!['0'])
                    &&& reads_or(tmx, y_attr@, v.y, v.y.written() == seq!['0'])
                },
                Err(e) => or_else(
                    optional_fault::<Decimal>(tmx, x_attr@),
                    optional_fault::<Decimal>(tmx, y_attr@),
                ) == Some(e@),
            },
    {
        let x = match attribute_or_default::<Decimal>(tmx, x_attr) {
            Ok(v) => v,
            Err(e) => {
                return Err(e);
            },
        };
        let y = match attribute_or_default::<Decimal>(tmx, y_attr) {
            Ok(v) => v,
            Err(e) => {
                return Err(e);
            },
        };
        Ok(Self::new(x, y))
    }
}

/// A rectangle given by its upper left corner and its extent.
#[derive(Debug, PartialEq, Eq, Structural, Copy, Clone)]
pub struct Rect {
    pub upper_left: ivec2,
    pub size: ivec2,
}

impl Rect {
    pub fn new(upper_left: ivec2, size: ivec2) -> (r: Self)
        ensures
            r == (Rect { upper_left, size }),
    {
        Self { upper_left, size }
    }
}

} // verus!
