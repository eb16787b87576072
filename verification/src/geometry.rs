//! The plain values that a draw request and a renderer exchange.
//!
//! Numbers with a fraction travel as the 32 bits of their IEEE 754 binary32
//! encoding: nothing here computes with them, and every value of that format
//! passes through unchanged.

use vstd::prelude::*;
use vstd::std_specs::cmp::PartialEqSpecImpl;

verus! {

/// The bits of a binary32 number without its sign.
pub const MAGNITUDE: u32 = 0x7fff_ffff;

/// The magnitude of infinity: every greater magnitude is not a number.
pub const INFINITY: u32 = 0x7f80_0000;

/// The encoding of zero.
pub const ZERO: u32 = 0;

/// The encoding of one.
pub const ONE: u32 = 0x3f80_0000;

/// A binary32 number, held as its encoding.
#[derive(Clone, Copy, Debug)]
pub struct Scalar {
    /// The encoding: sign, eight bits of exponent, twenty-three of fraction.
    pub bits: u32,
}

impl Scalar {
    /// Whether the encoding is that of no number.
    pub open spec fn is_nan(&self) -> bool {
        self.bits & MAGNITUDE > INFINITY
    }

    /// Whether the encoding is that of zero, of either sign.
    pub open spec fn is_zero(&self) -> bool {
        self.bits & MAGNITUDE == 0
    }

    /// Whether the two encodings are those of one number. Zero has two
    /// encodings, and what is not a number equals nothing, itself included.
    pub open spec fn same_number(&self, other: &Scalar) -> bool {
        &&& !self.is_nan()
        &&& !other.is_nan()
        &&& (self.bits == other.bits || (self.is_zero() && other.is_zero()))
    }

    /// The number with the encoding `bits`.
    pub fn from_bits(bits: u32) -> (scalar: Scalar)
        ensures
            scalar.bits == bits,
    {
        Scalar { bits }
    }

    /// The encoding of the number.
    pub fn to_bits(self) -> (bits: u32)
        ensures
            bits == self.bits,
    {
        self.bits
    }

    /// Zero.
    pub fn zero() -> (scalar: Scalar)
        ensures
            scalar.bits == ZERO,
    {
        Scalar { bits: ZERO }
    }

    /// One.
    pub fn one() -> (scalar: Scalar)
        ensures
            scalar.bits == ONE,
    {
        Scalar { bits: ONE }
    }
}

impl PartialEq for Scalar {
    fn eq(&self, other: &Scalar) -> (equal: bool) {
        let mine = self.bits & MAGNITUDE;
        let theirs = other.bits & MAGNITUDE;
        mine <= INFINITY && theirs <= INFINITY && (self.bits == other.bits || (mine == 0 && theirs
            == 0))
    }
}

impl PartialEqSpecImpl for Scalar {
    open spec fn obeys_eq_spec() -> bool {
        true
    }

    open spec fn eq_spec(&self, other: &Scalar) -> bool {
        self.same_number(other)
    }
}

/// An angle in radians.
#[derive(Clone, Copy, Debug)]
pub struct Radians(pub Scalar);

impl PartialEq for Radians {
    fn eq(&self, other: &Radians) -> (equal: bool) {
        self.0 == other.0
    }
}

impl PartialEqSpecImpl for Radians {
    open spec fn obeys_eq_spec() -> bool {
        true
    }

    open spec fn eq_spec(&self, other: &Radians) -> bool {
        self.0.same_number(&other.0)
    }
}

/// A colour: red, green, blue and alpha, each from zero to one.
#[derive(Clone, Copy, Debug)]
pub struct Color {
    /// Red.
    pub r: Scalar,
    /// Green.
    pub g: Scalar,
    /// Blue.
    pub b: Scalar,
    /// Alpha: how opaque the colour is.
    pub a: Scalar,
}

impl Color {
    /// Whether the two colours agree in each of their four numbers.
    pub open spec fn same_color(&self, other: &Color) -> bool {
        &&& self.r.same_number(&other.r)
        &&& self.g.same_number(&other.g)
        &&& self.b.same_number(&other.b)
        &&& self.a.same_number(&other.a)
    }
}

impl PartialEq for Color {
    fn eq(&self, other: &Color) -> (equal: bool) {
        self.r == other.r && self.g == other.g && self.b == other.b && self.a == other.a
    }
}

impl PartialEqSpecImpl for Color {
    open spec fn obeys_eq_spec() -> bool {
        true
    }

    open spec fn eq_spec(&self, other: &Color) -> bool {
        self.same_color(other)
    }
}

/// A rectangle: its top left corner and its extent.
#[derive(Clone, Copy, Debug)]
pub struct Rectangle {
    /// The horizontal place of the left edge.
    pub x: Scalar,
    /// The vertical place of the top edge.
    pub y: Scalar,
    /// The width.
    pub width: Scalar,
    /// The height.
    pub height: Scalar,
}

/// A width and a height in whole units.
#[derive(Clone, Copy, Debug, PartialEq, Eq, Structural)]
pub struct Size {
    /// The width.
    pub width: u32,
    /// The height.
    pub height: u32,
}

} // verus!
