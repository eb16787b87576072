//! The description of one draw of a vector image.

use crate::geometry::{Color, Radians, Scalar, INFINITY, MAGNITUDE, ONE, ZERO};
use crate::handle::Handle;
use vstd::prelude::*;
use vstd::std_specs::cmp::{PartialEqSpec, PartialEqSpecImpl};
use vstd::std_specs::convert::FromSpecImpl;

verus! {

/// A vector image as it is to be drawn once.
#[derive(Debug)]
pub struct Svg<H = Handle> {
    /// The handle of the image.
    pub handle: H,
    /// The colour to paint the whole image with, in place of its own
    /// colours, where there is one.
    pub color: Option<Color>,
    /// The rotation of the image about its centre.
    pub rotation: Radians,
    /// The opacity of the image: zero is transparent, one opaque.
    pub opacity: Scalar,
}

impl<H: PartialEq> Svg<H> {
    /// Whether the two requests draw alike: whether `==` holds of their
    /// handles, and their colours, rotations and opacities are the same
    /// numbers.
    pub open spec fn same_draw(&self, other: &Svg<H>) -> bool {
        &&& PartialEqSpec::eq_spec(&self.handle, &other.handle)
        &&& match (self.color, other.color) {
            (Some(mine), Some(theirs)) => mine.same_color(&theirs),
            (None, None) => true,
            _ => false,
        }
        &&& self.rotation.0.same_number(&other.rotation.0)
        &&& self.opacity.same_number(&other.opacity)
    }
}

impl Svg<Handle> {
    /// The draw of `handle` as it is: in its own colours, not rotated, opaque.
    pub open spec fn plain(handle: Handle) -> Svg {
        Svg {
            handle,
            color: None,
            rotation: Radians(Scalar { bits: ZERO }),
            opacity: Scalar { bits: ONE },
        }
    }

    /// Two requests to draw handles as they are draw alike exactly when the
    /// handles are of one resource: zero and one are numbers, so the numbers
    /// of such requests always agree.
    pub proof fn lemma_plain_draws_go_by_the_handle(first: Handle, second: Handle)
        ensures
            Svg::plain(first).same_draw(&Svg::plain(second)) <==> first.same_resource(&second),
    {
        assert(ZERO & MAGNITUDE == 0 && ONE & MAGNITUDE <= INFINITY) by (bit_vector);
    }

    /// A request to draw `handle` as it is.
    pub fn new(handle: Handle) -> (svg: Svg)
        ensures
            svg == Svg::plain(handle),
    {
        Svg { handle, color: None, rotation: Radians(Scalar::zero()), opacity: Scalar::one() }
    }

    /// The same request with the whole image painted in `color`.
    pub fn color(self, color: Color) -> (svg: Svg)
        ensures
            svg == (Svg { color: Some(color), ..self }),
    {
        let mut svg = self;
        svg.color = Some(color);
        svg
    }

    /// The same request with the image rotated by `rotation`.
    pub fn rotation(self, rotation: Radians) -> (svg: Svg)
        ensures
            svg == (Svg { rotation, ..self }),
    {
        let mut svg = self;
        svg.rotation = rotation;
        svg
    }

    /// The same request with the opacity `opacity`. Any number is taken as
    /// it is, also one below zero or above one.
    pub fn opacity(self, opacity: Scalar) -> (svg: Svg)
        ensures
            svg == (Svg { opacity, ..self }),
    {
        let mut svg = self;
        svg.opacity = opacity;
        svg
    }
}

impl<H: Clone> Clone for Svg<H> {
    /// The same request of a clone of the handle.
    fn clone(&self) -> (copy: Svg<H>)
        ensures
            cloned::<H>(self.handle, copy.handle),
            copy.color == self.color,
            copy.rotation == self.rotation,
            copy.opacity == self.opacity,
    {
        Svg {
            handle: self.handle.clone(),
            color: self.color,
            rotation: self.rotation,
            opacity: self.opacity,
        }
    }
}

impl<H: PartialEq> PartialEq for Svg<H> {
    fn eq(&self, other: &Svg<H>) -> (equal: bool) {
        let colors = match (&self.color, &other.color) {
            (Some(mine), Some(theirs)) => *mine == *theirs,
            (None, None) => true,
            _ => false,
        };
        self.handle == other.handle && colors && self.rotation == other.rotation && self.opacity
            == other.opacity
    }
}

impl<H: PartialEq> PartialEqSpecImpl for Svg<H> {
    open spec fn obeys_eq_spec() -> bool {
        <H as PartialEqSpec>::obeys_eq_spec()
    }

    open spec fn eq_spec(&self, other: &Svg<H>) -> bool {
        self.same_draw(other)
    }
}

impl From<&Handle> for Svg {
    /// A request to draw the resource of `handle` as it is.
    fn from(handle: &Handle) -> (svg: Svg) {
        Svg::new(handle.clone())
    }
}

impl FromSpecImpl<&Handle> for Svg {
    open spec fn obeys_from_spec() -> bool {
        true
    }

    open spec fn from_spec(handle: &Handle) -> Svg {
        Svg::plain(*handle)
    }
}

} // verus!
