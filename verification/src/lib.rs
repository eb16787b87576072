//! Identity and draw-time description of vector images.
//!
//! A [`handle::Handle`] names a vector image by value. Its [`id::Id`] is the
//! only thing that equality and hashing look at, so a cache can tell two
//! resources apart without ever reading their payloads. A [`svg::Svg`]
//! describes one draw of a handle, and [`renderer::Renderer`] is what a
//! backend implements to measure and draw it.

pub mod digest;
pub mod path;
pub mod id;
pub mod geometry;
pub mod handle;
pub mod renderer;
pub mod svg;
