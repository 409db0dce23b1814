//! The integer side of a Monte Carlo path tracer: image and render
//! settings, where each pixel sits in a frame buffer, when a path stops
//! bouncing and what light it ends on, and how a finished 8-bit frame is
//! laid out as a picture.
use vstd::prelude::*;

pub mod integrator;
pub mod picture;
pub mod settings;

verus! {

} // verus!
