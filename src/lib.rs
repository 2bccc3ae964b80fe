//! The decisions of a path tracer over spheres, proved with Verus.
//!
//! - `params`: what a render is asked to produce, read from option values,
//!   and the order in which its pixels are produced;
//! - `decimal`: the unsigned decimal numbers that those options hold;
//! - `raster`: the image's bytes, three for each pixel;
//! - `hit`: which root of a surface, and which surface of a scene, a ray
//!   reports as its hit, over order keys of the ray parameter;
//! - `trace`: each step of a traced path, and the bound on its bounces.
use vstd::prelude::*;

pub mod decimal;
pub mod hit;
pub mod params;
pub mod raster;
pub mod trace;

verus! {

} // verus!
