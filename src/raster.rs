//! The bytes of a rendered image: three channels of eight bits for each
//! pixel, pixels in the order in which the render produces them.
use vstd::prelude::*;
use crate::params::Params;

verus! {

pub struct Raster {
    pub nx: u32,
    pub ny: u32,
    pub bytes: Vec<u8>,
}

impl Raster {
    /// Whether the bytes so far are whole pixels, no more than the image holds.
    pub open spec fn wf(&self) -> bool {
        &&& self.bytes@.len() % 3 == 0
        &&& 3 * self.nx * self.ny <= u32::MAX
        &&& self.bytes@.len() <= 3 * self.nx * self.ny
    }

    /// Number of pixels whose bytes are held.
    pub open spec fn filled(&self) -> int {
        self.bytes@.len() as int / 3
    }

    /// An empty image of the size that `params` asks for.
    pub fn new(params: &Params) -> (r: Raster)
        requires
            params.valid(),
        ensures
            r.wf(),
            r.nx == params.nx,
            r.ny == params.ny,
            r.bytes@ == Seq::<u8>::empty(),
    {
        Raster { nx: params.nx, ny: params.ny, bytes: Vec::new() }
    }

    /// Whether every pixel of the image has its bytes.
    pub fn is_complete(&self) -> (r: bool)
        requires
            self.wf(),
        ensures
            r == (self.filled() == self.nx * self.ny),
    {
        proof {
            assert(3 * (self.nx as int) * (self.ny as int) == 3 * ((self.nx as int) * (
            self.ny as int))) by (nonlinear_arith);
        }
        self.bytes.len() as u64 == 3 * (self.nx as u64) * (self.ny as u64)
    }

    /// Appends the next pixel, red, green and blue.
    pub fn push(&mut self, red: u8, green: u8, blue: u8)
        requires
            old(self).wf(),
            old(self).filled() < old(self).nx * old(self).ny,
        ensures
            final(self).wf(),
            final(self).nx == old(self).nx,
            final(self).ny == old(self).ny,
            final(self).bytes@ == old(self).bytes@ + seq![red, green, blue],
            final(self).filled() == old(self).filled() + 1,
    {
        proof {
            assert(3 * (self.nx as int) * (self.ny as int) == 3 * ((self.nx as int) * (
            self.ny as int))) by (nonlinear_arith);
        }
        self.bytes.push(red);
        self.bytes.push(green);
        self.bytes.push(blue);
    }
}

} // verus!
