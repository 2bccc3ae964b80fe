//! Parameters of a render: image size, samples per pixel, seed of the random
//! source and output path, with their defaults, their reading from option
//! values, and the order in which pixels are produced.
use vstd::prelude::*;
use vstd::arithmetic::div_mod::lemma_fundamental_div_mod_converse;
use crate::decimal::{decimal_value, parse_decimal};

verus! {

pub const DEFAULT_WIDTH: u32 = 200;

pub const DEFAULT_HEIGHT: u32 = 100;

pub const DEFAULT_SAMPLES: u32 = 100;

pub const DEFAULT_SEED: u64 = 0;

/// Why option values do not make a render's parameters.
#[derive(PartialEq, Eq, Structural, Clone, Copy, Debug)]
pub enum ParamsError {
    /// The value of the option with this letter is not an unsigned decimal
    /// number of its type.
    BadNumber(char),
    /// The image would have no pixel.
    EmptyImage,
    /// A pixel would be the average of no sample.
    NoSamples,
    /// The image's bytes, three for each pixel, would not be counted by a `u32`.
    TooLarge,
}

/// What a render is asked to produce.
pub struct Params {
    /// Width in pixels.
    pub nx: u32,
    /// Height in pixels.
    pub ny: u32,
    /// Camera rays averaged into each pixel.
    pub ns: u32,
    /// Seed of the random source.
    pub random_seed: u64,
    /// Where the image is written.
    pub output: String,
}

/// Whether a render of this size and sampling can be carried out.
pub open spec fn renderable(nx: int, ny: int, ns: int) -> bool {
    &&& nx > 0
    &&& ny > 0
    &&& ns > 0
    &&& 3 * nx * ny <= u32::MAX
}

/// The pixel produced in the `k`-th place: rows from the top one (`j` is
/// `ny - 1`) down, and within a row from left to right.
pub open spec fn pixel_at(nx: int, ny: int, k: int) -> (int, int) {
    (k % nx, ny - 1 - k / nx)
}

/// The place at which pixel `(i, j)` is produced.
pub open spec fn place_of(nx: int, ny: int, i: int, j: int) -> int {
    (ny - 1 - j) * nx + i
}

/// The parameters read from an option value: the default when the option is
/// absent, else the number that the value writes if it is at most `max`.
pub open spec fn option_number(o: Option<Seq<char>>, default: nat, max: nat) -> Option<nat> {
    match o {
        None => Some(default),
        Some(s) => decimal_value(s, max),
    }
}

pub open spec fn view_option(o: &Option<String>) -> Option<Seq<char>> {
    match o {
        None => None,
        Some(s) => Some(s@),
    }
}

/// Width, height, samples and seed that the option values `x`, `y`, `s` and
/// `r` give, or the first reason why they give none.
pub open spec fn numbers_of(
    x: Option<Seq<char>>,
    y: Option<Seq<char>>,
    s: Option<Seq<char>>,
    r: Option<Seq<char>>,
) -> Result<(nat, nat, nat, nat), ParamsError> {
    let nx = option_number(x, DEFAULT_WIDTH as nat, u32::MAX as nat);
    let ny = option_number(y, DEFAULT_HEIGHT as nat, u32::MAX as nat);
    let ns = option_number(s, DEFAULT_SAMPLES as nat, u32::MAX as nat);
    let seed = option_number(r, DEFAULT_SEED as nat, u64::MAX as nat);
    if nx is None {
        Err(ParamsError::BadNumber('x'))
    } else if ny is None {
        Err(ParamsError::BadNumber('y'))
    } else if ns is None {
        Err(ParamsError::BadNumber('s'))
    } else if seed is None {
        Err(ParamsError::BadNumber('r'))
    } else if nx->0 == 0 || ny->0 == 0 {
        Err(ParamsError::EmptyImage)
    } else if ns->0 == 0 {
        Err(ParamsError::NoSamples)
    } else if 3 * nx->0 * ny->0 > u32::MAX {
        Err(ParamsError::TooLarge)
    } else {
        Ok((nx->0, ny->0, ns->0, seed->0))
    }
}

fn read_option(o: &Option<String>, default: u64, max: u64) -> (r: Option<u64>)
    ensures
        match option_number(view_option(o), default as nat, max as nat) {
            Some(v) => r == Some(v as u64),
            None => r is None,
        },
{
    match o {
        None => Some(default),
        Some(t) => parse_decimal(t.as_str(), max),
    }
}

impl Params {
    pub fn new(nx: u32, ny: u32, ns: u32, random_seed: u64, output: String) -> (p: Params)
        ensures
            p.nx == nx,
            p.ny == ny,
            p.ns == ns,
            p.random_seed == random_seed,
            p.output@ == output@,
    {
        Params { nx, ny, ns, random_seed, output }
    }

    pub open spec fn valid(&self) -> bool {
        renderable(self.nx as int, self.ny as int, self.ns as int)
    }

    /// Reads the parameters from the values of the options `-x` (width),
    /// `-y` (height), `-s` (samples), `-r` (seed) and `-o` (output path);
    /// an absent option takes its default (200 by 100 pixels, 100 samples,
    /// seed 0, `output.png`).
    pub fn from_options(
        x: Option<String>,
        y: Option<String>,
        s: Option<String>,
        r: Option<String>,
        o: Option<String>,
    ) -> (res: Result<Params, ParamsError>)
        ensures
            match numbers_of(view_option(&x), view_option(&y), view_option(&s), view_option(&r)) {
                Ok(n) => res is Ok && res->Ok_0.nx == n.0 && res->Ok_0.ny == n.1
                    && res->Ok_0.ns == n.2 && res->Ok_0.random_seed == n.3
                    && res->Ok_0.valid() && match o {
                    Some(path) => res->Ok_0.output@ == path@,
                    None => res->Ok_0.output@ == "output.png"@,
                },
                Err(e) => res == Err::<Params, ParamsError>(e),
            },
    {
        let nx = match read_option(&x, DEFAULT_WIDTH as u64, u32::MAX as u64) {
            Some(v) => v as u32,
            None => return Err(ParamsError::BadNumber('x')),
        };
        let ny = match read_option(&y, DEFAULT_HEIGHT as u64, u32::MAX as u64) {
            Some(v) => v as u32,
            None => return Err(ParamsError::BadNumber('y')),
        };
        let ns = match read_option(&s, DEFAULT_SAMPLES as u64, u32::MAX as u64) {
            Some(v) => v as u32,
            None => return Err(ParamsError::BadNumber('s')),
        };
        let random_seed = match read_option(&r, DEFAULT_SEED, u64::MAX) {
            Some(v) => v,
            None => return Err(ParamsError::BadNumber('r')),
        };
        if nx == 0 || ny == 0 {
            return Err(ParamsError::EmptyImage);
        }
        if ns == 0 {
            return Err(ParamsError::NoSamples);
        }
        proof {
            assert((nx as int) * (ny as int) <= 0xffff_ffffint * 0xffff_ffffint) by (nonlinear_arith)
                requires
                    0 <= nx <= 0xffff_ffffint,
                    0 <= ny <= 0xffff_ffffint,
            ;
            assert(3 * (nx as int) * (ny as int) == 3 * ((nx as int) * (ny as int)))
                by (nonlinear_arith);
        }
        let bytes: u128 = 3 * ((nx as u128) * (ny as u128));
        if bytes > u32::MAX as u128 {
            return Err(ParamsError::TooLarge);
        }
        let output = match o {
            Some(path) => path,
            None => String::from_str("output.png"),
        };
        Ok(Params { nx, ny, ns, random_seed, output })
    }

    /// Whether a render of these parameters can be carried out.
    pub fn is_valid(&self) -> (r: bool)
        ensures
            r == self.valid(),
    {
        if self.nx == 0 || self.ny == 0 || self.ns == 0 {
            return false;
        }
        proof {
            assert((self.nx as int) * (self.ny as int) <= 0xffff_ffffint * 0xffff_ffffint)
                by (nonlinear_arith)
                requires
                    0 <= self.nx <= 0xffff_ffffint,
                    0 <= self.ny <= 0xffff_ffffint,
            ;
            assert(3 * (self.nx as int) * (self.ny as int) == 3 * ((self.nx as int) * (
            self.ny as int))) by (nonlinear_arith);
        }
        3 * ((self.nx as u128) * (self.ny as u128)) <= u32::MAX as u128
    }

    /// Number of pixels of the image.
    pub fn pixel_count(&self) -> (r: u32)
        requires
            self.valid(),
        ensures
            r == self.nx * self.ny,
    {
        proof {
            assert(3 * (self.nx as int) * (self.ny as int) == 3 * ((self.nx as int) * (
            self.ny as int))) by (nonlinear_arith);
        }
        self.nx * self.ny
    }

    /// The pixel `(i, j)` produced in the `k`-th place.
    pub fn pixel(&self, k: u32) -> (r: (u32, u32))
        requires
            self.valid(),
            k < self.nx * self.ny,
        ensures
            (r.0 as int, r.1 as int) == pixel_at(self.nx as int, self.ny as int, k as int),
    {
        proof {
            lemma_place_holds_pixel(self.nx as int, self.ny as int, k as int);
        }
        (k % self.nx, self.ny - 1 - k / self.nx)
    }
}

/// The `k`-th place holds a pixel of the image, whose place is `k` again.
pub proof fn lemma_place_holds_pixel(nx: int, ny: int, k: int)
    requires
        nx > 0,
        ny > 0,
        0 <= k < nx * ny,
    ensures
        0 <= pixel_at(nx, ny, k).0 < nx,
        0 <= pixel_at(nx, ny, k).1 < ny,
        place_of(nx, ny, pixel_at(nx, ny, k).0, pixel_at(nx, ny, k).1) == k,
{
    let q = k / nx;
    let r = k % nx;
    assert(k == q * nx + r && 0 <= r < nx) by (nonlinear_arith)
        requires
            nx > 0,
            q == k / nx,
            r == k % nx,
    ;
    assert(0 <= q < ny) by (nonlinear_arith)
        requires
            k == q * nx + r,
            0 <= r < nx,
            0 <= k < nx * ny,
    ;
    assert(place_of(nx, ny, r, ny - 1 - q) == (ny - 1 - (ny - 1 - q)) * nx + r);
}

/// Each pixel of the image has a place, which holds that pixel.
pub proof fn lemma_pixel_has_place(nx: int, ny: int, i: int, j: int)
    requires
        0 <= i < nx,
        0 <= j < ny,
    ensures
        0 <= place_of(nx, ny, i, j) < nx * ny,
        pixel_at(nx, ny, place_of(nx, ny, i, j)) == (i, j),
{
    let q = ny - 1 - j;
    let k = place_of(nx, ny, i, j);
    assert(0 <= k < nx * ny) by (nonlinear_arith)
        requires
            k == q * nx + i,
            0 <= q < ny,
            0 <= i < nx,
    ;
    lemma_fundamental_div_mod_converse(k, nx, q, i);
}

} // verus!
