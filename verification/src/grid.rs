//! Grid geometry: toroidal wraparound arithmetic and conversion between 2D
//! coordinates and flat row-major field indices.

use vstd::prelude::*;
use vstd::arithmetic::div_mod::{
    lemma_mod_division_less_than_divisor, lemma_mod_multiples_vanish, lemma_mod_twice,
};

verus! {

/// Immutable world dimensions; every coordinate is taken modulo these.
pub struct WorldDimensions {
    pub width: i32,
    pub height: i32,
}

impl WorldDimensions {
    /// A world is usable only when both dimensions are positive and the cell
    /// count fits comfortably in the machine word.
    pub open spec fn valid(self) -> bool {
        &&& 1 <= self.width
        &&& 1 <= self.height
        &&& self.width * self.height <= 0x4000_0000
    }

    /// Number of cells in the field.
    pub open spec fn cells(self) -> int {
        self.width * self.height
    }

    /// Rejects a misconfigured world rather than letting a zero dimension
    /// reach the wraparound arithmetic.
    pub fn new(width: i32, height: i32) -> (r: Option<WorldDimensions>)
        ensures
            r is Some <==> (1 <= width && 1 <= height
                && width * height <= 0x4000_0000),
            r is Some ==> r->Some_0 == (WorldDimensions { width, height }),
    {
        if width < 1 || height < 1 {
            return None;
        }
        proof {
            assert((width as i64) * (height as i64) <= 0x7fff_ffffi64 * 0x7fff_ffffi64)
                by (nonlinear_arith)
                requires
                    1 <= width <= 0x7fff_ffff,
                    1 <= height <= 0x7fff_ffff,
            ;
        }
        if width as i64 * height as i64 > 0x4000_0000i64 {
            return None;
        }
        Some(WorldDimensions { width, height })
    }

    /// Width and height as a pair, for the presentation layer.
    pub fn dimensions(&self) -> (r: (i32, i32))
        ensures
            r.0 == self.width,
            r.1 == self.height,
    {
        (self.width, self.height)
    }
}

/// Euclidean remainder: the unique representative of `x` modulo `w` in
/// `[0, w)`, also for negative `x`.
pub fn wrap(x: i64, w: i64) -> (r: i64)
    requires
        1 <= w,
        i64::MIN + w <= x,
    ensures
        r == x as int % w as int,
        0 <= r < w,
{
    if x >= 0 {
        proof {
            lemma_mod_division_less_than_divisor(x as int, w as int);
        }
        x % w
    } else {
        let n = (-x) % w;
        proof {
            let xi = x as int;
            let wi = w as int;
            let q = (-xi) / wi;
            assert(n == (-xi) % wi);
            lemma_mod_division_less_than_divisor(-xi, wi);
            vstd::arithmetic::div_mod::lemma_fundamental_div_mod(-xi, wi);
            assert((-q - 1) * wi == -(wi * q) - wi && (-q) * wi == -(wi * q))
                by (nonlinear_arith);
            if n != 0 {
                vstd::arithmetic::div_mod::lemma_fundamental_div_mod_converse(
                    xi, wi, -q - 1, wi - n);
            } else {
                vstd::arithmetic::div_mod::lemma_fundamental_div_mod_converse(
                    xi, wi, -q, 0);
            }
        }
        if n == 0 {
            0
        } else {
            w - n
        }
    }
}

/// Flat row-major index of an in-bounds cell.
pub fn to_index(x: i32, y: i32, dim: &WorldDimensions) -> (r: usize)
    requires
        dim.valid(),
        0 <= x < dim.width,
        0 <= y < dim.height,
    ensures
        r == y * dim.width + x,
        r < dim.cells(),
{
    proof {
        assert(y * dim.width + x < dim.width * dim.height) by (nonlinear_arith)
            requires
                0 <= x < dim.width,
                0 <= y < dim.height,
                1 <= dim.width,
        ;
        assert(0 <= y * dim.width) by (nonlinear_arith)
            requires
                0 <= y,
                1 <= dim.width,
        ;
    }
    y as usize * dim.width as usize + x as usize
}

/// Row of a flat index.
pub fn row_of(index: usize, dim: &WorldDimensions) -> (r: usize)
    requires
        dim.valid(),
        index < dim.cells(),
    ensures
        r == index as int / dim.width as int,
        r < dim.height,
{
    proof {
        assert((index as int) / (dim.width as int) < dim.height) by (nonlinear_arith)
            requires
                0 <= index < dim.width * dim.height,
                1 <= dim.width,
        ;
    }
    index / (dim.width as usize)
}

/// The row of `to_index(x, y)` is `y` again: the two conversions agree.
pub proof fn lemma_index_roundtrip(x: int, y: int, w: int, h: int)
    requires
        1 <= w,
        0 <= x < w,
        0 <= y < h,
    ensures
        (y * w + x) / w == y,
        (y * w + x) % w == x,
{
    vstd::arithmetic::div_mod::lemma_fundamental_div_mod_converse(y * w + x, w, y, x);
}

/// Wraparound lands in `[0, width)` and is periodic: adding any whole number
/// of widths does not change the wrapped value.
pub proof fn lemma_wrap_periodic(x: int, k: int, w: int)
    requires
        1 <= w,
    ensures
        0 <= x % w < w,
        (x % w + k * w) % w == x % w,
{
    lemma_mod_division_less_than_divisor(x, w);
    lemma_mod_multiples_vanish(k, x % w, w);
    lemma_mod_twice(x, w);
}

} // verus!
