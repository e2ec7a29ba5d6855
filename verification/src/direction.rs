//! Direction vectors from headings in whole degrees.
//!
//! The components are the signs of cosine and sine of the heading: each is
//! -1, 0 or 1, never scaled to unit Euclidean length. Probe distances and
//! step sizes assume exactly this per-axis normalization.

use vstd::prelude::*;
use crate::grid::wrap;

verus! {

/// Horizontal component: the sign of the cosine of `deg` degrees.
pub open spec fn unit_x(deg: int) -> int {
    let d = deg % 360;
    if d < 90 {
        1
    } else if d == 90 {
        0
    } else if d < 270 {
        -1
    } else if d == 270 {
        0
    } else {
        1
    }
}

/// Vertical component: the sign of the sine of `deg` degrees.
pub open spec fn unit_y(deg: int) -> int {
    let d = deg % 360;
    if d == 0 {
        0
    } else if d < 180 {
        1
    } else if d == 180 {
        0
    } else {
        -1
    }
}

/// Direction vector of a heading in degrees: per-axis signs, not a Euclidean
/// unit vector.
pub fn angle_to_unit_vec(angle: i64) -> (r: (i64, i64))
    requires
        i64::MIN + 360 <= angle,
    ensures
        r.0 == unit_x(angle as int),
        r.1 == unit_y(angle as int),
        -1 <= r.0 <= 1,
        -1 <= r.1 <= 1,
{
    let d = wrap(angle, 360);
    let x: i64 = if d < 90 {
        1
    } else if d == 90 {
        0
    } else if d < 270 {
        -1
    } else if d == 270 {
        0
    } else {
        1
    };
    let y: i64 = if d == 0 {
        0
    } else if d < 180 {
        1
    } else if d == 180 {
        0
    } else {
        -1
    };
    (x, y)
}

/// The direction of a heading depends only on the heading modulo 360: adding
/// whole turns changes neither component.
pub proof fn lemma_direction_periodic(deg: int, k: int)
    ensures
        unit_x(deg + k * 360) == unit_x(deg),
        unit_y(deg + k * 360) == unit_y(deg),
{
    vstd::arithmetic::div_mod::lemma_mod_multiples_vanish(k, deg, 360);
}

} // verus!
