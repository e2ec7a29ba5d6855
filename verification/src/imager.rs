//! Mapping of the trail field onto display alpha values.

use vstd::prelude::*;
use crate::grid::WorldDimensions;
use crate::field::{TrailMap, field_wf, INTENSITY_CAP};

verus! {

/// Alpha value of one cell: its intensity as a fraction of the deposit
/// intensity, scaled to 0..=255 and saturated at full opacity.
pub open spec fn alpha_of(cell: u64, intensity: u64) -> int {
    if intensity == 0 {
        0
    } else if 255 * cell / (intensity as int) > 255 {
        255
    } else {
        255 * cell / (intensity as int)
    }
}

/// One alpha byte per cell, row-major, for the presentation layer to blend
/// over its image; a deposit-intensity cell is fully opaque.
pub fn render(map: &TrailMap, dim: &WorldDimensions, intensity: u64) -> (r: Vec<u8>)
    requires
        dim.valid(),
        field_wf(map.trail@, *dim),
    ensures
        r@.len() == map.trail@.len(),
        forall|c: int| 0 <= c < r@.len() ==> r@[c] == alpha_of(map.trail@[c], intensity),
{
    let n = map.trail.len();
    let mut out: Vec<u8> = Vec::new();
    let mut i: usize = 0;
    while i < n
        invariant
            i <= n,
            n == map.trail@.len(),
            forall|j: int| 0 <= j < n ==> map.trail@[j] <= INTENSITY_CAP,
            out@.len() == i,
            forall|j: int| 0 <= j < i ==> out@[j] == alpha_of(map.trail@[j], intensity),
        decreases n - i,
    {
        let cell = map.trail[i];
        let a: u8 = if intensity == 0 {
            0
        } else {
            let scaled = 255 * cell / intensity;
            if scaled > 255 {
                255
            } else {
                scaled as u8
            }
        };
        out.push(a);
        i = i + 1;
    }
    out
}

} // verus!
