//! The fixed anchor table of the short-range face detector.
//!
//! The detector scores 896 reference boxes over its 128x128 input: two per
//! cell of a 16x16 grid, then six per cell of an 8x8 grid, row-major, all
//! with unit scale. Coordinates are carried in Q15 fixed point (32768 is
//! one), in which every grid center `(cell + 0.5) / cells` is exact.

use vstd::prelude::*;

verus! {

/// How many anchors the detector output carries.
pub const FACE_ANCHOR_COUNT: usize = 896;

/// One reference box: a center and a scale pair, in Q15.
#[derive(Clone, Copy, Debug, PartialEq, Eq, Structural)]
pub struct Anchor {
    pub x_center: i64,
    pub y_center: i64,
    pub x_scale: i64,
    pub y_scale: i64,
}

/// The anchor at table position `i`.
pub open spec fn anchor_spec(i: int) -> Anchor {
    if i < 512 {
        let cell = i / 2;
        let gy = cell / 16;
        let gx = cell % 16;
        Anchor {
            x_center: ((2 * gx + 1) * 1024) as i64,
            y_center: ((2 * gy + 1) * 1024) as i64,
            x_scale: 32768,
            y_scale: 32768,
        }
    } else {
        let cell = (i - 512) / 6;
        let gy = cell / 8;
        let gx = cell % 8;
        Anchor {
            x_center: ((2 * gx + 1) * 2048) as i64,
            y_center: ((2 * gy + 1) * 2048) as i64,
            x_scale: 32768,
            y_scale: 32768,
        }
    }
}

/// Every anchor's coordinates lie in `[0, 32768]`.
pub proof fn lemma_anchor_spec_bounds(i: int)
    requires
        0 <= i < 896,
    ensures
        0 <= anchor_spec(i).x_center <= 32768,
        0 <= anchor_spec(i).y_center <= 32768,
        anchor_spec(i).x_scale == 32768,
        anchor_spec(i).y_scale == 32768,
{
    if i < 512 {
        let cell = i / 2;
        assert(0 <= cell < 256);
        assert(0 <= cell / 16 < 16);
        assert(0 <= cell % 16 < 16);
    } else {
        let cell = (i - 512) / 6;
        assert(0 <= cell < 64);
        assert(0 <= cell / 8 < 8);
        assert(0 <= cell % 8 < 8);
    }
}

/// Builds the whole anchor table, in output order.
pub fn blaze_face_short_range_anchors() -> (r: Vec<Anchor>)
    ensures
        r@.len() == FACE_ANCHOR_COUNT,
        forall|i: int| 0 <= i < 896 ==> r@[i] == anchor_spec(i),
{
    let mut out: Vec<Anchor> = Vec::new();
    let mut i: usize = 0;
    while i < FACE_ANCHOR_COUNT
        invariant
            i <= 896,
            out@.len() == i,
            forall|j: int| 0 <= j < i ==> out@[j] == anchor_spec(j),
        decreases 896 - i,
    {
        let a: Anchor = if i < 512 {
            let cell = i / 2;
            let gy = cell / 16;
            let gx = cell % 16;
            Anchor {
                x_center: (2 * gx as i64 + 1) * 1024,
                y_center: (2 * gy as i64 + 1) * 1024,
                x_scale: 32768,
                y_scale: 32768,
            }
        } else {
            let cell = (i - 512) / 6;
            let gy = cell / 8;
            let gx = cell % 8;
            Anchor {
                x_center: (2 * gx as i64 + 1) * 2048,
                y_center: (2 * gy as i64 + 1) * 2048,
                x_scale: 32768,
                y_scale: 32768,
            }
        };
        out.push(a);
        i = i + 1;
    }
    out
}

} // verus!
