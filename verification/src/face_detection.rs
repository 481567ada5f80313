//! Face-localization post-processing.
//!
//! The detector model itself runs in the embedding application; what it
//! returns — one raw regression vector and one confidence score per anchor —
//! is decided here: boxes are decoded against the anchor table, the
//! best-scoring anchor is selected against the detection floor, and the
//! winning normalized box is mapped onto the source image's pixel
//! dimensions. Coordinates and scores are carried in Q15 fixed point
//! (32768 is one); the decoder divides by the detector's 128-pixel input
//! scale exactly as the algebra says, truncating toward zero.

use crate::errors::ZKNeuralError;
use crate::face_anchors::Anchor;
use vstd::prelude::*;

verus! {

/// A decoded box: two corners in normalized Q15 coordinates.
#[derive(Clone, Copy, Debug, PartialEq, Eq, Structural)]
pub struct BoundingBox {
    pub x_min: i64,
    pub y_min: i64,
    pub x_max: i64,
    pub y_max: i64,
}

/// Division truncating toward zero, as the pixel and box arithmetic uses.
pub open spec fn trunc_div(a: int, d: int) -> int
    recommends
        d > 0,
{
    if a >= 0 {
        a / d
    } else {
        -((-a) / d)
    }
}

/// The largest raw regression magnitude the decoder accepts; keeps every
/// intermediate product inside 64 bits.
pub const RAW_COORDINATE_LIMIT: i64 = 0x800000000000;

/// The fixed confidence floor of the localizer: the least Q15 value not
/// below 0.9, so a Q15 score passes exactly when the confidence it stands
/// for is at least 0.9.
pub const FACE_DETECTION_MIN_SCORE: i64 = 29492;

/// The box decoded from one raw regression vector and its anchor:
/// `center = raw / 128 * scale + anchor_center`, `extent = raw / 128 *
/// scale`, corners a half extent from the center, everything in Q15.
pub open spec fn decode_box_spec(raw: Seq<i64>, anchor: Anchor) -> BoundingBox
    recommends
        raw.len() >= 4,
{
    let xc = anchor.x_center + trunc_div(raw[0] as int * anchor.x_scale as int, 128int * 32768);
    let yc = anchor.y_center + trunc_div(raw[1] as int * anchor.y_scale as int, 128int * 32768);
    let w = trunc_div(raw[2] as int * anchor.x_scale as int, 128int * 32768);
    let h = trunc_div(raw[3] as int * anchor.y_scale as int, 128int * 32768);
    BoundingBox {
        x_min: (xc - trunc_div(w, 2)) as i64,
        y_min: (yc - trunc_div(h, 2)) as i64,
        x_max: (xc + trunc_div(w, 2)) as i64,
        y_max: (yc + trunc_div(h, 2)) as i64,
    }
}

/// A raw vector the decoder accepts: at least the four used coordinates,
/// each bounded.
pub open spec fn raw_box_ok(raw: Seq<i64>) -> bool {
    raw.len() >= 4 && forall|k: int|
        0 <= k < 4 ==> -RAW_COORDINATE_LIMIT < #[trigger] raw[k] < RAW_COORDINATE_LIMIT
}

/// An anchor the decoder accepts: coordinates in `[0, 32768]`, as the whole
/// table satisfies.
pub open spec fn anchor_ok(a: Anchor) -> bool {
    &&& 0 <= a.x_center <= 32768
    &&& 0 <= a.y_center <= 32768
    &&& 0 < a.x_scale <= 32768
    &&& 0 < a.y_scale <= 32768
}

/// Division by a positive constant, truncating toward zero.
fn trunc_div_i64(a: i64, d: u64) -> (r: i64)
    requires
        0 < d <= 0x80000000,
        -0x4000000000000000 < a < 0x4000000000000000,
    ensures
        r as int == trunc_div(a as int, d as int),
        -0x4000000000000000 < r < 0x4000000000000000,
{
    if a >= 0 {
        let q = (a as u64) / d;
        proof {
            vstd::arithmetic::div_mod::lemma_div_is_ordered(q as int, a as int, 1);
            vstd::arithmetic::div_mod::lemma_div_is_ordered_by_denominator(a as int, 1, d as int);
        }
        q as i64
    } else {
        let mag = ((-(a + 1)) as u64) + 1;
        let q = mag / d;
        proof {
            assert(mag as int == -(a as int));
            vstd::arithmetic::div_mod::lemma_div_is_ordered_by_denominator(
                mag as int,
                1,
                d as int,
            );
        }
        -(q as i64)
    }
}

proof fn lemma_raw_scale_bound(a: int, s: int)
    requires
        -0x800000000000 < a < 0x800000000000,
        0 < s <= 32768,
    ensures
        -0x4000000000000000 < a * s < 0x4000000000000000,
{
    assert(-0x4000000000000000 < a * s < 0x4000000000000000) by (nonlinear_arith)
        requires
            -0x800000000000 < a < 0x800000000000,
            0 < s <= 32768,
    ;
}

pub struct FaceDetector {}

impl FaceDetector {
    /// Decodes every raw regression vector against its anchor, pointwise:
    /// box `i` of the result is an algebraic function of pair `i` alone,
    /// and pairing is by index, stopping at the shorter list.
    pub fn decode_boxes(boxes: &Vec<Vec<i64>>, anchors: &Vec<Anchor>) -> (r: Vec<BoundingBox>)
        requires
            forall|i: int| 0 <= i < boxes@.len() ==> raw_box_ok(#[trigger] boxes@[i]@),
            forall|i: int| 0 <= i < anchors@.len() ==> anchor_ok(#[trigger] anchors@[i]),
        ensures
            r@.len() == if boxes@.len() <= anchors@.len() {
                boxes@.len()
            } else {
                anchors@.len()
            },
            forall|i: int|
                0 <= i < r@.len() ==> r@[i] == decode_box_spec(boxes@[i]@, #[trigger] anchors@[i]),
    {
        let n = if boxes.len() <= anchors.len() {
            boxes.len()
        } else {
            anchors.len()
        };
        let mut out: Vec<BoundingBox> = Vec::new();
        let mut i: usize = 0;
        while i < n
            invariant
                i <= n,
                n == if boxes@.len() <= anchors@.len() {
                    boxes@.len()
                } else {
                    anchors@.len()
                },
                out@.len() == i,
                forall|j: int| 0 <= j < boxes@.len() ==> raw_box_ok(#[trigger] boxes@[j]@),
                forall|j: int| 0 <= j < anchors@.len() ==> anchor_ok(#[trigger] anchors@[j]),
                forall|j: int|
                    0 <= j < i ==> out@[j] == decode_box_spec(boxes@[j]@, #[trigger] anchors@[j]),
            decreases n - i,
        {
            let element = &boxes[i];
            let anchor = anchors[i];
            proof {
                assert(raw_box_ok(boxes@[i as int]@));
                assert(anchor_ok(anchors@[i as int]));
                lemma_raw_scale_bound(element@[0] as int, anchor.x_scale as int);
                lemma_raw_scale_bound(element@[1] as int, anchor.y_scale as int);
                lemma_raw_scale_bound(element@[2] as int, anchor.x_scale as int);
                lemma_raw_scale_bound(element@[3] as int, anchor.y_scale as int);
            }
            let xc = anchor.x_center + trunc_div_i64(element[0] * anchor.x_scale, 128 * 32768);
            let yc = anchor.y_center + trunc_div_i64(element[1] * anchor.y_scale, 128 * 32768);
            let w = trunc_div_i64(element[2] * anchor.x_scale, 128 * 32768);
            let h = trunc_div_i64(element[3] * anchor.y_scale, 128 * 32768);
            let half_w = trunc_div_i64(w, 2);
            let half_h = trunc_div_i64(h, 2);
            let decoded = BoundingBox {
                x_min: xc - half_w,
                y_min: yc - half_h,
                x_max: xc + half_w,
                y_max: yc + half_h,
            };
            proof {
                assert(decoded == decode_box_spec(boxes@[i as int]@, anchors@[i as int]));
            }
            out.push(decoded);
            i = i + 1;
        }
        out
    }

    /// Selects the anchor with the highest confidence score; the first
    /// index wins a tie, exactly as a stable linear scan leaves it. Fails
    /// with `FaceNotFound` exactly when every score is below `min_score`.
    pub fn select_best_anchor(scores: &Vec<i64>, min_score: i64) -> (r: Result<
        usize,
        ZKNeuralError,
    >)
        requires
            scores@.len() > 0,
        ensures
            r matches Ok(i) ==> i < scores@.len() && scores@[i as int] >= min_score && (forall|
                j: int,
            |
                0 <= j < scores@.len() ==> scores@[j] <= scores@[i as int]) && (forall|j: int|
                0 <= j < i ==> scores@[j] < scores@[i as int]),
            (r matches Err(ZKNeuralError::FaceNotFound)) <==> (forall|j: int|
                0 <= j < scores@.len() ==> scores@[j] < min_score),
            r is Err ==> r matches Err(ZKNeuralError::FaceNotFound),
    {
        let mut best: usize = 0;
        let mut i: usize = 1;
        while i < scores.len()
            invariant
                1 <= i <= scores@.len(),
                best < i,
                forall|j: int| 0 <= j < i ==> scores@[j] <= scores@[best as int],
                forall|j: int| 0 <= j < best ==> scores@[j] < scores@[best as int],
            decreases scores@.len() - i,
        {
            if scores[i] > scores[best] {
                best = i;
            }
            i = i + 1;
        }
        if scores[best] < min_score {
            Err(ZKNeuralError::FaceNotFound)
        } else {
            Ok(best)
        }
    }

    /// Maps a winning normalized box onto an image's pixel dimensions:
    /// each corner scaled by the width or height and truncated, each of the
    /// four crop values clamped into `u32` range, the crop extent taken
    /// from the corner difference before truncation.
    pub fn crop_rectangle(best_box: &BoundingBox, width: u32, height: u32) -> (r: (
        u32,
        u32,
        u32,
        u32,
    ))
        requires
            -0x4000000000000000 < best_box.x_min < 0x4000000000000000,
            -0x4000000000000000 < best_box.y_min < 0x4000000000000000,
            -0x4000000000000000 < best_box.x_max < 0x4000000000000000,
            -0x4000000000000000 < best_box.y_max < 0x4000000000000000,
        ensures
            r == crop_rectangle_spec(*best_box, width, height),
    {
        let x_min_px = scale_to_pixels(best_box.x_min, width);
        let y_min_px = scale_to_pixels(best_box.y_min, height);
        let crop_w = scale_to_pixels_diff(best_box.x_max, best_box.x_min, width);
        let crop_h = scale_to_pixels_diff(best_box.y_max, best_box.y_min, height);
        (x_min_px, y_min_px, crop_w, crop_h)
    }
}

/// `v * dim / 32768`, truncated toward zero and clamped into `u32` range.
pub open spec fn pixel_of(v: int, dim: int) -> int {
    let px = trunc_div(v * dim, 32768);
    if px < 0 {
        0
    } else if px > 0xFFFFFFFF {
        0xFFFFFFFF
    } else {
        px
    }
}

/// The crop rectangle of a box on a `width` by `height` image.
pub open spec fn crop_rectangle_spec(b: BoundingBox, width: u32, height: u32) -> (
    u32,
    u32,
    u32,
    u32,
) {
    (
        pixel_of(b.x_min as int, width as int) as u32,
        pixel_of(b.y_min as int, height as int) as u32,
        pixel_of(b.x_max as int - b.x_min as int, width as int) as u32,
        pixel_of(b.y_max as int - b.y_min as int, height as int) as u32,
    )
}

/// One corner scaled to pixels and clamped.
fn scale_to_pixels(v: i64, dim: u32) -> (r: u32)
    requires
        -0x4000000000000000 < v < 0x4000000000000000,
    ensures
        r as int == pixel_of(v as int, dim as int),
{
    if v >= 0 {
        proof {
            assert((v as int) * (dim as int) < 0x400000000000000000000000) by (nonlinear_arith)
                requires
                    0 <= (v as int) && (v as int) < 0x4000000000000000,
                    0 <= (dim as int) && (dim as int) < 0x100000000,
            ;
        }
        let px = (v as u128 * dim as u128) / 32768;
        if px > 0xFFFFFFFF {
            0xFFFFFFFF
        } else {
            proof {
                assert((v as u128 * dim as u128) as int == v as int * dim as int)
                    by (nonlinear_arith)
                    requires
                        v >= 0,
                ;
            }
            px as u32
        }
    } else {
        proof {
            assert(v as int * dim as int <= 0) by (nonlinear_arith)
                requires
                    v < 0,
                    dim >= 0,
            ;
            assert(-(v as int) * dim as int == -(v as int * dim as int)) by (nonlinear_arith);
        }
        proof {
            vstd::arithmetic::div_mod::lemma_div_is_ordered(
                0,
                -(v as int * dim as int),
                32768,
            );
        }
        0
    }
}

/// A corner difference scaled to pixels and clamped.
fn scale_to_pixels_diff(hi: i64, lo: i64, dim: u32) -> (r: u32)
    requires
        -0x4000000000000000 < hi < 0x4000000000000000,
        -0x4000000000000000 < lo < 0x4000000000000000,
    ensures
        r as int == pixel_of(hi as int - lo as int, dim as int),
{
    let d = hi - lo;
    if d >= 0 {
        proof {
            assert((d as int) * (dim as int) < 0x800000000000000000000000) by (nonlinear_arith)
                requires
                    0 <= (d as int) && (d as int) < 0x8000000000000000,
                    0 <= (dim as int) && (dim as int) < 0x100000000,
            ;
        }
        let px = (d as u128 * dim as u128) / 32768;
        if px > 0xFFFFFFFF {
            0xFFFFFFFF
        } else {
            proof {
                assert((d as u128 * dim as u128) as int == d as int * dim as int)
                    by (nonlinear_arith)
                    requires
                        d >= 0,
                ;
            }
            px as u32
        }
    } else {
        proof {
            assert(d as int * dim as int <= 0) by (nonlinear_arith)
                requires
                    d < 0,
                    dim >= 0,
            ;
        }
        0
    }
}

/// Law: decoding is pointwise and order-preserving. Whatever stands at the
/// other positions of two input lists, if the raw vector and the anchor at
/// position `i` agree, the decoded box at position `i` agrees: each output
/// box is an algebraic function of its own pair alone.
pub proof fn lemma_decode_pointwise(
    boxes1: Seq<Seq<i64>>,
    anchors1: Seq<Anchor>,
    boxes2: Seq<Seq<i64>>,
    anchors2: Seq<Anchor>,
    i: int,
)
    requires
        0 <= i,
        i < boxes1.len() && i < anchors1.len(),
        i < boxes2.len() && i < anchors2.len(),
        boxes1[i] == boxes2[i],
        anchors1[i] == anchors2[i],
    ensures
        decode_box_spec(boxes1[i], anchors1[i]) == decode_box_spec(boxes2[i], anchors2[i]),
{
}

} // verus!
