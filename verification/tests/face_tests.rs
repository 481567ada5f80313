use zkneural::errors::ZKNeuralError;
use zkneural::face_anchors::blaze_face_short_range_anchors;
use zkneural::face_detection::{BoundingBox, FaceDetector, FACE_DETECTION_MIN_SCORE};

#[test]
fn anchor_table_layout() {
    let anchors = blaze_face_short_range_anchors();
    assert_eq!(anchors.len(), 896);
    // Two anchors per cell on the 16x16 grid, centers at (cell + 0.5) / 16.
    assert_eq!(anchors[0].x_center, 1024);
    assert_eq!(anchors[0].y_center, 1024);
    assert_eq!(anchors[1].x_center, 1024);
    assert_eq!(anchors[2].x_center, 3072);
    assert_eq!(anchors[2].y_center, 1024);
    assert_eq!(anchors[511].x_center, 31744);
    assert_eq!(anchors[511].y_center, 31744);
    // Six per cell on the 8x8 grid, centers at (cell + 0.5) / 8.
    assert_eq!(anchors[512].x_center, 2048);
    assert_eq!(anchors[512].y_center, 2048);
    assert_eq!(anchors[895].x_center, 30720);
    assert_eq!(anchors[895].y_center, 30720);
    for a in &anchors {
        assert_eq!(a.x_scale, 32768);
        assert_eq!(a.y_scale, 32768);
        assert!(a.x_center <= 32768 && a.y_center <= 32768);
    }
}

#[test]
fn decode_boxes_hand_computed_fixture() {
    let anchors = blaze_face_short_range_anchors();
    // raw = (640, -1280, 2560, 1280) against the first anchor (1024, 1024):
    //   x_center = 1024 + 640/128  = 1029, y_center = 1024 - 1280/128 = 1014
    //   width    = 2560/128 = 20,          height   = 1280/128 = 10
    let mut raw: Vec<i64> = vec![640, -1280, 2560, 1280];
    raw.resize(16, 0);
    let decoded = FaceDetector::decode_boxes(&vec![raw], &anchors);
    assert_eq!(decoded.len(), 1);
    assert_eq!(
        decoded[0],
        BoundingBox { x_min: 1019, y_min: 1009, x_max: 1039, y_max: 1019 },
    );
}

#[test]
fn decode_boxes_is_pointwise_and_truncates_to_shorter_list() {
    let anchors = blaze_face_short_range_anchors();
    let raw_a: Vec<i64> = vec![128, 128, 0, 0, 9, 9, 9, 9, 9, 9, 9, 9, 9, 9, 9, 9];
    let raw_b: Vec<i64> = vec![-128, 256, 128, 128];
    let both = FaceDetector::decode_boxes(&vec![raw_a.clone(), raw_b.clone()], &anchors);
    let first_alone = FaceDetector::decode_boxes(&vec![raw_a.clone()], &anchors);
    // The first decoded box does not depend on what else is in the list.
    assert_eq!(both[0], first_alone[0]);
    // More raw vectors than anchors: pairing stops at the shorter list.
    let one_anchor = vec![anchors[0]];
    let truncated = FaceDetector::decode_boxes(&vec![raw_a, raw_b], &one_anchor);
    assert_eq!(truncated.len(), 1);
}

#[test]
fn localizer_selects_single_confident_anchor() {
    // One anchor scoring 0.95 after the logistic transform, all others
    // below 0.5, carried in Q15; the detection floor is 0.9.
    let mut scores: Vec<i64> = vec![9830; 896]; // 0.3
    scores[123] = 31129; // 0.95
    let best = FaceDetector::select_best_anchor(&scores, FACE_DETECTION_MIN_SCORE).unwrap();
    assert_eq!(best, 123);
}

#[test]
fn localizer_fails_when_every_score_is_low() {
    let scores: Vec<i64> = vec![16384; 896]; // all 0.5
    assert!(matches!(
        FaceDetector::select_best_anchor(&scores, FACE_DETECTION_MIN_SCORE),
        Err(ZKNeuralError::FaceNotFound)
    ));
}

#[test]
fn localizer_keeps_first_of_equal_maxima() {
    let scores: Vec<i64> = vec![5, 9, 9, 3];
    assert_eq!(FaceDetector::select_best_anchor(&scores, 0).unwrap(), 1);
}

#[test]
fn crop_rectangle_scales_and_clamps() {
    let b = BoundingBox { x_min: 16384, y_min: 8192, x_max: 24576, y_max: 16384 };
    // On a 100x200 image: corners (50, 50), extent (25, 50).
    assert_eq!(FaceDetector::crop_rectangle(&b, 100, 200), (50, 50, 25, 50));
    let negative = BoundingBox { x_min: -5000, y_min: -1, x_max: 16384, y_max: 32768 };
    let (x, y, w, h) = FaceDetector::crop_rectangle(&negative, 128, 128);
    assert_eq!((x, y), (0, 0));
    // The extent is taken from the corner difference before truncation.
    assert_eq!(w, (128i64 * (16384 + 5000) / 32768) as u32);
    assert_eq!(h, 128);
}
