use liver::curve::{
    linear, bezier, stepped, inverse_stepped, MotionCurveTarget, MotionData, MotionPoint,
    SegmentType,
};
use liver::decode::{derive_segment_count, DecodeError};
use liver::fixed::SCALE;

fn point(time: i64, value: i64) -> MotionPoint {
    MotionPoint { time, value }
}

fn empty_data() -> MotionData {
    MotionData {
        duration: 2 * SCALE,
        is_loop: false,
        fps: 30 * SCALE,
        curves: Vec::new(),
        segments: Vec::new(),
        points: Vec::new(),
        events: Vec::new(),
    }
}

#[test]
fn linear_hits_both_endpoints_exactly() {
    let a = point(0, 1000);
    let b = point(SCALE, 9000);
    assert_eq!(linear(a, b, 0), 1000);
    assert_eq!(linear(a, b, SCALE), 9000);
}

#[test]
fn linear_midpoint_and_monotonic_samples() {
    let a = point(0, 0);
    let b = point(SCALE, SCALE as i64);
    assert_eq!(linear(a, b, SCALE / 2), (SCALE / 2) as i128);
    let mut prev = linear(a, b, 0);
    for k in 1..=16 {
        let cur = linear(a, b, k * (SCALE / 16));
        assert!(cur >= prev);
        prev = cur;
    }
}

#[test]
fn linear_clamps_outside_the_span() {
    let a = point(0, 100);
    let b = point(SCALE, 200);
    assert_eq!(linear(a, b, -SCALE), 100);
    assert_eq!(linear(a, b, 3 * SCALE), 200);
}

#[test]
fn stepped_holds_first_value_inverse_second() {
    let a = point(0, 42);
    let b = point(SCALE, 77);
    assert_eq!(stepped(a), 42);
    assert_eq!(inverse_stepped(b), 77);
}

#[test]
fn bezier_hits_first_and_last_control_values() {
    let p0 = point(0, 500);
    let p1 = point(SCALE / 3, 800);
    let p2 = point(2 * (SCALE / 3), -100);
    let p3 = point(SCALE, 1500);
    assert_eq!(bezier(p0, p1, p2, p3, 0), 500);
    assert_eq!(bezier(p0, p1, p2, p3, SCALE / 3), 1500);
}

#[test]
fn decode_one_linear_segment_and_evaluate() {
    let mut data = empty_data();
    let flat: Vec<i64> = vec![0, 0, 0, SCALE, SCALE as i64];
    let r = data.push_curve(
        MotionCurveTarget::Parameter,
        "p".to_string(),
        &flat,
        None,
        None,
    );
    assert!(r.is_ok());
    let curve = data.curves[0].clone();
    assert_eq!(curve.segment_count, 1);
    assert_eq!(curve.point_count, 2);
    assert_eq!(data.points.len(), 2);
    assert_eq!(data.segments.len(), 1);
    assert_eq!(data.evaluate_curve(&curve, SCALE / 4), (SCALE / 4) as i128);
    // at and past the end of the curve: the last point's value
    assert_eq!(data.evaluate_curve(&curve, SCALE), SCALE as i128);
    assert_eq!(data.evaluate_curve(&curve, 5 * SCALE), SCALE as i128);
}

#[test]
fn decode_counts_match_the_stream() {
    // lead + linear + bezier + stepped: 2 + 3 + 7 + 3 numbers
    let s = SCALE;
    let flat: Vec<i64> = vec![
        0,
        0,
        0,
        s,
        100,
        s,
        s + s / 4,
        150,
        s + s / 2,
        160,
        2 * s,
        200,
        2 * s,
        3 * s,
        300,
    ];
    assert_eq!(flat.len(), 2 + 3 + 7 + 3);
    let mut data = empty_data();
    let r = data.push_curve(
        MotionCurveTarget::Parameter,
        "p".to_string(),
        &flat,
        None,
        None,
    );
    assert!(r.is_ok());
    let curve = &data.curves[0];
    assert_eq!(curve.segment_count, 3);
    assert_eq!(curve.point_count, 1 + 1 + 3 + 1);
    assert_eq!(data.segments[0].segment_type, SegmentType::Linear);
    assert_eq!(data.segments[1].segment_type, SegmentType::Bezier);
    assert_eq!(data.segments[2].segment_type, SegmentType::Stepped);
    // round trip: the count re-derived from the stream alone agrees
    assert_eq!(derive_segment_count(&flat), Some(curve.segment_count));
}

#[test]
fn decode_rejects_unknown_segment_type() {
    let mut data = empty_data();
    let flat: Vec<i64> = vec![0, 0, 7, SCALE, 100];
    let r = data.push_curve(
        MotionCurveTarget::Parameter,
        "p".to_string(),
        &flat,
        None,
        None,
    );
    assert_eq!(r, Err(DecodeError::UnknownSegmentType));
    assert_eq!(data.curves.len(), 0);
    assert_eq!(data.points.len(), 0);
}

#[test]
fn decode_rejects_truncated_streams() {
    let mut data = empty_data();
    let r = data.push_curve(
        MotionCurveTarget::Parameter,
        "p".to_string(),
        &vec![0],
        None,
        None,
    );
    assert_eq!(r, Err(DecodeError::TruncatedStream));
    let r = data.push_curve(
        MotionCurveTarget::Parameter,
        "p".to_string(),
        &vec![0, 0, 0, SCALE],
        None,
        None,
    );
    assert_eq!(r, Err(DecodeError::TruncatedStream));
    let r = data.push_curve(
        MotionCurveTarget::Parameter,
        "p".to_string(),
        &vec![0, 0, SCALE, SCALE, 1, 2, 3],
        None,
        None,
    );
    assert_eq!(r, Err(DecodeError::TruncatedStream));
}

#[test]
fn decode_rejects_out_of_range_values() {
    let mut data = empty_data();
    let r = data.push_curve(
        MotionCurveTarget::Parameter,
        "p".to_string(),
        &vec![0, 99_999_999_999],
        None,
        None,
    );
    assert_eq!(r, Err(DecodeError::ValueOutOfRange));
}

#[test]
fn decode_rejects_empty_spans() {
    let mut data = empty_data();
    // a linear segment whose end point time does not advance
    let r = data.push_curve(
        MotionCurveTarget::Parameter,
        "p".to_string(),
        &vec![0, 0, 0, 0, 5],
        None,
        None,
    );
    assert_eq!(r, Err(DecodeError::EmptySpan));
}

#[test]
fn decode_stepped_span_may_repeat_times() {
    let mut data = empty_data();
    // stepped segments divide by nothing, so an equal time is fine
    let r = data.push_curve(
        MotionCurveTarget::Parameter,
        "p".to_string(),
        &vec![0, 10, 2 * SCALE, 0, 20],
        None,
        None,
    );
    assert!(r.is_ok());
    let curve = data.curves[0].clone();
    assert_eq!(data.evaluate_curve(&curve, -SCALE), 10);
}

#[test]
fn curve_with_only_a_lead_point_holds_it() {
    let mut data = empty_data();
    let r = data.push_curve(
        MotionCurveTarget::Parameter,
        "p".to_string(),
        &vec![0, 321],
        None,
        None,
    );
    assert!(r.is_ok());
    let curve = data.curves[0].clone();
    assert_eq!(curve.segment_count, 0);
    assert_eq!(data.evaluate_curve(&curve, 0), 321);
    assert_eq!(data.evaluate_curve(&curve, 100 * SCALE), 321);
}

#[test]
fn two_curves_share_the_pools_without_interference() {
    let mut data = empty_data();
    data.push_curve(
        MotionCurveTarget::Parameter,
        "a".to_string(),
        &vec![0, 11, 0, SCALE, 22],
        None,
        None,
    )
    .unwrap();
    data.push_curve(
        MotionCurveTarget::PartOpacity,
        "b".to_string(),
        &vec![0, 33, 3 * SCALE, SCALE, 44],
        None,
        None,
    )
    .unwrap();
    let a = data.curves[0].clone();
    let b = data.curves[1].clone();
    assert_eq!(data.evaluate_curve(&a, 0), 11);
    assert_eq!(data.evaluate_curve(&a, SCALE), 22);
    // inverse stepped: the second point's value throughout the span
    assert_eq!(data.evaluate_curve(&b, 0), 44);
    assert_eq!(data.evaluate_curve(&b, SCALE), 44);
}
