//! The motion curve engine: typed interpolation segments over keyframe
//! points, and evaluation of a curve at an arbitrary time offset.
//!
//! A motion stores one flat pool of points and one flat pool of segments;
//! each curve addresses a contiguous run of both. A segment stores only
//! the index of its first point; how many trailing points it owns is
//! implied by its type.

use vstd::prelude::*;

verus! {

use crate::fixed::{
    COORD_MAX, EVAL_MAX, SCALE, TIME_ARG_MAX, LERP_ARG_MAX, LERP_GROWTH,
    spec_lerp, spec_progress, lerp_fixed, progress_fixed, lemma_lerp_bound,
};

/// Interpolation rule of one segment.
#[derive(Debug, Copy, Clone, PartialEq, Eq, Structural)]
pub enum SegmentType {
    Linear,
    Bezier,
    Stepped,
    InverseStepped,
}

impl SegmentType {
    /// Number of points a segment of this type adds after its base point.
    pub open spec fn spec_trailing(self) -> int {
        match self {
            SegmentType::Bezier => 3,
            _ => 1,
        }
    }

    /// Number of points a segment of this type adds after its base point.
    pub fn trailing_points(self) -> (n: usize)
        ensures
            n == self.spec_trailing(),
    {
        match self {
            SegmentType::Bezier => 3,
            _ => 1,
        }
    }
}

/// Which external sink an evaluated curve value is routed to.
#[derive(Debug, Copy, Clone, PartialEq, Eq, Structural)]
pub enum MotionCurveTarget {
    Model,
    Parameter,
    PartOpacity,
}

/// One keyframe: a fixed-point time and the value held there.
#[derive(Debug, Copy, Clone, PartialEq, Eq, Structural)]
pub struct MotionPoint {
    pub time: i64,
    pub value: i64,
}

impl MotionPoint {
    /// Both coordinates stay within the fixed-point working range.
    pub open spec fn bounded(self) -> bool {
        &&& -COORD_MAX <= self.time <= COORD_MAX
        &&& -COORD_MAX <= self.value <= COORD_MAX
    }
}

/// One interpolation span: its first point and its rule.
#[derive(Debug, Copy, Clone, PartialEq, Eq, Structural)]
pub struct MotionSegment {
    pub base_point_index: usize,
    pub segment_type: SegmentType,
}

/// Linear interpolation between two keyframes; progress is clamped
/// into `[0, 1]`.
pub open spec fn spec_linear(a: MotionPoint, b: MotionPoint, t: int) -> int {
    let u = spec_progress(t, a.time as int, b.time as int);
    spec_lerp(
        a.value as int,
        b.value as int,
        if u > SCALE as int {
            SCALE as int
        } else {
            u
        },
    )
}

/// Cubic De Casteljau interpolation over four control values; progress
/// runs over the span of the first two control points, is clamped below
/// at zero, and extrapolates past the span's end.
pub open spec fn spec_bezier(
    p0: MotionPoint,
    p1: MotionPoint,
    p2: MotionPoint,
    p3: MotionPoint,
    t: int,
) -> int {
    let u = spec_progress(t, p0.time as int, p1.time as int);
    let v01 = spec_lerp(p0.value as int, p1.value as int, u);
    let v12 = spec_lerp(p1.value as int, p2.value as int, u);
    let v23 = spec_lerp(p2.value as int, p3.value as int, u);
    let v012 = spec_lerp(v01, v12, u);
    let v123 = spec_lerp(v12, v23, u);
    spec_lerp(v012, v123, u)
}

/// Evaluate a linear segment at `time`.
pub fn linear(p0: MotionPoint, p1: MotionPoint, time: i64) -> (r: i128)
    requires
        p0.bounded(),
        p1.bounded(),
        p0.time < p1.time,
        -TIME_ARG_MAX <= time <= TIME_ARG_MAX,
    ensures
        r == spec_linear(p0, p1, time as int),
        -COORD_MAX <= r <= COORD_MAX,
{
    let u = progress_fixed(time, p0.time, p1.time);
    let u = if u > SCALE as i128 {
        SCALE as i128
    } else {
        u
    };
    let r = lerp_fixed(p0.value as i128, p1.value as i128, u);
    proof {
        lemma_lerp_in_range(p0.value as int, p1.value as int, u as int);
    }
    r
}

/// A lerp with progress inside `[0, SCALE]` stays between its endpoints.
proof fn lemma_lerp_in_range(a: int, b: int, u: int)
    requires
        0 <= u <= SCALE as int,
    ensures
        b >= a ==> a <= spec_lerp(a, b, u) <= b,
        b <= a ==> b <= spec_lerp(a, b, u) <= a,
{
    let s = SCALE as int;
    let p = (b - a) * u;
    if b >= a {
        assert(0 <= p <= (b - a) * s) by (nonlinear_arith)
            requires
                p == (b - a) * u,
                0 <= u <= s,
                b >= a,
        ;
        vstd::arithmetic::div_mod::lemma_div_is_ordered(0, p, s);
        vstd::arithmetic::div_mod::lemma_div_is_ordered(p, (b - a) * s, s);
        vstd::arithmetic::div_mod::lemma_div_of0(s);
        vstd::arithmetic::div_mod::lemma_div_by_multiple(b - a, s);
    } else {
        assert((b - a) * s <= p <= 0) by (nonlinear_arith)
            requires
                p == (b - a) * u,
                0 <= u <= s,
                b < a,
        ;
        vstd::arithmetic::div_mod::lemma_div_is_ordered(p, 0, s);
        vstd::arithmetic::div_mod::lemma_div_is_ordered((b - a) * s, p, s);
        vstd::arithmetic::div_mod::lemma_div_of0(s);
        vstd::arithmetic::div_mod::lemma_div_multiples_vanish(b - a, s);
        assert((b - a) * s == s * (b - a)) by (nonlinear_arith);
    }
}

/// Evaluate a bezier segment at `time`.
pub fn bezier(
    p0: MotionPoint,
    p1: MotionPoint,
    p2: MotionPoint,
    p3: MotionPoint,
    time: i64,
) -> (r: i128)
    requires
        p0.bounded(),
        p1.bounded(),
        p2.bounded(),
        p3.bounded(),
        p0.time < p1.time,
        -TIME_ARG_MAX <= time <= TIME_ARG_MAX,
    ensures
        r == spec_bezier(p0, p1, p2, p3, time as int),
        -EVAL_MAX <= r <= EVAL_MAX,
{
    let u = progress_fixed(time, p0.time, p1.time);
    let ghost m1: int = COORD_MAX * LERP_GROWTH;
    let ghost m2: int = m1 * LERP_GROWTH;
    let v01 = lerp_fixed(p0.value as i128, p1.value as i128, u);
    let v12 = lerp_fixed(p1.value as i128, p2.value as i128, u);
    let v23 = lerp_fixed(p2.value as i128, p3.value as i128, u);
    proof {
        lemma_lerp_bound(p0.value as int, p1.value as int, u as int, COORD_MAX as int);
        lemma_lerp_bound(p1.value as int, p2.value as int, u as int, COORD_MAX as int);
        lemma_lerp_bound(p2.value as int, p3.value as int, u as int, COORD_MAX as int);
        assert(m1 <= LERP_ARG_MAX);
    }
    let v012 = lerp_fixed(v01, v12, u);
    let v123 = lerp_fixed(v12, v23, u);
    proof {
        lemma_lerp_bound(v01 as int, v12 as int, u as int, m1);
        lemma_lerp_bound(v12 as int, v23 as int, u as int, m1);
        assert(m2 == LERP_ARG_MAX);
    }
    lerp_fixed(v012, v123, u)
}

/// A lerp at progress zero returns its first operand exactly.
proof fn lemma_lerp_at_zero(a: int, b: int)
    ensures
        spec_lerp(a, b, 0) == a,
{
    vstd::arithmetic::div_mod::lemma_div_of0(SCALE as int);
}

/// A lerp at progress `SCALE` returns its second operand exactly.
proof fn lemma_lerp_at_one(a: int, b: int)
    ensures
        spec_lerp(a, b, SCALE as int) == b,
{
    let s = SCALE as int;
    vstd::arithmetic::div_mod::lemma_div_multiples_vanish(b - a, s);
    assert((b - a) * s == s * (b - a)) by (nonlinear_arith);
}

/// Law: within a linear segment's span, interpolation is exactly the first
/// value at the span's start and exactly the second at its end.
pub proof fn lemma_linear_endpoints(a: MotionPoint, b: MotionPoint)
    requires
        a.bounded(),
        b.bounded(),
        a.time < b.time,
    ensures
        spec_linear(a, b, a.time as int) == a.value,
        spec_linear(a, b, b.time as int) == b.value,
{
    let s = SCALE as int;
    let d = b.time - a.time;
    vstd::arithmetic::div_mod::lemma_div_of0(d as int);
    assert(spec_progress(a.time as int, a.time as int, b.time as int) == 0);
    lemma_lerp_at_zero(a.value as int, b.value as int);
    vstd::arithmetic::div_mod::lemma_div_multiples_vanish(s, d as int);
    assert((b.time - a.time) * s == d * s == (d as int) * s) by (nonlinear_arith)
        requires
            d == b.time - a.time,
    ;
    assert(spec_progress(b.time as int, a.time as int, b.time as int) == s);
    lemma_lerp_at_one(a.value as int, b.value as int);
}

/// Law: within a linear segment's span, interpolation is monotonic and
/// stays between the two endpoint values.
pub proof fn lemma_linear_monotonic(a: MotionPoint, b: MotionPoint, t1: int, t2: int)
    requires
        a.bounded(),
        b.bounded(),
        a.time < b.time,
        a.time <= t1 <= t2 <= b.time,
    ensures
        a.value <= b.value ==> a.value <= spec_linear(a, b, t1) <= spec_linear(a, b, t2)
            <= b.value,
        a.value >= b.value ==> a.value >= spec_linear(a, b, t1) >= spec_linear(a, b, t2)
            >= b.value,
{
    let s = SCALE as int;
    let d = b.time - a.time;
    let u1 = spec_progress(t1, a.time as int, b.time as int);
    let u2 = spec_progress(t2, a.time as int, b.time as int);
    assert((t1 - a.time) * s <= (t2 - a.time) * s <= d * s) by (nonlinear_arith)
        requires
            a.time <= t1 <= t2 <= b.time,
            d == b.time - a.time,
            s == SCALE as int,
    ;
    vstd::arithmetic::div_mod::lemma_div_is_ordered((t1 - a.time) * s, (t2 - a.time) * s, d as int);
    vstd::arithmetic::div_mod::lemma_div_is_ordered((t2 - a.time) * s, d * s, d as int);
    vstd::arithmetic::div_mod::lemma_div_multiples_vanish(s, d as int);
    assert(d * s == (d as int) * s) by (nonlinear_arith);
    assert(0 <= u1 <= u2 <= s);
    lemma_lerp_ordered(a.value as int, b.value as int, u1, u2);
    lemma_lerp_in_range(a.value as int, b.value as int, u1);
    lemma_lerp_in_range(a.value as int, b.value as int, u2);
}

/// A lerp is monotonic in its progress argument, rising toward `b` when
/// `b >= a` and falling when `b <= a`.
proof fn lemma_lerp_ordered(a: int, b: int, u1: int, u2: int)
    requires
        0 <= u1 <= u2,
    ensures
        b >= a ==> spec_lerp(a, b, u1) <= spec_lerp(a, b, u2),
        b <= a ==> spec_lerp(a, b, u1) >= spec_lerp(a, b, u2),
{
    let s = SCALE as int;
    if b > a {
        assert((b - a) * u1 <= (b - a) * u2) by (nonlinear_arith)
            requires
                0 <= u1 <= u2,
                b > a,
        ;
        vstd::arithmetic::div_mod::lemma_div_is_ordered((b - a) * u1, (b - a) * u2, s);
    } else if b < a {
        assert((b - a) * u2 <= (b - a) * u1) by (nonlinear_arith)
            requires
                0 <= u1 <= u2,
                b < a,
        ;
        vstd::arithmetic::div_mod::lemma_div_is_ordered((b - a) * u2, (b - a) * u1, s);
    } else {
        assert((b - a) * u1 == 0 && (b - a) * u2 == 0) by (nonlinear_arith)
            requires
                b == a,
        ;
        vstd::arithmetic::div_mod::lemma_div_of0(s);
    }
}

/// Law: bezier interpolation returns the first control point's value at
/// the start of its progress span and the last control point's value at
/// the span's end.
pub proof fn lemma_bezier_endpoints(
    p0: MotionPoint,
    p1: MotionPoint,
    p2: MotionPoint,
    p3: MotionPoint,
)
    requires
        p0.time < p1.time,
    ensures
        spec_bezier(p0, p1, p2, p3, p0.time as int) == p0.value,
        spec_bezier(p0, p1, p2, p3, p1.time as int) == p3.value,
{
    let s = SCALE as int;
    let d = p1.time - p0.time;
    vstd::arithmetic::div_mod::lemma_div_of0(d as int);
    assert(spec_progress(p0.time as int, p0.time as int, p1.time as int) == 0);
    lemma_lerp_at_zero(p0.value as int, p1.value as int);
    lemma_lerp_at_zero(p1.value as int, p2.value as int);
    lemma_lerp_at_zero(p2.value as int, p3.value as int);
    vstd::arithmetic::div_mod::lemma_div_multiples_vanish(s, d as int);
    assert((p1.time - p0.time) * s == (d as int) * s) by (nonlinear_arith)
        requires
            d == p1.time - p0.time,
    ;
    assert(spec_progress(p1.time as int, p0.time as int, p1.time as int) == s);
    lemma_lerp_at_one(p0.value as int, p1.value as int);
    lemma_lerp_at_one(p1.value as int, p2.value as int);
    lemma_lerp_at_one(p2.value as int, p3.value as int);
}

/// Law: a stepped segment holds its first point's value at every time
/// offset, an inverse-stepped segment its second; neither reads the time.
pub proof fn lemma_step_constant(s: MotionSegment, points: Seq<MotionPoint>, t1: int, t2: int)
    ensures
        s.segment_type == SegmentType::Stepped ==> s.spec_evaluate(points, t1) == s.spec_evaluate(
            points,
            t2,
        ) && s.spec_evaluate(points, t1) == points[s.base_point_index as int].value,
        s.segment_type == SegmentType::InverseStepped ==> s.spec_evaluate(points, t1)
            == s.spec_evaluate(points, t2) && s.spec_evaluate(points, t1) == points[
            s.base_point_index + 1
        ].value,
{
}

/// Evaluate a stepped segment: the first point's value, whatever `time` is.
pub fn stepped(p0: MotionPoint) -> (r: i128)
    ensures
        r == p0.value as int,
{
    p0.value as i128
}

/// Evaluate an inverse-stepped segment: the second point's value,
/// whatever `time` is.
pub fn inverse_stepped(p1: MotionPoint) -> (r: i128)
    ensures
        r == p1.value as int,
{
    p1.value as i128
}

impl MotionSegment {
    /// The points a segment reads lie in the pool and are usable: bounded,
    /// and spanning a positive time range where interpolation divides by it.
    pub open spec fn usable(self, points: Seq<MotionPoint>) -> bool {
        &&& self.base_point_index + self.segment_type.spec_trailing() < points.len()
        &&& forall|i: int|
            self.base_point_index <= i <= self.base_point_index
                + self.segment_type.spec_trailing() ==> (#[trigger] points[i]).bounded()
        &&& (self.segment_type == SegmentType::Linear || self.segment_type == SegmentType::Bezier
            ==> points[self.base_point_index as int].time < points[
            self.base_point_index + 1
        ].time)
    }

    /// Value of this segment at `t`, by its interpolation rule.
    pub open spec fn spec_evaluate(self, points: Seq<MotionPoint>, t: int) -> int {
        let b = self.base_point_index as int;
        match self.segment_type {
            SegmentType::Linear => spec_linear(points[b], points[b + 1], t),
            SegmentType::Bezier => spec_bezier(
                points[b],
                points[b + 1],
                points[b + 2],
                points[b + 3],
                t,
            ),
            SegmentType::Stepped => points[b].value as int,
            SegmentType::InverseStepped => points[b + 1].value as int,
        }
    }

    /// Evaluate this segment against the point pool at time `t`.
    pub fn evaluate(&self, p: &Vec<MotionPoint>, t: i64) -> (r: i128)
        requires
            self.usable(p@),
            -TIME_ARG_MAX <= t <= TIME_ARG_MAX,
        ensures
            r == self.spec_evaluate(p@, t as int),
            -EVAL_MAX <= r <= EVAL_MAX,
    {
        let b = self.base_point_index;
        let st = self.segment_type;
        let n = p.len();
        proof {
            assert(b + st.spec_trailing() < n);
            assert(st.spec_trailing() >= 1);
        }
        match st {
            SegmentType::Linear => linear(p[b], p[b + 1], t),
            SegmentType::Bezier => bezier(p[b], p[b + 1], p[b + 2], p[b + 3], t),
            SegmentType::Stepped => stepped(p[b]),
            SegmentType::InverseStepped => inverse_stepped(p[b + 1]),
        }
    }
}

/// One animated scalar target over time: a run of segments in the motion's
/// segment pool, and where its keyframes lie in the point pool.
#[derive(Debug, Clone)]
pub struct MotionCurve {
    pub target: MotionCurveTarget,
    pub id: String,
    pub base_segment_index: usize,
    pub segment_count: usize,
    pub base_point_index: usize,
    pub point_count: usize,
    pub fade_in_time: Option<i64>,
    pub fade_out_time: Option<i64>,
}

/// A user-data event fired at a time offset; carried through, never
/// evaluated.
#[derive(Debug, Clone)]
pub struct MotionEvent {
    pub fire_time: i64,
    pub value: String,
}

/// Decoded curves, segments and keyframe points of one motion, plus its
/// timing metadata.
#[derive(Debug, Clone)]
pub struct MotionData {
    pub duration: i64,
    pub is_loop: bool,
    pub fps: i64,
    pub curves: Vec<MotionCurve>,
    pub segments: Vec<MotionSegment>,
    pub points: Vec<MotionPoint>,
    pub events: Vec<MotionEvent>,
}

impl MotionData {
    /// Index of the end point of segment `i`: its base point plus its
    /// trailing points.
    pub open spec fn end_point_index(self, i: int) -> int {
        self.segments[i].base_point_index + self.segments[i].segment_type.spec_trailing()
    }

    /// A curve addresses a contiguous run of segments whose point runs
    /// tile the curve's own point run: each segment starts at the end
    /// point of the one before it.
    pub open spec fn curve_wf(self, c: MotionCurve) -> bool {
        &&& (c.fade_in_time matches Some(s) ==> s <= COORD_MAX)
        &&& (c.fade_out_time matches Some(s) ==> s <= COORD_MAX)
        &&& c.base_segment_index + c.segment_count <= self.segments.len()
        &&& 1 <= c.point_count
        &&& c.base_point_index + c.point_count <= self.points.len()
        &&& (c.segment_count == 0 ==> c.point_count == 1)
        &&& (c.segment_count > 0 ==> self.segments[
            c.base_segment_index as int
        ].base_point_index == c.base_point_index)
        &&& (forall|j: int|
            c.base_segment_index <= j < c.base_segment_index + c.segment_count - 1
                ==> self.segments[j + 1].base_point_index == #[trigger] self.end_point_index(j))
        &&& (c.segment_count > 0 ==> c.base_point_index + c.point_count - 1
            == self.end_point_index(c.base_segment_index + c.segment_count - 1))
    }

    /// Every segment of the pool reads valid, bounded points.
    pub open spec fn segments_wf(self) -> bool {
        forall|i: int|
            0 <= i < self.segments.len() ==> (#[trigger] self.segments[i]).usable(self.points@)
    }

    /// The whole store is well formed: bounded timing metadata, usable
    /// segments, and every curve tiling its runs.
    pub open spec fn wf(self) -> bool {
        &&& 0 <= self.duration <= COORD_MAX
        &&& 0 <= self.fps
        &&& self.segments_wf()
        &&& forall|k: int| 0 <= k < self.curves.len() ==> self.curve_wf(#[trigger] self.curves[k])
    }

    /// First segment of `c`, from position `i` on, whose end point lies
    /// strictly past `t`.
    pub open spec fn find_segment_from(self, c: MotionCurve, t: int, i: int) -> Option<int>
        decreases c.base_segment_index + c.segment_count - i,
    {
        if i < c.base_segment_index || c.base_segment_index + c.segment_count <= i {
            None
        } else if self.points[self.end_point_index(i)].time > t {
            Some(i)
        } else {
            self.find_segment_from(c, t, i + 1)
        }
    }

    /// Value of curve `c` at time `t`: the first segment still ahead of
    /// `t` evaluated by its rule, or the curve's last point once `t` is at
    /// or past the end.
    pub open spec fn spec_evaluate_curve(self, c: MotionCurve, t: int) -> int {
        match self.find_segment_from(c, t, c.base_segment_index as int) {
            Some(i) => self.segments[i].spec_evaluate(self.points@, t),
            None => self.points[c.base_point_index + c.point_count - 1].value as int,
        }
    }

    /// Evaluate curve `curve` of this store at time offset `time`.
    pub fn evaluate_curve(&self, curve: &MotionCurve, time: i64) -> (r: i128)
        requires
            self.wf(),
            self.curve_wf(*curve),
            -TIME_ARG_MAX <= time <= TIME_ARG_MAX,
        ensures
            r == self.spec_evaluate_curve(*curve, time as int),
            -EVAL_MAX <= r <= EVAL_MAX,
    {
        let base = curve.base_segment_index;
        let end = base + curve.segment_count;
        let mut i = base;
        let mut target: Option<usize> = None;
        while i < end
            invariant_except_break
                target is None,
                self.find_segment_from(*curve, time as int, base as int)
                    == self.find_segment_from(*curve, time as int, i as int),
            invariant
                self.wf(),
                self.curve_wf(*curve),
                base == curve.base_segment_index,
                end == curve.base_segment_index + curve.segment_count,
                base <= i <= end,
            ensures
                match target {
                    Some(j) => base <= j < end && self.find_segment_from(
                        *curve,
                        time as int,
                        base as int,
                    ) == Some(j as int),
                    None => self.find_segment_from(*curve, time as int, base as int) is None,
                },
            decreases end - i,
        {
            let segment = self.segments[i];
            let point_position = segment.base_point_index + segment.segment_type.trailing_points();
            if self.points[point_position].time > time {
                target = Some(i);
                break ;
            }
            i += 1;
        }
        match target {
            Some(index) => {
                let segment = self.segments[index];
                segment.evaluate(&self.points, time)
            },
            None => self.points[curve.base_point_index + curve.point_count - 1].value as i128,
        }
    }
}

} // verus!
