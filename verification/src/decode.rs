//! Decoding a motion curve's flattened keyframe stream.
//!
//! A flat stream is `[t0, v0, (code, t1, v1[, t2, v2, t3, v3])...]`: one
//! leading point, then one tuple per segment. A bezier tuple carries three
//! trailing points, every other tuple one. Like every other element of the
//! stream, the type codes are fixed-point: the images of 0 (linear),
//! 1 (bezier), 2 (stepped) and 3 (inverse-stepped), so a caller converting
//! a float stream scales every element uniformly. An unknown code, a
//! truncated tuple, an out-of-range coordinate or an empty interpolation
//! span is a fatal decode error, never a silent default.

use vstd::prelude::*;

verus! {

use crate::curve::{MotionCurve, MotionCurveTarget, MotionData, MotionPoint, MotionSegment,
    SegmentType};
use crate::fixed::{COORD_MAX, SCALE};

/// Why a flat keyframe stream was rejected.
#[derive(Debug, Copy, Clone, PartialEq, Eq, Structural)]
pub enum DecodeError {
    /// The stream ends inside a point or segment tuple.
    TruncatedStream,
    /// A segment-type code other than the four known ones.
    UnknownSegmentType,
    /// A time or value outside the fixed-point working range.
    ValueOutOfRange,
    /// A linear or bezier span whose time step is not positive.
    EmptySpan,
}

/// What decoding the tail of a flat stream yields, starting at `pos` with
/// `last` as the most recently decoded point: the segment types and the
/// trailing points they add, in stream order.
pub open spec fn spec_decode_rest(flat: Seq<i64>, pos: int, last: MotionPoint) -> Result<
    (Seq<SegmentType>, Seq<MotionPoint>),
    DecodeError,
>
    decreases flat.len() - pos,
{
    if pos >= flat.len() {
        Ok((Seq::empty(), Seq::empty()))
    } else if flat[pos] == SCALE {
        if pos + 7 > flat.len() {
            Err(DecodeError::TruncatedStream)
        } else {
            let p1 = MotionPoint { time: flat[pos + 1], value: flat[pos + 2] };
            let p2 = MotionPoint { time: flat[pos + 3], value: flat[pos + 4] };
            let p3 = MotionPoint { time: flat[pos + 5], value: flat[pos + 6] };
            if !p1.bounded() || !p2.bounded() || !p3.bounded() {
                Err(DecodeError::ValueOutOfRange)
            } else if last.time >= p1.time {
                Err(DecodeError::EmptySpan)
            } else {
                match spec_decode_rest(flat, pos + 7, p3) {
                    Ok(x) => Ok(
                        (seq![SegmentType::Bezier] + x.0, seq![p1, p2, p3] + x.1),
                    ),
                    Err(e) => Err(e),
                }
            }
        }
    } else if flat[pos] == 0 || flat[pos] == 2 * SCALE || flat[pos] == 3 * SCALE {
        if pos + 3 > flat.len() {
            Err(DecodeError::TruncatedStream)
        } else {
            let st = if flat[pos] == 0 {
                SegmentType::Linear
            } else if flat[pos] == 2 * SCALE {
                SegmentType::Stepped
            } else {
                SegmentType::InverseStepped
            };
            let p = MotionPoint { time: flat[pos + 1], value: flat[pos + 2] };
            if !p.bounded() {
                Err(DecodeError::ValueOutOfRange)
            } else if st == SegmentType::Linear && last.time >= p.time {
                Err(DecodeError::EmptySpan)
            } else {
                match spec_decode_rest(flat, pos + 3, p) {
                    Ok(x) => Ok((seq![st] + x.0, seq![p] + x.1)),
                    Err(e) => Err(e),
                }
            }
        }
    } else {
        Err(DecodeError::UnknownSegmentType)
    }
}

/// What decoding a whole flat stream yields: the segment types, and all
/// points including the leading one.
pub open spec fn spec_decode(flat: Seq<i64>) -> Result<
    (Seq<SegmentType>, Seq<MotionPoint>),
    DecodeError,
> {
    if flat.len() < 2 {
        Err(DecodeError::TruncatedStream)
    } else {
        let lead = MotionPoint { time: flat[0], value: flat[1] };
        if !lead.bounded() {
            Err(DecodeError::ValueOutOfRange)
        } else {
            match spec_decode_rest(flat, 2, lead) {
                Ok(x) => Ok((x.0, seq![lead] + x.1)),
                Err(e) => Err(e),
            }
        }
    }
}

/// Total number of trailing points a run of segments adds.
pub open spec fn sum_trailing(segs: Seq<SegmentType>) -> int
    decreases segs.len(),
{
    if segs.len() == 0 {
        0
    } else {
        sum_trailing(segs.drop_last()) + segs.last().spec_trailing()
    }
}

/// Appending one segment adds its trailing count and leaves every earlier
/// prefix sum unchanged.
proof fn lemma_sum_trailing_push(segs: Seq<SegmentType>, st: SegmentType)
    ensures
        sum_trailing(segs.push(st)) == sum_trailing(segs) + st.spec_trailing(),
        forall|j: int|
            0 <= j <= segs.len() ==> sum_trailing(#[trigger] segs.push(st).take(j))
                == sum_trailing(segs.take(j)),
{
    assert(segs.push(st).drop_last() =~= segs);
    assert forall|j: int| 0 <= j <= segs.len() implies sum_trailing(
        #[trigger] segs.push(st).take(j),
    ) == sum_trailing(segs.take(j)) by {
        assert(segs.push(st).take(j) =~= segs.take(j));
    }
}

/// One step of a prefix sum: taking one more segment adds its trailing
/// count.
proof fn lemma_sum_trailing_take_step(segs: Seq<SegmentType>, j: int)
    requires
        0 <= j < segs.len(),
    ensures
        sum_trailing(segs.take(j + 1)) == sum_trailing(segs.take(j)) + segs[j].spec_trailing(),
{
    assert(segs.take(j + 1).drop_last() =~= segs.take(j));
    assert(segs.take(j + 1).last() == segs[j]);
}

/// Prefix sums of trailing counts grow monotonically up to the total.
proof fn lemma_sum_trailing_take_le(segs: Seq<SegmentType>, i: int, j: int)
    requires
        0 <= i <= j <= segs.len(),
    ensures
        sum_trailing(segs.take(i)) <= sum_trailing(segs.take(j)),
        sum_trailing(segs.take(segs.len() as int)) == sum_trailing(segs),
    decreases j - i,
{
    assert(segs.take(segs.len() as int) =~= segs);
    if i < j {
        lemma_sum_trailing_take_step(segs, i);
        lemma_sum_trailing_take_le(segs, i + 1, j);
    }
}

/// After appending one segment, every earlier segment's point run keeps
/// its offsets, all of them inside the old point run, and the new
/// segment's run starts at what was the last point.
proof fn lemma_step_keeps_runs(
    old_segs: Seq<SegmentType>,
    st: SegmentType,
    old_pts: Seq<MotionPoint>,
    new_pts: Seq<MotionPoint>,
)
    requires
        old_pts.len() >= 1,
        sum_trailing(old_segs) == old_pts.len() - 1,
        new_pts.len() == old_pts.len() + st.spec_trailing(),
        forall|k: int| 0 <= k < old_pts.len() ==> new_pts[k] == old_pts[k],
    ensures
        forall|j: int|
            0 <= j <= old_segs.len() ==> 0 <= sum_trailing(#[trigger] old_segs.push(st).take(j))
                <= old_pts.len() - 1,
        forall|j: int|
            0 <= j < old_segs.len() ==> sum_trailing(#[trigger] old_segs.push(st).take(j)) + 1
                <= old_pts.len() - 1,
        sum_trailing(old_segs.push(st).take(old_segs.len() as int)) == old_pts.len() - 1,
        forall|j: int|
            0 <= j <= old_segs.len() ==> new_pts[sum_trailing(
                #[trigger] old_segs.push(st).take(j),
            )] == old_pts[sum_trailing(old_segs.push(st).take(j))],
        forall|j: int|
            0 <= j < old_segs.len() ==> new_pts[sum_trailing(#[trigger] old_segs.push(st).take(j))
                + 1] == old_pts[sum_trailing(old_segs.push(st).take(j)) + 1],
{
    lemma_sum_trailing_push(old_segs, st);
    assert(old_segs.push(st).take(old_segs.len() as int) =~= old_segs);
    assert(sum_trailing(old_segs.take(old_segs.len() as int)) == sum_trailing(old_segs)) by {
        assert(old_segs.take(old_segs.len() as int) =~= old_segs);
    }
    assert forall|j: int| 0 <= j <= old_segs.len() implies 0 <= sum_trailing(
        #[trigger] old_segs.push(st).take(j),
    ) <= old_pts.len() - 1 by {
        lemma_sum_trailing_take_le(old_segs, 0, j);
        lemma_sum_trailing_take_le(old_segs, j, old_segs.len() as int);
        assert(old_segs.take(0) =~= Seq::<SegmentType>::empty());
    }
    assert forall|j: int| 0 <= j < old_segs.len() implies sum_trailing(
        #[trigger] old_segs.push(st).take(j),
    ) + 1 <= old_pts.len() - 1 by {
        lemma_sum_trailing_take_le(old_segs, 0, j);
        lemma_sum_trailing_take_step(old_segs, j);
        lemma_sum_trailing_take_le(old_segs, j + 1, old_segs.len() as int);
        assert(old_segs.take(0) =~= Seq::<SegmentType>::empty());
    }
}

/// Splice a decoded prefix in front of the result of decoding the rest.
pub open spec fn decode_prepend(
    segs: Seq<SegmentType>,
    pts: Seq<MotionPoint>,
    r: Result<(Seq<SegmentType>, Seq<MotionPoint>), DecodeError>,
) -> Result<(Seq<SegmentType>, Seq<MotionPoint>), DecodeError> {
    match r {
        Ok(x) => Ok((segs + x.0, pts + x.1)),
        Err(e) => Err(e),
    }
}

/// Re-derive how many segments a flat stream encodes from the stream
/// alone, walking the segment-type codes and skipping each tuple.
pub open spec fn spec_derive_segment_count(flat: Seq<i64>, pos: int) -> Option<int>
    decreases flat.len() - pos,
{
    if pos >= flat.len() {
        Some(0)
    } else if flat[pos] == SCALE {
        if pos + 7 <= flat.len() {
            match spec_derive_segment_count(flat, pos + 7) {
                Some(c) => Some(1 + c),
                None => None,
            }
        } else {
            None
        }
    } else if flat[pos] == 0 || flat[pos] == 2 * SCALE || flat[pos] == 3 * SCALE {
        if pos + 3 <= flat.len() {
            match spec_derive_segment_count(flat, pos + 3) {
                Some(c) => Some(1 + c),
                None => None,
            }
        } else {
            None
        }
    } else {
        None
    }
}

proof fn lemma_decode_rest_count(flat: Seq<i64>, pos: int, last: MotionPoint)
    requires
        spec_decode_rest(flat, pos, last) is Ok,
    ensures
        spec_derive_segment_count(flat, pos) == Some(
            spec_decode_rest(flat, pos, last)->Ok_0.0.len() as int,
        ),
    decreases flat.len() - pos,
{
    if pos >= flat.len() {
    } else if flat[pos] == SCALE {
        let p3 = MotionPoint { time: flat[pos + 5], value: flat[pos + 6] };
        lemma_decode_rest_count(flat, pos + 7, p3);
    } else {
        let p = MotionPoint { time: flat[pos + 1], value: flat[pos + 2] };
        lemma_decode_rest_count(flat, pos + 3, p);
    }
}

/// Law: decoding a flat stream and re-deriving the segment count from the
/// stream's type codes alone agree on how many segments it holds.
pub proof fn lemma_decode_round_trip(flat: Seq<i64>)
    requires
        spec_decode(flat) is Ok,
    ensures
        spec_derive_segment_count(flat, 2) == Some(spec_decode(flat)->Ok_0.0.len() as int),
{
    let lead = MotionPoint { time: flat[0], value: flat[1] };
    lemma_decode_rest_count(flat, 2, lead);
}

/// Re-derive, from a flat stream alone, how many segments it encodes;
/// nothing for a stream whose tuple structure is broken.
pub fn derive_segment_count(flat: &Vec<i64>) -> (r: Option<usize>)
    requires
        flat@.len() >= 2,
    ensures
        match r {
            Some(c) => spec_derive_segment_count(flat@, 2) == Some(c as int),
            None => spec_derive_segment_count(flat@, 2) is None,
        },
{
    let n = flat.len();
    let mut pos: usize = 2;
    let mut count: usize = 0;
    while pos < n
        invariant
            n == flat@.len(),
            2 <= pos,
            3 * count <= pos - 2,
            match spec_derive_segment_count(flat@, pos as int) {
                Some(c) => spec_derive_segment_count(flat@, 2) == Some(count + c),
                None => spec_derive_segment_count(flat@, 2) is None,
            },
        decreases n - pos,
    {
        let code = flat[pos];
        if code == SCALE {
            if n - pos < 7 {
                return None;
            }
            pos = pos + 7;
        } else if code == 0 || code == 2 * SCALE || code == 3 * SCALE {
            if n - pos < 3 {
                return None;
            }
            pos = pos + 3;
        } else {
            return None;
        }
        count = count + 1;
    }
    Some(count)
}

/// Whether a point's coordinates stay within the fixed-point working
/// range.
fn point_in_range(p: MotionPoint) -> (r: bool)
    ensures
        r == p.bounded(),
{
    -COORD_MAX <= p.time && p.time <= COORD_MAX && -COORD_MAX <= p.value && p.value <= COORD_MAX
}

impl MotionData {
    /// Decode one curve's flat stream and append its segments and points
    /// to this store, exactly as `spec_decode` describes; on any decode
    /// error the store is left untouched.
    #[verifier::rlimit(100)]
    pub fn push_curve(
        &mut self,
        target: MotionCurveTarget,
        id: String,
        flat: &Vec<i64>,
        fade_in_time: Option<i64>,
        fade_out_time: Option<i64>,
    ) -> (r: Result<(), DecodeError>)
        requires
            fade_in_time matches Some(s) ==> s <= COORD_MAX,
            fade_out_time matches Some(s) ==> s <= COORD_MAX,
            old(self).points@.len() + flat@.len() <= usize::MAX,
            old(self).segments@.len() + flat@.len() <= usize::MAX,
            old(self).curves@.len() < usize::MAX,
        ensures
            match spec_decode(flat@) {
                Ok(x) => {
                    &&& r is Ok
                    &&& final(self).points@ == old(self).points@ + x.1
                    &&& final(self).segments@.len() == old(self).segments@.len() + x.0.len()
                    &&& (forall|j: int|
                        0 <= j < x.0.len() ==> {
                            &&& (#[trigger] final(self).segments@[old(self).segments@.len()
                                + j]).segment_type == x.0[j]
                            &&& final(self).segments@[old(self).segments@.len() + j].base_point_index
                                == old(self).points@.len() + sum_trailing(x.0.take(j))
                        })
                    &&& final(self).curves@ == old(self).curves@.push(
                        MotionCurve {
                            target,
                            id,
                            base_segment_index: old(self).segments@.len() as usize,
                            segment_count: x.0.len() as usize,
                            base_point_index: old(self).points@.len() as usize,
                            point_count: x.1.len() as usize,
                            fade_in_time,
                            fade_out_time,
                        },
                    )
                    &&& final(self).duration == old(self).duration
                    &&& final(self).is_loop == old(self).is_loop
                    &&& final(self).fps == old(self).fps
                    &&& final(self).events@ == old(self).events@
                },
                Err(e) => r == Err::<(), DecodeError>(e) && *final(self) == *old(self),
            },
            old(self).wf() ==> final(self).wf(),
    {
        let n = flat.len();
        if n < 2 {
            return Err(DecodeError::TruncatedStream);
        }
        let lead = MotionPoint { time: flat[0], value: flat[1] };
        if !point_in_range(lead) {
            return Err(DecodeError::ValueOutOfRange);
        }
        let start_points = self.points.len();
        let start_segments = self.segments.len();
        let mut local_points: Vec<MotionPoint> = Vec::new();
        let mut local_segments: Vec<MotionSegment> = Vec::new();
        local_points.push(lead);
        let ghost mut segs: Seq<SegmentType> = Seq::empty();
        proof {
            assert(local_points@ =~= seq![lead]);
            assert(segs + spec_decode_rest(flat@, 2, lead)->Ok_0.0 =~= spec_decode_rest(
                flat@,
                2,
                lead,
            )->Ok_0.0) by {
                if spec_decode_rest(flat@, 2, lead) is Ok {
                }
            }
        }
        let mut pos: usize = 2;
        while pos < n
            invariant
                n == flat@.len(),
                2 <= pos <= n,
                start_points == self.points@.len(),
                start_segments == self.segments@.len(),
                self == old(self),
                self.points@.len() + flat@.len() <= usize::MAX,
                self.segments@.len() + flat@.len() <= usize::MAX,
                local_points@.len() >= 1,
                local_points@[0] == lead,
                pos == 2 + segs.len() + 2 * (local_points@.len() - 1),
                sum_trailing(segs) == local_points@.len() - 1,
                local_segments@.len() == segs.len(),
                forall|j: int|
                    0 <= j < segs.len() ==> {
                        &&& (#[trigger] local_segments@[j]).segment_type == segs[j]
                        &&& local_segments@[j].base_point_index == start_points + sum_trailing(
                            segs.take(j),
                        )
                    },
                forall|k: int| 0 <= k < local_points@.len() ==> (#[trigger] local_points@[k]).bounded(),
                forall|j: int|
                    0 <= j < segs.len() && ((#[trigger] segs[j]) == SegmentType::Linear || segs[j]
                        == SegmentType::Bezier) ==> local_points@[sum_trailing(segs.take(j))].time
                        < local_points@[sum_trailing(segs.take(j)) + 1].time,
                spec_decode(flat@) == decode_prepend(
                    segs,
                    local_points@,
                    spec_decode_rest(flat@, pos as int, local_points@.last()),
                ),
            decreases n - pos,
        {
            let code = flat[pos];
            let last = local_points[local_points.len() - 1];
            if code == SCALE {
                if n - pos < 7 {
                    return Err(DecodeError::TruncatedStream);
                }
                let p1 = MotionPoint { time: flat[pos + 1], value: flat[pos + 2] };
                let p2 = MotionPoint { time: flat[pos + 3], value: flat[pos + 4] };
                let p3 = MotionPoint { time: flat[pos + 5], value: flat[pos + 6] };
                if !point_in_range(p1) || !point_in_range(p2) || !point_in_range(p3) {
                    return Err(DecodeError::ValueOutOfRange);
                }
                if last.time >= p1.time {
                    return Err(DecodeError::EmptySpan);
                }
                let ghost old_segs = segs;
                let ghost old_pts = local_points@;
                local_segments.push(
                    MotionSegment {
                        base_point_index: start_points + (local_points.len() - 1),
                        segment_type: SegmentType::Bezier,
                    },
                );
                local_points.push(p1);
                local_points.push(p2);
                local_points.push(p3);
                proof {
                    segs = segs.push(SegmentType::Bezier);
                    lemma_sum_trailing_push(old_segs, SegmentType::Bezier);
                    assert(old_segs.push(SegmentType::Bezier).take(old_segs.len() as int)
                        =~= old_segs);
                    assert(local_points@ =~= old_pts + seq![p1, p2, p3]);
                    lemma_step_keeps_runs(old_segs, SegmentType::Bezier, old_pts, local_points@);
                    let rest_next = spec_decode_rest(flat@, pos + 7, p3);
                    if rest_next is Ok {
                        let x = rest_next->Ok_0;
                        assert(old_segs + (seq![SegmentType::Bezier] + x.0) =~= segs + x.0);
                        assert(old_pts + (seq![p1, p2, p3] + x.1) =~= local_points@ + x.1);
                    }
                }
                pos = pos + 7;
            } else if code == 0 || code == 2 * SCALE || code == 3 * SCALE {
                if n - pos < 3 {
                    return Err(DecodeError::TruncatedStream);
                }
                let st = if code == 0 {
                    SegmentType::Linear
                } else if code == 2 * SCALE {
                    SegmentType::Stepped
                } else {
                    SegmentType::InverseStepped
                };
                let p = MotionPoint { time: flat[pos + 1], value: flat[pos + 2] };
                if !point_in_range(p) {
                    return Err(DecodeError::ValueOutOfRange);
                }
                if code == 0 && last.time >= p.time {
                    return Err(DecodeError::EmptySpan);
                }
                let ghost old_segs = segs;
                let ghost old_pts = local_points@;
                local_segments.push(
                    MotionSegment {
                        base_point_index: start_points + (local_points.len() - 1),
                        segment_type: st,
                    },
                );
                local_points.push(p);
                proof {
                    segs = segs.push(st);
                    lemma_sum_trailing_push(old_segs, st);
                    assert(old_segs.push(st).take(old_segs.len() as int) =~= old_segs);
                    assert(local_points@ =~= old_pts + seq![p]);
                    lemma_step_keeps_runs(old_segs, st, old_pts, local_points@);
                    let rest_next = spec_decode_rest(flat@, pos + 3, p);
                    if rest_next is Ok {
                        let x = rest_next->Ok_0;
                        assert(old_segs + (seq![st] + x.0) =~= segs + x.0);
                        assert(old_pts + (seq![p] + x.1) =~= local_points@ + x.1);
                    }
                }
                pos = pos + 3;
            } else {
                return Err(DecodeError::UnknownSegmentType);
            }
        }
        proof {
            assert(segs + Seq::<SegmentType>::empty() =~= segs);
            assert(local_points@ + Seq::<MotionPoint>::empty() =~= local_points@);
            assert(spec_decode(flat@) == Ok::<_, DecodeError>((segs, local_points@)));
        }
        let curve = MotionCurve {
            target,
            id,
            base_segment_index: start_segments,
            segment_count: local_segments.len(),
            base_point_index: start_points,
            point_count: local_points.len(),
            fade_in_time,
            fade_out_time,
        };
        let ghost pre = *self;
        let ghost loc_pts = local_points@;
        let ghost loc_segs = local_segments@;
        self.points.append(&mut local_points);
        self.segments.append(&mut local_segments);
        self.curves.push(curve);
        proof {
            lemma_push_curve_wf(pre, *self, segs, loc_pts, loc_segs, curve);
        }
        Ok(())
    }
}

/// Appending a decoded curve's runs preserves well-formedness: the new
/// segments tile the new points, and nothing an old curve reads moved.
proof fn lemma_push_curve_wf(
    pre: MotionData,
    post: MotionData,
    segs: Seq<SegmentType>,
    loc_pts: Seq<MotionPoint>,
    loc_segs: Seq<MotionSegment>,
    curve: MotionCurve,
)
    requires
        curve.fade_in_time matches Some(s) ==> s <= COORD_MAX,
        curve.fade_out_time matches Some(s) ==> s <= COORD_MAX,
        post.points@ == pre.points@ + loc_pts,
        post.segments@ == pre.segments@ + loc_segs,
        post.curves@ == pre.curves@.push(curve),
        post.duration == pre.duration,
        post.is_loop == pre.is_loop,
        post.fps == pre.fps,
        loc_pts.len() >= 1,
        loc_segs.len() == segs.len(),
        sum_trailing(segs) == loc_pts.len() - 1,
        forall|j: int|
            0 <= j < segs.len() ==> {
                &&& (#[trigger] loc_segs[j]).segment_type == segs[j]
                &&& loc_segs[j].base_point_index == pre.points@.len() + sum_trailing(segs.take(j))
            },
        forall|k: int| 0 <= k < loc_pts.len() ==> (#[trigger] loc_pts[k]).bounded(),
        forall|j: int|
            0 <= j < segs.len() && ((#[trigger] segs[j]) == SegmentType::Linear || segs[j]
                == SegmentType::Bezier) ==> loc_pts[sum_trailing(segs.take(j))].time
                < loc_pts[sum_trailing(segs.take(j)) + 1].time,
        curve.base_segment_index == pre.segments@.len(),
        curve.segment_count == segs.len(),
        curve.base_point_index == pre.points@.len(),
        curve.point_count == loc_pts.len(),
    ensures
        pre.wf() ==> post.wf(),
{
    if pre.wf() {
        let pn = pre.points@.len() as int;
        let sn = pre.segments@.len() as int;
        assert forall|j: int| 0 <= j < segs.len() implies {
            &&& sum_trailing(segs.take(j)) + segs[j].spec_trailing() <= sum_trailing(segs)
            &&& sum_trailing(segs.take(j)) >= 0
        } by {
            lemma_sum_trailing_take_step(segs, j);
            lemma_sum_trailing_take_le(segs, 0, j);
            lemma_sum_trailing_take_le(segs, j + 1, segs.len() as int);
            assert(segs.take(0) =~= Seq::<SegmentType>::empty());
        }
        assert forall|i: int| 0 <= i < post.segments@.len() implies (
        #[trigger] post.segments@[i]).usable(post.points@) by {
            if i < sn {
                assert(pre.segments@[i].usable(pre.points@));
                assert forall|k: int|
                    post.segments@[i].base_point_index <= k <= post.segments@[i].base_point_index
                        + post.segments@[i].segment_type.spec_trailing() implies (
                #[trigger] post.points@[k]).bounded() by {
                    assert(post.points@[k] == pre.points@[k]);
                }
            } else {
                let j = i - sn;
                lemma_sum_trailing_take_step(segs, j);
                lemma_sum_trailing_take_le(segs, 0, j);
                lemma_sum_trailing_take_le(segs, j + 1, segs.len() as int);
                let off = sum_trailing(segs.take(j));
                assert forall|k: int|
                    post.segments@[i].base_point_index <= k <= post.segments@[i].base_point_index
                        + post.segments@[i].segment_type.spec_trailing() implies (
                #[trigger] post.points@[k]).bounded() by {
                    assert(post.points@[k] == loc_pts[k - pn]);
                }
                assert(post.points@[pn + off] == loc_pts[off]);
                assert(post.points@[pn + off + 1] == loc_pts[off + 1]);
            }
        }
        assert forall|k: int| 0 <= k < post.curves@.len() implies post.curve_wf(
            #[trigger] post.curves@[k],
        ) by {
            if k < pre.curves@.len() {
                let c = pre.curves@[k];
                assert(pre.curve_wf(c));
                assert(post.curves@[k] == c);
                assert forall|j: int|
                    c.base_segment_index <= j < c.base_segment_index + c.segment_count - 1 implies
                    post.segments@[j + 1].base_point_index == #[trigger] post.end_point_index(
                    j,
                ) by {
                    assert(post.segments@[j] == pre.segments@[j]);
                    assert(post.segments@[j + 1] == pre.segments@[j + 1]);
                    assert(pre.segments@[j + 1].base_point_index == pre.end_point_index(j));
                }
                if c.segment_count > 0 {
                    assert(post.segments@[c.base_segment_index as int] == pre.segments@[
                        c.base_segment_index as int]);
                    assert(post.end_point_index(c.base_segment_index + c.segment_count - 1)
                        == pre.end_point_index(c.base_segment_index + c.segment_count - 1));
                }
            } else {
                assert(post.curves@[k] == curve);
                assert forall|j: int|
                    curve.base_segment_index <= j < curve.base_segment_index + curve.segment_count
                        - 1 implies post.segments@[j + 1].base_point_index
                    == #[trigger] post.end_point_index(j) by {
                    lemma_sum_trailing_take_step(segs, j - sn);
                }
                if curve.segment_count > 0 {
                    assert(segs.take(0) =~= Seq::<SegmentType>::empty());
                    let l = segs.len() - 1;
                    lemma_sum_trailing_take_step(segs, l);
                    lemma_sum_trailing_take_le(segs, l + 1, segs.len() as int);
                    assert(post.end_point_index(curve.base_segment_index + curve.segment_count - 1)
                        == pn + sum_trailing(segs));
                }
            }
        }
    }
}

} // verus!
