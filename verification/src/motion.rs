//! One named motion: a decoded curve store plus fade timing and weight,
//! and the application of its curves to the parameter banks with fade
//! weighting.
//!
//! The effective weight of a curve at time `t` is
//! `clip.weight * fade_in(t) * fade_out(duration - t)`; each fade factor
//! is an ease curve over the configured fade seconds, a curve override
//! taking precedence over the clip's own setting, and a negative
//! configured value meaning no fade at all. Parameter curves blend toward
//! the evaluated value by that weight; part-opacity curves assign it
//! directly.

use vstd::prelude::*;

verus! {

use crate::bank::{ParamEntry, ParameterBank, spec_blend, spec_find_entry};
use crate::curve::{MotionCurve, MotionCurveTarget, MotionData};
use crate::fixed::{COORD_MAX, EVAL_MAX, SCALE, TIME_ARG_MAX, spec_clamp, div_euclid_fixed};

/// One playable motion: its decoded curves and timing, the clip-level
/// fade seconds (already defaulted, never negative), and its weight in
/// `SCALE` units.
#[derive(Debug, Clone)]
pub struct MotionClip {
    pub data: MotionData,
    pub fade_in_seconds: i64,
    pub fade_out_seconds: i64,
    pub weight: i64,
}

/// Fade seconds as configured for a clip: the file's value where it is
/// present and not negative, else one second.
pub open spec fn spec_default_fade(f: Option<i64>) -> int {
    match f {
        Some(s) => if s >= 0 {
            s as int
        } else {
            SCALE as int
        },
        None => SCALE as int,
    }
}

/// Quadratic ease-in-out over `[0, SCALE]`: zero at the start, `SCALE`
/// at the end, flat at both ends.
pub open spec fn spec_ease(r: int) -> int {
    let s = SCALE as int;
    if r <= s / 2 {
        2 * r * r / s
    } else {
        s - 2 * (s - r) * (s - r) / s
    }
}

/// Fade factor after `x` time units of a fade configured to take `fs`
/// units: full weight immediately when `fs` is not positive, else the
/// ease curve over the elapsed share of the fade.
pub open spec fn spec_fade_factor(x: int, fs: int) -> int {
    if fs <= 0 {
        SCALE as int
    } else {
        spec_ease(spec_clamp(x * (SCALE as int) / fs, 0, SCALE as int))
    }
}

/// Combined weight of a curve: the clip weight scaled by both fade
/// factors.
pub open spec fn spec_combined_weight(weight: int, fi: int, fo: int) -> int {
    (weight * fi / (SCALE as int)) * fo / (SCALE as int)
}

/// Compute `spec_ease` for a progress in `[0, SCALE]`.
pub fn ease(r: i64) -> (e: i64)
    requires
        0 <= r <= SCALE,
    ensures
        e == spec_ease(r as int),
        0 <= e <= SCALE,
{
    let s = SCALE;
    if r <= s / 2 {
        proof {
            lemma_ease_half(r as int);
        }
        2 * r * r / s
    } else {
        proof {
            lemma_ease_half(s as int - r as int);
        }
        s - 2 * (s - r) * (s - r) / s
    }
}

/// For `0 <= r <= SCALE / 2` the eased share `2 r^2 / SCALE` lies in
/// `[0, r]`.
proof fn lemma_ease_half(r: int)
    requires
        0 <= r <= SCALE as int / 2,
    ensures
        0 <= 2 * r * r / (SCALE as int) <= r,
        2 * r * r == (2 * r) * r,
{
    let s = SCALE as int;
    assert(2 * r * r == (2 * r) * r) by (nonlinear_arith);
    assert(0 <= (2 * r) * r <= s * r) by (nonlinear_arith)
        requires
            0 <= r <= s / 2,
            s == SCALE as int,
    ;
    vstd::arithmetic::div_mod::lemma_div_pos_is_pos(2 * r * r, s);
    vstd::arithmetic::div_mod::lemma_div_is_ordered(2 * r * r, s * r, s);
    vstd::arithmetic::div_mod::lemma_div_multiples_vanish(r, s);
}

/// Compute `spec_fade_factor` for a bounded time offset.
pub fn fade_factor(x: i64, fs: i64) -> (f: i64)
    requires
        -2 * TIME_ARG_MAX <= x <= 2 * TIME_ARG_MAX,
        fs <= COORD_MAX,
    ensures
        f == spec_fade_factor(x as int, fs as int),
        0 <= f <= SCALE,
{
    if fs <= 0 {
        return SCALE;
    }
    proof {
        assert(-(2 * TIME_ARG_MAX as int) * (SCALE as int) <= (x as int) * (SCALE as int) <= (2
            * TIME_ARG_MAX as int) * (SCALE as int)) by (nonlinear_arith)
            requires
                -2 * TIME_ARG_MAX <= x <= 2 * TIME_ARG_MAX,
        ;
    }
    let num = (x as i128) * (SCALE as i128);
    let raw = div_euclid_fixed(num, fs as i128);
    let u: i64 = if raw < 0 {
        0
    } else if raw > SCALE as i128 {
        SCALE
    } else {
        raw as i64
    };
    ease(u)
}

/// Compute `spec_combined_weight` of factors in `[0, SCALE]`.
pub fn combined_weight(weight: i64, fi: i64, fo: i64) -> (w: i64)
    requires
        0 <= weight <= SCALE,
        0 <= fi <= SCALE,
        0 <= fo <= SCALE,
    ensures
        w == spec_combined_weight(weight as int, fi as int, fo as int),
        0 <= w <= SCALE,
{
    proof {
        lemma_scaled_product(weight as int, fi as int);
    }
    let a = div_euclid_fixed((weight as i128) * (fi as i128), SCALE as i128);
    proof {
        lemma_scaled_product(a as int, fo as int);
    }
    let b = div_euclid_fixed((a as i128) * (fo as i128), SCALE as i128);
    b as i64
}

/// The product of two factors in `[0, SCALE]`, scaled back down, stays in
/// `[0, SCALE]`.
proof fn lemma_scaled_product(a: int, b: int)
    requires
        0 <= a <= SCALE as int,
        0 <= b <= SCALE as int,
    ensures
        0 <= a * b <= (SCALE as int) * (SCALE as int),
        0 <= a * b / (SCALE as int) <= SCALE as int,
{
    let s = SCALE as int;
    assert(0 <= a * b <= s * s) by (nonlinear_arith)
        requires
            0 <= a <= s,
            0 <= b <= s,
    ;
    vstd::arithmetic::div_mod::lemma_div_pos_is_pos(a * b, s);
    vstd::arithmetic::div_mod::lemma_div_is_ordered(a * b, s * s, s);
    vstd::arithmetic::div_mod::lemma_div_multiples_vanish(s, s);
}

impl MotionClip {
    /// The store is well formed, fades are defaulted and bounded, and the
    /// weight is a share in `[0, SCALE]`.
    pub open spec fn wf(self) -> bool {
        &&& self.data.wf()
        &&& 0 <= self.fade_in_seconds <= COORD_MAX
        &&& 0 <= self.fade_out_seconds <= COORD_MAX
        &&& 0 <= self.weight <= SCALE
    }

    /// Wrap a decoded store into a clip: fades default to one second when
    /// unset or negative, the weight to one.
    pub fn new(data: MotionData, fade_in: Option<i64>, fade_out: Option<i64>) -> (r: MotionClip)
        requires
            data.wf(),
            fade_in matches Some(s) ==> s <= COORD_MAX,
            fade_out matches Some(s) ==> s <= COORD_MAX,
        ensures
            r.data == data,
            r.fade_in_seconds == spec_default_fade(fade_in),
            r.fade_out_seconds == spec_default_fade(fade_out),
            r.weight == SCALE,
            r.wf(),
    {
        let fade_in_seconds = match fade_in {
            Some(s) => if s >= 0 {
                s
            } else {
                SCALE
            },
            None => SCALE,
        };
        let fade_out_seconds = match fade_out {
            Some(s) => if s >= 0 {
                s
            } else {
                SCALE
            },
            None => SCALE,
        };
        MotionClip { data, fade_in_seconds, fade_out_seconds, weight: SCALE }
    }

    /// Fade-in seconds in effect for curve `c`: its override, else the
    /// clip's.
    pub open spec fn spec_fade_in_of(self, c: MotionCurve) -> int {
        match c.fade_in_time {
            Some(s) => s as int,
            None => self.fade_in_seconds as int,
        }
    }

    /// Fade-out seconds in effect for curve `c`: its override, else the
    /// clip's.
    pub open spec fn spec_fade_out_of(self, c: MotionCurve) -> int {
        match c.fade_out_time {
            Some(s) => s as int,
            None => self.fade_out_seconds as int,
        }
    }

    /// Effective weight of curve `c` at time `t`.
    pub open spec fn spec_weight_at(self, c: MotionCurve, t: int) -> int {
        spec_combined_weight(
            self.weight as int,
            spec_fade_factor(t, self.spec_fade_in_of(c)),
            spec_fade_factor(self.data.duration - t, self.spec_fade_out_of(c)),
        )
    }

    /// Evaluate every curve of this clip at time `t` and route the
    /// results into the banks: parameter curves blend by the curve's
    /// effective weight, part-opacity curves assign directly, model
    /// curves are a reserved no-op sink, and a curve whose id the bank
    /// does not hold is skipped.
    pub fn apply(&self, t: i64, params: &mut ParameterBank, parts: &mut ParameterBank)
        requires
            self.wf(),
            old(params).wf(),
            old(parts).wf(),
            -TIME_ARG_MAX <= t <= TIME_ARG_MAX,
        ensures
            final(params).wf(),
            final(parts).wf(),
            (final(params).entries@, final(parts).entries@) == spec_apply_curves(
                *self,
                0,
                t as int,
                old(params).entries@,
                old(parts).entries@,
            ),
    {
        let n = self.data.curves.len();
        let mut k: usize = 0;
        while k < n
            invariant
                self.wf(),
                params.wf(),
                parts.wf(),
                -TIME_ARG_MAX <= t <= TIME_ARG_MAX,
                n == self.data.curves@.len(),
                0 <= k <= n,
                spec_apply_curves(*self, k as int, t as int, params.entries@, parts.entries@)
                    == spec_apply_curves(
                    *self,
                    0,
                    t as int,
                    old(params).entries@,
                    old(parts).entries@,
                ),
            decreases n - k,
        {
            let c = &self.data.curves[k];
            let v = self.data.evaluate_curve(c, t);
            let fi_s = match c.fade_in_time {
                Some(s) => s,
                None => self.fade_in_seconds,
            };
            let fo_s = match c.fade_out_time {
                Some(s) => s,
                None => self.fade_out_seconds,
            };
            let fi = fade_factor(t, fi_s);
            let fo = fade_factor(self.data.duration - t, fo_s);
            let w = combined_weight(self.weight, fi, fo);
            let ghost params_in = params.entries@;
            let ghost parts_in = parts.entries@;
            match c.target {
                MotionCurveTarget::Model => {},
                MotionCurveTarget::Parameter => {
                    match params.find(c.id.as_str()) {
                        Some(i) => {
                            params.blend(i, v, w);
                            proof {
                                assert(params.entries@ =~= params_in.update(
                                    i as int,
                                    ParamEntry {
                                        value: spec_clamp(
                                            spec_blend(
                                                params_in[i as int].value as int,
                                                v as int,
                                                w as int,
                                            ),
                                            params_in[i as int].min as int,
                                            params_in[i as int].max as int,
                                        ) as i64,
                                        ..params_in[i as int]
                                    },
                                ));
                            }
                        },
                        None => {},
                    }
                },
                MotionCurveTarget::PartOpacity => {
                    match parts.find(c.id.as_str()) {
                        Some(i) => {
                            parts.assign(i, v);
                            proof {
                                assert(parts.entries@ =~= parts_in.update(
                                    i as int,
                                    ParamEntry {
                                        value: spec_clamp(
                                            v as int,
                                            parts_in[i as int].min as int,
                                            parts_in[i as int].max as int,
                                        ) as i64,
                                        ..parts_in[i as int]
                                    },
                                ));
                            }
                        },
                        None => {},
                    }
                },
            }
            k += 1;
        }
    }
}

/// Banks after applying curves `k` onward of `clip` at time `t`.
pub open spec fn spec_apply_curves(
    clip: MotionClip,
    k: int,
    t: int,
    params: Seq<ParamEntry>,
    parts: Seq<ParamEntry>,
) -> (Seq<ParamEntry>, Seq<ParamEntry>)
    decreases clip.data.curves.len() - k,
{
    if k < 0 || k >= clip.data.curves.len() {
        (params, parts)
    } else {
        let c = clip.data.curves[k];
        let v = clip.data.spec_evaluate_curve(c, t);
        let w = clip.spec_weight_at(c, t);
        match c.target {
            MotionCurveTarget::Model => spec_apply_curves(clip, k + 1, t, params, parts),
            MotionCurveTarget::Parameter => match spec_find_entry(params, c.id@, 0) {
                Some(i) => {
                    let e = params[i];
                    let nv = spec_clamp(spec_blend(e.value as int, v, w), e.min as int, e.max as int);
                    spec_apply_curves(
                        clip,
                        k + 1,
                        t,
                        params.update(i, ParamEntry { value: nv as i64, ..e }),
                        parts,
                    )
                },
                None => spec_apply_curves(clip, k + 1, t, params, parts),
            },
            MotionCurveTarget::PartOpacity => match spec_find_entry(parts, c.id@, 0) {
                Some(i) => {
                    let e = parts[i];
                    let nv = spec_clamp(v, e.min as int, e.max as int);
                    spec_apply_curves(
                        clip,
                        k + 1,
                        t,
                        params,
                        parts.update(i, ParamEntry { value: nv as i64, ..e }),
                    )
                },
                None => spec_apply_curves(clip, k + 1, t, params, parts),
            },
        }
    }
}

} // verus!
