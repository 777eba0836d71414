//! The parameter bank: named scalar model parameters, each clamped to an
//! externally given range, written by curve evaluation and read out by
//! index in the hot path.

use vstd::prelude::*;

verus! {

use crate::fixed::{COORD_MAX, EVAL_MAX, SCALE, clamp_i64, div_euclid_fixed, spec_clamp};
use crate::text::str_eq;

/// One model parameter: its current value, the range it is clamped to,
/// diagnostic key times, and its stable slot in the external flat
/// parameter array.
#[derive(Debug, Clone)]
pub struct ParamEntry {
    pub id: String,
    pub value: i64,
    pub min: i64,
    pub max: i64,
    pub keys: Vec<i64>,
    pub external_index: usize,
}

impl ParamEntry {
    /// The range is ordered, bounded, and the value sits inside it.
    pub open spec fn wf(self) -> bool {
        &&& -COORD_MAX <= self.min <= self.max <= COORD_MAX
        &&& self.min <= self.value <= self.max
    }
}

/// Mapping from named model parameter to its current clamped value.
#[derive(Debug, Clone)]
pub struct ParameterBank {
    pub entries: Vec<ParamEntry>,
}

/// First entry from position `i` on whose id reads `id`.
pub open spec fn spec_find_entry(s: Seq<ParamEntry>, id: Seq<char>, i: int) -> Option<int>
    decreases s.len() - i,
{
    if i < 0 || i >= s.len() {
        None
    } else if s[i].id@ == id {
        Some(i)
    } else {
        spec_find_entry(s, id, i + 1)
    }
}

/// New value of an entry after blending toward `v` by weight `w` (in
/// `SCALE` units) and clamping into the entry's range.
pub open spec fn spec_blend(prev: int, v: int, w: int) -> int {
    prev + (v - prev) * w / (SCALE as int)
}

impl ParameterBank {
    /// Every entry is well formed.
    pub open spec fn wf(self) -> bool {
        forall|i: int| 0 <= i < self.entries.len() ==> (#[trigger] self.entries@[i]).wf()
    }

    /// An empty bank.
    pub fn new() -> (r: ParameterBank)
        ensures
            r.entries@.len() == 0,
            r.wf(),
    {
        ParameterBank { entries: Vec::new() }
    }

    /// Add one parameter; its starting value is clamped into its range.
    pub fn add(
        &mut self,
        id: String,
        value: i64,
        min: i64,
        max: i64,
        keys: Vec<i64>,
        external_index: usize,
    ) -> (r: bool)
        requires
            old(self).wf(),
        ensures
            r == (-COORD_MAX <= min <= max <= COORD_MAX),
            r ==> final(self).entries@ == old(self).entries@.push(
                ParamEntry {
                    id,
                    value: spec_clamp(value as int, min as int, max as int) as i64,
                    min,
                    max,
                    keys,
                    external_index,
                },
            ),
            !r ==> *final(self) == *old(self),
            final(self).wf(),
    {
        if !(-COORD_MAX <= min && min <= max && max <= COORD_MAX) {
            return false;
        }
        let value = clamp_i64(value, min, max);
        self.entries.push(ParamEntry { id, value, min, max, keys, external_index });
        true
    }

    /// Index of the parameter named `id`, if the bank holds one.
    pub fn find(&self, id: &str) -> (r: Option<usize>)
        ensures
            r matches Some(i) ==> i < self.entries@.len() && spec_find_entry(
                self.entries@,
                id@,
                0,
            ) == Some(i as int),
            r is None ==> spec_find_entry(self.entries@, id@, 0) is None,
    {
        let n = self.entries.len();
        let mut i: usize = 0;
        while i < n
            invariant
                n == self.entries@.len(),
                0 <= i <= n,
                spec_find_entry(self.entries@, id@, 0) == spec_find_entry(
                    self.entries@,
                    id@,
                    i as int,
                ),
            decreases n - i,
        {
            if str_eq(self.entries[i].id.as_str(), id) {
                return Some(i);
            }
            i += 1;
        }
        None
    }

    /// Assign `v` to entry `i`, clamped into the entry's range.
    pub fn assign(&mut self, i: usize, v: i128)
        requires
            old(self).wf(),
            i < old(self).entries@.len(),
        ensures
            final(self).wf(),
            final(self).entries@.len() == old(self).entries@.len(),
            final(self).entries@[i as int] == (ParamEntry {
                value: spec_clamp(
                    v as int,
                    old(self).entries@[i as int].min as int,
                    old(self).entries@[i as int].max as int,
                ) as i64,
                ..old(self).entries@[i as int]
            }),
            forall|j: int|
                0 <= j < old(self).entries@.len() && j != i ==> final(self).entries@[j] == old(
                    self,
                ).entries@[j],
    {
        let min = self.entries[i].min;
        let max = self.entries[i].max;
        let clamped: i64 = if v < min as i128 {
            min
        } else if v > max as i128 {
            max
        } else {
            v as i64
        };
        let entry = &mut self.entries[i];
        entry.value = clamped;
    }

    /// Blend entry `i` toward `v` by weight `w` in `SCALE` units, then
    /// clamp into the entry's range.
    pub fn blend(&mut self, i: usize, v: i128, w: i64)
        requires
            old(self).wf(),
            i < old(self).entries@.len(),
            -EVAL_MAX <= v <= EVAL_MAX,
            0 <= w <= SCALE,
        ensures
            final(self).wf(),
            final(self).entries@.len() == old(self).entries@.len(),
            final(self).entries@[i as int] == (ParamEntry {
                value: spec_clamp(
                    spec_blend(old(self).entries@[i as int].value as int, v as int, w as int),
                    old(self).entries@[i as int].min as int,
                    old(self).entries@[i as int].max as int,
                ) as i64,
                ..old(self).entries@[i as int]
            }),
            forall|j: int|
                0 <= j < old(self).entries@.len() && j != i ==> final(self).entries@[j] == old(
                    self,
                ).entries@[j],
    {
        let prev = self.entries[i].value;
        proof {
            assert(old(self).entries@[i as int].wf());
        }
        proof {
            assert(-(2 * EVAL_MAX) * SCALE <= (v as int - prev as int) * (w as int) <= (2
                * EVAL_MAX) * SCALE) by (nonlinear_arith)
                requires
                    -EVAL_MAX <= v <= EVAL_MAX,
                    -COORD_MAX <= prev <= COORD_MAX,
                    0 <= w <= SCALE,
            ;
        }
        let d = (v - prev as i128) * (w as i128);
        let q = div_euclid_fixed(d, SCALE as i128);
        proof {
            vstd::arithmetic::div_mod::lemma_div_is_ordered(
                -(2 * EVAL_MAX) * (SCALE as int),
                d as int,
                SCALE as int,
            );
            vstd::arithmetic::div_mod::lemma_div_is_ordered(
                d as int,
                (2 * EVAL_MAX) * (SCALE as int),
                SCALE as int,
            );
            vstd::arithmetic::div_mod::lemma_div_multiples_vanish(
                2 * EVAL_MAX,
                SCALE as int,
            );
            vstd::arithmetic::div_mod::lemma_div_multiples_vanish(
                -(2 * EVAL_MAX),
                SCALE as int,
            );
            assert((2 * EVAL_MAX) * (SCALE as int) == (SCALE as int) * (2 * EVAL_MAX))
                by (nonlinear_arith);
            assert(-(2 * EVAL_MAX) * (SCALE as int) == (SCALE as int) * (-(2 * EVAL_MAX)))
                by (nonlinear_arith);
        }
        let blended = prev as i128 + q;
        self.assign(i, blended);
    }
}

} // verus!
