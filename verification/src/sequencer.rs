//! The animation sequencer: a table of named motions, a FIFO of pending
//! motion identities, the current motion's play state, and a guaranteed
//! idle fallback.
//!
//! A motion is addressed by a `(class, name)` pair; within a class names
//! are unique, duplicates are dropped at load time. Once any motion has
//! played, the sequencer never again has no current motion: advancing on
//! an empty queue installs the configured idle identity, which is
//! validated at construction.

use vstd::prelude::*;

verus! {

use crate::bank::ParameterBank;
use crate::fixed::{COORD_MAX, TIME_ARG_MAX};
use crate::motion::{MotionClip, spec_apply_curves};
use crate::text::str_eq;

/// A failure the sequencer can report to the frame loop.
#[derive(Debug, Copy, Clone, PartialEq, Eq, Structural)]
pub enum SequencerError {
    /// The current identity is not in the motion table; ruled out while
    /// the sequencer is well formed.
    MotionMissing,
}

/// `t` reduced by repeated subtraction of `d` until it no longer exceeds
/// `d`.
pub open spec fn spec_wrap(t: int, d: int) -> int
    decreases t,
    when 0 <= t && 1 <= d
{
    if t > d {
        spec_wrap(t - d, d)
    } else {
        t
    }
}

proof fn lemma_wrap_range(t: int, d: int)
    requires
        0 <= t,
        1 <= d,
    ensures
        0 <= spec_wrap(t, d) <= d,
    decreases t,
{
    if t > d {
        lemma_wrap_range(t - d, d);
    }
}

/// Compute `spec_wrap` for bounded fixed-point times.
fn wrap_time(t: i64, d: i64) -> (r: i64)
    requires
        0 <= t <= 3 * COORD_MAX,
        1 <= d,
    ensures
        r == spec_wrap(t as int, d as int),
        0 <= r <= d,
{
    let mut r = t;
    while r > d
        invariant
            0 <= r,
            1 <= d,
            spec_wrap(t as int, d as int) == spec_wrap(r as int, d as int),
        decreases r,
    {
        r = r - d;
    }
    r
}

/// Play cursor of the always-on effect clip after `dt` more time units:
/// wrapped around the clip's duration while it loops, else saturating at
/// the largest evaluation offset.
pub open spec fn spec_effect_time(cursor: int, dt: int, clip: MotionClip) -> int {
    let c = cursor + dt;
    if clip.data.is_loop && clip.data.duration >= 1 && c > clip.data.duration {
        spec_wrap(c, clip.data.duration as int)
    } else if c > TIME_ARG_MAX as int {
        TIME_ARG_MAX as int
    } else {
        c
    }
}

/// One named motion of the table.
#[derive(Debug, Clone)]
pub struct MotionEntry {
    pub class: String,
    pub name: String,
    pub clip: MotionClip,
}

/// All motions the sequencer can play, addressed by `(class, name)`.
#[derive(Debug, Clone)]
pub struct MotionTable {
    pub entries: Vec<MotionEntry>,
}

/// First entry from position `i` on addressed by `(class, name)`.
pub open spec fn spec_find_motion(
    s: Seq<MotionEntry>,
    class: Seq<char>,
    name: Seq<char>,
    i: int,
) -> Option<int>
    decreases s.len() - i,
{
    if i < 0 || i >= s.len() {
        None
    } else if s[i].class@ == class && s[i].name@ == name {
        Some(i)
    } else {
        spec_find_motion(s, class, name, i + 1)
    }
}

/// What `spec_find_motion` promises: a hit is the first match, a miss
/// means no entry from `i` on matches.
pub proof fn lemma_find_motion_props(
    s: Seq<MotionEntry>,
    class: Seq<char>,
    name: Seq<char>,
    i: int,
)
    requires
        0 <= i <= s.len(),
    ensures
        match spec_find_motion(s, class, name, i) {
            Some(k) => i <= k < s.len() && s[k].class@ == class && s[k].name@ == name,
            None => forall|j: int|
                i <= j < s.len() ==> !((#[trigger] s[j]).class@ == class && s[j].name@ == name),
        },
    decreases s.len() - i,
{
    if i < s.len() {
        lemma_find_motion_props(s, class, name, i + 1);
    }
}

impl MotionTable {
    /// Every clip is well formed and every `(class, name)` pair occurs
    /// once.
    pub open spec fn wf(self) -> bool {
        &&& forall|i: int| 0 <= i < self.entries.len() ==> (#[trigger] self.entries@[i]).clip.wf()
        &&& forall|i: int, j: int|
            0 <= i < j < self.entries.len() ==> !((#[trigger] self.entries@[i]).class@ == (
            #[trigger] self.entries@[j]).class@ && self.entries@[i].name@
                == self.entries@[j].name@)
    }

    /// An empty table.
    pub fn new() -> (r: MotionTable)
        ensures
            r.entries@.len() == 0,
            r.wf(),
    {
        MotionTable { entries: Vec::new() }
    }

    /// Index of the motion addressed by `(class, name)`, if any.
    pub fn find(&self, class: &str, name: &str) -> (r: Option<usize>)
        ensures
            r matches Some(i) ==> i < self.entries@.len() && spec_find_motion(
                self.entries@,
                class@,
                name@,
                0,
            ) == Some(i as int),
            r is None ==> spec_find_motion(self.entries@, class@, name@, 0) is None,
    {
        let n = self.entries.len();
        let mut i: usize = 0;
        while i < n
            invariant
                n == self.entries@.len(),
                0 <= i <= n,
                spec_find_motion(self.entries@, class@, name@, 0) == spec_find_motion(
                    self.entries@,
                    class@,
                    name@,
                    i as int,
                ),
            decreases n - i,
        {
            let e = &self.entries[i];
            if str_eq(e.class.as_str(), class) && str_eq(e.name.as_str(), name) {
                return Some(i);
            }
            i += 1;
        }
        None
    }

    /// Add a motion under `(class, name)`; a duplicate identity is
    /// dropped, never overwritten.
    pub fn add_motion(&mut self, class: String, name: String, clip: MotionClip) -> (added: bool)
        requires
            old(self).wf(),
            clip.wf(),
        ensures
            final(self).wf(),
            added == (spec_find_motion(old(self).entries@, class@, name@, 0) is None),
            added ==> final(self).entries@ == old(self).entries@.push(
                MotionEntry { class, name, clip },
            ),
            !added ==> *final(self) == *old(self),
    {
        match self.find(class.as_str(), name.as_str()) {
            Some(_) => false,
            None => {
                proof {
                    lemma_find_motion_props(self.entries@, class@, name@, 0);
                }
                self.entries.push(MotionEntry { class, name, clip });
                true
            },
        }
    }
}

/// The pending-motion queue and the current motion's play state.
#[derive(Debug)]
pub struct Queue {
    pub lineup: Vec<(String, String)>,
    pub current: Option<(String, String)>,
    pub duration: i64,
    pub elapsed: i64,
    pub is_paused: bool,
    pub idle: (String, String),
}

/// The queue-driven state machine selecting and blending the active
/// clips.
#[derive(Debug)]
pub struct Sequencer {
    pub motions: MotionTable,
    pub queue: Queue,
    pub effect_cursor: i64,
}

impl Sequencer {
    /// An identity resolves if the table holds a motion under it.
    pub open spec fn resolves(self, class: Seq<char>, name: Seq<char>) -> bool {
        spec_find_motion(self.motions.entries@, class, name, 0) is Some
    }

    /// The table is well formed, the idle identity and everything queued
    /// or current resolves, the play cursor sits inside the current
    /// duration, and nothing is current only before the first motion.
    pub open spec fn wf(self) -> bool {
        &&& self.motions.wf()
        &&& self.resolves(self.queue.idle.0@, self.queue.idle.1@)
        &&& (self.queue.current matches Some(c) ==> self.resolves(c.0@, c.1@))
        &&& (forall|i: int|
            0 <= i < self.queue.lineup.len() ==> self.resolves(
                (#[trigger] self.queue.lineup@[i]).0@,
                self.queue.lineup@[i].1@,
            ))
        &&& 0 <= self.queue.duration <= COORD_MAX
        &&& 0 <= self.queue.elapsed <= self.queue.duration
        &&& (self.queue.current is None ==> self.queue.duration == 0)
        &&& 0 <= self.effect_cursor <= crate::fixed::TIME_ARG_MAX
    }

    /// Build a sequencer over `motions` with `idle` as the fallback
    /// identity; fails exactly when `idle` does not resolve, the
    /// configuration error that must be caught at startup.
    pub fn new(motions: MotionTable, idle: (String, String)) -> (r: Option<Sequencer>)
        requires
            motions.wf(),
        ensures
            match r {
                Some(s) => {
                    &&& spec_find_motion(motions.entries@, idle.0@, idle.1@, 0) is Some
                    &&& s.wf()
                    &&& s.motions == motions
                    &&& s.queue.idle == idle
                    &&& s.queue.current is None
                    &&& s.queue.lineup@.len() == 0
                    &&& s.queue.duration == 0
                    &&& s.queue.elapsed == 0
                    &&& s.queue.is_paused == false
                    &&& s.effect_cursor == 0
                },
                None => spec_find_motion(motions.entries@, idle.0@, idle.1@, 0) is None,
            },
    {
        match motions.find(idle.0.as_str(), idle.1.as_str()) {
            Some(_) => Some(
                Sequencer {
                    motions,
                    queue: Queue {
                        lineup: Vec::new(),
                        current: None,
                        duration: 0,
                        elapsed: 0,
                        is_paused: false,
                        idle,
                    },
                    effect_cursor: 0,
                },
            ),
            None => None,
        }
    }

    /// How a successful `set` changes the state: the motion at table
    /// index `i` becomes current with its duration, the play cursor
    /// resets and playback resumes; nothing else moves.
    pub open spec fn spec_installed(
        pre: Sequencer,
        post: Sequencer,
        class: Seq<char>,
        name: Seq<char>,
        i: int,
    ) -> bool {
        &&& post.motions == pre.motions
        &&& post.queue.lineup == pre.queue.lineup
        &&& post.queue.idle == pre.queue.idle
        &&& (post.queue.current matches Some(c) && c.0@ == class && c.1@ == name)
        &&& post.queue.duration == pre.motions.entries@[i].clip.data.duration
        &&& post.queue.elapsed == 0
        &&& post.queue.is_paused == false
        &&& post.effect_cursor == pre.effect_cursor
    }

    /// Make the motion addressed by `(class, name)` current: stop
    /// whatever plays, install the new clip with its duration, reset the
    /// cursor and resume. Returns nothing when the identity is unknown,
    /// leaving the state untouched.
    pub fn set(&mut self, class: &str, name: &str) -> (r: Option<()>)
        requires
            old(self).wf(),
        ensures
            final(self).wf(),
            match spec_find_motion(old(self).motions.entries@, class@, name@, 0) {
                Some(i) => r is Some && Self::spec_installed(
                    *old(self),
                    *final(self),
                    class@,
                    name@,
                    i,
                ),
                None => r is None && *final(self) == *old(self),
            },
    {
        match self.motions.find(class, name) {
            Some(i) => {
                let duration = self.motions.entries[i].clip.data.duration;
                proof {
                    assert(self.motions.entries@[i as int].clip.wf());
                }
                self.queue.current = Some((String::from_str(class), String::from_str(name)));
                self.queue.duration = duration;
                self.queue.elapsed = 0;
                self.queue.is_paused = false;
                Some(())
            },
            None => None,
        }
    }

    /// Queue the motion addressed by `(class, name)`: append it to the
    /// pending lineup while something plays, else install it at once.
    /// Returns nothing when the identity is unknown.
    pub fn queue(&mut self, class: &str, name: &str) -> (r: Option<()>)
        requires
            old(self).wf(),
        ensures
            final(self).wf(),
            match spec_find_motion(old(self).motions.entries@, class@, name@, 0) {
                Some(i) => {
                    &&& r is Some
                    &&& (old(self).queue.current is Some ==> {
                        &&& final(self).motions == old(self).motions
                        &&& final(self).queue.current == old(self).queue.current
                        &&& final(self).queue.duration == old(self).queue.duration
                        &&& final(self).queue.elapsed == old(self).queue.elapsed
                        &&& final(self).queue.is_paused == old(self).queue.is_paused
                        &&& final(self).queue.idle == old(self).queue.idle
                        &&& final(self).effect_cursor == old(self).effect_cursor
                        &&& final(self).queue.lineup@.len() == old(self).queue.lineup@.len() + 1
                        &&& final(self).queue.lineup@.subrange(
                            0,
                            old(self).queue.lineup@.len() as int,
                        ) == old(self).queue.lineup@
                        &&& final(self).queue.lineup@.last().0@ == class@
                        &&& final(self).queue.lineup@.last().1@ == name@
                    })
                    &&& (old(self).queue.current is None ==> Self::spec_installed(
                        *old(self),
                        *final(self),
                        class@,
                        name@,
                        i,
                    ))
                },
                None => r is None && *final(self) == *old(self),
            },
    {
        match self.motions.find(class, name) {
            Some(_) => {
                if self.queue.current.is_some() {
                    let ghost pre = self.queue.lineup@;
                    self.queue.lineup.push((String::from_str(class), String::from_str(name)));
                    proof {
                        assert(self.queue.lineup@.subrange(0, pre.len() as int) =~= pre);
                    }
                    Some(())
                } else {
                    self.set(class, name)
                }
            },
            None => None,
        }
    }

    /// Advance to the next motion: the first queued identity, or the
    /// configured idle identity when the queue is empty — after any
    /// motion has played, the sequencer always has a current motion.
    pub fn next(&mut self) -> (r: Option<()>)
        requires
            old(self).wf(),
        ensures
            final(self).wf(),
            r is Some,
            final(self).queue.current is Some,
            final(self).motions == old(self).motions,
            final(self).queue.idle == old(self).queue.idle,
            final(self).queue.elapsed == 0,
            final(self).queue.is_paused == false,
            final(self).effect_cursor == old(self).effect_cursor,
            old(self).queue.lineup@.len() == 0 ==> {
                &&& final(self).queue.lineup@.len() == 0
                &&& (final(self).queue.current matches Some(c) && c.0@ == old(
                    self,
                ).queue.idle.0@ && c.1@ == old(self).queue.idle.1@)
            },
            old(self).queue.lineup@.len() > 0 ==> {
                &&& final(self).queue.lineup@ == old(self).queue.lineup@.drop_first()
                &&& (final(self).queue.current matches Some(c) && c.0@ == old(
                    self,
                ).queue.lineup@[0].0@ && c.1@ == old(self).queue.lineup@[0].1@)
            },
    {
        let ident: (String, String) = if self.queue.lineup.len() > 0 {
            self.queue.lineup.remove(0)
        } else {
            (self.queue.idle.0.clone(), self.queue.idle.1.clone())
        };
        proof {
            assert(forall|i: int|
                0 <= i < self.queue.lineup@.len() ==> self.resolves(
                    (#[trigger] self.queue.lineup@[i]).0@,
                    self.queue.lineup@[i].1@,
                ));
        }
        let r = self.set(ident.0.as_str(), ident.1.as_str());
        proof {
            if r is None {
                assert(false);
            }
        }
        r
    }

    /// Resume playback; reports whether a current motion exists.
    pub fn play(&mut self) -> (r: Option<()>)
        requires
            old(self).wf(),
        ensures
            final(self).wf(),
            *final(self) == (Sequencer {
                queue: Queue { is_paused: false, ..old(self).queue },
                ..*old(self)
            }),
            r is Some <==> old(self).queue.current is Some,
    {
        self.queue.is_paused = false;
        match &self.queue.current {
            Some(_) => Some(()),
            None => None,
        }
    }

    /// Pause playback; reports whether a current motion exists.
    pub fn pause(&mut self) -> (r: Option<()>)
        requires
            old(self).wf(),
        ensures
            final(self).wf(),
            *final(self) == (Sequencer {
                queue: Queue { is_paused: true, ..old(self).queue },
                ..*old(self)
            }),
            r is Some <==> old(self).queue.current is Some,
    {
        self.queue.is_paused = true;
        match &self.queue.current {
            Some(_) => Some(()),
            None => None,
        }
    }

    /// Flip between playing and paused.
    pub fn toggle(&mut self) -> (r: Option<()>)
        requires
            old(self).wf(),
        ensures
            final(self).wf(),
            *final(self) == (Sequencer {
                queue: Queue { is_paused: !old(self).queue.is_paused, ..old(self).queue },
                ..*old(self)
            }),
            r is Some <==> old(self).queue.current is Some,
    {
        if self.queue.is_paused {
            self.play()
        } else {
            self.pause()
        }
    }

    /// Halt playback and reset the play cursor without advancing.
    pub fn stop(&mut self) -> (r: Option<()>)
        requires
            old(self).wf(),
        ensures
            final(self).wf(),
            *final(self) == (Sequencer {
                queue: Queue { is_paused: true, elapsed: 0, ..old(self).queue },
                ..*old(self)
            }),
            r is Some <==> old(self).queue.current is Some,
    {
        self.queue.is_paused = true;
        self.queue.elapsed = 0;
        match &self.queue.current {
            Some(_) => Some(()),
            None => None,
        }
    }

    /// Stop, then play: restart the current motion from its beginning.
    pub fn restart(&mut self) -> (r: Option<()>)
        requires
            old(self).wf(),
        ensures
            final(self).wf(),
            *final(self) == (Sequencer {
                queue: Queue { is_paused: false, elapsed: 0, ..old(self).queue },
                ..*old(self)
            }),
            r is Some <==> old(self).queue.current is Some,
    {
        let a = self.stop();
        let b = self.play();
        match (a, b) {
            (Some(_), Some(_)) => Some(()),
            _ => None,
        }
    }

    /// One frame tick: a no-op while paused; otherwise advance the play
    /// cursor by `dt`, advance to the next motion once the cursor reaches
    /// the duration, evaluate the current clip's curves into the banks,
    /// and always also evaluate the `("", "effect")` clip when the table
    /// holds one, on its own ever-running cursor.
    pub fn update(&mut self, dt: i64, params: &mut ParameterBank, parts: &mut ParameterBank) -> (r:
        Result<(), SequencerError>)
        requires
            old(self).wf(),
            old(params).wf(),
            old(parts).wf(),
            0 <= dt <= COORD_MAX,
        ensures
            final(self).wf(),
            final(params).wf(),
            final(parts).wf(),
            r is Ok,
            old(self).queue.is_paused ==> *final(self) == *old(self) && *final(params) == *old(
                params,
            ) && *final(parts) == *old(parts),
            !old(self).queue.is_paused ==> {
                &&& final(self).motions == old(self).motions
                &&& final(self).queue.idle == old(self).queue.idle
                &&& final(self).queue.is_paused == false
                &&& final(self).queue.current is Some
                &&& (old(self).queue.elapsed + dt >= old(self).queue.duration ==> {
                    &&& final(self).queue.elapsed == 0
                    &&& (old(self).queue.lineup@.len() == 0 ==> {
                        &&& final(self).queue.lineup@.len() == 0
                        &&& (final(self).queue.current matches Some(c) && c.0@ == old(
                            self,
                        ).queue.idle.0@ && c.1@ == old(self).queue.idle.1@)
                    })
                    &&& (old(self).queue.lineup@.len() > 0 ==> {
                        &&& final(self).queue.lineup@ == old(self).queue.lineup@.drop_first()
                        &&& (final(self).queue.current matches Some(c) && c.0@ == old(
                            self,
                        ).queue.lineup@[0].0@ && c.1@ == old(self).queue.lineup@[0].1@)
                    })
                })
                &&& (old(self).queue.elapsed + dt < old(self).queue.duration ==> {
                    &&& final(self).queue.current == old(self).queue.current
                    &&& final(self).queue.lineup == old(self).queue.lineup
                    &&& final(self).queue.duration == old(self).queue.duration
                    &&& final(self).queue.elapsed == old(self).queue.elapsed + dt
                })
                &&& ({
                    let cur = final(self).queue.current->Some_0;
                    let ci = spec_find_motion(
                        old(self).motions.entries@,
                        cur.0@,
                        cur.1@,
                        0,
                    )->Some_0;
                    let cur_clip = old(self).motions.entries@[ci].clip;
                    let after_cur = spec_apply_curves(
                        cur_clip,
                        0,
                        final(self).queue.elapsed as int,
                        old(params).entries@,
                        old(parts).entries@,
                    );
                    match spec_find_motion(old(self).motions.entries@, ""@, "effect"@, 0) {
                        Some(ei) => {
                            let eclip = old(self).motions.entries@[ei].clip;
                            let te = spec_effect_time(
                                old(self).effect_cursor as int,
                                dt as int,
                                eclip,
                            );
                            &&& final(self).effect_cursor == te
                            &&& (final(params).entries@, final(parts).entries@)
                                == spec_apply_curves(eclip, 0, te, after_cur.0, after_cur.1)
                        },
                        None => {
                            &&& final(self).effect_cursor == old(self).effect_cursor
                            &&& (final(params).entries@, final(parts).entries@) == after_cur
                        },
                    }
                })
            },
    {
        if self.queue.is_paused {
            return Ok(());
        }
        let e1 = self.queue.elapsed + dt;
        if e1 >= self.queue.duration {
            self.next();
        } else {
            self.queue.elapsed = e1;
        }
        let cur = match &self.queue.current {
            Some(c) => (c.0.clone(), c.1.clone()),
            None => {
                proof {
                    assert(false);
                }
                return Err(SequencerError::MotionMissing);
            },
        };
        let t = self.queue.elapsed;
        match self.motions.find(cur.0.as_str(), cur.1.as_str()) {
            Some(ci) => {
                let clip = &self.motions.entries[ci].clip;
                proof {
                    assert(self.motions.entries@[ci as int].clip.wf());
                }
                clip.apply(t, params, parts);
            },
            None => {
                proof {
                    assert(false);
                }
                return Err(SequencerError::MotionMissing);
            },
        }
        match self.motions.find("", "effect") {
            Some(ei) => {
                let e_loop = self.motions.entries[ei].clip.data.is_loop;
                let e_dur = self.motions.entries[ei].clip.data.duration;
                proof {
                    assert(self.motions.entries@[ei as int].clip.wf());
                }
                let c0 = self.effect_cursor + dt;
                let te = if e_loop && e_dur >= 1 && c0 > e_dur {
                    let w = wrap_time(c0, e_dur);
                    proof {
                        lemma_wrap_range(c0 as int, e_dur as int);
                    }
                    w
                } else if c0 > TIME_ARG_MAX {
                    TIME_ARG_MAX
                } else {
                    c0
                };
                self.effect_cursor = te;
                let eclip = &self.motions.entries[ei].clip;
                eclip.apply(te, params, parts);
            },
            None => {},
        }
        Ok(())
    }
}

} // verus!
