use liver::bank::ParameterBank;
use liver::curve::{MotionCurveTarget, MotionData};
use liver::fixed::SCALE;
use liver::motion::{combined_weight, ease, fade_factor, MotionClip};
use liver::sequencer::{MotionTable, Sequencer};

fn plain_clip(duration: i64, is_loop: bool) -> MotionClip {
    let data = MotionData {
        duration,
        is_loop,
        fps: 30 * SCALE,
        curves: Vec::new(),
        segments: Vec::new(),
        points: Vec::new(),
        events: Vec::new(),
    };
    MotionClip::new(data, None, None)
}

fn driving_clip(duration: i64, id: &str, value: i64) -> MotionClip {
    let mut data = MotionData {
        duration,
        is_loop: false,
        fps: 30 * SCALE,
        curves: Vec::new(),
        segments: Vec::new(),
        points: Vec::new(),
        events: Vec::new(),
    };
    data.push_curve(
        MotionCurveTarget::Parameter,
        id.to_string(),
        &vec![0, value],
        None,
        None,
    )
    .unwrap();
    // zero-length fades: full weight from the first tick
    MotionClip::new(data, Some(0), Some(0))
}

fn table_with(names: &[&str]) -> MotionTable {
    let mut table = MotionTable::new();
    for n in names {
        assert!(table.add_motion("".to_string(), n.to_string(), plain_clip(2 * SCALE, false)));
    }
    table
}

fn idle_id() -> (String, String) {
    ("".to_string(), "idle".to_string())
}

#[test]
fn duplicate_motion_names_are_dropped() {
    let mut table = table_with(&["idle"]);
    assert!(!table.add_motion("".to_string(), "idle".to_string(), plain_clip(SCALE, false)));
    assert_eq!(table.entries.len(), 1);
    // same name under another class is a different identity
    assert!(table.add_motion("c".to_string(), "idle".to_string(), plain_clip(SCALE, false)));
}

#[test]
fn construction_requires_a_resolvable_idle() {
    let table = table_with(&["idle"]);
    assert!(Sequencer::new(table, idle_id()).is_some());
    let table = table_with(&["wave"]);
    assert!(Sequencer::new(table, idle_id()).is_none());
}

#[test]
fn set_installs_a_known_motion_and_rejects_unknown() {
    let table = table_with(&["idle", "wave"]);
    let mut seq = Sequencer::new(table, idle_id()).unwrap();
    assert_eq!(seq.set("", "nope"), None);
    assert_eq!(seq.queue.current, None);
    assert_eq!(seq.set("", "wave"), Some(()));
    assert_eq!(
        seq.queue.current,
        Some(("".to_string(), "wave".to_string()))
    );
    assert_eq!(seq.queue.duration, 2 * SCALE);
    assert_eq!(seq.queue.elapsed, 0);
    assert!(!seq.queue.is_paused);
}

#[test]
fn advance_on_empty_queue_installs_idle() {
    // clip `A` with duration 2.0, not looping
    let mut table = table_with(&["idle"]);
    assert!(table.add_motion("".to_string(), "a".to_string(), plain_clip(2 * SCALE, false)));
    let mut seq = Sequencer::new(table, idle_id()).unwrap();
    let mut params = ParameterBank::new();
    let mut parts = ParameterBank::new();
    seq.set("", "a").unwrap();
    // update(1.0): still playing `A`
    seq.update(SCALE, &mut params, &mut parts).unwrap();
    assert_eq!(seq.queue.current, Some(("".to_string(), "a".to_string())));
    assert_eq!(seq.queue.elapsed, SCALE);
    // update(1.5): elapsed reaches the duration, the empty queue advances to idle
    seq.update(SCALE + SCALE / 2, &mut params, &mut parts).unwrap();
    assert_eq!(seq.queue.current, Some(idle_id()));
    assert_eq!(seq.queue.elapsed, 0);
}

#[test]
fn queue_on_idle_sequencer_plays_at_once() {
    let mut table = table_with(&["idle", "wave", "bow"]);
    let mut seq = Sequencer::new(table, idle_id()).unwrap();
    // nothing is current: queue behaves as set
    assert_eq!(seq.queue("", "wave"), Some(()));
    assert_eq!(
        seq.queue.current,
        Some(("".to_string(), "wave".to_string()))
    );
    assert_eq!(seq.queue.lineup.len(), 0);
    // something is current: queue appends without interrupting
    assert_eq!(seq.queue("", "bow"), Some(()));
    assert_eq!(
        seq.queue.current,
        Some(("".to_string(), "wave".to_string()))
    );
    assert_eq!(
        seq.queue.lineup,
        vec![("".to_string(), "bow".to_string())]
    );
    // the queued motion is played when the current one expires
    let mut params = ParameterBank::new();
    let mut parts = ParameterBank::new();
    seq.update(2 * SCALE, &mut params, &mut parts).unwrap();
    assert_eq!(seq.queue.current, Some(("".to_string(), "bow".to_string())));
    assert_eq!(seq.queue.lineup.len(), 0);
}

#[test]
fn pause_freezes_elapsed_across_updates() {
    let mut table = table_with(&["idle"]);
    table.add_motion("".to_string(), "a".to_string(), plain_clip(4 * SCALE, false));
    let mut seq = Sequencer::new(table, idle_id()).unwrap();
    let mut params = ParameterBank::new();
    let mut parts = ParameterBank::new();
    seq.set("", "a").unwrap();
    seq.update(SCALE, &mut params, &mut parts).unwrap();
    assert_eq!(seq.queue.elapsed, SCALE);
    seq.pause().unwrap();
    for _ in 0..5 {
        seq.update(SCALE, &mut params, &mut parts).unwrap();
        assert_eq!(seq.queue.elapsed, SCALE);
        assert!(seq.queue.is_paused);
    }
    seq.play().unwrap();
    seq.update(SCALE, &mut params, &mut parts).unwrap();
    assert_eq!(seq.queue.elapsed, 2 * SCALE);
}

#[test]
fn stop_resets_the_cursor_and_toggle_flips() {
    let mut table = table_with(&["idle"]);
    table.add_motion("".to_string(), "a".to_string(), plain_clip(4 * SCALE, false));
    let mut seq = Sequencer::new(table, idle_id()).unwrap();
    let mut params = ParameterBank::new();
    let mut parts = ParameterBank::new();
    seq.set("", "a").unwrap();
    seq.update(SCALE, &mut params, &mut parts).unwrap();
    seq.stop().unwrap();
    assert_eq!(seq.queue.elapsed, 0);
    assert!(seq.queue.is_paused);
    seq.toggle().unwrap();
    assert!(!seq.queue.is_paused);
    seq.toggle().unwrap();
    assert!(seq.queue.is_paused);
    seq.restart().unwrap();
    assert!(!seq.queue.is_paused);
    assert_eq!(seq.queue.elapsed, 0);
}

#[test]
fn update_drives_a_parameter_through_the_bank() {
    let mut table = MotionTable::new();
    table.add_motion("".to_string(), "idle".to_string(), driving_clip(2 * SCALE, "angle", SCALE));
    let mut seq = Sequencer::new(table, idle_id()).unwrap();
    let mut params = ParameterBank::new();
    let mut parts = ParameterBank::new();
    assert!(params.add("angle".to_string(), 0, -30 * SCALE, 30 * SCALE, Vec::new(), 0));
    seq.set("", "idle").unwrap();
    seq.update(0, &mut params, &mut parts).unwrap();
    // full weight: the bank blends all the way to the curve's value
    assert_eq!(params.entries[0].value, SCALE);
}

#[test]
fn update_clamps_into_the_parameter_range() {
    let mut table = MotionTable::new();
    table.add_motion(
        "".to_string(),
        "idle".to_string(),
        driving_clip(2 * SCALE, "angle", 10 * SCALE),
    );
    let mut seq = Sequencer::new(table, idle_id()).unwrap();
    let mut params = ParameterBank::new();
    let mut parts = ParameterBank::new();
    assert!(params.add("angle".to_string(), 0, -SCALE, SCALE, Vec::new(), 0));
    seq.set("", "idle").unwrap();
    seq.update(0, &mut params, &mut parts).unwrap();
    assert_eq!(params.entries[0].value, SCALE);
}

#[test]
fn effect_clip_is_always_blended_and_keeps_its_own_cursor() {
    let mut table = MotionTable::new();
    table.add_motion("".to_string(), "idle".to_string(), plain_clip(2 * SCALE, false));
    table.add_motion(
        "".to_string(),
        "effect".to_string(),
        driving_clip(4 * SCALE, "breath", SCALE / 2),
    );
    let mut seq = Sequencer::new(table, idle_id()).unwrap();
    let mut params = ParameterBank::new();
    let mut parts = ParameterBank::new();
    assert!(params.add("breath".to_string(), 0, -SCALE, SCALE, Vec::new(), 0));
    seq.set("", "idle").unwrap();
    seq.update(SCALE, &mut params, &mut parts).unwrap();
    // the effect was evaluated although `idle` is current
    assert_eq!(params.entries[0].value, SCALE / 2);
    assert_eq!(seq.effect_cursor, SCALE);
    seq.update(SCALE, &mut params, &mut parts).unwrap();
    assert_eq!(seq.effect_cursor, 2 * SCALE);
}

#[test]
fn bank_add_validates_and_clamps_the_start_value() {
    let mut bank = ParameterBank::new();
    assert!(!bank.add("x".to_string(), 0, 5, -5, Vec::new(), 0));
    assert!(bank.add("x".to_string(), 99 * SCALE, -SCALE, SCALE, Vec::new(), 3));
    assert_eq!(bank.entries[0].value, SCALE);
    assert_eq!(bank.entries[0].external_index, 3);
    assert_eq!(bank.find("x"), Some(0));
    assert_eq!(bank.find("y"), None);
}

#[test]
fn bank_blend_moves_halfway_at_half_weight() {
    let mut bank = ParameterBank::new();
    assert!(bank.add("x".to_string(), 0, -10 * SCALE, 10 * SCALE, Vec::new(), 0));
    bank.blend(0, (4 * SCALE) as i128, SCALE / 2);
    assert_eq!(bank.entries[0].value, 2 * SCALE);
    // weight zero leaves the value alone
    bank.blend(0, (9 * SCALE) as i128, 0);
    assert_eq!(bank.entries[0].value, 2 * SCALE);
}

#[test]
fn ease_and_fades_cover_their_range() {
    assert_eq!(ease(0), 0);
    assert_eq!(ease(SCALE), SCALE);
    assert_eq!(ease(SCALE / 2), SCALE / 2);
    assert!(ease(SCALE / 4) < SCALE / 4);
    // negative configured fade seconds: no fade, full weight
    assert_eq!(fade_factor(0, -1), SCALE);
    // at the end of the configured fade: full weight
    assert_eq!(fade_factor(2 * SCALE, 2 * SCALE), SCALE);
    // at its start: no weight yet
    assert_eq!(fade_factor(0, 2 * SCALE), 0);
    assert_eq!(combined_weight(SCALE, SCALE, SCALE), SCALE);
    assert_eq!(combined_weight(SCALE, SCALE / 2, SCALE), SCALE / 2);
}

#[test]
fn looping_effect_clip_wraps_its_cursor() {
    let mut table = MotionTable::new();
    table.add_motion("".to_string(), "idle".to_string(), plain_clip(10 * SCALE, false));
    let mut effect_data = MotionData {
        duration: SCALE,
        is_loop: true,
        fps: 30 * SCALE,
        curves: Vec::new(),
        segments: Vec::new(),
        points: Vec::new(),
        events: Vec::new(),
    };
    effect_data
        .push_curve(
            MotionCurveTarget::Parameter,
            "breath".to_string(),
            &vec![0, 0, 0, SCALE, SCALE],
            None,
            None,
        )
        .unwrap();
    let effect = MotionClip::new(effect_data, Some(0), Some(0));
    table.add_motion("".to_string(), "effect".to_string(), effect);
    let mut seq = Sequencer::new(table, idle_id()).unwrap();
    let mut params = ParameterBank::new();
    let mut parts = ParameterBank::new();
    assert!(params.add("breath".to_string(), 0, -SCALE, SCALE, Vec::new(), 0));
    seq.set("", "idle").unwrap();
    // one second in: the effect cursor sits exactly at its duration
    seq.update(SCALE, &mut params, &mut parts).unwrap();
    assert_eq!(seq.effect_cursor, SCALE);
    // half a second more: past the duration, the looping cursor wraps
    seq.update(SCALE / 2, &mut params, &mut parts).unwrap();
    assert_eq!(seq.effect_cursor, SCALE / 2);
    assert_eq!(params.entries[0].value, SCALE / 2);
}

#[test]
fn clip_fades_default_to_one_second() {
    let clip = plain_clip(2 * SCALE, false);
    assert_eq!(clip.fade_in_seconds, SCALE);
    assert_eq!(clip.fade_out_seconds, SCALE);
    assert_eq!(clip.weight, SCALE);
}
