use ltc_bridge::cues::{
    build_cue_list, execute_cues, mark_cue_fired, sort_cues_by_position, Cue, CueAction, CueSend,
    CueStep, FADER_LEVEL_BITS, TC,
};
use ltc_bridge::timecode::TimecodeFrame;
use ltc_bridge::wing::{mute_packet, WingConfig, WingConn};

fn tc(hours: u8, mins: u8, secs: u8, frames: u8) -> TC {
    TC { hours, mins, secs, frames }
}

fn frame(hours: u8, mins: u8, secs: u8, frames: u8) -> TimecodeFrame {
    TimecodeFrame { hours, mins, secs, frames }
}

fn cue(t: TC, action: CueAction) -> Cue {
    Cue { trigger: t, action, fired: false }
}

#[test]
fn to_frames_formula() {
    assert_eq!(tc(1, 1, 5, 0).to_frames(24), 87_960);
    assert_eq!(tc(0, 0, 1, 3).to_frames(25), 28);
    assert_eq!(tc(255, 255, 255, 255).to_frames(255), 238_056_780);
    assert_eq!(tc(0, 0, 0, 0).to_frames(0), 0);
}

#[test]
fn tc_from_timecode_frame() {
    assert_eq!(TC::from(frame(4, 3, 2, 1)), tc(4, 3, 2, 1));
}

#[test]
fn show_has_fader_mutes_and_final_unmute() {
    let cues = build_cue_list();
    assert_eq!(cues.len(), 59);
    assert_eq!(cues[0].trigger, tc(1, 1, 5, 0));
    assert_eq!(cues[0].action, CueAction::Fader { ch: 1, level_bits: FADER_LEVEL_BITS });
    assert_eq!(FADER_LEVEL_BITS, 0.75f32.to_bits());
    assert_eq!(cues[1].trigger, tc(1, 1, 7, 0));
    assert_eq!(cues[1].action, CueAction::Mute { ch: 1, muted: true });
    assert_eq!(cues[2].trigger, tc(1, 1, 9, 0));
    assert_eq!(cues[2].action, CueAction::Mute { ch: 1, muted: false });
    assert_eq!(cues[27].trigger, tc(1, 1, 59, 0));
    assert_eq!(cues[27].action, CueAction::Mute { ch: 1, muted: true });
    assert_eq!(cues[28].trigger, tc(1, 2, 1, 0));
    assert_eq!(cues[57].trigger, tc(1, 2, 59, 0));
    assert_eq!(cues[57].action, CueAction::Mute { ch: 1, muted: true });
    assert_eq!(cues[58].trigger, tc(1, 3, 0, 1));
    assert_eq!(cues[58].action, CueAction::Mute { ch: 1, muted: false });
    assert!(cues.iter().all(|c| !c.fired));
}

#[test]
fn show_is_in_position_order() {
    let cues = build_cue_list();
    for pair in cues.windows(2) {
        assert!(pair[0].trigger.to_frames(24) < pair[1].trigger.to_frames(24));
    }
}

#[test]
fn sort_is_stable_by_position() {
    let a = cue(tc(0, 0, 2, 0), CueAction::Mute { ch: 1, muted: true });
    let b = cue(tc(0, 0, 1, 0), CueAction::Mute { ch: 2, muted: true });
    let c = cue(tc(0, 0, 2, 0), CueAction::Mute { ch: 3, muted: false });
    let d = cue(tc(0, 0, 0, 5), CueAction::Fader { ch: 4, level_bits: 7 });
    let sorted = sort_cues_by_position(vec![a, b, c, d]);
    assert_eq!(sorted, vec![d, b, a, c]);
}

#[test]
fn first_tick_marks_past_cues_only() {
    let mut cues = build_cue_list();
    let mut wing = WingConn::new(WingConfig::default());
    let mut started = false;
    let step = execute_cues(&mut cues, frame(1, 1, 7, 0), &mut wing, &mut started, 0);
    assert_eq!(step, CueStep::Synced);
    assert!(started);
    assert!(cues[0].fired);
    assert!(!cues[1].fired, "a cue at the very frame is not skipped");
    assert!(cues[2..].iter().all(|c| !c.fired));
    assert_eq!(wing.last_fader_send, None);
}

#[test]
fn later_ticks_fire_one_due_cue_at_a_time() {
    let mut cues = build_cue_list();
    let mut wing = WingConn::new(WingConfig::default());
    let mut started = false;
    execute_cues(&mut cues, frame(1, 1, 7, 0), &mut wing, &mut started, 0);
    // Two cues are due at 01:01:09:00; the earlier fires first.
    let step = execute_cues(&mut cues, frame(1, 1, 9, 0), &mut wing, &mut started, 1);
    assert_eq!(
        step,
        CueStep::Fire { index: 1, send: CueSend::Packet(mute_packet(1, true)) }
    );
    assert!(!cues[1].fired, "the cue is marked only once its packet went out");
    mark_cue_fired(&mut cues, 1);
    assert!(cues[1].fired);
    let step = execute_cues(&mut cues, frame(1, 1, 9, 0), &mut wing, &mut started, 2);
    assert_eq!(
        step,
        CueStep::Fire { index: 2, send: CueSend::Packet(mute_packet(1, false)) }
    );
    mark_cue_fired(&mut cues, 2);
    let step = execute_cues(&mut cues, frame(1, 1, 9, 0), &mut wing, &mut started, 3);
    assert_eq!(step, CueStep::Idle);
}

#[test]
fn failed_send_leaves_cue_to_fire_again() {
    let mut cues = build_cue_list();
    let mut wing = WingConn::new(WingConfig::default());
    let mut started = true;
    let step = execute_cues(&mut cues, frame(1, 1, 7, 0), &mut wing, &mut started, 0);
    assert!(matches!(step, CueStep::Fire { index: 0, .. }));
    // Not marked: the same cue is chosen again.
    let step = execute_cues(&mut cues, frame(1, 1, 7, 0), &mut wing, &mut started, 500_000_000);
    assert!(matches!(step, CueStep::Fire { index: 0, .. }));
}

#[test]
fn fader_cues_are_rate_limited() {
    let mut cues = vec![
        cue(tc(0, 0, 1, 0), CueAction::Fader { ch: 1, level_bits: 11 }),
        cue(tc(0, 0, 1, 0), CueAction::Fader { ch: 2, level_bits: 22 }),
        cue(tc(0, 0, 1, 0), CueAction::Fader { ch: 3, level_bits: 33 }),
    ];
    let mut wing = WingConn::new(WingConfig::default());
    let mut started = true;
    let step = execute_cues(&mut cues, frame(0, 0, 2, 0), &mut wing, &mut started, 1_000);
    assert_eq!(
        step,
        CueStep::Fire { index: 0, send: CueSend::Fader { path: "/ch/1/fdr".to_string(), level_bits: 11 } }
    );
    assert_eq!(wing.last_fader_send, Some(1_000));
    mark_cue_fired(&mut cues, 0);
    let step = execute_cues(&mut cues, frame(0, 0, 2, 0), &mut wing, &mut started, 1_000 + 399_999_999);
    assert_eq!(step, CueStep::Fire { index: 1, send: CueSend::Nothing });
    assert_eq!(wing.last_fader_send, Some(1_000));
    mark_cue_fired(&mut cues, 1);
    let step = execute_cues(&mut cues, frame(0, 0, 2, 0), &mut wing, &mut started, 1_000 + 400_000_000);
    assert_eq!(
        step,
        CueStep::Fire { index: 2, send: CueSend::Fader { path: "/ch/3/fdr".to_string(), level_bits: 33 } }
    );
}

#[test]
fn nothing_due_before_first_cue() {
    let mut cues = build_cue_list();
    let mut wing = WingConn::new(WingConfig::default());
    let mut started = true;
    let step = execute_cues(&mut cues, frame(1, 1, 4, 23), &mut wing, &mut started, 0);
    assert_eq!(step, CueStep::Idle);
}
