use ltc_bridge::gate::{GateVerdict, TimecodeGate};
use ltc_bridge::timecode::TimecodeFrame;

fn at(secs: u32, frames: u8) -> TimecodeFrame {
    TimecodeFrame {
        hours: (secs / 3600) as u8,
        mins: ((secs % 3600) / 60) as u8,
        secs: (secs % 60) as u8,
        frames,
    }
}

#[test]
fn frames_ignored_until_connected() {
    let mut g = TimecodeGate::new();
    assert_eq!(g.on_frame(at(100, 0), false), GateVerdict::NotConnected);
    assert_eq!(g, TimecodeGate::new());
}

#[test]
fn warmup_then_pass() {
    let mut g = TimecodeGate::new();
    assert_eq!(g.on_frame(at(3600, 0), true), GateVerdict::WarmupUnstable);
    assert_eq!(g.on_frame(at(3600, 1), true), GateVerdict::WarmupStable { count: 1 });
    assert_eq!(g.on_frame(at(3601, 0), true), GateVerdict::WarmupStable { count: 2 });
    assert_eq!(g.on_frame(at(3603, 0), true), GateVerdict::WarmupStable { count: 3 });
    assert_eq!(g.on_frame(at(3603, 5), true), GateVerdict::Pass);
    assert_eq!(g.warmup_frames, 3);
    assert_eq!(g.last_warmup_tc, Some(at(3603, 5)));
}

#[test]
fn unstable_frame_resets_warmup() {
    let mut g = TimecodeGate::new();
    g.on_frame(at(3600, 0), true);
    g.on_frame(at(3601, 0), true);
    assert_eq!(g.on_frame(at(3604, 0), true), GateVerdict::WarmupReset);
    assert_eq!(g.warmup_frames, 0);
    assert_eq!(g.on_frame(at(3700, 0), true), GateVerdict::WarmupUnstable);
}

#[test]
fn rogue_frames_are_dropped_after_warmup() {
    let mut g = TimecodeGate { warmup_frames: 3, last_warmup_tc: Some(at(3600, 0)) };
    assert_eq!(g.on_frame(at(3631, 0), true), GateVerdict::Rogue);
    assert_eq!(g.last_warmup_tc, Some(at(3600, 0)));
    assert_eq!(g.on_frame(at(3630, 0), true), GateVerdict::Pass);
    assert_eq!(g.on_frame(at(3600, 0), true), GateVerdict::Pass);
    assert_eq!(g.on_frame(at(3569, 0), true), GateVerdict::Rogue);
}

#[test]
fn four_frames_never_pass_from_fresh_gate() {
    let mut g = TimecodeGate::new();
    for i in 0..4u32 {
        assert_ne!(g.on_frame(at(3600 + i, 0), true), GateVerdict::Pass);
    }
    assert_eq!(g.on_frame(at(3604, 0), true), GateVerdict::Pass);
}
