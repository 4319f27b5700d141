//! The timecode gate between the decoder and the cue list: frames count only
//! once the console is connected and three frames in a row have been
//! stable, and afterwards a frame that jumps by more than 30 s is dropped as
//! rogue.

use vstd::prelude::*;
use crate::timecode::TimecodeFrame;

verus! {

/// Stable frames needed before timecode drives the cues.
pub const WARMUP_FRAMES: u8 = 3;

/// Largest jump, in seconds, between two frames that still counts as stable
/// during warm-up.
pub const STABLE_JUMP_SECS: i32 = 2;

/// Jumps of more than this many seconds after warm-up are rogue frames.
pub const ROGUE_JUMP_SECS: i32 = 30;

/// Whole seconds of a frame.
pub open spec fn frame_secs(tc: TimecodeFrame) -> int {
    tc.hours * 3600 + tc.mins * 60 + tc.secs
}

/// Distance in whole seconds between two frames.
pub open spec fn jump_secs(a: TimecodeFrame, b: TimecodeFrame) -> int {
    if frame_secs(b) >= frame_secs(a) {
        frame_secs(b) - frame_secs(a)
    } else {
        frame_secs(a) - frame_secs(b)
    }
}

/// Whole seconds of a frame.
fn secs_of(tc: TimecodeFrame) -> (r: i32)
    ensures
        r == frame_secs(tc),
{
    tc.hours as i32 * 3600 + tc.mins as i32 * 60 + tc.secs as i32
}

/// Distance in whole seconds between two frames.
fn jump_between(a: TimecodeFrame, b: TimecodeFrame) -> (r: i32)
    ensures
        r == jump_secs(a, b),
{
    let sa = secs_of(a);
    let sb = secs_of(b);
    if sb >= sa {
        sb - sa
    } else {
        sa - sb
    }
}

/// The verdict on one frame.
#[derive(Debug, Clone, Copy, PartialEq, Eq, Structural)]
pub enum GateVerdict {
    /// The console is not connected; the frame is dropped.
    NotConnected,
    /// Warm-up: the frame is within 2 s of the one before; `count` stable
    /// frames so far.
    WarmupStable { count: u8 },
    /// Warm-up: the frame broke a run of stable frames, which starts again.
    WarmupReset,
    /// Warm-up: the frame is not stable and no run had started.
    WarmupUnstable,
    /// After warm-up: the frame is more than 30 s from the last one; it is
    /// dropped.
    Rogue,
    /// After warm-up: the frame drives the cues.
    Pass,
}

/// The warm-up and rogue-frame filter.
#[derive(Debug, Clone, Copy, PartialEq, Eq, Structural)]
pub struct TimecodeGate {
    pub warmup_frames: u8,
    pub last_warmup_tc: Option<TimecodeFrame>,
}

impl TimecodeGate {
    /// A gate that has seen no frame.
    pub fn new() -> (g: Self)
        ensures
            g.warmup_frames == 0,
            g.last_warmup_tc is None,
    {
        TimecodeGate { warmup_frames: 0, last_warmup_tc: None }
    }

    /// The frame is within 2 s of the previous one.
    pub open spec fn is_stable(self, tc: TimecodeFrame) -> bool {
        match self.last_warmup_tc {
            None => false,
            Some(prev) => jump_secs(prev, tc) <= STABLE_JUMP_SECS,
        }
    }

    /// The frame is more than 30 s away from the previous one.
    pub open spec fn is_rogue(self, tc: TimecodeFrame) -> bool {
        match self.last_warmup_tc {
            None => false,
            Some(prev) => jump_secs(prev, tc) > ROGUE_JUMP_SECS,
        }
    }

    /// The filter state once frame `tc` is taken, the console being
    /// `connected` or not.
    pub open spec fn after(self, tc: TimecodeFrame, connected: bool) -> TimecodeGate {
        if !connected {
            self
        } else if self.warmup_frames < WARMUP_FRAMES {
            TimecodeGate {
                warmup_frames: if self.is_stable(tc) {
                    (self.warmup_frames + 1) as u8
                } else {
                    0
                },
                last_warmup_tc: Some(tc),
            }
        } else if self.is_rogue(tc) {
            self
        } else {
            TimecodeGate { last_warmup_tc: Some(tc), ..self }
        }
    }

    /// The verdict on frame `tc`.
    pub open spec fn verdict(self, tc: TimecodeFrame, connected: bool) -> GateVerdict {
        if !connected {
            GateVerdict::NotConnected
        } else if self.warmup_frames < WARMUP_FRAMES {
            if self.is_stable(tc) {
                GateVerdict::WarmupStable { count: (self.warmup_frames + 1) as u8 }
            } else if self.warmup_frames > 0 {
                GateVerdict::WarmupReset
            } else {
                GateVerdict::WarmupUnstable
            }
        } else if self.is_rogue(tc) {
            GateVerdict::Rogue
        } else {
            GateVerdict::Pass
        }
    }

    /// Takes frame `tc`. Frames count only while the console is connected.
    /// During warm-up a frame within 2 s of the previous one adds to the run
    /// of stable frames and any other frame restarts it; after three stable
    /// frames, a frame more than 30 s from the last accepted one is dropped
    /// and every other frame passes and becomes the new reference.
    pub fn on_frame(&mut self, tc: TimecodeFrame, connected: bool) -> (v: GateVerdict)
        ensures
            *final(self) == old(self).after(tc, connected),
            v == old(self).verdict(tc, connected),
    {
        if !connected {
            return GateVerdict::NotConnected;
        }
        if self.warmup_frames < WARMUP_FRAMES {
            let stable = match self.last_warmup_tc {
                None => false,
                Some(prev) => jump_between(prev, tc) <= STABLE_JUMP_SECS,
            };
            let v = if stable {
                self.warmup_frames = self.warmup_frames + 1;
                GateVerdict::WarmupStable { count: self.warmup_frames }
            } else {
                let was_warming = self.warmup_frames > 0;
                self.warmup_frames = 0;
                if was_warming {
                    GateVerdict::WarmupReset
                } else {
                    GateVerdict::WarmupUnstable
                }
            };
            self.last_warmup_tc = Some(tc);
            v
        } else {
            let rogue = match self.last_warmup_tc {
                None => false,
                Some(prev) => jump_between(prev, tc) > ROGUE_JUMP_SECS,
            };
            if rogue {
                GateVerdict::Rogue
            } else {
                self.last_warmup_tc = Some(tc);
                GateVerdict::Pass
            }
        }
    }
}

/// The run of stable frames never exceeds three.
pub proof fn law_gate_warmup_bounded(g: TimecodeGate, tc: TimecodeFrame, connected: bool)
    requires
        g.warmup_frames <= WARMUP_FRAMES,
    ensures
        g.after(tc, connected).warmup_frames <= WARMUP_FRAMES,
{
}

/// A frame reaches the cues only from a connected console after three
/// stable frames, and it then becomes the reference for the next frame.
pub proof fn law_gate_pass_only_when_warm(g: TimecodeGate, tc: TimecodeFrame, connected: bool)
    ensures
        g.verdict(tc, connected) == GateVerdict::Pass ==> {
            &&& connected
            &&& g.warmup_frames >= WARMUP_FRAMES
            &&& !g.is_rogue(tc)
            &&& g.after(tc, connected).last_warmup_tc == Some(tc)
            &&& g.after(tc, connected).warmup_frames == g.warmup_frames
        },
{
}

/// A rogue frame, or one that arrives while the console is not connected,
/// leaves the filter state unchanged.
pub proof fn law_gate_dropped_frames_change_nothing(g: TimecodeGate, tc: TimecodeFrame, connected: bool)
    ensures
        g.verdict(tc, connected) == GateVerdict::Rogue ==> g.after(tc, connected) == g,
        g.verdict(tc, connected) == GateVerdict::NotConnected ==> g.after(tc, connected) == g,
{
}

/// From a fresh gate on a connected console, the first four frames never
/// pass, whatever they are: a first frame and three stable ones are needed.
pub proof fn law_gate_first_frames_never_pass(
    t1: TimecodeFrame,
    t2: TimecodeFrame,
    t3: TimecodeFrame,
    t4: TimecodeFrame,
)
    ensures
        ({
            let g0 = TimecodeGate { warmup_frames: 0, last_warmup_tc: None };
            let g1 = g0.after(t1, true);
            let g2 = g1.after(t2, true);
            let g3 = g2.after(t3, true);
            &&& g0.verdict(t1, true) != GateVerdict::Pass
            &&& g1.verdict(t2, true) != GateVerdict::Pass
            &&& g2.verdict(t3, true) != GateVerdict::Pass
            &&& g3.verdict(t4, true) != GateVerdict::Pass
        }),
{
}

/// From a fresh gate on a connected console, a first frame followed by
/// three frames each within 2 s of the one before lets the next frame pass
/// when it is within 30 s of the fourth.
pub proof fn law_gate_warm_after_stable_run(
    t1: TimecodeFrame,
    t2: TimecodeFrame,
    t3: TimecodeFrame,
    t4: TimecodeFrame,
    t5: TimecodeFrame,
)
    requires
        jump_secs(t1, t2) <= STABLE_JUMP_SECS,
        jump_secs(t2, t3) <= STABLE_JUMP_SECS,
        jump_secs(t3, t4) <= STABLE_JUMP_SECS,
        jump_secs(t4, t5) <= ROGUE_JUMP_SECS,
    ensures
        ({
            let g0 = TimecodeGate { warmup_frames: 0, last_warmup_tc: None };
            let g4 = g0.after(t1, true).after(t2, true).after(t3, true).after(t4, true);
            g4.verdict(t5, true) == GateVerdict::Pass
        }),
{
}

/// After warm-up, the verdict on a frame depends only on its distance in
/// real seconds since midnight (hours × 3600 + minutes × 60 + seconds) from
/// the reference frame: within 30 s, in either direction, it passes and
/// becomes the reference; further away it is dropped as rogue and the
/// filter state stays as it was.
pub proof fn law_gate_rogue_threshold(g: TimecodeGate, tc: TimecodeFrame, p: TimecodeFrame)
    requires
        g.warmup_frames >= WARMUP_FRAMES,
        g.last_warmup_tc == Some(p),
    ensures
        ({
            let d = (tc.hours * 3600 + tc.mins * 60 + tc.secs) - (p.hours * 3600 + p.mins * 60
                + p.secs);
            &&& (-30 <= d <= 30) ==> g.verdict(tc, true) == GateVerdict::Pass && g.after(
                tc,
                true,
            ) == (TimecodeGate { warmup_frames: g.warmup_frames, last_warmup_tc: Some(tc) })
            &&& (d > 30 || d < -30) ==> g.verdict(tc, true) == GateVerdict::Rogue && g.after(
                tc,
                true,
            ) == g
        }),
{
}

/// During warm-up, a frame is stable exactly when its distance in real
/// seconds from the previous frame, in either direction, is at most 2: a
/// stable frame lengthens the run by one, any other frame (earlier or later)
/// sets it back to zero; either way the frame becomes the previous frame.
pub proof fn law_gate_stable_threshold(g: TimecodeGate, tc: TimecodeFrame, p: TimecodeFrame)
    requires
        g.warmup_frames < WARMUP_FRAMES,
        g.last_warmup_tc == Some(p),
    ensures
        ({
            let d = (tc.hours * 3600 + tc.mins * 60 + tc.secs) - (p.hours * 3600 + p.mins * 60
                + p.secs);
            &&& (-2 <= d <= 2) ==> g.verdict(tc, true) == (GateVerdict::WarmupStable {
                count: (g.warmup_frames + 1) as u8,
            }) && g.after(tc, true).warmup_frames == g.warmup_frames + 1
            &&& (d > 2 || d < -2) ==> g.after(tc, true).warmup_frames == 0 && (g.verdict(tc, true)
                == GateVerdict::WarmupReset || g.verdict(tc, true) == GateVerdict::WarmupUnstable)
            &&& g.after(tc, true).last_warmup_tc == Some(tc)
        }),
{
}

} // verus!
