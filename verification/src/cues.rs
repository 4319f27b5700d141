//! The cue schedule: cue positions, the built-in show sequence, and the
//! choice of which cue a timecode tick fires.

use vstd::prelude::*;
use crate::order::{is_stable_sort_of, sorted_by_key, stable_sort_by_key};
use crate::timecode::TimecodeFrame;
use crate::wing::{WingConn, fader_path, mute_packet, mute_path, osc_int_message};

verus! {

/// Frame rate at which cue positions are compared.
pub const CUE_FPS: u8 = 24;

/// Bit pattern of the single-precision fader level of the opening fader
/// move (0.75).
pub const FADER_LEVEL_BITS: u32 = 0x3F40_0000;

/// Channel that every cue of the show addresses.
pub const CUE_CHANNEL: u8 = 1;

/// First mute toggle, in seconds since midnight (01:01:07).
pub const MUTE_START_SECS: u32 = 1 * 3600 + 1 * 60 + 7;

/// Last possible mute toggle, in seconds since midnight (01:03:00).
pub const MUTE_END_SECS: u32 = 1 * 3600 + 3 * 60;

/// Seconds between two mute toggles.
pub const MUTE_INTERVAL_SECS: u32 = 2;

/// A timecode position of a cue.
#[derive(Debug, Clone, Copy, PartialEq, Eq, Structural)]
pub struct TC {
    pub hours: u8,
    pub mins: u8,
    pub secs: u8,
    pub frames: u8,
}

impl TC {
    /// Whole seconds of this position.
    pub open spec fn total_secs(self) -> int {
        self.hours * 3600 + self.mins * 60 + self.secs
    }

    /// Frame count of this position at `fps` frames per second.
    pub open spec fn total_frames(self, fps: u8) -> int {
        self.total_secs() * fps + self.frames
    }

    /// Frame count of this position at `fps` frames per second.
    pub fn to_frames(&self, fps: u8) -> (r: u32)
        ensures
            r == self.total_frames(fps),
    {
        let secs: u32 = self.hours as u32 * 3600 + self.mins as u32 * 60 + self.secs as u32;
        assert(secs * fps <= 933555 * 255) by (nonlinear_arith)
            requires
                secs <= 933555,
                fps <= 255,
        ;
        secs * fps as u32 + self.frames as u32
    }
}

impl From<TimecodeFrame> for TC {
    fn from(t: TimecodeFrame) -> (r: Self) {
        TC { hours: t.hours, mins: t.mins, secs: t.secs, frames: t.frames }
    }
}

impl vstd::std_specs::convert::FromSpecImpl<TimecodeFrame> for TC {
    open spec fn obeys_from_spec() -> bool {
        true
    }

    open spec fn from_spec(t: TimecodeFrame) -> TC {
        TC { hours: t.hours, mins: t.mins, secs: t.secs, frames: t.frames }
    }
}

/// What a cue does to the console.
#[derive(Debug, Clone, Copy, PartialEq, Eq, Structural)]
pub enum CueAction {
    /// Moves the fader of channel `ch` to the single-precision level whose
    /// bit pattern is `level_bits`.
    Fader { ch: u8, level_bits: u32 },
    /// Mutes or unmutes channel `ch`.
    Mute { ch: u8, muted: bool },
}

/// One scheduled console action.
#[derive(Debug, Clone, Copy, PartialEq, Eq, Structural)]
pub struct Cue {
    pub trigger: TC,
    pub action: CueAction,
    pub fired: bool,
}

impl Cue {
    /// An unfired cue at `h:m:s:f`.
    fn new(h: u8, m: u8, s: u8, f: u8, action: CueAction) -> (c: Self)
        ensures
            c == (Cue { trigger: TC { hours: h, mins: m, secs: s, frames: f }, action, fired: false }),
    {
        Cue { trigger: TC { hours: h, mins: m, secs: s, frames: f }, action, fired: false }
    }

    /// Frame count of the cue position at the cue frame rate.
    pub open spec fn position(self) -> int {
        self.trigger.total_frames(CUE_FPS)
    }
}

/// A cue position always fits in 32 bits.
pub proof fn lemma_position_fits(c: Cue)
    ensures
        0 <= c.position() <= u32::MAX,
{
    let s = c.trigger.total_secs();
    assert(0 <= s <= 933555);
    assert(0 <= s * 24 <= 933555 * 24) by (nonlinear_arith)
        requires
            0 <= s <= 933555,
    ;
}

/// The key by which cues are ordered: their position in frames.
pub open spec fn by_position() -> spec_fn(Cue) -> u32 {
    |c: Cue| c.position() as u32
}

/// The position at `secs` seconds since midnight and `frames` frames.
pub open spec fn tc_at(secs: int, frames: u8) -> TC {
    TC {
        hours: (secs / 3600) as u8,
        mins: ((secs % 3600) / 60) as u8,
        secs: (secs % 60) as u8,
        frames,
    }
}

/// Number of mute toggles of the show: one every two seconds from
/// 01:01:07 up to 01:03:00.
pub open spec fn mute_toggle_count() -> int {
    (MUTE_END_SECS - MUTE_START_SECS) / (MUTE_INTERVAL_SECS as int) + 1
}

/// Cue `i` of the show: the fader move at 01:01:05:00, then mute toggles
/// every two seconds from 01:01:07:00 on (mute first, then unmute, and so
/// on), then a final unmute at 01:03:00:01.
pub open spec fn show_cue(i: int) -> Cue {
    if i == 0 {
        Cue {
            trigger: TC { hours: 1, mins: 1, secs: 5, frames: 0 },
            action: CueAction::Fader { ch: CUE_CHANNEL, level_bits: FADER_LEVEL_BITS },
            fired: false,
        }
    } else if i <= mute_toggle_count() {
        Cue {
            trigger: tc_at(MUTE_START_SECS + MUTE_INTERVAL_SECS * (i - 1), 0),
            action: CueAction::Mute { ch: CUE_CHANNEL, muted: (i - 1) % 2 == 0 },
            fired: false,
        }
    } else {
        Cue {
            trigger: TC { hours: 1, mins: 3, secs: 0, frames: 1 },
            action: CueAction::Mute { ch: CUE_CHANNEL, muted: false },
            fired: false,
        }
    }
}

/// The whole show, in the order in which it runs.
pub open spec fn show_cues() -> Seq<Cue> {
    Seq::new((mute_toggle_count() + 2) as nat, |i: int| show_cue(i))
}

/// Puts cues in order of position; cues at the same position keep their
/// order.
pub fn sort_cues_by_position(cues: Vec<Cue>) -> (out: Vec<Cue>)
    ensures
        is_stable_sort_of(out@, cues@, by_position()),
        sorted_by_key(cues@, by_position()) ==> out@ == cues@,
{
    let mut keys: Vec<u32> = Vec::new();
    let mut i: usize = 0;
    while i < cues.len()
        invariant
            i <= cues@.len(),
            keys@.len() == i,
            forall|j: int| 0 <= j < i ==> keys@[j] == (by_position())(#[trigger] cues@[j]),
        decreases cues@.len() - i,
    {
        keys.push(cues[i].trigger.to_frames(CUE_FPS));
        i = i + 1;
    }
    stable_sort_by_key(cues, keys, Ghost(by_position()))
}

/// The positions of the show's cues, in frames.
proof fn lemma_show_positions(i: int)
    requires
        0 <= i < mute_toggle_count() + 2,
    ensures
        i == 0 ==> show_cue(i).position() == 3665 * 24,
        1 <= i <= mute_toggle_count() ==> show_cue(i).position() == (3667 + 2 * (i - 1)) * 24,
        i == mute_toggle_count() + 1 ==> show_cue(i).position() == 3780 * 24 + 1,
        mute_toggle_count() == 57,
{
    if 1 <= i <= mute_toggle_count() {
        let secs = 3667 + 2 * (i - 1);
        assert(secs / 3600 == 1);
        assert(secs % 3600 == secs - 3600);
        assert((secs % 3600) / 60 * 60 + secs % 60 == secs % 3600) by (nonlinear_arith);
    }
}

/// The show's cues come in order of position, each strictly after the one
/// before it.
pub proof fn law_show_in_position_order()
    ensures
        sorted_by_key(show_cues(), by_position()),
        forall|i: int, j: int|
            0 <= i < j < show_cues().len() ==> #[trigger] show_cues()[i].position()
                < #[trigger] show_cues()[j].position(),
{
    assert forall|i: int, j: int| 0 <= i < j < show_cues().len() implies #[trigger] show_cues()[i].position()
        < #[trigger] show_cues()[j].position() by {
        lemma_show_positions(i);
        lemma_show_positions(j);
    }
    assert forall|i: int, j: int| 0 <= i <= j < show_cues().len() implies (by_position())(
        #[trigger] show_cues()[i],
    ) <= (by_position())(#[trigger] show_cues()[j]) by {
        lemma_show_positions(i);
        lemma_show_positions(j);
    }
}

/// Builds the show: a fader move at 01:01:05:00, mute toggles every two
/// seconds from 01:01:07:00 to 01:03:00:00, and a final unmute at
/// 01:03:00:01, all unfired and sorted by position.
pub fn build_cue_list() -> (cues: Vec<Cue>)
    ensures
        cues@ == show_cues(),
        sorted_by_key(cues@, by_position()),
{
    let mut cues: Vec<Cue> = Vec::new();
    cues.push(Cue::new(1, 1, 5, 0, CueAction::Fader { ch: CUE_CHANNEL, level_bits: FADER_LEVEL_BITS }));
    let mut current_secs: u32 = MUTE_START_SECS;
    let mut is_muted = true;
    let ghost mut k: int = 0;
    proof {
        lemma_show_positions(0);
    }
    while current_secs <= MUTE_END_SECS
        invariant
            0 <= k <= 57,
            current_secs == MUTE_START_SECS + MUTE_INTERVAL_SECS * k,
            k == 57 ==> current_secs > MUTE_END_SECS,
            is_muted == (k % 2 == 0),
            cues@.len() == k + 1,
            mute_toggle_count() == 57,
            forall|j: int| 0 <= j < cues@.len() ==> #[trigger] cues@[j] == show_cue(j),
        decreases MUTE_END_SECS + 1 - current_secs,
    {
        let h = (current_secs / 3600) as u8;
        let m = ((current_secs % 3600) / 60) as u8;
        let s = (current_secs % 60) as u8;
        cues.push(Cue::new(h, m, s, 0, CueAction::Mute { ch: CUE_CHANNEL, muted: is_muted }));
        assert(cues@[k + 1] == show_cue(k + 1));
        is_muted = !is_muted;
        current_secs = current_secs + MUTE_INTERVAL_SECS;
        proof {
            k = k + 1;
        }
    }
    cues.push(Cue::new(1, 3, 0, 1, CueAction::Mute { ch: CUE_CHANNEL, muted: false }));
    assert(cues@ =~= show_cues());
    proof {
        law_show_in_position_order();
    }
    sort_cues_by_position(cues)
}

/// Position of a timecode frame, in frames at the cue frame rate.
pub open spec fn frame_position(tc: TimecodeFrame) -> int {
    TC { hours: tc.hours, mins: tc.mins, secs: tc.secs, frames: tc.frames }.total_frames(CUE_FPS)
}

/// A cue that has not fired and whose position has been reached.
pub open spec fn is_due(c: Cue, current: int) -> bool {
    !c.fired && current >= c.position()
}

/// Cue `i` is the first due cue of the list.
pub open spec fn is_first_due(cues: Seq<Cue>, current: int, i: int) -> bool {
    &&& 0 <= i < cues.len()
    &&& is_due(cues[i], current)
    &&& forall|j: int| 0 <= j < i ==> !is_due(#[trigger] cues[j], current)
}

/// No cue of the list is due.
pub open spec fn none_due(cues: Seq<Cue>, current: int) -> bool {
    forall|j: int| 0 <= j < cues.len() ==> !is_due(#[trigger] cues[j], current)
}

/// A cue after the first timecode: marked fired when its position is already
/// past.
pub open spec fn synced_cue(c: Cue, current: int) -> Cue {
    Cue { fired: c.fired || current > c.position(), ..c }
}

/// What has to go to the console for a cue.
#[derive(Debug, Clone, PartialEq, Eq)]
pub enum CueSend {
    /// This OSC packet.
    Packet(Vec<u8>),
    /// A fader message to `path` with the single-precision level whose bit
    /// pattern is `level_bits`.
    Fader { path: String, level_bits: u32 },
    /// Nothing: a fader message went out less than 400 ms ago.
    Nothing,
}

/// What a timecode tick does to the cue list.
#[derive(Debug, Clone, PartialEq, Eq)]
pub enum CueStep {
    /// First timecode: cues already past were marked fired, none fires.
    Synced,
    /// No cue is due.
    Idle,
    /// Cue `index` is due: `send` goes to the console, and once that
    /// succeeded the cue is marked fired with `mark_cue_fired`.
    Fire { index: usize, send: CueSend },
}

/// `send` is what cue action `action` sends, `allowed` telling whether a
/// fader message may go out now.
pub open spec fn send_for(send: CueSend, action: CueAction, allowed: bool) -> bool {
    match action {
        CueAction::Fader { ch, level_bits } => if allowed {
            &&& send matches CueSend::Fader { path, level_bits: lb }
            &&& path@ == fader_path(ch)
            &&& lb == level_bits
        } else {
            send == CueSend::Nothing
        },
        CueAction::Mute { ch, muted } => {
            &&& send matches CueSend::Packet(b)
            &&& b@ == osc_int_message(mute_path(ch), if muted { 1 } else { 0 })
        },
    }
}

/// One timecode tick of the show at `now`. On the first tick (`started`
/// false) the cues whose position is already past are marked fired, so that
/// they do not all fire at once, and nothing fires. Afterwards the first
/// unfired cue whose position has been reached fires, at most one per tick:
/// the step names it and what it sends; the caller sends that and then marks
/// it fired. A fader cue within 400 ms of the last fader message sends
/// nothing.
pub fn execute_cues(
    cues: &mut Vec<Cue>,
    tc: TimecodeFrame,
    wing: &mut WingConn,
    started: &mut bool,
    now: u64,
) -> (step: CueStep)
    ensures
        *final(started),
        !*old(started) ==> {
            &&& step == CueStep::Synced
            &&& final(cues)@.len() == old(cues)@.len()
            &&& forall|i: int|
                0 <= i < old(cues)@.len() ==> #[trigger] final(cues)@[i] == synced_cue(
                    old(cues)@[i],
                    frame_position(tc),
                )
            &&& *final(wing) == *old(wing)
        },
        *old(started) ==> final(cues)@ == old(cues)@ && step != CueStep::Synced,
        *old(started) ==> (step == CueStep::Idle <==> none_due(old(cues)@, frame_position(tc))),
        step == CueStep::Idle ==> *final(wing) == *old(wing),
        step matches CueStep::Fire { index, send } ==> {
            let c = old(cues)@[index as int];
            &&& *old(started)
            &&& is_first_due(old(cues)@, frame_position(tc), index as int)
            &&& send_for(send, c.action, old(wing).fader_allowed(now))
            &&& (c.action is Fader && old(wing).fader_allowed(now)) ==> *final(wing) == (WingConn {
                last_fader_send: Some(now),
                ..*old(wing)
            })
            &&& !(c.action is Fader && old(wing).fader_allowed(now)) ==> *final(wing) == *old(wing)
        },
{
    let current = TC::from(tc).to_frames(CUE_FPS);
    if !*started {
        *started = true;
        let n = cues.len();
        let ghost orig = cues@;
        let mut i: usize = 0;
        while i < n
            invariant
                n == orig.len(),
                orig == old(cues)@,
                *started,
                !*old(started),
                *wing == *old(wing),
                cues@.len() == n,
                i <= n,
                current == frame_position(tc),
                forall|j: int| 0 <= j < i ==> #[trigger] cues@[j] == synced_cue(orig[j], current as int),
                forall|j: int| i <= j < n ==> #[trigger] cues@[j] == orig[j],
            decreases n - i,
        {
            let c = cues[i];
            if current > c.trigger.to_frames(CUE_FPS) {
                cues.set(i, Cue { fired: true, ..c });
            }
            assert(cues@[i as int] == synced_cue(orig[i as int], current as int));
            i = i + 1;
        }
        return CueStep::Synced;
    }
    let n = cues.len();
    let mut i: usize = 0;
    while i < n
        invariant
            n == cues@.len(),
            i <= n,
            current == frame_position(tc),
            *started,
            *old(started),
            *wing == *old(wing),
            cues@ == old(cues)@,
            forall|j: int| 0 <= j < i ==> !is_due(#[trigger] cues@[j], current as int),
        decreases n - i,
    {
        let c = cues[i];
        if !c.fired && current >= c.trigger.to_frames(CUE_FPS) {
            let send = match c.action {
                CueAction::Fader { ch, level_bits } => match wing.send_fader(ch, now) {
                    Some(path) => CueSend::Fader { path, level_bits },
                    None => CueSend::Nothing,
                },
                CueAction::Mute { ch, muted } => CueSend::Packet(mute_packet(ch, muted)),
            };
            return CueStep::Fire { index: i, send };
        }
        i = i + 1;
    }
    CueStep::Idle
}

/// Marks cue `index` as fired, once what it sends has gone out.
pub fn mark_cue_fired(cues: &mut Vec<Cue>, index: usize)
    requires
        index < old(cues)@.len(),
    ensures
        final(cues)@ == old(cues)@.update(index as int, Cue { fired: true, ..old(cues)@[index as int] }),
{
    let c = cues[index];
    cues.set(index, Cue { fired: true, ..c });
}

/// The first timecode marks fired exactly the cues already past; no cue
/// before it is left to fire later, and cues at that very frame still fire.
pub proof fn law_sync_skips_only_past_cues(cues: Seq<Cue>, current: int)
    ensures
        forall|i: int|
            0 <= i < cues.len() ==> {
                let c = #[trigger] synced_cue(cues[i], current);
                &&& c.trigger == cues[i].trigger
                &&& c.action == cues[i].action
                &&& (!c.fired ==> c.position() >= current)
                &&& (cues[i].position() >= current ==> c.fired == cues[i].fired)
            },
{
}

/// A tick fires at most one cue: marking the chosen cue changes that cue's
/// fired flag from unset to set and nothing else, and no flag is ever
/// cleared.
pub proof fn law_one_cue_per_tick(cues: Seq<Cue>, current: int, index: int)
    requires
        is_first_due(cues, current, index),
    ensures
        ({
            let after = cues.update(index, Cue { fired: true, ..cues[index] });
            &&& after.len() == cues.len()
            &&& !cues[index].fired && after[index].fired
            &&& forall|j: int| 0 <= j < cues.len() && j != index ==> #[trigger] after[j] == cues[j]
            &&& after[index].trigger == cues[index].trigger
            &&& after[index].action == cues[index].action
        }),
{
}

/// In a list in position order, the cue that fires is the earliest due one:
/// no unfired cue at an earlier position has been reached.
pub proof fn law_due_cues_fire_in_order(cues: Seq<Cue>, current: int, index: int)
    requires
        sorted_by_key(cues, by_position()),
        is_first_due(cues, current, index),
    ensures
        forall|j: int|
            0 <= j < cues.len() && is_due(cues[j], current) ==> cues[index].position()
                <= #[trigger] cues[j].position(),
{
    assert forall|j: int|
        0 <= j < cues.len() && is_due(cues[j], current) implies cues[index].position()
        <= #[trigger] cues[j].position() by {
        if j < index {
            assert(!is_due(cues[j], current));
        } else {
            lemma_position_fits(cues[index]);
            lemma_position_fits(cues[j]);
            assert((by_position())(cues[index]) <= (by_position())(cues[j]));
        }
    }
}

/// The show ends with channel 1 unmuted: its last cue is an unmute, placed
/// after every other cue.
pub proof fn law_show_ends_unmuted()
    ensures
        show_cues().len() >= 1,
        show_cues().last().action == (CueAction::Mute { ch: CUE_CHANNEL, muted: false }),
        forall|i: int|
            0 <= i < show_cues().len() - 1 ==> #[trigger] show_cues()[i].position()
                < show_cues().last().position(),
{
    law_show_in_position_order();
    lemma_show_positions(0);
    let n = show_cues().len() as int;
    assert(show_cues().last() == show_cues()[n - 1]);
    assert forall|i: int| 0 <= i < n - 1 implies #[trigger] show_cues()[i].position()
        < show_cues().last().position() by {
        assert(show_cues()[i].position() < show_cues()[n - 1].position());
    }
}

/// The first due cue is the first cue of the list that has not fired and
/// whose position (in frames) is at or before the current position, however
/// long ago that position was.
pub proof fn law_due_means_reached_and_unfired(cues: Seq<Cue>, current: int, i: int)
    ensures
        is_first_due(cues, current, i) <==> {
            &&& 0 <= i < cues.len()
            &&& !cues[i].fired
            &&& cues[i].position() <= current
            &&& forall|j: int|
                0 <= j < i ==> #[trigger] cues[j].fired || cues[j].position() > current
        },
{
}

/// A cue that is due stays due as time goes on while it has not fired and
/// every cue before it has: a late cue is never skipped.
pub proof fn law_late_cues_stay_due(cues: Seq<Cue>, current: int, later: int, i: int)
    requires
        is_first_due(cues, current, i),
        current <= later,
        forall|j: int| 0 <= j < i ==> #[trigger] cues[j].fired,
    ensures
        is_first_due(cues, later, i),
{
}

/// Positions count real time: the difference of two positions is the
/// difference in hours, minutes and seconds, in seconds, times the frame
/// rate, plus the difference in frames; midnight is position zero.
pub proof fn law_position_counts_real_time(a: TC, b: TC, fps: u8)
    ensures
        b.total_frames(fps) - a.total_frames(fps) == (((b.hours - a.hours) * 60 + (b.mins
            - a.mins)) * 60 + (b.secs - a.secs)) * fps + (b.frames - a.frames),
        (TC { hours: 0, mins: 0, secs: 0, frames: 0 }).total_frames(fps) == 0,
{
    let sa = a.hours * 3600 + a.mins * 60 + a.secs;
    let sb = b.hours * 3600 + b.mins * 60 + b.secs;
    assert(sb * fps - sa * fps == (sb - sa) * fps) by (nonlinear_arith);
    assert(0int * (fps as int) == 0) by (nonlinear_arith);
    assert(sb - sa == ((b.hours - a.hours) * 60 + (b.mins - a.mins)) * 60 + (b.secs - a.secs));
}

/// The show, cue by cue: 59 unfired cues on channel 1; first the fader
/// move to 0.75 (bit pattern 0x3F40_0000) at 01:01:05:00, then 57 mute
/// toggles at 01:01:07:00, 01:01:09:00, … 01:02:59:00 (mute first, then
/// alternately unmute and mute), then an unmute at 01:03:00:01.
pub proof fn law_show_schedule()
    ensures
        show_cues().len() == 59,
        show_cues()[0].action == (CueAction::Fader { ch: 1, level_bits: 0x3F40_0000 }),
        show_cues()[0].trigger == (TC { hours: 1, mins: 1, secs: 5, frames: 0 }),
        forall|i: int|
            1 <= i <= 57 ==> {
                &&& #[trigger] show_cues()[i].action == (CueAction::Mute {
                    ch: 1,
                    muted: i % 2 == 1,
                })
                &&& show_cues()[i].position() == (3667 + 2 * (i - 1)) * 24
                &&& show_cues()[i].trigger.frames == 0
            },
        show_cues()[58] == (Cue {
            trigger: TC { hours: 1, mins: 3, secs: 0, frames: 1 },
            action: CueAction::Mute { ch: 1, muted: false },
            fired: false,
        }),
        forall|i: int| 0 <= i < 59 ==> !(#[trigger] show_cues()[i]).fired,
{
    lemma_show_positions(0);
    assert forall|i: int| 1 <= i <= 57 implies {
        &&& #[trigger] show_cues()[i].action == (CueAction::Mute { ch: 1, muted: i % 2 == 1 })
        &&& show_cues()[i].position() == (3667 + 2 * (i - 1)) * 24
        &&& show_cues()[i].trigger.frames == 0
    } by {
        lemma_show_positions(i);
    }
}

} // verus!
