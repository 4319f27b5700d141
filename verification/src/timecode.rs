//! SMPTE timecode frames and their `HH:MM:SS:FF` text form.

use vstd::prelude::*;
use crate::text::{
    all_digits, chars_of, decimal, decimal_pad2, digit_char, digit_value, digits_value, free_of,
    is_digit, lemma_split_free, lemma_split_join, parse_u8, push_char, push_pad2, spec_parse_u8,
    split_chars, split_on, unsigned_digits,
};

verus! {

/// One decoded timecode position.
#[derive(Debug, Clone, Copy, PartialEq, Eq, Structural)]
pub struct TimecodeFrame {
    pub hours: u8,
    pub mins: u8,
    pub secs: u8,
    pub frames: u8,
}

/// The text `HH:MM:SS:FF`, each field written as `{:02}` writes it.
pub open spec fn spec_format_timecode(hours: u8, mins: u8, secs: u8, frames: u8) -> Seq<char> {
    decimal_pad2(hours as nat) + seq![':'] + decimal_pad2(mins as nat) + seq![':']
        + decimal_pad2(secs as nat) + seq![':'] + decimal_pad2(frames as nat)
}

/// What `parse_timecode` reads from `s`: exactly four `:`-separated fields,
/// each of them a `u8` as `str::parse` reads it.
pub open spec fn spec_parse_timecode(s: Seq<char>) -> Option<TimecodeFrame> {
    let p = split_on(s, ':');
    if p.len() == 4 {
        match (spec_parse_u8(p[0]), spec_parse_u8(p[1]), spec_parse_u8(p[2]), spec_parse_u8(p[3])) {
            (Some(h), Some(m), Some(sec), Some(f)) => Some(
                TimecodeFrame { hours: h, mins: m, secs: sec, frames: f },
            ),
            _ => None,
        }
    } else {
        None
    }
}

/// Writes a timecode as `HH:MM:SS:FF`.
pub fn format_timecode(hours: u8, mins: u8, secs: u8, frames: u8) -> (s: String)
    ensures
        s@ == spec_format_timecode(hours, mins, secs, frames),
{
    let mut s = String::new();
    push_pad2(&mut s, hours);
    push_char(&mut s, ':');
    push_pad2(&mut s, mins);
    push_char(&mut s, ':');
    push_pad2(&mut s, secs);
    push_char(&mut s, ':');
    push_pad2(&mut s, frames);
    assert(s@ =~= spec_format_timecode(hours, mins, secs, frames));
    s
}

impl TimecodeFrame {
    /// This frame as `HH:MM:SS:FF`.
    pub fn to_text(&self) -> (s: String)
        ensures
            s@ == spec_format_timecode(self.hours, self.mins, self.secs, self.frames),
    {
        format_timecode(self.hours, self.mins, self.secs, self.frames)
    }
}

/// Reads `HH:MM:SS:FF` into a frame; `None` unless the text has exactly four
/// `:`-separated fields that each read as a `u8`.
pub fn parse_timecode(s: &str) -> (r: Option<TimecodeFrame>)
    ensures
        r == spec_parse_timecode(s@),
{
    let chars = chars_of(s);
    let parts = split_chars(&chars, ':');
    if parts.len() != 4 {
        return None;
    }
    match (parse_u8(&parts[0]), parse_u8(&parts[1]), parse_u8(&parts[2]), parse_u8(&parts[3])) {
        (Some(h), Some(m), Some(sec), Some(f)) => Some(
            TimecodeFrame { hours: h, mins: m, secs: sec, frames: f },
        ),
        _ => None,
    }
}

/// The `{:02}` text of a `u8` holds no `':'` and reads back as the same value.
pub proof fn lemma_pad2_reads_back(n: u8)
    ensures
        free_of(decimal_pad2(n as nat), ':'),
        spec_parse_u8(decimal_pad2(n as nat)) == Some(n),
{
    let t = decimal_pad2(n as nat);
    assert(digits_value(Seq::<char>::empty()) == 0);
    assert(forall|d: int|
        0 <= d < 10 ==> is_digit(#[trigger] digit_char(d)) && digit_value(digit_char(d)) == d);
    if n < 10 {
        assert(t =~= seq!['0', digit_char(n as int)]);
        assert(t.drop_last() =~= seq!['0']);
        assert(t.drop_last().drop_last() =~= Seq::<char>::empty());
        assert(digits_value(t.drop_last().drop_last()) == 0);
        assert('0' as u32 == 48);
        assert(digits_value(t.drop_last()) == 0);
        assert(digits_value(t) == n);
        assert(all_digits(t));
    } else if n < 100 {
        assert(decimal((n / 10) as nat) == seq![digit_char((n / 10) as int)]);
        assert(t =~= seq![digit_char((n / 10) as int), digit_char((n % 10) as int)]);
        assert(t.drop_last() =~= seq![digit_char((n / 10) as int)]);
        assert(t.drop_last().drop_last() =~= Seq::<char>::empty());
        assert(digits_value(t.drop_last().drop_last()) == 0);
        assert(digits_value(t.drop_last()) == n / 10);
        assert(digits_value(t) == n);
        assert(all_digits(t));
    } else {
        assert(decimal((n / 100) as nat) == seq![digit_char((n / 100) as int)]);
        assert((n / 10) / 10 == n / 100);
        assert(decimal((n / 10) as nat) =~= seq![
            digit_char((n / 100) as int),
            digit_char(((n / 10) % 10) as int),
        ]);
        assert(t =~= seq![
            digit_char((n / 100) as int),
            digit_char(((n / 10) % 10) as int),
            digit_char((n % 10) as int),
        ]);
        assert(t.drop_last() =~= seq![
            digit_char((n / 100) as int),
            digit_char(((n / 10) % 10) as int),
        ]);
        assert(t.drop_last().drop_last() =~= seq![digit_char((n / 100) as int)]);
        assert(t.drop_last().drop_last().drop_last() =~= Seq::<char>::empty());
        assert(digits_value(t.drop_last().drop_last().drop_last()) == 0);
        assert(digits_value(t.drop_last().drop_last()) == n / 100);
        assert(digits_value(t.drop_last()) == n / 10);
        assert(digits_value(t) == n);
        assert(all_digits(t));
    }
    assert(unsigned_digits(t) == t);
}

/// Reading back the text of a timecode gives the same timecode.
pub proof fn law_timecode_text_round_trip(t: TimecodeFrame)
    ensures
        spec_parse_timecode(spec_format_timecode(t.hours, t.mins, t.secs, t.frames)) == Some(t),
{
    let a = decimal_pad2(t.hours as nat);
    let b = decimal_pad2(t.mins as nat);
    let c = decimal_pad2(t.secs as nat);
    let d = decimal_pad2(t.frames as nat);
    lemma_pad2_reads_back(t.hours);
    lemma_pad2_reads_back(t.mins);
    lemma_pad2_reads_back(t.secs);
    lemma_pad2_reads_back(t.frames);
    lemma_split_free(a, ':');
    lemma_split_free(b, ':');
    lemma_split_free(c, ':');
    lemma_split_free(d, ':');
    lemma_split_join(c, d, ':');
    lemma_split_join(b, c.push(':') + d, ':');
    lemma_split_join(a, b.push(':') + (c.push(':') + d), ':');
    assert(spec_format_timecode(t.hours, t.mins, t.secs, t.frames) =~= a.push(':') + (b.push(
        ':',
    ) + (c.push(':') + d)));
    let p = split_on(spec_format_timecode(t.hours, t.mins, t.secs, t.frames), ':');
    assert(p =~= seq![a, b, c, d]);
}

} // verus!
