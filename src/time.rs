//! Timestamps: a count of milliseconds, read from and written in the three
//! dialects (`H:MM:SS.cc`, `HH:MM:SS,mmm`, `[HH:]MM:SS.mmm`).
use vstd::prelude::*;
use crate::text::{lemma_digits_bound, pow10, chars_of, digits_value, is_digit, is_digits, padded, parse_u32, push_padded, slice_of, split, split_exec, string_of, views};

verus! {

/// The textual dialect of a timestamp.
#[derive(Clone, Copy, Debug, PartialEq, Eq, Structural)]
pub enum TimeFormat {
    /// `H:MM:SS.cc`: centiseconds, used by the styled-script format.
    Ass,
    /// `HH:MM:SS,mmm`: comma before the milliseconds, used by the sequential-cue format.
    Srt,
    /// `[HH:]MM:SS.mmm`: the hours may be left out, used by the cue-block format.
    Vtt,
}

/// A timestamp that could not be read: a field is not a number of the right
/// width or range, or there are too many or too few `:`-separated fields.
#[derive(Clone, Debug, PartialEq, Eq)]
pub struct TimeError {
    /// The text that was refused.
    pub text: String,
}

/// A point in time, in whole milliseconds from zero.
#[derive(Clone, Copy, Debug, PartialEq, Eq, Structural)]
pub struct Time {
    pub ms: u32,
}

pub open spec fn ms_per_hour() -> nat {
    3_600_000
}

/// The separator before the fraction of a second.
pub open spec fn fraction_sep(f: TimeFormat) -> char {
    if f == TimeFormat::Srt {
        ','
    } else {
        '.'
    }
}

/// The number of digits of the fraction of a second.
pub open spec fn fraction_len(f: TimeFormat) -> nat {
    if f == TimeFormat::Ass {
        2
    } else {
        3
    }
}

/// Milliseconds per unit of the fraction.
pub open spec fn fraction_unit(f: TimeFormat) -> nat {
    if f == TimeFormat::Ass {
        10
    } else {
        1
    }
}

/// Exactly two decimal digits, below sixty.
pub open spec fn sexagesimal(s: Seq<char>) -> bool {
    s.len() == 2 && is_digits(s) && digits_value(s) < 60
}

/// `SS<sep>fff`: the seconds and the fraction, as milliseconds.
pub open spec fn seconds_part(s: Seq<char>, f: TimeFormat) -> Option<nat> {
    let n = fraction_len(f);
    if s.len() == 3 + n && sexagesimal(s.take(2)) && s[2] == fraction_sep(f) && is_digits(s.skip(3)) {
        Some(digits_value(s.take(2)) * 1000 + digits_value(s.skip(3)) * fraction_unit(f))
    } else {
        None
    }
}

/// The milliseconds that hours, minutes and a seconds part give together.
pub open spec fn hms_value(h: Seq<char>, m: Seq<char>, sec: Seq<char>, f: TimeFormat) -> Option<nat> {
    if is_digits(h) && sexagesimal(m) && seconds_part(sec, f) is Some {
        Some(digits_value(h) * ms_per_hour() + digits_value(m) * 60_000 + seconds_part(sec, f)->0)
    } else {
        None
    }
}

/// The milliseconds that a timestamp of dialect `f` denotes, where it is one.
/// Minutes and seconds take two digits each, hours one or more; only the
/// cue-block dialect may leave the hours out.
pub open spec fn time_text_value(s: Seq<char>, f: TimeFormat) -> Option<nat> {
    let parts = split(s, ':');
    if parts.len() == 3 {
        hms_value(parts[0], parts[1], parts[2], f)
    } else if parts.len() == 2 && f == TimeFormat::Vtt {
        hms_value(seq!['0'], parts[0], parts[1], f)
    } else {
        None
    }
}

/// What parsing `s` in dialect `f` gives: a time where `s` is a timestamp whose value fits.
pub open spec fn parse_time_spec(s: Seq<char>, f: TimeFormat) -> Option<Time> {
    match time_text_value(s, f) {
        Some(v) => if v <= u32::MAX {
            Some(Time { ms: v as u32 })
        } else {
            None
        },
        None => None,
    }
}

impl Time {
    pub open spec fn spec_ms(self) -> nat {
        self.ms as nat
    }

    pub open spec fn spec_hours(self) -> nat {
        self.ms as nat / ms_per_hour()
    }

    pub open spec fn spec_minutes(self) -> nat {
        (self.ms as nat / 60_000) % 60
    }

    pub open spec fn spec_seconds(self) -> nat {
        (self.ms as nat / 1000) % 60
    }

    pub open spec fn spec_millis(self) -> nat {
        self.ms as nat % 1000
    }

    /// The text of this time in dialect `f`.
    pub open spec fn spec_format(self, f: TimeFormat) -> Seq<char> {
        let hour_width: nat = if f == TimeFormat::Ass { 1 } else { 2 };
        let frac = if f == TimeFormat::Ass { self.spec_millis() / 10 } else { self.spec_millis() };
        padded(self.spec_hours(), hour_width) + seq![':'] + padded(self.spec_minutes(), 2) + seq![':']
            + padded(self.spec_seconds(), 2) + seq![fraction_sep(f)] + padded(frac, fraction_len(f))
    }

    /// The time `ms` milliseconds from zero.
    pub fn from_ms(ms: u32) -> (r: Time)
        ensures
            r.spec_ms() == ms,
    {
        Time { ms }
    }

    /// The time zero.
    pub fn zero() -> (r: Time)
        ensures
            r.spec_ms() == 0,
    {
        Time { ms: 0 }
    }

    pub fn total_ms(&self) -> (r: u32)
        ensures
            r == self.spec_ms(),
    {
        self.ms
    }

    pub fn set_ms(&mut self, ms: u32)
        ensures
            final(self).spec_ms() == ms,
    {
        self.ms = ms;
    }

    pub fn hours(&self) -> (r: u32)
        ensures
            r == self.spec_hours(),
    {
        self.ms / 3_600_000
    }

    pub fn minutes(&self) -> (r: u32)
        ensures
            r == self.spec_minutes(),
    {
        (self.ms / 60_000) % 60
    }

    pub fn seconds(&self) -> (r: u32)
        ensures
            r == self.spec_seconds(),
    {
        (self.ms / 1000) % 60
    }

    pub fn millis(&self) -> (r: u32)
        ensures
            r == self.spec_millis(),
    {
        self.ms % 1000
    }

    /// Moves the time by `delta` milliseconds; the result is held between zero and
    /// the largest time (moving before zero gives zero).
    pub fn shift(&mut self, delta: i64)
        ensures
            final(self).spec_ms() == (if old(self).spec_ms() + delta < 0 {
                0
            } else if old(self).spec_ms() + delta > u32::MAX {
                u32::MAX as int
            } else {
                old(self).spec_ms() + delta
            }),
    {
        let v: i128 = self.ms as i128 + delta as i128;
        if v < 0 {
            self.ms = 0;
        } else if v > u32::MAX as i128 {
            self.ms = u32::MAX;
        } else {
            self.ms = v as u32;
        }
    }

    /// Parses a timestamp of dialect `f`; a malformed one is an error that
    /// holds its text.
    pub fn parse(s: &str, f: TimeFormat) -> (r: Result<Time, TimeError>)
        ensures
            match r {
                Ok(t) => parse_time_spec(s@, f) == Some(t),
                Err(e) => parse_time_spec(s@, f) is None && e.text@ == s@,
            },
    {
        let v = chars_of(s);
        match parse_time_chars(v.as_slice(), f) {
            Some(t) => Ok(t),
            None => Err(TimeError { text: string_of(v.as_slice()) }),
        }
    }

    /// The text of this time in dialect `f`.
    pub fn format_chars(&self, f: TimeFormat) -> (r: Vec<char>)
        ensures
            r@ == self.spec_format(f),
    {
        let mut out: Vec<char> = Vec::new();
        let hour_width: usize = if f == TimeFormat::Ass { 1 } else { 2 };
        let frac: u32 = if f == TimeFormat::Ass { self.millis() / 10 } else { self.millis() };
        let frac_width: usize = if f == TimeFormat::Ass { 2 } else { 3 };
        push_padded(&mut out, self.hours() as u64, hour_width);
        out.push(':');
        push_padded(&mut out, self.minutes() as u64, 2);
        out.push(':');
        push_padded(&mut out, self.seconds() as u64, 2);
        out.push(if f == TimeFormat::Srt { ',' } else { '.' });
        push_padded(&mut out, frac as u64, frac_width);
        assert(out@ =~= self.spec_format(f));
        out
    }

    /// `H:MM:SS.cc`, the hundredths truncated.
    pub fn to_ass_string(&self) -> (r: String)
        ensures
            r@ == self.spec_format(TimeFormat::Ass),
    {
        string_of(self.format_chars(TimeFormat::Ass).as_slice())
    }

    /// `HH:MM:SS,mmm`.
    pub fn to_srt_string(&self) -> (r: String)
        ensures
            r@ == self.spec_format(TimeFormat::Srt),
    {
        string_of(self.format_chars(TimeFormat::Srt).as_slice())
    }

    /// `HH:MM:SS.mmm`.
    pub fn to_vtt_string(&self) -> (r: String)
        ensures
            r@ == self.spec_format(TimeFormat::Vtt),
    {
        string_of(self.format_chars(TimeFormat::Vtt).as_slice())
    }
}

fn sexagesimal_exec(s: &[char]) -> (r: Option<u32>)
    ensures
        r == (if sexagesimal(s@) {
            Some(digits_value(s@) as u32)
        } else {
            None
        }),
{
    if s.len() != 2 {
        return None;
    }
    match parse_u32(s) {
        Some(v) => if v < 60 {
            Some(v)
        } else {
            None
        },
        None => None,
    }
}

fn seconds_part_exec(s: &[char], f: TimeFormat) -> (r: Option<u64>)
    ensures
        r == (match seconds_part(s@, f) {
            Some(v) => Some(v as u64),
            None => None,
        }),
{
    let n: usize = if f == TimeFormat::Ass { 2 } else { 3 };
    let sep = if f == TimeFormat::Srt { ',' } else { '.' };
    if s.len() != 3 + n {
        return None;
    }
    let whole = slice_of(s, 0, 2);
    let frac = slice_of(s, 3, s.len());
    assert(whole@ =~= s@.take(2));
    assert(frac@ =~= s@.skip(3));
    let w = match sexagesimal_exec(whole.as_slice()) {
        Some(w) => w,
        None => return None,
    };
    if s[2] != sep {
        return None;
    }
    let fr = match parse_u32(frac.as_slice()) {
        Some(fr) => fr,
        None => {
            proof {
                if is_digits(frac@) {
                    lemma_short_digits_fit(frac@);
                }
            }
            return None;
        },
    };
    proof {
        lemma_short_digits_fit(frac@);
    }
    let unit: u64 = if f == TimeFormat::Ass { 10 } else { 1 };
    Some(w as u64 * 1000 + fr as u64 * unit)
}

/// Three digits or fewer denote a number below a thousand.
proof fn lemma_short_digits_fit(s: Seq<char>)
    requires
        is_digits(s),
        s.len() <= 3,
    ensures
        digits_value(s) < 1000,
{
    lemma_digits_bound(s);
    lemma_pow10_small();
}

proof fn lemma_two_digits(s: Seq<char>)
    requires
        is_digits(s),
        s.len() == 2,
    ensures
        digits_value(s) < 100,
{
    lemma_digits_bound(s);
    lemma_pow10_small();
}

proof fn lemma_pow10_small()
    ensures
        pow10(1) == 10,
        pow10(2) == 100,
        pow10(3) == 1000,
{
    assert(pow10(0) == 1);
    assert(pow10(1) == 10);
    assert(pow10(2) == 100);
}

fn hms_exec(h: &[char], m: &[char], sec: &[char], f: TimeFormat) -> (r: Option<Time>)
    ensures
        r == (match hms_value(h@, m@, sec@, f) {
            Some(v) => if v <= u32::MAX {
                Some(Time { ms: v as u32 })
            } else {
                None
            },
            None => None,
        }),
{
    let hv = match parse_u32(h) {
        Some(hv) => hv,
        None => {
            proof {
                if is_digits(h@) {
                    assert(digits_value(h@) * ms_per_hour() > u32::MAX);
                }
            }
            return None;
        },
    };
    let mv = match sexagesimal_exec(m) {
        Some(mv) => mv,
        None => return None,
    };
    let sv = match seconds_part_exec(sec, f) {
        Some(sv) => sv,
        None => return None,
    };
    proof {
        lemma_seconds_bound(sec@, f);
    }
    let total: u64 = hv as u64 * 3_600_000 + mv as u64 * 60_000 + sv;
    if total > u32::MAX as u64 {
        None
    } else {
        Some(Time { ms: total as u32 })
    }
}

proof fn lemma_seconds_bound(s: Seq<char>, f: TimeFormat)
    requires
        seconds_part(s, f) is Some,
    ensures
        seconds_part(s, f)->0 < 60_000,
{
    lemma_short_digits_fit(s.skip(3));
    if f == TimeFormat::Ass {
        lemma_two_digits(s.skip(3));
    }
}

/// Parses the characters of a timestamp of dialect `f`.
pub fn parse_time_chars(s: &[char], f: TimeFormat) -> (r: Option<Time>)
    ensures
        r == parse_time_spec(s@, f),
{
    let parts = split_exec(s, ':');
    assert(views(parts@) == split(s@, ':'));
    if parts.len() == 3 {
        assert(parts[0]@ == split(s@, ':')[0]);
        assert(parts[1]@ == split(s@, ':')[1]);
        assert(parts[2]@ == split(s@, ':')[2]);
        hms_exec(parts[0].as_slice(), parts[1].as_slice(), parts[2].as_slice(), f)
    } else if parts.len() == 2 && f == TimeFormat::Vtt {
        assert(parts[0]@ == split(s@, ':')[0]);
        assert(parts[1]@ == split(s@, ':')[1]);
        let zero = vec!['0'];
        assert(zero@ =~= seq!['0']);
        hms_exec(zero.as_slice(), parts[0].as_slice(), parts[1].as_slice(), f)
    } else {
        None
    }
}

} // verus!
