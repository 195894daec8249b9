use vstd::prelude::*;

use crate::error::InvalidArgument;
use crate::error::ParseError;
use crate::error::ParseErrorView;
use crate::utils::decimal_text;
use crate::utils::field_value;
use crate::utils::find_from;
use crate::utils::parse_field;
use crate::utils::push_decimal;

verus! {

/// A disc position in minutes, seconds (under 60) and frames (75 to the second).
#[derive(Debug, Clone, Copy, PartialEq, Eq, Hash)]
pub struct TimeStamp {
    minutes: u32,
    seconds: u32,
    frames: u32,
}

/// A (minutes, seconds, frames) triple that a `TimeStamp` can hold.
pub open spec fn valid_msf(v: (u32, u32, u32)) -> bool {
    v.1 < 60 && v.2 < 75
}

/// The number of frames that a triple stands for.
pub open spec fn total_frames(m: u32, s: u32, f: u32) -> nat {
    (m as nat) * 4500 + (s as nat) * 75 + (f as nat)
}

/// The text `MM:SS:FF` of a time stamp, each part at least two digits wide.
pub open spec fn timestamp_text(v: (u32, u32, u32)) -> Seq<char> {
    decimal_text(v.0 as nat, 2) + ":"@ + decimal_text(v.1 as nat, 2) + ":"@ + decimal_text(v.2 as nat, 2)
}

/// The time stamp that `s` writes as three colon-separated decimal fields.
pub open spec fn timestamp_spec(s: Seq<char>) -> Option<(u32, u32, u32)> {
    let a = find_from(s, ':', 0);
    let b = find_from(s, ':', a + 1);
    if b < s.len() {
        match (
            field_value(s.subrange(0, a)),
            field_value(s.subrange(a + 1, b)),
            field_value(s.subrange(b + 1, s.len() as int)),
        ) {
            (Some(m), Some(sec), Some(f)) => if sec < 60 && f < 75 {
                Some((m, sec, f))
            } else {
                None
            },
            _ => None,
        }
    } else {
        None
    }
}

impl View for TimeStamp {
    type V = (u32, u32, u32);

    closed spec fn view(&self) -> (u32, u32, u32) {
        (self.minutes, self.seconds, self.frames)
    }
}

impl TimeStamp {
    pub fn new(minutes: u32, seconds: u32, frames: u32) -> (r: Self)
        requires
            seconds < 60,
            frames < 75,
        ensures
            r@ == (minutes, seconds, frames),
    {
        TimeStamp { minutes, seconds, frames }
    }

    pub fn from_msf_opt(minutes: u32, seconds: u32, frames: u32) -> (r: Option<Self>)
        ensures
            r.is_some() == valid_msf((minutes, seconds, frames)),
            r.is_some() ==> r.unwrap()@ == (minutes, seconds, frames),
    {
        if seconds < 60 && frames < 75 {
            Some(TimeStamp { minutes, seconds, frames })
        } else {
            None
        }
    }

    /// The time stamp of the same total length, with seconds and frames carried over.
    pub fn from_msf(minutes: u32, seconds: u32, frames: u32) -> (r: Self)
        requires
            total_frames(minutes, seconds, frames) / 4500 <= u32::MAX,
        ensures
            total_frames(r@.0, r@.1, r@.2) == total_frames(minutes, seconds, frames),
            valid_msf(r@),
    {
        let total: u64 = minutes as u64 * 4500 + seconds as u64 * 75 + frames as u64;
        let m = (total / 4500) as u32;
        let rest = total % 4500;
        let s = (rest / 75) as u32;
        let f = (rest % 75) as u32;
        assert(total == m as nat * 4500 + s as nat * 75 + f as nat) by (nonlinear_arith)
            requires
                m == total / 4500,
                rest == total % 4500,
                s == rest / 75,
                f == rest % 75,
        ;
        TimeStamp { minutes: m, seconds: s, frames: f }
    }

    pub fn minutes(&self) -> (r: u32)
        ensures
            r == self@.0,
    {
        self.minutes
    }

    pub fn seconds(&self) -> (r: u32)
        ensures
            r == self@.1,
    {
        self.seconds
    }

    pub fn frames(&self) -> (r: u32)
        ensures
            r == self@.2,
    {
        self.frames
    }

    pub fn set_minutes(&mut self, minutes: u32)
        ensures
            final(self)@ == (minutes, old(self)@.1, old(self)@.2),
    {
        self.minutes = minutes;
    }

    pub fn set_seconds(&mut self, seconds: u32)
        requires
            seconds < 60,
        ensures
            final(self)@ == (old(self)@.0, seconds, old(self)@.2),
    {
        self.seconds = seconds;
    }

    pub fn set_frames(&mut self, frames: u32)
        requires
            frames < 75,
        ensures
            final(self)@ == (old(self)@.0, old(self)@.1, frames),
    {
        self.frames = frames;
    }

    /// Reads `MM:SS:FF`; anything else is an invalid time stamp.
    pub fn from_text(s: &str) -> (r: Result<Self, ParseError>)
        ensures
            r.is_ok() == timestamp_spec(s@).is_some(),
            r.is_ok() ==> r.unwrap()@ == timestamp_spec(s@).unwrap(),
            r.is_err() ==> r.unwrap_err()@ == ParseErrorView::InvalidArgument(
                InvalidArgument::InvalidTimestamp,
            ),
    {
        let n = s.unicode_len();
        let mut a: usize = 0;
        while a < n && s.get_char(a) != ':'
            invariant
                a <= n,
                n == s@.len(),
                find_from(s@, ':', 0) == find_from(s@, ':', a as int),
            decreases n - a,
        {
            a += 1;
        }
        if a >= n {
            return Err(ParseError::InvalidArgument(InvalidArgument::InvalidTimestamp));
        }
        let mut b: usize = a + 1;
        while b < n && s.get_char(b) != ':'
            invariant
                a < b <= n,
                n == s@.len(),
                find_from(s@, ':', a + 1) == find_from(s@, ':', b as int),
            decreases n - b,
        {
            b += 1;
        }
        if b >= n {
            return Err(ParseError::InvalidArgument(InvalidArgument::InvalidTimestamp));
        }
        let m = parse_field(s.substring_char(0, a));
        let sec = parse_field(s.substring_char(a + 1, b));
        let f = parse_field(s.substring_char(b + 1, n));
        match (m, sec, f) {
            (Some(m), Some(sec), Some(f)) => {
                if sec < 60 && f < 75 {
                    Ok(TimeStamp { minutes: m, seconds: sec, frames: f })
                } else {
                    Err(ParseError::InvalidArgument(InvalidArgument::InvalidTimestamp))
                }
            },
            _ => Err(ParseError::InvalidArgument(InvalidArgument::InvalidTimestamp)),
        }
    }

    /// Writes `MM:SS:FF`, each part at least two digits wide.
    pub fn to_string(&self) -> (r: String)
        ensures
            r@ == timestamp_text(self@),
    {
        let mut out = String::new();
        push_decimal(&mut out, self.minutes as u64, 2);
        out.append(":");
        push_decimal(&mut out, self.seconds as u64, 2);
        out.append(":");
        push_decimal(&mut out, self.frames as u64, 2);
        out
    }
}

impl std::str::FromStr for TimeStamp {
    type Err = ParseError;

    fn from_str(s: &str) -> Result<Self, ParseError> {
        TimeStamp::from_text(s)
    }
}

} // verus!
