use vstd::prelude::*;

use crate::bytescale::Scale;
use crate::decimal::{digits_of, digits_value, is_u64_text, parse_u64, push_decimal};

verus! {

/// The settings of one run.
pub struct CLOptions {
    pub show_lo: bool,
    pub scale: Scale,
    pub precision: usize,
    pub repeat: u16,
    /// Pause between two queries, in whole seconds.
    pub delay: u64,
}

/// `s` without one leading `'+'`.
pub open spec fn unsigned_digits(s: Seq<char>) -> Seq<char> {
    if s.len() > 0 && s[0] == '+' {
        s.drop_first()
    } else {
        s
    }
}

/// The unsigned number that an option value spells: decimal digits, with an
/// optional leading `'+'`, whose value fits in a `u64`.
pub open spec fn option_number(s: Seq<char>) -> Option<nat> {
    if is_u64_text(unsigned_digits(s)) {
        Some(digits_value(unsigned_digits(s)))
    } else {
        None
    }
}

/// The number that an option value spells, if it lies in `lo..=hi`.
pub open spec fn option_in_range(s: Seq<char>, lo: nat, hi: nat) -> Option<nat> {
    match option_number(s) {
        Some(v) => if lo <= v && v <= hi {
            Some(v)
        } else {
            None
        },
        None => None,
    }
}

pub open spec fn range_error(what: Seq<char>, lo: nat, hi: nat) -> Seq<char> {
    what + " must be an integer value from "@ + digits_of(lo) + " to "@ + digits_of(hi)
}

/// Reads an unsigned option value.
pub fn parse_option_number(s: &str) -> (r: Option<u64>)
    ensures
        match r {
            Some(v) => option_number(s@) == Some(v as nat),
            None => option_number(s@) is None,
        },
{
    let n = s.unicode_len();
    if n > 0 && s.get_char(0) == '+' {
        parse_u64(s.substring_char(1, n))
    } else {
        parse_u64(s)
    }
}

/// The number that `s` spells if it lies in `lo..=hi`, else the error
/// that names `what` and the range.
fn number_in_range(s: &str, what: &str, lo: u64, hi: u64) -> (r: Result<u64, String>)
    ensures
        match r {
            Ok(v) => option_in_range(s@, lo as nat, hi as nat) == Some(v as nat),
            Err(e) => option_in_range(s@, lo as nat, hi as nat) is None && e@ == range_error(
                what@,
                lo as nat,
                hi as nat,
            ),
        },
{
    if let Some(v) = parse_option_number(s) {
        if lo <= v && v <= hi {
            return Ok(v);
        }
    }
    let mut e = String::from_str(what);
    e.append(" must be an integer value from ");
    push_decimal(&mut e, lo as u128);
    e.append(" to ");
    push_decimal(&mut e, hi as u128);
    Err(e)
}

/// `intro` followed by the range `lo-hi` in parentheses and the default.
fn help_text(intro: &str, lo: u64, hi: u64, default: &str) -> (r: String)
    ensures
        r@ == help(intro@, lo as nat, hi as nat, default@),
{
    let mut h = String::from_str(intro);
    h.append(" (");
    push_decimal(&mut h, lo as u128);
    h.append("-");
    push_decimal(&mut h, hi as u128);
    h.append(")\n(default: ");
    h.append(default);
    h.append(")");
    h
}

pub open spec fn help(intro: Seq<char>, lo: nat, hi: nat, default: Seq<char>) -> Seq<char> {
    intro + " ("@ + digits_of(lo) + "-"@ + digits_of(hi) + ")\n(default: "@ + default + ")"@
}

/// Number of digits shown after the decimal point of a scaled byte count.
pub struct Precision;

impl Precision {
    pub const DEFAULT: usize = 3;

    pub const MAX: usize = 8;

    /// Reads a precision from `0` to `MAX`.
    pub fn from_string(s: String) -> (r: Result<usize, String>)
        ensures
            match r {
                Ok(p) => option_in_range(s@, 0, Self::MAX as nat) == Some(p as nat),
                Err(e) => option_in_range(s@, 0, Self::MAX as nat) is None && e@ == range_error(
                    "precision"@,
                    0,
                    Self::MAX as nat,
                ),
            },
    {
        match number_in_range(s.as_str(), "precision", 0, Self::MAX as u64) {
            Ok(p) => Ok(p as usize),
            Err(e) => Err(e),
        }
    }

    pub fn opt_help() -> (r: String)
        ensures
            r@ == help("precision of scaled byte count"@, 0, Self::MAX as nat, "3"@),
    {
        help_text("precision of scaled byte count", 0, Self::MAX as u64, "3")
    }
}

/// Number of times the counters are queried.
pub struct Repeat;

impl Repeat {
    pub const DEFAULT: u16 = 1;

    pub const MAX: u16 = 60;

    /// Reads a repeat count from `1` to `MAX`.
    pub fn from_string(s: String) -> (r: Result<u16, String>)
        ensures
            match r {
                Ok(n) => option_in_range(s@, 1, Self::MAX as nat) == Some(n as nat),
                Err(e) => option_in_range(s@, 1, Self::MAX as nat) is None && e@ == range_error(
                    "repeat"@,
                    1,
                    Self::MAX as nat,
                ),
            },
    {
        match number_in_range(s.as_str(), "repeat", 1, Self::MAX as u64) {
            Ok(n) => Ok(n as u16),
            Err(e) => Err(e),
        }
    }

    pub fn opt_help() -> (r: String)
        ensures
            r@ == help("query /proc/net/dev COUNT times"@, 1, Self::MAX as nat, "1"@),
    {
        help_text("query /proc/net/dev COUNT times", 1, Self::MAX as u64, "1")
    }
}

/// Whether each round of queries starts with a timestamp: only where more
/// than one round runs.
pub fn shows_timestamp(repeat: u16) -> (r: bool)
    ensures
        r == (repeat > 1),
{
    repeat > 1
}

/// The step after a round, where `remaining` rounds were left counting that
/// one: the rounds left after it, and whether to pause and run another.
pub fn next_round(remaining: u16) -> (r: (u16, bool))
    ensures
        r.0 == (if remaining > 0 {
            remaining - 1
        } else {
            0
        }),
        r.1 == (remaining > 1),
{
    if remaining > 0 {
        (remaining - 1, remaining > 1)
    } else {
        (0, false)
    }
}

/// Pause between two queries, in whole seconds.
pub struct Delay;

impl Delay {
    pub const DEFAULT: u64 = 5;

    pub const MAX: u64 = 60;

    /// Reads a delay from `1` to `MAX` seconds.
    pub fn from_string(s: String) -> (r: Result<u64, String>)
        ensures
            match r {
                Ok(d) => option_in_range(s@, 1, Self::MAX as nat) == Some(d as nat),
                Err(e) => option_in_range(s@, 1, Self::MAX as nat) is None && e@ == range_error(
                    "delay"@,
                    1,
                    Self::MAX as nat,
                ),
            },
    {
        number_in_range(s.as_str(), "delay", 1, Self::MAX)
    }

    pub fn opt_help() -> (r: String)
        ensures
            r@ == help("delay between queries in SECONDS"@, 1, Self::MAX as nat, "5"@),
    {
        help_text("delay between queries in SECONDS", 1, Self::MAX, "5")
    }
}

} // verus!
