//! Output timezone selection and timestamp rendering.
//!
//! The operator names a timezone as `UTC`, `local`, a fixed offset
//! `+HH:MM` / `-HH:MM`, or an IANA zone (`Area/City`). Parsing is exact
//! here; the rendering itself comes from an outside calendar
//! implementation, so UTC and fixed-offset text is only named, and local
//! text (which depends on the process environment) is not described at all.

use crate::identity::lower_byte;
use vstd::prelude::*;

verus! {

/// How timestamps are rendered.
#[derive(Clone, Copy, PartialEq, Eq, Structural, Debug)]
pub enum OutputTz {
    Utc,
    Local,
    /// An IANA zone was named; the surrounding program points the process's
    /// local zone at it and then renders local time.
    Iana,
    /// A fixed offset east of UTC, in seconds.
    Fixed(i32),
}

/// Why a timezone argument was rejected.
#[derive(Clone, Copy, PartialEq, Eq, Structural, Debug)]
pub enum TzError {
    /// A `+HH:MM` / `-HH:MM` form with an hour above 23 or a minute above 59.
    InvalidOffset,
    /// Anything else that names no known form.
    Invalid,
}

/// ASCII whitespace, as trimmed from the argument's ends.
pub open spec fn is_ascii_ws(b: u8) -> bool {
    b == 32 || b == 9 || b == 10 || b == 13 || b == 12
}

/// The first index at or after `i` holding a non-whitespace byte.
pub open spec fn scan_front(s: Seq<u8>, i: int) -> int
    recommends
        0 <= i <= s.len(),
    decreases s.len() - i,
{
    if i < 0 || i >= s.len() {
        s.len() as int
    } else if is_ascii_ws(s[i]) {
        scan_front(s, i + 1)
    } else {
        i
    }
}

/// The index one past the last non-whitespace byte before `i`.
pub open spec fn scan_back(s: Seq<u8>, i: int) -> int
    recommends
        0 <= i <= s.len(),
    decreases i,
{
    if i <= 0 {
        0
    } else if is_ascii_ws(s[i - 1]) {
        scan_back(s, i - 1)
    } else {
        i
    }
}

/// `scan_front` never moves backward nor past the end.
proof fn lemma_scan_front_bounds(s: Seq<u8>, i: int)
    requires
        0 <= i <= s.len(),
    ensures
        i <= scan_front(s, i) <= s.len(),
    decreases s.len() - i,
{
    if i < s.len() && is_ascii_ws(s[i]) {
        lemma_scan_front_bounds(s, i + 1);
    }
}

/// `scan_back` never moves forward nor before the start.
proof fn lemma_scan_back_bounds(s: Seq<u8>, i: int)
    requires
        0 <= i <= s.len(),
    ensures
        0 <= scan_back(s, i) <= i,
    decreases i,
{
    if i > 0 && is_ascii_ws(s[i - 1]) {
        lemma_scan_back_bounds(s, i - 1);
    }
}

/// The argument with ASCII whitespace trimmed from both ends.
pub open spec fn trimmed_spec(s: Seq<u8>) -> Seq<u8> {
    let lo = scan_front(s, 0);
    let hi = scan_back(s, s.len() as int);
    if lo >= hi {
        Seq::empty()
    } else {
        s.subrange(lo, hi)
    }
}

/// Case-insensitive equality with a lowercase word.
pub open spec fn eq_ignore_case(s: Seq<u8>, word: Seq<u8>) -> bool {
    s.len() == word.len() && (forall|i: int|
        0 <= i < s.len() ==> lower_byte(#[trigger] s[i]) == word[i])
}

/// An ASCII decimal digit.
pub open spec fn is_digit(b: u8) -> bool {
    48 <= b <= 57
}

/// What a timezone argument means: `utc` and `local` in any case, a
/// six-character signed `HH:MM` offset (hours to 23, minutes to 59), or a
/// name containing `/`, taken as an IANA zone.
pub open spec fn spec_parse_output_tz(s: Seq<u8>) -> Result<OutputTz, TzError> {
    let t = trimmed_spec(s);
    if eq_ignore_case(t, seq![117u8, 116u8, 99u8]) {
        Ok(OutputTz::Utc)
    } else if eq_ignore_case(t, seq![108u8, 111u8, 99u8, 97u8, 108u8]) {
        Ok(OutputTz::Local)
    } else if t.len() == 6 && (t[0] == 43 || t[0] == 45) && t[3] == 58 {
        if is_digit(t[1]) && is_digit(t[2]) && is_digit(t[4]) && is_digit(t[5]) {
            let hh = (t[1] - 48) * 10 + (t[2] - 48);
            let mm = (t[4] - 48) * 10 + (t[5] - 48);
            if hh > 23 || mm > 59 {
                Err(TzError::InvalidOffset)
            } else {
                let sign: int = if t[0] == 43 {
                    1
                } else {
                    -1
                };
                Ok(OutputTz::Fixed((sign * (hh * 3600 + mm * 60)) as i32))
            }
        } else {
            Err(TzError::Invalid)
        }
    } else if exists|i: int| 0 <= i < t.len() && t[i] == 47 {
        Ok(OutputTz::Iana)
    } else {
        Err(TzError::Invalid)
    }
}

/// Parse the operator's timezone argument.
#[verifier::loop_isolation(false)]
pub fn parse_output_tz(s: &Vec<u8>) -> (r: Result<OutputTz, TzError>)
    ensures
        r == spec_parse_output_tz(s@),
{
    let mut lo: usize = 0;
    while lo < s.len() && ws_byte(s[lo])
        invariant
            lo <= s.len(),
            scan_front(s@, 0) == scan_front(s@, lo as int),
        decreases s.len() - lo,
    {
        lo = lo + 1;
    }
    let mut hi: usize = s.len();
    while hi > lo && ws_byte(s[hi - 1])
        invariant
            lo <= hi <= s.len(),
            scan_back(s@, s@.len() as int) == scan_back(s@, hi as int),
            scan_front(s@, 0) == scan_front(s@, lo as int),
        decreases hi,
    {
        hi = hi - 1;
    }
    proof {
        lemma_scan_front_bounds(s@, lo as int);
        lemma_scan_back_bounds(s@, hi as int);
        if lo < hi {
            assert(scan_front(s@, lo as int) == lo);
            assert(scan_back(s@, hi as int) == hi);
        }
    }
    let mut t: Vec<u8> = Vec::new();
    let mut i: usize = lo;
    while i < hi
        invariant
            lo <= i <= hi <= s.len(),
            t@.len() == i - lo,
            forall|k: int| 0 <= k < i - lo ==> t@[k] == s@[k + lo],
        decreases hi - i,
    {
        t.push(s[i]);
        i = i + 1;
    }
    proof {
        assert(t@ =~= trimmed_spec(s@));
    }
    let utc_match = t.len() == 3 && {
        let ok0 = lower_eq(t[0], 117);
        let ok1 = lower_eq(t[1], 116);
        let ok2 = lower_eq(t[2], 99);
        ok0 && ok1 && ok2
    };
    if utc_match {
        return Ok(OutputTz::Utc);
    }
    let local_match = t.len() == 5 && {
        let ok0 = lower_eq(t[0], 108);
        let ok1 = lower_eq(t[1], 111);
        let ok2 = lower_eq(t[2], 99);
        let ok3 = lower_eq(t[3], 97);
        let ok4 = lower_eq(t[4], 108);
        ok0 && ok1 && ok2 && ok3 && ok4
    };
    if local_match {
        return Ok(OutputTz::Local);
    }
    if t.len() == 6 && (t[0] == 43 || t[0] == 45) && t[3] == 58 {
        let d1 = t[1];
        let d2 = t[2];
        let d4 = t[4];
        let d5 = t[5];
        if (48 <= d1 && d1 <= 57) && (48 <= d2 && d2 <= 57) && (48 <= d4 && d4 <= 57) && (48 <= d5
            && d5 <= 57) {
            let hh: i32 = ((d1 - 48) as i32) * 10 + ((d2 - 48) as i32);
            let mm: i32 = ((d4 - 48) as i32) * 10 + ((d5 - 48) as i32);
            if hh > 23 || mm > 59 {
                return Err(TzError::InvalidOffset);
            }
            let sign: i32 = if t[0] == 43 {
                1
            } else {
                -1
            };
            return Ok(OutputTz::Fixed(sign * (hh * 3600 + mm * 60)));
        } else {
            return Err(TzError::Invalid);
        }
    }
    let mut j: usize = 0;
    while j < t.len()
        invariant
            j <= t.len(),
            forall|k: int| 0 <= k < j ==> t@[k] != 47,
        decreases t.len() - j,
    {
        if t[j] == 47 {
            return Ok(OutputTz::Iana);
        }
        j = j + 1;
    }
    Err(TzError::Invalid)
}

/// Whether a byte is trimmed ASCII whitespace.
fn ws_byte(b: u8) -> (r: bool)
    ensures
        r == is_ascii_ws(b),
{
    b == 32 || b == 9 || b == 10 || b == 13 || b == 12
}

/// Whether a byte lowercases to the given lowercase byte.
fn lower_eq(b: u8, low: u8) -> (r: bool)
    ensures
        r == (lower_byte(b) == low),
{
    let lb = if 65 <= b && b <= 90 {
        b + 32
    } else {
        b
    };
    lb == low
}

/// The RFC 3339 rendering of a UTC timestamp in milliseconds; a function of
/// the value alone.
pub uninterp spec fn rfc3339_utc_of(ts_ms: i64) -> Seq<char>;

/// The RFC 3339 rendering of a timestamp at a fixed offset east of UTC; a
/// function of the two values alone.
pub uninterp spec fn rfc3339_fixed_of(ts_ms: i64, offset_secs: i32) -> Seq<char>;

/// Relies on chrono's DateTime::from_timestamp_millis and to_rfc3339:
/// formatting succeeds exactly when chrono can represent the timestamp, and
/// the text depends on the millisecond value alone.
#[verifier::external_body]
fn rfc3339_utc(ts_ms: i64) -> (r: Option<String>)
    ensures
        r matches Some(s) ==> s@ == rfc3339_utc_of(ts_ms),
{
    chrono::DateTime::<chrono::Utc>::from_timestamp_millis(ts_ms).map(|dt| dt.to_rfc3339())
}

/// Relies on chrono's FixedOffset::east_opt (defined for offsets strictly
/// within a day), with_timezone and to_rfc3339: the text depends on the
/// timestamp and the offset alone.
#[verifier::external_body]
fn rfc3339_fixed(ts_ms: i64, offset_secs: i32) -> (r: Option<String>)
    requires
        -86400 < offset_secs < 86400,
    ensures
        r matches Some(s) ==> s@ == rfc3339_fixed_of(ts_ms, offset_secs),
{
    match chrono::FixedOffset::east_opt(offset_secs) {
        Some(off) => chrono::DateTime::<chrono::Utc>::from_timestamp_millis(ts_ms).map(
            |dt| dt.with_timezone(&off).to_rfc3339(),
        ),
        None => None,
    }
}

/// Relies on chrono's Local timezone rendering; the text depends on the
/// process environment, so nothing is assumed about it.
#[verifier::external_body]
fn rfc3339_local(ts_ms: i64) -> Option<String> {
    chrono::DateTime::<chrono::Utc>::from_timestamp_millis(ts_ms).map(
        |dt| dt.with_timezone(&chrono::Local).to_rfc3339(),
    )
}

/// Render a millisecond timestamp in the selected timezone; nothing is
/// returned for a timestamp the calendar cannot represent. UTC and
/// fixed-offset text is pinned to its named rendering; local and IANA text
/// follows the process environment.
pub fn format_ts(ts_ms: i64, tz: &OutputTz) -> (r: Option<String>)
    requires
        *tz matches OutputTz::Fixed(o) ==> -86400 < o && o < 86400,
    ensures
        *tz == OutputTz::Utc ==> (r matches Some(s) ==> s@ == rfc3339_utc_of(ts_ms)),
        (match *tz {
            OutputTz::Fixed(o) => r matches Some(s) ==> s@ == rfc3339_fixed_of(ts_ms, o),
            _ => true,
        }),
{
    match tz {
        OutputTz::Utc => rfc3339_utc(ts_ms),
        OutputTz::Local => rfc3339_local(ts_ms),
        OutputTz::Iana => rfc3339_local(ts_ms),
        OutputTz::Fixed(o) => rfc3339_fixed(ts_ms, *o),
    }
}

} // verus!
