//! hackrf_sweep CSV lines: the fields of a line, before its power readings
//! are read as numbers, and the line's timestamp.
use vstd::prelude::*;
pub use crate::ring::RingBuffer;
use crate::text::chars_of;
use crate::tile::unix_now_secs;
use crate::text::concat;
use crate::text::parse_u64;
use crate::text::parse_u64_range;
use crate::text::pieces_of;
use crate::text::ranges_within;
use crate::text::split;
use crate::text::split_ranges;
use crate::text::string_from_range;
use crate::text::trim;
use crate::text::trim_range;
use crate::text::trim_string;

verus! {

/// Seconds since the Unix epoch of a date-time text read with a `chrono`
/// format, taken as UTC, or `None` where the text does not match the format.
pub uninterp spec fn naive_datetime_utc_seconds(text: Seq<char>, format: Seq<char>) -> Option<int>;

/// `chrono::NaiveDateTime::parse_from_str`, then `and_utc().timestamp()`.
/// The result is named by `naive_datetime_utc_seconds`; no more is said of it.
#[verifier::external_body]
fn parse_naive_datetime(text: &str, format: &str) -> (r: Option<i64>)
    ensures
        r matches Some(t) ==> naive_datetime_utc_seconds(text@, format@) == Some(t as int),
        r is None ==> naive_datetime_utc_seconds(text@, format@) is None,
{
    match chrono::NaiveDateTime::parse_from_str(text, format) {
        Ok(dt) => Some(dt.and_utc().timestamp()),
        Err(_) => None,
    }
}

/// The format of hackrf_sweep's date and time columns, joined by a space.
pub open spec fn datetime_format() -> Seq<char> {
    "%Y-%m-%d %H:%M:%S"@
}

/// The text `parse_datetime_utc` reads: date and time, trimmed, joined by a
/// space.
pub open spec fn datetime_text(date: Seq<char>, time: Seq<char>) -> Seq<char> {
    trim(date) + seq![' '] + trim(time)
}

/// The timestamp a parsed date-time gives (as an unsigned cast of its
/// seconds), or `now` where it could not be parsed.
pub fn timestamp_or(parsed: Option<i64>, now: u64) -> (t: u64)
    ensures
        t == match parsed {
            Some(s) => s as u64,
            None => now,
        },
{
    match parsed {
        Some(s) => s as u64,
        None => now,
    }
}

/// Read "YYYY-MM-DD" and "HH:MM:SS" as a UTC timestamp; where they do not
/// parse, the current time.
pub fn parse_datetime_utc(date: &str, time: &str) -> (t: u64)
    ensures
        naive_datetime_utc_seconds(datetime_text(date@, time@), datetime_format()) matches Some(s)
            ==> t == s as u64,
{
    let d = trim_string(date);
    let with_space = concat(d.as_str(), " ");
    let tt = trim_string(time);
    let dt = concat(with_space.as_str(), tt.as_str());
    proof {
        reveal_strlit(" ");
        assert(dt@ =~= datetime_text(date@, time@));
    }
    let parsed = parse_naive_datetime(dt.as_str(), "%Y-%m-%d %H:%M:%S");
    let now = unix_now_secs();
    timestamp_or(parsed, now)
}

/// The fields of a hackrf_sweep line:
/// `date, time, hz_low, hz_high, hz_bin_width, num_samples, dBm, dBm, ...`.
/// The power readings are kept as the texts of their fields.
#[derive(Debug, Clone)]
pub struct HackrfFields {
    pub timestamp_utc: u64,
    pub freq_start_hz: u64,
    pub freq_end_hz: u64,
    pub bin_hz: u64,
    pub bin_fields: Vec<String>,
}

/// The trimmed comma-separated fields of a line that is neither blank nor a
/// comment and has at least seven of them.
pub open spec fn hackrf_parts(line: Seq<char>) -> Option<Seq<Seq<char>>> {
    let t = trim(line);
    if t.len() == 0 || t[0] == '#' {
        None
    } else {
        let parts = split(t, ',').map_values(|p: Seq<char>| trim(p));
        if parts.len() < 7 {
            None
        } else {
            Some(parts)
        }
    }
}

/// The frequencies and power fields of a line, where its three frequency
/// fields parse as `u64`.
pub open spec fn hackrf_line(line: Seq<char>) -> Option<(u64, u64, u64, Seq<Seq<char>>)> {
    match hackrf_parts(line) {
        None => None,
        Some(parts) => match (parse_u64(parts[2]), parse_u64(parts[3]), parse_u64(parts[4])) {
            (Some(a), Some(b), Some(c)) => Some((a as u64, b as u64, c as u64, parts.skip(6))),
            _ => None,
        },
    }
}

pub open spec fn string_views(v: Seq<String>) -> Seq<Seq<char>> {
    v.map_values(|s: String| s@)
}

/// Parse the fields of one line of hackrf_sweep CSV output. Returns `None`
/// for a blank line, a comment, fewer than seven fields, or a frequency field
/// that is not a `u64`.
pub fn parse_hackrf_fields(line: &str) -> (r: Option<HackrfFields>)
    ensures
        r is Some == hackrf_line(line@) is Some,
        r matches Some(f) ==> ({
            let (a, b, c, bins) = hackrf_line(line@).unwrap();
            let parts = hackrf_parts(line@).unwrap();
            &&& f.freq_start_hz == a
            &&& f.freq_end_hz == b
            &&& f.bin_hz == c
            &&& string_views(f.bin_fields@) == bins
            &&& naive_datetime_utc_seconds(datetime_text(parts[0], parts[1]), datetime_format()) matches Some(s)
                ==> f.timestamp_utc == s as u64
        }),
{
    let v = chars_of(line);
    assert(v@.subrange(0, v.len() as int) =~= v@);
    let (a, b) = trim_range(&v, 0, v.len());
    let ghost t = v@.subrange(a as int, b as int);
    if a == b || v[a] == '#' {
        return None;
    }
    let rs = split_ranges(&v, a, b, ',');
    let ghost raw = split(t, ',');
    let ghost parts = raw.map_values(|p: Seq<char>| trim(p));
    if rs.len() < 7 {
        return None;
    }
    assert(pieces_of(v@, rs@) == raw);
    // Trimmed bounds of each field.
    let mut tr: Vec<(usize, usize)> = Vec::new();
    let mut i: usize = 0;
    while i < rs.len()
        invariant
            0 <= i <= rs.len(),
            ranges_within(rs@, a as int, b as int),
            b <= v.len(),
            tr.len() == i,
            pieces_of(v@, rs@) == raw,
            parts == raw.map_values(|p: Seq<char>| trim(p)),
            forall|k: int|
                0 <= k < i ==> (#[trigger] tr@[k]).0 <= tr@[k].1 <= v.len() && v@.subrange(
                    tr@[k].0 as int,
                    tr@[k].1 as int,
                ) == parts[k],
        decreases rs.len() - i,
    {
        let (pa, pb) = rs[i];
        assert(ranges_within(rs@, a as int, b as int) ==> a <= rs@[i as int].0 <= rs@[i as int].1 <= b);
        let (qa, qb) = trim_range(&v, pa, pb);
        assert(raw[i as int] == v@.subrange(pa as int, pb as int));
        tr.push((qa, qb));
        i = i + 1;
    }
    let (s2a, s2b) = tr[2];
    let (s3a, s3b) = tr[3];
    let (s4a, s4b) = tr[4];
    let start = match parse_u64_range(&v, s2a, s2b) {
        Some(x) => x,
        None => return None,
    };
    let end = match parse_u64_range(&v, s3a, s3b) {
        Some(x) => x,
        None => return None,
    };
    let bin = match parse_u64_range(&v, s4a, s4b) {
        Some(x) => x,
        None => return None,
    };
    let (d0a, d0b) = tr[0];
    let (d1a, d1b) = tr[1];
    let date = string_from_range(&v, d0a, d0b);
    let time = string_from_range(&v, d1a, d1b);
    let timestamp_utc = parse_datetime_utc(date.as_str(), time.as_str());
    let mut bin_fields: Vec<String> = Vec::new();
    let mut k: usize = 6;
    while k < tr.len()
        invariant
            6 <= k <= tr.len(),
            tr.len() == parts.len(),
            forall|m: int|
                0 <= m < tr.len() ==> (#[trigger] tr@[m]).0 <= tr@[m].1 <= v.len() && v@.subrange(
                    tr@[m].0 as int,
                    tr@[m].1 as int,
                ) == parts[m],
            string_views(bin_fields@) == parts.subrange(6, k as int),
        decreases tr.len() - k,
    {
        let (ka, kb) = tr[k];
        let s = string_from_range(&v, ka, kb);
        let ghost before = bin_fields@;
        bin_fields.push(s);
        assert(string_views(bin_fields@) =~= string_views(before).push(s@));
        assert(parts.subrange(6, k + 1) =~= parts.subrange(6, k as int).push(parts[k as int]));
        k = k + 1;
    }
    assert(parts.subrange(6, tr.len() as int) =~= parts.skip(6));
    Some(HackrfFields { timestamp_utc, freq_start_hz: start, freq_end_hz: end, bin_hz: bin, bin_fields })
}

} // verus!
