//! Dimension keys of stored aggregates: `rf:{start}-{end}`,
//! `wifi:{band}:{channel}` and `sat:{group}:{id}`, written by nodes and the
//! hub and read back when tiles are rebuilt.
use vstd::prelude::*;
use crate::text::{
    all_digits, digit_char, digit_val, digits_value, is_digit, lemma_find_none, parse_unsigned,
    chars_of, dec, lemma_splitn_len, parse_u32, parse_u32_range, parse_u64, parse_u64_range,
    push_dec, push_str, ranges_within, split, split_ranges, splitn,
    splitn_ranges, starts_with, str_to_lowercase, string_from_chars, string_from_range,
    to_lowercase, trim, trim_start_prefix, trim_start_prefix_range, trim_string,
};

verus! {

/// `rf:{freq_start_hz}-{freq_end_hz}`
pub open spec fn rf_dimension_text(freq_start_hz: u64, freq_end_hz: u64) -> Seq<char> {
    "rf:"@ + dec(freq_start_hz as nat) + "-"@ + dec(freq_end_hz as nat)
}

pub fn rf_dimension(freq_start_hz: u64, freq_end_hz: u64) -> (d: String)
    ensures
        d@ == rf_dimension_text(freq_start_hz, freq_end_hz),
{
    let mut v: Vec<char> = Vec::new();
    push_str(&mut v, "rf:");
    push_dec(&mut v, freq_start_hz);
    push_str(&mut v, "-");
    push_dec(&mut v, freq_end_hz);
    string_from_chars(&v)
}

/// `wifi:{band}:{channel}`
pub open spec fn wifi_dimension_text(band: Seq<char>, channel: u32) -> Seq<char> {
    "wifi:"@ + band + ":"@ + dec(channel as nat)
}

pub fn wifi_dimension(band: &str, channel: u32) -> (d: String)
    ensures
        d@ == wifi_dimension_text(band@, channel),
{
    let mut v: Vec<char> = Vec::new();
    push_str(&mut v, "wifi:");
    push_str(&mut v, band);
    push_str(&mut v, ":");
    push_dec(&mut v, channel as u64);
    string_from_chars(&v)
}

/// The frequency band of an `rf:` dimension: what follows the `rf:`
/// prefixes, split at `-` into exactly two `u64`s.
pub open spec fn rf_dimension_band(dim: Seq<char>) -> Option<(nat, nat)> {
    let parts = split(trim_start_prefix(dim, "rf:"@), '-');
    if parts.len() == 2 {
        match (parse_u64(parts[0]), parse_u64(parts[1])) {
            (Some(s), Some(e)) => Some((s, e)),
            _ => None,
        }
    } else {
        None
    }
}

pub fn parse_rf_dimension(dim: &str) -> (r: Option<(u64, u64)>)
    ensures
        match r {
            Some((s, e)) => rf_dimension_band(dim@) == Some((s as nat, e as nat)),
            None => rf_dimension_band(dim@) is None,
        },
{
    let v = chars_of(dim);
    let p = chars_of("rf:");
    assert(v@.subrange(0, v.len() as int) =~= v@);
    let s = trim_start_prefix_range(&v, 0, v.len(), &p);
    let parts = split_ranges(&v, s, v.len(), '-');
    if parts.len() != 2 {
        return None;
    }
    let (a0, a1) = parts[0];
    let (b0, b1) = parts[1];
    assert(ranges_within(parts@, s as int, v.len() as int) ==> a0 <= a1 <= v.len() && b0 <= b1 <= v.len());
    match (parse_u64_range(&v, a0, a1), parse_u64_range(&v, b0, b1)) {
        (Some(x), Some(y)) => Some((x, y)),
        _ => None,
    }
}

/// Band and channel of a `wifi:` dimension: what follows the `wifi:`
/// prefixes, split at the first `:`, the channel read as `u32`.
pub open spec fn wifi_dimension_channel(dim: Seq<char>) -> Option<(Seq<char>, nat)> {
    let parts = splitn(trim_start_prefix(dim, "wifi:"@), 2, ':');
    if parts.len() >= 2 {
        match parse_u32(parts[1]) {
            Some(c) => Some((parts[0], c)),
            None => None,
        }
    } else {
        None
    }
}

pub fn parse_wifi_dimension(dim: &str) -> (r: Option<(String, u32)>)
    ensures
        match r {
            Some((b, c)) => wifi_dimension_channel(dim@) == Some((b@, c as nat)),
            None => wifi_dimension_channel(dim@) is None,
        },
{
    let v = chars_of(dim);
    let p = chars_of("wifi:");
    assert(v@.subrange(0, v.len() as int) =~= v@);
    let s = trim_start_prefix_range(&v, 0, v.len(), &p);
    let parts = splitn_ranges(&v, s, v.len(), 2, ':');
    if parts.len() < 2 {
        return None;
    }
    let (a0, a1) = parts[0];
    let (b0, b1) = parts[1];
    assert(ranges_within(parts@, s as int, v.len() as int) ==> a0 <= a1 <= v.len() && b0 <= b1 <= v.len());
    match parse_u32_range(&v, b0, b1) {
        Some(c) => Some((string_from_range(&v, a0, a1), c)),
        None => None,
    }
}

/// Group and identifier of a `sat:` dimension: what follows the `sat:`
/// prefixes, split at the first `:`; a missing identifier reads "unknown".
pub open spec fn sat_dimension_parts(dim: Seq<char>) -> (Seq<char>, Seq<char>) {
    let parts = splitn(trim_start_prefix(dim, "sat:"@), 2, ':');
    (parts[0], if parts.len() >= 2 {
        parts[1]
    } else {
        "unknown"@
    })
}

pub fn parse_sat_dimension(dim: &str) -> (r: (String, String))
    ensures
        (r.0@, r.1@) == sat_dimension_parts(dim@),
{
    let v = chars_of(dim);
    let p = chars_of("sat:");
    assert(v@.subrange(0, v.len() as int) =~= v@);
    let s = trim_start_prefix_range(&v, 0, v.len(), &p);
    let parts = splitn_ranges(&v, s, v.len(), 2, ':');
    proof {
        lemma_splitn_len(v@.subrange(s as int, v.len() as int), 2, ':');
    }
    let (a0, a1) = parts[0];
    assert(ranges_within(parts@, s as int, v.len() as int) ==> a0 <= a1 <= v.len());
    let group = string_from_range(&v, a0, a1);
    if parts.len() >= 2 {
        let (b0, b1) = parts[1];
        assert(ranges_within(parts@, s as int, v.len() as int) ==> b0 <= b1 <= v.len());
        (group, string_from_range(&v, b0, b1))
    } else {
        (group, "unknown".to_owned())
    }
}

/// Spaces turned into underscores (`str::replace(' ', "_")`).
pub open spec fn underscore_spaces(s: Seq<char>) -> Seq<char> {
    s.map_values(|c: char| if c == ' ' { '_' } else { c })
}

/// The `sat:` dimension of a satellite detection, or `None` when its group
/// is empty after trimming and lowercasing. The identifier is the trimmed
/// NORAD id, else the trimmed, lowercased name with spaces as underscores,
/// else "unknown".
pub open spec fn sat_dimension_text(group: Seq<char>, norad: Option<Seq<char>>, name: Option<Seq<char>>) -> Option<Seq<char>> {
    let g = str_to_lowercase(trim(group));
    let norad_part = trim(match norad { Some(n) => n, None => Seq::empty() });
    let name_part = underscore_spaces(str_to_lowercase(trim(match name { Some(n) => n, None => Seq::empty() })));
    let id = if norad_part.len() > 0 {
        norad_part
    } else if name_part.len() > 0 {
        name_part
    } else {
        "unknown"@
    };
    if g.len() == 0 {
        None
    } else {
        Some("sat:"@ + g + ":"@ + id)
    }
}

fn underscore_spaces_exec(s: &str) -> (r: Vec<char>)
    ensures
        r@ == underscore_spaces(s@),
{
    let v = chars_of(s);
    let mut out: Vec<char> = Vec::new();
    let mut i: usize = 0;
    while i < v.len()
        invariant
            0 <= i <= v.len(),
            out@ == underscore_spaces(v@.take(i as int)),
        decreases v.len() - i,
    {
        let c = v[i];
        out.push(if c == ' ' { '_' } else { c });
        i = i + 1;
        assert(out@ =~= underscore_spaces(v@.take(i as int)));
    }
    assert(v@.take(v.len() as int) =~= v@);
    out
}

pub fn sat_dimension(group: &str, norad: Option<&str>, name: Option<&str>) -> (r: Option<String>)
    ensures
        match r {
            Some(d) => sat_dimension_text(group@, match norad { Some(n) => Some(n@), None => None }, match name { Some(n) => Some(n@), None => None }) == Some(d@),
            None => sat_dimension_text(group@, match norad { Some(n) => Some(n@), None => None }, match name { Some(n) => Some(n@), None => None }) is None,
        },
{
    let g_trim = trim_string(group);
    let g = to_lowercase(g_trim.as_str());
    let norad_part = trim_string(match norad { Some(n) => n, None => "" });
    let name_trim = trim_string(match name { Some(n) => n, None => "" });
    let name_lower = to_lowercase(name_trim.as_str());
    let name_part = underscore_spaces_exec(name_lower.as_str());
    proof {
        reveal_strlit("");
    }
    let mut v: Vec<char> = Vec::new();
    if g.as_str().is_empty() {
        return None;
    }
    push_str(&mut v, "sat:");
    push_str(&mut v, g.as_str());
    push_str(&mut v, ":");
    let ghost head = v@;
    assert(head =~= "sat:"@ + g@ + ":"@);
    let ghost norad_v = trim(match norad { Some(n) => n@, None => Seq::<char>::empty() });
    let ghost name_v = underscore_spaces(str_to_lowercase(trim(match name { Some(n) => n@, None => Seq::<char>::empty() })));
    assert(norad_part@ == norad_v);
    assert(name_trim@ == trim(match name { Some(n) => n@, None => Seq::<char>::empty() }));
    assert(name_lower@ == str_to_lowercase(name_trim@));
    assert(name_part@ == underscore_spaces(name_lower@));
    assert(name_part@ == name_v);
    if !norad_part.as_str().is_empty() {
        push_str(&mut v, norad_part.as_str());
        assert(v@ =~= "sat:"@ + g@ + ":"@ + norad_v);
    } else if name_part.len() > 0 {
        crate::text::push_all(&mut v, &name_part);
        assert(v@ =~= "sat:"@ + g@ + ":"@ + name_v);
    } else {
        push_str(&mut v, "unknown");
        assert(v@ =~= "sat:"@ + g@ + ":"@ + "unknown"@);
    }
    Some(string_from_chars(&v))
}

// ── Laws: reading back what was written ───────────────────────────────────────

proof fn lemma_digit_char(k: nat)
    requires
        k < 10,
    ensures
        is_digit(digit_char(k)),
        digit_val(digit_char(k)) == k,
{
}

pub proof fn lemma_dec_digits(n: nat)
    ensures
        dec(n).len() > 0,
        all_digits(dec(n)),
        digits_value(dec(n)) == n,
    decreases n,
{
    lemma_digit_char(n % 10);
    if n >= 10 {
        lemma_dec_digits(n / 10);
        let d = dec(n / 10).push(digit_char(n % 10));
        assert(d.drop_last() =~= dec(n / 10));
        assert(d.last() == digit_char(n % 10));
        assert(digits_value(d) == digits_value(dec(n / 10)) * 10 + digit_val(digit_char(n % 10)));
        assert(all_digits(d)) by {
            assert forall|i: int| 0 <= i < d.len() implies is_digit(#[trigger] d[i]) by {
                if i < d.len() - 1 {
                    assert(d[i] == dec(n / 10)[i]);
                }
            }
        }
    } else {
        let d = seq![digit_char(n)];
        assert(d.drop_last() =~= Seq::<char>::empty());
        assert(digits_value(d) == digits_value(d.drop_last()) * 10 + digit_val(d.last()));
    }
}

/// The decimal text of a value parses back to that value.
pub proof fn lemma_parse_dec(n: nat, max: nat)
    requires
        n <= max,
    ensures
        parse_unsigned(dec(n), max) == Some(n),
{
    lemma_dec_digits(n);
    assert(is_digit(dec(n)[0]));
}

proof fn lemma_no_char_in_dec(n: nat, c: char)
    requires
        !is_digit(c),
    ensures
        forall|i: int| 0 <= i < dec(n).len() ==> dec(n)[i] != c,
{
    lemma_dec_digits(n);
    assert forall|i: int| 0 <= i < dec(n).len() implies dec(n)[i] != c by {
        assert(is_digit(dec(n)[i]));
    }
}

/// A node's RF dimension key reads back, at the hub, as the band it was made from.
pub proof fn rf_dimension_roundtrip(freq_start_hz: u64, freq_end_hz: u64)
    ensures
        rf_dimension_band(rf_dimension_text(freq_start_hz, freq_end_hz)) == Some((freq_start_hz as nat, freq_end_hz as nat)),
{
    reveal_strlit("rf:");
    reveal_strlit("-");
    let a = dec(freq_start_hz as nat);
    let b = dec(freq_end_hz as nat);
    let dim = rf_dimension_text(freq_start_hz, freq_end_hz);
    let rest = a + "-"@ + b;
    lemma_dec_digits(freq_start_hz as nat);
    lemma_no_char_in_dec(freq_start_hz as nat, '-');
    lemma_no_char_in_dec(freq_end_hz as nat, '-');
    assert(starts_with(dim, "rf:"@)) by {
        assert(dim.subrange(0, 3) =~= "rf:"@);
    }
    assert(dim.skip(3) =~= rest);
    assert(rest[0] == a[0]);
    assert(is_digit(a[0]));
    assert(!starts_with(rest, "rf:"@)) by {
        if starts_with(rest, "rf:"@) {
            assert(rest.subrange(0, 3)[0] == rest[0]);
            assert("rf:"@[0] == 'r');
        }
    }
    assert(trim_start_prefix(rest, "rf:"@) == rest);
    assert(trim_start_prefix(dim, "rf:"@) == rest);
    assert(rest[a.len() as int] == '-');
    assert forall|k: int| 0 <= k < a.len() implies rest[k] != '-' by {
        assert(rest[k] == a[k]);
    }
    crate::text::lemma_find_at(rest, '-', a.len() as int);
    assert(rest.take(a.len() as int) =~= a);
    assert(rest.skip(a.len() as int + 1) =~= b);
    lemma_find_none(b, '-');
    assert(split(b, '-') == seq![b]);
    assert(split(rest, '-') == seq![rest.take(a.len() as int)] + split(rest.skip(a.len() as int + 1), '-'));
    assert(split(rest, '-') =~= seq![a, b]);
    lemma_parse_dec(freq_start_hz as nat, u64::MAX as nat);
    lemma_parse_dec(freq_end_hz as nat, u64::MAX as nat);
}

/// A Wi-Fi dimension key reads back as its band and channel, for any band
/// without a `:` in it.
pub proof fn wifi_dimension_roundtrip(band: Seq<char>, channel: u32)
    requires
        forall|i: int| 0 <= i < band.len() ==> band[i] != ':',
        band != "wifi"@,
    ensures
        wifi_dimension_channel(wifi_dimension_text(band, channel)) == Some((band, channel as nat)),
{
    reveal_strlit("wifi:");
    reveal_strlit("wifi");
    reveal_strlit(":");
    let c = dec(channel as nat);
    let dim = wifi_dimension_text(band, channel);
    let rest = band + ":"@ + c;
    let w = "wifi:"@;
    assert(starts_with(dim, w)) by {
        assert(dim.subrange(0, 5) =~= w);
    }
    assert(dim.skip(5) =~= rest);
    assert forall|k: int| 0 <= k < band.len() implies rest[k] != ':' by {
        assert(rest[k] == band[k]);
    }
    assert(rest[band.len() as int] == ':');
    assert(!starts_with(rest, w)) by {
        if starts_with(rest, w) {
            let n = band.len() as int;
            if n < 4 {
                assert(rest.subrange(0, 5)[n] == rest[n]);
                assert(w[n] != ':');
            } else if n == 4 {
                assert forall|k: int| 0 <= k < 4 implies band[k] == w[k] by {
                    assert(rest.subrange(0, 5)[k] == rest[k]);
                    assert(rest[k] == band[k]);
                }
                assert(band =~= "wifi"@);
            } else {
                assert(rest.subrange(0, 5)[4] == rest[4]);
                assert(rest[4] == band[4]);
            }
        }
    }
    assert(trim_start_prefix(rest, w) == rest);
    assert(trim_start_prefix(dim, w) == rest);
    crate::text::lemma_find_at(rest, ':', band.len() as int);
    assert(rest.take(band.len() as int) =~= band);
    assert(rest.skip(band.len() as int + 1) =~= c);
    assert(splitn(c, 1, ':') == seq![c]);
    assert(splitn(rest, 2, ':') == seq![rest.take(band.len() as int)] + splitn(rest.skip(band.len() as int + 1), 1, ':'));
    assert(splitn(rest, 2, ':') =~= seq![band, c]);
    lemma_parse_dec(channel as nat, u32::MAX as nat);
}

/// What a stored tile row holds, read off its sensor type and dimension.
#[derive(Debug, Clone)]
pub enum RowEntry {
    Rf(u64, u64),
    Wifi(String, u32),
    Sat(String, String),
}

pub enum RowEntryView {
    Rf(nat, nat),
    Wifi(Seq<char>, nat),
    Sat(Seq<char>, Seq<char>),
}

pub open spec fn entry_view(e: RowEntry) -> RowEntryView {
    match e {
        RowEntry::Rf(s, f) => RowEntryView::Rf(s as nat, f as nat),
        RowEntry::Wifi(b, c) => RowEntryView::Wifi(b@, c as nat),
        RowEntry::Sat(g, i) => RowEntryView::Sat(g@, i@),
    }
}

/// What a row holds: an `rf` row its band, a `wifi_channel` row its band and
/// channel, and, where `with_sat`, a `sat` row its group and id; `None` for a
/// dimension that does not parse, or another sensor type.
pub open spec fn row_entry(sensor_type: Seq<char>, dimension: Seq<char>, with_sat: bool) -> Option<RowEntryView> {
    if sensor_type == "rf"@ {
        match rf_dimension_band(dimension) {
            Some((s, e)) => Some(RowEntryView::Rf(s, e)),
            None => None,
        }
    } else if sensor_type == "wifi_channel"@ {
        match wifi_dimension_channel(dimension) {
            Some((b, c)) => Some(RowEntryView::Wifi(b, c)),
            None => None,
        }
    } else if with_sat && sensor_type == "sat"@ {
        Some(RowEntryView::Sat(sat_dimension_parts(dimension).0, sat_dimension_parts(dimension).1))
    } else {
        None
    }
}

/// Reads a stored row, as [`row_entry`] says.
pub fn decode_row(sensor_type: &str, dimension: &str, with_sat: bool) -> (r: Option<RowEntry>)
    ensures
        match r {
            Some(e) => row_entry(sensor_type@, dimension@, with_sat) == Some(entry_view(e)),
            None => row_entry(sensor_type@, dimension@, with_sat) is None,
        },
{
    proof {
        reveal_strlit("rf");
        reveal_strlit("wifi_channel");
        reveal_strlit("sat");
        assert("rf"@.len() != "wifi_channel"@.len() && "rf"@.len() != "sat"@.len());
        assert("sat"@.len() != "wifi_channel"@.len());
    }
    if crate::text::str_eq(sensor_type, "rf") {
        match parse_rf_dimension(dimension) {
            Some((s, e)) => Some(RowEntry::Rf(s, e)),
            None => None,
        }
    } else if crate::text::str_eq(sensor_type, "wifi_channel") {
        match parse_wifi_dimension(dimension) {
            Some((b, c)) => Some(RowEntry::Wifi(b, c)),
            None => None,
        }
    } else if with_sat && crate::text::str_eq(sensor_type, "sat") {
        let (g, i) = parse_sat_dimension(dimension);
        Some(RowEntry::Sat(g, i))
    } else {
        None
    }
}

} // verus!
