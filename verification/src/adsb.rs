//! ADS-B: the fields of a dump1090 interactive-mode line, and the bookkeeping
//! of the aircraft tables (one entry per ICAO address, stale entries pruned).
use vstd::prelude::*;
use vstd::utf8::encode_scalar;
use vstd::utf8::encode_utf8;
use crate::text::chars_of;
use crate::text::dec;
use crate::text::push_dec;
use crate::text::push_str;
use crate::text::string_from_chars;
use crate::text::parse_u32;
use crate::text::parse_u32_range;
use crate::text::pieces_of;
use crate::text::range_starts_with;
use crate::text::ranges_within;
use crate::text::starts_with;
use crate::text::string_from_range;
use crate::text::word_ranges;
use crate::text::words;

verus! {

/// Whether `char::is_alphanumeric` holds of `c` (Unicode's Alphabetic or
/// Numeric property, which takes tables to state).
pub uninterp spec fn char_alphanumeric(c: char) -> bool;

/// `char::is_alphanumeric` (std). The result is named by
/// `char_alphanumeric`; no more is said of it.
#[verifier::external_body]
fn is_alphanumeric(c: char) -> (b: bool)
    ensures
        b == char_alphanumeric(c),
{
    c.is_alphanumeric()
}

/// A word that can be a flight number: at least three bytes long, every
/// character alphanumeric.
pub open spec fn is_callsign(w: Seq<char>) -> bool {
    encode_utf8(w).len() >= 3 && forall|i: int| 0 <= i < w.len() ==> char_alphanumeric(#[trigger] w[i])
}

pub open spec fn first_callsign(ws: Seq<Seq<char>>) -> Option<Seq<char>>
    decreases ws.len(),
{
    if ws.len() == 0 {
        None
    } else if is_callsign(ws[0]) {
        Some(ws[0])
    } else {
        first_callsign(ws.drop_first())
    }
}

/// A word that can be an altitude: a `u32` strictly between 0 and 50000.
pub open spec fn altitude_of(w: Seq<char>) -> Option<nat> {
    match parse_u32(w) {
        Some(a) => if 0 < a < 50000 {
            Some(a)
        } else {
            None
        },
        None => None,
    }
}

pub open spec fn first_altitude(ws: Seq<Seq<char>>) -> Option<nat>
    decreases ws.len(),
{
    if ws.len() == 0 {
        None
    } else if altitude_of(ws[0]) is Some {
        altitude_of(ws[0])
    } else {
        first_altitude(ws.drop_first())
    }
}

/// A line describes an aircraft when it has at least two words and is not
/// the table's header (whose first word starts with "Hex").
pub open spec fn is_aircraft_line(line: Seq<char>) -> bool {
    words(line).len() >= 2 && !starts_with(words(line)[0], "Hex"@)
}

/// The fields read from one dump1090 line; positions are read by the caller
/// from `words`.
#[derive(Debug, Clone)]
pub struct Dump1090Fields {
    pub icao: String,
    pub callsign: Option<String>,
    pub altitude: Option<u32>,
    pub words: Vec<String>,
}

pub open spec fn string_views(v: Seq<String>) -> Seq<Seq<char>> {
    v.map_values(|s: String| s@)
}

fn all_alphanumeric(v: &Vec<char>, lo: usize, hi: usize) -> (b: bool)
    requires
        lo <= hi <= v.len(),
    ensures
        b == forall|i: int| 0 <= i < hi - lo ==> char_alphanumeric(#[trigger] v@.subrange(lo as int, hi as int)[i]),
{
    let ghost w = v@.subrange(lo as int, hi as int);
    let mut k: usize = lo;
    while k < hi
        invariant
            lo <= k <= hi <= v.len(),
            w == v@.subrange(lo as int, hi as int),
            forall|i: int| 0 <= i < k - lo ==> char_alphanumeric(#[trigger] w[i]),
        decreases hi - k,
    {
        if !is_alphanumeric(v[k]) {
            assert(!char_alphanumeric(w[k - lo]));
            return false;
        }
        k = k + 1;
    }
    true
}

/// The length in bytes of the UTF-8 encoding of `v[lo..hi]`.
fn utf8_len(v: &Vec<char>, lo: usize, hi: usize) -> (n: u128)
    requires
        lo <= hi <= v.len(),
    ensures
        n == encode_utf8(v@.subrange(lo as int, hi as int)).len(),
{
    let ghost w = v@.subrange(lo as int, hi as int);
    let mut acc: u128 = 0;
    let mut k: usize = hi;
    while k > lo
        invariant
            lo <= k <= hi <= v.len(),
            w == v@.subrange(lo as int, hi as int),
            acc == encode_utf8(w.skip(k - lo)).len(),
            acc <= 4 * (hi - k),
        decreases k - lo,
    {
        k = k - 1;
        let c = v[k];
        let u = c as u32;
        let width: u128 = if u <= 0x7F {
            1
        } else if u <= 0x7FF {
            2
        } else if u <= 0xFFFF && !(0xD800 <= u && u <= 0xDFFF) {
            3
        } else {
            4
        };
        proof {
            assert(w.skip(k - lo).drop_first() =~= w.skip(k - lo + 1));
            assert(w.skip(k - lo)[0] == c);
            assert(u == c as u32);
            assert(encode_scalar(u).len() == width);
        }
        acc = acc + width;
    }
    assert(w.skip(0) =~= w);
    acc
}

/// Reads the fields of a line of dump1090's interactive table: the ICAO
/// address (the first word), the first word that can be a flight number, the
/// first that can be an altitude, and all the words.
pub fn parse_dump1090_fields(line: &str) -> (r: Option<Dump1090Fields>)
    ensures
        r is Some == is_aircraft_line(line@),
        r matches Some(f) ==> {
            &&& f.icao@ == words(line@)[0]
            &&& string_views(f.words@) == words(line@)
            &&& match f.callsign {
                Some(c) => first_callsign(words(line@)) == Some(c@),
                None => first_callsign(words(line@)) is None,
            }
            &&& match f.altitude {
                Some(a) => first_altitude(words(line@)) == Some(a as nat),
                None => first_altitude(words(line@)) is None,
            }
        },
{
    let v = chars_of(line);
    assert(v@.subrange(0, v.len() as int) =~= v@);
    let rs = word_ranges(&v, 0, v.len());
    let ghost ws = words(line@);
    if rs.len() < 2 {
        return None;
    }
    let hex = chars_of("Hex");
    let (a0, b0) = rs[0];
    assert(ws[0] == v@.subrange(a0 as int, b0 as int));
    if range_starts_with(&v, a0, b0, &hex) {
        return None;
    }
    let icao = string_from_range(&v, a0, b0);
    let mut all: Vec<String> = Vec::new();
    let mut callsign: Option<String> = None;
    let mut altitude: Option<u32> = None;
    let mut i: usize = 0;
    while i < rs.len()
        invariant
            0 <= i <= rs.len(),
            v@ == line@,
            ws == words(line@),
            pieces_of(v@, rs@) == ws,
            ranges_within(rs@, 0, v.len() as int),
            string_views(all@) == ws.take(i as int),
            match callsign {
                Some(c) => first_callsign(ws.take(i as int)) == Some(c@),
                None => first_callsign(ws.take(i as int)) is None,
            },
            match altitude {
                Some(a) => first_altitude(ws.take(i as int)) == Some(a as nat),
                None => first_altitude(ws.take(i as int)) is None,
            },
        decreases rs.len() - i,
    {
        let (a, b) = rs[i];
        assert(ranges_within(rs@, 0, v.len() as int) ==> 0 <= rs@[i as int].0 <= rs@[i as int].1 <= v.len());
        let ghost w = v@.subrange(a as int, b as int);
        assert(w == ws[i as int]);
        let s = string_from_range(&v, a, b);
        proof {
            lemma_first_after_prefix(ws, i as int);
        }
        if callsign.is_none() {
            if utf8_len(&v, a, b) >= 3 && all_alphanumeric(&v, a, b) {
                callsign = Some(s.clone());
            }
        }
        if altitude.is_none() {
            match parse_u32_range(&v, a, b) {
                Some(x) => {
                    if 0 < x && x < 50000 {
                        altitude = Some(x);
                    }
                },
                None => {},
            }
        }
        let ghost before = all@;
        all.push(s);
        assert(string_views(all@) =~= string_views(before).push(w));
        assert(ws.take(i + 1) =~= ws.take(i as int).push(w));
        i = i + 1;
    }
    assert(ws.take(rs.len() as int) =~= ws);
    Some(Dump1090Fields { icao, callsign, altitude, words: all })
}

/// Extending a list by one word: the first flight number and altitude of the
/// longer list are those of the shorter one where it has one, else those of
/// the new word.
proof fn lemma_first_after_prefix(ws: Seq<Seq<char>>, i: int)
    requires
        0 <= i < ws.len(),
    ensures
        first_callsign(ws.take(i + 1)) == (match first_callsign(ws.take(i)) {
            Some(c) => Some(c),
            None => if is_callsign(ws[i]) {
                Some(ws[i])
            } else {
                None
            },
        }),
        first_altitude(ws.take(i + 1)) == (match first_altitude(ws.take(i)) {
            Some(a) => Some(a),
            None => altitude_of(ws[i]),
        }),
    decreases i,
{
    let t1 = ws.take(i + 1);
    let t0 = ws.take(i);
    assert(t1[0] == ws[0]);
    if i > 0 {
        let d = ws.drop_first();
        assert(t0[0] == ws[0]);
        assert(d[i - 1] == ws[i]);
        lemma_first_after_prefix(d, i - 1);
        assert(t1.drop_first() =~= d.take(i));
        assert(t0.drop_first() =~= d.take(i - 1));
        assert(first_callsign(t1) == (if is_callsign(ws[0]) {
            Some(ws[0])
        } else {
            first_callsign(d.take(i))
        }));
        assert(first_callsign(t0) == (if is_callsign(ws[0]) {
            Some(ws[0])
        } else {
            first_callsign(d.take(i - 1))
        }));
        assert(first_altitude(t1) == (if altitude_of(ws[0]) is Some {
            altitude_of(ws[0])
        } else {
            first_altitude(d.take(i))
        }));
        assert(first_altitude(t0) == (if altitude_of(ws[0]) is Some {
            altitude_of(ws[0])
        } else {
            first_altitude(d.take(i - 1))
        }));
    } else {
        assert(t1.drop_first() =~= Seq::<Seq<char>>::empty());
        assert(t0.len() == 0);
        assert(first_callsign(t1.drop_first()) is None);
        assert(first_altitude(t1.drop_first()) is None);
    }
}

// ── Aircraft tables ───────────────────────────────────────────────────────────

/// Index of the first entry whose key is `key`, if any.
pub fn position_of_key(keys: &Vec<String>, key: &str) -> (r: Option<usize>)
    ensures
        r matches Some(i) ==> i < keys.len() && keys@[i as int]@ == key@ && forall|j: int|
            0 <= j < i ==> keys@[j]@ != key@,
        r is None ==> forall|j: int| 0 <= j < keys.len() ==> keys@[j]@ != key@,
{
    let mut i: usize = 0;
    while i < keys.len()
        invariant
            0 <= i <= keys.len(),
            forall|j: int| 0 <= j < i ==> keys@[j]@ != key@,
        decreases keys.len() - i,
    {
        if crate::text::str_eq(keys[i].as_str(), key) {
            return Some(i);
        }
        i = i + 1;
    }
    None
}

/// Most seconds an aircraft entry is kept after it was last seen.
pub const AIRCRAFT_TTL_SECS: u64 = 60;

/// Whether an aircraft entry last seen at `last_seen` is kept at `now`: it
/// must carry a time, and less than the TTL may have passed (a time in the
/// future counts as none passed).
pub fn aircraft_fresh(now: u64, last_seen: Option<u64>) -> (keep: bool)
    ensures
        keep == match last_seen {
            Some(t) => (if now >= t { now - t } else { 0 }) < AIRCRAFT_TTL_SECS,
            None => false,
        },
{
    match last_seen {
        Some(t) => now.saturating_sub(t) < AIRCRAFT_TTL_SECS,
        None => false,
    }
}

// ── Simulation mode (no dump1090 installed) ──────────────────────────────────

/// The upper-case hexadecimal digit of `d` (below 16).
pub open spec fn hex_digit(d: nat) -> char {
    seq!['0', '1', '2', '3', '4', '5', '6', '7', '8', '9', 'A', 'B', 'C', 'D', 'E', 'F'][d as int]
}

/// The upper-case hexadecimal text of `n`, without leading zeros.
pub open spec fn hex_upper(n: nat) -> Seq<char>
    decreases n,
{
    if n < 16 {
        seq![hex_digit(n)]
    } else {
        hex_upper(n / 16).push(hex_digit(n % 16))
    }
}

/// `hex_upper(n)` padded with zeros on the left to at least four digits
/// (`{:04X}`).
pub open spec fn hex4(n: nat) -> Seq<char> {
    let h = hex_upper(n);
    if h.len() < 4 {
        Seq::new((4 - h.len()) as nat, |i: int| '0') + h
    } else {
        h
    }
}

fn push_hex(out: &mut Vec<char>, n: u32)
    ensures
        final(out)@ == old(out)@ + hex_upper(n as nat),
    decreases n,
{
    if n >= 16 {
        push_hex(out, n / 16);
    }
    let digits: Vec<char> = vec!['0', '1', '2', '3', '4', '5', '6', '7', '8', '9', 'A', 'B', 'C', 'D', 'E', 'F'];
    assert(digits@ == seq!['0', '1', '2', '3', '4', '5', '6', '7', '8', '9', 'A', 'B', 'C', 'D', 'E', 'F']);
    let d = (n % 16) as usize;
    out.push(digits[d]);
    proof {
        if n >= 16 {
            assert(hex_upper(n as nat) == hex_upper((n / 16) as nat).push(hex_digit((n % 16) as nat)));
        }
    }
}

proof fn lemma_hex_nonempty(n: nat)
    ensures
        hex_upper(n).len() >= 1,
    decreases n,
{
    if n >= 16 {
        lemma_hex_nonempty(n / 16);
    }
}

/// The integer fields of a simulated aircraft: what the monitor reports,
/// every third tick of its clock, when dump1090 is not installed.
#[derive(Debug, Clone)]
pub struct SimulatedAircraft {
    pub icao: String,
    pub callsign: String,
    pub altitude: u32,
    pub speed: u32,
    pub heading: u32,
    pub vertical_rate: i32,
}

/// Largest tick the simulation's arithmetic allows (`tick * 100` fits an `i32`).
pub const MAX_SIMULATION_TICK: u32 = 21_474_836;

/// Whether tick `tick` of the simulation reports an aircraft.
pub fn simulation_reports(tick: u32) -> (b: bool)
    ensures
        b == (tick % 3 == 0),
{
    tick % 3 == 0
}

/// The aircraft simulated at tick `tick`: address `A` and the tick in four
/// or more upper-case hex digits, flight `SIM` and the tick, altitude
/// 5000 + 100·tick, speed 250 + 10·tick, heading 45·tick mod 360, level.
pub fn simulated_aircraft(tick: u32) -> (a: SimulatedAircraft)
    requires
        tick <= MAX_SIMULATION_TICK,
    ensures
        a.icao@ == seq!['A'] + hex4(tick as nat),
        a.callsign@ == seq!['S', 'I', 'M'] + dec(tick as nat),
        a.altitude == 5000 + 100 * tick,
        a.speed == 250 + 10 * tick,
        a.heading == (45 * tick) % 360,
        a.vertical_rate == 0,
{
    let mut h: Vec<char> = Vec::new();
    push_hex(&mut h, tick);
    proof {
        lemma_hex_nonempty(tick as nat);
        assert(h@ =~= hex_upper(tick as nat));
    }
    let mut icao: Vec<char> = Vec::new();
    icao.push('A');
    let mut pad: usize = h.len();
    while pad < 4
        invariant
            h@ == hex_upper(tick as nat),
            h.len() <= pad,
            pad <= 4 || pad == h.len(),
            icao@ == seq!['A'] + Seq::new((pad - h.len()) as nat, |i: int| '0'),
        decreases 4 - pad,
    {
        let ghost before = icao@;
        icao.push('0');
        assert(icao@ =~= seq!['A'] + Seq::new((pad + 1 - h.len()) as nat, |i: int| '0'));
        pad = pad + 1;
    }
    let ghost zeros = icao@;
    let mut j: usize = 0;
    while j < h.len()
        invariant
            0 <= j <= h.len(),
            icao@ == zeros + h@.take(j as int),
        decreases h.len() - j,
    {
        icao.push(h[j]);
        assert(icao@ =~= zeros + h@.take(j + 1));
        j = j + 1;
    }
    proof {
        assert(h@.take(h.len() as int) =~= h@);
        if h.len() < 4 {
            assert(icao@ =~= seq!['A'] + hex4(tick as nat));
        } else {
            assert(Seq::new(0, |i: int| '0') + h@ =~= h@);
            assert(icao@ =~= seq!['A'] + hex4(tick as nat));
        }
    }
    let mut cs: Vec<char> = Vec::new();
    push_str(&mut cs, "SIM");
    proof {
        reveal_strlit("SIM");
        assert(cs@ =~= seq!['S', 'I', 'M']);
    }
    push_dec(&mut cs, tick as u64);
    SimulatedAircraft {
        icao: string_from_chars(&icao),
        callsign: string_from_chars(&cs),
        altitude: 5000 + 100 * tick,
        speed: 250 + 10 * tick,
        heading: (45 * tick) % 360,
        vertical_rate: 0,
    }
}

} // verus!
