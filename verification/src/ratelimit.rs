//! Per-node rate limiting of contributions within one time bucket.
use vstd::prelude::*;
use vstd::hash_map::StringHashMap;
use crate::dimension::lemma_dec_digits;
use crate::text::{all_digits, chars_of, dec, digits_value, is_digit, push_dec, push_str, string_from_chars};

verus! {

/// Maximum RF observations a single node may contribute to one
/// (tile_id, time_bucket, freq_band) within a 60-second bucket.
pub const RATE_LIMIT_RF_PER_TILE: u32 = 200;

/// Maximum Wi-Fi channel observations per (tile_id, time_bucket, channel).
pub const RATE_LIMIT_WIFI_PER_TILE: u32 = 20;

pub open spec fn colon() -> Seq<char> {
    seq![':']
}

/// One part of a counter key: its length in characters, `:`, then the part,
/// so that distinct tuples of parts never give one key.
pub open spec fn part(s: Seq<char>) -> Seq<char> {
    dec(s.len()) + colon() + s
}

/// Counter key of an RF contribution, from (device_id, tile_id, freq_dim).
pub open spec fn rf_key(device_id: Seq<char>, tile_id: Seq<char>, freq_dim: Seq<char>) -> Seq<char> {
    part(device_id) + (part(tile_id) + part(freq_dim))
}

/// Counter key of a Wi-Fi contribution, from (device_id, tile_id, band, channel).
pub open spec fn wifi_key(device_id: Seq<char>, tile_id: Seq<char>, band: Seq<char>, channel: u32) -> Seq<char> {
    part(device_id) + (part(tile_id) + (part(band) + dec(channel as nat)))
}

proof fn lemma_part_prefix(a: Seq<char>, r1: Seq<char>, b: Seq<char>, r2: Seq<char>)
    requires
        part(a) + r1 == part(b) + r2,
    ensures
        a == b,
        r1 == r2,
{
    let x = part(a) + r1;
    let da = dec(a.len());
    let db = dec(b.len());
    lemma_dec_digits(a.len());
    lemma_dec_digits(b.len());
    assert(x[da.len() as int] == ':');
    assert(x[db.len() as int] == ':');
    if da.len() < db.len() {
        assert(x[da.len() as int] == db[da.len() as int]);
        assert(is_digit(db[da.len() as int]));
    }
    if db.len() < da.len() {
        assert(x[db.len() as int] == da[db.len() as int]);
        assert(is_digit(da[db.len() as int]));
    }
    assert(da.len() == db.len());
    assert(da =~= x.subrange(0, da.len() as int));
    assert(db =~= x.subrange(0, db.len() as int));
    assert(a.len() == b.len());
    let l: int = da.len() as int + 1;
    assert(a =~= x.subrange(l, l + a.len()));
    assert(b =~= x.subrange(l, l + b.len()));
    assert(r1 =~= x.skip(l + a.len()));
    assert(r2 =~= x.skip(l + b.len()));
}

/// Distinct (device, tile, dimension) tuples have distinct RF counter keys.
pub proof fn rf_key_injective(d1: Seq<char>, t1: Seq<char>, f1: Seq<char>, d2: Seq<char>, t2: Seq<char>, f2: Seq<char>)
    requires
        rf_key(d1, t1, f1) == rf_key(d2, t2, f2),
    ensures
        d1 == d2 && t1 == t2 && f1 == f2,
{
    lemma_part_prefix(d1, part(t1) + part(f1), d2, part(t2) + part(f2));
    lemma_part_prefix(t1, part(f1), t2, part(f2));
    assert(part(f1) == part(f1) + Seq::<char>::empty());
    assert(part(f2) == part(f2) + Seq::<char>::empty());
    lemma_part_prefix(f1, Seq::empty(), f2, Seq::empty());
}

/// Distinct (device, tile, band, channel) tuples have distinct Wi-Fi counter keys.
pub proof fn wifi_key_injective(d1: Seq<char>, t1: Seq<char>, b1: Seq<char>, c1: u32, d2: Seq<char>, t2: Seq<char>, b2: Seq<char>, c2: u32)
    requires
        wifi_key(d1, t1, b1, c1) == wifi_key(d2, t2, b2, c2),
    ensures
        d1 == d2 && t1 == t2 && b1 == b2 && c1 == c2,
{
    lemma_part_prefix(d1, part(t1) + (part(b1) + dec(c1 as nat)), d2, part(t2) + (part(b2) + dec(c2 as nat)));
    lemma_part_prefix(t1, part(b1) + dec(c1 as nat), t2, part(b2) + dec(c2 as nat));
    lemma_part_prefix(b1, dec(c1 as nat), b2, dec(c2 as nat));
    lemma_dec_digits(c1 as nat);
    lemma_dec_digits(c2 as nat);
}

/// State of a [`RateLimiter`]: contribution counts per key and the bucket they belong to.
pub struct RateLimiterView {
    pub rf: Map<Seq<char>, u32>,
    pub wifi: Map<Seq<char>, u32>,
    pub bucket: u64,
}

pub open spec fn count_of(m: Map<Seq<char>, u32>, key: Seq<char>) -> nat {
    if m.contains_key(key) {
        m[key] as nat
    } else {
        0
    }
}

/// One call of a limiter with the given limit on counts `m`, after the
/// bucket check has reset them when needed: allowed while the key's count
/// is below the limit, which then goes up by one.
pub open spec fn limit_step(m: Map<Seq<char>, u32>, key: Seq<char>, limit: nat) -> (Map<Seq<char>, u32>, bool) {
    let c = count_of(m, key);
    if c < limit {
        (m.insert(key, (c + 1) as u32), true)
    } else {
        (m, false)
    }
}

/// One `allow_rf` call: a new bucket clears both counters first.
pub open spec fn rf_step(v: RateLimiterView, key: Seq<char>, time_bucket: u64) -> (RateLimiterView, bool) {
    let reset = time_bucket != v.bucket;
    let rf = if reset { Map::empty() } else { v.rf };
    let wifi = if reset { Map::empty() } else { v.wifi };
    let (rf2, ok) = limit_step(rf, key, RATE_LIMIT_RF_PER_TILE as nat);
    (RateLimiterView { rf: rf2, wifi, bucket: time_bucket }, ok)
}

/// One `allow_wifi` call: a new bucket clears both counters first.
pub open spec fn wifi_step(v: RateLimiterView, key: Seq<char>, time_bucket: u64) -> (RateLimiterView, bool) {
    let reset = time_bucket != v.bucket;
    let rf = if reset { Map::empty() } else { v.rf };
    let wifi = if reset { Map::empty() } else { v.wifi };
    let (wifi2, ok) = limit_step(wifi, key, RATE_LIMIT_WIFI_PER_TILE as nat);
    (RateLimiterView { rf, wifi: wifi2, bucket: time_bucket }, ok)
}

/// In-memory per-node contribution counter for a single time bucket.
/// Counts are kept per (device_id, tile_id, dimension) tuple, under the
/// tuple's length-prefixed key; they reset when the bucket rolls over.
pub struct RateLimiter {
    rf_counts: StringHashMap<u32>,
    wifi_counts: StringHashMap<u32>,
    current_bucket: u64,
}

impl View for RateLimiter {
    type V = RateLimiterView;

    closed spec fn view(&self) -> RateLimiterView {
        RateLimiterView { rf: self.rf_counts@, wifi: self.wifi_counts@, bucket: self.current_bucket }
    }
}

fn push_part(v: &mut Vec<char>, s: &str)
    ensures
        final(v)@ == old(v)@ + part(s@),
{
    let n = chars_of(s).len();
    push_dec(v, n as u64);
    v.push(':');
    push_str(v, s);
    assert(final(v)@ =~= old(v)@ + part(s@));
}

fn rf_key_string(device_id: &str, tile_id: &str, freq_dim: &str) -> (k: String)
    ensures
        k@ == rf_key(device_id@, tile_id@, freq_dim@),
{
    let mut v: Vec<char> = Vec::new();
    push_part(&mut v, device_id);
    push_part(&mut v, tile_id);
    push_part(&mut v, freq_dim);
    assert(v@ =~= rf_key(device_id@, tile_id@, freq_dim@));
    string_from_chars(&v)
}

fn wifi_key_string(device_id: &str, tile_id: &str, band: &str, channel: u32) -> (k: String)
    ensures
        k@ == wifi_key(device_id@, tile_id@, band@, channel),
{
    let mut v: Vec<char> = Vec::new();
    push_part(&mut v, device_id);
    push_part(&mut v, tile_id);
    push_part(&mut v, band);
    push_dec(&mut v, channel as u64);
    assert(v@ =~= wifi_key(device_id@, tile_id@, band@, channel));
    string_from_chars(&v)
}

impl RateLimiter {
    pub fn new() -> (r: Self)
        ensures
            r@.rf == Map::<Seq<char>, u32>::empty(),
            r@.wifi == Map::<Seq<char>, u32>::empty(),
            r@.bucket == 0,
    {
        RateLimiter { rf_counts: StringHashMap::new(), wifi_counts: StringHashMap::new(), current_bucket: 0 }
    }

    fn maybe_reset(&mut self, time_bucket: u64)
        ensures
            final(self)@.bucket == time_bucket,
            time_bucket != old(self)@.bucket ==> final(self)@.rf == Map::<Seq<char>, u32>::empty()
                && final(self)@.wifi == Map::<Seq<char>, u32>::empty(),
            time_bucket == old(self)@.bucket ==> final(self)@ == old(self)@,
    {
        if time_bucket != self.current_bucket {
            self.rf_counts.clear();
            self.wifi_counts.clear();
            self.current_bucket = time_bucket;
        }
    }

    /// Returns true if the RF contribution is within rate limit.
    pub fn allow_rf(&mut self, device_id: &str, tile_id: &str, time_bucket: u64, freq_dim: &str) -> (ok: bool)
        ensures
            (final(self)@, ok) == rf_step(old(self)@, rf_key(device_id@, tile_id@, freq_dim@), time_bucket),
    {
        self.maybe_reset(time_bucket);
        let key = rf_key_string(device_id, tile_id, freq_dim);
        let count: u32 = match self.rf_counts.get(key.as_str()) {
            Some(c) => *c,
            None => 0,
        };
        if count >= RATE_LIMIT_RF_PER_TILE {
            return false;
        }
        self.rf_counts.insert(key, count + 1);
        true
    }

    /// Returns true if the Wi-Fi contribution is within rate limit.
    pub fn allow_wifi(&mut self, device_id: &str, tile_id: &str, time_bucket: u64, band: &str, channel: u32) -> (ok: bool)
        ensures
            (final(self)@, ok) == wifi_step(old(self)@, wifi_key(device_id@, tile_id@, band@, channel), time_bucket),
    {
        self.maybe_reset(time_bucket);
        let key = wifi_key_string(device_id, tile_id, band, channel);
        let count: u32 = match self.wifi_counts.get(key.as_str()) {
            Some(c) => *c,
            None => 0,
        };
        if count >= RATE_LIMIT_WIFI_PER_TILE {
            return false;
        }
        self.wifi_counts.insert(key, count + 1);
        true
    }
}

/// `n` calls of `allow_rf` with one key and one bucket: the final state and each answer.
pub open spec fn rf_run(v: RateLimiterView, key: Seq<char>, time_bucket: u64, n: nat) -> (RateLimiterView, Seq<bool>)
    decreases n,
{
    if n == 0 {
        (v, Seq::empty())
    } else {
        let (w, answers) = rf_run(v, key, time_bucket, (n - 1) as nat);
        let (w2, ok) = rf_step(w, key, time_bucket);
        (w2, answers.push(ok))
    }
}

proof fn lemma_rf_run_counts(v: RateLimiterView, key: Seq<char>, time_bucket: u64, n: nat)
    requires
        v.bucket != time_bucket || count_of(v.rf, key) == 0,
    ensures
        n >= 1 ==> rf_run(v, key, time_bucket, n).0.bucket == time_bucket,
        n >= 1 ==> count_of(rf_run(v, key, time_bucket, n).0.rf, key) == if n < RATE_LIMIT_RF_PER_TILE { n } else { RATE_LIMIT_RF_PER_TILE as nat },
        rf_run(v, key, time_bucket, n).1.len() == n,
        forall|i: int| 0 <= i < n ==> #[trigger] rf_run(v, key, time_bucket, n).1[i] == (i < RATE_LIMIT_RF_PER_TILE),
    decreases n,
{
    if n > 0 {
        lemma_rf_run_counts(v, key, time_bucket, (n - 1) as nat);
        let (w, answers) = rf_run(v, key, time_bucket, (n - 1) as nat);
        let (w2, ok) = rf_step(w, key, time_bucket);
        if n == 1 {
            if v.bucket == time_bucket {
                assert(count_of(w.rf, key) == 0);
            }
        }
        assert forall|i: int| 0 <= i < n implies #[trigger] rf_run(v, key, time_bucket, n).1[i] == (i < RATE_LIMIT_RF_PER_TILE) by {
            if i < n - 1 {
                assert(rf_run(v, key, time_bucket, n).1[i] == answers[i]);
            }
        }
    }
}

/// Within one time bucket, a (device, tile, dimension) tuple with no RF
/// contributions yet is allowed on exactly its first
/// `RATE_LIMIT_RF_PER_TILE` calls and refused after that; a call in a new
/// bucket starts the count again.
pub proof fn rf_limit_allows_first_calls_only(
    v: RateLimiterView,
    device_id: Seq<char>,
    tile_id: Seq<char>,
    freq_dim: Seq<char>,
    time_bucket: u64,
    n: nat,
)
    requires
        v.bucket != time_bucket || count_of(v.rf, rf_key(device_id, tile_id, freq_dim)) == 0,
    ensures
        forall|i: int| 0 <= i < n ==> #[trigger] rf_run(v, rf_key(device_id, tile_id, freq_dim), time_bucket, n).1[i] == (i < RATE_LIMIT_RF_PER_TILE),
{
    lemma_rf_run_counts(v, rf_key(device_id, tile_id, freq_dim), time_bucket, n);
}

/// A call in a bucket other than the current one is always allowed.
pub proof fn rf_new_bucket_allows(v: RateLimiterView, key: Seq<char>, time_bucket: u64)
    requires
        time_bucket != v.bucket,
    ensures
        rf_step(v, key, time_bucket).1,
        rf_step(v, key, time_bucket).0.wifi == Map::<Seq<char>, u32>::empty(),
{
}

/// A refused call leaves the counts as they were (after any bucket reset).
pub proof fn rf_refusal_changes_nothing(v: RateLimiterView, key: Seq<char>)
    requires
        !rf_step(v, key, v.bucket).1,
    ensures
        rf_step(v, key, v.bucket).0 == v,
{
}

/// `n` calls of `allow_wifi` with one key and one bucket: the final state and each answer.
pub open spec fn wifi_run(v: RateLimiterView, key: Seq<char>, time_bucket: u64, n: nat) -> (RateLimiterView, Seq<bool>)
    decreases n,
{
    if n == 0 {
        (v, Seq::empty())
    } else {
        let (w, answers) = wifi_run(v, key, time_bucket, (n - 1) as nat);
        let (w2, ok) = wifi_step(w, key, time_bucket);
        (w2, answers.push(ok))
    }
}

proof fn lemma_wifi_run_counts(v: RateLimiterView, key: Seq<char>, time_bucket: u64, n: nat)
    requires
        v.bucket != time_bucket || count_of(v.wifi, key) == 0,
    ensures
        n >= 1 ==> wifi_run(v, key, time_bucket, n).0.bucket == time_bucket,
        n >= 1 ==> count_of(wifi_run(v, key, time_bucket, n).0.wifi, key) == if n < RATE_LIMIT_WIFI_PER_TILE { n } else { RATE_LIMIT_WIFI_PER_TILE as nat },
        wifi_run(v, key, time_bucket, n).1.len() == n,
        forall|i: int| 0 <= i < n ==> #[trigger] wifi_run(v, key, time_bucket, n).1[i] == (i < RATE_LIMIT_WIFI_PER_TILE),
    decreases n,
{
    if n > 0 {
        lemma_wifi_run_counts(v, key, time_bucket, (n - 1) as nat);
        let (w, answers) = wifi_run(v, key, time_bucket, (n - 1) as nat);
        let (w2, ok) = wifi_step(w, key, time_bucket);
        if n == 1 {
            if v.bucket == time_bucket {
                assert(count_of(w.wifi, key) == 0);
            }
        }
        assert forall|i: int| 0 <= i < n implies #[trigger] wifi_run(v, key, time_bucket, n).1[i] == (i < RATE_LIMIT_WIFI_PER_TILE) by {
            if i < n - 1 {
                assert(wifi_run(v, key, time_bucket, n).1[i] == answers[i]);
            }
        }
    }
}

/// Within one time bucket, a (device, tile, band, channel) tuple with no
/// Wi-Fi contributions yet is allowed on exactly its first
/// `RATE_LIMIT_WIFI_PER_TILE` calls and refused after that.
pub proof fn wifi_limit_allows_first_calls_only(
    v: RateLimiterView,
    device_id: Seq<char>,
    tile_id: Seq<char>,
    band: Seq<char>,
    channel: u32,
    time_bucket: u64,
    n: nat,
)
    requires
        v.bucket != time_bucket || count_of(v.wifi, wifi_key(device_id, tile_id, band, channel)) == 0,
    ensures
        forall|i: int| 0 <= i < n ==> #[trigger] wifi_run(v, wifi_key(device_id, tile_id, band, channel), time_bucket, n).1[i] == (i < RATE_LIMIT_WIFI_PER_TILE),
{
    lemma_wifi_run_counts(v, wifi_key(device_id, tile_id, band, channel), time_bucket, n);
}

/// A Wi-Fi call in a bucket other than the current one is always allowed,
/// and clears the RF counts too.
pub proof fn wifi_new_bucket_allows(v: RateLimiterView, key: Seq<char>, time_bucket: u64)
    requires
        time_bucket != v.bucket,
    ensures
        wifi_step(v, key, time_bucket).1,
        wifi_step(v, key, time_bucket).0.rf == Map::<Seq<char>, u32>::empty(),
{
}

/// A refused Wi-Fi call leaves the counts as they were.
pub proof fn wifi_refusal_changes_nothing(v: RateLimiterView, key: Seq<char>)
    requires
        !wifi_step(v, key, v.bucket).1,
    ensures
        wifi_step(v, key, v.bucket).0 == v,
{
}

/// Within one bucket, a call counts against its own key only: every other
/// key's RF and Wi-Fi counts stay as they were.
pub proof fn limits_are_per_key(v: RateLimiterView, key: Seq<char>, other: Seq<char>)
    requires
        key != other,
    ensures
        count_of(rf_step(v, key, v.bucket).0.rf, other) == count_of(v.rf, other),
        count_of(rf_step(v, key, v.bucket).0.wifi, other) == count_of(v.wifi, other),
        count_of(wifi_step(v, key, v.bucket).0.wifi, other) == count_of(v.wifi, other),
        count_of(wifi_step(v, key, v.bucket).0.rf, other) == count_of(v.rf, other),
{
}

/// Within one bucket, an RF call counts against its own (device, tile,
/// dimension) tuple only: the count of any other tuple stays as it was,
/// however the parts' texts compare.
pub proof fn rf_limits_are_per_tuple(
    v: RateLimiterView,
    d1: Seq<char>,
    t1: Seq<char>,
    f1: Seq<char>,
    d2: Seq<char>,
    t2: Seq<char>,
    f2: Seq<char>,
)
    requires
        (d1, t1, f1) != (d2, t2, f2),
    ensures
        count_of(rf_step(v, rf_key(d1, t1, f1), v.bucket).0.rf, rf_key(d2, t2, f2)) == count_of(v.rf, rf_key(d2, t2, f2)),
{
    if rf_key(d1, t1, f1) == rf_key(d2, t2, f2) {
        rf_key_injective(d1, t1, f1, d2, t2, f2);
    }
    limits_are_per_key(v, rf_key(d1, t1, f1), rf_key(d2, t2, f2));
}

/// Within one bucket, a Wi-Fi call counts against its own (device, tile,
/// band, channel) tuple only: the count of any other tuple stays as it was,
/// however the parts' texts compare.
pub proof fn wifi_limits_are_per_tuple(
    v: RateLimiterView,
    d1: Seq<char>,
    t1: Seq<char>,
    b1: Seq<char>,
    c1: u32,
    d2: Seq<char>,
    t2: Seq<char>,
    b2: Seq<char>,
    c2: u32,
)
    requires
        (d1, t1, b1, c1) != (d2, t2, b2, c2),
    ensures
        count_of(wifi_step(v, wifi_key(d1, t1, b1, c1), v.bucket).0.wifi, wifi_key(d2, t2, b2, c2)) == count_of(
            v.wifi,
            wifi_key(d2, t2, b2, c2),
        ),
{
    if wifi_key(d1, t1, b1, c1) == wifi_key(d2, t2, b2, c2) {
        wifi_key_injective(d1, t1, b1, c1, d2, t2, b2, c2);
    }
    limits_are_per_key(v, wifi_key(d1, t1, b1, c1), wifi_key(d2, t2, b2, c2));
}

} // verus!
