//! The hub's decisions on one pushed batch: which entries of each tile are
//! written and under which dimension, which are refused (implausible fields
//! or over the node's rate limit), when a tile gets a position heartbeat
//! instead, and the accepted/refused counts the node is answered with. The
//! power levels, being readings in dBm, are compared by the caller, which
//! hands over the outcome as `levels_ok`.
use vstd::prelude::*;
use crate::dimension::{rf_dimension, rf_dimension_text, sat_dimension, sat_dimension_text, wifi_dimension, wifi_dimension_text};
use crate::ratelimit::{rf_key, rf_step, wifi_key, wifi_step, RateLimiter, RateLimiterView};
use crate::sanitize::{rf_fields_ok, rf_fields_plausible, wifi_fields_ok, wifi_fields_plausible};

verus! {

/// An RF aggregate of a batch, by the fields the merge decides on.
/// `levels_ok`: its mean power is at most its max power plus 0.1 dB.
#[derive(Clone, Copy, Debug)]
pub struct RfEntry {
    pub freq_start_hz: u64,
    pub freq_end_hz: u64,
    pub sample_count: u32,
    pub levels_ok: bool,
}

/// A Wi-Fi channel hotness entry of a batch, by the fields the merge decides
/// on. `levels_ok`: its mean RSSI is at most its max RSSI plus 0.1 dB.
#[derive(Clone, Debug)]
pub struct WifiEntry {
    pub band: String,
    pub channel: u32,
    pub count: u32,
    pub levels_ok: bool,
}

/// A satellite observation of a batch.
#[derive(Clone, Debug)]
pub struct SatEntry {
    pub group: String,
    pub norad: Option<String>,
    pub name: Option<String>,
}

/// One tile of a batch with its entries, in the order the batch holds them.
#[derive(Clone, Debug)]
pub struct TileEntries {
    pub tile_id: String,
    pub time_bucket: u64,
    pub rf: Vec<RfEntry>,
    pub wifi: Vec<WifiEntry>,
    pub sat: Vec<SatEntry>,
}

/// What a write merges into the tile: an RF aggregate, a Wi-Fi channel, a
/// satellite count, or a bare position heartbeat.
#[derive(Clone, Copy, Debug, PartialEq, Eq, Structural)]
pub enum WriteKind {
    Rf,
    Wifi,
    Sat,
    Heartbeat,
}

/// One row to merge: the entry `item` of the kind's list in tile `tile`
/// (0 for a heartbeat), under `dimension`.
#[derive(Clone, Debug)]
pub struct MergeWrite {
    pub kind: WriteKind,
    pub tile: usize,
    pub item: usize,
    pub dimension: String,
}

pub struct WriteView {
    pub kind: WriteKind,
    pub tile: nat,
    pub item: nat,
    pub dimension: Seq<char>,
}

impl View for MergeWrite {
    type V = WriteView;

    open spec fn view(&self) -> WriteView {
        WriteView { kind: self.kind, tile: self.tile as nat, item: self.item as nat, dimension: self.dimension@ }
    }
}

/// The outcome of a batch: the counts answered to the node, and the rows to
/// merge, in the order the entries come.
#[derive(Clone, Debug)]
pub struct MergePlan {
    pub accepted: u32,
    pub rejected: u32,
    pub writes: Vec<MergeWrite>,
}

pub open spec fn writes_view(w: Seq<MergeWrite>) -> Seq<WriteView> {
    w.map_values(|x: MergeWrite| x@)
}

/// The merge's state after some entries: the rate limiter's counts, the
/// two counts, and the rows decided so far.
pub struct PlanState {
    pub limiter: RateLimiterView,
    pub accepted: nat,
    pub rejected: nat,
    pub writes: Seq<WriteView>,
}

pub open spec fn plan_state(limiter: RateLimiterView, accepted: u32, rejected: u32, writes: Seq<MergeWrite>) -> PlanState {
    PlanState { limiter, accepted: accepted as nat, rejected: rejected as nat, writes: writes_view(writes) }
}

pub open spec fn refuse(st: PlanState, limiter: RateLimiterView) -> PlanState {
    PlanState { limiter, accepted: st.accepted, rejected: st.rejected + 1, writes: st.writes }
}

pub open spec fn take_in(st: PlanState, limiter: RateLimiterView, w: WriteView) -> PlanState {
    PlanState { limiter, accepted: st.accepted + 1, rejected: st.rejected, writes: st.writes.push(w) }
}

/// RF entry `i` of tile `ti`: refused when implausible; else counted against
/// the node's limit for `device:tile:rf:start-end`, and written if allowed.
pub open spec fn rf_entry_step(device: Seq<char>, t: TileEntries, ti: nat, st: PlanState, i: int) -> PlanState {
    let e = t.rf@[i];
    if !(rf_fields_plausible(e.freq_start_hz, e.freq_end_hz, e.sample_count) && e.levels_ok) {
        refuse(st, st.limiter)
    } else {
        let dim = rf_dimension_text(e.freq_start_hz, e.freq_end_hz);
        let (lim, ok) = rf_step(st.limiter, rf_key(device, t.tile_id@, dim), t.time_bucket);
        if ok {
            take_in(st, lim, WriteView { kind: WriteKind::Rf, tile: ti, item: i as nat, dimension: dim })
        } else {
            refuse(st, lim)
        }
    }
}

/// Wi-Fi entry `i` of tile `ti`: refused when implausible; else counted
/// against the node's limit for `device:tile:band:channel`, and written as
/// `wifi:band:channel` if allowed.
pub open spec fn wifi_entry_step(device: Seq<char>, t: TileEntries, ti: nat, st: PlanState, i: int) -> PlanState {
    let e = t.wifi@[i];
    if !(wifi_fields_plausible(e.band@, e.channel, e.count) && e.levels_ok) {
        refuse(st, st.limiter)
    } else {
        let (lim, ok) = wifi_step(st.limiter, wifi_key(device, t.tile_id@, e.band@, e.channel), t.time_bucket);
        if ok {
            take_in(
                st,
                lim,
                WriteView { kind: WriteKind::Wifi, tile: ti, item: i as nat, dimension: wifi_dimension_text(e.band@, e.channel) },
            )
        } else {
            refuse(st, lim)
        }
    }
}

pub open spec fn opt_str(o: Option<String>) -> Option<Seq<char>> {
    match o {
        Some(s) => Some(s@),
        None => None,
    }
}

/// Satellite entry `i` of tile `ti`: written under its dimension, refused
/// where it has none (an empty group).
pub open spec fn sat_entry_step(t: TileEntries, ti: nat, st: PlanState, i: int) -> PlanState {
    let e = t.sat@[i];
    match sat_dimension_text(e.group@, opt_str(e.norad), opt_str(e.name)) {
        Some(dim) => take_in(st, st.limiter, WriteView { kind: WriteKind::Sat, tile: ti, item: i as nat, dimension: dim }),
        None => refuse(st, st.limiter),
    }
}

pub open spec fn rf_fold(device: Seq<char>, t: TileEntries, ti: nat, st: PlanState, n: nat) -> PlanState
    decreases n,
{
    if n == 0 {
        st
    } else {
        rf_entry_step(device, t, ti, rf_fold(device, t, ti, st, (n - 1) as nat), n - 1)
    }
}

pub open spec fn wifi_fold(device: Seq<char>, t: TileEntries, ti: nat, st: PlanState, n: nat) -> PlanState
    decreases n,
{
    if n == 0 {
        st
    } else {
        wifi_entry_step(device, t, ti, wifi_fold(device, t, ti, st, (n - 1) as nat), n - 1)
    }
}

pub open spec fn sat_fold(t: TileEntries, ti: nat, st: PlanState, n: nat) -> PlanState
    decreases n,
{
    if n == 0 {
        st
    } else {
        sat_entry_step(t, ti, sat_fold(t, ti, st, (n - 1) as nat), n - 1)
    }
}

/// Tile `ti`: its RF, then Wi-Fi, then satellite entries; a tile of which no
/// entry was written gets a position heartbeat row, which counts as accepted.
pub open spec fn tile_step(device: Seq<char>, t: TileEntries, ti: nat, st: PlanState) -> PlanState {
    let s1 = rf_fold(device, t, ti, st, t.rf@.len());
    let s2 = wifi_fold(device, t, ti, s1, t.wifi@.len());
    let s3 = sat_fold(t, ti, s2, t.sat@.len());
    if s3.accepted == st.accepted {
        take_in(s3, s3.limiter, WriteView { kind: WriteKind::Heartbeat, tile: ti, item: 0, dimension: "heartbeat"@ })
    } else {
        s3
    }
}

pub open spec fn tiles_fold(device: Seq<char>, tiles: Seq<TileEntries>, st: PlanState, n: nat) -> PlanState
    decreases n,
{
    if n == 0 {
        st
    } else {
        tile_step(device, tiles[n - 1], (n - 1) as nat, tiles_fold(device, tiles, st, (n - 1) as nat))
    }
}

/// A fresh limiter's state, nothing counted, nothing written.
pub open spec fn initial_state() -> PlanState {
    PlanState {
        limiter: RateLimiterView { rf: Map::empty(), wifi: Map::empty(), bucket: 0 },
        accepted: 0,
        rejected: 0,
        writes: Seq::empty(),
    }
}

/// The merge of a whole batch from `device`.
pub open spec fn merge_of(device: Seq<char>, tiles: Seq<TileEntries>) -> PlanState {
    tiles_fold(device, tiles, initial_state(), tiles.len())
}

pub open spec fn tile_size(t: TileEntries) -> nat {
    t.rf@.len() + t.wifi@.len() + t.sat@.len() + 1
}

/// Entries and tiles of a batch together: a bound on the two counts' sum.
pub open spec fn batch_size(tiles: Seq<TileEntries>) -> nat
    decreases tiles.len(),
{
    if tiles.len() == 0 {
        0
    } else {
        batch_size(tiles.drop_last()) + tile_size(tiles.last())
    }
}

proof fn lemma_batch_size_prefix(tiles: Seq<TileEntries>, i: int)
    requires
        0 <= i < tiles.len(),
    ensures
        batch_size(tiles.take(i + 1)) == batch_size(tiles.take(i)) + tile_size(tiles[i]),
        batch_size(tiles.take(i + 1)) <= batch_size(tiles),
    decreases tiles.len(),
{
    assert(tiles.take(i + 1).drop_last() =~= tiles.take(i));
    if i + 1 < tiles.len() {
        lemma_batch_size_prefix(tiles.drop_last(), i);
        assert(tiles.drop_last().take(i + 1) =~= tiles.take(i + 1));
        assert(tiles.drop_last().take(i) =~= tiles.take(i));
    } else {
        assert(tiles.take(i + 1) =~= tiles);
    }
}

/// The rows added from `st` to `r` all belong to tile `ti`, one per accepted
/// entry, after the rows `st` had.
pub open spec fn grows_in_tile(st: PlanState, r: PlanState, ti: nat) -> bool {
    &&& r.writes.len() >= st.writes.len()
    &&& r.accepted >= st.accepted
    &&& r.writes.len() - st.writes.len() == r.accepted - st.accepted
    &&& r.writes.subrange(0, st.writes.len() as int) == st.writes
    &&& forall|k: int| st.writes.len() <= k < r.writes.len() ==> (#[trigger] r.writes[k]).tile == ti
}

proof fn lemma_grows_trans(a: PlanState, b: PlanState, c: PlanState, ti: nat)
    requires
        grows_in_tile(a, b, ti),
        grows_in_tile(b, c, ti),
    ensures
        grows_in_tile(a, c, ti),
{
    assert(c.writes.subrange(0, a.writes.len() as int) =~= b.writes.subrange(0, a.writes.len() as int));
    assert forall|k: int| a.writes.len() <= k < c.writes.len() implies (#[trigger] c.writes[k]).tile == ti by {
        if k < b.writes.len() {
            assert(c.writes[k] == c.writes.subrange(0, b.writes.len() as int)[k]);
        }
    }
}

proof fn lemma_rf_fold_grows(device: Seq<char>, t: TileEntries, ti: nat, st: PlanState, n: nat)
    requires
        n <= t.rf@.len(),
    ensures
        grows_in_tile(st, rf_fold(device, t, ti, st, n), ti),
    decreases n,
{
    if n == 0 {
        assert(st.writes.subrange(0, st.writes.len() as int) =~= st.writes);
    } else {
        let p = rf_fold(device, t, ti, st, (n - 1) as nat);
        lemma_rf_fold_grows(device, t, ti, st, (n - 1) as nat);
        let r = rf_entry_step(device, t, ti, p, n - 1);
        assert(r.writes.subrange(0, p.writes.len() as int) =~= p.writes);
        assert(grows_in_tile(p, r, ti));
        lemma_grows_trans(st, p, r, ti);
    }
}

proof fn lemma_wifi_fold_grows(device: Seq<char>, t: TileEntries, ti: nat, st: PlanState, n: nat)
    requires
        n <= t.wifi@.len(),
    ensures
        grows_in_tile(st, wifi_fold(device, t, ti, st, n), ti),
    decreases n,
{
    if n == 0 {
        assert(st.writes.subrange(0, st.writes.len() as int) =~= st.writes);
    } else {
        let p = wifi_fold(device, t, ti, st, (n - 1) as nat);
        lemma_wifi_fold_grows(device, t, ti, st, (n - 1) as nat);
        let r = wifi_entry_step(device, t, ti, p, n - 1);
        assert(r.writes.subrange(0, p.writes.len() as int) =~= p.writes);
        assert(grows_in_tile(p, r, ti));
        lemma_grows_trans(st, p, r, ti);
    }
}

proof fn lemma_sat_fold_grows(t: TileEntries, ti: nat, st: PlanState, n: nat)
    requires
        n <= t.sat@.len(),
    ensures
        grows_in_tile(st, sat_fold(t, ti, st, n), ti),
    decreases n,
{
    if n == 0 {
        assert(st.writes.subrange(0, st.writes.len() as int) =~= st.writes);
    } else {
        let p = sat_fold(t, ti, st, (n - 1) as nat);
        lemma_sat_fold_grows(t, ti, st, (n - 1) as nat);
        let r = sat_entry_step(t, ti, p, n - 1);
        assert(r.writes.subrange(0, p.writes.len() as int) =~= p.writes);
        assert(grows_in_tile(p, r, ti));
        lemma_grows_trans(st, p, r, ti);
    }
}

proof fn lemma_tile_step_writes(device: Seq<char>, t: TileEntries, ti: nat, st: PlanState)
    ensures
        grows_in_tile(st, tile_step(device, t, ti, st), ti),
        tile_step(device, t, ti, st).writes.len() > st.writes.len(),
{
    let s1 = rf_fold(device, t, ti, st, t.rf@.len());
    let s2 = wifi_fold(device, t, ti, s1, t.wifi@.len());
    let s3 = sat_fold(t, ti, s2, t.sat@.len());
    lemma_rf_fold_grows(device, t, ti, st, t.rf@.len());
    lemma_wifi_fold_grows(device, t, ti, s1, t.wifi@.len());
    lemma_sat_fold_grows(t, ti, s2, t.sat@.len());
    lemma_grows_trans(st, s1, s2, ti);
    lemma_grows_trans(st, s2, s3, ti);
    if s3.accepted == st.accepted {
        let r = tile_step(device, t, ti, st);
        assert(r.writes.subrange(0, s3.writes.len() as int) =~= s3.writes);
        assert(grows_in_tile(s3, r, ti));
        lemma_grows_trans(st, s3, r, ti);
    }
}

/// Some row from index `lo` on belongs to tile `ti`.
pub open spec fn written_from(w: Seq<WriteView>, lo: int, ti: int) -> bool {
    exists|k: int| lo <= k < w.len() && #[trigger] w[k].tile == ti
}

proof fn lemma_tiles_fold_covers(device: Seq<char>, tiles: Seq<TileEntries>, st: PlanState, n: nat)
    requires
        n <= tiles.len(),
    ensures
        tiles_fold(device, tiles, st, n).writes.len() >= st.writes.len(),
        tiles_fold(device, tiles, st, n).writes.subrange(0, st.writes.len() as int) == st.writes,
        forall|ti: int| 0 <= ti < n ==> #[trigger] written_from(tiles_fold(device, tiles, st, n).writes, st.writes.len() as int, ti),
    decreases n,
{
    if n == 0 {
        assert(st.writes.subrange(0, st.writes.len() as int) =~= st.writes);
    } else {
        let p = tiles_fold(device, tiles, st, (n - 1) as nat);
        lemma_tiles_fold_covers(device, tiles, st, (n - 1) as nat);
        let r = tiles_fold(device, tiles, st, n);
        lemma_tile_step_writes(device, tiles[n - 1], (n - 1) as nat, p);
        assert(r.writes.subrange(0, st.writes.len() as int) =~= p.writes.subrange(0, st.writes.len() as int));
        let lo = st.writes.len() as int;
        assert forall|ti: int| 0 <= ti < n implies #[trigger] written_from(r.writes, lo, ti) by {
            if ti == n - 1 {
                let k = p.writes.len() as int;
                assert(r.writes[k].tile == ti);
            } else {
                assert(written_from(p.writes, lo, ti));
                let k = choose|k: int| lo <= k < p.writes.len() && #[trigger] p.writes[k].tile == ti;
                assert(r.writes[k] == r.writes.subrange(0, p.writes.len() as int)[k]);
                assert(r.writes[k].tile == ti);
            }
        }
    }
}

/// Every tile of a batch is written at least once: by its accepted entries,
/// or else by a position heartbeat, so that each node's position shows even
/// in a cycle without signal data.
pub proof fn every_tile_is_written(device: Seq<char>, tiles: Seq<TileEntries>, ti: int)
    requires
        0 <= ti < tiles.len(),
    ensures
        written_from(merge_of(device, tiles).writes, 0, ti),
{
    lemma_tiles_fold_covers(device, tiles, initial_state(), tiles.len());
}

/// Decides the merge of a batch pushed by `device_id`, with a fresh rate
/// limiter: the counts and rows are those of [`merge_of`], and every entry
/// or heartbeat counts once, as accepted or refused.
pub fn plan_merge(device_id: &str, tiles: &Vec<TileEntries>) -> (p: MergePlan)
    requires
        batch_size(tiles@) <= u32::MAX,
    ensures
        p.accepted == merge_of(device_id@, tiles@).accepted,
        p.rejected == merge_of(device_id@, tiles@).rejected,
        writes_view(p.writes@) == merge_of(device_id@, tiles@).writes,
        p.accepted + p.rejected <= batch_size(tiles@),
{
    let mut limiter = RateLimiter::new();
    let mut accepted: u32 = 0;
    let mut rejected: u32 = 0;
    let mut writes: Vec<MergeWrite> = Vec::new();
    let ghost dev = device_id@;
    proof {
        assert(writes_view(writes@) =~= Seq::<WriteView>::empty());
        assert(tiles@.take(0) =~= Seq::<TileEntries>::empty());
    }
    let mut ti: usize = 0;
    while ti < tiles.len()
        invariant
            0 <= ti <= tiles.len(),
            plan_state(limiter@, accepted, rejected, writes@) == tiles_fold(dev, tiles@, initial_state(), ti as nat),
            accepted + rejected <= batch_size(tiles@.take(ti as int)),
            batch_size(tiles@) <= u32::MAX,
            dev == device_id@,
        decreases tiles.len() - ti,
    {
        proof {
            lemma_batch_size_prefix(tiles@, ti as int);
        }
        let t = &tiles[ti];
        let ghost st0 = plan_state(limiter@, accepted, rejected, writes@);
        let a0: u32 = accepted;
        let ghost base = (accepted + rejected) as nat;
        // RF aggregates
        let mut i: usize = 0;
        while i < t.rf.len()
            invariant
                0 <= i <= t.rf.len(),
                *t == tiles@[ti as int],
                ti < tiles.len(),
                plan_state(limiter@, accepted, rejected, writes@) == rf_fold(dev, *t, ti as nat, st0, i as nat),
                accepted + rejected == base + i,
                base + tile_size(*t) <= u32::MAX,
                accepted >= a0,
                dev == device_id@,
            decreases t.rf.len() - i,
        {
            let e = t.rf[i];
            let ghost prev = plan_state(limiter@, accepted, rejected, writes@);
            if !(rf_fields_ok(e.freq_start_hz, e.freq_end_hz, e.sample_count) && e.levels_ok) {
                rejected = rejected + 1;
            } else {
                let dim = rf_dimension(e.freq_start_hz, e.freq_end_hz);
                let ok = limiter.allow_rf(device_id, t.tile_id.as_str(), t.time_bucket, dim.as_str());
                if ok {
                    accepted = accepted + 1;
                    let w = MergeWrite { kind: WriteKind::Rf, tile: ti, item: i, dimension: dim };
                    let ghost wv = w@;
                    let ghost old_writes = writes@;
                    writes.push(w);
                    proof {
                        assert(writes_view(writes@) =~= writes_view(old_writes).push(wv));
                    }
                } else {
                    rejected = rejected + 1;
                }
            }
            proof {
                assert(plan_state(limiter@, accepted, rejected, writes@) == rf_entry_step(dev, *t, ti as nat, prev, i as int));
            }
            i = i + 1;
        }
        let ghost st1 = plan_state(limiter@, accepted, rejected, writes@);
        let ghost base1 = (accepted + rejected) as nat;
        // Wi-Fi channels
        let mut i: usize = 0;
        while i < t.wifi.len()
            invariant
                0 <= i <= t.wifi.len(),
                *t == tiles@[ti as int],
                ti < tiles.len(),
                plan_state(limiter@, accepted, rejected, writes@) == wifi_fold(dev, *t, ti as nat, st1, i as nat),
                accepted + rejected == base1 + i,
                base1 == base + t.rf.len(),
                base + tile_size(*t) <= u32::MAX,
                accepted >= a0,
                dev == device_id@,
            decreases t.wifi.len() - i,
        {
            let e = &t.wifi[i];
            let ghost prev = plan_state(limiter@, accepted, rejected, writes@);
            if !(wifi_fields_ok(e.band.as_str(), e.channel, e.count) && e.levels_ok) {
                rejected = rejected + 1;
            } else {
                let ok = limiter.allow_wifi(device_id, t.tile_id.as_str(), t.time_bucket, e.band.as_str(), e.channel);
                if ok {
                    accepted = accepted + 1;
                    let dim = wifi_dimension(e.band.as_str(), e.channel);
                    let w = MergeWrite { kind: WriteKind::Wifi, tile: ti, item: i, dimension: dim };
                    let ghost wv = w@;
                    let ghost old_writes = writes@;
                    writes.push(w);
                    proof {
                        assert(writes_view(writes@) =~= writes_view(old_writes).push(wv));
                    }
                } else {
                    rejected = rejected + 1;
                }
            }
            proof {
                assert(plan_state(limiter@, accepted, rejected, writes@) == wifi_entry_step(dev, *t, ti as nat, prev, i as int));
            }
            i = i + 1;
        }
        let ghost st2 = plan_state(limiter@, accepted, rejected, writes@);
        let ghost base2 = (accepted + rejected) as nat;
        // Satellite observations
        let mut i: usize = 0;
        while i < t.sat.len()
            invariant
                0 <= i <= t.sat.len(),
                *t == tiles@[ti as int],
                ti < tiles.len(),
                plan_state(limiter@, accepted, rejected, writes@) == sat_fold(*t, ti as nat, st2, i as nat),
                accepted + rejected == base2 + i,
                base2 == base + t.rf.len() + t.wifi.len(),
                base + tile_size(*t) <= u32::MAX,
                accepted >= a0,
            decreases t.sat.len() - i,
        {
            let e = &t.sat[i];
            let ghost prev = plan_state(limiter@, accepted, rejected, writes@);
            let norad: Option<&str> = match &e.norad {
                Some(n) => Some(n.as_str()),
                None => None,
            };
            let name: Option<&str> = match &e.name {
                Some(n) => Some(n.as_str()),
                None => None,
            };
            match sat_dimension(e.group.as_str(), norad, name) {
                Some(dim) => {
                    accepted = accepted + 1;
                    let w = MergeWrite { kind: WriteKind::Sat, tile: ti, item: i, dimension: dim };
                    let ghost wv = w@;
                    let ghost old_writes = writes@;
                    writes.push(w);
                    proof {
                        assert(writes_view(writes@) =~= writes_view(old_writes).push(wv));
                    }
                },
                None => {
                    rejected = rejected + 1;
                },
            }
            proof {
                assert(plan_state(limiter@, accepted, rejected, writes@) == sat_entry_step(*t, ti as nat, prev, i as int));
            }
            i = i + 1;
        }
        // Position heartbeat for a tile without signal data
        let ghost prev = plan_state(limiter@, accepted, rejected, writes@);
        if accepted == a0 {
            accepted = accepted + 1;
            let w = MergeWrite { kind: WriteKind::Heartbeat, tile: ti, item: 0, dimension: "heartbeat".to_owned() };
            let ghost wv = w@;
            let ghost old_writes = writes@;
            writes.push(w);
            proof {
                assert(writes_view(writes@) =~= writes_view(old_writes).push(wv));
            }
        }
        proof {
            assert(plan_state(limiter@, accepted, rejected, writes@) == tile_step(dev, tiles@[ti as int], ti as nat, st0));
        }
        ti = ti + 1;
    }
    proof {
        assert(tiles@.take(tiles.len() as int) =~= tiles@);
    }
    MergePlan { accepted, rejected, writes }
}

} // verus!
