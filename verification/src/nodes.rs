//! Hub view of nodes: connection status, PLI heartbeat fan-out and the
//! decisions around a pushed batch.
use vstd::prelude::*;
use crate::tile::{spec_time_bucket, time_bucket};

verus! {

/// Hub node connection status for UI/debug panels.
pub struct NodeStatus {
    pub device_id: String,
    pub source_type: String,
    pub last_seen: u64,
    pub age_secs: u64,
    /// CONNECTED | STALE | OFFLINE
    pub status: String,
}

/// A stored integer column read as unsigned: negative values read as 0.
pub open spec fn nonneg(x: i64) -> u64 {
    if x < 0 {
        0
    } else {
        x as u64
    }
}

pub fn nonneg_u64(x: i64) -> (r: u64)
    ensures
        r == nonneg(x),
{
    if x < 0 {
        0
    } else {
        x as u64
    }
}

pub open spec fn node_age(now: u64, last_seen: i64) -> nat {
    if now >= nonneg(last_seen) {
        (now - nonneg(last_seen)) as nat
    } else {
        0
    }
}

/// CONNECTED within the stale window, STALE within three windows, else OFFLINE.
pub open spec fn status_label(age: nat, stale_after_secs: nat) -> Seq<char> {
    if age <= stale_after_secs {
        "CONNECTED"@
    } else if age <= stale_after_secs * 3 {
        "STALE"@
    } else {
        "OFFLINE"@
    }
}

/// The status of a node last seen at `last_seen` (a stored value, negative
/// read as 0), at time `now`.
pub fn node_status(device_id: String, source_type: String, last_seen: i64, now: u64, stale_after_secs: u64) -> (s: NodeStatus)
    requires
        node_age(now, last_seen) > stale_after_secs ==> stale_after_secs * 3 <= u64::MAX,
    ensures
        s.device_id == device_id,
        s.source_type == source_type,
        s.last_seen == nonneg(last_seen),
        s.age_secs == node_age(now, last_seen),
        s.status@ == status_label(node_age(now, last_seen), stale_after_secs as nat),
{
    let last_seen_u = nonneg_u64(last_seen);
    let age_secs = now.saturating_sub(last_seen_u);
    let status = if age_secs <= stale_after_secs {
        "CONNECTED".to_owned()
    } else if age_secs <= stale_after_secs * 3 {
        "STALE".to_owned()
    } else {
        "OFFLINE".to_owned()
    };
    NodeStatus { device_id, source_type, last_seen: last_seen_u, age_secs, status }
}

/// A node's last known position, for PLI rendering.
pub struct PliPoint {
    pub device_id: String,
    pub source_type: String,
    pub last_seen: u64,
    pub tile_id: String,
}

/// A registry row of a node with a known tile.
pub struct PliRow {
    pub device_id: String,
    pub source_type: String,
    pub last_seen: u64,
    pub tile_id: String,
    pub last_tile_bucket: u64,
}

/// A heartbeat tile for one node: where it was, in which time bucket.
pub struct PliTile {
    pub tile_id: String,
    pub time_bucket: u64,
    pub device_id: String,
    pub source_type: String,
}

/// The bucket of a heartbeat: the node's last tile bucket, or (when that is
/// 0) its last-seen time, floored to 60 seconds.
pub open spec fn pli_bucket(row: PliRow) -> nat {
    spec_time_bucket(if row.last_tile_bucket > 0 {
        row.last_tile_bucket as nat
    } else {
        row.last_seen as nat
    })
}

/// The cursor after fan-out: the largest of `cursor` and every last-seen time.
pub open spec fn max_seen(cursor: nat, rows: Seq<PliRow>) -> nat
    decreases rows.len(),
{
    if rows.len() == 0 {
        cursor
    } else {
        let m = max_seen(cursor, rows.drop_last());
        if rows.last().last_seen > m {
            rows.last().last_seen as nat
        } else {
            m
        }
    }
}

/// One heartbeat tile per node, in order, and the advanced cursor.
pub fn pli_fanout(rows: &Vec<PliRow>, cursor: u64) -> (r: (Vec<PliTile>, u64))
    ensures
        r.0.len() == rows.len(),
        forall|i: int| 0 <= i < rows.len() ==> {
            &&& (#[trigger] r.0[i]).tile_id@ == rows[i].tile_id@
            &&& r.0[i].device_id@ == rows[i].device_id@
            &&& r.0[i].source_type@ == rows[i].source_type@
            &&& r.0[i].time_bucket == pli_bucket(rows[i])
        },
        r.1 == max_seen(cursor as nat, rows@),
        r.1 >= cursor,
{
    let mut tiles: Vec<PliTile> = Vec::new();
    let mut out = cursor;
    let mut i: usize = 0;
    while i < rows.len()
        invariant
            0 <= i <= rows.len(),
            tiles.len() == i,
            forall|k: int| 0 <= k < i ==> {
                &&& (#[trigger] tiles[k]).tile_id@ == rows[k].tile_id@
                &&& tiles[k].device_id@ == rows[k].device_id@
                &&& tiles[k].source_type@ == rows[k].source_type@
                &&& tiles[k].time_bucket == pli_bucket(rows[k])
            },
            out == max_seen(cursor as nat, rows@.take(i as int)),
            out >= cursor,
        decreases rows.len() - i,
    {
        let row = &rows[i];
        let t = if row.last_tile_bucket > 0 {
            row.last_tile_bucket
        } else {
            row.last_seen
        };
        tiles.push(PliTile {
            tile_id: row.tile_id.clone(),
            time_bucket: time_bucket(t),
            device_id: row.device_id.clone(),
            source_type: row.source_type.clone(),
        });
        if row.last_seen > out {
            out = row.last_seen;
        }
        assert(rows@.take(i + 1).drop_last() =~= rows@.take(i as int));
        i = i + 1;
    }
    assert(rows@.take(rows.len() as int) =~= rows@);
    (tiles, out)
}

/// The largest of `values`, or `default` when there are none.
pub fn max_or(values: &Vec<u64>, default: u64) -> (m: u64)
    ensures
        values.len() == 0 ==> m == default,
        values.len() > 0 ==> (exists|i: int| 0 <= i < values.len() && m == values[i]) && forall|i: int|
            0 <= i < values.len() ==> values[i] <= m,
{
    if values.len() == 0 {
        return default;
    }
    let mut m = values[0];
    let mut i: usize = 1;
    while i < values.len()
        invariant
            1 <= i <= values.len(),
            exists|k: int| 0 <= k < i && m == values[k],
            forall|k: int| 0 <= k < i ==> values[k] <= m,
        decreases values.len() - i,
    {
        if values[i] > m {
            m = values[i];
        }
        i = i + 1;
    }
    m
}

/// What the hub does with a pushed batch's signature: a node with a
/// registered public key must sign its batches, so its batch is refused
/// when unsigned or when the signature check answered that it is invalid.
/// A node without a registered key is accepted signed or not (first-contact
/// grace), and a check that could not be made does not refuse the batch.
pub open spec fn batch_refused(signed: bool, registered_key: bool, check: Option<bool>) -> bool {
    registered_key && (!signed || check == Some(false))
}

pub fn refuse_batch(signed: bool, registered_key: bool, check: Option<bool>) -> (r: bool)
    ensures
        r == batch_refused(signed, registered_key, check),
{
    registered_key && (!signed || match check {
        Some(ok) => !ok,
        None => false,
    })
}

/// Hub API server configuration.
pub struct HubConfig {
    pub bind_addr: String,
    pub db_path: String,
    /// If false, hub runs in aggregation-only mode (no local collector)
    pub collector_enabled: bool,
}

impl Default for HubConfig {
    fn default() -> (c: Self)
        ensures
            c.bind_addr@ == "0.0.0.0:8789"@,
            c.db_path@ == "/tmp/hub.db"@,
            c.collector_enabled,
    {
        HubConfig { bind_addr: "0.0.0.0:8789".to_owned(), db_path: "/tmp/hub.db".to_owned(), collector_enabled: true }
    }
}

} // verus!
