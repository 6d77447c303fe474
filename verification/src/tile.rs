use vstd::prelude::*;
use crate::dimension::{decode_row, entry_view, row_entry, RowEntry, RowEntryView};

verus! {

/// Seconds since the Unix epoch by the system clock (0 if the clock reads
/// before the epoch), from `std::time::SystemTime`. The time is not stated.
#[verifier::external_body]
pub(crate) fn unix_now_secs() -> u64 {
    std::time::SystemTime::now().duration_since(std::time::UNIX_EPOCH).unwrap_or_default().as_secs()
}

/// Width of a time bucket in seconds.
pub const TIME_BUCKET_SECS: u64 = 60;

/// The start of the 60-second bucket that holds `timestamp_utc`.
pub open spec fn spec_time_bucket(timestamp_utc: nat) -> nat {
    (timestamp_utc / 60) * 60
}

/// Floors a Unix timestamp to the start of its 60-second bucket.
pub fn time_bucket(timestamp_utc: u64) -> (bucket: u64)
    ensures
        bucket == spec_time_bucket(timestamp_utc as nat),
        bucket <= timestamp_utc < bucket + 60,
        bucket % 60 == 0,
{
    (timestamp_utc / 60) * 60
}

} // verus!

verus! {

/// Groups of rows that share a tile and time bucket: each key once, in the
/// order of its first row, with the indices of its rows in order.
pub struct TileGroup {
    pub tile_id: String,
    pub time_bucket: u64,
    pub rows: Vec<usize>,
}

pub open spec fn key_eq(a: (String, u64), b: (String, u64)) -> bool {
    a.0@ == b.0@ && a.1 == b.1
}

/// Row `i` is listed in some group.
pub open spec fn row_in_groups(groups: Seq<TileGroup>, i: int) -> bool {
    exists|g: int, k: int|
        0 <= g < groups.len() && 0 <= k < groups[g].rows.len() && #[trigger] groups[g].rows@[k] == i
}

spec fn row_in_lists(rows: Seq<Vec<usize>>, i: int) -> bool {
    exists|g: int, k: int| 0 <= g < rows.len() && 0 <= k < rows[g].len() && #[trigger] rows[g]@[k] == i
}

/// `groups` partitions the indices of `keys` by key: every group's key is
/// distinct, each row index appears in exactly the group of its key, in
/// increasing order, and groups come in the order of their first rows.
pub open spec fn groups_partition(keys: Seq<(String, u64)>, groups: Seq<TileGroup>) -> bool {
    &&& forall|g: int, h: int|
        0 <= g < h < groups.len() ==> !(groups[g].tile_id@ == groups[h].tile_id@
            && groups[g].time_bucket == groups[h].time_bucket)
    &&& forall|g: int|
        0 <= g < groups.len() ==> (#[trigger] groups[g]).rows.len() > 0 && (forall|k: int|
            0 <= k < groups[g].rows.len() ==> {
                &&& #[trigger] groups[g].rows@[k] < keys.len()
                &&& keys[groups[g].rows@[k] as int].0@ == groups[g].tile_id@
                &&& keys[groups[g].rows@[k] as int].1 == groups[g].time_bucket
            }) && (forall|k: int, l: int|
            0 <= k < l < groups[g].rows.len() ==> groups[g].rows@[k] < groups[g].rows@[l])
    &&& forall|i: int| 0 <= i < keys.len() ==> #[trigger] row_in_groups(groups, i)
    &&& forall|g: int, h: int|
        0 <= g < h < groups.len() ==> groups[g].rows@[0] < groups[h].rows@[0]
}

} // verus!

verus! {

fn find_group(tiles: &Vec<String>, buckets: &Vec<u64>, tile_id: &str, bucket: u64) -> (r: Option<
    usize,
>)
    requires
        tiles.len() == buckets.len(),
    ensures
        r matches Some(g) ==> g < tiles.len() && tiles@[g as int]@ == tile_id@ && buckets@[g as int]
            == bucket,
        r is None ==> forall|g: int|
            0 <= g < tiles.len() ==> !(tiles@[g]@ == tile_id@ && buckets@[g] == bucket),
{
    let mut g: usize = 0;
    while g < tiles.len()
        invariant
            tiles.len() == buckets.len(),
            0 <= g <= tiles.len(),
            forall|h: int| 0 <= h < g ==> !(tiles@[h]@ == tile_id@ && buckets@[h] == bucket),
        decreases tiles.len() - g,
    {
        if buckets[g] == bucket && crate::text::str_eq(tiles[g].as_str(), tile_id) {
            return Some(g);
        }
        g = g + 1;
    }
    None
}

/// Groups row indices by (tile, time bucket), keys in order of first
/// appearance.
pub fn group_tiles(keys: &Vec<(String, u64)>) -> (groups: Vec<TileGroup>)
    ensures
        groups_partition(keys@, groups@),
{
    let mut tiles: Vec<String> = Vec::new();
    let mut buckets: Vec<u64> = Vec::new();
    let mut rows: Vec<Vec<usize>> = Vec::new();
    let mut i: usize = 0;
    while i < keys.len()
        invariant
            0 <= i <= keys.len(),
            tiles.len() == buckets.len() == rows.len(),
            forall|g: int, h: int|
                0 <= g < h < tiles.len() ==> !(tiles@[g]@ == tiles@[h]@ && buckets@[g]
                    == buckets@[h]),
            forall|g: int|
                0 <= g < rows.len() ==> (#[trigger] rows@[g]).len() > 0 && (forall|k: int|
                    0 <= k < rows@[g].len() ==> {
                        &&& #[trigger] rows@[g]@[k] < i
                        &&& keys@[rows@[g]@[k] as int].0@ == tiles@[g]@
                        &&& keys@[rows@[g]@[k] as int].1 == buckets@[g]
                    }) && (forall|k: int, l: int|
                    0 <= k < l < rows@[g].len() ==> rows@[g]@[k] < rows@[g]@[l]),
            forall|j: int| 0 <= j < i ==> #[trigger] row_in_lists(rows@, j),
            forall|g: int, h: int| 0 <= g < h < rows.len() ==> rows@[g]@[0] < rows@[h]@[0],
        decreases keys.len() - i,
    {
        let (t, b) = &keys[i];
        let ghost old_rows = rows@;
        match find_group(&tiles, &buckets, t.as_str(), *b) {
            Some(g) => {
                let mut r = rows[g].clone();
                assert(r@ == old_rows[g as int]@);
                r.push(i);
                rows.set(g, r);
                assert forall|j: int| 0 <= j < i + 1 implies #[trigger] row_in_lists(rows@, j) by {
                    if j == i {
                        assert(rows@[g as int]@[rows@[g as int].len() - 1] == j);
                    } else {
                        assert(row_in_lists(old_rows, j));
                        let (g1, k1) = choose|g1: int, k1: int|
                            0 <= g1 < old_rows.len() && 0 <= k1 < old_rows[g1].len()
                                && #[trigger] old_rows[g1]@[k1] == j;
                        assert(rows@[g1]@[k1] == j);
                    }
                }
            },
            None => {
                tiles.push(t.clone());
                buckets.push(*b);
                let mut r: Vec<usize> = Vec::new();
                r.push(i);
                rows.push(r);
                assert forall|j: int| 0 <= j < i + 1 implies #[trigger] row_in_lists(rows@, j) by {
                    if j == i {
                        assert(rows@[rows.len() - 1]@[0] == j);
                    } else {
                        assert(row_in_lists(old_rows, j));
                        let (g1, k1) = choose|g1: int, k1: int|
                            0 <= g1 < old_rows.len() && 0 <= k1 < old_rows[g1].len()
                                && #[trigger] old_rows[g1]@[k1] == j;
                        assert(rows@[g1]@[k1] == j);
                    }
                }
            },
        }
        i = i + 1;
    }
    let mut groups: Vec<TileGroup> = Vec::new();
    let mut g: usize = 0;
    while g < rows.len()
        invariant
            0 <= g <= rows.len(),
            tiles.len() == buckets.len() == rows.len(),
            groups.len() == g,
            forall|h: int|
                0 <= h < g ==> (#[trigger] groups@[h]).tile_id@ == tiles@[h]@ && groups@[h].time_bucket
                    == buckets@[h] && groups@[h].rows@ == rows@[h]@,
        decreases rows.len() - g,
    {
        groups.push(TileGroup { tile_id: tiles[g].clone(), time_bucket: buckets[g], rows: rows[g].clone() });
        g = g + 1;
    }
    proof {
        assert forall|j: int| 0 <= j < keys.len() implies #[trigger] row_in_groups(groups@, j) by {
            assert(row_in_lists(rows@, j));
            let (g1, k1) = choose|g1: int, k1: int|
                0 <= g1 < rows.len() && 0 <= k1 < rows@[g1].len() && #[trigger] rows@[g1]@[k1] == j;
            assert(groups@[g1].rows@[k1] == j);
        }
    }
    groups
}

} // verus!

verus! {

/// A stored aggregate row, by what rebuilding tiles reads of it.
pub struct StoredRow {
    pub tile_id: String,
    pub time_bucket: u64,
    pub sensor_type: String,
    pub dimension: String,
}

/// Row `row` of a tile, read as `entry`.
pub struct LaidRow {
    pub row: usize,
    pub entry: RowEntry,
}

/// One rebuilt tile: its group of rows, and those of its rows that read as
/// an entry, in row order.
pub struct TileLayout {
    pub group: TileGroup,
    pub entries: Vec<LaidRow>,
}

pub open spec fn row_keys(rows: Seq<StoredRow>) -> Seq<(String, u64)> {
    rows.map_values(|r: StoredRow| (r.tile_id, r.time_bucket))
}

pub open spec fn layout_groups(ls: Seq<TileLayout>) -> Seq<TileGroup> {
    ls.map_values(|l: TileLayout| l.group)
}

pub open spec fn laid_view(es: Seq<LaidRow>) -> Seq<(nat, RowEntryView)> {
    es.map_values(|l: LaidRow| (l.row as nat, entry_view(l.entry)))
}

/// What row `i` reads as.
pub open spec fn entry_of(rows: Seq<StoredRow>, i: int, with_sat: bool) -> Option<RowEntryView> {
    row_entry(rows[i].sensor_type@, rows[i].dimension@, with_sat)
}

/// The rows among `idx` that read as an entry, with their entries, in order.
pub open spec fn decoded_rows(rows: Seq<StoredRow>, idx: Seq<usize>, with_sat: bool) -> Seq<(nat, RowEntryView)>
    decreases idx.len(),
{
    if idx.len() == 0 {
        Seq::empty()
    } else {
        let rest = decoded_rows(rows, idx.drop_last(), with_sat);
        match entry_of(rows, idx.last() as int, with_sat) {
            Some(e) => rest.push((idx.last() as nat, e)),
            None => rest,
        }
    }
}

/// `ls` rebuilds `rows` into tiles: one per (tile, time bucket), in the
/// order of their first rows, each listing every row of its key that reads
/// as an entry, once, in row order.
pub open spec fn is_layout(rows: Seq<StoredRow>, with_sat: bool, ls: Seq<TileLayout>) -> bool {
    &&& groups_partition(row_keys(rows), layout_groups(ls))
    &&& forall|g: int| 0 <= g < ls.len() ==> laid_view(#[trigger] ls[g].entries@) == decoded_rows(rows, ls[g].group.rows@, with_sat)
}

/// Rebuilds tiles from stored rows (the node's pending rows, or the hub's
/// recent ones): rows grouped by tile and bucket, each read by its sensor
/// type and dimension; rows that do not read are left out.
pub fn layout_rows(rows: &Vec<StoredRow>, with_sat: bool) -> (ls: Vec<TileLayout>)
    ensures
        is_layout(rows@, with_sat, ls@),
{
    let mut keys: Vec<(String, u64)> = Vec::new();
    let mut i: usize = 0;
    while i < rows.len()
        invariant
            0 <= i <= rows.len(),
            keys@ == row_keys(rows@.take(i as int)),
        decreases rows.len() - i,
    {
        keys.push((rows[i].tile_id.clone(), rows[i].time_bucket));
        assert(row_keys(rows@.take(i + 1)) =~= row_keys(rows@.take(i as int)).push(
            (rows@[i as int].tile_id, rows@[i as int].time_bucket),
        ));
        i = i + 1;
    }
    assert(rows@.take(rows.len() as int) =~= rows@);
    let mut groups = group_tiles(&keys);
    let ghost all = groups@;
    let mut ls: Vec<TileLayout> = Vec::new();
    while groups.len() > 0
        invariant
            groups_partition(row_keys(rows@), all),
            all.len() == ls.len() + groups.len(),
            groups@ == all.skip(ls.len() as int),
            layout_groups(ls@) == all.take(ls.len() as int),
            forall|g: int| 0 <= g < ls.len() ==> laid_view(#[trigger] ls@[g].entries@) == decoded_rows(rows@, ls@[g].group.rows@, with_sat),
        decreases groups.len(),
    {
        let group = groups.remove(0);
        let ghost gi = ls.len() as int;
        assert(group == all[gi]);
        assert(groups_partition(row_keys(rows@), all));
        let mut entries: Vec<LaidRow> = Vec::new();
        let mut k: usize = 0;
        while k < group.rows.len()
            invariant
                0 <= k <= group.rows.len(),
                group == all[gi],
                0 <= gi < all.len(),
                groups_partition(row_keys(rows@), all),
                laid_view(entries@) == decoded_rows(rows@, group.rows@.take(k as int), with_sat),
            decreases group.rows.len() - k,
        {
            let r = group.rows[k];
            assert(r < row_keys(rows@).len());
            let row = &rows[r];
            let ghost before = entries@;
            assert(group.rows@.take(k + 1).drop_last() =~= group.rows@.take(k as int));
            match decode_row(row.sensor_type.as_str(), row.dimension.as_str(), with_sat) {
                Some(e) => {
                    entries.push(LaidRow { row: r, entry: e });
                    assert(laid_view(entries@) =~= laid_view(before).push((r as nat, entry_view(e))));
                },
                None => {},
            }
            k = k + 1;
        }
        assert(group.rows@.take(group.rows.len() as int) =~= group.rows@);
        let ghost old_ls = ls@;
        ls.push(TileLayout { group, entries });
        assert(layout_groups(ls@) =~= all.take(ls.len() as int));
        assert(groups@ =~= all.skip(ls.len() as int));
        assert forall|g: int| 0 <= g < ls.len() implies laid_view(#[trigger] ls@[g].entries@) == decoded_rows(rows@, ls@[g].group.rows@, with_sat) by {
            if g < old_ls.len() {
                assert(ls@[g] == old_ls[g]);
            }
        }
    }
    assert(layout_groups(ls@) =~= all);
    ls
}

/// `(j, e)` is among `d`.
pub open spec fn listed(d: Seq<(nat, RowEntryView)>, j: nat, e: RowEntryView) -> bool {
    exists|k: int| 0 <= k < d.len() && d[k] == (j, e)
}

proof fn lemma_decoded_complete(rows: Seq<StoredRow>, idx: Seq<usize>, with_sat: bool, p: int)
    requires
        0 <= p < idx.len(),
        entry_of(rows, idx[p] as int, with_sat) is Some,
    ensures
        listed(decoded_rows(rows, idx, with_sat), idx[p] as nat, entry_of(rows, idx[p] as int, with_sat).unwrap()),
    decreases idx.len(),
{
    let d = decoded_rows(rows, idx, with_sat);
    let pre = idx.drop_last();
    let dp = decoded_rows(rows, pre, with_sat);
    if p == idx.len() - 1 {
        assert(d[d.len() - 1] == (idx[p] as nat, entry_of(rows, idx[p] as int, with_sat).unwrap()));
    } else {
        assert(pre[p] == idx[p]);
        lemma_decoded_complete(rows, pre, with_sat, p);
        let k = choose|k: int| 0 <= k < dp.len() && dp[k] == (pre[p] as nat, entry_of(rows, pre[p] as int, with_sat).unwrap());
        assert(d[k] == dp[k]);
    }
}

proof fn lemma_decoded_sound(rows: Seq<StoredRow>, idx: Seq<usize>, with_sat: bool, k: int)
    requires
        0 <= k < decoded_rows(rows, idx, with_sat).len(),
    ensures
        exists|p: int| 0 <= p < idx.len() && idx[p] as nat == decoded_rows(rows, idx, with_sat)[k].0
            && entry_of(rows, idx[p] as int, with_sat) == Some(decoded_rows(rows, idx, with_sat)[k].1),
    decreases idx.len(),
{
    let d = decoded_rows(rows, idx, with_sat);
    let pre = idx.drop_last();
    let dp = decoded_rows(rows, pre, with_sat);
    if k < dp.len() {
        assert(d[k] == dp[k]);
        lemma_decoded_sound(rows, pre, with_sat, k);
        let p = choose|p: int| 0 <= p < pre.len() && pre[p] as nat == dp[k].0 && entry_of(rows, pre[p] as int, with_sat) == Some(dp[k].1);
        assert(idx[p] == pre[p]);
    } else {
        let p = idx.len() - 1;
        assert(idx[p] as nat == d[k].0);
    }
}

proof fn lemma_decoded_sorted(rows: Seq<StoredRow>, idx: Seq<usize>, with_sat: bool, a: int, b: int)
    requires
        forall|x: int, y: int| 0 <= x < y < idx.len() ==> idx[x] < idx[y],
        0 <= a < b < decoded_rows(rows, idx, with_sat).len(),
    ensures
        decoded_rows(rows, idx, with_sat)[a].0 < decoded_rows(rows, idx, with_sat)[b].0,
    decreases idx.len(),
{
    let d = decoded_rows(rows, idx, with_sat);
    let pre = idx.drop_last();
    let dp = decoded_rows(rows, pre, with_sat);
    assert forall|x: int, y: int| 0 <= x < y < pre.len() implies pre[x] < pre[y] by {
        assert(pre[x] == idx[x] && pre[y] == idx[y]);
    }
    if b < dp.len() {
        assert(d[a] == dp[a] && d[b] == dp[b]);
        lemma_decoded_sorted(rows, pre, with_sat, a, b);
    } else {
        assert(d[a] == dp[a]);
        lemma_decoded_sound(rows, pre, with_sat, a);
        let p = choose|p: int| 0 <= p < pre.len() && pre[p] as nat == dp[a].0 && entry_of(rows, pre[p] as int, with_sat) == Some(dp[a].1);
        assert(idx[p] == pre[p]);
        assert(idx[p] < idx[idx.len() - 1]);
    }
}

/// Rebuilding tiles loses no row: every stored row that reads as an entry
/// is listed with that entry in the tile of its own tile id and time bucket.
pub proof fn layout_keeps_every_row(rows: Seq<StoredRow>, with_sat: bool, ls: Seq<TileLayout>, i: int)
    requires
        is_layout(rows, with_sat, ls),
        0 <= i < rows.len(),
        entry_of(rows, i, with_sat) is Some,
    ensures
        exists|g: int|
            0 <= g < ls.len() && ls[g].group.tile_id@ == rows[i].tile_id@ && ls[g].group.time_bucket == rows[i].time_bucket
                && #[trigger] listed(laid_view(ls[g].entries@), i as nat, entry_of(rows, i, with_sat).unwrap()),
{
    let keys = row_keys(rows);
    let gs = layout_groups(ls);
    assert(row_in_groups(gs, i));
    let (g, k0) = choose|g: int, k0: int| 0 <= g < gs.len() && 0 <= k0 < gs[g].rows.len() && #[trigger] gs[g].rows@[k0] == i;
    assert(gs[g] == ls[g].group);
    assert(gs[g].rows@[k0] < keys.len());
    assert(keys[i] == (rows[i].tile_id, rows[i].time_bucket));
    lemma_decoded_complete(rows, ls[g].group.rows@, with_sat, k0);
    assert(listed(laid_view(ls[g].entries@), i as nat, entry_of(rows, i, with_sat).unwrap()));
}

/// Rebuilding tiles misplaces no row, and lists none twice: entry `k` of
/// tile `g` is a row of that tile's id and time bucket, read as that entry,
/// and a tile's entries come in increasing row order.
pub proof fn layout_lists_only_its_rows(rows: Seq<StoredRow>, with_sat: bool, ls: Seq<TileLayout>, g: int, k: int)
    requires
        is_layout(rows, with_sat, ls),
        0 <= g < ls.len(),
        0 <= k < ls[g].entries.len(),
    ensures
        laid_view(ls[g].entries@)[k].0 < rows.len(),
        rows[laid_view(ls[g].entries@)[k].0 as int].tile_id@ == ls[g].group.tile_id@,
        rows[laid_view(ls[g].entries@)[k].0 as int].time_bucket == ls[g].group.time_bucket,
        entry_of(rows, laid_view(ls[g].entries@)[k].0 as int, with_sat) == Some(laid_view(ls[g].entries@)[k].1),
        forall|a: int| 0 <= a < k ==> laid_view(ls[g].entries@)[a].0 < laid_view(ls[g].entries@)[k].0,
{
    let keys = row_keys(rows);
    let gs = layout_groups(ls);
    assert(gs[g] == ls[g].group);
    let idx = ls[g].group.rows@;
    let d = decoded_rows(rows, idx, with_sat);
    assert(laid_view(ls[g].entries@) == d);
    lemma_decoded_sound(rows, idx, with_sat, k);
    let p = choose|p: int| 0 <= p < idx.len() && idx[p] as nat == d[k].0 && entry_of(rows, idx[p] as int, with_sat) == Some(d[k].1);
    assert(gs[g].rows@[p] < keys.len());
    assert(keys[idx[p] as int] == (rows[idx[p] as int].tile_id, rows[idx[p] as int].time_bucket));
    assert forall|a: int| 0 <= a < k implies d[a].0 < d[k].0 by {
        assert(forall|x: int, y: int| 0 <= x < y < gs[g].rows.len() ==> gs[g].rows@[x] < gs[g].rows@[y]);
        lemma_decoded_sorted(rows, idx, with_sat, a, k);
    }
}

} // verus!
