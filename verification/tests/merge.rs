use sigint::merge::{plan_merge, RfEntry, SatEntry, TileEntries, WifiEntry, WriteKind};

fn rf(start: u64, end: u64, samples: u32, levels_ok: bool) -> RfEntry {
    RfEntry { freq_start_hz: start, freq_end_hz: end, sample_count: samples, levels_ok }
}

fn wifi(band: &str, channel: u32, count: u32) -> WifiEntry {
    WifiEntry { band: band.to_string(), channel, count, levels_ok: true }
}

fn tile(id: &str, rf: Vec<RfEntry>, wifi: Vec<WifiEntry>, sat: Vec<SatEntry>) -> TileEntries {
    TileEntries { tile_id: id.to_string(), time_bucket: 1_700_000_040, rf, wifi, sat }
}

fn rows(p: &sigint::merge::MergePlan) -> Vec<(WriteKind, usize, usize, String)> {
    p.writes.iter().map(|w| (w.kind, w.tile, w.item, w.dimension.clone())).collect()
}

#[test]
fn merge_accepts_sane_entries_and_refuses_the_rest() {
    let t = tile(
        "8a2a1072b59ffff",
        vec![rf(2_400_000_000, 2_500_000_000, 10, true), rf(2_500_000_000, 2_400_000_000, 10, true)],
        vec![wifi("3.5", 6, 4)],
        vec![SatEntry { group: "  ".to_string(), norad: None, name: None }],
    );
    let p = plan_merge("node-1", &vec![t]);
    assert_eq!(p.accepted, 1);
    assert_eq!(p.rejected, 3);
    assert_eq!(rows(&p), vec![(WriteKind::Rf, 0, 0, "rf:2400000000-2500000000".to_string())]);
}

#[test]
fn merge_refuses_levels_and_zero_counts() {
    let t = tile(
        "t",
        vec![rf(100_000_000, 200_000_000, 5, false), rf(100_000_000, 200_000_000, 0, true)],
        vec![WifiEntry { band: "5".to_string(), channel: 36, count: 3, levels_ok: false }, wifi("5", 0, 3)],
        vec![],
    );
    let p = plan_merge("node-1", &vec![t]);
    assert_eq!(p.accepted, 1);
    assert_eq!(p.rejected, 4);
    assert_eq!(rows(&p), vec![(WriteKind::Heartbeat, 0, 0, "heartbeat".to_string())]);
}

#[test]
fn merge_heartbeat_for_tile_without_signal_data() {
    let p = plan_merge("eud-7", &vec![tile("a", vec![], vec![], vec![]), tile("b", vec![], vec![wifi("2.4", 11, 2)], vec![])]);
    assert_eq!(p.accepted, 2);
    assert_eq!(p.rejected, 0);
    assert_eq!(
        rows(&p),
        vec![
            (WriteKind::Heartbeat, 0, 0, "heartbeat".to_string()),
            (WriteKind::Wifi, 1, 0, "wifi:2.4:11".to_string()),
        ]
    );
}

#[test]
fn merge_rate_limits_wifi_per_channel() {
    let entries: Vec<WifiEntry> = (0..21).map(|_| wifi("2.4", 6, 1)).collect();
    let p = plan_merge("node-1", &vec![tile("t", vec![], entries, vec![])]);
    assert_eq!(p.accepted, 20);
    assert_eq!(p.rejected, 1);
    assert!(p.writes.iter().all(|w| w.kind == WriteKind::Wifi && w.dimension == "wifi:2.4:6"));
    assert_eq!(p.writes.last().unwrap().item, 19);
}

#[test]
fn merge_rate_limits_rf_per_band() {
    let entries: Vec<RfEntry> = (0..201).map(|_| rf(900_000_000, 928_000_000, 1, true)).collect();
    let p = plan_merge("node-1", &vec![tile("t", entries, vec![], vec![])]);
    assert_eq!(p.accepted, 200);
    assert_eq!(p.rejected, 1);
}

#[test]
fn merge_sat_dimensions() {
    let sats = vec![
        SatEntry { group: " Starlink ".to_string(), norad: None, name: Some("ISS Zarya".to_string()) },
        SatEntry { group: "gps".to_string(), norad: Some(" 25544 ".to_string()), name: Some("x".to_string()) },
        SatEntry { group: "weather".to_string(), norad: None, name: None },
    ];
    let p = plan_merge("node-1", &vec![tile("t", vec![], vec![], sats)]);
    assert_eq!(p.accepted, 3);
    assert_eq!(
        rows(&p),
        vec![
            (WriteKind::Sat, 0, 0, "sat:starlink:iss_zarya".to_string()),
            (WriteKind::Sat, 0, 1, "sat:gps:25544".to_string()),
            (WriteKind::Sat, 0, 2, "sat:weather:unknown".to_string()),
        ]
    );
}

/// An RF aggregate as a batch carries it, reduced to what the merge decides on.
fn rf_agg(mean: f64, max: f64, start: u64, end: u64) -> RfEntry {
    RfEntry { freq_start_hz: start, freq_end_hz: end, sample_count: 5, levels_ok: !(mean > max + 0.1) }
}

/// A channel hotness entry as a batch carries it, reduced likewise.
fn wifi_ch(band: &str, channel: u32, mean: f64, max: f64) -> WifiEntry {
    WifiEntry { band: band.to_string(), channel, count: 3, levels_ok: !(mean > max + 0.1) }
}

fn rf_accepted(e: RfEntry) -> bool {
    plan_merge("node-001", &vec![tile("8a2a1072b59ffff", vec![e], vec![], vec![])]).writes[0].kind == WriteKind::Rf
}

fn wifi_accepted(e: WifiEntry) -> bool {
    plan_merge("node-001", &vec![tile("8a2a1072b59ffff", vec![], vec![e], vec![])]).writes[0].kind == WriteKind::Wifi
}

#[test]
fn merge_rf_update() {
    let t = TileEntries {
        tile_id: "8a2a1072b59ffff".to_string(),
        time_bucket: 1740000060,
        rf: vec![rf_agg(-72.0, -60.0, 2_400_000_000, 2_500_000_000)],
        wifi: vec![],
        sat: vec![],
    };
    let ack = plan_merge("node-001", &vec![t]);
    assert_eq!(ack.accepted, 1);
}

#[test]
fn rf_valid_passes() {
    assert!(rf_accepted(rf_agg(-72.0, -60.0, 2_400_000_000, 2_500_000_000)));
}

#[test]
fn rf_bad_freq_rejected() {
    assert!(!rf_accepted(rf_agg(-70.0, -60.0, 100, 200)));
}

#[test]
fn rf_inverted_freq_rejected() {
    assert!(!rf_accepted(rf_agg(-70.0, -60.0, 2_500_000_000, 2_400_000_000)));
}

#[test]
fn rf_mean_gt_max_rejected() {
    assert!(!rf_accepted(rf_agg(-50.0, -70.0, 2_400_000_000, 2_500_000_000)));
}

#[test]
fn rf_zero_samples_rejected() {
    let mut a = rf_agg(-70.0, -60.0, 2_400_000_000, 2_500_000_000);
    a.sample_count = 0;
    assert!(!rf_accepted(a));
}

#[test]
fn wifi_valid_passes() {
    assert!(wifi_accepted(wifi_ch("2.4", 6, -65.0, -55.0)));
}

#[test]
fn wifi_bad_band_rejected() {
    assert!(!wifi_accepted(wifi_ch("3.0", 1, -65.0, -55.0)));
}

#[test]
fn wifi_zero_channel_rejected() {
    assert!(!wifi_accepted(wifi_ch("2.4", 0, -65.0, -55.0)));
}

#[test]
fn wifi_mean_gt_max_rejected() {
    assert!(!wifi_accepted(wifi_ch("2.4", 6, -40.0, -70.0)));
}
