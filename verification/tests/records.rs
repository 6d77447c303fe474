use sigint::adsb::{simulated_aircraft, simulation_reports};
use sigint::wifi_ui::{corewlan_band, network_labels, order_by_signal};
use sigint::adsb::{aircraft_fresh, parse_dump1090_fields, position_of_key};
use sigint::collector::{advanced_cursor, pull_cursor, CollectorSchedule};
use sigint::dimension::{
    decode_row, RowEntry,
    parse_rf_dimension, parse_sat_dimension, parse_wifi_dimension, rf_dimension, sat_dimension, wifi_dimension,
};
use sigint::location::{authorization_status_name, get_authorization_status, permission_granted};
use sigint::messaging::{
    feed_delete_targets, group_name, inbox_limit, normalize_feed_upsert, validate_msg_send, EntityFeedDeleteReq,
    EntityFeedUpsertReq, GroupUpsertReq, MsgSendReq,
};
use sigint::nodes::{max_or, node_status, pli_fanout, refuse_batch, HubConfig, PliRow};
use sigint::privacy::{privacy_mode_reply, stored_privacy_mode, validate_privacy_mode, PrivacyMode};
use sigint::sanitize::{rf_fields_ok, wifi_fields_ok};
use sigint::tile::group_tiles;

#[test]
fn dimensions_roundtrip() {
    let d = rf_dimension(2_400_000_000, 2_500_000_000);
    assert_eq!(d, "rf:2400000000-2500000000");
    assert_eq!(parse_rf_dimension(&d), Some((2_400_000_000, 2_500_000_000)));
    let w = wifi_dimension("2.4", 6);
    assert_eq!(w, "wifi:2.4:6");
    assert_eq!(parse_wifi_dimension(&w), Some(("2.4".to_string(), 6)));
    assert_eq!(parse_rf_dimension("rf:1-2-3"), None);
    assert_eq!(parse_wifi_dimension("wifi:5"), None);
}

#[test]
fn sat_dimensions() {
    assert_eq!(sat_dimension(" Starlink ", Some(" 44713 "), None), Some("sat:starlink:44713".to_string()));
    assert_eq!(sat_dimension("gps", None, Some(" NAVSTAR 43 ")), Some("sat:gps:navstar_43".to_string()));
    assert_eq!(sat_dimension("gps", Some(" "), None), Some("sat:gps:unknown".to_string()));
    assert_eq!(sat_dimension("  ", Some("1"), None), None);
    assert_eq!(parse_sat_dimension("sat:gps:123"), ("gps".to_string(), "123".to_string()));
    assert_eq!(parse_sat_dimension("sat:active"), ("active".to_string(), "unknown".to_string()));
}

#[test]
fn node_statuses() {
    let s = node_status("d".to_string(), "entity".to_string(), 1000, 1050, 90);
    assert_eq!(s.status, "CONNECTED");
    assert_eq!(s.age_secs, 50);
    let s = node_status("d".to_string(), "entity".to_string(), 1000, 1200, 90);
    assert_eq!(s.status, "STALE");
    let s = node_status("d".to_string(), "entity".to_string(), 1000, 2000, 90);
    assert_eq!(s.status, "OFFLINE");
    let s = node_status("d".to_string(), "entity".to_string(), -5, 10, 90);
    assert_eq!(s.last_seen, 0);
    assert_eq!(s.age_secs, 10);
}

#[test]
fn pli_heartbeats() {
    let rows = vec![
        PliRow { device_id: "a".into(), source_type: "entity".into(), last_seen: 130, tile_id: "t1".into(), last_tile_bucket: 0 },
        PliRow { device_id: "b".into(), source_type: "drone".into(), last_seen: 100, tile_id: "t2".into(), last_tile_bucket: 61 },
    ];
    let (tiles, cursor) = pli_fanout(&rows, 120);
    assert_eq!(tiles.len(), 2);
    assert_eq!(tiles[0].time_bucket, 120);
    assert_eq!(tiles[1].time_bucket, 60);
    assert_eq!(tiles[1].device_id, "b");
    assert_eq!(cursor, 130);
    assert_eq!(max_or(&vec![3, 9, 4], 1), 9);
    assert_eq!(max_or(&vec![], 1), 1);
}

#[test]
fn batch_signature_decisions() {
    assert!(refuse_batch(true, true, Some(false)));
    assert!(!refuse_batch(true, true, Some(true)));
    assert!(!refuse_batch(true, true, None));
    assert!(refuse_batch(false, true, None));
    assert!(!refuse_batch(false, false, None));
    assert!(!refuse_batch(true, false, Some(false)));
    let c = HubConfig::default();
    assert_eq!(c.bind_addr, "0.0.0.0:8789");
    assert!(c.collector_enabled);
}

#[test]
fn messaging_checks() {
    let req = MsgSendReq { from: "a".into(), to_device: None, to_group: None, body: "  ".into() };
    assert!(validate_msg_send(&req).is_err());
    let req = MsgSendReq { from: "a".into(), to_device: None, to_group: None, body: "hi".into() };
    assert!(validate_msg_send(&req).is_err());
    let req = MsgSendReq { from: "a".into(), to_device: Some("b".into()), to_group: None, body: "hi".into() };
    assert!(validate_msg_send(&req).is_ok());
    assert_eq!(inbox_limit(0), 1);
    assert_eq!(inbox_limit(50), 50);
    assert_eq!(inbox_limit(9999), 2000);
    let g = GroupUpsertReq { group_id: "g1".into(), name: None, device_id: "d".into() };
    assert_eq!(group_name(&g), "g1");
}

#[test]
fn entity_feed_requests() {
    let req = EntityFeedUpsertReq { uid: " u1 ".into(), callsign: None, feed_url: " http://f ".into(), updated_by: Some(" me ".into()) };
    let f = normalize_feed_upsert(&req).unwrap();
    assert_eq!(f.uid, "u1");
    assert_eq!(f.feed_url, "http://f");
    assert_eq!(f.callsign, "");
    assert_eq!(f.updated_by, "me");
    let bad = EntityFeedUpsertReq { uid: " ".into(), callsign: None, feed_url: "x".into(), updated_by: None };
    assert!(normalize_feed_upsert(&bad).is_err());
    let del = EntityFeedDeleteReq { uid: "  ".into(), callsign: Some(" CS1 ".into()), updated_by: None };
    assert_eq!(feed_delete_targets(&del), (None, Some("CS1".to_string())));
}

#[test]
fn location_stubs() {
    assert_eq!(get_authorization_status(), 0);
    assert_eq!(authorization_status_name(0), "not_determined");
    assert_eq!(authorization_status_name(4), "authorized_when_in_use");
    assert_eq!(authorization_status_name(9), "unknown");
    assert!(permission_granted(3));
    assert!(!permission_granted(2));
}

#[test]
fn privacy_modes() {
    assert_eq!(validate_privacy_mode("b"), Ok("B".to_string()));
    assert_eq!(validate_privacy_mode("x"), Err("Invalid mode: x — must be A, B, or C".to_string()));
    assert_eq!(privacy_mode_reply("C"), "Privacy mode set to C");
    assert_eq!(stored_privacy_mode(""), PrivacyMode::A);
    assert_eq!(stored_privacy_mode("C"), PrivacyMode::C);
    assert_eq!(PrivacyMode::from_str("zz"), PrivacyMode::A);
    assert_eq!(PrivacyMode::B.as_str(), "B");
}

#[test]
fn dump1090_lines() {
    let f = parse_dump1090_fields("A1B2C3  UAL123  35000  450  270  33.1  -96.8").unwrap();
    assert_eq!(f.icao, "A1B2C3");
    assert_eq!(f.callsign.as_deref(), Some("A1B2C3"));
    assert_eq!(f.altitude, Some(35000));
    assert_eq!(f.words.len(), 7);
    assert!(parse_dump1090_fields("Hex Mode Sqwk Flight").is_none());
    assert!(parse_dump1090_fields("ABC").is_none());
    // Digits are alphanumeric, so a long number can read as a flight number.
    let g = parse_dump1090_fields("ab 0 60000 12").unwrap();
    assert_eq!(g.callsign.as_deref(), Some("60000"));
    assert_eq!(g.altitude, Some(12));
}

#[test]
fn aircraft_table() {
    let keys = vec!["A1".to_string(), "B2".to_string()];
    assert_eq!(position_of_key(&keys, "B2"), Some(1));
    assert_eq!(position_of_key(&keys, "C3"), None);
    assert!(aircraft_fresh(100, Some(50)));
    assert!(!aircraft_fresh(100, Some(40)));
    assert!(aircraft_fresh(100, Some(500)));
    assert!(!aircraft_fresh(100, None));
}

#[test]
fn sanitize_integer_fields() {
    assert!(rf_fields_ok(2_400_000_000, 2_500_000_000, 5));
    assert!(!rf_fields_ok(100, 200, 5));
    assert!(!rf_fields_ok(2_500_000_000, 2_400_000_000, 5));
    assert!(!rf_fields_ok(2_400_000_000, 2_500_000_000, 0));
    assert!(!rf_fields_ok(2_400_000_000, 7_000_000_000, 5));
    assert!(wifi_fields_ok("2.4", 6, 3));
    assert!(!wifi_fields_ok("3.0", 1, 3));
    assert!(!wifi_fields_ok("2.4", 0, 3));
    assert!(!wifi_fields_ok("5", 36, 0));
}

#[test]
fn tile_grouping() {
    let keys = vec![
        ("t1".to_string(), 60u64),
        ("t2".to_string(), 60),
        ("t1".to_string(), 60),
        ("t1".to_string(), 120),
    ];
    let groups = group_tiles(&keys);
    assert_eq!(groups.len(), 3);
    assert_eq!(groups[0].tile_id, "t1");
    assert_eq!(groups[0].rows, vec![0, 2]);
    assert_eq!(groups[1].rows, vec![1]);
    assert_eq!(groups[2].time_bucket, 120);
    assert!(group_tiles(&vec![]).is_empty());
}

#[test]
fn collector_decisions() {
    let s = CollectorSchedule { rf_flush_secs: 5, wifi_scan_secs: 30, sync_secs: 30 };
    let d = s.due(5000, 29_999, 30_000);
    assert!(d.rf_flush);
    assert!(!d.wifi_scan);
    assert!(d.sync);
    assert_eq!(pull_cursor(Some("1234")), 1234);
    assert_eq!(pull_cursor(Some("junk")), 0);
    assert_eq!(pull_cursor(None), 0);
    assert_eq!(advanced_cursor(10, 20), Some(20));
    assert_eq!(advanced_cursor(10, 10), None);
    assert_eq!(advanced_cursor(10, 5), None);
}

#[test]
fn wifi_ui_labels_and_order() {
    assert_eq!(corewlan_band(1, 36), "2.4");
    assert_eq!(corewlan_band(3, 5), "6");
    assert_eq!(corewlan_band(0, 36), "5");
    assert_eq!(corewlan_band(0, 14), "2.4");
    assert_eq!(network_labels(PrivacyMode::A, "Home", "aa", 6, "2.4"), ("Ch 6 · 2.4 GHz".to_string(), None));
    assert_eq!(network_labels(PrivacyMode::B, "", "aa", 11, "2.4"), ("(hidden) Ch 11 (hashed)".to_string(), None));
    assert_eq!(network_labels(PrivacyMode::C, "Home", "aa", 6, "2.4"), ("Home".to_string(), Some("aa".to_string())));
    assert_eq!(order_by_signal(&vec![-70, -40, -70, -90, -40]), vec![1, 4, 0, 2, 3]);
    assert!(order_by_signal(&vec![]).is_empty());
}

#[test]
fn stored_rows_decode_by_sensor_type() {
    assert!(matches!(decode_row("rf", "rf:900000000-928000000", false), Some(RowEntry::Rf(900_000_000, 928_000_000))));
    assert!(decode_row("rf", "rf:900000000", false).is_none());
    match decode_row("wifi_channel", "wifi:5:36", false) {
        Some(RowEntry::Wifi(b, c)) => {
            assert_eq!(b, "5");
            assert_eq!(c, 36);
        }
        other => panic!("unexpected {other:?}"),
    }
    assert!(decode_row("wifi_channel", "wifi:5:x", true).is_none());
    match decode_row("sat", "sat:starlink", true) {
        Some(RowEntry::Sat(g, i)) => {
            assert_eq!(g, "starlink");
            assert_eq!(i, "unknown");
        }
        other => panic!("unexpected {other:?}"),
    }
    assert!(decode_row("sat", "sat:gps:25544", false).is_none());
    assert!(decode_row("pli", "heartbeat", true).is_none());
}

fn stored(tile: &str, bucket: u64, sensor: &str, dim: &str) -> sigint::tile::StoredRow {
    sigint::tile::StoredRow {
        tile_id: tile.to_string(),
        time_bucket: bucket,
        sensor_type: sensor.to_string(),
        dimension: dim.to_string(),
    }
}

#[test]
fn stored_rows_lay_out_into_tiles() {
    let rows = vec![
        stored("a", 60, "rf", "rf:900000000-928000000"),
        stored("b", 60, "wifi_channel", "wifi:5:36"),
        stored("a", 60, "wifi_channel", "wifi:2.4:bad"),
        stored("a", 120, "sat", "sat:gps:1"),
        stored("a", 60, "sat", "sat:gps:2"),
    ];
    let ls = sigint::tile::layout_rows(&rows, false);
    assert_eq!(ls.len(), 3);
    assert_eq!((ls[0].group.tile_id.as_str(), ls[0].group.time_bucket), ("a", 60));
    assert_eq!(ls[0].group.rows, vec![0, 2, 4]);
    assert_eq!(ls[0].entries.len(), 1);
    assert_eq!(ls[0].entries[0].row, 0);
    assert!(matches!(ls[0].entries[0].entry, RowEntry::Rf(900_000_000, 928_000_000)));
    assert_eq!(ls[1].entries[0].row, 1);
    assert!(ls[2].entries.is_empty());
    let with_sat = sigint::tile::layout_rows(&rows, true);
    assert_eq!(with_sat[0].entries.iter().map(|l| l.row).collect::<Vec<_>>(), vec![0, 4]);
    assert_eq!(with_sat[2].entries.len(), 1);
}

#[test]
fn adsb_simulation_aircraft() {
    assert!(simulation_reports(3) && !simulation_reports(4));
    let a = simulated_aircraft(3);
    assert_eq!(a.icao, "A0003");
    assert_eq!(a.callsign, "SIM3");
    assert_eq!((a.altitude, a.speed, a.heading, a.vertical_rate), (5300, 280, 135, 0));
    let b = simulated_aircraft(70000);
    assert_eq!(b.icao, "A11170");
    assert_eq!(b.heading, (45 * 70000) % 360);
    assert_eq!(simulated_aircraft(255).icao, "A00FF");
}
