use sigint::error::Error;
use sigint::manet::{transport_kind, ManetSyncTransport, TransportKind};
use sigint::sync::{AckResult, HttpSyncTransport, NullSyncTransport, SyncCursor};

#[test]
fn http_transport_builds_correct_urls() {
    let t = HttpSyncTransport::new("http://10.0.0.1:8789/", "dev-abc");
    assert_eq!(t.push_url(), "http://10.0.0.1:8789/api/push");
    assert_eq!(t.pull_url(1000), "http://10.0.0.1:8789/api/delta?device_id=dev-abc&cursor=1000");
}

#[test]
fn http_transport_strips_all_trailing_slashes() {
    let t = HttpSyncTransport::new("http://hub//", "d");
    assert_eq!(t.base_url, "http://hub");
    assert_eq!(t.pull_url(0), "http://hub/api/delta?device_id=d&cursor=0");
}

#[test]
fn null_transport_push_succeeds() {
    let t = NullSyncTransport;
    let result = t.push_ack();
    assert_eq!(result.accepted, 0);
    assert_eq!(result, AckResult { accepted: 0, rejected: 0, cursor: 0 });
}

#[test]
fn sync_cursor_default_is_zero() {
    assert_eq!(SyncCursor::default().timestamp, 0);
}

#[test]
fn manet_push_returns_not_implemented() {
    let t = ManetSyncTransport::new("abc123", "~/.reticulum");
    assert_eq!(t.hub_destination, "abc123");
    assert_eq!(t.reticulum_config, "~/.reticulum");
    match t.unavailable() {
        Error::Other(m) => assert_eq!(m, "MANET transport not yet implemented — use HttpSyncTransport over VPN"),
        _ => panic!("expected Other"),
    }
}

#[test]
fn transport_from_config_null() {
    assert_eq!(transport_kind("null"), TransportKind::Null);
}

#[test]
fn transport_from_config_default_is_http() {
    assert_eq!(transport_kind("http"), TransportKind::Http);
    assert_eq!(transport_kind("unknown"), TransportKind::Http);
    assert_eq!(transport_kind("manet"), TransportKind::Http);
}

#[test]
fn manet_pull_returns_not_implemented() {
    let t = ManetSyncTransport::new("abc123", "~/.reticulum");
    assert!(matches!(t.unavailable(), Error::Other(_)));
}
