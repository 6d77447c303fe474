use sigint::cctv::{
    best_media_url, cctv_source_window, check_cctv_url, detect_feed_type, extract_direct_media_url, fetch_failed, resolve_from_body,
    score_url,
};

#[test]
fn feed_types() {
    assert_eq!(detect_feed_type("RTSP://cam/1"), "rtsp");
    assert_eq!(detect_feed_type("rtmp://cam/1"), "rtsp");
    assert_eq!(detect_feed_type("https://x/live.M3U8?t=1"), "hls");
    assert_eq!(detect_feed_type("https://x/a.mp4"), "video");
    assert_eq!(detect_feed_type("https://x/snap.jpeg"), "image");
    assert_eq!(detect_feed_type("https://x/video.mjpg"), "image");
    assert_eq!(detect_feed_type("https://x/page"), "unknown");
}

#[test]
fn url_scores() {
    assert_eq!(score_url("https://x/live/playlist.m3u8"), 140);
    assert_eq!(score_url("https://x/a.mp4"), 100);
    assert_eq!(score_url("https://x/a.mjpg"), 90);
    assert_eq!(score_url("https://x/logo.png"), -40);
    assert_eq!(score_url("https://earthcam.com/default.jpg"), -80);
    assert_eq!(score_url("https://x/page"), 0);
}

#[test]
fn best_candidate_is_first_highest() {
    let c = vec!["https://x/a.jpg".to_string(), "https://x/b.mp4".to_string(), "https://x/c.mp4".to_string()];
    assert_eq!(best_media_url(&c), Some("https://x/b.mp4".to_string()));
    assert_eq!(best_media_url(&vec![]), None);
}

#[test]
fn media_url_from_page() {
    let html = r#"<html><img src="/img/logo.png"><video src="https://cdn.example.com/cam/stream.m3u8?token=1"></video>
        <meta content="thumbs/still.jpg"></html>"#;
    let found = extract_direct_media_url(html, "https://example.com/cams/1");
    assert_eq!(found, Some("https://cdn.example.com/cam/stream.m3u8?token=1".to_string()));
    let html2 = r#"<img src="snap.jpg">"#;
    assert_eq!(
        extract_direct_media_url(html2, "https://example.com/cams/1"),
        Some("https://example.com/cams/snap.jpg".to_string())
    );
    assert_eq!(extract_direct_media_url("<p>nothing</p>", "https://example.com/"), None);
}

#[test]
fn resolving_pages() {
    assert!(check_cctv_url("not a url").unwrap_err().starts_with("Invalid URL: "));
    let r = check_cctv_url("file:///tmp/x").unwrap().unwrap();
    assert!(!r.ok);
    assert_eq!(r.reason.as_deref(), Some("invalid-host"));
    assert!(check_cctv_url("https://example.com/cam").unwrap().is_none());

    let ok = resolve_from_body(r#"<source src="https://e.com/v.mp4">"#, "https://e.com/");
    assert!(ok.ok);
    assert_eq!(ok.direct_url.as_deref(), Some("https://e.com/v.mp4"));
    assert_eq!(ok.feed_type.as_deref(), Some("video"));
    let none = resolve_from_body("<p></p>", "https://e.com/");
    assert!(!none.ok);
    assert_eq!(none.reason.as_deref(), Some("no-direct-media-found"));
    assert_eq!(fetch_failed("timeout").reason.as_deref(), Some("fetch-failed: timeout"));
}

#[test]
fn source_window_adds_time_parameter() {
    let w = cctv_source_window("https://e.com/x?a=1", 5, None).unwrap();
    assert_eq!(w.url, "https://e.com/x?a=1&_owts=5");
    assert_eq!(w.label, "cctv-source-5");
    assert_eq!(w.title, "CCTV Source");
    let w = cctv_source_window("https://e.com/cam", 1700000000123, Some("Bridge".to_string())).unwrap();
    assert_eq!(w.url, "https://e.com/cam?_owts=1700000000123");
    assert_eq!(w.label, "cctv-source-1700000000123");
    assert_eq!(w.title, "Bridge");
    assert!(cctv_source_window("no url here", 1, None).unwrap_err().starts_with("Invalid URL: "));
}
