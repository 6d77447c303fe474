use sigint::hub::{
    fixed_response, http_response, parse_header_line, parse_query_param, parse_request_line,
    query_or_empty, query_u64_or, route, HeaderLine, Route,
};

#[test]
fn parse_query_param_works() {
    assert_eq!(
        parse_query_param("/api/delta?device_id=abc&cursor=1000", "cursor"),
        Some("1000".to_string())
    );
    assert_eq!(
        parse_query_param("/api/delta?device_id=abc&cursor=1000", "device_id"),
        Some("abc".to_string())
    );
    assert_eq!(parse_query_param("/api/delta?device_id=abc", "cursor"), None);
}

#[test]
fn query_param_edge_cases() {
    assert_eq!(parse_query_param("/api/delta", "cursor"), None);
    assert_eq!(parse_query_param("/x?flag&a=1", "flag"), Some(String::new()));
    assert_eq!(parse_query_param("/x?a=1&a=2", "a"), Some("1".to_string()));
    assert_eq!(parse_query_param("/x?a=b=c", "a"), Some("b=c".to_string()));
    assert_eq!(query_u64_or("/x?cursor=abc", "cursor", 7), 7);
    assert_eq!(query_u64_or("/x?cursor=42", "cursor", 7), 42);
    assert_eq!(query_or_empty("/x", "device_id"), "");
}

#[test]
fn request_line_split() {
    assert_eq!(
        parse_request_line("GET /health HTTP/1.1\r\n"),
        Some(("GET".to_string(), "/health".to_string()))
    );
    assert_eq!(parse_request_line("GET\r\n"), None);
    assert_eq!(parse_request_line(""), None);
}

#[test]
fn header_lines() {
    assert!(matches!(parse_header_line("\r\n"), HeaderLine::End));
    assert!(matches!(parse_header_line("Content-Length: 42\r\n"), HeaderLine::ContentLength(42)));
    assert!(matches!(parse_header_line("content-length: nope"), HeaderLine::ContentLength(0)));
    assert!(matches!(parse_header_line("Host: x"), HeaderLine::Other));
}

#[test]
fn response_framing() {
    let r = http_response(200, "{}");
    assert!(r.starts_with("HTTP/1.1 200 OK\r\nContent-Type: application/json\r\nContent-Length: 2\r\n"));
    assert!(r.ends_with("\r\n\r\n{}"));
    let r = http_response(404, "é");
    assert!(r.contains("Content-Length: 2\r\n"));
}

#[test]
fn routes_are_chosen_in_order() {
    assert!(matches!(route("OPTIONS", "/anything", 0), Route::Options));
    assert!(matches!(route("GET", "/health", 0), Route::Health));
    assert!(matches!(route("POST", "/api/push", 5_000_000), Route::Push { body_len: 1_048_576 }));
    match route("GET", "/api/delta?device_id=ui&cursor=99", 0) {
        Route::Delta { device_id, cursor } => {
            assert_eq!(device_id, "ui");
            assert_eq!(cursor, 99);
        }
        _ => panic!("expected delta"),
    }
    assert!(matches!(route("GET", "/api/pli_delta", 0), Route::PliDelta { max_age_secs: 7200, cursor: 0 }));
    assert!(matches!(route("GET", "/api/pli", 0), Route::Pli { max_age_secs: 3600 }));
    assert!(matches!(route("GET", "/api/msg/inbox", 0), Route::MsgInboxMissingDevice));
    match route("GET", "/api/shodan/events?limit=99999&category=ics", 0) {
        Route::ShodanEvents { category, limit } => {
            assert_eq!(category, Some("ics".to_string()));
            assert_eq!(limit, 2000);
        }
        _ => panic!("expected shodan events"),
    }
    match route("GET", "/api/shodan/events?limit=0", 0) {
        Route::ShodanEvents { limit, .. } => assert_eq!(limit, 1),
        _ => panic!("expected shodan events"),
    }
    assert!(matches!(route("GET", "/api/push", 0), Route::NotFound));
    assert!(matches!(route("DELETE", "/health", 0), Route::NotFound));
}

#[test]
fn fixed_responses() {
    assert_eq!(fixed_response(&Route::Health), Some((200, "{\"status\":\"ok\"}")));
    assert_eq!(fixed_response(&Route::NotFound), Some((404, "{\"error\":\"not found\"}")));
    assert_eq!(fixed_response(&Route::MsgInboxMissingDevice), Some((400, "{\"error\":\"missing device_id\"}")));
    assert_eq!(fixed_response(&Route::Options), Some((200, "{}")));
    assert_eq!(fixed_response(&Route::EntityFeeds), None);
}
