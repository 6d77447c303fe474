//! Hub request handling: reading the request line and headers, choosing the
//! route and its parameters, and framing the response.
use vstd::prelude::*;
use crate::text::{
    lemma_splitn_len, parse_u64, parse_u64_range, range_eq, split_ranges, splitn_ranges,
    chars_of, dec, parse_unsigned,
    parse_unsigned_range, pieces_of, push_dec, push_str, range_starts_with, ranges_within,
    split, splitn, starts_with, str_eq, str_starts_with, str_to_lowercase, string_from_chars,
    string_from_range, to_lowercase, trim, trim_range, word_ranges, words,
};

pub use crate::messaging::{
    EntityFeed, EntityFeedDeleteReq, EntityFeedUpsertReq, GroupInfo, GroupUpsertReq, MsgAckReq, MsgRow, MsgSendReq,
};
pub use crate::nodes::{HubConfig, NodeStatus, PliPoint};

verus! {

// ── Query strings ─────────────────────────────────────────────────────────────

/// The query of a request path: the text after its first `?` (up to any second `?`).
pub open spec fn query_of(path: Seq<char>) -> Option<Seq<char>> {
    let ps = split(path, '?');
    if ps.len() >= 2 {
        Some(ps[1])
    } else {
        None
    }
}

/// The name of a `name=value` pair (the whole pair when it has no `=`).
pub open spec fn pair_key(pair: Seq<char>) -> Seq<char> {
    splitn(pair, 2, '=')[0]
}

/// The value of a `name=value` pair (empty when it has no `=`).
pub open spec fn pair_value(pair: Seq<char>) -> Seq<char> {
    let p = splitn(pair, 2, '=');
    if p.len() >= 2 {
        p[1]
    } else {
        Seq::empty()
    }
}

/// The value of the first pair named `key`.
pub open spec fn find_param(pairs: Seq<Seq<char>>, key: Seq<char>) -> Option<Seq<char>>
    decreases pairs.len(),
{
    if pairs.len() == 0 {
        None
    } else if pair_key(pairs[0]) == key {
        Some(pair_value(pairs[0]))
    } else {
        find_param(pairs.drop_first(), key)
    }
}

/// The value of query parameter `key` in a request path.
pub open spec fn query_param(path: Seq<char>, key: Seq<char>) -> Option<Seq<char>> {
    match query_of(path) {
        Some(q) => find_param(split(q, '&'), key),
        None => None,
    }
}

/// Looks up query parameter `key` in `path` (`/p?a=1&b=2`).
pub fn parse_query_param(path: &str, key: &str) -> (r: Option<String>)
    ensures
        match r {
            Some(s) => query_param(path@, key@) == Some(s@),
            None => query_param(path@, key@) is None,
        },
{
    let v = chars_of(path);
    let k = chars_of(key);
    assert(v@.subrange(0, v.len() as int) =~= v@);
    assert(k@.subrange(0, k.len() as int) =~= k@);
    let parts = split_ranges(&v, 0, v.len(), '?');
    if parts.len() < 2 {
        return None;
    }
    let (qa, qb) = parts[1];
    assert(ranges_within(parts@, 0, v.len() as int) ==> qa <= qb <= v.len());
    let ghost q = v@.subrange(qa as int, qb as int);
    assert(q == split(v@, '?')[1]);
    let pairs = split_ranges(&v, qa, qb, '&');
    let ghost ps = split(q, '&');
    assert(ps.skip(0) =~= ps);
    assert(query_of(path@) == Some(q));
    let mut i: usize = 0;
    while i < pairs.len()
        invariant
            0 <= i <= pairs.len(),
            pieces_of(v@, pairs@) == ps,
            ranges_within(pairs@, qa as int, qb as int),
            qb <= v.len(),
            k@ == key@,
            k@.subrange(0, k.len() as int) == key@,
            query_param(path@, key@) == find_param(ps.skip(i as int), key@),
            v@ == path@,
        decreases pairs.len() - i,
    {
        let (pa, pb) = pairs[i];
        assert(ranges_within(pairs@, qa as int, qb as int) ==> pa <= pb);
        let ghost pair = v@.subrange(pa as int, pb as int);
        assert(pair == ps[i as int]);
        let kv = splitn_ranges(&v, pa, pb, 2, '=');
        proof {
            lemma_splitn_len(pair, 2, '=');
        }
        let (ka, kb) = kv[0];
        assert(ranges_within(kv@, pa as int, pb as int) ==> ka <= kb <= pb);
        assert(v@.subrange(ka as int, kb as int) == pair_key(pair));
        assert(ps.skip(i as int).drop_first() =~= ps.skip(i + 1));
        assert(ps.skip(i as int)[0] == pair);
        if range_eq(&v, ka, kb, &k, 0, k.len()) {
            assert(pair_key(ps.skip(i as int)[0]) == key@);
            assert(find_param(ps.skip(i as int), key@) == Some(pair_value(pair)));
            if kv.len() >= 2 {
                let (va, vb) = kv[1];
                assert(ranges_within(kv@, pa as int, pb as int) ==> va <= vb <= pb);
                assert(v@.subrange(va as int, vb as int) == pair_value(pair));
                return Some(string_from_range(&v, va, vb));
            } else {
                let e: Vec<char> = Vec::new();
                assert(e@ =~= pair_value(pair));
                return Some(string_from_chars(&e));
            }
        }
        assert(pair_key(pair) != key@);
        assert(find_param(ps.skip(i as int), key@) == find_param(ps.skip(i + 1), key@));
        i = i + 1;
    }
    assert(ps.skip(i as int).len() == 0);
    None
}

} // verus!

verus! {

/// A query parameter read as a `u64`, or `default` when absent or unparseable.
pub open spec fn param_u64_or(path: Seq<char>, key: Seq<char>, default: nat) -> nat {
    match query_param(path, key) {
        Some(v) => match parse_u64(v) {
            Some(x) => x,
            None => default,
        },
        None => default,
    }
}

pub fn query_u64_or(path: &str, key: &str, default: u64) -> (r: u64)
    ensures
        r == param_u64_or(path@, key@, default as nat),
{
    match parse_query_param(path, key) {
        Some(s) => {
            let v = chars_of(s.as_str());
            assert(v@.subrange(0, v.len() as int) =~= v@);
            match parse_u64_range(&v, 0, v.len()) {
                Some(x) => x,
                None => default,
            }
        },
        None => default,
    }
}

/// A query parameter, or the empty string when absent.
pub open spec fn param_or_empty(path: Seq<char>, key: Seq<char>) -> Seq<char> {
    match query_param(path, key) {
        Some(v) => v,
        None => Seq::empty(),
    }
}

pub fn query_or_empty(path: &str, key: &str) -> (r: String)
    ensures
        r@ == param_or_empty(path@, key@),
{
    match parse_query_param(path, key) {
        Some(s) => s,
        None => String::new(),
    }
}

// ── Request line and headers ──────────────────────────────────────────────────

/// Method and path of a request line: its first two words, if it has two.
pub open spec fn request_line(line: Seq<char>) -> Option<(Seq<char>, Seq<char>)> {
    let ws = words(trim(line));
    if ws.len() >= 2 {
        Some((ws[0], ws[1]))
    } else {
        None
    }
}

/// Splits a request line into method and path.
pub fn parse_request_line(line: &str) -> (r: Option<(String, String)>)
    ensures
        match r {
            Some((m, p)) => request_line(line@) == Some((m@, p@)),
            None => request_line(line@) is None,
        },
{
    let v = chars_of(line);
    assert(v@.subrange(0, v.len() as int) =~= v@);
    let (a, b) = trim_range(&v, 0, v.len());
    let ws = word_ranges(&v, a, b);
    if ws.len() < 2 {
        return None;
    }
    let (m0, m1) = ws[0];
    let (p0, p1) = ws[1];
    assert(ranges_within(ws@, a as int, b as int) ==> m0 <= m1 <= b && p0 <= p1 <= b);
    Some((string_from_range(&v, m0, m1), string_from_range(&v, p0, p1)))
}

/// A header line, as the server reads it.
pub enum HeaderLine {
    /// The blank line that ends the headers.
    End,
    /// A `Content-Length` header with its value (0 when unparseable).
    ContentLength(usize),
    /// Any other header.
    Other,
}

pub open spec fn content_length_prefix() -> Seq<char> {
    "content-length:"@
}

/// The header line after trimming and lowercasing: empty ends the headers; a
/// `content-length:` line carries the trimmed rest parsed as `usize`, or 0.
pub open spec fn header_line(line: Seq<char>) -> HeaderLine {
    let lower = str_to_lowercase(trim(line));
    if lower.len() == 0 {
        HeaderLine::End
    } else if starts_with(lower, content_length_prefix()) {
        HeaderLine::ContentLength(
            match parse_unsigned(trim(lower.skip(15)), usize::MAX as nat) {
                Some(x) => x as usize,
                None => 0,
            },
        )
    } else {
        HeaderLine::Other
    }
}

pub fn parse_header_line(line: &str) -> (h: HeaderLine)
    ensures
        h == header_line(line@),
{
    let t = crate::text::trim_string(line);
    let lower = to_lowercase(t.as_str());
    let v = chars_of(lower.as_str());
    if v.len() == 0 {
        return HeaderLine::End;
    }
    let p = chars_of("content-length:");
    proof {
        reveal_strlit("content-length:");
        assert(v@.subrange(0, v.len() as int) =~= v@);
    }
    if range_starts_with(&v, 0, v.len(), &p) {
        assert(v@.skip(15) =~= v@.subrange(15, v.len() as int));
        let (a, b) = trim_range(&v, 15, v.len());
        match parse_unsigned_range(&v, a, b, usize::MAX as u64) {
            Some(x) => HeaderLine::ContentLength(x as usize),
            None => HeaderLine::ContentLength(0),
        }
    } else {
        HeaderLine::Other
    }
}

// ── Response framing ──────────────────────────────────────────────────────────

/// The full HTTP response the hub sends for a status and a JSON body.
pub open spec fn http_response_text(status: u16, body: &str) -> Seq<char> {
    "HTTP/1.1 "@ + dec(status as nat)
        + " OK\r\nContent-Type: application/json\r\nContent-Length: "@ + dec(body.len() as nat)
        + "\r\nAccess-Control-Allow-Origin: *\r\nAccess-Control-Allow-Methods: GET, POST, OPTIONS\r\nAccess-Control-Allow-Headers: Content-Type\r\nConnection: close\r\n\r\n"@
        + body@
}

/// Frames a JSON body as an HTTP/1.1 response; the length is the body's
/// UTF-8 byte length.
pub fn http_response(status: u16, body: &str) -> (r: String)
    ensures
        r@ == http_response_text(status, body),
{
    let mut v: Vec<char> = Vec::new();
    push_str(&mut v, "HTTP/1.1 ");
    push_dec(&mut v, status as u64);
    push_str(&mut v, " OK\r\nContent-Type: application/json\r\nContent-Length: ");
    push_dec(&mut v, body.len() as u64);
    push_str(
        &mut v,
        "\r\nAccess-Control-Allow-Origin: *\r\nAccess-Control-Allow-Methods: GET, POST, OPTIONS\r\nAccess-Control-Allow-Headers: Content-Type\r\nConnection: close\r\n\r\n",
    );
    push_str(&mut v, body);
    string_from_chars(&v)
}

} // verus!

verus! {

// ── Routing ───────────────────────────────────────────────────────────────────

/// Largest bodies read for each POST route (bytes).
pub const PUSH_BODY_MAX: usize = 1_048_576;
pub const FEED_UPSERT_BODY_MAX: usize = 256_000;
pub const FEED_DELETE_BODY_MAX: usize = 128_000;
pub const MSG_SEND_BODY_MAX: usize = 512_000;
pub const SMALL_BODY_MAX: usize = 64_000;

/// What a request asks the hub to do, with its parameters read from the
/// query string and the number of body bytes to read.
pub enum Route {
    Options,
    Health,
    Push { body_len: usize },
    Delta { device_id: String, cursor: u64 },
    CopSnapshot { max_age_secs: u64 },
    PliDelta { max_age_secs: u64, cursor: u64 },
    Pli { max_age_secs: u64 },
    EntityFeeds,
    EntityFeedUpsert { body_len: usize },
    EntityFeedDelete { body_len: usize },
    MsgSend { body_len: usize },
    MsgInbox { device_id: String, after_id: u64, limit: u64 },
    MsgInboxMissingDevice,
    MsgAck { body_len: usize },
    GroupUpsert { body_len: usize },
    GroupJoin { body_len: usize },
    MsgGroups { device_id: Option<String> },
    ShodanMeta,
    ShodanEvents { category: Option<String>, limit: usize },
    ShodanIngest { path: String },
    NotFound,
}

/// The mathematical value of a [`Route`].
pub enum RouteView {
    Options,
    Health,
    Push { body_len: nat },
    Delta { device_id: Seq<char>, cursor: nat },
    CopSnapshot { max_age_secs: nat },
    PliDelta { max_age_secs: nat, cursor: nat },
    Pli { max_age_secs: nat },
    EntityFeeds,
    EntityFeedUpsert { body_len: nat },
    EntityFeedDelete { body_len: nat },
    MsgSend { body_len: nat },
    MsgInbox { device_id: Seq<char>, after_id: nat, limit: nat },
    MsgInboxMissingDevice,
    MsgAck { body_len: nat },
    GroupUpsert { body_len: nat },
    GroupJoin { body_len: nat },
    MsgGroups { device_id: Option<Seq<char>> },
    ShodanMeta,
    ShodanEvents { category: Option<Seq<char>>, limit: nat },
    ShodanIngest { path: Seq<char> },
    NotFound,
}

pub open spec fn opt_view(o: Option<String>) -> Option<Seq<char>> {
    match o {
        Some(s) => Some(s@),
        None => None,
    }
}

impl View for Route {
    type V = RouteView;

    open spec fn view(&self) -> RouteView {
        match self {
            Route::Options => RouteView::Options,
            Route::Health => RouteView::Health,
            Route::Push { body_len } => RouteView::Push { body_len: *body_len as nat },
            Route::Delta { device_id, cursor } => RouteView::Delta { device_id: device_id@, cursor: *cursor as nat },
            Route::CopSnapshot { max_age_secs } => RouteView::CopSnapshot { max_age_secs: *max_age_secs as nat },
            Route::PliDelta { max_age_secs, cursor } => RouteView::PliDelta { max_age_secs: *max_age_secs as nat, cursor: *cursor as nat },
            Route::Pli { max_age_secs } => RouteView::Pli { max_age_secs: *max_age_secs as nat },
            Route::EntityFeeds => RouteView::EntityFeeds,
            Route::EntityFeedUpsert { body_len } => RouteView::EntityFeedUpsert { body_len: *body_len as nat },
            Route::EntityFeedDelete { body_len } => RouteView::EntityFeedDelete { body_len: *body_len as nat },
            Route::MsgSend { body_len } => RouteView::MsgSend { body_len: *body_len as nat },
            Route::MsgInbox { device_id, after_id, limit } => RouteView::MsgInbox { device_id: device_id@, after_id: *after_id as nat, limit: *limit as nat },
            Route::MsgInboxMissingDevice => RouteView::MsgInboxMissingDevice,
            Route::MsgAck { body_len } => RouteView::MsgAck { body_len: *body_len as nat },
            Route::GroupUpsert { body_len } => RouteView::GroupUpsert { body_len: *body_len as nat },
            Route::GroupJoin { body_len } => RouteView::GroupJoin { body_len: *body_len as nat },
            Route::MsgGroups { device_id } => RouteView::MsgGroups { device_id: opt_view(*device_id) },
            Route::ShodanMeta => RouteView::ShodanMeta,
            Route::ShodanEvents { category, limit } => RouteView::ShodanEvents { category: opt_view(*category), limit: *limit as nat },
            Route::ShodanIngest { path } => RouteView::ShodanIngest { path: path@ },
            Route::NotFound => RouteView::NotFound,
        }
    }
}

pub open spec fn min_nat(a: nat, b: nat) -> nat {
    if a < b {
        a
    } else {
        b
    }
}

/// The Shodan event limit: the `limit` parameter as `usize` (500 when absent
/// or unparseable), clamped to 1..=2000.
pub open spec fn shodan_limit(path: Seq<char>) -> nat {
    let l = match query_param(path, "limit"@) {
        Some(v) => match parse_unsigned(v, usize::MAX as nat) {
            Some(x) => x,
            None => 500,
        },
        None => 500,
    };
    if l < 1 {
        1
    } else if l > 2000 {
        2000
    } else {
        l
    }
}

/// The route of a request, tried in the server's order.
pub open spec fn route_of(method: Seq<char>, path: Seq<char>, content_length: nat) -> RouteView {
    let get = method == "GET"@;
    let post = method == "POST"@;
    if method == "OPTIONS"@ {
        RouteView::Options
    } else if get && path == "/health"@ {
        RouteView::Health
    } else if post && path == "/api/push"@ {
        RouteView::Push { body_len: min_nat(content_length, PUSH_BODY_MAX as nat) }
    } else if get && starts_with(path, "/api/delta"@) {
        RouteView::Delta {
            device_id: param_or_empty(path, "device_id"@),
            cursor: param_u64_or(path, "cursor"@, 0),
        }
    } else if get && starts_with(path, "/api/cop_snapshot"@) {
        RouteView::CopSnapshot { max_age_secs: param_u64_or(path, "max_age_secs"@, 7200) }
    } else if get && starts_with(path, "/api/pli_delta"@) {
        RouteView::PliDelta {
            max_age_secs: param_u64_or(path, "max_age_secs"@, 7200),
            cursor: param_u64_or(path, "cursor"@, 0),
        }
    } else if get && starts_with(path, "/api/pli"@) {
        RouteView::Pli { max_age_secs: param_u64_or(path, "max_age_secs"@, 3600) }
    } else if get && path == "/api/entity_feeds"@ {
        RouteView::EntityFeeds
    } else if post && path == "/api/entity_feeds/upsert"@ {
        RouteView::EntityFeedUpsert { body_len: min_nat(content_length, FEED_UPSERT_BODY_MAX as nat) }
    } else if post && path == "/api/entity_feeds/delete"@ {
        RouteView::EntityFeedDelete { body_len: min_nat(content_length, FEED_DELETE_BODY_MAX as nat) }
    } else if post && path == "/api/msg/send"@ {
        RouteView::MsgSend { body_len: min_nat(content_length, MSG_SEND_BODY_MAX as nat) }
    } else if get && starts_with(path, "/api/msg/inbox"@) {
        let device_id = param_or_empty(path, "device_id"@);
        if device_id.len() == 0 {
            RouteView::MsgInboxMissingDevice
        } else {
            RouteView::MsgInbox {
                device_id,
                after_id: param_u64_or(path, "after_id"@, 0),
                limit: param_u64_or(path, "limit"@, 100),
            }
        }
    } else if post && path == "/api/msg/ack"@ {
        RouteView::MsgAck { body_len: min_nat(content_length, SMALL_BODY_MAX as nat) }
    } else if post && path == "/api/msg/group/upsert"@ {
        RouteView::GroupUpsert { body_len: min_nat(content_length, SMALL_BODY_MAX as nat) }
    } else if post && path == "/api/msg/group/join"@ {
        RouteView::GroupJoin { body_len: min_nat(content_length, SMALL_BODY_MAX as nat) }
    } else if get && starts_with(path, "/api/msg/groups"@) {
        RouteView::MsgGroups { device_id: query_param(path, "device_id"@) }
    } else if get && starts_with(path, "/api/shodan/meta"@) {
        RouteView::ShodanMeta
    } else if get && starts_with(path, "/api/shodan/events"@) {
        RouteView::ShodanEvents { category: query_param(path, "category"@), limit: shodan_limit(path) }
    } else if post && starts_with(path, "/api/shodan/ingest"@) {
        RouteView::ShodanIngest { path }
    } else {
        RouteView::NotFound
    }
}

fn cap(n: usize, max: usize) -> (r: usize)
    ensures
        r == min_nat(n as nat, max as nat),
{
    if n < max {
        n
    } else {
        max
    }
}

fn shodan_limit_exec(path: &str) -> (r: usize)
    ensures
        r == shodan_limit(path@),
{
    let l: usize = match parse_query_param(path, "limit") {
        Some(s) => {
            let v = chars_of(s.as_str());
            assert(v@.subrange(0, v.len() as int) =~= v@);
            match parse_unsigned_range(&v, 0, v.len(), usize::MAX as u64) {
                Some(x) => x as usize,
                None => 500,
            }
        },
        None => 500,
    };
    if l < 1 {
        1
    } else if l > 2000 {
        2000
    } else {
        l
    }
}

/// Chooses the route for a request and reads its query parameters.
pub fn route(method: &str, path: &str, content_length: usize) -> (r: Route)
    ensures
        r@ == route_of(method@, path@, content_length as nat),
{
    let get = str_eq(method, "GET");
    let post = str_eq(method, "POST");
    if str_eq(method, "OPTIONS") {
        Route::Options
    } else if get && str_eq(path, "/health") {
        Route::Health
    } else if post && str_eq(path, "/api/push") {
        Route::Push { body_len: cap(content_length, PUSH_BODY_MAX) }
    } else if get && str_starts_with(path, "/api/delta") {
        Route::Delta { device_id: query_or_empty(path, "device_id"), cursor: query_u64_or(path, "cursor", 0) }
    } else if get && str_starts_with(path, "/api/cop_snapshot") {
        Route::CopSnapshot { max_age_secs: query_u64_or(path, "max_age_secs", 7200) }
    } else if get && str_starts_with(path, "/api/pli_delta") {
        Route::PliDelta {
            max_age_secs: query_u64_or(path, "max_age_secs", 7200),
            cursor: query_u64_or(path, "cursor", 0),
        }
    } else if get && str_starts_with(path, "/api/pli") {
        Route::Pli { max_age_secs: query_u64_or(path, "max_age_secs", 3600) }
    } else if get && str_eq(path, "/api/entity_feeds") {
        Route::EntityFeeds
    } else if post && str_eq(path, "/api/entity_feeds/upsert") {
        Route::EntityFeedUpsert { body_len: cap(content_length, FEED_UPSERT_BODY_MAX) }
    } else if post && str_eq(path, "/api/entity_feeds/delete") {
        Route::EntityFeedDelete { body_len: cap(content_length, FEED_DELETE_BODY_MAX) }
    } else if post && str_eq(path, "/api/msg/send") {
        Route::MsgSend { body_len: cap(content_length, MSG_SEND_BODY_MAX) }
    } else if get && str_starts_with(path, "/api/msg/inbox") {
        let device_id = query_or_empty(path, "device_id");
        if device_id.as_str().is_empty() {
            Route::MsgInboxMissingDevice
        } else {
            Route::MsgInbox {
                device_id,
                after_id: query_u64_or(path, "after_id", 0),
                limit: query_u64_or(path, "limit", 100),
            }
        }
    } else if post && str_eq(path, "/api/msg/ack") {
        Route::MsgAck { body_len: cap(content_length, SMALL_BODY_MAX) }
    } else if post && str_eq(path, "/api/msg/group/upsert") {
        Route::GroupUpsert { body_len: cap(content_length, SMALL_BODY_MAX) }
    } else if post && str_eq(path, "/api/msg/group/join") {
        Route::GroupJoin { body_len: cap(content_length, SMALL_BODY_MAX) }
    } else if get && str_starts_with(path, "/api/msg/groups") {
        Route::MsgGroups { device_id: parse_query_param(path, "device_id") }
    } else if get && str_starts_with(path, "/api/shodan/meta") {
        Route::ShodanMeta
    } else if get && str_starts_with(path, "/api/shodan/events") {
        Route::ShodanEvents { category: parse_query_param(path, "category"), limit: shodan_limit_exec(path) }
    } else if post && str_starts_with(path, "/api/shodan/ingest") {
        Route::ShodanIngest { path: path.to_owned() }
    } else {
        Route::NotFound
    }
}

/// The response a route gets without consulting the database, if any.
pub open spec fn fixed_response_of(r: RouteView) -> Option<(u16, Seq<char>)> {
    match r {
        RouteView::Options => Some((200, "{}"@)),
        RouteView::Health => Some((200, "{\"status\":\"ok\"}"@)),
        RouteView::MsgInboxMissingDevice => Some((400, "{\"error\":\"missing device_id\"}"@)),
        RouteView::NotFound => Some((404, "{\"error\":\"not found\"}"@)),
        _ => None,
    }
}

pub fn fixed_response(r: &Route) -> (out: Option<(u16, &'static str)>)
    ensures
        match out {
            Some((s, b)) => fixed_response_of(r@) == Some((s, b@)),
            None => fixed_response_of(r@) is None,
        },
{
    match r {
        Route::Options => Some((200, "{}")),
        Route::Health => Some((200, "{\"status\":\"ok\"}")),
        Route::MsgInboxMissingDevice => Some((400, "{\"error\":\"missing device_id\"}")),
        Route::NotFound => Some((404, "{\"error\":\"not found\"}")),
        _ => None,
    }
}

/// An inbox request is served after the message id its `after_id` parameter
/// names: for a GET of `/api/msg/inbox` with a device, the route is the inbox
/// of that device, starting after `after_id` read as a `u64` (0 when absent
/// or unreadable), limited by `limit` (100 by default). No other parameter,
/// such as `cursor`, moves the start.
pub proof fn inbox_starts_after_after_id(path: Seq<char>, content_length: nat)
    requires
        starts_with(path, "/api/msg/inbox"@),
        param_or_empty(path, "device_id"@).len() > 0,
    ensures
        route_of("GET"@, path, content_length) == (RouteView::MsgInbox {
            device_id: param_or_empty(path, "device_id"@),
            after_id: param_u64_or(path, "after_id"@, 0),
            limit: param_u64_or(path, "limit"@, 100),
        }),
{
    reveal_strlit("GET");
    reveal_strlit("POST");
    reveal_strlit("OPTIONS");
    reveal_strlit("/api/msg/inbox");
    reveal_strlit("/health");
    reveal_strlit("/api/delta");
    reveal_strlit("/api/cop_snapshot");
    reveal_strlit("/api/pli_delta");
    reveal_strlit("/api/pli");
    reveal_strlit("/api/entity_feeds");
    assert("GET"@.len() != "OPTIONS"@.len() && "GET"@.len() != "POST"@.len());
    let pre = "/api/msg/inbox"@;
    assert(path[1] == pre[1] && path[5] == pre[5]);
    assert(path != "/health"@);
    assert(path != "/api/entity_feeds"@);
    assert(!starts_with(path, "/api/delta"@));
    assert(!starts_with(path, "/api/cop_snapshot"@));
    assert(!starts_with(path, "/api/pli_delta"@));
    assert(!starts_with(path, "/api/pli"@));
}

/// Two inbox requests whose `after_id` parameters read the same start at the
/// same message, whatever their other parameters.
pub proof fn inbox_start_depends_on_after_id_only(p1: Seq<char>, p2: Seq<char>, n1: nat, n2: nat)
    requires
        starts_with(p1, "/api/msg/inbox"@),
        starts_with(p2, "/api/msg/inbox"@),
        param_or_empty(p1, "device_id"@).len() > 0,
        param_or_empty(p2, "device_id"@).len() > 0,
        query_param(p1, "after_id"@) == query_param(p2, "after_id"@),
    ensures
        route_of("GET"@, p1, n1)->MsgInbox_after_id == route_of("GET"@, p2, n2)->MsgInbox_after_id,
{
    inbox_starts_after_after_id(p1, n1);
    inbox_starts_after_after_id(p2, n2);
}

} // verus!
