//! CCTV pages: finding the direct media URL in a camera page's HTML and
//! telling what kind of feed a URL is.
use vstd::prelude::*;
use crate::text::contains;
use crate::text::dec;
use crate::text::starts_with;
use crate::text::str_contains;
use crate::text::str_starts_with;
use crate::text::str_to_lowercase;
use crate::text::to_lowercase;

verus! {

// ── Outside items: regex and url ──────────────────────────────────────────────

/// The texts of the successive non-overlapping matches of `pattern` in
/// `text`, as `regex::Regex::find_iter` yields them, or `None` where the
/// pattern does not compile.
pub uninterp spec fn regex_matches(pattern: Seq<char>, text: Seq<char>) -> Option<Seq<Seq<char>>>;

/// For each successive match of `pattern` in `text`, as
/// `regex::Regex::captures_iter` yields them, the text of capture group
/// `group` (`None` where it did not take part), or `None` where the pattern
/// does not compile.
pub uninterp spec fn regex_group_captures(pattern: Seq<char>, text: Seq<char>, group: nat) -> Option<
    Seq<Option<Seq<char>>>,
>;

/// The serialized URL that `url::Url::join` resolves `reference` to against
/// `base`, or `None` where `base` does not parse or the join fails.
pub uninterp spec fn url_join(base: Seq<char>, reference: Seq<char>) -> Option<Seq<char>>;

/// The host of a URL as `url::Url::host_str` gives it ("" for none), or
/// `None` where the URL does not parse.
pub uninterp spec fn url_host(url: Seq<char>) -> Option<Seq<char>>;

pub open spec fn string_views(v: Seq<String>) -> Seq<Seq<char>> {
    v.map_values(|s: String| s@)
}

pub open spec fn option_views(v: Seq<Option<String>>) -> Seq<Option<Seq<char>>> {
    v.map_values(
        |o: Option<String>|
            match o {
                Some(s) => Some(s@),
                None => None,
            },
    )
}

/// `regex::Regex::new` then `find_iter`, each match taken as its text.
#[verifier::external_body]
fn regex_find_all(pattern: &str, text: &str) -> (r: Option<Vec<String>>)
    ensures
        r matches Some(v) ==> regex_matches(pattern@, text@) == Some(string_views(v@)),
        r is None ==> regex_matches(pattern@, text@) is None,
{
    match regex::Regex::new(pattern) {
        Ok(re) => {
            let mut out: Vec<String> = Vec::new();
            for m in re.find_iter(text) {
                out.push(m.as_str().to_string());
            }
            Some(out)
        },
        Err(_) => None,
    }
}

/// `regex::Regex::new` then `captures_iter`, each capture taken as the text
/// of group `group`.
#[verifier::external_body]
fn regex_capture_group(pattern: &str, text: &str, group: usize) -> (r: Option<Vec<Option<String>>>)
    ensures
        r matches Some(v) ==> regex_group_captures(pattern@, text@, group as nat) == Some(
            option_views(v@),
        ),
        r is None ==> regex_group_captures(pattern@, text@, group as nat) is None,
{
    match regex::Regex::new(pattern) {
        Ok(re) => {
            let mut out: Vec<Option<String>> = Vec::new();
            for cap in re.captures_iter(text) {
                out.push(cap.get(group).map(|m| m.as_str().to_string()));
            }
            Some(out)
        },
        Err(_) => None,
    }
}

/// `url::Url::parse(base)`, then `join(reference)`, serialized.
#[verifier::external_body]
fn join_url(base: &str, reference: &str) -> (r: Option<String>)
    ensures
        r matches Some(s) ==> url_join(base@, reference@) == Some(s@),
        r is None ==> url_join(base@, reference@) is None,
{
    match url::Url::parse(base) {
        Ok(b) => match b.join(reference) {
            Ok(j) => Some(j.to_string()),
            Err(_) => None,
        },
        Err(_) => None,
    }
}

/// `url::Url::parse`, then `host_str` ("" for none); on a parse error, its
/// `Display` text, of which nothing is stated.
#[verifier::external_body]
fn parse_url_host(url: &str) -> (r: Result<String, String>)
    ensures
        r matches Ok(h) ==> url_host(url@) == Some(h@),
        r is Err ==> url_host(url@) is None,
{
    match url::Url::parse(url) {
        Ok(u) => Ok(u.host_str().unwrap_or_default().to_string()),
        Err(e) => Err(format!("{e}")),
    }
}

// ── Feed types ────────────────────────────────────────────────────────────────

pub open spec fn has(s: Seq<char>, p: &str) -> bool {
    contains(s, p@)
}

/// The kind of feed a URL points at, by its scheme or extension.
pub open spec fn feed_type(url: Seq<char>) -> Seq<char> {
    let u = str_to_lowercase(url);
    if starts_with(u, "rtsp://"@) || starts_with(u, "rtmp://"@) {
        "rtsp"@
    } else if has(u, ".m3u8") {
        "hls"@
    } else if has(u, ".mp4") || has(u, ".webm") || has(u, ".mov") {
        "video"@
    } else if has(u, ".jpg") || has(u, ".jpeg") || has(u, ".png") || has(u, ".gif") || has(u, ".webp")
        || has(u, "mjpg") || has(u, "mjpeg") {
        "image"@
    } else {
        "unknown"@
    }
}

/// The kind of feed a URL points at: "rtsp", "hls", "video", "image" or
/// "unknown".
pub fn detect_feed_type(url: &str) -> (t: &'static str)
    ensures
        t@ == feed_type(url@),
{
    let u = to_lowercase(url);
    let u = u.as_str();
    if str_starts_with(u, "rtsp://") || str_starts_with(u, "rtmp://") {
        return "rtsp";
    }
    if str_contains(u, ".m3u8") {
        return "hls";
    }
    if str_contains(u, ".mp4") || str_contains(u, ".webm") || str_contains(u, ".mov") {
        return "video";
    }
    if str_contains(u, ".jpg") || str_contains(u, ".jpeg") || str_contains(u, ".png") || str_contains(
        u,
        ".gif",
    ) || str_contains(u, ".webp") || str_contains(u, "mjpg") || str_contains(u, "mjpeg") {
        return "image";
    }
    "unknown"
}

// ── Scoring candidates ────────────────────────────────────────────────────────

pub open spec fn pts(b: bool, n: int) -> int {
    if b {
        n
    } else {
        0
    }
}

/// How likely a URL is to be the camera's media: streams and videos first,
/// stills after, logos and placeholders last.
pub open spec fn url_score(url: Seq<char>) -> int {
    let u = str_to_lowercase(url);
    pts(has(u, ".m3u8"), 120) + pts(has(u, ".mp4") || has(u, ".webm") || has(u, ".mov"), 100) + pts(
        has(u, ".mjpg") || has(u, ".mjpeg"),
        90,
    ) + pts(has(u, ".jpg") || has(u, ".jpeg") || has(u, ".png"), 40) + pts(
        has(u, "stream") || has(u, "live") || has(u, "playlist"),
        20,
    ) - pts(
        has(u, "logo") || has(u, "sprite") || has(u, "thumbnail") || has(u, "placeholder"),
        80,
    ) - pts(has(u, "earthcam") && (has(u, "logo") || has(u, "default")), 120)
}

/// The score of a candidate media URL.
pub fn score_url(url: &str) -> (score: i32)
    ensures
        score == url_score(url@),
{
    let l = to_lowercase(url);
    let u = l.as_str();
    let mut score: i32 = 0;
    if str_contains(u, ".m3u8") {
        score = score + 120;
    }
    if str_contains(u, ".mp4") || str_contains(u, ".webm") || str_contains(u, ".mov") {
        score = score + 100;
    }
    if str_contains(u, ".mjpg") || str_contains(u, ".mjpeg") {
        score = score + 90;
    }
    if str_contains(u, ".jpg") || str_contains(u, ".jpeg") || str_contains(u, ".png") {
        score = score + 40;
    }
    if str_contains(u, "stream") || str_contains(u, "live") || str_contains(u, "playlist") {
        score = score + 20;
    }
    if str_contains(u, "logo") || str_contains(u, "sprite") || str_contains(u, "thumbnail")
        || str_contains(u, "placeholder") {
        score = score - 80;
    }
    if str_contains(u, "earthcam") && (str_contains(u, "logo") || str_contains(u, "default")) {
        score = score - 120;
    }
    score
}

/// A URL (lowercased) names a stream: an RTSP or RTMP scheme, an HLS
/// playlist, or a video file.
pub open spec fn names_stream(u: Seq<char>) -> bool {
    starts_with(u, "rtsp://"@) || starts_with(u, "rtmp://"@) || contains(u, ".m3u8"@) || contains(u, ".mp4"@)
        || contains(u, ".webm"@) || contains(u, ".mov"@)
}

/// A URL (lowercased) names a still or motion-JPEG image.
pub open spec fn names_image(u: Seq<char>) -> bool {
    contains(u, ".jpg"@) || contains(u, ".jpeg"@) || contains(u, ".png"@) || contains(u, ".gif"@) || contains(
        u,
        ".webp"@,
    ) || contains(u, "mjpg"@) || contains(u, "mjpeg"@)
}

/// Every URL that names an image (.jpg, .jpeg, .png, .gif, .webp, mjpg,
/// mjpeg, in any case) and no stream is an "image" feed; one that names
/// neither is "unknown"; and nothing else is either.
pub proof fn image_and_unknown_feeds(url: Seq<char>)
    ensures
        (feed_type(url) == "image"@) <==> (!names_stream(str_to_lowercase(url)) && names_image(str_to_lowercase(url))),
        (feed_type(url) == "unknown"@) <==> (!names_stream(str_to_lowercase(url)) && !names_image(str_to_lowercase(url))),
{
    reveal_strlit("image");
    reveal_strlit("unknown");
    reveal_strlit("rtsp");
    reveal_strlit("hls");
    reveal_strlit("video");
    assert("image"@.len() == 5 && "unknown"@.len() == 7 && "rtsp"@.len() == 4 && "hls"@.len() == 3 && "video"@.len() == 5);
    assert("image"@ != "video"@) by {
        assert("image"@[0] != "video"@[0]);
    }
}

/// The points a URL (lowercased) earns as a likely media URL: streams,
/// videos, motion JPEG, stills, and stream-like words.
pub open spec fn media_points(u: Seq<char>) -> int {
    pts(contains(u, ".m3u8"@), 120) + pts(contains(u, ".mp4"@) || contains(u, ".webm"@) || contains(u, ".mov"@), 100)
        + pts(contains(u, ".mjpg"@) || contains(u, ".mjpeg"@), 90) + pts(
        contains(u, ".jpg"@) || contains(u, ".jpeg"@) || contains(u, ".png"@),
        40,
    ) + pts(contains(u, "stream"@) || contains(u, "live"@) || contains(u, "playlist"@), 20)
}

/// A URL that names a logo, sprite, thumbnail or placeholder (in any case)
/// scores at least 80 below its media points; one that names none of these
/// (nor EarthCam) scores exactly its media points.
pub proof fn decoration_urls_lose_points(url: Seq<char>)
    ensures
        ({
            let u = str_to_lowercase(url);
            contains(u, "logo"@) || contains(u, "sprite"@) || contains(u, "thumbnail"@) || contains(u, "placeholder"@)
        }) ==> url_score(url) <= media_points(str_to_lowercase(url)) - 80,
        ({
            let u = str_to_lowercase(url);
            !contains(u, "logo"@) && !contains(u, "sprite"@) && !contains(u, "thumbnail"@) && !contains(u, "placeholder"@)
                && !contains(u, "earthcam"@)
        }) ==> url_score(url) == media_points(str_to_lowercase(url)),
{
}

/// Of two candidates with the same media points, a plain one (naming no
/// logo, sprite, thumbnail, placeholder or EarthCam) scores at least 80 more
/// than a thumbnail, and is picked before it in either order.
pub proof fn plain_beats_thumbnail(plain: Seq<char>, thumb: Seq<char>)
    requires
        media_points(str_to_lowercase(plain)) == media_points(str_to_lowercase(thumb)),
        contains(str_to_lowercase(thumb), "thumbnail"@),
        ({
            let u = str_to_lowercase(plain);
            !contains(u, "logo"@) && !contains(u, "sprite"@) && !contains(u, "thumbnail"@) && !contains(u, "placeholder"@)
                && !contains(u, "earthcam"@)
        }),
    ensures
        url_score(plain) >= url_score(thumb) + 80,
        best_candidate(seq![thumb, plain]) == Some(plain),
        best_candidate(seq![plain, thumb]) == Some(plain),
{
    decoration_urls_lose_points(plain);
    decoration_urls_lose_points(thumb);
    let e = Seq::<Seq<char>>::empty();
    assert(best_candidate(e) is None);
    let s1 = seq![thumb];
    assert(s1.drop_last() =~= e);
    assert(best_candidate(s1) == Some(thumb));
    let s2 = seq![thumb, plain];
    assert(s2.drop_last() =~= s1);
    assert(s2.last() == plain);
    assert(best_candidate(s2) == Some(plain));
    let t1 = seq![plain];
    assert(t1.drop_last() =~= e);
    assert(best_candidate(t1) == Some(plain));
    let t2 = seq![plain, thumb];
    assert(t2.drop_last() =~= t1);
    assert(t2.last() == thumb);
    assert(best_candidate(t2) == Some(plain));
}

/// The first of the highest-scoring candidates (the candidates sorted by
/// descending score, stably, then the first).
pub open spec fn best_candidate(cands: Seq<Seq<char>>) -> Option<Seq<char>>
    decreases cands.len(),
{
    if cands.len() == 0 {
        None
    } else {
        match best_candidate(cands.drop_last()) {
            None => Some(cands.last()),
            Some(b) => if url_score(cands.last()) > url_score(b) {
                Some(cands.last())
            } else {
                Some(b)
            },
        }
    }
}

/// The first of the highest-scoring candidate URLs, if any.
pub fn best_media_url(candidates: &Vec<String>) -> (r: Option<String>)
    ensures
        match r {
            Some(s) => best_candidate(string_views(candidates@)) == Some(s@),
            None => best_candidate(string_views(candidates@)) is None,
        },
{
    let mut best: Option<String> = None;
    let mut best_score: i32 = 0;
    let mut i: usize = 0;
    while i < candidates.len()
        invariant
            0 <= i <= candidates.len(),
            match best {
                Some(s) => best_candidate(string_views(candidates@.take(i as int))) == Some(s@)
                    && best_score == url_score(s@),
                None => best_candidate(string_views(candidates@.take(i as int))) is None,
            },
        decreases candidates.len() - i,
    {
        let c = &candidates[i];
        let sc = score_url(c.as_str());
        assert(string_views(candidates@.take(i + 1)).drop_last() =~= string_views(
            candidates@.take(i as int),
        ));
        assert(string_views(candidates@.take(i + 1)).last() == c@);
        match &best {
            None => {
                best = Some(c.clone());
                best_score = sc;
            },
            Some(_) => {
                if sc > best_score {
                    best = Some(c.clone());
                    best_score = sc;
                }
            },
        }
        i = i + 1;
    }
    assert(candidates@.take(candidates.len() as int) =~= candidates@);
    best
}

} // verus!

verus! {

// ── Finding the media URL in a page ───────────────────────────────────────────

/// Absolute media URLs written out in a page.
pub open spec fn media_url_pattern() -> Seq<char> {
    "https?://[^\"'\\s<>]+\\.(m3u8|mp4|webm|mov|mjpg|mjpeg|jpg|jpeg|png)(\\?[^\"'\\s<>]*)?"@
}

/// `content` and `src` attribute values; group 1 is the value.
pub open spec fn media_attr_pattern() -> Seq<char> {
    "(?:content|src)=[\"']([^\"']+)[\"']"@
}

/// Whether a lowercased attribute value names a media file.
pub open spec fn has_media_extension(lc: Seq<char>) -> bool {
    has(lc, ".m3u8") || has(lc, ".mp4") || has(lc, ".webm") || has(lc, ".mov") || has(lc, ".mjpg")
        || has(lc, ".mjpeg") || has(lc, ".jpg") || has(lc, ".jpeg") || has(lc, ".png")
}

/// The candidates that attribute values give: each value naming a media
/// file, resolved against the page's URL where that succeeds, else as written.
pub open spec fn attr_candidates(values: Seq<Option<Seq<char>>>, base: Seq<char>) -> Seq<Seq<char>>
    decreases values.len(),
{
    if values.len() == 0 {
        seq![]
    } else {
        let rest = attr_candidates(values.drop_last(), base);
        match values.last() {
            Some(v) => if has_media_extension(str_to_lowercase(v)) {
                rest.push(
                    match url_join(base, v) {
                        Some(j) => j,
                        None => v,
                    },
                )
            } else {
                rest
            },
            None => rest,
        }
    }
}

/// Every candidate media URL of a page, in the order they are found: the
/// absolute URLs first, then the attribute values.
pub open spec fn media_candidates(html: Seq<char>, base: Seq<char>) -> Seq<Seq<char>> {
    let found = match regex_matches(media_url_pattern(), html) {
        Some(ms) => ms,
        None => seq![],
    };
    let attrs = match regex_group_captures(media_attr_pattern(), html, 1) {
        Some(cs) => attr_candidates(cs, base),
        None => seq![],
    };
    found + attrs
}

/// The most likely direct media URL in a camera page, if there is one.
pub fn extract_direct_media_url(html: &str, base_url: &str) -> (r: Option<String>)
    ensures
        match r {
            Some(s) => best_candidate(media_candidates(html@, base_url@)) == Some(s@),
            None => best_candidate(media_candidates(html@, base_url@)) is None,
        },
{
    let url_pattern =
        "https?://[^\"'\\s<>]+\\.(m3u8|mp4|webm|mov|mjpg|mjpeg|jpg|jpeg|png)(\\?[^\"'\\s<>]*)?";
    let attr_pattern = "(?:content|src)=[\"']([^\"']+)[\"']";
    let mut candidates: Vec<String> = Vec::new();
    match regex_find_all(url_pattern, html) {
        Some(found) => {
            candidates = found;
        },
        None => {},
    }
    let ghost first = string_views(candidates@);
    match regex_capture_group(attr_pattern, html, 1) {
        Some(values) => {
            let mut i: usize = 0;
            while i < values.len()
                invariant
                    0 <= i <= values.len(),
                    string_views(candidates@) == first + attr_candidates(
                        option_views(values@.take(i as int)),
                        base_url@,
                    ),
                decreases values.len() - i,
            {
                let ghost before = candidates@;
                assert(option_views(values@.take(i + 1)).drop_last() =~= option_views(
                    values@.take(i as int),
                ));
                match &values[i] {
                    Some(raw) => {
                        assert(option_views(values@.take(i + 1)).last() == Some(raw@));
                        let lc = to_lowercase(raw.as_str());
                        let l = lc.as_str();
                        if str_contains(l, ".m3u8") || str_contains(l, ".mp4") || str_contains(
                            l,
                            ".webm",
                        ) || str_contains(l, ".mov") || str_contains(l, ".mjpg") || str_contains(
                            l,
                            ".mjpeg",
                        ) || str_contains(l, ".jpg") || str_contains(l, ".jpeg") || str_contains(
                            l,
                            ".png",
                        ) {
                            match join_url(base_url, raw.as_str()) {
                                Some(joined) => candidates.push(joined),
                                None => candidates.push(raw.clone()),
                            }
                            assert(string_views(candidates@) =~= string_views(before).push(
                                string_views(candidates@).last(),
                            ));
                        }
                    },
                    None => {
                        assert(option_views(values@.take(i + 1)).last() is None);
                    },
                }
                i = i + 1;
            }
            assert(values@.take(values.len() as int) =~= values@);
        },
        None => {},
    }
    best_media_url(&candidates)
}

} // verus!

verus! {

// ── Resolving a camera page ───────────────────────────────────────────────────

/// What resolving a camera page's URL gives.
#[derive(Debug, Clone)]
pub struct CctvResolveResult {
    pub ok: bool,
    pub direct_url: Option<String>,
    pub feed_type: Option<String>,
    pub reason: Option<String>,
}

pub open spec fn opt_view(o: Option<String>) -> Option<Seq<char>> {
    match o {
        Some(s) => Some(s@),
        None => None,
    }
}

impl CctvResolveResult {
    /// A failed resolution, for `reason`.
    pub fn failed(reason: String) -> (r: Self)
        ensures
            !r.ok,
            r.direct_url is None,
            r.feed_type is None,
            opt_view(r.reason) == Some(reason@),
    {
        CctvResolveResult { ok: false, direct_url: None, feed_type: None, reason: Some(reason) }
    }
}

/// Checks a camera page's URL before fetching it: `Err` with "Invalid URL: "
/// and the parser's message where it does not parse; `Ok(Some(..))`, failed
/// for "invalid-host", where it has no host; `Ok(None)` where the page can be
/// fetched.
pub fn check_cctv_url(url: &str) -> (r: Result<Option<CctvResolveResult>, String>)
    ensures
        r is Err == url_host(url@) is None,
        r matches Err(m) ==> m@.len() >= "Invalid URL: "@.len() && m@.subrange(
            0,
            "Invalid URL: "@.len() as int,
        ) == "Invalid URL: "@,
        r matches Ok(Some(res)) ==> url_host(url@) == Some(Seq::<char>::empty()) && !res.ok
            && res.direct_url is None && res.feed_type is None && opt_view(res.reason) == Some("invalid-host"@),
        r matches Ok(None) ==> url_host(url@) matches Some(h) && h.len() > 0,
{
    match parse_url_host(url) {
        Ok(host) => {
            if host.as_str().is_empty() {
                Ok(Some(CctvResolveResult::failed("invalid-host".to_owned())))
            } else {
                Ok(None)
            }
        },
        Err(e) => {
            let m = crate::text::concat("Invalid URL: ", e.as_str());
            assert(m@.subrange(0, "Invalid URL: "@.len() as int) =~= "Invalid URL: "@);
            Err(m)
        },
    }
}

/// The resolution of a fetched camera page: the most likely direct media URL
/// and its feed type, or a failure for "no-direct-media-found".
pub fn resolve_from_body(body: &str, url: &str) -> (r: CctvResolveResult)
    ensures
        match best_candidate(media_candidates(body@, url@)) {
            Some(found) => r.ok && opt_view(r.direct_url) == Some(found) && opt_view(r.feed_type)
                == Some(feed_type(found)) && r.reason is None,
            None => !r.ok && r.direct_url is None && r.feed_type is None && opt_view(r.reason)
                == Some("no-direct-media-found"@),
        },
{
    match extract_direct_media_url(body, url) {
        Some(found) => {
            let feed = detect_feed_type(found.as_str()).to_owned();
            CctvResolveResult { ok: true, direct_url: Some(found), feed_type: Some(feed), reason: None }
        },
        None => CctvResolveResult::failed("no-direct-media-found".to_owned()),
    }
}

/// The failed resolution of a page that could not be fetched.
pub fn fetch_failed(error_text: &str) -> (r: CctvResolveResult)
    ensures
        !r.ok,
        r.direct_url is None,
        r.feed_type is None,
        opt_view(r.reason) == Some("fetch-failed: "@ + error_text@),
{
    CctvResolveResult::failed(crate::text::concat("fetch-failed: ", error_text))
}

// ── Source windows ────────────────────────────────────────────────────────────

/// The serialized URL after `url::Url::query_pairs_mut().append_pair(key,
/// value)` on the parsed `url`, or `None` where `url` does not parse.
pub uninterp spec fn url_appended(url: Seq<char>, key: Seq<char>, value: Seq<char>) -> Option<Seq<char>>;

/// `url::Url::parse`, then `query_pairs_mut().append_pair`, serialized; on a
/// parse error, its `Display` text, of which nothing is stated.
#[verifier::external_body]
fn append_query_pair(url: &str, key: &str, value: &str) -> (r: Result<String, String>)
    ensures
        r matches Ok(s) ==> url_appended(url@, key@, value@) == Some(s@),
        r is Err ==> url_appended(url@, key@, value@) is None,
{
    match url::Url::parse(url) {
        Ok(mut u) => {
            u.query_pairs_mut().append_pair(key, value);
            Ok(u.to_string())
        },
        Err(e) => Err(format!("{e}")),
    }
}

/// A window that shows a camera's source page.
#[derive(Debug, Clone)]
pub struct CctvWindow {
    pub url: String,
    pub label: String,
    pub title: String,
}

/// The window for a camera page opened at `ts_ms`: the page's URL with an
/// `_owts` parameter holding the time (so each opening loads afresh), the
/// label `cctv-source-{ts_ms}`, and the given title or "CCTV Source".
pub fn cctv_source_window(url: &str, ts_ms: u64, title: Option<String>) -> (r: Result<CctvWindow, String>)
    ensures
        r is Err == url_appended(url@, "_owts"@, dec(ts_ms as nat)) is None,
        r matches Err(m) ==> m@.len() >= "Invalid URL: "@.len() && m@.subrange(
            0,
            "Invalid URL: "@.len() as int,
        ) == "Invalid URL: "@,
        r matches Ok(w) ==> {
            &&& url_appended(url@, "_owts"@, dec(ts_ms as nat)) == Some(w.url@)
            &&& w.label@ == "cctv-source-"@ + dec(ts_ms as nat)
            &&& w.title@ == match title {
                Some(t) => t@,
                None => "CCTV Source"@,
            }
        },
{
    let ts = crate::text::dec_string(ts_ms);
    match append_query_pair(url, "_owts", ts.as_str()) {
        Ok(u) => {
            let label = crate::text::concat("cctv-source-", ts.as_str());
            let title = match title {
                Some(t) => t,
                None => "CCTV Source".to_owned(),
            };
            Ok(CctvWindow { url: u, label, title })
        },
        Err(e) => {
            let m = crate::text::concat("Invalid URL: ", e.as_str());
            assert(m@.subrange(0, "Invalid URL: "@.len() as int) =~= "Invalid URL: "@);
            Err(m)
        },
    }
}

} // verus!
