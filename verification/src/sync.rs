//! Sync transports: the HTTP endpoints a node talks to and the choice of
//! transport from configuration.
use vstd::prelude::*;
use crate::text::{chars_of, dec, push_dec, push_str, string_from_chars, string_from_range, trim_end_char, trim_end_char_range};

verus! {

/// Acknowledgement returned by the hub after a successful push.
#[derive(Debug, Clone, Copy, PartialEq, Eq, Structural)]
pub struct AckResult {
    pub accepted: u32,
    pub rejected: u32,
    pub cursor: u64,
}

/// Sync cursor stored in node DB (sync_state key = "last_pull_cursor").
#[derive(Debug, Clone, Copy, PartialEq, Eq, Structural)]
pub struct SyncCursor {
    pub timestamp: u64,
}

impl Default for SyncCursor {
    fn default() -> (c: Self)
        ensures
            c.timestamp == 0,
    {
        SyncCursor { timestamp: 0 }
    }
}

/// No-op transport — used when the hub runs with local collection disabled.
pub struct NullSyncTransport;

impl NullSyncTransport {
    /// What a push answers: nothing accepted, nothing rejected, cursor 0.
    pub fn push_ack(&self) -> (a: AckResult)
        ensures
            a == (AckResult { accepted: 0, rejected: 0, cursor: 0 }),
    {
        AckResult { accepted: 0, rejected: 0, cursor: 0 }
    }
}

/// HTTP sync transport — communicates with hub-api over LAN/VPN.
pub struct HttpSyncTransport {
    pub base_url: String,
    pub device_id: String,
}

impl HttpSyncTransport {
    /// Keeps the base URL without its trailing slashes.
    pub fn new(base_url: &str, device_id: &str) -> (t: Self)
        ensures
            t.base_url@ == trim_end_char(base_url@, '/'),
            t.device_id@ == device_id@,
    {
        let v = chars_of(base_url);
        let e = trim_end_char_range(&v, v.len(), '/');
        assert(v@.subrange(0, v.len() as int) =~= v@);
        HttpSyncTransport { base_url: string_from_range(&v, 0, e), device_id: device_id.to_owned() }
    }

    /// `{base_url}/api/push`
    pub fn push_url(&self) -> (u: String)
        ensures
            u@ == self.base_url@ + "/api/push"@,
    {
        let mut v = chars_of(self.base_url.as_str());
        push_str(&mut v, "/api/push");
        string_from_chars(&v)
    }

    /// `{base_url}/api/delta?device_id={device_id}&cursor={cursor}`
    pub fn pull_url(&self, cursor: u64) -> (u: String)
        ensures
            u@ == self.base_url@ + "/api/delta?device_id="@ + self.device_id@ + "&cursor="@ + dec(cursor as nat),
    {
        let mut v = chars_of(self.base_url.as_str());
        push_str(&mut v, "/api/delta?device_id=");
        push_str(&mut v, self.device_id.as_str());
        push_str(&mut v, "&cursor=");
        push_dec(&mut v, cursor);
        string_from_chars(&v)
    }
}

} // verus!
