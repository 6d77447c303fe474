//! Hub messaging and entity feeds: the request records and the checks and
//! normalisation applied before anything is stored.
use vstd::prelude::*;
use crate::error::Error;
use crate::text::{trim, trim_string};

verus! {

/// A message send request: to one device, to every member of a group, or both.
pub struct MsgSendReq {
    pub from: String,
    pub to_device: Option<String>,
    pub to_group: Option<String>,
    pub body: String,
}

/// A stored message as delivered to an inbox.
pub struct MsgRow {
    pub id: u64,
    pub from: String,
    pub to_device: Option<String>,
    pub to_group: Option<String>,
    pub body: String,
    pub sent_at: u64,
    pub delivered_at: Option<u64>,
    pub read_at: Option<u64>,
}

/// Create-or-rename a group, or join one.
pub struct GroupUpsertReq {
    pub group_id: String,
    pub name: Option<String>,
    pub device_id: String,
}

/// A group with its members, oldest member first.
pub struct GroupInfo {
    pub group_id: String,
    pub name: String,
    pub members: Vec<String>,
}

/// Marks one message read.
pub struct MsgAckReq {
    pub device_id: String,
    pub id: u64,
}

/// A live video feed attached to an entity.
pub struct EntityFeed {
    pub uid: String,
    pub callsign: Option<String>,
    pub feed_url: String,
    pub updated_by: Option<String>,
    pub updated_at: u64,
}

pub struct EntityFeedUpsertReq {
    pub uid: String,
    pub callsign: Option<String>,
    pub feed_url: String,
    pub updated_by: Option<String>,
}

pub struct EntityFeedDeleteReq {
    pub uid: String,
    pub callsign: Option<String>,
    pub updated_by: Option<String>,
}

/// Why a message send is refused, if it is: an empty body (after trimming)
/// first, then a request with neither a device nor a group to send to.
pub open spec fn msg_send_refusal(body: Seq<char>, has_device: bool, has_group: bool) -> Option<Seq<char>> {
    if trim(body).len() == 0 {
        Some("empty body"@)
    } else if !has_device && !has_group {
        Some("missing recipient"@)
    } else {
        None
    }
}

/// Checks a send request before anything is stored.
pub fn validate_msg_send(req: &MsgSendReq) -> (r: Result<(), Error>)
    ensures
        match msg_send_refusal(req.body@, req.to_device is Some, req.to_group is Some) {
            Some(m) => r matches Err(Error::Other(e)) && e@ == m,
            None => r is Ok,
        },
{
    let t = trim_string(req.body.as_str());
    if t.as_str().is_empty() {
        return Err(Error::Other("empty body".to_owned()));
    }
    if req.to_device.is_none() && req.to_group.is_none() {
        return Err(Error::Other("missing recipient".to_owned()));
    }
    Ok(())
}

/// A send request is accepted exactly when its body is not blank and it
/// names a recipient, a device or a group: a group alone is enough, and a
/// device alone is enough.
pub proof fn sends_need_body_and_recipient(body: Seq<char>, has_device: bool, has_group: bool)
    ensures
        (msg_send_refusal(body, has_device, has_group) is None) <==> (trim(body).len() > 0 && (has_device || has_group)),
        trim(body).len() > 0 && has_group ==> msg_send_refusal(body, has_device, has_group) is None,
        trim(body).len() > 0 && has_device ==> msg_send_refusal(body, has_device, has_group) is None,
{
}

/// The number of inbox rows returned: the requested limit clamped to 1..=2000.
pub fn inbox_limit(limit: u64) -> (l: i64)
    ensures
        l == (if limit < 1 {
            1
        } else if limit > 2000 {
            2000
        } else {
            limit as int
        }),
{
    if limit < 1 {
        1
    } else if limit > 2000 {
        2000
    } else {
        limit as i64
    }
}

/// The name a group gets: the one requested, else its id.
pub fn group_name(req: &GroupUpsertReq) -> (n: String)
    ensures
        n@ == (match req.name {
            Some(s) => s@,
            None => req.group_id@,
        }),
{
    match &req.name {
        Some(s) => s.clone(),
        None => req.group_id.clone(),
    }
}

/// The values an entity-feed upsert stores, all trimmed.
pub struct FeedUpsert {
    pub uid: String,
    pub callsign: String,
    pub feed_url: String,
    pub updated_by: String,
}

pub open spec fn opt_or_empty(o: Option<String>) -> Seq<char> {
    match o {
        Some(s) => s@,
        None => Seq::empty(),
    }
}

/// Normalises an upsert: uid and feed URL trimmed and required; callsign and
/// updater trimmed, empty when absent.
pub fn normalize_feed_upsert(req: &EntityFeedUpsertReq) -> (r: Result<FeedUpsert, Error>)
    ensures
        trim(req.uid@).len() == 0 || trim(req.feed_url@).len() == 0 ==> (r matches Err(Error::Other(e)) && e@ == "uid and feed_url required"@),
        trim(req.uid@).len() > 0 && trim(req.feed_url@).len() > 0 ==> (r matches Ok(f) && f.uid@ == trim(req.uid@)
            && f.feed_url@ == trim(req.feed_url@) && f.callsign@ == trim(opt_or_empty(req.callsign))
            && f.updated_by@ == trim(opt_or_empty(req.updated_by))),
{
    let uid = trim_string(req.uid.as_str());
    let feed_url = trim_string(req.feed_url.as_str());
    if uid.as_str().is_empty() || feed_url.as_str().is_empty() {
        return Err(Error::Other("uid and feed_url required".to_owned()));
    }
    let callsign = match &req.callsign {
        Some(s) => trim_string(s.as_str()),
        None => String::new(),
    };
    let updated_by = match &req.updated_by {
        Some(s) => trim_string(s.as_str()),
        None => String::new(),
    };
    proof {
        if req.callsign is None {
            assert(trim(Seq::<char>::empty()) == Seq::<char>::empty());
        }
        if req.updated_by is None {
            assert(trim(Seq::<char>::empty()) == Seq::<char>::empty());
        }
    }
    Ok(FeedUpsert { uid, callsign, feed_url, updated_by })
}

/// A trimmed value, when it is not empty.
pub open spec fn nonempty_trimmed(s: Seq<char>) -> Option<Seq<char>> {
    if trim(s).len() > 0 {
        Some(trim(s))
    } else {
        None
    }
}

/// What a delete request removes: feeds with the trimmed uid (when not
/// empty), and feeds with the trimmed callsign (when given and not empty).
pub fn feed_delete_targets(req: &EntityFeedDeleteReq) -> (r: (Option<String>, Option<String>))
    ensures
        match r.0 {
            Some(u) => nonempty_trimmed(req.uid@) == Some(u@),
            None => nonempty_trimmed(req.uid@) is None,
        },
        match r.1 {
            Some(c) => req.callsign is Some && nonempty_trimmed(req.callsign->0@) == Some(c@),
            None => req.callsign is None || nonempty_trimmed(req.callsign->0@) is None,
        },
{
    let uid = trim_string(req.uid.as_str());
    let by_uid = if uid.as_str().is_empty() {
        None
    } else {
        Some(uid)
    };
    let by_callsign = match &req.callsign {
        Some(cs) => {
            let c = trim_string(cs.as_str());
            if c.as_str().is_empty() {
                None
            } else {
                Some(c)
            }
        },
        None => None,
    };
    (by_uid, by_callsign)
}

/// A stored feed row as returned: empty (after trimming) callsign and
/// updater read as absent, a negative timestamp as 0.
pub fn entity_feed_from_row(uid: String, callsign: String, feed_url: String, updated_by: String, updated_at: i64) -> (f: EntityFeed)
    ensures
        f.uid@ == uid@,
        f.feed_url@ == feed_url@,
        f.callsign == (if trim(callsign@).len() == 0 { None } else { Some(callsign) }),
        f.updated_by == (if trim(updated_by@).len() == 0 { None } else { Some(updated_by) }),
        f.updated_at == (if updated_at < 0 { 0 } else { updated_at as u64 }),
{
    let cs_empty = trim_string(callsign.as_str()).as_str().is_empty();
    let ub_empty = trim_string(updated_by.as_str()).as_str().is_empty();
    EntityFeed {
        uid,
        callsign: if cs_empty { None } else { Some(callsign) },
        feed_url,
        updated_by: if ub_empty { None } else { Some(updated_by) },
        updated_at: if updated_at < 0 { 0 } else { updated_at as u64 },
    }
}

} // verus!
