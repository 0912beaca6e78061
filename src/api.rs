//! The admission decisions of the intake endpoints: the client allowlist, and
//! what each request must satisfy before the store is touched.
use vstd::prelude::*;
use crate::purge::{PurgeCriteria, texts};
use crate::envelope::{
    EventEnvelope, PrivacyFlag, envelope_verdict, is_uuid_v4, privacy_label, rfc3339,
    rfc3339_accepts, same_text, uuid_v4, uuid_version_of,
};

verus! {

/// The request header that names the local client.
pub const CLIENT_HEADER: &'static str = "X-Vyaso-Local-Client";

/// The clients that may call the daemon.
pub open spec fn allowed_client(s: Seq<char>) -> bool {
    s == "browser-extension"@ || s == "vscode"@ || s == "desktop-app"@
}

/// Why a request is turned away.
#[derive(Debug, Clone)]
pub enum ApiError {
    /// The client header is missing (401).
    MissingClient,
    /// The client header names a client that is not allowed (403).
    ClientNotAllowed,
    /// The request does not validate (400).
    Invalid(String),
    /// No event has the requested id (404).
    NotFound,
    /// The intake queue is closed (503).
    Unavailable(String),
    /// The store failed (500).
    Store(String),
}

/// The HTTP status of a refusal.
pub open spec fn status_of(e: ApiError) -> u16 {
    match e {
        ApiError::MissingClient => 401,
        ApiError::ClientNotAllowed => 403,
        ApiError::Invalid(_) => 400,
        ApiError::NotFound => 404,
        ApiError::Unavailable(_) => 503,
        ApiError::Store(_) => 500,
    }
}

/// The text of a refusal, sent as `{"error": ...}`.
pub open spec fn message_of(e: ApiError) -> Seq<char> {
    match e {
        ApiError::MissingClient => "missing X-Vyaso-Local-Client"@,
        ApiError::ClientNotAllowed => "client not allowed"@,
        ApiError::Invalid(m) => m@,
        ApiError::NotFound => "not_found"@,
        ApiError::Unavailable(m) => m@,
        ApiError::Store(m) => m@,
    }
}

impl ApiError {
    /// The HTTP status of this refusal.
    pub fn status(&self) -> (r: u16)
        ensures
            r == status_of(*self),
    {
        match self {
            ApiError::MissingClient => 401,
            ApiError::ClientNotAllowed => 403,
            ApiError::Invalid(_) => 400,
            ApiError::NotFound => 404,
            ApiError::Unavailable(_) => 503,
            ApiError::Store(_) => 500,
        }
    }

    /// The text of this refusal.
    pub fn message(&self) -> (r: String)
        ensures
            r@ == message_of(*self),
    {
        match self {
            ApiError::MissingClient => String::from_str("missing X-Vyaso-Local-Client"),
            ApiError::ClientNotAllowed => String::from_str("client not allowed"),
            ApiError::Invalid(m) => m.clone(),
            ApiError::NotFound => String::from_str("not_found"),
            ApiError::Unavailable(m) => m.clone(),
            ApiError::Store(m) => m.clone(),
        }
    }
}

/// A refusal as its status and text.
pub open spec fn refusal(e: ApiError) -> (u16, Seq<char>) {
    (status_of(e), message_of(e))
}

/// An optional text as plain values.
pub open spec fn opt_text(o: Option<&str>) -> Option<Seq<char>> {
    match o {
        Some(s) => Some(s@),
        None => None,
    }
}

/// The client check: a missing header is 401, a client off the allowlist 403.
pub open spec fn client_verdict(client: Option<Seq<char>>) -> Result<(), (u16, Seq<char>)> {
    match client {
        None => Err((401u16, "missing X-Vyaso-Local-Client"@)),
        Some(c) => if allowed_client(c) {
            Ok(())
        } else {
            Err((403u16, "client not allowed"@))
        },
    }
}

/// A result read as its refusal, if any.
pub open spec fn refusal_of<T>(r: Result<T, ApiError>) -> Result<(), (u16, Seq<char>)> {
    match r {
        Ok(_) => Ok(()),
        Err(e) => Err(refusal(e)),
    }
}

/// Checks the client header (`None` where the request has none).
pub fn validate_client(client: Option<&str>) -> (r: Result<(), ApiError>)
    ensures
        refusal_of(r) == client_verdict(opt_text(client)),
{
    match client {
        None => Err(ApiError::MissingClient),
        Some(c) => {
            if same_text(c, "browser-extension") || same_text(c, "vscode") || same_text(
                c,
                "desktop-app",
            ) {
                Ok(())
            } else {
                Err(ApiError::ClientNotAllowed)
            }
        },
    }
}

/// The verdict on submitting `env`: the client check, then the envelope rules (400).
pub open spec fn event_verdict(client: Option<Seq<char>>, env: EventEnvelope) -> Result<
    (),
    (u16, Seq<char>),
> {
    match client_verdict(client) {
        Err(e) => Err(e),
        Ok(()) => match envelope_verdict(
            env,
            uuid_version_of(env.event_id@),
            rfc3339_accepts(env.timestamp@),
        ) {
            Ok(()) => Ok(()),
            Err(m) => Err((400u16, m)),
        },
    }
}

/// Decides whether an envelope is admitted to the intake queue.
pub fn admit_event(client: Option<&str>, env: &EventEnvelope) -> (r: Result<(), ApiError>)
    ensures
        refusal_of(r) == event_verdict(opt_text(client), *env),
{
    match validate_client(client) {
        Err(e) => return Err(e),
        Ok(()) => {},
    }
    match env.validate() {
        Ok(()) => Ok(()),
        Err(m) => Err(ApiError::Invalid(m)),
    }
}

/// The verdict on looking up the event `id`: the client check, then a UUID v4 (400).
pub open spec fn lookup_verdict(client: Option<Seq<char>>, id: Seq<char>) -> Result<
    (),
    (u16, Seq<char>),
> {
    match client_verdict(client) {
        Err(e) => Err(e),
        Ok(()) => if is_uuid_v4(id) {
            Ok(())
        } else {
            Err((400u16, "event_id must be uuid v4"@))
        },
    }
}

/// Decides whether a lookup of the event `id` goes ahead.
pub fn admit_lookup(client: Option<&str>, id: &str) -> (r: Result<(), ApiError>)
    ensures
        refusal_of(r) == lookup_verdict(opt_text(client), id@),
{
    match validate_client(client) {
        Err(e) => return Err(e),
        Ok(()) => {},
    }
    if uuid_v4(id) {
        Ok(())
    } else {
        Err(ApiError::Invalid(String::from_str("event_id must be uuid v4")))
    }
}

/// A purge request as clients send it.
#[derive(Clone, Debug)]
pub struct PurgeRequest {
    pub event_ids: Option<Vec<String>>,
    pub start: Option<String>,
    pub end: Option<String>,
    pub app: Option<String>,
    pub source: Option<String>,
    pub privacy_flag: Option<PrivacyFlag>,
}

/// Every id of the list is a UUID v4.
pub open spec fn all_uuid_v4(ids: Seq<String>) -> bool {
    forall|i: int| 0 <= i < ids.len() ==> is_uuid_v4(#[trigger] ids[i]@)
}

/// An optional bound that is absent or RFC 3339.
pub open spec fn bound_ok(b: Option<String>) -> bool {
    match b {
        Some(s) => rfc3339_accepts(s@),
        None => true,
    }
}

/// The verdict on a purge request: the client check, then every listed id a
/// UUID v4, then `start`, then `end` RFC 3339 (each 400).
pub open spec fn purge_verdict(client: Option<Seq<char>>, req: PurgeRequest) -> Result<
    (),
    (u16, Seq<char>),
> {
    match client_verdict(client) {
        Err(e) => Err(e),
        Ok(()) => if req.event_ids is Some && !all_uuid_v4(req.event_ids->Some_0@) {
            Err((400u16, "invalid event_id in list"@))
        } else if !bound_ok(req.start) {
            Err((400u16, "start must be RFC3339"@))
        } else if !bound_ok(req.end) {
            Err((400u16, "end must be RFC3339"@))
        } else {
            Ok(())
        },
    }
}

/// Two optional strings hold the same text.
pub open spec fn same_opt(a: Option<String>, b: Option<String>) -> bool {
    match (a, b) {
        (Some(x), Some(y)) => x@ == y@,
        (None, None) => true,
        _ => false,
    }
}

/// The criteria that carry a purge request over: the same predicates, the
/// privacy flag as its text.
pub open spec fn criteria_of(c: PurgeCriteria, req: PurgeRequest) -> bool {
    &&& match (c.event_ids, req.event_ids) {
        (Some(x), Some(y)) => texts(x@) == texts(y@),
        (None, None) => true,
        _ => false,
    }
    &&& same_opt(c.start, req.start)
    &&& same_opt(c.end, req.end)
    &&& same_opt(c.app, req.app)
    &&& same_opt(c.source, req.source)
    &&& match (c.privacy_flag, req.privacy_flag) {
        (Some(x), Some(f)) => x@ == privacy_label(f),
        (None, None) => true,
        _ => false,
    }
}

/// A copy of an optional string.
fn copy_opt(o: &Option<String>) -> (r: Option<String>)
    ensures
        same_opt(r, *o),
{
    match o {
        Some(s) => Some(s.clone()),
        None => None,
    }
}

/// A copy of a list of strings.
fn copy_texts(v: &Vec<String>) -> (r: Vec<String>)
    ensures
        texts(r@) == texts(v@),
{
    let mut out: Vec<String> = Vec::new();
    let mut i: usize = 0;
    while i < v.len()
        invariant
            i <= v@.len(),
            out@.len() == i,
            forall|k: int| 0 <= k < i ==> #[trigger] out@[k]@ == v@[k]@,
        decreases v@.len() - i,
    {
        out.push(v[i].clone());
        i = i + 1;
    }
    assert(texts(out@) =~= texts(v@));
    out
}

/// Decides whether a purge request goes ahead, and with which criteria.
pub fn admit_purge(client: Option<&str>, req: &PurgeRequest) -> (r: Result<PurgeCriteria, ApiError>)
    ensures
        refusal_of(r) == purge_verdict(opt_text(client), *req),
        r matches Ok(c) ==> criteria_of(c, *req),
{
    match validate_client(client) {
        Err(e) => return Err(e),
        Ok(()) => {},
    }
    match &req.event_ids {
        Some(ids) => {
            let mut i: usize = 0;
            while i < ids.len()
                invariant
                    i <= ids@.len(),
                    req.event_ids == Some(*ids),
                    client_verdict(opt_text(client)) is Ok,
                    forall|k: int| 0 <= k < i ==> is_uuid_v4(#[trigger] ids@[k]@),
                decreases ids@.len() - i,
            {
                if !uuid_v4(ids[i].as_str()) {
                    assert(!is_uuid_v4(ids@[i as int]@));
                    assert(!all_uuid_v4(ids@));
                    return Err(ApiError::Invalid(String::from_str("invalid event_id in list")));
                }
                i = i + 1;
            }
        },
        None => {},
    }
    match &req.start {
        Some(s) => {
            if !rfc3339(s.as_str()) {
                return Err(ApiError::Invalid(String::from_str("start must be RFC3339")));
            }
        },
        None => {},
    }
    match &req.end {
        Some(e) => {
            if !rfc3339(e.as_str()) {
                return Err(ApiError::Invalid(String::from_str("end must be RFC3339")));
            }
        },
        None => {},
    }
    let event_ids = match &req.event_ids {
        Some(ids) => Some(copy_texts(ids)),
        None => None,
    };
    let privacy_flag = match req.privacy_flag {
        Some(f) => Some(String::from_str(f.label())),
        None => None,
    };
    Ok(
        PurgeCriteria {
            event_ids,
            start: copy_opt(&req.start),
            end: copy_opt(&req.end),
            app: copy_opt(&req.app),
            source: copy_opt(&req.source),
            privacy_flag,
        },
    )
}

} // verus!
