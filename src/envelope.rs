//! The event envelope that clients submit, its validation rules, the client
//! allowlist, and the admission decisions of the intake endpoints.
use vstd::prelude::*;
use crate::text::{is_blank, is_blank_text};

verus! {

/// How an event's content may be kept.
#[derive(Clone, Copy, Debug, PartialEq, Eq, Structural)]
pub enum PrivacyFlag {
    Default,
    Sensitive,
    NeverStore,
}

/// The text form of a privacy flag, as stored and as sent over the wire.
pub open spec fn privacy_label(f: PrivacyFlag) -> Seq<char> {
    match f {
        PrivacyFlag::Default => "default"@,
        PrivacyFlag::Sensitive => "sensitive"@,
        PrivacyFlag::NeverStore => "never_store"@,
    }
}

/// The flag read back from its stored text; unknown text reads as `Default`.
pub open spec fn privacy_from_text(s: Seq<char>) -> PrivacyFlag {
    if s == "sensitive"@ {
        PrivacyFlag::Sensitive
    } else if s == "never_store"@ {
        PrivacyFlag::NeverStore
    } else {
        PrivacyFlag::Default
    }
}

/// Whether two texts are equal.
pub fn same_text(a: &str, b: &str) -> (r: bool)
    ensures
        r == (a@ == b@),
{
    let x = a.to_owned();
    let y = b.to_owned();
    x == y
}

impl PrivacyFlag {
    /// The text form of this flag.
    pub fn label(&self) -> (r: &'static str)
        ensures
            r@ == privacy_label(*self),
    {
        match self {
            PrivacyFlag::Default => "default",
            PrivacyFlag::Sensitive => "sensitive",
            PrivacyFlag::NeverStore => "never_store",
        }
    }

    /// The flag that a stored text stands for.
    pub fn from_text(s: &str) -> (r: PrivacyFlag)
        ensures
            r == privacy_from_text(s@),
    {
        if same_text(s, "sensitive") {
            PrivacyFlag::Sensitive
        } else if same_text(s, "never_store") {
            PrivacyFlag::NeverStore
        } else {
            PrivacyFlag::Default
        }
    }
}

/// An event as clients submit it and as the store keeps it.
#[derive(Clone, Debug)]
pub struct EventEnvelope {
    pub event_id: String,
    pub timestamp: String,
    pub source: String,
    pub app: String,
    pub content_pointer: String,
    pub content_hash: String,
    pub size_bytes: u64,
    pub tags: Vec<String>,
    pub privacy_flag: PrivacyFlag,
}

/// The UUID version that `uuid::Uuid::parse_str` reads from a text, or `None`
/// when the text is not a UUID.
pub uninterp spec fn uuid_version_of(s: Seq<char>) -> Option<usize>;

/// Whether `time::OffsetDateTime::parse` accepts a text as RFC 3339.
pub uninterp spec fn rfc3339_accepts(s: Seq<char>) -> bool;

/// Relies on uuid::Uuid::parse_str to parse a UUID in any of its text forms,
/// and on Uuid::get_version_num for its version number.
#[verifier::external_body]
fn parse_uuid_version(s: &str) -> (r: Option<usize>)
    ensures
        r == uuid_version_of(s@),
{
    uuid::Uuid::parse_str(s).ok().map(|u| u.get_version_num())
}

/// Relies on time::OffsetDateTime::parse with the RFC 3339 format description:
/// whether the text is an RFC 3339 instant.
#[verifier::external_body]
fn rfc3339_valid(s: &str) -> (r: bool)
    ensures
        r == rfc3339_accepts(s@),
{
    time::OffsetDateTime::parse(s, &time::format_description::well_known::Rfc3339).is_ok()
}

/// A UUID of version 4.
pub open spec fn is_uuid_v4(s: Seq<char>) -> bool {
    uuid_version_of(s) == Some(4usize)
}

/// Whether `s` is the text of a version 4 UUID.
pub fn uuid_v4(s: &str) -> (r: bool)
    ensures
        r == is_uuid_v4(s@),
{
    match parse_uuid_version(s) {
        Some(v) => v == 4,
        None => false,
    }
}

/// Whether `s` is an RFC 3339 instant.
pub fn rfc3339(s: &str) -> (r: bool)
    ensures
        r == rfc3339_accepts(s@),
{
    rfc3339_valid(s)
}

/// A lowercase hexadecimal digit.
pub open spec fn is_lower_hex(c: char) -> bool {
    ('0' <= c && c <= '9') || ('a' <= c && c <= 'f')
}

/// The text of a SHA-256 digest: exactly 64 lowercase hexadecimal digits.
pub open spec fn is_content_hash(s: Seq<char>) -> bool {
    s.len() == 64 && forall|i: int| 0 <= i < s.len() ==> is_lower_hex(#[trigger] s[i])
}

/// The longest content pointer accepted, in characters.
pub const MAX_POINTER_CHARS: usize = 4096;

/// Whether `s` is 64 lowercase hexadecimal digits.
pub fn content_hash_ok(s: &str) -> (r: bool)
    ensures
        r == is_content_hash(s@),
{
    let n = s.unicode_len();
    if n != 64 {
        return false;
    }
    let mut i: usize = 0;
    while i < n
        invariant
            n == s@.len(),
            i <= n,
            forall|j: int| 0 <= j < i ==> is_lower_hex(#[trigger] s@[j]),
        decreases n - i,
    {
        let c = s.get_char(i);
        if !(('0' <= c && c <= '9') || ('a' <= c && c <= 'f')) {
            return false;
        }
        i = i + 1;
    }
    true
}

/// The outcome of validating an envelope, given what the UUID parser read from
/// its `event_id` and whether its `timestamp` is RFC 3339.
pub open spec fn envelope_verdict(
    e: EventEnvelope,
    id_version: Option<usize>,
    timestamp_ok: bool,
) -> Result<(), Seq<char>> {
    if id_version is None {
        Err("event_id must be a valid uuid"@)
    } else if id_version != Some(4usize) {
        Err("event_id must be uuid v4"@)
    } else if !timestamp_ok {
        Err("timestamp must be RFC3339"@)
    } else if is_blank_text(e.source@) {
        Err("source must be non-empty"@)
    } else if is_blank_text(e.app@) {
        Err("app must be non-empty"@)
    } else if !is_content_hash(e.content_hash@) {
        Err("content_hash must be 64 hex characters (sha256)"@)
    } else if e.content_pointer@.len() > MAX_POINTER_CHARS {
        Err("content_pointer too long"@)
    } else {
        Ok(())
    }
}

/// A result whose error carries text, read as text.
pub open spec fn text_result(r: Result<(), String>) -> Result<(), Seq<char>> {
    match r {
        Ok(()) => Ok(()),
        Err(m) => Err(m@),
    }
}

impl EventEnvelope {
    /// The validation rules, given the UUID version read from `event_id` and
    /// whether `timestamp` parsed as RFC 3339.
    pub fn check_fields(&self, id_version: Option<usize>, timestamp_ok: bool) -> (r: Result<
        (),
        String,
    >)
        ensures
            text_result(r) == envelope_verdict(*self, id_version, timestamp_ok),
    {
        match id_version {
            None => {
                return Err(String::from_str("event_id must be a valid uuid"));
            },
            Some(v) => {
                if v != 4 {
                    return Err(String::from_str("event_id must be uuid v4"));
                }
            },
        }
        if !timestamp_ok {
            return Err(String::from_str("timestamp must be RFC3339"));
        }
        if is_blank(self.source.as_str()) {
            return Err(String::from_str("source must be non-empty"));
        }
        if is_blank(self.app.as_str()) {
            return Err(String::from_str("app must be non-empty"));
        }
        if !content_hash_ok(self.content_hash.as_str()) {
            return Err(String::from_str("content_hash must be 64 hex characters (sha256)"));
        }
        if self.content_pointer.as_str().unicode_len() > MAX_POINTER_CHARS {
            return Err(String::from_str("content_pointer too long"));
        }
        Ok(())
    }

    /// Validates the envelope: `event_id` a UUID v4, `timestamp` RFC 3339,
    /// `source` and `app` not blank, `content_hash` 64 lowercase hex digits,
    /// `content_pointer` at most 4096 characters.
    pub fn validate(&self) -> (r: Result<(), String>)
        ensures
            text_result(r) == envelope_verdict(
                *self,
                uuid_version_of(self.event_id@),
                rfc3339_accepts(self.timestamp@),
            ),
    {
        let id_version = parse_uuid_version(self.event_id.as_str());
        let timestamp_ok = rfc3339_valid(self.timestamp.as_str());
        self.check_fields(id_version, timestamp_ok)
    }
}

/// An envelope that passes validation has a well-formed content hash and a
/// version 4 UUID as its id.
pub proof fn lemma_valid_envelope_fields(e: EventEnvelope)
    requires
        envelope_verdict(e, uuid_version_of(e.event_id@), rfc3339_accepts(e.timestamp@)) is Ok,
    ensures
        is_content_hash(e.content_hash@),
        is_uuid_v4(e.event_id@),
{
}

} // verus!
