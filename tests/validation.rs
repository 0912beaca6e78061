use vyasoai_daemon::api::{admit_event, admit_lookup, admit_purge, validate_client, ApiError, PurgeRequest};
use vyasoai_daemon::envelope::{EventEnvelope, PrivacyFlag};

const V4_ID: &str = "0f8fad5b-d9cb-469f-a165-70867728950e";
const V1_ID: &str = "c232ab00-9414-11ec-b3c8-9f68deced846";

fn hash_of(c: char) -> String {
    std::iter::repeat(c).take(64).collect()
}

fn envelope() -> EventEnvelope {
    EventEnvelope {
        event_id: V4_ID.to_string(),
        timestamp: "2024-03-07T10:15:30Z".to_string(),
        source: "test-src".to_string(),
        app: "test-app".to_string(),
        content_pointer: "/tmp/vyaso_mem_test.txt".to_string(),
        content_hash: format!("{}{}", "0123456789abcdef".repeat(3), "0123456789abcdef"),
        size_bytes: 11,
        tags: vec!["x".to_string()],
        privacy_flag: PrivacyFlag::Default,
    }
}

#[test]
fn valid_envelope_passes() {
    assert_eq!(envelope().validate(), Ok(()));
}

#[test]
fn event_id_not_a_uuid_is_rejected() {
    let mut e = envelope();
    e.event_id = "not-a-uuid".to_string();
    assert_eq!(e.validate(), Err("event_id must be a valid uuid".to_string()));
    let r = admit_event(Some("vscode"), &e).unwrap_err();
    assert_eq!(r.status(), 400);
}

#[test]
fn event_id_of_another_version_is_rejected() {
    let mut e = envelope();
    e.event_id = V1_ID.to_string();
    assert_eq!(e.validate(), Err("event_id must be uuid v4".to_string()));
    assert_eq!(admit_event(Some("vscode"), &e).unwrap_err().status(), 400);
}

#[test]
fn timestamp_must_be_rfc3339() {
    let mut e = envelope();
    e.timestamp = "yesterday".to_string();
    assert_eq!(e.validate(), Err("timestamp must be RFC3339".to_string()));
}

#[test]
fn blank_source_and_app_are_rejected() {
    let mut e = envelope();
    e.source = " \t".to_string();
    assert_eq!(e.validate(), Err("source must be non-empty".to_string()));
    let mut e = envelope();
    e.app = String::new();
    assert_eq!(e.validate(), Err("app must be non-empty".to_string()));
}

#[test]
fn content_hash_of_63_characters_is_rejected() {
    let mut e = envelope();
    e.content_hash = hash_of('a')[..63].to_string();
    assert_eq!(e.validate(), Err("content_hash must be 64 hex characters (sha256)".to_string()));
    assert_eq!(admit_event(Some("vscode"), &e).unwrap_err().status(), 400);
}

#[test]
fn content_hash_with_non_hex_character_is_rejected() {
    let mut e = envelope();
    e.content_hash = format!("{}g", &hash_of('a')[..63]);
    assert_eq!(e.validate(), Err("content_hash must be 64 hex characters (sha256)".to_string()));
    let mut e = envelope();
    e.content_hash = hash_of('A');
    assert!(e.validate().is_err());
}

#[test]
fn content_pointer_of_4097_characters_is_rejected() {
    let mut e = envelope();
    e.content_pointer = "p".repeat(4097);
    assert_eq!(e.validate(), Err("content_pointer too long".to_string()));
    assert_eq!(admit_event(Some("vscode"), &e).unwrap_err().status(), 400);
    e.content_pointer = "p".repeat(4096);
    assert_eq!(e.validate(), Ok(()));
}

#[test]
fn empty_content_pointer_is_accepted() {
    let mut e = envelope();
    e.content_pointer = String::new();
    assert_eq!(e.validate(), Ok(()));
}

#[test]
fn check_fields_uses_the_given_parse_results() {
    let e = envelope();
    assert_eq!(e.check_fields(Some(4), true), Ok(()));
    assert_eq!(e.check_fields(None, true), Err("event_id must be a valid uuid".to_string()));
    assert_eq!(e.check_fields(Some(7), true), Err("event_id must be uuid v4".to_string()));
    assert_eq!(e.check_fields(Some(4), false), Err("timestamp must be RFC3339".to_string()));
}

#[test]
fn client_header_is_checked() {
    let missing = validate_client(None).unwrap_err();
    assert_eq!(missing.status(), 401);
    assert_eq!(missing.message(), "missing X-Vyaso-Local-Client");
    let unknown = validate_client(Some("unknown")).unwrap_err();
    assert_eq!(unknown.status(), 403);
    assert_eq!(unknown.message(), "client not allowed");
    assert!(validate_client(Some("vscode")).is_ok());
    assert!(validate_client(Some("browser-extension")).is_ok());
    assert!(validate_client(Some("desktop-app")).is_ok());
}

#[test]
fn unauthorized_event_submission() {
    let e = envelope();
    assert_eq!(admit_event(None, &e).unwrap_err().status(), 401);
    assert_eq!(admit_event(Some("unknown"), &e).unwrap_err().status(), 403);
    assert!(admit_event(Some("desktop-app"), &e).is_ok());
}

#[test]
fn lookup_requires_a_uuid_v4() {
    assert!(admit_lookup(Some("vscode"), V4_ID).is_ok());
    let e = admit_lookup(Some("vscode"), "abc").unwrap_err();
    assert_eq!(e.status(), 400);
    assert_eq!(e.message(), "event_id must be uuid v4");
    assert_eq!(admit_lookup(None, V4_ID).unwrap_err().status(), 401);
}

fn request() -> PurgeRequest {
    PurgeRequest {
        event_ids: Some(vec![V4_ID.to_string()]),
        start: Some("2024-01-01T00:00:00Z".to_string()),
        end: None,
        app: Some("purge-app".to_string()),
        source: None,
        privacy_flag: Some(PrivacyFlag::NeverStore),
    }
}

#[test]
fn purge_request_becomes_criteria() {
    let c = admit_purge(Some("vscode"), &request()).unwrap();
    assert_eq!(c.event_ids, Some(vec![V4_ID.to_string()]));
    assert_eq!(c.start.as_deref(), Some("2024-01-01T00:00:00Z"));
    assert_eq!(c.end, None);
    assert_eq!(c.app.as_deref(), Some("purge-app"));
    assert_eq!(c.source, None);
    assert_eq!(c.privacy_flag.as_deref(), Some("never_store"));
}

#[test]
fn purge_request_validation_errors() {
    let mut r = request();
    r.event_ids = Some(vec![V4_ID.to_string(), V1_ID.to_string()]);
    let e = admit_purge(Some("vscode"), &r).unwrap_err();
    assert_eq!(e.status(), 400);
    assert_eq!(e.message(), "invalid event_id in list");
    let mut r = request();
    r.start = Some("soon".to_string());
    assert_eq!(admit_purge(Some("vscode"), &r).unwrap_err().message(), "start must be RFC3339");
    let mut r = request();
    r.end = Some("later".to_string());
    assert_eq!(admit_purge(Some("vscode"), &r).unwrap_err().message(), "end must be RFC3339");
    assert!(matches!(admit_purge(None, &request()), Err(ApiError::MissingClient)));
}

#[test]
fn privacy_flag_text_round_trips() {
    for f in [PrivacyFlag::Default, PrivacyFlag::Sensitive, PrivacyFlag::NeverStore] {
        assert_eq!(PrivacyFlag::from_text(f.label()), f);
    }
    assert_eq!(PrivacyFlag::Sensitive.label(), "sensitive");
    assert_eq!(PrivacyFlag::from_text("bogus"), PrivacyFlag::Default);
}
