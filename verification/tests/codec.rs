use reochat::codec::{
    advance_sync_token, initial_session_document, load_session, parse_full_session,
    serialize_full_session,
};
use reochat::errors::SessionError;
use reochat::session::{ClientSession, FullSession, UserSession};

fn sample_session(sync_token: Option<&str>) -> FullSession {
    FullSession {
        client_session: ClientSession {
            homeserver: String::from("https://example.org"),
            db_path: String::from("data/AbCdEfG"),
            passphrase: String::from("0123456789abcdefghijklmnopqrstuv"),
        },
        user_session: UserSession {
            user_id: String::from("@alice:example.org"),
            device_id: String::from("DEVICE01"),
            access_token: String::from("syt_token_123"),
        },
        sync_token: sync_token.map(String::from),
    }
}

fn assert_sessions_equal(a: &FullSession, b: &FullSession) {
    assert_eq!(a.client_session.homeserver, b.client_session.homeserver);
    assert_eq!(a.client_session.db_path, b.client_session.db_path);
    assert_eq!(a.client_session.passphrase, b.client_session.passphrase);
    assert_eq!(a.user_session.user_id, b.user_session.user_id);
    assert_eq!(a.user_session.device_id, b.user_session.device_id);
    assert_eq!(a.user_session.access_token, b.user_session.access_token);
    assert_eq!(a.sync_token, b.sync_token);
}

#[test]
fn serialize_exact_document_with_token() {
    let doc = serialize_full_session(&sample_session(Some("s123_45_67")));
    assert_eq!(
        doc,
        "{\"client_session\":{\"homeserver\":\"https://example.org\",\
         \"db_path\":\"data/AbCdEfG\",\
         \"passphrase\":\"0123456789abcdefghijklmnopqrstuv\"},\
         \"user_session\":{\"user_id\":\"@alice:example.org\",\
         \"device_id\":\"DEVICE01\",\"access_token\":\"syt_token_123\"},\
         \"sync_token\":\"s123_45_67\"}"
    );
}

#[test]
fn serialize_omits_absent_token() {
    let doc = serialize_full_session(&sample_session(None));
    assert!(!doc.contains("sync_token"));
    assert!(doc.ends_with("\"access_token\":\"syt_token_123\"}}"));
}

#[test]
fn round_trip_with_token() {
    let fs = sample_session(Some("T0"));
    let doc = serialize_full_session(&fs);
    let back = parse_full_session(&doc).expect("the serialized document parses");
    assert_sessions_equal(&fs, &back);
}

#[test]
fn round_trip_without_token() {
    let fs = sample_session(None);
    let doc = serialize_full_session(&fs);
    let back = parse_full_session(&doc).expect("the serialized document parses");
    assert_sessions_equal(&fs, &back);
}

#[test]
fn round_trip_with_quotes_and_backslashes() {
    let mut fs = sample_session(Some("tok\"with\\stuff"));
    fs.user_session.access_token = String::from("a\"b\\c\"\"d\\\\e");
    fs.client_session.db_path = String::from("data\\sub\"dir");
    let doc = serialize_full_session(&fs);
    let back = parse_full_session(&doc).expect("escaped values parse back");
    assert_sessions_equal(&fs, &back);
}

#[test]
fn serialized_document_is_json_with_expected_fields() {
    let fs = sample_session(Some("T1"));
    let doc = serialize_full_session(&fs);
    let v: serde_json::Value = serde_json::from_str(&doc).expect("the document is valid JSON");
    assert_eq!(v["client_session"]["homeserver"], "https://example.org");
    assert_eq!(v["client_session"]["db_path"], "data/AbCdEfG");
    assert_eq!(
        v["client_session"]["passphrase"],
        "0123456789abcdefghijklmnopqrstuv"
    );
    assert_eq!(v["user_session"]["user_id"], "@alice:example.org");
    assert_eq!(v["user_session"]["device_id"], "DEVICE01");
    assert_eq!(v["user_session"]["access_token"], "syt_token_123");
    assert_eq!(v["sync_token"], "T1");
}

#[test]
fn escaped_document_is_json_serde_agrees() {
    let mut fs = sample_session(None);
    fs.user_session.access_token = String::from("a\"b\\c");
    let doc = serialize_full_session(&fs);
    let v: serde_json::Value = serde_json::from_str(&doc).expect("escapes are valid JSON");
    assert_eq!(v["user_session"]["access_token"], "a\"b\\c");
    assert_eq!(v.get("sync_token"), None);
}

#[test]
fn corrupt_documents_are_rejected() {
    for doc in [
        "",
        "{}",
        "not json at all",
        "{\"client_session\":{\"homeserver\":\"x\"}}",
        // a truncated but otherwise well-formed document
        "{\"client_session\":{\"homeserver\":\"h\",\"db_path\":\"d\",\"passphrase\":\"p\"},\
         \"user_session\":{\"user_id\":\"u\",\"device_id\":\"d\",\"access_token\":\"a\"}",
        // trailing garbage after the closing brace
        "{\"client_session\":{\"homeserver\":\"h\",\"db_path\":\"d\",\"passphrase\":\"p\"},\
         \"user_session\":{\"user_id\":\"u\",\"device_id\":\"d\",\"access_token\":\"a\"}}x",
    ] {
        match parse_full_session(doc) {
            Err(e) => assert_eq!(e, SessionError::SessionCorrupt),
            Ok(_) => panic!("a corrupt document must not parse: {doc}"),
        }
    }
}

#[test]
fn initial_document_has_no_cursor() {
    let fs = sample_session(None);
    let doc = initial_session_document(fs.client_session, fs.user_session);
    let back = parse_full_session(&doc).expect("the initial document parses");
    assert_eq!(back.sync_token, None);
    assert_eq!(back.user_session.user_id, "@alice:example.org");
}

#[test]
fn advance_sync_token_rewrites_only_the_cursor() {
    let fs = sample_session(Some("T0"));
    let doc = serialize_full_session(&fs);
    let doc2 = advance_sync_token(&doc, String::from("T1")).expect("a valid document advances");
    let back = parse_full_session(&doc2).expect("the advanced document parses");
    assert_eq!(back.sync_token.as_deref(), Some("T1"));
    assert_eq!(back.client_session.passphrase, fs.client_session.passphrase);
    assert_eq!(back.user_session.access_token, fs.user_session.access_token);
}

#[test]
fn advance_sync_token_sets_an_absent_cursor() {
    let doc = serialize_full_session(&sample_session(None));
    let doc2 = advance_sync_token(&doc, String::from("T0")).expect("a valid document advances");
    let back = parse_full_session(&doc2).expect("the advanced document parses");
    assert_eq!(back.sync_token.as_deref(), Some("T0"));
}

#[test]
fn loading_nothing_is_a_missing_session() {
    match load_session(None) {
        Err(e) => assert_eq!(e, SessionError::SessionMissing),
        Ok(_) => panic!("nothing stored, nothing to load"),
    }
}

#[test]
fn loading_a_stored_document_gives_the_session_back() {
    let doc = serialize_full_session(&sample_session(Some("T0")));
    let fs = load_session(Some(&doc)).expect("a stored document loads");
    assert_eq!(fs.sync_token.as_deref(), Some("T0"));
}

#[test]
fn loading_garbage_is_a_corrupt_session() {
    match load_session(Some("{broken")) {
        Err(e) => assert_eq!(e, SessionError::SessionCorrupt),
        Ok(_) => panic!("garbage must not load"),
    }
}

#[test]
fn advance_sync_token_rejects_corrupt_documents() {
    match advance_sync_token("{broken", String::from("T0")) {
        Err(e) => assert_eq!(e, SessionError::SessionCorrupt),
        Ok(_) => panic!("a corrupt document must not advance"),
    }
}
