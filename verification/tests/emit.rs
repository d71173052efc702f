use base64::Engine;

use buzz_import::emit::{
    build_event, dedup_filter, event_id, events_reply_outcome, events_response, events_url,
    existing_item_id, first_event, import_keys, nip98_auth, nip98_header, nip98_tags,
    normalize_relay_url, outcome_for, parse_tags, query_response, query_url, reply_event,
    reply_plan, reply_tags, status_line, EventsReply, MESSAGE_KIND, NIP98_KIND,
};
use buzz_import::error::{ExitCode, ImportError};
use buzz_import::identity::IdentityMap;
use buzz_import::jira::{JiraComment, JiraIssue};
use buzz_import::status_map::StatusMap;
use buzz_import::transform::{build_item, AttachmentRef, ItemPayload};

const SECRET: &str = "0000000000000000000000000000000000000000000000000000000000000001";

fn s(x: &str) -> String {
    x.to_string()
}

fn tag(parts: &[&str]) -> Vec<String> {
    parts.iter().map(|p| p.to_string()).collect()
}

fn kind_and_message(e: &ImportError) -> (ExitCode, String) {
    match e {
        ImportError::Input(m) => (ExitCode::Input, m.clone()),
        ImportError::Network(m) => (ExitCode::Network, m.clone()),
        ImportError::Auth(m) => (ExitCode::Auth, m.clone()),
        ImportError::WriteConflict(m) => (ExitCode::WriteConflict, m.clone()),
        ImportError::Other(m) => (ExitCode::Other, m.clone()),
    }
}

#[test]
fn kinds_are_fixed() {
    assert_eq!(MESSAGE_KIND, 9);
    assert_eq!(NIP98_KIND, 27235);
}

#[test]
fn relay_url_loses_trailing_slashes() {
    assert_eq!(normalize_relay_url("https://relay.example//"), "https://relay.example");
    assert_eq!(normalize_relay_url("https://relay.example"), "https://relay.example");
    assert_eq!(normalize_relay_url("https://relay.example/api/"), "https://relay.example/api");
    assert_eq!(normalize_relay_url("///"), "");
    assert_eq!(normalize_relay_url(""), "");
    assert_eq!(events_url("https://r.example"), "https://r.example/events");
    assert_eq!(query_url("https://r.example"), "https://r.example/query");
}

#[test]
fn dedup_filter_has_kinds_and_key_tag() {
    let f = dedup_filter("UFX-12");
    assert_eq!(f.kinds, vec![9u16]);
    assert_eq!(f.hashtag, "jira:UFX-12");
    assert_eq!(f.limit, 1);
}

#[test]
fn dedup_tag_matches_built_root_tag() {
    let issue = JiraIssue {
        key: s("UFX-12"),
        summary: s("s"),
        description: s("d"),
        issue_type: s("Bug"),
        status: s("Open"),
        assignee_account_id: None,
        reporter_account_id: None,
        labels: vec![],
        components: vec![],
        epic_key: None,
        epic_name: None,
        created: s("2026-01-01"),
        comments: vec![JiraComment {
            author_account_id: None,
            author_display: s("A"),
            created: s("2026-01-02"),
            body: s("c"),
        }],
        attachments: vec![],
    };
    let p = build_item(&issue, "chan", &IdentityMap::default(), &StatusMap::default());
    let f = dedup_filter(&issue.key);
    assert!(p.root_tags.contains(&vec![s("t"), f.hashtag.clone()]));
    let plan = reply_plan(&p, "root-id").unwrap().unwrap();
    assert_eq!(plan.1, vec![tag(&["h", "chan"]), tag(&["e", "root-id", "", "root"])]);
}

#[test]
fn reply_tags_copy_first_channel_tag() {
    let root = vec![tag(&["t", "x"]), tag(&["h", "c1"]), tag(&["h", "c2"])];
    let r = reply_tags(&root, "abc").unwrap();
    assert_eq!(r, vec![tag(&["h", "c1"]), tag(&["e", "abc", "", "root"])]);
}

#[test]
fn reply_tags_without_channel_fail() {
    let root = vec![tag(&["t", "x"]), vec![], tag(&["hh", "c"])];
    let e = reply_tags(&root, "abc").unwrap_err();
    assert_eq!(
        kind_and_message(&e),
        (ExitCode::Other, s("root tags missing h (channel) tag"))
    );
}

fn payload(history: Option<&str>, tags: Vec<Vec<String>>) -> ItemPayload {
    ItemPayload {
        root_body: s("body"),
        root_tags: tags,
        history_reply: history.map(s),
        attachments: vec![AttachmentRef {
            filename: s("f"),
            mime_type: s("m"),
            source_url: s("u"),
        }],
        seed_state: Some(s("ready")),
    }
}

#[test]
fn outcome_counts_reply_and_attachments() {
    let with = outcome_for(&payload(Some("h"), vec![tag(&["h", "c"])]), s("id1"));
    assert_eq!(with.item_id, "id1");
    assert_eq!(with.comments, 1);
    assert_eq!(with.attachments, 1);
    assert_eq!(with.seeded_state.as_deref(), Some("ready"));
    let without = outcome_for(&payload(None, vec![tag(&["h", "c"])]), s("id2"));
    assert_eq!(without.comments, 0);
}

#[test]
fn reply_plan_cases() {
    assert!(reply_plan(&payload(None, vec![]), "id").unwrap().is_none());
    let (body, tags) = reply_plan(&payload(Some("hist"), vec![tag(&["h", "c"])]), "id")
        .unwrap()
        .unwrap();
    assert_eq!(body, "hist");
    assert_eq!(tags, vec![tag(&["h", "c"]), tag(&["e", "id", "", "root"])]);
    let e = reply_plan(&payload(Some("hist"), vec![tag(&["t", "x"])]), "id").unwrap_err();
    assert_eq!(kind_and_message(&e).0, ExitCode::Other);
}

#[test]
fn status_lines() {
    assert_eq!(status_line(404), "404 Not Found");
    assert_eq!(status_line(500), "500 Internal Server Error");
    assert_eq!(status_line(599), "599 <unknown status code>");
    assert_eq!(status_line(100), "100 Continue");
}

fn sample_event() -> nostr::Event {
    let keys = import_keys(SECRET).unwrap();
    build_event(&keys, "x", &vec![tag(&["h", "c"])]).unwrap()
}

#[test]
fn events_response_by_status() {
    let ev = sample_event();
    let conflict = events_response(409, "dup", &ev).unwrap_err();
    assert_eq!(kind_and_message(&conflict), (ExitCode::WriteConflict, s("dup")));
    let forbidden = events_response(403, "no", &ev).unwrap_err();
    assert_eq!(kind_and_message(&forbidden), (ExitCode::Auth, s("no")));
    let unauthorized = events_response(401, "who", &ev).unwrap_err();
    assert_eq!(kind_and_message(&unauthorized), (ExitCode::Auth, s("who")));
    let server = events_response(500, "boom", &ev).unwrap_err();
    assert_eq!(
        kind_and_message(&server),
        (ExitCode::Network, s("POST /events 500 Internal Server Error: boom"))
    );
    let redirect = events_response(302, "", &ev).unwrap_err();
    assert_eq!(
        kind_and_message(&redirect),
        (ExitCode::Network, s("POST /events 302 Found: "))
    );
}

#[test]
fn events_response_by_reply() {
    let ev = sample_event();
    let own = ev.id.to_hex();
    assert_eq!(event_id(&ev), own);
    assert_eq!(own.len(), 64);
    assert_eq!(
        events_response(200, r#"{"accepted":true,"event_id":"abc"}"#, &ev).unwrap(),
        "abc"
    );
    assert_eq!(events_response(201, r#"{"event_id":"xyz"}"#, &ev).unwrap(), "xyz");
    assert_eq!(events_response(200, "{}", &ev).unwrap(), own);
    assert_eq!(events_response(200, r#"{"event_id":7}"#, &ev).unwrap(), own);
    assert_eq!(events_response(200, r#"{"event_id":""}"#, &ev).unwrap(), own);
    let rejected =
        events_response(200, r#"{"accepted":false,"event_id":"abc"}"#, &ev).unwrap_err();
    assert_eq!(
        kind_and_message(&rejected),
        (ExitCode::WriteConflict, s(r#"{"accepted":false,"event_id":"abc"}"#))
    );
    let garbage = events_response(200, "not json", &ev).unwrap_err();
    let (k, m) = kind_and_message(&garbage);
    assert_eq!(k, ExitCode::Other);
    assert!(m.starts_with("parse /events response: "));
}

#[test]
fn events_reply_outcome_exact() {
    let ok = events_reply_outcome(
        "t",
        Ok(EventsReply { accepted: None, event_id: Some(s("e1")) }),
        "own",
    );
    assert_eq!(ok.unwrap(), "e1");
    let fallback = events_reply_outcome(
        "t",
        Ok(EventsReply { accepted: Some(true), event_id: None }),
        "own",
    );
    assert_eq!(fallback.unwrap(), "own");
    let bad = events_reply_outcome("t", Err(s("oops")), "own").unwrap_err();
    assert_eq!(
        kind_and_message(&bad),
        (ExitCode::Other, s("parse /events response: oops"))
    );
}

#[test]
fn query_response_cases() {
    let e = query_response(404, "missing").unwrap_err();
    assert_eq!(
        kind_and_message(&e),
        (ExitCode::Network, s("POST /query 404 Not Found: missing"))
    );
    let empty = query_response(200, "[]").unwrap();
    assert_eq!(existing_item_id(&empty), None);
    assert!(first_event(empty).is_none());
    let found = query_response(200, r#"[{"id":"e1","kind":9},{"id":"e2"}]"#).unwrap();
    assert_eq!(found.ids, vec![Some(s("e1")), Some(s("e2"))]);
    assert_eq!(existing_item_id(&found), Some(s("e1")));
    let first = first_event(found).unwrap();
    assert_eq!(first["kind"], 9);
    let no_id = query_response(200, r#"[{"kind":9}]"#).unwrap();
    assert_eq!(existing_item_id(&no_id), None);
    assert!(first_event(no_id).is_some());
    let bad = query_response(200, "{").unwrap_err();
    let (k, m) = kind_and_message(&bad);
    assert_eq!(k, ExitCode::Other);
    assert!(m.starts_with("parse /query response: "));
    let object = query_response(200, r#"{"id":"x"}"#).unwrap_err();
    assert_eq!(kind_and_message(&object).0, ExitCode::Other);
}

#[test]
fn parse_tags_refuses_empty_tag() {
    let ok = parse_tags(&vec![tag(&["t", "a"]), tag(&["h"])]).unwrap();
    assert_eq!(ok.len(), 2);
    assert_eq!(ok[0].as_slice(), &[s("t"), s("a")]);
    let e = parse_tags(&vec![tag(&["t", "a"]), vec![]]).unwrap_err();
    let (k, m) = kind_and_message(&e);
    assert_eq!(k, ExitCode::Other);
    assert!(m.starts_with("invalid tag: "));
}

#[test]
fn keys_parse_or_fail_with_auth() {
    assert!(import_keys(SECRET).is_ok());
    let e = import_keys("not-a-key").unwrap_err();
    let (k, m) = kind_and_message(&e);
    assert_eq!(k, ExitCode::Auth);
    assert!(m.starts_with("invalid BUZZ_PRIVATE_KEY: "));
}

#[test]
fn build_event_signs_message() {
    let keys = import_keys(SECRET).unwrap();
    let ev = build_event(&keys, "hello", &vec![tag(&["h", "c"]), tag(&["t", "jira:X-1"])]).unwrap();
    assert_eq!(ev.content, "hello");
    assert_eq!(ev.kind.as_u16(), 9);
    assert_eq!(ev.pubkey, keys.public_key());
    let parts: Vec<Vec<String>> = ev.tags.iter().map(|t| t.as_slice().to_vec()).collect();
    assert_eq!(parts, vec![tag(&["h", "c"]), tag(&["t", "jira:X-1"])]);
    assert!(ev.verify().is_ok());
    let me = keys.public_key().to_hex();
    let selfish = build_event(&keys, "", &vec![tag(&["p", &me]), tag(&["p", "other"])]).unwrap();
    let parts: Vec<Vec<String>> = selfish.tags.iter().map(|t| t.as_slice().to_vec()).collect();
    assert_eq!(parts, vec![tag(&["p", "other"])]);
    let e = build_event(&keys, "hello", &vec![vec![]]).unwrap_err();
    assert!(kind_and_message(&e).1.starts_with("invalid tag: "));
}

#[test]
fn nip98_tag_layout() {
    let with_body = nip98_tags("https://r/events", "POST", "n-1", Some("abcd"));
    assert_eq!(
        with_body,
        vec![
            tag(&["u", "https://r/events"]),
            tag(&["method", "POST"]),
            tag(&["nonce", "n-1"]),
            tag(&["payload", "abcd"]),
        ]
    );
    let without = nip98_tags("u", "GET", "n", None);
    assert_eq!(without.len(), 3);
}

#[test]
fn nip98_header_is_base64_of_json() {
    assert_eq!(nip98_header("{}"), "Nostr e30=");
    assert_eq!(nip98_header("Man"), "Nostr TWFu");
    assert_eq!(nip98_header("Ma"), "Nostr TWE=");
    assert_eq!(nip98_header("M"), "Nostr TQ==");
    assert_eq!(nip98_header(""), "Nostr ");
    assert_eq!(nip98_header("?>~"), "Nostr Pz5+");
}

#[test]
fn nip98_auth_signs_request() {
    let keys = import_keys(SECRET).unwrap();
    let h = nip98_auth(&keys, "POST", "https://r.example/events", Some(b"")).unwrap();
    assert!(h.starts_with("Nostr "));
    let json = base64::engine::general_purpose::STANDARD
        .decode(&h["Nostr ".len()..])
        .unwrap();
    let v: serde_json::Value = serde_json::from_slice(&json).unwrap();
    assert_eq!(v["kind"], 27235);
    assert_eq!(v["content"], "");
    assert_eq!(v["pubkey"], keys.public_key().to_hex());
    let tags = v["tags"].as_array().unwrap();
    assert_eq!(tags[0], serde_json::Value::from(vec!["u", "https://r.example/events"]));
    assert_eq!(tags[1], serde_json::Value::from(vec!["method", "POST"]));
    assert_eq!(tags[2][0], "nonce");
    assert_eq!(tags[2][1].as_str().unwrap().len(), 36);
    assert_eq!(
        tags[3],
        serde_json::Value::from(vec![
            "payload",
            "e3b0c44298fc1c149afbf4c8996fb92427ae41e4649b934ca495991b7852b855"
        ])
    );
    let no_body = nip98_auth(&keys, "GET", "https://r.example/query", None).unwrap();
    let json = base64::engine::general_purpose::STANDARD
        .decode(&no_body["Nostr ".len()..])
        .unwrap();
    let v: serde_json::Value = serde_json::from_slice(&json).unwrap();
    assert_eq!(v["tags"].as_array().unwrap().len(), 3);
}

#[test]
fn reply_event_signs_history() {
    let keys = import_keys(SECRET).unwrap();
    let none = reply_event(&keys, &payload(None, vec![tag(&["h", "c"])]), "root").unwrap();
    assert!(none.is_none());
    let ev = reply_event(&keys, &payload(Some("hist"), vec![tag(&["t", "x"]), tag(&["h", "c"])]), "root")
        .unwrap()
        .unwrap();
    assert_eq!(ev.kind.as_u16(), 9);
    assert_eq!(ev.content, "hist");
    let parts: Vec<Vec<String>> = ev.tags.iter().map(|t| t.as_slice().to_vec()).collect();
    assert_eq!(parts, vec![tag(&["h", "c"]), tag(&["e", "root", "", "root"])]);
    let e = reply_event(&keys, &payload(Some("hist"), vec![tag(&["t", "x"])]), "root").unwrap_err();
    assert_eq!(
        kind_and_message(&e),
        (ExitCode::Other, s("root tags missing h (channel) tag"))
    );
}
