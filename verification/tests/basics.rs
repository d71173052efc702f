use buzz_import::config::{
    default_ledger, default_selection_jql, default_true, Config, DedupMode, ProductMap, Throttle,
    Transport,
};
use buzz_import::error::{ExitCode, ImportError};
use buzz_import::identity::{IdentityMap, Person};
use buzz_import::status_map::StatusMap;
use buzz_import::text::{decimal, has_prefix, is_whitespace};

fn s(x: &str) -> String {
    x.to_string()
}

#[test]
fn exit_codes_follow_cli_convention() {
    assert_eq!(ExitCode::Success.status(), 0);
    assert_eq!(ImportError::Input(s("x")).exit_code(), ExitCode::Input);
    assert_eq!(ImportError::Input(s("x")).exit_code().status(), 1);
    assert_eq!(ImportError::Network(s("x")).exit_code().status(), 2);
    assert_eq!(ImportError::Auth(s("x")).exit_code().status(), 3);
    assert_eq!(ImportError::Other(s("x")).exit_code().status(), 4);
    assert_eq!(ImportError::WriteConflict(s("x")).exit_code().status(), 5);
    assert_eq!(ImportError::WriteConflict(s("x")).exit_code(), ExitCode::WriteConflict);
}

#[test]
fn error_messages() {
    assert_eq!(ImportError::Input(s("bad")).message(), "input error: bad");
    assert_eq!(ImportError::Network(s("down")).message(), "network/relay error: down");
    assert_eq!(ImportError::Auth(s("key")).message(), "auth error: key");
    assert_eq!(
        ImportError::WriteConflict(s("dup")).message(),
        "write conflict (NIP-33 LWW): dup"
    );
    assert_eq!(ImportError::Other(s("plain")).message(), "plain");
}

#[test]
fn config_defaults() {
    assert_eq!(default_selection_jql(), "statusCategory != Done ORDER BY created ASC");
    assert_eq!(default_ledger(), "import-ledger.jsonl");
    assert!(default_true());
    assert_eq!(DedupMode::default(), DedupMode::Req);
    assert_eq!(Transport::default(), Transport::Http);
    let t = Throttle::default();
    assert_eq!((t.concurrency, t.backoff_ms, t.max_retries), (2, 500, 5));
}

#[test]
fn config_new_and_workflow_ids() {
    let mut c = Config::new(
        vec![ProductMap { jira: s("UFX"), channel: s("chan") }],
        default_selection_jql(),
        s("ids.json"),
        s("status.json"),
        s("https://relay.example"),
        DedupMode::Postgres,
        Transport::Ws,
        Throttle::default(),
        false,
        default_ledger(),
    );
    c.set_workflow_id(s("In Progress"), s("uuid-1"));
    assert_eq!(c.products[0].jira, "UFX");
    assert_eq!(c.relay_url, "https://relay.example");
    assert_eq!(c.dedup, DedupMode::Postgres);
    assert_eq!(c.transport, Transport::Ws);
    assert!(!c.dry_run);
    assert_eq!(c.workflow_ids.get("In Progress").map(String::as_str), Some("uuid-1"));
}

#[test]
fn identity_lookup() {
    let mut m = IdentityMap::new();
    assert_eq!(m.pubkey("acct"), None);
    m.insert(s("acct"), Person { pubkey: s("pk1"), display: s("Ann") });
    m.insert(s("other"), Person { pubkey: s("pk2"), display: s("Ben") });
    assert_eq!(m.pubkey("acct"), Some("pk1"));
    assert_eq!(m.display("acct"), Some("Ann"));
    assert_eq!(m.display("missing"), None);
    m.insert(s("acct"), Person { pubkey: s("pk3"), display: s("Ann B") });
    assert_eq!(m.pubkey("acct"), Some("pk3"));
    assert_eq!(m.pubkey("other"), Some("pk2"));
    assert_eq!(IdentityMap::default().pubkey("acct"), None);
}

#[test]
fn status_lookup() {
    let mut m = StatusMap::default();
    assert_eq!(m.state("To Do"), None);
    m.insert(s("To Do"), s("backlog"));
    assert_eq!(m.state("To Do"), Some("backlog"));
    assert_eq!(m.state("to do"), None);
}

#[test]
fn text_helpers() {
    assert_eq!(decimal(0), "0");
    assert_eq!(decimal(404), "404");
    assert_eq!(decimal(18446744073709551615), "18446744073709551615");
    assert!(has_prefix("MVP LDN x", "MVP LDN"));
    assert!(has_prefix("abc", ""));
    assert!(!has_prefix("ab", "abc"));
    assert!(is_whitespace('\u{85}'));
    assert!(!is_whitespace('x'));
}
