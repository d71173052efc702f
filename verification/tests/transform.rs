use buzz_import::identity::{IdentityMap, Person};
use buzz_import::jira::{JiraAttachment, JiraComment, JiraIssue};
use buzz_import::status_map::StatusMap;
use buzz_import::transform::{assemble_item, build_item, region_for};

fn s(x: &str) -> String {
    x.to_string()
}

fn tag(parts: &[&str]) -> Vec<String> {
    parts.iter().map(|p| p.to_string()).collect()
}

fn live_issue() -> JiraIssue {
    JiraIssue {
        key: s("TEST-1"),
        summary: s("Live test story"),
        description: s("Body from the live test."),
        issue_type: s("Story"),
        status: s("To Do"),
        assignee_account_id: None,
        reporter_account_id: None,
        labels: vec![s("migrated")],
        components: vec![],
        epic_key: Some(s("MVP-LDN-1")),
        epic_name: Some(s("MVP LDN Swaps")),
        created: s("2026-07-01T09:00:00.000+0000"),
        comments: vec![JiraComment {
            author_account_id: None,
            author_display: s("Tester"),
            created: s("2026-07-02T10:00:00.000+0000"),
            body: s("First comment for history."),
        }],
        attachments: vec![],
    }
}

#[test]
fn region_from_epic_name() {
    assert_eq!(region_for(Some("MVP LDN Swaps")), "EMEA");
    assert_eq!(region_for(Some("MVP LDN")), "EMEA");
    assert_eq!(region_for(Some("MVP LD")), "Asia");
    assert_eq!(region_for(Some("mvp ldn swaps")), "Asia");
    assert_eq!(region_for(Some("Retail MVP LDN")), "Asia");
    assert_eq!(region_for(None), "Asia");
}

#[test]
fn live_issue_payload() {
    let p = build_item(&live_issue(), "chan-1", &IdentityMap::default(), &StatusMap::default());
    assert_eq!(
        p.root_tags,
        vec![
            tag(&["h", "chan-1"]),
            tag(&["t", "jira:TEST-1"]),
            tag(&["t", "type:story"]),
            tag(&["t", "region:EMEA"]),
            tag(&["t", "orig-created:2026-07-01T09:00:00.000+0000"]),
            tag(&["t", "epic:MVP-LDN-1"]),
            tag(&["t", "label:migrated"]),
        ]
    );
    assert_eq!(
        p.root_body,
        "[STORY] Live test story\n\nBody from the live test.\n\n---\njira: TEST-1\norig-created: 2026-07-01T09:00:00.000+0000"
    );
    assert_eq!(
        p.history_reply.as_deref(),
        Some("Imported Jira history - TEST-1\n\n---\norig-author: Tester - 2026-07-02T10:00:00.000+0000\nFirst comment for history.\n")
    );
    assert!(p.attachments.is_empty());
    assert_eq!(p.seed_state, None);
}

#[test]
fn mapped_assignee_gets_p_tag_and_state_is_seeded() {
    let mut issue = live_issue();
    issue.assignee_account_id = Some(s("acct-1"));
    issue.components = vec![s("backend")];
    issue.epic_key = None;
    issue.epic_name = Some(s("APAC launch"));
    let mut identity = IdentityMap::new();
    identity.insert(s("acct-1"), Person { pubkey: s("npub1alice"), display: s("Alice") });
    let mut status = StatusMap::new();
    status.insert(s("To Do"), s("backlog"));
    let p = build_item(&issue, "chan-2", &identity, &status);
    assert_eq!(
        p.root_tags,
        vec![
            tag(&["h", "chan-2"]),
            tag(&["t", "jira:TEST-1"]),
            tag(&["t", "type:story"]),
            tag(&["t", "region:Asia"]),
            tag(&["t", "orig-created:2026-07-01T09:00:00.000+0000"]),
            tag(&["t", "epic:none"]),
            tag(&["t", "label:migrated"]),
            tag(&["t", "label:backend"]),
            tag(&["p", "npub1alice"]),
        ]
    );
    assert_eq!(p.seed_state.as_deref(), Some("backlog"));
}

#[test]
fn unmapped_assignee_gets_no_p_tag() {
    let mut issue = live_issue();
    issue.assignee_account_id = Some(s("acct-unknown"));
    let mut identity = IdentityMap::new();
    identity.insert(s("acct-1"), Person { pubkey: s("npub1alice"), display: s("Alice") });
    let p = build_item(&issue, "chan-1", &identity, &StatusMap::default());
    assert!(p.root_tags.iter().all(|t| t[0] != "p"));
}

#[test]
fn no_comments_no_history_and_attachments_mapped() {
    let mut issue = live_issue();
    issue.comments = vec![];
    issue.attachments = vec![
        JiraAttachment {
            filename: s("a.png"),
            mime_type: s("image/png"),
            content_url: s("https://jira.example/a"),
        },
        JiraAttachment {
            filename: s("b.txt"),
            mime_type: s("text/plain"),
            content_url: s("https://jira.example/b"),
        },
    ];
    let p = build_item(&issue, "chan-1", &IdentityMap::default(), &StatusMap::default());
    assert_eq!(p.history_reply, None);
    assert_eq!(p.attachments.len(), 2);
    assert_eq!(p.attachments[0].filename, "a.png");
    assert_eq!(p.attachments[0].mime_type, "image/png");
    assert_eq!(p.attachments[0].source_url, "https://jira.example/a");
    assert_eq!(p.attachments[1].filename, "b.txt");
    assert_eq!(p.attachments[1].source_url, "https://jira.example/b");
}

#[test]
fn several_comments_in_order() {
    let mut issue = live_issue();
    issue.comments.push(JiraComment {
        author_account_id: Some(s("acct-2")),
        author_display: s("Bob"),
        created: s("2026-07-03"),
        body: s("Second."),
    });
    let p = build_item(&issue, "c", &IdentityMap::default(), &StatusMap::default());
    assert_eq!(
        p.history_reply.as_deref(),
        Some("Imported Jira history - TEST-1\n\n---\norig-author: Tester - 2026-07-02T10:00:00.000+0000\nFirst comment for history.\n\n---\norig-author: Bob - 2026-07-03\nSecond.\n")
    );
}

#[test]
fn issue_type_case_uses_unicode_mapping() {
    let mut issue = live_issue();
    issue.issue_type = s("Größe Änderung");
    let p = build_item(&issue, "c", &IdentityMap::default(), &StatusMap::default());
    assert_eq!(p.root_tags[2], tag(&["t", "type:größe änderung"]));
    assert!(p.root_body.starts_with("[GRÖSSE ÄNDERUNG] "));
}

#[test]
fn assemble_uses_given_case_forms() {
    let p = assemble_item(
        &live_issue(),
        "c",
        &IdentityMap::default(),
        &StatusMap::default(),
        "lower-form",
        "UPPER-FORM",
    );
    assert_eq!(p.root_tags[2], tag(&["t", "type:lower-form"]));
    assert!(p.root_body.starts_with("[UPPER-FORM] Live test story"));
}

#[test]
fn same_issue_same_payload() {
    let a = build_item(&live_issue(), "chan-1", &IdentityMap::default(), &StatusMap::default());
    let b = build_item(&live_issue(), "chan-1", &IdentityMap::default(), &StatusMap::default());
    assert_eq!(a.root_body, b.root_body);
    assert_eq!(a.root_tags, b.root_tags);
    assert_eq!(a.history_reply, b.history_reply);
}

#[test]
fn mapped_reporter_gets_p_tag() {
    let mut issue = live_issue();
    issue.reporter_account_id = Some(s("acct-r"));
    let mut identity = IdentityMap::new();
    identity.insert(s("acct-r"), Person { pubkey: s("npub1rep"), display: s("Rae") });
    let p = build_item(&issue, "chan-1", &identity, &StatusMap::default());
    assert_eq!(p.root_tags.last(), Some(&tag(&["p", "npub1rep"])));
}

#[test]
fn assignee_and_reporter_both_tagged_once_each() {
    let mut issue = live_issue();
    issue.assignee_account_id = Some(s("acct-a"));
    issue.reporter_account_id = Some(s("acct-r"));
    let mut identity = IdentityMap::new();
    identity.insert(s("acct-a"), Person { pubkey: s("pk-a"), display: s("A") });
    identity.insert(s("acct-r"), Person { pubkey: s("pk-r"), display: s("R") });
    let p = build_item(&issue, "c", &identity, &StatusMap::default());
    let ps: Vec<&Vec<String>> = p.root_tags.iter().filter(|t| t[0] == "p").collect();
    assert_eq!(ps, vec![&tag(&["p", "pk-a"]), &tag(&["p", "pk-r"])]);
    issue.reporter_account_id = Some(s("acct-a"));
    let q = build_item(&issue, "c", &identity, &StatusMap::default());
    assert_eq!(q.root_tags.iter().filter(|t| t[0] == "p").count(), 1);
}

#[test]
fn every_item_carries_an_epic_tag() {
    let mut issue = live_issue();
    issue.epic_key = None;
    issue.epic_name = None;
    let p = build_item(&issue, "c", &IdentityMap::default(), &StatusMap::default());
    assert_eq!(p.root_tags[5], tag(&["t", "epic:none"]));
    let q = build_item(&live_issue(), "c", &IdentityMap::default(), &StatusMap::default());
    assert_eq!(q.root_tags[5], tag(&["t", "epic:MVP-LDN-1"]));
}
