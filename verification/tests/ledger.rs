use buzz_import::emit::EmitOutcome;
use buzz_import::ledger::{done_entry, latest_entries, ledger_lines, marks_done, Entry, Ledger, Stage};
use buzz_import::verify;
use buzz_import::error::{ExitCode, ImportError};

fn s(x: &str) -> String {
    x.to_string()
}

fn entry(jira: &str, stage: Stage, comments: usize) -> Entry {
    Entry {
        jira: s(jira),
        buzz_item: None,
        stage,
        state: None,
        comments,
        attachments: 0,
    }
}

#[test]
fn lines_skip_blank_and_strip_crlf() {
    assert_eq!(
        ledger_lines("{\"a\":1}\r\n\n  \t\n{\"b\":2}\r\n{\"c\":3}"),
        vec![s("{\"a\":1}"), s("{\"b\":2}"), s("{\"c\":3}")]
    );
    assert_eq!(ledger_lines(""), Vec::<String>::new());
    assert_eq!(ledger_lines("\n\r\n \n"), Vec::<String>::new());
    assert_eq!(ledger_lines("x\r"), vec![s("x\r")]);
    assert_eq!(ledger_lines(" x \n"), vec![s(" x ")]);
    assert_eq!(ledger_lines("a\r\r\nb"), vec![s("a\r"), s("b")]);
    assert_eq!(ledger_lines("\u{a0}\u{3000}\nz"), vec![s("z")]);
}

#[test]
fn lines_match_std_lines_filter() {
    let text = "one\r\n\r\ntwo\n \u{2003}\nthree\r\nfour\r";
    let expected: Vec<String> = text
        .lines()
        .filter(|l| !l.trim().is_empty())
        .map(str::to_string)
        .collect();
    assert_eq!(ledger_lines(text), expected);
}

#[test]
fn last_write_wins() {
    let entries = vec![
        entry("A", Stage::Root, 0),
        entry("B", Stage::Done, 1),
        entry("A", Stage::Done, 2),
        entry("C", Stage::Failed, 0),
        entry("C", Stage::Comments, 3),
    ];
    let latest = latest_entries(&entries);
    let keys: Vec<&str> = latest.iter().map(|e| e.jira.as_str()).collect();
    assert_eq!(keys, vec!["B", "A", "C"]);
    assert_eq!(latest[1].stage, Stage::Done);
    assert_eq!(latest[1].comments, 2);
    assert_eq!(latest[2].stage, Stage::Comments);
    assert!(latest_entries(&vec![]).is_empty());
}

#[test]
fn duplicate_copies_every_field() {
    let e = Entry {
        jira: s("K-1"),
        buzz_item: Some(s("ev")),
        stage: Stage::State,
        state: Some(s("ready")),
        comments: 4,
        attachments: 5,
    };
    let d = e.duplicate();
    assert_eq!(d.jira, "K-1");
    assert_eq!(d.buzz_item.as_deref(), Some("ev"));
    assert_eq!(d.stage, Stage::State);
    assert_eq!(d.state.as_deref(), Some("ready"));
    assert_eq!((d.comments, d.attachments), (4, 5));
}

#[test]
fn done_entry_records_outcome() {
    let outcome = EmitOutcome {
        item_id: s("event-1"),
        comments: 1,
        attachments: 2,
        seeded_state: Some(s("in-progress")),
    };
    let e = done_entry("UFX-7", &outcome);
    assert_eq!(e.jira, "UFX-7");
    assert_eq!(e.buzz_item.as_deref(), Some("event-1"));
    assert_eq!(e.stage, Stage::Done);
    assert_eq!(e.state.as_deref(), Some("in-progress"));
    assert_eq!(e.comments, 1);
    assert_eq!(e.attachments, 2);
}

#[test]
fn ledger_open_keeps_path() {
    let l = Ledger::open("import-ledger.jsonl").unwrap();
    assert_eq!(l.path(), "import-ledger.jsonl");
}

#[test]
fn verify_pass_not_implemented() {
    let l = Ledger::open("x").unwrap();
    match verify::run(&l, 3) {
        Err(ImportError::Other(m)) => assert_eq!(m, "verify::run not yet implemented"),
        _ => panic!("expected the not-implemented error"),
    }
    let e = verify::run(&l, 0).unwrap_err();
    assert_eq!(e.exit_code(), ExitCode::Other);
}

#[test]
fn verify_report_default_is_empty() {
    let r = verify::VerifyReport::default();
    assert_eq!((r.selected, r.migrated, r.skipped, r.failed), (0, 0, 0, 0));
    assert!(r.mismatches.is_empty());
}

#[test]
fn done_entries_mark_items() {
    let entries = vec![entry("A", Stage::Root, 0), entry("B", Stage::Done, 1)];
    assert!(marks_done(&entries, "B"));
    assert!(!marks_done(&entries, "A"));
    assert!(!marks_done(&entries, "C"));
    assert!(!marks_done(&vec![], "B"));
}

#[test]
fn written_lines_read_back() {
    let lines = ["{\"jira\":\"A\"}", "{\"jira\":\"B\"}"];
    let mut text = String::new();
    for l in lines {
        text.push_str(l);
        text.push('\n');
    }
    assert_eq!(ledger_lines(&text), vec![s(lines[0]), s(lines[1])]);
    let with_blank = format!("{}  \n{}", "{\"jira\":\"A\"}\n", "{\"jira\":\"B\"}\n");
    assert_eq!(ledger_lines(&with_blank), ledger_lines(&text));
}
