use buzz_import::import_run::{ImportRun, RunEvent, RunStep};

fn drive_with(
    products: usize,
    dry_run: bool,
    issues: &[usize],
    existing: &[&[bool]],
    done: &[&[bool]],
) -> Vec<RunStep> {
    let mut run = ImportRun::start(products, dry_run);
    let mut steps = vec![run.step];
    loop {
        let event = match run.step {
            RunStep::Fetch { product } => RunEvent::Fetched { issues: issues[product] },
            RunStep::Check { product, issue } => RunEvent::Checked {
                on_relay: existing[product][issue],
                done: done[product][issue],
            },
            RunStep::Emit { .. } => RunEvent::Emitted,
            RunStep::Record { .. } => RunEvent::Recorded,
            RunStep::Finish => break,
        };
        run = run.advance(event);
        steps.push(run.step);
    }
    steps
}

fn drive(products: usize, issues: &[usize], existing: &[&[bool]]) -> Vec<RunStep> {
    let none: Vec<Vec<bool>> = existing.iter().map(|e| vec![false; e.len()]).collect();
    let done: Vec<&[bool]> = none.iter().map(|v| v.as_slice()).collect();
    drive_with(products, false, issues, existing, &done)
}

#[test]
fn no_products_finishes_at_once() {
    assert_eq!(drive(0, &[], &[]), vec![RunStep::Finish]);
}

#[test]
fn existing_issue_is_skipped_and_new_one_emitted() {
    let steps = drive(2, &[2, 0], &[&[true, false], &[]]);
    assert_eq!(
        steps,
        vec![
            RunStep::Fetch { product: 0 },
            RunStep::Check { product: 0, issue: 0 },
            RunStep::Check { product: 0, issue: 1 },
            RunStep::Emit { product: 0, issue: 1 },
            RunStep::Record { product: 0, issue: 1 },
            RunStep::Fetch { product: 1 },
            RunStep::Finish,
        ]
    );
}

#[test]
fn rerun_with_everything_imported_emits_nothing() {
    let steps = drive(1, &[3], &[&[true, true, true]]);
    assert!(steps.iter().all(|s| !matches!(s, RunStep::Emit { .. })));
    assert_eq!(steps.last(), Some(&RunStep::Finish));
}

#[test]
fn every_emit_is_recorded() {
    let steps = drive(1, &[2], &[&[false, false]]);
    for w in steps.windows(2) {
        if let RunStep::Emit { product, issue } = w[0] {
            assert_eq!(w[1], RunStep::Record { product, issue });
        }
    }
    assert_eq!(steps.len(), 8);
}

#[test]
fn ledger_done_issue_is_skipped_on_restart() {
    let steps = drive_with(1, false, &[2], &[&[false, false]], &[&[true, false]]);
    assert_eq!(
        steps,
        vec![
            RunStep::Fetch { product: 0 },
            RunStep::Check { product: 0, issue: 0 },
            RunStep::Check { product: 0, issue: 1 },
            RunStep::Emit { product: 0, issue: 1 },
            RunStep::Record { product: 0, issue: 1 },
            RunStep::Finish,
        ]
    );
}

#[test]
fn dry_run_records_nothing() {
    let steps = drive_with(1, true, &[2], &[&[false, false]], &[&[false, false]]);
    assert_eq!(
        steps,
        vec![
            RunStep::Fetch { product: 0 },
            RunStep::Check { product: 0, issue: 0 },
            RunStep::Emit { product: 0, issue: 0 },
            RunStep::Check { product: 0, issue: 1 },
            RunStep::Emit { product: 0, issue: 1 },
            RunStep::Finish,
        ]
    );
    let run = ImportRun::start(3, true);
    assert!(run.dry_run);
}
