//! Verify stage: reconcile the Jira selection against what landed in Buzz.
//!
//! Meant to check counts (selected == ledger roots == `jira:`-tagged events),
//! tag presence, and that each item's workflow state matches its mapped Jira
//! status. The pass is not implemented yet and reports so.

use vstd::prelude::*;

use crate::error::{ExitCode, ImportError};
use crate::ledger::Ledger;

verus! {

/// Outcome of the verify pass.
#[derive(Debug, Clone)]
pub struct VerifyReport {
    pub selected: usize,
    pub migrated: usize,
    pub skipped: usize,
    pub failed: usize,
    pub mismatches: Vec<String>,
}

impl Default for VerifyReport {
    fn default() -> (r: Self)
        ensures
            r.selected == 0,
            r.migrated == 0,
            r.skipped == 0,
            r.failed == 0,
            r.mismatches@.len() == 0,
    {
        VerifyReport { selected: 0, migrated: 0, skipped: 0, failed: 0, mismatches: Vec::new() }
    }
}

/// Run the verify pass over the ledger. Not implemented yet: it always
/// reports that, as an error of the "other" kind.
pub fn run(_ledger: &Ledger, _selected: usize) -> (r: Result<VerifyReport, ImportError>)
    ensures
        r matches Err(e) && e@ == (ExitCode::Other, "verify::run not yet implemented"@),
{
    Err(ImportError::Other(String::from_str("verify::run not yet implemented")))
}

} // verus!
