//! Jira extract stage: the shape of the open issues pulled from Jira.
//!
//! Current status only; the full changelog is not fetched (no transition
//! replay).

use vstd::prelude::*;

verus! {

/// A single Jira issue in the open backlog.
#[derive(Debug, Clone)]
pub struct JiraIssue {
    pub key: String,
    pub summary: String,
    pub description: String,
    pub issue_type: String,
    pub status: String,
    pub assignee_account_id: Option<String>,
    pub reporter_account_id: Option<String>,
    pub labels: Vec<String>,
    pub components: Vec<String>,
    pub epic_key: Option<String>,
    pub epic_name: Option<String>,
    pub created: String,
    pub comments: Vec<JiraComment>,
    pub attachments: Vec<JiraAttachment>,
}

/// A Jira comment.
#[derive(Debug, Clone)]
pub struct JiraComment {
    pub author_account_id: Option<String>,
    pub author_display: String,
    pub created: String,
    pub body: String,
}

/// A Jira attachment reference.
#[derive(Debug, Clone)]
pub struct JiraAttachment {
    pub filename: String,
    pub mime_type: String,
    pub content_url: String,
}

} // verus!
