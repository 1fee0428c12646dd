//! Jira: the account configuration and the shape of its issues.

use vstd::prelude::*;
use crate::color::color_named;
use crate::config::{Defaults, IssueTaskRepository};
use crate::providers::common::credentials::{CredentialKeyringEntry, HasSecretToken};

verus! {

/// The answer of a Jira search.
#[derive(Debug, Clone)]
pub struct JiraResult {
    pub issues: Vec<JiraIssue>,
}

/// An issue as Jira reports it.
#[derive(Debug, Clone)]
pub struct JiraIssue {
    /// The key of the issue, such as `PROJ-123`.
    pub id: String,
    /// The address of the issue.
    pub url: String,
    pub fields: Option<JiraFields>,
}

/// The fields of a Jira issue that are read.
#[derive(Debug, Clone)]
pub struct JiraFields {
    pub summary: String,
    pub description: Option<JiraDescription>,
    pub labels: Option<Vec<String>>,
    pub issuetype: Option<JiraIssueType>,
}

/// The type of a Jira issue, such as `Task`.
#[derive(Debug, Clone)]
pub struct JiraIssueType {
    pub name: String,
}

/// The description of a Jira issue: a document of blocks.
#[derive(Debug, Clone)]
pub struct JiraDescription {
    pub content: Vec<JiraDescriptionContent>,
}

/// One block of a description.
#[derive(Debug, Clone)]
pub struct JiraDescriptionContent {
    pub content: Vec<JiraDescriptionContentItem>,
}

/// One run of text in a block.
#[derive(Debug, Clone)]
pub struct JiraDescriptionContentItem {
    pub text: String,
}

/// One Jira account and the projects read through it.
#[derive(Debug, Clone)]
pub struct JiraConfig {
    pub credential: Option<CredentialKeyringEntry>,
    /// The address of the Jira instance.
    pub endpoint: String,
    /// A name for the account, used in messages.
    pub provider_id: String,
    pub projects: Vec<JiraProject>,
}

impl HasSecretToken for JiraConfig {
    open spec fn provider_id_view(&self) -> Seq<char> {
        self.provider_id@
    }

    open spec fn credential_view(&self) -> Option<CredentialKeyringEntry> {
        self.credential
    }

    fn task_provider_id(&self) -> (id: String) {
        self.provider_id.clone()
    }

    fn credential(&self) -> (entry: Option<&CredentialKeyringEntry>) {
        self.credential.as_ref()
    }
}

/// One project of a Jira account.
#[derive(Debug, Clone)]
pub struct JiraProject {
    /// The id of the project, unique across the whole configuration.
    pub id: String,
    /// The name of the colour in which the project is shown.
    pub color: String,
    /// The key of the project, such as `PROJ`.
    pub project_key: String,
    /// The type given to issues that are created.
    pub default_issue_type: String,
    /// The id of the transition that closes an issue of this project.
    pub close_transition_id: String,
    pub defaults: Option<Defaults>,
    /// A JQL fragment that narrows the issues that are listed.
    pub filter: Option<String>,
}

impl IssueTaskRepository for JiraProject {
    open spec fn id_view(&self) -> Seq<char> {
        self.id@
    }

    open spec fn defaults_view(&self) -> Option<Defaults> {
        self.defaults
    }

    open spec fn color_name_view(&self) -> Seq<char> {
        self.color@
    }

    fn defaults(&self) -> (d: Option<Defaults>) {
        self.defaults
    }

    fn id(&self) -> (s: String) {
        self.id.clone()
    }

    fn color(&self) -> (c: Option<colored::Color>) {
        color_named(self.color.as_str())
    }
}

} // verus!
