//! GitLab: the account configuration and the shape of its issues.

use vstd::prelude::*;
use crate::color::color_named;
use crate::config::{Defaults, IssueTaskRepository};
use crate::providers::common::credentials::{CredentialKeyringEntry, HasSecretToken};

verus! {

/// One GitLab account and the projects read through it.
#[derive(Debug, Clone)]
pub struct GitLabConfig {
    pub credential: Option<CredentialKeyringEntry>,
    /// The address of the GitLab instance, such as `https://gitlab.com`.
    pub endpoint: String,
    /// A name for the account, used in messages.
    pub provider_id: String,
    pub repositories: Vec<GitLabRepository>,
}

impl HasSecretToken for GitLabConfig {
    open spec fn provider_id_view(&self) -> Seq<char> {
        self.provider_id@
    }

    open spec fn credential_view(&self) -> Option<CredentialKeyringEntry> {
        self.credential
    }

    fn task_provider_id(&self) -> (id: String) {
        self.provider_id.clone()
    }

    fn credential(&self) -> (entry: Option<&CredentialKeyringEntry>) {
        self.credential.as_ref()
    }
}

/// A label as GitLab reports it: its bare name.
#[derive(Debug, Clone)]
pub struct GitLabLabel(pub String);

/// An issue as GitLab reports it.
#[derive(Debug, Clone)]
pub struct GitLabIssue {
    pub iid: u32,
    pub title: String,
    pub web_url: String,
    pub labels: Vec<GitLabLabel>,
}

/// One project of a GitLab account.
#[derive(Debug, Clone)]
pub struct GitLabRepository {
    /// The id of the project, unique across the whole configuration.
    pub id: String,
    /// The name of the colour in which the project is shown.
    pub color: String,
    /// The project as GitLab knows it: its number, or its path with `/`
    /// written as `%2F`.
    pub project_id: String,
    pub defaults: Option<Defaults>,
    /// A query fragment that narrows the issues that are listed.
    pub filter: Option<String>,
}

impl IssueTaskRepository for GitLabRepository {
    open spec fn id_view(&self) -> Seq<char> {
        self.id@
    }

    open spec fn defaults_view(&self) -> Option<Defaults> {
        self.defaults
    }

    open spec fn color_name_view(&self) -> Seq<char> {
        self.color@
    }

    fn defaults(&self) -> (d: Option<Defaults>) {
        self.defaults
    }

    fn id(&self) -> (s: String) {
        self.id.clone()
    }

    fn color(&self) -> (c: Option<colored::Color>) {
        color_named(self.color.as_str())
    }
}

} // verus!
