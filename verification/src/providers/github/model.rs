//! GitHub: the account configuration and the shape of its issues.

use vstd::prelude::*;
use crate::color::color_named;
use crate::config::{Defaults, IssueTaskRepository};
use crate::providers::common::credentials::{CredentialKeyringEntry, HasSecretToken};

verus! {

/// A label as GitHub reports it.
#[derive(Debug, Clone)]
pub struct GitHubLabel {
    pub name: String,
}

/// An issue as GitHub reports it.
#[derive(Debug, Clone)]
pub struct GitHubIssue {
    pub number: u32,
    pub title: String,
    pub html_url: String,
    pub labels: Vec<GitHubLabel>,
}

/// One GitHub account and the repositories read through it.
#[derive(Debug, Clone)]
pub struct GitHubConfig {
    pub credential: Option<CredentialKeyringEntry>,
    /// The address of the API, such as `https://api.github.com`.
    pub endpoint: String,
    /// A name for the account, used in messages.
    pub provider_id: String,
    pub repositories: Vec<GitHubRepository>,
}

impl HasSecretToken for GitHubConfig {
    open spec fn provider_id_view(&self) -> Seq<char> {
        self.provider_id@
    }

    open spec fn credential_view(&self) -> Option<CredentialKeyringEntry> {
        self.credential
    }

    fn task_provider_id(&self) -> (id: String) {
        self.provider_id.clone()
    }

    fn credential(&self) -> (entry: Option<&CredentialKeyringEntry>) {
        self.credential.as_ref()
    }
}

/// One repository of a GitHub account.
#[derive(Debug, Clone)]
pub struct GitHubRepository {
    /// The id of the repository, unique across the whole configuration.
    pub id: String,
    /// The name of the colour in which the repository is shown.
    pub color: String,
    /// The owner of the repository.
    pub owner: String,
    /// The name of the repository.
    pub repo: String,
    pub defaults: Option<Defaults>,
}

impl IssueTaskRepository for GitHubRepository {
    open spec fn id_view(&self) -> Seq<char> {
        self.id@
    }

    open spec fn defaults_view(&self) -> Option<Defaults> {
        self.defaults
    }

    open spec fn color_name_view(&self) -> Seq<char> {
        self.color@
    }

    fn defaults(&self) -> (d: Option<Defaults>) {
        self.defaults
    }

    fn id(&self) -> (s: String) {
        self.id.clone()
    }

    fn color(&self) -> (c: Option<colored::Color>) {
        color_named(self.color.as_str())
    }
}

} // verus!
