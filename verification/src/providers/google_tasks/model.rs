//! Google Tasks: the account configuration and the shape of its tasks.

use vstd::prelude::*;
use crate::color::color_named;
use crate::config::{Defaults, IssueTaskRepository};
use crate::providers::common::credentials::{CredentialKeyringEntry, HasSecretToken};

verus! {

/// A label by its name. Google Tasks itself has no labels.
#[derive(Debug, Clone)]
pub struct GitHubLabel {
    pub name: String,
}

/// One Google account and the task lists read through it.
#[derive(Debug, Clone)]
pub struct GoogleTaskConfig {
    pub credential: Option<CredentialKeyringEntry>,
    /// The address of the API, such as `https://tasks.googleapis.com`.
    pub endpoint: String,
    /// A name for the account, used in messages.
    pub provider_id: String,
    pub tasklists: Vec<GoogleTaskList>,
}

impl HasSecretToken for GoogleTaskConfig {
    open spec fn provider_id_view(&self) -> Seq<char> {
        self.provider_id@
    }

    open spec fn credential_view(&self) -> Option<CredentialKeyringEntry> {
        self.credential
    }

    fn task_provider_id(&self) -> (id: String) {
        self.provider_id.clone()
    }

    fn credential(&self) -> (entry: Option<&CredentialKeyringEntry>) {
        self.credential.as_ref()
    }
}

/// One task list of a Google account.
#[derive(Debug, Clone)]
pub struct GoogleTaskList {
    pub id: String,
    pub title: String,
    /// The name of the colour in which the list is shown.
    pub color: String,
    pub defaults: Option<Defaults>,
}

/// A task as Google Tasks reports it.
#[derive(Debug, Clone)]
pub struct GoogleTask {
    pub id: String,
    pub title: String,
    /// The address of the task.
    pub url: String,
    pub notes: Option<String>,
    pub due: Option<String>,
    pub completed: Option<bool>,
}

impl IssueTaskRepository for GoogleTaskList {
    open spec fn id_view(&self) -> Seq<char> {
        self.id@
    }

    open spec fn defaults_view(&self) -> Option<Defaults> {
        self.defaults
    }

    open spec fn color_name_view(&self) -> Seq<char> {
        self.color@
    }

    fn defaults(&self) -> (d: Option<Defaults>) {
        self.defaults
    }

    fn id(&self) -> (s: String) {
        self.id.clone()
    }

    fn color(&self) -> (c: Option<colored::Color>) {
        color_named(self.color.as_str())
    }
}

} // verus!
