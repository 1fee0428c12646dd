//! Microsoft To Do: the account configuration.

use vstd::prelude::*;
use crate::color::color_named;
use crate::config::{Defaults, IssueTaskRepository};

verus! {

/// A task of Microsoft To Do. None of its fields is read yet.
#[derive(Debug, Clone)]
pub struct O365Task {
}

/// One registered application and the lists read through it.
#[derive(Debug, Clone)]
pub struct O365Config {
    pub client_id: String,
    pub client_secret: String,
    pub todo_lists: Vec<O365TodoList>,
}

/// One list of a Microsoft To Do account.
#[derive(Debug, Clone)]
pub struct O365TodoList {
    /// The id of the list, unique across the whole configuration.
    pub id: String,
    /// The name of the colour in which the list is shown.
    pub color: String,
    /// The list as Microsoft To Do knows it.
    pub list_id: String,
    pub defaults: Option<Defaults>,
}

impl IssueTaskRepository for O365TodoList {
    open spec fn id_view(&self) -> Seq<char> {
        self.id@
    }

    open spec fn defaults_view(&self) -> Option<Defaults> {
        self.defaults
    }

    open spec fn color_name_view(&self) -> Seq<char> {
        self.color@
    }

    fn defaults(&self) -> (d: Option<Defaults>) {
        self.defaults
    }

    fn id(&self) -> (s: String) {
        self.id.clone()
    }

    fn color(&self) -> (c: Option<colored::Color>) {
        color_named(self.color.as_str())
    }
}

} // verus!
