//! The one shape that tasks of every backend are brought into.

use vstd::prelude::*;

verus! {

/// A tag of a task.
#[derive(Debug, Clone)]
pub struct Label {
    pub name: String,
}

/// A task as this library shows it, whatever backend it came from.
#[derive(Debug, Clone)]
pub struct Issue {
    /// The title of the task.
    pub title: String,
    /// The address of the task at its backend.
    pub html_url: String,
    /// The composite identifier `<repo-id>/<native-id>`.
    pub id: String,
    /// The tags of the task; their order carries no meaning.
    pub tags: Vec<Label>,
}

/// A task as a value.
pub struct IssueView {
    pub title: Seq<char>,
    pub html_url: Seq<char>,
    pub id: Seq<char>,
    pub tags: Seq<Seq<char>>,
}

impl Issue {
    /// The names of the tags, in the order in which they are held.
    pub open spec fn tag_names(&self) -> Seq<Seq<char>> {
        self.tags@.map_values(|l: Label| l.name@)
    }
}

impl View for Issue {
    type V = IssueView;

    open spec fn view(&self) -> IssueView {
        IssueView {
            title: self.title@,
            html_url: self.html_url@,
            id: self.id@,
            tags: self.tag_names(),
        }
    }
}

/// The tasks as values.
pub open spec fn issue_views(issues: Seq<Issue>) -> Seq<IssueView> {
    issues.map_values(|i: Issue| i@)
}

} // verus!
