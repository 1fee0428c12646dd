//! The requests that are sent to a backend, as plain values. What sends
//! them adds the secret of the account and turns the body into bytes.

use vstd::prelude::*;
use crate::error::{Status, TaskError};
use crate::text::views;

verus! {

/// The method of a request.
#[derive(Debug, Clone, Copy, PartialEq, Eq, Structural)]
pub enum Method {
    Get,
    Post,
    Put,
    Patch,
    Delete,
}

/// One header of a request.
#[derive(Debug, Clone)]
pub struct Header {
    pub name: String,
    pub value: String,
}

/// A header as a value.
pub struct HeaderView {
    pub name: Seq<char>,
    pub value: Seq<char>,
}

impl View for Header {
    type V = HeaderView;

    open spec fn view(&self) -> HeaderView {
        HeaderView { name: self.name@, value: self.value@ }
    }
}

/// The headers as values.
pub open spec fn header_views(headers: Seq<Header>) -> Seq<HeaderView> {
    headers.map_values(|h: Header| h@)
}

/// The header with the given name and value.
pub open spec fn header(name: Seq<char>, value: Seq<char>) -> HeaderView {
    HeaderView { name, value }
}

/// Whether labels are put on an issue or taken off it.
#[derive(Debug, Clone, Copy, PartialEq, Eq, Structural)]
pub enum LabelChange {
    Add,
    Remove,
}

/// What a request carries, in the shape that the backend expects.
#[allow(inconsistent_fields)]
#[derive(Debug, Clone)]
pub enum Body {
    /// Nothing.
    Empty,
    /// GitHub: the new state of an issue, as the object `{"state": ..}`.
    GitHubState { state: String },
    /// GitHub: a new issue, as an object with `title`, `body` and, where
    /// labels are given, `labels`.
    GitHubIssue { title: String, body: String, labels: Option<Vec<String>> },
    /// GitHub: labels, as an array of their names.
    GitHubLabels { labels: Vec<String> },
    /// GitLab: a new issue, as an object with `title`, `description` and,
    /// where labels are given, `labels`.
    GitLabIssue { title: String, description: String, labels: Option<Vec<String>> },
    /// GitLab: labels, as the object `{"labels": [..]}`.
    GitLabLabels { labels: Vec<String> },
    /// GitLab: a comment, as a form with the one field `body`.
    GitLabNote { body: String },
    /// Jira: a new issue, as the object `{"fields": {..}}` with the project
    /// key, the summary, the description, the issue type and, where labels
    /// are given, the labels.
    JiraIssue {
        project_key: String,
        summary: String,
        description: String,
        issue_type: String,
        labels: Option<Vec<String>>,
    },
    /// Jira: a change of labels, as the object
    /// `{"update": {"labels": [{"add": ..}, ..]}}`, with `remove` in place
    /// of `add` where labels are taken off.
    JiraLabels { change: LabelChange, labels: Vec<String> },
    /// Jira: a transition, as the object `{"transition": {"id": ..}}`.
    JiraTransition { id: String },
}

/// A body as a value.
#[allow(inconsistent_fields)]
pub enum BodyView {
    Empty,
    GitHubState { state: Seq<char> },
    GitHubIssue { title: Seq<char>, body: Seq<char>, labels: Option<Seq<Seq<char>>> },
    GitHubLabels { labels: Seq<Seq<char>> },
    GitLabIssue { title: Seq<char>, description: Seq<char>, labels: Option<Seq<Seq<char>>> },
    GitLabLabels { labels: Seq<Seq<char>> },
    GitLabNote { body: Seq<char> },
    JiraIssue {
        project_key: Seq<char>,
        summary: Seq<char>,
        description: Seq<char>,
        issue_type: Seq<char>,
        labels: Option<Seq<Seq<char>>>,
    },
    JiraLabels { change: LabelChange, labels: Seq<Seq<char>> },
    JiraTransition { id: Seq<char> },
}

/// The texts of labels that may be absent.
pub open spec fn optional_views(labels: Option<Vec<String>>) -> Option<Seq<Seq<char>>> {
    match labels {
        Some(l) => Some(views(l@)),
        None => None,
    }
}

impl View for Body {
    type V = BodyView;

    open spec fn view(&self) -> BodyView {
        match *self {
            Body::Empty => BodyView::Empty,
            Body::GitHubState { state } => BodyView::GitHubState { state: state@ },
            Body::GitHubIssue { title, body, labels } => BodyView::GitHubIssue {
                title: title@,
                body: body@,
                labels: optional_views(labels),
            },
            Body::GitHubLabels { labels } => BodyView::GitHubLabels { labels: views(labels@) },
            Body::GitLabIssue { title, description, labels } => BodyView::GitLabIssue {
                title: title@,
                description: description@,
                labels: optional_views(labels),
            },
            Body::GitLabLabels { labels } => BodyView::GitLabLabels { labels: views(labels@) },
            Body::GitLabNote { body } => BodyView::GitLabNote { body: body@ },
            Body::JiraIssue {
                project_key,
                summary,
                description,
                issue_type,
                labels,
            } => BodyView::JiraIssue {
                project_key: project_key@,
                summary: summary@,
                description: description@,
                issue_type: issue_type@,
                labels: optional_views(labels),
            },
            Body::JiraLabels { change, labels } => BodyView::JiraLabels {
                change,
                labels: views(labels@),
            },
            Body::JiraTransition { id } => BodyView::JiraTransition { id: id@ },
        }
    }
}

/// A request to a backend. The headers that carry the secret of the
/// account are not part of it: they are sent before the headers listed
/// here.
#[derive(Debug, Clone)]
pub struct HttpRequest {
    pub method: Method,
    pub url: String,
    pub headers: Vec<Header>,
    pub body: Body,
}

/// A request as a value.
pub struct HttpRequestView {
    pub method: Method,
    pub url: Seq<char>,
    pub headers: Seq<HeaderView>,
    pub body: BodyView,
}

impl View for HttpRequest {
    type V = HttpRequestView;

    open spec fn view(&self) -> HttpRequestView {
        HttpRequestView {
            method: self.method,
            url: self.url@,
            headers: header_views(self.headers@),
            body: self.body@,
        }
    }
}

/// The requests as values.
pub open spec fn request_views(requests: Seq<HttpRequest>) -> Seq<HttpRequestView> {
    requests.map_values(|r: HttpRequest| r@)
}

/// A copy of the strings of `items`.
pub fn copy_strings(items: &Vec<String>) -> (copy: Vec<String>)
    ensures
        views(copy@) == views(items@),
{
    let mut copy: Vec<String> = Vec::new();
    let mut i: usize = 0;
    while i < items.len()
        invariant
            i <= items.len(),
            copy.len() == i,
            forall|k: int| 0 <= k < i ==> (#[trigger] copy[k])@ == items[k]@,
        decreases items.len() - i,
    {
        copy.push(items[i].clone());
        i = i + 1;
    }
    assert(views(copy@) =~= views(items@));
    copy
}

/// A copy of strings that may be absent.
pub fn copy_optional_strings(items: &Option<Vec<String>>) -> (copy: Option<Vec<String>>)
    ensures
        optional_views(copy) == optional_views(*items),
{
    match items {
        Some(l) => Some(copy_strings(l)),
        None => None,
    }
}

/// The header with the given name and value.
pub fn make_header(name: &str, value: String) -> (h: Header)
    ensures
        h@ == header(name@, value@),
{
    Header { name: name.to_owned(), value }
}

/// A backend has done what was asked when its status code is one of the
/// two hundreds.
pub open spec fn is_success_code(code: u16) -> bool {
    200 <= code < 300
}

/// Whether a status code stands for success.
pub fn is_success(code: u16) -> (r: bool)
    ensures
        r == is_success_code(code),
{
    200 <= code && code < 300
}

/// The status that an answer comes to: the status that the backend
/// answered with, and where the request did not get through, the code 0
/// with the text of the failure.
pub open spec fn answer_status(answer: Result<Status, String>) -> Status {
    match answer {
        Ok(status) => status,
        Err(text) => Status { code: 0, body: text },
    }
}

/// The status that an answer comes to. A request that did not get through
/// counts as refused by the backend: its code, 0, is no code of success.
pub fn status_of(answer: Result<Status, String>) -> (status: Status)
    ensures
        status == answer_status(answer),
        answer is Err ==> !is_success_code(status.code),
{
    match answer {
        Ok(status) => status,
        Err(text) => Status { code: 0, body: text },
    }
}

/// What the answer to a change means: done, or the error of the backend
/// with its status.
pub fn acknowledge(status: Status) -> (r: Result<(), TaskError>)
    ensures
        match r {
            Ok(_) => is_success_code(status.code),
            Err(e) => !is_success_code(status.code) && e == TaskError::BackendError(status),
        },
{
    if is_success(status.code) {
        Ok(())
    } else {
        Err(TaskError::BackendError(status))
    }
}

} // verus!
