//! Jira: the requests of each operation, and its issues brought into the
//! common shape.

use vstd::prelude::*;
use vstd::string::*;
use crate::aggregate::{
    is_selected, list_request_view, list_requests, option_view, repositories_of, ListRequest,
};
use crate::config::{jira_refs, push_refs, TaskIssueProvider};
use crate::identifier::{encode, encoded};
use crate::providers::common::model::{issue_views, Issue, IssueView, Label};
use crate::providers::common::request::{
    copy_optional_strings, header, header_views, make_header, optional_views, Body,
    BodyView, Header, HeaderView, HttpRequest, HttpRequestView, LabelChange, Method,
};
use crate::providers::jira::model::{JiraConfig, JiraFields, JiraIssue, JiraProject, JiraResult};
use crate::text::{sorted_distinct, sorted_list, views};

verus! {

/// The text in standard base64, with padding, of the UTF-8 bytes of `text`.
pub uninterp spec fn base64_standard(text: Seq<char>) -> Seq<char>;

/// Encodes the UTF-8 bytes of `text` with `base64::Engine::encode` of the
/// engine `base64::engine::general_purpose::STANDARD`. The result is a
/// function of the bytes alone. The call panics only where the encoded
/// length, four thirds of the length of the input rounded up to a multiple
/// of four, does not fit `usize`; the bytes of a string number at most
/// `isize::MAX`, so that it never does here.
#[verifier::external_body]
fn base64_encode(text: &str) -> (encoded: String)
    ensures
        encoded@ == base64_standard(text@),
{
    base64::Engine::encode(&base64::engine::general_purpose::STANDARD, text)
}

/// The credentials of basic authentication before they are encoded: the
/// username, a colon and the token.
pub open spec fn basic_credentials(username: Seq<char>, token: Seq<char>) -> Seq<char> {
    username + ":"@ + token
}

/// The header of basic authentication for credentials that are encoded
/// already.
pub open spec fn basic_auth_headers(encoded_credentials: Seq<char>) -> Seq<HeaderView> {
    seq![header("Authorization"@, "Basic "@ + encoded_credentials)]
}

/// The header of basic authentication for the credentials
/// `encoded_credentials`, which are in base64 already.
pub fn basic_auth_header(encoded_credentials: &str) -> (headers: Vec<Header>)
    ensures
        header_views(headers@) == basic_auth_headers(encoded_credentials@),
{
    let mut value = String::from_str("Basic ");
    value.append(encoded_credentials);
    let mut headers: Vec<Header> = Vec::new();
    headers.push(make_header("Authorization", value));
    assert(header_views(headers@) =~= basic_auth_headers(encoded_credentials@));
    headers
}

/// The header that identifies the account to Jira: basic authentication
/// with the username and the token, joined by a colon and put in base64.
pub fn construct_jira_basic_auth_header(username: &str, token: &str) -> (headers: Vec<Header>)
    ensures
        header_views(headers@) == basic_auth_headers(
            base64_standard(basic_credentials(username@, token@)),
        ),
{
    let mut credentials = String::from_str(username);
    credentials.append(":");
    credentials.append(token);
    let encoded_credentials = base64_encode(credentials.as_str());
    basic_auth_header(encoded_credentials.as_str())
}

/// The one header of the requests that carry an object.
fn json_header() -> (headers: Vec<Header>)
    ensures
        header_views(headers@) == seq![header("content-type"@, "application/json"@)],
{
    let mut headers: Vec<Header> = Vec::new();
    headers.push(make_header("content-type", String::from_str("application/json")));
    assert(header_views(headers@) =~= seq![header("content-type"@, "application/json"@)]);
    headers
}

/// What the filter of a project adds to the query of its listing.
pub open spec fn jira_filter_suffix(filter: Option<String>) -> Seq<char> {
    match filter {
        Some(f) => " AND "@ + f@,
        None => Seq::empty(),
    }
}

/// The request that lists the unresolved issues of a project, narrowed by
/// the filter of the project where it has one. At most a thousand issues
/// are asked for.
pub open spec fn jira_list_request(config: JiraConfig, project: JiraProject) -> HttpRequestView {
    HttpRequestView {
        method: Method::Get,
        url: config.endpoint@ + "/rest/api/3/search?jql=project="@ + project.project_key@
            + " AND resolution = unresolved"@ + jira_filter_suffix(project.filter)
            + "&maxResults=1000"@,
        headers: Seq::empty(),
        body: BodyView::Empty,
    }
}

/// The request that lists the unresolved issues of a project.
pub fn list_issues_jira(config: &JiraConfig, project: &JiraProject) -> (request: HttpRequest)
    ensures
        request@ == jira_list_request(*config, *project),
{
    let mut url = config.endpoint.clone();
    url.append("/rest/api/3/search?jql=project=");
    url.append(project.project_key.as_str());
    url.append(" AND resolution = unresolved");
    match &project.filter {
        Some(f) => {
            url.append(" AND ");
            url.append(f.as_str());
        },
        None => {},
    }
    url.append("&maxResults=1000");
    let request = HttpRequest { method: Method::Get, url, headers: Vec::new(), body: Body::Empty };
    assert(request@.headers =~= Seq::empty());
    assert(request@.url =~= jira_list_request(*config, *project).url);
    request
}

/// The requests that list the issues of the Jira projects, account by
/// account; with `issue_store_id`, of the project with that id only.
pub fn collect_tasks_from_jira<'a>(
    jira_config: &'a Vec<JiraConfig>,
    issue_store_id: &Option<String>,
) -> (plan: Vec<ListRequest<'a>>)
    ensures
        repositories_of(plan@) == jira_refs(jira_config@).filter(
            is_selected(option_view(*issue_store_id)),
        ),
        forall|i: int|
            0 <= i < plan.len() ==> (#[trigger] plan[i]).request@ == list_request_view(
                plan[i].repository,
            ),
{
    let mut refs: Vec<TaskIssueProvider<'a>> = Vec::new();
    push_refs(&mut refs, jira_config);
    list_requests(&refs, issue_store_id)
}

/// The title of an issue: its summary, and nothing where Jira sent no
/// fields.
pub open spec fn jira_title(fields: Option<JiraFields>) -> Seq<char> {
    match fields {
        Some(f) => f.summary@,
        None => Seq::empty(),
    }
}

/// The tags of an issue: its labels, and none where Jira sent no fields or
/// no labels.
pub open spec fn jira_tags(fields: Option<JiraFields>) -> Seq<Seq<char>> {
    match fields {
        Some(f) => match f.labels {
            Some(l) => views(l@),
            None => Seq::empty(),
        },
        None => Seq::empty(),
    }
}

/// An issue of Jira in the common shape: its id is the id of the project
/// and the key of the issue.
pub open spec fn jira_issue_view(project: JiraProject, issue: JiraIssue) -> IssueView {
    IssueView {
        title: jira_title(issue.fields),
        html_url: issue.url@,
        id: encoded(project.id@, issue.id@),
        tags: jira_tags(issue.fields),
    }
}

/// Brings an issue of Jira into the common shape.
pub fn issue_from_jira(project: &JiraProject, issue: &JiraIssue) -> (normal: Issue)
    ensures
        normal@ == jira_issue_view(*project, *issue),
{
    let mut tags: Vec<Label> = Vec::new();
    let mut title = String::new();
    match &issue.fields {
        Some(fields) => {
            title = fields.summary.clone();
            match &fields.labels {
                Some(labels) => {
                    let mut k: usize = 0;
                    while k < labels.len()
                        invariant
                            k <= labels.len(),
                            tags.len() == k,
                            forall|q: int| 0 <= q < k ==> (#[trigger] tags[q]).name@ == labels[q]@,
                        decreases labels.len() - k,
                    {
                        tags.push(Label { name: labels[k].clone() });
                        k = k + 1;
                    }
                    assert(tags@.map_values(|l: Label| l.name@) =~= views(labels@));
                },
                None => {
                    assert(tags@.map_values(|l: Label| l.name@) =~= Seq::empty());
                },
            }
        },
        None => {
            assert(tags@.map_values(|l: Label| l.name@) =~= Seq::empty());
        },
    }
    let normal = Issue {
        id: encode(project.id.as_str(), issue.id.as_str()),
        title,
        html_url: issue.url.clone(),
        tags,
    };
    normal
}

/// The issues of Jira in the common shape, in their order.
pub open spec fn jira_issue_views(project: JiraProject, issues: Seq<JiraIssue>) -> Seq<IssueView> {
    issues.map_values(|i: JiraIssue| jira_issue_view(project, i))
}

/// Brings the issues that a search of Jira found in a project into the
/// common shape, in the order in which Jira gave them.
pub fn issues_from_jira(project: &JiraProject, result: &JiraResult) -> (normal: Vec<Issue>)
    ensures
        issue_views(normal@) == jira_issue_views(*project, result.issues@),
{
    let mut normal: Vec<Issue> = Vec::new();
    let mut i: usize = 0;
    while i < result.issues.len()
        invariant
            i <= result.issues.len(),
            normal.len() == i,
            forall|k: int|
                0 <= k < i ==> (#[trigger] normal[k])@ == jira_issue_view(
                    *project,
                    result.issues[k],
                ),
        decreases result.issues.len() - i,
    {
        normal.push(issue_from_jira(project, &result.issues[i]));
        i = i + 1;
    }
    assert(issue_views(normal@) =~= jira_issue_views(*project, result.issues@));
    normal
}

/// The request that creates an issue.
pub open spec fn jira_add_request(
    config: JiraConfig,
    project: JiraProject,
    title: Seq<char>,
    details: Seq<char>,
    tags: Option<Seq<Seq<char>>>,
) -> HttpRequestView {
    HttpRequestView {
        method: Method::Post,
        url: config.endpoint@ + "/rest/api/2/issue/"@,
        headers: seq![header("content-type"@, "application/json"@)],
        body: BodyView::JiraIssue {
            project_key: project.project_key@,
            summary: title,
            description: details,
            issue_type: project.default_issue_type@,
            labels: tags,
        },
    }
}

/// The request that creates an issue in a project, with the given title as
/// its summary, the details as its description, the issue type of the
/// project and, where `tags` is given, labels.
pub fn add_new_task_jira(
    jira_project: &JiraProject,
    jira_config: &JiraConfig,
    title: &str,
    details: &str,
    tags: &Option<Vec<String>>,
) -> (request: HttpRequest)
    ensures
        request@ == jira_add_request(
            *jira_config,
            *jira_project,
            title@,
            details@,
            optional_views(*tags),
        ),
{
    let mut url = jira_config.endpoint.clone();
    url.append("/rest/api/2/issue/");
    HttpRequest {
        method: Method::Post,
        url,
        headers: json_header(),
        body: Body::JiraIssue {
            project_key: jira_project.project_key.clone(),
            summary: String::from_str(title),
            description: String::from_str(details),
            issue_type: jira_project.default_issue_type.clone(),
            labels: copy_optional_strings(tags),
        },
    }
}

/// The request that changes the labels of an issue.
pub open spec fn jira_labels_request(
    config: JiraConfig,
    issue_id: Seq<char>,
    change: LabelChange,
    tags: Seq<Seq<char>>,
) -> HttpRequestView {
    HttpRequestView {
        method: Method::Put,
        url: config.endpoint@ + "/rest/api/2/issue/"@ + issue_id,
        headers: seq![header("content-type"@, "application/json"@)],
        body: BodyView::JiraLabels { change, labels: tags },
    }
}

/// The request that changes the labels of an issue. The labels are a set:
/// the request names each of them once, in order.
fn labels_request(
    config: &JiraConfig,
    issue_id: &str,
    change: LabelChange,
    tags: &Vec<String>,
) -> (request:
    HttpRequest)
    ensures
        request@ == jira_labels_request(
            *config,
            issue_id@,
            change,
            sorted_list(views(tags@).to_set()),
        ),
{
    let mut url = config.endpoint.clone();
    url.append("/rest/api/2/issue/");
    url.append(issue_id);
    HttpRequest {
        method: Method::Put,
        url,
        headers: json_header(),
        body: Body::JiraLabels { change, labels: sorted_distinct(tags) },
    }
}

/// The request that takes `tags` off the issue `issue_id`. The tags are a
/// set: the request names each of them once, in order.
pub fn remove_labels_from_jira_issue(
    jira_config: &JiraConfig,
    issue_id: &str,
    tags: &Vec<String>,
) -> (request:
    HttpRequest)
    ensures
        request@ == jira_labels_request(
            *jira_config,
            issue_id@,
            LabelChange::Remove,
            sorted_list(views(tags@).to_set()),
        ),
{
    labels_request(jira_config, issue_id, LabelChange::Remove, tags)
}

/// The request that adds `tags` to the issue `issue_id`. The tags are a
/// set: the request names each of them once, in order.
pub fn add_labels_to_jira_issue(
    jira_config: &JiraConfig,
    issue_id: &str,
    tags: &Vec<String>,
) -> (request:
    HttpRequest)
    ensures
        request@ == jira_labels_request(
            *jira_config,
            issue_id@,
            LabelChange::Add,
            sorted_list(views(tags@).to_set()),
        ),
{
    labels_request(jira_config, issue_id, LabelChange::Add, tags)
}

/// The address of the transitions of an issue.
pub open spec fn jira_transitions_url(config: JiraConfig, issue_id: Seq<char>) -> Seq<char> {
    config.endpoint@ + "/rest/api/3/issue/"@ + issue_id + "/transitions"@
}

/// The address of the transitions of an issue.
fn transitions_url(config: &JiraConfig, issue_id: &str) -> (url: String)
    ensures
        url@ == jira_transitions_url(*config, issue_id@),
{
    let mut url = config.endpoint.clone();
    url.append("/rest/api/3/issue/");
    url.append(issue_id);
    url.append("/transitions");
    url
}

/// The request that closes an issue.
pub open spec fn jira_close_request(
    config: JiraConfig,
    project: JiraProject,
    issue_id: Seq<char>,
) -> HttpRequestView {
    HttpRequestView {
        method: Method::Post,
        url: jira_transitions_url(config, issue_id),
        headers: seq![header("content-type"@, "application/json"@)],
        body: BodyView::JiraTransition { id: project.close_transition_id@ },
    }
}

/// The request that closes the issue `issue_id`: it asks for the
/// transition that closes an issue of the project.
pub fn close_issue_jira(
    jira_config: &JiraConfig,
    project_config: &JiraProject,
    issue_id: &str,
) -> (request:
    HttpRequest)
    ensures
        request@ == jira_close_request(*jira_config, *project_config, issue_id@),
{
    HttpRequest {
        method: Method::Post,
        url: transitions_url(jira_config, issue_id),
        headers: json_header(),
        body: Body::JiraTransition { id: project_config.close_transition_id.clone() },
    }
}

/// The request that lists the transitions of an issue.
pub open spec fn jira_transitions_request(
    config: JiraConfig,
    issue_id: Seq<char>,
) -> HttpRequestView {
    HttpRequestView {
        method: Method::Get,
        url: jira_transitions_url(config, issue_id),
        headers: seq![header("content-type"@, "application/json"@)],
        body: BodyView::Empty,
    }
}

/// The request that lists the transitions that the issue `issue_id` can
/// make. Their ids are what a project names as its closing transition.
pub fn list_jira_transition_ids(jira_config: &JiraConfig, issue_id: &str) -> (request: HttpRequest)
    ensures
        request@ == jira_transitions_request(*jira_config, issue_id@),
{
    HttpRequest {
        method: Method::Get,
        url: transitions_url(jira_config, issue_id),
        headers: json_header(),
        body: Body::Empty,
    }
}

} // verus!
