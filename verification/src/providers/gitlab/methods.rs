//! GitLab: the requests of each operation, and its issues brought into the
//! common shape.

use vstd::prelude::*;
use vstd::string::*;
use crate::aggregate::{
    is_selected, list_request_view, list_requests, option_view, repositories_of, ListRequest,
};
use crate::config::{gitlab_refs, push_refs, TaskIssueProvider};
use crate::identifier::{
    decoded, encode, encoded, lemma_decimal_is_valid_segment, lemma_decode_encode, valid_segment,
};
use crate::providers::common::model::{issue_views, Issue, IssueView, Label};
use crate::providers::common::request::{
    copy_optional_strings, header, header_views, make_header, optional_views, Body,
    BodyView, Header, HeaderView, HttpRequest, HttpRequestView, Method,
};
use crate::providers::gitlab::model::{GitLabConfig, GitLabIssue, GitLabLabel, GitLabRepository};
use crate::text::{decimal, decimal_text, sorted_distinct, sorted_list, views};

verus! {

/// The address of the issues of a project.
pub open spec fn gitlab_issues_url(config: GitLabConfig, repo: GitLabRepository) -> Seq<char> {
    config.endpoint@ + "/api/v4/projects/"@ + repo.project_id@ + "/issues"@
}

/// The address of the issues of a project.
fn issues_url(config: &GitLabConfig, repo: &GitLabRepository) -> (url: String)
    ensures
        url@ == gitlab_issues_url(*config, *repo),
{
    let mut url = config.endpoint.clone();
    url.append("/api/v4/projects/");
    url.append(repo.project_id.as_str());
    url.append("/issues");
    url
}

/// The header that identifies the account to GitLab.
pub open spec fn gitlab_headers(token: Seq<char>) -> Seq<HeaderView> {
    seq![header("PRIVATE-TOKEN"@, token)]
}

/// The header that identifies the account to GitLab: the token, as it is.
pub fn construct_gitlab_header(token: &str) -> (headers: Vec<Header>)
    ensures
        header_views(headers@) == gitlab_headers(token@),
{
    let mut headers: Vec<Header> = Vec::new();
    headers.push(make_header("PRIVATE-TOKEN", String::from_str(token)));
    assert(header_views(headers@) =~= gitlab_headers(token@));
    headers
}

/// The one header of the requests that carry an object.
fn json_header() -> (headers: Vec<Header>)
    ensures
        header_views(headers@) == seq![header("content-type"@, "application/json"@)],
{
    let mut headers: Vec<Header> = Vec::new();
    headers.push(make_header("content-type", String::from_str("application/json")));
    assert(header_views(headers@) =~= seq![header("content-type"@, "application/json"@)]);
    headers
}

/// The request that closes an issue.
pub open spec fn gitlab_close_request(
    config: GitLabConfig,
    repo: GitLabRepository,
    issue_id: Seq<char>,
) -> HttpRequestView {
    HttpRequestView {
        method: Method::Put,
        url: gitlab_issues_url(config, repo) + "/"@ + issue_id + "?state_event=close"@,
        headers: Seq::empty(),
        body: BodyView::Empty,
    }
}

/// The request that closes the issue `issue_id` of a project.
pub fn close_task_gitlab(
    gitlab_config: &GitLabConfig,
    repo_config: &GitLabRepository,
    issue_id: &str,
) -> (request: HttpRequest)
    ensures
        request@ == gitlab_close_request(*gitlab_config, *repo_config, issue_id@),
{
    let mut url = issues_url(gitlab_config, repo_config);
    url.append("/");
    url.append(issue_id);
    url.append("?state_event=close");
    let request = HttpRequest { method: Method::Put, url, headers: Vec::new(), body: Body::Empty };
    assert(request@.headers =~= Seq::empty());
    request
}

/// What the filter of a project adds to the address of its listing.
pub open spec fn gitlab_filter_suffix(filter: Option<String>) -> Seq<char> {
    match filter {
        Some(f) => "&"@ + f@,
        None => Seq::empty(),
    }
}

/// The request that lists the open issues of a project, narrowed by the
/// filter of the project where it has one.
pub open spec fn gitlab_list_request(
    config: GitLabConfig,
    repo: GitLabRepository,
) -> HttpRequestView {
    HttpRequestView {
        method: Method::Get,
        url: gitlab_issues_url(config, repo) + "?state=opened"@ + gitlab_filter_suffix(repo.filter),
        headers: Seq::empty(),
        body: BodyView::Empty,
    }
}

/// The request that lists the open issues of a project.
pub fn list_issues_gitlab(config: &GitLabConfig, repo: &GitLabRepository) -> (request: HttpRequest)
    ensures
        request@ == gitlab_list_request(*config, *repo),
{
    let mut url = issues_url(config, repo);
    url.append("?state=opened");
    match &repo.filter {
        Some(f) => {
            url.append("&");
            url.append(f.as_str());
        },
        None => {},
    }
    let request = HttpRequest { method: Method::Get, url, headers: Vec::new(), body: Body::Empty };
    assert(request@.headers =~= Seq::empty());
    assert(request@.url =~= gitlab_list_request(*config, *repo).url);
    request
}

/// The requests that list the issues of the GitLab projects, account by
/// account; with `issue_store_id`, of the project with that id only.
pub fn collect_tasks_from_gitlab<'a>(
    gitlab_config: &'a Vec<GitLabConfig>,
    issue_store_id: &Option<String>,
) -> (plan: Vec<ListRequest<'a>>)
    ensures
        repositories_of(plan@) == gitlab_refs(gitlab_config@).filter(
            is_selected(option_view(*issue_store_id)),
        ),
        forall|i: int|
            0 <= i < plan.len() ==> (#[trigger] plan[i]).request@ == list_request_view(
                plan[i].repository,
            ),
{
    let mut refs: Vec<TaskIssueProvider<'a>> = Vec::new();
    push_refs(&mut refs, gitlab_config);
    list_requests(&refs, issue_store_id)
}

/// The names of the labels of an issue.
pub open spec fn gitlab_label_names(labels: Seq<GitLabLabel>) -> Seq<Seq<char>> {
    labels.map_values(|l: GitLabLabel| l.0@)
}

/// An issue of GitLab in the common shape: its id is the id of the project
/// and the number of the issue within the project.
pub open spec fn gitlab_issue_view(repo: GitLabRepository, issue: GitLabIssue) -> IssueView {
    IssueView {
        title: issue.title@,
        html_url: issue.web_url@,
        id: encoded(repo.id@, decimal(issue.iid as nat)),
        tags: gitlab_label_names(issue.labels@),
    }
}

/// Brings an issue of GitLab into the common shape.
pub fn issue_from_gitlab(repo: &GitLabRepository, issue: &GitLabIssue) -> (normal: Issue)
    ensures
        normal@ == gitlab_issue_view(*repo, *issue),
{
    let mut tags: Vec<Label> = Vec::new();
    let mut k: usize = 0;
    while k < issue.labels.len()
        invariant
            k <= issue.labels.len(),
            tags.len() == k,
            forall|q: int| 0 <= q < k ==> (#[trigger] tags[q]).name@ == issue.labels[q].0@,
        decreases issue.labels.len() - k,
    {
        tags.push(Label { name: issue.labels[k].0.clone() });
        k = k + 1;
    }
    let number = decimal_text(issue.iid);
    let normal = Issue {
        id: encode(repo.id.as_str(), number.as_str()),
        title: issue.title.clone(),
        html_url: issue.web_url.clone(),
        tags,
    };
    assert(normal.tag_names() =~= gitlab_label_names(issue.labels@));
    normal
}

/// The issues of GitLab in the common shape, in their order.
pub open spec fn gitlab_issue_views(repo: GitLabRepository, issues: Seq<GitLabIssue>) -> Seq<
    IssueView,
> {
    issues.map_values(|i: GitLabIssue| gitlab_issue_view(repo, i))
}

/// Brings the issues that GitLab listed for a project into the common
/// shape, in the order in which GitLab gave them.
pub fn issues_from_gitlab(repo: &GitLabRepository, issues: &Vec<GitLabIssue>) -> (normal: Vec<
    Issue,
>)
    ensures
        issue_views(normal@) == gitlab_issue_views(*repo, issues@),
{
    let mut normal: Vec<Issue> = Vec::new();
    let mut i: usize = 0;
    while i < issues.len()
        invariant
            i <= issues.len(),
            normal.len() == i,
            forall|k: int|
                0 <= k < i ==> (#[trigger] normal[k])@ == gitlab_issue_view(*repo, issues[k]),
        decreases issues.len() - i,
    {
        normal.push(issue_from_gitlab(repo, &issues[i]));
        i = i + 1;
    }
    assert(issue_views(normal@) =~= gitlab_issue_views(*repo, issues@));
    normal
}

/// The request that creates an issue.
pub open spec fn gitlab_add_request(
    config: GitLabConfig,
    repo: GitLabRepository,
    title: Seq<char>,
    details: Seq<char>,
    tags: Option<Seq<Seq<char>>>,
) -> HttpRequestView {
    HttpRequestView {
        method: Method::Post,
        url: gitlab_issues_url(config, repo),
        headers: seq![header("content-type"@, "application/json"@)],
        body: BodyView::GitLabIssue { title, description: details, labels: tags },
    }
}

/// The request that creates an issue with the given title, details and,
/// where `tags` is given, labels.
pub fn add_new_task_gitlab(
    gitlab_repo: &GitLabRepository,
    gitlab_config: &GitLabConfig,
    title: &str,
    details: &str,
    tags: &Option<Vec<String>>,
) -> (request: HttpRequest)
    ensures
        request@ == gitlab_add_request(
            *gitlab_config,
            *gitlab_repo,
            title@,
            details@,
            optional_views(*tags),
        ),
{
    HttpRequest {
        method: Method::Post,
        url: issues_url(gitlab_config, gitlab_repo),
        headers: json_header(),
        body: Body::GitLabIssue {
            title: String::from_str(title),
            description: String::from_str(details),
            labels: copy_optional_strings(tags),
        },
    }
}

/// The request that changes the labels of an issue; `action` is
/// `add_labels` or `remove_labels`.
pub open spec fn gitlab_labels_request(
    config: GitLabConfig,
    repo: GitLabRepository,
    issue_id: Seq<char>,
    action: Seq<char>,
    tags: Seq<Seq<char>>,
) -> HttpRequestView {
    HttpRequestView {
        method: Method::Post,
        url: gitlab_issues_url(config, repo) + "/"@ + issue_id + "/"@ + action,
        headers: seq![header("content-type"@, "application/json"@)],
        body: BodyView::GitLabLabels { labels: tags },
    }
}

/// The request that changes the labels of an issue. The labels are a set:
/// the request names each of them once, in order.
fn labels_request(
    repo: &GitLabRepository,
    config: &GitLabConfig,
    issue_id: &str,
    action: &str,
    tags: &Vec<String>,
) -> (request: HttpRequest)
    ensures
        request@ == gitlab_labels_request(
            *config,
            *repo,
            issue_id@,
            action@,
            sorted_list(views(tags@).to_set()),
        ),
{
    let mut url = issues_url(config, repo);
    url.append("/");
    url.append(issue_id);
    url.append("/");
    url.append(action);
    HttpRequest {
        method: Method::Post,
        url,
        headers: json_header(),
        body: Body::GitLabLabels { labels: sorted_distinct(tags) },
    }
}

/// The request that adds `tags` to the issue `issue_id`. The tags are a
/// set: the request names each of them once, in order.
pub fn add_labels_to_gitlab_issue(
    gitlab_repo: &GitLabRepository,
    gitlab_config: &GitLabConfig,
    issue_id: &str,
    tags: &Vec<String>,
) -> (request: HttpRequest)
    ensures
        request@ == gitlab_labels_request(
            *gitlab_config,
            *gitlab_repo,
            issue_id@,
            "add_labels"@,
            sorted_list(views(tags@).to_set()),
        ),
{
    labels_request(gitlab_repo, gitlab_config, issue_id, "add_labels", tags)
}

/// The request that takes `tags` off the issue `issue_id`. The tags are a
/// set: the request names each of them once, in order.
pub fn remove_labels_from_gitlab_issue(
    gitlab_repo: &GitLabRepository,
    gitlab_config: &GitLabConfig,
    issue_id: &str,
    tags: &Vec<String>,
) -> (request: HttpRequest)
    ensures
        request@ == gitlab_labels_request(
            *gitlab_config,
            *gitlab_repo,
            issue_id@,
            "remove_labels"@,
            sorted_list(views(tags@).to_set()),
        ),
{
    labels_request(gitlab_repo, gitlab_config, issue_id, "remove_labels", tags)
}

/// The request that adds a comment to an issue.
pub open spec fn gitlab_comment_request(
    config: GitLabConfig,
    repo: GitLabRepository,
    issue_iid: Seq<char>,
    comment: Seq<char>,
) -> HttpRequestView {
    HttpRequestView {
        method: Method::Post,
        url: gitlab_issues_url(config, repo) + "/"@ + issue_iid + "/notes"@,
        headers: Seq::empty(),
        body: BodyView::GitLabNote { body: comment },
    }
}

/// The request that adds the comment `comment` to the issue `issue_iid`.
pub fn add_comment_to_gitlab_issue(
    gitlab_repo: &GitLabRepository,
    gitlab_config: &GitLabConfig,
    issue_iid: &str,
    comment: &str,
) -> (request: HttpRequest)
    ensures
        request@ == gitlab_comment_request(*gitlab_config, *gitlab_repo, issue_iid@, comment@),
{
    let mut url = issues_url(gitlab_config, gitlab_repo);
    url.append("/");
    url.append(issue_iid);
    url.append("/notes");
    let request = HttpRequest {
        method: Method::Post,
        url,
        headers: Vec::new(),
        body: Body::GitLabNote { body: String::from_str(comment) },
    };
    assert(request@.headers =~= Seq::empty());
    request
}

/// The id of an issue in the common shape names the issue: it decodes to
/// the id of the project and the number of the issue, where the id of the
/// project is a valid segment.
pub proof fn lemma_gitlab_issue_id_decodes(repo: GitLabRepository, issue: GitLabIssue)
    requires
        valid_segment(repo.id@),
    ensures
        decoded(gitlab_issue_view(repo, issue).id) == Some((repo.id@, decimal(issue.iid as nat))),
{
    lemma_decimal_is_valid_segment(issue.iid as nat);
    lemma_decode_encode(repo.id@, decimal(issue.iid as nat));
}

} // verus!
