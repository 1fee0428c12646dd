//! GitHub: the requests of each operation, and its issues brought into the
//! common shape.

use vstd::prelude::*;
use vstd::string::*;
use crate::aggregate::{
    is_selected, list_request_view, list_requests, option_view, repositories_of, ListRequest,
};
use crate::config::{github_refs, push_refs, TaskIssueProvider};
use crate::identifier::{
    decoded, encode, encoded, lemma_decimal_is_valid_segment, lemma_decode_encode, valid_segment,
};
use crate::providers::common::model::{issue_views, Issue, IssueView, Label};
use crate::providers::common::request::{
    copy_optional_strings, header, header_views, make_header, optional_views,
    request_views, Body, BodyView, Header, HeaderView, HttpRequest, HttpRequestView, Method,
};
use crate::providers::github::model::{GitHubConfig, GitHubIssue, GitHubLabel, GitHubRepository};
use crate::text::{decimal, decimal_text, sorted_distinct, sorted_list, views};

verus! {

/// The address of the issues of a repository.
pub open spec fn github_issues_url(config: GitHubConfig, repo: GitHubRepository) -> Seq<char> {
    config.endpoint@ + "/repos/"@ + repo.owner@ + "/"@ + repo.repo@ + "/issues"@
}

/// The address of the issues of a repository.
fn issues_url(config: &GitHubConfig, repo: &GitHubRepository) -> (url: String)
    ensures
        url@ == github_issues_url(*config, *repo),
{
    let mut url = config.endpoint.clone();
    url.append("/repos/");
    url.append(repo.owner.as_str());
    url.append("/");
    url.append(repo.repo.as_str());
    url.append("/issues");
    url
}

/// The headers that identify the account to GitHub.
pub open spec fn github_headers(token: Seq<char>) -> Seq<HeaderView> {
    seq![
        header("user-agent"@, "User"@),
        header("authorization"@, "Bearer "@ + token),
        header("accept"@, "application/vnd.github.v3+json"@),
    ]
}

/// The headers that identify the account to GitHub: the user agent, the
/// token as a bearer token, and the media type of the API.
pub fn construct_github_header(token: &str) -> (headers: Vec<Header>)
    ensures
        header_views(headers@) == github_headers(token@),
{
    let mut bearer = String::from_str("Bearer ");
    bearer.append(token);
    let mut headers: Vec<Header> = Vec::new();
    headers.push(make_header("user-agent", String::from_str("User")));
    headers.push(make_header("authorization", bearer));
    headers.push(make_header("accept", String::from_str("application/vnd.github.v3+json")));
    assert(header_views(headers@) =~= github_headers(token@));
    headers
}

/// The request that closes an issue.
pub open spec fn github_close_request(
    config: GitHubConfig,
    repo: GitHubRepository,
    issue_id: Seq<char>,
) -> HttpRequestView {
    HttpRequestView {
        method: Method::Patch,
        url: github_issues_url(config, repo) + "/"@ + issue_id,
        headers: Seq::empty(),
        body: BodyView::GitHubState { state: "closed"@ },
    }
}

/// The request that closes the issue `issue_id` of a repository: its state
/// is set to `closed`.
pub fn close_task_github(
    github_config: &GitHubConfig,
    repo_config: &GitHubRepository,
    issue_id: &str,
) -> (request: HttpRequest)
    ensures
        request@ == github_close_request(*github_config, *repo_config, issue_id@),
{
    let mut url = issues_url(github_config, repo_config);
    url.append("/");
    url.append(issue_id);
    let request = HttpRequest {
        method: Method::Patch,
        url,
        headers: Vec::new(),
        body: Body::GitHubState { state: String::from_str("closed") },
    };
    assert(request@.headers =~= Seq::empty());
    request
}

/// The request that lists the issues of a repository.
pub open spec fn github_list_request(
    config: GitHubConfig,
    repo: GitHubRepository,
) -> HttpRequestView {
    HttpRequestView {
        method: Method::Get,
        url: github_issues_url(config, repo),
        headers: Seq::empty(),
        body: BodyView::Empty,
    }
}

/// The request that lists the issues of a repository.
pub fn list_issues_github(config: &GitHubConfig, repo: &GitHubRepository) -> (request: HttpRequest)
    ensures
        request@ == github_list_request(*config, *repo),
{
    let request = HttpRequest {
        method: Method::Get,
        url: issues_url(config, repo),
        headers: Vec::new(),
        body: Body::Empty,
    };
    assert(request@.headers =~= Seq::empty());
    request
}

/// The requests that list the issues of the GitHub repositories, account
/// by account; with `provider_id`, of the repository with that id only.
pub fn collect_tasks_from_github<'a>(
    github_config: &'a Vec<GitHubConfig>,
    provider_id: &Option<String>,
) -> (plan: Vec<ListRequest<'a>>)
    ensures
        repositories_of(plan@) == github_refs(github_config@).filter(
            is_selected(option_view(*provider_id)),
        ),
        forall|i: int|
            0 <= i < plan.len() ==> (#[trigger] plan[i]).request@ == list_request_view(
                plan[i].repository,
            ),
{
    let mut refs: Vec<TaskIssueProvider<'a>> = Vec::new();
    push_refs(&mut refs, github_config);
    list_requests(&refs, provider_id)
}

/// The names of the labels of an issue.
pub open spec fn github_label_names(labels: Seq<GitHubLabel>) -> Seq<Seq<char>> {
    labels.map_values(|l: GitHubLabel| l.name@)
}

/// An issue of GitHub in the common shape: its id is the id of the
/// repository and the number of the issue.
pub open spec fn github_issue_view(repo: GitHubRepository, issue: GitHubIssue) -> IssueView {
    IssueView {
        title: issue.title@,
        html_url: issue.html_url@,
        id: encoded(repo.id@, decimal(issue.number as nat)),
        tags: github_label_names(issue.labels@),
    }
}

/// Brings an issue of GitHub into the common shape.
pub fn issue_from_github(repo: &GitHubRepository, issue: &GitHubIssue) -> (normal: Issue)
    ensures
        normal@ == github_issue_view(*repo, *issue),
{
    let mut tags: Vec<Label> = Vec::new();
    let mut k: usize = 0;
    while k < issue.labels.len()
        invariant
            k <= issue.labels.len(),
            tags.len() == k,
            forall|q: int| 0 <= q < k ==> (#[trigger] tags[q]).name@ == issue.labels[q].name@,
        decreases issue.labels.len() - k,
    {
        tags.push(Label { name: issue.labels[k].name.clone() });
        k = k + 1;
    }
    let number = decimal_text(issue.number);
    let normal = Issue {
        id: encode(repo.id.as_str(), number.as_str()),
        title: issue.title.clone(),
        html_url: issue.html_url.clone(),
        tags,
    };
    assert(normal.tag_names() =~= github_label_names(issue.labels@));
    normal
}

/// The issues of GitHub in the common shape, in their order.
pub open spec fn github_issue_views(repo: GitHubRepository, issues: Seq<GitHubIssue>) -> Seq<
    IssueView,
> {
    issues.map_values(|i: GitHubIssue| github_issue_view(repo, i))
}

/// Brings the issues that GitHub listed for a repository into the common
/// shape, in the order in which GitHub gave them.
pub fn issues_from_github(repo: &GitHubRepository, issues: &Vec<GitHubIssue>) -> (normal: Vec<
    Issue,
>)
    ensures
        issue_views(normal@) == github_issue_views(*repo, issues@),
{
    let mut normal: Vec<Issue> = Vec::new();
    let mut i: usize = 0;
    while i < issues.len()
        invariant
            i <= issues.len(),
            normal.len() == i,
            forall|k: int|
                0 <= k < i ==> (#[trigger] normal[k])@ == github_issue_view(*repo, issues[k]),
        decreases issues.len() - i,
    {
        normal.push(issue_from_github(repo, &issues[i]));
        i = i + 1;
    }
    assert(issue_views(normal@) =~= github_issue_views(*repo, issues@));
    normal
}

/// The request that creates an issue.
pub open spec fn github_add_request(
    config: GitHubConfig,
    repo: GitHubRepository,
    title: Seq<char>,
    details: Seq<char>,
    tags: Option<Seq<Seq<char>>>,
) -> HttpRequestView {
    HttpRequestView {
        method: Method::Post,
        url: github_issues_url(config, repo),
        headers: seq![header("content-type"@, "application/json"@)],
        body: BodyView::GitHubIssue { title, body: details, labels: tags },
    }
}

/// The request that creates an issue with the given title, details and,
/// where `tags` is given, labels.
pub fn add_new_task_github(
    github_repo: &GitHubRepository,
    github_config: &GitHubConfig,
    title: &str,
    details: &str,
    tags: &Option<Vec<String>>,
) -> (request: HttpRequest)
    ensures
        request@ == github_add_request(
            *github_config,
            *github_repo,
            title@,
            details@,
            optional_views(*tags),
        ),
{
    let mut headers: Vec<Header> = Vec::new();
    headers.push(make_header("content-type", String::from_str("application/json")));
    let request = HttpRequest {
        method: Method::Post,
        url: issues_url(github_config, github_repo),
        headers,
        body: Body::GitHubIssue {
            title: String::from_str(title),
            body: String::from_str(details),
            labels: copy_optional_strings(tags),
        },
    };
    assert(request@.headers =~= seq![header("content-type"@, "application/json"@)]);
    request
}

/// The address of the labels of an issue.
pub open spec fn github_labels_url(
    config: GitHubConfig,
    repo: GitHubRepository,
    issue_number: Seq<char>,
) -> Seq<char> {
    github_issues_url(config, repo) + "/"@ + issue_number + "/labels"@
}

/// The address of the labels of an issue.
fn labels_url(config: &GitHubConfig, repo: &GitHubRepository, issue_number: &str) -> (url: String)
    ensures
        url@ == github_labels_url(*config, *repo, issue_number@),
{
    let mut url = issues_url(config, repo);
    url.append("/");
    url.append(issue_number);
    url.append("/labels");
    url
}

/// The one header of the requests on labels: the media type of the API.
fn accept_header() -> (headers: Vec<Header>)
    ensures
        header_views(headers@) == seq![header("accept"@, "application/vnd.github.v3+json"@)],
{
    let mut headers: Vec<Header> = Vec::new();
    headers.push(make_header("accept", String::from_str("application/vnd.github.v3+json")));
    assert(header_views(headers@) =~= seq![header("accept"@, "application/vnd.github.v3+json"@)]);
    headers
}

/// The request that adds labels to an issue.
pub open spec fn github_add_labels_request(
    config: GitHubConfig,
    repo: GitHubRepository,
    issue_number: Seq<char>,
    labels: Seq<Seq<char>>,
) -> HttpRequestView {
    HttpRequestView {
        method: Method::Post,
        url: github_labels_url(config, repo, issue_number),
        headers: seq![header("accept"@, "application/vnd.github.v3+json"@)],
        body: BodyView::GitHubLabels { labels },
    }
}

/// The request that adds `labels` to the issue `issue_number`. The labels
/// are a set: the request names each of them once, in order.
pub fn add_labels_to_github_issue(
    github_repo: &GitHubRepository,
    github_config: &GitHubConfig,
    issue_number: &str,
    labels: &Vec<String>,
) -> (request: HttpRequest)
    ensures
        request@ == github_add_labels_request(
            *github_config,
            *github_repo,
            issue_number@,
            sorted_list(views(labels@).to_set()),
        ),
{
    HttpRequest {
        method: Method::Post,
        url: labels_url(github_config, github_repo, issue_number),
        headers: accept_header(),
        body: Body::GitHubLabels { labels: sorted_distinct(labels) },
    }
}

/// The request that takes one label off an issue.
pub open spec fn github_remove_label_request(
    config: GitHubConfig,
    repo: GitHubRepository,
    issue_number: Seq<char>,
    label: Seq<char>,
) -> HttpRequestView {
    HttpRequestView {
        method: Method::Delete,
        url: github_labels_url(config, repo, issue_number) + "/"@ + label,
        headers: seq![header("accept"@, "application/vnd.github.v3+json"@)],
        body: BodyView::Empty,
    }
}

/// The requests that take `labels` off the issue `issue_number`. The
/// labels are a set: there is one request for each of them, in the order
/// of the labels. They are sent in that order, and none after the first
/// that fails.
pub fn remove_labels_from_github_issue(
    github_repo: &GitHubRepository,
    github_config: &GitHubConfig,
    issue_number: &str,
    labels: &Vec<String>,
) -> (requests: Vec<HttpRequest>)
    ensures
        request_views(requests@) == sorted_list(views(labels@).to_set()).map_values(
            |label: Seq<char>|
                github_remove_label_request(*github_config, *github_repo, issue_number@, label),
        ),
{
    let each = sorted_distinct(labels);
    let mut requests: Vec<HttpRequest> = Vec::new();
    let mut i: usize = 0;
    while i < each.len()
        invariant
            i <= each.len(),
            requests.len() == i,
            forall|k: int|
                0 <= k < i ==> (#[trigger] requests[k])@ == github_remove_label_request(
                    *github_config,
                    *github_repo,
                    issue_number@,
                    each[k]@,
                ),
        decreases each.len() - i,
    {
        let mut url = labels_url(github_config, github_repo, issue_number);
        url.append("/");
        url.append(each[i].as_str());
        requests.push(
            HttpRequest {
                method: Method::Delete,
                url,
                headers: accept_header(),
                body: Body::Empty,
            },
        );
        i = i + 1;
    }
    assert(request_views(requests@) =~= views(each@).map_values(
        |label: Seq<char>|
            github_remove_label_request(*github_config, *github_repo, issue_number@, label),
    ));
    requests
}

/// The id of an issue in the common shape names the issue: it decodes to
/// the id of the repository and the number of the issue, where the id of the
/// repository is a valid segment.
pub proof fn lemma_github_issue_id_decodes(repo: GitHubRepository, issue: GitHubIssue)
    requires
        valid_segment(repo.id@),
    ensures
        decoded(github_issue_view(repo, issue).id) == Some(
            (repo.id@, decimal(issue.number as nat)),
        ),
{
    lemma_decimal_is_valid_segment(issue.number as nat);
    lemma_decode_encode(repo.id@, decimal(issue.number as nat));
}

} // verus!
