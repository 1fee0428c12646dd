//! The dispatch resolver: one operation on a task is resolved to the
//! repository that owns the task and becomes the requests of its backend.

use vstd::prelude::*;
use crate::aggregate::{option_view, Fetched};
use crate::config::{
    distinct_ids, first_match, has_id, is_new_task_default, lemma_id_names_one_repository,
    reference_prefix, AppConfig, IssueTaskRepository, TaskIssueProvider,
};
use crate::error::{Status, TaskError};
use crate::identifier::{decode, decoded, encoded, lemma_decode_encode, valid_segment};
use crate::providers::common::credentials::HasSecretToken;
use crate::providers::common::model::{issue_views, Issue, IssueView};
use crate::providers::common::request::{
    answer_status, header_views, is_success, is_success_code, optional_views, request_views,
    Header, HeaderView,
    HttpRequest, HttpRequestView,
};
use crate::providers::github::methods::{
    add_labels_to_github_issue, add_new_task_github, close_task_github, construct_github_header,
    github_add_labels_request, github_add_request, github_close_request, github_headers,
    github_issue_view, github_remove_label_request, issue_from_github,
    remove_labels_from_github_issue,
};
use crate::providers::github::model::GitHubIssue;
use crate::providers::gitlab::methods::{
    add_labels_to_gitlab_issue, add_new_task_gitlab, close_task_gitlab, construct_gitlab_header,
    gitlab_add_request, gitlab_close_request, gitlab_headers, gitlab_issue_view,
    gitlab_labels_request, issue_from_gitlab, remove_labels_from_gitlab_issue,
};
use crate::providers::gitlab::model::GitLabIssue;
use crate::providers::jira::methods::{
    add_new_task_jira, base64_standard, basic_auth_headers, basic_credentials,
    construct_jira_basic_auth_header, issue_from_jira, jira_add_request, jira_issue_view,
};
use crate::providers::jira::model::JiraIssue;
use crate::text::{sorted_list, views};

verus! {

/// The requests of one operation and the repository they go to. They are
/// sent in their order, and none after the first that fails.
#[derive(Debug, Clone)]
pub struct Dispatch<'a> {
    pub provider: TaskIssueProvider<'a>,
    pub requests: Vec<HttpRequest>,
}

/// Where a new task goes: without a target to the repository that is the
/// default for new tasks, and with a target to the repository that the
/// target names, be it a bare repository id or a full task reference.
pub open spec fn add_target<'a>(provider_id: Option<Seq<char>>) -> spec_fn(
    TaskIssueProvider<'a>,
) -> bool {
    match provider_id {
        None => is_new_task_default(),
        Some(id) => has_id(reference_prefix(id)),
    }
}

/// The request that creates a task in a repository.
pub open spec fn add_request_view(
    provider: TaskIssueProvider,
    title: Seq<char>,
    details: Seq<char>,
    tags: Option<Seq<Seq<char>>>,
) -> HttpRequestView {
    match provider {
        TaskIssueProvider::GitHub(config, repo) => github_add_request(
            *config,
            *repo,
            title,
            details,
            tags,
        ),
        TaskIssueProvider::GitLab(config, repo) => gitlab_add_request(
            *config,
            *repo,
            title,
            details,
            tags,
        ),
        TaskIssueProvider::Jira(config, project) => jira_add_request(
            *config,
            *project,
            title,
            details,
            tags,
        ),
    }
}

/// Resolves where a new task goes and gives the request that creates it.
///
/// Without `provider_id` the task goes to the default for new tasks; with
/// it, to the repository that it names. Where there is no such repository
/// the operation fails with `ProviderNotFound`.
pub fn add_new_task<'a>(
    provider_id: &Option<String>,
    config: &'a AppConfig,
    title: &str,
    details: &str,
    tags: &Option<Vec<String>>,
) -> (r: Result<Dispatch<'a>, TaskError>)
    ensures
        match r {
            Ok(d) => {
                &&& first_match(config.repository_refs(), add_target(option_view(*provider_id)))
                    == Some(d.provider)
                &&& request_views(d.requests@) == seq![
                    add_request_view(d.provider, title@, details@, optional_views(*tags)),
                ]
            },
            Err(e) => {
                &&& first_match(config.repository_refs(), add_target(option_view(*provider_id)))
                    is None
                &&& e is ProviderNotFound
            },
        },
{
    let found = match provider_id {
        None => match config.find_default_provider() {
            Ok(found) => found,
            Err(_) => None,
        },
        Some(id) => match config.find_provider_for_issue(id.as_str()) {
            Ok(p) => Some(p),
            Err(_) => None,
        },
    };
    match found {
        None => Err(TaskError::ProviderNotFound),
        Some(provider) => {
            let request = match provider {
                TaskIssueProvider::GitHub(github_config, repo) => add_new_task_github(
                    repo,
                    github_config,
                    title,
                    details,
                    tags,
                ),
                TaskIssueProvider::GitLab(gitlab_config, repo) => add_new_task_gitlab(
                    repo,
                    gitlab_config,
                    title,
                    details,
                    tags,
                ),
                TaskIssueProvider::Jira(jira_config, project) => add_new_task_jira(
                    project,
                    jira_config,
                    title,
                    details,
                    tags,
                ),
            };
            let mut requests: Vec<HttpRequest> = Vec::new();
            requests.push(request);
            assert(request_views(requests@) =~= seq![
                add_request_view(provider, title@, details@, optional_views(*tags)),
            ]);
            Ok(Dispatch { provider, requests })
        },
    }
}

/// The repository that a task reference names, and the native id of the
/// task there.
pub open spec fn resolved<'a>(refs: Seq<TaskIssueProvider<'a>>, reference: Seq<char>) -> Result<
    (TaskIssueProvider<'a>, Seq<char>),
    TaskError,
> {
    match decoded(reference) {
        None => Err(TaskError::InvalidIdentifierFormat),
        Some(pair) => match first_match(refs, has_id(pair.0)) {
            None => Err(TaskError::UnrecognizedProviderPrefix),
            Some(p) => Ok((p, pair.1)),
        },
    }
}

/// Resolves a task reference `<repo-id>/<native-id>` to its repository and
/// the native id of the task.
///
/// A text that is no task reference fails with `InvalidIdentifierFormat`;
/// a reference whose repository id is not configured fails with
/// `UnrecognizedProviderPrefix`.
pub fn resolve_reference<'a>(config: &'a AppConfig, reference: &str) -> (r: Result<
    (TaskIssueProvider<'a>, String),
    TaskError,
>)
    ensures
        match r {
            Ok(target) => resolved(config.repository_refs(), reference@) == Ok::<
                (TaskIssueProvider<'a>, Seq<char>),
                TaskError,
            >((target.0, target.1@)),
            Err(e) => resolved(config.repository_refs(), reference@) == Err::<
                (TaskIssueProvider<'a>, Seq<char>),
                TaskError,
            >(e),
        },
{
    match decode(reference) {
        Err(e) => Err(TaskError::InvalidIdentifierFormat),
        Ok(pair) => match config.find_provider_by_id(pair.0.as_str()) {
            Ok(Some(p)) => Ok((p, pair.1)),
            _ => Err(TaskError::UnrecognizedProviderPrefix),
        },
    }
}

/// Whether tasks of the repository can be closed and their labels changed
/// through this library. For Jira neither is offered.
pub open spec fn supports_changes(provider: TaskIssueProvider) -> bool {
    !(provider is Jira)
}

/// The requests that close the task `native_id` of a repository.
pub open spec fn close_requests(provider: TaskIssueProvider, native_id: Seq<char>) -> Seq<
    HttpRequestView,
> {
    match provider {
        TaskIssueProvider::GitHub(config, repo) => seq![
            github_close_request(*config, *repo, native_id),
        ],
        TaskIssueProvider::GitLab(config, repo) => seq![
            gitlab_close_request(*config, *repo, native_id),
        ],
        TaskIssueProvider::Jira(_, _) => Seq::empty(),
    }
}

/// The requests that add `tags` to the task `native_id` of a repository.
/// The tags are a set: a request names each of them once, in order.
pub open spec fn add_tags_requests(
    provider: TaskIssueProvider,
    native_id: Seq<char>,
    tags: Seq<Seq<char>>,
) -> Seq<HttpRequestView> {
    let each = sorted_list(tags.to_set());
    match provider {
        TaskIssueProvider::GitHub(config, repo) => seq![
            github_add_labels_request(*config, *repo, native_id, each),
        ],
        TaskIssueProvider::GitLab(config, repo) => seq![
            gitlab_labels_request(*config, *repo, native_id, "add_labels"@, each),
        ],
        TaskIssueProvider::Jira(_, _) => Seq::empty(),
    }
}

/// The requests that take `tags` off the task `native_id` of a repository.
/// The tags are a set: each of them is named once, in order. GitHub takes
/// one request for each tag.
pub open spec fn remove_tags_requests(
    provider: TaskIssueProvider,
    native_id: Seq<char>,
    tags: Seq<Seq<char>>,
) -> Seq<HttpRequestView> {
    let each = sorted_list(tags.to_set());
    match provider {
        TaskIssueProvider::GitHub(config, repo) => each.map_values(
            |label: Seq<char>| github_remove_label_request(*config, *repo, native_id, label),
        ),
        TaskIssueProvider::GitLab(config, repo) => seq![
            gitlab_labels_request(*config, *repo, native_id, "remove_labels"@, each),
        ],
        TaskIssueProvider::Jira(_, _) => Seq::empty(),
    }
}

/// What a change of the task `reference` comes to, given the requests
/// that the change takes at each repository: the error of the resolution;
/// `Unsupported` where the repository is of a kind without the operation;
/// and else the requests at the repository of the task.
pub open spec fn is_dispatch_of<'a>(
    refs: Seq<TaskIssueProvider<'a>>,
    reference: Seq<char>,
    requests: spec_fn(TaskIssueProvider<'a>, Seq<char>) -> Seq<HttpRequestView>,
    r: Result<Dispatch<'a>, TaskError>,
) -> bool {
    match resolved(refs, reference) {
        Err(e) => r == Err::<Dispatch<'a>, TaskError>(e),
        Ok(target) => if supports_changes(target.0) {
            r matches Ok(d) && d.provider == target.0 && request_views(d.requests@) == requests(
                target.0,
                target.1,
            )
        } else {
            r == Err::<Dispatch<'a>, TaskError>(TaskError::Unsupported)
        },
    }
}

/// Resolves the task `provider_and_issue` and gives the request that
/// closes it.
///
/// Fails with `InvalidIdentifierFormat` or `UnrecognizedProviderPrefix`
/// where the reference does not resolve, and with `Unsupported` where the
/// task is in a repository of a kind that cannot close tasks.
pub fn close_task<'a>(config: &'a AppConfig, provider_and_issue: &str) -> (r: Result<
    Dispatch<'a>,
    TaskError,
>)
    ensures
        is_dispatch_of(
            config.repository_refs(),
            provider_and_issue@,
            |p: TaskIssueProvider<'a>, id: Seq<char>| close_requests(p, id),
            r,
        ),
{
    match resolve_reference(config, provider_and_issue) {
        Err(e) => Err(e),
        Ok(target) => {
            let provider = target.0;
            let issue_id = target.1;
            let mut requests: Vec<HttpRequest> = Vec::new();
            match provider {
                TaskIssueProvider::GitHub(github_config, repo_config) => {
                    requests.push(close_task_github(github_config, repo_config, issue_id.as_str()));
                },
                TaskIssueProvider::GitLab(gitlab_config, repo_config) => {
                    requests.push(close_task_gitlab(gitlab_config, repo_config, issue_id.as_str()));
                },
                TaskIssueProvider::Jira(_, _) => {
                    return Err(TaskError::Unsupported);
                },
            }
            assert(request_views(requests@) =~= close_requests(provider, issue_id@));
            Ok(Dispatch { provider, requests })
        },
    }
}

/// Resolves the task `provider_and_issue` and gives the requests that add
/// `tags` to it. The tags are a set: each of them is sent once.
///
/// Fails with `InvalidIdentifierFormat` or `UnrecognizedProviderPrefix`
/// where the reference does not resolve, and with `Unsupported` where the
/// task is in a repository of a kind whose labels cannot be changed.
pub fn add_tags_to_task<'a>(
    app_config: &'a AppConfig,
    provider_and_issue: &str,
    tags: &Vec<String>,
) -> (r: Result<Dispatch<'a>, TaskError>)
    ensures
        is_dispatch_of(
            app_config.repository_refs(),
            provider_and_issue@,
            |p: TaskIssueProvider<'a>, id: Seq<char>| add_tags_requests(p, id, views(tags@)),
            r,
        ),
{
    match resolve_reference(app_config, provider_and_issue) {
        Err(e) => Err(e),
        Ok(target) => {
            let provider = target.0;
            let issue_id = target.1;
            let mut requests: Vec<HttpRequest> = Vec::new();
            match provider {
                TaskIssueProvider::GitHub(github_config, repo_config) => {
                    requests.push(
                        add_labels_to_github_issue(
                            repo_config,
                            github_config,
                            issue_id.as_str(),
                            tags,
                        ),
                    );
                },
                TaskIssueProvider::GitLab(gitlab_config, repo_config) => {
                    requests.push(
                        add_labels_to_gitlab_issue(
                            repo_config,
                            gitlab_config,
                            issue_id.as_str(),
                            tags,
                        ),
                    );
                },
                TaskIssueProvider::Jira(_, _) => {
                    return Err(TaskError::Unsupported);
                },
            }
            assert(request_views(requests@) =~= add_tags_requests(
                provider,
                issue_id@,
                views(tags@),
            ));
            Ok(Dispatch { provider, requests })
        },
    }
}

/// Resolves the task `provider_and_issue` and gives the requests that take
/// `tags` off it. The tags are a set: each of them is sent once.
///
/// Fails with `InvalidIdentifierFormat` or `UnrecognizedProviderPrefix`
/// where the reference does not resolve, and with `Unsupported` where the
/// task is in a repository of a kind whose labels cannot be changed.
pub fn remove_tags_from_task<'a>(
    app_config: &'a AppConfig,
    provider_and_issue: &str,
    tags: &Vec<String>,
) -> (r: Result<Dispatch<'a>, TaskError>)
    ensures
        is_dispatch_of(
            app_config.repository_refs(),
            provider_and_issue@,
            |p: TaskIssueProvider<'a>, id: Seq<char>| remove_tags_requests(p, id, views(tags@)),
            r,
        ),
{
    match resolve_reference(app_config, provider_and_issue) {
        Err(e) => Err(e),
        Ok(target) => {
            let provider = target.0;
            let issue_id = target.1;
            match provider {
                TaskIssueProvider::GitHub(github_config, repo_config) => {
                    let requests = remove_labels_from_github_issue(
                        repo_config,
                        github_config,
                        issue_id.as_str(),
                        tags,
                    );
                    Ok(Dispatch { provider, requests })
                },
                TaskIssueProvider::GitLab(gitlab_config, repo_config) => {
                    let mut requests: Vec<HttpRequest> = Vec::new();
                    requests.push(
                        remove_labels_from_gitlab_issue(
                            repo_config,
                            gitlab_config,
                            issue_id.as_str(),
                            tags,
                        ),
                    );
                    assert(request_views(requests@) =~= remove_tags_requests(
                        provider,
                        issue_id@,
                        views(tags@),
                    ));
                    Ok(Dispatch { provider, requests })
                },
                TaskIssueProvider::Jira(_, _) => Err(TaskError::Unsupported),
            }
        },
    }
}

/// The headers that identify the account of a repository to its backend,
/// given the secret `token` of the account. For Jira they carry the
/// username of the keyring entry too, and there are none where the account
/// has no such entry.
pub open spec fn auth_header_views(provider: TaskIssueProvider, token: Seq<char>) -> Option<
    Seq<HeaderView>,
> {
    match provider {
        TaskIssueProvider::GitHub(_, _) => Some(github_headers(token)),
        TaskIssueProvider::GitLab(_, _) => Some(gitlab_headers(token)),
        TaskIssueProvider::Jira(config, _) => match config.credential {
            Some(entry) => Some(
                basic_auth_headers(base64_standard(basic_credentials(entry.username@, token))),
            ),
            None => None,
        },
    }
}

/// The headers that identify the account of a repository to its backend.
/// They are sent before the headers of a request.
pub fn auth_headers(provider: &TaskIssueProvider, token: &str) -> (headers: Option<Vec<Header>>)
    ensures
        match headers {
            Some(h) => auth_header_views(*provider, token@) == Some(header_views(h@)),
            None => auth_header_views(*provider, token@) is None,
        },
{
    match *provider {
        TaskIssueProvider::GitHub(_, _) => Some(construct_github_header(token)),
        TaskIssueProvider::GitLab(_, _) => Some(construct_gitlab_header(token)),
        TaskIssueProvider::Jira(config, _) => match config.get_username() {
            Some(username) => Some(construct_jira_basic_auth_header(username.as_str(), token)),
            None => None,
        },
    }
}

/// An issue in the shape of its backend.
#[derive(Debug, Clone)]
pub enum NativeIssue {
    GitHub(GitHubIssue),
    GitLab(GitLabIssue),
    Jira(JiraIssue),
}

/// An issue of a repository in the common shape; `None` where the issue is
/// not in the shape of the backend of the repository.
pub open spec fn normal_view(provider: TaskIssueProvider, native: NativeIssue) -> Option<
    IssueView,
> {
    match (provider, native) {
        (TaskIssueProvider::GitHub(_, repo), NativeIssue::GitHub(issue)) => Some(
            github_issue_view(*repo, issue),
        ),
        (TaskIssueProvider::GitLab(_, repo), NativeIssue::GitLab(issue)) => Some(
            gitlab_issue_view(*repo, issue),
        ),
        (TaskIssueProvider::Jira(_, project), NativeIssue::Jira(issue)) => Some(
            jira_issue_view(*project, issue),
        ),
        _ => None,
    }
}

/// Brings an issue of a repository into the common shape, whatever the
/// kind of the repository.
pub fn normalize(provider: &TaskIssueProvider, native: &NativeIssue) -> (normal: Option<Issue>)
    ensures
        match normal {
            Some(issue) => normal_view(*provider, *native) == Some(issue@),
            None => normal_view(*provider, *native) is None,
        },
{
    match *provider {
        TaskIssueProvider::GitHub(_, repo) => match native {
            NativeIssue::GitHub(issue) => Some(issue_from_github(repo, issue)),
            _ => None,
        },
        TaskIssueProvider::GitLab(_, repo) => match native {
            NativeIssue::GitLab(issue) => Some(issue_from_gitlab(repo, issue)),
            _ => None,
        },
        TaskIssueProvider::Jira(_, project) => match native {
            NativeIssue::Jira(issue) => Some(issue_from_jira(project, issue)),
            _ => None,
        },
    }
}

/// The issues of a repository in the common shape, in their order; `None`
/// where one of them is not in the shape of the backend of the repository.
pub open spec fn normal_views(provider: TaskIssueProvider, natives: Seq<NativeIssue>) -> Option<
    Seq<IssueView>,
> {
    if forall|i: int|
        0 <= i < natives.len() ==> normal_view(provider, #[trigger] natives[i]) is Some {
        Some(natives.map_values(|n: NativeIssue| normal_view(provider, n)->0))
    } else {
        None
    }
}

/// Brings the issues that a repository listed into the common shape, in
/// the order in which they were given. There is no result where one of
/// them is not in the shape of the backend of the repository.
pub fn normalize_all(provider: &TaskIssueProvider, natives: &Vec<NativeIssue>) -> (normal: Option<
    Vec<Issue>,
>)
    ensures
        match normal {
            Some(issues) => normal_views(*provider, natives@) == Some(issue_views(issues@)),
            None => normal_views(*provider, natives@) is None,
        },
{
    let mut issues: Vec<Issue> = Vec::new();
    let mut i: usize = 0;
    while i < natives.len()
        invariant
            i <= natives.len(),
            issues.len() == i,
            forall|k: int|
                0 <= k < i ==> normal_view(*provider, #[trigger] natives[k]) == Some(issues[k]@),
        decreases natives.len() - i,
    {
        match normalize(provider, &natives[i]) {
            Some(issue) => {
                issues.push(issue);
            },
            None => {
                return None;
            },
        }
        i = i + 1;
    }
    assert(issue_views(issues@) =~= natives@.map_values(
        |n: NativeIssue| normal_view(*provider, n)->0,
    ));
    Some(issues)
}

/// Why a repository has no tasks to show, if it has none: the request did
/// not get through (`answer` is the text of the failure, and the status
/// has the code 0), the backend answered without success, or it answered
/// with success and sent nothing that could be read as issues of its kind.
pub open spec fn fetch_failure(
    provider: TaskIssueProvider,
    answer: Result<Status, String>,
    natives: Option<Vec<NativeIssue>>,
) -> Option<Status> {
    match answer {
        Err(_) => Some(answer_status(answer)),
        Ok(status) => if !is_success_code(status.code) {
            Some(status)
        } else if natives is None {
            Some(status)
        } else if normal_views(provider, natives->0@) is None {
            Some(status)
        } else {
            None
        },
    }
}

/// What came back from one repository, as the aggregator takes it.
///
/// `answer` is the status that the backend answered with, or the text of
/// the failure where the request did not get through; `natives` is what
/// was read from the body of an answer, if it could be read. The tasks are
/// the issues in the common shape, in their order, where the backend
/// answered with success and its issues could be read; any other outcome is
/// a failure of this repository alone.
pub fn fetched_of(
    repository: &TaskIssueProvider,
    answer: Result<Status, String>,
    natives: Option<Vec<NativeIssue>>,
) -> (fetched: Fetched)
    ensures
        fetched.repository_id@ == repository.id_view(),
        match fetched.outcome {
            Ok(issues) => fetch_failure(*repository, answer, natives) is None && normal_views(
                *repository,
                natives->0@,
            ) == Some(issue_views(issues@)),
            Err(status) => fetch_failure(*repository, answer, natives) == Some(status),
        },
{
    let repository_id = repository.id();
    let outcome = match answer {
        Err(text) => Err(Status { code: 0, body: text }),
        Ok(status) => {
            if !is_success(status.code) {
                Err(status)
            } else {
                let normal = match &natives {
                    Some(list) => normalize_all(repository, list),
                    None => None,
                };
                match normal {
                    Some(issues) => Ok(issues),
                    None => Err(status),
                }
            }
        },
    };
    Fetched { repository_id, outcome }
}

/// The task that the creation of a task comes to, as a value: the issue
/// that the backend sent back, in the common shape; `None` where the
/// backend did not succeed or sent no issue of its kind.
pub open spec fn created_view(
    provider: TaskIssueProvider,
    status: Status,
    created: Option<NativeIssue>,
) -> Option<IssueView> {
    if is_success_code(status.code) && created is Some {
        normal_view(provider, created->0)
    } else {
        None
    }
}

/// What the answer to the creation of a task means: the created task in
/// the common shape, or the error of the backend with its status. An answer
/// that tells of success without an issue of the kind of the repository
/// counts as an error of the backend.
pub fn task_created(
    provider: &TaskIssueProvider,
    status: Status,
    created: Option<NativeIssue>,
) -> (r: Result<Issue, TaskError>)
    ensures
        match r {
            Ok(issue) => created_view(*provider, status, created) == Some(issue@),
            Err(e) => created_view(*provider, status, created) is None && e
                == TaskError::BackendError(status),
        },
{
    if !is_success(status.code) {
        return Err(TaskError::BackendError(status));
    }
    let normal = match &created {
        Some(native) => normalize(provider, native),
        None => None,
    };
    match normal {
        Some(issue) => Ok(issue),
        None => Err(TaskError::BackendError(status)),
    }
}

/// How far a change has come after an answer.
#[derive(Debug, Clone)]
pub enum Progress {
    /// The request at this position is sent next.
    Next(usize),
    /// Every request was answered with success.
    Finished,
    /// The backend refused a request; none is sent after it.
    Failed(TaskError),
}

/// What follows the answer `status` to the request at `position` of a
/// change of `count` requests: the next request after a success, the end
/// after the last success, and after a failure the error of the backend
/// and no further request.
pub fn after_answer(count: usize, position: usize, status: Status) -> (progress: Progress)
    ensures
        !is_success_code(status.code) ==> progress == Progress::Failed(
            TaskError::BackendError(status),
        ),
        is_success_code(status.code) && position + 1 < count ==> progress == Progress::Next(
            (position + 1) as usize,
        ),
        is_success_code(status.code) && position + 1 >= count ==> progress == Progress::Finished,
{
    if !is_success(status.code) {
        Progress::Failed(TaskError::BackendError(status))
    } else if position < count && count - position > 1 {
        Progress::Next(position + 1)
    } else {
        Progress::Finished
    }
}

/// The naming scheme holds together: in a registry, the reference made of
/// the id of a repository and of a native id resolves to that repository
/// and that native id, where both are valid segments.
pub proof fn lemma_reference_resolves(
    refs: Seq<TaskIssueProvider>,
    k: int,
    native_id: Seq<char>,
)
    requires
        distinct_ids(refs),
        0 <= k < refs.len(),
        valid_segment(refs[k].id_view()),
        valid_segment(native_id),
    ensures
        resolved(refs, encoded(refs[k].id_view(), native_id)) == Ok::<
            (TaskIssueProvider, Seq<char>),
            TaskError,
        >((refs[k], native_id)),
{
    lemma_decode_encode(refs[k].id_view(), native_id);
    lemma_id_names_one_repository(refs, refs[k].id_view(), k);
}

} // verus!
