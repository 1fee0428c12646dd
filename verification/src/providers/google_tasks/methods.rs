//! Google Tasks: the request that lists a task list, and its tasks brought
//! into the common shape. Nothing else is offered for this backend.

use vstd::prelude::*;
use vstd::string::*;
use crate::aggregate::option_view;
use crate::error::TaskError;
use crate::identifier::{encode, encoded};
use crate::providers::common::model::{issue_views, Issue, IssueView, Label};
use crate::providers::common::request::{
    header, header_views, make_header, Body, BodyView, Header, HeaderView, HttpRequest,
    HttpRequestView, Method,
};
use crate::providers::google_tasks::model::{GoogleTask, GoogleTaskConfig, GoogleTaskList};
use crate::text::same_text;

verus! {

/// The headers that identify the account to Google Tasks.
pub open spec fn google_tasks_headers(token: Seq<char>) -> Seq<HeaderView> {
    seq![
        header("user-agent"@, "User"@),
        header("authorization"@, "Bearer "@ + token),
        header("accept"@, "application/vnd.google_tasks.v3+json"@),
    ]
}

/// The headers that identify the account to Google Tasks: the user agent,
/// the token as a bearer token, and the media type.
pub fn construct_google_tasks_header(token: &str) -> (headers: Vec<Header>)
    ensures
        header_views(headers@) == google_tasks_headers(token@),
{
    let mut bearer = String::from_str("Bearer ");
    bearer.append(token);
    let mut headers: Vec<Header> = Vec::new();
    headers.push(make_header("user-agent", String::from_str("User")));
    headers.push(make_header("authorization", bearer));
    headers.push(make_header("accept", String::from_str("application/vnd.google_tasks.v3+json")));
    assert(header_views(headers@) =~= google_tasks_headers(token@));
    headers
}

/// The request that lists the tasks of a task list.
pub open spec fn google_tasks_list_request(
    config: GoogleTaskConfig,
    list: GoogleTaskList,
) -> HttpRequestView {
    HttpRequestView {
        method: Method::Get,
        url: config.endpoint@ + "//tasks/v1/users/@me/lists/"@ + list.id@,
        headers: Seq::empty(),
        body: BodyView::Empty,
    }
}

/// The request that lists the tasks of a task list.
pub fn list_tasks_google_tasks(config: &GoogleTaskConfig, list: &GoogleTaskList) -> (request:
    HttpRequest)
    ensures
        request@ == google_tasks_list_request(*config, *list),
{
    let mut url = config.endpoint.clone();
    url.append("//tasks/v1/users/@me/lists/");
    url.append(list.id.as_str());
    let request = HttpRequest { method: Method::Get, url, headers: Vec::new(), body: Body::Empty };
    assert(request@.headers =~= Seq::empty());
    request
}

/// A list request and the task list that it asks.
#[derive(Debug, Clone)]
pub struct GoogleListRequest<'a> {
    pub task_list: &'a GoogleTaskList,
    pub request: HttpRequest,
}

/// The task lists that the requests of a plan ask, in the order of the
/// plan.
pub open spec fn task_lists_of(plan: Seq<GoogleListRequest>) -> Seq<GoogleTaskList> {
    plan.map_values(|l: GoogleListRequest| *l.task_list)
}

/// The task lists that a listing reads: all of them, or with an id the one
/// with that id.
pub open spec fn is_selected_list(
    provider_id: Option<Seq<char>>) -> spec_fn(GoogleTaskList,
) -> bool {
    |l: GoogleTaskList| provider_id is None || l.id@ == provider_id->0
}

/// The requests that list the tasks of the task lists of an account, in
/// their order; with `provider_id`, of the task list with that id only.
pub fn collect_tasks_from_google_tasks<'a>(
    google_tasks_config: &'a GoogleTaskConfig,
    provider_id: &Option<String>,
) -> (plan: Vec<GoogleListRequest<'a>>)
    ensures
        task_lists_of(plan@) == google_tasks_config.tasklists@.filter(
            is_selected_list(option_view(*provider_id)),
        ),
        forall|i: int|
            0 <= i < plan.len() ==> (#[trigger] plan[i]).request@ == google_tasks_list_request(
                *google_tasks_config,
                *plan[i].task_list,
            ),
{
    let ghost wanted = is_selected_list(option_view(*provider_id));
    let ghost lists = google_tasks_config.tasklists@;
    let mut plan: Vec<GoogleListRequest<'a>> = Vec::new();
    let mut n: usize = 0;
    proof {
        reveal(Seq::filter);
        assert(task_lists_of(plan@) =~= lists.take(0).filter(wanted));
    }
    while n < google_tasks_config.tasklists.len()
        invariant
            n <= google_tasks_config.tasklists.len(),
            lists == google_tasks_config.tasklists@,
            wanted == is_selected_list(option_view(*provider_id)),
            task_lists_of(plan@) == lists.take(n as int).filter(wanted),
            forall|i: int|
                0 <= i < plan.len() ==> (#[trigger] plan[i]).request@ == google_tasks_list_request(
                    *google_tasks_config,
                    *plan[i].task_list,
                ),
        decreases google_tasks_config.tasklists.len() - n,
    {
        let ghost before = task_lists_of(plan@);
        let list = &google_tasks_config.tasklists[n];
        proof {
            assert(lists.take(n + 1) == lists.take(n as int).push(lists[n as int]));
            lists.take(n as int).lemma_filter_push(lists[n as int], wanted);
        }
        let selected = match provider_id {
            None => true,
            Some(id) => same_text(list.id.as_str(), id.as_str()),
        };
        if selected {
            plan.push(
                GoogleListRequest {
                    task_list: list,
                    request: list_tasks_google_tasks(google_tasks_config, list),
                },
            );
            assert(task_lists_of(plan@) =~= before.push(lists[n as int]));
        }
        n = n + 1;
    }
    assert(lists.take(n as int) == lists);
    plan
}

/// A task of Google Tasks in the common shape: its id is the id of the
/// task list and the id of the task, and it has no tags.
pub open spec fn google_task_view(list: GoogleTaskList, task: GoogleTask) -> IssueView {
    IssueView {
        title: task.title@,
        html_url: task.url@,
        id: encoded(list.id@, task.id@),
        tags: Seq::empty(),
    }
}

/// Brings a task of Google Tasks into the common shape.
pub fn issue_from_google_task(list: &GoogleTaskList, task: &GoogleTask) -> (normal: Issue)
    ensures
        normal@ == google_task_view(*list, *task),
{
    let tags: Vec<Label> = Vec::new();
    let normal = Issue {
        id: encode(list.id.as_str(), task.id.as_str()),
        title: task.title.clone(),
        html_url: task.url.clone(),
        tags,
    };
    assert(normal.tag_names() =~= Seq::empty());
    normal
}

/// The tasks of Google Tasks in the common shape, in their order.
pub open spec fn google_task_views(list: GoogleTaskList, tasks: Seq<GoogleTask>) -> Seq<IssueView> {
    tasks.map_values(|t: GoogleTask| google_task_view(list, t))
}

/// Brings the tasks that Google Tasks listed for a task list into the
/// common shape, in the order in which they were given.
pub fn issues_from_google_tasks(list: &GoogleTaskList, tasks: &Vec<GoogleTask>) -> (normal: Vec<
    Issue,
>)
    ensures
        issue_views(normal@) == google_task_views(*list, tasks@),
{
    let mut normal: Vec<Issue> = Vec::new();
    let mut i: usize = 0;
    while i < tasks.len()
        invariant
            i <= tasks.len(),
            normal.len() == i,
            forall|k: int|
                0 <= k < i ==> (#[trigger] normal[k])@ == google_task_view(*list, tasks[k]),
        decreases tasks.len() - i,
    {
        normal.push(issue_from_google_task(list, &tasks[i]));
        i = i + 1;
    }
    assert(issue_views(normal@) =~= google_task_views(*list, tasks@));
    normal
}

/// Closing a task is not offered for Google Tasks.
pub fn close_task_google_tasks(
    google_tasks_config: &GoogleTaskConfig,
    task_list: &GoogleTaskList,
    issue_id: &str,
) -> (r: Result<HttpRequest, TaskError>)
    ensures
        r matches Err(e) && e is Unsupported,
{
    Err(TaskError::Unsupported)
}

/// Creating a task is not offered for Google Tasks.
pub fn add_new_task_google_tasks(
    google_tasks_list: &GoogleTaskList,
    google_tasks_config: &GoogleTaskConfig,
    title: &str,
    details: &str,
    tags: &Option<Vec<String>>,
) -> (r: Result<HttpRequest, TaskError>)
    ensures
        r matches Err(e) && e is Unsupported,
{
    Err(TaskError::Unsupported)
}

/// Google Tasks has no labels: none can be added.
pub fn add_labels_to_google_tasks_issue(
    google_tasks_list: &GoogleTaskList,
    google_tasks_config: &GoogleTaskConfig,
    issue_number: &str,
    labels: &Vec<String>,
) -> (r: Result<HttpRequest, TaskError>)
    ensures
        r matches Err(e) && e is Unsupported,
{
    Err(TaskError::Unsupported)
}

/// Google Tasks has no labels: none can be taken off.
pub fn remove_labels_from_google_tasks_issue(
    google_tasks_list: &GoogleTaskList,
    google_tasks_config: &GoogleTaskConfig,
    issue_number: &str,
    labels: &Vec<String>,
) -> (r: Result<HttpRequest, TaskError>)
    ensures
        r matches Err(e) && e is Unsupported,
{
    Err(TaskError::Unsupported)
}

} // verus!
