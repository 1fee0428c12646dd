//! The aggregator: one list request for each repository, and the merge of
//! what came back, which goes on when a repository fails.

use vstd::prelude::*;
use crate::config::{AppConfig, IssueTaskRepository, TaskIssueProvider};
use crate::error::Status;
use crate::providers::common::model::Issue;
use crate::providers::common::request::{HttpRequest, HttpRequestView};
use crate::providers::github::methods::{github_list_request, list_issues_github};
use crate::providers::gitlab::methods::{gitlab_list_request, list_issues_gitlab};
use crate::providers::jira::methods::{jira_list_request, list_issues_jira};
use crate::text::same_text;

verus! {

/// The text of a string that may be absent.
pub open spec fn option_view(s: Option<String>) -> Option<Seq<char>> {
    match s {
        Some(t) => Some(t@),
        None => None,
    }
}

/// The repositories that a listing reads: all of them, or with an id the
/// one with that id.
pub open spec fn is_selected<'a>(provider_id: Option<Seq<char>>) -> spec_fn(
    TaskIssueProvider<'a>,
) -> bool {
    |p: TaskIssueProvider| provider_id is None || p.id_view() == provider_id->0
}

/// The request that lists the tasks of a repository.
pub open spec fn list_request_view(repository: TaskIssueProvider) -> HttpRequestView {
    match repository {
        TaskIssueProvider::GitHub(config, repo) => github_list_request(*config, *repo),
        TaskIssueProvider::GitLab(config, repo) => gitlab_list_request(*config, *repo),
        TaskIssueProvider::Jira(config, project) => jira_list_request(*config, *project),
    }
}

/// The request that lists the tasks of a repository.
pub fn list_request(repository: &TaskIssueProvider) -> (request: HttpRequest)
    ensures
        request@ == list_request_view(*repository),
{
    match *repository {
        TaskIssueProvider::GitHub(config, repo) => list_issues_github(config, repo),
        TaskIssueProvider::GitLab(config, repo) => list_issues_gitlab(config, repo),
        TaskIssueProvider::Jira(config, project) => list_issues_jira(config, project),
    }
}

/// A list request and the repository that it asks.
#[derive(Debug, Clone)]
pub struct ListRequest<'a> {
    pub repository: TaskIssueProvider<'a>,
    pub request: HttpRequest,
}

/// The repositories that the requests of a plan ask, in the order of the
/// plan.
pub open spec fn repositories_of<'a>(plan: Seq<ListRequest<'a>>) -> Seq<TaskIssueProvider<'a>> {
    plan.map_values(|l: ListRequest<'a>| l.repository)
}

/// One list request for each of the repositories `refs` that the listing
/// reads, in the order of `refs`.
pub fn list_requests<'a>(refs: &Vec<TaskIssueProvider<'a>>, provider_id: &Option<String>) -> (plan:
    Vec<ListRequest<'a>>)
    ensures
        repositories_of(plan@) == refs@.filter(is_selected(option_view(*provider_id))),
        forall|i: int|
            0 <= i < plan.len() ==> (#[trigger] plan[i]).request@ == list_request_view(
                plan[i].repository,
            ),
{
    let ghost wanted = is_selected(option_view(*provider_id));
    let mut plan: Vec<ListRequest<'a>> = Vec::new();
    let mut n: usize = 0;
    proof {
        reveal(Seq::filter);
        assert(repositories_of(plan@) =~= refs@.take(0).filter(wanted));
    }
    while n < refs.len()
        invariant
            n <= refs.len(),
            wanted == is_selected(option_view(*provider_id)),
            repositories_of(plan@) == refs@.take(n as int).filter(wanted),
            forall|i: int|
                0 <= i < plan.len() ==> (#[trigger] plan[i]).request@ == list_request_view(
                    plan[i].repository,
                ),
        decreases refs.len() - n,
    {
        let ghost before = repositories_of(plan@);
        proof {
            assert(refs@.take(n + 1) == refs@.take(n as int).push(refs@[n as int]));
            refs@.take(n as int).lemma_filter_push(refs@[n as int], wanted);
        }
        let selected = match provider_id {
            None => true,
            Some(id) => same_text(refs[n].id_str(), id.as_str()),
        };
        if selected {
            plan.push(ListRequest { repository: refs[n], request: list_request(&refs[n]) });
            assert(repositories_of(plan@) =~= before.push(refs@[n as int]));
        }
        n = n + 1;
    }
    assert(refs@.take(n as int) == refs@);
    plan
}

/// One list request for each repository of the registry that the listing
/// reads, in registry order: all repositories, or with `provider_id` the
/// one with that id.
pub fn listing_plan<'a>(provider_id: &Option<String>, config: &'a AppConfig) -> (plan: Vec<
    ListRequest<'a>,
>)
    ensures
        repositories_of(plan@) == config.repository_refs().filter(
            is_selected(option_view(*provider_id)),
        ),
        forall|i: int|
            0 <= i < plan.len() ==> (#[trigger] plan[i]).request@ == list_request_view(
                plan[i].repository,
            ),
{
    let refs = config.all_repository_refs();
    list_requests(&refs, provider_id)
}

/// What came back from one repository: its tasks in the common shape, or
/// the status with which the request failed.
#[derive(Debug)]
pub struct Fetched {
    /// The id of the repository.
    pub repository_id: String,
    pub outcome: Result<Vec<Issue>, Status>,
}

/// A repository whose tasks are missing from a listing, and why.
#[derive(Debug, Clone)]
pub struct PartialAggregationFailure {
    pub repository_id: String,
    pub status: Status,
}

/// The merged tasks and the repositories that failed.
#[derive(Debug, Clone)]
pub struct Aggregate {
    pub issues: Vec<Issue>,
    pub failures: Vec<PartialAggregationFailure>,
}

/// The tasks that one repository adds to the merge: those it returned, and
/// none where it failed.
pub open spec fn issues_of(fetched: Fetched) -> Seq<Issue> {
    match fetched.outcome {
        Ok(issues) => issues@,
        Err(_) => Seq::empty(),
    }
}

/// The merged tasks: the tasks of the repositories that answered, one
/// repository after the other, each in the order in which its backend gave
/// them.
pub open spec fn merged_issues(fetched: Seq<Fetched>) -> Seq<Issue>
    decreases fetched.len(),
{
    if fetched.len() == 0 {
        Seq::empty()
    } else {
        merged_issues(fetched.drop_last()) + issues_of(fetched.last())
    }
}

/// The repositories that failed as values: the id of each with its status,
/// in the order of `fetched`.
pub open spec fn failures_of(fetched: Seq<Fetched>) -> Seq<(Seq<char>, Status)>
    decreases fetched.len(),
{
    if fetched.len() == 0 {
        Seq::empty()
    } else {
        match fetched.last().outcome {
            Ok(_) => failures_of(fetched.drop_last()),
            Err(status) => failures_of(fetched.drop_last()).push(
                (fetched.last().repository_id@, status),
            ),
        }
    }
}

/// The failures as values.
pub open spec fn failure_views(failures: Seq<PartialAggregationFailure>) -> Seq<
    (Seq<char>, Status),
> {
    failures.map_values(|f: PartialAggregationFailure| (f.repository_id@, f.status))
}

/// Merges what came back from the repositories. A repository that failed
/// adds no task and is reported; the others are merged all the same.
pub fn merge(fetched: Vec<Fetched>) -> (aggregate: Aggregate)
    ensures
        aggregate.issues@ == merged_issues(fetched@),
        failure_views(aggregate.failures@) == failures_of(fetched@),
{
    let ghost all = fetched@;
    let mut issues: Vec<Issue> = Vec::new();
    let mut failures: Vec<PartialAggregationFailure> = Vec::new();
    assert(failure_views(failures@) =~= failures_of(all.take(0)));
    for item in it: fetched
        invariant
            it.seq() == all,
            issues@ == merged_issues(all.take(it.index() as int)),
            failure_views(failures@) == failures_of(all.take(it.index() as int)),
    {
        let ghost done = it.index() as int;
        let ghost so_far = failure_views(failures@);
        proof {
            assert(all.take(done + 1).drop_last() == all.take(done));
            assert(all.take(done + 1).last() == item);
        }
        match item.outcome {
            Ok(mut list) => {
                issues.append(&mut list);
            },
            Err(status) => {
                failures.push(
                    PartialAggregationFailure { repository_id: item.repository_id, status },
                );
                assert(failure_views(failures@) =~= so_far.push((item.repository_id@, status)));
            },
        }
    }
    assert(all.take(all.len() as int) == all);
    Aggregate { issues, failures }
}

/// A repository that failed takes nothing from the merge and adds nothing
/// to it: without its answer the merged tasks are the same.
pub proof fn lemma_failure_leaves_merge(fetched: Seq<Fetched>, i: int)
    requires
        0 <= i < fetched.len(),
        fetched[i].outcome is Err,
    ensures
        merged_issues(fetched) == merged_issues(fetched.remove(i)),
    decreases fetched.len(),
{
    if i == fetched.len() - 1 {
        assert(fetched.remove(i) =~= fetched.drop_last());
    } else {
        lemma_failure_leaves_merge(fetched.drop_last(), i);
        assert(fetched.remove(i).drop_last() =~= fetched.drop_last().remove(i));
        assert(fetched.remove(i).last() == fetched.last());
    }
}

/// The merge of the answers of two runs of repositories is the merge of
/// the first run followed by the merge of the second.
pub proof fn lemma_merge_concat(a: Seq<Fetched>, b: Seq<Fetched>)
    ensures
        merged_issues(a + b) == merged_issues(a) + merged_issues(b),
    decreases b.len(),
{
    if b.len() == 0 {
        assert(a + b =~= a);
    } else {
        lemma_merge_concat(a, b.drop_last());
        assert((a + b).drop_last() =~= a + b.drop_last());
        assert((a + b).last() == b.last());
    }
}

} // verus!
