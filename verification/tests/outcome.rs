use tskmstr::config::{AppConfig, Colors, LabelConfig};
use tskmstr::control::{
    after_answer, fetched_of, normalize, normalize_all, task_created, NativeIssue, Progress,
};
use tskmstr::error::{Status, TaskError};
use tskmstr::providers::common::request::status_of;
use tskmstr::providers::github::model::{GitHubConfig, GitHubIssue, GitHubLabel, GitHubRepository};
use tskmstr::providers::gitlab::model::{GitLabConfig, GitLabIssue, GitLabRepository};
use tskmstr::providers::jira::model::{JiraConfig, JiraIssue, JiraProject};

fn registry() -> AppConfig {
    AppConfig::new(
        None,
        Colors { issue_id: "magenta".to_string(), title: "blue".to_string(), tags: "green".to_string() },
        LabelConfig { priority_labels: vec![], priority_timeframe: None },
        vec![GitHubConfig {
            credential: None,
            endpoint: "https://api.github.com".to_string(),
            provider_id: "github.com".to_string(),
            repositories: vec![GitHubRepository {
                id: "gh0".to_string(),
                color: "red".to_string(),
                owner: "octo".to_string(),
                repo: "cat".to_string(),
                defaults: None,
            }],
        }],
        vec![GitLabConfig {
            credential: None,
            endpoint: "https://gitlab.com".to_string(),
            provider_id: "gitlab.com".to_string(),
            repositories: vec![GitLabRepository {
                id: "gl0".to_string(),
                color: "blue".to_string(),
                project_id: "7".to_string(),
                defaults: None,
                filter: None,
            }],
        }],
        vec![JiraConfig {
            credential: None,
            endpoint: "https://example.atlassian.net".to_string(),
            provider_id: "jira".to_string(),
            projects: vec![JiraProject {
                id: "j0".to_string(),
                color: "green".to_string(),
                project_key: "PROJ".to_string(),
                default_issue_type: "Task".to_string(),
                close_transition_id: "31".to_string(),
                defaults: None,
                filter: None,
            }],
        }],
    )
    .unwrap()
}

fn github_issue(number: u32) -> NativeIssue {
    NativeIssue::GitHub(GitHubIssue {
        number,
        title: "Crash".to_string(),
        html_url: "https://github.com/octo/cat/issues/1".to_string(),
        labels: vec![GitHubLabel { name: "bug".to_string() }],
    })
}

fn gitlab_issue(iid: u32) -> NativeIssue {
    NativeIssue::GitLab(GitLabIssue {
        iid,
        title: "Crash".to_string(),
        web_url: "https://gitlab.com/x/-/issues/1".to_string(),
        labels: vec![],
    })
}

fn jira_issue(key: &str) -> NativeIssue {
    NativeIssue::Jira(JiraIssue { id: key.to_string(), url: "u".to_string(), fields: None })
}

fn status(code: u16) -> Status {
    Status { code, body: "body".to_string() }
}

#[test]
fn normalize_follows_the_kind_of_the_repository() {
    let config = registry();
    let github = config.find_provider_by_id("gh0").unwrap().unwrap();
    let gitlab = config.find_provider_by_id("gl0").unwrap().unwrap();
    let jira = config.find_provider_by_id("j0").unwrap().unwrap();
    assert_eq!(normalize(&github, &github_issue(12)).unwrap().id, "gh0/12");
    assert_eq!(normalize(&gitlab, &gitlab_issue(3)).unwrap().id, "gl0/3");
    assert_eq!(normalize(&jira, &jira_issue("PROJ-9")).unwrap().id, "j0/PROJ-9");
}

#[test]
fn normalize_refuses_an_issue_of_another_kind() {
    let config = registry();
    let github = config.find_provider_by_id("gh0").unwrap().unwrap();
    let jira = config.find_provider_by_id("j0").unwrap().unwrap();
    assert!(normalize(&github, &gitlab_issue(3)).is_none());
    assert!(normalize(&github, &jira_issue("PROJ-9")).is_none());
    assert!(normalize(&jira, &github_issue(1)).is_none());
}

#[test]
fn task_created_gives_the_created_task() {
    let config = registry();
    let github = config.find_provider_by_id("gh0").unwrap().unwrap();
    let created = task_created(&github, status(201), Some(github_issue(5))).unwrap();
    assert_eq!(created.id, "gh0/5");
    assert_eq!(created.title, "Crash");
    assert_eq!(created.tags.len(), 1);
}

#[test]
fn task_created_gives_the_error_of_the_backend() {
    let config = registry();
    let github = config.find_provider_by_id("gh0").unwrap().unwrap();
    assert!(matches!(
        task_created(&github, status(422), None),
        Err(TaskError::BackendError(Status { code: 422, ref body })) if body == "body"
    ));
    assert!(matches!(
        task_created(&github, status(500), Some(github_issue(5))),
        Err(TaskError::BackendError(Status { code: 500, .. }))
    ));
    assert!(matches!(
        task_created(&github, status(201), None),
        Err(TaskError::BackendError(Status { code: 201, .. }))
    ));
    assert!(matches!(
        task_created(&github, status(201), Some(gitlab_issue(5))),
        Err(TaskError::BackendError(Status { code: 201, .. }))
    ));
}

#[test]
fn after_answer_goes_on_after_a_success() {
    assert!(matches!(after_answer(3, 0, status(204)), Progress::Next(1)));
    assert!(matches!(after_answer(3, 1, status(200)), Progress::Next(2)));
}

#[test]
fn after_answer_ends_after_the_last_success() {
    assert!(matches!(after_answer(3, 2, status(200)), Progress::Finished));
    assert!(matches!(after_answer(1, 0, status(200)), Progress::Finished));
    assert!(matches!(after_answer(0, 0, status(200)), Progress::Finished));
    assert!(matches!(after_answer(2, usize::MAX, status(200)), Progress::Finished));
}

#[test]
fn after_answer_stops_at_a_failure() {
    assert!(matches!(
        after_answer(3, 0, status(404)),
        Progress::Failed(TaskError::BackendError(Status { code: 404, .. }))
    ));
    assert!(matches!(
        after_answer(3, 2, status(500)),
        Progress::Failed(TaskError::BackendError(Status { code: 500, .. }))
    ));
}

#[test]
fn normalize_all_keeps_the_order_of_the_issues() {
    let config = registry();
    let github = config.find_provider_by_id("gh0").unwrap().unwrap();
    let issues = normalize_all(&github, &vec![github_issue(7), github_issue(3)]).unwrap();
    let ids: Vec<String> = issues.iter().map(|i| i.id.clone()).collect();
    assert_eq!(ids, vec!["gh0/7", "gh0/3"]);
    assert!(normalize_all(&github, &vec![]).unwrap().is_empty());
}

#[test]
fn normalize_all_refuses_a_list_with_an_issue_of_another_kind() {
    let config = registry();
    let github = config.find_provider_by_id("gh0").unwrap().unwrap();
    assert!(normalize_all(&github, &vec![github_issue(7), gitlab_issue(3)]).is_none());
}

#[test]
fn fetched_of_gives_the_tasks_of_a_repository_that_answered() {
    let config = registry();
    let gitlab = config.find_provider_by_id("gl0").unwrap().unwrap();
    let fetched =
        fetched_of(&gitlab, Ok(status(200)), Some(vec![gitlab_issue(2), gitlab_issue(1)]));
    assert_eq!(fetched.repository_id, "gl0");
    let ids: Vec<String> = fetched.outcome.unwrap().iter().map(|i| i.id.clone()).collect();
    assert_eq!(ids, vec!["gl0/2", "gl0/1"]);
}

#[test]
fn fetched_of_counts_a_refusal_as_a_failure() {
    let config = registry();
    let gitlab = config.find_provider_by_id("gl0").unwrap().unwrap();
    let fetched = fetched_of(&gitlab, Ok(status(503)), Some(vec![gitlab_issue(2)]));
    assert_eq!(fetched.repository_id, "gl0");
    assert!(matches!(fetched.outcome, Err(Status { code: 503, ref body }) if body == "body"));
}

#[test]
fn fetched_of_counts_a_request_that_did_not_get_through_as_a_failure() {
    let config = registry();
    let jira = config.find_provider_by_id("j0").unwrap().unwrap();
    let fetched = fetched_of(&jira, Err("timed out".to_string()), None);
    assert_eq!(fetched.repository_id, "j0");
    assert!(matches!(fetched.outcome, Err(Status { code: 0, ref body }) if body == "timed out"));
}

#[test]
fn fetched_of_counts_a_body_that_cannot_be_read_as_a_failure() {
    let config = registry();
    let github = config.find_provider_by_id("gh0").unwrap().unwrap();
    let fetched = fetched_of(&github, Ok(status(200)), None);
    assert!(matches!(fetched.outcome, Err(Status { code: 200, .. })));
    let fetched = fetched_of(&github, Ok(status(200)), Some(vec![jira_issue("PROJ-1")]));
    assert!(matches!(fetched.outcome, Err(Status { code: 200, .. })));
}

#[test]
fn status_of_gives_the_code_zero_to_a_request_that_did_not_get_through() {
    let through = status_of(Ok(status(204)));
    assert_eq!(through.code, 204);
    assert_eq!(through.body, "body");
    let failed = status_of(Err("connection refused".to_string()));
    assert_eq!(failed.code, 0);
    assert_eq!(failed.body, "connection refused");
    assert!(matches!(
        after_answer(2, 0, failed),
        Progress::Failed(TaskError::BackendError(Status { code: 0, .. }))
    ));
}

