use tskmstr::aggregate::{listing_plan, merge, Fetched};
use tskmstr::config::{AppConfig, Colors, Defaults, IssueTaskRepository, LabelConfig, TaskIssueProvider};
use tskmstr::control::{
    add_new_task, add_tags_to_task, auth_headers, close_task, remove_tags_from_task,
    resolve_reference,
};
use tskmstr::error::{Status, TaskError};
use tskmstr::output::{aggregate_and_display_all_tasks, list_issue_stores};
use tskmstr::providers::common::credentials::CredentialKeyringEntry;
use tskmstr::providers::common::model::{Issue, Label};
use tskmstr::providers::common::request::{Body, Header, Method};
use tskmstr::providers::github::methods::collect_tasks_from_github;
use tskmstr::providers::github::model::{GitHubConfig, GitHubRepository};
use tskmstr::providers::gitlab::methods::collect_tasks_from_gitlab;
use tskmstr::providers::gitlab::model::{GitLabConfig, GitLabRepository};
use tskmstr::providers::jira::methods::collect_tasks_from_jira;
use tskmstr::providers::jira::model::{JiraConfig, JiraProject};

fn strings(items: &[&str]) -> Vec<String> {
    items.iter().map(|s| s.to_string()).collect()
}

fn pairs(headers: &Vec<Header>) -> Vec<(String, String)> {
    headers.iter().map(|h| (h.name.clone(), h.value.clone())).collect()
}

fn github_repo(id: &str, for_new_tasks: Option<bool>) -> GitHubRepository {
    GitHubRepository {
        id: id.to_string(),
        color: "red".to_string(),
        owner: "octo".to_string(),
        repo: format!("repo-{}", id),
        defaults: Some(Defaults { for_new_tasks, for_display: None }),
    }
}

fn gitlab_repo(id: &str, for_new_tasks: Option<bool>) -> GitLabRepository {
    GitLabRepository {
        id: id.to_string(),
        color: "blue".to_string(),
        project_id: format!("p-{}", id),
        defaults: Some(Defaults { for_new_tasks, for_display: None }),
        filter: None,
    }
}

fn jira_project(id: &str, for_new_tasks: Option<bool>) -> JiraProject {
    JiraProject {
        id: id.to_string(),
        color: "green".to_string(),
        project_key: "PROJ".to_string(),
        default_issue_type: "Task".to_string(),
        close_transition_id: "31".to_string(),
        defaults: Some(Defaults { for_new_tasks, for_display: None }),
        filter: None,
    }
}

fn registry(default_id: Option<&str>, jira_username: Option<&str>) -> AppConfig {
    let is_default = |id: &str| if default_id == Some(id) { Some(true) } else { None };
    AppConfig::new(
        Some(true),
        Colors { issue_id: "magenta".to_string(), title: "blue".to_string(), tags: "green".to_string() },
        LabelConfig { priority_labels: strings(&["urgent"]), priority_timeframe: None },
        vec![GitHubConfig {
            credential: None,
            endpoint: "https://api.github.com".to_string(),
            provider_id: "github.com".to_string(),
            repositories: vec![github_repo("gh0", is_default("gh0")), github_repo("gh1", is_default("gh1"))],
        }],
        vec![GitLabConfig {
            credential: None,
            endpoint: "https://gitlab.com".to_string(),
            provider_id: "gitlab.com".to_string(),
            repositories: vec![gitlab_repo("gl0", is_default("gl0"))],
        }],
        vec![JiraConfig {
            credential: jira_username.map(|u| CredentialKeyringEntry {
                service: "jira".to_string(),
                username: u.to_string(),
            }),
            endpoint: "https://example.atlassian.net".to_string(),
            provider_id: "jira".to_string(),
            projects: vec![jira_project("j0", is_default("j0"))],
        }],
    )
    .unwrap()
}

fn issue(id: &str, tags: &[&str]) -> Issue {
    Issue {
        title: format!("Title of {}", id),
        html_url: format!("https://example.org/{}", id),
        id: id.to_string(),
        tags: tags.iter().map(|t| Label { name: t.to_string() }).collect(),
    }
}

#[test]
fn add_goes_to_the_default_without_a_target() {
    let config = registry(Some("gl0"), None);
    let dispatch = add_new_task(&None, &config, "T", "D", &Some(strings(&["bug"]))).unwrap();
    assert_eq!(dispatch.provider.id(), "gl0");
    assert_eq!(dispatch.requests.len(), 1);
    let request = &dispatch.requests[0];
    assert_eq!(request.method, Method::Post);
    assert_eq!(request.url, "https://gitlab.com/api/v4/projects/p-gl0/issues");
    assert!(matches!(
        request.body,
        Body::GitLabIssue { ref title, ref description, ref labels }
            if title == "T" && description == "D" && *labels == Some(strings(&["bug"]))
    ));
}

#[test]
fn add_fails_without_a_default() {
    let config = registry(None, None);
    assert!(matches!(
        add_new_task(&None, &config, "T", "D", &None),
        Err(TaskError::ProviderNotFound)
    ));
}

#[test]
fn add_goes_to_the_repository_that_is_named() {
    let config = registry(Some("gl0"), None);
    let dispatch = add_new_task(&Some("gh1".to_string()), &config, "T", "D", &None).unwrap();
    assert_eq!(dispatch.provider.id(), "gh1");
    assert_eq!(dispatch.requests[0].url, "https://api.github.com/repos/octo/repo-gh1/issues");
    let dispatch = add_new_task(&Some("j0/PROJ-1".to_string()), &config, "T", "D", &None).unwrap();
    assert_eq!(dispatch.provider.id(), "j0");
    assert_eq!(dispatch.requests[0].url, "https://example.atlassian.net/rest/api/2/issue/");
    assert!(matches!(
        dispatch.requests[0].body,
        Body::JiraIssue { ref issue_type, ref labels, .. } if issue_type == "Task" && labels.is_none()
    ));
}

#[test]
fn add_fails_on_an_id_that_names_no_repository() {
    let config = registry(Some("gl0"), None);
    assert!(matches!(
        add_new_task(&Some("zz9".to_string()), &config, "T", "D", &None),
        Err(TaskError::ProviderNotFound)
    ));
}

#[test]
fn resolve_reference_gives_repository_and_native_id() {
    let config = registry(None, None);
    let (provider, native_id) = resolve_reference(&config, "gh0/123").unwrap();
    assert!(matches!(provider, TaskIssueProvider::GitHub(_, repo) if repo.id == "gh0"));
    assert_eq!(native_id, "123");
    let (provider, native_id) = resolve_reference(&config, "j0/PROJ-7").unwrap();
    assert_eq!(provider.id(), "j0");
    assert_eq!(native_id, "PROJ-7");
}

#[test]
fn resolve_reference_tells_a_bad_form_from_an_unknown_prefix() {
    let config = registry(None, None);
    assert!(matches!(resolve_reference(&config, "gh0"), Err(TaskError::InvalidIdentifierFormat)));
    assert!(matches!(resolve_reference(&config, "gh0/"), Err(TaskError::InvalidIdentifierFormat)));
    assert!(matches!(
        resolve_reference(&config, "gh0/1/2"),
        Err(TaskError::InvalidIdentifierFormat)
    ));
    assert!(matches!(
        resolve_reference(&config, "zz9/123"),
        Err(TaskError::UnrecognizedProviderPrefix)
    ));
    assert!(matches!(
        resolve_reference(&config, "gh/123"),
        Err(TaskError::UnrecognizedProviderPrefix)
    ));
}

#[test]
fn close_goes_to_the_repository_of_the_task() {
    let config = registry(None, None);
    let dispatch = close_task(&config, "gh1/17").unwrap();
    assert_eq!(dispatch.provider.id(), "gh1");
    assert_eq!(dispatch.requests.len(), 1);
    assert_eq!(dispatch.requests[0].method, Method::Patch);
    assert_eq!(dispatch.requests[0].url, "https://api.github.com/repos/octo/repo-gh1/issues/17");
    let dispatch = close_task(&config, "gl0/5").unwrap();
    assert_eq!(dispatch.requests[0].method, Method::Put);
    assert_eq!(
        dispatch.requests[0].url,
        "https://gitlab.com/api/v4/projects/p-gl0/issues/5?state_event=close"
    );
}

#[test]
fn close_is_unsupported_for_a_kind_without_close() {
    let config = registry(None, None);
    assert!(matches!(close_task(&config, "j0/PROJ-1"), Err(TaskError::Unsupported)));
}

#[test]
fn close_fails_on_a_reference_that_does_not_resolve() {
    let config = registry(None, None);
    assert!(matches!(close_task(&config, "17"), Err(TaskError::InvalidIdentifierFormat)));
    assert!(matches!(close_task(&config, "zz9/17"), Err(TaskError::UnrecognizedProviderPrefix)));
}

#[test]
fn tags_are_added_at_the_repository_of_the_task() {
    let config = registry(None, None);
    let tags = strings(&["a", "b"]);
    let dispatch = add_tags_to_task(&config, "gh0/17", &tags).unwrap();
    assert_eq!(dispatch.requests.len(), 1);
    assert_eq!(
        dispatch.requests[0].url,
        "https://api.github.com/repos/octo/repo-gh0/issues/17/labels"
    );
    assert!(matches!(dispatch.requests[0].body, Body::GitHubLabels { ref labels } if *labels == tags));
    let dispatch = add_tags_to_task(&config, "gl0/5", &tags).unwrap();
    assert_eq!(
        dispatch.requests[0].url,
        "https://gitlab.com/api/v4/projects/p-gl0/issues/5/add_labels"
    );
    assert!(matches!(add_tags_to_task(&config, "j0/PROJ-1", &tags), Err(TaskError::Unsupported)));
    assert!(matches!(
        add_tags_to_task(&config, "zz9/1", &tags),
        Err(TaskError::UnrecognizedProviderPrefix)
    ));
    assert!(matches!(add_tags_to_task(&config, "gh0", &tags), Err(TaskError::InvalidIdentifierFormat)));
}

#[test]
fn tags_are_removed_at_the_repository_of_the_task() {
    let config = registry(None, None);
    let tags = strings(&["a", "b"]);
    let dispatch = remove_tags_from_task(&config, "gh0/17", &tags).unwrap();
    let urls: Vec<String> = dispatch.requests.iter().map(|r| r.url.clone()).collect();
    assert_eq!(
        urls,
        vec![
            "https://api.github.com/repos/octo/repo-gh0/issues/17/labels/a",
            "https://api.github.com/repos/octo/repo-gh0/issues/17/labels/b",
        ]
    );
    let dispatch = remove_tags_from_task(&config, "gl0/5", &tags).unwrap();
    assert_eq!(dispatch.requests.len(), 1);
    assert_eq!(
        dispatch.requests[0].url,
        "https://gitlab.com/api/v4/projects/p-gl0/issues/5/remove_labels"
    );
    assert!(matches!(
        remove_tags_from_task(&config, "j0/PROJ-1", &tags),
        Err(TaskError::Unsupported)
    ));
    assert!(matches!(
        remove_tags_from_task(&config, "gl0/5/6", &tags),
        Err(TaskError::InvalidIdentifierFormat)
    ));
}

#[test]
fn auth_headers_follow_the_kind_of_the_repository() {
    let config = registry(None, Some("user"));
    let github = config.find_provider_by_id("gh0").unwrap().unwrap();
    assert_eq!(
        pairs(&auth_headers(&github, "pass").unwrap())[1],
        ("authorization".to_string(), "Bearer pass".to_string())
    );
    let gitlab = config.find_provider_by_id("gl0").unwrap().unwrap();
    assert_eq!(
        pairs(&auth_headers(&gitlab, "pass").unwrap()),
        vec![("PRIVATE-TOKEN".to_string(), "pass".to_string())]
    );
    let jira = config.find_provider_by_id("j0").unwrap().unwrap();
    assert_eq!(
        pairs(&auth_headers(&jira, "pass").unwrap()),
        vec![("Authorization".to_string(), "Basic dXNlcjpwYXNz".to_string())]
    );
    let config = registry(None, None);
    let jira = config.find_provider_by_id("j0").unwrap().unwrap();
    assert!(auth_headers(&jira, "pass").is_none());
}

#[test]
fn listing_plan_asks_every_repository_in_registry_order() {
    let config = registry(None, None);
    let plan = listing_plan(&None, &config);
    let ids: Vec<String> = plan.iter().map(|l| l.repository.id()).collect();
    assert_eq!(ids, vec!["gh0", "gh1", "gl0", "j0"]);
    let urls: Vec<String> = plan.iter().map(|l| l.request.url.clone()).collect();
    assert_eq!(
        urls,
        vec![
            "https://api.github.com/repos/octo/repo-gh0/issues",
            "https://api.github.com/repos/octo/repo-gh1/issues",
            "https://gitlab.com/api/v4/projects/p-gl0/issues?state=opened",
            "https://example.atlassian.net/rest/api/3/search?jql=project=PROJ AND resolution = unresolved&maxResults=1000",
        ]
    );
}

#[test]
fn listing_plan_asks_one_repository_when_it_is_named() {
    let config = registry(None, None);
    let plan = listing_plan(&Some("gl0".to_string()), &config);
    assert_eq!(plan.len(), 1);
    assert_eq!(plan[0].repository.id(), "gl0");
    assert!(listing_plan(&Some("gl".to_string()), &config).is_empty());
}

#[test]
fn collect_plans_the_repositories_of_one_kind() {
    let config = registry(None, None);
    let plan = collect_tasks_from_github(config.github_com(), &None);
    assert_eq!(plan.len(), 2);
    assert_eq!(plan[1].repository.id(), "gh1");
    let plan = collect_tasks_from_github(config.github_com(), &Some("gh1".to_string()));
    assert_eq!(plan.len(), 1);
    assert_eq!(plan[0].request.url, "https://api.github.com/repos/octo/repo-gh1/issues");
    assert!(collect_tasks_from_github(config.github_com(), &Some("gl0".to_string())).is_empty());
    let plan = collect_tasks_from_gitlab(config.gitlab_com(), &None);
    assert_eq!(plan.len(), 1);
    assert_eq!(plan[0].repository.id(), "gl0");
    let plan = collect_tasks_from_jira(config.jira(), &Some("j0".to_string()));
    assert_eq!(plan.len(), 1);
    assert_eq!(plan[0].request.method, Method::Get);
}

#[test]
fn merge_keeps_the_tasks_of_the_repositories_that_answered() {
    let fetched = vec![
        Fetched {
            repository_id: "r1".to_string(),
            outcome: Ok(vec![issue("r1/1", &[]), issue("r1/2", &["bug"])]),
        },
        Fetched {
            repository_id: "r2".to_string(),
            outcome: Err(Status { code: 500, body: "down".to_string() }),
        },
    ];
    let aggregate = merge(fetched);
    let ids: Vec<String> = aggregate.issues.iter().map(|i| i.id.clone()).collect();
    assert_eq!(ids, vec!["r1/1", "r1/2"]);
    assert_eq!(aggregate.failures.len(), 1);
    assert_eq!(aggregate.failures[0].repository_id, "r2");
    assert_eq!(aggregate.failures[0].status.code, 500);
    assert_eq!(aggregate.failures[0].status.body, "down");
}

#[test]
fn merge_keeps_registry_order_and_backend_order() {
    let fetched = vec![
        Fetched { repository_id: "a".to_string(), outcome: Ok(vec![issue("a/2", &[]), issue("a/1", &[])]) },
        Fetched { repository_id: "b".to_string(), outcome: Err(Status { code: 0, body: "timeout".to_string() }) },
        Fetched { repository_id: "c".to_string(), outcome: Ok(vec![]) },
        Fetched { repository_id: "d".to_string(), outcome: Err(Status { code: 404, body: "".to_string() }) },
        Fetched { repository_id: "e".to_string(), outcome: Ok(vec![issue("e/9", &[])]) },
    ];
    let aggregate = merge(fetched);
    let ids: Vec<String> = aggregate.issues.iter().map(|i| i.id.clone()).collect();
    assert_eq!(ids, vec!["a/2", "a/1", "e/9"]);
    let failed: Vec<String> = aggregate.failures.iter().map(|f| f.repository_id.clone()).collect();
    assert_eq!(failed, vec!["b", "d"]);
    let nothing = merge(Vec::new());
    assert!(nothing.issues.is_empty());
    assert!(nothing.failures.is_empty());
}

#[test]
fn listing_goes_on_when_a_repository_fails() {
    let config = registry(None, None);
    let fetched = vec![
        Fetched {
            repository_id: "gh0".to_string(),
            outcome: Ok(vec![issue("gh0/1", &["urgent"]), issue("gh0/2", &["bug"])]),
        },
        Fetched {
            repository_id: "gl0".to_string(),
            outcome: Err(Status { code: 503, body: "".to_string() }),
        },
    ];
    let listing = aggregate_and_display_all_tasks(fetched, &config, false);
    let texts: Vec<String> = listing.lines.iter().map(|l| l.text()).collect();
    assert_eq!(
        texts,
        vec![
            "Priority: urgent",
            "----------------------------------------",
            " - gh0/1 Title of gh0/1 (urgent)",
            "",
            "Tag: bug",
            "----------------------------------------",
            " - gh0/2 Title of gh0/2 (bug)",
            "",
        ]
    );
    assert_eq!(listing.failures.len(), 1);
    assert_eq!(listing.failures[0].repository_id, "gl0");
}

#[test]
fn issue_stores_are_listed_with_their_place() {
    let config = registry(None, None);
    assert_eq!(
        list_issue_stores(&config),
        vec![
            "gh0 - https://api.github.com/octo/repo-gh0",
            "gh1 - https://api.github.com/octo/repo-gh1",
            "gl0 - https://gitlab.com/p-gl0",
            "j0 - https://example.atlassian.net/PROJ",
        ]
    );
    assert!(list_issue_stores(&AppConfig::default()).is_empty());
}

#[test]
fn a_tag_given_twice_is_sent_once() {
    let config = registry(None, None);
    let tags = strings(&["b", "a", "b"]);
    let dispatch = remove_tags_from_task(&config, "gh0/17", &tags).unwrap();
    let urls: Vec<String> = dispatch.requests.iter().map(|r| r.url.clone()).collect();
    assert_eq!(
        urls,
        vec![
            "https://api.github.com/repos/octo/repo-gh0/issues/17/labels/a",
            "https://api.github.com/repos/octo/repo-gh0/issues/17/labels/b",
        ]
    );
    let dispatch = add_tags_to_task(&config, "gl0/5", &tags).unwrap();
    assert!(matches!(
        dispatch.requests[0].body,
        Body::GitLabLabels { ref labels } if *labels == strings(&["a", "b"])
    ));
}

