use colored::Color;
use tskmstr::config::{
    AppConfig, Colors, Defaults, IssueTaskRepository, LabelConfig, TaskIssueProvider,
};
use tskmstr::error::TaskError;
use tskmstr::providers::common::credentials::{CredentialKeyringEntry, HasSecretToken};
use tskmstr::providers::github::model::{GitHubConfig, GitHubRepository};
use tskmstr::providers::gitlab::model::{GitLabConfig, GitLabRepository};
use tskmstr::providers::jira::model::{JiraConfig, JiraProject};

fn defaults(for_new_tasks: Option<bool>) -> Option<Defaults> {
    Some(Defaults { for_new_tasks, for_display: None })
}

fn github_repo(id: &str, defaults: Option<Defaults>) -> GitHubRepository {
    GitHubRepository {
        id: id.to_string(),
        color: "red".to_string(),
        owner: "octo".to_string(),
        repo: format!("repo-{}", id),
        defaults,
    }
}

fn github(repositories: Vec<GitHubRepository>) -> GitHubConfig {
    GitHubConfig {
        credential: None,
        endpoint: "https://api.github.com".to_string(),
        provider_id: "github.com".to_string(),
        repositories,
    }
}

fn gitlab_repo(id: &str, defaults: Option<Defaults>) -> GitLabRepository {
    GitLabRepository {
        id: id.to_string(),
        color: "bright blue".to_string(),
        project_id: "42".to_string(),
        defaults,
        filter: None,
    }
}

fn gitlab(repositories: Vec<GitLabRepository>) -> GitLabConfig {
    GitLabConfig {
        credential: None,
        endpoint: "https://gitlab.com".to_string(),
        provider_id: "gitlab.com".to_string(),
        repositories,
    }
}

fn jira_project(id: &str, defaults: Option<Defaults>) -> JiraProject {
    JiraProject {
        id: id.to_string(),
        color: "no such colour".to_string(),
        project_key: "PROJ".to_string(),
        default_issue_type: "Task".to_string(),
        close_transition_id: "1".to_string(),
        defaults,
        filter: None,
    }
}

fn jira(projects: Vec<JiraProject>) -> JiraConfig {
    JiraConfig {
        credential: Some(CredentialKeyringEntry {
            service: "jira".to_string(),
            username: "me@example.org".to_string(),
        }),
        endpoint: "https://example.atlassian.net".to_string(),
        provider_id: "jira".to_string(),
        projects,
    }
}

fn colors() -> Colors {
    Colors { issue_id: "magenta".to_string(), title: "blue".to_string(), tags: "green".to_string() }
}

fn labels() -> LabelConfig {
    LabelConfig { priority_labels: vec!["urgent".to_string()], priority_timeframe: None }
}

fn registry(
    github_com: Vec<GitHubConfig>,
    gitlab_com: Vec<GitLabConfig>,
    jira: Vec<JiraConfig>,
) -> Result<AppConfig, TaskError> {
    AppConfig::new(None, colors(), labels(), github_com, gitlab_com, jira)
}

fn sample() -> AppConfig {
    registry(
        vec![github(vec![github_repo("gh0", None), github_repo("gh1", None)]), github(vec![
            github_repo("gh2", None),
        ])],
        vec![gitlab(vec![gitlab_repo("gl0", defaults(Some(true)))])],
        vec![jira(vec![jira_project("j0", defaults(Some(false))), jira_project("j1", None)])],
    )
    .unwrap()
}

#[test]
fn construction_fails_on_a_shared_id() {
    let r = registry(
        vec![github(vec![github_repo("p1", None)])],
        vec![gitlab(vec![gitlab_repo("p1", None)])],
        vec![],
    );
    assert!(matches!(
        r,
        Err(TaskError::ConfigInvariantViolation { ref duplicate_id }) if duplicate_id == "p1"
    ));
}

#[test]
fn construction_fails_on_a_shared_id_within_one_account() {
    let r = registry(
        vec![github(vec![github_repo("a", None), github_repo("b", None), github_repo("a", None)])],
        vec![],
        vec![],
    );
    assert!(matches!(
        r,
        Err(TaskError::ConfigInvariantViolation { ref duplicate_id }) if duplicate_id == "a"
    ));
}

#[test]
fn construction_names_the_first_id_that_repeats() {
    let r = registry(
        vec![github(vec![github_repo("a", None), github_repo("b", None)])],
        vec![gitlab(vec![gitlab_repo("b", None)])],
        vec![jira(vec![jira_project("a", None)])],
    );
    assert!(matches!(
        r,
        Err(TaskError::ConfigInvariantViolation { ref duplicate_id }) if duplicate_id == "b"
    ));
}

#[test]
fn construction_keeps_what_it_is_given() {
    let config = sample();
    assert_eq!(config.debug(), None);
    assert_eq!(config.colors().issue_id, "magenta");
    assert_eq!(config.labels().priority_labels, vec!["urgent".to_string()]);
    assert_eq!(config.github_com().len(), 2);
    assert_eq!(config.gitlab_com().len(), 1);
    assert_eq!(config.jira().len(), 1);
    assert_eq!(config.jira()[0].projects[1].id, "j1");
}

#[test]
fn construction_accepts_ids_that_differ_in_case_only() {
    let r = registry(vec![github(vec![github_repo("a", None), github_repo("A", None)])], vec![], vec![]);
    assert!(r.is_ok());
}

#[test]
fn provider_ids_are_in_registry_order() {
    assert_eq!(sample().provider_ids(), vec!["gh0", "gh1", "gh2", "gl0", "j0", "j1"]);
}

#[test]
fn all_repository_refs_lists_github_then_gitlab_then_jira() {
    let config = sample();
    let refs = config.all_repository_refs();
    assert_eq!(refs.len(), 6);
    assert!(matches!(refs[0], TaskIssueProvider::GitHub(_, repo) if repo.id == "gh0"));
    assert!(matches!(refs[2], TaskIssueProvider::GitHub(_, repo) if repo.id == "gh2"));
    assert!(matches!(refs[3], TaskIssueProvider::GitLab(_, repo) if repo.id == "gl0"));
    assert!(matches!(refs[5], TaskIssueProvider::Jira(_, project) if project.id == "j1"));
}

#[test]
fn find_default_provider_is_none_without_a_default() {
    let config = registry(
        vec![github(vec![github_repo("gh0", None), github_repo("gh1", defaults(None))])],
        vec![gitlab(vec![gitlab_repo("gl0", defaults(Some(false)))])],
        vec![],
    )
    .unwrap();
    assert!(config.find_default_provider().unwrap().is_none());
}

#[test]
fn find_default_provider_finds_the_one_default() {
    let config = sample();
    let found = config.find_default_provider().unwrap().unwrap();
    assert_eq!(found.id(), "gl0");
    assert!(matches!(found, TaskIssueProvider::GitLab(g, _) if g.endpoint == "https://gitlab.com"));
}

#[test]
fn find_default_provider_takes_the_first_of_several() {
    let config = registry(
        vec![github(vec![github_repo("gh0", None), github_repo("gh1", defaults(Some(true)))])],
        vec![gitlab(vec![gitlab_repo("gl0", defaults(Some(true)))])],
        vec![],
    )
    .unwrap();
    assert_eq!(config.find_default_provider().unwrap().unwrap().id(), "gh1");
}

#[test]
fn find_provider_by_id_matches_the_whole_id() {
    let config = sample();
    assert_eq!(config.find_provider_by_id("j1").unwrap().unwrap().id(), "j1");
    assert!(config.find_provider_by_id("gh").unwrap().is_none());
    assert!(config.find_provider_by_id("gh00").unwrap().is_none());
    assert!(config.find_provider_by_id("GH0").unwrap().is_none());
    assert!(config.find_provider_by_id("").unwrap().is_none());
}

#[test]
fn find_provider_for_issue_resolves_the_prefix() {
    let config = sample();
    let found = config.find_provider_for_issue("gh0/123").unwrap();
    assert!(matches!(found, TaskIssueProvider::GitHub(_, repo) if repo.id == "gh0"));
}

#[test]
fn find_provider_for_issue_refuses_an_unknown_prefix() {
    let config = sample();
    assert!(matches!(
        config.find_provider_for_issue("zz9/123"),
        Err(TaskError::UnrecognizedProviderPrefix)
    ));
    assert!(matches!(
        config.find_provider_for_issue("gh/123"),
        Err(TaskError::UnrecognizedProviderPrefix)
    ));
    assert!(matches!(
        config.find_provider_for_issue("/123"),
        Err(TaskError::UnrecognizedProviderPrefix)
    ));
}

#[test]
fn find_provider_for_issue_takes_a_bare_id() {
    let config = sample();
    assert_eq!(config.find_provider_for_issue("gl0").unwrap().id(), "gl0");
}

#[test]
fn find_provider_for_issue_splits_at_the_first_slash() {
    let config = sample();
    assert_eq!(config.find_provider_for_issue("gh1/12/34").unwrap().id(), "gh1");
}

#[test]
fn find_by_gives_the_first_match_in_registry_order() {
    let config = sample();
    let found = config
        .find_by(|p: &TaskIssueProvider| p.id().starts_with("g") && p.id().ends_with("0"))
        .unwrap();
    assert_eq!(found.unwrap().id(), "gh0");
    let found =
        config.find_by(|p: &TaskIssueProvider| matches!(p, TaskIssueProvider::Jira(_, _))).unwrap();
    assert_eq!(found.unwrap().id(), "j0");
    assert!(config.find_by(|_p: &TaskIssueProvider| false).unwrap().is_none());
}

#[test]
fn lookups_that_find_nothing_do_not_fail() {
    let config = sample();
    assert!(matches!(config.find_provider_by_id("zz9"), Ok(None)));
    assert!(matches!(config.find_by(|_p: &TaskIssueProvider| false), Ok(None)));
    assert!(matches!(AppConfig::default().find_default_provider(), Ok(None)));
}

#[test]
fn default_registry_is_empty() {
    let config = AppConfig::default();
    assert!(config.all_repository_refs().is_empty());
    assert!(config.provider_ids().is_empty());
    assert!(config.find_default_provider().unwrap().is_none());
    assert_eq!(config.debug(), None);
    assert_eq!(config.colors().issue_id, "magenta");
    assert_eq!(config.colors().title, "blue");
    assert_eq!(config.colors().tags, "green");
    assert!(config.labels().priority_labels.is_empty());
}

#[test]
fn is_default_reads_for_new_tasks() {
    assert!(github_repo("a", defaults(Some(true))).is_default());
    assert!(!github_repo("a", defaults(Some(false))).is_default());
    assert!(!github_repo("a", defaults(None)).is_default());
    assert!(!github_repo("a", None).is_default());
    assert!(jira_project("j", defaults(Some(true))).is_default());
    assert!(gitlab_repo("g", defaults(Some(true))).is_default());
}

#[test]
fn repository_gives_its_id_and_defaults() {
    let repo = gitlab_repo("gl7", defaults(Some(true)));
    assert_eq!(repo.id(), "gl7");
    assert_eq!(repo.defaults().unwrap().for_new_tasks, Some(true));
    assert!(github_repo("x", None).defaults().is_none());
}

#[test]
fn color_resolves_the_configured_name() {
    assert_eq!(github_repo("a", None).color(), Some(Color::Red));
    assert_eq!(gitlab_repo("a", None).color(), Some(Color::BrightBlue));
    assert_eq!(jira_project("a", None).color(), None);
    let config = sample();
    assert_eq!(config.find_provider_by_id("gh1").unwrap().unwrap().color(), Some(Color::Red));
}

#[test]
fn account_gives_its_name_and_username() {
    let account = jira(vec![]);
    assert_eq!(account.task_provider_id(), "jira");
    assert_eq!(account.get_username(), Some("me@example.org".to_string()));
    assert_eq!(account.credential().unwrap().service, "jira");
    let account = github(vec![]);
    assert_eq!(account.task_provider_id(), "github.com");
    assert_eq!(account.get_username(), None);
    assert!(account.credential().is_none());
}
