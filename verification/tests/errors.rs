use tskmstr::aggregate::{list_request, list_requests};
use tskmstr::config::{first_repeated_id, repository_refs_of, IssueTaskRepository, TaskIssueProvider};
use tskmstr::error::{Status, TaskError};
use tskmstr::providers::common::request::{copy_optional_strings, copy_strings, make_header, Method};
use tskmstr::providers::github::model::{GitHubConfig, GitHubRepository};
use tskmstr::providers::gitlab::model::{GitLabConfig, GitLabRepository};
use tskmstr::providers::jira::model::JiraConfig;

fn github(ids: &[&str]) -> GitHubConfig {
    GitHubConfig {
        credential: None,
        endpoint: "https://api.github.com".to_string(),
        provider_id: "github.com".to_string(),
        repositories: ids
            .iter()
            .map(|id| GitHubRepository {
                id: id.to_string(),
                color: "red".to_string(),
                owner: "octo".to_string(),
                repo: "cat".to_string(),
                defaults: None,
            })
            .collect(),
    }
}

fn gitlab(ids: &[&str]) -> GitLabConfig {
    GitLabConfig {
        credential: None,
        endpoint: "https://gitlab.com".to_string(),
        provider_id: "gitlab.com".to_string(),
        repositories: ids
            .iter()
            .map(|id| GitLabRepository {
                id: id.to_string(),
                color: "red".to_string(),
                project_id: "7".to_string(),
                defaults: None,
                filter: None,
            })
            .collect(),
    }
}

#[test]
fn message_names_the_shared_id() {
    let error = TaskError::ConfigInvariantViolation { duplicate_id: "p1".to_string() };
    assert_eq!(error.message(), "Two repositories share the id p1");
}

#[test]
fn message_tells_the_resolution_errors_apart() {
    assert_eq!(
        TaskError::UnrecognizedProviderPrefix.message(),
        "The task reference does not begin with the id of a configured repository"
    );
    assert_eq!(
        TaskError::InvalidIdentifierFormat.message(),
        "The task reference is not of the form <repo-id>/<native-id>"
    );
    assert_eq!(TaskError::ProviderNotFound.message(), "Provider was not found");
    assert_eq!(TaskError::Unsupported.message(), "The provider has no such operation");
}

#[test]
fn message_gives_the_status_of_the_backend() {
    let error = TaskError::BackendError(Status { code: 503, body: "try later".to_string() });
    assert_eq!(error.message(), "The backend answered with status 503");
    let error = TaskError::BackendError(Status { code: 0, body: "".to_string() });
    assert_eq!(error.message(), "The backend answered with status 0");
    let error = TaskError::BackendError(Status { code: 65535, body: "".to_string() });
    assert_eq!(error.message(), "The backend answered with status 65535");
}

#[test]
fn first_repeated_id_is_the_length_without_repeats() {
    let accounts = vec![github(&["a", "b"]), github(&["c"])];
    let none: Vec<GitLabConfig> = vec![];
    let jira: Vec<JiraConfig> = vec![];
    let refs = repository_refs_of(&accounts, &none, &jira);
    assert_eq!(refs.len(), 3);
    assert_eq!(first_repeated_id(&refs), 3);
    assert_eq!(first_repeated_id(&Vec::new()), 0);
}

#[test]
fn first_repeated_id_is_the_place_of_the_second_of_a_pair() {
    let hub = vec![github(&["a", "b"])];
    let lab = vec![gitlab(&["c", "b", "a"])];
    let jira: Vec<JiraConfig> = vec![];
    let refs = repository_refs_of(&hub, &lab, &jira);
    let ids: Vec<String> = refs.iter().map(|r| r.id()).collect();
    assert_eq!(ids, vec!["a", "b", "c", "b", "a"]);
    assert_eq!(first_repeated_id(&refs), 3);
    assert_eq!(refs[3].id_str(), "b");
}

#[test]
fn list_requests_follow_the_given_repositories() {
    let hub = vec![github(&["a"])];
    let lab = vec![gitlab(&["b"])];
    let jira: Vec<JiraConfig> = vec![];
    let refs = repository_refs_of(&hub, &lab, &jira);
    let plan = list_requests(&refs, &None);
    assert_eq!(plan.len(), 2);
    assert!(matches!(plan[1].repository, TaskIssueProvider::GitLab(_, repo) if repo.id == "b"));
    assert_eq!(plan[1].request.url, "https://gitlab.com/api/v4/projects/7/issues?state=opened");
    let one = list_request(&refs[0]);
    assert_eq!(one.method, Method::Get);
    assert_eq!(one.url, "https://api.github.com/repos/octo/cat/issues");
    let plan = list_requests(&refs, &Some("b".to_string()));
    assert_eq!(plan.len(), 1);
    assert_eq!(plan[0].repository.id(), "b");
}

#[test]
fn copies_hold_the_same_strings() {
    let items = vec!["a".to_string(), "".to_string(), "b c".to_string()];
    assert_eq!(copy_strings(&items), items);
    assert_eq!(copy_optional_strings(&Some(items.clone())), Some(items));
    assert_eq!(copy_optional_strings(&None), None);
    let header = make_header("accept", "text/plain".to_string());
    assert_eq!(header.name, "accept");
    assert_eq!(header.value, "text/plain");
}
