pub mod common;
pub mod github;
pub mod gitlab;
pub mod google_tasks;
pub mod jira;
pub mod o365;
