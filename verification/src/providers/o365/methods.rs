//! Microsoft To Do: no operation is offered for this backend yet. Each of
//! them says so, so that a caller can tell it from a failure that may pass.

use vstd::prelude::*;
use crate::error::TaskError;
use crate::providers::common::request::HttpRequest;
use crate::providers::o365::model::{O365Config, O365TodoList};

verus! {

/// Listing the tasks is not offered for Microsoft To Do.
pub fn collect_tasks_from_o365(o365_config: &O365Config) -> (r: Result<Vec<HttpRequest>, TaskError>)
    ensures
        r matches Err(e) && e is Unsupported,
{
    Err(TaskError::Unsupported)
}

/// Creating a task is not offered for Microsoft To Do.
pub fn add_new_task_o365(
    o365_todolist: &O365TodoList,
    o365_config: &O365Config,
    title: &str,
    details: &str,
    tags: &Option<Vec<String>>,
) -> (r: Result<HttpRequest, TaskError>)
    ensures
        r matches Err(e) && e is Unsupported,
{
    Err(TaskError::Unsupported)
}

/// Closing a task is not offered for Microsoft To Do.
pub fn close_task(o365_config: &O365Config, task_id: &str) -> (r: Result<HttpRequest, TaskError>)
    ensures
        r matches Err(e) && e is Unsupported,
{
    Err(TaskError::Unsupported)
}

} // verus!
