//! The requests the front end sends to add sources and tasks.

use vstd::prelude::*;

verus! {

/// A request to add a subscription source.
pub struct AddSourceRequest {
    pub name: String,
    pub url: String,
    pub source_type: String,
    pub category: String,
}

/// A request to add a scheduled task.
pub struct AddTaskRequest {
    pub name: String,
    pub cron_expression: String,
    pub action: String,
}

} // verus!
