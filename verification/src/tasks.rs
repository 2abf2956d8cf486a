//! Row and request shapes of the auxiliary task resource. Their
//! transport and storage glue is I/O and lives outside the library; the
//! shapes themselves are plain data.
use vstd::prelude::*;

verus! {

/// A stored task row.
#[derive(Debug)]
pub struct TasksRow {
    pub task_id: i32,
    pub name: String,
    pub priority: Option<i32>,
}

/// A request to create a task.
#[derive(Debug)]
pub struct CreateTaskReq {
    pub name: String,
    pub priority: Option<i32>,
}

/// The created task's assigned id.
#[derive(Debug)]
pub struct CreateTaskRes {
    pub task_id: i32,
}

/// A full-field update of a task.
#[derive(Debug)]
pub struct UpdateTask {
    pub name: String,
    pub priority: i32,
}

} // verus!
