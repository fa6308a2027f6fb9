//! Task records as the controller sees them, and the payload of a
//! task-creation request.

use vstd::prelude::*;

verus! {

/// One task as reported by the remote service. Immutable once received;
/// the whole collection is replaced on every successful list refresh.
#[derive(Debug, Clone)]
pub struct Chore {
    pub id: i64,
    pub name: String,
    pub next_due_date: Option<String>,
    pub status: Option<i32>,
    pub priority: Option<i32>,
}

/// The displayed meaning of a task's status code.
#[derive(Debug, Clone, Copy, PartialEq, Eq, Structural)]
pub enum ChoreStatus {
    Pending,
    Active,
    Completed,
    Unknown,
}

/// How a raw status code is read: absent or zero means pending, one means
/// active, two means completed, and any other code is unknown.
pub open spec fn spec_status_kind(status: Option<i32>) -> ChoreStatus {
    match status {
        None => ChoreStatus::Pending,
        Some(code) => if code == 0 {
            ChoreStatus::Pending
        } else if code == 1 {
            ChoreStatus::Active
        } else if code == 2 {
            ChoreStatus::Completed
        } else {
            ChoreStatus::Unknown
        },
    }
}

impl Chore {
    /// The displayed meaning of the status code.
    pub fn status_kind(&self) -> (r: ChoreStatus)
        ensures
            r == spec_status_kind(self.status),
    {
        match self.status {
            None => ChoreStatus::Pending,
            Some(code) => {
                if code == 0 {
                    ChoreStatus::Pending
                } else if code == 1 {
                    ChoreStatus::Active
                } else if code == 2 {
                    ChoreStatus::Completed
                } else {
                    ChoreStatus::Unknown
                }
            },
        }
    }
}

/// A member a task can be assigned to.
#[derive(Debug, Clone)]
pub struct Assignee {
    pub id: i64,
    pub name: String,
}

/// What a task-creation call sends to the service: a name, and a due date
/// only when one was entered.
#[derive(Debug, Clone)]
pub struct CreateChoreRequest {
    pub name: String,
    pub due_date: Option<String>,
}

impl CreateChoreRequest {
    /// Build a request from the form's fields: an empty due-date entry
    /// means no due date is sent.
    pub fn new(name: String, due_date: String) -> (r: Self)
        ensures
            r.name == name,
            due_date@.len() == 0 ==> r.due_date is None,
            due_date@.len() > 0 ==> r.due_date == Some(due_date),
    {
        let due = if due_date.as_str().is_empty() {
            None
        } else {
            Some(due_date)
        };
        CreateChoreRequest { name, due_date: due }
    }
}

} // verus!
