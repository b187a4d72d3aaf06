//! A task, as the events of the log carry it.

use vstd::prelude::*;

verus! {

pub type TaskId = u64;

/// Calendar date of the `chrono` crate. Opaque here: the log carries the
/// deadline of a task and never looks at it.
#[verifier::external_type_specification]
#[verifier::external_body]
pub struct ExNaiveDate(chrono::NaiveDate);

/// The state of one task at the moment an event was recorded.
#[derive(Debug, PartialEq, Eq, PartialOrd, Ord)]
pub struct Task {
    pub id: TaskId,
    pub description: String,
    pub deadline: chrono::NaiveDate,
    pub details: String,
    pub completed: bool,
}

impl Clone for Task {
    fn clone(&self) -> (copy: Self)
        ensures
            copy == *self,
    {
        Task {
            id: self.id,
            description: self.description.clone(),
            deadline: self.deadline,
            details: self.details.clone(),
            completed: self.completed,
        }
    }
}

} // verus!
