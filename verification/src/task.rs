//! Task handles of the `futures` crate.
//!
//! A `Task` is a handle on a unit of work that an executor drives. An
//! operation that cannot make progress keeps the caller's handle and whoever
//! later changes the state that the caller waits for notifies it. The handle
//! is opaque to the verifier and the contracts below are not proved.

use futures::task::Task;
use vstd::prelude::*;

verus! {

#[verifier::external_type_specification]
#[verifier::external_body]
pub struct ExTask(futures::task::Task);

/// `Task::notify`: asks the executor to poll the task again. The call ends
/// in the `Notify::notify` of the executor that made the task; nothing is
/// claimed about what that does, and an executor whose notification panics
/// makes this call panic.
#[verifier::external_body]
pub(crate) fn notify(task: &Task) {
    task.notify()
}

/// `Clone::clone` of `Task`: the derived impl copies the task's id, its
/// notification handle and its unpark events, so the copy is a handle on the
/// same task. The contract says so by calling the two handles equal.
#[verifier::external_body]
pub(crate) fn duplicate(task: &Task) -> (copy: Task)
    ensures
        copy == *task,
{
    task.clone()
}

} // verus!
