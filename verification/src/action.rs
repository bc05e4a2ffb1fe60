//! The built-in actions that a model can expose.

use vstd::prelude::*;

verus! {

/// A built-in action on a model.
#[derive(Clone, Copy, Debug, PartialEq, Eq, Structural)]
pub enum ActionType {
    FindMany,
    FindFirst,
    FindUnique,
    Create,
    Delete,
    Update,
    Upsert,
    Copy,
    CreateMany,
    UpdateMany,
    CopyMany,
    DeleteMany,
    Count,
    Aggregate,
    GroupBy,
}

/// Whether `action` occurs in `actions`.
pub open spec fn has(actions: Seq<ActionType>, action: ActionType) -> bool {
    exists|i: int| 0 <= i < actions.len() && actions[i] == action
}

/// Whether `action` occurs in `actions`.
pub fn contains_action(actions: &Vec<ActionType>, action: ActionType) -> (r: bool)
    ensures
        r == has(actions@, action),
{
    let mut i: usize = 0;
    while i < actions.len()
        invariant
            i <= actions.len(),
            forall|j: int| 0 <= j < i ==> actions@[j] != action,
        decreases actions.len() - i,
    {
        if actions[i] == action {
            return true;
        }
        i += 1;
    }
    false
}

} // verus!
