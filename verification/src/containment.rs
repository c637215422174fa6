//! Keeping a failure inside.
//!
//! An operation that can come upon a state that ought not to exist does not
//! abort: it hands back [`Contained::Failed`], which a caller on the far side
//! of a foreign boundary can tell from every answer.

use vstd::prelude::*;

verus! {

/// What a contained operation hands back: its answer, or the sign that it
/// failed within.
#[derive(Debug)]
pub enum Contained<T> {
    Completed(T),
    Failed,
}

impl<T> Contained<T> {
    /// Whether the operation failed within.
    pub fn is_failed(&self) -> (failed: bool)
        ensures
            failed == (*self is Failed),
    {
        match self {
            Contained::Completed(_) => false,
            Contained::Failed => true,
        }
    }

    /// The answer, if there is one.
    pub fn completed(self) -> (answer: Option<T>)
        ensures
            answer == match self {
                Contained::Completed(value) => Some(value),
                Contained::Failed => None,
            },
    {
        match self {
            Contained::Completed(value) => Some(value),
            Contained::Failed => None,
        }
    }
}

} // verus!
