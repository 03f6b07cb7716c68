//! Error kinds surfaced by the execution layer.

use vstd::prelude::*;

verus! {

/// An error produced while planning or executing an operator.
#[derive(Debug)]
pub enum ExecError {
    /// A plan-construction (configuration) error, detected before any data
    /// moves and never retried.
    Plan(String),
    /// The memory pool cannot satisfy a reservation request; terminal for the
    /// affected operator.
    ResourcesExhausted(String),
    /// An internal invariant was violated.
    Internal(String),
    /// A runtime execution failure.
    Execution(String),
}

impl ExecError {
    /// The human-readable message carried by the error.
    pub fn message(&self) -> (m: &String)
        ensures
            m@ == self.spec_message(),
    {
        match self {
            ExecError::Plan(s) => s,
            ExecError::ResourcesExhausted(s) => s,
            ExecError::Internal(s) => s,
            ExecError::Execution(s) => s,
        }
    }

    /// The message of an error, as a sequence of characters.
    pub open spec fn spec_message(&self) -> Seq<char> {
        match self {
            ExecError::Plan(s) => s@,
            ExecError::ResourcesExhausted(s) => s@,
            ExecError::Internal(s) => s@,
            ExecError::Execution(s) => s@,
        }
    }
}

impl Clone for ExecError {
    /// Errors are shared between partitions by cloning; the clone carries the
    /// same kind and message.
    fn clone(&self) -> (res: Self)
        ensures
            res == *self,
    {
        match self {
            ExecError::Plan(s) => ExecError::Plan(s.clone()),
            ExecError::ResourcesExhausted(s) => ExecError::ResourcesExhausted(s.clone()),
            ExecError::Internal(s) => ExecError::Internal(s.clone()),
            ExecError::Execution(s) => ExecError::Execution(s.clone()),
        }
    }
}

} // verus!
