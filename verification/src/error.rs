//! What the store reports when the engine fails.

use vstd::prelude::*;

verus! {

/// The operation of the store during which the engine failed.
#[derive(Clone, Copy, Debug, PartialEq, Eq, Structural)]
pub enum Operation {
    Write,
    Read,
    Delete,
    Keys,
    Contain,
}

/// Which of the two tables a transaction was on.
#[derive(Clone, Copy, Debug, PartialEq, Eq, Structural)]
pub enum Part {
    /// The namespace's table, which holds the values.
    Value,
    /// The log table, which holds the times.
    Log,
}

/// A failure of the store. The message is the engine's own text.
#[derive(Clone, Debug, PartialEq, Eq)]
pub enum StoreError {
    /// The storage file could not be opened or created.
    Io { message: String },
    /// A transaction of one operation failed. `committing` tells a failure
    /// of the transaction's commit from one before it: before the commit
    /// nothing of the transaction has taken effect.
    Runtime { operation: Operation, part: Part, committing: bool, message: String },
}

impl StoreError {
    /// The failure is a failed transaction during `operation`.
    pub open spec fn is_runtime(self, operation: Operation) -> bool {
        self matches StoreError::Runtime { operation: o, .. } && o == operation
    }

    /// The failure is that of the transaction on `part` during `operation`,
    /// at its commit or before it.
    pub open spec fn failed_at(self, operation: Operation, part: Part, committing: bool) -> bool {
        self matches StoreError::Runtime { operation: o, part: p, committing: c, .. } && o
            == operation && p == part && c == committing
    }

    /// The engine's message.
    pub fn message(&self) -> (text: &String)
        ensures
            *text == match *self {
                StoreError::Io { message } => message,
                StoreError::Runtime { message, .. } => message,
            },
    {
        match self {
            StoreError::Io { message } => message,
            StoreError::Runtime { message, .. } => message,
        }
    }
}

} // verus!
