//! From what the engine answered to what the store reports.
//!
//! Whether a transaction succeeds is the engine's matter. What the store
//! makes of each answer is decided here, for every answer there can be.

use crate::engine::{describe, is_missing_table, reports_missing_table};
use crate::error::{Operation, Part, StoreError};
use vstd::prelude::*;

verus! {

/// The failure of the transaction on `part` during `operation`, at its
/// commit or before it, with `text` for its message.
pub fn failure_with(operation: Operation, part: Part, committing: bool, text: String) -> (err:
    StoreError)
    ensures
        err == (StoreError::Runtime { operation, part, committing, message: text }),
{
    StoreError::Runtime { operation, part, committing, message: text }
}

/// The failure of the transaction on `part` during `operation`, with the
/// engine's text for `e`.
pub fn failure(e: &redb::Error, operation: Operation, part: Part, committing: bool) -> (err:
    StoreError)
    ensures
        err.failed_at(operation, part, committing),
{
    failure_with(operation, part, committing, describe(e))
}

/// What a write transaction's answer means. The outer error is a failure
/// before the commit, the inner one the commit's own.
pub fn settle_write(
    outcome: Result<Result<(), redb::Error>, redb::Error>,
    operation: Operation,
    part: Part,
) -> (r: Result<(), StoreError>)
    ensures
        match outcome {
            Ok(Ok(())) => r is Ok,
            Ok(Err(_)) => r is Err && r->Err_0.failed_at(operation, part, true),
            Err(_) => r is Err && r->Err_0.failed_at(operation, part, false),
        },
{
    match outcome {
        Ok(Ok(())) => Ok(()),
        Ok(Err(e)) => Err(failure(&e, operation, part, true)),
        Err(e) => Err(failure(&e, operation, part, false)),
    }
}

/// What a lookup's answer means. A key without a value reads as the empty
/// string, and so does any key of a table that does not exist yet: neither
/// is a failure. Every other error of the engine is a failure of the
/// transaction on `part` during `operation`.
pub fn settle_read(
    outcome: Result<Option<String>, redb::Error>,
    operation: Operation,
    part: Part,
) -> (r: Result<String, StoreError>)
    ensures
        match outcome {
            Ok(Some(value)) => r is Ok && r->Ok_0@ == value@,
            Ok(None) => r is Ok && r->Ok_0@ == Seq::<char>::empty(),
            Err(e) => if reports_missing_table(e) {
                r is Ok && r->Ok_0@ == Seq::<char>::empty()
            } else {
                r is Err && r->Err_0.failed_at(operation, part, false)
            },
        },
{
    match outcome {
        Ok(Some(value)) => Ok(value),
        Ok(None) => Ok(String::new()),
        Err(e) => {
            if is_missing_table(&e) {
                Ok(String::new())
            } else {
                Err(failure(&e, operation, part, false))
            }
        },
    }
}

/// What a walk's answer means. A table that does not exist yet has no keys,
/// which is no failure. Every other error of the engine is a failure of the
/// walk of the namespace's table during `operation`.
pub fn settle_scan(outcome: Result<Vec<String>, redb::Error>, operation: Operation) -> (r: Result<
    Vec<String>,
    StoreError,
>)
    ensures
        match outcome {
            Ok(keys) => r is Ok && r->Ok_0@ == keys@,
            Err(e) => if reports_missing_table(e) {
                r is Ok && r->Ok_0@ == Seq::<String>::empty()
            } else {
                r is Err && r->Err_0.failed_at(operation, Part::Value, false)
            },
        },
{
    match outcome {
        Ok(keys) => Ok(keys),
        Err(e) => {
            if is_missing_table(&e) {
                Ok(Vec::new())
            } else {
                Err(failure(&e, operation, Part::Value, false))
            }
        },
    }
}

} // verus!
