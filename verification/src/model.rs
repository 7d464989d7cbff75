//! What the store's operations mean, over the tables of the engine.

use crate::engine::{entries, with_entry, without_entry, Tables};
use vstd::prelude::*;

verus! {

/// The name of the table that holds the time of each key's last write.
pub open spec fn log_table() -> Seq<char> {
    seq!['l', 'o', 'g']
}

/// The key under which the log table holds the time of `key`'s last write
/// in `namespace`.
pub open spec fn log_key_of(namespace: Seq<char>, key: Seq<char>) -> Seq<char> {
    namespace + seq!['/'] + key
}

/// The text bound to `key` in `table`, empty where there is none.
pub open spec fn text_at(all: Tables, table: Seq<char>, key: Seq<char>) -> Seq<char> {
    if entries(all, table).contains_key(key) {
        entries(all, table)[key]
    } else {
        Seq::empty()
    }
}

/// What a read gives: a value and the time of its last write.
pub ghost struct Reading {
    pub value: Seq<char>,
    pub update: Seq<char>,
}

/// What reading `key` in `namespace` gives.
pub open spec fn answer(all: Tables, namespace: Seq<char>, key: Seq<char>) -> Reading {
    Reading {
        value: text_at(all, namespace, key),
        update: text_at(all, log_table(), log_key_of(namespace, key)),
    }
}

/// The tables after `value` is written under `key` in `namespace` at the
/// time `stamp`: first the value, then the time.
pub open spec fn stored(
    all: Tables,
    namespace: Seq<char>,
    key: Seq<char>,
    value: Seq<char>,
    stamp: Seq<char>,
) -> Tables {
    with_entry(with_entry(all, namespace, key, value), log_table(), log_key_of(namespace, key), stamp)
}

/// A write of `value` under `key` in `namespace` led from `before` to
/// `after`, at some time that the clock gave.
pub open spec fn written(
    before: Tables,
    after: Tables,
    namespace: Seq<char>,
    key: Seq<char>,
    value: Seq<char>,
) -> bool {
    exists|stamp: Seq<char>| #[trigger]
        crate::clock::is_stamp(stamp) && after == stored(before, namespace, key, value, stamp)
}

/// The tables after `key` is deleted in `namespace`: first the value goes,
/// then the time.
pub open spec fn erased(all: Tables, namespace: Seq<char>, key: Seq<char>) -> Tables {
    without_entry(without_entry(all, namespace, key), log_table(), log_key_of(namespace, key))
}

/// Every key that has a value in `namespace` has the time of a write in the
/// log table.
pub open spec fn values_logged(all: Tables, namespace: Seq<char>) -> bool {
    forall|key: Seq<char>| #[trigger]
        entries(all, namespace).contains_key(key) ==> entries(all, log_table()).contains_key(
            log_key_of(namespace, key),
        )
}

} // verus!
