//! What holds of the store's operations taken together.

use crate::clock::is_stamp;
use crate::engine::{entries, Entries, Tables};
use crate::model::{
    answer, erased, log_key_of, log_table, stored, values_logged, written, Reading,
};
use crate::order::{
    ascending, lemma_ascending_no_duplicates, lemma_ascending_unique, lemma_precedes_total,
    lists, precedes,
};
use crate::rdb::first_of_named;
use vstd::prelude::*;

verus! {

/// The log key of a key is never the key itself, and two keys of one
/// namespace never share a log key.
pub proof fn lemma_log_keys_apart(namespace: Seq<char>, key: Seq<char>, other: Seq<char>)
    ensures
        log_key_of(namespace, key) != key,
        other != key ==> log_key_of(namespace, other) != log_key_of(namespace, key),
{
    let n = namespace.len() as int;
    assert(log_key_of(namespace, key).len() == n + 1 + key.len());
    if other != key && log_key_of(namespace, other) == log_key_of(namespace, key) {
        assert(log_key_of(namespace, other).len() == n + 1 + other.len());
        assert(other =~= log_key_of(namespace, other).subrange(n + 1, n + 1 + other.len()));
        assert(key =~= log_key_of(namespace, key).subrange(n + 1, n + 1 + key.len()));
    }
}

/// Reading a key gives the value and the time of its last write.
pub proof fn law_read_after_write_at(
    all: Tables,
    namespace: Seq<char>,
    key: Seq<char>,
    value: Seq<char>,
    stamp: Seq<char>,
)
    ensures
        answer(stored(all, namespace, key, value, stamp), namespace, key) == (Reading {
            value,
            update: stamp,
        }),
{
    lemma_log_keys_apart(namespace, key, key);
}

/// Round trip: after a write of `value` under `key`, a read of `key` gives
/// `value` and a time that is not empty.
pub proof fn law_round_trip(
    before: Tables,
    after: Tables,
    namespace: Seq<char>,
    key: Seq<char>,
    value: Seq<char>,
)
    requires
        written(before, after, namespace, key, value),
    ensures
        answer(after, namespace, key).value == value,
        is_stamp(answer(after, namespace, key).update),
        answer(after, namespace, key).update.len() > 0,
{
    let stamp = choose|stamp: Seq<char>| #[trigger]
        is_stamp(stamp) && after == stored(before, namespace, key, value, stamp);
    law_read_after_write_at(before, namespace, key, value, stamp);
}

/// Delete clears both: after a delete of `key`, whatever was there before,
/// a read of `key` gives two empty strings, the key has no value, and no
/// listing of the keys holds it.
pub proof fn law_delete_clears(all: Tables, namespace: Seq<char>, key: Seq<char>)
    ensures
        answer(erased(all, namespace, key), namespace, key) == (Reading {
            value: Seq::empty(),
            update: Seq::empty(),
        }),
        !entries(erased(all, namespace, key), namespace).contains_key(key),
        !entries(erased(all, namespace, key), log_table()).contains_key(
            log_key_of(namespace, key),
        ),
        forall|keys: Seq<Seq<char>>|
            lists(keys, entries(erased(all, namespace, key), namespace)) ==> !keys.contains(key),
{
    lemma_log_keys_apart(namespace, key, key);
}

/// Delete after write: a key that was written and then deleted reads as two
/// empty strings and is in no listing of the keys.
pub proof fn law_delete_after_write(
    before: Tables,
    mid: Tables,
    namespace: Seq<char>,
    key: Seq<char>,
    value: Seq<char>,
)
    requires
        written(before, mid, namespace, key, value),
    ensures
        answer(erased(mid, namespace, key), namespace, key) == (Reading {
            value: Seq::empty(),
            update: Seq::empty(),
        }),
        forall|keys: Seq<Seq<char>>|
            lists(keys, entries(erased(mid, namespace, key), namespace)) ==> !keys.contains(key),
{
    law_delete_clears(mid, namespace, key);
}

/// Overwrite: of two writes under one key the second one stands. A read
/// gives its value and its time, and where the clock did not go back between
/// the two, that time does not come before the time read after the first.
pub proof fn law_overwrite(
    all: Tables,
    namespace: Seq<char>,
    key: Seq<char>,
    first: Seq<char>,
    first_stamp: Seq<char>,
    second: Seq<char>,
    second_stamp: Seq<char>,
)
    ensures
        ({
            let mid = stored(all, namespace, key, first, first_stamp);
            let after = stored(mid, namespace, key, second, second_stamp);
            &&& answer(after, namespace, key) == (Reading { value: second, update: second_stamp })
            &&& !precedes(second_stamp, first_stamp) ==> !precedes(
                answer(after, namespace, key).update,
                answer(mid, namespace, key).update,
            )
        }),
{
    let mid = stored(all, namespace, key, first, first_stamp);
    law_read_after_write_at(all, namespace, key, first, first_stamp);
    law_read_after_write_at(mid, namespace, key, second, second_stamp);
}

/// Overwrite, with the clock's own times: after two writes under one key a
/// read gives the second value and a time that is not empty.
pub proof fn law_overwrite_written(
    before: Tables,
    mid: Tables,
    after: Tables,
    namespace: Seq<char>,
    key: Seq<char>,
    first: Seq<char>,
    second: Seq<char>,
)
    requires
        written(before, mid, namespace, key, first),
        written(mid, after, namespace, key, second),
    ensures
        answer(after, namespace, key).value == second,
        is_stamp(answer(after, namespace, key).update),
{
    law_round_trip(mid, after, namespace, key, second);
}

/// Keys ordering: what `keys` returns is in ascending order, holds no key
/// twice, and holds exactly the keys that have a value, so it is as long as
/// they are many.
pub proof fn law_keys_exact(keys: Seq<Seq<char>>, table: Entries)
    requires
        lists(keys, table),
    ensures
        ascending(keys),
        keys.no_duplicates(),
        keys.to_set() == table.dom(),
        table.dom().finite(),
        keys.len() == table.dom().len(),
{
    lemma_ascending_no_duplicates(keys);
    assert forall|k: Seq<char>| keys.to_set().contains(k) <==> table.dom().contains(k) by {
        assert(keys.to_set().contains(k) <==> keys.contains(k));
    }
    assert(keys.to_set() =~= table.dom());
    keys.unique_seq_to_set();
}

/// The listing of a table is one: two walks of the same entries return the
/// same keys in the same order.
pub proof fn law_listing_is_one(one: Seq<Seq<char>>, other: Seq<Seq<char>>, table: Entries)
    requires
        lists(one, table),
        lists(other, table),
    ensures
        one == other,
{
    lemma_ascending_unique(one, other);
}

/// The key that a lookup reads is one: of the keys with a value that a url
/// names, only one is the first.
pub proof fn law_first_named_is_one(
    all: Tables,
    namespace: Seq<char>,
    url: Seq<char>,
    one: Seq<char>,
    other: Seq<char>,
)
    requires
        first_of_named(all, namespace, url, one),
        first_of_named(all, namespace, url, other),
    ensures
        one == other,
        answer(all, namespace, one) == answer(all, namespace, other),
{
    lemma_precedes_total(one, other);
}

/// A write adds its key to the keys that have a value and no other, where
/// the namespace is not the log table itself.
pub proof fn law_write_adds_key(
    all: Tables,
    namespace: Seq<char>,
    key: Seq<char>,
    value: Seq<char>,
    stamp: Seq<char>,
)
    requires
        namespace != log_table(),
    ensures
        entries(stored(all, namespace, key, value, stamp), namespace).dom() == entries(
            all,
            namespace,
        ).dom().insert(key),
{
    assert(entries(stored(all, namespace, key, value, stamp), namespace).dom() =~= entries(
        all,
        namespace,
    ).dom().insert(key));
}

/// A delete takes its key from the keys that have a value and no other,
/// where the namespace is not the log table itself.
pub proof fn law_delete_removes_key(all: Tables, namespace: Seq<char>, key: Seq<char>)
    requires
        namespace != log_table(),
    ensures
        entries(erased(all, namespace, key), namespace).dom() == entries(
            all,
            namespace,
        ).dom().remove(key),
{
    assert(entries(erased(all, namespace, key), namespace).dom() =~= entries(
        all,
        namespace,
    ).dom().remove(key));
}

/// Absent key: a key with no value and no logged time reads as two empty
/// strings.
pub proof fn law_absent_reads_empty(all: Tables, namespace: Seq<char>, key: Seq<char>)
    requires
        !entries(all, namespace).contains_key(key),
        !entries(all, log_table()).contains_key(log_key_of(namespace, key)),
    ensures
        answer(all, namespace, key) == (Reading { value: Seq::empty(), update: Seq::empty() }),
{
}

/// A write under one key leaves the other keys of a namespace as they read,
/// where the namespace is not the log table itself.
pub proof fn law_write_keeps_others(
    all: Tables,
    namespace: Seq<char>,
    key: Seq<char>,
    value: Seq<char>,
    stamp: Seq<char>,
    other: Seq<char>,
)
    requires
        other != key,
        namespace != log_table(),
    ensures
        answer(stored(all, namespace, key, value, stamp), namespace, other) == answer(
            all,
            namespace,
            other,
        ),
{
    lemma_log_keys_apart(namespace, key, other);
}

/// A delete of one key leaves the other keys of a namespace as they read,
/// where the namespace is not the log table itself.
pub proof fn law_delete_keeps_others(
    all: Tables,
    namespace: Seq<char>,
    key: Seq<char>,
    other: Seq<char>,
)
    requires
        other != key,
        namespace != log_table(),
    ensures
        answer(erased(all, namespace, key), namespace, other) == answer(all, namespace, other),
{
    lemma_log_keys_apart(namespace, key, other);
}

/// Every value keeps its logged time through a write, where the namespace
/// is not the log table itself.
pub proof fn law_write_keeps_values_logged(
    all: Tables,
    namespace: Seq<char>,
    key: Seq<char>,
    value: Seq<char>,
    stamp: Seq<char>,
)
    requires
        values_logged(all, namespace),
        namespace != log_table(),
    ensures
        values_logged(stored(all, namespace, key, value, stamp), namespace),
{
    let after = stored(all, namespace, key, value, stamp);
    assert forall|k: Seq<char>| #[trigger]
        entries(after, namespace).contains_key(k) implies entries(after, log_table()).contains_key(
        log_key_of(namespace, k),
    ) by {
        if k != key {
            assert(entries(all, namespace).contains_key(k));
        }
    }
}

/// Every value keeps its logged time through a delete, and the deleted key
/// leaves no time behind, where the namespace is not the log table itself.
pub proof fn law_delete_keeps_values_logged(all: Tables, namespace: Seq<char>, key: Seq<char>)
    requires
        values_logged(all, namespace),
        namespace != log_table(),
    ensures
        values_logged(erased(all, namespace, key), namespace),
{
    let after = erased(all, namespace, key);
    assert forall|k: Seq<char>| #[trigger]
        entries(after, namespace).contains_key(k) implies entries(after, log_table()).contains_key(
        log_key_of(namespace, k),
    ) by {
        assert(entries(all, namespace).contains_key(k));
        lemma_log_keys_apart(namespace, key, k);
    }
}

} // verus!
