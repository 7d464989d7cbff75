//! The store: values by key, each with the time of its last write.

use crate::clock::{is_stamp, now};
use crate::engine::{
    describe, entries, get_entry, keys_from, open_database, put_entry, remove_entry, tables,
    texts, with_entry, without_entry, Tables,
};
use crate::error::{Operation, Part, StoreError};
use crate::model::{answer, erased, log_key_of, log_table, stored, text_at, written, Reading};
use crate::order::{
    lemma_lists_from_empty, lemma_precedes_asymmetric, lemma_precedes_irreflexive, lists,
    precedes,
};
use crate::outcome::{settle_read, settle_scan, settle_write};
use crate::text::{first_named, names};
use vstd::prelude::*;

verus! {

/// The table that holds the time of each key's last write.
pub const TAB0: &'static str = "log";

/// What a read gives: the value of a key and the time of its last write,
/// each empty where there is none.
#[derive(Clone, Debug, PartialEq, Eq)]
pub struct ReadResult {
    pub value: String,
    pub update: String,
}

impl View for ReadResult {
    type V = Reading;

    open spec fn view(&self) -> Reading {
        Reading { value: self.value@, update: self.update@ }
    }
}

/// The name of a table that the engine can open: it is not empty.
struct TableName {
    name: String,
}

impl TableName {
    #[verifier::type_invariant]
    spec fn nonempty(&self) -> bool {
        self.name@.len() > 0
    }

    closed spec fn view(&self) -> Seq<char> {
        self.name@
    }

    fn new(name: &str) -> (made: TableName)
        requires
            name@.len() > 0,
        ensures
            made@ == name@,
    {
        TableName { name: name.to_owned() }
    }

    fn as_str(&self) -> (name: &str)
        ensures
            name@ == self@,
            name@.len() > 0,
    {
        proof {
            use_type_invariant(self);
        }
        self.name.as_str()
    }
}

/// A store of values in one namespace of a database file.
pub struct Rdb {
    db: redb::Database,
    tname: TableName,
}

/// `url` names one of the keys that have a value in `namespace`.
pub open spec fn names_some(all: Tables, namespace: Seq<char>, url: Seq<char>) -> bool {
    exists|key: Seq<char>| entries(all, namespace).contains_key(key) && names(url, key)
}

/// `key` is the first, in the order of the keys, of the keys with a value in
/// `namespace` that `url` names.
pub open spec fn first_of_named(
    all: Tables,
    namespace: Seq<char>,
    url: Seq<char>,
    key: Seq<char>,
) -> bool {
    &&& entries(all, namespace).contains_key(key)
    &&& names(url, key)
    &&& forall|other: Seq<char>|
        entries(all, namespace).contains_key(other) && names(url, other) ==> !precedes(
            other,
            key,
        )
}

/// Where an operation of two transactions that failed with `e` left the
/// tables: as `before` the first transaction, as `between` the two, or,
/// where `done` holds, as after both. A transaction that failed before its
/// commit changed nothing; one that failed at its commit took effect as a
/// whole or not at all.
pub open spec fn left_at(
    e: StoreError,
    before: Tables,
    between: Tables,
    after: Tables,
    done: bool,
) -> bool {
    match e {
        StoreError::Runtime { part: Part::Value, committing: false, .. } => after == before,
        StoreError::Runtime { part: Part::Value, committing: true, .. } => after == before || after
            == between,
        StoreError::Runtime { part: Part::Log, committing: false, .. } => after == between,
        StoreError::Runtime { part: Part::Log, committing: true, .. } => after == between || done,
        StoreError::Io { .. } => false,
    }
}

impl Rdb {
    /// The namespace of the store, which never changes.
    pub closed spec fn namespace(&self) -> Seq<char> {
        self.tname@
    }

    /// The tables of the store's database.
    pub closed spec fn contents(&self) -> Tables {
        tables(self.db)
    }

    /// What the engine's answer to the opening of a database file means: a
    /// store of the namespace `tname` over the tables of the database that
    /// it opened, or the failure to open one. The database is the store's
    /// alone from here on, with no transaction of it left open elsewhere.
    pub fn settle_open(outcome: Result<redb::Database, redb::Error>, tname: &str) -> (r: Result<
        Rdb,
        StoreError,
    >)
        requires
            tname@.len() > 0,
        ensures
            match outcome {
                Ok(db) => r is Ok && r->Ok_0.namespace() == tname@ && r->Ok_0.contents() == tables(
                    db,
                ),
                Err(_) => r is Err && r->Err_0 is Io,
            },
    {
        match outcome {
            Ok(db) => Ok(Rdb { db, tname: TableName::new(tname) }),
            Err(e) => Err(StoreError::Io { message: describe(&e) }),
        }
    }

    /// Opens the database file `dname`, making it where there is none, as a
    /// store of the namespace `tname`. What the store then holds is what the
    /// file held.
    pub fn new(dname: &str, tname: &str) -> (r: Result<Rdb, StoreError>)
        requires
            tname@.len() > 0,
        ensures
            match r {
                Ok(store) => store.namespace() == tname@,
                Err(e) => e is Io,
            },
    {
        Self::settle_open(open_database(dname), tname)
    }

    /// The key of the log table that belongs to `k`.
    pub fn log_key(&self, k: &str) -> (logk: String)
        ensures
            logk@ == log_key_of(self.namespace(), k@),
    {
        proof {
            reveal_strlit("/");
        }
        let mut logk = self.tname.as_str().to_owned();
        logk.append("/");
        logk.append(k);
        assert(logk@ =~= log_key_of(self.namespace(), k@));
        logk
    }

    /// Binds `k` to `v` in the table `tname`, in a transaction of its own.
    fn write_value(
        db: &mut redb::Database,
        k: &str,
        v: &str,
        tname: &str,
        operation: Operation,
        part: Part,
    ) -> (r: Result<(), StoreError>)
        requires
            tname@.len() > 0,
        ensures
            match r {
                Ok(()) => tables(*final(db)) == with_entry(tables(*old(db)), tname@, k@, v@),
                Err(e) => {
                    ||| e.failed_at(operation, part, false) && tables(*final(db)) == tables(
                        *old(db),
                    )
                    ||| e.failed_at(operation, part, true) && (tables(*final(db)) == tables(
                        *old(db),
                    ) || tables(*final(db)) == with_entry(tables(*old(db)), tname@, k@, v@))
                },
            },
    {
        settle_write(put_entry(db, tname, k, v), operation, part)
    }

    /// Takes `k` out of the table `tname`, in a transaction of its own.
    fn delete_value(
        db: &mut redb::Database,
        k: &str,
        tname: &str,
        operation: Operation,
        part: Part,
    ) -> (r: Result<(), StoreError>)
        requires
            tname@.len() > 0,
        ensures
            match r {
                Ok(()) => tables(*final(db)) == without_entry(tables(*old(db)), tname@, k@),
                Err(e) => {
                    ||| e.failed_at(operation, part, false) && tables(*final(db)) == tables(
                        *old(db),
                    )
                    ||| e.failed_at(operation, part, true) && (tables(*final(db)) == tables(
                        *old(db),
                    ) || tables(*final(db)) == without_entry(tables(*old(db)), tname@, k@))
                },
            },
    {
        settle_write(remove_entry(db, tname, k), operation, part)
    }

    /// The text bound to `k` in the table `tname`, empty where there is
    /// none.
    fn read_value(
        db: &redb::Database,
        k: &str,
        tname: &str,
        operation: Operation,
        part: Part,
    ) -> (r: Result<String, StoreError>)
        requires
            tname@.len() > 0,
        ensures
            match r {
                Ok(text) => text@ == text_at(tables(*db), tname@, k@),
                Err(e) => e.failed_at(operation, part, false),
            },
    {
        settle_read(get_entry(db, tname, k), operation, part)
    }

    /// Writes `v` under `k` and logs `stamp` as the time of the write, the
    /// value first and the time after it, each in a transaction of its own.
    /// Where the value's transaction fails the time is not logged. The error
    /// tells which transaction failed, and with it where the tables stand.
    pub fn write_at(&mut self, k: &str, v: &str, stamp: &str) -> (r: Result<(), StoreError>)
        ensures
            final(self).namespace() == old(self).namespace(),
            match r {
                Ok(()) => final(self).contents() == stored(
                    old(self).contents(),
                    old(self).namespace(),
                    k@,
                    v@,
                    stamp@,
                ),
                Err(e) => e.is_runtime(Operation::Write) && left_at(
                    e,
                    old(self).contents(),
                    with_entry(old(self).contents(), old(self).namespace(), k@, v@),
                    final(self).contents(),
                    final(self).contents() == stored(
                        old(self).contents(),
                        old(self).namespace(),
                        k@,
                        v@,
                        stamp@,
                    ),
                ),
            },
    {
        proof {
            lemma_log_table();
        }
        match Self::write_value(
            &mut self.db,
            k,
            v,
            self.tname.as_str(),
            Operation::Write,
            Part::Value,
        ) {
            Ok(()) => {},
            Err(e) => {
                return Err(e);
            },
        }
        let logk = self.log_key(k);
        Self::write_value(&mut self.db, logk.as_str(), stamp, TAB0, Operation::Write, Part::Log)
    }

    /// Writes `v` under `k` and logs the time of the write: the value
    /// first, then the clock is read, then its time is logged, each of the
    /// two in a transaction of its own. Where the value's transaction fails
    /// the time is not logged. The error tells which transaction failed, and
    /// with it where the tables stand.
    pub fn write(&mut self, k: &str, v: &str) -> (r: Result<(), StoreError>)
        ensures
            final(self).namespace() == old(self).namespace(),
            match r {
                Ok(()) => written(
                    old(self).contents(),
                    final(self).contents(),
                    old(self).namespace(),
                    k@,
                    v@,
                ),
                Err(e) => e.is_runtime(Operation::Write) && left_at(
                    e,
                    old(self).contents(),
                    with_entry(old(self).contents(), old(self).namespace(), k@, v@),
                    final(self).contents(),
                    written(
                        old(self).contents(),
                        final(self).contents(),
                        old(self).namespace(),
                        k@,
                        v@,
                    ),
                ),
            },
    {
        proof {
            lemma_log_table();
        }
        match Self::write_value(
            &mut self.db,
            k,
            v,
            self.tname.as_str(),
            Operation::Write,
            Part::Value,
        ) {
            Ok(()) => {},
            Err(e) => {
                return Err(e);
            },
        }
        let logv = now();
        let logk = self.log_key(k);
        assert(is_stamp(logv@));
        Self::write_value(
            &mut self.db,
            logk.as_str(),
            logv.as_str(),
            TAB0,
            Operation::Write,
            Part::Log,
        )
    }

    /// Deletes `k`: its value first, then the time of its last write, each
    /// in a transaction of its own. A key that has no value is deleted like
    /// any other. Where the value's transaction fails the time stays. The
    /// error tells which transaction failed, and with it where the tables
    /// stand.
    pub fn delete(&mut self, k: &str) -> (r: Result<(), StoreError>)
        ensures
            final(self).namespace() == old(self).namespace(),
            match r {
                Ok(()) => final(self).contents() == erased(
                    old(self).contents(),
                    old(self).namespace(),
                    k@,
                ),
                Err(e) => e.is_runtime(Operation::Delete) && left_at(
                    e,
                    old(self).contents(),
                    without_entry(old(self).contents(), old(self).namespace(), k@),
                    final(self).contents(),
                    final(self).contents() == erased(
                        old(self).contents(),
                        old(self).namespace(),
                        k@,
                    ),
                ),
            },
    {
        proof {
            lemma_log_table();
        }
        match Self::delete_value(
            &mut self.db,
            k,
            self.tname.as_str(),
            Operation::Delete,
            Part::Value,
        ) {
            Ok(()) => {},
            Err(e) => {
                return Err(e);
            },
        }
        let logk = self.log_key(k);
        Self::delete_value(&mut self.db, logk.as_str(), TAB0, Operation::Delete, Part::Log)
    }

    /// Reads `k` on behalf of `operation`: the value first, then the time.
    fn read_for(&self, k: &str, operation: Operation) -> (r: Result<ReadResult, StoreError>)
        ensures
            match r {
                Ok(got) => got@ == answer(self.contents(), self.namespace(), k@),
                Err(e) => e.failed_at(operation, Part::Value, false) || e.failed_at(
                    operation,
                    Part::Log,
                    false,
                ),
            },
    {
        proof {
            lemma_log_table();
        }
        let value = match Self::read_value(
            &self.db,
            k,
            self.tname.as_str(),
            operation,
            Part::Value,
        ) {
            Ok(value) => value,
            Err(e) => {
                return Err(e);
            },
        };
        let logk = self.log_key(k);
        let update = match Self::read_value(&self.db, logk.as_str(), TAB0, operation, Part::Log) {
            Ok(update) => update,
            Err(e) => {
                return Err(e);
            },
        };
        Ok(ReadResult { value, update })
    }

    /// The value of `k` and the time of its last write. A key that was
    /// never written, or was deleted, reads as two empty strings: that is
    /// no failure.
    pub fn read(&self, k: &str) -> (r: Result<ReadResult, StoreError>)
        ensures
            match r {
                Ok(got) => got@ == answer(self.contents(), self.namespace(), k@),
                Err(e) => e.failed_at(Operation::Read, Part::Value, false) || e.failed_at(
                    Operation::Read,
                    Part::Log,
                    false,
                ),
            },
    {
        self.read_for(k, Operation::Read)
    }

    /// Walks the whole of the namespace's table, on behalf of `operation`.
    fn scan(&self, operation: Operation) -> (r: Result<Vec<String>, StoreError>)
        ensures
            match r {
                Ok(keys) => lists(texts(keys@), entries(self.contents(), self.namespace())),
                Err(e) => e.failed_at(operation, Part::Value, false),
            },
    {
        proof {
            reveal_strlit("");
            assert(""@ =~= Seq::<char>::empty());
        }
        let outcome = keys_from(&self.db, self.tname.as_str(), "");
        proof {
            let table = entries(self.contents(), self.namespace());
            if outcome is Err && crate::engine::reports_missing_table(outcome->Err_0) {
                assert(table =~= Map::empty());
                assert(texts(Seq::<String>::empty()) =~= Seq::empty());
            }
            if outcome is Ok {
                lemma_lists_from_empty(texts(outcome->Ok_0@), table);
            }
        }
        settle_scan(outcome, operation)
    }

    /// The keys that have a value: every one of them, each once, in
    /// ascending order.
    pub fn keys(&self) -> (r: Result<Vec<String>, StoreError>)
        ensures
            match r {
                Ok(keys) => lists(texts(keys@), entries(self.contents(), self.namespace())),
                Err(e) => e.failed_at(Operation::Keys, Part::Value, false),
            },
    {
        self.scan(Operation::Keys)
    }

    /// Looks up the key that `url` names. Of the keys with a value that
    /// `url` names, the first in the order of the keys is read. Where `url`
    /// names none, the answer is an empty value with the present time.
    pub fn contain(&self, url: &str) -> (r: Result<ReadResult, StoreError>)
        ensures
            match r {
                Ok(got) => if names_some(self.contents(), self.namespace(), url@) {
                    exists|key: Seq<char>|
                        first_of_named(self.contents(), self.namespace(), url@, key) && got@
                            == answer(self.contents(), self.namespace(), key)
                } else {
                    got.value@ == Seq::<char>::empty() && is_stamp(got.update@)
                },
                Err(e) => e.failed_at(Operation::Contain, Part::Value, false) || e.failed_at(
                    Operation::Contain,
                    Part::Log,
                    false,
                ),
            },
    {
        let keys = match self.scan(Operation::Contain) {
            Ok(keys) => keys,
            Err(e) => {
                return Err(e);
            },
        };
        let ghost all = self.contents();
        let ghost ns = self.namespace();
        let ghost listing = texts(keys@);
        match first_named(&keys, url) {
            Some(i) => {
                let key = keys[i].as_str();
                proof {
                    assert(listing[i as int] == key@);
                    assert(listing.contains(key@));
                    assert forall|other: Seq<char>|
                        entries(all, ns).contains_key(other) && names(
                            url@,
                            other,
                        ) implies !precedes(other, key@) by {
                        assert(listing.contains(other));
                        let j = choose|j: int| 0 <= j < listing.len() && listing[j] == other;
                        assert(keys[j]@ == other);
                        if j > i {
                            assert(precedes(listing[i as int], listing[j]));
                            lemma_precedes_asymmetric(key@, other);
                        } else {
                            lemma_precedes_irreflexive(key@);
                        }
                    }
                    assert(first_of_named(all, ns, url@, key@));
                    assert(names_some(all, ns, url@));
                }
                self.read_for(key, Operation::Contain)
            },
            None => {
                proof {
                    assert forall|key: Seq<char>| entries(all, ns).contains_key(key) implies !names(
                        url@,
                        key,
                    ) by {
                        assert(listing.contains(key));
                        let j = choose|j: int| 0 <= j < listing.len() && listing[j] == key;
                        assert(keys[j]@ == key);
                    }
                    assert(!names_some(all, ns, url@));
                    reveal_strlit("");
                    assert(""@ =~= Seq::<char>::empty());
                }
                self.default_dic("")
            },
        }
    }

    /// An answer made of `v` and the present time.
    pub fn default_dic(&self, v: &str) -> (r: Result<ReadResult, StoreError>)
        ensures
            r is Ok,
            r->Ok_0.value@ == v@,
            is_stamp(r->Ok_0.update@),
    {
        Ok(ReadResult { value: v.to_owned(), update: now() })
    }
}

/// The constant `TAB0` names the log table.
pub proof fn lemma_log_table()
    ensures
        TAB0@ == log_table(),
        TAB0@.len() > 0,
{
    reveal_strlit("log");
    assert(TAB0@ =~= log_table());
}

} // verus!
