//! The table engine, seen through its contracts.
//!
//! Everything the store knows about `redb` is stated here and nowhere proved:
//! the functions below make the engine's calls, and their contracts say what
//! the engine's documentation promises of them. Each of them runs one whole
//! transaction, so no transaction is ever left open between two calls.

use crate::order::lists_from;
use redb::ReadableDatabase;
use vstd::prelude::*;

verus! {

/// The engine's handle on an open database file.
#[verifier::external_type_specification]
#[verifier::external_body]
pub struct ExDatabase(redb::Database);

/// The engine's error, whatever step of a transaction raised it.
#[verifier::external_type_specification]
#[verifier::external_body]
pub struct ExEngineError(redb::Error);

/// The entries of a table: what each key is bound to.
pub type Entries = Map<Seq<char>, Seq<char>>;

/// The tables of a database, by name.
pub type Tables = Map<Seq<char>, Entries>;

/// The committed string tables of a database: each table that exists, by
/// name, with the entries it holds.
pub uninterp spec fn tables(db: redb::Database) -> Map<Seq<char>, Map<Seq<char>, Seq<char>>>;

/// Whether an engine error says that the table asked for does not exist.
pub uninterp spec fn reports_missing_table(e: redb::Error) -> bool;

/// The entries of one table; a table that does not exist holds none.
pub open spec fn entries(all: Tables, table: Seq<char>) -> Entries {
    if all.contains_key(table) {
        all[table]
    } else {
        Map::empty()
    }
}

/// The tables after `key` is bound to `value` in `table`.
pub open spec fn with_entry(all: Tables, table: Seq<char>, key: Seq<char>, value: Seq<char>) -> Tables {
    all.insert(table, entries(all, table).insert(key, value))
}

/// The tables after `key` is taken out of `table`.
pub open spec fn without_entry(all: Tables, table: Seq<char>, key: Seq<char>) -> Tables {
    all.insert(table, entries(all, table).remove(key))
}

/// The strings of a vector, each by its letters.
pub open spec fn texts(v: Seq<String>) -> Seq<Seq<char>> {
    v.map_values(|s: String| s@)
}

/// `Database::create`: opens the file at `path` as a database, making a new
/// one where the file is missing or empty. Nothing is claimed of what an
/// opened database holds.
#[verifier::external_body]
pub(crate) fn open_database(path: &str) -> (r: Result<redb::Database, redb::Error>) {
    Ok(redb::Database::create(path)?)
}

/// One write transaction that binds `key` to `value` in `table`:
/// `Database::begin_write`, `WriteTransaction::open_table`, `Table::insert`
/// and `WriteTransaction::commit`. An error before the commit comes back as
/// the outer error: the transaction is dropped uncommitted and nothing has
/// changed. The commit's own answer comes back inside `Ok`. When it succeeds
/// the binding is committed, the table being created if need be, and
/// nothing else changes. When it fails the transaction took effect as a
/// whole or not at all.
#[verifier::external_body]
pub(crate) fn put_entry(db: &mut redb::Database, table: &str, key: &str, value: &str) -> (r:
    Result<Result<(), redb::Error>, redb::Error>)
    requires
        table@.len() > 0,
    ensures
        match r {
            Ok(Ok(())) => tables(*final(db)) == with_entry(tables(*old(db)), table@, key@, value@),
            Ok(Err(_)) => tables(*final(db)) == tables(*old(db)) || tables(*final(db))
                == with_entry(tables(*old(db)), table@, key@, value@),
            Err(_) => tables(*final(db)) == tables(*old(db)),
        },
{
    let definition = redb::TableDefinition::<&str, &str>::new(table);
    let txn = db.begin_write()?;
    {
        let mut opened = txn.open_table(definition)?;
        opened.insert(key, value)?;
    }
    Ok(txn.commit().map_err(redb::Error::from))
}

/// One write transaction that takes `key` out of `table`:
/// `Database::begin_write`, `WriteTransaction::open_table`, `Table::remove`
/// and `WriteTransaction::commit`. An error before the commit comes back as
/// the outer error: the transaction is dropped uncommitted and nothing has
/// changed. The commit's own answer comes back inside `Ok`. When it succeeds
/// the key is gone, the table exists, and nothing else changes. When it
/// fails the transaction took effect as a whole or not at all.
#[verifier::external_body]
pub(crate) fn remove_entry(db: &mut redb::Database, table: &str, key: &str) -> (r: Result<
    Result<(), redb::Error>,
    redb::Error,
>)
    requires
        table@.len() > 0,
    ensures
        match r {
            Ok(Ok(())) => tables(*final(db)) == without_entry(tables(*old(db)), table@, key@),
            Ok(Err(_)) => tables(*final(db)) == tables(*old(db)) || tables(*final(db))
                == without_entry(tables(*old(db)), table@, key@),
            Err(_) => tables(*final(db)) == tables(*old(db)),
        },
{
    let definition = redb::TableDefinition::<&str, &str>::new(table);
    let txn = db.begin_write()?;
    {
        let mut opened = txn.open_table(definition)?;
        opened.remove(key)?;
    }
    Ok(txn.commit().map_err(redb::Error::from))
}

/// One read transaction that looks `key` up in `table`:
/// `ReadableDatabase::begin_read`, `ReadTransaction::open_table` and
/// `ReadOnlyTable::get`. It returns the value that the key is bound to, or
/// `None` where the table holds no such key. The engine refuses to open a
/// table that does not exist, with an error that says so.
#[verifier::external_body]
pub(crate) fn get_entry(db: &redb::Database, table: &str, key: &str) -> (r: Result<
    Option<String>,
    redb::Error,
>)
    requires
        table@.len() > 0,
    ensures
        match r {
            Ok(Some(value)) => entries(tables(*db), table@).contains_key(key@) && entries(
                tables(*db),
                table@,
            )[key@] == value@,
            Ok(None) => !entries(tables(*db), table@).contains_key(key@),
            Err(e) => reports_missing_table(e) ==> !tables(*db).contains_key(table@),
        },
{
    let definition = redb::TableDefinition::<&str, &str>::new(table);
    let txn = db.begin_read()?;
    let opened = txn.open_table(definition)?;
    Ok(match opened.get(key)? {
        Some(guard) => Some(guard.value().to_string()),
        None => None,
    })
}

/// One read transaction that walks `table` from `lower` on:
/// `ReadableDatabase::begin_read`, `ReadTransaction::open_table` and
/// `ReadOnlyTable::range` over `lower..`. The engine hands the entries out
/// in the order of their keys, which for strings is that of `str`; the keys
/// are returned as they come. The first entry that cannot be read ends the
/// walk with its error.
#[verifier::external_body]
pub(crate) fn keys_from(db: &redb::Database, table: &str, lower: &str) -> (r: Result<
    Vec<String>,
    redb::Error,
>)
    requires
        table@.len() > 0,
    ensures
        match r {
            Ok(keys) => lists_from(texts(keys@), entries(tables(*db), table@), lower@),
            Err(e) => reports_missing_table(e) ==> !tables(*db).contains_key(table@),
        },
{
    let definition = redb::TableDefinition::<&str, &str>::new(table);
    let txn = db.begin_read()?;
    let opened = txn.open_table(definition)?;
    let mut keys = Vec::new();
    for item in opened.range(lower..)? {
        keys.push(item?.0.value().to_string());
    }
    Ok(keys)
}

/// Tells `Error::TableDoesNotExist` from the engine's other errors.
#[verifier::external_body]
pub(crate) fn is_missing_table(e: &redb::Error) -> (missing: bool)
    ensures
        missing == reports_missing_table(*e),
{
    matches!(e, redb::Error::TableDoesNotExist(_))
}

/// The engine's text for an error, as its `Display` writes it.
#[verifier::external_body]
pub(crate) fn describe(e: &redb::Error) -> (text: String) {
    e.to_string()
}

} // verus!
