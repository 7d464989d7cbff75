use logged_kv::clock::now;
use logged_kv::error::{Operation, Part, StoreError};
use logged_kv::rdb::{Rdb, ReadResult, TAB0};

// A store at `path` in which none of the keys that a walk meets is left.
fn emptied(path: &str, tname: &str) -> Rdb {
    let mut rdb = Rdb::new(path, tname).unwrap();
    for k in rdb.keys().unwrap() {
        rdb.delete(&k).unwrap();
    }
    assert_eq!(rdb.keys().unwrap(), Vec::<String>::new());
    rdb
}

fn has_stamp_shape(s: &str) -> bool {
    let b = s.as_bytes();
    let n = b.len();
    if n < 19 {
        return false;
    }
    let tail = &b[n - 15..];
    let pattern = b"-dd-dd dd:dd:dd";
    tail.iter().zip(pattern.iter()).all(|(c, p)| {
        if *p == b'd' {
            c.is_ascii_digit()
        } else {
            c == p
        }
    }) && b[..n - 15].iter().rev().take(4).all(|c| c.is_ascii_digit())
}

fn empty_result() -> ReadResult {
    ReadResult { value: String::new(), update: String::new() }
}

#[test]
fn log_table_is_named_log() {
    assert_eq!(TAB0, "log");
}

#[test]
fn clock_text_has_the_pattern_shape() {
    let stamp = now();
    assert!(has_stamp_shape(&stamp), "{}", stamp);
    assert_eq!(stamp.len(), 19);
}

#[test]
fn log_key_joins_namespace_and_key() {
    let rdb = Rdb::new("/tmp/logged_kv_log_key.rdb", "cfg").unwrap();
    assert_eq!(rdb.log_key("a"), "cfg/a");
    assert_eq!(rdb.log_key(""), "cfg/");
    assert_eq!(rdb.log_key("x/y"), "cfg/x/y");
}

#[test]
fn write_then_read_round_trips() {
    let mut rdb = emptied("/tmp/logged_kv_round_trip.rdb", "cfg");
    rdb.write("k", "v").unwrap();
    let got = rdb.read("k").unwrap();
    assert_eq!(got.value, "v");
    assert!(!got.update.is_empty());
    assert!(has_stamp_shape(&got.update));
}

#[test]
fn write_at_logs_the_given_time() {
    let mut rdb = emptied("/tmp/logged_kv_write_at.rdb", "cfg");
    rdb.write_at("k", "v", "2024-05-06 07:08:09").unwrap();
    assert_eq!(
        rdb.read("k").unwrap(),
        ReadResult { value: "v".to_string(), update: "2024-05-06 07:08:09".to_string() }
    );
}

#[test]
fn the_time_is_kept_in_the_log_table() {
    let mut rdb = emptied("/tmp/logged_kv_log_table.rdb", "cfg");
    rdb.write_at("k", "v", "2024-05-06 07:08:09").unwrap();
    drop(rdb);
    let log = Rdb::new("/tmp/logged_kv_log_table.rdb", "log").unwrap();
    assert_eq!(log.read("cfg/k").unwrap().value, "2024-05-06 07:08:09");
    let cfg = {
        drop(log);
        Rdb::new("/tmp/logged_kv_log_table.rdb", "cfg").unwrap()
    };
    assert_eq!(cfg.read("k").unwrap().value, "v");
}

#[test]
fn empty_value_round_trips() {
    let mut rdb = emptied("/tmp/logged_kv_empty_value.rdb", "cfg");
    rdb.write("k", "").unwrap();
    let got = rdb.read("k").unwrap();
    assert_eq!(got.value, "");
    assert!(!got.update.is_empty());
    assert_eq!(rdb.keys().unwrap(), vec!["k".to_string()]);
}

#[test]
fn delete_clears_value_and_time() {
    let mut rdb = emptied("/tmp/logged_kv_delete.rdb", "cfg");
    rdb.write("k", "v").unwrap();
    rdb.delete("k").unwrap();
    assert_eq!(rdb.read("k").unwrap(), empty_result());
    assert!(!rdb.keys().unwrap().contains(&"k".to_string()));
}

#[test]
fn delete_of_a_missing_key_is_no_failure() {
    let mut rdb = emptied("/tmp/logged_kv_delete_missing.rdb", "cfg");
    rdb.write("stay", "1").unwrap();
    assert_eq!(rdb.delete("never-there"), Ok(()));
    assert_eq!(rdb.keys().unwrap(), vec!["stay".to_string()]);
    assert_eq!(rdb.read("stay").unwrap().value, "1");
}

#[test]
fn second_write_stands() {
    let mut rdb = emptied("/tmp/logged_kv_overwrite.rdb", "cfg");
    rdb.write("k", "v1").unwrap();
    let first = rdb.read("k").unwrap();
    rdb.write("k", "v2").unwrap();
    let second = rdb.read("k").unwrap();
    assert_eq!(first.value, "v1");
    assert_eq!(second.value, "v2");
    assert!(second.update >= first.update);
    assert_eq!(rdb.keys().unwrap(), vec!["k".to_string()]);
}

#[test]
fn second_write_at_replaces_the_time() {
    let mut rdb = emptied("/tmp/logged_kv_overwrite_at.rdb", "cfg");
    rdb.write_at("k", "v1", "2024-01-01 00:00:00").unwrap();
    rdb.write_at("k", "v2", "2024-01-01 00:00:01").unwrap();
    assert_eq!(
        rdb.read("k").unwrap(),
        ReadResult { value: "v2".to_string(), update: "2024-01-01 00:00:01".to_string() }
    );
}

#[test]
fn keys_come_in_ascending_order() {
    let mut rdb = emptied("/tmp/logged_kv_keys.rdb", "cfg");
    for k in ["b", "a", "c", "ab", "B", "10", "9"] {
        rdb.write(k, "x").unwrap();
    }
    rdb.write("a", "y").unwrap();
    assert_eq!(
        rdb.keys().unwrap(),
        vec!["10", "9", "B", "a", "ab", "b", "c"].into_iter().map(String::from).collect::<Vec<_>>()
    );
}

#[test]
fn keys_order_letters_by_code_point() {
    let mut rdb = emptied("/tmp/logged_kv_keys_unicode.rdb", "cfg");
    for k in ["z", "\u{e9}", "\u{1F600}", "\u{FFFD}", "zz"] {
        rdb.write(k, "x").unwrap();
    }
    assert_eq!(
        rdb.keys().unwrap(),
        vec!["z", "zz", "\u{e9}", "\u{FFFD}", "\u{1F600}"]
            .into_iter()
            .map(String::from)
            .collect::<Vec<_>>()
    );
}

#[test]
fn keys_below_zero_are_listed_too() {
    let mut rdb = emptied("/tmp/logged_kv_keys_low.rdb", "cfg");
    rdb.write("!low", "1").unwrap();
    rdb.write("/slash", "2").unwrap();
    rdb.write("", "3").unwrap();
    rdb.write("0", "4").unwrap();
    rdb.write("a", "5").unwrap();
    rdb.write("!low", "6").unwrap();
    assert_eq!(
        rdb.keys().unwrap(),
        vec!["", "!low", "/slash", "0", "a"].into_iter().map(String::from).collect::<Vec<_>>()
    );
    assert_eq!(rdb.read("!low").unwrap().value, "6");
    assert_eq!(rdb.read("/slash").unwrap().value, "2");
    assert_eq!(rdb.read("").unwrap().value, "3");
}

#[test]
fn a_key_with_a_leading_dash_comes_first() {
    let mut rdb = emptied("/tmp/logged_kv_keys_dash.rdb", "cfg");
    rdb.write("b", "2").unwrap();
    rdb.write("-a", "1").unwrap();
    assert_eq!(rdb.keys().unwrap(), vec!["-a".to_string(), "b".to_string()]);
}

#[test]
fn a_write_adds_its_key_to_the_keys() {
    let mut rdb = emptied("/tmp/logged_kv_keys_grow.rdb", "cfg");
    rdb.write("m", "1").unwrap();
    let before = rdb.keys().unwrap();
    rdb.write("-k", "2").unwrap();
    let after = rdb.keys().unwrap();
    assert_eq!(before, vec!["m".to_string()]);
    assert_eq!(after, vec!["-k".to_string(), "m".to_string()]);
    assert!(!after.contains(&"cfg/-k".to_string()));
    rdb.delete("m").unwrap();
    assert_eq!(rdb.keys().unwrap(), vec!["-k".to_string()]);
}

#[test]
fn absent_key_reads_empty() {
    let mut rdb = emptied("/tmp/logged_kv_absent.rdb", "cfg");
    rdb.write("other", "1").unwrap();
    assert_eq!(rdb.read("nonexistent"), Ok(empty_result()));
}

#[test]
fn a_namespace_never_written_reads_empty() {
    let rdb = Rdb::new("/tmp/logged_kv_untouched.rdb", "untouched").unwrap();
    assert_eq!(rdb.read("nonexistent"), Ok(empty_result()));
    assert_eq!(rdb.keys(), Ok(Vec::new()));
    let found = rdb.contain("http://host/deploy/path").unwrap();
    assert_eq!(found.value, "");
    assert!(!found.update.is_empty());
}

#[test]
fn contain_reads_the_key_that_the_url_names() {
    let mut rdb = emptied("/tmp/logged_kv_contain.rdb", "cfg");
    rdb.write("rc", "localhost:9027").unwrap();
    rdb.write("deploy", "localhost:7777").unwrap();
    let found = rdb.contain("http://host/deploy/path").unwrap();
    assert_eq!(found, rdb.read("deploy").unwrap());
    assert_eq!(found.value, "localhost:7777");
    let none = rdb.contain("http://host/nomatch/path").unwrap();
    assert_eq!(none.value, "");
    assert!(!none.update.is_empty());
    assert!(has_stamp_shape(&none.update));
}

#[test]
fn contain_takes_the_first_key_in_key_order() {
    let mut rdb = emptied("/tmp/logged_kv_contain_first.rdb", "cfg");
    rdb.write("b", "second").unwrap();
    rdb.write("a", "first").unwrap();
    assert_eq!(rdb.contain("http://host/b/x/a/").unwrap().value, "first");
    assert_eq!(rdb.contain("http://host/b/x").unwrap().value, "second");
}

#[test]
fn contain_needs_both_slashes() {
    let mut rdb = emptied("/tmp/logged_kv_contain_slashes.rdb", "cfg");
    rdb.write("deploy", "v").unwrap();
    assert_eq!(rdb.contain("http://host/deploy").unwrap().value, "");
    assert_eq!(rdb.contain("deploy/").unwrap().value, "");
    assert_eq!(rdb.contain("/deployed/").unwrap().value, "");
    assert_eq!(rdb.contain("/deploy/").unwrap().value, "v");
}

#[test]
fn contain_leaves_the_slashes_of_a_key_out() {
    let mut rdb = emptied("/tmp/logged_kv_contain_strip.rdb", "cfg");
    rdb.write("de/ploy", "v").unwrap();
    assert_eq!(rdb.contain("http://host/deploy/path").unwrap().value, "v");
    assert_eq!(rdb.contain("http://host/de/ploy/path").unwrap().value, "");
}

#[test]
fn contain_meets_keys_below_zero() {
    let mut rdb = emptied("/tmp/logged_kv_contain_low.rdb", "cfg");
    rdb.write("-x", "V").unwrap();
    assert_eq!(rdb.contain("http://h/-x/y").unwrap().value, "V");
    assert_eq!(rdb.contain("http://h/-x/y").unwrap(), rdb.read("-x").unwrap());
    rdb.write("/deploy", "low").unwrap();
    assert_eq!(rdb.contain("http://host/deploy/path").unwrap().value, "low");
    rdb.write("deploy", "listed").unwrap();
    assert_eq!(rdb.contain("http://host/deploy/path").unwrap().value, "low");
    rdb.delete("/deploy").unwrap();
    assert_eq!(rdb.contain("http://host/deploy/path").unwrap().value, "listed");
}

#[test]
fn default_dic_holds_the_value_and_the_time() {
    let rdb = Rdb::new("/tmp/logged_kv_default.rdb", "cfg").unwrap();
    let got = rdb.default_dic("x").unwrap();
    assert_eq!(got.value, "x");
    assert!(has_stamp_shape(&got.update));
    assert_eq!(rdb.default_dic("").unwrap().value, "");
}

#[test]
fn write_list_delete_in_turn() {
    let mut rdb = emptied("/tmp/logged_kv_scenario.rdb", "cfg");
    rdb.write("a", "1").unwrap();
    rdb.write("b", "2").unwrap();
    assert_eq!(rdb.keys().unwrap(), vec!["a".to_string(), "b".to_string()]);
    rdb.delete("a").unwrap();
    assert_eq!(rdb.keys().unwrap(), vec!["b".to_string()]);
    assert_eq!(rdb.read("a").unwrap(), empty_result());
}

#[test]
fn namespaces_of_one_file_keep_apart() {
    let mut one = emptied("/tmp/logged_kv_namespaces.rdb", "one");
    one.write("k", "1").unwrap();
    drop(one);
    let mut two = emptied("/tmp/logged_kv_namespaces.rdb", "two");
    assert_eq!(two.read("k").unwrap(), empty_result());
    two.write("k", "2").unwrap();
    two.delete("k").unwrap();
    drop(two);
    let one = Rdb::new("/tmp/logged_kv_namespaces.rdb", "one").unwrap();
    assert_eq!(one.read("k").unwrap().value, "1");
    assert!(!one.read("k").unwrap().update.is_empty());
}

#[test]
fn values_outlast_the_store() {
    let mut rdb = emptied("/tmp/logged_kv_durable.rdb", "cfg");
    rdb.write_at("k", "v", "2024-05-06 07:08:09").unwrap();
    drop(rdb);
    let again = Rdb::new("/tmp/logged_kv_durable.rdb", "cfg").unwrap();
    assert_eq!(
        again.read("k").unwrap(),
        ReadResult { value: "v".to_string(), update: "2024-05-06 07:08:09".to_string() }
    );
}

#[test]
fn a_place_that_cannot_be_opened_is_an_io_error() {
    match Rdb::new("/tmp/logged_kv_no_such_directory/deeper/store.rdb", "cfg") {
        Err(StoreError::Io { message }) => assert!(!message.is_empty()),
        Err(other) => panic!("{:?}", other),
        Ok(_) => panic!("opened"),
    }
}

fn typed_file(path: &str) {
    let db = redb::Database::create(path).unwrap();
    let typed: redb::TableDefinition<&str, u64> = redb::TableDefinition::new("typed");
    let txn = db.begin_write().unwrap();
    {
        let mut table = txn.open_table(typed).unwrap();
        table.insert("k", &7u64).unwrap();
    }
    txn.commit().unwrap();
}

fn step_of(e: &StoreError) -> (Operation, Part, bool) {
    match e {
        StoreError::Runtime { operation, part, committing, message } => {
            assert!(!message.is_empty());
            (*operation, *part, *committing)
        }
        other => panic!("{:?}", other),
    }
}

#[test]
fn a_table_of_another_kind_fails_each_operation() {
    let path = "/tmp/logged_kv_typed.rdb";
    typed_file(path);
    let mut rdb = Rdb::new(path, "typed").unwrap();
    assert_eq!(step_of(&rdb.read("k").unwrap_err()), (Operation::Read, Part::Value, false));
    assert_eq!(step_of(&rdb.write("k", "v").unwrap_err()), (Operation::Write, Part::Value, false));
    assert_eq!(
        step_of(&rdb.write_at("k", "v", "t").unwrap_err()),
        (Operation::Write, Part::Value, false)
    );
    assert_eq!(step_of(&rdb.delete("k").unwrap_err()), (Operation::Delete, Part::Value, false));
    assert_eq!(step_of(&rdb.keys().unwrap_err()), (Operation::Keys, Part::Value, false));
    assert_eq!(step_of(&rdb.contain("/k/").unwrap_err()), (Operation::Contain, Part::Value, false));
    let e = rdb.read("k").unwrap_err();
    assert!(!e.message().is_empty());
}

#[test]
fn a_failed_value_step_leaves_the_log_alone() {
    let path = "/tmp/logged_kv_typed_value.rdb";
    typed_file(path);
    let mut rdb = Rdb::new(path, "typed").unwrap();
    assert!(rdb.write_at("k", "v", "2024-05-06 07:08:09").is_err());
    drop(rdb);
    let log = Rdb::new(path, "log").unwrap();
    assert_eq!(log.read("typed/k").unwrap().value, "");
    assert_eq!(log.keys().unwrap(), Vec::<String>::new());
}

#[test]
fn a_failed_log_step_leaves_the_value_written() {
    let path = "/tmp/logged_kv_typed_log.rdb";
    {
        let db = redb::Database::create(path).unwrap();
        let typed: redb::TableDefinition<&str, u64> = redb::TableDefinition::new("log");
        let txn = db.begin_write().unwrap();
        {
            let mut table = txn.open_table(typed).unwrap();
            table.insert("cfg/k", &7u64).unwrap();
        }
        txn.commit().unwrap();
    }
    let mut rdb = Rdb::new(path, "cfg").unwrap();
    let e = rdb.write("k", "v").unwrap_err();
    assert_eq!(step_of(&e), (Operation::Write, Part::Log, false));
    assert!(rdb.keys().unwrap().contains(&"k".to_string()));
    assert_eq!(step_of(&rdb.read("k").unwrap_err()), (Operation::Read, Part::Log, false));
    let e = rdb.delete("k").unwrap_err();
    assert_eq!(step_of(&e), (Operation::Delete, Part::Log, false));
    assert!(!rdb.keys().unwrap().contains(&"k".to_string()));
}

#[test]
fn settle_open_makes_a_store_of_what_the_engine_opened() {
    let path = "/tmp/logged_kv_settle_open.rdb";
    {
        let mut rdb = emptied(path, "cfg");
        rdb.write_at("k", "v", "2024-05-06 07:08:09").unwrap();
    }
    let rdb = Rdb::settle_open(redb::Database::create(path).map_err(redb::Error::from), "cfg")
        .unwrap();
    assert_eq!(rdb.log_key("k"), "cfg/k");
    assert_eq!(
        rdb.read("k").unwrap(),
        ReadResult { value: "v".to_string(), update: "2024-05-06 07:08:09".to_string() }
    );
    assert_eq!(rdb.keys().unwrap(), vec!["k".to_string()]);
}

#[test]
fn settle_open_reports_a_failed_opening_as_io() {
    match Rdb::settle_open(Err(redb::Error::DatabaseAlreadyOpen), "cfg") {
        Err(StoreError::Io { message }) => {
            assert_eq!(message, redb::Error::DatabaseAlreadyOpen.to_string())
        }
        Err(other) => panic!("{:?}", other),
        Ok(_) => panic!("opened"),
    }
}
