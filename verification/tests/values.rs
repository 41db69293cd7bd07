use groomer::command::{copy_strings, Command};
use groomer::decimal::{decimal, parse_count, LARGEST};
use groomer::error::EngineError;
use groomer::reply::{
    count_reply, empty_reply, expect_integer, expect_scan, expect_strings, expect_values,
    extract_strings, is_string, Reply,
};
use groomer::sequences::all_different;

fn text(s: &str) -> String {
    s.to_string()
}

fn texts(list: &[&str]) -> Vec<String> {
    list.iter().map(|s| s.to_string()).collect()
}

#[test]
fn parse_count_reads_numbers() {
    assert_eq!(parse_count("0"), Some(0));
    assert_eq!(parse_count("7"), Some(7));
    assert_eq!(parse_count("10"), Some(10));
    assert_eq!(parse_count("256"), Some(256));
    assert_eq!(parse_count("9223372036854775807"), Some(9223372036854775807));
}

#[test]
fn parse_count_refuses_what_is_no_number() {
    assert_eq!(parse_count(""), None);
    assert_eq!(parse_count("abc"), None);
    assert_eq!(parse_count("1a"), None);
    assert_eq!(parse_count("-1"), None);
    assert_eq!(parse_count("+1"), None);
    assert_eq!(parse_count(" 1"), None);
    assert_eq!(parse_count("1.5"), None);
    assert_eq!(parse_count("١"), None);
}

#[test]
fn parse_count_refuses_leading_zeros() {
    assert_eq!(parse_count("00"), None);
    assert_eq!(parse_count("007"), None);
}

#[test]
fn parse_count_refuses_what_is_too_large() {
    assert_eq!(LARGEST, 9223372036854775807);
    assert_eq!(parse_count("9223372036854775808"), None);
    assert_eq!(parse_count("18446744073709551615"), None);
    assert_eq!(parse_count("18446744073709551616"), None);
    assert_eq!(parse_count("99999999999999999999999999"), None);
}

#[test]
fn decimal_writes_numbers() {
    assert_eq!(decimal(0), "0");
    assert_eq!(decimal(9), "9");
    assert_eq!(decimal(10), "10");
    assert_eq!(decimal(256), "256");
    assert_eq!(decimal(1234567890), "1234567890");
    assert_eq!(decimal(18446744073709551615), "18446744073709551615");
}

#[test]
fn decimal_is_read_back() {
    for n in [0u64, 1, 9, 10, 99, 100, 12345, 9223372036854775807] {
        assert_eq!(parse_count(&decimal(n)), Some(n));
    }
}

#[test]
fn is_string_takes_status_and_bulk() {
    assert_eq!(is_string(&Reply::Status(text("OK"))), Some(text("OK")));
    assert_eq!(is_string(&Reply::Bulk(text("value"))), Some(text("value")));
    assert_eq!(is_string(&Reply::Integer(1)), None);
    assert_eq!(is_string(&Reply::Nil), None);
    assert_eq!(is_string(&Reply::Error(text("ERR"))), None);
    assert_eq!(is_string(&Reply::Array(vec![])), None);
    assert_eq!(is_string(&Reply::Other), None);
}

#[test]
fn extract_strings_leaves_out_what_is_no_string() {
    let values = vec![
        Reply::Bulk(text("a")),
        Reply::Nil,
        Reply::Status(text("b")),
        Reply::Integer(3),
        Reply::Array(vec![Reply::Bulk(text("inner"))]),
        Reply::Bulk(text("c")),
    ];
    assert_eq!(extract_strings(&values), texts(&["a", "b", "c"]));
    assert_eq!(extract_strings(&vec![]), Vec::<String>::new());
}

#[test]
fn expect_integer_wants_an_integer() {
    assert_eq!(expect_integer(&Reply::Integer(-4)), Ok(-4));
    assert_eq!(expect_integer(&Reply::Bulk(text("4"))), Err(EngineError::NotAnInteger));
    assert_eq!(expect_integer(&Reply::Nil), Err(EngineError::NotAnInteger));
    assert_eq!(
        expect_integer(&Reply::Error(text("ERR no"))),
        Err(EngineError::Store(text("ERR no")))
    );
}

#[test]
fn expect_strings_wants_a_list() {
    assert_eq!(
        expect_strings(&Reply::Array(vec![Reply::Bulk(text("a")), Reply::Nil])),
        Ok(texts(&["a"]))
    );
    assert_eq!(expect_strings(&Reply::Integer(1)), Err(EngineError::NotAList));
    assert_eq!(expect_strings(&Reply::Bulk(text("a"))), Err(EngineError::NotAList));
    assert_eq!(
        expect_strings(&Reply::Error(text("ERR no"))),
        Err(EngineError::Store(text("ERR no")))
    );
}

#[test]
fn expect_scan_wants_a_cursor_and_a_list() {
    let good = Reply::Array(vec![
        Reply::Bulk(text("17")),
        Reply::Array(vec![Reply::Bulk(text("idx_a:b:c")), Reply::Integer(1)]),
    ]);
    assert_eq!(expect_scan(&good), Ok((text("17"), texts(&["idx_a:b:c"]))));
    let longer = Reply::Array(vec![Reply::Status(text("0")), Reply::Array(vec![]), Reply::Nil]);
    assert_eq!(expect_scan(&longer), Ok((text("0"), vec![])));
}

#[test]
fn expect_scan_refuses_other_shapes() {
    assert_eq!(expect_scan(&Reply::Integer(0)), Err(EngineError::BadScan));
    assert_eq!(expect_scan(&Reply::Array(vec![])), Err(EngineError::BadScan));
    assert_eq!(expect_scan(&Reply::Array(vec![Reply::Bulk(text("0"))])), Err(EngineError::BadScan));
    assert_eq!(
        expect_scan(&Reply::Array(vec![Reply::Integer(0), Reply::Array(vec![])])),
        Err(EngineError::BadScan)
    );
    assert_eq!(
        expect_scan(&Reply::Array(vec![Reply::Bulk(text("0")), Reply::Bulk(text("key"))])),
        Err(EngineError::BadScan)
    );
    assert_eq!(
        expect_scan(&Reply::Error(text("ERR no"))),
        Err(EngineError::Store(text("ERR no")))
    );
}

#[test]
fn expect_values_leaves_out_the_absences() {
    let values = Reply::Array(vec![Reply::Nil, Reply::Bulk(text("a")), Reply::Nil]);
    assert_eq!(expect_values(&values), Ok(Reply::Array(vec![Reply::Bulk(text("a"))])));
    assert_eq!(expect_values(&Reply::Array(vec![])), Ok(Reply::Array(vec![])));
    assert_eq!(expect_values(&Reply::Nil), Err(EngineError::NotAList));
    assert_eq!(
        expect_values(&Reply::Error(text("ERR no"))),
        Err(EngineError::Store(text("ERR no")))
    );
}

#[test]
fn count_reply_is_the_count() {
    assert_eq!(count_reply(0), Reply::Integer(0));
    assert_eq!(count_reply(3), Reply::Integer(3));
}

#[test]
fn empty_reply_is_an_empty_list() {
    assert_eq!(empty_reply(), Reply::Array(vec![]));
}

#[test]
fn a_copy_of_a_reply_is_equal_to_it() {
    let nested = Reply::Array(vec![
        Reply::Bulk(text("0")),
        Reply::Array(vec![Reply::Status(text("a")), Reply::Nil, Reply::Integer(5)]),
        Reply::Error(text("ERR")),
        Reply::Other,
    ]);
    assert_eq!(nested.clone(), nested);
}

#[test]
fn errors_have_their_messages() {
    assert_eq!(EngineError::WrongArity.message(), "Wrong Arity");
    assert_eq!(EngineError::NotANumber.message(), "Couldn't parse as integer");
    assert_eq!(EngineError::DuplicateIndex.message(), "ERR index names must be unique!");
    assert_eq!(EngineError::NotAnInteger.message(), "command returned non-integer response!");
    assert_eq!(EngineError::NotAList.message(), "command didn't return a list of strings!");
    assert_eq!(EngineError::BadScan.message(), "SCAN did not return a 2 element array!");
    assert_eq!(EngineError::Store(text("ERR from the store")).message(), "ERR from the store");
    assert_eq!(EngineError::Store(text("x")).clone(), EngineError::Store(text("x")));
}

#[test]
fn commands_have_their_words() {
    assert_eq!(Command::Del { key: text("k") }.words(), texts(&["DEL", "k"]));
    assert_eq!(Command::Exists { key: text("k") }.words(), texts(&["EXISTS", "k"]));
    assert_eq!(
        Command::SetEx { key: text("k"), seconds: text("10"), value: text("v") }.words(),
        texts(&["SETEX", "k", "10", "v"])
    );
    assert_eq!(
        Command::MGet { keys: texts(&["a", "b", "c"]) }.words(),
        texts(&["MGET", "a", "b", "c"])
    );
    assert_eq!(
        Command::SAdd { key: text("s"), member: text("m") }.words(),
        texts(&["SADD", "s", "m"])
    );
    assert_eq!(
        Command::SRem { key: text("s"), member: text("m") }.words(),
        texts(&["SREM", "s", "m"])
    );
    assert_eq!(Command::SMembers { key: text("s") }.words(), texts(&["SMEMBERS", "s"]));
    assert_eq!(
        Command::SRandMember { key: text("s"), count: 256 }.words(),
        texts(&["SRANDMEMBER", "s", "256"])
    );
    assert_eq!(
        Command::HMSet { key: text("h"), entries: texts(&["f", "v", "g", "w"]) }.words(),
        texts(&["HMSET", "h", "f", "v", "g", "w"])
    );
    assert_eq!(Command::HGetAll { key: text("h") }.words(), texts(&["HGETALL", "h"]));
    assert_eq!(Command::Incr { key: text("events") }.words(), texts(&["INCR", "events"]));
    assert_eq!(
        Command::Write { key: text("events"), value: text("0") }.words(),
        texts(&["SET", "events", "0"])
    );
    assert_eq!(
        Command::Scan { cursor: text("0"), pattern: text("idx_*") }.words(),
        texts(&["SCAN", "0", "MATCH", "idx_*"])
    );
}

#[test]
fn a_copy_of_a_command_is_equal_to_it() {
    let command = Command::HMSet { key: text("h"), entries: texts(&["f", "v"]) };
    assert_eq!(command.clone(), command);
    let command = Command::MGet { keys: texts(&["a", "b"]) };
    assert_eq!(command.clone(), command);
}

#[test]
fn all_different_finds_a_name_that_occurs_twice() {
    assert!(all_different(&texts(&[])));
    assert!(all_different(&texts(&["first"])));
    assert!(all_different(&texts(&["first", "second", "third"])));
    assert!(!all_different(&texts(&["first", "first", "third"])));
    assert!(!all_different(&texts(&["first", "second", "first"])));
    assert!(!all_different(&texts(&["a", "a"])));
}

#[test]
fn copies_of_lists_hold_the_same() {
    assert_eq!(copy_strings(&texts(&["a", "b"])), texts(&["a", "b"]));
    assert_eq!(copy_strings(&texts(&[])), Vec::<String>::new());
}
