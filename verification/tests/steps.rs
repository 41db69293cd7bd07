use groomer::{
    Action, CleanKey, Command, EngineError, EventGroom, Get, GroomIndex, Init, PeriodicGroom,
    Remove, RemoveByIndex, Reply, SetIndexed, TargetedGroom,
};

fn text(s: &str) -> String {
    s.to_string()
}

fn words(args: &[&str]) -> Vec<String> {
    args.iter().map(|word| word.to_string()).collect()
}

fn bulks(list: &[&str]) -> Reply {
    Reply::Array(list.iter().map(|s| Reply::Bulk(s.to_string())).collect())
}

fn scan(cursor: &str, keys: &[&str]) -> Reply {
    Reply::Array(vec![Reply::Bulk(cursor.to_string()), bulks(keys)])
}

fn done_ok() -> Action {
    Action::Done(Ok(Reply::Status(text("OK"))))
}

fn failed(error: EngineError) -> Action {
    Action::Done(Err(error))
}

fn step(op: &mut CleanKey, reply: Reply) -> Action {
    op.process(&reply);
    op.action()
}

#[test]
fn clean_walks_through_its_stages() {
    let mut op = CleanKey::new(text("ns"), text("k"));
    assert!(!op.finished());
    assert_eq!(op.action(), Action::Call(Command::Del { key: text("ns:k") }));
    assert_eq!(
        step(&mut op, Reply::Integer(1)),
        Action::Call(Command::HGetAll { key: text("meta_ns:k") })
    );
    assert_eq!(
        step(&mut op, bulks(&["first", "x", "second", "y"])),
        Action::Call(Command::SRem { key: text("idx_ns:first:x"), member: text("k") })
    );
    assert_eq!(
        step(&mut op, Reply::Integer(1)),
        Action::Call(Command::SRem { key: text("idx_ns:second:y"), member: text("k") })
    );
    assert_eq!(
        step(&mut op, Reply::Integer(0)),
        Action::Call(Command::Del { key: text("meta_ns:k") })
    );
    assert_eq!(step(&mut op, Reply::Integer(1)), done_ok());
    assert!(op.finished());
    assert_eq!(op.failure(), None);
}

#[test]
fn clean_counts_missing_metadata() {
    let mut op = CleanKey::new(text("ns"), text("k"));
    step(&mut op, Reply::Integer(0));
    assert_eq!(
        step(&mut op, bulks(&[])),
        Action::Call(Command::Incr { key: text("meta_missing") })
    );
    assert_eq!(step(&mut op, Reply::Integer(4)), done_ok());
}

#[test]
fn clean_passes_over_a_name_without_a_value() {
    let mut op = CleanKey::new(text("ns"), text("k"));
    step(&mut op, Reply::Integer(1));
    assert_eq!(
        step(&mut op, bulks(&["first", "x", "second"])),
        Action::Call(Command::SRem { key: text("idx_ns:first:x"), member: text("k") })
    );
    assert_eq!(
        step(&mut op, Reply::Integer(1)),
        Action::Call(Command::Del { key: text("meta_ns:k") })
    );
    let mut op = CleanKey::new(text("ns"), text("k"));
    step(&mut op, Reply::Integer(1));
    assert_eq!(
        step(&mut op, bulks(&["alone"])),
        Action::Call(Command::Del { key: text("meta_ns:k") })
    );
}

#[test]
fn clean_reads_only_the_strings_of_the_metadata() {
    let mut op = CleanKey::new(text("ns"), text("k"));
    step(&mut op, Reply::Integer(1));
    let listing = Reply::Array(vec![
        Reply::Bulk(text("first")),
        Reply::Nil,
        Reply::Status(text("x")),
        Reply::Integer(7),
    ]);
    assert_eq!(
        step(&mut op, listing),
        Action::Call(Command::SRem { key: text("idx_ns:first:x"), member: text("k") })
    );
    assert_eq!(
        step(&mut op, Reply::Integer(1)),
        Action::Call(Command::Del { key: text("meta_ns:k") })
    );
}

#[test]
fn clean_wants_integers_and_a_list() {
    let mut op = CleanKey::new(text("ns"), text("k"));
    assert_eq!(step(&mut op, Reply::Bulk(text("1"))), failed(EngineError::NotAnInteger));
    assert_eq!(op.failure(), Some(EngineError::NotAnInteger));

    let mut op = CleanKey::new(text("ns"), text("k"));
    assert_eq!(step(&mut op, bulks(&[])), failed(EngineError::NotAnInteger));

    let mut op = CleanKey::new(text("ns"), text("k"));
    step(&mut op, Reply::Integer(1));
    assert_eq!(step(&mut op, Reply::Integer(1)), failed(EngineError::NotAList));

    let mut op = CleanKey::new(text("ns"), text("k"));
    step(&mut op, Reply::Integer(1));
    assert_eq!(step(&mut op, Reply::Nil), failed(EngineError::NotAList));

    let mut op = CleanKey::new(text("ns"), text("k"));
    step(&mut op, Reply::Integer(1));
    step(&mut op, bulks(&["first", "x"]));
    assert_eq!(step(&mut op, Reply::Status(text("OK"))), failed(EngineError::NotAnInteger));

    let mut op = CleanKey::new(text("ns"), text("k"));
    step(&mut op, Reply::Integer(1));
    step(&mut op, bulks(&[]));
    assert_eq!(step(&mut op, Reply::Other), failed(EngineError::NotAnInteger));
}

#[test]
fn clean_hands_on_the_error_of_the_store() {
    let mut op = CleanKey::new(text("ns"), text("k"));
    step(&mut op, Reply::Integer(1));
    assert_eq!(
        step(&mut op, Reply::Error(text("WRONGTYPE"))),
        failed(EngineError::Store(text("WRONGTYPE")))
    );
}

#[test]
fn an_operation_that_has_ended_stays_as_it_is() {
    let mut op = CleanKey::new(text("ns"), text("k"));
    assert_eq!(step(&mut op, Reply::Nil), failed(EngineError::NotAnInteger));
    assert_eq!(step(&mut op, Reply::Integer(1)), failed(EngineError::NotAnInteger));
    assert_eq!(step(&mut op, Reply::Error(text("late"))), failed(EngineError::NotAnInteger));

    let mut op = Remove::from(words(&["MAP.MREM", "ns"])).unwrap();
    assert_eq!(op.process(&Reply::Integer(1)), Action::Done(Ok(Reply::Integer(0))));

    let mut op = Init::from();
    for _ in 0..3 {
        op.perform(&Reply::Status(text("OK")));
    }
    assert_eq!(op.perform(&Reply::Error(text("late"))), done_ok());
}

#[test]
fn a_write_cleans_only_a_key_that_has_metadata() {
    let args = words(&["MAP.MSETEX_INDEXED", "ns", "10", "1", "idx", "k", "v", "x"]);
    let mut op = SetIndexed::from(args.clone()).unwrap();
    assert_eq!(
        op.process(&Reply::Integer(0)),
        Action::Call(Command::SetEx { key: text("ns:k"), seconds: text("10"), value: text("v") })
    );
    let mut op = SetIndexed::from(args.clone()).unwrap();
    assert_eq!(op.process(&Reply::Integer(1)), Action::Call(Command::Del { key: text("ns:k") }));
    assert_eq!(
        op.process(&Reply::Integer(1)),
        Action::Call(Command::HGetAll { key: text("meta_ns:k") })
    );
    assert_eq!(
        op.process(&bulks(&["old", "o"])),
        Action::Call(Command::SRem { key: text("idx_ns:old:o"), member: text("k") })
    );
    assert_eq!(
        op.process(&Reply::Integer(1)),
        Action::Call(Command::Del { key: text("meta_ns:k") })
    );
    assert_eq!(
        op.process(&Reply::Integer(1)),
        Action::Call(Command::SetEx { key: text("ns:k"), seconds: text("10"), value: text("v") })
    );
    assert_eq!(
        op.process(&Reply::Status(text("OK"))),
        Action::Call(Command::SAdd { key: text("idx_ns:idx:x"), member: text("k") })
    );
    assert_eq!(
        op.process(&Reply::Integer(1)),
        Action::Call(Command::HMSet { key: text("meta_ns:k"), entries: words(&["idx", "x"]) })
    );
    assert_eq!(op.process(&Reply::Status(text("OK"))), done_ok());
    assert!(op.finished());
}

#[test]
fn a_write_ends_when_its_clean_operation_fails() {
    let args = words(&["MAP.MSETEX_INDEXED", "ns", "10", "1", "idx", "k", "v", "x"]);
    let mut op = SetIndexed::from(args).unwrap();
    op.process(&Reply::Integer(1));
    op.process(&Reply::Integer(1));
    assert_eq!(op.process(&Reply::Integer(1)), failed(EngineError::NotAList));
    assert!(op.finished());
}

#[test]
fn a_write_wants_an_integer_for_the_metadata() {
    let args = words(&["MAP.MSETEX_INDEXED", "ns", "10", "0", "k", "v"]);
    let mut op = SetIndexed::from(args.clone()).unwrap();
    assert_eq!(op.process(&Reply::Bulk(text("1"))), failed(EngineError::NotAnInteger));
    let mut op = SetIndexed::from(args.clone()).unwrap();
    assert_eq!(
        op.process(&Reply::Integer(2)),
        Action::Call(Command::SetEx { key: text("ns:k"), seconds: text("10"), value: text("v") })
    );
    assert_eq!(op.process(&Reply::Nil), done_ok());
}

#[test]
fn a_write_goes_from_row_to_row() {
    let args = words(&["MAP.MSETEX_INDEXED", "ns", "10", "0", "a", "1", "b", "2"]);
    let mut op = SetIndexed::from(args).unwrap();
    assert_eq!(op.action(), Action::Call(Command::Exists { key: text("meta_ns:a") }));
    op.process(&Reply::Integer(0));
    assert_eq!(
        op.process(&Reply::Status(text("OK"))),
        Action::Call(Command::Exists { key: text("meta_ns:b") })
    );
    assert_eq!(
        op.process(&Reply::Integer(0)),
        Action::Call(Command::SetEx { key: text("ns:b"), seconds: text("10"), value: text("2") })
    );
    assert_eq!(op.process(&Reply::Status(text("OK"))), done_ok());
}

#[test]
fn a_read_answers_with_the_values_that_are_there() {
    let mut op = Get::from(words(&["MAP.GET_BY_INDEX", "ns", "idx", "val"])).unwrap();
    assert_eq!(
        op.process(&bulks(&["a", "b", "c"])),
        Action::Call(Command::MGet { keys: words(&["ns:a", "ns:b", "ns:c"]) })
    );
    let values = Reply::Array(vec![Reply::Bulk(text("1")), Reply::Nil, Reply::Bulk(text("3"))]);
    let answer = Reply::Array(vec![Reply::Bulk(text("1")), Reply::Bulk(text("3"))]);
    assert_eq!(op.process(&values), Action::Done(Ok(answer.clone())));
    assert_eq!(op.action(), Action::Done(Ok(answer)));
}

#[test]
fn a_read_of_members_without_values_answers_with_an_empty_list() {
    let mut op = Get::from(words(&["MAP.GET_BY_INDEX", "ns", "idx", "val"])).unwrap();
    op.process(&bulks(&["a", "b"]));
    assert_eq!(
        op.process(&Reply::Array(vec![Reply::Nil, Reply::Nil])),
        Action::Done(Ok(Reply::Array(vec![])))
    );
}

#[test]
fn a_read_wants_a_list_of_values() {
    let mut op = Get::from(words(&["MAP.GET_BY_INDEX", "ns", "idx", "val"])).unwrap();
    op.process(&bulks(&["a"]));
    assert_eq!(op.process(&Reply::Bulk(text("1"))), failed(EngineError::NotAList));
}

#[test]
fn a_read_wants_a_list_of_members() {
    let mut op = Get::from(words(&["MAP.GET_BY_INDEX", "ns", "idx", "val"])).unwrap();
    assert_eq!(op.process(&Reply::Integer(1)), failed(EngineError::NotAList));
    let mut op = Get::from(words(&["MAP.GET_BY_INDEX", "ns", "idx", "val"])).unwrap();
    assert_eq!(
        op.process(&Reply::Error(text("WRONGTYPE"))),
        failed(EngineError::Store(text("WRONGTYPE")))
    );
    let mut op = Get::from(words(&["MAP.GET_BY_INDEX", "ns", "idx", "val"])).unwrap();
    op.process(&bulks(&["a"]));
    assert_eq!(
        op.process(&Reply::Error(text("ERR busy"))),
        failed(EngineError::Store(text("ERR busy")))
    );
}

#[test]
fn a_removal_by_index_cleans_member_after_member() {
    let mut op = RemoveByIndex::from(words(&["MAP.REM_BY_INDEX", "ns", "idx", "val"])).unwrap();
    assert_eq!(op.process(&bulks(&["a", "b"])), Action::Call(Command::Del { key: text("ns:a") }));
    op.process(&Reply::Integer(1));
    op.process(&bulks(&[]));
    assert_eq!(op.process(&Reply::Integer(1)), Action::Call(Command::Del { key: text("ns:b") }));
    op.process(&Reply::Integer(1));
    op.process(&bulks(&["idx", "val"]));
    op.process(&Reply::Integer(1));
    assert_eq!(op.process(&Reply::Integer(1)), Action::Done(Ok(Reply::Integer(2))));
}

#[test]
fn a_removal_by_index_of_no_members_counts_none() {
    let mut op = RemoveByIndex::from(words(&["MAP.REM_BY_INDEX", "ns", "idx", "val"])).unwrap();
    assert_eq!(op.process(&bulks(&[])), Action::Done(Ok(Reply::Integer(0))));
    assert_eq!(op.process(&Reply::Integer(1)), Action::Done(Ok(Reply::Integer(0))));
}

#[test]
fn a_removal_by_index_wants_a_list_of_members() {
    let mut op = RemoveByIndex::from(words(&["MAP.REM_BY_INDEX", "ns", "idx", "val"])).unwrap();
    assert_eq!(op.process(&Reply::Nil), failed(EngineError::NotAList));
    assert_eq!(op.process(&bulks(&["a"])), failed(EngineError::NotAList));
}

#[test]
fn a_removal_ends_with_the_first_failure() {
    let mut op = Remove::from(words(&["MAP.MREM", "ns", "a", "b"])).unwrap();
    assert_eq!(
        op.process(&Reply::Error(text("ERR busy"))),
        failed(EngineError::Store(text("ERR busy")))
    );
    assert_eq!(op.process(&Reply::Integer(1)), failed(EngineError::Store(text("ERR busy"))));
}

#[test]
fn init_sets_the_three_counters() {
    let mut op = Init::from();
    assert_eq!(
        op.action(),
        Action::Call(Command::Write { key: text("events"), value: text("0") })
    );
    assert_eq!(
        op.perform(&Reply::Status(text("OK"))),
        Action::Call(Command::Write { key: text("keys_expired"), value: text("0") })
    );
    assert_eq!(
        op.perform(&Reply::Status(text("OK"))),
        Action::Call(Command::Write { key: text("meta_missing"), value: text("0") })
    );
    assert_eq!(op.perform(&Reply::Status(text("OK"))), done_ok());
}

#[test]
fn init_ends_when_the_store_refuses() {
    let mut op = Init::from();
    op.perform(&Reply::Status(text("OK")));
    assert_eq!(
        op.perform(&Reply::Error(text("ERR read only"))),
        failed(EngineError::Store(text("ERR read only")))
    );
}

#[test]
fn a_notification_for_a_primary_key_counts_and_cleans() {
    let mut op = EventGroom::from("ns:k").unwrap();
    assert_eq!(op.action(), Action::Call(Command::Incr { key: text("events") }));
    assert_eq!(
        op.perform(&Reply::Integer(1)),
        Action::Call(Command::Incr { key: text("keys_expired") })
    );
    assert_eq!(op.perform(&Reply::Integer(1)), Action::Call(Command::Del { key: text("ns:k") }));
    assert_eq!(
        op.perform(&Reply::Integer(0)),
        Action::Call(Command::HGetAll { key: text("meta_ns:k") })
    );
    assert_eq!(
        op.perform(&bulks(&["idx", "x"])),
        Action::Call(Command::SRem { key: text("idx_ns:idx:x"), member: text("k") })
    );
    assert_eq!(
        op.perform(&Reply::Integer(1)),
        Action::Call(Command::Del { key: text("meta_ns:k") })
    );
    assert_eq!(op.perform(&Reply::Integer(1)), done_ok());
}

#[test]
fn a_notification_for_metadata_looks_for_the_primary_entry() {
    let mut op = EventGroom::from("meta_ns:k").unwrap();
    op.perform(&Reply::Integer(1));
    assert_eq!(op.perform(&Reply::Integer(1)), Action::Call(Command::Exists { key: text("ns:k") }));
    assert_eq!(
        op.perform(&Reply::Integer(1)),
        Action::Schedule { namespace: text("ns"), key: text("k") }
    );
    assert_eq!(op.perform(&Reply::Nil), Action::Call(Command::Del { key: text("ns:k") }));

    let mut op = EventGroom::from("meta_ns:k").unwrap();
    op.perform(&Reply::Integer(1));
    op.perform(&Reply::Integer(1));
    assert_eq!(op.perform(&Reply::Integer(0)), Action::Call(Command::Del { key: text("ns:k") }));
}

#[test]
fn a_notification_for_a_key_without_separator_is_passed_over() {
    assert!(EventGroom::from("events").is_none());
    assert!(EventGroom::from("").is_none());
}

#[test]
fn a_notification_ends_when_counting_fails() {
    let mut op = EventGroom::from("ns:k").unwrap();
    assert_eq!(op.perform(&Reply::Bulk(text("1"))), failed(EngineError::NotAnInteger));
    let mut op = EventGroom::from("ns:k").unwrap();
    op.perform(&Reply::Integer(1));
    assert_eq!(
        op.perform(&Reply::Error(text("ERR busy"))),
        failed(EngineError::Store(text("ERR busy")))
    );
}

fn groom(op: &mut GroomIndex, reply: Reply) -> Action {
    op.perform(&reply)
}

#[test]
fn an_index_set_is_groomed_member_by_member() {
    let mut op = GroomIndex::new(text("ns"), text("idx_ns:idx:x"));
    assert_eq!(
        op.action(),
        Action::Call(Command::SRandMember { key: text("idx_ns:idx:x"), count: 256 })
    );
    assert!(!op.continues_section());
    assert_eq!(
        groom(&mut op, bulks(&["a", "b", "c"])),
        Action::Call(Command::Exists { key: text("ns:a") })
    );
    assert!(!op.continues_section());
    assert_eq!(
        groom(&mut op, Reply::Integer(0)),
        Action::Call(Command::SRem { key: text("idx_ns:idx:x"), member: text("a") })
    );
    assert!(op.continues_section());
    assert_eq!(groom(&mut op, Reply::Integer(1)), Action::Call(Command::Exists { key: text("ns:b") }));
    assert!(!op.continues_section());
    assert_eq!(groom(&mut op, Reply::Integer(1)), Action::Call(Command::Exists { key: text("ns:c") }));
    assert_eq!(
        groom(&mut op, Reply::Integer(0)),
        Action::Call(Command::SRem { key: text("idx_ns:idx:x"), member: text("c") })
    );
    assert_eq!(groom(&mut op, Reply::Integer(1)), done_ok());
    assert!(op.finished());
    assert_eq!(op.failure(), None);
}

#[test]
fn an_empty_sample_ends_the_grooming() {
    let mut op = GroomIndex::new(text("ns"), text("idx_ns:idx:x"));
    assert_eq!(groom(&mut op, bulks(&[])), done_ok());
}

#[test]
fn grooming_wants_a_list_and_integers() {
    let mut op = GroomIndex::new(text("ns"), text("idx_ns:idx:x"));
    assert_eq!(groom(&mut op, Reply::Integer(1)), failed(EngineError::NotAList));
    assert_eq!(op.failure(), Some(EngineError::NotAList));
    let mut op = GroomIndex::new(text("ns"), text("idx_ns:idx:x"));
    groom(&mut op, bulks(&["a"]));
    assert_eq!(groom(&mut op, Reply::Nil), failed(EngineError::NotAnInteger));
    let mut op = GroomIndex::new(text("ns"), text("idx_ns:idx:x"));
    groom(&mut op, bulks(&["a"]));
    groom(&mut op, Reply::Integer(0));
    assert_eq!(
        groom(&mut op, Reply::Error(text("ERR busy"))),
        failed(EngineError::Store(text("ERR busy")))
    );
}

#[test]
fn a_sweep_follows_the_cursor() {
    let mut op = PeriodicGroom::new();
    assert_eq!(
        op.action(),
        Action::Call(Command::Scan { cursor: text("0"), pattern: text("idx_*") })
    );
    assert_eq!(
        op.perform(&scan("17", &[])),
        Action::Call(Command::Scan { cursor: text("17"), pattern: text("idx_*") })
    );
    assert_eq!(
        op.perform(&scan("0", &["idx_one:idx:x", "idx_two:idx:y"])),
        Action::Call(Command::SRandMember { key: text("idx_one:idx:x"), count: 256 })
    );
    assert_eq!(op.perform(&bulks(&["k"])), Action::Call(Command::Exists { key: text("one:k") }));
    assert!(!op.continues_section());
    assert_eq!(
        op.perform(&Reply::Integer(0)),
        Action::Call(Command::SRem { key: text("idx_one:idx:x"), member: text("k") })
    );
    assert!(op.continues_section());
    assert_eq!(
        op.perform(&Reply::Integer(1)),
        Action::Call(Command::SRandMember { key: text("idx_two:idx:y"), count: 256 })
    );
    assert_eq!(op.perform(&bulks(&[])), done_ok());
}

#[test]
fn a_sweep_ends_at_once_on_an_empty_store() {
    let mut op = PeriodicGroom::new();
    assert_eq!(op.perform(&scan("0", &[])), done_ok());
    assert_eq!(op.perform(&scan("5", &["idx_a:b:c"])), done_ok());
}

#[test]
fn a_sweep_wants_a_cursor_and_keys_of_index_sets() {
    let mut op = PeriodicGroom::new();
    assert_eq!(op.perform(&Reply::Integer(0)), failed(EngineError::BadScan));
    let mut op = PeriodicGroom::new();
    assert_eq!(op.perform(&bulks(&["0"])), failed(EngineError::BadScan));
    let mut op = PeriodicGroom::new();
    assert_eq!(op.perform(&scan("0", &["ns:k"])), failed(EngineError::BadScan));
    let mut op = PeriodicGroom::new();
    assert_eq!(
        op.perform(&Reply::Error(text("ERR busy"))),
        failed(EngineError::Store(text("ERR busy")))
    );
}

#[test]
fn a_sweep_ends_when_a_grooming_fails() {
    let mut op = PeriodicGroom::new();
    op.perform(&scan("3", &["idx_one:idx:x"]));
    assert_eq!(op.perform(&Reply::Nil), failed(EngineError::NotAList));
}

#[test]
fn a_targeted_sweep_looks_through_the_index_sets_of_its_namespace() {
    let mut op = TargetedGroom::new(text("ns"), text("k"));
    assert_eq!(
        op.action(),
        Action::Call(Command::Scan { cursor: text("0"), pattern: text("idx_ns:*") })
    );
    assert_eq!(
        op.perform(&scan("9", &["idx_ns:a:x", "idx_ns:b:y"])),
        Action::Call(Command::Exists { key: text("ns:k") })
    );
    assert!(!op.continues_section());
    assert_eq!(
        op.perform(&Reply::Integer(0)),
        Action::Call(Command::SRem { key: text("idx_ns:a:x"), member: text("k") })
    );
    assert!(op.continues_section());
    assert_eq!(op.perform(&Reply::Integer(1)), Action::Call(Command::Exists { key: text("ns:k") }));
    assert_eq!(
        op.perform(&Reply::Integer(1)),
        Action::Call(Command::Scan { cursor: text("9"), pattern: text("idx_ns:*") })
    );
    assert_eq!(op.perform(&scan("0", &[])), done_ok());
}

#[test]
fn a_targeted_sweep_wants_a_cursor_and_integers() {
    let mut op = TargetedGroom::new(text("ns"), text("k"));
    assert_eq!(op.perform(&Reply::Nil), failed(EngineError::BadScan));
    let mut op = TargetedGroom::new(text("ns"), text("k"));
    op.perform(&scan("0", &["idx_ns:a:x"]));
    assert_eq!(op.perform(&bulks(&[])), failed(EngineError::NotAnInteger));
    let mut op = TargetedGroom::new(text("ns"), text("k"));
    op.perform(&scan("0", &["idx_ns:a:x"]));
    op.perform(&Reply::Integer(0));
    assert_eq!(
        op.perform(&Reply::Error(text("ERR busy"))),
        failed(EngineError::Store(text("ERR busy")))
    );
}

#[test]
fn a_sweep_within_a_namespace_asks_for_its_index_sets_only() {
    let mut op = PeriodicGroom::within("ns");
    assert_eq!(
        op.action(),
        Action::Call(Command::Scan { cursor: text("0"), pattern: text("idx_ns:*") })
    );
    assert_eq!(
        op.perform(&scan("4", &["idx_ns:a:x"])),
        Action::Call(Command::SRandMember { key: text("idx_ns:a:x"), count: 256 })
    );
    assert_eq!(
        op.perform(&bulks(&[])),
        Action::Call(Command::Scan { cursor: text("4"), pattern: text("idx_ns:*") })
    );
    assert_eq!(op.perform(&scan("0", &[])), done_ok());
}
