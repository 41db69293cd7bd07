use std::collections::{BTreeMap, BTreeSet};

use groomer::{
    Action, CleanKey, Command, EngineError, EventGroom, Get, Init, PeriodicGroom, Remove,
    RemoveByIndex, Reply, SetIndexed, TargetedGroom,
};

#[derive(Debug, Clone, PartialEq)]
enum Entry {
    Text(String),
    Hash(Vec<(String, String)>),
    Members(BTreeSet<String>),
}

/// A store in memory that answers the commands as the real one does.
struct Store {
    entries: BTreeMap<String, Entry>,
    /// The keys that were written with an expiry.
    expiring: BTreeSet<String>,
    /// How many keys a scan hands out at a time.
    scan_batch: usize,
    /// The commands that were sent, in order.
    log: Vec<Command>,
    /// The groomers that were asked for.
    scheduled: Vec<(String, String)>,
    /// The number of the command that the store refuses, if any.
    fail_at: Option<usize>,
}

fn wrong_type() -> Reply {
    Reply::Error("WRONGTYPE Operation against a key holding the wrong kind of value".to_string())
}

fn bulks(texts: Vec<String>) -> Reply {
    Reply::Array(texts.into_iter().map(Reply::Bulk).collect())
}

impl Store {
    fn new() -> Store {
        Store {
            entries: BTreeMap::new(),
            expiring: BTreeSet::new(),
            scan_batch: 2,
            log: Vec::new(),
            scheduled: Vec::new(),
            fail_at: None,
        }
    }

    fn execute(&mut self, command: &Command) -> Reply {
        self.log.push(command.clone());
        if self.fail_at == Some(self.log.len()) {
            return Reply::Error("ERR the store is out of order".to_string());
        }
        match command {
            Command::Del { key } => {
                self.expiring.remove(key);
                Reply::Integer(if self.entries.remove(key).is_some() { 1 } else { 0 })
            }
            Command::Exists { key } => {
                Reply::Integer(if self.entries.contains_key(key) { 1 } else { 0 })
            }
            Command::SetEx { key, seconds, value } => match seconds.parse::<i64>() {
                Ok(n) if n > 0 => {
                    self.entries.insert(key.clone(), Entry::Text(value.clone()));
                    self.expiring.insert(key.clone());
                    Reply::Status("OK".to_string())
                }
                _ => Reply::Error("ERR invalid expire time in 'setex' command".to_string()),
            },
            Command::Write { key, value } => {
                self.entries.insert(key.clone(), Entry::Text(value.clone()));
                self.expiring.remove(key);
                Reply::Status("OK".to_string())
            }
            Command::MGet { keys } => Reply::Array(
                keys.iter()
                    .map(|key| match self.entries.get(key) {
                        Some(Entry::Text(value)) => Reply::Bulk(value.clone()),
                        _ => Reply::Nil,
                    })
                    .collect(),
            ),
            Command::SAdd { key, member } => {
                match self.entries.entry(key.clone()).or_insert(Entry::Members(BTreeSet::new())) {
                    Entry::Members(set) => {
                        Reply::Integer(if set.insert(member.clone()) { 1 } else { 0 })
                    }
                    _ => wrong_type(),
                }
            }
            Command::SRem { key, member } => match self.entries.get_mut(key) {
                None => Reply::Integer(0),
                Some(Entry::Members(set)) => {
                    let removed = set.remove(member);
                    if set.is_empty() {
                        self.entries.remove(key);
                    }
                    Reply::Integer(if removed { 1 } else { 0 })
                }
                Some(_) => wrong_type(),
            },
            Command::SMembers { key } => match self.entries.get(key) {
                None => bulks(vec![]),
                Some(Entry::Members(set)) => bulks(set.iter().cloned().collect()),
                Some(_) => wrong_type(),
            },
            Command::SRandMember { key, count } => match self.entries.get(key) {
                None => bulks(vec![]),
                Some(Entry::Members(set)) => {
                    bulks(set.iter().take(*count as usize).cloned().collect())
                }
                Some(_) => wrong_type(),
            },
            Command::HMSet { key, entries } => {
                if entries.is_empty() || entries.len() % 2 != 0 {
                    return Reply::Error("ERR wrong number of arguments for HMSET".to_string());
                }
                match self.entries.entry(key.clone()).or_insert(Entry::Hash(Vec::new())) {
                    Entry::Hash(pairs) => {
                        for pair in entries.chunks(2) {
                            match pairs.iter_mut().find(|(field, _)| *field == pair[0]) {
                                Some(found) => found.1 = pair[1].clone(),
                                None => pairs.push((pair[0].clone(), pair[1].clone())),
                            }
                        }
                        Reply::Status("OK".to_string())
                    }
                    _ => wrong_type(),
                }
            }
            Command::HGetAll { key } => match self.entries.get(key) {
                None => bulks(vec![]),
                Some(Entry::Hash(pairs)) => bulks(
                    pairs.iter().flat_map(|(field, value)| vec![field.clone(), value.clone()]).collect(),
                ),
                Some(_) => wrong_type(),
            },
            Command::Incr { key } => {
                let old = match self.entries.get(key) {
                    None => 0,
                    Some(Entry::Text(text)) => match text.parse::<i64>() {
                        Ok(n) => n,
                        Err(_) => {
                            return Reply::Error(
                                "ERR value is not an integer or out of range".to_string(),
                            )
                        }
                    },
                    Some(_) => return wrong_type(),
                };
                self.entries.insert(key.clone(), Entry::Text((old + 1).to_string()));
                Reply::Integer(old + 1)
            }
            Command::Scan { cursor, pattern } => {
                let prefix = pattern.trim_end_matches('*').to_string();
                let after = if cursor == "0" { None } else { Some(cursor[1..].to_string()) };
                let mut found: Vec<String> = Vec::new();
                let mut more = false;
                for key in self.entries.keys() {
                    if !key.starts_with(&prefix) {
                        continue;
                    }
                    if let Some(last) = &after {
                        if key <= last {
                            continue;
                        }
                    }
                    if found.len() == self.scan_batch {
                        more = true;
                        break;
                    }
                    found.push(key.clone());
                }
                let next = if more { format!("c{}", found[found.len() - 1]) } else { "0".to_string() };
                Reply::Array(vec![Reply::Bulk(next), bulks(found)])
            }
        }
    }

    /// Runs an operation to its end: sends what it asks for and hands the
    /// replies back.
    fn drive(
        &mut self,
        first: Action,
        mut step: impl FnMut(&Reply) -> Action,
    ) -> Result<Reply, EngineError> {
        let mut action = first;
        loop {
            match action {
                Action::Call(command) => {
                    let reply = self.execute(&command);
                    action = step(&reply);
                }
                Action::Schedule { namespace, key } => {
                    self.scheduled.push((namespace, key));
                    action = step(&Reply::Nil);
                }
                Action::Done(result) => return result,
            }
        }
    }

    fn set_indexed(&mut self, args: &[&str]) -> Result<Reply, EngineError> {
        let mut op = SetIndexed::from(words(args))?;
        let first = op.action();
        self.drive(first, |reply| op.process(reply))
    }

    fn get_by_index(&mut self, args: &[&str]) -> Result<Reply, EngineError> {
        let mut op = Get::from(words(args))?;
        let first = op.action();
        self.drive(first, |reply| op.process(reply))
    }

    fn remove(&mut self, args: &[&str]) -> Result<Reply, EngineError> {
        let mut op = Remove::from(words(args))?;
        let first = op.action();
        self.drive(first, |reply| op.process(reply))
    }

    fn remove_by_index(&mut self, args: &[&str]) -> Result<Reply, EngineError> {
        let mut op = RemoveByIndex::from(words(args))?;
        let first = op.action();
        self.drive(first, |reply| op.process(reply))
    }

    fn init(&mut self) -> Result<Reply, EngineError> {
        let mut op = Init::from();
        let first = op.action();
        self.drive(first, |reply| op.perform(reply))
    }

    fn groom(&mut self) -> Result<Reply, EngineError> {
        let mut op = PeriodicGroom::new();
        let first = op.action();
        self.drive(first, |reply| op.perform(reply))
    }

    fn groom_key(&mut self, namespace: &str, key: &str) -> Result<Reply, EngineError> {
        let mut op = TargetedGroom::new(namespace.to_string(), key.to_string());
        let first = op.action();
        self.drive(first, |reply| op.perform(reply))
    }

    /// The store takes the key away and the notification is handled.
    fn evict(&mut self, physical: &str) -> Result<Reply, EngineError> {
        self.entries.remove(physical);
        self.expiring.remove(physical);
        match EventGroom::from(physical) {
            None => Ok(Reply::Nil),
            Some(mut op) => {
                let first = op.action();
                self.drive(first, |reply| op.perform(reply))
            }
        }
    }

    /// Every key that was written with an expiry goes, one by one.
    fn expire_all(&mut self) {
        loop {
            let next = match self.expiring.iter().next() {
                Some(key) => key.clone(),
                None => break,
            };
            self.evict(&next).unwrap();
        }
    }

    fn text(&self, key: &str) -> Option<String> {
        match self.entries.get(key) {
            Some(Entry::Text(value)) => Some(value.clone()),
            _ => None,
        }
    }

    fn members(&self, key: &str) -> Vec<String> {
        match self.entries.get(key) {
            Some(Entry::Members(set)) => set.iter().cloned().collect(),
            _ => vec![],
        }
    }

    fn hash(&self, key: &str) -> Vec<(String, String)> {
        match self.entries.get(key) {
            Some(Entry::Hash(pairs)) => pairs.clone(),
            _ => vec![],
        }
    }

    /// The number of entries that are no counters.
    fn keys_count(&self) -> usize {
        self.entries.keys().filter(|key| key.contains(':')).count()
    }
}

fn words(args: &[&str]) -> Vec<String> {
    args.iter().map(|word| word.to_string()).collect()
}

fn pair(field: &str, value: &str) -> (String, String) {
    (field.to_string(), value.to_string())
}

fn ok() -> Result<Reply, EngineError> {
    Ok(Reply::Status("OK".to_string()))
}

fn loaded() -> Store {
    let mut store = Store::new();
    assert_eq!(store.init(), ok());
    store
}

#[test]
fn test_module_loads() {
    let store = loaded();
    assert_eq!(store.text("events"), Some("0".to_string()));
    assert_eq!(store.text("keys_expired"), Some("0".to_string()));
    assert_eq!(store.text("meta_missing"), Some("0".to_string()));
    assert_eq!(store.entries.len(), 3);
}

#[test]
fn test_groom_passes_on_empty_ks() {
    let mut store = loaded();
    assert_eq!(store.groom(), ok());
    assert_eq!(store.keys_count(), 0);
    assert_eq!(store.entries.len(), 3);
}

#[test]
fn test_msetex_simple() {
    let mut store = loaded();
    assert_eq!(store.set_indexed(&["MAP.MSETEX_INDEXED", "test_ns", "10", "0", "k", "v"]), ok());
    assert_eq!(store.keys_count(), 1);
    assert_eq!(store.text("test_ns:k"), Some("v".to_string()));
}

#[test]
fn test_msetex_multival() {
    let mut store = loaded();
    assert_eq!(
        store.set_indexed(&[
            "MAP.MSETEX_INDEXED", "test_ns", "10", "0", "k1", "v1", "k2", "v2", "k3", "v3",
        ]),
        ok()
    );
    assert_eq!(store.keys_count(), 3);
    assert_eq!(store.text("test_ns:k1"), Some("v1".to_string()));
    assert_eq!(store.text("test_ns:k2"), Some("v2".to_string()));
    assert_eq!(store.text("test_ns:k3"), Some("v3".to_string()));
}

#[test]
fn test_msetex_expiry() {
    let mut store = loaded();
    assert_eq!(
        store.set_indexed(&["MAP.MSETEX_INDEXED", "test_ns", "1", "0", "k1", "v1", "k2", "v2"]),
        ok()
    );
    store.expire_all();
    assert_eq!(store.text("test_ns:k1"), None);
    assert_eq!(store.text("test_ns:k2"), None);
    assert_eq!(store.keys_count(), 0);
}

#[test]
fn test_msetex_indexed() {
    let mut store = loaded();
    assert_eq!(
        store.set_indexed(&[
            "MAP.MSETEX_INDEXED", "test_ns", "10", "2", "first", "second", "k1", "v1", "x", "y",
            "k2", "v2", "w", "z",
        ]),
        ok()
    );
    assert_eq!(store.text("test_ns:k1"), Some("v1".to_string()));
    assert_eq!(store.text("test_ns:k2"), Some("v2".to_string()));
    assert_eq!(store.members("idx_test_ns:first:x"), vec!["k1"]);
    assert_eq!(store.members("idx_test_ns:first:w"), vec!["k2"]);
    assert_eq!(store.members("idx_test_ns:second:y"), vec!["k1"]);
    assert_eq!(store.members("idx_test_ns:second:z"), vec!["k2"]);
    assert_eq!(store.hash("meta_test_ns:k1"), vec![pair("first", "x"), pair("second", "y")]);
    assert_eq!(store.hash("meta_test_ns:k2"), vec![pair("first", "w"), pair("second", "z")]);
}

#[test]
fn test_msetex_indexed_update() {
    let mut store = loaded();
    assert_eq!(
        store.set_indexed(&[
            "MAP.MSETEX_INDEXED", "test_ns", "10", "2", "first", "second", "k", "v", "x", "y",
        ]),
        ok()
    );
    assert_eq!(
        store.set_indexed(&[
            "MAP.MSETEX_INDEXED", "test_ns", "10", "2", "second", "third", "k", "v", "y2", "z",
        ]),
        ok()
    );
    assert_eq!(store.text("test_ns:k"), Some("v".to_string()));
    assert!(!store.entries.contains_key("idx_test_ns:first:x"));
    assert!(!store.entries.contains_key("idx_test_ns:second:y"));
    assert_eq!(store.members("idx_test_ns:second:y2"), vec!["k"]);
    assert_eq!(store.members("idx_test_ns:third:z"), vec!["k"]);
    assert_eq!(store.hash("meta_test_ns:k"), vec![pair("second", "y2"), pair("third", "z")]);
}

#[test]
fn test_msetex_index_unique_validation() {
    let mut store = loaded();
    let result = store.set_indexed(&[
        "MAP.MSETEX_INDEXED", "test_ns", "1", "3", "duplicate", "duplicate", "third", "k", "v",
        "x", "y", "z",
    ]);
    assert_eq!(result, Err(EngineError::DuplicateIndex));
    assert_eq!(result.err().unwrap().message(), "ERR index names must be unique!");
    assert_eq!(store.text("test_ns:k"), None);
    assert_eq!(store.keys_count(), 0);
    assert_eq!(store.log.len(), 3);
}

#[test]
fn test_msetex_indexed_load() {
    let mut store = loaded();
    for i in 1..10_000 {
        let key = format!("k{}", i);
        let value = format!("v{}", i);
        let (a, b, c) = (format!("{}", i / 2), format!("{}", i / 3), format!("{}", i / 4));
        assert_eq!(
            store.set_indexed(&[
                "MAP.MSETEX_INDEXED", "test_ns", "1", "3", "first", "second", "third", &key,
                &value, &a, &b, &c,
            ]),
            ok()
        );
    }
    assert_eq!(store.members("idx_test_ns:first:1"), vec!["k2", "k3"]);
    store.expire_all();
    assert_eq!(store.keys_count(), 0);
    assert_eq!(store.text("events"), Some("9999".to_string()));
    assert_eq!(store.text("keys_expired"), Some("9999".to_string()));
    assert_eq!(store.text("meta_missing"), Some("0".to_string()));
}

/// Numbers that look random and are the same in every run.
struct Numbers {
    state: u64,
}

impl Numbers {
    fn below(&mut self, bound: u64) -> u64 {
        self.state ^= self.state << 13;
        self.state ^= self.state >> 7;
        self.state ^= self.state << 17;
        self.state % bound
    }
}

#[test]
fn test_msetex_indexed_randomized() {
    let mut store = loaded();
    let mut numbers = Numbers { state: 0x2545F4914F6CDD1D };
    for i in 1..10_000 {
        let base = numbers.below(1000);
        let (first, second, third) =
            (format!("{}", base), format!("{}", base + 1), format!("{}", base + 2));
        let key = format!("{}", numbers.below(1000));
        let value = format!("v{}", i);
        let (a, b, c) = (
            format!("{}", numbers.below(100)),
            format!("{}", numbers.below(100)),
            format!("{}", numbers.below(100)),
        );
        assert_eq!(
            store.set_indexed(&[
                "MAP.MSETEX_INDEXED", "test_ns", "1", "3", &first, &second, &third, &key, &value,
                &a, &b, &c,
            ]),
            ok()
        );
        assert_eq!(store.text(&format!("test_ns:{}", key)), Some(value));
        assert!(store.members(&format!("idx_test_ns:{}:{}", first, a)).contains(&key));
    }
    assert!(store.keys_count() > 0);
    store.expire_all();
    assert_eq!(store.keys_count(), 0);
    assert_eq!(store.text("meta_missing"), Some("0".to_string()));
}

#[test]
fn round_trip_returns_the_value() {
    let mut store = loaded();
    assert_eq!(
        store.set_indexed(&["MAP.MSETEX_INDEXED", "ns", "10", "1", "idx", "k", "v", "val"]),
        ok()
    );
    assert_eq!(
        store.get_by_index(&["MAP.GET_BY_INDEX", "ns", "idx", "val"]),
        Ok(Reply::Array(vec![Reply::Bulk("v".to_string())]))
    );
}

#[test]
fn read_of_an_empty_index_gives_an_empty_list() {
    let mut store = loaded();
    assert_eq!(
        store.get_by_index(&["MAP.GET_BY_INDEX", "ns", "idx", "val"]),
        Ok(Reply::Array(vec![]))
    );
    assert_eq!(store.log.len(), 4);
}

#[test]
fn read_gives_the_values_of_all_members() {
    let mut store = loaded();
    assert_eq!(
        store.set_indexed(&[
            "MAP.MSETEX_INDEXED", "ns", "10", "1", "colour", "a", "1", "red", "b", "2", "blue",
            "c", "3", "red",
        ]),
        ok()
    );
    assert_eq!(
        store.get_by_index(&["MAP.GET_BY_INDEX", "ns", "colour", "red"]),
        Ok(Reply::Array(vec![Reply::Bulk("1".to_string()), Reply::Bulk("3".to_string())]))
    );
}

#[test]
fn read_passes_over_a_member_without_a_value() {
    let mut store = loaded();
    assert_eq!(
        store.set_indexed(&[
            "MAP.MSETEX_INDEXED", "ns", "10", "1", "idx", "a", "va", "val", "b", "vb", "val",
        ]),
        ok()
    );
    store.entries.remove("ns:b");
    assert_eq!(store.members("idx_ns:idx:val"), vec!["a", "b"]);
    assert_eq!(
        store.get_by_index(&["MAP.GET_BY_INDEX", "ns", "idx", "val"]),
        Ok(Reply::Array(vec![Reply::Bulk("va".to_string())]))
    );
    store.entries.remove("ns:a");
    assert_eq!(
        store.get_by_index(&["MAP.GET_BY_INDEX", "ns", "idx", "val"]),
        Ok(Reply::Array(vec![]))
    );
}

#[test]
fn rewrite_replaces_membership() {
    let mut store = loaded();
    assert_eq!(
        store.set_indexed(&["MAP.MSETEX_INDEXED", "ns", "10", "1", "idx", "k", "v", "x"]),
        ok()
    );
    assert_eq!(
        store.set_indexed(&["MAP.MSETEX_INDEXED", "ns", "10", "1", "idx2", "k", "v", "y"]),
        ok()
    );
    assert_eq!(store.get_by_index(&["MAP.GET_BY_INDEX", "ns", "idx", "x"]), Ok(Reply::Array(vec![])));
    assert_eq!(
        store.get_by_index(&["MAP.GET_BY_INDEX", "ns", "idx2", "y"]),
        Ok(Reply::Array(vec![Reply::Bulk("v".to_string())]))
    );
    assert_eq!(store.members("idx_ns:idx:x"), Vec::<String>::new());
    assert_eq!(store.members("idx_ns:idx2:y"), vec!["k"]);
}

#[test]
fn removal_clears_indices_and_counts_one() {
    let mut store = loaded();
    assert_eq!(
        store.set_indexed(&[
            "MAP.MSETEX_INDEXED", "ns", "10", "2", "first", "second", "k", "v", "x", "y",
        ]),
        ok()
    );
    assert_eq!(store.remove(&["MAP.MREM", "ns", "k"]), Ok(Reply::Integer(1)));
    assert_eq!(store.keys_count(), 0);
    assert_eq!(store.text("meta_missing"), Some("0".to_string()));
}

#[test]
fn removal_of_several_keys_counts_them() {
    let mut store = loaded();
    assert_eq!(
        store.set_indexed(&[
            "MAP.MSETEX_INDEXED", "ns", "10", "1", "idx", "a", "1", "x", "b", "2", "x", "c", "3",
            "x",
        ]),
        ok()
    );
    assert_eq!(store.remove(&["MAP.MREM", "ns", "a", "c", "nothing"]), Ok(Reply::Integer(3)));
    assert_eq!(store.members("idx_ns:idx:x"), vec!["b"]);
    assert_eq!(store.text("ns:b"), Some("2".to_string()));
    assert_eq!(store.keys_count(), 3);
    assert_eq!(store.text("meta_missing"), Some("1".to_string()));
}

#[test]
fn removal_of_no_keys_counts_none() {
    let mut store = loaded();
    assert_eq!(store.remove(&["MAP.MREM", "ns"]), Ok(Reply::Integer(0)));
    assert_eq!(store.log.len(), 3);
}

#[test]
fn removal_by_index_cleans_every_member() {
    let mut store = loaded();
    assert_eq!(
        store.set_indexed(&[
            "MAP.MSETEX_INDEXED", "ns", "10", "2", "colour", "size", "a", "1", "red", "s", "b",
            "2", "blue", "s", "c", "3", "red", "m",
        ]),
        ok()
    );
    assert_eq!(
        store.remove_by_index(&["MAP.REM_BY_INDEX", "ns", "colour", "red"]),
        Ok(Reply::Integer(2))
    );
    assert_eq!(store.text("ns:a"), None);
    assert_eq!(store.text("ns:c"), None);
    assert_eq!(store.text("ns:b"), Some("2".to_string()));
    assert_eq!(store.members("idx_ns:size:s"), vec!["b"]);
    assert_eq!(store.members("idx_ns:size:m"), Vec::<String>::new());
    assert_eq!(store.members("idx_ns:colour:blue"), vec!["b"]);
    assert_eq!(store.keys_count(), 4);
}

#[test]
fn removal_by_an_empty_index_counts_none() {
    let mut store = loaded();
    let before = store.entries.clone();
    assert_eq!(
        store.remove_by_index(&["MAP.REM_BY_INDEX", "ns", "colour", "red"]),
        Ok(Reply::Integer(0))
    );
    assert_eq!(store.entries, before);
    assert_eq!(store.log.len(), 4);
}

#[test]
fn clean_twice_leaves_what_clean_once_left() {
    let mut store = loaded();
    assert_eq!(
        store.set_indexed(&[
            "MAP.MSETEX_INDEXED", "ns", "10", "1", "idx", "k", "v", "x", "other", "w", "x",
        ]),
        ok()
    );
    let mut once = CleanKey::new("ns".to_string(), "k".to_string());
    let first = once.action();
    let result = store.drive(first, |reply| {
        once.process(reply);
        once.action()
    });
    assert_eq!(result, ok());
    let mut left = store.entries.clone();
    left.remove("meta_missing");
    let mut again = CleanKey::new("ns".to_string(), "k".to_string());
    let first = again.action();
    let result = store.drive(first, |reply| {
        again.process(reply);
        again.action()
    });
    assert_eq!(result, ok());
    assert_eq!(store.text("meta_missing"), Some("1".to_string()));
    let mut now = store.entries.clone();
    now.remove("meta_missing");
    assert_eq!(now, left);
    assert_eq!(store.members("idx_ns:idx:x"), vec!["other"]);
}

#[test]
fn clean_sends_its_commands_in_order() {
    let mut store = loaded();
    assert_eq!(
        store.set_indexed(&[
            "MAP.MSETEX_INDEXED", "ns", "10", "2", "first", "second", "k", "v", "x", "y",
        ]),
        ok()
    );
    store.log.clear();
    assert_eq!(store.remove(&["MAP.MREM", "ns", "k"]), Ok(Reply::Integer(1)));
    assert_eq!(
        store.log,
        vec![
            Command::Del { key: "ns:k".to_string() },
            Command::HGetAll { key: "meta_ns:k".to_string() },
            Command::SRem { key: "idx_ns:first:x".to_string(), member: "k".to_string() },
            Command::SRem { key: "idx_ns:second:y".to_string(), member: "k".to_string() },
            Command::Del { key: "meta_ns:k".to_string() },
        ]
    );
}

#[test]
fn write_sends_its_commands_in_order() {
    let mut store = loaded();
    store.log.clear();
    assert_eq!(
        store.set_indexed(&[
            "MAP.MSETEX_INDEXED", "ns", "10", "2", "first", "second", "k", "v", "x", "y",
        ]),
        ok()
    );
    assert_eq!(
        store.log,
        vec![
            Command::Exists { key: "meta_ns:k".to_string() },
            Command::SetEx {
                key: "ns:k".to_string(),
                seconds: "10".to_string(),
                value: "v".to_string()
            },
            Command::SAdd { key: "idx_ns:first:x".to_string(), member: "k".to_string() },
            Command::SAdd { key: "idx_ns:second:y".to_string(), member: "k".to_string() },
            Command::HMSet {
                key: "meta_ns:k".to_string(),
                entries: words(&["first", "x", "second", "y"])
            },
        ]
    );
}

#[test]
fn expiry_of_the_primary_entry_cascades() {
    let mut store = loaded();
    assert_eq!(
        store.set_indexed(&[
            "MAP.MSETEX_INDEXED", "ns", "1", "2", "first", "second", "k", "v", "x", "y",
        ]),
        ok()
    );
    assert_eq!(store.evict("ns:k"), ok());
    assert_eq!(store.get_by_index(&["MAP.GET_BY_INDEX", "ns", "first", "x"]), Ok(Reply::Array(vec![])));
    assert_eq!(store.get_by_index(&["MAP.GET_BY_INDEX", "ns", "second", "y"]), Ok(Reply::Array(vec![])));
    assert_eq!(store.keys_count(), 0);
    assert_eq!(store.text("events"), Some("1".to_string()));
    assert_eq!(store.text("keys_expired"), Some("1".to_string()));
    assert!(store.scheduled.is_empty());
}

#[test]
fn loss_of_the_metadata_asks_for_a_targeted_groomer() {
    let mut store = loaded();
    assert_eq!(
        store.set_indexed(&[
            "MAP.MSETEX_INDEXED", "ns", "10", "2", "first", "second", "k", "v", "x", "y", "j",
            "w", "x", "y",
        ]),
        ok()
    );
    assert_eq!(store.evict("meta_ns:k"), ok());
    assert_eq!(store.scheduled, vec![("ns".to_string(), "k".to_string())]);
    assert_eq!(store.text("ns:k"), None);
    assert_eq!(store.text("meta_missing"), Some("1".to_string()));
    assert_eq!(store.members("idx_ns:first:x"), vec!["j", "k"]);
    assert_eq!(store.groom_key("ns", "k"), ok());
    assert_eq!(store.members("idx_ns:first:x"), vec!["j"]);
    assert_eq!(store.members("idx_ns:second:y"), vec!["j"]);
    assert_eq!(store.text("ns:j"), Some("w".to_string()));
}

#[test]
fn loss_of_the_metadata_after_the_primary_entry_asks_for_nothing() {
    let mut store = loaded();
    assert_eq!(
        store.set_indexed(&["MAP.MSETEX_INDEXED", "ns", "10", "1", "first", "k", "v", "x"]),
        ok()
    );
    store.entries.remove("ns:k");
    assert_eq!(store.evict("meta_ns:k"), ok());
    assert!(store.scheduled.is_empty());
}

#[test]
fn targeted_groomer_leaves_a_key_that_was_written_again() {
    let mut store = loaded();
    assert_eq!(
        store.set_indexed(&["MAP.MSETEX_INDEXED", "ns", "10", "1", "first", "k", "v", "x"]),
        ok()
    );
    assert_eq!(store.groom_key("ns", "k"), ok());
    assert_eq!(store.members("idx_ns:first:x"), vec!["k"]);
    assert_eq!(store.text("ns:k"), Some("v".to_string()));
}

#[test]
fn targeted_groomer_stays_in_its_namespace() {
    let mut store = loaded();
    assert_eq!(
        store.set_indexed(&["MAP.MSETEX_INDEXED", "ns", "10", "1", "first", "k", "v", "x"]),
        ok()
    );
    assert_eq!(
        store.set_indexed(&["MAP.MSETEX_INDEXED", "other", "10", "1", "first", "k", "v", "x"]),
        ok()
    );
    store.entries.remove("ns:k");
    store.entries.remove("other:k");
    assert_eq!(store.groom_key("ns", "k"), ok());
    assert_eq!(store.members("idx_ns:first:x"), Vec::<String>::new());
    assert_eq!(store.members("idx_other:first:x"), vec!["k"]);
}

#[test]
fn periodic_groomer_removes_the_members_without_a_primary_entry() {
    let mut store = loaded();
    assert_eq!(
        store.set_indexed(&[
            "MAP.MSETEX_INDEXED", "ns", "10", "3", "first", "second", "third", "a", "1", "x", "y",
            "z", "b", "2", "x", "y2", "z", "c", "3", "x2", "y", "z",
        ]),
        ok()
    );
    store.entries.remove("ns:a");
    store.entries.remove("meta_ns:a");
    store.entries.remove("ns:c");
    assert_eq!(store.groom(), ok());
    assert_eq!(store.members("idx_ns:first:x"), vec!["b"]);
    assert_eq!(store.members("idx_ns:first:x2"), Vec::<String>::new());
    assert_eq!(store.members("idx_ns:second:y"), Vec::<String>::new());
    assert_eq!(store.members("idx_ns:second:y2"), vec!["b"]);
    assert_eq!(store.members("idx_ns:third:z"), vec!["b"]);
    assert_eq!(store.text("ns:b"), Some("2".to_string()));
    assert_eq!(store.hash("meta_ns:c"), vec![pair("first", "x2"), pair("second", "y"), pair("third", "z")]);
}

#[test]
fn periodic_groomer_derives_the_namespace_of_each_index_set() {
    let mut store = loaded();
    assert_eq!(
        store.set_indexed(&["MAP.MSETEX_INDEXED", "one", "10", "1", "idx", "k", "v", "x"]),
        ok()
    );
    assert_eq!(
        store.set_indexed(&["MAP.MSETEX_INDEXED", "two", "10", "1", "idx", "k", "v", "x"]),
        ok()
    );
    store.entries.remove("two:k");
    store.log.clear();
    assert_eq!(store.groom(), ok());
    assert_eq!(store.members("idx_one:idx:x"), vec!["k"]);
    assert_eq!(store.members("idx_two:idx:x"), Vec::<String>::new());
    assert!(store.log.contains(&Command::Exists { key: "one:k".to_string() }));
    assert!(store.log.contains(&Command::Exists { key: "two:k".to_string() }));
    assert!(store.log.contains(&Command::SRandMember {
        key: "idx_one:idx:x".to_string(),
        count: 256
    }));
}

#[test]
fn periodic_groomer_clears_a_set_of_the_size_of_a_sample_in_one_pass() {
    let mut store = loaded();
    for i in 0..256 {
        let key = format!("k{}", i);
        assert_eq!(
            store.set_indexed(&["MAP.MSETEX_INDEXED", "ns", "10", "1", "idx", &key, "v", "x"]),
            ok()
        );
        store.entries.remove(&format!("ns:{}", key));
    }
    assert_eq!(store.members("idx_ns:idx:x").len(), 256);
    assert_eq!(store.groom(), ok());
    assert_eq!(store.members("idx_ns:idx:x"), Vec::<String>::new());
    assert!(!store.entries.contains_key("idx_ns:idx:x"));
}

#[test]
fn periodic_groomer_looks_at_no_more_than_a_sample_of_a_large_set() {
    let mut store = loaded();
    for i in 0..300 {
        let key = format!("k{}", i);
        assert_eq!(
            store.set_indexed(&["MAP.MSETEX_INDEXED", "ns", "10", "1", "idx", &key, "v", "x"]),
            ok()
        );
        store.entries.remove(&format!("ns:{}", key));
    }
    assert_eq!(store.groom(), ok());
    assert_eq!(store.members("idx_ns:idx:x").len(), 44);
    assert_eq!(store.groom(), ok());
    assert_eq!(store.members("idx_ns:idx:x").len(), 0);
}

#[test]
fn periodic_groomer_within_a_namespace_leaves_the_others() {
    let mut store = loaded();
    assert_eq!(
        store.set_indexed(&["MAP.MSETEX_INDEXED", "one", "10", "1", "idx", "k", "v", "x"]),
        ok()
    );
    assert_eq!(
        store.set_indexed(&["MAP.MSETEX_INDEXED", "two", "10", "1", "idx", "k", "v", "x"]),
        ok()
    );
    store.entries.remove("one:k");
    store.entries.remove("two:k");
    let mut op = PeriodicGroom::within("two");
    let first = op.action();
    assert_eq!(store.drive(first, |reply| op.perform(reply)), ok());
    assert_eq!(store.members("idx_one:idx:x"), vec!["k"]);
    assert_eq!(store.members("idx_two:idx:x"), Vec::<String>::new());
}

#[test]
fn a_refusal_of_the_store_ends_the_write_with_its_message() {
    let mut store = loaded();
    store.fail_at = Some(store.log.len() + 3);
    assert_eq!(
        store.set_indexed(&[
            "MAP.MSETEX_INDEXED", "ns", "10", "2", "first", "second", "k", "v", "x", "y",
        ]),
        Err(EngineError::Store("ERR the store is out of order".to_string()))
    );
    assert_eq!(store.text("ns:k"), Some("v".to_string()));
    assert_eq!(store.hash("meta_ns:k"), vec![]);
    assert_eq!(store.log.len(), 6);
}

#[test]
fn an_expiry_of_zero_is_refused_by_the_store() {
    let mut store = loaded();
    assert_eq!(
        store.set_indexed(&["MAP.MSETEX_INDEXED", "ns", "0", "0", "k", "v"]),
        Err(EngineError::Store("ERR invalid expire time in 'setex' command".to_string()))
    );
    assert_eq!(store.keys_count(), 0);
}

#[test]
fn a_write_without_rows_is_refused() {
    let mut store = loaded();
    assert_eq!(
        store.set_indexed(&["MAP.MSETEX_INDEXED", "test_ns", "10", "1", "first"]),
        Err(EngineError::WrongArity)
    );
    assert_eq!(
        store.set_indexed(&["MAP.MSETEX_INDEXED", "ns", "10", "2", "a", "b"]),
        Err(EngineError::WrongArity)
    );
    assert_eq!(store.set_indexed(&["MAP.MSETEX_INDEXED", "ns", "10", "0"]), Err(EngineError::WrongArity));
    assert_eq!(store.log.len(), 3);
    assert_eq!(store.keys_count(), 0);
}

#[test]
fn a_second_row_for_a_key_replaces_the_first() {
    let mut store = loaded();
    assert_eq!(
        store.set_indexed(&[
            "MAP.MSETEX_INDEXED", "ns", "10", "1", "idx", "k", "v", "x", "k", "w", "y",
        ]),
        ok()
    );
    assert_eq!(store.text("ns:k"), Some("w".to_string()));
    assert_eq!(store.members("idx_ns:idx:x"), Vec::<String>::new());
    assert_eq!(store.members("idx_ns:idx:y"), vec!["k"]);
}
