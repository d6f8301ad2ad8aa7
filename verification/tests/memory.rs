use condemn::stores::{MemoryStore, Store};
use condemn::switch::Switch;
use condemn::time::Timestamp;

fn at(secs: i64, nanos: u32) -> Timestamp {
    Timestamp::new(secs, nanos).unwrap()
}

fn switch(name: &str, deadline: Timestamp) -> Switch {
    Switch::new(name.to_string(), deadline, None).unwrap()
}

fn names(mut list: Vec<Switch>) -> Vec<String> {
    list.sort_by(|a, b| a.name().cmp(b.name()));
    list.iter().map(|s| s.name().clone()).collect()
}

#[test]
fn new_store_is_empty() {
    let mut store = MemoryStore::new();
    assert_eq!(store.init(), Ok(()));
    assert_eq!(store.all(), Ok(vec![]));
    assert_eq!(store.take("anything"), Ok(None));
    assert_eq!(store.expired(at(1_000_000, 0)), Ok(vec![]));
}

#[test]
fn insert_then_all_lists_the_switch() {
    let mut store = MemoryStore::new();
    assert_eq!(store.insert(switch("a", at(100, 0))), Ok(()));
    assert_eq!(store.all(), Ok(vec![switch("a", at(100, 0))]));
}

#[test]
fn all_does_not_remove() {
    let mut store = MemoryStore::new();
    store.insert(switch("a", at(100, 0))).unwrap();
    store.insert(switch("b", at(100, 0))).unwrap();
    store.insert(switch("c", at(50, 0))).unwrap();
    assert_eq!(names(store.all().unwrap()), vec!["a", "b", "c"]);
    assert_eq!(names(store.all().unwrap()), vec!["a", "b", "c"]);
}

#[test]
fn take_removes_and_returns() {
    let mut store = MemoryStore::new();
    store.insert(switch("a", at(100, 0))).unwrap();
    store.insert(switch("b", at(200, 0))).unwrap();
    assert_eq!(store.take("a"), Ok(Some(switch("a", at(100, 0)))));
    assert_eq!(names(store.all().unwrap()), vec!["b"]);
}

#[test]
fn take_finds_at_most_once() {
    let mut store = MemoryStore::new();
    store.insert(switch("a", at(100, 0))).unwrap();
    assert!(store.take("a").unwrap().is_some());
    assert_eq!(store.take("a"), Ok(None));
    assert_eq!(store.expired(at(1_000, 0)), Ok(vec![]));
}

#[test]
fn take_of_an_absent_name_changes_nothing() {
    let mut store = MemoryStore::new();
    store.insert(switch("a", at(100, 0))).unwrap();
    assert_eq!(store.take("b"), Ok(None));
    assert_eq!(store.take(""), Ok(None));
    assert_eq!(names(store.all().unwrap()), vec!["a"]);
}

#[test]
fn insert_replaces_the_switch_of_that_name() {
    let mut store = MemoryStore::new();
    let old = Switch::new("a".to_string(), at(100, 0), Some(at(90, 0))).unwrap();
    store.insert(old).unwrap();
    store.insert(switch("a", at(500, 7))).unwrap();
    assert_eq!(store.all(), Ok(vec![switch("a", at(500, 7))]));
    assert_eq!(store.expired(at(200, 0)), Ok(vec![]));
    assert_eq!(store.take("a"), Ok(Some(switch("a", at(500, 7)))));
    assert_eq!(store.take("a"), Ok(None));
}

#[test]
fn insert_replaces_within_one_second() {
    let mut store = MemoryStore::new();
    store.insert(switch("a", at(100, 1))).unwrap();
    store.insert(switch("b", at(100, 2))).unwrap();
    store.insert(switch("a", at(100, 3))).unwrap();
    let mut all = store.all().unwrap();
    all.sort_by(|x, y| x.name().cmp(y.name()));
    assert_eq!(all, vec![switch("a", at(100, 3)), switch("b", at(100, 2))]);
}

#[test]
fn expired_takes_what_is_due() {
    let mut store = MemoryStore::new();
    store.insert(switch("early", at(10, 0))).unwrap();
    store.insert(switch("now", at(20, 0))).unwrap();
    store.insert(switch("later", at(30, 0))).unwrap();
    assert_eq!(names(store.expired(at(20, 0)).unwrap()), vec!["early", "now"]);
    assert_eq!(names(store.all().unwrap()), vec!["later"]);
}

#[test]
fn expired_compares_nanoseconds() {
    let mut store = MemoryStore::new();
    store.insert(switch("before", at(20, 499))).unwrap();
    store.insert(switch("at", at(20, 500))).unwrap();
    store.insert(switch("after", at(20, 501))).unwrap();
    assert_eq!(names(store.expired(at(20, 500)).unwrap()), vec!["at", "before"]);
    assert_eq!(names(store.all().unwrap()), vec!["after"]);
    assert_eq!(store.take("after"), Ok(Some(switch("after", at(20, 501)))));
}

#[test]
fn expired_reaches_before_the_epoch() {
    let mut store = MemoryStore::new();
    store.insert(switch("old", at(-5, 0))).unwrap();
    store.insert(switch("new", at(5, 0))).unwrap();
    assert_eq!(names(store.expired(at(0, 0)).unwrap()), vec!["old"]);
    assert_eq!(names(store.all().unwrap()), vec!["new"]);
}

#[test]
fn expired_finds_each_switch_once() {
    let mut store = MemoryStore::new();
    store.insert(switch("a", at(10, 0))).unwrap();
    store.insert(switch("b", at(10, 0))).unwrap();
    assert_eq!(names(store.expired(at(15, 0)).unwrap()), vec!["a", "b"]);
    assert_eq!(store.expired(at(15, 0)), Ok(vec![]));
    assert_eq!(store.expired(at(99, 0)), Ok(vec![]));
    assert_eq!(store.take("a"), Ok(None));
    assert_eq!(store.all(), Ok(vec![]));
}

#[test]
fn expired_keeps_the_window() {
    let mut store = MemoryStore::new();
    let s = Switch::new("w".to_string(), at(10, 0), Some(at(8, 0))).unwrap();
    store.insert(s.clone()).unwrap();
    assert_eq!(store.expired(at(10, 0)), Ok(vec![s]));
}

#[test]
fn many_switches_come_and_go() {
    let mut store = MemoryStore::new();
    for i in 0..200i64 {
        store.insert(switch(&format!("s{}", i), at(i % 50, (i as u32) * 3))).unwrap();
    }
    assert_eq!(store.all().unwrap().len(), 200);
    let due = store.expired(at(24, 999_999_999)).unwrap();
    assert_eq!(due.len(), 100);
    assert!(due.iter().all(|s| s.deadline().secs() <= 24));
    let left = store.all().unwrap();
    assert_eq!(left.len(), 100);
    assert!(left.iter().all(|s| s.deadline().secs() > 24));
    for i in 0..200i64 {
        let found = store.take(&format!("s{}", i)).unwrap();
        assert_eq!(found.is_some(), i % 50 > 24);
    }
    assert_eq!(store.all(), Ok(vec![]));
}
