use condemn::stores::{DiskStore, MemoryStore, Store, StoreError, Stores};
use condemn::switch::Switch;
use condemn::time::Timestamp;

fn at(secs: i64, nanos: u32) -> Timestamp {
    Timestamp::new(secs, nanos).unwrap()
}

fn switch(name: &str, deadline: Timestamp) -> Switch {
    Switch::new(name.to_string(), deadline, None).unwrap()
}

fn sorted(mut list: Vec<Switch>) -> Vec<Switch> {
    list.sort_by(|a, b| a.name().cmp(b.name()));
    list
}

#[test]
fn new_disk_store_has_nothing_to_write() {
    let mut store = DiskStore::new(MemoryStore::new(), "condemn.json");
    assert_eq!(store.filename(), "condemn.json");
    assert_eq!(store.snapshot(), Ok(None));
    assert_eq!(store.all(), Ok(vec![]));
}

#[test]
fn init_without_a_file_starts_empty_and_writes() {
    let mut store = DiskStore::new(MemoryStore::new(), "condemn.json");
    assert_eq!(store.init(), Ok(()));
    assert_eq!(store.all(), Ok(vec![]));
    assert_eq!(store.snapshot(), Ok(Some(vec![])));
    assert_eq!(store.snapshot(), Ok(None));
}

#[test]
fn init_replays_what_was_staged() {
    let mut store = DiskStore::new(MemoryStore::new(), "condemn.json");
    store.stage(vec![switch("a", at(10, 0)), switch("b", at(20, 0))]);
    assert_eq!(store.all(), Ok(vec![]));
    assert_eq!(store.init(), Ok(()));
    assert_eq!(
        sorted(store.all().unwrap()),
        vec![switch("a", at(10, 0)), switch("b", at(20, 0))]
    );
    assert_eq!(
        sorted(store.snapshot().unwrap().unwrap()),
        vec![switch("a", at(10, 0)), switch("b", at(20, 0))]
    );
}

#[test]
fn init_replays_in_order_so_the_last_record_of_a_name_stays() {
    let mut store = DiskStore::new(MemoryStore::new(), "condemn.json");
    store.stage(vec![switch("a", at(10, 0)), switch("a", at(30, 0))]);
    store.init().unwrap();
    assert_eq!(store.all(), Ok(vec![switch("a", at(30, 0))]));
}

#[test]
fn init_replays_once() {
    let mut store = DiskStore::new(MemoryStore::new(), "condemn.json");
    store.stage(vec![switch("a", at(10, 0))]);
    store.init().unwrap();
    assert_eq!(store.take("a"), Ok(Some(switch("a", at(10, 0)))));
    store.init().unwrap();
    assert_eq!(store.all(), Ok(vec![]));
}

#[test]
fn every_mutation_calls_for_a_snapshot_of_what_is_held_after_it() {
    let mut store = DiskStore::new(MemoryStore::new(), "condemn.json");
    store.insert(switch("a", at(10, 0))).unwrap();
    assert_eq!(store.snapshot(), Ok(Some(vec![switch("a", at(10, 0))])));
    assert_eq!(store.snapshot(), Ok(None));

    store.insert(switch("b", at(20, 0))).unwrap();
    assert_eq!(store.take("a"), Ok(Some(switch("a", at(10, 0)))));
    assert_eq!(store.snapshot(), Ok(Some(vec![switch("b", at(20, 0))])));

    assert_eq!(store.expired(at(20, 0)), Ok(vec![switch("b", at(20, 0))]));
    assert_eq!(store.snapshot(), Ok(Some(vec![])));
    assert_eq!(store.snapshot(), Ok(None));
}

#[test]
fn a_take_that_finds_nothing_still_calls_for_a_snapshot() {
    let mut store = DiskStore::new(MemoryStore::new(), "condemn.json");
    assert_eq!(store.take("a"), Ok(None));
    assert_eq!(store.snapshot(), Ok(Some(vec![])));
}

#[test]
fn reading_does_not_call_for_a_snapshot() {
    let mut store = DiskStore::new(MemoryStore::new(), "condemn.json");
    store.insert(switch("a", at(10, 0))).unwrap();
    store.snapshot().unwrap();
    assert_eq!(store.all(), Ok(vec![switch("a", at(10, 0))]));
    assert_eq!(store.snapshot(), Ok(None));
}

#[test]
fn what_was_written_comes_back_after_a_restart() {
    let mut first = DiskStore::new(MemoryStore::new(), "condemn.json");
    first.init().unwrap();
    first.insert(switch("a", at(10, 1))).unwrap();
    first.insert(Switch::new("b".to_string(), at(20, 2), Some(at(15, 0))).unwrap()).unwrap();
    first.insert(switch("c", at(10, 3))).unwrap();
    first.take("c").unwrap();
    let written = first.snapshot().unwrap().unwrap();
    assert_eq!(written.len(), 2);

    let mut second = DiskStore::new(MemoryStore::new(), "condemn.json");
    second.stage(written);
    second.init().unwrap();
    assert_eq!(sorted(second.all().unwrap()), sorted(first.all().unwrap()));
    assert_eq!(
        sorted(second.all().unwrap()),
        vec![
            switch("a", at(10, 1)),
            Switch::new("b".to_string(), at(20, 2), Some(at(15, 0))).unwrap(),
        ]
    );
}

struct Broken {
    inserts_left: usize,
    held: Vec<Switch>,
}

impl Store for Broken {
    fn init(&mut self) -> Result<(), StoreError> {
        Ok(())
    }

    fn insert(&mut self, s: Switch) -> Result<(), StoreError> {
        if self.inserts_left == 0 {
            return Err(StoreError::BackendUnavailable);
        }
        self.inserts_left -= 1;
        self.held.push(s);
        Ok(())
    }

    fn expired(&mut self, _when: Timestamp) -> Result<Vec<Switch>, StoreError> {
        Err(StoreError::BackendUnavailable)
    }

    fn take(&mut self, _name: &str) -> Result<Option<Switch>, StoreError> {
        Err(StoreError::BackendUnavailable)
    }

    fn all(&self) -> Result<Vec<Switch>, StoreError> {
        if self.inserts_left == 0 {
            return Err(StoreError::BackendUnavailable);
        }
        Ok(self.held.clone())
    }
}

#[test]
fn a_failure_of_the_inner_store_is_handed_on() {
    let mut store = DiskStore::new(Broken { inserts_left: 1, held: vec![] }, "f");
    assert_eq!(store.take("a"), Err(StoreError::BackendUnavailable));
    assert_eq!(store.expired(at(1, 0)), Err(StoreError::BackendUnavailable));
    assert_eq!(store.snapshot(), Ok(None));
    assert_eq!(store.insert(switch("a", at(1, 0))), Ok(()));
    assert_eq!(store.insert(switch("b", at(1, 0))), Err(StoreError::BackendUnavailable));
    assert_eq!(store.snapshot(), Err(StoreError::BackendUnavailable));
    assert_eq!(store.snapshot(), Err(StoreError::BackendUnavailable));
}

#[test]
fn init_fails_where_the_replay_fails() {
    let mut store = DiskStore::new(Broken { inserts_left: 1, held: vec![] }, "f");
    store.stage(vec![switch("a", at(1, 0)), switch("b", at(2, 0))]);
    assert_eq!(store.init(), Err(StoreError::BackendUnavailable));
}

#[test]
fn stores_memory_keeps_no_file() {
    let mut store = Stores::memory();
    assert_eq!(store.filename(), None);
    store.stage(vec![switch("a", at(10, 0))]);
    assert_eq!(store.init(), Ok(()));
    assert_eq!(store.all(), Ok(vec![]));
    store.insert(switch("a", at(10, 0))).unwrap();
    assert!(store.snapshot().is_none());
    assert_eq!(store.take("a"), Ok(Some(switch("a", at(10, 0)))));
    assert_eq!(store.take("a"), Ok(None));
}

#[test]
fn stores_disk_keeps_its_file_up_to_date() {
    let mut store = Stores::disk("db.json");
    assert_eq!(store.filename(), Some(&"db.json".to_string()));
    assert!(store.snapshot().is_none());
    store.stage(vec![switch("a", at(10, 0))]);
    assert_eq!(store.init(), Ok(()));
    assert_eq!(store.snapshot(), Some(vec![switch("a", at(10, 0))]));
    assert_eq!(store.expired(at(10, 0)), Ok(vec![switch("a", at(10, 0))]));
    assert_eq!(store.snapshot(), Some(vec![]));
    assert!(store.snapshot().is_none());
    store.insert(switch("b", at(11, 0))).unwrap();
    assert_eq!(store.all(), Ok(vec![switch("b", at(11, 0))]));
    assert_eq!(store.snapshot(), Some(vec![switch("b", at(11, 0))]));
}
