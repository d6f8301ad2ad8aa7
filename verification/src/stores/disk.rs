//! The store that keeps a file up to date with what another store holds.
//!
//! The file is read and written by the process around the library. It hands
//! over what the file held before the store is started, and after every
//! operation it asks for the snapshot that has to be written.

use crate::stores::{lists, replay, sound, views, Store, StoreError};
use crate::switch::{Switch, SwitchView};
use crate::time::Timestamp;
use vstd::prelude::*;

verus! {

/// A store around another one, for which every change of the inner store calls for a new
/// snapshot in its file.
pub struct DiskStore<S: Store> {
    filename: String,
    store: S,
    staged: Option<Vec<Switch>>,
    dirty: bool,
}

impl<S: Store> DiskStore<S> {
    /// The path of the file.
    pub closed spec fn path(&self) -> Seq<char> {
        self.filename@
    }

    /// The store inside.
    pub closed spec fn inner(&self) -> S {
        self.store
    }

    /// The records that were read from the file and wait to be replayed.
    pub closed spec fn staged(&self) -> Option<Seq<SwitchView>> {
        match self.staged {
            Some(records) => Some(views(records@)),
            None => None,
        }
    }

    /// Whether the file is behind the store.
    pub closed spec fn unsaved(&self) -> bool {
        self.dirty
    }

    /// The store around `store` whose file is `filename`. Nothing is staged, and the file
    /// is taken to be up to date.
    pub fn new(store: S, filename: &str) -> (r: Self)
        ensures
            r.inner() == store,
            r.path() == filename@,
            r.staged() is None,
            !r.unsaved(),
    {
        DiskStore { filename: filename.to_owned(), store, staged: None, dirty: false }
    }

    /// The path of the file.
    pub fn filename(&self) -> (r: &String)
        ensures
            r@ == self.path(),
    {
        &self.filename
    }

    /// Takes the records that the file held, to be replayed when the store is started. A
    /// file that is missing or cannot be read holds no records: then nothing is staged.
    pub fn stage(&mut self, records: Vec<Switch>)
        ensures
            final(self).staged() == Some(views(records@)),
            final(self).inner() == old(self).inner(),
            final(self).path() == old(self).path(),
            final(self).unsaved() == old(self).unsaved(),
    {
        self.staged = Some(records);
    }

    /// The snapshot that has to be written to the file, if the file is behind the store:
    /// every switch held. Once it has been handed out the file counts as up to date.
    pub fn snapshot(&mut self) -> (r: Result<Option<Vec<Switch>>, StoreError>)
        ensures
            final(self).inner() == old(self).inner(),
            final(self).path() == old(self).path(),
            final(self).staged() == old(self).staged(),
            match r {
                Ok(Some(list)) => old(self).unsaved() && !final(self).unsaved() && lists(
                    old(self)@,
                    views(list@),
                ),
                Ok(None) => !old(self).unsaved() && !final(self).unsaved(),
                Err(_) => old(self).unsaved() && final(self).unsaved(),
            },
            old(self).dependable() ==> r is Ok,
    {
        if self.dirty {
            match self.store.all() {
                Ok(list) => {
                    self.dirty = false;
                    Ok(Some(list))
                },
                Err(error) => Err(error),
            }
        } else {
            Ok(None)
        }
    }
}

impl<S: Store> Store for DiskStore<S> {
    /// What the inner store holds.
    open spec fn view(&self) -> Map<Seq<char>, SwitchView> {
        self.inner()@
    }

    /// What the inner store holds once it has been started and, on top of it, the staged
    /// records.
    open spec fn restored(&self) -> Map<Seq<char>, SwitchView> {
        match self.staged() {
            Some(records) => replay(self.inner().restored(), records),
            None => self.inner().restored(),
        }
    }

    /// The file is not the library's to fail on: the store is as dependable as the inner one.
    open spec fn dependable(&self) -> bool {
        self.inner().dependable()
    }

    /// Starts the inner store and replays the staged records into it, in their order. Then
    /// nothing is staged any more, and the file is behind.
    fn init(&mut self) -> (r: Result<(), StoreError>)
        ensures
            final(self).path() == old(self).path(),
            r is Ok ==> final(self).staged() is None && final(self).unsaved(),
    {
        match self.store.init() {
            Ok(()) => {},
            Err(error) => {
                return Err(error);
            },
        }
        let mut staged: Option<Vec<Switch>> = None;
        std::mem::swap(&mut self.staged, &mut staged);
        if let Some(records) = staged {
            let mut i: usize = 0;
            while i < records.len()
                invariant
                    i <= records@.len(),
                    self.store@ == replay(
                        old(self).store.restored(),
                        views(records@).take(i as int),
                    ),
                    sound(self.store@),
                    self.store.dependable() == old(self).store.dependable(),
                    self.filename == old(self).filename,
                    self.staged is None,
                decreases records@.len() - i,
            {
                let ghost before = self.store@;
                match self.store.insert(records[i].clone()) {
                    Ok(()) => {},
                    Err(error) => {
                        return Err(error);
                    },
                }
                proof {
                    let upto = views(records@).take(i + 1);
                    assert(upto.drop_last() =~= views(records@).take(i as int));
                    assert(upto.last() == records@[i as int]@);
                }
                i += 1;
            }
            assert(views(records@).take(i as int) =~= views(records@));
        }
        self.dirty = true;
        Ok(())
    }

    /// Inserts into the inner store. The file is then behind.
    fn insert(&mut self, s: Switch) -> (r: Result<(), StoreError>)
        ensures
            final(self).path() == old(self).path(),
            final(self).staged() == old(self).staged(),
            final(self).unsaved() == (old(self).unsaved() || r is Ok),
    {
        match self.store.insert(s) {
            Ok(()) => {
                self.dirty = true;
                Ok(())
            },
            Err(error) => Err(error),
        }
    }

    /// Expires from the inner store. The file is then behind.
    fn expired(&mut self, when: Timestamp) -> (r: Result<Vec<Switch>, StoreError>)
        ensures
            final(self).path() == old(self).path(),
            final(self).staged() == old(self).staged(),
            final(self).unsaved() == (old(self).unsaved() || r is Ok),
    {
        match self.store.expired(when) {
            Ok(list) => {
                self.dirty = true;
                Ok(list)
            },
            Err(error) => Err(error),
        }
    }

    /// Takes from the inner store. The file is then behind.
    fn take(&mut self, name: &str) -> (r: Result<Option<Switch>, StoreError>)
        ensures
            final(self).path() == old(self).path(),
            final(self).staged() == old(self).staged(),
            final(self).unsaved() == (old(self).unsaved() || r is Ok),
    {
        match self.store.take(name) {
            Ok(found) => {
                self.dirty = true;
                Ok(found)
            },
            Err(error) => Err(error),
        }
    }

    fn all(&self) -> (r: Result<Vec<Switch>, StoreError>) {
        self.store.all()
    }
}

} // verus!
