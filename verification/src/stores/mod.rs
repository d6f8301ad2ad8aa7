//! Stores: where the live switches are kept, one per name.
//!
//! What a store holds is modelled as a map from each name to the switch of
//! that name. Every operation says how it changes that map.

use crate::switch::{Switch, SwitchView};
use crate::time::Timestamp;
use vstd::prelude::*;

pub mod disk;
pub mod memory;
pub mod redis;

pub use self::disk::DiskStore;
pub use self::memory::MemoryStore;
pub use self::redis::RedisStore;

verus! {

/// Why a store could not carry out an operation.
#[derive(Clone, Copy, Debug, PartialEq, Eq)]
pub enum StoreError {
    /// The medium behind the store could not be reached.
    BackendUnavailable,
}

/// The switches of a list, each as the contracts speak of it.
pub open spec fn views(list: Seq<Switch>) -> Seq<SwitchView> {
    Seq::new(list.len(), |i: int| list[i]@)
}

/// `list` holds every switch of `contents` exactly once, and nothing else.
pub open spec fn lists(contents: Map<Seq<char>, SwitchView>, list: Seq<SwitchView>) -> bool {
    &&& forall|i: int|
        0 <= i < list.len() ==> contents.contains_key((#[trigger] list[i]).name)
            && contents[list[i].name] == list[i]
    &&& forall|i: int, j: int|
        0 <= i < j < list.len() ==> (#[trigger] list[i]).name != (#[trigger] list[j]).name
    &&& forall|name: Seq<char>| #[trigger]
        contents.contains_key(name) ==> exists|i: int|
            0 <= i < list.len() && (#[trigger] list[i]).name == name
}

/// Every switch of `contents` is well formed and stands under its own name.
pub open spec fn sound(contents: Map<Seq<char>, SwitchView>) -> bool {
    forall|name: Seq<char>| #[trigger]
        contents.contains_key(name) ==> contents[name].name == name
            && contents[name].well_formed()
}

/// The names of the switches whose deadline is `when` or earlier.
pub open spec fn due(contents: Map<Seq<char>, SwitchView>, when: int) -> Set<Seq<char>> {
    Set::new(|name: Seq<char>| contents.contains_key(name) && contents[name].deadline <= when)
}

/// A place that keeps the live switches, at most one per name.
pub trait Store {
    /// The switches held, by name. A store that does not say what it holds is taken to
    /// hold nothing.
    open spec fn view(&self) -> Map<Seq<char>, SwitchView> {
        Map::empty()
    }

    /// What the store will hold once it has been started: what it holds, unless it says
    /// otherwise.
    open spec fn restored(&self) -> Map<Seq<char>, SwitchView> {
        self@
    }

    /// Whether the store can be relied on: no operation on it fails. A store that does not
    /// say so cannot.
    open spec fn dependable(&self) -> bool {
        false
    }

    /// Starts the store: brings back what was persisted, where anything was.
    fn init(&mut self) -> (r: Result<(), StoreError>)
        ensures
            r is Ok ==> final(self)@ == old(self).restored(),
            r is Ok ==> sound(final(self)@),
            old(self).dependable() ==> r is Ok,
            final(self).dependable() == old(self).dependable(),
    ;

    /// Puts `s` under its name, in place of any switch that was there.
    fn insert(&mut self, s: Switch) -> (r: Result<(), StoreError>)
        ensures
            r is Ok ==> final(self)@ == old(self)@.insert(s@.name, s@),
            r is Err ==> final(self)@ == old(self)@,
            sound(final(self)@),
            old(self).dependable() ==> r is Ok,
            final(self).dependable() == old(self).dependable(),
    ;

    /// Removes and returns every switch whose deadline is `when` or earlier.
    fn expired(&mut self, when: Timestamp) -> (r: Result<Vec<Switch>, StoreError>)
        ensures
            r matches Ok(list) ==> {
                &&& final(self)@ == old(self)@.remove_keys(due(old(self)@, when@))
                &&& lists(old(self)@.restrict(due(old(self)@, when@)), views(list@))
            },
            r is Err ==> final(self)@ == old(self)@,
            sound(final(self)@),
            old(self).dependable() ==> r is Ok,
            final(self).dependable() == old(self).dependable(),
    ;

    /// Removes and returns the switch called `name`, if there is one.
    fn take(&mut self, name: &str) -> (r: Result<Option<Switch>, StoreError>)
        ensures
            r matches Ok(found) ==> {
                &&& final(self)@ == old(self)@.remove(name@)
                &&& match found {
                    Some(s) => old(self)@.contains_key(name@) && s@ == old(self)@[name@],
                    None => !old(self)@.contains_key(name@),
                }
            },
            r is Err ==> final(self)@ == old(self)@,
            sound(final(self)@),
            old(self).dependable() ==> r is Ok,
            final(self).dependable() == old(self).dependable(),
    ;

    /// A copy of every switch held, in no particular order.
    fn all(&self) -> (r: Result<Vec<Switch>, StoreError>)
        ensures
            r matches Ok(list) ==> lists(self@, views(list@)),
            sound(self@),
            self.dependable() ==> r is Ok,
    ;
}

/// What a store holds after `records` have been inserted into it, one after the other.
pub open spec fn replay(
    contents: Map<Seq<char>, SwitchView>,
    records: Seq<SwitchView>,
) -> Map<Seq<char>, SwitchView>
    decreases records.len(),
{
    if records.len() == 0 {
        contents
    } else {
        replay(contents, records.drop_last()).insert(records.last().name, records.last())
    }
}

/// What the first `upto` records amount to when they are replayed into an empty store,
/// where the records list some contents: the switches of those records, as the contents
/// have them.
proof fn lemma_replay_prefix(
    contents: Map<Seq<char>, SwitchView>,
    records: Seq<SwitchView>,
    upto: int,
)
    requires
        lists(contents, records),
        0 <= upto <= records.len(),
    ensures
        forall|name: Seq<char>|
            replay(Map::empty(), records.take(upto)).contains_key(name) <==> exists|i: int|
                0 <= i < upto && (#[trigger] records[i]).name == name,
        forall|name: Seq<char>|
            replay(Map::empty(), records.take(upto)).contains_key(name) ==> replay(
                Map::empty(),
                records.take(upto),
            )[name] == contents[name],
    decreases upto,
{
    if upto > 0 {
        lemma_replay_prefix(contents, records, upto - 1);
        let shorter = replay(Map::empty(), records.take(upto - 1));
        let longer = replay(Map::empty(), records.take(upto));
        assert(records.take(upto).drop_last() =~= records.take(upto - 1));
        assert(records.take(upto).last() == records[upto - 1]);
        assert(longer == shorter.insert(records[upto - 1].name, records[upto - 1]));
        assert forall|name: Seq<char>| longer.contains_key(name) <==> exists|i: int|
            0 <= i < upto && (#[trigger] records[i]).name == name by {
            if longer.contains_key(name) {
                if name == records[upto - 1].name {
                } else {
                    let i = choose|i: int| 0 <= i < upto - 1 && (#[trigger] records[i]).name == name;
                    assert(records[i].name == name);
                }
            }
            if exists|i: int| 0 <= i < upto && (#[trigger] records[i]).name == name {
                let i = choose|i: int| 0 <= i < upto && (#[trigger] records[i]).name == name;
                if i < upto - 1 {
                    assert(shorter.contains_key(name));
                }
            }
        }
    } else {
        assert(records.take(0) =~= Seq::<SwitchView>::empty());
    }
}

/// Persistence comes round: the records that list what a store holds, replayed into an
/// empty store, give a store that holds the same. `all` and a snapshot yield such
/// records, and `init` replays what has been staged.
pub proof fn lemma_replay_restores(contents: Map<Seq<char>, SwitchView>, records: Seq<SwitchView>)
    requires
        lists(contents, records),
    ensures
        replay(Map::empty(), records) == contents,
{
    lemma_replay_prefix(contents, records, records.len() as int);
    assert(records.take(records.len() as int) =~= records);
    let again = replay(Map::empty(), records);
    assert forall|name: Seq<char>| again.contains_key(name) <==> contents.contains_key(name) by {
        if again.contains_key(name) {
            let i = choose|i: int| 0 <= i < records.len() && (#[trigger] records[i]).name == name;
            assert(contents.contains_key(records[i].name));
        }
        if contents.contains_key(name) {
            let i = choose|i: int| 0 <= i < records.len() && (#[trigger] records[i]).name == name;
            assert(records[i].name == name);
        }
    }
    assert(again =~= contents);
}

/// Arming again replaces: after two inserts under one name the store holds the second
/// switch as it is, and nothing of the first.
pub proof fn lemma_insert_replaces(
    contents: Map<Seq<char>, SwitchView>,
    first: SwitchView,
    second: SwitchView,
)
    requires
        first.name == second.name,
    ensures
        contents.insert(first.name, first).insert(second.name, second) == contents.insert(
            second.name,
            second,
        ),
        contents.insert(first.name, first).insert(second.name, second)[second.name] == second,
{
    assert(contents.insert(first.name, first).insert(second.name, second) =~= contents.insert(
        second.name,
        second,
    ));
}

/// A switch is taken once: what is left after a take holds no switch of that name, so
/// that a second take finds nothing and no sweep finds it due.
pub proof fn lemma_taken_once(contents: Map<Seq<char>, SwitchView>, name: Seq<char>, when: int)
    ensures
        !contents.remove(name).contains_key(name),
        !due(contents.remove(name), when).contains(name),
        contents.remove(name).remove(name) == contents.remove(name),
{
    assert(contents.remove(name).remove(name) =~= contents.remove(name));
}

/// A switch expires once: what is left after a sweep at `when` holds none of the switches
/// that were due, so that no take finds one of them, and a sweep at `later` finds none of
/// them due. Where `later` is not after `when`, that sweep finds nothing at all.
pub proof fn lemma_expired_once(contents: Map<Seq<char>, SwitchView>, when: int, later: int)
    ensures
        forall|name: Seq<char>| #[trigger]
            due(contents, when).contains(name) ==> {
                let left = contents.remove_keys(due(contents, when));
                !left.contains_key(name) && !due(left, later).contains(name)
            },
        later <= when ==> due(contents.remove_keys(due(contents, when)), later)
            == Set::<Seq<char>>::empty(),
{
    if later <= when {
        assert(due(contents.remove_keys(due(contents, when)), later) =~= Set::<Seq<char>>::empty());
    }
}

/// An operation that removes switches from a store.
pub enum Removal {
    /// A take of the switch of that name.
    Take(Seq<char>),
    /// An expiry of what is due at that instant.
    Expired(int),
}

/// The names of the switches that a removal finds in `contents`, and removes.
pub open spec fn removed(contents: Map<Seq<char>, SwitchView>, removal: Removal) -> Set<Seq<char>> {
    match removal {
        Removal::Take(name) => if contents.contains_key(name) {
            set![name]
        } else {
            Set::empty()
        },
        Removal::Expired(when) => due(contents, when),
    }
}

/// What a removal leaves of `contents`: what `take` and `expired` leave in a store.
pub open spec fn left(contents: Map<Seq<char>, SwitchView>, removal: Removal) -> Map<
    Seq<char>,
    SwitchView,
> {
    match removal {
        Removal::Take(name) => contents.remove(name),
        Removal::Expired(when) => contents.remove_keys(due(contents, when)),
    }
}

/// What removals leave of `contents` when they are carried out one after the other.
pub open spec fn left_by_all(
    contents: Map<Seq<char>, SwitchView>,
    removals: Seq<Removal>,
) -> Map<Seq<char>, SwitchView>
    decreases removals.len(),
{
    if removals.len() == 0 {
        contents
    } else {
        left(left_by_all(contents, removals.drop_last()), removals.last())
    }
}

/// Removals only ever take away: what is held after more of them was held after fewer.
proof fn lemma_removals_shrink(
    contents: Map<Seq<char>, SwitchView>,
    removals: Seq<Removal>,
    fewer: int,
    more: int,
)
    requires
        0 <= fewer <= more <= removals.len(),
    ensures
        left_by_all(contents, removals.take(more)).dom().subset_of(
            left_by_all(contents, removals.take(fewer)).dom(),
        ),
    decreases more - fewer,
{
    if fewer < more {
        lemma_removals_shrink(contents, removals, fewer, more - 1);
        assert(removals.take(more).drop_last() =~= removals.take(more - 1));
    }
}

/// No switch is removed twice: of any removals carried out one after the other, in
/// whatever order their callers came to the store, no two find the same switch. A switch
/// that one take or one expiry has found is found by no later one.
pub proof fn lemma_removed_once(
    contents: Map<Seq<char>, SwitchView>,
    removals: Seq<Removal>,
    earlier: int,
    later: int,
)
    requires
        0 <= earlier < later < removals.len(),
    ensures
        removed(left_by_all(contents, removals.take(earlier)), removals[earlier]).disjoint(
            removed(left_by_all(contents, removals.take(later)), removals[later]),
        ),
{
    let before = left_by_all(contents, removals.take(earlier));
    let between = left_by_all(contents, removals.take(earlier + 1));
    let at = left_by_all(contents, removals.take(later));
    assert(removals.take(earlier + 1).drop_last() =~= removals.take(earlier));
    assert(removals.take(earlier + 1).last() == removals[earlier]);
    assert(between == left(before, removals[earlier]));
    lemma_removals_shrink(contents, removals, earlier + 1, later);
    assert forall|name: Seq<char>|
        removed(before, removals[earlier]).contains(name) implies !removed(
        at,
        removals[later],
    ).contains(name) by {
        assert(!between.contains_key(name));
        assert(!at.contains_key(name));
    }
}

/// Any one of the stores of this library that hold their switches in this process.
pub enum Stores {
    Memory(MemoryStore),
    Disk(DiskStore<MemoryStore>),
}

impl Stores {
    /// A store in memory, which holds nothing.
    pub fn memory() -> (r: Stores)
        ensures
            r is Memory,
            r@ == Map::<Seq<char>, SwitchView>::empty(),
    {
        Stores::Memory(MemoryStore::new())
    }

    /// A store in memory, which holds nothing, with a file of that name to keep up to date.
    pub fn disk(filename: &str) -> (r: Stores)
        ensures
            r matches Stores::Disk(store) && store.path() == filename@ && store.staged() is None
                && !store.unsaved(),
            r@ == Map::<Seq<char>, SwitchView>::empty(),
    {
        Stores::Disk(DiskStore::new(MemoryStore::new(), filename))
    }

    /// The path of the file that the store keeps up to date, if it keeps one.
    pub fn filename(&self) -> (r: Option<&String>)
        ensures
            match *self {
                Stores::Memory(_) => r is None,
                Stores::Disk(store) => r matches Some(path) && path@ == store.path(),
            },
    {
        match self {
            Stores::Memory(_) => None,
            Stores::Disk(store) => Some(store.filename()),
        }
    }

    /// Takes the records that the file held, to be replayed when the store is started.
    /// A store without a file has no use for them.
    pub fn stage(&mut self, records: Vec<Switch>)
        ensures
            final(self)@ == old(self)@,
            match *old(self) {
                Stores::Memory(_) => *final(self) == *old(self),
                Stores::Disk(before) => *final(self) matches Stores::Disk(after)
                    && after.staged() == Some(views(records@)) && after.path() == before.path()
                    && after.unsaved() == before.unsaved(),
            },
    {
        match self {
            Stores::Memory(_) => {},
            Stores::Disk(store) => {
                store.stage(records);
            },
        }
    }

    /// The snapshot that has to be written to the file, if there is a file and it is behind
    /// the store: every switch held.
    pub fn snapshot(&mut self) -> (r: Option<Vec<Switch>>)
        ensures
            final(self)@ == old(self)@,
            match *old(self) {
                Stores::Memory(_) => r is None && *final(self) == *old(self),
                Stores::Disk(before) => *final(self) matches Stores::Disk(after) && !after.unsaved()
                    && after.staged() == before.staged() && after.path() == before.path() && (
                r is Some <==> before.unsaved()),
            },
            r matches Some(list) ==> lists(old(self)@, views(list@)),
    {
        match self {
            Stores::Memory(_) => None,
            Stores::Disk(store) => match store.snapshot() {
                Ok(list) => list,
                Err(_) => None,
            },
        }
    }
}

impl Store for Stores {
    open spec fn view(&self) -> Map<Seq<char>, SwitchView> {
        match *self {
            Stores::Memory(store) => store@,
            Stores::Disk(store) => store@,
        }
    }

    open spec fn restored(&self) -> Map<Seq<char>, SwitchView> {
        match *self {
            Stores::Memory(store) => store.restored(),
            Stores::Disk(store) => store.restored(),
        }
    }

    /// Neither kind of store fails.
    open spec fn dependable(&self) -> bool {
        true
    }

    fn init(&mut self) -> (r: Result<(), StoreError>)
        ensures
            match *old(self) {
                Stores::Memory(_) => *final(self) is Memory,
                Stores::Disk(before) => *final(self) matches Stores::Disk(after) && after.path()
                    == before.path() && after.staged() is None && after.unsaved(),
            },
    {
        match self {
            Stores::Memory(store) => store.init(),
            Stores::Disk(store) => store.init(),
        }
    }

    fn insert(&mut self, s: Switch) -> (r: Result<(), StoreError>)
        ensures
            match *old(self) {
                Stores::Memory(_) => *final(self) is Memory,
                Stores::Disk(before) => *final(self) matches Stores::Disk(after) && after.path()
                    == before.path() && after.staged() == before.staged() && after.unsaved(),
            },
    {
        match self {
            Stores::Memory(store) => store.insert(s),
            Stores::Disk(store) => store.insert(s),
        }
    }

    fn expired(&mut self, when: Timestamp) -> (r: Result<Vec<Switch>, StoreError>)
        ensures
            match *old(self) {
                Stores::Memory(_) => *final(self) is Memory,
                Stores::Disk(before) => *final(self) matches Stores::Disk(after) && after.path()
                    == before.path() && after.staged() == before.staged() && after.unsaved(),
            },
    {
        match self {
            Stores::Memory(store) => store.expired(when),
            Stores::Disk(store) => store.expired(when),
        }
    }

    fn take(&mut self, name: &str) -> (r: Result<Option<Switch>, StoreError>)
        ensures
            match *old(self) {
                Stores::Memory(_) => *final(self) is Memory,
                Stores::Disk(before) => *final(self) matches Stores::Disk(after) && after.path()
                    == before.path() && after.staged() == before.staged() && after.unsaved(),
            },
    {
        match self {
            Stores::Memory(store) => store.take(name),
            Stores::Disk(store) => store.take(name),
        }
    }

    fn all(&self) -> (r: Result<Vec<Switch>, StoreError>) {
        match self {
            Stores::Memory(store) => store.all(),
            Stores::Disk(store) => store.all(),
        }
    }
}

} // verus!
