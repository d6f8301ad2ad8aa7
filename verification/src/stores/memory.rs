//! The store that keeps its switches in memory, indexed by the second in
//! which their deadline falls.

use crate::stores::{due, lists, views, Store, StoreError};
use crate::switch::{Switch, SwitchView};
use crate::time::{whole_secs, Timestamp};
use std::collections::BTreeMap;
use vstd::prelude::*;
use vstd::std_specs::iter::IteratorSpec;

verus! {

/// The switches of one bucket are those of `contents` whose deadline falls in the second
/// `key`, none of them twice.
spec fn bucket_fits(key: i64, bucket: Seq<Switch>, contents: Map<Seq<char>, SwitchView>) -> bool {
    &&& forall|i: int|
        0 <= i < bucket.len() ==> {
            let s = (#[trigger] bucket[i])@;
            &&& contents.contains_key(s.name)
            &&& contents[s.name] == s
            &&& whole_secs(s.deadline) == key
        }
    &&& forall|i: int, j: int|
        0 <= i < j < bucket.len() ==> (#[trigger] bucket[i])@.name != (#[trigger] bucket[j])@.name
}

/// `bucket` holds a switch called `name`.
spec fn bucket_has(bucket: Seq<Switch>, name: Seq<char>) -> bool {
    exists|i: int| 0 <= i < bucket.len() && (#[trigger] bucket[i])@.name == name
}

/// The buckets index exactly the switches of `contents`.
spec fn indexes(buckets: Map<i64, Vec<Switch>>, contents: Map<Seq<char>, SwitchView>) -> bool {
    &&& forall|key: i64| #[trigger]
        buckets.contains_key(key) ==> bucket_fits(key, buckets[key]@, contents)
    &&& forall|name: Seq<char>| #[trigger]
        contents.contains_key(name) ==> {
            let secs = whole_secs(contents[name].deadline);
            &&& contents[name].name == name
            &&& contents[name].well_formed()
            &&& buckets.contains_key(secs as i64)
            &&& bucket_has(buckets[secs as i64]@, name)
        }
}

/// Where in `bucket` the switch called `name` lies, if it holds one.
fn position(bucket: &Vec<Switch>, name: &String) -> (r: Option<usize>)
    ensures
        match r {
            Some(i) => i < bucket.len() && bucket[i as int]@.name == name@,
            None => !bucket_has(bucket@, name@),
        },
{
    let mut i: usize = 0;
    while i < bucket.len()
        invariant
            i <= bucket.len(),
            forall|j: int| 0 <= j < i ==> (#[trigger] bucket[j])@.name != name@,
        decreases bucket.len() - i,
    {
        if *bucket[i].name() == *name {
            return Some(i);
        }
        i += 1;
    }
    None
}

/// The keys of the buckets.
fn keys_of(buckets: &BTreeMap<i64, Vec<Switch>>) -> (keys: Vec<i64>)
    ensures
        keys@.to_set() == buckets@.dom(),
        keys@.no_duplicates(),
{
    let mut keys: Vec<i64> = Vec::new();
    for key in it: buckets.keys()
        invariant
            keys@ == it.seq().unref().take(it.index() as int),
    {
        keys.push(*key);
    }
    proof {
        vstd::std_specs::btree::axiom_spec_keys_iter(buckets);
        assert(keys@ =~= buckets.keys().remaining().unref());
    }
    keys
}

/// No two switches of `bucket` share a name.
spec fn unalike(bucket: Seq<Switch>) -> bool {
    forall|i: int, j: int|
        0 <= i < j < bucket.len() ==> (#[trigger] bucket[i])@.name != (#[trigger] bucket[j])@.name
}

/// `whole` holds the switch `entry`.
spec fn holds(whole: Seq<Switch>, entry: SwitchView) -> bool {
    exists|i: int| 0 <= i < whole.len() && (#[trigger] whole[i])@ == entry
}

/// Every switch of `part` is one of `whole`.
spec fn drawn_from(part: Seq<Switch>, whole: Seq<Switch>) -> bool {
    forall|j: int| 0 <= j < part.len() ==> holds(whole, (#[trigger] part[j])@)
}

/// Parts a bucket into the switches whose deadline is `when` or earlier and the others.
fn split_due(bucket: Vec<Switch>, when: Timestamp) -> (r: (Vec<Switch>, Vec<Switch>))
    requires
        unalike(bucket@),
    ensures
        unalike(r.0@),
        unalike(r.1@),
        drawn_from(r.0@, bucket@),
        drawn_from(r.1@, bucket@),
        forall|j: int| 0 <= j < r.0@.len() ==> (#[trigger] r.0@[j])@.deadline <= when@,
        forall|j: int| 0 <= j < r.1@.len() ==> (#[trigger] r.1@[j])@.deadline > when@,
        forall|i: int|
            0 <= i < bucket@.len() ==> if (#[trigger] bucket@[i])@.deadline <= when@ {
                bucket_has(r.0@, bucket@[i]@.name)
            } else {
                bucket_has(r.1@, bucket@[i]@.name)
            },
{
    let ghost whole = bucket@;
    let mut rest = bucket;
    let mut gone: Vec<Switch> = Vec::new();
    let mut kept: Vec<Switch> = Vec::new();
    while rest.len() > 0
        invariant
            unalike(whole),
            rest@.len() <= whole.len(),
            forall|i: int| 0 <= i < rest@.len() ==> (#[trigger] rest@[i]) == whole[i],
            unalike(gone@),
            unalike(kept@),
            forall|j: int|
                0 <= j < gone@.len() ==> exists|i: int|
                    rest@.len() <= i < whole.len() && (#[trigger] whole[i])@ == (
                    #[trigger] gone@[j])@,
            forall|j: int|
                0 <= j < kept@.len() ==> exists|i: int|
                    rest@.len() <= i < whole.len() && (#[trigger] whole[i])@ == (
                    #[trigger] kept@[j])@,
            forall|j: int| 0 <= j < gone@.len() ==> (#[trigger] gone@[j])@.deadline <= when@,
            forall|j: int| 0 <= j < kept@.len() ==> (#[trigger] kept@[j])@.deadline > when@,
            forall|i: int|
                rest@.len() <= i < whole.len() ==> if (#[trigger] whole[i])@.deadline <= when@ {
                    bucket_has(gone@, whole[i]@.name)
                } else {
                    bucket_has(kept@, whole[i]@.name)
                },
        decreases rest.len(),
    {
        let ghost at = rest@.len() - 1;
        let ghost gone_before = gone@;
        let ghost kept_before = kept@;
        let s = rest.pop().unwrap();
        assert(s == whole[at]);
        let is_due = !when.is_before(&s.deadline());
        proof {
            assert forall|j: int| 0 <= j < gone_before.len() implies (#[trigger] gone_before[j])@.name
                != s@.name by {
                let i = choose|i: int|
                    at < i < whole.len() && (#[trigger] whole[i])@ == gone_before[j]@;
            }
            assert forall|j: int| 0 <= j < kept_before.len() implies (#[trigger] kept_before[j])@.name
                != s@.name by {
                let i = choose|i: int|
                    at < i < whole.len() && (#[trigger] whole[i])@ == kept_before[j]@;
            }
        }
        if is_due {
            gone.push(s);
        } else {
            kept.push(s);
        }
        proof {
            assert forall|j: int| 0 <= j < gone@.len() implies exists|i: int|
                rest@.len() <= i < whole.len() && (#[trigger] whole[i])@ == (#[trigger] gone@[j])@ by {
                if j < gone_before.len() {
                    assert(gone@[j] == gone_before[j]);
                    let i = choose|i: int|
                        at < i < whole.len() && (#[trigger] whole[i])@ == gone_before[j]@;
                    assert(whole[i]@ == gone@[j]@);
                } else {
                    assert(whole[at]@ == gone@[j]@);
                }
            }
            assert forall|j: int| 0 <= j < kept@.len() implies exists|i: int|
                rest@.len() <= i < whole.len() && (#[trigger] whole[i])@ == (#[trigger] kept@[j])@ by {
                if j < kept_before.len() {
                    assert(kept@[j] == kept_before[j]);
                    let i = choose|i: int|
                        at < i < whole.len() && (#[trigger] whole[i])@ == kept_before[j]@;
                    assert(whole[i]@ == kept@[j]@);
                } else {
                    assert(whole[at]@ == kept@[j]@);
                }
            }
            assert forall|i: int| rest@.len() <= i < whole.len() implies if (#[trigger] whole[i])@.deadline
                <= when@ {
                bucket_has(gone@, whole[i]@.name)
            } else {
                bucket_has(kept@, whole[i]@.name)
            } by {
                if i == at {
                    if is_due {
                        assert(gone@[gone_before.len() as int]@.name == whole[i]@.name);
                    } else {
                        assert(kept@[kept_before.len() as int]@.name == whole[i]@.name);
                    }
                } else if whole[i]@.deadline <= when@ {
                    let j = choose|j: int|
                        0 <= j < gone_before.len() && (#[trigger] gone_before[j])@.name
                            == whole[i]@.name;
                    assert(gone@[j] == gone_before[j]);
                } else {
                    let j = choose|j: int|
                        0 <= j < kept_before.len() && (#[trigger] kept_before[j])@.name
                            == whole[i]@.name;
                    assert(kept@[j] == kept_before[j]);
                }
            }
        }
    }
    proof {
        assert forall|j: int| 0 <= j < gone@.len() implies holds(whole, (#[trigger] gone@[j])@) by {
            let i = choose|i: int|
                rest@.len() <= i < whole.len() && (#[trigger] whole[i])@ == gone@[j]@;
            assert(whole[i]@ == gone@[j]@);
        }
        assert forall|j: int| 0 <= j < kept@.len() implies holds(whole, (#[trigger] kept@[j])@) by {
            let i = choose|i: int|
                rest@.len() <= i < whole.len() && (#[trigger] whole[i])@ == kept@[j]@;
            assert(whole[i]@ == kept@[j]@);
        }
    }
    (gone, kept)
}

/// `key` is one of the first `upto` keys.
spec fn among(keys: Seq<i64>, upto: int, key: int) -> bool {
    exists|q: int| 0 <= q < upto && #[trigger] keys[q] == key
}

/// The time index with the contents it stands for.
struct Index {
    buckets: BTreeMap<i64, Vec<Switch>>,
    contents: Ghost<Map<Seq<char>, SwitchView>>,
}

impl Index {
    spec fn coherent(self) -> bool {
        indexes(self.buckets@, self.contents@)
    }

    fn new() -> (r: Index)
        ensures
            r.coherent(),
            r.contents@ == Map::<Seq<char>, SwitchView>::empty(),
    {
        Index { buckets: BTreeMap::new(), contents: Ghost(Map::empty()) }
    }

    fn insert(&mut self, s: Switch)
        requires
            old(self).coherent(),
        ensures
            final(self).coherent(),
            final(self).contents@ == old(self).contents@.insert(s@.name, s@),
    {
        let _ = self.take(s.name());
        let key = s.deadline().secs();
        let ghost before = self.buckets@;
        let ghost held = self.contents@;
        let ghost entry = s@;
        let mut bucket = match self.buckets.remove(&key) {
            Some(bucket) => bucket,
            None => Vec::new(),
        };
        let ghost short = bucket@;
        bucket.push(s);
        let ghost long = bucket@;
        self.buckets.insert(key, bucket);
        self.contents = Ghost(held.insert(entry.name, entry));
        proof {
            assert(before.contains_key(key) ==> bucket_fits(key, before[key]@, held));
            assert(!held.contains_key(entry.name));
            assert forall|other: i64| #[trigger]
                self.buckets@.contains_key(other) implies bucket_fits(
                other,
                self.buckets@[other]@,
                self.contents@,
            ) by {
                if other == key {
                    assert(self.buckets@[other]@ == long);
                    assert forall|i: int| 0 <= i < long.len() implies ({
                        let e = (#[trigger] long[i])@;
                        &&& self.contents@.contains_key(e.name)
                        &&& self.contents@[e.name] == e
                        &&& whole_secs(e.deadline) == key
                    }) by {
                        if i < short.len() {
                            assert(long[i] == short[i]);
                        }
                    }
                    assert forall|i: int, j: int| 0 <= i < j < long.len() implies (#[trigger] long[i])@.name
                        != (#[trigger] long[j])@.name by {
                        assert(long[i] == short[i]);
                        if j < short.len() {
                            assert(long[j] == short[j]);
                        }
                    }
                } else {
                    assert(before.contains_key(other));
                    assert(self.buckets@[other] == before[other]);
                    assert(bucket_fits(other, before[other]@, held));
                }
            }
            assert forall|n: Seq<char>| #[trigger]
                self.contents@.contains_key(n) implies ({
                let secs = whole_secs(self.contents@[n].deadline);
                &&& self.contents@[n].name == n
                &&& self.contents@[n].well_formed()
                &&& self.buckets@.contains_key(secs as i64)
                &&& bucket_has(self.buckets@[secs as i64]@, n)
            }) by {
                if n == entry.name {
                    assert(long[short.len() as int]@.name == n);
                } else {
                    assert(held.contains_key(n));
                    let secs = whole_secs(held[n].deadline) as i64;
                    let at = choose|at: int|
                        0 <= at < before[secs]@.len() && (#[trigger] before[secs]@[at])@.name == n;
                    if secs == key {
                        assert(long[at] == short[at]);
                    } else {
                        assert(self.buckets@[secs] == before[secs]);
                    }
                }
            }
            assert(self.contents@ =~= old(self).contents@.insert(entry.name, entry));
        }
    }

    fn all(&self) -> (list: Vec<Switch>)
        requires
            self.coherent(),
        ensures
            lists(self.contents@, views(list@)),
    {
        let keys = keys_of(&self.buckets);
        let mut list: Vec<Switch> = Vec::new();
        let mut p: usize = 0;
        while p < keys.len()
            invariant
                p <= keys.len(),
                self.coherent(),
                keys@.to_set() == self.buckets@.dom(),
                keys@.no_duplicates(),
                forall|j: int|
                    0 <= j < list.len() ==> {
                        let e = (#[trigger] list[j])@;
                        &&& self.contents@.contains_key(e.name)
                        &&& self.contents@[e.name] == e
                        &&& among(keys@, p as int, whole_secs(e.deadline))
                    },
                forall|i: int, j: int|
                    0 <= i < j < list.len() ==> (#[trigger] list[i])@.name != (#[trigger] list[j])@.name,
                forall|n: Seq<char>| #[trigger]
                    self.contents@.contains_key(n) && among(
                        keys@,
                        p as int,
                        whole_secs(self.contents@[n].deadline),
                    ) ==> bucket_has(list@, n),
            decreases keys.len() - p,
        {
            let key = keys[p];
            assert(keys@.to_set().contains(keys@[p as int]));
            let bucket = self.buckets.get(&key).unwrap();
            let ghost start = list@.len();
            let ghost earlier = list@;
            assert(bucket_fits(key, bucket@, self.contents@));
            assert(!among(keys@, p as int, key as int));
            let mut i: usize = 0;
            while i < bucket.len()
                invariant
                    i <= bucket.len(),
                    self.coherent(),
                    bucket_fits(key, bucket@, self.contents@),
                    !among(keys@, p as int, key as int),
                    list@.len() == start + i,
                    forall|j: int| 0 <= j < start ==> (#[trigger] list[j]) == earlier[j],
                    forall|t: int| 0 <= t < i ==> (#[trigger] list[start + t])@ == bucket[t]@,
                    earlier.len() == start,
                    forall|j: int|
                        0 <= j < start ==> {
                            let e = (#[trigger] earlier[j])@;
                            &&& self.contents@.contains_key(e.name)
                            &&& self.contents@[e.name] == e
                            &&& among(keys@, p as int, whole_secs(e.deadline))
                        },
                    forall|i: int, j: int|
                        0 <= i < j < list.len() ==> (#[trigger] list[i])@.name != (
                        #[trigger] list[j])@.name,
                decreases bucket.len() - i,
            {
                let copy = bucket[i].clone();
                proof {
                    assert forall|j: int| 0 <= j < list.len() implies (#[trigger] list[j])@.name
                        != copy@.name by {
                        if j < start {
                            assert(list[j] == earlier[j]);
                        } else {
                            assert(list[start + (j - start)]@ == bucket[j - start]@);
                        }
                    }
                }
                list.push(copy);
                i += 1;
            }
            proof {
                assert(among(keys@, p + 1, key as int));
                assert forall|j: int| 0 <= j < list.len() implies ({
                    let e = (#[trigger] list[j])@;
                    &&& self.contents@.contains_key(e.name)
                    &&& self.contents@[e.name] == e
                    &&& among(keys@, p + 1, whole_secs(e.deadline))
                }) by {
                    if j < start {
                        assert(list[j] == earlier[j]);
                        let q = choose|q: int|
                            0 <= q < p && #[trigger] keys@[q] == whole_secs(earlier[j]@.deadline);
                        assert(keys@[q] == whole_secs(list[j]@.deadline));
                    } else {
                        assert(list[start + (j - start)]@ == bucket[j - start]@);
                    }
                }
                assert forall|n: Seq<char>| #[trigger]
                    self.contents@.contains_key(n) && among(
                        keys@,
                        p + 1,
                        whole_secs(self.contents@[n].deadline),
                    ) implies bucket_has(list@, n) by {
                    let secs = whole_secs(self.contents@[n].deadline);
                    if secs == key {
                        let at = choose|at: int|
                            0 <= at < bucket@.len() && (#[trigger] bucket@[at])@.name == n;
                        assert(list[start + at]@ == bucket[at]@);
                    } else {
                        let q = choose|q: int| 0 <= q < p + 1 && #[trigger] keys@[q] == secs;
                        assert(among(keys@, p as int, secs));
                        assert(bucket_has(earlier, n));
                        let at = choose|at: int|
                            0 <= at < earlier.len() && (#[trigger] earlier[at])@.name == n;
                        assert(list[at] == earlier[at]);
                    }
                }
            }
            p += 1;
        }
        proof {
            let shown = views(list@);
            assert forall|n: Seq<char>| #[trigger]
                self.contents@.contains_key(n) implies exists|i: int|
                0 <= i < shown.len() && (#[trigger] shown[i]).name == n by {
                let secs = whole_secs(self.contents@[n].deadline) as i64;
                assert(keys@.to_set().contains(secs));
                let q = choose|q: int| 0 <= q < keys@.len() && keys@[q] == secs;
                assert(among(keys@, p as int, secs as int));
                let at = choose|at: int| 0 <= at < list@.len() && (#[trigger] list@[at])@.name == n;
                assert(shown[at].name == n);
            }
        }
        list
    }

    fn expired(&mut self, when: Timestamp) -> (list: Vec<Switch>)
        requires
            old(self).coherent(),
        ensures
            final(self).coherent(),
            final(self).contents@ == old(self).contents@.remove_keys(
                due(old(self).contents@, when@),
            ),
            lists(old(self).contents@.restrict(due(old(self).contents@, when@)), views(list@)),
    {
        let keys = keys_of(&self.buckets);
        let bound = when.secs();
        let ghost start = self.contents@;
        let ghost first = self.buckets@;
        let mut list: Vec<Switch> = Vec::new();
        let mut p: usize = 0;
        while p < keys.len()
            invariant
                p <= keys.len(),
                self.coherent(),
                indexes(first, start),
                keys@.to_set() == first.dom(),
                keys@.no_duplicates(),
                bound == whole_secs(when@),
                forall|q: int|
                    p <= q < keys.len() ==> self.buckets@.contains_key(#[trigger] keys[q])
                        && self.buckets@[keys[q]] == first[keys[q]],
                forall|n: Seq<char>| #[trigger]
                    self.contents@.contains_key(n) <==> start.contains_key(n) && !(start[n].deadline
                        <= when@ && among(keys@, p as int, whole_secs(start[n].deadline))),
                forall|n: Seq<char>| #[trigger]
                    self.contents@.contains_key(n) ==> self.contents@[n] == start[n],
                forall|j: int|
                    0 <= j < list.len() ==> {
                        let e = (#[trigger] list[j])@;
                        &&& start.contains_key(e.name)
                        &&& start[e.name] == e
                        &&& e.deadline <= when@
                        &&& among(keys@, p as int, whole_secs(e.deadline))
                    },
                unalike(list@),
                forall|n: Seq<char>| #[trigger]
                    start.contains_key(n) && start[n].deadline <= when@ && among(
                        keys@,
                        p as int,
                        whole_secs(start[n].deadline),
                    ) ==> bucket_has(list@, n),
            decreases keys.len() - p,
        {
            let key = keys[p];
            let ghost held = self.contents@;
            let ghost before = self.buckets@;
            let ghost listed = list@;
            assert(before.contains_key(keys[p as int]));
            assert(!among(keys@, p as int, key as int));
            assert(among(keys@, p + 1, key as int));
            assert(forall|secs: int| among(keys@, p as int, secs) ==> among(keys@, p + 1, secs)) by {
                assert forall|secs: int| among(keys@, p as int, secs) implies among(
                    keys@,
                    p + 1,
                    secs,
                ) by {
                    let q = choose|q: int| 0 <= q < p && #[trigger] keys@[q] == secs;
                    assert(keys@[q] == secs);
                }
            }
            assert(forall|secs: int|
                among(keys@, p + 1, secs) ==> among(keys@, p as int, secs) || secs == key) by {
                assert forall|secs: int| among(keys@, p + 1, secs) implies among(
                    keys@,
                    p as int,
                    secs,
                ) || secs == key by {
                    let q = choose|q: int| 0 <= q < p + 1 && #[trigger] keys@[q] == secs;
                    if q < p {
                        assert(keys@[q] == secs);
                    }
                }
            }
            assert(bucket_fits(key, before[key]@, held));
            if key <= bound {
                let bucket = self.buckets.remove(&key).unwrap();
                let ghost full = bucket@;
                let (mut gone, kept) = split_due(bucket, when);
                let ghost left = gone@;
                let ghost stay = kept@;
                if kept.len() > 0 {
                    self.buckets.insert(key, kept);
                }
                let ghost names = Set::new(|n: Seq<char>| bucket_has(left, n));
                self.contents = Ghost(held.remove_keys(names));
                list.append(&mut gone);
                proof {
                    assert forall|j: int| 0 <= j < left.len() implies ({
                        let e = (#[trigger] left[j])@;
                        &&& held.contains_key(e.name)
                        &&& held[e.name] == e
                        &&& whole_secs(e.deadline) == key
                        &&& e.deadline <= when@
                    }) by {
                        assert(holds(full, left[j]@));
                        let i = choose|i: int|
                            0 <= i < full.len() && (#[trigger] full[i])@ == left[j]@;
                    }
                    assert forall|j: int| 0 <= j < stay.len() implies ({
                        let e = (#[trigger] stay[j])@;
                        &&& held.contains_key(e.name)
                        &&& held[e.name] == e
                        &&& whole_secs(e.deadline) == key
                        &&& e.deadline > when@
                        &&& !names.contains(e.name)
                    }) by {
                        assert(holds(full, stay[j]@));
                        let i = choose|i: int|
                            0 <= i < full.len() && (#[trigger] full[i])@ == stay[j]@;
                        if names.contains(stay[j]@.name) {
                            let k = choose|k: int|
                                0 <= k < left.len() && (#[trigger] left[k])@.name == stay[j]@.name;
                        }
                    }
                    assert forall|n: Seq<char>| names.contains(n) implies held.contains_key(n)
                        && held[n].deadline <= when@ && whole_secs(held[n].deadline) == key by {
                        let k = choose|k: int| 0 <= k < left.len() && (#[trigger] left[k])@.name == n;
                    }
                    assert forall|n: Seq<char>|
                        held.contains_key(n) && held[n].deadline <= when@ && whole_secs(
                            held[n].deadline,
                        ) == key implies names.contains(n) by {
                        let i = choose|i: int|
                            0 <= i < full.len() && (#[trigger] full[i])@.name == n;
                        assert(full[i]@ == held[n]);
                    }
                    // the buckets still index the contents
                    assert forall|other: i64| #[trigger]
                        self.buckets@.contains_key(other) implies bucket_fits(
                        other,
                        self.buckets@[other]@,
                        self.contents@,
                    ) by {
                        if other == key {
                            assert(self.buckets@[other]@ == stay);
                        } else {
                            assert(before.contains_key(other));
                            assert(self.buckets@[other] == before[other]);
                            assert(bucket_fits(other, before[other]@, held));
                        }
                    }
                    assert forall|n: Seq<char>| #[trigger]
                        self.contents@.contains_key(n) implies ({
                        let secs = whole_secs(self.contents@[n].deadline);
                        &&& self.contents@[n].name == n
                        &&& self.contents@[n].well_formed()
                        &&& self.buckets@.contains_key(secs as i64)
                        &&& bucket_has(self.buckets@[secs as i64]@, n)
                    }) by {
                        assert(held.contains_key(n));
                        let secs = whole_secs(held[n].deadline) as i64;
                        if secs == key {
                            let i = choose|i: int|
                                0 <= i < full.len() && (#[trigger] full[i])@.name == n;
                            assert(full[i]@ == held[n]);
                            assert(bucket_has(stay, full[i]@.name));
                            assert(stay.len() > 0);
                            assert(self.buckets@[secs]@ == stay);
                        } else {
                            assert(self.buckets@[secs] == before[secs]);
                        }
                    }
                    assert forall|q: int| p + 1 <= q < keys.len() implies self.buckets@.contains_key(
                        #[trigger] keys[q],
                    ) && self.buckets@[keys[q]] == first[keys[q]] by {
                        assert(keys@[q] != keys@[p as int]);
                    }
                    assert forall|n: Seq<char>| #[trigger]
                        self.contents@.contains_key(n) <==> start.contains_key(n) && !(
                        start[n].deadline <= when@ && among(
                            keys@,
                            p + 1,
                            whole_secs(start[n].deadline),
                        )) by {
                        if held.contains_key(n) {
                            assert(held[n] == start[n]);
                        }
                    }
                    // the list holds what has gone
                    assert(list@ == listed + left);
                    assert forall|j: int| 0 <= j < list.len() implies ({
                        let e = (#[trigger] list[j])@;
                        &&& start.contains_key(e.name)
                        &&& start[e.name] == e
                        &&& e.deadline <= when@
                        &&& among(keys@, p + 1, whole_secs(e.deadline))
                    }) by {
                        if j < listed.len() {
                            assert(list[j] == listed[j]);
                        } else {
                            assert(list[j] == left[j - listed.len()]);
                        }
                    }
                    assert forall|i: int, j: int| 0 <= i < j < list.len() implies (#[trigger] list[i])@.name
                        != (#[trigger] list[j])@.name by {
                        if j < listed.len() {
                            assert(list[i] == listed[i] && list[j] == listed[j]);
                        } else if i < listed.len() {
                            assert(list[i] == listed[i]);
                            assert(list[j] == left[j - listed.len()]);
                            assert(!held.contains_key(listed[i]@.name));
                        } else {
                            assert(list[i] == left[i - listed.len()]);
                            assert(list[j] == left[j - listed.len()]);
                        }
                    }
                    assert forall|n: Seq<char>| #[trigger]
                        start.contains_key(n) && start[n].deadline <= when@ && among(
                            keys@,
                            p + 1,
                            whole_secs(start[n].deadline),
                        ) implies bucket_has(list@, n) by {
                        if among(keys@, p as int, whole_secs(start[n].deadline)) {
                            let j = choose|j: int|
                                0 <= j < listed.len() && (#[trigger] listed[j])@.name == n;
                            assert(list[j] == listed[j]);
                        } else {
                            assert(held.contains_key(n));
                            assert(held[n] == start[n]);
                            assert(names.contains(n));
                            let k = choose|k: int|
                                0 <= k < left.len() && (#[trigger] left[k])@.name == n;
                            assert(list[listed.len() + k] == left[k]);
                        }
                    }
                }
            } else {
                proof {
                    assert forall|n: Seq<char>| #[trigger]
                        self.contents@.contains_key(n) <==> start.contains_key(n) && !(
                        start[n].deadline <= when@ && among(
                            keys@,
                            p + 1,
                            whole_secs(start[n].deadline),
                        )) by {}
                }
            }
            p += 1;
        }
        proof {
            assert forall|n: Seq<char>| start.contains_key(n) implies among(
                keys@,
                p as int,
                whole_secs(start[n].deadline),
            ) by {
                let secs = whole_secs(start[n].deadline) as i64;
                assert(keys@.to_set().contains(secs));
                let q = choose|q: int| 0 <= q < keys@.len() && keys@[q] == secs;
                assert(keys@[q] == secs);
            }
            let overdue = due(start, when@);
            assert(self.contents@ =~= start.remove_keys(overdue));
            let shown = views(list@);
            let part = start.restrict(overdue);
            assert forall|i: int| 0 <= i < shown.len() implies part.contains_key(
                (#[trigger] shown[i]).name,
            ) && part[shown[i].name] == shown[i] by {
                assert(shown[i] == list[i]@);
            }
            assert forall|i: int, j: int| 0 <= i < j < shown.len() implies (#[trigger] shown[i]).name
                != (#[trigger] shown[j]).name by {
                assert(shown[i] == list[i]@ && shown[j] == list[j]@);
            }
            assert forall|n: Seq<char>| #[trigger] part.contains_key(n) implies exists|i: int|
                0 <= i < shown.len() && (#[trigger] shown[i]).name == n by {
                let j = choose|j: int| 0 <= j < list@.len() && (#[trigger] list@[j])@.name == n;
                assert(shown[j].name == n);
            }
        }
        list
    }

    fn take(&mut self, name: &String) -> (r: Option<Switch>)
        requires
            old(self).coherent(),
        ensures
            final(self).coherent(),
            final(self).contents@ == old(self).contents@.remove(name@),
            match r {
                Some(s) => old(self).contents@.contains_key(name@) && s@ == old(self).contents@[name@],
                None => !old(self).contents@.contains_key(name@),
            },
    {
        let keys = keys_of(&self.buckets);
        let mut p: usize = 0;
        while p < keys.len()
            invariant
                p <= keys.len(),
                *self == *old(self),
                self.coherent(),
                keys@.to_set() == self.buckets@.dom(),
                forall|q: int|
                    0 <= q < p ==> !bucket_has(self.buckets@[#[trigger] keys[q]]@, name@),
            decreases keys.len() - p,
        {
            let key = keys[p];
            assert(keys@.to_set().contains(keys@[p as int]));
            let found = match self.buckets.get(&key) {
                Some(bucket) => position(bucket, name),
                None => None,
            };
            if let Some(i) = found {
                let ghost before = self.buckets@;
                let ghost held = self.contents@;
                let mut bucket = self.buckets.remove(&key).unwrap();
                let ghost full = bucket@;
                let s = bucket.remove(i);
                if bucket.len() > 0 {
                    self.buckets.insert(key, bucket);
                }
                self.contents = Ghost(held.remove(name@));
                proof {
                    assert(bucket_fits(key, full, held));
                    assert(full[i as int]@ == s@);
                    let ghost rest = full.remove(i as int);
                    assert forall|j: int| 0 <= j < rest.len() implies (#[trigger] rest[j])
                        == full[if j < i { j } else { j + 1 }] by {}
                    assert forall|other: i64| #[trigger]
                        self.buckets@.contains_key(other) implies bucket_fits(
                        other,
                        self.buckets@[other]@,
                        self.contents@,
                    ) by {
                        assert(before.contains_key(other));
                        assert(bucket_fits(other, before[other]@, held));
                        if other == key {
                            assert(self.buckets@[other]@ == rest);
                        } else {
                            assert(self.buckets@[other] == before[other]);
                        }
                    }
                    assert forall|n: Seq<char>| #[trigger]
                        self.contents@.contains_key(n) implies ({
                        let secs = whole_secs(self.contents@[n].deadline);
                        &&& self.contents@[n].name == n
                        &&& self.contents@[n].well_formed()
                        &&& self.buckets@.contains_key(secs as i64)
                        &&& bucket_has(self.buckets@[secs as i64]@, n)
                    }) by {
                        assert(held.contains_key(n));
                        let secs = whole_secs(held[n].deadline) as i64;
                        let at = choose|at: int|
                            0 <= at < before[secs]@.len() && (#[trigger] before[secs]@[at])@.name
                                == n;
                        if secs == key {
                            let moved = if at < i { at } else { at - 1 };
                            assert(rest[moved] == full[at]);
                            assert(rest[moved]@.name == n);
                        } else {
                            assert(self.buckets@[secs] == before[secs]);
                        }
                    }
                }
                return Some(s);
            }
            p += 1;
        }
        proof {
            if self.contents@.contains_key(name@) {
                let secs = whole_secs(self.contents@[name@].deadline) as i64;
                assert(keys@.to_set().contains(secs));
                let q = choose|q: int| 0 <= q < keys@.len() && keys@[q] == secs;
                assert(!bucket_has(self.buckets@[keys[q]]@, name@));
            }
            assert(self.contents@.remove(name@) =~= self.contents@);
        }
        None
    }
}

/// A store that lives and dies with the process.
pub struct MemoryStore {
    index: Index,
}

impl MemoryStore {
    #[verifier::type_invariant]
    closed spec fn coherent(self) -> bool {
        self.index.coherent()
    }

    /// A store that holds nothing.
    pub fn new() -> (r: MemoryStore)
        ensures
            r@ == Map::<Seq<char>, SwitchView>::empty(),
    {
        MemoryStore { index: Index::new() }
    }
}

impl Store for MemoryStore {
    closed spec fn view(&self) -> Map<Seq<char>, SwitchView> {
        self.index.contents@
    }

    /// Nothing is persisted, so starting changes nothing.
    open spec fn restored(&self) -> Map<Seq<char>, SwitchView> {
        self@
    }

    /// Memory does not fail.
    open spec fn dependable(&self) -> bool {
        true
    }

    fn init(&mut self) -> (r: Result<(), StoreError>) {
        proof {
            use_type_invariant(&*self);
        }
        Ok(())
    }

    fn insert(&mut self, s: Switch) -> (r: Result<(), StoreError>) {
        proof {
            use_type_invariant(&*self);
        }
        let mut index = Index::new();
        std::mem::swap(&mut self.index, &mut index);
        index.insert(s);
        std::mem::swap(&mut self.index, &mut index);
        Ok(())
    }

    fn expired(&mut self, when: Timestamp) -> (r: Result<Vec<Switch>, StoreError>) {
        proof {
            use_type_invariant(&*self);
        }
        let mut index = Index::new();
        std::mem::swap(&mut self.index, &mut index);
        let list = index.expired(when);
        std::mem::swap(&mut self.index, &mut index);
        Ok(list)
    }

    fn take(&mut self, name: &str) -> (r: Result<Option<Switch>, StoreError>) {
        proof {
            use_type_invariant(&*self);
        }
        let wanted = name.to_owned();
        let mut index = Index::new();
        std::mem::swap(&mut self.index, &mut index);
        let found = index.take(&wanted);
        std::mem::swap(&mut self.index, &mut index);
        Ok(found)
    }

    fn all(&self) -> (r: Result<Vec<Switch>, StoreError>) {
        proof {
            use_type_invariant(self);
        }
        Ok(self.index.all())
    }
}

} // verus!
