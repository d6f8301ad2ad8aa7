//! The store that lives in a Redis server, as far as it can be told without
//! talking to the server: which commands make up each operation, and what
//! the replies amount to.
//!
//! The server holds a sorted set that orders the names by the second of
//! their deadline, and a hash that maps each name to the serialized switch.
//! Every operation is one or two transactions, each a list of commands that
//! the server carries out as one.

use crate::notifiers::texts;
use crate::stores::views;
use crate::switch::{Switch, SwitchView};
use crate::time::{whole_secs, Timestamp};
use vstd::prelude::*;

verus! {

/// Whether `redis::parse_redis_url` takes `input` for the URL of a server.
pub uninterp spec fn redis_url(input: Seq<char>) -> bool;

/// `redis::parse_redis_url`: whether it returns a URL for `input`, which depends on
/// `input` alone.
#[verifier::external_body]
pub(crate) fn parses(input: &str) -> (r: bool)
    ensures
        r == redis_url(input@),
{
    redis::parse_redis_url(input).is_some()
}

/// The key of the sorted set that orders the names by deadline.
pub open spec fn ordered_key() -> Seq<char> {
    "condemn_z"@
}

/// The key of the hash that maps each name to its serialized switch.
pub open spec fn switch_key() -> Seq<char> {
    "condemn_h"@
}

/// One argument of a command.
#[derive(Clone, Debug, PartialEq, Eq)]
pub enum Arg {
    Text(String),
    Number(i64),
}

/// An argument, as the contracts speak of it.
pub enum ArgView {
    Text(Seq<char>),
    Number(int),
}

impl View for Arg {
    type V = ArgView;

    open spec fn view(&self) -> ArgView {
        match *self {
            Arg::Text(text) => ArgView::Text(text@),
            Arg::Number(number) => ArgView::Number(number as int),
        }
    }
}

/// The arguments of a list, each as the contracts speak of it.
pub open spec fn arg_views(args: Seq<Arg>) -> Seq<ArgView> {
    Seq::new(args.len(), |i: int| args[i]@)
}

/// One command of a transaction. The reply to a command that is `ignored` is left out of
/// the reply to the transaction.
#[derive(Clone, Debug, PartialEq, Eq)]
pub struct Query {
    pub verb: String,
    pub args: Vec<Arg>,
    pub ignored: bool,
}

/// A command, as the contracts speak of it.
pub struct QueryView {
    pub verb: Seq<char>,
    pub args: Seq<ArgView>,
    pub ignored: bool,
}

impl View for Query {
    type V = QueryView;

    open spec fn view(&self) -> QueryView {
        QueryView { verb: self.verb@, args: arg_views(self.args@), ignored: self.ignored }
    }
}

/// The commands of a transaction, each as the contracts speak of it.
pub open spec fn query_views(queries: Seq<Query>) -> Seq<QueryView> {
    Seq::new(queries.len(), |i: int| queries[i]@)
}

/// The names as arguments.
pub open spec fn text_args(names: Seq<Seq<char>>) -> Seq<ArgView> {
    Seq::new(names.len(), |i: int| ArgView::Text(names[i]))
}

/// The transaction that stores a switch: its payload under its name in the hash, and its
/// name in the sorted set under the second of its deadline.
pub open spec fn insert_plan(s: SwitchView, payload: Seq<char>) -> Seq<QueryView> {
    seq![
        QueryView {
            verb: "HSET"@,
            args: seq![
                ArgView::Text(switch_key()),
                ArgView::Text(s.name),
                ArgView::Text(payload),
            ],
            ignored: false,
        },
        QueryView {
            verb: "ZADD"@,
            args: seq![
                ArgView::Text(ordered_key()),
                ArgView::Number(whole_secs(s.deadline)),
                ArgView::Text(s.name),
            ],
            ignored: false,
        },
    ]
}

/// The transaction that reads the names due by the second of `when` and removes them from
/// the sorted set.
pub open spec fn expired_plan(when: int) -> Seq<QueryView> {
    seq![
        QueryView {
            verb: "ZRANGEBYSCORE"@,
            args: seq![
                ArgView::Text(ordered_key()),
                ArgView::Text("-inf"@),
                ArgView::Number(whole_secs(when)),
            ],
            ignored: false,
        },
        QueryView {
            verb: "ZREMRANGEBYSCORE"@,
            args: seq![
                ArgView::Text(ordered_key()),
                ArgView::Text("-inf"@),
                ArgView::Number(whole_secs(when)),
            ],
            ignored: true,
        },
    ]
}

/// The transaction that reads the payloads of these names and removes the names from the
/// hash and from the sorted set.
pub open spec fn take_plan(names: Seq<Seq<char>>) -> Seq<QueryView> {
    seq![
        QueryView {
            verb: "HMGET"@,
            args: seq![ArgView::Text(switch_key())] + text_args(names),
            ignored: false,
        },
        QueryView {
            verb: "HDEL"@,
            args: seq![ArgView::Text(switch_key())] + text_args(names),
            ignored: true,
        },
        QueryView {
            verb: "ZREM"@,
            args: seq![ArgView::Text(ordered_key())] + text_args(names),
            ignored: true,
        },
    ]
}

/// The transaction that reads the whole hash: every name, each followed by its payload.
pub open spec fn all_plan() -> Seq<QueryView> {
    seq![
        QueryView {
            verb: "HGETALL"@,
            args: seq![ArgView::Text(switch_key())],
            ignored: false,
        },
    ]
}

/// The switches among `decoded`, in their order: a payload that could not be read stands
/// there as none, and is left out.
pub open spec fn readable(decoded: Seq<Option<Switch>>) -> Seq<SwitchView>
    decreases decoded.len(),
{
    if decoded.len() == 0 {
        Seq::empty()
    } else {
        match decoded.last() {
            Some(s) => readable(decoded.drop_last()).push(s@),
            None => readable(decoded.drop_last()),
        }
    }
}

/// A store in a Redis server.
pub struct RedisStore {
    url: String,
}

/// A command of that verb that takes `key` and then `names`.
fn keyed(verb: &str, key: &str, names: &Vec<String>, ignored: bool) -> (r: Query)
    ensures
        r@ == (QueryView {
            verb: verb@,
            args: seq![ArgView::Text(key@)] + text_args(texts(names@)),
            ignored,
        }),
{
    let mut args: Vec<Arg> = Vec::new();
    args.push(Arg::Text(String::from_str(key)));
    let mut i: usize = 0;
    while i < names.len()
        invariant
            i <= names@.len(),
            args@.len() == i + 1,
            args@[0]@ == ArgView::Text(key@),
            forall|j: int| 0 <= j < i ==> (#[trigger] args@[j + 1])@ == ArgView::Text(names@[j]@),
        decreases names@.len() - i,
    {
        args.push(Arg::Text(names[i].clone()));
        i += 1;
    }
    let query = Query { verb: String::from_str(verb), args, ignored };
    proof {
        let wanted = seq![ArgView::Text(key@)] + text_args(texts(names@));
        assert(query@.args.len() == wanted.len());
        assert forall|j: int| 0 <= j < wanted.len() implies query@.args[j] == wanted[j] by {
            if j > 0 {
                assert(args@[(j - 1) + 1]@ == ArgView::Text(names@[j - 1]@));
            }
        }
        assert(query@.args =~= wanted);
    }
    query
}

/// A command of that verb on the sorted set, from the lowest score up to `bound`.
fn ranged(verb: &str, bound: i64, ignored: bool) -> (r: Query)
    ensures
        r@ == (QueryView {
            verb: verb@,
            args: seq![
                ArgView::Text(ordered_key()),
                ArgView::Text("-inf"@),
                ArgView::Number(bound as int),
            ],
            ignored,
        }),
{
    let mut args: Vec<Arg> = Vec::new();
    args.push(Arg::Text(String::from_str("condemn_z")));
    args.push(Arg::Text(String::from_str("-inf")));
    args.push(Arg::Number(bound));
    let query = Query { verb: String::from_str(verb), args, ignored };
    assert(query@.args =~= seq![
        ArgView::Text(ordered_key()),
        ArgView::Text("-inf"@),
        ArgView::Number(bound as int),
    ]);
    query
}

impl RedisStore {
    /// Where the server is.
    pub closed spec fn address(&self) -> Seq<char> {
        self.url@
    }

    /// The store in the server at `url`.
    pub fn new(url: &str) -> (r: Self)
        ensures
            r.address() == url@,
    {
        RedisStore { url: url.to_owned() }
    }

    /// Where the server is.
    pub fn url(&self) -> (r: &String)
        ensures
            r@ == self.address(),
    {
        &self.url
    }

    /// The transaction that stores `s`, whose serialized form is `payload`.
    pub fn insert(&self, s: &Switch, payload: String) -> (r: Vec<Query>)
        ensures
            query_views(r@) == insert_plan(s@, payload@),
    {
        let mut set: Vec<Arg> = Vec::new();
        set.push(Arg::Text(String::from_str("condemn_h")));
        set.push(Arg::Text(s.name().clone()));
        set.push(Arg::Text(payload));
        let mut add: Vec<Arg> = Vec::new();
        add.push(Arg::Text(String::from_str("condemn_z")));
        add.push(Arg::Number(s.deadline().secs()));
        add.push(Arg::Text(s.name().clone()));
        let mut plan: Vec<Query> = Vec::new();
        plan.push(Query { verb: String::from_str("HSET"), args: set, ignored: false });
        plan.push(Query { verb: String::from_str("ZADD"), args: add, ignored: false });
        proof {
            let wanted = insert_plan(s@, payload@);
            assert(plan@[0]@.args =~= wanted[0].args);
            assert(plan@[1]@.args =~= wanted[1].args);
            assert(query_views(plan@) =~= wanted);
        }
        plan
    }

    /// The first transaction of an expiry: it yields the names that are due by the second
    /// of `when`. The second transaction takes those names.
    pub fn expired(&self, when: Timestamp) -> (r: Vec<Query>)
        ensures
            query_views(r@) == expired_plan(when@),
    {
        let bound = when.secs();
        let mut plan: Vec<Query> = Vec::new();
        plan.push(ranged("ZRANGEBYSCORE", bound, false));
        plan.push(ranged("ZREMRANGEBYSCORE", bound, true));
        assert(query_views(plan@) =~= expired_plan(when@));
        plan
    }

    /// The transaction that takes the switches of these names: it yields their payloads,
    /// in the order of the names.
    pub fn take_multi(&self, names: &Vec<String>) -> (r: Vec<Query>)
        ensures
            query_views(r@) == take_plan(texts(names@)),
    {
        let mut plan: Vec<Query> = Vec::new();
        plan.push(keyed("HMGET", "condemn_h", names, false));
        plan.push(keyed("HDEL", "condemn_h", names, true));
        plan.push(keyed("ZREM", "condemn_z", names, true));
        assert(query_views(plan@) =~= take_plan(texts(names@)));
        plan
    }

    /// The transaction that takes the switch called `name`.
    pub fn take(&self, name: &str) -> (r: Vec<Query>)
        ensures
            query_views(r@) == take_plan(seq![name@]),
    {
        let mut names: Vec<String> = Vec::new();
        names.push(name.to_owned());
        assert(texts(names@) =~= seq![name@]);
        self.take_multi(&names)
    }

    /// The transaction that yields every name, each followed by its payload. A name is no
    /// payload that can be read, so `collect` leaves the names out.
    pub fn all(&self) -> (r: Vec<Query>)
        ensures
            query_views(r@) == all_plan(),
    {
        let mut args: Vec<Arg> = Vec::new();
        args.push(Arg::Text(String::from_str("condemn_h")));
        let mut plan: Vec<Query> = Vec::new();
        plan.push(Query { verb: String::from_str("HGETALL"), args, ignored: false });
        proof {
            assert(plan@[0]@.args =~= all_plan()[0].args);
            assert(query_views(plan@) =~= all_plan());
        }
        plan
    }
}

/// The switches that a reply amounts to: every payload that could be read, in the order of
/// the reply.
pub fn collect(decoded: Vec<Option<Switch>>) -> (r: Vec<Switch>)
    ensures
        views(r@) == readable(decoded@),
{
    let mut list: Vec<Switch> = Vec::new();
    let mut i: usize = 0;
    while i < decoded.len()
        invariant
            i <= decoded@.len(),
            views(list@) == readable(decoded@.take(i as int)),
        decreases decoded@.len() - i,
    {
        let ghost listed = list@;
        if let Some(s) = &decoded[i] {
            list.push(s.clone());
        }
        proof {
            let upto = decoded@.take(i + 1);
            assert(upto.drop_last() =~= decoded@.take(i as int));
            assert(upto.last() == decoded@[i as int]);
            match decoded@[i as int] {
                Some(s) => {
                    assert(views(list@) =~= views(listed).push(s@));
                },
                None => {},
            }
        }
        i += 1;
    }
    assert(decoded@.take(i as int) =~= decoded@);
    list
}

/// The switch that the reply to taking one name amounts to: the first that could be read.
pub fn first(decoded: Vec<Option<Switch>>) -> (r: Option<Switch>)
    ensures
        r is Some <==> readable(decoded@).len() > 0,
        r matches Some(s) ==> s@ == readable(decoded@)[0],
{
    let mut list = collect(decoded);
    if list.len() > 0 {
        let s = list.swap_remove(0);
        Some(s)
    } else {
        None
    }
}

} // verus!
