use condemn::stores::redis::{collect, first, Arg, Query};
use condemn::stores::RedisStore;
use condemn::switch::Switch;
use condemn::time::Timestamp;

fn at(secs: i64, nanos: u32) -> Timestamp {
    Timestamp::new(secs, nanos).unwrap()
}

fn switch(name: &str, deadline: Timestamp) -> Switch {
    Switch::new(name.to_string(), deadline, None).unwrap()
}

fn text(s: &str) -> Arg {
    Arg::Text(s.to_string())
}

fn query(verb: &str, args: Vec<Arg>, ignored: bool) -> Query {
    Query { verb: verb.to_string(), args, ignored }
}

#[test]
fn new_keeps_the_url() {
    let store = RedisStore::new("redis://127.0.0.1:6379");
    assert_eq!(store.url(), "redis://127.0.0.1:6379");
}

#[test]
fn insert_sets_the_payload_and_the_score() {
    let store = RedisStore::new("redis://127.0.0.1:6379");
    let s = switch("backup", at(1_700_000_060, 999_999_999));
    let plan = store.insert(&s, "{\"name\":\"backup\"}".to_string());
    assert_eq!(
        plan,
        vec![
            query(
                "HSET",
                vec![text("condemn_h"), text("backup"), text("{\"name\":\"backup\"}")],
                false
            ),
            query(
                "ZADD",
                vec![text("condemn_z"), Arg::Number(1_700_000_060), text("backup")],
                false
            ),
        ]
    );
}

#[test]
fn insert_scores_by_the_second_also_before_the_epoch() {
    let store = RedisStore::new("redis://h");
    let plan = store.insert(&switch("old", at(-2, 500_000_000)), "p".to_string());
    assert_eq!(plan[1].args[1], Arg::Number(-2));
}

#[test]
fn expired_reads_and_removes_the_range() {
    let store = RedisStore::new("redis://h");
    let plan = store.expired(at(1_700_000_000, 5));
    assert_eq!(
        plan,
        vec![
            query(
                "ZRANGEBYSCORE",
                vec![text("condemn_z"), text("-inf"), Arg::Number(1_700_000_000)],
                false
            ),
            query(
                "ZREMRANGEBYSCORE",
                vec![text("condemn_z"), text("-inf"), Arg::Number(1_700_000_000)],
                true
            ),
        ]
    );
}

#[test]
fn take_multi_reads_and_removes_the_names() {
    let store = RedisStore::new("redis://h");
    let plan = store.take_multi(&vec!["a".to_string(), "b c".to_string()]);
    assert_eq!(
        plan,
        vec![
            query("HMGET", vec![text("condemn_h"), text("a"), text("b c")], false),
            query("HDEL", vec![text("condemn_h"), text("a"), text("b c")], true),
            query("ZREM", vec![text("condemn_z"), text("a"), text("b c")], true),
        ]
    );
}

#[test]
fn take_multi_of_no_names() {
    let store = RedisStore::new("redis://h");
    let plan = store.take_multi(&vec![]);
    assert_eq!(
        plan,
        vec![
            query("HMGET", vec![text("condemn_h")], false),
            query("HDEL", vec![text("condemn_h")], true),
            query("ZREM", vec![text("condemn_z")], true),
        ]
    );
}

#[test]
fn take_is_take_multi_of_one_name() {
    let store = RedisStore::new("redis://h");
    assert_eq!(store.take("job"), store.take_multi(&vec!["job".to_string()]));
    assert_eq!(store.take("job")[0], query("HMGET", vec![text("condemn_h"), text("job")], false));
}

#[test]
fn all_reads_the_hash() {
    let store = RedisStore::new("redis://h");
    assert_eq!(store.all(), vec![query("HGETALL", vec![text("condemn_h")], false)]);
}

#[test]
fn collect_leaves_out_what_could_not_be_read() {
    let a = switch("a", at(1, 0));
    let b = switch("b", at(2, 0));
    assert_eq!(collect(vec![]), vec![]);
    assert_eq!(collect(vec![None, None]), vec![]);
    assert_eq!(
        collect(vec![None, Some(a.clone()), None, Some(b.clone()), None]),
        vec![a.clone(), b.clone()]
    );
    assert_eq!(collect(vec![Some(b.clone()), Some(a.clone())]), vec![b, a]);
}

#[test]
fn first_is_the_first_that_could_be_read() {
    let a = switch("a", at(1, 0));
    let b = switch("b", at(2, 0));
    assert_eq!(first(vec![]), None);
    assert_eq!(first(vec![None]), None);
    assert_eq!(first(vec![Some(a.clone())]), Some(a.clone()));
    assert_eq!(first(vec![None, Some(b.clone()), Some(a.clone())]), Some(b));
}
