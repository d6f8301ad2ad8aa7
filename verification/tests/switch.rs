use condemn::switch::Switch;
use condemn::time::Timestamp;

fn at(secs: i64, nanos: u32) -> Timestamp {
    Timestamp::new(secs, nanos).unwrap()
}

#[test]
fn switch_without_a_window() {
    let s = Switch::new("backup".to_string(), at(60, 0), None).unwrap();
    assert_eq!(s.name(), "backup");
    assert_eq!(s.deadline(), at(60, 0));
    assert_eq!(s.window_start(), None);
}

#[test]
fn switch_with_a_window_before_the_deadline() {
    let s = Switch::new("job".to_string(), at(10, 0), Some(at(8, 0))).unwrap();
    assert_eq!(s.deadline(), at(10, 0));
    assert_eq!(s.window_start(), Some(at(8, 0)));
}

#[test]
fn window_may_start_at_the_deadline() {
    let s = Switch::new("job".to_string(), at(10, 5), Some(at(10, 5))).unwrap();
    assert_eq!(s.window_start(), Some(at(10, 5)));
}

#[test]
fn window_must_not_start_after_the_deadline() {
    assert!(Switch::new("job".to_string(), at(10, 0), Some(at(10, 1))).is_none());
    assert!(Switch::new("job".to_string(), at(10, 0), Some(at(11, 0))).is_none());
}

#[test]
fn clone_is_equal() {
    let s = Switch::new("job".to_string(), at(10, 0), Some(at(8, 0))).unwrap();
    let c = s.clone();
    assert_eq!(s, c);
    assert_eq!(c.name(), "job");
    assert_eq!(c.deadline(), at(10, 0));
    assert_eq!(c.window_start(), Some(at(8, 0)));
}
