use twitter_clone::db::ScyllaConnectionManager;
use twitter_clone::pool::{Acquire, SessionPool};

#[test]
fn pool_opens_up_to_capacity_then_waits() {
    let mut p = SessionPool::new(2);
    assert_eq!(p.begin_acquire(), Acquire::Connect(0));
    assert!(p.finish_connect(0, true));
    assert_eq!(p.begin_acquire(), Acquire::Connect(1));
    assert!(!p.finish_connect(1, false));
    assert_eq!(p.begin_acquire(), Acquire::Connect(2));
    assert!(p.finish_connect(2, true));
    assert_eq!(p.begin_acquire(), Acquire::Wait);
}

#[test]
fn released_session_is_validated_before_reuse() {
    let mut p = SessionPool::new(1);
    assert_eq!(p.begin_acquire(), Acquire::Connect(0));
    assert!(p.finish_connect(0, true));
    assert!(p.release(0, false));
    assert!(!p.release(0, false));
    assert_eq!(p.begin_acquire(), Acquire::Validate(0));
    assert!(p.finish_validate(0, true));
    assert_eq!(p.begin_acquire(), Acquire::Wait);
}

#[test]
fn failed_session_is_not_handed_out_again() {
    let mut p = SessionPool::new(1);
    assert_eq!(p.begin_acquire(), Acquire::Connect(0));
    assert!(p.finish_connect(0, true));
    assert!(p.release(0, false));
    assert_eq!(p.begin_acquire(), Acquire::Validate(0));
    assert!(!p.finish_validate(0, false));
    assert!(!p.finish_validate(0, true));
    assert_eq!(p.begin_acquire(), Acquire::Connect(1));
}

#[test]
fn broken_session_is_dropped_on_release() {
    let mut p = SessionPool::new(1);
    assert_eq!(p.begin_acquire(), Acquire::Connect(0));
    assert!(p.finish_connect(0, true));
    assert!(p.release(0, true));
    assert_eq!(p.begin_acquire(), Acquire::Connect(1));
}

#[test]
fn manager_keeps_its_node() {
    let m = ScyllaConnectionManager::new("127.0.0.1:9042".to_string());
    assert_eq!(m.node(), "127.0.0.1:9042");
}
