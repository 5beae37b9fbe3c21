//! The single-flight command cache: one spawn per key, memoized
//! failures, and isolation between keys.

use auraline::cmd::{CmdCache, CmdPoll};

fn args(xs: &[&str]) -> Vec<String> {
    xs.iter().map(|s| s.to_string()).collect()
}

#[test]
fn failed_command_is_memoized_and_not_respawned() {
    let mut cache = CmdCache::new();
    let a = args(&[]);
    match cache.poll("nonexistent-cmd", &a) {
        CmdPoll::Spawn => {}
        _ => panic!("first poll must claim the spawn"),
    }
    // The spawn failed: the failure is memoized as None.
    cache.complete("nonexistent-cmd", &a, None);
    match cache.poll("nonexistent-cmd", &a) {
        CmdPoll::Ready(v) => assert_eq!(v, None),
        _ => panic!("second poll must see the memoized failure, not spawn again"),
    }
}

#[test]
fn concurrent_pollers_share_one_spawn() {
    let mut cache = CmdCache::new();
    let a = args(&["status", "--porcelain"]);
    match cache.poll("git", &a) {
        CmdPoll::Spawn => {}
        _ => panic!("first poller spawns"),
    }
    for _ in 0..5 {
        match cache.poll("git", &a) {
            CmdPoll::Wait => {}
            _ => panic!("pollers during the spawn wait"),
        }
    }
    // The raw capture carries a trailing newline; the cache trims it.
    cache.complete("git", &a, Some("?? file\n".to_string()));
    for _ in 0..5 {
        match cache.poll("git", &a) {
            CmdPoll::Ready(v) => assert_eq!(v, Some("?? file".to_string())),
            _ => panic!("every later poller sees the identical result"),
        }
    }
}

#[test]
fn a_failing_key_leaves_other_keys_untouched() {
    let mut cache = CmdCache::new();
    let a = args(&["a"]);
    let b = args(&["b"]);
    match cache.poll("prog", &a) {
        CmdPoll::Spawn => {}
        _ => panic!(),
    }
    cache.complete("prog", &a, Some("ok".to_string()));
    match cache.poll("prog", &b) {
        CmdPoll::Spawn => {}
        _ => panic!("different arguments are a different key"),
    }
    cache.complete("prog", &b, None);
    match cache.poll("prog", &a) {
        CmdPoll::Ready(v) => assert_eq!(v, Some("ok".to_string())),
        _ => panic!("key A is unaffected by key B's failure"),
    }
}

#[test]
fn keys_compare_by_exact_value() {
    let mut cache = CmdCache::new();
    match cache.poll("git", &args(&["a", "b"])) {
        CmdPoll::Spawn => {}
        _ => panic!(),
    }
    match cache.poll("git", &args(&["b", "a"])) {
        CmdPoll::Spawn => {}
        _ => panic!("argument order is part of the key"),
    }
    match cache.poll("hg", &args(&["a", "b"])) {
        CmdPoll::Spawn => {}
        _ => panic!("the program is part of the key"),
    }
}
