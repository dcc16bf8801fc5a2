use pericortex::naming::{decimal_text, pool_identities, tcp_address, worker_identity};
use std::collections::HashSet;

#[test]
fn decimal_digits() {
    assert_eq!(decimal_text(0), "0");
    assert_eq!(decimal_text(7), "7");
    assert_eq!(decimal_text(10), "10");
    assert_eq!(decimal_text(1234567), "1234567");
    assert_eq!(decimal_text(usize::MAX), usize::MAX.to_string());
}

#[test]
fn identity_is_zero_padded_below_ten() {
    assert_eq!(worker_identity("box", "engrafo", 1), "box:engrafo:01");
    assert_eq!(worker_identity("box", "engrafo", 9), "box:engrafo:09");
    assert_eq!(worker_identity("box", "engrafo", 10), "box:engrafo:10");
    assert_eq!(worker_identity("box", "engrafo", 123), "box:engrafo:123");
    assert_eq!(worker_identity("box", "engrafo", 0), "box:engrafo:00");
}

#[test]
fn pool_identities_are_distinct() {
    let ids = pool_identities("host", "echo_service", 12);
    assert_eq!(ids.len(), 12);
    assert_eq!(ids[0], "host:echo_service:01");
    assert_eq!(ids[8], "host:echo_service:09");
    assert_eq!(ids[9], "host:echo_service:10");
    assert_eq!(ids[11], "host:echo_service:12");
    let set: HashSet<&String> = ids.iter().collect();
    assert_eq!(set.len(), 12);
}

#[test]
fn single_thread_pool() {
    assert_eq!(pool_identities("h", "s", 1), vec!["h:s:01".to_string()]);
    assert!(pool_identities("h", "s", 0).is_empty());
}

#[test]
fn tcp_address_of_host_and_port() {
    assert_eq!(tcp_address("127.0.0.1", 51695), "tcp://127.0.0.1:51695");
    assert_eq!(tcp_address("131.188.48.209", 51696), "tcp://131.188.48.209:51696");
}
