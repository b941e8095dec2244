use rust_grpc_proxy::backoff::{Backoff, INITIAL_DELAY_SECS, MAX_DELAY_SECS};

#[test]
fn fresh_policy_starts_at_one_second() {
    assert_eq!(INITIAL_DELAY_SECS, 1);
    assert_eq!(MAX_DELAY_SECS, 30);
    assert_eq!(Backoff::new().delay_secs(), 1);
}

#[test]
fn delays_double_up_to_thirty_seconds() {
    let mut backoff = Backoff::new();
    let mut slept = Vec::new();
    for _ in 0..8 {
        slept.push(backoff.fail());
    }
    assert_eq!(slept, vec![1, 2, 4, 8, 16, 30, 30, 30]);
    assert_eq!(backoff.delay_secs(), 30);
}

#[test]
fn success_resets_the_delay() {
    let mut backoff = Backoff::new();
    for _ in 0..4 {
        backoff.fail();
    }
    assert_eq!(backoff.delay_secs(), 16);
    backoff.succeed();
    assert_eq!(backoff, Backoff::new());
    assert_eq!(backoff.fail(), 1);
    assert_eq!(backoff.delay_secs(), 2);
}

#[test]
fn success_of_a_fresh_policy_changes_nothing() {
    let mut backoff = Backoff::new();
    backoff.succeed();
    assert_eq!(backoff.delay_secs(), 1);
}
