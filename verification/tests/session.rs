use lampyris::connection::{adb_forward_args, adb_remove_forward_args, connecting_status, connection_target, retry_status, RetryDecision, RetryPolicy, MAX_RETRIES};

#[test]
fn retries_five_times_then_gives_up() {
    let mut p = RetryPolicy::new();
    for n in 1..=MAX_RETRIES {
        assert_eq!(p.on_attempt_end(false, false), RetryDecision::Retry(n));
    }
    assert_eq!(p.on_attempt_end(false, false), RetryDecision::GiveUp);
}

#[test]
fn stop_request_and_clean_end() {
    let mut p = RetryPolicy::new();
    assert_eq!(p.on_attempt_end(false, false), RetryDecision::Retry(1));
    assert_eq!(p.on_attempt_end(false, true), RetryDecision::GiveUp);
    let mut q = RetryPolicy::new();
    assert_eq!(q.on_attempt_end(true, false), RetryDecision::Finished);
}

#[test]
fn usb_connects_to_localhost() {
    let t = connection_target(true, "192.168.1.5", 47999);
    assert_eq!(t.host, "127.0.0.1");
    assert_eq!(t.port, 47999);
    let w = connection_target(false, "192.168.1.5", 1234);
    assert_eq!(w.host, "192.168.1.5");
    assert_eq!(w.port, 1234);
}

#[test]
fn status_texts() {
    assert_eq!(connecting_status(true, "10.0.0.2"), "Waiting for connection...");
    assert_eq!(connecting_status(false, "10.0.0.2"), "Connecting to 10.0.0.2...");
    assert_eq!(retry_status(3), "Retrying (3)...");
    assert_eq!(retry_status(1234567890), "Retrying (1234567890)...");
}

#[test]
fn dial_address_and_adb_arguments() {
    assert_eq!(connection_target(true, "x", 47999).address(), "127.0.0.1:47999");
    assert_eq!(connection_target(false, "192.168.0.7", 0).address(), "192.168.0.7:0");
    assert_eq!(adb_forward_args(8125), vec!["forward", "tcp:8125", "tcp:8125"]);
    assert_eq!(adb_remove_forward_args(65535), vec!["forward", "--remove", "tcp:65535"]);
}
