use hydra::error::{Error, RetryError};
use hydra::retry::{wait_millis, Retry, RetryStep};

#[test]
fn a_series_has_twenty_retries() {
    for _ in 0..50 {
        let mut retry = Retry::new();
        let mut waits = 0;
        loop {
            match retry.after_failure(Error::Url(format!("attempt {}", waits))) {
                RetryStep::Wait(next, millis) => {
                    let longest = match waits {
                        0 => 5050,
                        1 => 7500,
                        _ => 10000,
                    };
                    assert!(5000 <= millis && millis <= longest, "{} {}", waits, millis);
                    waits += 1;
                    retry = next;
                }
                RetryStep::GiveUp(end) => {
                    assert_eq!(waits, 20);
                    let last = Error::Url(String::from("attempt 20"));
                    assert_eq!(end, RetryError::OperationError(last));
                    break;
                }
            }
        }
    }
}

#[test]
fn delays_are_random() {
    let mut seen: Vec<u64> = Vec::new();
    for _ in 0..20 {
        let mut retry = Retry::new();
        for _ in 0..3 {
            match retry.after_failure(Error::Timeout) {
                RetryStep::Wait(next, millis) => {
                    retry = next;
                    if !seen.contains(&millis) {
                        seen.push(millis);
                    }
                }
                RetryStep::GiveUp(_) => panic!(),
            }
        }
    }
    assert!(seen.len() > 10);
}

#[test]
fn five_seconds_are_waited_in_any_case() {
    assert_eq!(wait_millis(0), 5000);
    assert_eq!(wait_millis(2500), 7500);
}

#[test]
fn the_random_part_of_a_delay_grows() {
    let mut retry = Retry::new();
    for failures in 0..20u64 {
        let longest = match failures {
            0 => 50,
            1 => 2500,
            _ => 5000,
        };
        assert_eq!(retry.longest_random(), longest);
        match retry.after_failure_with(Error::Timeout, failures) {
            RetryStep::Wait(next, millis) => {
                assert_eq!(millis, 5000 + failures);
                retry = next;
            }
            RetryStep::GiveUp(_) => panic!(),
        }
    }
    assert_eq!(
        retry.after_failure_with(Error::Timeout, 0),
        RetryStep::GiveUp(RetryError::OperationError(Error::Timeout))
    );
}
