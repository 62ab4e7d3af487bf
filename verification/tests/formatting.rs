use pyo3_gevent::formatting::{completion_message, sum_as_string, to_decimal_string, SleepSite};

#[test]
fn sum_of_small_numbers() {
    assert_eq!(sum_as_string(2, 3), "5");
    assert_eq!(sum_as_string(20, 3), "23");
}

#[test]
fn sum_of_zeros_is_zero() {
    assert_eq!(sum_as_string(0, 0), "0");
}

#[test]
fn sum_reaching_the_largest_usize() {
    assert_eq!(sum_as_string(usize::MAX - 1, 1), usize::MAX.to_string());
}

#[test]
fn decimal_matches_std_formatting() {
    for n in [0usize, 1, 9, 10, 11, 99, 100, 101, 1_000_000, 1234567890, 4_294_967_295] {
        assert_eq!(to_decimal_string(n), n.to_string());
    }
}

#[test]
fn completion_message_of_thread_job() {
    assert_eq!(completion_message(7, SleepSite::Thread), "7 complete via thread::sleep!");
    assert_eq!(completion_message(0, SleepSite::Thread), "0 complete via thread::sleep!");
}

#[test]
fn completion_message_of_tokio_job() {
    assert_eq!(completion_message(255, SleepSite::Tokio), "255 complete via tokio!");
    assert_eq!(completion_message(42, SleepSite::Tokio), format!("{} complete via tokio!", 42));
}
