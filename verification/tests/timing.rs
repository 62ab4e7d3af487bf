use pyo3_gevent::timing::{nanos_from_epoch, Timings};
use std::collections::HashMap;

fn as_map(entries: Vec<(String, u128)>) -> HashMap<String, u128> {
    let n = entries.len();
    let m: HashMap<String, u128> = entries.into_iter().collect();
    assert_eq!(m.len(), n, "a name was exported twice");
    m
}

#[test]
fn new_registry_is_empty() {
    let t = Timings::new();
    assert!(t.get_timings().is_empty());
}

#[test]
fn added_timings_are_read_back() {
    let mut t = Timings::new();
    t.add_timing("start", 10);
    t.add_timing("end", 25);
    let m = as_map(t.get_timings());
    assert_eq!(m.len(), 2);
    assert_eq!(m["start"], 10);
    assert_eq!(m["end"], 25);
}

#[test]
fn last_time_under_a_name_wins() {
    let mut t = Timings::new();
    t.add_timing("step", 1);
    t.add_timing("other", 2);
    t.add_timing("step", 3);
    let m = as_map(t.get_timings());
    assert_eq!(m.len(), 2);
    assert_eq!(m["step"], 3);
    assert_eq!(m["other"], 2);
}

#[test]
fn epoch_itself_is_zero() {
    let mut t = Timings::new();
    t.add_timing("epoch", nanos_from_epoch(true, 0, 0));
    let m = as_map(t.get_timings());
    assert_eq!(m["epoch"], 0);
}

#[test]
fn nanos_after_and_before_epoch() {
    assert_eq!(nanos_from_epoch(true, 2, 5), 2_000_000_005);
    assert_eq!(nanos_from_epoch(false, 1, 500), -1_000_000_500);
    assert_eq!(nanos_from_epoch(true, u64::MAX, 999_999_999), (u64::MAX as i128) * 1_000_000_000 + 999_999_999);
}

#[test]
fn nanos_agree_with_system_time() {
    let d = std::time::Duration::new(1_700_000_000, 123_456_789);
    let time = std::time::UNIX_EPOCH + d;
    let since = time.duration_since(std::time::UNIX_EPOCH).unwrap();
    let n = nanos_from_epoch(true, since.as_secs(), since.subsec_nanos());
    assert_eq!(n as u128, since.as_nanos());
}

#[test]
fn times_before_epoch_are_detected() {
    let mut t = Timings::new();
    assert!(t.all_since_epoch());
    t.add_timing("after", 5);
    assert!(t.all_since_epoch());
    t.add_timing("before", nanos_from_epoch(false, 3, 0));
    assert!(!t.all_since_epoch());
    t.add_timing("before", 0);
    assert!(t.all_since_epoch());
}

#[test]
fn count_grows_only_for_new_names() {
    let mut t = Timings::new();
    t.add_timing("a", 1);
    assert_eq!(t.get_timings().len(), 1);
    t.add_timing("b", 2);
    assert_eq!(t.get_timings().len(), 2);
    t.add_timing("a", 3);
    assert_eq!(t.get_timings().len(), 2);
}
