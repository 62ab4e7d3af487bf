use pyo3_gevent::delivery::{Delivery, Method};
use pyo3_gevent::lifecycle::{End, Lifecycle};

#[test]
fn fresh_pair_is_alive_and_open() {
    let l = Lifecycle::new();
    assert!(l.is_alive(End::Sender));
    assert!(l.is_alive(End::Receiver));
    assert!(!l.is_completed());
}

#[test]
fn destroyed_after_sender_then_receiver() {
    let mut l = Lifecycle::new();
    assert!(!l.release(End::Sender));
    assert!(!l.is_alive(End::Sender));
    assert!(l.is_alive(End::Receiver));
    assert!(l.release(End::Receiver));
    assert!(!l.is_alive(End::Receiver));
}

#[test]
fn destroyed_after_receiver_then_sender() {
    let mut l = Lifecycle::new();
    assert!(!l.release(End::Receiver));
    assert!(l.release(End::Sender));
}

#[test]
fn completing_with_a_value_sets_it() {
    let mut l = Lifecycle::new();
    let d = l.complete(true);
    assert!(l.is_completed());
    assert_eq!(d, Delivery { method: Method::SetValue, none_before_payload: false, through_loop: false });
    assert!(!l.release(End::Sender));
    assert!(l.is_completed());
    assert!(l.release(End::Receiver));
}

#[test]
fn completing_with_an_error_hands_it_to_handle_error() {
    let mut l = Lifecycle::new();
    let d = l.complete(false);
    assert_eq!(d, Delivery { method: Method::HandleError, none_before_payload: true, through_loop: false });
    assert!(l.is_alive(End::Receiver));
}

#[test]
fn receiver_may_go_before_completion() {
    let mut l = Lifecycle::new();
    assert!(!l.release(End::Receiver));
    let d = l.complete(true);
    assert_eq!(d.method, Method::SetValue);
    assert!(l.release(End::Sender));
}
