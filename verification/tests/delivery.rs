use pyo3_gevent::delivery::{delivery_after_task, plan_delivery, Delivery, Method, Recipient, TaskEnd};

#[test]
fn async_result_gets_set_or_set_exception_through_loop() {
    assert_eq!(
        plan_delivery(Recipient::AsyncResult, true),
        Delivery { method: Method::SetValue, none_before_payload: false, through_loop: true }
    );
    assert_eq!(
        plan_delivery(Recipient::AsyncResult, false),
        Delivery { method: Method::SetException, none_before_payload: false, through_loop: true }
    );
}

#[test]
fn waiter_and_greenlet_get_switch_or_throw() {
    for r in [Recipient::Waiter, Recipient::Greenlet] {
        assert_eq!(
            plan_delivery(r, true),
            Delivery { method: Method::Switch, none_before_payload: false, through_loop: true }
        );
        assert_eq!(
            plan_delivery(r, false),
            Delivery { method: Method::Throw, none_before_payload: false, through_loop: true }
        );
    }
}

#[test]
fn thread_result_gets_set_or_handle_error_directly() {
    assert_eq!(
        plan_delivery(Recipient::ThreadResult, true),
        Delivery { method: Method::SetValue, none_before_payload: false, through_loop: false }
    );
    assert_eq!(
        plan_delivery(Recipient::ThreadResult, false),
        Delivery { method: Method::HandleError, none_before_payload: true, through_loop: false }
    );
}

#[test]
fn method_names() {
    assert_eq!(Method::SetValue.name(), "set");
    assert_eq!(Method::SetException.name(), "set_exception");
    assert_eq!(Method::Switch.name(), "switch");
    assert_eq!(Method::Throw.name(), "throw");
    assert_eq!(Method::HandleError.name(), "handle_error");
}

#[test]
fn outcomes_never_share_a_method() {
    for r in [Recipient::AsyncResult, Recipient::Waiter, Recipient::Greenlet, Recipient::ThreadResult] {
        assert_ne!(plan_delivery(r, true).method, plan_delivery(r, false).method);
        assert_eq!(plan_delivery(r, true).through_loop, plan_delivery(r, false).through_loop);
    }
}

#[test]
fn only_a_panicked_task_is_reported() {
    assert_eq!(delivery_after_task(TaskEnd::Finished), None);
    assert_eq!(delivery_after_task(TaskEnd::Cancelled), None);
    assert_eq!(
        delivery_after_task(TaskEnd::Panicked),
        Some(Delivery { method: Method::HandleError, none_before_payload: true, through_loop: false })
    );
}

#[test]
fn a_task_completes_its_result_at_most_once() {
    // The finished task delivers by itself, so nothing more is owed.
    assert!(delivery_after_task(TaskEnd::Finished).is_none());
    // A panic is reported once, as an error.
    let d = delivery_after_task(TaskEnd::Panicked).unwrap();
    assert_eq!(d.method, Method::HandleError);
    // A cancelled task completes nothing.
    assert!(delivery_after_task(TaskEnd::Cancelled).is_none());
}
