use vstd::prelude::*;

verus! {

/// The gevent object that receives the outcome of a computation run outside
/// the hub.
#[derive(PartialEq, Eq, Structural, Clone, Copy, Debug)]
pub enum Recipient {
    /// A `gevent.event.AsyncResult`.
    AsyncResult,
    /// A `gevent.hub.Waiter`.
    Waiter,
    /// A greenlet that waits to be switched back to.
    Greenlet,
    /// A `ThreadResult`, which may be completed from any thread.
    ThreadResult,
}

/// The method of the recipient that receives the outcome.
#[derive(PartialEq, Eq, Structural, Clone, Copy, Debug)]
pub enum Method {
    /// `set(value)`
    SetValue,
    /// `set_exception(error)`
    SetException,
    /// `switch(value)`
    Switch,
    /// `throw(error)`
    Throw,
    /// `handle_error(None, error)`
    HandleError,
}

/// How an outcome is handed to its recipient.
#[derive(PartialEq, Eq, Structural, Clone, Copy, Debug)]
pub struct Delivery {
    /// The method that is called with the outcome.
    pub method: Method,
    /// Whether `None` is passed before the outcome (the context argument of
    /// `handle_error`).
    pub none_before_payload: bool,
    /// Whether the call is scheduled on the hub's loop with
    /// `run_callback_threadsafe` rather than made directly.
    pub through_loop: bool,
}

/// The Python name of a method.
pub open spec fn method_name(m: Method) -> Seq<char> {
    match m {
        Method::SetValue => "set"@,
        Method::SetException => "set_exception"@,
        Method::Switch => "switch"@,
        Method::Throw => "throw"@,
        Method::HandleError => "handle_error"@,
    }
}

/// The methods that carry a value rather than an error.
pub open spec fn is_success_method(m: Method) -> bool {
    m == Method::SetValue || m == Method::Switch
}

/// How the outcome of a computation reaches each kind of recipient: a value
/// through `set` or `switch`, an error through `set_exception`, `throw` or
/// `handle_error(None, ..)`; everything but a `ThreadResult` is called from
/// the hub's loop.
pub open spec fn delivery_for(recipient: Recipient, succeeded: bool) -> Delivery {
    match recipient {
        Recipient::AsyncResult => Delivery {
            method: if succeeded { Method::SetValue } else { Method::SetException },
            none_before_payload: false,
            through_loop: true,
        },
        Recipient::Waiter | Recipient::Greenlet => Delivery {
            method: if succeeded { Method::Switch } else { Method::Throw },
            none_before_payload: false,
            through_loop: true,
        },
        Recipient::ThreadResult => Delivery {
            method: if succeeded { Method::SetValue } else { Method::HandleError },
            none_before_payload: !succeeded,
            through_loop: false,
        },
    }
}

impl Method {
    /// The Python name of the method.
    pub fn name(&self) -> (s: &'static str)
        ensures
            s@ == method_name(*self),
    {
        match self {
            Method::SetValue => "set",
            Method::SetException => "set_exception",
            Method::Switch => "switch",
            Method::Throw => "throw",
            Method::HandleError => "handle_error",
        }
    }
}

/// How the outcome of a computation, successful or not, is handed to `recipient`.
pub fn plan_delivery(recipient: Recipient, succeeded: bool) -> (d: Delivery)
    ensures
        d == delivery_for(recipient, succeeded),
{
    match recipient {
        Recipient::AsyncResult => Delivery {
            method: if succeeded { Method::SetValue } else { Method::SetException },
            none_before_payload: false,
            through_loop: true,
        },
        Recipient::Waiter | Recipient::Greenlet => Delivery {
            method: if succeeded { Method::Switch } else { Method::Throw },
            none_before_payload: false,
            through_loop: true,
        },
        Recipient::ThreadResult => Delivery {
            method: if succeeded { Method::SetValue } else { Method::HandleError },
            none_before_payload: !succeeded,
            through_loop: false,
        },
    }
}

/// How a spawned task that drove a computation to a `ThreadResult` ended.
#[derive(PartialEq, Eq, Structural, Clone, Copy, Debug)]
pub enum TaskEnd {
    /// The task ran to its end; it delivered the outcome itself.
    Finished,
    /// The task panicked before it could deliver anything.
    Panicked,
    /// The task was cancelled.
    Cancelled,
}

/// What is still owed to the `ThreadResult` once its task has ended: only a
/// panic is reported, as an error.
pub open spec fn owed_after_task(end: TaskEnd) -> Option<Delivery> {
    if end == TaskEnd::Panicked {
        Some(delivery_for(Recipient::ThreadResult, false))
    } else {
        None
    }
}

/// How many completion calls the `ThreadResult` of a spawned computation
/// receives in all: the task delivers the outcome itself when it runs to its
/// end, and whatever is owed after the task ended is delivered once more.
pub open spec fn completions_for_task(end: TaskEnd) -> nat {
    (if end == TaskEnd::Finished { 1nat } else { 0nat })
        + (if owed_after_task(end) is Some { 1nat } else { 0nat })
}

/// What is still owed to the `ThreadResult` once its task has ended.
pub fn delivery_after_task(end: TaskEnd) -> (d: Option<Delivery>)
    ensures
        d == owed_after_task(end),
{
    match end {
        TaskEnd::Panicked => Some(plan_delivery(Recipient::ThreadResult, false)),
        _ => None,
    }
}

/// Every recipient gets a value through a value method and an error through an
/// error method, so the two outcomes never reach the same method.
pub proof fn lemma_outcomes_reach_distinct_methods(recipient: Recipient)
    ensures
        is_success_method(delivery_for(recipient, true).method),
        !is_success_method(delivery_for(recipient, false).method),
        delivery_for(recipient, true).method != delivery_for(recipient, false).method,
        !delivery_for(recipient, true).none_before_payload,
{
}

/// A `ThreadResult` fed by a spawned task is completed at most once, and
/// exactly once unless the task was cancelled; a completion that follows a
/// panic carries an error.
pub proof fn lemma_task_completes_at_most_once(end: TaskEnd)
    ensures
        completions_for_task(end) <= 1,
        completions_for_task(end) == 1 <==> end != TaskEnd::Cancelled,
        end == TaskEnd::Finished ==> owed_after_task(end) is None,
        owed_after_task(end) matches Some(d) ==> !is_success_method(d.method),
{
}

/// The recipient, not the outcome, decides whether the call goes through the
/// hub's loop.
pub proof fn lemma_loop_depends_on_recipient_only(recipient: Recipient)
    ensures
        delivery_for(recipient, true).through_loop == delivery_for(recipient, false).through_loop,
        delivery_for(recipient, true).through_loop <==> recipient != Recipient::ThreadResult,
{
}

} // verus!
