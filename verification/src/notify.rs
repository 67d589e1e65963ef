//! The notification plan around one job execution.
//!
//! The scheduler wraps every dispatched execution with lifecycle
//! notifications: one start message, then exactly one terminal message,
//! success or failure. The plan is fixed here; an asynchronous runtime
//! delivers the messages to whatever transport is configured, and delivery
//! failures are its own to log and swallow, never to escalate.

use vstd::prelude::*;

verus! {

#[derive(Clone, Copy, PartialEq, Eq, Structural, Debug)]
pub enum Phase {
    Start,
    Success,
    Failure,
}

/// An ephemeral lifecycle message: which job, which phase, and an optional
/// detail (the error text of a failed execution).
pub struct Notification {
    pub job_name: String,
    pub phase: Phase,
    pub detail: Option<String>,
}

/// The notifications owed for one execution of `job_name` that ended in
/// `outcome`: exactly one start, then exactly one terminal notification —
/// success without detail, or failure carrying the error text — and no
/// others, in that order.
pub fn lifecycle_notifications(job_name: &str, outcome: &Result<(), String>) -> (ns: Vec<
    Notification,
>)
    ensures
        ns@.len() == 2,
        ns@[0].job_name@ == job_name@,
        ns@[0].phase == Phase::Start,
        ns@[0].detail is None,
        ns@[1].job_name@ == job_name@,
        outcome is Ok ==> ns@[1].phase == Phase::Success && ns@[1].detail is None,
        outcome matches Err(m) ==> ns@[1].phase == Phase::Failure && (ns@[1].detail matches Some(d)
            && d@ == m@),
{
    let mut ns: Vec<Notification> = Vec::new();
    ns.push(Notification { job_name: job_name.to_owned(), phase: Phase::Start, detail: None });
    match outcome {
        Ok(_) => {
            ns.push(
                Notification { job_name: job_name.to_owned(), phase: Phase::Success, detail: None },
            );
        },
        Err(m) => {
            ns.push(
                Notification {
                    job_name: job_name.to_owned(),
                    phase: Phase::Failure,
                    detail: Some(m.clone()),
                },
            );
        },
    }
    ns
}

} // verus!
