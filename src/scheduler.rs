//! The decisions of the scheduler loop. The loop itself (locking the queue,
//! sleeping, sending on the delivery channel) is run by the caller, which
//! performs each step's action and reports back what happened.
use vstd::prelude::*;
use crate::alarm::{wait_spec, Alarm};
use crate::queue::AlarmQueue;

verus! {

/// How long the loop sleeps, in milliseconds, when no alarm is pending.
pub const POLL_INTERVAL_MS: u64 = 1000;

/// What the loop does after polling the queue.
#[derive(Debug)]
pub enum Step {
    /// Nothing was pending: sleep `sleep_ms` milliseconds, then poll again.
    Idle { sleep_ms: u64 },
    /// The earliest alarm was taken out of the queue: wait `wait_ms`
    /// milliseconds, then deliver it. It can no longer be removed by name.
    Fire { alarm: Alarm, wait_ms: u64 },
}

/// What the loop does after trying to deliver an alarm.
#[derive(Debug, PartialEq, Eq, Structural, Clone, Copy)]
pub enum Control {
    /// The alarm was delivered: poll the queue again.
    Continue,
    /// The consumer has gone: stop the loop.
    Stop,
}

/// One poll of the queue at time `now_ms`: takes out the earliest alarm and
/// says how long to wait for it (nothing when it is overdue), or, when the
/// queue is empty, says to sleep for the polling interval.
pub fn poll(queue: &mut AlarmQueue, now_ms: i64) -> (r: Step)
    requires
        old(queue).wf(),
    ensures
        final(queue).wf(),
        old(queue)@.len() == 0 ==> r is Idle && r->sleep_ms == POLL_INTERVAL_MS && final(queue)@
            == old(queue)@,
        old(queue)@.len() > 0 ==> r is Fire && r->alarm@ == old(queue)@[0] && r->wait_ms as int
            == wait_spec(old(queue)@[0].due, now_ms as int) && final(queue)@
            == old(queue)@.drop_first(),
{
    match queue.pop_minimum() {
        Some(alarm) => {
            let wait_ms = alarm.wait_from(now_ms);
            Step::Fire { alarm, wait_ms }
        },
        None => Step::Idle { sleep_ms: POLL_INTERVAL_MS },
    }
}

/// The loop goes on after a delivery that reached the consumer, and stops
/// for good after one that failed because the consumer has gone.
pub fn after_delivery(delivered: bool) -> (r: Control)
    ensures
        r == (if delivered {
            Control::Continue
        } else {
            Control::Stop
        }),
{
    if delivered {
        Control::Continue
    } else {
        Control::Stop
    }
}

} // verus!
