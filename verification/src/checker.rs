//! The failure-threshold state machine applied to one record per probe.
//!
//! The transition is pure: old record plus probe outcome in, new record plus
//! optional transition event out, so that it can be exercised without any
//! network or concurrency harness.

use vstd::prelude::*;
use crate::service::{RecordModel, ServiceInfo, ServiceStatus};
use crate::events::{DaemonEvent, EventModel};

verus! {

/// Number of consecutive failures at which a service is classified `Down`.
pub const FAILURE_THRESHOLD: u32 = 3;

/// Outcome of one `GET /health` probe: a response with a status code in the
/// success range, or anything else (network error, timeout, non-success
/// status code) — both failure kinds count identically for the threshold.
#[derive(Debug, Clone, Copy, PartialEq, Eq, Structural)]
pub enum ProbeOutcome {
    Success,
    Failure,
}

/// The failure counter after one more failure; it never wraps.
pub open spec fn bumped(cf: u32) -> u32 {
    if cf < u32::MAX {
        (cf + 1) as u32
    } else {
        cf
    }
}

/// The record after folding in one probe outcome.
///
/// On success: healthy, counter reset, last success stamped. On failure: the
/// counter grows and the record is classified `Down` at the threshold,
/// `Degraded` below it.
pub open spec fn step_record(r: RecordModel, outcome: ProbeOutcome, now: u64) -> RecordModel {
    match outcome {
        ProbeOutcome::Success => RecordModel {
            status: ServiceStatus::Healthy,
            last_seen: Some(now),
            consecutive_failures: 0,
            ..r
        },
        ProbeOutcome::Failure => RecordModel {
            status: if bumped(r.consecutive_failures) >= FAILURE_THRESHOLD {
                ServiceStatus::Down
            } else {
                ServiceStatus::Degraded
            },
            consecutive_failures: bumped(r.consecutive_failures),
            ..r
        },
    }
}

/// The transition event raised by one probe outcome, if any.
///
/// A recovery is announced when a success follows `Down` or `Unknown`; a
/// confirmed outage is announced when the counter crosses the threshold and
/// the record was not already `Down` (never re-announced while it stays
/// `Down`).
pub open spec fn step_event(r: RecordModel, outcome: ProbeOutcome) -> Option<EventModel> {
    match outcome {
        ProbeOutcome::Success => {
            if r.status is Down || r.status is Unknown {
                Some(EventModel::ServiceRecovered { name: r.name, port: r.port })
            } else {
                None
            }
        },
        ProbeOutcome::Failure => {
            if bumped(r.consecutive_failures) >= FAILURE_THRESHOLD && !(r.status is Down) {
                Some(EventModel::ServiceDown { name: r.name, port: r.port })
            } else {
                None
            }
        },
    }
}

/// The model of an optional event.
pub open spec fn opt_event_view(e: Option<DaemonEvent>) -> Option<EventModel> {
    match e {
        Some(ev) => Some(ev@),
        None => None,
    }
}

/// Folds one probe outcome into a record and returns the transition event to
/// raise, exactly as [`step_record`] and [`step_event`] describe.
pub fn apply_probe(rec: &mut ServiceInfo, outcome: ProbeOutcome, now: u64) -> (ev: Option<
    DaemonEvent,
>)
    ensures
        final(rec)@ == step_record(old(rec)@, outcome, now),
        opt_event_view(ev) == step_event(old(rec)@, outcome),
        old(rec)@.wf() ==> final(rec)@.wf(),
{
    match outcome {
        ProbeOutcome::Success => {
            let was = rec.status;
            rec.status = ServiceStatus::Healthy;
            rec.last_seen = Some(now);
            rec.consecutive_failures = 0;
            if was == ServiceStatus::Down || was == ServiceStatus::Unknown {
                Some(DaemonEvent::ServiceRecovered { name: rec.name.clone(), port: rec.port })
            } else {
                None
            }
        },
        ProbeOutcome::Failure => {
            let was = rec.status;
            if rec.consecutive_failures < u32::MAX {
                rec.consecutive_failures = rec.consecutive_failures + 1;
            }
            if rec.consecutive_failures >= FAILURE_THRESHOLD {
                rec.status = ServiceStatus::Down;
                if was != ServiceStatus::Down {
                    Some(DaemonEvent::ServiceDown { name: rec.name.clone(), port: rec.port })
                } else {
                    None
                }
            } else {
                rec.status = ServiceStatus::Degraded;
                None
            }
        },
    }
}

/// The registry invariant survives any probe outcome.
pub proof fn lemma_step_preserves_wf(r: RecordModel, outcome: ProbeOutcome, now: u64)
    requires
        r.wf(),
    ensures
        step_record(r, outcome, now).wf(),
{
}

/// One or two consecutive failures from `Healthy` leave the service
/// `Degraded` and raise no event.
pub proof fn lemma_few_failures_only_degrade(r: RecordModel, now1: u64, now2: u64)
    requires
        r.wf(),
        r.status is Healthy,
    ensures
        ({
            let r1 = step_record(r, ProbeOutcome::Failure, now1);
            let r2 = step_record(r1, ProbeOutcome::Failure, now2);
            &&& r1.status is Degraded && r1.consecutive_failures == 1
            &&& r2.status is Degraded && r2.consecutive_failures == 2
            &&& step_event(r, ProbeOutcome::Failure) is None
            &&& step_event(r1, ProbeOutcome::Failure) is None
        }),
{
}

/// Three consecutive failures from `Healthy` yield exactly one `ServiceDown`
/// event — on the third failure — and none afterwards while the service
/// stays `Down`.
pub proof fn lemma_three_failures_announce_down_once(
    r: RecordModel,
    now1: u64,
    now2: u64,
    now3: u64,
)
    requires
        r.wf(),
        r.status is Healthy,
    ensures
        ({
            let r1 = step_record(r, ProbeOutcome::Failure, now1);
            let r2 = step_record(r1, ProbeOutcome::Failure, now2);
            let r3 = step_record(r2, ProbeOutcome::Failure, now3);
            &&& step_event(r, ProbeOutcome::Failure) is None
            &&& step_event(r1, ProbeOutcome::Failure) is None
            &&& step_event(r2, ProbeOutcome::Failure) == Some(
                EventModel::ServiceDown { name: r.name, port: r.port },
            )
            &&& r3.status is Down && r3.consecutive_failures == 3
        }),
{
}

/// While a service is already `Down`, a further failure keeps it `Down` and
/// raises no event: the outage is never announced twice before a recovery.
pub proof fn lemma_down_stays_silent(r: RecordModel, now: u64)
    requires
        r.wf(),
        r.status is Down,
    ensures
        step_record(r, ProbeOutcome::Failure, now).status is Down,
        step_event(r, ProbeOutcome::Failure) is None,
{
}

/// A success immediately following `Down` makes the service `Healthy` with a
/// reset counter and a fresh `last_seen`, and yields exactly one
/// `ServiceRecovered` event.
pub proof fn lemma_recovery_from_down(r: RecordModel, now: u64)
    requires
        r.wf(),
        r.status is Down,
    ensures
        ({
            let r1 = step_record(r, ProbeOutcome::Success, now);
            &&& r1.status is Healthy
            &&& r1.consecutive_failures == 0
            &&& r1.last_seen == Some(now)
            &&& step_event(r, ProbeOutcome::Success) == Some(
                EventModel::ServiceRecovered { name: r.name, port: r.port },
            )
        }),
{
}

/// A success while already `Healthy` or `Degraded` raises no event: recovery
/// is announced only when crossing out of `Down` (or on the very first
/// success from `Unknown`).
pub proof fn lemma_success_while_up_is_silent(r: RecordModel)
    requires
        r.status is Healthy || r.status is Degraded,
    ensures
        step_event(r, ProbeOutcome::Success) is None,
{
}

} // verus!
