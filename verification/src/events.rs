//! Domain events that flow through the internal event bus.

use vstd::prelude::*;

verus! {

/// Mathematical model of a [`DaemonEvent`].
pub ghost enum EventModel {
    ServiceDown { name: Seq<char>, port: u16 },
    ServiceRecovered { name: Seq<char>, port: u16 },
    RestartRequested { name: Seq<char> },
    HealthCheckComplete { healthy_count: int, total_count: int },
}

/// An immutable, ephemeral tagged value raised by the health checker or the
/// control API and consumed once from the event bus.
#[derive(Debug, Clone)]
pub enum DaemonEvent {
    ServiceDown { name: String, port: u16 },
    ServiceRecovered { name: String, port: u16 },
    RestartRequested { name: String },
    HealthCheckComplete { healthy_count: usize, total_count: usize },
}

impl View for DaemonEvent {
    type V = EventModel;

    open spec fn view(&self) -> EventModel {
        match self {
            DaemonEvent::ServiceDown { name, port } => EventModel::ServiceDown {
                name: name@,
                port: *port,
            },
            DaemonEvent::ServiceRecovered { name, port } => EventModel::ServiceRecovered {
                name: name@,
                port: *port,
            },
            DaemonEvent::RestartRequested { name } => EventModel::RestartRequested { name: name@ },
            DaemonEvent::HealthCheckComplete { healthy_count, total_count } => {
                EventModel::HealthCheckComplete {
                    healthy_count: *healthy_count as int,
                    total_count: *total_count as int,
                }
            },
        }
    }
}

/// The models of a sequence of events.
pub open spec fn events_view(s: Seq<DaemonEvent>) -> Seq<EventModel> {
    s.map_values(|e: DaemonEvent| e@)
}

/// Severity at which the event consumer reacts to an event.
#[derive(Debug, Clone, Copy, PartialEq, Eq, Structural)]
pub enum Severity {
    Error,
    Info,
    Trace,
}

impl DaemonEvent {
    /// The consumer logs a confirmed outage at elevated severity, recoveries
    /// and restart requests informationally, and sweep summaries at trace
    /// level.
    pub fn severity(&self) -> (r: Severity)
        ensures
            r == (match self@ {
                EventModel::ServiceDown { .. } => Severity::Error,
                EventModel::ServiceRecovered { .. } => Severity::Info,
                EventModel::RestartRequested { .. } => Severity::Info,
                EventModel::HealthCheckComplete { .. } => Severity::Trace,
            }),
    {
        match self {
            DaemonEvent::ServiceDown { .. } => Severity::Error,
            DaemonEvent::ServiceRecovered { .. } => Severity::Info,
            DaemonEvent::RestartRequested { .. } => Severity::Info,
            DaemonEvent::HealthCheckComplete { .. } => Severity::Trace,
        }
    }
}

} // verus!
