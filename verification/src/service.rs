//! Classified health of one monitored service: its status and the record
//! kept for it in the registry.

use vstd::prelude::*;

verus! {

/// Classification of a monitored service's health.
#[derive(Debug, Clone, Copy, PartialEq, Eq, Structural)]
pub enum ServiceStatus {
    Healthy,
    Degraded,
    Down,
    Unknown,
}

impl ServiceStatus {
    /// Lower-case label, as the control API reports it.
    pub fn as_str(&self) -> (r: &'static str)
        ensures
            *self is Healthy ==> r@ == "healthy"@,
            *self is Degraded ==> r@ == "degraded"@,
            *self is Down ==> r@ == "down"@,
            *self is Unknown ==> r@ == "unknown"@,
    {
        match self {
            ServiceStatus::Healthy => "healthy",
            ServiceStatus::Degraded => "degraded",
            ServiceStatus::Down => "down",
            ServiceStatus::Unknown => "unknown",
        }
    }
}

/// Mathematical model of a [`ServiceInfo`] record.
pub ghost struct RecordModel {
    pub name: Seq<char>,
    pub port: u16,
    pub status: ServiceStatus,
    pub last_seen: Option<u64>,
    pub consecutive_failures: u32,
}

impl RecordModel {
    /// Registry invariant for one record: the status classification always
    /// agrees with the failure counter.
    pub open spec fn wf(self) -> bool {
        &&& self.status is Down ==> self.consecutive_failures >= 3
        &&& self.status is Healthy ==> self.consecutive_failures == 0
        &&& self.status is Degraded ==> 1 <= self.consecutive_failures <= 2
        &&& self.status is Unknown ==> self.consecutive_failures == 0
    }
}

/// One mutable health record, owned by the registry.
///
/// `last_seen` is the timestamp (in seconds) of the last successful probe,
/// absent if none ever succeeded.
#[derive(Debug, Clone)]
pub struct ServiceInfo {
    pub name: String,
    pub port: u16,
    pub status: ServiceStatus,
    pub last_seen: Option<u64>,
    pub consecutive_failures: u32,
}

impl View for ServiceInfo {
    type V = RecordModel;

    open spec fn view(&self) -> RecordModel {
        RecordModel {
            name: self.name@,
            port: self.port,
            status: self.status,
            last_seen: self.last_seen,
            consecutive_failures: self.consecutive_failures,
        }
    }
}

impl ServiceInfo {
    /// The record created the first time a name is probed: unknown status,
    /// no success seen, zero failures.
    pub fn initial(name: String, port: u16) -> (r: ServiceInfo)
        ensures
            r@ == (RecordModel {
                name: name@,
                port: port,
                status: ServiceStatus::Unknown,
                last_seen: None,
                consecutive_failures: 0,
            }),
            r@.wf(),
    {
        ServiceInfo {
            name,
            port,
            status: ServiceStatus::Unknown,
            last_seen: None,
            consecutive_failures: 0,
        }
    }
}

} // verus!
