//! The daemon's shared state and the pure computations behind the control
//! API: one sweep folded into registry and bus, the restart-request hook,
//! and the aggregate status view.

use vstd::prelude::*;
use crate::bus::{EventBus, BUS_CAPACITY};
use crate::checker::ProbeOutcome;
use crate::events::{DaemonEvent, EventModel};
use crate::registry::{
    contains_name, count_down, count_healthy, descs_view, sweep_events, sweep_state, Registry,
    ServiceDescriptor,
};

verus! {

/// The fixed set of monitored services, by name and port.
pub fn known_services() -> (r: Vec<ServiceDescriptor>)
    ensures
        r@.len() == 6,
        descs_view(r@) == seq![
            crate::registry::DescModel { name: "athena"@, port: 9500u16 },
            crate::registry::DescModel { name: "hermes"@, port: 9600u16 },
            crate::registry::DescModel { name: "iris"@, port: 9601u16 },
            crate::registry::DescModel { name: "echo"@, port: 9604u16 },
            crate::registry::DescModel { name: "aegis"@, port: 9700u16 },
            crate::registry::DescModel { name: "apollo"@, port: 9777u16 },
        ],
        forall|i: int, j: int| 0 <= i < j < r@.len() ==> r@[i]@.name != r@[j]@.name,
{
    let mut r: Vec<ServiceDescriptor> = Vec::new();
    r.push(ServiceDescriptor::new("athena".to_owned(), 9500));
    r.push(ServiceDescriptor::new("hermes".to_owned(), 9600));
    r.push(ServiceDescriptor::new("iris".to_owned(), 9601));
    r.push(ServiceDescriptor::new("echo".to_owned(), 9604));
    r.push(ServiceDescriptor::new("aegis".to_owned(), 9700));
    r.push(ServiceDescriptor::new("apollo".to_owned(), 9777));
    assert(descs_view(r@) =~= seq![
        crate::registry::DescModel { name: "athena"@, port: 9500u16 },
        crate::registry::DescModel { name: "hermes"@, port: 9600u16 },
        crate::registry::DescModel { name: "iris"@, port: 9601u16 },
        crate::registry::DescModel { name: "echo"@, port: 9604u16 },
        crate::registry::DescModel { name: "aegis"@, port: 9700u16 },
        crate::registry::DescModel { name: "apollo"@, port: 9777u16 },
    ]);
    proof {
        reveal_strlit("athena");
        reveal_strlit("hermes");
        reveal_strlit("iris");
        reveal_strlit("echo");
        reveal_strlit("aegis");
        reveal_strlit("apollo");
        let dm = descs_view(r@);
        assert(dm[0].name =~= "athena"@ && dm[1].name =~= "hermes"@ && dm[2].name =~= "iris"@
            && dm[3].name =~= "echo"@ && dm[4].name =~= "aegis"@ && dm[5].name =~= "apollo"@);
        assert("athena"@[0] == 'a' && "hermes"@[0] == 'h' && "iris"@[0] == 'i' && "echo"@[0]
            == 'e' && "apollo"@[1] == 'p' && "athena"@[1] == 't');
        assert forall|i: int, j: int| 0 <= i < j < r@.len() implies r@[i]@.name != r@[j]@.name by {
            assert(dm[i] == r@[i]@);
            assert(dm[j] == r@[j]@);
            if i == 0 && j == 1 {
                assert(dm[0].name != dm[1].name);
            }
            if i == 0 && j == 2 {
                assert(dm[0].name != dm[2].name);
            }
            if i == 0 && j == 3 {
                assert(dm[0].name != dm[3].name);
            }
            if i == 0 && j == 4 {
                assert(dm[0].name != dm[4].name);
            }
            if i == 0 && j == 5 {
                assert(dm[0].name != dm[5].name);
            }
            if i == 1 && j == 2 {
                assert(dm[1].name != dm[2].name);
            }
            if i == 1 && j == 3 {
                assert(dm[1].name != dm[3].name);
            }
            if i == 1 && j == 4 {
                assert(dm[1].name != dm[4].name);
            }
            if i == 1 && j == 5 {
                assert(dm[1].name != dm[5].name);
            }
            if i == 2 && j == 3 {
                assert(dm[2].name != dm[3].name);
            }
            if i == 2 && j == 4 {
                assert(dm[2].name != dm[4].name);
            }
            if i == 2 && j == 5 {
                assert(dm[2].name != dm[5].name);
            }
            if i == 3 && j == 4 {
                assert(dm[3].name != dm[4].name);
            }
            if i == 3 && j == 5 {
                assert(dm[3].name != dm[5].name);
            }
            if i == 4 && j == 5 {
                assert(dm[4].name != dm[5].name);
            }
        }
    }
    r
}

/// Why a restart request was refused.
#[derive(Debug, Clone, Copy, PartialEq, Eq, Structural)]
pub enum RestartError {
    /// The named service is not in the registry.
    UnknownService,
}

/// Aggregate view served by the status endpoint, derived from one registry
/// snapshot.
#[derive(Debug, Clone, Copy, PartialEq, Eq, Structural)]
pub struct StatusSummary {
    pub uptime_seconds: u64,
    pub services_total: usize,
    pub services_healthy: usize,
    pub services_down: usize,
}

/// The daemon's shared state: the registry as single source of truth, the
/// event bus, and the start time (in seconds) from which uptime is derived.
pub struct Daemon {
    pub registry: Registry,
    pub bus: EventBus,
    pub start_time: u64,
}

impl Daemon {
    pub open spec fn wf(self) -> bool {
        &&& self.registry.wf()
        &&& self.bus.wf()
    }

    /// A daemon whose registry is seeded with one `Unknown` record per
    /// descriptor and whose bus is empty.
    pub fn new(descs: &Vec<ServiceDescriptor>, start_time: u64) -> (r: Daemon)
        requires
            forall|i: int, j: int|
                0 <= i < j < descs@.len() ==> descs@[i]@.name != descs@[j]@.name,
        ensures
            r.wf(),
            r.registry@ == descs_view(descs@).map_values(
                |d: crate::registry::DescModel| crate::registry::initial_record(d),
            ),
            r.bus@ == Seq::<EventModel>::empty(),
            r.start_time == start_time,
    {
        Daemon { registry: Registry::seeded(descs), bus: EventBus::new(), start_time }
    }

    /// One full sweep: outcome `i` is folded into the record for descriptor
    /// `i`, the transition events plus the closing `HealthCheckComplete` are
    /// published to the bus in order (best-effort once the bus is full), and
    /// the number of events that reached the bus is returned.
    pub fn run_sweep(
        &mut self,
        descs: &Vec<ServiceDescriptor>,
        outcomes: &Vec<ProbeOutcome>,
        now: u64,
    ) -> (n: usize)
        requires
            old(self).wf(),
            outcomes@.len() == descs@.len(),
        ensures
            final(self).wf(),
            final(self).registry@ == sweep_state(
                old(self).registry@,
                descs_view(descs@),
                outcomes@,
                now,
            ),
            final(self).start_time == old(self).start_time,
            ({
                let evs = sweep_events(old(self).registry@, descs_view(descs@), outcomes@, now)
                    + seq![
                    EventModel::HealthCheckComplete {
                        healthy_count: count_healthy(final(self).registry@),
                        total_count: descs@.len() as int,
                    },
                ];
                &&& n == if evs.len() <= BUS_CAPACITY - old(self).bus@.len() {
                    evs.len() as int
                } else {
                    BUS_CAPACITY - old(self).bus@.len()
                }
                &&& final(self).bus@ == old(self).bus@ + evs.take(n as int)
            }),
    {
        let evs = self.registry.sweep(descs, outcomes, now);
        self.bus.publish(evs)
    }

    /// The restart-request hook: validates that the name is registered; if
    /// absent, refuses with `UnknownService` and enqueues nothing; if
    /// present, enqueues exactly one `RestartRequested` for it (swallowed,
    /// best-effort, if the bus happens to be full) and acknowledges. It
    /// never itself terminates or relaunches anything.
    pub fn handle_restart(&mut self, name: &str) -> (r: Result<(), RestartError>)
        requires
            old(self).wf(),
        ensures
            final(self).wf(),
            final(self).registry@ == old(self).registry@,
            final(self).start_time == old(self).start_time,
            r is Ok <==> contains_name(old(self).registry@, name@),
            r is Err ==> final(self).bus@ == old(self).bus@,
            r is Ok ==> final(self).bus@ == if old(self).bus@.len() < BUS_CAPACITY {
                old(self).bus@.push(EventModel::RestartRequested { name: name@ })
            } else {
                old(self).bus@
            },
    {
        if !self.registry.contains(name) {
            return Err(RestartError::UnknownService);
        }
        let _ = self.bus.push(DaemonEvent::RestartRequested { name: name.to_owned() });
        Ok(())
    }

    /// The aggregate status view, derived from a single registry snapshot:
    /// uptime and total/healthy/down counts.
    pub fn status_summary(&self, now: u64) -> (r: StatusSummary)
        requires
            now >= self.start_time,
        ensures
            r.uptime_seconds == now - self.start_time,
            r.services_total == self.registry@.len(),
            r.services_healthy == count_healthy(self.registry@),
            r.services_down == count_down(self.registry@),
    {
        StatusSummary {
            uptime_seconds: now - self.start_time,
            services_total: self.registry.len(),
            services_healthy: self.registry.healthy_count(),
            services_down: self.registry.down_count(),
        }
    }
}

} // verus!
