//! The event bus: a bounded FIFO queue of domain events with multiple
//! producers and a single consumer. Events leave in exactly the order they
//! entered; when the queue is full an enqueue is refused rather than an
//! event silently dropped from the middle.

use vstd::prelude::*;
use std::collections::VecDeque;
use crate::events::{DaemonEvent, EventModel, events_view};

verus! {

/// Capacity of the event bus queue.
pub const BUS_CAPACITY: usize = 256;

/// A bounded FIFO queue of [`DaemonEvent`]s.
pub struct EventBus {
    items: VecDeque<DaemonEvent>,
}

impl View for EventBus {
    type V = Seq<EventModel>;

    closed spec fn view(&self) -> Seq<EventModel> {
        self.items@.map_values(|e: DaemonEvent| e@)
    }
}

impl EventBus {
    /// Bus invariant: never more events than the capacity.
    pub open spec fn wf(self) -> bool {
        self@.len() <= BUS_CAPACITY
    }

    /// An empty bus.
    pub fn new() -> (r: EventBus)
        ensures
            r@ == Seq::<EventModel>::empty(),
            r.wf(),
    {
        let r = EventBus { items: VecDeque::new() };
        assert(r@ =~= Seq::<EventModel>::empty());
        r
    }

    pub fn len(&self) -> (n: usize)
        ensures
            n == self@.len(),
    {
        self.items.len()
    }

    pub fn is_empty(&self) -> (r: bool)
        ensures
            r == (self@.len() == 0),
    {
        self.items.len() == 0
    }

    /// Enqueues one event at the back. Succeeds exactly when there is room;
    /// a full bus leaves the queue unchanged and reports the refusal, so
    /// that a producer can apply backpressure.
    pub fn push(&mut self, e: DaemonEvent) -> (ok: bool)
        requires
            old(self).wf(),
        ensures
            final(self).wf(),
            ok == (old(self)@.len() < BUS_CAPACITY),
            ok ==> final(self)@ == old(self)@.push(e@),
            !ok ==> final(self)@ == old(self)@,
    {
        if self.items.len() < BUS_CAPACITY {
            self.items.push_back(e);
            assert(self@ =~= old(self)@.push(e@));
            true
        } else {
            false
        }
    }

    /// Dequeues the oldest event, if any: delivery is first-in, first-out.
    pub fn pop(&mut self) -> (r: Option<DaemonEvent>)
        requires
            old(self).wf(),
        ensures
            final(self).wf(),
            match r {
                Some(e) => old(self)@.len() > 0 && e@ == old(self)@[0] && final(self)@ == old(
                    self,
                )@.drop_first(),
                None => old(self)@.len() == 0 && final(self)@ == old(self)@,
            },
    {
        let r = self.items.pop_front();
        match r {
            Some(e) => {
                assert(self@ =~= old(self)@.drop_first());
                Some(e)
            },
            None => None,
        }
    }

    /// Enqueues a batch in order, best-effort: events are pushed from the
    /// front of the batch while there is room, and the rest are dropped once
    /// the bus is full. Returns how many were enqueued.
    pub fn publish(&mut self, evs: Vec<DaemonEvent>) -> (n: usize)
        requires
            old(self).wf(),
        ensures
            final(self).wf(),
            n == if events_view(evs@).len() <= BUS_CAPACITY - old(self)@.len() {
                events_view(evs@).len() as int
            } else {
                BUS_CAPACITY - old(self)@.len()
            },
            final(self)@ == old(self)@ + events_view(evs@).take(n as int),
    {
        let mut i: usize = 0;
        let len = evs.len();
        let mut pushed: usize = 0;
        assert(self@ =~= old(self)@ + events_view(evs@).take(0));
        while i < len
            invariant
                self.wf(),
                len == evs@.len(),
                i <= len,
                pushed <= i,
                events_view(evs@).len() == len,
                pushed == if events_view(evs@).take(i as int).len() <= BUS_CAPACITY - old(
                    self,
                )@.len() {
                    events_view(evs@).take(i as int).len() as int
                } else {
                    BUS_CAPACITY - old(self)@.len()
                },
                self@ == old(self)@ + events_view(evs@).take(pushed as int),
                pushed < i ==> self@.len() == BUS_CAPACITY,
            decreases len - i,
        {
            let e = evs[i].clone_event();
            let ok = self.push(e);
            proof {
                assert(events_view(evs@)[i as int] == evs@[i as int]@);
                if ok {
                    assert(events_view(evs@).take(pushed + 1) =~= events_view(evs@).take(
                        pushed as int,
                    ).push(evs@[pushed as int]@));
                }
            }
            if ok {
                pushed = pushed + 1;
            }
            i = i + 1;
        }
        pushed
    }
}

impl DaemonEvent {
    /// A structural copy whose model is the same.
    pub fn clone_event(&self) -> (r: DaemonEvent)
        ensures
            r@ == self@,
    {
        match self {
            DaemonEvent::ServiceDown { name, port } => DaemonEvent::ServiceDown {
                name: name.clone(),
                port: *port,
            },
            DaemonEvent::ServiceRecovered { name, port } => DaemonEvent::ServiceRecovered {
                name: name.clone(),
                port: *port,
            },
            DaemonEvent::RestartRequested { name } => DaemonEvent::RestartRequested {
                name: name.clone(),
            },
            DaemonEvent::HealthCheckComplete { healthy_count, total_count } => {
                DaemonEvent::HealthCheckComplete {
                    healthy_count: *healthy_count,
                    total_count: *total_count,
                }
            },
        }
    }
}

} // verus!
