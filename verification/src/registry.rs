//! The service registry: the single source of truth mapping each known
//! service name to its current health record, and the sweep that folds one
//! round of probe outcomes into it.

use vstd::prelude::*;
use crate::service::{RecordModel, ServiceInfo, ServiceStatus};
use crate::events::{DaemonEvent, EventModel, events_view};
use crate::checker::{
    apply_probe, opt_event_view, step_event, step_record, ProbeOutcome,
};

verus! {

/// Mathematical model of a [`ServiceDescriptor`].
pub ghost struct DescModel {
    pub name: Seq<char>,
    pub port: u16,
}

/// Static configuration for one monitored service: its unique name and its
/// network port. Supplied once at startup; never changed.
#[derive(Debug, Clone)]
pub struct ServiceDescriptor {
    pub name: String,
    pub port: u16,
}

impl View for ServiceDescriptor {
    type V = DescModel;

    open spec fn view(&self) -> DescModel {
        DescModel { name: self.name@, port: self.port }
    }
}

impl ServiceDescriptor {
    pub fn new(name: String, port: u16) -> (r: ServiceDescriptor)
        ensures
            r@ == (DescModel { name: name@, port: port }),
    {
        ServiceDescriptor { name, port }
    }
}

/// The models of a sequence of descriptors.
pub open spec fn descs_view(s: Seq<ServiceDescriptor>) -> Seq<DescModel> {
    s.map_values(|d: ServiceDescriptor| d@)
}

/// Index of the first record with the given name, or -1 if there is none.
pub open spec fn find_index(rs: Seq<RecordModel>, name: Seq<char>) -> int
    decreases rs.len(),
{
    if rs.len() == 0 {
        -1
    } else if rs[0].name == name {
        0
    } else {
        let i = find_index(rs.drop_first(), name);
        if i == -1 {
            -1
        } else {
            i + 1
        }
    }
}

/// Whether some record carries the given name.
pub open spec fn contains_name(rs: Seq<RecordModel>, name: Seq<char>) -> bool {
    exists|i: int| 0 <= i < rs.len() && rs[i].name == name
}

pub proof fn lemma_find_index(rs: Seq<RecordModel>, name: Seq<char>)
    ensures
        -1 <= find_index(rs, name) < rs.len(),
        find_index(rs, name) >= 0 ==> rs[find_index(rs, name)].name == name,
        find_index(rs, name) == -1 <==> !contains_name(rs, name),
        forall|j: int| 0 <= j < find_index(rs, name) ==> rs[j].name != name,
    decreases rs.len(),
{
    if rs.len() == 0 {
    } else if rs[0].name == name {
    } else {
        lemma_find_index(rs.drop_first(), name);
        assert forall|i: int| 0 <= i < rs.len() && rs[i].name == name implies find_index(
            rs,
            name,
        ) >= 0 by {
            assert(rs.drop_first()[i - 1] == rs[i]);
        }
        assert(forall|j: int| 0 < j < rs.len() ==> rs[j] == rs.drop_first()[j - 1]);
    }
}

/// If `i` is the first index carrying `name`, then it is what `find_index`
/// returns.
pub proof fn lemma_find_index_first(rs: Seq<RecordModel>, name: Seq<char>, i: int)
    requires
        0 <= i < rs.len(),
        rs[i].name == name,
        forall|j: int| 0 <= j < i ==> rs[j].name != name,
    ensures
        find_index(rs, name) == i,
    decreases rs.len(),
{
    if i == 0 {
    } else {
        assert(forall|j: int| 0 <= j < rs.len() - 1 ==> rs.drop_first()[j] == rs[j + 1]);
        lemma_find_index_first(rs.drop_first(), name, i - 1);
    }
}

/// The record a descriptor starts with: unknown status, nothing seen yet.
pub open spec fn initial_record(d: DescModel) -> RecordModel {
    RecordModel {
        name: d.name,
        port: d.port,
        status: ServiceStatus::Unknown,
        last_seen: None,
        consecutive_failures: 0,
    }
}

/// One upsert-and-probe: the record for the descriptor (created as `Unknown`
/// on first sight) folded through the state machine.
pub open spec fn upsert_probe(
    rs: Seq<RecordModel>,
    d: DescModel,
    outcome: ProbeOutcome,
    now: u64,
) -> (Seq<RecordModel>, Option<EventModel>) {
    let i = find_index(rs, d.name);
    if i >= 0 {
        (rs.update(i, step_record(rs[i], outcome, now)), step_event(rs[i], outcome))
    } else {
        let fresh = initial_record(d);
        (rs.push(step_record(fresh, outcome, now)), step_event(fresh, outcome))
    }
}

/// Registry contents after folding in one sweep's outcomes, descriptor by
/// descriptor.
pub open spec fn sweep_state(
    rs: Seq<RecordModel>,
    descs: Seq<DescModel>,
    outs: Seq<ProbeOutcome>,
    now: u64,
) -> Seq<RecordModel>
    decreases descs.len(),
{
    if descs.len() == 0 {
        rs
    } else {
        sweep_state(
            upsert_probe(rs, descs[0], outs[0], now).0,
            descs.drop_first(),
            outs.drop_first(),
            now,
        )
    }
}

/// The sequence an optional event contributes to the sweep's event list.
pub open spec fn opt_seq(e: Option<EventModel>) -> Seq<EventModel> {
    match e {
        Some(x) => seq![x],
        None => Seq::empty(),
    }
}

/// The transition events one sweep raises, in probe order.
pub open spec fn sweep_events(
    rs: Seq<RecordModel>,
    descs: Seq<DescModel>,
    outs: Seq<ProbeOutcome>,
    now: u64,
) -> Seq<EventModel>
    decreases descs.len(),
{
    if descs.len() == 0 {
        Seq::empty()
    } else {
        opt_seq(upsert_probe(rs, descs[0], outs[0], now).1) + sweep_events(
            upsert_probe(rs, descs[0], outs[0], now).0,
            descs.drop_first(),
            outs.drop_first(),
            now,
        )
    }
}

/// How many records are currently classified `Healthy`.
pub open spec fn count_healthy(rs: Seq<RecordModel>) -> int
    decreases rs.len(),
{
    if rs.len() == 0 {
        0int
    } else {
        (if rs[0].status is Healthy {
            1int
        } else {
            0int
        }) + count_healthy(rs.drop_first())
    }
}

/// How many records are currently classified `Down`.
pub open spec fn count_down(rs: Seq<RecordModel>) -> int
    decreases rs.len(),
{
    if rs.len() == 0 {
        0int
    } else {
        (if rs[0].status is Down {
            1int
        } else {
            0int
        }) + count_down(rs.drop_first())
    }
}

pub proof fn lemma_count_bounds(rs: Seq<RecordModel>)
    ensures
        0 <= count_healthy(rs) <= rs.len(),
        0 <= count_down(rs) <= rs.len(),
    decreases rs.len(),
{
    if rs.len() > 0 {
        lemma_count_bounds(rs.drop_first());
    }
}

/// The shared registry. Exactly one record per name; records are created the
/// first time their name is probed and never deleted.
pub struct Registry {
    records: Vec<ServiceInfo>,
}

impl View for Registry {
    type V = Seq<RecordModel>;

    closed spec fn view(&self) -> Seq<RecordModel> {
        self.records@.map_values(|r: ServiceInfo| r@)
    }
}

impl Registry {
    /// Registry invariant: no duplicate names, and every record's status
    /// agrees with its failure counter.
    pub open spec fn wf(self) -> bool {
        &&& forall|i: int, j: int|
            0 <= i < j < self@.len() ==> self@[i].name != self@[j].name
        &&& forall|i: int| 0 <= i < self@.len() ==> (#[trigger] self@[i]).wf()
    }

    /// An empty registry.
    pub fn new() -> (r: Registry)
        ensures
            r@ == Seq::<RecordModel>::empty(),
            r.wf(),
    {
        let r = Registry { records: Vec::new() };
        assert(r@ =~= Seq::<RecordModel>::empty());
        r
    }

    /// A registry seeded with one `Unknown` record per descriptor, as the
    /// daemon does at startup. Descriptor names must be unique.
    pub fn seeded(descs: &Vec<ServiceDescriptor>) -> (r: Registry)
        requires
            forall|i: int, j: int|
                0 <= i < j < descs@.len() ==> descs@[i]@.name != descs@[j]@.name,
        ensures
            r.wf(),
            r@ == descs_view(descs@).map_values(|d: DescModel| initial_record(d)),
    {
        let ghost target = descs_view(descs@).map_values(|d: DescModel| initial_record(d));
        let mut records: Vec<ServiceInfo> = Vec::new();
        let n = descs.len();
        let mut i: usize = 0;
        while i < n
            invariant
                n == descs@.len(),
                i <= n,
                target == descs_view(descs@).map_values(|d: DescModel| initial_record(d)),
                records@.map_values(|x: ServiceInfo| x@) =~= target.take(i as int),
            decreases n - i,
        {
            let rec = ServiceInfo::initial(descs[i].name.clone(), descs[i].port);
            proof {
                assert(descs_view(descs@)[i as int] == descs@[i as int]@);
                assert(target[i as int] == initial_record(descs@[i as int]@));
                assert(rec@ == initial_record(descs@[i as int]@));
            }
            let ghost pre = records@;
            records.push(rec);
            proof {
                assert(records@.map_values(|x: ServiceInfo| x@) =~= pre.map_values(
                    |x: ServiceInfo| x@,
                ).push(rec@));
                assert(target.take(i + 1) =~= target.take(i as int).push(target[i as int]));
                assert(records@.map_values(|x: ServiceInfo| x@) =~= target.take(i + 1));
            }
            i = i + 1;
        }
        let r = Registry { records };
        proof {
            assert(target.take(n as int) =~= target);
            assert(r@ =~= target);
        }
        r
    }

    pub fn len(&self) -> (n: usize)
        ensures
            n == self@.len(),
    {
        self.records.len()
    }

    /// Read-only snapshot of all records, in creation order.
    pub fn get_all(&self) -> (r: &Vec<ServiceInfo>)
        ensures
            r@.map_values(|x: ServiceInfo| x@) == self@,
    {
        &self.records
    }

    /// Index of the first record named `name`, if any.
    fn find(&self, name: &str) -> (r: Option<usize>)
        ensures
            match r {
                Some(i) => i == find_index(self@, name@) && i < self@.len(),
                None => !contains_name(self@, name@),
            },
    {
        let needle: String = name.to_owned();
        let n = self.records.len();
        let mut i: usize = 0;
        while i < n
            invariant
                n == self@.len(),
                i <= n,
                needle@ == name@,
                forall|j: int| 0 <= j < i ==> self@[j].name != name@,
            decreases n - i,
        {
            if self.records[i].name == needle {
                proof {
                    lemma_find_index_first(self@, name@, i as int);
                }
                return Some(i);
            }
            i = i + 1;
        }
        proof {
            lemma_find_index(self@, name@);
        }
        None
    }

    /// Whether a record for `name` exists. A miss is absence, not a failure.
    pub fn contains(&self, name: &str) -> (r: bool)
        ensures
            r == contains_name(self@, name@),
    {
        proof {
            lemma_find_index(self@, name@);
        }
        match self.find(name) {
            Some(_) => true,
            None => false,
        }
    }

    /// The record for `name`, or absence.
    pub fn get(&self, name: &str) -> (r: Option<&ServiceInfo>)
        ensures
            match r {
                Some(rec) => contains_name(self@, name@) && rec@ == self@[find_index(
                    self@,
                    name@,
                )],
                None => !contains_name(self@, name@),
            },
    {
        proof {
            lemma_find_index(self@, name@);
        }
        match self.find(name) {
            Some(i) => Some(&self.records[i]),
            None => None,
        }
    }

    /// Upserts the record for one descriptor and folds one probe outcome
    /// into it, returning the transition event to raise, if any.
    pub fn probe_result(
        &mut self,
        desc: &ServiceDescriptor,
        outcome: ProbeOutcome,
        now: u64,
    ) -> (ev: Option<DaemonEvent>)
        requires
            old(self).wf(),
        ensures
            final(self).wf(),
            final(self)@ == upsert_probe(old(self)@, desc@, outcome, now).0,
            opt_event_view(ev) == upsert_probe(old(self)@, desc@, outcome, now).1,
    {
        proof {
            lemma_find_index(self@, desc@.name);
        }
        let found = self.find(desc.name.as_str());
        match found {
            Some(i) => {
                let ev = apply_probe(&mut self.records[i], outcome, now);
                assert(self@ =~= upsert_probe(old(self)@, desc@, outcome, now).0);
                ev
            },
            None => {
                let mut rec = ServiceInfo::initial(desc.name.clone(), desc.port);
                let ev = apply_probe(&mut rec, outcome, now);
                self.records.push(rec);
                assert(self@ =~= upsert_probe(old(self)@, desc@, outcome, now).0);
                ev
            },
        }
    }

    /// Number of records currently `Healthy`.
    pub fn healthy_count(&self) -> (n: usize)
        ensures
            n == count_healthy(self@),
    {
        proof {
            lemma_count_bounds(self@);
            assert(self@.skip(0) =~= self@);
        }
        let mut n: usize = 0;
        let mut i: usize = 0;
        let len = self.records.len();
        while i < len
            invariant
                len == self@.len(),
                i <= len,
                n <= i,
                count_healthy(self@) == n + count_healthy(self@.skip(i as int)),
            decreases len - i,
        {
            proof {
                assert(self@.skip(i as int)[0] == self@[i as int]);
                assert(self@.skip(i as int).drop_first() =~= self@.skip(i + 1));
                lemma_count_bounds(self@.skip(i + 1));
            }
            if matches!(self.records[i].status, ServiceStatus::Healthy) {
                n = n + 1;
            }
            i = i + 1;
        }
        proof {
            assert(self@.skip(len as int) =~= Seq::<RecordModel>::empty());
        }
        n
    }

    /// Number of records currently `Down`.
    pub fn down_count(&self) -> (n: usize)
        ensures
            n == count_down(self@),
    {
        proof {
            lemma_count_bounds(self@);
            assert(self@.skip(0) =~= self@);
        }
        let mut n: usize = 0;
        let mut i: usize = 0;
        let len = self.records.len();
        while i < len
            invariant
                len == self@.len(),
                i <= len,
                n <= i,
                count_down(self@) == n + count_down(self@.skip(i as int)),
            decreases len - i,
        {
            proof {
                assert(self@.skip(i as int)[0] == self@[i as int]);
                assert(self@.skip(i as int).drop_first() =~= self@.skip(i + 1));
                lemma_count_bounds(self@.skip(i + 1));
            }
            if matches!(self.records[i].status, ServiceStatus::Down) {
                n = n + 1;
            }
            i = i + 1;
        }
        proof {
            assert(self@.skip(len as int) =~= Seq::<RecordModel>::empty());
        }
        n
    }

    /// One full sweep: every descriptor's outcome is folded into its record,
    /// and after all of them exactly one `HealthCheckComplete` closes the
    /// returned event list, reporting the number of currently-healthy
    /// records and the number of known descriptors.
    pub fn sweep(
        &mut self,
        descs: &Vec<ServiceDescriptor>,
        outcomes: &Vec<ProbeOutcome>,
        now: u64,
    ) -> (evs: Vec<DaemonEvent>)
        requires
            old(self).wf(),
            outcomes@.len() == descs@.len(),
        ensures
            final(self).wf(),
            final(self)@ == sweep_state(old(self)@, descs_view(descs@), outcomes@, now),
            events_view(evs@) == sweep_events(old(self)@, descs_view(descs@), outcomes@, now)
                + seq![
                EventModel::HealthCheckComplete {
                    healthy_count: count_healthy(final(self)@),
                    total_count: descs@.len() as int,
                },
            ],
    {
        let ghost dm = descs_view(descs@);
        let mut evs: Vec<DaemonEvent> = Vec::new();
        let n = descs.len();
        let mut i: usize = 0;
        assert(events_view(evs@) =~= Seq::<EventModel>::empty());
        proof {
            assert(dm.skip(0) =~= dm);
            assert(outcomes@.skip(0) =~= outcomes@);
        }
        while i < n
            invariant
                self.wf(),
                n == descs@.len(),
                outcomes@.len() == n,
                i <= n,
                dm == descs_view(descs@),
                sweep_state(old(self)@, dm, outcomes@, now) == sweep_state(
                    self@,
                    dm.skip(i as int),
                    outcomes@.skip(i as int),
                    now,
                ),
                sweep_events(old(self)@, dm, outcomes@, now) == events_view(evs@)
                    + sweep_events(self@, dm.skip(i as int), outcomes@.skip(i as int), now),
            decreases n - i,
        {
            proof {
                assert(dm.skip(i as int)[0] == dm[i as int]);
                assert(dm[i as int] == descs@[i as int]@);
                assert(outcomes@.skip(i as int)[0] == outcomes@[i as int]);
                assert(dm.skip(i as int).drop_first() =~= dm.skip(i + 1));
                assert(outcomes@.skip(i as int).drop_first() =~= outcomes@.skip(i + 1));
            }
            let ghost pre = self@;
            let ghost evs_pre = evs@;
            let ev = self.probe_result(&descs[i], outcomes[i], now);
            match ev {
                Some(e) => {
                    evs.push(e);
                },
                None => {},
            }
            proof {
                assert(events_view(evs@) =~= events_view(evs_pre) + opt_seq(
                    upsert_probe(pre, dm[i as int], outcomes@[i as int], now).1,
                ));
                assert(sweep_events(old(self)@, dm, outcomes@, now) =~= events_view(evs@)
                    + sweep_events(self@, dm.skip(i + 1), outcomes@.skip(i + 1), now));
            }
            i = i + 1;
        }
        proof {
            assert(dm.skip(n as int) =~= Seq::<DescModel>::empty());
            assert(outcomes@.skip(n as int) =~= Seq::<ProbeOutcome>::empty());
        }
        let ghost evs_pre = evs@;
        let healthy = self.healthy_count();
        evs.push(
            DaemonEvent::HealthCheckComplete { healthy_count: healthy, total_count: n },
        );
        assert(events_view(evs@) =~= events_view(evs_pre) + seq![
            EventModel::HealthCheckComplete {
                healthy_count: count_healthy(self@),
                total_count: n as int,
            },
        ]);
        evs
    }
}

/// Every event a sweep's probes raise is a transition event (`ServiceDown`
/// or `ServiceRecovered`): the single `HealthCheckComplete` closing a sweep
/// is appended exactly once, by the sweep itself.
pub proof fn lemma_sweep_events_are_transitions(
    rs: Seq<RecordModel>,
    descs: Seq<DescModel>,
    outs: Seq<ProbeOutcome>,
    now: u64,
)
    ensures
        forall|i: int|
            0 <= i < sweep_events(rs, descs, outs, now).len() ==> ((#[trigger] sweep_events(
                rs,
                descs,
                outs,
                now,
            )[i]) is ServiceDown || sweep_events(rs, descs, outs, now)[i] is ServiceRecovered),
    decreases descs.len(),
{
    if descs.len() > 0 {
        lemma_sweep_events_are_transitions(
            upsert_probe(rs, descs[0], outs[0], now).0,
            descs.drop_first(),
            outs.drop_first(),
            now,
        );
    }
}

} // verus!
