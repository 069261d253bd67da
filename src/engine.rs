use std::collections::HashMap;
use vstd::prelude::*;

use crate::error::Rejection;
use crate::ports::{
    held_among, outside_range, released, released_owned, reserved, validate_range, PortRegistry,
};

verus! {

broadcast use vstd::std_specs::hash::group_hash_axioms;

/// One user's server-side slot: the id of their live job, if any.
pub struct Session {
    job: Option<u128>,
}

impl View for Session {
    type V = Option<u128>;

    closed spec fn view(&self) -> Option<u128> {
        self.job
    }
}

impl Session {
    /// A session with no job.
    pub fn new() -> (r: Session)
        ensures
            r@ is None,
    {
        Session { job: None }
    }

    /// The id of the user's live job, if any.
    pub fn job(&self) -> (r: Option<u128>)
        ensures
            r == self@,
    {
        self.job
    }
}

/// What a time-to-live task does when its deadline passes.
#[derive(Clone, Copy, Debug, PartialEq, Eq, Structural)]
pub enum TimeoutAction {
    /// Leave everything as it is.
    Ignore,
    /// Kill the session's job and clear the slot.
    Reap,
}

/// The outcome of a deadline-bounded read of a job's output.
#[derive(Clone, Copy, Debug, PartialEq, Eq, Structural)]
pub enum ReadOutcome {
    /// This many bytes were read.
    Ready(usize),
    /// The deadline passed before any byte came.
    TimedOut,
    /// The stream failed.
    Failed,
}

/// The admission rule: one job per user, then the global ceiling.
pub open spec fn admission(live: nat, ceiling: usize, current: Option<u128>) -> Result<(), Rejection> {
    if current is Some {
        Err(Rejection::UserHasJob)
    } else if live >= ceiling {
        Err(Rejection::TooManyJobs)
    } else {
        Ok(())
    }
}

/// The timeout rule: act only on a session that still exists and still runs
/// the job the task was armed for.
pub open spec fn timeout_rule(session: Option<Option<u128>>, scheduled: u128) -> TimeoutAction {
    if session == Some(Some(scheduled)) {
        TimeoutAction::Reap
    } else {
        TimeoutAction::Ignore
    }
}

/// The registry after job `id` of `live` is reaped.
pub open spec fn reap_held(held: Map<u16, u128>, live: Map<u128, Vec<u16>>, id: u128, protect: bool) -> Map<u16, u128> {
    if live.contains_key(id) && protect {
        released(held, live[id]@)
    } else {
        held
    }
}

/// The engine's invariant: no more live jobs than the ceiling and, with port
/// protection on, every port of a live job is held by that job.
pub open spec fn engine_inv(live: Map<u128, Vec<u16>>, held: Map<u16, u128>, ceiling: usize, protect: bool) -> bool {
    &&& live.dom().finite()
    &&& live.len() <= ceiling
    &&& protect ==> forall|j: u128, p: u16|
        #[trigger] live.contains_key(j) && live[j]@.contains(p) ==> #[trigger] held.contains_key(p)
            && held[p] == j
}

/// Every port of `ports` is held by `owner`.
pub open spec fn all_held_by(held: Map<u16, u128>, ports: Seq<u16>, owner: u128) -> bool {
    forall|i: int| 0 <= i < ports.len() ==> #[trigger] held.contains_key(ports[i]) && held[ports[i]] == owner
}

/// The registry after an attempt by `owner` on `ports` is given up: the ports
/// it reserved go back, unless `owner` is a live job.
pub open spec fn abandoned(held: Map<u16, u128>, live: Map<u128, Vec<u16>>, ports: Seq<u16>, owner: u128) -> Map<u16, u128> {
    if live.contains_key(owner) {
        held
    } else {
        released_owned(held, ports, owner)
    }
}

/// Decides what a time-to-live task does. `session` is `None` when the
/// session has no strong holder left.
pub fn timeout_action(session: Option<&Session>, scheduled: u128) -> (r: TimeoutAction)
    ensures
        r == timeout_rule(
            match session {
                Some(s) => Some(s@),
                None => None,
            },
            scheduled,
        ),
{
    match session {
        Some(s) => match s.job {
            Some(id) => if id == scheduled {
                TimeoutAction::Reap
            } else {
                TimeoutAction::Ignore
            },
            None => TimeoutAction::Ignore,
        },
        None => TimeoutAction::Ignore,
    }
}

/// Turns the outcome of a bounded read into the caller's answer: a passed
/// deadline is zero new bytes, not an error.
pub fn read_result(outcome: ReadOutcome) -> (r: Result<usize, Rejection>)
    ensures
        r == (match outcome {
            ReadOutcome::Ready(n) => Ok(n),
            ReadOutcome::TimedOut => Ok(0usize),
            ReadOutcome::Failed => Err(Rejection::Internal),
        }),
{
    match outcome {
        ReadOutcome::Ready(n) => Ok(n),
        ReadOutcome::TimedOut => Ok(0),
        ReadOutcome::Failed => Err(Rejection::Internal),
    }
}

/// The live jobs, each with its declared ports, and the port registry. Every
/// change goes through `&mut self`, so callers that share one engine behind a
/// lock make the ceiling a strict bound across all users.
pub struct Engine {
    jobs: HashMap<u128, Vec<u16>>,
    registry: PortRegistry,
    ceiling: usize,
    shared_port_protections: bool,
    port_min: u16,
    port_max: u16,
}

impl Engine {
    /// Live jobs by id, with their ports.
    pub closed spec fn live(&self) -> Map<u128, Vec<u16>> {
        self.jobs@
    }

    /// Held ports, each with the id of the job holding it.
    pub closed spec fn held(&self) -> Map<u16, u128> {
        self.registry@
    }

    /// The settings: ceiling, port protection, lowest and highest allowed port.
    pub closed spec fn settings(&self) -> (usize, bool, u16, u16) {
        (self.ceiling, self.shared_port_protections, self.port_min, self.port_max)
    }

    pub open spec fn ceiling_spec(&self) -> usize {
        self.settings().0
    }

    pub open spec fn protects(&self) -> bool {
        self.settings().1
    }

    pub open spec fn wf(&self) -> bool {
        engine_inv(self.live(), self.held(), self.ceiling_spec(), self.protects())
    }

    /// An engine with no jobs and no held ports. Ports are allowed in
    /// `port_min..=port_max`.
    pub fn new(ceiling: usize, shared_port_protections: bool, port_min: u16, port_max: u16) -> (r: Engine)
        ensures
            r.wf(),
            r.live() == Map::<u128, Vec<u16>>::empty(),
            r.held() == Map::<u16, u128>::empty(),
            r.settings() == (ceiling, shared_port_protections, port_min, port_max),
    {
        Engine {
            jobs: HashMap::new(),
            registry: PortRegistry::new(),
            ceiling,
            shared_port_protections,
            port_min,
            port_max,
        }
    }

    /// The number of live jobs.
    pub fn count(&self) -> (r: usize)
        requires
            self.wf(),
        ensures
            r == self.live().len(),
    {
        self.jobs.len()
    }

    /// Whether job `id` is live.
    pub fn is_live(&self, id: u128) -> (r: bool)
        ensures
            r == self.live().contains_key(id),
    {
        self.jobs.contains_key(&id)
    }

    /// Which job holds `port`, if any.
    pub fn holder(&self, port: u16) -> (r: Option<u128>)
        ensures
            r == (if self.held().contains_key(port) {
                Some(self.held()[port])
            } else {
                None::<u128>
            }),
    {
        self.registry.holder(port)
    }

    /// The admission check, made once before the costly work and again under
    /// the session's lock.
    pub fn check_admission(&self, session: &Session) -> (r: Result<(), Rejection>)
        requires
            self.wf(),
        ensures
            r == admission(self.live().len(), self.ceiling_spec(), session@),
    {
        if session.job.is_some() {
            Err(Rejection::UserHasJob)
        } else if self.jobs.len() >= self.ceiling {
            Err(Rejection::TooManyJobs)
        } else {
            Ok(())
        }
    }

    /// Checks the declared ports against the allowed range and, with port
    /// protection on, reserves them all for `id` at once.
    pub fn reserve_ports(&mut self, ports: &Vec<u16>, id: u128) -> (r: Result<(), Rejection>)
        requires
            old(self).wf(),
        ensures
            final(self).wf(),
            final(self).live() == old(self).live(),
            final(self).settings() == old(self).settings(),
            match r {
                Ok(()) => {
                    &&& outside_range(ports@, old(self).settings().2, old(self).settings().3).len() == 0
                    &&& old(self).protects() ==> held_among(ports@, old(self).held()).len() == 0
                    &&& final(self).held() == (if old(self).protects() {
                        reserved(old(self).held(), ports@, id)
                    } else {
                        old(self).held()
                    })
                },
                Err(Rejection::IllegalPorts { ports: bad, min, max }) => {
                    &&& bad@ == outside_range(ports@, old(self).settings().2, old(self).settings().3)
                    &&& bad@.len() > 0
                    &&& min == old(self).settings().2
                    &&& max == old(self).settings().3
                    &&& final(self).held() == old(self).held()
                },
                Err(Rejection::PortConflict { ports: taken }) => {
                    &&& outside_range(ports@, old(self).settings().2, old(self).settings().3).len() == 0
                    &&& old(self).protects()
                    &&& taken@ == held_among(ports@, old(self).held())
                    &&& taken@.len() > 0
                    &&& final(self).held() == old(self).held()
                },
                Err(_) => false,
            },
            r is Ok <==> {
                &&& forall|i: int| 0 <= i < ports@.len() ==>
                    old(self).settings().2 <= #[trigger] ports@[i] <= old(self).settings().3
                &&& old(self).protects() ==> forall|i: int|
                    0 <= i < ports@.len() ==> !old(self).held().contains_key(#[trigger] ports@[i])
            },
    {
        proof {
            crate::ports::lemma_outside_range_len(ports@, self.port_min, self.port_max);
            crate::ports::lemma_held_among_len(ports@, self.registry@);
        }
        match validate_range(ports, self.port_min, self.port_max) {
            Err(bad) => {
                return Err(Rejection::IllegalPorts { ports: bad, min: self.port_min, max: self.port_max });
            },
            Ok(()) => {},
        }
        if !self.shared_port_protections {
            return Ok(());
        }
        let ghost before = self.registry@;
        match self.registry.try_reserve(ports, id) {
            Err(taken) => Err(Rejection::PortConflict { ports: taken }),
            Ok(()) => {
                proof {
                    crate::ports::lemma_held_among_len(ports@, before);
                    assert forall|j: u128, p: u16|
                        #[trigger] self.jobs@.contains_key(j) && self.jobs@[j]@.contains(p) implies
                        #[trigger] self.registry@.contains_key(p) && self.registry@[p] == j by {
                        if ports@.contains(p) {
                            let k = choose|k: int| 0 <= k < ports@.len() && ports@[k] == p;
                            assert(!before.contains_key(ports@[k]));
                        }
                    }
                }
                Ok(())
            },
        }
    }

    /// Gives up an attempt by `id`: the ports of `ports` that `id` holds go
    /// back to the registry, unless `id` is a live job.
    pub fn abandon(&mut self, ports: &Vec<u16>, id: u128)
        requires
            old(self).wf(),
        ensures
            final(self).wf(),
            final(self).live() == old(self).live(),
            final(self).settings() == old(self).settings(),
            final(self).held() == abandoned(old(self).held(), old(self).live(), ports@, id),
    {
        if !self.jobs.contains_key(&id) {
            self.registry.release_owned(ports, id);
        }
    }

    /// Whether `id` holds every port of `ports`.
    pub fn holds_all(&self, ports: &Vec<u16>, id: u128) -> (r: bool)
        ensures
            r == all_held_by(self.held(), ports@, id),
    {
        let mut i: usize = 0;
        while i < ports.len()
            invariant
                i <= ports@.len(),
                all_held_by(self.held(), ports@.subrange(0, i as int), id),
            decreases ports.len() - i,
        {
            if self.registry.holder(ports[i]) != Some(id) {
                assert(!(self.held().contains_key(ports@[i as int]) && self.held()[ports@[i as int]] == id));
                return false;
            }
            assert forall|k: int| 0 <= k < i + 1 implies #[trigger] self.held().contains_key(ports@.subrange(0, i as int + 1)[k])
                && self.held()[ports@.subrange(0, i as int + 1)[k]] == id by {
                if k < i {
                    assert(ports@.subrange(0, i as int + 1)[k] == ports@.subrange(0, i as int)[k]);
                }
            }
            i = i + 1;
        }
        assert(ports@.subrange(0, ports@.len() as int) =~= ports@);
        true
    }

    /// Installs job `id` with its ports into an empty session slot. The
    /// admission rule is checked again here, under the caller's locks; on a
    /// rejection the ports reserved for `id` are given back.
    pub fn commit(&mut self, session: &mut Session, id: u128, ports: Vec<u16>) -> (r: Result<(), Rejection>)
        requires
            old(self).wf(),
        ensures
            final(self).wf(),
            final(self).settings() == old(self).settings(),
            match admission(old(self).live().len(), old(self).ceiling_spec(), old(session)@) {
                Err(e) => {
                    &&& r == Err::<(), Rejection>(e)
                    &&& final(self).live() == old(self).live()
                    &&& final(self).held() == abandoned(old(self).held(), old(self).live(), ports@, id)
                    &&& final(session)@ == old(session)@
                },
                Ok(()) => if old(self).live().contains_key(id) {
                    &&& r == Err::<(), Rejection>(Rejection::Internal)
                    &&& final(self).live() == old(self).live()
                    &&& final(self).held() == old(self).held()
                    &&& final(session)@ == old(session)@
                } else if old(self).protects() && !all_held_by(old(self).held(), ports@, id) {
                    &&& r == Err::<(), Rejection>(Rejection::Internal)
                    &&& final(self).live() == old(self).live()
                    &&& final(self).held() == released_owned(old(self).held(), ports@, id)
                    &&& final(session)@ == old(session)@
                } else {
                    &&& r == Ok::<(), Rejection>(())
                    &&& final(self).live() == old(self).live().insert(id, ports)
                    &&& final(self).held() == old(self).held()
                    &&& final(session)@ == Some(id)
                },
            },
    {
        match self.check_admission(session) {
            Err(e) => {
                self.abandon(&ports, id);
                return Err(e);
            },
            Ok(()) => {},
        }
        if self.jobs.contains_key(&id) {
            return Err(Rejection::Internal);
        }
        if self.shared_port_protections && !self.holds_all(&ports, id) {
            self.abandon(&ports, id);
            return Err(Rejection::Internal);
        }
        let ghost before = self.jobs@;
        let ghost declared = ports@;
        self.jobs.insert(id, ports);
        session.job = Some(id);
        proof {
            assert(self.jobs@.len() == before.len() + 1);
            if self.shared_port_protections {
                assert forall|j: u128, p: u16|
                    #[trigger] self.jobs@.contains_key(j) && self.jobs@[j]@.contains(p) implies
                    #[trigger] self.registry@.contains_key(p) && self.registry@[p] == j by {
                    if j == id {
                        let k = choose|k: int| 0 <= k < declared.len() && declared[k] == p;
                        assert(self.registry@.contains_key(declared[k]));
                    }
                }
            }
        }
        Ok(())
    }

    /// Reaps job `id`: drops it from the live jobs and gives back its ports.
    /// Returns whether it was live; reaping a job that is gone does nothing.
    fn reap(&mut self, id: u128) -> (r: bool)
        requires
            old(self).wf(),
        ensures
            final(self).wf(),
            final(self).settings() == old(self).settings(),
            r == old(self).live().contains_key(id),
            final(self).live() == old(self).live().remove(id),
            final(self).held() == reap_held(old(self).held(), old(self).live(), id, old(self).protects()),
    {
        let ghost before = self.jobs@;
        let ghost held_before = self.registry@;
        match self.jobs.remove(&id) {
            Some(ports) => {
                if self.shared_port_protections {
                    self.registry.release(&ports);
                }
                proof {
                    assert(self.jobs@.len() == before.len() - 1);
                    if self.shared_port_protections {
                        assert forall|j: u128, p: u16|
                            #[trigger] self.jobs@.contains_key(j) && self.jobs@[j]@.contains(p) implies
                            #[trigger] self.registry@.contains_key(p) && self.registry@[p] == j by {
                            assert(before.contains_key(j) && before[j]@.contains(p));
                            assert(held_before.contains_key(p) && held_before[p] == j);
                            if ports@.contains(p) {
                                assert(before[id]@.contains(p));
                            }
                        }
                    }
                }
                true
            },
            None => {
                assert(self.jobs@ =~= before.remove(id));
                false
            },
        }
    }

    /// Kills the session's job, if any: clears the slot and reaps the job.
    /// Returns the id of the job whose process is to be stopped.
    pub fn kill(&mut self, session: &mut Session) -> (r: Option<u128>)
        requires
            old(self).wf(),
        ensures
            final(self).wf(),
            final(self).settings() == old(self).settings(),
            r == old(session)@,
            final(session)@ is None,
            match old(session)@ {
                Some(id) => {
                    &&& final(self).live() == old(self).live().remove(id)
                    &&& final(self).held() == reap_held(old(self).held(), old(self).live(), id, old(self).protects())
                },
                None => {
                    &&& final(self).live() == old(self).live()
                    &&& final(self).held() == old(self).held()
                },
            },
    {
        let current = session.job;
        session.job = None;
        match current {
            Some(id) => {
                self.reap(id);
            },
            None => {},
        }
        current
    }

    /// Runs a time-to-live task whose session still exists: the job is killed
    /// only if it is still the one the task was armed for.
    pub fn on_timeout(&mut self, session: &mut Session, scheduled: u128) -> (r: bool)
        requires
            old(self).wf(),
        ensures
            final(self).wf(),
            final(self).settings() == old(self).settings(),
            r == (timeout_rule(Some(old(session)@), scheduled) == TimeoutAction::Reap),
            r ==> {
                &&& final(session)@ is None
                &&& final(self).live() == old(self).live().remove(scheduled)
                &&& final(self).held() == reap_held(old(self).held(), old(self).live(), scheduled, old(self).protects())
            },
            !r ==> {
                &&& final(session)@ == old(session)@
                &&& final(self).live() == old(self).live()
                &&& final(self).held() == old(self).held()
            },
    {
        if timeout_action(Some(&*session), scheduled) == TimeoutAction::Reap {
            self.kill(session);
            true
        } else {
            false
        }
    }
}

/// With every change made through the engine, the live jobs never outnumber
/// the ceiling.
pub proof fn lemma_live_within_ceiling(e: &Engine)
    requires
        e.wf(),
    ensures
        e.live().len() <= e.ceiling_spec(),
{
}

/// Once the live jobs reach the ceiling, every user without a job is turned
/// away as too many, however many ask at once.
pub proof fn lemma_full_engine_turns_new_users_away(live: nat, ceiling: usize)
    requires
        live >= ceiling,
    ensures
        admission(live, ceiling, None) == Err::<(), Rejection>(Rejection::TooManyJobs),
{
}

/// A user who has a live job is always turned away, whatever the count.
pub proof fn lemma_one_job_per_user(live: nat, ceiling: usize, current: u128)
    ensures
        admission(live, ceiling, Some(current)) == Err::<(), Rejection>(Rejection::UserHasJob),
{
}

/// With port protection on, two different live jobs never share a port.
pub proof fn lemma_live_ports_disjoint(e: &Engine, a: u128, b: u128, p: u16)
    requires
        e.wf(),
        e.protects(),
        a != b,
        e.live().contains_key(a),
        e.live().contains_key(b),
    ensures
        !(e.live()[a]@.contains(p) && e.live()[b]@.contains(p)),
{
    if e.live()[a]@.contains(p) && e.live()[b]@.contains(p) {
        assert(e.held().contains_key(p));
    }
}

/// Reaping a job a second time changes nothing: its ports go back, and the
/// count drops, exactly once.
pub proof fn lemma_reap_once(held: Map<u16, u128>, live: Map<u128, Vec<u16>>, id: u128, protect: bool)
    ensures
        live.remove(id).remove(id) == live.remove(id),
        reap_held(reap_held(held, live, id, protect), live.remove(id), id, protect) == reap_held(
            held,
            live,
            id,
            protect,
        ),
{
    assert(live.remove(id).remove(id) =~= live.remove(id));
}

/// A task armed for an older job leaves a newer job of the same user alone.
pub proof fn lemma_stale_timeout_spares_newer(newer: u128, scheduled: u128)
    requires
        newer != scheduled,
    ensures
        timeout_rule(Some(Some(newer)), scheduled) == TimeoutAction::Ignore,
        timeout_rule(Some(None), scheduled) == TimeoutAction::Ignore,
{
}

/// A task whose session has no strong holder left does nothing.
pub proof fn lemma_orphaned_timeout_ignored(scheduled: u128)
    ensures
        timeout_rule(None, scheduled) == TimeoutAction::Ignore,
{
}

} // verus!
