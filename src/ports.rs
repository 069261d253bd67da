use std::collections::HashMap;
use vstd::prelude::*;

verus! {

broadcast use vstd::std_specs::hash::group_hash_axioms;

/// The ports of `ports`, in order, that lie outside the inclusive range `lo..=hi`.
pub open spec fn outside_range(ports: Seq<u16>, lo: u16, hi: u16) -> Seq<u16>
    decreases ports.len(),
{
    if ports.len() == 0 {
        Seq::empty()
    } else {
        let rest = outside_range(ports.drop_last(), lo, hi);
        let p = ports.last();
        if lo <= p && p <= hi {
            rest
        } else {
            rest.push(p)
        }
    }
}

/// The ports of `ports`, in order, that `held` already assigns to a job.
pub open spec fn held_among(ports: Seq<u16>, held: Map<u16, u128>) -> Seq<u16>
    decreases ports.len(),
{
    if ports.len() == 0 {
        Seq::empty()
    } else {
        let rest = held_among(ports.drop_last(), held);
        let p = ports.last();
        if held.contains_key(p) {
            rest.push(p)
        } else {
            rest
        }
    }
}

/// `held` after every port of `ports` has been assigned to `owner`.
pub open spec fn reserved(held: Map<u16, u128>, ports: Seq<u16>, owner: u128) -> Map<u16, u128> {
    Map::new(
        |p: u16| held.contains_key(p) || ports.contains(p),
        |p: u16|
            if ports.contains(p) {
                owner
            } else {
                held[p]
            },
    )
}

/// `held` without any port of `ports`.
pub open spec fn released(held: Map<u16, u128>, ports: Seq<u16>) -> Map<u16, u128> {
    Map::new(|p: u16| held.contains_key(p) && !ports.contains(p), |p: u16| held[p])
}

/// `held` without those ports of `ports` that it assigns to `owner`.
pub open spec fn released_owned(held: Map<u16, u128>, ports: Seq<u16>, owner: u128) -> Map<u16, u128> {
    Map::new(
        |p: u16| held.contains_key(p) && !(ports.contains(p) && held[p] == owner),
        |p: u16| held[p],
    )
}

/// The set of ports that `held` assigns to `owner`.
pub open spec fn owned_by(held: Map<u16, u128>, owner: u128) -> Set<u16> {
    Set::new(|p: u16| held.contains_key(p) && held[p] == owner)
}

/// A prefix one longer holds exactly the ports of the shorter one and the
/// next port.
proof fn lemma_prefix_step(s: Seq<u16>, i: int)
    requires
        0 <= i < s.len(),
    ensures
        forall|q: u16| #[trigger] s.subrange(0, i + 1).contains(q) <==> s.subrange(0, i).contains(q) || q == s[i],
{
    let longer = s.subrange(0, i + 1);
    let shorter = s.subrange(0, i);
    assert forall|q: u16| longer.contains(q) implies shorter.contains(q) || q == s[i] by {
        let k = choose|k: int| 0 <= k < longer.len() && longer[k] == q;
        if k < i {
            assert(shorter[k] == q);
        }
    }
    assert forall|q: u16| shorter.contains(q) implies longer.contains(q) by {
        let k = choose|k: int| 0 <= k < shorter.len() && shorter[k] == q;
        assert(longer[k] == q);
    }
    assert(longer[i] == s[i]);
}

/// No port outside the range means that every port lies in it.
pub proof fn lemma_outside_range_len(ports: Seq<u16>, lo: u16, hi: u16)
    ensures
        outside_range(ports, lo, hi).len() == 0 <==> forall|i: int|
            0 <= i < ports.len() ==> lo <= #[trigger] ports[i] <= hi,
    decreases ports.len(),
{
    if ports.len() > 0 {
        lemma_outside_range_len(ports.drop_last(), lo, hi);
        assert(forall|i: int| 0 <= i < ports.len() - 1 ==> ports.drop_last()[i] == ports[i]);
    }
}

/// No conflicts means that no requested port is held.
pub proof fn lemma_held_among_len(ports: Seq<u16>, held: Map<u16, u128>)
    ensures
        held_among(ports, held).len() == 0 <==> forall|i: int|
            0 <= i < ports.len() ==> !held.contains_key(#[trigger] ports[i]),
    decreases ports.len(),
{
    if ports.len() > 0 {
        lemma_held_among_len(ports.drop_last(), held);
        assert(forall|i: int| 0 <= i < ports.len() - 1 ==> ports.drop_last()[i] == ports[i]);
    }
}

/// Checks every port against the inclusive range `lo..=hi`, and on failure
/// names every port outside it, in the order given.
pub fn validate_range(ports: &Vec<u16>, lo: u16, hi: u16) -> (r: Result<(), Vec<u16>>)
    ensures
        match r {
            Ok(()) => outside_range(ports@, lo, hi).len() == 0,
            Err(bad) => bad@ == outside_range(ports@, lo, hi) && bad@.len() > 0,
        },
        r is Ok <==> forall|i: int| 0 <= i < ports@.len() ==> lo <= #[trigger] ports@[i] <= hi,
{
    proof {
        lemma_outside_range_len(ports@, lo, hi);
    }
    let mut bad: Vec<u16> = Vec::new();
    let mut i: usize = 0;
    while i < ports.len()
        invariant
            i <= ports@.len(),
            bad@ == outside_range(ports@.subrange(0, i as int), lo, hi),
        decreases ports.len() - i,
    {
        let p = ports[i];
        assert(ports@.subrange(0, i as int + 1).drop_last() =~= ports@.subrange(0, i as int));
        if p < lo || p > hi {
            bad.push(p);
        }
        i = i + 1;
    }
    assert(ports@.subrange(0, ports@.len() as int) =~= ports@);
    if bad.len() == 0 {
        Ok(())
    } else {
        Err(bad)
    }
}

/// The global table of listen ports held by jobs, each mapped to the job's id.
pub struct PortRegistry {
    held: HashMap<u16, u128>,
}

impl View for PortRegistry {
    type V = Map<u16, u128>;

    closed spec fn view(&self) -> Map<u16, u128> {
        self.held@
    }
}

impl PortRegistry {
    /// An empty registry.
    pub fn new() -> (r: PortRegistry)
        ensures
            r@ == Map::<u16, u128>::empty(),
    {
        PortRegistry { held: HashMap::new() }
    }

    /// Whether `port` is currently held, and by which job.
    pub fn holder(&self, port: u16) -> (r: Option<u128>)
        ensures
            r == (if self@.contains_key(port) {
                Some(self@[port])
            } else {
                None::<u128>
            }),
    {
        match self.held.get(&port) {
            Some(owner) => Some(*owner),
            None => None,
        }
    }

    /// The ports of `ports` that are already held, in the order given.
    pub fn conflicts(&self, ports: &Vec<u16>) -> (r: Vec<u16>)
        ensures
            r@ == held_among(ports@, self@),
    {
        let mut out: Vec<u16> = Vec::new();
        let mut i: usize = 0;
        while i < ports.len()
            invariant
                i <= ports@.len(),
                out@ == held_among(ports@.subrange(0, i as int), self@),
            decreases ports.len() - i,
        {
            let p = ports[i];
            assert(ports@.subrange(0, i as int + 1).drop_last() =~= ports@.subrange(0, i as int));
            if self.held.contains_key(&p) {
                out.push(p);
            }
            i = i + 1;
        }
        assert(ports@.subrange(0, ports@.len() as int) =~= ports@);
        out
    }

    /// Claims every port of `ports` for `owner`, all or nothing: if any is
    /// already held, nothing changes and every held one is named.
    pub fn try_reserve(&mut self, ports: &Vec<u16>, owner: u128) -> (r: Result<(), Vec<u16>>)
        ensures
            match r {
                Ok(()) => {
                    &&& held_among(ports@, old(self)@).len() == 0
                    &&& final(self)@ == reserved(old(self)@, ports@, owner)
                },
                Err(taken) => {
                    &&& taken@ == held_among(ports@, old(self)@)
                    &&& taken@.len() > 0
                    &&& final(self)@ == old(self)@
                },
            },
            r is Ok <==> forall|i: int| 0 <= i < ports@.len() ==> !old(self)@.contains_key(#[trigger] ports@[i]),
    {
        proof {
            lemma_held_among_len(ports@, self@);
        }
        let taken = self.conflicts(ports);
        if taken.len() > 0 {
            return Err(taken);
        }
        let ghost start = self@;
        let mut i: usize = 0;
        while i < ports.len()
            invariant
                i <= ports@.len(),
                self@ == reserved(start, ports@.subrange(0, i as int), owner),
            decreases ports.len() - i,
        {
            let p = ports[i];
            self.held.insert(p, owner);
            let ghost next = ports@.subrange(0, i as int + 1);
            proof {
                lemma_prefix_step(ports@, i as int);
            }
            assert(self@ =~= reserved(start, next, owner));
            i = i + 1;
        }
        assert(ports@.subrange(0, ports@.len() as int) =~= ports@);
        Ok(())
    }

    /// Removes every port of `ports`; ports that are not held are skipped.
    pub fn release(&mut self, ports: &Vec<u16>)
        ensures
            final(self)@ == released(old(self)@, ports@),
    {
        let ghost start = self@;
        let mut i: usize = 0;
        while i < ports.len()
            invariant
                i <= ports@.len(),
                self@ == released(start, ports@.subrange(0, i as int)),
            decreases ports.len() - i,
        {
            let p = ports[i];
            self.held.remove(&p);
            let ghost next = ports@.subrange(0, i as int + 1);
            proof {
                lemma_prefix_step(ports@, i as int);
            }
            assert(self@ =~= released(start, next));
            i = i + 1;
        }
        assert(ports@.subrange(0, ports@.len() as int) =~= ports@);
    }
}

impl PortRegistry {
    /// Removes those ports of `ports` that `owner` holds; others stay as they are.
    pub fn release_owned(&mut self, ports: &Vec<u16>, owner: u128)
        ensures
            final(self)@ == released_owned(old(self)@, ports@, owner),
    {
        let ghost start = self@;
        let mut i: usize = 0;
        while i < ports.len()
            invariant
                i <= ports@.len(),
                self@ == released_owned(start, ports@.subrange(0, i as int), owner),
                forall|q: u16| #[trigger] self@.contains_key(q) ==> start.contains_key(q) && self@[q] == start[q],
            decreases ports.len() - i,
        {
            let p = ports[i];
            let ghost before = self@;
            if self.holder(p) == Some(owner) {
                self.held.remove(&p);
            }
            let ghost next = ports@.subrange(0, i as int + 1);
            proof {
                lemma_prefix_step(ports@, i as int);
            }
            assert(self@ =~= released_owned(start, next, owner));
            i = i + 1;
        }
        assert(ports@.subrange(0, ports@.len() as int) =~= ports@);
    }
}

/// Two different jobs never hold a common port: the registry maps each port
/// to exactly one job.
pub proof fn lemma_owned_ports_disjoint(held: Map<u16, u128>, a: u128, b: u128)
    requires
        a != b,
    ensures
        owned_by(held, a).disjoint(owned_by(held, b)),
{
}

/// A reservation that succeeds leaves the ports of every other job as they were.
pub proof fn lemma_reserve_keeps_others(held: Map<u16, u128>, ports: Seq<u16>, owner: u128, other: u128)
    requires
        held_among(ports, held).len() == 0,
        other != owner,
    ensures
        owned_by(reserved(held, ports, owner), other) == owned_by(held, other),
{
    lemma_held_among_len(ports, held);
    assert(owned_by(reserved(held, ports, owner), other) =~= owned_by(held, other));
}

/// The conflicts that a failed reservation reports include every requested
/// port that was already held.
pub proof fn lemma_failed_reserve_names_every_conflict(held: Map<u16, u128>, ports: Seq<u16>, p: u16)
    requires
        ports.contains(p),
        held.contains_key(p),
    ensures
        held_among(ports, held).contains(p),
    decreases ports.len(),
{
    if ports.last() != p {
        assert(ports.drop_last().contains(p)) by {
            let k = choose|k: int| 0 <= k < ports.len() && ports[k] == p;
            assert(ports.drop_last()[k] == p);
        }
        lemma_failed_reserve_names_every_conflict(held, ports.drop_last(), p);
        let rest = held_among(ports.drop_last(), held);
        let k = choose|k: int| 0 <= k < rest.len() && rest[k] == p;
        if held.contains_key(ports.last()) {
            assert(rest.push(ports.last())[k] == p);
        }
    } else {
        let all = held_among(ports, held);
        assert(all[all.len() - 1] == p);
    }
}

} // verus!
