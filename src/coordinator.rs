use std::collections::HashMap;
use vstd::prelude::*;

verus! {

broadcast use vstd::std_specs::hash::group_hash_axioms;

/// What a request for an asset does after checking the cache.
#[derive(Debug, Clone, Copy, PartialEq, Eq, Structural)]
pub enum Begin {
    /// The entry is present: read it.
    Hit,
    /// This request takes the given ticket and is the only one that may fetch:
    /// it checks again that the entry is absent, fetches and stores it, and
    /// finishes the ticket whatever the outcome.
    Fetch(u64),
    /// A fetch under the given ticket is in flight: wait for it to end.
    Wait(u64),
}

/// Where a waiting request stands once woken.
#[derive(Debug, Clone, Copy, PartialEq, Eq, Structural)]
pub enum WaitState {
    /// The fetch it waits on is still in flight.
    Pending,
    /// That fetch ended and the entry is present.
    Ready,
    /// That fetch ended, and the check given saw no entry. The check may
    /// predate the fetch's end, so only a check made now tells whether the
    /// fetch stored the entry.
    Ended,
}

/// The in-flight table as a mathematical value: the ticket of each asset's
/// fetch in flight, and the ticket the next fetch gets.
pub struct CoordModel {
    pub flights: Map<u32, u64>,
    pub next: u64,
}

pub open spec fn next_ticket(t: u64) -> u64 {
    if t == u64::MAX {
        0
    } else {
        (t + 1) as u64
    }
}

/// A request for `id` that found the entry `present` or not.
pub open spec fn begin_model(m: CoordModel, id: u32, present: bool) -> (CoordModel, Begin) {
    if present {
        (m, Begin::Hit)
    } else if m.flights.contains_key(id) {
        (m, Begin::Wait(m.flights[id]))
    } else {
        (
            CoordModel { flights: m.flights.insert(id, m.next), next: next_ticket(m.next) },
            Begin::Fetch(m.next),
        )
    }
}

/// The fetch of `id` under `ticket` ended; a stale ticket changes nothing.
pub open spec fn finish_model(m: CoordModel, id: u32, ticket: u64) -> CoordModel {
    if m.flights.contains_key(id) && m.flights[id] == ticket {
        CoordModel { flights: m.flights.remove(id), next: m.next }
    } else {
        m
    }
}

/// Where a request that waits on `ticket` for `id` stands, given whether the
/// entry is now present.
pub open spec fn wait_model(m: CoordModel, id: u32, ticket: u64, present: bool) -> WaitState {
    if m.flights.contains_key(id) && m.flights[id] == ticket {
        WaitState::Pending
    } else if present {
        WaitState::Ready
    } else {
        WaitState::Ended
    }
}

/// `n` requests for `id` in a row, none of which finds the entry present.
pub open spec fn begin_many(m: CoordModel, id: u32, n: nat) -> (CoordModel, Seq<Begin>)
    decreases n,
{
    if n == 0 {
        (m, Seq::empty())
    } else {
        let (m1, bs) = begin_many(m, id, (n - 1) as nat);
        let (m2, b) = begin_model(m1, id, false);
        (m2, bs.push(b))
    }
}

/// Keeps at most one fetch in flight per asset: the first request that misses
/// the cache becomes the fetcher, later ones wait for it.
pub struct Coordinator {
    flights: HashMap<u32, u64>,
    next: u64,
}

impl View for Coordinator {
    type V = CoordModel;

    closed spec fn view(&self) -> CoordModel {
        CoordModel { flights: self.flights@, next: self.next }
    }
}

impl Coordinator {
    /// A table with no fetch in flight.
    pub fn new() -> (r: Coordinator)
        ensures
            r@.flights == Map::<u32, u64>::empty(),
            r@.next == 0,
    {
        Coordinator { flights: HashMap::new(), next: 0 }
    }

    /// Whether a fetch of `id` is in flight.
    pub fn in_flight(&self, id: u32) -> (r: bool)
        ensures
            r == self@.flights.contains_key(id),
    {
        self.flights.contains_key(&id)
    }

    /// Decides what a request for `id` does, given whether its entry is present.
    pub fn begin(&mut self, id: u32, present: bool) -> (r: Begin)
        ensures
            (final(self)@, r) == begin_model(old(self)@, id, present),
    {
        if present {
            return Begin::Hit;
        }
        match self.flights.get(&id) {
            Some(t) => Begin::Wait(*t),
            None => {
                let t = self.next;
                self.flights.insert(id, t);
                self.next = if t == u64::MAX {
                    0
                } else {
                    t + 1
                };
                Begin::Fetch(t)
            },
        }
    }

    /// Ends the fetch of `id` under `ticket`, whatever its outcome, so that
    /// its waiters move on and a later request may fetch again.
    pub fn finish(&mut self, id: u32, ticket: u64)
        ensures
            final(self)@ == finish_model(old(self)@, id, ticket),
    {
        let current = match self.flights.get(&id) {
            Some(t) => *t == ticket,
            None => false,
        };
        if current {
            self.flights.remove(&id);
        }
    }

    /// Where a request that waits on `ticket` for `id` stands.
    pub fn wait_state(&self, id: u32, ticket: u64, present: bool) -> (r: WaitState)
        ensures
            r == wait_model(self@, id, ticket, present),
    {
        let pending = match self.flights.get(&id) {
            Some(t) => *t == ticket,
            None => false,
        };
        if pending {
            WaitState::Pending
        } else if present {
            WaitState::Ready
        } else {
            WaitState::Ended
        }
    }
}

/// A request that finds the entry present is served from it: no fetch is
/// started and the table is left as it was.
pub proof fn lemma_present_entry_is_hit(m: CoordModel, id: u32)
    ensures
        begin_model(m, id, true) == (m, Begin::Hit),
{
}

/// `n >= 1` requests for an asset with no fetch in flight, each of which
/// saw no entry and reaches the table before any of them ends its fetch: the
/// first one takes the ticket, every other one waits on that same ticket, and
/// the table then holds exactly that ticket. Requests that reach the table in
/// any other order are covered by the request flow's single-fetcher invariant.
pub proof fn lemma_misses_share_one_ticket(m: CoordModel, id: u32, n: nat)
    requires
        !m.flights.contains_key(id),
        n >= 1,
    ensures
        begin_many(m, id, n).1.len() == n,
        begin_many(m, id, n).1[0] == Begin::Fetch(m.next),
        forall|i: int| 1 <= i < n ==> #[trigger] begin_many(m, id, n).1[i] == Begin::Wait(m.next),
        begin_many(m, id, n).0 == (CoordModel {
            flights: m.flights.insert(id, m.next),
            next: next_ticket(m.next),
        }),
    decreases n,
{
    if n > 1 {
        lemma_misses_share_one_ticket(m, id, (n - 1) as nat);
        let (m1, bs) = begin_many(m, id, (n - 1) as nat);
        assert(m1.flights.contains_key(id));
        let all = begin_many(m, id, n).1;
        assert(all == bs.push(Begin::Wait(m.next)));
        assert forall|i: int| 1 <= i < n implies #[trigger] all[i] == Begin::Wait(m.next) by {
            if i < n - 1 {
                assert(all[i] == bs[i]);
            }
        }
    } else {
        assert(begin_many(m, id, 0).1 =~= Seq::<Begin>::empty());
    }
}

/// Of those same requests: once the ticket is given back, every one that
/// waits on it and then sees the entry is ready to read that one entry.
pub proof fn lemma_waiters_share_the_fetch(m: CoordModel, id: u32, n: nat)
    requires
        !m.flights.contains_key(id),
        n >= 1,
    ensures
        ({
            let (m1, bs) = begin_many(m, id, n);
            let m2 = finish_model(m1, id, m.next);
            forall|i: int|
                1 <= i < n ==> (#[trigger] bs[i] matches Begin::Wait(t) && wait_model(
                    m2,
                    id,
                    t,
                    true,
                ) == WaitState::Ready)
        }),
{
    lemma_misses_share_one_ticket(m, id, n);
}

} // verus!
