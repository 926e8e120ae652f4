use vstd::prelude::*;
use crate::asset::{parse_asset_file_name, parsed_asset_id};
use crate::coordinator::{
    begin_model, finish_model, wait_model, Begin, CoordModel, Coordinator, WaitState,
};

verus! {

/// Whether an HTTP status code is a success (2xx).
pub open spec fn is_success_status(status: u16) -> bool {
    200 <= status <= 299
}

/// Whether the origin answered with a success status.
pub fn is_success(status: u16) -> (r: bool)
    ensures
        r == is_success_status(status),
{
    200 <= status && status <= 299
}

/// Why a fetch from the origin gave no bytes.
#[derive(Debug, Clone, Copy, PartialEq, Eq, Structural)]
pub enum FetchFailure {
    /// The request could not be made or got no response.
    Transport,
    /// The origin answered with a status other than 2xx.
    Status(u16),
    /// The response body could not be read.
    Body,
}

/// Why a cache fill did not produce the entry.
#[derive(Debug, Clone, Copy, PartialEq, Eq, Structural)]
pub enum FillError {
    Fetch(FetchFailure),
    /// Writing the entry to the cache failed.
    Write,
    /// The fetch that this request waited on ended without the entry.
    PeerFailed,
}

/// What the origin's answer gives: the body on a success status with a body,
/// else the first failure met (no response, then status, then body).
pub open spec fn fetch_result_of(status: Option<u16>, body: Option<Vec<u8>>) -> Result<
    Vec<u8>,
    FetchFailure,
> {
    match status {
        None => Err(FetchFailure::Transport),
        Some(s) => if !is_success_status(s) {
            Err(FetchFailure::Status(s))
        } else {
            match body {
                None => Err(FetchFailure::Body),
                Some(b) => Ok(b),
            }
        },
    }
}

/// Judges the origin's answer: `status` is `None` when no response came, and
/// `body` is `None` when the body was not or could not be read.
pub fn check_fetch(status: Option<u16>, body: Option<Vec<u8>>) -> (r: Result<Vec<u8>, FetchFailure>)
    ensures
        r == fetch_result_of(status, body),
{
    match status {
        None => Err(FetchFailure::Transport),
        Some(s) => {
            if !is_success(s) {
                Err(FetchFailure::Status(s))
            } else {
                match body {
                    None => Err(FetchFailure::Body),
                    Some(b) => Ok(b),
                }
            }
        },
    }
}

/// What a request is for.
#[derive(Debug, Clone, Copy, PartialEq, Eq, Structural)]
pub enum Goal {
    /// An HTTP request: answer with the entry's bytes.
    Serve,
    /// An explicit prefetch: make sure the entry is cached.
    Prefetch,
}

/// How a request ends.
#[derive(Debug)]
pub enum Outcome {
    /// 200 with these bytes.
    Served(Vec<u8>),
    /// 404, whatever the cause.
    NotFound,
    /// The entry is cached; `true` when this request fetched it.
    Cached(bool),
    /// The entry could not be cached.
    Failed(FillError),
}

/// What the request asks its runner to do next.
#[derive(Debug)]
pub enum Action {
    /// Report whether the cache file of this id is present as a regular file.
    CheckCache(u32),
    /// Wait until some fetch is released, then report `Woken`.
    Wait(u32),
    /// Fetch the asset from the origin.
    Fetch(u32),
    /// Write these bytes as the cache entry of this id, never leaving a
    /// partial file visible.
    Store(u32, Vec<u8>),
    /// The fetch of this id has ended: wake the requests that wait.
    Release(u32),
    /// Read the cache entry of this id.
    Read(u32),
    /// The request is over.
    Finish(Outcome),
}

/// What the runner reports after doing an action.
#[derive(Debug)]
pub enum Event {
    CacheChecked(bool),
    Woken,
    /// The origin's status (`None`: no response) and body (`None`: not read).
    Fetched(Option<u16>, Option<Vec<u8>>),
    /// Whether the entry was written.
    Stored(bool),
    Released,
    /// The entry's bytes, or `None` when reading failed.
    ReadDone(Option<Vec<u8>>),
}

/// Where a request stands; each phase waits for one kind of event.
#[derive(Debug, Clone, Copy, PartialEq, Eq, Structural)]
pub enum Phase {
    Checking(u32),
    /// Waiting for the fetch under the ticket to end.
    Waiting(u32, u64),
    /// Woken: checking the cache before asking whether that fetch ended.
    Rechecking(u32, u64),
    /// The fetch waited on has ended and an earlier check saw no entry: a
    /// check made now, after the fetch's end, decides.
    LastCheck(u32),
    /// Holding the ticket: checking that the entry is still absent, since the
    /// first check may predate a fill that has since ended.
    Claimed(u32, u64),
    Fetching(u32, u64),
    Storing(u32, u64),
    /// The ticket is given back; whether this request fetched the entry, and
    /// the error, if any.
    Releasing(u32, bool, Option<FillError>),
    Reading(u32),
    Done,
}

pub open spec fn accepts_event(p: Phase, e: Event) -> bool {
    match p {
        Phase::Checking(_) | Phase::Rechecking(_, _) | Phase::LastCheck(_) | Phase::Claimed(
            _,
            _,
        ) => e is CacheChecked,
        Phase::Waiting(_, _) => e is Woken,
        Phase::Fetching(_, _) => e is Fetched,
        Phase::Storing(_, _) => e is Stored,
        Phase::Releasing(_, _, _) => e is Released,
        Phase::Reading(_) => e is ReadDone,
        Phase::Done => false,
    }
}

/// The entry of `id` is known to be present.
pub open spec fn on_present(goal: Goal, id: u32, fetched: bool) -> (Phase, Action) {
    match goal {
        Goal::Serve => (Phase::Reading(id), Action::Read(id)),
        Goal::Prefetch => (Phase::Done, Action::Finish(Outcome::Cached(fetched))),
    }
}

/// The request cannot have the entry.
pub open spec fn on_failure(goal: Goal, e: FillError) -> (Phase, Action) {
    match goal {
        Goal::Serve => (Phase::Done, Action::Finish(Outcome::NotFound)),
        Goal::Prefetch => (Phase::Done, Action::Finish(Outcome::Failed(e))),
    }
}

/// One step of a request: from its phase, the in-flight table and the event,
/// to its next phase, the table after, and the next action.
pub open spec fn step_model(goal: Goal, p: Phase, m: CoordModel, e: Event) -> (
    Phase,
    CoordModel,
    Action,
) {
    match (p, e) {
        (Phase::Checking(id), Event::CacheChecked(present)) => {
            let (m1, b) = begin_model(m, id, present);
            match b {
                Begin::Hit => {
                    let (p1, a) = on_present(goal, id, false);
                    (p1, m1, a)
                },
                Begin::Fetch(t) => (Phase::Claimed(id, t), m1, Action::CheckCache(id)),
                Begin::Wait(t) => (Phase::Waiting(id, t), m1, Action::Wait(id)),
            }
        },
        (Phase::Claimed(id, t), Event::CacheChecked(present)) => if present {
            (Phase::Releasing(id, false, None), finish_model(m, id, t), Action::Release(id))
        } else {
            (Phase::Fetching(id, t), m, Action::Fetch(id))
        },
        (Phase::Waiting(id, t), Event::Woken) => (Phase::Rechecking(id, t), m, Action::CheckCache(id)),
        (Phase::Rechecking(id, t), Event::CacheChecked(present)) => match wait_model(
            m,
            id,
            t,
            present,
        ) {
            WaitState::Pending => (Phase::Waiting(id, t), m, Action::Wait(id)),
            WaitState::Ready => {
                let (p1, a) = on_present(goal, id, false);
                (p1, m, a)
            },
            WaitState::Ended => (Phase::LastCheck(id), m, Action::CheckCache(id)),
        },
        (Phase::LastCheck(id), Event::CacheChecked(present)) => {
            let (p1, a) = if present {
                on_present(goal, id, false)
            } else {
                on_failure(goal, FillError::PeerFailed)
            };
            (p1, m, a)
        },
        (Phase::Fetching(id, t), Event::Fetched(status, body)) => match fetch_result_of(
            status,
            body,
        ) {
            Ok(bytes) => (Phase::Storing(id, t), m, Action::Store(id, bytes)),
            Err(f) => (
                Phase::Releasing(id, false, Some(FillError::Fetch(f))),
                finish_model(m, id, t),
                Action::Release(id),
            ),
        },
        (Phase::Storing(id, t), Event::Stored(ok)) => (
            Phase::Releasing(
                id,
                ok,
                if ok {
                    None
                } else {
                    Some(FillError::Write)
                },
            ),
            finish_model(m, id, t),
            Action::Release(id),
        ),
        (Phase::Releasing(id, fetched, err), Event::Released) => match err {
            None => {
                let (p1, a) = on_present(goal, id, fetched);
                (p1, m, a)
            },
            Some(f) => {
                let (p1, a) = on_failure(goal, f);
                (p1, m, a)
            },
        },
        (Phase::Reading(_), Event::ReadDone(bytes)) => match bytes {
            Some(b) => (Phase::Done, m, Action::Finish(Outcome::Served(b))),
            None => (Phase::Done, m, Action::Finish(Outcome::NotFound)),
        },
        _ => (p, m, Action::Finish(Outcome::NotFound)),
    }
}

/// One request for an asset, driven by its runner: each step takes the
/// outcome of the last action and gives the next one. Requests share one
/// `Coordinator`, through which a single fetch serves them all.
///
/// The runner performs each action after the step that asked for it, and
/// steps the requests one at a time under the coordinator's lock; a cache
/// entry, once written, is never removed. So a cache check asked for by a
/// step sees every entry written before that step.
pub struct RequestFlow {
    goal: Goal,
    phase: Phase,
}

impl RequestFlow {
    pub closed spec fn goal(&self) -> Goal {
        self.goal
    }

    pub closed spec fn phase(&self) -> Phase {
        self.phase
    }

    /// An HTTP request for the file name `name` under the cache route. A name
    /// that is not `<id>.swf` is answered 404 at once, with no cache or origin
    /// access; otherwise the first action checks the cache.
    pub fn serve(name: &str) -> (r: (RequestFlow, Action))
        ensures
            r.0.goal() == Goal::Serve,
            match parsed_asset_id(name@) {
                None => r.0.phase() == Phase::Done && r.1 == Action::Finish(Outcome::NotFound),
                Some(id) => r.0.phase() == Phase::Checking(id) && r.1 == Action::CheckCache(id),
            },
    {
        match parse_asset_file_name(name) {
            None => (
                RequestFlow { goal: Goal::Serve, phase: Phase::Done },
                Action::Finish(Outcome::NotFound),
            ),
            Some(id) => (
                RequestFlow { goal: Goal::Serve, phase: Phase::Checking(id) },
                Action::CheckCache(id),
            ),
        }
    }

    /// An explicit prefetch of asset `id`; the first action checks the cache.
    pub fn prefetch(id: u32) -> (r: (RequestFlow, Action))
        ensures
            r.0.goal() == Goal::Prefetch,
            r.0.phase() == Phase::Checking(id),
            r.1 == Action::CheckCache(id),
    {
        (RequestFlow { goal: Goal::Prefetch, phase: Phase::Checking(id) }, Action::CheckCache(id))
    }

    /// Whether the request is over.
    pub fn is_done(&self) -> (r: bool)
        ensures
            r == (self.phase() == Phase::Done),
    {
        match self.phase {
            Phase::Done => true,
            _ => false,
        }
    }

    /// Whether `e` is the kind of event that the request waits for.
    pub fn accepts(&self, e: &Event) -> (r: bool)
        ensures
            r == accepts_event(self.phase(), *e),
    {
        match (&self.phase, e) {
            (Phase::Checking(_), Event::CacheChecked(_)) => true,
            (Phase::Claimed(_, _), Event::CacheChecked(_)) => true,
            (Phase::Rechecking(_, _), Event::CacheChecked(_)) => true,
            (Phase::LastCheck(_), Event::CacheChecked(_)) => true,
            (Phase::Waiting(_, _), Event::Woken) => true,
            (Phase::Fetching(_, _), Event::Fetched(_, _)) => true,
            (Phase::Storing(_, _), Event::Stored(_)) => true,
            (Phase::Releasing(_, _, _), Event::Released) => true,
            (Phase::Reading(_), Event::ReadDone(_)) => true,
            _ => false,
        }
    }

    fn present(&mut self, id: u32, fetched: bool) -> (r: Action)
        ensures
            final(self).goal() == old(self).goal(),
            (final(self).phase(), r) == on_present(old(self).goal(), id, fetched),
    {
        match self.goal {
            Goal::Serve => {
                self.phase = Phase::Reading(id);
                Action::Read(id)
            },
            Goal::Prefetch => {
                self.phase = Phase::Done;
                Action::Finish(Outcome::Cached(fetched))
            },
        }
    }

    fn fail(&mut self, e: FillError) -> (r: Action)
        ensures
            final(self).goal() == old(self).goal(),
            (final(self).phase(), r) == on_failure(old(self).goal(), e),
    {
        self.phase = Phase::Done;
        match self.goal {
            Goal::Serve => Action::Finish(Outcome::NotFound),
            Goal::Prefetch => Action::Finish(Outcome::Failed(e)),
        }
    }

    /// Takes the outcome of the last action and gives the next one.
    pub fn step(&mut self, coord: &mut Coordinator, e: Event) -> (r: Action)
        requires
            accepts_event(old(self).phase(), e),
        ensures
            final(self).goal() == old(self).goal(),
            (final(self).phase(), final(coord)@, r) == step_model(
                old(self).goal(),
                old(self).phase(),
                old(coord)@,
                e,
            ),
    {
        match (self.phase, e) {
            (Phase::Checking(id), Event::CacheChecked(present)) => {
                match coord.begin(id, present) {
                    Begin::Hit => self.present(id, false),
                    Begin::Fetch(t) => {
                        self.phase = Phase::Claimed(id, t);
                        Action::CheckCache(id)
                    },
                    Begin::Wait(t) => {
                        self.phase = Phase::Waiting(id, t);
                        Action::Wait(id)
                    },
                }
            },
            (Phase::Claimed(id, t), Event::CacheChecked(present)) => {
                if present {
                    coord.finish(id, t);
                    self.phase = Phase::Releasing(id, false, None);
                    Action::Release(id)
                } else {
                    self.phase = Phase::Fetching(id, t);
                    Action::Fetch(id)
                }
            },
            (Phase::Waiting(id, t), Event::Woken) => {
                self.phase = Phase::Rechecking(id, t);
                Action::CheckCache(id)
            },
            (Phase::Rechecking(id, t), Event::CacheChecked(present)) => {
                match coord.wait_state(id, t, present) {
                    WaitState::Pending => {
                        self.phase = Phase::Waiting(id, t);
                        Action::Wait(id)
                    },
                    WaitState::Ready => self.present(id, false),
                    WaitState::Ended => {
                        self.phase = Phase::LastCheck(id);
                        Action::CheckCache(id)
                    },
                }
            },
            (Phase::LastCheck(id), Event::CacheChecked(present)) => {
                if present {
                    self.present(id, false)
                } else {
                    self.fail(FillError::PeerFailed)
                }
            },
            (Phase::Fetching(id, t), Event::Fetched(status, body)) => {
                match check_fetch(status, body) {
                    Ok(bytes) => {
                        self.phase = Phase::Storing(id, t);
                        Action::Store(id, bytes)
                    },
                    Err(f) => {
                        coord.finish(id, t);
                        self.phase = Phase::Releasing(id, false, Some(FillError::Fetch(f)));
                        Action::Release(id)
                    },
                }
            },
            (Phase::Storing(id, t), Event::Stored(ok)) => {
                coord.finish(id, t);
                self.phase = Phase::Releasing(
                    id,
                    ok,
                    if ok {
                        None
                    } else {
                        Some(FillError::Write)
                    },
                );
                Action::Release(id)
            },
            (Phase::Releasing(id, fetched, err), Event::Released) => {
                match err {
                    None => self.present(id, fetched),
                    Some(f) => self.fail(f),
                }
            },
            (Phase::Reading(_), Event::ReadDone(bytes)) => {
                self.phase = Phase::Done;
                match bytes {
                    Some(b) => Action::Finish(Outcome::Served(b)),
                    None => Action::Finish(Outcome::NotFound),
                }
            },
            _ => Action::Finish(Outcome::NotFound),
        }
    }
}


/// A request whose entry is already cached makes no network call and no
/// write: the cache check leads to a read (or, for a prefetch, straight to
/// success) with the in-flight table unchanged, and the read ends the request.
pub proof fn lemma_cached_entry_needs_no_fetch(goal: Goal, id: u32, m: CoordModel, bytes: Option<Vec<u8>>)
    ensures
        ({
            let (p1, m1, a1) = step_model(goal, Phase::Checking(id), m, Event::CacheChecked(true));
            &&& m1 == m
            &&& goal == Goal::Serve ==> p1 == Phase::Reading(id) && a1 == Action::Read(id)
            &&& goal == Goal::Prefetch ==> p1 == Phase::Done && a1 == Action::Finish(
                Outcome::Cached(false),
            )
        }),
        step_model(goal, Phase::Reading(id), m, Event::ReadDone(bytes)).0 == Phase::Done,
        step_model(goal, Phase::Reading(id), m, Event::ReadDone(bytes)).2 is Finish,
{
}

/// An origin answer without a success status stores nothing: the fetch is
/// released at once, and an HTTP request then ends in 404.
pub proof fn lemma_failed_fetch_stores_nothing(
    goal: Goal,
    id: u32,
    t: u64,
    m: CoordModel,
    status: u16,
    body: Option<Vec<u8>>,
)
    requires
        !is_success_status(status),
    ensures
        ({
            let (p1, m1, a1) = step_model(goal, Phase::Fetching(id, t), m, Event::Fetched(Some(status), body));
            &&& p1 == Phase::Releasing(id, false, Some(FillError::Fetch(FetchFailure::Status(status))))
            &&& m1 == finish_model(m, id, t)
            &&& a1 == Action::Release(id)
            &&& goal == Goal::Serve ==> step_model(goal, p1, m1, Event::Released).2 == Action::Finish(
                Outcome::NotFound,
            )
        }),
{
}

/// Bytes pass through unchanged: a successful fetch stores exactly the body
/// under the id it was fetched for, and a read is served exactly as read.
pub proof fn lemma_bytes_pass_unchanged(
    goal: Goal,
    id: u32,
    t: u64,
    m: CoordModel,
    status: u16,
    body: Vec<u8>,
)
    requires
        is_success_status(status),
    ensures
        step_model(goal, Phase::Fetching(id, t), m, Event::Fetched(Some(status), Some(body))).2
            == Action::Store(id, body),
        step_model(goal, Phase::Reading(id), m, Event::ReadDone(Some(body))).2 == Action::Finish(
            Outcome::Served(body),
        ),
{
}

/// The ticket that a request in phase `p` holds, with its asset: from the
/// step that takes it until the step that gives it back.
pub open spec fn held(p: Phase) -> Option<(u32, u64)> {
    match p {
        Phase::Claimed(id, t) => Some((id, t)),
        Phase::Fetching(id, t) => Some((id, t)),
        Phase::Storing(id, t) => Some((id, t)),
        _ => None,
    }
}

pub open spec fn held_asset(p: Phase) -> u32 {
    match held(p) {
        Some((id, _)) => id,
        None => 0,
    }
}

pub open spec fn held_ticket(p: Phase) -> u64 {
    match held(p) {
        Some((_, t)) => t,
        None => 0,
    }
}

/// Each held ticket is its asset's flight in the table, and no two requests
/// hold a ticket for the same asset.
pub open spec fn single_fetcher(m: CoordModel, ps: Seq<Phase>) -> bool {
    &&& forall|i: int|
        0 <= i < ps.len() && (#[trigger] held(ps[i])) is Some ==> m.flights.contains_key(
            held_asset(ps[i]),
        ) && m.flights[held_asset(ps[i])] == held_ticket(ps[i])
    &&& forall|i: int, j: int|
        0 <= i < ps.len() && 0 <= j < ps.len() && i != j && (#[trigger] held(ps[i])) is Some && (
        #[trigger] held(ps[j])) is Some ==> held_asset(ps[i]) != held_asset(ps[j])
}

/// Requests that share one table, stepped one at a time in any order and
/// with any events, never have two fetchers of one asset at once: each step
/// of any request keeps `single_fetcher`, which holds of a fresh table.
pub proof fn lemma_single_fetcher_kept(goal: Goal, m: CoordModel, ps: Seq<Phase>, i: int, e: Event)
    requires
        single_fetcher(m, ps),
        0 <= i < ps.len(),
        accepts_event(ps[i], e),
    ensures
        ({
            let (p1, m1, a) = step_model(goal, ps[i], m, e);
            single_fetcher(m1, ps.update(i, p1))
        }),
{
    let (p1, m1, a) = step_model(goal, ps[i], m, e);
    let qs = ps.update(i, p1);
    assert forall|k: int| 0 <= k < qs.len() && k != i && (#[trigger] held(qs[k])) is Some implies (
    held(ps[i]) is Some ==> held_asset(qs[k]) != held_asset(ps[i])) by {
        assert(qs[k] == ps[k]);
    }
    assert forall|k: int| 0 <= k < qs.len() && (#[trigger] held(qs[k])) is Some implies m1.flights.contains_key(
        held_asset(qs[k]),
    ) && m1.flights[held_asset(qs[k])] == held_ticket(qs[k]) by {
        if k != i {
            assert(qs[k] == ps[k]);
        }
    }
    assert forall|k: int, l: int|
        0 <= k < qs.len() && 0 <= l < qs.len() && k != l && (#[trigger] held(qs[k])) is Some && (
        #[trigger] held(qs[l])) is Some implies held_asset(qs[k]) != held_asset(qs[l]) by {
        if k != i && l != i {
            assert(qs[k] == ps[k]);
            assert(qs[l] == ps[l]);
        } else if k == i {
            assert(qs[l] == ps[l]);
        } else {
            assert(qs[k] == ps[k]);
        }
    }
}

/// A fresh table with requests that hold no ticket satisfies `single_fetcher`.
pub proof fn lemma_single_fetcher_start(m: CoordModel, ps: Seq<Phase>)
    requires
        m.flights == Map::<u32, u64>::empty(),
        forall|i: int| 0 <= i < ps.len() ==> (#[trigger] held(ps[i])) is None,
    ensures
        single_fetcher(m, ps),
{
}

/// Only the holder of an asset's ticket fetches it, and only after a cache
/// check asked for while it held the ticket saw no entry; it keeps holding
/// the ticket while it fetches. With `single_fetcher`, at most one request
/// fetches an asset at a time, and a fill that ended before the ticket was
/// taken is seen by that check.
pub proof fn lemma_fetch_only_by_holder(goal: Goal, p: Phase, m: CoordModel, e: Event, id: u32)
    requires
        step_model(goal, p, m, e).2 == Action::Fetch(id),
    ensures
        exists|t: u64|
            p == Phase::Claimed(id, t) && e == Event::CacheChecked(false) && #[trigger] held(
                step_model(goal, p, m, e).0,
            ) == Some((id, t)) && step_model(goal, p, m, e).1 == m,
{
    match p {
        Phase::Claimed(pid, t) => {
            assert(held(step_model(goal, p, m, e).0) == Some((id, t)));
        },
        _ => {},
    }
}

/// A request that took the ticket on a stale check, and then finds the entry
/// that another fill stored meanwhile, gives the ticket back without fetching.
pub proof fn lemma_stale_claim_does_not_fetch(goal: Goal, id: u32, t: u64, m: CoordModel)
    ensures
        step_model(goal, Phase::Claimed(id, t), m, Event::CacheChecked(true)) == (
            Phase::Releasing(id, false, None),
            finish_model(m, id, t),
            Action::Release(id),
        ),
        step_model(goal, Phase::Releasing(id, false, None), m, Event::Released).1 == m,
        goal == Goal::Serve ==> step_model(goal, Phase::Releasing(id, false, None), m, Event::Released).2
            == Action::Read(id),
{
}

/// A waiter whose fetch has ended never fails on a check that may predate
/// that end: it checks again, and a fill that succeeded is then served.
pub proof fn lemma_waiter_decides_on_fresh_check(goal: Goal, id: u32, t: u64, m: CoordModel)
    requires
        !(m.flights.contains_key(id) && m.flights[id] == t),
    ensures
        step_model(goal, Phase::Rechecking(id, t), m, Event::CacheChecked(false)) == (
            Phase::LastCheck(id),
            m,
            Action::CheckCache(id),
        ),
        step_model(goal, Phase::LastCheck(id), m, Event::CacheChecked(true)) == ({
            let (p1, a) = on_present(goal, id, false);
            (p1, m, a)
        }),
        step_model(goal, Phase::LastCheck(id), m, Event::CacheChecked(false)) == ({
            let (p1, a) = on_failure(goal, FillError::PeerFailed);
            (p1, m, a)
        }),
{
}

} // verus!
