use std::collections::HashMap;

use pet_cache::coordinator::Coordinator;
use pet_cache::flow::{Action, Event, FetchFailure, FillError, Outcome, RequestFlow};

/// A cache directory and an origin, held in memory.
struct World {
    cache: HashMap<u32, Vec<u8>>,
    origin_status: Option<u16>,
    origin_body: Vec<u8>,
    fail_writes: bool,
    fetches: usize,
    writes: usize,
    releases: usize,
}

impl World {
    fn new(origin_status: Option<u16>, origin_body: &[u8]) -> World {
        World {
            cache: HashMap::new(),
            origin_status,
            origin_body: origin_body.to_vec(),
            fail_writes: false,
            fetches: 0,
            writes: 0,
            releases: 0,
        }
    }

    /// Performs one action; hands back `Finish` and `Wait` unperformed.
    fn perform(&mut self, action: Action) -> Result<Event, Action> {
        match action {
            Action::CheckCache(id) => Ok(Event::CacheChecked(self.cache.contains_key(&id))),
            Action::Fetch(_) => {
                self.fetches += 1;
                let body = match self.origin_status {
                    Some(s) if (200..300).contains(&s) => Some(self.origin_body.clone()),
                    _ => None,
                };
                Ok(Event::Fetched(self.origin_status, body))
            }
            Action::Store(id, bytes) => {
                self.writes += 1;
                if self.fail_writes {
                    Ok(Event::Stored(false))
                } else {
                    self.cache.insert(id, bytes);
                    Ok(Event::Stored(true))
                }
            }
            Action::Release(_) => {
                self.releases += 1;
                Ok(Event::Released)
            }
            Action::Read(id) => Ok(Event::ReadDone(self.cache.get(&id).cloned())),
            other => Err(other),
        }
    }

    /// Drives a flow until it finishes or waits.
    fn drive(&mut self, flow: &mut RequestFlow, coord: &mut Coordinator, first: Action) -> Action {
        let mut action = first;
        loop {
            match self.perform(action) {
                Ok(event) => {
                    assert!(flow.accepts(&event));
                    action = flow.step(coord, event);
                }
                Err(stop) => return stop,
            }
        }
    }
}

fn served(action: Action) -> Vec<u8> {
    match action {
        Action::Finish(Outcome::Served(b)) => b,
        other => panic!("expected bytes, got {:?}", other),
    }
}

#[test]
fn cold_request_fetches_and_stores() {
    let mut world = World::new(Some(200), b"BYTES-B");
    let mut coord = Coordinator::new();
    let (mut flow, first) = RequestFlow::serve("7.swf");
    let end = world.drive(&mut flow, &mut coord, first);
    assert_eq!(served(end), b"BYTES-B".to_vec());
    assert_eq!(world.cache.get(&7), Some(&b"BYTES-B".to_vec()));
    assert_eq!(world.fetches, 1);
    assert!(flow.is_done());
    assert!(!coord.in_flight(7));
}

#[test]
fn origin_error_gives_not_found_and_no_file() {
    let mut world = World::new(Some(500), b"");
    let mut coord = Coordinator::new();
    let (mut flow, first) = RequestFlow::serve("7.swf");
    let end = world.drive(&mut flow, &mut coord, first);
    assert!(matches!(end, Action::Finish(Outcome::NotFound)));
    assert!(!world.cache.contains_key(&7));
    assert_eq!(world.writes, 0);
    assert_eq!(world.releases, 1);
    assert!(!coord.in_flight(7));
}

#[test]
fn cached_entry_is_served_without_network() {
    let mut world = World::new(None, b"");
    world.cache.insert(7, b"CONTENT-C".to_vec());
    let mut coord = Coordinator::new();
    let (mut flow, first) = RequestFlow::serve("7.swf");
    let end = world.drive(&mut flow, &mut coord, first);
    assert_eq!(served(end), b"CONTENT-C".to_vec());
    assert_eq!(world.fetches, 0);
    assert_eq!(world.writes, 0);
}

#[test]
fn second_request_does_not_fetch_again() {
    let mut world = World::new(Some(200), b"xyz");
    let mut coord = Coordinator::new();
    for _ in 0..2 {
        let (mut flow, first) = RequestFlow::serve("12.swf");
        let end = world.drive(&mut flow, &mut coord, first);
        assert_eq!(served(end), b"xyz".to_vec());
    }
    assert_eq!(world.fetches, 1);
    assert_eq!(world.writes, 1);
}

#[test]
fn failed_fetch_is_retried_by_the_next_request() {
    let mut world = World::new(Some(503), b"");
    let mut coord = Coordinator::new();
    let (mut flow, first) = RequestFlow::serve("5.swf");
    assert!(matches!(world.drive(&mut flow, &mut coord, first), Action::Finish(Outcome::NotFound)));
    world.origin_status = Some(200);
    world.origin_body = b"ok".to_vec();
    let (mut flow, first) = RequestFlow::serve("5.swf");
    assert_eq!(served(world.drive(&mut flow, &mut coord, first)), b"ok".to_vec());
    assert_eq!(world.fetches, 2);
}

#[test]
fn concurrent_cold_requests_share_one_fetch() {
    let mut world = World::new(Some(200), b"shared");
    let mut coord = Coordinator::new();
    let n = 4;
    let mut flows = Vec::new();
    // Every request checks the cache before the first fetch completes.
    for _ in 0..n {
        let (mut flow, first) = RequestFlow::serve("99.swf");
        let present = match first {
            Action::CheckCache(id) => world.cache.contains_key(&id),
            other => panic!("unexpected {:?}", other),
        };
        let next = flow.step(&mut coord, Event::CacheChecked(present));
        flows.push((flow, next));
    }
    let fetchers = flows.iter().filter(|(_, a)| matches!(a, Action::CheckCache(99))).count();
    let waiters = flows.iter().filter(|(_, a)| matches!(a, Action::Wait(99))).count();
    assert_eq!(fetchers, 1);
    assert_eq!(waiters, n - 1);
    let mut results = Vec::new();
    // The fetcher runs to its end first.
    for (flow, action) in flows.iter_mut() {
        if matches!(action, Action::CheckCache(_)) {
            let a = std::mem::replace(action, Action::Wait(0));
            results.push(served(world.drive(flow, &mut coord, a)));
        }
    }
    // Then every waiter is woken.
    for (flow, action) in flows.iter_mut() {
        if matches!(action, Action::Wait(99)) {
            let next = flow.step(&mut coord, Event::Woken);
            results.push(served(world.drive(flow, &mut coord, next)));
        }
    }
    assert_eq!(results.len(), n);
    assert!(results.iter().all(|b| b == b"shared"));
    assert_eq!(world.fetches, 1);
    assert_eq!(world.writes, 1);
}

#[test]
fn waiter_gets_the_failure_of_the_fetch_it_waited_on() {
    let mut world = World::new(Some(404), b"");
    let mut coord = Coordinator::new();
    let (mut a, _) = RequestFlow::serve("3.swf");
    let (mut b, _) = RequestFlow::serve("3.swf");
    let fa = a.step(&mut coord, Event::CacheChecked(false));
    let fb = b.step(&mut coord, Event::CacheChecked(false));
    assert!(matches!(fa, Action::CheckCache(3)));
    assert!(matches!(fb, Action::Wait(3)));
    assert!(matches!(world.drive(&mut a, &mut coord, fa), Action::Finish(Outcome::NotFound)));
    let next = b.step(&mut coord, Event::Woken);
    assert!(matches!(world.drive(&mut b, &mut coord, next), Action::Finish(Outcome::NotFound)));
    assert_eq!(world.fetches, 1);
}

#[test]
fn waiter_woken_early_keeps_waiting() {
    let mut coord = Coordinator::new();
    let (mut a, _) = RequestFlow::serve("3.swf");
    let (mut b, _) = RequestFlow::serve("3.swf");
    let fa = a.step(&mut coord, Event::CacheChecked(false));
    assert!(matches!(fa, Action::CheckCache(3)));
    assert!(matches!(a.step(&mut coord, Event::CacheChecked(false)), Action::Fetch(3)));
    assert!(matches!(b.step(&mut coord, Event::CacheChecked(false)), Action::Wait(3)));
    assert!(matches!(b.step(&mut coord, Event::Woken), Action::CheckCache(3)));
    assert!(matches!(b.step(&mut coord, Event::CacheChecked(false)), Action::Wait(3)));
}

#[test]
fn malformed_name_is_not_found_without_access() {
    let (flow, first) = RequestFlow::serve("abc.swf");
    assert!(matches!(first, Action::Finish(Outcome::NotFound)));
    assert!(flow.is_done());
    for name in ["007.swf", "+7.swf", "7.png", ".swf", "4294967296.swf", "7.swf/x", ""] {
        let (_, first) = RequestFlow::serve(name);
        assert!(matches!(first, Action::Finish(Outcome::NotFound)), "{}", name);
    }
}

#[test]
fn prefetch_of_cached_entry_succeeds_without_network() {
    let mut world = World::new(None, b"");
    world.cache.insert(8, b"x".to_vec());
    let mut coord = Coordinator::new();
    let (mut flow, first) = RequestFlow::prefetch(8);
    let end = world.drive(&mut flow, &mut coord, first);
    assert!(matches!(end, Action::Finish(Outcome::Cached(false))));
    assert_eq!(world.fetches, 0);
    assert_eq!(world.writes, 0);
}

#[test]
fn prefetch_fetches_a_missing_entry() {
    let mut world = World::new(Some(200), b"pre");
    let mut coord = Coordinator::new();
    let (mut flow, first) = RequestFlow::prefetch(8);
    let end = world.drive(&mut flow, &mut coord, first);
    assert!(matches!(end, Action::Finish(Outcome::Cached(true))));
    assert_eq!(world.cache.get(&8), Some(&b"pre".to_vec()));
}

#[test]
fn prefetch_reports_each_failure() {
    let mut coord = Coordinator::new();
    let mut world = World::new(Some(404), b"");
    let (mut flow, first) = RequestFlow::prefetch(8);
    let end = world.drive(&mut flow, &mut coord, first);
    assert!(matches!(
        end,
        Action::Finish(Outcome::Failed(FillError::Fetch(FetchFailure::Status(404))))
    ));
    let mut world = World::new(None, b"");
    let (mut flow, first) = RequestFlow::prefetch(8);
    let end = world.drive(&mut flow, &mut coord, first);
    assert!(matches!(
        end,
        Action::Finish(Outcome::Failed(FillError::Fetch(FetchFailure::Transport)))
    ));
    let mut world = World::new(Some(200), b"z");
    world.fail_writes = true;
    let (mut flow, first) = RequestFlow::prefetch(8);
    let end = world.drive(&mut flow, &mut coord, first);
    assert!(matches!(end, Action::Finish(Outcome::Failed(FillError::Write))));
    assert!(!coord.in_flight(8));
}

#[test]
fn write_failure_serves_not_found() {
    let mut world = World::new(Some(200), b"z");
    world.fail_writes = true;
    let mut coord = Coordinator::new();
    let (mut flow, first) = RequestFlow::serve("1.swf");
    let end = world.drive(&mut flow, &mut coord, first);
    assert!(matches!(end, Action::Finish(Outcome::NotFound)));
    assert!(!coord.in_flight(1));
}

#[test]
fn read_failure_serves_not_found() {
    let mut coord = Coordinator::new();
    let (mut flow, _) = RequestFlow::serve("1.swf");
    assert!(matches!(flow.step(&mut coord, Event::CacheChecked(true)), Action::Read(1)));
    assert!(matches!(flow.step(&mut coord, Event::ReadDone(None)), Action::Finish(Outcome::NotFound)));
}

#[test]
fn unexpected_event_is_refused() {
    let (flow, _) = RequestFlow::serve("1.swf");
    assert!(flow.accepts(&Event::CacheChecked(true)));
    assert!(!flow.accepts(&Event::Woken));
    assert!(!flow.accepts(&Event::Released));
}

#[test]
fn stale_miss_after_a_finished_fill_does_not_fetch_again() {
    let mut world = World::new(Some(200), b"once");
    let mut coord = Coordinator::new();
    // A checks the cache and finds nothing, but its answer arrives late.
    let (mut a, first_a) = RequestFlow::serve("7.swf");
    let stale = world.perform(first_a).unwrap();
    // Meanwhile B fetches, stores and finishes.
    let (mut b, first_b) = RequestFlow::serve("7.swf");
    assert_eq!(served(world.drive(&mut b, &mut coord, first_b)), b"once".to_vec());
    assert_eq!(world.fetches, 1);
    // A's stale answer wins it the ticket, but its second check sees the entry.
    let next = a.step(&mut coord, stale);
    assert!(matches!(next, Action::CheckCache(7)));
    assert_eq!(served(world.drive(&mut a, &mut coord, next)), b"once".to_vec());
    assert_eq!(world.fetches, 1);
    assert_eq!(world.writes, 1);
    assert!(!coord.in_flight(7));
}

#[test]
fn waiter_with_a_stale_check_still_gets_the_bytes() {
    let mut world = World::new(Some(200), b"fill");
    let mut coord = Coordinator::new();
    let (mut a, first_a) = RequestFlow::serve("7.swf");
    let (mut b, first_b) = RequestFlow::serve("7.swf");
    let ea = world.perform(first_a).unwrap();
    let claim = a.step(&mut coord, ea);
    let eb = world.perform(first_b).unwrap();
    assert!(matches!(b.step(&mut coord, eb), Action::Wait(7)));
    // B is woken early and checks the cache before the fill lands.
    let recheck = b.step(&mut coord, Event::Woken);
    let stale = world.perform(recheck).unwrap();
    assert!(matches!(stale, Event::CacheChecked(false)));
    // A completes its fill.
    assert_eq!(served(world.drive(&mut a, &mut coord, claim)), b"fill".to_vec());
    // B's stale answer arrives after the ticket was given back.
    let next = b.step(&mut coord, stale);
    assert!(matches!(next, Action::CheckCache(7)));
    assert_eq!(served(world.drive(&mut b, &mut coord, next)), b"fill".to_vec());
    assert_eq!(world.fetches, 1);
}

#[test]
fn prefetch_that_finds_a_fill_after_claiming_reports_already_cached() {
    let mut world = World::new(Some(200), b"p");
    let mut coord = Coordinator::new();
    let (mut a, _) = RequestFlow::prefetch(4);
    assert!(matches!(a.step(&mut coord, Event::CacheChecked(false)), Action::CheckCache(4)));
    world.cache.insert(4, b"p".to_vec());
    let next = a.step(&mut coord, Event::CacheChecked(true));
    assert!(matches!(next, Action::Release(4)));
    assert!(matches!(world.drive(&mut a, &mut coord, next), Action::Finish(Outcome::Cached(false))));
    assert_eq!(world.fetches, 0);
}
