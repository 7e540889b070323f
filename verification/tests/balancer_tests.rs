use tonic_core::balancer::{BalancerSet, Change, EndpointState};
use tonic_core::channel::{Channel, Pipeline, Readiness};

fn two_ready() -> BalancerSet {
    let mut set = BalancerSet::new();
    set.apply_change(Change::Insert(1));
    set.apply_change(Change::Insert(2));
    set.mark_ready(1);
    set.mark_ready(2);
    set
}

#[test]
fn insert_starts_connecting_with_no_load() {
    let mut set = BalancerSet::new();
    set.apply_change(Change::Insert(7));
    assert_eq!(set.entries, vec![(7, EndpointState::Connecting, 0)]);
}

#[test]
fn insert_replaces_an_existing_key() {
    let mut set = two_ready();
    set.add_load(1);
    set.apply_change(Change::Insert(1));
    assert_eq!(
        set.entries,
        vec![(2, EndpointState::Ready, 0), (1, EndpointState::Connecting, 0)]
    );
}

#[test]
fn remove_drops_the_key() {
    let mut set = two_ready();
    set.apply_change(Change::Remove(1));
    assert_eq!(set.entries, vec![(2, EndpointState::Ready, 0)]);
}

#[test]
fn select_needs_a_ready_endpoint() {
    let mut set = BalancerSet::new();
    assert_eq!(set.select(0, 1), None);
    set.apply_change(Change::Insert(1));
    // Still connecting: not selectable.
    assert_eq!(set.select(0, 1), None);
    set.mark_ready(1);
    assert_eq!(set.select(0, 1), Some(1));
}

#[test]
fn select_picks_the_less_loaded_of_two_samples() {
    let mut set = two_ready();
    set.add_load(1);
    set.add_load(1);
    set.add_load(2);
    // Samples name both candidates; key 2 carries less load.
    assert_eq!(set.select(0, 1), Some(2));
    assert_eq!(set.select(1, 0), Some(2));
}

#[test]
fn failover_routes_around_a_failed_endpoint() {
    let mut set = two_ready();
    set.mark_failed(1);
    for s in 0..16usize {
        assert_eq!(set.select(s, s / 3), Some(2));
    }
}

#[test]
fn two_choices_keep_equal_latency_load_balanced() {
    // N requests over K ready endpoints of equal latency: each endpoint's
    // load stays within twenty percent of N/K.
    let mut set = BalancerSet::new();
    let k = 4u64;
    for key in 0..k {
        set.apply_change(Change::Insert(key));
        set.mark_ready(key);
    }
    let n = 10000usize;
    let mut state = 0x2545f4914f6cdd1du64;
    for _ in 0..n {
        state ^= state << 13;
        state ^= state >> 7;
        state ^= state << 17;
        let a = (state % 65536) as usize;
        let b = ((state >> 16) % 65536) as usize;
        let chosen = set.select(a, b).unwrap();
        set.add_load(chosen);
    }
    let share = n as f64 / k as f64;
    for (_, _, load) in &set.entries {
        let load = *load as f64;
        assert!(load > share * 0.8 && load < share * 1.2);
    }
}

#[test]
fn pipeline_readiness_follows_queue_and_termination() {
    let mut p = Pipeline::new(2);
    assert_eq!(p.poll_ready(), Readiness::Ready);
    p.call();
    assert_eq!(p.poll_ready(), Readiness::Ready);
    p.call();
    assert_eq!(p.poll_ready(), Readiness::Pending);
    p.worker_take();
    assert_eq!(p.poll_ready(), Readiness::Ready);
    p.worker_complete();
    p.worker_fail();
    assert_eq!(p.poll_ready(), Readiness::Terminated);
    assert_eq!(p.poll_ready(), Readiness::Terminated);
}

#[test]
fn balance_channel_starts_empty_with_capacity() {
    let c = Channel::balance_channel(16);
    assert_eq!(c.pipeline.capacity, 16);
    assert_eq!(c.pipeline.queued, 0);
    assert!(c.balancer.as_ref().unwrap().entries.is_empty());
}

#[test]
fn balance_list_inserts_one_entry_per_endpoint() {
    let a = Channel::from_shared("http://a.example").unwrap();
    let b = Channel::from_shared("http://b.example").unwrap();
    let c = Channel::balance_list(vec![a, b]);
    assert_eq!(c.pipeline.capacity, 1024);
    let set = c.balancer.as_ref().unwrap();
    assert_eq!(
        set.entries,
        vec![(0, EndpointState::Connecting, 0), (1, EndpointState::Connecting, 0)]
    );
    assert_eq!(c.endpoints.len(), 2);
}

#[test]
fn from_shared_refuses_a_malformed_uri() {
    assert!(Channel::from_shared("http://ex ample.com").is_err());
    assert!(Channel::from_shared("https://example.com/path").is_ok());
}

#[test]
fn clones_observe_the_same_backpressure() {
    // Two handles over one pipeline state read the same signal.
    let mut p = Pipeline::new(1);
    let view_one = p.poll_ready();
    let view_two = p.poll_ready();
    assert_eq!(view_one, view_two);
    p.call();
    assert_eq!(p.poll_ready(), Readiness::Pending);
    assert_eq!(p.poll_ready(), Readiness::Pending);
}
