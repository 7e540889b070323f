//! The client channel's shared pipeline: a bounded inbound queue driven by
//! one worker over the connection or the balancer. Every clone of a channel
//! is a handle onto one such pipeline — readiness and queueing are
//! functions of this shared state, which is what makes clones equivalent.
//! The asynchronous driving of the pipeline is the host's business; the
//! state and its transitions are modelled and verified here.

use vstd::prelude::*;
use crate::balancer::{spec_remove, BalancerSet, Change, EndpointState};
use crate::endpoint::{parse_uri, uri_ok, Endpoint, InvalidUriError};
use crate::DEFAULT_BUFFER_SIZE;

verus! {

/// The backpressure signal a channel handle observes.
#[derive(Clone, Copy, Debug, PartialEq, Eq, Structural)]
pub enum Readiness {
    /// The buffer has room: one credit, to be consumed by exactly one call.
    Ready,
    /// The buffer is full.
    Pending,
    /// The worker has terminated; every later poll reports the same.
    Terminated,
}

/// The state shared by all clones of one channel: the bounded queue and
/// the worker driving the inner service.
#[derive(Clone, Copy, Debug, PartialEq, Eq, Structural)]
pub struct Pipeline {
    /// Capacity of the bounded inbound queue.
    pub capacity: usize,
    /// Requests enqueued and not yet taken by the worker.
    pub queued: usize,
    /// Whether the worker has a request in flight on the inner service —
    /// never more than one.
    pub in_flight: bool,
    /// Whether the worker has terminated (inner service failed for good).
    pub terminated: bool,
}

impl Pipeline {
    /// The queue never holds more than its capacity.
    pub open spec fn wf(self) -> bool {
        self.queued <= self.capacity
    }

    /// The backpressure signal as a function of the shared state alone:
    /// ready while the queue has room, terminated once the worker is gone,
    /// pending otherwise.
    pub open spec fn spec_readiness(self) -> Readiness {
        if self.terminated {
            Readiness::Terminated
        } else if self.queued < self.capacity {
            Readiness::Ready
        } else {
            Readiness::Pending
        }
    }

    /// A fresh pipeline with an empty queue.
    pub fn new(capacity: usize) -> (r: Pipeline)
        ensures
            r.capacity == capacity,
            r.queued == 0,
            !r.in_flight,
            !r.terminated,
            r.wf(),
    {
        Pipeline { capacity, queued: 0, in_flight: false, terminated: false }
    }

    /// Observe the backpressure signal.
    pub fn poll_ready(&self) -> (r: Readiness)
        ensures
            r == self.spec_readiness(),
    {
        if self.terminated {
            Readiness::Terminated
        } else if self.queued < self.capacity {
            Readiness::Ready
        } else {
            Readiness::Pending
        }
    }

    /// Enqueue one request. A caller must have observed `Ready` first: one
    /// credit is one call.
    pub fn call(&mut self)
        requires
            old(self).spec_readiness() == Readiness::Ready,
            old(self).wf(),
    ensures
            final(self).queued == old(self).queued + 1,
            final(self).capacity == old(self).capacity,
            final(self).in_flight == old(self).in_flight,
            !final(self).terminated,
            final(self).wf(),
    {
        self.queued = self.queued + 1;
    }

    /// The worker takes the next request, once the inner service is ready
    /// and nothing is in flight: at most one request rides the inner
    /// service at a time.
    pub fn worker_take(&mut self)
        requires
            !old(self).terminated,
            !old(self).in_flight,
            old(self).queued > 0,
    ensures
            final(self).queued == old(self).queued - 1,
            final(self).in_flight,
            final(self).capacity == old(self).capacity,
            !final(self).terminated,
    {
        self.queued = self.queued - 1;
        self.in_flight = true;
    }

    /// The in-flight call finished; the worker completes the caller's
    /// response future.
    pub fn worker_complete(&mut self)
        requires
            old(self).in_flight,
    ensures
            !final(self).in_flight,
            final(self).queued == old(self).queued,
            final(self).capacity == old(self).capacity,
            final(self).terminated == old(self).terminated,
    {
        self.in_flight = false;
    }

    /// The inner service failed for good: the worker terminates and the
    /// queue closes. From here on, readiness is `Terminated`, forever.
    pub fn worker_fail(&mut self)
        ensures
            final(self).terminated,
            final(self).queued == 0,
            !final(self).in_flight,
            final(self).capacity == old(self).capacity,
            final(self).spec_readiness() == Readiness::Terminated,
            final(self).wf(),
    {
        self.terminated = true;
        self.queued = 0;
        self.in_flight = false;
    }
}

/// Channel clone equivalence: clones of one channel are handles onto one
/// pipeline, so two clones hold equal pipeline states, and the
/// backpressure signal — a function of that state alone — reads the same
/// through either. A request submitted via either clone enters the same
/// queue and is served by the same worker.
pub proof fn lemma_clone_equivalence(p1: Pipeline, p2: Pipeline)
    requires
        p1 == p2,
    ensures
        p1.spec_readiness() == p2.spec_readiness(),
{
}

/// Once the worker terminates, every poll observes `Terminated`.
pub proof fn lemma_terminated_is_final(p: Pipeline)
    requires
        p.terminated,
    ensures
        p.spec_readiness() == Readiness::Terminated,
{
}

/// A channel: one pipeline, and — when balancing over many endpoints —
/// the balancer's endpoint set. The endpoints the channel was built over
/// ride along for the host's connector.
pub struct Channel {
    pub pipeline: Pipeline,
    pub balancer: Option<BalancerSet>,
    pub endpoints: Vec<Endpoint>,
}

proof fn lemma_remove_absent(entries: Seq<crate::balancer::Entry>, key: u64)
    requires
        forall|j: int| 0 <= j < entries.len() ==> (#[trigger] entries[j]).0 != key,
    ensures
        spec_remove(entries, key) == entries,
    decreases entries.len(),
{
    reveal(Seq::filter);
    if entries.len() > 0 {
        lemma_remove_absent(entries.drop_last(), key);
        assert(spec_remove(entries.drop_last(), key).push(entries.last()) =~= entries);
    }
}

impl Channel {
    /// Begin an endpoint for `uri`: channels are made from endpoints.
    pub fn builder(uri: http::Uri) -> (r: Endpoint)
        ensures
            r.uri == uri,
            r.connect_timeout_ms is None,
            r.buffer_size is None,
            r.user_agent is None,
    {
        Endpoint::from_uri(uri)
    }

    /// An endpoint from a string that is known to be a well-formed URI:
    /// the caller owes the validity, and an invalid string is outside this
    /// function's contract. `from_shared` is the checked entry point that
    /// tests the string and refuses an invalid one with `InvalidUriError`.
    pub fn from_static(s: &str) -> (r: Endpoint)
        requires
            uri_ok(s@),
        ensures
            r.connect_timeout_ms is None,
            r.buffer_size is None,
            r.user_agent is None,
    {
        match parse_uri(s) {
            Ok(uri) => Endpoint::from_uri(uri),
            Err(_) => vstd::pervasive::unreached(),
        }
    }

    /// An endpoint from any string: a string that does not parse as a URI
    /// is refused.
    pub fn from_shared(s: &str) -> (r: Result<Endpoint, InvalidUriError>)
        ensures
            r is Ok <==> uri_ok(s@),
            r matches Ok(e) ==> e.connect_timeout_ms is None && e.buffer_size is None
                && e.user_agent is None,
    {
        match parse_uri(s) {
            Ok(_) => Ok(Self::from_static(s)),
            Err(_) => Err(InvalidUriError {}),
        }
    }

    /// A lazy channel over one endpoint: the queue capacity is the
    /// endpoint's buffer size, or the 1024 default. The connection itself
    /// is made by the host on first use.
    pub fn new(endpoint: Endpoint) -> (r: Channel)
        ensures
            r.pipeline.capacity == match endpoint.buffer_size {
                Some(s) => s,
                None => DEFAULT_BUFFER_SIZE,
            },
            r.pipeline.queued == 0,
            !r.pipeline.terminated,
            !r.pipeline.in_flight,
            r.balancer is None,
            r.endpoints@.len() == 1,
            r.endpoints@[0] == endpoint,
    {
        let capacity = match endpoint.buffer_size {
            Some(s) => s,
            None => DEFAULT_BUFFER_SIZE,
        };
        let mut endpoints: Vec<Endpoint> = Vec::new();
        endpoints.push(endpoint);
        Channel { pipeline: Pipeline::new(capacity), balancer: None, endpoints }
    }

    /// A balancing channel with the given queue capacity and an empty
    /// endpoint set; discovery changes populate it.
    pub fn balance_channel(capacity: usize) -> (r: Channel)
        ensures
            r.pipeline.capacity == capacity,
            r.pipeline.queued == 0,
            !r.pipeline.terminated,
            !r.pipeline.in_flight,
            r.balancer matches Some(b) && b.entries@ == Seq::<crate::balancer::Entry>::empty(),
            r.endpoints@.len() == 0,
    {
        Channel {
            pipeline: Pipeline::new(capacity),
            balancer: Some(BalancerSet::new()),
            endpoints: Vec::new(),
        }
    }

    /// A balancing channel over a fixed endpoint list: the default queue
    /// capacity, and one insert change per endpoint, keyed by its position,
    /// before the channel is handed out.
    pub fn balance_list(list: Vec<Endpoint>) -> (r: Channel)
        ensures
            r.pipeline.capacity == DEFAULT_BUFFER_SIZE,
            r.pipeline.queued == 0,
            !r.pipeline.terminated,
            !r.pipeline.in_flight,
            r.endpoints == list,
            r.balancer matches Some(b) && b.entries@.len() == list@.len() && forall|i: int|
                0 <= i < list@.len() ==> b.entries@[i] == (
                    i as u64,
                    EndpointState::Connecting,
                    0usize,
                ),
    {
        let mut channel = Self::balance_channel(DEFAULT_BUFFER_SIZE);
        let n = list.len();
        let mut set = match channel.balancer {
            Some(b) => b,
            None => vstd::pervasive::unreached(),
        };
        let mut i: usize = 0;
        while i < n
            invariant
                i <= n,
                n == list@.len(),
                n <= u64::MAX,
                set.entries@.len() == i,
                forall|j: int|
                    0 <= j < i ==> set.entries@[j] == (
                        j as u64,
                        EndpointState::Connecting,
                        0usize,
                    ),
            decreases n - i,
        {
            proof {
                lemma_remove_absent(set.entries@, i as u64);
            }
            set.apply_change(Change::Insert(i as u64));
            i = i + 1;
        }
        channel.balancer = Some(set);
        channel.endpoints = list;
        channel
    }
}

} // verus!
