//! The load balancer's endpoint set and selection rule: a mapping from
//! opaque key to endpoint state, mutated only by discovery change events,
//! with power-of-two-choices selection over the ready endpoints. The random
//! samples are drawn by the caller and handed in; selection is then a plain
//! function of the set and the samples.

use vstd::prelude::*;

verus! {

/// The connection state of one endpoint in the set.
#[derive(Clone, Copy, Debug, PartialEq, Eq, Structural)]
pub enum EndpointState {
    Connecting,
    Ready,
    Failed,
}

/// One discovery change event.
#[derive(Clone, Copy, Debug, PartialEq, Eq, Structural)]
pub enum Change {
    Insert(u64),
    Remove(u64),
}

/// One entry of the endpoint set: key, state, and pending-request load.
pub type Entry = (u64, EndpointState, usize);

/// The endpoint set a balancer owns.
#[derive(Clone, Debug)]
pub struct BalancerSet {
    pub entries: Vec<Entry>,
}

/// Whether an entry is ready.
pub open spec fn spec_is_ready(e: Entry) -> bool {
    e.1 == EndpointState::Ready
}

/// The ready entries of `entries`, in insertion order.
pub open spec fn spec_ready(entries: Seq<Entry>) -> Seq<Entry> {
    entries.filter(|e: Entry| spec_is_ready(e))
}

/// `e` marked `state` when it is under `key`, untouched otherwise.
pub open spec fn spec_mark_one(e: Entry, key: u64, state: EndpointState) -> Entry {
    if e.0 == key {
        (e.0, state, e.2)
    } else {
        e
    }
}

/// `entries` with every entry under `key` marked `state`, loads kept.
pub open spec fn spec_mark(entries: Seq<Entry>, key: u64, state: EndpointState) -> Seq<Entry> {
    entries.map_values(|e: Entry| spec_mark_one(e, key, state))
}

/// Whether an entry is under a key other than `key`.
pub open spec fn spec_keeps(e: Entry, key: u64) -> bool {
    e.0 != key
}

/// `entries` with every entry under `key` removed.
pub open spec fn spec_remove(entries: Seq<Entry>, key: u64) -> Seq<Entry> {
    entries.filter(|e: Entry| spec_keeps(e, key))
}

/// `e` with one more pending request when it is under `key` and its count
/// has room.
pub open spec fn spec_bump_one(e: Entry, key: u64) -> Entry {
    if e.0 == key && e.2 < usize::MAX {
        (e.0, e.1, (e.2 + 1) as usize)
    } else {
        e
    }
}

/// `entries` with `key`'s pending-request count bumped.
pub open spec fn spec_add_load(entries: Seq<Entry>, key: u64) -> Seq<Entry> {
    entries.map_values(|e: Entry| spec_bump_one(e, key))
}

impl BalancerSet {
    /// The empty endpoint set.
    pub fn new() -> (r: BalancerSet)
        ensures
            r.entries@ == Seq::<Entry>::empty(),
    {
        BalancerSet { entries: Vec::new() }
    }

    /// Apply one discovery change: an insert removes any entry under the
    /// key and adds a fresh `Connecting` entry with no load; a remove drops
    /// the key's entries.
    pub fn apply_change(&mut self, change: Change)
        ensures
            final(self).entries@ == match change {
                Change::Insert(key) => spec_remove(old(self).entries@, key).push(
                    (key, EndpointState::Connecting, 0usize),
                ),
                Change::Remove(key) => spec_remove(old(self).entries@, key),
            },
    {
        match change {
            Change::Insert(key) => {
                self.retain_other_keys(key);
                self.entries.push((key, EndpointState::Connecting, 0));
            },
            Change::Remove(key) => {
                self.retain_other_keys(key);
            },
        }
    }

    /// Drop every entry under `key`.
    fn retain_other_keys(&mut self, key: u64)
        ensures
            final(self).entries@ == spec_remove(old(self).entries@, key),
    {
        let n = self.entries.len();
        let mut out: Vec<Entry> = Vec::new();
        let mut i: usize = 0;
        proof {
            reveal(Seq::filter);
            assert(spec_remove(old(self).entries@.subrange(0, 0), key) =~= Seq::<Entry>::empty());
        }
        while i < n
            invariant
                i <= n,
                n == self.entries@.len(),
                self.entries@ == old(self).entries@,
                out@ == spec_remove(self.entries@.subrange(0, i as int), key),
            decreases n - i,
        {
            let e = self.entries[i];
            proof {
                let prefix = self.entries@.subrange(0, i as int);
                let next = self.entries@.subrange(0, i as int + 1);
                assert(next.drop_last() =~= prefix);
                assert(next.last() == e);
                reveal(Seq::filter);
                assert(spec_remove(next, key) == if spec_keeps(e, key) {
                    spec_remove(prefix, key).push(e)
                } else {
                    spec_remove(prefix, key)
                });
            }
            if e.0 != key {
                out.push(e);
            }
            i = i + 1;
        }
        proof {
            assert(self.entries@.subrange(0, n as int) =~= self.entries@);
        }
        self.entries = out;
    }

    /// Mark every entry under `key` with `state`, keeping its load.
    fn mark(&mut self, key: u64, state: EndpointState)
        ensures
            final(self).entries@ == spec_mark(old(self).entries@, key, state),
    {
        let n = self.entries.len();
        let mut i: usize = 0;
        while i < n
            invariant
                i <= n,
                n == self.entries@.len(),
                forall|j: int|
                    i <= j < n ==> self.entries@[j] == old(self).entries@[j],
                forall|j: int|
                    0 <= j < i ==> self.entries@[j] == spec_mark_one(
                        old(self).entries@[j],
                        key,
                        state,
                    ),
            decreases n - i,
        {
            let e = self.entries[i];
            if e.0 == key {
                self.entries.set(i, (e.0, state, e.2));
            }
            i = i + 1;
        }
        proof {
            assert(self.entries@ =~= spec_mark(old(self).entries@, key, state));
        }
    }

    /// An endpoint's connection came up: mark it ready.
    pub fn mark_ready(&mut self, key: u64)
        ensures
            final(self).entries@ == spec_mark(old(self).entries@, key, EndpointState::Ready),
    {
        self.mark(key, EndpointState::Ready);
    }

    /// An endpoint failed: mark it, and expect discovery to remove it. The
    /// balancer itself never retries a failed endpoint.
    pub fn mark_failed(&mut self, key: u64)
        ensures
            final(self).entries@ == spec_mark(old(self).entries@, key, EndpointState::Failed),
    {
        self.mark(key, EndpointState::Failed);
    }

    /// One more request is pending on `key`'s endpoint.
    pub fn add_load(&mut self, key: u64)
        ensures
            final(self).entries@ == spec_add_load(old(self).entries@, key),
    {
        let n = self.entries.len();
        let mut i: usize = 0;
        while i < n
            invariant
                i <= n,
                n == self.entries@.len(),
                forall|j: int| i <= j < n ==> self.entries@[j] == old(self).entries@[j],
                forall|j: int|
                    0 <= j < i ==> self.entries@[j] == spec_bump_one(old(self).entries@[j], key),
            decreases n - i,
        {
            let e = self.entries[i];
            if e.0 == key && e.2 < usize::MAX {
                self.entries.set(i, (e.0, e.1, e.2 + 1));
            }
            i = i + 1;
        }
        proof {
            assert(self.entries@ =~= spec_add_load(old(self).entries@, key));
        }
    }

    /// The ready entries, in insertion order.
    pub fn ready_entries(&self) -> (r: Vec<Entry>)
        ensures
            r@ == spec_ready(self.entries@),
    {
        let n = self.entries.len();
        let mut out: Vec<Entry> = Vec::new();
        let mut i: usize = 0;
        proof {
            reveal(Seq::filter);
            assert(spec_ready(self.entries@.subrange(0, 0)) =~= Seq::<Entry>::empty());
        }
        while i < n
            invariant
                i <= n,
                n == self.entries@.len(),
                out@ == spec_ready(self.entries@.subrange(0, i as int)),
            decreases n - i,
        {
            let e = self.entries[i];
            proof {
                let prefix = self.entries@.subrange(0, i as int);
                let next = self.entries@.subrange(0, i as int + 1);
                assert(next.drop_last() =~= prefix);
                assert(next.last() == e);
                reveal(Seq::filter);
                assert(spec_ready(next) == if spec_is_ready(e) {
                    spec_ready(prefix).push(e)
                } else {
                    spec_ready(prefix)
                });
            }
            if matches!(e.1, EndpointState::Ready) {
                out.push(e);
            }
            i = i + 1;
        }
        proof {
            assert(self.entries@.subrange(0, n as int) =~= self.entries@);
        }
        out
    }

    /// Power-of-two-choices selection: `a` and `b` are the caller's random
    /// samples. Over the ready entries, the two samples (taken modulo the
    /// ready count) name two candidates, and the one with the lower pending
    /// load wins; with one ready endpoint it is the only candidate, and
    /// with none the selection is pending (`None`).
    pub fn select(&self, a: usize, b: usize) -> (r: Option<u64>)
        ensures
            ({
                let ready = spec_ready(self.entries@);
                match r {
                    None => ready.len() == 0,
                    Some(k) => {
                        let ca = ready[a as int % ready.len() as int];
                        let cb = ready[b as int % ready.len() as int];
                        &&& ready.len() > 0
                        &&& k == if ca.2 <= cb.2 {
                            ca.0
                        } else {
                            cb.0
                        }
                    },
                }
            }),
    {
        let ready = self.ready_entries();
        let count = ready.len();
        if count == 0 {
            return None;
        }
        let ca = ready[a % count];
        let cb = ready[b % count];
        if ca.2 <= cb.2 {
            Some(ca.0)
        } else {
            Some(cb.0)
        }
    }
}

/// Selection only routes to a ready endpoint: whatever the random samples,
/// the selected key is the key of some entry in the ready set.
pub proof fn lemma_select_only_ready(entries: Seq<Entry>, a: int, b: int, k: u64)
    requires
        spec_ready(entries).len() > 0,
        0 <= a < spec_ready(entries).len(),
        0 <= b < spec_ready(entries).len(),
        k == if spec_ready(entries)[a].2 <= spec_ready(entries)[b].2 {
            spec_ready(entries)[a].0
        } else {
            spec_ready(entries)[b].0
        },
    ensures
        exists|i: int|
            0 <= i < entries.len() && (#[trigger] entries[i]).0 == k && entries[i].1
                == EndpointState::Ready,
{
    let ready = spec_ready(entries);
    let chosen = if ready[a].2 <= ready[b].2 {
        ready[a]
    } else {
        ready[b]
    };
    let j = if ready[a].2 <= ready[b].2 {
        a
    } else {
        b
    };
    broadcast use vstd::seq_lib::group_filter_ensures;
    broadcast use Seq::lemma_filter_contains_rev;

    assert(ready[j] == chosen);
    assert(ready.contains(ready[j]));
    let i = choose|i: int| 0 <= i < entries.len() && #[trigger] entries[i] == ready[j];
    assert(spec_is_ready(entries[i]));
    assert(entries[i].0 == k && entries[i].1 == EndpointState::Ready);
}

/// Failover: once an endpoint is marked failed, selection never routes to
/// it — any selected key is some other, still-ready endpoint's key.
pub proof fn lemma_failover(entries: Seq<Entry>, key: u64, a: int, b: int, k: u64)
    requires
        ({
            let marked = spec_mark(entries, key, EndpointState::Failed);
            let ready = spec_ready(marked);
            &&& ready.len() > 0
            &&& 0 <= a < ready.len()
            &&& 0 <= b < ready.len()
            &&& k == if ready[a].2 <= ready[b].2 {
                ready[a].0
            } else {
                ready[b].0
            }
        }),
    ensures
        k != key,
{
    let marked = spec_mark(entries, key, EndpointState::Failed);
    let ready = spec_ready(marked);
    let j = if ready[a].2 <= ready[b].2 {
        a
    } else {
        b
    };
    broadcast use vstd::seq_lib::group_filter_ensures;
    broadcast use Seq::lemma_filter_contains_rev;

    assert(ready.contains(ready[j]));
    let i = choose|i: int| 0 <= i < marked.len() && #[trigger] marked[i] == ready[j];
    assert(marked[i].1 == EndpointState::Ready);
    if marked[i].0 == key {
        assert(marked[i] == spec_mark_one(entries[i], key, EndpointState::Failed));
        assert(false);
    }
}

} // verus!
