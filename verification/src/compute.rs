//! Per-instance compute state: the replica set, the tracked write frontier
//! of every collection the instance maintains, in-flight peeks, and the
//! instance's inbound response queue.
//!
//! Tracked write frontiers only ever move forward: every event-handling
//! path joins into them, none regresses them.

use vstd::prelude::*;

use crate::frontier::{frontier_join, frontier_le, lemma_join_advances, Frontier};
use crate::idmap::IdMap;

verus! {

broadcast use vstd::seq::group_seq_axioms, vstd::std_specs::vec::group_vec_axioms;

/// Configuration of introspection (logging) dataflows for an instance.
#[derive(Debug, Clone, Copy, PartialEq, Eq, Structural)]
pub struct LoggingConfig {
    /// How often introspection sources tick, in nanoseconds.
    pub granularity_ns: u64,
    /// Whether the logging dataflows log themselves.
    pub log_logging: bool,
}

/// Whether a logging configuration can be realised: introspection sources
/// cannot tick with a zero period.
pub open spec fn logging_valid(logging: Option<LoggingConfig>) -> bool {
    match logging {
        Option::None => true,
        Option::Some(c) => c.granularity_ns >= 1,
    }
}

/// The payload of a completed peek, exposed to the caller verbatim.
#[derive(Debug)]
pub enum PeekResult {
    Rows(Vec<u64>),
    Error(String),
    Canceled,
}

/// One batch of a tail (subscribe) stream: the changes between two
/// frontiers of the tailed collection.
#[derive(Debug)]
pub struct TailBatch {
    pub lower: Frontier,
    pub upper: Frontier,
    pub updates: Vec<(u64, i64)>,
}

/// Progress of a tail (subscribe) stream.
#[derive(Debug)]
pub enum TailResponse {
    /// The next batch of changes.
    Batch(TailBatch),
    /// The tail itself was dropped at this frontier; the tailed collection
    /// may nevertheless live on.
    DroppedAt(Frontier),
}

/// A response sent by an instance's replicas.
#[derive(Debug)]
pub enum ComputeResponse {
    /// New write frontiers for the instance's collections.
    FrontierUppers(Vec<(u64, Frontier)>),
    /// A peek completed.
    PeekResponse(u64, PeekResult),
    /// A tail stream advanced or was dropped.
    TailResponse(u64, TailResponse),
}

/// A command on an instance's command path.
#[derive(Debug, Clone, Copy, PartialEq, Eq, Structural)]
pub enum ComputeCommand {
    /// Tear the instance down; sent even when no replica remains, to flush
    /// transport-level shutdown semantics.
    DropInstance,
}

/// The capability handle for one replica: commands fan out to these
/// endpoints. Built once at replica creation and never inspected again.
#[derive(Debug)]
pub struct ReplicaClient {
    /// The replica's service name.
    pub name: String,
    /// The endpoints commands fan out to.
    pub addrs: Vec<String>,
}

/// Whether every frontier a response carries is well formed. Frontiers
/// built through this crate always are; the queue's invariant remembers it.
pub open spec fn response_wf(r: ComputeResponse) -> bool {
    match r {
        ComputeResponse::FrontierUppers(ups) => forall|i: int|
            0 <= i < ups@.len() ==> (#[trigger] ups@[i]).1.wf(),
        ComputeResponse::PeekResponse(_, _) => true,
        ComputeResponse::TailResponse(_, tr) => match tr {
            TailResponse::Batch(tb) => tb.lower.wf() && tb.upper.wf(),
            TailResponse::DroppedAt(f) => f.wf(),
        },
    }
}

/// The controller-side state of one compute instance.
#[derive(Debug)]
pub struct ComputeControllerState {
    logging: Option<LoggingConfig>,
    replicas: IdMap<ReplicaClient>,
    frontiers: IdMap<Frontier>,
    peeks: Vec<u64>,
    queue: Vec<ComputeResponse>,
}

/// The tracked frontier of one collection after a batch of updates: each
/// matching update joins in, in order.
pub open spec fn applied_frontier(
    before: Option<int>,
    ups: Seq<(u64, Option<int>)>,
    g: u64,
) -> Option<int>
    decreases ups,
{
    if ups.len() == 0 {
        before
    } else {
        let prev = applied_frontier(before, ups.drop_last(), g);
        if ups.last().0 == g {
            frontier_join(prev, ups.last().1)
        } else {
            prev
        }
    }
}

/// A batch of joins never moves a tracked frontier backward.
pub proof fn lemma_applied_frontier_monotone(before: Option<int>, ups: Seq<(u64, Option<int>)>, g: u64)
    ensures
        frontier_le(before, applied_frontier(before, ups, g)),
    decreases ups,
{
    if ups.len() > 0 {
        lemma_applied_frontier_monotone(before, ups.drop_last(), g);
        if ups.last().0 == g {
            lemma_join_advances(applied_frontier(before, ups.drop_last(), g), ups.last().1);
        }
    }
}

impl ComputeControllerState {
    pub closed spec fn wf(&self) -> bool {
        &&& self.replicas.wf()
        &&& self.frontiers.wf()
        &&& forall|g: u64|
            self.frontiers@.dom().contains(g) ==> (#[trigger] self.frontiers@[g]).wf()
        &&& forall|i: int, j: int|
            0 <= i < j < self.peeks@.len() ==> self.peeks@[i] != self.peeks@[j]
        &&& forall|i: int| 0 <= i < self.queue@.len() ==> response_wf(#[trigger] self.queue@[i])
    }

    /// The instance's replicas, by identifier.
    pub closed spec fn replicas_spec(&self) -> Map<u64, ReplicaClient> {
        self.replicas@
    }

    /// The tracked write frontier of a collection. A collection that has
    /// never been reported on sits at the minimum: everything may still
    /// change.
    pub closed spec fn write_frontier_of(&self, g: u64) -> Option<int> {
        if self.frontiers@.dom().contains(g) {
            self.frontiers@[g]@
        } else {
            Option::Some(0int)
        }
    }

    /// The in-flight peeks.
    pub closed spec fn peeks_spec(&self) -> Seq<u64> {
        self.peeks@
    }

    pub open spec fn has_peek(&self, uuid: u64) -> bool {
        self.peeks_spec().contains(uuid)
    }

    /// The responses received from replicas and not yet multiplexed.
    pub closed spec fn queue_spec(&self) -> Seq<ComputeResponse> {
        self.queue@
    }

    pub closed spec fn logging_spec(&self) -> Option<LoggingConfig> {
        self.logging
    }

    /// Fresh state for a newly created instance.
    pub fn new(logging: Option<LoggingConfig>) -> (s: ComputeControllerState)
        requires
            logging_valid(logging),
        ensures
            s.wf(),
            s.replicas_spec() == Map::<u64, ReplicaClient>::empty(),
            forall|g: u64| s.write_frontier_of(g) == Option::Some(0int),
            s.peeks_spec() == Seq::<u64>::empty(),
            s.queue_spec() == Seq::<ComputeResponse>::empty(),
            s.logging_spec() == logging,
    {
        ComputeControllerState {
            logging,
            replicas: IdMap::new(),
            frontiers: IdMap::new(),
            peeks: Vec::new(),
            queue: Vec::new(),
        }
    }

    pub fn logging_config(&self) -> (l: &Option<LoggingConfig>)
        ensures
            *l == self.logging_spec(),
    {
        &self.logging
    }

    /// Registers a replica's client handle under its identifier.
    pub fn add_replica(&mut self, id: u64, client: ReplicaClient)
        requires
            old(self).wf(),
        ensures
            final(self).wf(),
            final(self).replicas_spec() == old(self).replicas_spec().insert(id, client),
            forall|g: u64| final(self).write_frontier_of(g) == old(self).write_frontier_of(g),
            final(self).peeks_spec() == old(self).peeks_spec(),
            final(self).queue_spec() == old(self).queue_spec(),
            final(self).logging_spec() == old(self).logging_spec(),
    {
        self.replicas.insert(id, client);
    }

    /// Discards a replica's local bookkeeping.
    pub fn remove_replica(&mut self, id: u64)
        requires
            old(self).wf(),
        ensures
            final(self).wf(),
            final(self).replicas_spec() == old(self).replicas_spec().remove(id),
            forall|g: u64| final(self).write_frontier_of(g) == old(self).write_frontier_of(g),
            final(self).peeks_spec() == old(self).peeks_spec(),
            final(self).queue_spec() == old(self).queue_spec(),
            final(self).logging_spec() == old(self).logging_spec(),
    {
        self.replicas.remove(id);
    }

    /// Whether any replica remains registered.
    pub fn has_replicas(&self) -> (b: bool)
        requires
            self.wf(),
        ensures
            b == (self.replicas_spec() != Map::<u64, ReplicaClient>::empty()),
    {
        self.replicas.len() > 0
    }

    pub fn get_replica(&self, id: u64) -> (r: Option<&ReplicaClient>)
        requires
            self.wf(),
        ensures
            match r {
                Option::Some(c) => self.replicas_spec().dom().contains(id) && *c
                    == self.replicas_spec()[id],
                Option::None => !self.replicas_spec().dom().contains(id),
            },
    {
        self.replicas.get(id)
    }

    /// The tracked write frontier of a collection, as a value.
    pub fn write_frontier(&self, g: u64) -> (r: Option<u64>)
        requires
            self.wf(),
        ensures
            match r {
                Option::None => self.write_frontier_of(g) == Option::<int>::None,
                Option::Some(t) => self.write_frontier_of(g) == Option::Some(t as int),
            },
    {
        match self.frontiers.get(g) {
            Option::Some(f) => f.as_option(),
            Option::None => Option::Some(0),
        }
    }

    /// Joins a reported frontier into one collection's tracked write
    /// frontier. Monotone: the tracked frontier never regresses.
    pub fn update_write_frontier(&mut self, g: u64, f: &Frontier)
        requires
            old(self).wf(),
            f.wf(),
        ensures
            final(self).wf(),
            final(self).write_frontier_of(g) == frontier_join(old(self).write_frontier_of(g), f@),
            forall|h: u64| h != g ==> final(self).write_frontier_of(h) == old(self).write_frontier_of(h),
            frontier_le(old(self).write_frontier_of(g), final(self).write_frontier_of(g)),
            final(self).replicas_spec() == old(self).replicas_spec(),
            final(self).peeks_spec() == old(self).peeks_spec(),
            final(self).queue_spec() == old(self).queue_spec(),
            final(self).logging_spec() == old(self).logging_spec(),
    {
        proof {
            lemma_join_advances(old(self).write_frontier_of(g), f@);
        }
        let joined = match self.frontiers.get(g) {
            Option::Some(current) => current.join(f),
            Option::None => Frontier::minimum().join(f),
        };
        self.frontiers.insert(g, joined);
    }

    /// Joins a batch of reported frontiers into the tracked write
    /// frontiers, in order. Every collection's tracked frontier is
    /// monotonically non-decreasing under any such batch.
    pub fn update_write_frontiers(&mut self, updates: &Vec<(u64, Frontier)>)
        requires
            old(self).wf(),
            forall|i: int| 0 <= i < updates@.len() ==> (#[trigger] updates@[i]).1.wf(),
        ensures
            final(self).wf(),
            forall|g: u64|
                final(self).write_frontier_of(g) == applied_frontier(
                    old(self).write_frontier_of(g),
                    updates@.map_values(|u: (u64, Frontier)| (u.0, u.1@)),
                    g,
                ),
            forall|g: u64| frontier_le(old(self).write_frontier_of(g), final(self).write_frontier_of(g)),
            final(self).replicas_spec() == old(self).replicas_spec(),
            final(self).peeks_spec() == old(self).peeks_spec(),
            final(self).queue_spec() == old(self).queue_spec(),
            final(self).logging_spec() == old(self).logging_spec(),
    {
        let ghost ups = updates@.map_values(|u: (u64, Frontier)| (u.0, u.1@));
        let n = updates.len();
        let mut i: usize = 0;
        while i < n
            invariant
                self.wf(),
                n == updates@.len(),
                i <= n,
                ups == updates@.map_values(|u: (u64, Frontier)| (u.0, u.1@)),
                forall|k: int| 0 <= k < updates@.len() ==> (#[trigger] updates@[k]).1.wf(),
                forall|g: u64|
                    self.write_frontier_of(g) == applied_frontier(old(self).write_frontier_of(g), ups.take(i as int), g),
                self.replicas_spec() == old(self).replicas_spec(),
                self.peeks_spec() == old(self).peeks_spec(),
                self.queue_spec() == old(self).queue_spec(),
                self.logging_spec() == old(self).logging_spec(),
            decreases n - i,
        {
            let ghost before_step = *self;
            proof {
                assert(ups.take(i + 1).drop_last() =~= ups.take(i as int));
                assert(ups.take(i + 1).last() == ups[i as int]);
            }
            let g = updates[i].0;
            let f = &updates[i].1;
            self.update_write_frontier(g, f);
            proof {
                assert forall|h: u64| self.write_frontier_of(h) == applied_frontier(
                    old(self).write_frontier_of(h),
                    ups.take(i + 1),
                    h,
                ) by {
                    if h != g {
                        assert(self.write_frontier_of(h) == before_step.write_frontier_of(h));
                    }
                }
            }
            i += 1;
        }
        proof {
            assert(ups.take(n as int) =~= ups);
            assert forall|g: u64| frontier_le(
                old(self).write_frontier_of(g),
                self.write_frontier_of(g),
            ) by {
                lemma_applied_frontier_monotone(old(self).write_frontier_of(g), ups, g);
            }
        }
    }

    /// Records an in-flight peek.
    pub fn register_peek(&mut self, uuid: u64)
        requires
            old(self).wf(),
            !old(self).has_peek(uuid),
        ensures
            final(self).wf(),
            final(self).peeks_spec() == old(self).peeks_spec().push(uuid),
            final(self).replicas_spec() == old(self).replicas_spec(),
            forall|g: u64| final(self).write_frontier_of(g) == old(self).write_frontier_of(g),
            final(self).queue_spec() == old(self).queue_spec(),
            final(self).logging_spec() == old(self).logging_spec(),
    {
        self.peeks.push(uuid);
    }

    /// Removes an in-flight peek once its response arrived. Absent peeks
    /// are tolerated: removal is idempotent.
    pub fn remove_peek(&mut self, uuid: u64)
        requires
            old(self).wf(),
        ensures
            final(self).wf(),
            !final(self).has_peek(uuid),
            forall|u: u64| u != uuid ==> final(self).has_peek(u) == old(self).has_peek(u),
            final(self).replicas_spec() == old(self).replicas_spec(),
            forall|g: u64| final(self).write_frontier_of(g) == old(self).write_frontier_of(g),
            final(self).queue_spec() == old(self).queue_spec(),
            final(self).logging_spec() == old(self).logging_spec(),
    {
        let n = self.peeks.len();
        let mut i: usize = 0;
        while i < n
            invariant
                *self == *old(self),
                self.wf(),
                n == self.peeks@.len(),
                i <= n,
                forall|j: int| 0 <= j < i ==> self.peeks@[j] != uuid,
            decreases n - i,
        {
            if self.peeks[i] == uuid {
                let ghost before = self.peeks@;
                self.peeks.remove(i);
                proof {
                    assert forall|u: u64| u != uuid implies self.has_peek(u) == old(
                        self,
                    ).has_peek(u) by {
                        if before.contains(u) {
                            let j = choose|j: int| 0 <= j < before.len() && before[j] == u;
                            if j < i {
                                assert(self.peeks@[j] == u);
                            } else {
                                assert(j != i);
                                assert(self.peeks@[j - 1] == u);
                            }
                        }
                        if self.peeks@.contains(u) {
                            let j = choose|j: int|
                                0 <= j < self.peeks@.len() && self.peeks@[j] == u;
                            if j < i {
                                assert(before[j] == u);
                            } else {
                                assert(before[j + 1] == u);
                            }
                        }
                    }
                    assert(!self.has_peek(uuid)) by {
                        if self.peeks@.contains(uuid) {
                            let j = choose|j: int|
                                0 <= j < self.peeks@.len() && self.peeks@[j] == uuid;
                            if j < i {
                                assert(before[j] == uuid);
                            } else {
                                assert(before[j + 1] == uuid);
                            }
                        }
                    }
                    assert forall|a: int, b: int|
                        0 <= a < b < self.peeks@.len() implies self.peeks@[a] != self.peeks@[b] by {
                        if b < i {
                        } else if a < i {
                            assert(self.peeks@[b] == before[b + 1]);
                        } else {
                            assert(self.peeks@[a] == before[a + 1]);
                            assert(self.peeks@[b] == before[b + 1]);
                        }
                    }
                }
                return ;
            }
            i += 1;
        }
        proof {
            if self.peeks@.contains(uuid) {
                let j = choose|j: int| 0 <= j < self.peeks@.len() && self.peeks@[j] == uuid;
            }
        }
    }

    /// How many peeks are in flight.
    pub fn peek_count(&self) -> (n: usize)
        ensures
            n == self.peeks_spec().len(),
    {
        self.peeks.len()
    }

    /// Delivers a response from this instance's replicas into its queue.
    pub fn push_response(&mut self, response: ComputeResponse)
        requires
            old(self).wf(),
            response_wf(response),
        ensures
            final(self).wf(),
            final(self).queue_spec() == old(self).queue_spec().push(response),
            final(self).replicas_spec() == old(self).replicas_spec(),
            forall|g: u64| final(self).write_frontier_of(g) == old(self).write_frontier_of(g),
            final(self).peeks_spec() == old(self).peeks_spec(),
            final(self).logging_spec() == old(self).logging_spec(),
    {
        self.queue.push(response);
    }

    /// Takes the oldest queued response, if any.
    pub fn pop_response(&mut self) -> (r: Option<ComputeResponse>)
        requires
            old(self).wf(),
        ensures
            final(self).wf(),
            old(self).queue_spec().len() > 0 ==> response_wf(old(self).queue_spec()[0]),
            old(self).queue_spec().len() > 0 ==> r == Option::Some(old(self).queue_spec()[0])
                && final(self).queue_spec() == old(self).queue_spec().drop_first(),
            old(self).queue_spec().len() == 0 ==> r is None && final(self).queue_spec() == old(
                self,
            ).queue_spec(),
            final(self).replicas_spec() == old(self).replicas_spec(),
            forall|g: u64| final(self).write_frontier_of(g) == old(self).write_frontier_of(g),
            final(self).peeks_spec() == old(self).peeks_spec(),
            final(self).logging_spec() == old(self).logging_spec(),
    {
        if self.queue.len() > 0 {
            let response = self.queue.remove(0);
            proof {
                assert(self.queue@ =~= old(self).queue_spec().drop_first());
            }
            Option::Some(response)
        } else {
            Option::None
        }
    }

    /// Whether a response is waiting in the queue.
    pub fn has_pending(&self) -> (b: bool)
        ensures
            b == (self.queue_spec().len() > 0),
    {
        self.queue.len() > 0
    }
}

} // verus!
