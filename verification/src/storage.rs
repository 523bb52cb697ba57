//! The storage subsystem, seen from the controller: durable persistence of
//! timestamp bindings, application of storage-side frontier changes, and a
//! stream of storage events.
//!
//! The ordering of the call history is load-bearing: a batch of timestamp
//! bindings must be durably persisted strictly before the corresponding
//! frontier changes are applied, or an ill-timed crash loses data. The
//! history lets callers state, and collaborator doubles observe, that order.

use vstd::prelude::*;

use crate::frontier::Frontier;

verus! {

broadcast use vstd::seq::group_seq_axioms, vstd::std_specs::vec::group_vec_axioms;

/// One durable timestamp-binding fact.
#[derive(Debug, Clone, Copy, PartialEq, Eq, Structural)]
pub struct TimestampBinding {
    /// The collection the binding belongs to.
    pub source_id: u64,
    /// The timestamp bound.
    pub timestamp: u64,
    /// The offset bound to that timestamp.
    pub offset: u64,
}

/// Feedback from storage: bindings to persist, and the frontier changes
/// that follow from them.
#[derive(Debug)]
pub struct TimestampBindingFeedback {
    pub bindings: Vec<TimestampBinding>,
    pub changes: Vec<(u64, Frontier)>,
}

/// An event on the storage response stream.
#[derive(Debug)]
pub enum StorageResponse {
    /// New timestamp bindings arrived; they must be persisted before their
    /// frontier changes are applied.
    TimestampBindings(TimestampBindingFeedback),
    /// The result of a linearized-timestamp request, exposed verbatim.
    LinearizedTimestamps(u64),
}

/// The outcome of polling the storage response stream.
#[derive(Debug)]
pub enum StoragePoll {
    /// The next event.
    Ready(StorageResponse),
    /// Nothing to show yet; the stream is still live.
    Pending,
    /// The stream is permanently closed: a normal terminal transition,
    /// never an error.
    Closed,
}

/// One call the storage controller received, in order.
#[derive(Debug)]
pub enum StorageCall {
    /// A batch of bindings was durably persisted.
    Persist(Vec<TimestampBinding>),
    /// A batch of frontier changes was applied.
    Apply(Vec<(u64, Frontier)>),
}

/// A failure reported by the storage collaborator. Recoverable: it is
/// propagated to the caller, never a crash.
#[derive(Debug, Clone, Copy, PartialEq, Eq, Structural)]
pub struct StorageError {}

/// The storage collaborator's contract. Implementations persist somewhere
/// real; the in-memory one below records calls, for tests and reasoning.
///
/// Every implementation appends each successful call to its history exactly
/// as received, and answers polls from a queue of pending events.
pub trait StorageController: Sized {
    /// The successful calls received so far, oldest first.
    spec fn calls(&self) -> Seq<StorageCall>;

    /// The events not yet handed out, oldest first.
    spec fn pending(&self) -> Seq<StorageResponse>;

    /// Whether the event stream has permanently closed.
    spec fn stream_closed(&self) -> bool;

    /// Durably persists a batch of timestamp-binding facts.
    fn persist_timestamp_bindings(&mut self, bindings: Vec<TimestampBinding>) -> (r: Result<
        (),
        StorageError,
    >)
        ensures
            r is Ok ==> final(self).calls() == old(self).calls().push(
                StorageCall::Persist(bindings),
            ),
            r is Err ==> final(self).calls() == old(self).calls(),
            final(self).pending() == old(self).pending(),
            final(self).stream_closed() == old(self).stream_closed(),
    ;

    /// Applies a batch of storage-side frontier changes.
    fn update_write_frontiers(&mut self, changes: Vec<(u64, Frontier)>) -> (r: Result<
        (),
        StorageError,
    >)
        ensures
            r is Ok ==> final(self).calls() == old(self).calls().push(StorageCall::Apply(changes)),
            r is Err ==> final(self).calls() == old(self).calls(),
            final(self).pending() == old(self).pending(),
            final(self).stream_closed() == old(self).stream_closed(),
    ;

    /// Polls for the next storage event. Pending events are drained first;
    /// a closed, drained stream reports `Closed` forever after.
    fn try_recv(&mut self) -> (r: StoragePoll)
        ensures
            final(self).calls() == old(self).calls(),
            final(self).stream_closed() == old(self).stream_closed(),
            old(self).pending().len() > 0 ==> r == StoragePoll::Ready(old(self).pending()[0])
                && final(self).pending() == old(self).pending().drop_first(),
            old(self).pending().len() == 0 ==> final(self).pending() == old(self).pending() && r
                == (if old(self).stream_closed() {
                StoragePoll::Closed
            } else {
                StoragePoll::Pending
            }),
    ;
}

/// A storage controller that persists nothing: it records every call and
/// serves events from an in-memory queue. The call history lets a
/// collaborator double observe that persistence completes strictly before
/// the matching frontier changes are applied.
#[derive(Debug)]
pub struct InMemoryStorageController {
    log: Vec<StorageCall>,
    queue: Vec<StorageResponse>,
    closed_flag: bool,
    fail_requests: bool,
}

impl InMemoryStorageController {
    pub fn new() -> (s: InMemoryStorageController)
        ensures
            s.calls() == Seq::<StorageCall>::empty(),
            s.pending() == Seq::<StorageResponse>::empty(),
            !s.stream_closed(),
            !s.failing(),
    {
        InMemoryStorageController {
            log: Vec::new(),
            queue: Vec::new(),
            closed_flag: false,
            fail_requests: false,
        }
    }

    /// Whether requests are currently made to fail.
    pub closed spec fn failing(&self) -> bool {
        self.fail_requests
    }

    /// Makes subsequent persist and apply calls fail (or succeed again).
    pub fn set_fail_requests(&mut self, fail: bool)
        ensures
            final(self).calls() == old(self).calls(),
            final(self).pending() == old(self).pending(),
            final(self).stream_closed() == old(self).stream_closed(),
            final(self).failing() == fail,
    {
        self.fail_requests = fail;
    }

    /// Queues an event for the controller to receive.
    pub fn enqueue_response(&mut self, response: StorageResponse)
        ensures
            final(self).calls() == old(self).calls(),
            final(self).pending() == old(self).pending().push(response),
            final(self).stream_closed() == old(self).stream_closed(),
            final(self).failing() == old(self).failing(),
    {
        self.queue.push(response);
    }

    /// Permanently closes the event stream.
    pub fn close_stream(&mut self)
        ensures
            final(self).calls() == old(self).calls(),
            final(self).pending() == old(self).pending(),
            final(self).stream_closed(),
            final(self).failing() == old(self).failing(),
    {
        self.closed_flag = true;
    }

    /// The recorded calls, for inspection.
    pub fn call_log(&self) -> (log: &Vec<StorageCall>)
        ensures
            log@ == self.calls(),
    {
        &self.log
    }
}

impl StorageController for InMemoryStorageController {
    closed spec fn calls(&self) -> Seq<StorageCall> {
        self.log@
    }

    closed spec fn pending(&self) -> Seq<StorageResponse> {
        self.queue@
    }

    closed spec fn stream_closed(&self) -> bool {
        self.closed_flag
    }

    fn persist_timestamp_bindings(&mut self, bindings: Vec<TimestampBinding>) -> (r: Result<
        (),
        StorageError,
    >) {
        if self.fail_requests {
            Result::Err(StorageError {})
        } else {
            self.log.push(StorageCall::Persist(bindings));
            Result::Ok(())
        }
    }

    fn update_write_frontiers(&mut self, changes: Vec<(u64, Frontier)>) -> (r: Result<
        (),
        StorageError,
    >) {
        if self.fail_requests {
            Result::Err(StorageError {})
        } else {
            self.log.push(StorageCall::Apply(changes));
            Result::Ok(())
        }
    }

    fn try_recv(&mut self) -> (r: StoragePoll) {
        if self.queue.len() > 0 {
            let response = self.queue.remove(0);
            proof {
                assert(self.queue@ =~= old(self).pending().drop_first());
            }
            StoragePoll::Ready(response)
        } else if self.closed_flag {
            StoragePoll::Closed
        } else {
            StoragePoll::Pending
        }
    }
}

} // verus!
