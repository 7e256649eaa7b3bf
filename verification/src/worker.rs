//! The workers that take batches from the queue and submit them to the
//! store.
//!
//! A worker goes on for as long as the queue gives it batches and the store
//! takes them. The first submission that fails ends the worker: it is not
//! started again, and nothing tells the rest of the indexer. When every
//! worker has ended this way, nothing takes batches from the queue any more,
//! and enqueueing waits for ever once the queue is full.

use crate::items::BulkInsertItem;
use vstd::prelude::*;

verus! {

/// What a worker met when it did what it was told.
pub enum WorkerEvent<E> {
    /// The queue gave this batch.
    Received(Vec<BulkInsertItem>),
    /// The queue is closed and empty.
    QueueClosed,
    /// The store took the batch.
    Submitted,
    /// The store refused the batch, or could not be reached.
    Failed(E),
}

/// What a worker does next.
pub enum WorkerAction<E> {
    /// Wait for the next batch of the queue.
    Receive,
    /// Submit this batch to the store.
    Submit(Vec<BulkInsertItem>),
    /// End without an error.
    Finish,
    /// End with this error.
    Fail(E),
}

/// What a worker does after `event`.
pub open spec fn worker_next<E>(event: WorkerEvent<E>) -> WorkerAction<E> {
    match event {
        WorkerEvent::Received(batch) => WorkerAction::Submit(batch),
        WorkerEvent::QueueClosed => WorkerAction::Finish,
        WorkerEvent::Submitted => WorkerAction::Receive,
        WorkerEvent::Failed(error) => WorkerAction::Fail(error),
    }
}

/// Whether a worker goes on after `action`.
pub open spec fn goes_on<E>(action: WorkerAction<E>) -> bool {
    action is Receive || action is Submit
}

/// What a worker starts with: it waits for a batch.
pub fn worker_start<E>() -> (action: WorkerAction<E>)
    ensures
        action is Receive,
{
    WorkerAction::Receive
}

/// Decides what a worker does after `event`: a batch that was received is
/// submitted as it is, a batch that was taken is followed by the next one,
/// a closed queue ends the worker, and so does a submission that failed,
/// with its error.
pub fn worker_step<E>(event: WorkerEvent<E>) -> (action: WorkerAction<E>)
    ensures
        action == worker_next(event),
        goes_on(action) <==> (event is Received || event is Submitted),
{
    match event {
        WorkerEvent::Received(batch) => WorkerAction::Submit(batch),
        WorkerEvent::QueueClosed => WorkerAction::Finish,
        WorkerEvent::Submitted => WorkerAction::Receive,
        WorkerEvent::Failed(error) => WorkerAction::Fail(error),
    }
}

} // verus!
