//! The write path to the graph store: items are collected in a buffer, and a
//! full buffer is handed out as one batch for the workers that submit
//! batches to the store.
//!
//! The functions here decide what is to be done; the program that owns the
//! queue and the connection does it, in the order given.

use crate::items::{BulkInsertItem, ItemView};
use crate::text::{lemma_views_push, views};
use vstd::prelude::*;

verus! {

/// The number of items at which a buffer is handed out, unless another is
/// asked for.
pub const REQUEST_BUFFER_SIZE: usize = 10_000;

/// The number of batches that may wait for a worker.
pub const REQUEST_QUEUE_DEPTH: usize = 10;

/// The number of workers that submit batches to the store.
pub const WORKER_COUNT: usize = 10;

/// Something the write path asks its driver to do.
#[derive(Debug)]
pub enum PipelineAction {
    /// Put this batch into the queue of the workers, waiting while the queue
    /// is full.
    Enqueue(Vec<BulkInsertItem>),
    /// Ask the store to make what it has received durable.
    Sync,
}

/// A [`PipelineAction`] with its items as views.
pub enum ActionView {
    Enqueue(Seq<ItemView>),
    Sync,
}

impl View for PipelineAction {
    type V = ActionView;

    open spec fn view(&self) -> ActionView {
        match *self {
            PipelineAction::Enqueue(batch) => ActionView::Enqueue(views(batch@)),
            PipelineAction::Sync => ActionView::Sync,
        }
    }
}

/// The number of batches among `actions`.
pub open spec fn batch_count(actions: Seq<ActionView>) -> nat
    decreases actions.len(),
{
    if actions.len() == 0 {
        0
    } else {
        batch_count(actions.drop_last()) + if actions.last() is Enqueue {
            1nat
        } else {
            0nat
        }
    }
}

/// The number of requests for durability among `actions`.
pub open spec fn sync_count(actions: Seq<ActionView>) -> nat
    decreases actions.len(),
{
    if actions.len() == 0 {
        0
    } else {
        sync_count(actions.drop_last()) + if actions.last() is Sync {
            1nat
        } else {
            0nat
        }
    }
}

/// What a [`BulkInserter`] holds: the items that wait in its buffer, oldest
/// first, and the number of items at which the buffer is handed out.
pub struct InserterView {
    pub buffer: Seq<ItemView>,
    pub high_water_mark: nat,
}

impl InserterView {
    /// An empty buffer that is handed out at `high_water_mark` items.
    pub open spec fn empty(high_water_mark: nat) -> InserterView {
        InserterView { buffer: Seq::empty(), high_water_mark }
    }

    /// Whether the buffer is below the high-water mark, or empty.
    pub open spec fn bounded(self) -> bool {
        self.buffer.len() == 0 || self.buffer.len() < self.high_water_mark
    }

    /// The state after `item` was pushed, and the batch that became due: the
    /// buffer with `item`, where that reaches the high-water mark, and the
    /// buffer is empty again.
    pub open spec fn push(self, item: ItemView) -> (InserterView, Option<Seq<ItemView>>) {
        let grown = self.buffer.push(item);
        if grown.len() >= self.high_water_mark {
            (InserterView { buffer: Seq::empty(), ..self }, Some(grown))
        } else {
            (InserterView { buffer: grown, ..self }, None)
        }
    }

    /// The state after `items` were pushed one by one, and the batches that
    /// became due, as the actions that enqueue them, in order.
    pub open spec fn push_all(self, items: Seq<ItemView>) -> (InserterView, Seq<ActionView>)
        decreases items.len(),
    {
        if items.len() == 0 {
            (self, Seq::empty())
        } else {
            let (before, actions) = self.push_all(items.drop_last());
            let (after, due) = before.push(items.last());
            match due {
                Some(batch) => (after, actions.push(ActionView::Enqueue(batch))),
                None => (after, actions),
            }
        }
    }

    /// What a flush asks for: the buffer as one batch, if it holds anything,
    /// then durability.
    pub open spec fn flush(self) -> Seq<ActionView> {
        if self.buffer.len() == 0 {
            seq![ActionView::Sync]
        } else {
            seq![ActionView::Enqueue(self.buffer), ActionView::Sync]
        }
    }
}

/// A copy of `items`.
pub fn clone_items(items: &Vec<BulkInsertItem>) -> (copy: Vec<BulkInsertItem>)
    ensures
        views(copy@) == views(items@),
{
    let mut copy: Vec<BulkInsertItem> = Vec::new();
    let mut i: usize = 0;
    while i < items.len()
        invariant
            0 <= i <= items.len(),
            views(copy@) == views(items@.take(i as int)),
        decreases items.len() - i,
    {
        let item = items[i].clone();
        proof {
            lemma_views_push(copy@, item);
            assert(views(items@.take(i as int + 1)) =~= views(items@.take(i as int)).push(
                items@[i as int]@,
            ));
        }
        copy.push(item);
        i += 1;
    }
    proof {
        assert(items@.take(items.len() as int) =~= items@);
    }
    copy
}

/// An empty buffer with room for the items of one batch, or for
/// [`REQUEST_BUFFER_SIZE`] items where a batch is larger than that.
fn empty_buffer(high_water_mark: usize) -> (buf: Vec<BulkInsertItem>)
    ensures
        buf@ == Seq::<BulkInsertItem>::empty(),
{
    if high_water_mark < REQUEST_BUFFER_SIZE {
        Vec::with_capacity(high_water_mark)
    } else {
        Vec::with_capacity(REQUEST_BUFFER_SIZE)
    }
}

/// The buffer in front of the queue of batches.
pub struct BulkInserter {
    buf: Vec<BulkInsertItem>,
    high_water_mark: usize,
}

impl View for BulkInserter {
    type V = InserterView;

    closed spec fn view(&self) -> InserterView {
        InserterView { buffer: views(self.buf@), high_water_mark: self.high_water_mark as nat }
    }
}

impl BulkInserter {
    /// The buffer stays below the high-water mark at all times.
    #[verifier::type_invariant]
    pub open spec fn below_mark(self) -> bool {
        self@.bounded()
    }

    /// An empty buffer that is handed out at [`REQUEST_BUFFER_SIZE`] items.
    pub fn new() -> (made: Self)
        ensures
            made@ == InserterView::empty(REQUEST_BUFFER_SIZE as nat),
    {
        BulkInserter::with_high_water_mark(REQUEST_BUFFER_SIZE)
    }

    /// An empty buffer that is handed out at `high_water_mark` items. With a
    /// mark of zero or one every item is a batch of its own.
    pub fn with_high_water_mark(high_water_mark: usize) -> (made: Self)
        ensures
            made@ == InserterView::empty(high_water_mark as nat),
    {
        let made = BulkInserter { buf: empty_buffer(high_water_mark), high_water_mark };
        assert(made@.buffer =~= Seq::empty());
        made
    }

    /// The number of items that wait in the buffer: none, or fewer than the
    /// high-water mark.
    pub fn buffered(&self) -> (n: usize)
        ensures
            n == self@.buffer.len(),
            self@.bounded(),
    {
        proof {
            use_type_invariant(self);
        }
        self.buf.len()
    }

    /// The number of items at which the buffer is handed out.
    pub fn high_water_mark(&self) -> (mark: usize)
        ensures
            mark == self@.high_water_mark,
    {
        self.high_water_mark
    }

    /// Appends `item` to the buffer. Where that brings the buffer to the
    /// high-water mark, the buffer is returned as the batch to enqueue, and a
    /// new, empty buffer takes its place.
    pub fn push(&mut self, item: BulkInsertItem) -> (due: Option<Vec<BulkInsertItem>>)
        ensures
            final(self)@ == old(self)@.push(item@).0,
            final(self)@.bounded(),
            match due {
                Some(batch) => old(self)@.push(item@).1 == Some(views(batch@)),
                None => old(self)@.push(item@).1 is None,
            },
    {
        let mut grown: Vec<BulkInsertItem> = Vec::new();
        core::mem::swap(&mut self.buf, &mut grown);
        proof {
            lemma_views_push(grown@, item);
            assert(views(self.buf@) =~= Seq::empty());
        }
        grown.push(item);
        if grown.len() >= self.high_water_mark {
            let buf = empty_buffer(self.high_water_mark);
            assert(views(buf@) =~= Seq::empty());
            self.buf = buf;
            Some(grown)
        } else {
            self.buf = grown;
            None
        }
    }

    /// Pushes `items` one by one, and returns the batches that became due,
    /// as the actions that enqueue them, in order.
    pub fn push_all(&mut self, items: Vec<BulkInsertItem>) -> (actions: Vec<PipelineAction>)
        ensures
            final(self)@ == old(self)@.push_all(views(items@)).0,
            final(self)@.bounded(),
            views(actions@) == old(self)@.push_all(views(items@)).1,
    {
        let mut actions: Vec<PipelineAction> = Vec::new();
        let ghost all = items@;
        proof {
            use_type_invariant(&*self);
            assert(views(all).take(0) =~= Seq::empty());
            assert(views(actions@) =~= Seq::empty());
        }
        for item in it: items
            invariant
                it.seq() == all,
                self@.bounded(),
                self@ == old(self)@.push_all(views(all).take(it.index() as int)).0,
                views(actions@) == old(self)@.push_all(views(all).take(it.index() as int)).1,
        {
            proof {
                let prefix = views(all).take(it.index() as int + 1);
                assert(prefix.drop_last() =~= views(all).take(it.index() as int));
                assert(prefix.last() == item@);
            }
            match self.push(item) {
                Some(batch) => {
                    let action = PipelineAction::Enqueue(batch);
                    proof {
                        lemma_views_push(actions@, action);
                    }
                    actions.push(action);
                },
                None => {},
            }
        }
        proof {
            assert(views(all).take(all.len() as int) =~= views(all));
        }
        actions
    }

    /// Asks for the buffer to be enqueued as one batch, whatever its size,
    /// unless it is empty, and then for durability. The buffer keeps its
    /// items.
    pub fn flush(&mut self) -> (actions: Vec<PipelineAction>)
        ensures
            views(actions@) == old(self)@.flush(),
            final(self)@ == old(self)@,
    {
        let mut actions: Vec<PipelineAction> = Vec::new();
        if !self.buf.is_empty() {
            actions.push(PipelineAction::Enqueue(clone_items(&self.buf)));
        }
        actions.push(self.sync());
        assert(views(actions@) =~= self@.flush());
        actions
    }

    /// Asks for durability, and for nothing else: batches that still wait in
    /// the queue are not waited for.
    pub fn sync(&mut self) -> (action: PipelineAction)
        ensures
            action@ == ActionView::Sync,
            final(self)@ == old(self)@,
    {
        PipelineAction::Sync
    }
}

/// Pushing fewer items than the high-water mark into an empty buffer hands
/// out no batch and leaves the items in the buffer.
pub proof fn lemma_below_threshold(high_water_mark: nat, items: Seq<ItemView>)
    requires
        items.len() < high_water_mark,
    ensures
        InserterView::empty(high_water_mark).push_all(items) == (
            InserterView { buffer: items, high_water_mark },
            Seq::<ActionView>::empty(),
        ),
    decreases items.len(),
{
    if items.len() > 0 {
        lemma_below_threshold(high_water_mark, items.drop_last());
        assert(items.drop_last().push(items.last()) =~= items);
    } else {
        assert(items =~= Seq::empty());
    }
}

/// Pushing as many items as the high-water mark into an empty buffer hands
/// out one batch, which holds the items in the order in which they were
/// pushed, and leaves the buffer empty.
pub proof fn lemma_at_threshold(high_water_mark: nat, items: Seq<ItemView>)
    requires
        high_water_mark >= 1,
        items.len() == high_water_mark,
    ensures
        InserterView::empty(high_water_mark).push_all(items) == (
            InserterView::empty(high_water_mark),
            seq![ActionView::Enqueue(items)],
        ),
        batch_count(InserterView::empty(high_water_mark).push_all(items).1) == 1,
        batch_count(InserterView::empty(high_water_mark).push_all(items.drop_last()).1) == 0,
{
    lemma_below_threshold(high_water_mark, items.drop_last());
    assert(items.drop_last().push(items.last()) =~= items);
    let nothing = Seq::<ActionView>::empty();
    lemma_counts_push(nothing, ActionView::Enqueue(items));
    assert(nothing.push(ActionView::Enqueue(items)) =~= seq![ActionView::Enqueue(items)]);
}

/// A flush of an empty buffer asks for no batch and for durability once; a
/// flush of a buffer that holds items asks for one batch, which holds the
/// items of the buffer in their order, and then for durability once.
pub proof fn lemma_flush_counts(state: InserterView)
    ensures
        sync_count(state.flush()) == 1,
        state.flush().last() == ActionView::Sync,
        state.buffer.len() == 0 ==> batch_count(state.flush()) == 0,
        state.buffer.len() > 0 ==> batch_count(state.flush()) == 1 && state.flush()[0]
            == ActionView::Enqueue(state.buffer),
{
    let nothing = Seq::<ActionView>::empty();
    if state.buffer.len() == 0 {
        lemma_counts_push(nothing, ActionView::Sync);
        assert(nothing.push(ActionView::Sync) =~= state.flush());
    } else {
        let batch = ActionView::Enqueue(state.buffer);
        lemma_counts_push(nothing, batch);
        lemma_counts_push(nothing.push(batch), ActionView::Sync);
        assert(nothing.push(batch).push(ActionView::Sync) =~= state.flush());
    }
}

/// The items of the batches among `actions`, batch after batch.
pub open spec fn batched_items(actions: Seq<ActionView>) -> Seq<ItemView>
    decreases actions.len(),
{
    if actions.len() == 0 {
        Seq::empty()
    } else {
        batched_items(actions.drop_last()) + match actions.last() {
            ActionView::Enqueue(batch) => batch,
            ActionView::Sync => Seq::empty(),
        }
    }
}

/// Pushing loses no item and keeps the order: the batches handed out, one
/// after the other, and then the buffer hold what the buffer held before,
/// followed by the items pushed.
pub proof fn lemma_push_all_keeps_items(state: InserterView, items: Seq<ItemView>)
    ensures
        batched_items(state.push_all(items).1) + state.push_all(items).0.buffer == state.buffer
            + items,
        state.push_all(items).0.high_water_mark == state.high_water_mark,
    decreases items.len(),
{
    if items.len() == 0 {
        assert(batched_items(state.push_all(items).1) + state.buffer =~= state.buffer + items);
    } else {
        lemma_push_all_keeps_items(state, items.drop_last());
        let (before, actions) = state.push_all(items.drop_last());
        let (after, due) = before.push(items.last());
        assert(items.drop_last().push(items.last()) =~= items);
        match due {
            Some(batch) => {
                assert(actions.push(ActionView::Enqueue(batch)).drop_last() =~= actions);
                assert((batched_items(actions) + batch) + after.buffer =~= (batched_items(actions)
                    + before.buffer).push(items.last()));
            },
            None => {
                assert(batched_items(actions) + after.buffer =~= (batched_items(actions)
                    + before.buffer).push(items.last()));
            },
        }
        assert((state.buffer + items.drop_last()).push(items.last()) =~= state.buffer + items);
    }
}

/// The buffer is bounded: pushing leaves it below the high-water mark, or
/// empty, however many items are pushed.
pub proof fn lemma_push_all_bounded(state: InserterView, items: Seq<ItemView>)
    requires
        state.bounded(),
    ensures
        state.push_all(items).0.bounded(),
    decreases items.len(),
{
    if items.len() > 0 {
        lemma_push_all_bounded(state, items.drop_last());
    }
}

/// The counts of actions that grew by one action.
pub proof fn lemma_counts_push(actions: Seq<ActionView>, action: ActionView)
    ensures
        batch_count(actions.push(action)) == batch_count(actions) + if action is Enqueue {
            1nat
        } else {
            0nat
        },
        sync_count(actions.push(action)) == sync_count(actions) + if action is Sync {
            1nat
        } else {
            0nat
        },
{
    assert(actions.push(action).drop_last() =~= actions);
}

} // verus!
