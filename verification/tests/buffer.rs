use matrix_indexer::identifier::Identifier;
use matrix_indexer::inserter::{
    clone_items, BulkInserter, PipelineAction, REQUEST_BUFFER_SIZE, REQUEST_QUEUE_DEPTH,
    WORKER_COUNT,
};
use matrix_indexer::items::BulkInsertItem;
use matrix_indexer::worker::{worker_start, worker_step, WorkerAction, WorkerEvent};

fn item(id: u128) -> BulkInsertItem {
    BulkInsertItem::Vertex(id, Identifier::new("matrix_room").unwrap())
}

fn ids(items: &[BulkInsertItem]) -> Vec<u128> {
    items
        .iter()
        .map(|item| match item {
            BulkInsertItem::Vertex(id, _) => *id,
            BulkInsertItem::Edge(id, _, _) => *id,
            BulkInsertItem::VertexProperty(id, _, _) => *id,
        })
        .collect()
}

fn plan(actions: &[PipelineAction]) -> Vec<Option<Vec<u128>>> {
    actions
        .iter()
        .map(|action| match action {
            PipelineAction::Enqueue(batch) => Some(ids(batch)),
            PipelineAction::Sync => None,
        })
        .collect()
}

#[test]
fn defaults_are_ten_thousand_items_ten_batches_ten_workers() {
    assert_eq!(REQUEST_BUFFER_SIZE, 10_000);
    assert_eq!(REQUEST_QUEUE_DEPTH, 10);
    assert_eq!(WORKER_COUNT, 10);
    let inserter = BulkInserter::new();
    assert_eq!(inserter.high_water_mark(), 10_000);
    assert_eq!(inserter.buffered(), 0);
}

#[test]
fn the_default_buffer_is_handed_out_at_ten_thousand_items() {
    let mut inserter = BulkInserter::new();
    for id in 0..9_999u128 {
        assert!(inserter.push(item(id)).is_none());
    }
    assert_eq!(inserter.buffered(), 9_999);
    let batch = inserter.push(item(9_999)).unwrap();
    assert_eq!(batch.len(), 10_000);
    assert_eq!(ids(&batch), (0..10_000u128).collect::<Vec<u128>>());
    assert_eq!(inserter.buffered(), 0);
}

#[test]
fn pushing_up_to_the_mark_hands_out_one_batch_and_empties_the_buffer() {
    let mut inserter = BulkInserter::with_high_water_mark(3);
    assert!(inserter.push(item(1)).is_none());
    assert!(inserter.push(item(2)).is_none());
    let batch = inserter.push(item(3)).unwrap();
    assert_eq!(ids(&batch), vec![1, 2, 3]);
    assert_eq!(inserter.buffered(), 0);
    assert!(inserter.push(item(4)).is_none());
    assert_eq!(inserter.buffered(), 1);
}

#[test]
fn pushing_one_item_fewer_than_the_mark_hands_out_nothing() {
    let mut inserter = BulkInserter::with_high_water_mark(3);
    let actions = inserter.push_all(vec![item(1), item(2)]);
    assert!(actions.is_empty());
    assert_eq!(inserter.buffered(), 2);
}

#[test]
fn push_all_hands_out_every_full_batch_in_order() {
    let mut inserter = BulkInserter::with_high_water_mark(3);
    let items: Vec<BulkInsertItem> = (1..=7u128).map(item).collect();
    let actions = inserter.push_all(items);
    assert_eq!(plan(&actions), vec![Some(vec![1, 2, 3]), Some(vec![4, 5, 6])]);
    assert_eq!(inserter.buffered(), 1);
    assert_eq!(plan(&inserter.flush()), vec![Some(vec![7]), None]);
}

#[test]
fn a_mark_of_zero_or_one_makes_every_item_a_batch() {
    for mark in [0usize, 1] {
        let mut inserter = BulkInserter::with_high_water_mark(mark);
        let actions = inserter.push_all(vec![item(1), item(2)]);
        assert_eq!(plan(&actions), vec![Some(vec![1]), Some(vec![2])]);
        assert_eq!(inserter.buffered(), 0);
    }
}

#[test]
fn flush_of_an_empty_buffer_asks_for_durability_only() {
    let mut inserter = BulkInserter::new();
    assert_eq!(plan(&inserter.flush()), vec![None]);
    assert_eq!(inserter.buffered(), 0);
}

#[test]
fn flush_hands_out_the_buffer_in_insertion_order_then_asks_for_durability() {
    let mut inserter = BulkInserter::new();
    inserter.push(item(5));
    inserter.push(item(3));
    inserter.push(item(4));
    assert_eq!(plan(&inserter.flush()), vec![Some(vec![5, 3, 4]), None]);
}

#[test]
fn flush_keeps_the_buffer() {
    let mut inserter = BulkInserter::new();
    inserter.push(item(5));
    inserter.flush();
    assert_eq!(inserter.buffered(), 1);
    assert_eq!(plan(&inserter.flush()), vec![Some(vec![5]), None]);
}

#[test]
fn sync_asks_for_durability_and_leaves_the_buffer() {
    let mut inserter = BulkInserter::new();
    inserter.push(item(5));
    assert!(matches!(inserter.sync(), PipelineAction::Sync));
    assert_eq!(inserter.buffered(), 1);
}

#[test]
fn a_copy_of_items_holds_the_same_items() {
    let names = Identifier::new("room_name").unwrap();
    let items = vec![
        item(1),
        BulkInsertItem::VertexProperty(1, names, "Lobby".to_string()),
        BulkInsertItem::Edge(2, Identifier::new("event_in_room").unwrap(), 1),
    ];
    let copy = clone_items(&items);
    assert_eq!(format!("{:?}", copy), format!("{:?}", items));
    assert_eq!(copy.len(), 3);
}

#[test]
fn a_worker_submits_what_it_receives_and_waits_again() {
    let mut action: WorkerAction<String> = worker_start();
    assert!(matches!(action, WorkerAction::Receive));
    action = worker_step(WorkerEvent::Received(vec![item(1), item(2)]));
    match &action {
        WorkerAction::Submit(batch) => assert_eq!(ids(batch), vec![1, 2]),
        _ => panic!("the batch is not submitted"),
    }
    action = worker_step(WorkerEvent::Submitted);
    assert!(matches!(action, WorkerAction::Receive));
}

#[test]
fn a_worker_ends_when_the_queue_is_closed() {
    let action: WorkerAction<String> = worker_step(WorkerEvent::QueueClosed);
    assert!(matches!(action, WorkerAction::Finish));
}

#[test]
fn a_worker_ends_with_the_error_of_a_failed_submission() {
    match worker_step(WorkerEvent::Failed("store is down".to_string())) {
        WorkerAction::Fail(error) => assert_eq!(error, "store is down"),
        _ => panic!("the worker goes on"),
    }
}
