use matrix_indexer::entities::RoomProperties;
use matrix_indexer::inserter::{BulkInserter, PipelineAction};
use matrix_indexer::items::BulkInsertItem;
use matrix_indexer::messages::MessagesMap;
use matrix_indexer::pending::encode_pending;
use matrix_indexer::processing::{
    ingest_batch, ingest_event, ingest_room, process_sync, submit_pending, FormattedBody,
    MessageContent, RoomUpdate, TimelineEvent,
};
use matrix_indexer::schema::Identifiers;

fn described(items: &[BulkInsertItem]) -> Vec<String> {
    items
        .iter()
        .map(|item| match item {
            BulkInsertItem::Vertex(id, t) => format!("vertex {} {}", id, t.as_str()),
            BulkInsertItem::Edge(from, t, to) => format!("edge {} {} {}", from, t.as_str(), to),
            BulkInsertItem::VertexProperty(id, name, value) => {
                format!("property {} {}={}", id, name.as_str(), value)
            }
        })
        .collect()
}

fn text_message(event_id: &str, body: &str) -> TimelineEvent {
    TimelineEvent::TextMessage {
        event_id: event_id.to_string(),
        content: MessageContent { body: body.to_string(), formatted: None },
    }
}

fn lobby(events: Vec<TimelineEvent>) -> RoomUpdate {
    RoomUpdate {
        room_id: "!r:example.org".to_string(),
        joined: Some(RoomProperties { name: Some("Lobby".to_string()), topic: None }),
        events,
    }
}

fn scenario() -> Vec<RoomUpdate> {
    vec![lobby(vec![text_message("$e1", "hello")])]
}

#[test]
fn one_room_with_one_text_message_is_two_vertices_and_one_edge() {
    let names = Identifiers::new().unwrap();
    let mut map = MessagesMap::new();
    let mut inserter = BulkInserter::new();
    let round = process_sync(&mut map, &mut inserter, &names, &scenario()).unwrap();
    assert_eq!(round.report.len(), 1);
    let room = round.report[0].room_uuid;
    assert_eq!(round.report[0].event_uuids.len(), 1);
    let event = round.report[0].event_uuids[0].unwrap();
    assert_eq!(round.actions.len(), 2);
    let batch = match &round.actions[0] {
        PipelineAction::Enqueue(batch) => batch,
        PipelineAction::Sync => panic!("no batch"),
    };
    assert_eq!(
        described(batch),
        vec![
            format!("vertex {} matrix_room", room),
            format!("property {} room_id=!r:example.org", room),
            format!("property {} room_name=Lobby", room),
            format!("vertex {} text_message_event", event),
            format!("property {} event_id=$e1", event),
            format!("property {} text_message_body=hello", event),
            format!("edge {} event_in_room {}", event, room),
        ]
    );
    assert!(matches!(round.actions[1], PipelineAction::Sync));
}

#[test]
fn the_same_batch_again_keeps_the_internal_ids() {
    let names = Identifiers::new().unwrap();
    let mut map = MessagesMap::new();
    let first = ingest_batch(&mut map, &names, &scenario());
    let second = ingest_batch(&mut map, &names, &scenario());
    assert_eq!(first[0].room_uuid, second[0].room_uuid);
    assert_eq!(first[0].event_uuids, second[0].event_uuids);
    assert_eq!(map.room_list().len(), 1);
    assert_eq!(map.message_list().len(), 1);
    assert_eq!(map.room_event_links().len(), 1);
}

#[test]
fn every_round_submits_everything_seen_so_far() {
    let names = Identifiers::new().unwrap();
    let mut map = MessagesMap::new();
    ingest_batch(&mut map, &names, &scenario());
    let once = described(&encode_pending(&map, &names).unwrap());
    ingest_batch(&mut map, &names, &scenario());
    let twice = described(&encode_pending(&map, &names).unwrap());
    assert_eq!(once.len(), 7);
    assert_eq!(once, twice);
    let more = vec![lobby(vec![text_message("$e2", "again")])];
    ingest_batch(&mut map, &names, &more);
    assert_eq!(encode_pending(&map, &names).unwrap().len(), 11);
}

#[test]
fn an_event_of_another_kind_is_passed_over_and_the_next_one_is_indexed() {
    let names = Identifiers::new().unwrap();
    let mut map = MessagesMap::new();
    let batch = vec![lobby(vec![
        TimelineEvent::OtherMessageLike,
        text_message("$e1", "hello"),
        TimelineEvent::Undecodable,
        TimelineEvent::State,
        TimelineEvent::OtherRoomMessage,
        text_message("$e2", "bye"),
    ])];
    let report = ingest_batch(&mut map, &names, &batch);
    let assigned = &report[0].event_uuids;
    assert_eq!(assigned.len(), 6);
    assert!(assigned[0].is_none());
    assert!(assigned[2].is_none());
    assert!(assigned[3].is_none());
    assert!(assigned[4].is_none());
    assert_eq!(assigned[1], map.find_event("$e1"));
    assert_eq!(assigned[5], map.find_event("$e2"));
    assert!(assigned[1].is_some() && assigned[5].is_some());
    let ids: Vec<&str> = map.message_list().iter().map(|e| e.event_id.as_str()).collect();
    assert_eq!(ids, vec!["$e1", "$e2"]);
}

#[test]
fn an_event_that_is_not_indexed_changes_nothing() {
    let names = Identifiers::new().unwrap();
    let mut map = MessagesMap::new();
    for event in [
        TimelineEvent::Undecodable,
        TimelineEvent::OtherRoomMessage,
        TimelineEvent::OtherMessageLike,
        TimelineEvent::State,
    ] {
        assert_eq!(ingest_event(&mut map, &names, 1, &event), None);
    }
    assert!(map.message_list().is_empty());
    assert!(map.room_event_links().is_empty());
}

#[test]
fn a_notice_is_indexed_under_its_own_type_with_its_formatted_form() {
    let names = Identifiers::new().unwrap();
    let mut map = MessagesMap::new();
    let notice = TimelineEvent::NoticeMessage {
        event_id: "$n1".to_string(),
        content: MessageContent {
            body: "hello".to_string(),
            formatted: Some(FormattedBody {
                format: "org.matrix.custom.html".to_string(),
                body: "<b>hello</b>".to_string(),
            }),
        },
    };
    let event = ingest_event(&mut map, &names, 77, &notice).unwrap();
    assert_eq!(
        described(&encode_pending(&map, &names).unwrap()),
        vec![
            format!("vertex {} notice_message_event", event),
            format!("property {} event_id=$n1", event),
            format!("property {} text_message_body=hello", event),
            format!("property {} text_message_format=org.matrix.custom.html", event),
            format!("property {} text_message_formatted_body=<b>hello</b>", event),
            format!("edge {} event_in_room 77", event),
        ]
    );
}

#[test]
fn a_room_that_is_no_longer_joined_has_neither_name_nor_topic() {
    let names = Identifiers::new().unwrap();
    let mut map = MessagesMap::new();
    let update = RoomUpdate { room_id: "!gone:example.org".to_string(), joined: None, events: vec![] };
    let assignment = ingest_room(&mut map, &names, &update);
    assert!(assignment.event_uuids.is_empty());
    assert_eq!(
        described(&encode_pending(&map, &names).unwrap()),
        vec![
            format!("vertex {} matrix_room", assignment.room_uuid),
            format!("property {} room_id=!gone:example.org", assignment.room_uuid),
        ]
    );
}

#[test]
fn a_room_without_events_is_kept() {
    let names = Identifiers::new().unwrap();
    let mut map = MessagesMap::new();
    let report = ingest_batch(&mut map, &names, &vec![lobby(vec![])]);
    assert_eq!(map.find_room("!r:example.org"), Some(report[0].room_uuid));
}

#[test]
fn a_later_name_of_a_room_is_not_taken() {
    let names = Identifiers::new().unwrap();
    let mut map = MessagesMap::new();
    ingest_batch(&mut map, &names, &scenario());
    let renamed = RoomUpdate {
        room_id: "!r:example.org".to_string(),
        joined: Some(RoomProperties {
            name: Some("Hall".to_string()),
            topic: Some("new".to_string()),
        }),
        events: vec![],
    };
    ingest_batch(&mut map, &names, &vec![renamed]);
    let items = described(&encode_pending(&map, &names).unwrap());
    assert!(items[2].ends_with("room_name=Lobby"));
    assert_eq!(items.len(), 7);
}

#[test]
fn rooms_come_first_then_events_then_edges() {
    let names = Identifiers::new().unwrap();
    let mut map = MessagesMap::new();
    let batch = vec![
        lobby(vec![text_message("$e1", "hello")]),
        RoomUpdate {
            room_id: "!s:example.org".to_string(),
            joined: None,
            events: vec![text_message("$e2", "bye")],
        },
    ];
    let report = ingest_batch(&mut map, &names, &batch);
    let (r1, r2) = (report[0].room_uuid, report[1].room_uuid);
    let (e1, e2) = (report[0].event_uuids[0].unwrap(), report[1].event_uuids[0].unwrap());
    let mut edges = vec![(e1, r1), (e2, r2)];
    edges.sort();
    assert_eq!(
        described(&encode_pending(&map, &names).unwrap()),
        vec![
            format!("vertex {} matrix_room", r1),
            format!("property {} room_id=!r:example.org", r1),
            format!("property {} room_name=Lobby", r1),
            format!("vertex {} matrix_room", r2),
            format!("property {} room_id=!s:example.org", r2),
            format!("vertex {} text_message_event", e1),
            format!("property {} event_id=$e1", e1),
            format!("property {} text_message_body=hello", e1),
            format!("vertex {} text_message_event", e2),
            format!("property {} event_id=$e2", e2),
            format!("property {} text_message_body=bye", e2),
            format!("edge {} event_in_room {}", edges[0].0, edges[0].1),
            format!("edge {} event_in_room {}", edges[1].0, edges[1].1),
        ]
    );
}

#[test]
fn a_round_hands_out_full_batches_and_then_flushes_the_rest() {
    let names = Identifiers::new().unwrap();
    let mut map = MessagesMap::new();
    let mut inserter = BulkInserter::with_high_water_mark(3);
    ingest_batch(&mut map, &names, &scenario());
    let actions = submit_pending(&map, &mut inserter, &names).unwrap();
    let sizes: Vec<Option<usize>> = actions
        .iter()
        .map(|action| match action {
            PipelineAction::Enqueue(batch) => Some(batch.len()),
            PipelineAction::Sync => None,
        })
        .collect();
    assert_eq!(sizes, vec![Some(3), Some(3), Some(1), None]);
    assert_eq!(inserter.buffered(), 1);
}

#[test]
fn a_round_without_anything_seen_asks_for_durability_only() {
    let names = Identifiers::new().unwrap();
    let mut map = MessagesMap::new();
    let mut inserter = BulkInserter::new();
    let round = process_sync(&mut map, &mut inserter, &names, &vec![]).unwrap();
    assert!(round.report.is_empty());
    assert_eq!(round.actions.len(), 1);
    assert!(matches!(round.actions[0], PipelineAction::Sync));
}
