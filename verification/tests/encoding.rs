use matrix_indexer::entities::{
    encode_link, EventProperties, RoomProperties, UUIDEventMapType, UUIDRoomMapType,
};
use matrix_indexer::identifier::Identifier;
use matrix_indexer::items::BulkInsertItem;
use matrix_indexer::schema::Identifiers;

fn shown(items: &[BulkInsertItem]) -> Vec<String> {
    items
        .iter()
        .map(|item| match item {
            BulkInsertItem::Vertex(id, t) => format!("vertex {} {}", id, t.as_str()),
            BulkInsertItem::Edge(from, t, to) => format!("edge {} {} {}", from, t.as_str(), to),
            BulkInsertItem::VertexProperty(id, name, value) => {
                format!("property {} {}={}", id, name.as_str(), value)
            }
        })
        .collect()
}

#[test]
fn a_message_with_a_body_only_has_one_property() {
    let properties = EventProperties::TextMessage("hello".to_string(), None, None);
    let items = properties.as_vec(5).unwrap();
    assert_eq!(shown(&items), vec!["property 5 text_message_body=hello"]);
}

#[test]
fn a_formatted_message_has_three_properties_in_order() {
    let properties = EventProperties::TextMessage(
        "hello".to_string(),
        Some("org.matrix.custom.html".to_string()),
        Some("<b>hello</b>".to_string()),
    );
    let items = properties.as_vec(5).unwrap();
    assert_eq!(
        shown(&items),
        vec![
            "property 5 text_message_body=hello",
            "property 5 text_message_format=org.matrix.custom.html",
            "property 5 text_message_formatted_body=<b>hello</b>",
        ]
    );
}

#[test]
fn a_formatted_body_without_a_format_is_kept() {
    let properties =
        EventProperties::TextMessage("hello".to_string(), None, Some("<i>hello</i>".to_string()));
    let items = properties.as_vec(9).unwrap();
    assert_eq!(
        shown(&items),
        vec![
            "property 9 text_message_body=hello",
            "property 9 text_message_formatted_body=<i>hello</i>",
        ]
    );
}

#[test]
fn a_room_is_its_vertex_then_its_properties() {
    let names = Identifiers::new().unwrap();
    let room = UUIDRoomMapType {
        room_id: "!r:example.org".to_string(),
        uuid: 3,
        room_properties: RoomProperties {
            name: Some("Lobby".to_string()),
            topic: Some("Everything".to_string()),
        },
    };
    assert_eq!(
        shown(&room.encode(&names)),
        vec![
            "vertex 3 matrix_room",
            "property 3 room_id=!r:example.org",
            "property 3 room_name=Lobby",
            "property 3 room_topic=Everything",
        ]
    );
}

#[test]
fn a_room_without_name_and_topic_has_its_id_only() {
    let names = Identifiers::new().unwrap();
    let room = UUIDRoomMapType {
        room_id: "!r:example.org".to_string(),
        uuid: 3,
        room_properties: RoomProperties { name: None, topic: None },
    };
    assert_eq!(
        shown(&room.encode(&names)),
        vec!["vertex 3 matrix_room", "property 3 room_id=!r:example.org"]
    );
    let copy = room.clone();
    assert_eq!(copy.room_id, "!r:example.org");
    assert_eq!(copy.uuid, 3);
}

#[test]
fn an_event_is_its_vertex_then_its_properties() {
    let names = Identifiers::new().unwrap();
    let event = UUIDEventMapType {
        event_id: "$e1".to_string(),
        uuid: 4,
        event_type: Identifier::new("notice_message_event").unwrap(),
        event_properties: EventProperties::TextMessage(
            "hello".to_string(),
            Some("org.matrix.custom.html".to_string()),
            Some("<b>hello</b>".to_string()),
        ),
    };
    assert_eq!(
        shown(&event.encode(&names).unwrap()),
        vec![
            "vertex 4 notice_message_event",
            "property 4 event_id=$e1",
            "property 4 text_message_body=hello",
            "property 4 text_message_format=org.matrix.custom.html",
            "property 4 text_message_formatted_body=<b>hello</b>",
        ]
    );
    let copy = event.clone();
    assert_eq!(shown(&copy.encode(&names).unwrap()).len(), 5);
}

#[test]
fn a_link_is_an_edge_from_the_event_to_the_room() {
    let names = Identifiers::new().unwrap();
    let edge = encode_link(&names, 4, 3);
    assert_eq!(shown(&[edge.clone()]), vec!["edge 4 event_in_room 3"]);
    assert_eq!(shown(&[edge]), vec!["edge 4 event_in_room 3"]);
}
