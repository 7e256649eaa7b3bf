use matrix_indexer::entities::{EventProperties, RoomProperties};
use matrix_indexer::identifier::Identifier;
use matrix_indexer::ids::has_random_kind;
use matrix_indexer::messages::MessagesMap;

fn room(name: Option<&str>, topic: Option<&str>) -> RoomProperties {
    RoomProperties { name: name.map(String::from), topic: topic.map(String::from) }
}

fn text(body: &str) -> EventProperties {
    EventProperties::TextMessage(body.to_string(), None, None)
}

fn kind(name: &str) -> Identifier {
    Identifier::new(name).unwrap()
}

#[test]
fn new_map_is_empty() {
    let map = MessagesMap::new();
    assert!(map.room_list().is_empty());
    assert!(map.message_list().is_empty());
    assert!(map.room_event_links().is_empty());
    assert_eq!(map.find_room("!r:example.org"), None);
    assert_eq!(map.find_event("$e1"), None);
    let other = MessagesMap::default();
    assert!(other.room_list().is_empty());
}

#[test]
fn insert_room_twice_gives_the_same_id() {
    let mut map = MessagesMap::new();
    let first = map.insert_room("!r:example.org".to_string(), room(Some("Lobby"), None));
    let second = map.insert_room("!r:example.org".to_string(), room(Some("Hall"), Some("talk")));
    assert_eq!(first, second);
    assert_eq!(map.room_list().len(), 1);
    assert_eq!(map.find_room("!r:example.org"), Some(first));
}

#[test]
fn insert_event_twice_gives_the_same_id() {
    let mut map = MessagesMap::new();
    let first = map.insert_event("$e1".to_string(), 11, kind("text_message_event"), text("hello"));
    let second = map.insert_event("$e1".to_string(), 12, kind("notice_message_event"), text("bye"));
    assert_eq!(first, second);
    assert_eq!(map.message_list().len(), 1);
    assert_eq!(map.room_event_links(), &vec![(first, 11)]);
    assert_eq!(map.find_event("$e1"), Some(first));
}

#[test]
fn first_room_properties_win() {
    let mut map = MessagesMap::new();
    map.insert_room("!r:example.org".to_string(), room(Some("Lobby"), None));
    map.insert_room("!r:example.org".to_string(), room(Some("Hall"), Some("talk")));
    let kept = &map.room_list()[0];
    assert_eq!(kept.room_id, "!r:example.org");
    assert_eq!(kept.room_properties.name.as_deref(), Some("Lobby"));
    assert_eq!(kept.room_properties.topic, None);
}

#[test]
fn first_event_properties_win() {
    let mut map = MessagesMap::new();
    map.insert_event("$e1".to_string(), 11, kind("text_message_event"), text("hello"));
    map.insert_event("$e1".to_string(), 12, kind("notice_message_event"), text("bye"));
    let kept = &map.message_list()[0];
    assert_eq!(kept.event_id, "$e1");
    assert_eq!(kept.event_type.as_str(), "text_message_event");
    match &kept.event_properties {
        EventProperties::TextMessage(body, format, formatted_body) => {
            assert_eq!(body, "hello");
            assert_eq!(format, &None);
            assert_eq!(formatted_body, &None);
        }
    }
}

#[test]
fn new_ids_are_random_uuids() {
    let mut map = MessagesMap::new();
    let room_uuid = map.insert_room("!r:example.org".to_string(), room(None, None));
    let event_uuid = map.insert_event("$e1".to_string(), room_uuid, kind("x"), text("hello"));
    assert!(has_random_kind(room_uuid));
    assert!(has_random_kind(event_uuid));
    assert_eq!(uuid::Uuid::from_u128(room_uuid).get_version_num(), 4);
    assert_eq!(uuid::Uuid::from_u128(event_uuid).get_version_num(), 4);
    assert_ne!(room_uuid, event_uuid);
}

#[test]
fn random_kind_is_read_off_the_version_and_variant_bits() {
    assert!(has_random_kind(0x0000_0000_0000_4000_8000_0000_0000_0000));
    assert!(has_random_kind(0xffff_ffff_ffff_4fff_bfff_ffff_ffff_ffff));
    assert!(!has_random_kind(0));
    assert!(!has_random_kind(0x0000_0000_0000_1000_8000_0000_0000_0000));
    assert!(!has_random_kind(0x0000_0000_0000_4000_c000_0000_0000_0000));
}

#[test]
fn offered_id_is_taken_only_by_a_new_room() {
    let mut map = MessagesMap::new();
    assert_eq!(map.insert_room_with("!a:x".to_string(), room(None, None), 7), 7);
    assert_eq!(map.insert_room_with("!a:x".to_string(), room(Some("late"), None), 8), 7);
    assert_eq!(map.insert_room_with("!b:x".to_string(), room(None, Some("b")), 9), 9);
    let ids: Vec<(String, u128)> =
        map.room_list().iter().map(|r| (r.room_id.clone(), r.uuid)).collect();
    assert_eq!(ids, vec![("!a:x".to_string(), 7), ("!b:x".to_string(), 9)]);
    assert_eq!(map.find_room("!b:x"), Some(9));
    assert_eq!(map.find_room("!c:x"), None);
}

#[test]
fn offered_id_is_taken_only_by_a_new_event() {
    let mut map = MessagesMap::new();
    assert_eq!(map.insert_event_with("$a".to_string(), 1, kind("t"), text("a"), 50), 50);
    assert_eq!(map.insert_event_with("$a".to_string(), 2, kind("t"), text("b"), 60), 50);
    assert_eq!(map.room_event_links(), &vec![(50, 1)]);
    assert_eq!(map.message_list().len(), 1);
}

#[test]
fn links_are_kept_in_ascending_order_of_event_ids() {
    let mut map = MessagesMap::new();
    map.insert_event_with("$a".to_string(), 1, kind("t"), text("a"), 50);
    map.insert_event_with("$b".to_string(), 2, kind("t"), text("b"), 30);
    map.insert_event_with("$c".to_string(), 1, kind("t"), text("c"), 40);
    map.insert_event_with("$d".to_string(), 3, kind("t"), text("d"), 60);
    assert_eq!(map.room_event_links(), &vec![(30, 2), (40, 1), (50, 1), (60, 3)]);
    let order: Vec<&str> = map.message_list().iter().map(|e| e.event_id.as_str()).collect();
    assert_eq!(order, vec!["$a", "$b", "$c", "$d"]);
}

#[test]
fn an_event_id_that_is_given_twice_has_one_link() {
    let mut map = MessagesMap::new();
    map.insert_event_with("$a".to_string(), 1, kind("t"), text("a"), 50);
    map.insert_event_with("$b".to_string(), 2, kind("t"), text("b"), 50);
    assert_eq!(map.room_event_links(), &vec![(50, 2)]);
    assert_eq!(map.message_list().len(), 2);
}

#[test]
fn rooms_and_events_have_namespaces_of_their_own() {
    let mut map = MessagesMap::new();
    map.insert_room_with("same".to_string(), room(None, None), 1);
    assert_eq!(map.find_event("same"), None);
    assert_eq!(map.insert_event_with("same".to_string(), 1, kind("t"), text("a"), 2), 2);
    assert_eq!(map.find_room("same"), Some(1));
}
