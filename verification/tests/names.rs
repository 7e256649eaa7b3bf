use matrix_indexer::identifier::{Identifier, IdentifierError};
use matrix_indexer::schema::{indexed_properties, Identifiers};

#[test]
fn plain_names_are_accepted() {
    assert_eq!(Identifier::new("foo").unwrap().as_str(), "foo");
    assert_eq!(Identifier::new("text_message_body").unwrap().as_str(), "text_message_body");
    assert_eq!(Identifier::new("A-b_9").unwrap().as_str(), "A-b_9");
    assert_eq!(Identifier::new("").unwrap().as_str(), "");
}

#[test]
fn a_name_of_255_bytes_is_accepted_and_one_of_256_is_too_long() {
    let fits = "X".repeat(255);
    assert_eq!(Identifier::new(&fits).unwrap().as_str(), fits);
    let long = "X".repeat(256);
    assert_eq!(Identifier::new(&long).unwrap_err(), IdentifierError::TooLong);
}

#[test]
fn length_is_counted_in_bytes() {
    let name = "\u{e9}".repeat(128);
    assert_eq!(name.chars().count(), 128);
    assert_eq!(Identifier::new(&name).unwrap_err(), IdentifierError::TooLong);
    let fits = "\u{e9}".repeat(127);
    assert!(Identifier::new(&fits).is_ok());
}

#[test]
fn other_characters_are_refused() {
    assert_eq!(Identifier::new("$").unwrap_err(), IdentifierError::InvalidCharacter);
    assert_eq!(Identifier::new("room id").unwrap_err(), IdentifierError::InvalidCharacter);
    assert_eq!(Identifier::new("a.b").unwrap_err(), IdentifierError::InvalidCharacter);
}

#[test]
fn letters_and_digits_of_any_script_are_accepted() {
    assert_eq!(Identifier::new("\u{e9}mile").unwrap().as_str(), "\u{e9}mile");
    assert_eq!(Identifier::new("\u{5ba4}\u{0663}").unwrap().as_str(), "\u{5ba4}\u{0663}");
}

#[test]
fn too_long_is_reported_before_a_bad_character() {
    let long = "$".repeat(256);
    assert_eq!(Identifier::new(&long).unwrap_err(), IdentifierError::TooLong);
}

#[test]
fn a_copy_of_an_identifier_holds_the_same_name() {
    let name = Identifier::new("event_in_room").unwrap();
    assert_eq!(name.clone().as_str(), "event_in_room");
}

#[test]
fn the_table_holds_the_fixed_names() {
    let names = Identifiers::new().unwrap();
    assert_eq!(names.room_type.as_str(), "matrix_room");
    assert_eq!(names.room_id_type.as_str(), "room_id");
    assert_eq!(names.room_name_type.as_str(), "room_name");
    assert_eq!(names.room_topic_type.as_str(), "room_topic");
    assert_eq!(names.text_message_event_type.as_str(), "text_message_event");
    assert_eq!(names.notice_message_event_type.as_str(), "notice_message_event");
    assert_eq!(names.event_id_type.as_str(), "event_id");
    assert_eq!(names.event_in_room_type.as_str(), "event_in_room");
}

#[test]
fn seven_properties_are_indexed() {
    let keys = indexed_properties().unwrap();
    let names: Vec<&str> = keys.iter().map(|k| k.as_str()).collect();
    assert_eq!(
        names,
        vec![
            "room_id",
            "room_name",
            "room_topic",
            "event_id",
            "text_message_body",
            "text_message_format",
            "text_message_formatted_body",
        ]
    );
}
