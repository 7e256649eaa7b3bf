//! The fixed names under which rooms, events and their properties are stored.

use crate::identifier::{Identifier, IdentifierError};
use crate::text::views;
use vstd::prelude::*;

verus! {

/// The names the indexer stores its entities under.
pub struct Identifiers {
    pub room_type: Identifier,
    pub room_id_type: Identifier,
    pub room_name_type: Identifier,
    pub room_topic_type: Identifier,
    pub text_message_event_type: Identifier,
    pub notice_message_event_type: Identifier,
    pub event_id_type: Identifier,
    pub event_in_room_type: Identifier,
}

/// The names of an [`Identifiers`] table as sequences of characters.
pub struct IdentifiersView {
    pub room_type: Seq<char>,
    pub room_id_type: Seq<char>,
    pub room_name_type: Seq<char>,
    pub room_topic_type: Seq<char>,
    pub text_message_event_type: Seq<char>,
    pub notice_message_event_type: Seq<char>,
    pub event_id_type: Seq<char>,
    pub event_in_room_type: Seq<char>,
}

impl View for Identifiers {
    type V = IdentifiersView;

    open spec fn view(&self) -> IdentifiersView {
        IdentifiersView {
            room_type: self.room_type@,
            room_id_type: self.room_id_type@,
            room_name_type: self.room_name_type@,
            room_topic_type: self.room_topic_type@,
            text_message_event_type: self.text_message_event_type@,
            notice_message_event_type: self.notice_message_event_type@,
            event_id_type: self.event_id_type@,
            event_in_room_type: self.event_in_room_type@,
        }
    }
}

/// The table of names that the indexer uses.
pub open spec fn standard_identifiers() -> IdentifiersView {
    IdentifiersView {
        room_type: "matrix_room"@,
        room_id_type: "room_id"@,
        room_name_type: "room_name"@,
        room_topic_type: "room_topic"@,
        text_message_event_type: "text_message_event"@,
        notice_message_event_type: "notice_message_event"@,
        event_id_type: "event_id"@,
        event_in_room_type: "event_in_room"@,
    }
}

/// The names of the properties that the store is asked to index, so that they
/// can be searched.
pub open spec fn indexed_property_names() -> Seq<Seq<char>> {
    seq![
        "room_id"@,
        "room_name"@,
        "room_topic"@,
        "event_id"@,
        "text_message_body"@,
        "text_message_format"@,
        "text_message_formatted_body"@,
    ]
}

impl Identifiers {
    /// Makes the table of names that the indexer uses. The store accepts each
    /// of them, so this never fails.
    pub fn new() -> (made: Result<Identifiers, IdentifierError>)
        ensures
            made is Ok,
            made.unwrap()@ == standard_identifiers(),
    {
        proof {
            reveal_strlit("matrix_room");
            reveal_strlit("room_id");
            reveal_strlit("room_name");
            reveal_strlit("room_topic");
            reveal_strlit("text_message_event");
            reveal_strlit("notice_message_event");
            reveal_strlit("event_id");
            reveal_strlit("event_in_room");
        }
        let room_type = Identifier::new("matrix_room")?;
        let room_id_type = Identifier::new("room_id")?;
        let room_name_type = Identifier::new("room_name")?;
        let room_topic_type = Identifier::new("room_topic")?;
        let text_message_event_type = Identifier::new("text_message_event")?;
        let notice_message_event_type = Identifier::new("notice_message_event")?;
        let event_id_type = Identifier::new("event_id")?;
        let event_in_room_type = Identifier::new("event_in_room")?;
        Ok(
            Identifiers {
                room_type,
                room_id_type,
                room_name_type,
                room_topic_type,
                text_message_event_type,
                notice_message_event_type,
                event_id_type,
                event_in_room_type,
            },
        )
    }
}

/// The identifiers of the properties that the store is asked to index at
/// startup. The store accepts each of them, so this never fails.
pub fn indexed_properties() -> (made: Result<Vec<Identifier>, IdentifierError>)
    ensures
        made is Ok,
        views(made.unwrap()@) == indexed_property_names(),
{
    proof {
        reveal_strlit("room_id");
        reveal_strlit("room_name");
        reveal_strlit("room_topic");
        reveal_strlit("event_id");
        reveal_strlit("text_message_body");
        reveal_strlit("text_message_format");
        reveal_strlit("text_message_formatted_body");
    }
    let mut keys: Vec<Identifier> = Vec::new();
    keys.push(Identifier::new("room_id")?);
    keys.push(Identifier::new("room_name")?);
    keys.push(Identifier::new("room_topic")?);
    keys.push(Identifier::new("event_id")?);
    keys.push(Identifier::new("text_message_body")?);
    keys.push(Identifier::new("text_message_format")?);
    keys.push(Identifier::new("text_message_formatted_body")?);
    assert(views(keys@) =~= indexed_property_names());
    Ok(keys)
}

} // verus!
