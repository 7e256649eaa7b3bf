//! Rooms and events as they are kept for indexing, and the mutation items that
//! stand for them in the graph store.

use crate::identifier::{Identifier, IdentifierError};
use crate::ids::{EventUuid, RoomUuid};
use crate::items::{BulkInsertItem, ItemView};
use crate::schema::{Identifiers, IdentifiersView};
use crate::text::{clone_opt, lemma_views_add, opt_text, views};
use vstd::prelude::*;

verus! {

/// What is stored of a room besides its ids.
pub struct RoomProperties {
    pub name: Option<String>,
    pub topic: Option<String>,
}

/// A [`RoomProperties`] as sequences of characters.
pub struct RoomPropertiesView {
    pub name: Option<Seq<char>>,
    pub topic: Option<Seq<char>>,
}

impl View for RoomProperties {
    type V = RoomPropertiesView;

    open spec fn view(&self) -> RoomPropertiesView {
        RoomPropertiesView { name: opt_text(self.name), topic: opt_text(self.topic) }
    }
}

impl Clone for RoomProperties {
    fn clone(&self) -> (copy: Self)
        ensures
            copy@ == self@,
    {
        RoomProperties { name: clone_opt(&self.name), topic: clone_opt(&self.topic) }
    }
}

/// What is stored of an event besides its ids and its type.
pub enum EventProperties {
    /// Body, format and formatted body of a text or notice message.
    TextMessage(String, Option<String>, Option<String>),
}

/// An [`EventProperties`] as sequences of characters.
pub enum EventPropertiesView {
    TextMessage(Seq<char>, Option<Seq<char>>, Option<Seq<char>>),
}

impl View for EventProperties {
    type V = EventPropertiesView;

    open spec fn view(&self) -> EventPropertiesView {
        match *self {
            EventProperties::TextMessage(body, format, formatted_body) => {
                EventPropertiesView::TextMessage(body@, opt_text(format), opt_text(formatted_body))
            },
        }
    }
}

impl Clone for EventProperties {
    fn clone(&self) -> (copy: Self)
        ensures
            copy@ == self@,
    {
        match self {
            EventProperties::TextMessage(body, format, formatted_body) => {
                EventProperties::TextMessage(
                    body.clone(),
                    clone_opt(format),
                    clone_opt(formatted_body),
                )
            },
        }
    }
}

/// The item that sets the property `name` of the vertex `id` to `value`, if
/// there is a value.
pub open spec fn optional_property(id: u128, name: Seq<char>, value: Option<Seq<char>>) -> Seq<
    ItemView,
> {
    match value {
        Some(value) => seq![ItemView::VertexProperty { id, name, value }],
        None => seq![],
    }
}

impl EventPropertiesView {
    /// The property items of an event with these properties, stored as the
    /// vertex `uuid`: the body, then the format and the formatted body where
    /// the message has them.
    pub open spec fn items(self, uuid: u128) -> Seq<ItemView> {
        match self {
            EventPropertiesView::TextMessage(body, format, formatted_body) => {
                seq![ItemView::VertexProperty { id: uuid, name: "text_message_body"@, value: body }]
                    + optional_property(uuid, "text_message_format"@, format)
                    + optional_property(uuid, "text_message_formatted_body"@, formatted_body)
            },
        }
    }
}

impl EventProperties {
    /// The property items of an event with these properties, stored as the
    /// vertex `uuid`. The store accepts the names of these properties, so
    /// this never fails.
    pub fn as_vec(&self, uuid: u128) -> (made: Result<Vec<BulkInsertItem>, IdentifierError>)
        ensures
            made is Ok,
            views(made.unwrap()@) == self@.items(uuid),
    {
        proof {
            reveal_strlit("text_message_body");
            reveal_strlit("text_message_format");
            reveal_strlit("text_message_formatted_body");
        }
        match self {
            EventProperties::TextMessage(body, format, formatted_body) => {
                let mut vector: Vec<BulkInsertItem> = Vec::with_capacity(3);
                vector.push(
                    BulkInsertItem::VertexProperty(
                        uuid,
                        Identifier::new("text_message_body")?,
                        body.clone(),
                    ),
                );
                if let Some(format) = format {
                    vector.push(
                        BulkInsertItem::VertexProperty(
                            uuid,
                            Identifier::new("text_message_format")?,
                            format.clone(),
                        ),
                    );
                }
                if let Some(formatted_body) = formatted_body {
                    vector.push(
                        BulkInsertItem::VertexProperty(
                            uuid,
                            Identifier::new("text_message_formatted_body")?,
                            formatted_body.clone(),
                        ),
                    );
                }
                assert(views(vector@) =~= self@.items(uuid));
                Ok(vector)
            },
        }
    }
}

/// A room that was seen: its external id, its internal id and what is stored
/// of it.
pub struct UUIDRoomMapType {
    pub room_id: String,
    pub uuid: RoomUuid,
    pub room_properties: RoomProperties,
}

/// A [`UUIDRoomMapType`] as sequences of characters.
pub struct RoomView {
    pub room_id: Seq<char>,
    pub uuid: RoomUuid,
    pub room_properties: RoomPropertiesView,
}

impl View for UUIDRoomMapType {
    type V = RoomView;

    open spec fn view(&self) -> RoomView {
        RoomView { room_id: self.room_id@, uuid: self.uuid, room_properties: self.room_properties@ }
    }
}

impl Clone for UUIDRoomMapType {
    fn clone(&self) -> (copy: Self)
        ensures
            copy@ == self@,
    {
        UUIDRoomMapType {
            room_id: self.room_id.clone(),
            uuid: self.uuid,
            room_properties: self.room_properties.clone(),
        }
    }
}

/// An event that was seen: its external id, its internal id, its type and
/// what is stored of it.
pub struct UUIDEventMapType {
    pub event_id: String,
    pub uuid: EventUuid,
    pub event_type: Identifier,
    pub event_properties: EventProperties,
}

/// A [`UUIDEventMapType`] as sequences of characters.
pub struct EventView {
    pub event_id: Seq<char>,
    pub uuid: EventUuid,
    pub event_type: Seq<char>,
    pub event_properties: EventPropertiesView,
}

impl View for UUIDEventMapType {
    type V = EventView;

    open spec fn view(&self) -> EventView {
        EventView {
            event_id: self.event_id@,
            uuid: self.uuid,
            event_type: self.event_type@,
            event_properties: self.event_properties@,
        }
    }
}

impl Clone for UUIDEventMapType {
    fn clone(&self) -> (copy: Self)
        ensures
            copy@ == self@,
    {
        UUIDEventMapType {
            event_id: self.event_id.clone(),
            uuid: self.uuid,
            event_type: self.event_type.clone(),
            event_properties: self.event_properties.clone(),
        }
    }
}

impl RoomView {
    /// The items that stand for the room: its vertex, its external id, then
    /// its name and its topic where it has them.
    pub open spec fn items(self, names: IdentifiersView) -> Seq<ItemView> {
        seq![
            ItemView::Vertex { id: self.uuid, t: names.room_type },
            ItemView::VertexProperty {
                id: self.uuid,
                name: names.room_id_type,
                value: self.room_id,
            },
        ] + optional_property(self.uuid, names.room_name_type, self.room_properties.name)
            + optional_property(self.uuid, names.room_topic_type, self.room_properties.topic)
    }
}

impl EventView {
    /// The items that stand for the event: its vertex, its external id, then
    /// its properties.
    pub open spec fn items(self, names: IdentifiersView) -> Seq<ItemView> {
        seq![
            ItemView::Vertex { id: self.uuid, t: self.event_type },
            ItemView::VertexProperty {
                id: self.uuid,
                name: names.event_id_type,
                value: self.event_id,
            },
        ] + self.event_properties.items(self.uuid)
    }
}

/// The item that links an event to its room.
pub open spec fn link_item(names: IdentifiersView, event: EventUuid, room: RoomUuid) -> ItemView {
    ItemView::Edge { outbound_id: event, t: names.event_in_room_type, inbound_id: room }
}

impl UUIDRoomMapType {
    /// The items that stand for the room, its vertex first.
    pub fn encode(&self, names: &Identifiers) -> (made: Vec<BulkInsertItem>)
        ensures
            views(made@) == self@.items(names@),
    {
        let mut made: Vec<BulkInsertItem> = Vec::new();
        made.push(BulkInsertItem::Vertex(self.uuid, names.room_type.clone()));
        made.push(
            BulkInsertItem::VertexProperty(
                self.uuid,
                names.room_id_type.clone(),
                self.room_id.clone(),
            ),
        );
        if let Some(room_name) = &self.room_properties.name {
            made.push(
                BulkInsertItem::VertexProperty(
                    self.uuid,
                    names.room_name_type.clone(),
                    room_name.clone(),
                ),
            );
        }
        if let Some(room_topic) = &self.room_properties.topic {
            made.push(
                BulkInsertItem::VertexProperty(
                    self.uuid,
                    names.room_topic_type.clone(),
                    room_topic.clone(),
                ),
            );
        }
        assert(views(made@) =~= self@.items(names@));
        made
    }
}

impl UUIDEventMapType {
    /// The items that stand for the event, its vertex first. The store
    /// accepts the names of an event's properties, so this never fails.
    pub fn encode(&self, names: &Identifiers) -> (made: Result<
        Vec<BulkInsertItem>,
        IdentifierError,
    >)
        ensures
            made is Ok,
            views(made.unwrap()@) == self@.items(names@),
    {
        let mut made: Vec<BulkInsertItem> = Vec::new();
        made.push(BulkInsertItem::Vertex(self.uuid, self.event_type.clone()));
        made.push(
            BulkInsertItem::VertexProperty(
                self.uuid,
                names.event_id_type.clone(),
                self.event_id.clone(),
            ),
        );
        let ghost head = made@;
        let mut properties = self.event_properties.as_vec(self.uuid)?;
        let ghost tail = properties@;
        made.append(&mut properties);
        proof {
            lemma_views_add(head, tail);
            assert(views(head) =~= seq![
                ItemView::Vertex { id: self.uuid, t: self.event_type@ },
                ItemView::VertexProperty {
                    id: self.uuid,
                    name: names@.event_id_type,
                    value: self.event_id@,
                },
            ]);
        }
        Ok(made)
    }
}

/// The item that links the event `event` to the room `room`.
pub fn encode_link(names: &Identifiers, event: EventUuid, room: RoomUuid) -> (made: BulkInsertItem)
    ensures
        made@ == link_item(names@, event, room),
{
    BulkInsertItem::Edge(event, names.event_in_room_type.clone(), room)
}

} // verus!
