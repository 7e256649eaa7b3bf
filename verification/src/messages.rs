//! The rooms and events seen so far, each with the internal id it was given
//! when it was first seen, and the links from events to their rooms.

use crate::entities::{
    EventProperties, EventPropertiesView, EventView, RoomProperties, RoomPropertiesView, RoomView,
    UUIDEventMapType, UUIDRoomMapType,
};
use crate::identifier::Identifier;
use crate::ids::{is_random_uuid, mint_uuid, EventUuid, RoomUuid};
use crate::links::{lemma_put_link_members, lemma_put_link_sorted, links_sorted, put, put_link};
use crate::text::{lemma_views_push, views};
use vstd::hash_map::StringHashMap;
use vstd::prelude::*;

verus! {

/// What a [`MessagesMap`] holds: the rooms and the events in the order in
/// which they were first seen, and the links in ascending order of their
/// events' ids.
pub struct MessagesView {
    pub rooms: Seq<RoomView>,
    pub events: Seq<EventView>,
    pub links: Seq<(EventUuid, RoomUuid)>,
}

impl MessagesView {
    /// Whether the room with the external id `room_id` was seen.
    pub open spec fn knows_room(self, room_id: Seq<char>) -> bool {
        exists|i: int| 0 <= i < self.rooms.len() && (#[trigger] self.rooms[i]).room_id == room_id
    }

    /// A place at which the room with the external id `room_id` is kept.
    pub open spec fn room_index(self, room_id: Seq<char>) -> int {
        choose|i: int| 0 <= i < self.rooms.len() && (#[trigger] self.rooms[i]).room_id == room_id
    }

    /// What is kept of the room with the external id `room_id`.
    pub open spec fn room(self, room_id: Seq<char>) -> RoomView {
        self.rooms[self.room_index(room_id)]
    }

    /// The internal id of the room with the external id `room_id`.
    pub open spec fn room_uuid(self, room_id: Seq<char>) -> RoomUuid {
        self.room(room_id).uuid
    }

    /// The internal id of the room with the external id `room_id`, if the
    /// room was seen.
    pub open spec fn find_room(self, room_id: Seq<char>) -> Option<RoomUuid> {
        if self.knows_room(room_id) {
            Some(self.room_uuid(room_id))
        } else {
            None
        }
    }

    /// Whether the event with the external id `event_id` was seen.
    pub open spec fn knows_event(self, event_id: Seq<char>) -> bool {
        exists|i: int|
            0 <= i < self.events.len() && (#[trigger] self.events[i]).event_id == event_id
    }

    /// A place at which the event with the external id `event_id` is kept.
    pub open spec fn event_index(self, event_id: Seq<char>) -> int {
        choose|i: int|
            0 <= i < self.events.len() && (#[trigger] self.events[i]).event_id == event_id
    }

    /// What is kept of the event with the external id `event_id`.
    pub open spec fn event(self, event_id: Seq<char>) -> EventView {
        self.events[self.event_index(event_id)]
    }

    /// The internal id of the event with the external id `event_id`.
    pub open spec fn event_uuid(self, event_id: Seq<char>) -> EventUuid {
        self.event(event_id).uuid
    }

    /// The internal id of the event with the external id `event_id`, if the
    /// event was seen.
    pub open spec fn find_event(self, event_id: Seq<char>) -> Option<EventUuid> {
        if self.knows_event(event_id) {
            Some(self.event_uuid(event_id))
        } else {
            None
        }
    }

    /// Whether a room is kept under the internal id `uuid`.
    pub open spec fn has_room_uuid(self, uuid: RoomUuid) -> bool {
        exists|i: int| 0 <= i < self.rooms.len() && (#[trigger] self.rooms[i]).uuid == uuid
    }

    /// Whether an event is kept under the internal id `uuid`.
    pub open spec fn has_event_uuid(self, uuid: EventUuid) -> bool {
        exists|i: int| 0 <= i < self.events.len() && (#[trigger] self.events[i]).uuid == uuid
    }

    /// Whether every link leads from an event that is kept to a room that is
    /// kept.
    pub open spec fn linked(self) -> bool {
        forall|i: int|
            0 <= i < self.links.len() ==> self.has_event_uuid((#[trigger] self.links[i]).0)
                && self.has_room_uuid(self.links[i].1)
    }

    /// The internal id of each room that was seen, by its external id.
    pub open spec fn rooms_index(self) -> Map<Seq<char>, RoomUuid> {
        Map::new(
            |room_id: Seq<char>| self.knows_room(room_id),
            |room_id: Seq<char>| self.room_uuid(room_id),
        )
    }

    /// The internal id of each event that was seen, by its external id.
    pub open spec fn events_index(self) -> Map<Seq<char>, EventUuid> {
        Map::new(
            |event_id: Seq<char>| self.knows_event(event_id),
            |event_id: Seq<char>| self.event_uuid(event_id),
        )
    }

    /// Nothing seen yet.
    pub open spec fn empty() -> MessagesView {
        MessagesView { rooms: Seq::empty(), events: Seq::empty(), links: Seq::empty() }
    }

    /// No external id is kept twice, and the links are sorted.
    pub open spec fn wf(self) -> bool {
        &&& forall|i: int, j: int|
            0 <= i < j < self.rooms.len() ==> (#[trigger] self.rooms[i]).room_id != (
            #[trigger] self.rooms[j]).room_id
        &&& forall|i: int, j: int|
            0 <= i < j < self.events.len() ==> (#[trigger] self.events[i]).event_id != (
            #[trigger] self.events[j]).event_id
        &&& links_sorted(self.links)
    }

    /// The state after the room `room_id` was offered with `properties` and
    /// the id `fresh` to take if it is new: a room seen before changes
    /// nothing, a new one is kept last.
    pub open spec fn with_room(
        self,
        room_id: Seq<char>,
        properties: RoomPropertiesView,
        fresh: RoomUuid,
    ) -> MessagesView {
        if self.knows_room(room_id) {
            self
        } else {
            MessagesView {
                rooms: self.rooms.push(
                    RoomView { room_id, uuid: fresh, room_properties: properties },
                ),
                ..self
            }
        }
    }

    /// The state after the event `event_id` of the room `room` was offered
    /// with its type, its properties and the id `fresh` to take if it is new:
    /// an event seen before changes nothing, a new one is kept last and
    /// linked to its room.
    pub open spec fn with_event(
        self,
        event_id: Seq<char>,
        room: RoomUuid,
        event_type: Seq<char>,
        properties: EventPropertiesView,
        fresh: EventUuid,
    ) -> MessagesView {
        if self.knows_event(event_id) {
            self
        } else {
            MessagesView {
                events: self.events.push(
                    EventView { event_id, uuid: fresh, event_type, event_properties: properties },
                ),
                links: put_link(self.links, fresh, room),
                ..self
            }
        }
    }

    /// Offering a room keeps the state well formed, makes the room known, and
    /// gives a new room the id that was offered.
    pub proof fn lemma_with_room(
        self,
        room_id: Seq<char>,
        properties: RoomPropertiesView,
        fresh: RoomUuid,
    )
        ensures
            self.with_room(room_id, properties, fresh).knows_room(room_id),
            self.wf() ==> self.with_room(room_id, properties, fresh).wf(),
            self.knows_room(room_id) ==> self.with_room(room_id, properties, fresh).room_uuid(
                room_id,
            ) == self.room_uuid(room_id),
            !self.knows_room(room_id) ==> self.with_room(room_id, properties, fresh).room_uuid(
                room_id,
            ) == fresh,
            !self.knows_room(room_id) ==> self.with_room(room_id, properties, fresh).room(
                room_id,
            ).room_properties == properties,
    {
        let after = self.with_room(room_id, properties, fresh);
        if !self.knows_room(room_id) {
            let last = self.rooms.len() as int;
            assert(after.rooms[last].room_id == room_id);
            let at = after.room_index(room_id);
            if at < last {
                assert(self.rooms[at].room_id == room_id);
            }
            assert(at == last);
            if self.wf() {
                assert forall|i: int, j: int| 0 <= i < j < after.rooms.len() implies (
                #[trigger] after.rooms[i]).room_id != (#[trigger] after.rooms[j]).room_id by {
                    if j == last {
                        assert(self.rooms[i].room_id != room_id);
                    } else {
                        assert(after.rooms[i] == self.rooms[i]);
                        assert(after.rooms[j] == self.rooms[j]);
                    }
                }
            }
        }
    }

    /// Offering an event keeps the state well formed, makes the event known,
    /// and gives a new event the id that was offered.
    pub proof fn lemma_with_event(
        self,
        event_id: Seq<char>,
        room: RoomUuid,
        event_type: Seq<char>,
        properties: EventPropertiesView,
        fresh: EventUuid,
    )
        ensures
            self.with_event(event_id, room, event_type, properties, fresh).knows_event(event_id),
            self.wf() ==> self.with_event(event_id, room, event_type, properties, fresh).wf(),
            self.knows_event(event_id) ==> self.with_event(
                event_id,
                room,
                event_type,
                properties,
                fresh,
            ).event_uuid(event_id) == self.event_uuid(event_id),
            !self.knows_event(event_id) ==> self.with_event(
                event_id,
                room,
                event_type,
                properties,
                fresh,
            ).event_uuid(event_id) == fresh,
            !self.knows_event(event_id) ==> self.with_event(
                event_id,
                room,
                event_type,
                properties,
                fresh,
            ).event(event_id).event_properties == properties,
    {
        let after = self.with_event(event_id, room, event_type, properties, fresh);
        if !self.knows_event(event_id) {
            let last = self.events.len() as int;
            assert(after.events[last].event_id == event_id);
            let at = after.event_index(event_id);
            if at < last {
                assert(self.events[at].event_id == event_id);
            }
            assert(at == last);
            if self.wf() {
                lemma_put_link_sorted(self.links, fresh, room);
                assert forall|i: int, j: int| 0 <= i < j < after.events.len() implies (
                #[trigger] after.events[i]).event_id != (#[trigger] after.events[j]).event_id by {
                    if j == last {
                        assert(self.events[i].event_id != event_id);
                    } else {
                        assert(after.events[i] == self.events[i]);
                        assert(after.events[j] == self.events[j]);
                    }
                }
            }
        }
    }
}

/// A room that is offered leaves every link between an event and a room that
/// are kept.
pub proof fn lemma_with_room_linked(
    seen: MessagesView,
    room_id: Seq<char>,
    properties: RoomPropertiesView,
    fresh: RoomUuid,
)
    requires
        seen.linked(),
    ensures
        seen.with_room(room_id, properties, fresh).linked(),
        forall|uuid: RoomUuid| #[trigger]
            seen.has_room_uuid(uuid) ==> seen.with_room(room_id, properties, fresh).has_room_uuid(
                uuid,
            ),
{
    let after = seen.with_room(room_id, properties, fresh);
    assert forall|uuid: RoomUuid| #[trigger] seen.has_room_uuid(uuid) implies after.has_room_uuid(
        uuid,
    ) by {
        let at = choose|i: int| 0 <= i < seen.rooms.len() && (#[trigger] seen.rooms[i]).uuid == uuid;
        assert(after.rooms[at].uuid == uuid);
    }
    assert forall|i: int| 0 <= i < after.links.len() implies after.has_event_uuid(
        (#[trigger] after.links[i]).0,
    ) && after.has_room_uuid(after.links[i].1) by {
        assert(seen.has_event_uuid(seen.links[i].0) && seen.has_room_uuid(seen.links[i].1));
    }
}

/// An event of a room that is kept, when it is offered, leaves every link
/// between an event and a room that are kept.
pub proof fn lemma_with_event_linked(
    seen: MessagesView,
    event_id: Seq<char>,
    room: RoomUuid,
    event_type: Seq<char>,
    properties: EventPropertiesView,
    fresh: EventUuid,
)
    requires
        seen.wf(),
        seen.linked(),
        seen.has_room_uuid(room),
    ensures
        seen.with_event(event_id, room, event_type, properties, fresh).linked(),
{
    let after = seen.with_event(event_id, room, event_type, properties, fresh);
    if !seen.knows_event(event_id) {
        lemma_put_link_members(seen.links, fresh, room);
        assert(after.events[seen.events.len() as int].uuid == fresh);
        assert forall|uuid: EventUuid| #[trigger]
            seen.has_event_uuid(uuid) implies after.has_event_uuid(uuid) by {
            let at = choose|i: int|
                0 <= i < seen.events.len() && (#[trigger] seen.events[i]).uuid == uuid;
            assert(after.events[at].uuid == uuid);
        }
        assert forall|i: int| 0 <= i < after.links.len() implies after.has_event_uuid(
            (#[trigger] after.links[i]).0,
        ) && after.has_room_uuid(after.links[i].1) by {
            if after.links[i] != (fresh, room) {
                let at = choose|j: int|
                    0 <= j < seen.links.len() && seen.links[j] == after.links[i];
                assert(seen.has_event_uuid(seen.links[at].0) && seen.has_room_uuid(
                    seen.links[at].1,
                ));
            }
        }
    }
}

/// Whether `longer` begins with the values of `shorter`, in their order.
pub open spec fn begins_with<T>(longer: Seq<T>, shorter: Seq<T>) -> bool {
    &&& shorter.len() <= longer.len()
    &&& forall|i: int| 0 <= i < shorter.len() ==> #[trigger] longer[i] == shorter[i]
}

/// Whether `after` keeps every room and every event of `before` as it is
/// and at its place, and knows each under the internal id that it has in
/// `before`: nothing that was seen is changed or forgotten.
pub open spec fn keeps_seen(before: MessagesView, after: MessagesView) -> bool {
    &&& begins_with(after.rooms, before.rooms)
    &&& begins_with(after.events, before.events)
    &&& forall|room_id: Seq<char>| #[trigger]
        before.knows_room(room_id) ==> after.knows_room(room_id) && after.room_uuid(room_id)
            == before.room_uuid(room_id)
    &&& forall|event_id: Seq<char>| #[trigger]
        before.knows_event(event_id) ==> after.knows_event(event_id) && after.event_uuid(
            event_id,
        ) == before.event_uuid(event_id)
}

/// Whether every room and every event that `after` knows and `before` does
/// not has a random id.
pub open spec fn mints_random(before: MessagesView, after: MessagesView) -> bool {
    &&& forall|room_id: Seq<char>| #[trigger]
        after.knows_room(room_id) && !before.knows_room(room_id) ==> is_random_uuid(
            after.room_uuid(room_id),
        )
    &&& forall|event_id: Seq<char>| #[trigger]
        after.knows_event(event_id) && !before.knows_event(event_id) ==> is_random_uuid(
            after.event_uuid(event_id),
        )
}

/// What is new after two steps is what is new after the first or after the
/// second.
pub proof fn lemma_mints_random_chain(
    first: MessagesView,
    second: MessagesView,
    third: MessagesView,
)
    requires
        keeps_seen(first, second),
        keeps_seen(second, third),
        mints_random(first, second),
        mints_random(second, third),
    ensures
        keeps_seen(first, third),
        mints_random(first, third),
{
    assert forall|room_id: Seq<char>| #[trigger]
        third.knows_room(room_id) && !first.knows_room(room_id) implies is_random_uuid(
        third.room_uuid(room_id),
    ) by {
        if second.knows_room(room_id) {
            assert(third.room_uuid(room_id) == second.room_uuid(room_id));
        }
    }
    assert forall|event_id: Seq<char>| #[trigger]
        third.knows_event(event_id) && !first.knows_event(event_id) implies is_random_uuid(
        third.event_uuid(event_id),
    ) by {
        if second.knows_event(event_id) {
            assert(third.event_uuid(event_id) == second.event_uuid(event_id));
        }
    }
}

/// Nothing seen is changed: a room that is offered to a well-formed state
/// leaves every room and event as it is kept, known under the id it had.
pub proof fn lemma_with_room_keeps_seen(
    seen: MessagesView,
    room_id: Seq<char>,
    properties: RoomPropertiesView,
    fresh: RoomUuid,
)
    requires
        seen.wf(),
    ensures
        keeps_seen(seen, seen.with_room(room_id, properties, fresh)),
{
    let after = seen.with_room(room_id, properties, fresh);
    seen.lemma_with_room(room_id, properties, fresh);
    assert forall|known: Seq<char>| #[trigger] seen.knows_room(known) implies after.knows_room(
        known,
    ) && after.room_uuid(known) == seen.room_uuid(known) by {
        let at = seen.room_index(known);
        assert(after.rooms[at] == seen.rooms[at]);
        let found = after.room_index(known);
        if found != at {
            if found < at {
                assert(after.rooms[found].room_id != after.rooms[at].room_id);
            } else {
                assert(after.rooms[at].room_id != after.rooms[found].room_id);
            }
        }
    }
}

/// Nothing seen is changed: an event that is offered to a well-formed state
/// leaves every room and event as it is kept, known under the id it had.
pub proof fn lemma_with_event_keeps_seen(
    seen: MessagesView,
    event_id: Seq<char>,
    room: RoomUuid,
    event_type: Seq<char>,
    properties: EventPropertiesView,
    fresh: EventUuid,
)
    requires
        seen.wf(),
    ensures
        keeps_seen(seen, seen.with_event(event_id, room, event_type, properties, fresh)),
{
    let after = seen.with_event(event_id, room, event_type, properties, fresh);
    seen.lemma_with_event(event_id, room, event_type, properties, fresh);
    assert forall|known: Seq<char>| #[trigger] seen.knows_event(known) implies after.knows_event(
        known,
    ) && after.event_uuid(known) == seen.event_uuid(known) by {
        let at = seen.event_index(known);
        assert(after.events[at] == seen.events[at]);
        let found = after.event_index(known);
        if found != at {
            if found < at {
                assert(after.events[found].event_id != after.events[at].event_id);
            } else {
                assert(after.events[at].event_id != after.events[found].event_id);
            }
        }
    }
}

/// A new room adds one entry to the map from external to internal ids, and
/// changes no other.
pub proof fn lemma_rooms_index_insert(
    seen: MessagesView,
    room_id: Seq<char>,
    properties: RoomPropertiesView,
    fresh: RoomUuid,
)
    requires
        seen.wf(),
        !seen.knows_room(room_id),
    ensures
        seen.with_room(room_id, properties, fresh).rooms_index() == seen.rooms_index().insert(
            room_id,
            fresh,
        ),
        seen.with_room(room_id, properties, fresh).events_index() == seen.events_index(),
{
    let after = seen.with_room(room_id, properties, fresh);
    seen.lemma_with_room(room_id, properties, fresh);
    lemma_with_room_keeps_seen(seen, room_id, properties, fresh);
    assert forall|known: Seq<char>| #[trigger]
        after.knows_room(known) && known != room_id implies seen.knows_room(known) by {
        let at = after.room_index(known);
        assert(seen.rooms[at].room_id == known);
    }
    assert(after.rooms_index() =~= seen.rooms_index().insert(room_id, fresh));
    assert(after.events_index() =~= seen.events_index());
}

/// A new event adds one entry to the map from external to internal ids, and
/// changes no other.
pub proof fn lemma_events_index_insert(
    seen: MessagesView,
    event_id: Seq<char>,
    room: RoomUuid,
    event_type: Seq<char>,
    properties: EventPropertiesView,
    fresh: EventUuid,
)
    requires
        seen.wf(),
        !seen.knows_event(event_id),
    ensures
        seen.with_event(event_id, room, event_type, properties, fresh).events_index()
            == seen.events_index().insert(event_id, fresh),
        seen.with_event(event_id, room, event_type, properties, fresh).rooms_index()
            == seen.rooms_index(),
{
    let after = seen.with_event(event_id, room, event_type, properties, fresh);
    seen.lemma_with_event(event_id, room, event_type, properties, fresh);
    lemma_with_event_keeps_seen(seen, event_id, room, event_type, properties, fresh);
    assert forall|known: Seq<char>| #[trigger]
        after.knows_event(known) && known != event_id implies seen.knows_event(known) by {
        let at = after.event_index(known);
        assert(seen.events[at].event_id == known);
    }
    assert(after.events_index() =~= seen.events_index().insert(event_id, fresh));
    assert(after.rooms_index() =~= seen.rooms_index());
}

/// The rooms and events seen so far, and the links from events to rooms.
///
/// An external id keeps the internal id that it was given when it was first
/// seen, for as long as the value lives.
pub struct MessagesMap {
    event_uuids: StringHashMap<EventUuid>,
    message_list: Vec<UUIDEventMapType>,
    room_uuids: StringHashMap<RoomUuid>,
    room_list: Vec<UUIDRoomMapType>,
    room_event_links: Vec<(EventUuid, RoomUuid)>,
}

impl View for MessagesMap {
    type V = MessagesView;

    closed spec fn view(&self) -> MessagesView {
        MessagesView {
            rooms: views(self.room_list@),
            events: views(self.message_list@),
            links: self.room_event_links@,
        }
    }
}

impl Default for MessagesMap {
    fn default() -> (made: Self)
        ensures
            made@ == MessagesView::empty(),
    {
        MessagesMap::new()
    }
}

impl MessagesMap {
    /// Whether the two maps from external to internal ids hold what the
    /// lists of rooms and events hold.
    pub closed spec fn indexed(self) -> bool {
        &&& self.room_uuids@ == self@.rooms_index()
        &&& self.event_uuids@ == self@.events_index()
    }

    /// What a map holds is well formed at all times.
    #[verifier::type_invariant]
    pub open spec fn well_formed(self) -> bool {
        self@.wf() && self.indexed()
    }

    /// A map that has seen nothing.
    pub fn new() -> (made: Self)
        ensures
            made@ == MessagesView::empty(),
    {
        let event_uuids = StringHashMap::new();
        let message_list: Vec<UUIDEventMapType> = Vec::new();
        let room_uuids = StringHashMap::new();
        let room_list: Vec<UUIDRoomMapType> = Vec::new();
        let room_event_links: Vec<(EventUuid, RoomUuid)> = Vec::new();
        proof {
            let nothing = MessagesView::empty();
            assert(views(room_list@) =~= nothing.rooms);
            assert(views(message_list@) =~= nothing.events);
            assert(room_event_links@ =~= nothing.links);
            assert(nothing.rooms_index() =~= Map::empty());
            assert(nothing.events_index() =~= Map::empty());
        }
        MessagesMap { event_uuids, message_list, room_uuids, room_list, room_event_links }
    }

    /// The rooms in the order in which they were first seen.
    pub fn room_list(&self) -> (rooms: &Vec<UUIDRoomMapType>)
        ensures
            views(rooms@) == self@.rooms,
            self@.wf(),
    {
        proof {
            use_type_invariant(self);
        }
        &self.room_list
    }

    /// The events in the order in which they were first seen.
    pub fn message_list(&self) -> (events: &Vec<UUIDEventMapType>)
        ensures
            views(events@) == self@.events,
            self@.wf(),
    {
        proof {
            use_type_invariant(self);
        }
        &self.message_list
    }

    /// The links, each an event's id and its room's id, in ascending order
    /// of the events' ids.
    pub fn room_event_links(&self) -> (links: &Vec<(EventUuid, RoomUuid)>)
        ensures
            links@ == self@.links,
            self@.wf(),
    {
        proof {
            use_type_invariant(self);
        }
        &self.room_event_links
    }

    /// The internal id of the room with the external id `room_id`, if the
    /// room was seen.
    pub fn find_room(&self, room_id: &str) -> (found: Option<RoomUuid>)
        ensures
            found == self@.find_room(room_id@),
    {
        proof {
            use_type_invariant(self);
        }
        match self.room_uuids.get(room_id) {
            Some(uuid) => Some(*uuid),
            None => None,
        }
    }

    /// The internal id of the event with the external id `event_id`, if the
    /// event was seen.
    pub fn find_event(&self, event_id: &str) -> (found: Option<EventUuid>)
        ensures
            found == self@.find_event(event_id@),
    {
        proof {
            use_type_invariant(self);
        }
        match self.event_uuids.get(event_id) {
            Some(uuid) => Some(*uuid),
            None => None,
        }
    }

    /// Keeps the room `room_id` with `room_properties` under the id `fresh`,
    /// unless the room was seen before. Returns the id under which the room
    /// is kept: the one it had, or `fresh`.
    pub fn insert_room_with(
        &mut self,
        room_id: String,
        room_properties: RoomProperties,
        fresh: RoomUuid,
    ) -> (uuid: RoomUuid)
        ensures
            final(self)@ == old(self)@.with_room(room_id@, room_properties@, fresh),
            final(self)@.wf(),
            keeps_seen(old(self)@, final(self)@),
            old(self)@.linked() ==> final(self)@.linked(),
            final(self)@.knows_room(room_id@),
            final(self)@.has_room_uuid(uuid),
            uuid == final(self)@.room_uuid(room_id@),
            uuid == if old(self)@.knows_room(room_id@) {
                old(self)@.room_uuid(room_id@)
            } else {
                fresh
            },
    {
        proof {
            use_type_invariant(&*self);
            self@.lemma_with_room(room_id@, room_properties@, fresh);
            lemma_with_room_keeps_seen(self@, room_id@, room_properties@, fresh);
            if self@.linked() {
                lemma_with_room_linked(self@, room_id@, room_properties@, fresh);
            }
            let after = self@.with_room(room_id@, room_properties@, fresh);
            assert(after.rooms[after.room_index(room_id@)] == after.room(room_id@));
        }
        match self.find_room(room_id.as_str()) {
            Some(uuid) => uuid,
            None => {
                proof {
                    lemma_rooms_index_insert(self@, room_id@, room_properties@, fresh);
                }
                let mut taken = MessagesMap::new();
                core::mem::swap(self, &mut taken);
                let MessagesMap {
                    event_uuids,
                    message_list,
                    mut room_uuids,
                    mut room_list,
                    room_event_links,
                } = taken;
                room_uuids.insert(room_id.clone(), fresh);
                let record = UUIDRoomMapType { room_id, uuid: fresh, room_properties };
                proof {
                    lemma_views_push(room_list@, record);
                }
                room_list.push(record);
                *self = MessagesMap {
                    event_uuids,
                    message_list,
                    room_uuids,
                    room_list,
                    room_event_links,
                };
                fresh
            },
        }
    }

    /// Keeps the event `event_id` of the room `room_uuid` with its type and
    /// properties under the id `fresh`, and links it to its room, unless the
    /// event was seen before. Returns the id under which the event is kept:
    /// the one it had, or `fresh`.
    pub fn insert_event_with(
        &mut self,
        event_id: String,
        room_uuid: RoomUuid,
        event_type: Identifier,
        event_properties: EventProperties,
        fresh: EventUuid,
    ) -> (uuid: EventUuid)
        ensures
            final(self)@ == old(self)@.with_event(
                event_id@,
                room_uuid,
                event_type@,
                event_properties@,
                fresh,
            ),
            final(self)@.wf(),
            keeps_seen(old(self)@, final(self)@),
            old(self)@.linked() && old(self)@.has_room_uuid(room_uuid) ==> final(self)@.linked(),
            final(self)@.knows_event(event_id@),
            uuid == final(self)@.event_uuid(event_id@),
            uuid == if old(self)@.knows_event(event_id@) {
                old(self)@.event_uuid(event_id@)
            } else {
                fresh
            },
    {
        proof {
            use_type_invariant(&*self);
            self@.lemma_with_event(event_id@, room_uuid, event_type@, event_properties@, fresh);
            lemma_with_event_keeps_seen(
                self@,
                event_id@,
                room_uuid,
                event_type@,
                event_properties@,
                fresh,
            );
            if self@.linked() && self@.has_room_uuid(room_uuid) {
                lemma_with_event_linked(
                    self@,
                    event_id@,
                    room_uuid,
                    event_type@,
                    event_properties@,
                    fresh,
                );
            }
        }
        match self.find_event(event_id.as_str()) {
            Some(uuid) => uuid,
            None => {
                proof {
                    lemma_events_index_insert(
                        self@,
                        event_id@,
                        room_uuid,
                        event_type@,
                        event_properties@,
                        fresh,
                    );
                }
                let mut taken = MessagesMap::new();
                core::mem::swap(self, &mut taken);
                let MessagesMap {
                    mut event_uuids,
                    mut message_list,
                    room_uuids,
                    room_list,
                    mut room_event_links,
                } = taken;
                event_uuids.insert(event_id.clone(), fresh);
                let record = UUIDEventMapType { event_id, uuid: fresh, event_type, event_properties };
                proof {
                    lemma_views_push(message_list@, record);
                }
                message_list.push(record);
                put(&mut room_event_links, fresh, room_uuid);
                *self = MessagesMap {
                    event_uuids,
                    message_list,
                    room_uuids,
                    room_list,
                    room_event_links,
                };
                fresh
            },
        }
    }

    /// Gives the internal id of the room `room_id`. A room seen before keeps
    /// its id, and what is stored of it stays as it is; a new room gets a
    /// random id and is kept last with `room_properties`.
    pub fn insert_room(&mut self, room_id: String, room_properties: RoomProperties) -> (uuid:
        RoomUuid)
        ensures
            final(self)@ == old(self)@.with_room(room_id@, room_properties@, uuid),
            final(self)@.wf(),
            keeps_seen(old(self)@, final(self)@),
            old(self)@.linked() ==> final(self)@.linked(),
            final(self)@.knows_room(room_id@),
            final(self)@.has_room_uuid(uuid),
            uuid == final(self)@.room_uuid(room_id@),
            old(self)@.knows_room(room_id@) ==> uuid == old(self)@.room_uuid(room_id@),
            !old(self)@.knows_room(room_id@) ==> is_random_uuid(uuid),
            mints_random(old(self)@, final(self)@),
    {
        match self.find_room(room_id.as_str()) {
            Some(uuid) => {
                proof {
                    use_type_invariant(&*self);
                    self@.lemma_with_room(room_id@, room_properties@, uuid);
                    assert(self@.rooms[self@.room_index(room_id@)] == self@.room(room_id@));
                }
                uuid
            },
            None => {
                let fresh = mint_uuid();
                proof {
                    use_type_invariant(&*self);
                    lemma_rooms_index_insert(self@, room_id@, room_properties@, fresh);
                    let after = self@.with_room(room_id@, room_properties@, fresh);
                    assert forall|known: Seq<char>| #[trigger]
                        after.knows_room(known) && !self@.knows_room(known) implies is_random_uuid(
                        after.room_uuid(known),
                    ) by {
                        assert(after.rooms_index().dom().contains(known));
                        assert(!self@.rooms_index().dom().contains(known));
                    }
                }
                self.insert_room_with(room_id, room_properties, fresh)
            },
        }
    }

    /// Gives the internal id of the event `event_id`. An event seen before
    /// keeps its id, and what is stored of it stays as it is; a new event
    /// gets a random id, is kept last with its type and properties, and is
    /// linked to the room `room_uuid`.
    pub fn insert_event(
        &mut self,
        event_id: String,
        room_uuid: RoomUuid,
        event_type: Identifier,
        event_properties: EventProperties,
    ) -> (uuid: EventUuid)
        ensures
            final(self)@ == old(self)@.with_event(
                event_id@,
                room_uuid,
                event_type@,
                event_properties@,
                uuid,
            ),
            final(self)@.wf(),
            keeps_seen(old(self)@, final(self)@),
            old(self)@.linked() && old(self)@.has_room_uuid(room_uuid) ==> final(self)@.linked(),
            final(self)@.knows_event(event_id@),
            uuid == final(self)@.event_uuid(event_id@),
            old(self)@.knows_event(event_id@) ==> uuid == old(self)@.event_uuid(event_id@),
            !old(self)@.knows_event(event_id@) ==> is_random_uuid(uuid),
            mints_random(old(self)@, final(self)@),
    {
        match self.find_event(event_id.as_str()) {
            Some(uuid) => {
                proof {
                    use_type_invariant(&*self);
                    self@.lemma_with_event(
                        event_id@,
                        room_uuid,
                        event_type@,
                        event_properties@,
                        uuid,
                    );
                }
                uuid
            },
            None => {
                let fresh = mint_uuid();
                proof {
                    use_type_invariant(&*self);
                    lemma_events_index_insert(
                        self@,
                        event_id@,
                        room_uuid,
                        event_type@,
                        event_properties@,
                        fresh,
                    );
                    let after = self@.with_event(
                        event_id@,
                        room_uuid,
                        event_type@,
                        event_properties@,
                        fresh,
                    );
                    assert forall|known: Seq<char>| #[trigger]
                        after.knows_event(known) && !self@.knows_event(known) implies is_random_uuid(
                        after.event_uuid(known),
                    ) by {
                        assert(after.events_index().dom().contains(known));
                        assert(!self@.events_index().dom().contains(known));
                    }
                }
                self.insert_event_with(event_id, room_uuid, event_type, event_properties, fresh)
            },
        }
    }
}

/// An external room id maps to one internal id: whatever a room is offered
/// with the second time, it is known after the first offer, the second offer
/// changes nothing, and both offers give the same internal id.
pub proof fn lemma_room_mapping_idempotent(
    seen: MessagesView,
    room_id: Seq<char>,
    first: RoomPropertiesView,
    first_fresh: RoomUuid,
    second: RoomPropertiesView,
    second_fresh: RoomUuid,
)
    ensures
        ({
            let once = seen.with_room(room_id, first, first_fresh);
            let twice = once.with_room(room_id, second, second_fresh);
            &&& once.knows_room(room_id)
            &&& twice == once
            &&& twice.room_uuid(room_id) == once.room_uuid(room_id)
        }),
{
    seen.lemma_with_room(room_id, first, first_fresh);
}

/// An external event id maps to one internal id: whatever an event is
/// offered with the second time, it is known after the first offer, the
/// second offer changes nothing, and both offers give the same internal id.
pub proof fn lemma_event_mapping_idempotent(
    seen: MessagesView,
    event_id: Seq<char>,
    first_room: RoomUuid,
    first_type: Seq<char>,
    first: EventPropertiesView,
    first_fresh: EventUuid,
    second_room: RoomUuid,
    second_type: Seq<char>,
    second: EventPropertiesView,
    second_fresh: EventUuid,
)
    ensures
        ({
            let once = seen.with_event(event_id, first_room, first_type, first, first_fresh);
            let twice = once.with_event(event_id, second_room, second_type, second, second_fresh);
            &&& once.knows_event(event_id)
            &&& twice == once
            &&& twice.event_uuid(event_id) == once.event_uuid(event_id)
        }),
{
    seen.lemma_with_event(event_id, first_room, first_type, first, first_fresh);
}

/// The first properties of a room win: a room that is new when it is offered
/// with `first` is kept with `first`, also after it was offered again with
/// other properties.
pub proof fn lemma_first_room_properties_win(
    seen: MessagesView,
    room_id: Seq<char>,
    first: RoomPropertiesView,
    first_fresh: RoomUuid,
    second: RoomPropertiesView,
    second_fresh: RoomUuid,
)
    requires
        !seen.knows_room(room_id),
    ensures
        ({
            let once = seen.with_room(room_id, first, first_fresh);
            let twice = once.with_room(room_id, second, second_fresh);
            &&& twice.rooms == once.rooms
            &&& twice.room(room_id).room_id == room_id
            &&& twice.room(room_id).room_properties == first
        }),
{
    seen.lemma_with_room(room_id, first, first_fresh);
    lemma_room_mapping_idempotent(seen, room_id, first, first_fresh, second, second_fresh);
}

/// The first properties of an event win: an event that is new when it is
/// offered with `first` is kept with `first`, also after it was offered again
/// with other properties.
pub proof fn lemma_first_event_properties_win(
    seen: MessagesView,
    event_id: Seq<char>,
    first_room: RoomUuid,
    first_type: Seq<char>,
    first: EventPropertiesView,
    first_fresh: EventUuid,
    second_room: RoomUuid,
    second_type: Seq<char>,
    second: EventPropertiesView,
    second_fresh: EventUuid,
)
    requires
        !seen.knows_event(event_id),
    ensures
        ({
            let once = seen.with_event(event_id, first_room, first_type, first, first_fresh);
            let twice = once.with_event(event_id, second_room, second_type, second, second_fresh);
            &&& twice.events == once.events
            &&& twice.links == once.links
            &&& twice.event(event_id).event_id == event_id
            &&& twice.event(event_id).event_properties == first
        }),
{
    seen.lemma_with_event(event_id, first_room, first_type, first, first_fresh);
    lemma_event_mapping_idempotent(
        seen,
        event_id,
        first_room,
        first_type,
        first,
        first_fresh,
        second_room,
        second_type,
        second,
        second_fresh,
    );
}

} // verus!
