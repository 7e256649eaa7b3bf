//! Everything seen so far as mutation items: the rooms, then the events,
//! each with its vertex first, then the edges from events to rooms.

use crate::entities::{encode_link, link_item, EventView, RoomView};
use crate::identifier::IdentifierError;
use crate::ids::{EventUuid, RoomUuid};
use crate::items::{
    edges_follow_ends, edges_follow_vertices, lemma_blocks_add, lemma_properties_among_add,
    no_edges, properties_among, properties_follow_vertices, BulkInsertItem, ItemView,
};
use crate::messages::{MessagesMap, MessagesView};
use crate::schema::{
    indexed_property_names, standard_identifiers, Identifiers, IdentifiersView,
};
use crate::text::{lemma_views_add, lemma_views_push, views};
use vstd::prelude::*;

verus! {

/// The items that stand for `rooms`, room after room.
pub open spec fn rooms_items(rooms: Seq<RoomView>, names: IdentifiersView) -> Seq<ItemView>
    decreases rooms.len(),
{
    if rooms.len() == 0 {
        Seq::empty()
    } else {
        rooms_items(rooms.drop_last(), names) + rooms.last().items(names)
    }
}

/// The items that stand for `events`, event after event.
pub open spec fn events_items(events: Seq<EventView>, names: IdentifiersView) -> Seq<ItemView>
    decreases events.len(),
{
    if events.len() == 0 {
        Seq::empty()
    } else {
        events_items(events.drop_last(), names) + events.last().items(names)
    }
}

/// The items that stand for `links`, one edge for each.
pub open spec fn links_items(links: Seq<(EventUuid, RoomUuid)>, names: IdentifiersView) -> Seq<
    ItemView,
> {
    Seq::new(links.len(), |i: int| link_item(names, links[i].0, links[i].1))
}

/// The items that stand for everything seen: the rooms in the order in which
/// they were first seen, then the events in that order, then the links in
/// ascending order of their events' ids.
pub open spec fn pending_items(seen: MessagesView, names: IdentifiersView) -> Seq<ItemView> {
    rooms_items(seen.rooms, names) + events_items(seen.events, names) + links_items(
        seen.links,
        names,
    )
}

/// The items of a room hold no edge, and each of its properties follows its
/// vertex.
pub proof fn lemma_room_items_order(room: RoomView, names: IdentifiersView)
    ensures
        properties_follow_vertices(room.items(names)),
        no_edges(room.items(names)),
{
    let items = room.items(names);
    assert(items[0].created_vertex() == Some(room.uuid));
    assert forall|k: int|
        0 <= k < items.len() && (#[trigger] items[k]).property_vertex() is Some implies exists|j: int|
        0 <= j < k && (#[trigger] items[j]).created_vertex() == items[k].property_vertex() by {
        assert(items[0].created_vertex() == items[k].property_vertex());
    }
}

/// The items of an event hold no edge, and each of its properties follows
/// its vertex.
pub proof fn lemma_event_items_order(event: EventView, names: IdentifiersView)
    ensures
        properties_follow_vertices(event.items(names)),
        no_edges(event.items(names)),
{
    let items = event.items(names);
    assert(items[0].created_vertex() == Some(event.uuid));
    assert forall|k: int|
        0 <= k < items.len() && (#[trigger] items[k]).property_vertex() is Some implies exists|j: int|
        0 <= j < k && (#[trigger] items[j]).created_vertex() == items[k].property_vertex() by {
        assert(items[0].created_vertex() == items[k].property_vertex());
    }
}

/// The items of rooms hold no edge, and each property follows its vertex.
pub proof fn lemma_rooms_items_order(rooms: Seq<RoomView>, names: IdentifiersView)
    ensures
        properties_follow_vertices(rooms_items(rooms, names)),
        no_edges(rooms_items(rooms, names)),
    decreases rooms.len(),
{
    if rooms.len() > 0 {
        lemma_rooms_items_order(rooms.drop_last(), names);
        lemma_room_items_order(rooms.last(), names);
        lemma_blocks_add(rooms_items(rooms.drop_last(), names), rooms.last().items(names));
    }
}

/// The items of events hold no edge, and each property follows its vertex.
pub proof fn lemma_events_items_order(events: Seq<EventView>, names: IdentifiersView)
    ensures
        properties_follow_vertices(events_items(events, names)),
        no_edges(events_items(events, names)),
    decreases events.len(),
{
    if events.len() > 0 {
        lemma_events_items_order(events.drop_last(), names);
        lemma_event_items_order(events.last(), names);
        lemma_blocks_add(events_items(events.drop_last(), names), events.last().items(names));
    }
}

/// Among the items of rooms is one that creates the vertex of each room.
pub proof fn lemma_rooms_items_create(rooms: Seq<RoomView>, names: IdentifiersView, at: int)
    requires
        0 <= at < rooms.len(),
    ensures
        exists|j: int|
            0 <= j < rooms_items(rooms, names).len() && (#[trigger] rooms_items(
                rooms,
                names,
            )[j]).created_vertex() == Some(rooms[at].uuid),
    decreases rooms.len(),
{
    let front = rooms_items(rooms.drop_last(), names);
    let block = rooms.last().items(names);
    let all = rooms_items(rooms, names);
    if at == rooms.len() - 1 {
        assert(block[0].created_vertex() == Some(rooms[at].uuid));
        assert(all[front.len() as int] == block[0]);
    } else {
        lemma_rooms_items_create(rooms.drop_last(), names, at);
        let j = choose|j: int|
            0 <= j < front.len() && (#[trigger] front[j]).created_vertex() == Some(
                rooms.drop_last()[at].uuid,
            );
        assert(all[j] == front[j]);
    }
}

/// Among the items of events is one that creates the vertex of each event.
pub proof fn lemma_events_items_create(events: Seq<EventView>, names: IdentifiersView, at: int)
    requires
        0 <= at < events.len(),
    ensures
        exists|j: int|
            0 <= j < events_items(events, names).len() && (#[trigger] events_items(
                events,
                names,
            )[j]).created_vertex() == Some(events[at].uuid),
    decreases events.len(),
{
    let front = events_items(events.drop_last(), names);
    let block = events.last().items(names);
    let all = events_items(events, names);
    if at == events.len() - 1 {
        assert(block[0].created_vertex() == Some(events[at].uuid));
        assert(all[front.len() as int] == block[0]);
    } else {
        lemma_events_items_create(events.drop_last(), names, at);
        let j = choose|j: int|
            0 <= j < front.len() && (#[trigger] front[j]).created_vertex() == Some(
                events.drop_last()[at].uuid,
            );
        assert(all[j] == front[j]);
    }
}

/// Where every link leads from an event that is kept to a room that is kept,
/// every edge among the items that stand for everything seen comes after the
/// items that create the two vertices it joins.
pub proof fn lemma_pending_edges_attached(seen: MessagesView, names: IdentifiersView)
    requires
        seen.linked(),
    ensures
        edges_follow_ends(pending_items(seen, names)),
{
    let rooms = rooms_items(seen.rooms, names);
    let events = events_items(seen.events, names);
    let links = links_items(seen.links, names);
    let vertices = rooms + events;
    let all = pending_items(seen, names);
    lemma_rooms_items_order(seen.rooms, names);
    lemma_events_items_order(seen.events, names);
    lemma_blocks_add(rooms, events);
    assert forall|k: int| 0 <= k < all.len() && (#[trigger] all[k]) is Edge implies {
        &&& exists|j: int|
            0 <= j < k && (#[trigger] all[j]).created_vertex() == Some(all[k]->outbound_id)
        &&& exists|j: int|
            0 <= j < k && (#[trigger] all[j]).created_vertex() == Some(all[k]->inbound_id)
    } by {
        if k < vertices.len() {
            assert(all[k] == vertices[k]);
        }
        let l = k - vertices.len();
        assert(all[k] == links[l]);
        let link = seen.links[l];
        assert(seen.has_event_uuid(link.0) && seen.has_room_uuid(link.1));
        let e = choose|i: int| 0 <= i < seen.events.len() && (#[trigger] seen.events[i]).uuid == link.0;
        lemma_events_items_create(seen.events, names, e);
        let je = choose|j: int|
            0 <= j < events.len() && (#[trigger] events[j]).created_vertex() == Some(
                seen.events[e].uuid,
            );
        assert(all[rooms.len() + je] == events[je]);
        let r = choose|i: int| 0 <= i < seen.rooms.len() && (#[trigger] seen.rooms[i]).uuid == link.1;
        lemma_rooms_items_create(seen.rooms, names, r);
        let jr = choose|j: int|
            0 <= j < rooms.len() && (#[trigger] rooms[j]).created_vertex() == Some(
                seen.rooms[r].uuid,
            );
        assert(all[jr] == rooms[jr]);
    }
}

/// Creation comes before attachment: among the items that stand for
/// everything seen, every property follows the item that creates its vertex,
/// and every edge follows every item that creates a vertex.
pub proof fn lemma_pending_items_order(seen: MessagesView, names: IdentifiersView)
    ensures
        properties_follow_vertices(pending_items(seen, names)),
        edges_follow_vertices(pending_items(seen, names)),
{
    let rooms = rooms_items(seen.rooms, names);
    let events = events_items(seen.events, names);
    let links = links_items(seen.links, names);
    lemma_rooms_items_order(seen.rooms, names);
    lemma_events_items_order(seen.events, names);
    lemma_blocks_add(rooms, events);
    let vertices = rooms + events;
    assert(properties_follow_vertices(links));
    lemma_blocks_add(vertices, links);
    let all = pending_items(seen, names);
    assert forall|j: int, k: int|
        0 <= j < all.len() && 0 <= k < all.len() && (#[trigger] all[j]) is Vertex && (
        #[trigger] all[k]) is Edge implies j < k by {
        if k < vertices.len() {
            assert(all[k] == vertices[k]);
        }
        if j >= vertices.len() {
            assert(all[j] == links[j - vertices.len()]);
        }
    }
}

/// Each of the names that the store is asked to index is among them.
proof fn lemma_indexed_names()
    ensures
        indexed_property_names().contains("room_id"@),
        indexed_property_names().contains("room_name"@),
        indexed_property_names().contains("room_topic"@),
        indexed_property_names().contains("event_id"@),
        indexed_property_names().contains("text_message_body"@),
        indexed_property_names().contains("text_message_format"@),
        indexed_property_names().contains("text_message_formatted_body"@),
{
    let names = indexed_property_names();
    assert(names[0] == "room_id"@);
    assert(names[1] == "room_name"@);
    assert(names[2] == "room_topic"@);
    assert(names[3] == "event_id"@);
    assert(names[4] == "text_message_body"@);
    assert(names[5] == "text_message_format"@);
    assert(names[6] == "text_message_formatted_body"@);
}

/// The properties of rooms, under the names that the indexer uses, are among
/// those that the store is asked to index.
pub proof fn lemma_rooms_properties_indexed(rooms: Seq<RoomView>)
    ensures
        properties_among(rooms_items(rooms, standard_identifiers()), indexed_property_names()),
    decreases rooms.len(),
{
    if rooms.len() > 0 {
        lemma_rooms_properties_indexed(rooms.drop_last());
        lemma_indexed_names();
        let block = rooms.last().items(standard_identifiers());
        assert(properties_among(block, indexed_property_names()));
        lemma_properties_among_add(
            rooms_items(rooms.drop_last(), standard_identifiers()),
            block,
            indexed_property_names(),
        );
    }
}

/// The properties of events, under the names that the indexer uses, are
/// among those that the store is asked to index.
pub proof fn lemma_events_properties_indexed(events: Seq<EventView>)
    ensures
        properties_among(events_items(events, standard_identifiers()), indexed_property_names()),
    decreases events.len(),
{
    if events.len() > 0 {
        lemma_events_properties_indexed(events.drop_last());
        lemma_indexed_names();
        let block = events.last().items(standard_identifiers());
        assert(properties_among(block, indexed_property_names()));
        lemma_properties_among_add(
            events_items(events.drop_last(), standard_identifiers()),
            block,
            indexed_property_names(),
        );
    }
}

/// Only registered properties are used: under the names that the indexer
/// uses, every property among the items that stand for everything seen is
/// one that the store is asked to index at startup.
pub proof fn lemma_pending_properties_indexed(seen: MessagesView)
    ensures
        properties_among(pending_items(seen, standard_identifiers()), indexed_property_names()),
{
    let names = standard_identifiers();
    lemma_rooms_properties_indexed(seen.rooms);
    lemma_events_properties_indexed(seen.events);
    lemma_properties_among_add(
        rooms_items(seen.rooms, names),
        events_items(seen.events, names),
        indexed_property_names(),
    );
    lemma_properties_among_add(
        rooms_items(seen.rooms, names) + events_items(seen.events, names),
        links_items(seen.links, names),
        indexed_property_names(),
    );
}

/// Encodes everything seen so far, not only what is new since the last
/// round: each room and each event with its vertex first, and the edges
/// after all of them. The store accepts the names used, so this never fails.
pub fn encode_pending(map: &MessagesMap, names: &Identifiers) -> (made: Result<
    Vec<BulkInsertItem>,
    IdentifierError,
>)
    ensures
        made is Ok,
        views(made.unwrap()@) == pending_items(map@, names@),
{
    let mut made: Vec<BulkInsertItem> = Vec::new();
    let rooms = map.room_list();
    let mut i: usize = 0;
    proof {
        assert(views(rooms@).take(0) =~= Seq::empty());
        assert(views(made@) =~= Seq::empty());
    }
    while i < rooms.len()
        invariant
            0 <= i <= rooms.len(),
            views(made@) == rooms_items(views(rooms@).take(i as int), names@),
        decreases rooms.len() - i,
    {
        let mut block = rooms[i].encode(names);
        proof {
            let prefix = views(rooms@).take(i as int + 1);
            assert(prefix.drop_last() =~= views(rooms@).take(i as int));
            assert(prefix.last() == rooms@[i as int]@);
            lemma_views_add(made@, block@);
        }
        made.append(&mut block);
        i += 1;
    }
    proof {
        assert(views(rooms@).take(rooms.len() as int) =~= views(rooms@));
    }
    let ghost room_part = made@;
    let events = map.message_list();
    let mut i: usize = 0;
    proof {
        assert(views(events@).take(0) =~= Seq::empty());
        assert(views(made@) =~= views(room_part) + Seq::empty());
    }
    while i < events.len()
        invariant
            0 <= i <= events.len(),
            views(made@) == views(room_part) + events_items(
                views(events@).take(i as int),
                names@,
            ),
        decreases events.len() - i,
    {
        let mut block = events[i].encode(names)?;
        proof {
            let prefix = views(events@).take(i as int + 1);
            assert(prefix.drop_last() =~= views(events@).take(i as int));
            assert(prefix.last() == events@[i as int]@);
            lemma_views_add(made@, block@);
            let so_far = events_items(views(events@).take(i as int), names@);
            assert((views(room_part) + so_far) + views(block@) =~= views(room_part) + (so_far
                + views(block@)));
        }
        made.append(&mut block);
        i += 1;
    }
    proof {
        assert(views(events@).take(events.len() as int) =~= views(events@));
    }
    let ghost vertex_part = made@;
    let links = map.room_event_links();
    let mut i: usize = 0;
    proof {
        assert(views(made@) =~= views(vertex_part) + links_items(links@.take(0), names@));
    }
    while i < links.len()
        invariant
            0 <= i <= links.len(),
            views(made@) == views(vertex_part) + links_items(links@.take(i as int), names@),
        decreases links.len() - i,
    {
        let edge = encode_link(names, links[i].0, links[i].1);
        proof {
            lemma_views_push(made@, edge);
            assert(views(vertex_part) + links_items(links@.take(i as int + 1), names@) =~= (views(
                vertex_part,
            ) + links_items(links@.take(i as int), names@)).push(edge@));
        }
        made.push(edge);
        i += 1;
    }
    proof {
        assert(links@.take(links.len() as int) =~= links@);
    }
    Ok(made)
}

} // verus!
