//! The links from events to their rooms: pairs of an event's id and a
//! room's id, kept in ascending order of the events' ids, no event twice.

use crate::ids::{EventUuid, RoomUuid};
use vstd::prelude::*;

verus! {

/// Whether the links are in ascending order of their events' ids, no event
/// twice.
pub open spec fn links_sorted(links: Seq<(EventUuid, RoomUuid)>) -> bool {
    forall|i: int, j: int| 0 <= i < j < links.len() ==> links[i].0 < links[j].0
}

/// The number of links whose event's id is below `event`.
pub open spec fn link_rank(links: Seq<(EventUuid, RoomUuid)>, event: EventUuid) -> int
    decreases links.len(),
{
    if links.len() == 0 {
        0
    } else {
        link_rank(links.drop_last(), event) + if links.last().0 < event {
            1int
        } else {
            0int
        }
    }
}

/// The links with `event` linked to `room`: in place of the link that `event`
/// had, or else at the place that keeps the links in order.
pub open spec fn put_link(links: Seq<(EventUuid, RoomUuid)>, event: EventUuid, room: RoomUuid) -> Seq<
    (EventUuid, RoomUuid),
> {
    let at = link_rank(links, event);
    if at < links.len() && links[at].0 == event {
        links.update(at, (event, room))
    } else {
        links.insert(at, (event, room))
    }
}

/// In sorted links, the rank of `event` is the first place whose event's id
/// is not below it.
pub proof fn lemma_link_rank(links: Seq<(EventUuid, RoomUuid)>, event: EventUuid, at: int)
    requires
        links_sorted(links),
        0 <= at <= links.len(),
        forall|j: int| 0 <= j < at ==> (#[trigger] links[j]).0 < event,
        at < links.len() ==> links[at].0 >= event,
    ensures
        link_rank(links, event) == at,
    decreases links.len(),
{
    if links.len() > 0 {
        let front = links.drop_last();
        if at == links.len() {
            lemma_link_rank(front, event, at - 1);
        } else {
            lemma_link_rank(front, event, at);
        }
    }
}

/// Putting a link into sorted links leaves them sorted.
pub proof fn lemma_put_link_sorted(
    links: Seq<(EventUuid, RoomUuid)>,
    event: EventUuid,
    room: RoomUuid,
)
    requires
        links_sorted(links),
    ensures
        links_sorted(put_link(links, event, room)),
{
    let at = link_rank(links, event);
    lemma_link_rank_bounds(links, event);
    let after = put_link(links, event, room);
    assert forall|i: int, j: int| 0 <= i < j < after.len() implies after[i].0 < after[j].0 by {
        if at < links.len() && links[at].0 == event {
        } else {
            if j < at {
            } else if i < at && j == at {
            } else if i < at {
                assert(after[j] == links[j - 1]);
            } else if i == at {
                assert(after[j] == links[j - 1]);
            } else {
                assert(after[i] == links[i - 1]);
                assert(after[j] == links[j - 1]);
            }
        }
    }
}

/// In sorted links, the links before the rank of `event` are below it and
/// those from the rank on are not.
pub proof fn lemma_link_rank_bounds(links: Seq<(EventUuid, RoomUuid)>, event: EventUuid)
    requires
        links_sorted(links),
    ensures
        0 <= link_rank(links, event) <= links.len(),
        forall|j: int| 0 <= j < link_rank(links, event) ==> (#[trigger] links[j]).0 < event,
        forall|j: int|
            link_rank(links, event) <= j < links.len() ==> (#[trigger] links[j]).0 >= event,
    decreases links.len(),
{
    if links.len() > 0 {
        let front = links.drop_last();
        lemma_link_rank_bounds(front, event);
        let r = link_rank(front, event);
        if links.last().0 < event {
            if r < front.len() {
                assert(front[r].0 >= event);
                assert(links[r].0 < links[links.len() - 1].0);
            }
            assert forall|j: int| 0 <= j < r + 1 implies (#[trigger] links[j]).0 < event by {
                if j < front.len() {
                    assert(links[j] == front[j]);
                }
            }
        } else {
            assert forall|j: int| r <= j < links.len() implies (#[trigger] links[j]).0
                >= event by {
                if j < front.len() {
                    assert(links[j] == front[j]);
                }
            }
            assert forall|j: int| 0 <= j < r implies (#[trigger] links[j]).0 < event by {
                assert(links[j] == front[j]);
            }
        }
    }
}

/// Every link after a link was put is that link or one of the links before.
pub proof fn lemma_put_link_members(
    links: Seq<(EventUuid, RoomUuid)>,
    event: EventUuid,
    room: RoomUuid,
)
    requires
        links_sorted(links),
    ensures
        forall|i: int|
            0 <= i < put_link(links, event, room).len() ==> (#[trigger] put_link(
                links,
                event,
                room,
            )[i]) == (event, room) || links.contains(put_link(links, event, room)[i]),
{
    lemma_link_rank_bounds(links, event);
    let at = link_rank(links, event);
    let after = put_link(links, event, room);
    assert forall|i: int| 0 <= i < after.len() implies (#[trigger] after[i]) == (event, room)
        || links.contains(after[i]) by {
        if at < links.len() && links[at].0 == event {
            if i != at {
                assert(after[i] == links[i]);
            }
        } else {
            if i < at {
                assert(after[i] == links[i]);
            } else if i > at {
                assert(after[i] == links[i - 1]);
            }
        }
    }
}

/// The room that each linked event is linked to.
pub open spec fn links_map(links: Seq<(EventUuid, RoomUuid)>) -> Map<EventUuid, RoomUuid> {
    Map::new(
        |event: EventUuid| exists|i: int| 0 <= i < links.len() && (#[trigger] links[i]).0 == event,
        |event: EventUuid|
            links[choose|i: int| 0 <= i < links.len() && (#[trigger] links[i]).0 == event].1,
    )
}

/// Putting a link is an insertion into the map from events to rooms: the
/// event is linked to the room, whatever it was linked to before, and every
/// other event is linked as it was.
pub proof fn lemma_put_link_map(links: Seq<(EventUuid, RoomUuid)>, event: EventUuid, room: RoomUuid)
    requires
        links_sorted(links),
    ensures
        links_map(put_link(links, event, room)) == links_map(links).insert(event, room),
{
    let after = put_link(links, event, room);
    let at = link_rank(links, event);
    lemma_link_rank_bounds(links, event);
    lemma_put_link_sorted(links, event, room);
    lemma_put_link_members(links, event, room);
    assert(after[at] == (event, room));
    assert forall|key: EventUuid| #[trigger]
        links_map(after).dom().contains(key) <==> links_map(links).insert(
            event,
            room,
        ).dom().contains(key) by {
        if links_map(after).dom().contains(key) && key != event {
            let i = choose|i: int| 0 <= i < after.len() && (#[trigger] after[i]).0 == key;
            assert(links.contains(after[i]));
            let j = choose|j: int| 0 <= j < links.len() && links[j] == after[i];
            assert(links[j].0 == key);
        }
        if links_map(links).dom().contains(key) && key != event {
            let j = choose|j: int| 0 <= j < links.len() && (#[trigger] links[j]).0 == key;
            if at < links.len() && links[at].0 == event {
                assert(after[j] == links[j]);
            } else if j < at {
                assert(after[j] == links[j]);
            } else {
                assert(after[j + 1] == links[j]);
            }
        }
    }
    assert forall|key: EventUuid| #[trigger]
        links_map(after).dom().contains(key) implies links_map(after)[key] == links_map(
        links,
    ).insert(event, room)[key] by {
        let i = choose|i: int| 0 <= i < after.len() && (#[trigger] after[i]).0 == key;
        if key == event {
            if i < at {
                assert(after[i].0 < after[at].0);
            } else if i > at {
                assert(after[at].0 < after[i].0);
            }
        } else {
            assert(links.contains(after[i]));
            let j = choose|j: int| 0 <= j < links.len() && links[j] == after[i];
            let found = choose|j: int| 0 <= j < links.len() && (#[trigger] links[j]).0 == key;
            assert(links[j].0 == key);
            if found < j {
                assert(links[found].0 < links[j].0);
            } else if found > j {
                assert(links[j].0 < links[found].0);
            }
        }
    }
    assert(links_map(after) =~= links_map(links).insert(event, room));
}

/// Links `event` to `room`, in place of the link that `event` had or at
/// the place that keeps the links in order.
pub(crate) fn put(links: &mut Vec<(EventUuid, RoomUuid)>, event: EventUuid, room: RoomUuid)
    requires
        links_sorted(old(links)@),
    ensures
        final(links)@ == put_link(old(links)@, event, room),
        links_sorted(final(links)@),
{
    let mut at: usize = 0;
    while at < links.len() && links[at].0 < event
        invariant
            0 <= at <= links.len(),
            forall|j: int| 0 <= j < at ==> (#[trigger] links@[j]).0 < event,
        decreases links.len() - at,
    {
        at += 1;
    }
    proof {
        lemma_link_rank(links@, event, at as int);
        lemma_put_link_sorted(links@, event, room);
    }
    if at < links.len() && links[at].0 == event {
        links[at] = (event, room);
    } else {
        links.insert(at, (event, room));
    }
}

} // verus!
