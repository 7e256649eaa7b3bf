//! One round of indexing: the rooms and events of a sync batch are given
//! their internal ids, and everything seen so far is encoded and handed to
//! the write path.

use crate::entities::{EventProperties, EventPropertiesView, RoomProperties, RoomPropertiesView};
use crate::identifier::IdentifierError;
use crate::ids::{EventUuid, RoomUuid};
use crate::inserter::{ActionView, BulkInserter, InserterView, PipelineAction};
use crate::items::ItemView;
use crate::messages::{
    keeps_seen, lemma_mints_random_chain, mints_random, MessagesMap, MessagesView,
};
use crate::pending::{encode_pending, pending_items};
use crate::schema::{Identifiers, IdentifiersView};
use crate::text::{lemma_views_add, views};
use vstd::prelude::*;

verus! {

/// The formatted form of a message.
pub struct FormattedBody {
    pub format: String,
    pub body: String,
}

/// What a text or notice message says.
pub struct MessageContent {
    pub body: String,
    pub formatted: Option<FormattedBody>,
}

impl MessageContent {
    /// What is stored of a message with this content: its body, and the
    /// format and the formatted body where it has a formatted form.
    pub open spec fn properties(self) -> EventPropertiesView {
        match self.formatted {
            Some(formatted) => EventPropertiesView::TextMessage(
                self.body@,
                Some(formatted.format@),
                Some(formatted.body@),
            ),
            None => EventPropertiesView::TextMessage(self.body@, None, None),
        }
    }

    /// What is stored of a message with this content.
    pub fn to_properties(&self) -> (made: EventProperties)
        ensures
            made@ == self.properties(),
    {
        match &self.formatted {
            Some(formatted) => EventProperties::TextMessage(
                self.body.clone(),
                Some(formatted.format.clone()),
                Some(formatted.body.clone()),
            ),
            None => EventProperties::TextMessage(self.body.clone(), None, None),
        }
    }
}

/// An event of a room's timeline, as far as indexing looks at it.
pub enum TimelineEvent {
    /// The event could not be decoded.
    Undecodable,
    /// A text message.
    TextMessage { event_id: String, content: MessageContent },
    /// A notice.
    NoticeMessage { event_id: String, content: MessageContent },
    /// A room message of another kind, or one that was redacted.
    OtherRoomMessage,
    /// Another message-like event, such as a reaction.
    OtherMessageLike,
    /// A state event.
    State,
}

/// What is indexed of an event.
pub struct EventOffer {
    pub event_id: Seq<char>,
    pub event_type: Seq<char>,
    pub properties: EventPropertiesView,
}

impl TimelineEvent {
    /// What is indexed of the event: text messages and notices are, each
    /// under its own type; every other event is passed over.
    pub open spec fn offer(self, names: IdentifiersView) -> Option<EventOffer> {
        match self {
            TimelineEvent::TextMessage { event_id, content } => Some(
                EventOffer {
                    event_id: event_id@,
                    event_type: names.text_message_event_type,
                    properties: content.properties(),
                },
            ),
            TimelineEvent::NoticeMessage { event_id, content } => Some(
                EventOffer {
                    event_id: event_id@,
                    event_type: names.notice_message_event_type,
                    properties: content.properties(),
                },
            ),
            _ => None,
        }
    }
}

/// The state after `event` of the room `room` was looked at, where
/// `assigned` is the internal id that the event has from then on.
pub open spec fn event_step(
    seen: MessagesView,
    names: IdentifiersView,
    room: RoomUuid,
    event: TimelineEvent,
    assigned: Option<EventUuid>,
) -> MessagesView {
    match (event.offer(names), assigned) {
        (Some(offer), Some(uuid)) => seen.with_event(
            offer.event_id,
            room,
            offer.event_type,
            offer.properties,
            uuid,
        ),
        _ => seen,
    }
}

/// Whether `assigned` is what `seen` holds of `event`: the internal id of an
/// indexed event, and nothing for an event that is passed over.
pub open spec fn event_assigned(
    seen: MessagesView,
    names: IdentifiersView,
    event: TimelineEvent,
    assigned: Option<EventUuid>,
) -> bool {
    match event.offer(names) {
        Some(offer) => seen.knows_event(offer.event_id) && assigned == Some(
            seen.event_uuid(offer.event_id),
        ),
        None => assigned is None,
    }
}

/// The state after the events of the room `room` were looked at in order,
/// where `assigned` holds, for each of them, what it was assigned.
pub open spec fn events_step(
    seen: MessagesView,
    names: IdentifiersView,
    room: RoomUuid,
    events: Seq<TimelineEvent>,
    assigned: Seq<Option<EventUuid>>,
) -> MessagesView
    decreases events.len(),
{
    if events.len() == 0 || assigned.len() != events.len() {
        seen
    } else {
        event_step(
            events_step(seen, names, room, events.drop_last(), assigned.drop_last()),
            names,
            room,
            events.last(),
            assigned.last(),
        )
    }
}

/// What a sync batch holds of one joined room.
pub struct RoomUpdate {
    pub room_id: String,
    /// Name and topic of the room, where the chat client still knows the
    /// room as joined.
    pub joined: Option<RoomProperties>,
    /// The events of the room's timeline, oldest first.
    pub events: Vec<TimelineEvent>,
}

impl RoomUpdate {
    /// What is stored of the room if it is new: its name and topic as the
    /// chat client gave them, and neither where it gave none.
    pub open spec fn properties(self) -> RoomPropertiesView {
        match self.joined {
            Some(properties) => properties@,
            None => RoomPropertiesView { name: None, topic: None },
        }
    }

    /// What is stored of the room if it is new.
    pub fn to_properties(&self) -> (made: RoomProperties)
        ensures
            made@ == self.properties(),
    {
        match &self.joined {
            Some(properties) => properties.clone(),
            None => RoomProperties { name: None, topic: None },
        }
    }
}

/// The internal ids of one room of a sync batch and of its events.
pub struct RoomAssignment {
    pub room_uuid: RoomUuid,
    /// For each event of the room, in order: its internal id, or `None`
    /// where the event is not indexed.
    pub event_uuids: Vec<Option<EventUuid>>,
}

/// The state after the room of `update` and its events were looked at.
pub open spec fn room_step(
    seen: MessagesView,
    names: IdentifiersView,
    update: RoomUpdate,
    assignment: RoomAssignment,
) -> MessagesView {
    events_step(
        seen.with_room(update.room_id@, update.properties(), assignment.room_uuid),
        names,
        assignment.room_uuid,
        update.events@,
        assignment.event_uuids@,
    )
}

/// Whether `assignment` is what `seen` holds of the room of `update` and of
/// its events.
pub open spec fn room_assigned(
    seen: MessagesView,
    names: IdentifiersView,
    update: RoomUpdate,
    assignment: RoomAssignment,
) -> bool {
    &&& seen.knows_room(update.room_id@)
    &&& assignment.room_uuid == seen.room_uuid(update.room_id@)
    &&& assignment.event_uuids@.len() == update.events@.len()
    &&& forall|i: int|
        0 <= i < update.events@.len() ==> event_assigned(
            seen,
            names,
            #[trigger] update.events@[i],
            assignment.event_uuids@[i],
        )
}

/// The state after the rooms of `batch` were looked at in order.
pub open spec fn batch_step(
    seen: MessagesView,
    names: IdentifiersView,
    batch: Seq<RoomUpdate>,
    report: Seq<RoomAssignment>,
) -> MessagesView
    decreases batch.len(),
{
    if batch.len() == 0 || report.len() != batch.len() {
        seen
    } else {
        room_step(
            batch_step(seen, names, batch.drop_last(), report.drop_last()),
            names,
            batch.last(),
            report.last(),
        )
    }
}

/// What `seen` holds of an event stays what a state that keeps its ids
/// holds of it.
pub proof fn lemma_event_assigned_kept(
    before: MessagesView,
    after: MessagesView,
    names: IdentifiersView,
    event: TimelineEvent,
    assigned: Option<EventUuid>,
)
    requires
        keeps_seen(before, after),
        event_assigned(before, names, event, assigned),
    ensures
        event_assigned(after, names, event, assigned),
{
}

/// What `seen` holds of a room and its events stays what a state that keeps
/// its ids holds of them.
pub proof fn lemma_room_assigned_kept(
    before: MessagesView,
    after: MessagesView,
    names: IdentifiersView,
    update: RoomUpdate,
    assignment: RoomAssignment,
)
    requires
        keeps_seen(before, after),
        room_assigned(before, names, update, assignment),
    ensures
        room_assigned(after, names, update, assignment),
{
    assert forall|i: int| 0 <= i < update.events@.len() implies event_assigned(
        after,
        names,
        #[trigger] update.events@[i],
        assignment.event_uuids@[i],
    ) by {
        lemma_event_assigned_kept(
            before,
            after,
            names,
            update.events@[i],
            assignment.event_uuids@[i],
        );
    }
}

/// Keeping what was seen carries over two steps.
pub proof fn lemma_keeps_seen_chain(first: MessagesView, second: MessagesView, third: MessagesView)
    requires
        keeps_seen(first, second),
        keeps_seen(second, third),
    ensures
        keeps_seen(first, third),
{
}

/// An event that is not indexed does not disturb the events around it: the
/// state after a timeline is the state after the same timeline without that
/// event.
pub proof fn lemma_unindexed_event_skipped(
    seen: MessagesView,
    names: IdentifiersView,
    room: RoomUuid,
    earlier: Seq<TimelineEvent>,
    assigned_earlier: Seq<Option<EventUuid>>,
    event: TimelineEvent,
    later: Seq<TimelineEvent>,
    assigned_later: Seq<Option<EventUuid>>,
)
    requires
        event.offer(names) is None,
        assigned_earlier.len() == earlier.len(),
        assigned_later.len() == later.len(),
    ensures
        events_step(
            seen,
            names,
            room,
            earlier.push(event) + later,
            assigned_earlier.push(None) + assigned_later,
        ) == events_step(seen, names, room, earlier + later, assigned_earlier + assigned_later),
    decreases later.len(),
{
    let with_event = earlier.push(event) + later;
    let with_none = assigned_earlier.push(None::<EventUuid>) + assigned_later;
    let without = earlier + later;
    let assigned = assigned_earlier + assigned_later;
    if later.len() == 0 {
        assert(with_event.drop_last() =~= earlier);
        assert(with_none.drop_last() =~= assigned_earlier);
        assert(without =~= earlier);
        assert(assigned =~= assigned_earlier);
    } else {
        lemma_unindexed_event_skipped(
            seen,
            names,
            room,
            earlier,
            assigned_earlier,
            event,
            later.drop_last(),
            assigned_later.drop_last(),
        );
        assert(with_event.drop_last() =~= earlier.push(event) + later.drop_last());
        assert(with_none.drop_last() =~= assigned_earlier.push(None::<EventUuid>)
            + assigned_later.drop_last());
        assert(without.drop_last() =~= earlier + later.drop_last());
        assert(assigned.drop_last() =~= assigned_earlier + assigned_later.drop_last());
    }
}

/// Whether `seen` knows every event of `events` that is indexed.
pub open spec fn events_known(
    seen: MessagesView,
    names: IdentifiersView,
    events: Seq<TimelineEvent>,
) -> bool {
    forall|i: int|
        0 <= i < events.len() ==> match (#[trigger] events[i]).offer(names) {
            Some(offer) => seen.knows_event(offer.event_id),
            None => true,
        }
}

/// Whether `seen` knows every room of `batch` and every event of theirs that
/// is indexed.
pub open spec fn batch_known(
    seen: MessagesView,
    names: IdentifiersView,
    batch: Seq<RoomUpdate>,
) -> bool {
    forall|i: int|
        0 <= i < batch.len() ==> seen.knows_room((#[trigger] batch[i]).room_id@) && events_known(
            seen,
            names,
            batch[i].events@,
        )
}

/// Events that are known, or not indexed, change nothing.
pub proof fn lemma_known_events_change_nothing(
    seen: MessagesView,
    names: IdentifiersView,
    room: RoomUuid,
    events: Seq<TimelineEvent>,
    assigned: Seq<Option<EventUuid>>,
)
    requires
        events_known(seen, names, events),
    ensures
        events_step(seen, names, room, events, assigned) == seen,
    decreases events.len(),
{
    if events.len() > 0 && assigned.len() == events.len() {
        let front = events.drop_last();
        assert forall|i: int| 0 <= i < front.len() implies match (#[trigger] front[i]).offer(
            names,
        ) {
            Some(offer) => seen.knows_event(offer.event_id),
            None => true,
        } by {
            assert(front[i] == events[i]);
        }
        lemma_known_events_change_nothing(seen, names, room, front, assigned.drop_last());
        assert(events.last() == events[events.len() - 1]);
    }
}

/// A batch whose rooms and indexed events are all known changes nothing.
pub proof fn lemma_known_batch_changes_nothing(
    seen: MessagesView,
    names: IdentifiersView,
    batch: Seq<RoomUpdate>,
    report: Seq<RoomAssignment>,
)
    requires
        batch_known(seen, names, batch),
    ensures
        batch_step(seen, names, batch, report) == seen,
    decreases batch.len(),
{
    if batch.len() > 0 && report.len() == batch.len() {
        let front = batch.drop_last();
        assert forall|i: int| 0 <= i < front.len() implies seen.knows_room(
            (#[trigger] front[i]).room_id@,
        ) && events_known(seen, names, front[i].events@) by {
            assert(front[i] == batch[i]);
        }
        lemma_known_batch_changes_nothing(seen, names, front, report.drop_last());
        let last = batch[batch.len() - 1];
        assert(batch.last() == last);
        lemma_known_events_change_nothing(
            seen,
            names,
            report.last().room_uuid,
            last.events@,
            report.last().event_uuids@,
        );
    }
}

/// The same batch again changes nothing and is given the same ids: where
/// `first` is what `seen` holds of the rooms and events of `batch`, as after
/// the batch was looked at, looking at it again leaves `seen` as it is, and
/// what is then held of its rooms and events is `first` again.
pub proof fn lemma_same_batch_again(
    seen: MessagesView,
    names: IdentifiersView,
    batch: Seq<RoomUpdate>,
    first: Seq<RoomAssignment>,
    second: Seq<RoomAssignment>,
)
    requires
        first.len() == batch.len(),
        second.len() == batch.len(),
        forall|i: int|
            0 <= i < batch.len() ==> room_assigned(seen, names, #[trigger] batch[i], first[i]),
        forall|i: int|
            0 <= i < batch.len() ==> room_assigned(
                batch_step(seen, names, batch, second),
                names,
                #[trigger] batch[i],
                second[i],
            ),
    ensures
        batch_step(seen, names, batch, second) == seen,
        forall|i: int|
            0 <= i < batch.len() ==> (#[trigger] second[i]).room_uuid == first[i].room_uuid
                && second[i].event_uuids@ == first[i].event_uuids@,
{
    assert forall|i: int| 0 <= i < batch.len() implies seen.knows_room(
        (#[trigger] batch[i]).room_id@,
    ) && events_known(seen, names, batch[i].events@) by {
        assert(room_assigned(seen, names, batch[i], first[i]));
        let events = batch[i].events@;
        assert forall|j: int| 0 <= j < events.len() implies match (#[trigger] events[j]).offer(
            names,
        ) {
            Some(offer) => seen.knows_event(offer.event_id),
            None => true,
        } by {
            assert(event_assigned(seen, names, events[j], first[i].event_uuids@[j]));
        }
    }
    lemma_known_batch_changes_nothing(seen, names, batch, second);
    assert forall|i: int| 0 <= i < batch.len() implies (#[trigger] second[i]).room_uuid
        == first[i].room_uuid && second[i].event_uuids@ == first[i].event_uuids@ by {
        assert(room_assigned(seen, names, batch[i], first[i]));
        assert(room_assigned(seen, names, batch[i], second[i]));
        let events = batch[i].events@;
        assert forall|j: int| 0 <= j < events.len() implies second[i].event_uuids@[j]
            == first[i].event_uuids@[j] by {
            assert(event_assigned(seen, names, events[j], first[i].event_uuids@[j]));
            assert(event_assigned(seen, names, events[j], second[i].event_uuids@[j]));
        }
        assert(second[i].event_uuids@ =~= first[i].event_uuids@);
    }
}

/// Looks at one event of the room `room_uuid`: a text message or a notice is
/// given its internal id and, if it is new, kept with its properties and
/// linked to the room; any other event is passed over and changes nothing.
pub fn ingest_event(
    map: &mut MessagesMap,
    names: &Identifiers,
    room_uuid: RoomUuid,
    event: &TimelineEvent,
) -> (assigned: Option<EventUuid>)
    ensures
        final(map)@ == event_step(old(map)@, names@, room_uuid, *event, assigned),
        final(map)@.wf(),
        keeps_seen(old(map)@, final(map)@),
        mints_random(old(map)@, final(map)@),
        event_assigned(final(map)@, names@, *event, assigned),
        event.offer(names@) is None ==> final(map)@ == old(map)@,
        final(map)@.rooms == old(map)@.rooms,
        old(map)@.linked() && old(map)@.has_room_uuid(room_uuid) ==> final(map)@.linked(),
{
    match event {
        TimelineEvent::TextMessage { event_id, content } => {
            let uuid = map.insert_event(
                event_id.clone(),
                room_uuid,
                names.text_message_event_type.clone(),
                content.to_properties(),
            );
            Some(uuid)
        },
        TimelineEvent::NoticeMessage { event_id, content } => {
            let uuid = map.insert_event(
                event_id.clone(),
                room_uuid,
                names.notice_message_event_type.clone(),
                content.to_properties(),
            );
            Some(uuid)
        },
        _ => {
            proof {
                use_type_invariant(&*map);
            }
            None
        },
    }
}

/// Looks at one room of a sync batch: the room is given its internal id and,
/// if it is new, kept with its name and topic; then its events are looked at
/// in order.
pub fn ingest_room(map: &mut MessagesMap, names: &Identifiers, update: &RoomUpdate) -> (assignment:
    RoomAssignment)
    ensures
        final(map)@ == room_step(old(map)@, names@, *update, assignment),
        final(map)@.wf(),
        keeps_seen(old(map)@, final(map)@),
        mints_random(old(map)@, final(map)@),
        room_assigned(final(map)@, names@, *update, assignment),
        old(map)@.linked() ==> final(map)@.linked(),
{
    let room_uuid = map.insert_room(update.room_id.clone(), update.to_properties());
    let ghost entered = map@;
    let mut event_uuids: Vec<Option<EventUuid>> = Vec::new();
    let mut i: usize = 0;
    proof {
        assert(update.events@.take(0) =~= Seq::empty());
    }
    while i < update.events.len()
        invariant
            0 <= i <= update.events.len(),
            event_uuids@.len() == i,
            map@.wf(),
            keeps_seen(old(map)@, map@),
            mints_random(old(map)@, map@),
            keeps_seen(entered, map@),
            map@.rooms == entered.rooms,
            entered.has_room_uuid(room_uuid),
            old(map)@.linked() ==> map@.linked(),
            entered.knows_room(update.room_id@),
            room_uuid == entered.room_uuid(update.room_id@),
            map@ == events_step(
                entered,
                names@,
                room_uuid,
                update.events@.take(i as int),
                event_uuids@,
            ),
            forall|j: int|
                0 <= j < i ==> event_assigned(
                    map@,
                    names@,
                    #[trigger] update.events@[j],
                    event_uuids@[j],
                ),
        decreases update.events.len() - i,
    {
        let ghost before = map@;
        let ghost assigned_before = event_uuids@;
        let assigned = ingest_event(map, names, room_uuid, &update.events[i]);
        event_uuids.push(assigned);
        proof {
            let prefix = update.events@.take(i as int + 1);
            assert(prefix.drop_last() =~= update.events@.take(i as int));
            assert(event_uuids@.drop_last() =~= assigned_before);
            lemma_mints_random_chain(old(map)@, before, map@);
            lemma_keeps_seen_chain(entered, before, map@);
            assert forall|j: int| 0 <= j < i + 1 implies event_assigned(
                map@,
                names@,
                #[trigger] update.events@[j],
                event_uuids@[j],
            ) by {
                if j < i {
                    lemma_event_assigned_kept(
                        before,
                        map@,
                        names@,
                        update.events@[j],
                        assigned_before[j],
                    );
                }
            }
        }
        i += 1;
    }
    proof {
        assert(update.events@.take(update.events.len() as int) =~= update.events@);
    }
    RoomAssignment { room_uuid, event_uuids }
}

/// Looks at the rooms of a sync batch in order, and reports the internal
/// ids of the rooms and of their events. Events that cannot be decoded or
/// are of a kind that is not indexed are passed over; the events after them
/// are looked at as if they had not been there.
pub fn ingest_batch(map: &mut MessagesMap, names: &Identifiers, batch: &Vec<RoomUpdate>) -> (report:
    Vec<RoomAssignment>)
    ensures
        final(map)@ == batch_step(old(map)@, names@, batch@, report@),
        final(map)@.wf(),
        keeps_seen(old(map)@, final(map)@),
        mints_random(old(map)@, final(map)@),
        old(map)@.linked() ==> final(map)@.linked(),
        report@.len() == batch@.len(),
        forall|i: int|
            0 <= i < batch@.len() ==> room_assigned(
                final(map)@,
                names@,
                #[trigger] batch@[i],
                report@[i],
            ),
{
    let mut report: Vec<RoomAssignment> = Vec::new();
    let mut i: usize = 0;
    proof {
        use_type_invariant(&*map);
        assert(batch@.take(0) =~= Seq::empty());
    }
    while i < batch.len()
        invariant
            0 <= i <= batch.len(),
            report@.len() == i,
            map@.wf(),
            keeps_seen(old(map)@, map@),
            mints_random(old(map)@, map@),
            old(map)@.linked() ==> map@.linked(),
            map@ == batch_step(old(map)@, names@, batch@.take(i as int), report@),
            forall|j: int|
                0 <= j < i ==> room_assigned(map@, names@, #[trigger] batch@[j], report@[j]),
        decreases batch.len() - i,
    {
        let ghost before = map@;
        let ghost report_before = report@;
        let assignment = ingest_room(map, names, &batch[i]);
        report.push(assignment);
        proof {
            let prefix = batch@.take(i as int + 1);
            assert(prefix.drop_last() =~= batch@.take(i as int));
            assert(report@.drop_last() =~= report_before);
            lemma_mints_random_chain(old(map)@, before, map@);
            assert forall|j: int| 0 <= j < i + 1 implies room_assigned(
                map@,
                names@,
                #[trigger] batch@[j],
                report@[j],
            ) by {
                if j < i {
                    lemma_room_assigned_kept(before, map@, names@, batch@[j], report_before[j]);
                }
            }
        }
        i += 1;
    }
    proof {
        assert(batch@.take(batch.len() as int) =~= batch@);
    }
    report
}

/// What one round asks of the write path when it starts in `state` and
/// `items` are pending: the batches that become due while the items are
/// pushed, then a flush.
pub open spec fn round_actions(state: InserterView, items: Seq<ItemView>) -> Seq<ActionView> {
    state.push_all(items).1 + state.push_all(items).0.flush()
}

/// Encodes everything seen so far and hands it to the write path: every
/// item is pushed, then the buffer is flushed. Returns what the driver has
/// to do, in order.
pub fn submit_pending(map: &MessagesMap, inserter: &mut BulkInserter, names: &Identifiers) -> (made:
    Result<Vec<PipelineAction>, IdentifierError>)
    ensures
        made is Ok,
        views(made.unwrap()@) == round_actions(old(inserter)@, pending_items(map@, names@)),
        final(inserter)@ == old(inserter)@.push_all(pending_items(map@, names@)).0,
{
    let items = encode_pending(map, names)?;
    let mut actions = inserter.push_all(items);
    let mut last = inserter.flush();
    proof {
        lemma_views_add(actions@, last@);
    }
    actions.append(&mut last);
    Ok(actions)
}

/// What one round gives: the internal ids of the batch's rooms and events,
/// and what the driver has to do for the write path, in order.
pub struct SyncRound {
    pub report: Vec<RoomAssignment>,
    pub actions: Vec<PipelineAction>,
}

/// One round of indexing: looks at the rooms and events of `batch`, then
/// encodes everything seen so far and hands it to the write path.
pub fn process_sync(
    map: &mut MessagesMap,
    inserter: &mut BulkInserter,
    names: &Identifiers,
    batch: &Vec<RoomUpdate>,
) -> (made: Result<SyncRound, IdentifierError>)
    ensures
        made is Ok,
        final(map)@ == batch_step(old(map)@, names@, batch@, made.unwrap().report@),
        final(map)@.wf(),
        keeps_seen(old(map)@, final(map)@),
        mints_random(old(map)@, final(map)@),
        old(map)@.linked() ==> final(map)@.linked(),
        made.unwrap().report@.len() == batch@.len(),
        forall|i: int|
            0 <= i < batch@.len() ==> room_assigned(
                final(map)@,
                names@,
                #[trigger] batch@[i],
                made.unwrap().report@[i],
            ),
        views(made.unwrap().actions@) == round_actions(
            old(inserter)@,
            pending_items(final(map)@, names@),
        ),
        final(inserter)@ == old(inserter)@.push_all(pending_items(final(map)@, names@)).0,
{
    let report = ingest_batch(map, names, batch);
    let actions = submit_pending(map, inserter, names)?;
    Ok(SyncRound { report, actions })
}

} // verus!
