//! What holds of looks at the calendar and dismissals taken together.

use vstd::prelude::*;

use crate::clock;
use crate::clock::Moment;
use crate::reminders;
use crate::reminders::{
    Effect, EventReminderPayload, EventReminderRecord, EventWindowDisplayState, RecordView,
    ReminderPhase, Reminders, SyncPlan,
};
use crate::state::EventView;
use crate::text;

verus! {

/// An event that has not been announced is announced exactly when it starts within five
/// minutes or has started, in the phase that fits.
pub proof fn law_announced_in_time(event: EventView, start: Moment, now: Moment)
    requires
        clock::read_moment(event.start_at) == Some(start),
    ensures
        reminders::effect(None, event, now) is Open <==> clock::nanos_between(start, now)
            <= 5 * 60 * 1_000_000_000,
        !(reminders::effect(None, event, now) is Upgrade),
        reminders::effect(None, event, now) matches Effect::Open(record) ==> tells_of(
            record,
            event,
            start,
        ) && (record.display_state == if clock::nanos_between(start, now) <= 0 {
            EventWindowDisplayState::ShowingCurrent
        } else {
            EventWindowDisplayState::ShowingUpcoming
        }),
{
}

/// The record tells of the event as the calendar has it: its id, title, link and location, the
/// start that was read, and its end where that can be read.
pub open spec fn tells_of(record: RecordView, event: EventView, start: Moment) -> bool {
    &&& record.event_id == event.id
    &&& record.title == event.title
    &&& record.meeting_url == event.meeting_url
    &&& record.location == event.location
    &&& record.start_at == start
    &&& event.end_at matches Some(end) ==> record.end_at == clock::read_moment(end)
    &&& event.end_at is None ==> record.end_at is None
}

/// An event whose start cannot be read brings nothing about.
pub proof fn law_unreadable_start_is_quiet(
    known: Option<RecordView>,
    event: EventView,
    now: Moment,
)
    requires
        clock::read_moment(event.start_at) is None,
    ensures
        reminders::effect(known, event, now) is Quiet,
{
}

/// A reminder that the user closed before the start comes back exactly when the event has
/// started.
pub proof fn law_closed_early_returns_at_start(
    record: RecordView,
    event: EventView,
    start: Moment,
    now: Moment,
)
    requires
        clock::read_moment(event.start_at) == Some(start),
        record.display_state is DismissedBeforeStart,
    ensures
        reminders::effect(Some(record), event, now) == if clock::nanos_between(start, now) <= 0 {
            Effect::Open(
                reminders::announcement(event, start, EventWindowDisplayState::ShowingCurrent),
            )
        } else {
            Effect::Quiet
        },
{
}

/// A reminder that comes back tells of the event as the calendar now has it.
pub proof fn law_returned_reminder_tells_of_the_event(
    record: RecordView,
    event: EventView,
    start: Moment,
    now: Moment,
)
    requires
        clock::read_moment(event.start_at) == Some(start),
        record.display_state is DismissedBeforeStart,
    ensures
        reminders::effect(Some(record), event, now) is Open <==> clock::nanos_between(start, now)
            <= 0,
        reminders::effect(Some(record), event, now) matches Effect::Open(next) ==> tells_of(
            next,
            event,
            start,
        ) && next.display_state == EventWindowDisplayState::ShowingCurrent,
        !(reminders::effect(Some(record), event, now) is Upgrade),
{
}

/// `after` tells what `before` told, but for the phase and the end.
pub open spec fn tells_the_same(after: RecordView, before: RecordView) -> bool {
    &&& after.event_id == before.event_id
    &&& after.title == before.title
    &&& after.start_at == before.start_at
    &&& after.meeting_url == before.meeting_url
    &&& after.location == before.location
}

/// A reminder that shows as upcoming turns over exactly when its event has started: it is then
/// in the running phase, ends when the event now does, and tells the same as before otherwise,
/// its link among it. Until the start nothing happens to it.
pub proof fn law_open_reminder_turns_over_at_the_start(
    record: RecordView,
    event: EventView,
    start: Moment,
    now: Moment,
)
    requires
        clock::read_moment(event.start_at) == Some(start),
        record.display_state is ShowingUpcoming,
    ensures
        clock::nanos_between(start, now) > 0 ==> reminders::effect(Some(record), event, now)
            is Quiet,
        clock::nanos_between(start, now) <= 0 ==> (reminders::effect(
            Some(record),
            event,
            now,
        ) matches Effect::Upgrade(next) && tells_the_same(next, record) && next.display_state
            == EventWindowDisplayState::ShowingCurrent && (event.end_at matches Some(end)
            ==> next.end_at == clock::read_moment(end)) && (event.end_at is None ==> next.end_at
            is None)),
{
}

/// What the windows of an event are told is what is on record: its texts as they are, its times
/// as RFC 3339, and the phase.
pub proof fn law_windows_are_told_what_is_on_record(record: RecordView)
    ensures
        record.payload().event_id == record.event_id,
        record.payload().title == record.title,
        record.payload().meeting_url == record.meeting_url,
        record.payload().location == record.location,
        record.payload().start_at == clock::rfc3339_text(
            record.start_at.secs as i64,
            record.start_at.nanos as u32,
        ),
        record.end_at matches Some(end) ==> record.payload().end_at == Some(
            clock::rfc3339_text(end.secs as i64, end.nanos as u32),
        ),
        record.end_at is None ==> record.payload().end_at is None,
        record.payload().phase == ReminderPhase::Upcoming <==> record.display_state
            is ShowingUpcoming || record.display_state is DismissedBeforeStart,
        record.payload().phase == ReminderPhase::StartingNow <==> record.display_state
            is ShowingCurrent || record.display_state is DismissedAfterStart,
{
}

/// The user's closing of a reminder changes its state alone, by whether the start on record has
/// come; other reminders, and events that were not announced, it leaves alone.
pub proof fn law_closing_changes_one_state(
    book: Reminders,
    id: Seq<char>,
    other: Seq<char>,
    now: Moment,
)
    ensures
        other != id ==> reminders::dismissed(book, id, now).get(other) == book.get(other),
        !book.contains_key(id) ==> reminders::dismissed(book, id, now) == book,
        book.contains_key(id) ==> ({
            let closed = reminders::dismissed(book, id, now);
            &&& closed.contains_key(id)
            &&& tells_the_same(closed[id], book[id])
            &&& closed[id].end_at == book[id].end_at
            &&& closed[id].display_state is DismissedAfterStart <==> clock::not_after(
                book[id].start_at,
                now,
            )
            &&& closed[id].display_state is DismissedBeforeStart <==> !clock::not_after(
                book[id].start_at,
                now,
            )
        }),
{
}

/// A reminder in the running phase, open or closed, is touched by no look at the calendar
/// as long as its event is there: its windows neither open again nor turn over again.
pub proof fn law_running_reminder_is_left_alone(
    book: Reminders,
    events: Seq<EventView>,
    now: Moment,
    id: Seq<char>,
)
    requires
        book.contains_key(id),
        book[id].display_state.started(),
    ensures
        reminders::after_events(book, events, now).get(id) == Some(book[id]),
        !reminders::records_event(reminders::opened(book, events, now), id),
        !reminders::upgraded(book, events, now).contains(id),
    decreases events.len(),
{
    if events.len() > 0 {
        let rest = events.drop_last();
        law_running_reminder_is_left_alone(book, rest, now, id);
        let middle = reminders::after_events(book, rest, now);
        lemma_effect_keeps_event(middle, events.last(), now);
        assert(middle.contains_key(id) && middle[id] == book[id]);
        if events.last().id == id {
            assert(reminders::effect_in(middle, events.last(), now) is Quiet);
        }
        lemma_grows(book, events, now, id);
    }
}

/// A reminder that the user closed once its event had started does not come back while the
/// event is in the calendar.
pub proof fn law_closed_after_start_stays_closed(
    book: Reminders,
    id: Seq<char>,
    closed_at: Moment,
    events: Seq<EventView>,
    now: Moment,
)
    requires
        book.contains_key(id),
        clock::not_after(book[id].start_at, closed_at),
        reminders::fetched(events, id),
    ensures
        ({
            let closed = reminders::kept(reminders::dismissed(book, id, closed_at), events);
            &&& reminders::after_events(closed, events, now).get(id) == Some(closed[id])
            &&& closed[id].display_state is DismissedAfterStart
            &&& !reminders::records_event(reminders::opened(closed, events, now), id)
            &&& !reminders::upgraded(closed, events, now).contains(id)
        }),
{
    let closed = reminders::kept(reminders::dismissed(book, id, closed_at), events);
    assert(closed.contains_key(id));
    law_running_reminder_is_left_alone(closed, events, now, id);
}

/// While its window stands open, an event is not announced again.
pub proof fn law_open_window_is_not_opened_again(
    book: Reminders,
    events: Seq<EventView>,
    now: Moment,
    id: Seq<char>,
)
    requires
        book.contains_key(id),
        book[id].display_state.shows(),
    ensures
        reminders::after_events(book, events, now).contains_key(id),
        reminders::after_events(book, events, now)[id].display_state.shows(),
        !reminders::records_event(reminders::opened(book, events, now), id),
    decreases events.len(),
{
    if events.len() > 0 {
        let rest = events.drop_last();
        law_open_window_is_not_opened_again(book, rest, now, id);
        let middle = reminders::after_events(book, rest, now);
        lemma_effect_keeps_event(middle, events.last(), now);
        if events.last().id == id {
            assert(!(reminders::effect_in(middle, events.last(), now) is Open));
        }
        lemma_grows(book, events, now, id);
    }
}

/// One look at the calendar opens the windows of an event at most once, and only those of
/// events that are in the calendar.
pub proof fn law_opened_once_each(book: Reminders, events: Seq<EventView>, now: Moment)
    ensures
        reminders::distinct_events(reminders::opened(book, events, now)),
        forall|i: int|
            0 <= i < reminders::opened(book, events, now).len() ==> reminders::fetched(
                events,
                #[trigger] reminders::opened(book, events, now)[i].event_id,
            ),
        forall|i: int|
            #![trigger reminders::opened(book, events, now)[i]]
            0 <= i < reminders::opened(book, events, now).len() ==> {
                let id = reminders::opened(book, events, now)[i].event_id;
                &&& reminders::after_events(book, events, now).contains_key(id)
                &&& reminders::after_events(book, events, now)[id].display_state.shows()
            },
    decreases events.len(),
{
    if events.len() > 0 {
        let rest = events.drop_last();
        let last = events.last();
        law_opened_once_each(book, rest, now);
        let middle = reminders::after_events(book, rest, now);
        let earlier = reminders::opened(book, rest, now);
        let all = reminders::opened(book, events, now);
        let end = reminders::after_events(book, events, now);
        lemma_effect_keeps_event(middle, last, now);
        assert forall|i: int| 0 <= i < all.len() implies reminders::fetched(
            events,
            #[trigger] all[i].event_id,
        ) by {
            if i < earlier.len() {
                assert(all[i] == earlier[i]);
                let j = choose|j: int| 0 <= j < rest.len() && #[trigger] rest[j].id
                    == earlier[i].event_id;
                assert(events[j].id == earlier[i].event_id);
            } else {
                assert(events[events.len() - 1].id == all[i].event_id);
            }
        }
        assert forall|i: int| #![trigger all[i]] 0 <= i < all.len() implies {
            &&& end.contains_key(all[i].event_id)
            &&& end[all[i].event_id].display_state.shows()
        } by {
            if i < earlier.len() {
                assert(all[i] == earlier[i]);
            }
        }
        assert forall|i: int, j: int| 0 <= i < j < all.len() implies #[trigger] all[i].event_id
            != #[trigger] all[j].event_id by {
            assert(all[i] == earlier[i]);
            if j < earlier.len() {
                assert(all[j] == earlier[j]);
            }
        }
    }
}

/// A look at a calendar of distinct events goes by each event and what was on record of it
/// alone, and forgets every reminder whose event is not in the calendar.
pub proof fn law_look_goes_by_event_and_record(
    book: Reminders,
    events: Seq<EventView>,
    now: Moment,
    i: int,
    gone: Seq<char>,
)
    requires
        0 <= i < events.len(),
        forall|a: int, b: int|
            0 <= a < b < events.len() ==> #[trigger] events[a].id != #[trigger] events[b].id,
        forall|a: int| 0 <= a < events.len() ==> #[trigger] events[a].id != gone,
    ensures
        ({
            let event = events[i];
            let left = reminders::kept(book, events);
            let after = reminders::after_events(left, events, now);
            let opens = reminders::opened(left, events, now);
            let turns = reminders::upgraded(left, events, now);
            &&& !after.contains_key(gone)
            &&& match reminders::effect(book.get(event.id), event, now) {
                Effect::Quiet => after.get(event.id) == book.get(event.id)
                    && !reminders::records_event(opens, event.id) && !turns.contains(event.id),
                Effect::Open(record) => after.get(event.id) == Some(record) && opens.contains(
                    record,
                ) && !turns.contains(event.id),
                Effect::Upgrade(record) => after.get(event.id) == Some(record)
                    && !reminders::records_event(opens, event.id) && turns.contains(event.id),
            }
        }),
{
    let left = reminders::kept(book, events);
    let event = events[i];
    assert(reminders::fetched(events, event.id));
    assert(left.get(event.id) == book.get(event.id));
    law_events_are_independent(left, events, now, i);
    if reminders::after_events(left, events, now).contains_key(gone) {
        law_only_fetched_remain(book, events, now, gone);
    }
}

/// When an event starts whose reminder stands open, its windows turn over and go on telling what
/// they told, the link to the meeting among it.
pub proof fn law_turned_over_windows_keep_the_link(
    book: Reminders,
    events: Seq<EventView>,
    now: Moment,
    i: int,
    start: Moment,
)
    requires
        0 <= i < events.len(),
        forall|a: int, b: int|
            0 <= a < b < events.len() ==> #[trigger] events[a].id != #[trigger] events[b].id,
        clock::read_moment(events[i].start_at) == Some(start),
        clock::nanos_between(start, now) <= 0,
        book.contains_key(events[i].id),
        book[events[i].id].display_state is ShowingUpcoming,
    ensures
        ({
            let id = events[i].id;
            let left = reminders::kept(book, events);
            let after = reminders::after_events(left, events, now);
            &&& after.contains_key(id)
            &&& after[id].payload().phase == ReminderPhase::StartingNow
            &&& after[id].payload().meeting_url == book[id].meeting_url
            &&& after[id].payload().title == book[id].title
            &&& after[id].payload().location == book[id].location
            &&& after[id].payload().start_at == book[id].payload().start_at
            &&& reminders::upgraded(left, events, now).contains(id)
            &&& !reminders::records_event(reminders::opened(left, events, now), id)
        }),
{
    let left = reminders::kept(book, events);
    let id = events[i].id;
    assert(reminders::fetched(events, id));
    assert(left.get(id) == Some(book[id]));
    law_events_are_independent(left, events, now, i);
    law_open_reminder_turns_over_at_the_start(book[id], events[i], start, now);
}

/// The windows that a look closes are exactly those that stand open for events that are not in
/// the calendar, each named once.
pub proof fn law_plan_closes_exactly_the_vanished(
    plan: SyncPlan,
    book: Reminders,
    events: Seq<EventView>,
    now: Moment,
    id: Seq<char>,
)
    requires
        reminders::plan_of(plan, book, events, now),
    ensures
        (exists|k: int| 0 <= k < plan.to_close@.len() && #[trigger] plan.to_close@[k]@ == id)
            <==> book.contains_key(id) && (book[id].display_state is ShowingUpcoming
            || book[id].display_state is ShowingCurrent) && (forall|j: int|
            0 <= j < events.len() ==> #[trigger] events[j].id != id),
        forall|a: int, b: int|
            0 <= a < b < plan.to_close@.len() ==> #[trigger] plan.to_close@[a]@
                != #[trigger] plan.to_close@[b]@,
{
    let ids = text::texts(plan.to_close@);
    let wanted = |id: Seq<char>| reminders::vanished(book, events, id);
    assert(reminders::names_exactly(ids, wanted));
    assert(ids.contains(id) <==> wanted(id));
    if ids.contains(id) {
        let k = ids.index_of(id);
        assert(plan.to_close@[k]@ == id);
    }
    if exists|k: int| 0 <= k < plan.to_close@.len() && #[trigger] plan.to_close@[k]@ == id {
        let k = choose|k: int|
            0 <= k < plan.to_close@.len() && #[trigger] plan.to_close@[k]@ == id;
        assert(ids[k] == id);
    }
    assert forall|a: int, b: int| 0 <= a < b < plan.to_close@.len() implies
        #[trigger] plan.to_close@[a]@ != #[trigger] plan.to_close@[b]@ by {
        assert(ids[a] != ids[b]);
    }
}

/// The windows that a look opens, in a calendar of distinct events, are exactly those that the
/// events and what was on record of them ask for, and they open in the order of their starts.
pub proof fn law_plan_opens_exactly_what_is_due(
    plan: SyncPlan,
    book: Reminders,
    events: Seq<EventView>,
    now: Moment,
    record: RecordView,
)
    requires
        reminders::plan_of(plan, book, events, now),
        forall|a: int, b: int|
            0 <= a < b < events.len() ==> #[trigger] events[a].id != #[trigger] events[b].id,
    ensures
        (exists|k: int| 0 <= k < plan.to_open@.len() && #[trigger] plan.to_open@[k]@ == record)
            <==> (exists|i: int|
            0 <= i < events.len() && reminders::effect(
                book.get(#[trigger] events[i].id),
                events[i],
                now,
            ) == Effect::Open(record)),
        forall|a: int, b: int|
            0 <= a < b < plan.to_open@.len() ==> ({
                let one = (#[trigger] plan.to_open@[a])@.start_at;
                let other = (#[trigger] plan.to_open@[b])@.start_at;
                one.secs < other.secs || (one.secs == other.secs && one.nanos <= other.nanos)
            }),
{
    broadcast use vstd::seq_lib::group_to_multiset_ensures;

    let left = reminders::kept(book, events);
    let opens = reminders::opened(left, events, now);
    let views = reminders::record_views(plan.to_open@);
    assert(views.to_multiset() == opens.to_multiset());
    assert(views.contains(record) <==> opens.contains(record)) by {
        assert(views.contains(record) <==> views.to_multiset().count(record) > 0);
        assert(opens.contains(record) <==> opens.to_multiset().count(record) > 0);
    }
    if exists|k: int| 0 <= k < plan.to_open@.len() && #[trigger] plan.to_open@[k]@ == record {
        let k = choose|k: int|
            0 <= k < plan.to_open@.len() && #[trigger] plan.to_open@[k]@ == record;
        assert(views[k] == record);
    }
    if views.contains(record) {
        let k = views.index_of(record);
        assert(plan.to_open@[k]@ == record);
    }
    if opens.contains(record) {
        law_opened_once_each(left, events, now);
        let p = opens.index_of(record);
        assert(reminders::fetched(events, opens[p].event_id));
        let i = choose|i: int| 0 <= i < events.len() && #[trigger] events[i].id == record.event_id;
        assert(left.get(events[i].id) == book.get(events[i].id));
        law_events_are_independent(left, events, now, i);
        assert(reminders::records_event(opens, events[i].id));
        if let Effect::Open(made) = reminders::effect(left.get(events[i].id), events[i], now) {
            let q = opens.index_of(made);
            lemma_effect_keeps_event(left, events[i], now);
            if p < q {
                assert(opens[p].event_id != opens[q].event_id);
            } else if q < p {
                assert(opens[q].event_id != opens[p].event_id);
            }
        }
    }
    if exists|i: int|
        0 <= i < events.len() && reminders::effect(
            book.get(#[trigger] events[i].id),
            events[i],
            now,
        ) == Effect::Open(record) {
        let i = choose|i: int|
            0 <= i < events.len() && reminders::effect(
                book.get(#[trigger] events[i].id),
                events[i],
                now,
            ) == Effect::Open(record);
        assert(reminders::fetched(events, events[i].id));
        assert(left.get(events[i].id) == book.get(events[i].id));
        law_events_are_independent(left, events, now, i);
    }
    assert forall|a: int, b: int| 0 <= a < b < plan.to_open@.len() implies ({
        let one = (#[trigger] plan.to_open@[a])@.start_at;
        let other = (#[trigger] plan.to_open@[b])@.start_at;
        one.secs < other.secs || (one.secs == other.secs && one.nanos <= other.nanos)
    }) by {
        assert(clock::not_after(views[a].start_at, views[b].start_at));
    }
}

/// The windows that a look turns over, in a calendar of distinct events, are exactly those that
/// the events and what was on record of them ask for.
pub proof fn law_plan_turns_over_exactly_what_started(
    plan: SyncPlan,
    book: Reminders,
    events: Seq<EventView>,
    now: Moment,
    i: int,
)
    requires
        reminders::plan_of(plan, book, events, now),
        0 <= i < events.len(),
        forall|a: int, b: int|
            0 <= a < b < events.len() ==> #[trigger] events[a].id != #[trigger] events[b].id,
    ensures
        (exists|k: int|
            0 <= k < plan.to_upgrade@.len() && #[trigger] plan.to_upgrade@[k]@ == events[i].id)
            <==> reminders::effect(book.get(events[i].id), events[i], now) is Upgrade,
{
    let left = reminders::kept(book, events);
    let turns = text::texts(plan.to_upgrade@);
    assert(reminders::fetched(events, events[i].id));
    assert(left.get(events[i].id) == book.get(events[i].id));
    law_events_are_independent(left, events, now, i);
    if turns.contains(events[i].id) {
        let k = turns.index_of(events[i].id);
        assert(plan.to_upgrade@[k]@ == events[i].id);
    }
    if exists|k: int|
        0 <= k < plan.to_upgrade@.len() && #[trigger] plan.to_upgrade@[k]@ == events[i].id {
        let k = choose|k: int|
            0 <= k < plan.to_upgrade@.len() && #[trigger] plan.to_upgrade@[k]@ == events[i].id;
        assert(turns[k] == events[i].id);
    }
}

/// A list of the reminders that show names an event exactly when its window stands open, in
/// either phase.
pub proof fn law_showing_list_names_open_windows(
    book: Reminders,
    records: Seq<RecordView>,
    id: Seq<char>,
)
    requires
        reminders::lists_showing(book, records),
    ensures
        (exists|k: int| 0 <= k < records.len() && #[trigger] records[k].event_id == id)
            <==> book.contains_key(id) && (book[id].display_state is ShowingUpcoming
            || book[id].display_state is ShowingCurrent),
{
    if exists|k: int| 0 <= k < records.len() && #[trigger] records[k].event_id == id {
        let k = choose|k: int| 0 <= k < records.len() && #[trigger] records[k].event_id == id;
        assert(book.get(records[k].event_id) == Some(records[k]));
    }
    if book.contains_key(id) && book[id].display_state.shows() {
        assert(reminders::records_event(records, id));
    }
}

/// The view of a record holds every field.
pub proof fn law_record_view_holds_every_field(record: EventReminderRecord)
    ensures
        record@.event_id == record.event_id@ && record@.title == record.title@,
        record@.start_at == record.start_at@ && record@.display_state == record.display_state,
        record.end_at matches Some(end) ==> record@.end_at == Some(end@),
        record.end_at is None ==> record@.end_at is None,
        record.meeting_url matches Some(url) ==> record@.meeting_url == Some(url@),
        record.location matches Some(location) ==> record@.location == Some(location@),
{
}

/// The view of what a reminder window is told holds every field.
pub proof fn law_payload_view_holds_every_field(payload: EventReminderPayload)
    ensures
        payload@.event_id == payload.event_id@ && payload@.title == payload.title@,
        payload@.start_at == payload.start_at@ && payload@.phase == payload.phase,
        payload.end_at matches Some(end) ==> payload@.end_at == Some(end@),
        payload.meeting_url matches Some(url) ==> payload@.meeting_url == Some(url@),
        payload.location matches Some(location) ==> payload@.location == Some(location@),
{
}

/// What can happen to the reminder of an event while the event is in the calendar.
pub enum Step {
    /// A look at the event at an instant.
    Look(EventView, Moment),
    /// The user closes its windows at an instant.
    Close(Moment),
}

/// What is known of the event after a step.
pub open spec fn after_step(known: Option<RecordView>, step: Step) -> Option<RecordView> {
    match step {
        Step::Look(event, now) => match reminders::effect(known, event, now) {
            Effect::Quiet => known,
            Effect::Open(record) => Some(record),
            Effect::Upgrade(record) => Some(record),
        },
        Step::Close(now) => match known {
            Some(record) => Some(reminders::closed_record(record, now)),
            None => None,
        },
    }
}

/// The step opens the windows of the event.
pub open spec fn opens(known: Option<RecordView>, step: Step) -> bool {
    match step {
        Step::Look(event, now) => reminders::effect(known, event, now) is Open,
        Step::Close(_) => false,
    }
}

/// How often the steps, one after the other, open the windows of the event.
pub open spec fn openings(known: Option<RecordView>, steps: Seq<Step>) -> nat
    decreases steps.len(),
{
    if steps.len() == 0 {
        0
    } else {
        openings(after_step(known, steps.first()), steps.drop_first()) + if opens(
            known,
            steps.first(),
        ) {
            1nat
        } else {
            0nat
        }
    }
}

/// Windows in the running phase are closed only at a time that is not before the start on
/// record.
pub open spec fn orderly(known: Option<RecordView>, steps: Seq<Step>) -> bool
    decreases steps.len(),
{
    steps.len() > 0 ==> {
        &&& orderly(after_step(known, steps.first()), steps.drop_first())
        &&& match (steps.first(), known) {
            (Step::Close(now), Some(record)) => record.display_state.started()
                ==> clock::not_after(record.start_at, now),
            _ => true,
        }
    }
}

/// However often the calendar is looked at and however often the user closes the windows,
/// an event is announced at most twice: once before its start, and once when it has started.
/// (Where an event was moved, windows in the running phase can be closed before the start that
/// is on record; such a closing is left out.)
pub proof fn law_announced_once_in_each_phase(steps: Seq<Step>)
    requires
        orderly(None, steps),
    ensures
        openings(None, steps) <= 2,
{
    lemma_openings(None, steps);
}

/// When a step happens.
pub open spec fn time_of(step: Step) -> Moment {
    match step {
        Step::Look(_, now) => now,
        Step::Close(now) => now,
    }
}

/// The time of a look does not lie in a leap second, and a start that can be read is an
/// instant that exists.
pub open spec fn ordinary(step: Step) -> bool {
    match step {
        Step::Look(event, now) => {
            &&& 0 <= now.nanos < 1_000_000_000
            &&& match clock::read_moment(event.start_at) {
                Some(start) => clock::valid_moment(start),
                None => true,
            }
        },
        Step::Close(_) => true,
    }
}

/// No step happens before one that it follows.
pub open spec fn in_order(steps: Seq<Step>) -> bool {
    forall|i: int, j: int|
        0 <= i < j < steps.len() ==> clock::not_after(
            time_of(#[trigger] steps[i]),
            time_of(#[trigger] steps[j]),
        )
}

/// As time goes on, however often the calendar is looked at, however often the user closes the
/// windows and however the event is moved meanwhile, the event is announced at most twice.
/// (The current time never lies in a leap second, and every start that is read exists.)
pub proof fn law_announced_at_most_twice(steps: Seq<Step>)
    requires
        in_order(steps),
        forall|i: int| 0 <= i < steps.len() ==> ordinary(#[trigger] steps[i]),
    ensures
        openings(None, steps) <= 2,
{
    lemma_openings_in_time(None, steps);
}

/// The event has started, by the start on record too, at `now`.
spec fn settled_at(record: RecordView, now: Moment) -> bool {
    record.display_state.started() && clock::not_after(record.start_at, now)
}

/// How many announcements are left at `now`.
spec fn left_at(known: Option<RecordView>, now: Moment) -> nat {
    match known {
        None => 2,
        Some(record) => if settled_at(record, now) {
            0
        } else {
            1
        },
    }
}

/// An event that counts as started outside leap seconds starts no later than now.
proof fn lemma_started(start: Moment, now: Moment)
    requires
        clock::valid_moment(start),
        0 <= now.nanos < 1_000_000_000,
        clock::nanos_between(start, now) <= 0,
    ensures
        clock::not_after(start, now),
{
}

/// One step uses up at least the announcements that it makes, and what is settled stays so.
proof fn lemma_step_in_time(known: Option<RecordView>, step: Step)
    requires
        ordinary(step),
    ensures
        left_at(after_step(known, step), time_of(step)) + (if opens(known, step) {
            1nat
        } else {
            0nat
        }) <= left_at(known, time_of(step)),
{
    if let Step::Look(event, now) = step {
        if let Some(start) = clock::read_moment(event.start_at) {
            if clock::nanos_between(start, now) <= 0 {
                lemma_started(start, now);
            }
        }
    }
}

proof fn lemma_openings_in_time(known: Option<RecordView>, steps: Seq<Step>)
    requires
        in_order(steps),
        forall|i: int| 0 <= i < steps.len() ==> ordinary(#[trigger] steps[i]),
    ensures
        steps.len() == 0 ==> openings(known, steps) == 0,
        steps.len() > 0 ==> openings(known, steps) <= left_at(known, time_of(steps.first())),
    decreases steps.len(),
{
    if steps.len() > 0 {
        let step = steps.first();
        let rest = steps.drop_first();
        let next = after_step(known, step);
        assert forall|i: int, j: int| 0 <= i < j < rest.len() implies clock::not_after(
            time_of(#[trigger] rest[i]),
            time_of(#[trigger] rest[j]),
        ) by {
            assert(rest[i] == steps[i + 1] && rest[j] == steps[j + 1]);
        }
        assert forall|i: int| 0 <= i < rest.len() implies ordinary(#[trigger] rest[i]) by {
            assert(rest[i] == steps[i + 1]);
        }
        lemma_openings_in_time(next, rest);
        assert(ordinary(steps[0]));
        lemma_step_in_time(known, step);
        if rest.len() > 0 {
            assert(clock::not_after(time_of(steps[0]), time_of(steps[1])));
            assert(rest.first() == steps[1]);
        }
    }
}

/// How far the announcements of an event have come.
spec fn stage(known: Option<RecordView>) -> nat {
    match known {
        None => 0,
        Some(record) => if record.display_state.started() {
            2
        } else {
            1
        },
    }
}

/// Each opening brings the announcements of an event further, and nothing takes them back.
proof fn lemma_openings(known: Option<RecordView>, steps: Seq<Step>)
    requires
        orderly(known, steps),
    ensures
        openings(known, steps) + stage(known) <= 2,
    decreases steps.len(),
{
    if steps.len() > 0 {
        lemma_openings(after_step(known, steps.first()), steps.drop_first());
    }
}

/// After a look at the calendar every reminder belongs to an event of the calendar.
pub proof fn law_only_fetched_remain(
    book: Reminders,
    events: Seq<EventView>,
    now: Moment,
    id: Seq<char>,
)
    requires
        reminders::after_events(reminders::kept(book, events), events, now).contains_key(id),
    ensures
        reminders::fetched(events, id),
{
    lemma_domain(reminders::kept(book, events), events, now, id);
}

/// Looking twice at the same calendar at the same time is looking once: the second look
/// closes, opens and turns over nothing and leaves the reminders as they are.
pub proof fn law_second_look_is_quiet(book: Reminders, events: Seq<EventView>, now: Moment)
    ensures
        ({
            let once = reminders::after_events(reminders::kept(book, events), events, now);
            &&& reminders::kept(once, events) == once
            &&& reminders::after_events(once, events, now) == once
            &&& reminders::opened(once, events, now).len() == 0
            &&& reminders::upgraded(once, events, now).len() == 0
            &&& forall|id: Seq<char>| !(#[trigger] reminders::vanished(once, events, id))
        }),
{
    let once = reminders::after_events(reminders::kept(book, events), events, now);
    assert forall|id: Seq<char>| once.contains_key(id) implies reminders::fetched(events, id) by {
        law_only_fetched_remain(book, events, now, id);
    }
    assert(reminders::kept(once, events) =~= once);
    assert forall|i: int| 0 <= i < events.len() implies settled(once, #[trigger] events[i], now) by {
        lemma_all_settled(reminders::kept(book, events), events, now, i);
    }
    lemma_settled_is_quiet(once, events, now);
}

/// Where the events of the calendar are distinct, each is looked at on its own: what
/// becomes of its reminder depends on that reminder, the event and the time alone.
pub proof fn law_events_are_independent(
    book: Reminders,
    events: Seq<EventView>,
    now: Moment,
    i: int,
)
    requires
        0 <= i < events.len(),
        forall|a: int, b: int|
            0 <= a < b < events.len() ==> #[trigger] events[a].id != #[trigger] events[b].id,
    ensures
        ({
            let event = events[i];
            let after = reminders::after_events(book, events, now).get(event.id);
            match reminders::effect(book.get(event.id), event, now) {
                Effect::Quiet => after == book.get(event.id) && !reminders::records_event(
                    reminders::opened(book, events, now),
                    event.id,
                ) && !reminders::upgraded(book, events, now).contains(event.id),
                Effect::Open(record) => after == Some(record) && reminders::opened(
                    book,
                    events,
                    now,
                ).contains(record) && !reminders::upgraded(book, events, now).contains(event.id),
                Effect::Upgrade(record) => after == Some(record) && !reminders::records_event(
                    reminders::opened(book, events, now),
                    event.id,
                ) && reminders::upgraded(book, events, now).contains(event.id),
            }
        }),
    decreases events.len(),
{
    let rest = events.drop_last();
    let last = events.last();
    let middle = reminders::after_events(book, rest, now);
    lemma_effect_keeps_event(middle, last, now);
    let event = events[i];
    if i == events.len() - 1 {
        lemma_untouched(book, rest, now, event.id);
        let opens = reminders::opened(book, events, now);
        let turns = reminders::upgraded(book, events, now);
        match reminders::effect(book.get(event.id), event, now) {
            Effect::Open(record) => {
                assert(opens[opens.len() - 1] == record);
            },
            Effect::Upgrade(record) => {
                assert(turns[turns.len() - 1] == event.id);
            },
            _ => {},
        }
        lemma_grows(book, events, now, event.id);
    } else {
        assert(rest[i] == event);
        assert(events[i].id != events[events.len() - 1].id);
        law_events_are_independent(book, rest, now, i);
        lemma_grows(book, events, now, event.id);
    }
}

/// What a look brings about is of the event that was looked at, once it is opened; and an
/// event that had a reminder keeps one.
proof fn lemma_effect_keeps_event(book: Reminders, event: EventView, now: Moment)
    ensures
        reminders::effect_in(book, event, now) matches Effect::Open(record) ==> record.event_id
            == event.id && record.display_state.shows(),
        reminders::effect_in(book, event, now) matches Effect::Upgrade(record)
            ==> record.display_state is ShowingCurrent && book.contains_key(event.id),
{
}

/// How the lists of opened and turned windows grow by the look at the last event.
proof fn lemma_grows(book: Reminders, events: Seq<EventView>, now: Moment, id: Seq<char>)
    requires
        events.len() > 0,
    ensures
        ({
            let rest = events.drop_last();
            let step = reminders::effect_in(
                reminders::after_events(book, rest, now),
                events.last(),
                now,
            );
            let before = reminders::opened(book, rest, now);
            let after = reminders::opened(book, events, now);
            &&& reminders::records_event(after, id) <==> reminders::records_event(before, id) || (
            step is Open && events.last().id == id)
            &&& forall|r: RecordView| before.contains(r) ==> #[trigger] after.contains(r)
            &&& reminders::upgraded(book, events, now).contains(id) <==> reminders::upgraded(
                book,
                rest,
                now,
            ).contains(id) || (step is Upgrade && events.last().id == id)
        }),
{
    let rest = events.drop_last();
    let middle = reminders::after_events(book, rest, now);
    let step = reminders::effect_in(middle, events.last(), now);
    let before = reminders::opened(book, rest, now);
    let after = reminders::opened(book, events, now);
    let turned_before = reminders::upgraded(book, rest, now);
    let turned = reminders::upgraded(book, events, now);
    lemma_effect_keeps_event(middle, events.last(), now);
    if reminders::records_event(before, id) {
        let i = choose|i: int| 0 <= i < before.len() && #[trigger] before[i].event_id == id;
        assert(after[i].event_id == id);
    }
    if reminders::records_event(after, id) {
        let i = choose|i: int| 0 <= i < after.len() && #[trigger] after[i].event_id == id;
        if i < before.len() {
            assert(before[i].event_id == id);
        }
    }
    if step is Open {
        assert(after[after.len() - 1].event_id == events.last().id);
    }
    assert forall|r: RecordView| before.contains(r) implies #[trigger] after.contains(r) by {
        let i = before.index_of(r);
        assert(after[i] == r);
    }
    if turned_before.contains(id) {
        let i = turned_before.index_of(id);
        assert(turned[i] == id);
    }
    if step is Upgrade {
        assert(turned[turned.len() - 1] == events.last().id);
    }
}

/// A reminder was there before or its event is in the calendar.
proof fn lemma_domain(book: Reminders, events: Seq<EventView>, now: Moment, id: Seq<char>)
    requires
        reminders::after_events(book, events, now).contains_key(id),
    ensures
        book.contains_key(id) || reminders::fetched(events, id),
    decreases events.len(),
{
    if events.len() > 0 {
        let rest = events.drop_last();
        if events.last().id == id {
            assert(events[events.len() - 1].id == id);
        } else {
            lemma_domain(book, rest, now, id);
            if reminders::fetched(rest, id) {
                let i = choose|i: int| 0 <= i < rest.len() && #[trigger] rest[i].id == id;
                assert(events[i].id == id);
            }
        }
    }
}

/// A reminder whose event is not looked at stays as it is.
proof fn lemma_untouched(book: Reminders, events: Seq<EventView>, now: Moment, id: Seq<char>)
    requires
        !reminders::fetched(events, id),
    ensures
        reminders::after_events(book, events, now).get(id) == book.get(id),
        !reminders::records_event(reminders::opened(book, events, now), id),
        !reminders::upgraded(book, events, now).contains(id),
    decreases events.len(),
{
    if events.len() > 0 {
        let rest = events.drop_last();
        assert(events[events.len() - 1].id != id);
        assert(!reminders::fetched(rest, id)) by {
            if reminders::fetched(rest, id) {
                let i = choose|i: int| 0 <= i < rest.len() && #[trigger] rest[i].id == id;
                assert(events[i].id == id);
            }
        }
        lemma_untouched(book, rest, now, id);
        lemma_grows(book, events, now, id);
    }
}

/// A look at the event brings nothing about.
spec fn settled(book: Reminders, event: EventView, now: Moment) -> bool {
    reminders::effect_in(book, event, now) is Quiet
}

/// After a look at an event, a further look at it brings nothing about, and an event that
/// was settled stays settled.
proof fn lemma_settles(book: Reminders, event: EventView, now: Moment, other: EventView)
    ensures
        settled(reminders::after_event(book, event, now), event, now),
        settled(book, other, now) ==> settled(
            reminders::after_event(book, event, now),
            other,
            now,
        ),
{
}

/// After a look at the events each of them is settled.
proof fn lemma_all_settled(book: Reminders, events: Seq<EventView>, now: Moment, i: int)
    requires
        0 <= i < events.len(),
    ensures
        settled(reminders::after_events(book, events, now), events[i], now),
    decreases events.len(),
{
    let rest = events.drop_last();
    lemma_settles(reminders::after_events(book, rest, now), events.last(), now, events[i]);
    if i < events.len() - 1 {
        lemma_all_settled(book, rest, now, i);
        assert(rest[i] == events[i]);
    }
}

/// A look at settled events brings nothing about.
proof fn lemma_settled_is_quiet(book: Reminders, events: Seq<EventView>, now: Moment)
    requires
        forall|i: int| 0 <= i < events.len() ==> settled(book, #[trigger] events[i], now),
    ensures
        reminders::after_events(book, events, now) == book,
        reminders::opened(book, events, now).len() == 0,
        reminders::upgraded(book, events, now).len() == 0,
    decreases events.len(),
{
    if events.len() > 0 {
        let rest = events.drop_last();
        assert forall|i: int| 0 <= i < rest.len() implies settled(
            book,
            #[trigger] rest[i],
            now,
        ) by {
            assert(rest[i] == events[i]);
        }
        lemma_settled_is_quiet(book, rest, now);
        assert(settled(book, events[events.len() - 1], now));
    }
}

/// A look at two calendars, one behind the other, is a look at the one and then at the other: the
/// events are looked at one by one and in their order.
pub proof fn law_looks_follow_one_another(
    book: Reminders,
    one: Seq<EventView>,
    other: Seq<EventView>,
    now: Moment,
)
    ensures
        ({
            let middle = reminders::after_events(book, one, now);
            &&& reminders::after_events(book, one + other, now) == reminders::after_events(
                middle,
                other,
                now,
            )
            &&& reminders::opened(book, one + other, now) == reminders::opened(book, one, now)
                + reminders::opened(middle, other, now)
            &&& reminders::upgraded(book, one + other, now) == reminders::upgraded(book, one, now)
                + reminders::upgraded(middle, other, now)
        }),
    decreases other.len(),
{
    let middle = reminders::after_events(book, one, now);
    if other.len() == 0 {
        assert(one + other =~= one);
        assert(reminders::opened(book, one, now) + reminders::opened(middle, other, now)
            =~= reminders::opened(book, one, now));
        assert(reminders::upgraded(book, one, now) + reminders::upgraded(middle, other, now)
            =~= reminders::upgraded(book, one, now));
    } else {
        let rest = other.drop_last();
        law_looks_follow_one_another(book, one, rest, now);
        assert((one + other).drop_last() =~= one + rest);
        assert((one + other).last() == other.last());
        assert(reminders::opened(book, one + other, now) =~= reminders::opened(book, one, now)
            + reminders::opened(middle, other, now));
        assert(reminders::upgraded(book, one + other, now) =~= reminders::upgraded(book, one, now)
            + reminders::upgraded(middle, other, now));
    }
}

/// A look at one event does what that event and what is on record of it ask for, and leaves all
/// other reminders alone.
pub proof fn law_look_at_one_event(
    book: Reminders,
    event: EventView,
    now: Moment,
    other: Seq<char>,
)
    ensures
        ({
            let events = seq![event];
            let after = reminders::after_events(book, events, now);
            let opens = reminders::opened(book, events, now);
            let turns = reminders::upgraded(book, events, now);
            &&& other != event.id ==> after.get(other) == book.get(other)
            &&& match reminders::effect(book.get(event.id), event, now) {
                Effect::Quiet => after == book && opens.len() == 0 && turns.len() == 0,
                Effect::Open(record) => after.get(event.id) == Some(record) && opens == seq![record]
                    && turns.len() == 0,
                Effect::Upgrade(record) => after.get(event.id) == Some(record) && opens.len() == 0
                    && turns == seq![event.id],
            }
        }),
{
    let events = seq![event];
    let none = events.drop_last();
    assert(none =~= Seq::<EventView>::empty());
    assert(events.last() == event);
    assert(reminders::after_events(book, none, now) == book);
    assert(reminders::opened(book, none, now).len() == 0);
    assert(reminders::upgraded(book, none, now).len() == 0);
    match reminders::effect(book.get(event.id), event, now) {
        Effect::Open(record) => {
            assert(reminders::opened(book, events, now) =~= seq![record]);
        },
        Effect::Upgrade(_) => {
            assert(reminders::upgraded(book, events, now) =~= seq![event.id]);
        },
        Effect::Quiet => {},
    }
}

} // verus!
