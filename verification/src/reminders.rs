//! The reminders of calendar events: which windows a look at the calendar opens, turns
//! over to the running phase or closes, and what a dismissal means for the next look.

use vstd::prelude::*;

use crate::clock;
use crate::clock::{Moment, Timestamp};
use crate::state;
use crate::state::{CalendarEventSummary, EventView};
use crate::text;

verus! {

/// How long before its start an event is announced, in minutes.
pub const REMINDER_UPCOMING_MINUTES: i64 = 5;

/// What the user sees of an event.
#[derive(Debug, Clone, Copy, PartialEq, Eq, Structural)]
pub enum EventWindowDisplayState {
    ShowingUpcoming,
    DismissedBeforeStart,
    ShowingCurrent,
    DismissedAfterStart,
}

impl EventWindowDisplayState {
    /// A window stands open.
    pub open spec fn shows(self) -> bool {
        self is ShowingUpcoming || self is ShowingCurrent
    }

    pub fn is_showing(self) -> (r: bool)
        ensures
            r == self.shows(),
    {
        match self {
            EventWindowDisplayState::ShowingUpcoming => true,
            EventWindowDisplayState::ShowingCurrent => true,
            EventWindowDisplayState::DismissedBeforeStart => false,
            EventWindowDisplayState::DismissedAfterStart => false,
        }
    }

    /// The event had started when the state was entered.
    pub open spec fn started(self) -> bool {
        self is ShowingCurrent || self is DismissedAfterStart
    }
}

/// What is known of an event that has been announced.
#[derive(Debug)]
pub struct EventReminderRecord {
    pub event_id: String,
    pub title: String,
    pub start_at: Timestamp,
    pub end_at: Option<Timestamp>,
    pub meeting_url: Option<String>,
    pub location: Option<String>,
    pub display_state: EventWindowDisplayState,
}

/// What is known of an event that has been announced, as texts and instants.
#[verifier::ext_equal]
pub struct RecordView {
    pub event_id: Seq<char>,
    pub title: Seq<char>,
    pub start_at: Moment,
    pub end_at: Option<Moment>,
    pub meeting_url: Option<Seq<char>>,
    pub location: Option<Seq<char>>,
    pub display_state: EventWindowDisplayState,
}

impl View for EventReminderRecord {
    type V = RecordView;

    open spec fn view(&self) -> RecordView {
        RecordView {
            event_id: self.event_id@,
            title: self.title@,
            start_at: self.start_at@,
            end_at: clock::opt_moment(self.end_at),
            meeting_url: text::opt_text(self.meeting_url),
            location: text::opt_text(self.location),
            display_state: self.display_state,
        }
    }
}

impl Clone for EventReminderRecord {
    fn clone(&self) -> (r: Self)
        ensures
            r@ == self@,
    {
        EventReminderRecord {
            event_id: self.event_id.clone(),
            title: self.title.clone(),
            start_at: self.start_at,
            end_at: clock::copy_opt_timestamp(&self.end_at),
            meeting_url: text::copy_opt(&self.meeting_url),
            location: text::copy_opt(&self.location),
            display_state: self.display_state,
        }
    }
}

/// The views of a list of records.
pub open spec fn record_views(records: Seq<EventReminderRecord>) -> Seq<RecordView> {
    records.map_values(|r: EventReminderRecord| r@)
}

/// The phase that a reminder window shows.
#[derive(Debug, Clone, Copy, PartialEq, Eq, Structural)]
pub enum ReminderPhase {
    Upcoming,
    StartingNow,
}

/// What a reminder window is told.
#[derive(Debug)]
pub struct EventReminderPayload {
    pub event_id: String,
    pub title: String,
    pub start_at: String,
    pub end_at: Option<String>,
    pub phase: ReminderPhase,
    pub meeting_url: Option<String>,
    pub location: Option<String>,
}

/// What a reminder window is told, as texts.
#[verifier::ext_equal]
pub struct PayloadView {
    pub event_id: Seq<char>,
    pub title: Seq<char>,
    pub start_at: Seq<char>,
    pub end_at: Option<Seq<char>>,
    pub phase: ReminderPhase,
    pub meeting_url: Option<Seq<char>>,
    pub location: Option<Seq<char>>,
}

impl View for EventReminderPayload {
    type V = PayloadView;

    open spec fn view(&self) -> PayloadView {
        PayloadView {
            event_id: self.event_id@,
            title: self.title@,
            start_at: self.start_at@,
            end_at: text::opt_text(self.end_at),
            phase: self.phase,
            meeting_url: text::opt_text(self.meeting_url),
            location: text::opt_text(self.location),
        }
    }
}

/// The RFC 3339 text of an optional instant.
pub open spec fn opt_moment_text(m: Option<Moment>) -> Option<Seq<char>> {
    match m {
        Some(m) => Some(clock::moment_text(m)),
        None => None,
    }
}

/// The RFC 3339 text of an optional timestamp.
pub fn opt_rfc3339(t: &Option<Timestamp>) -> (r: Option<String>)
    ensures
        text::opt_text(r) == opt_moment_text(clock::opt_moment(*t)),
{
    match t {
        Some(t) => Some(t.to_rfc3339()),
        None => None,
    }
}

impl RecordView {
    /// What the windows of the event are told.
    pub open spec fn payload(self) -> PayloadView {
        PayloadView {
            event_id: self.event_id,
            title: self.title,
            start_at: clock::moment_text(self.start_at),
            end_at: opt_moment_text(self.end_at),
            phase: if self.display_state.started() {
                ReminderPhase::StartingNow
            } else {
                ReminderPhase::Upcoming
            },
            meeting_url: self.meeting_url,
            location: self.location,
        }
    }
}

impl EventReminderRecord {
    /// What the windows of the event are told. In the years that RFC 3339 can write, the
    /// start reads back as the start of the record.
    pub fn to_payload(&self) -> (r: EventReminderPayload)
        ensures
            r@ == self@.payload(),
            clock::four_digit_year(self@.start_at.secs) ==> clock::read_moment(r@.start_at)
                == Some(self@.start_at),
    {
        EventReminderPayload {
            event_id: self.event_id.clone(),
            title: self.title.clone(),
            start_at: self.start_at.to_rfc3339(),
            end_at: opt_rfc3339(&self.end_at),
            phase: match self.display_state {
                EventWindowDisplayState::ShowingUpcoming => ReminderPhase::Upcoming,
                EventWindowDisplayState::DismissedBeforeStart => ReminderPhase::Upcoming,
                EventWindowDisplayState::ShowingCurrent => ReminderPhase::StartingNow,
                EventWindowDisplayState::DismissedAfterStart => ReminderPhase::StartingNow,
            },
            meeting_url: text::copy_opt(&self.meeting_url),
            location: text::copy_opt(&self.location),
        }
    }
}

/// The records that start at `m`, in their order.
pub open spec fn starting_at(records: Seq<RecordView>, m: Moment) -> Seq<RecordView> {
    records.filter(|r: RecordView| r.start_at == m)
}

/// No record starts later than one that follows it.
pub open spec fn ordered_by_start(records: Seq<RecordView>) -> bool {
    forall|i: int, j: int|
        0 <= i < j < records.len() ==> clock::not_after(
            #[trigger] records[i].start_at,
            #[trigger] records[j].start_at,
        )
}

/// `sorted` holds the records of `records` in the order of their starts, and those that
/// start together in the order that they had.
pub open spec fn stably_sorted(records: Seq<RecordView>, sorted: Seq<RecordView>) -> bool {
    &&& ordered_by_start(sorted)
    &&& sorted.to_multiset() == records.to_multiset()
    &&& forall|m: Moment| #[trigger] starting_at(sorted, m) == starting_at(records, m)
}

/// Putting a record behind all that start no later keeps a stable sort stable.
proof fn lemma_sorted_insert(
    records: Seq<RecordView>,
    sorted: Seq<RecordView>,
    at: int,
    x: RecordView,
)
    requires
        stably_sorted(records, sorted),
        0 <= at <= sorted.len(),
        forall|j: int| 0 <= j < at ==> clock::not_after(#[trigger] sorted[j].start_at, x.start_at),
        forall|j: int|
            at <= j < sorted.len() ==> !clock::not_after(
                #[trigger] sorted[j].start_at,
                x.start_at,
            ),
    ensures
        stably_sorted(records.push(x), sorted.insert(at, x)),
{
    let result = sorted.insert(at, x);
    let head = sorted.take(at);
    let tail = sorted.skip(at);
    assert(sorted =~= head + tail);
    assert(result =~= head.push(x) + tail);
    vstd::seq_lib::to_multiset_insert(sorted, at, x);
    vstd::seq_lib::to_multiset_build(records, x);
    assert forall|i: int, j: int| 0 <= i < j < result.len() implies clock::not_after(
        #[trigger] result[i].start_at,
        #[trigger] result[j].start_at,
    ) by {
        let a = if i < at {
            i
        } else {
            i - 1
        };
        let b = if j < at {
            j
        } else {
            j - 1
        };
        if i != at {
            assert(result[i] == sorted[a]);
        }
        if j != at {
            assert(result[j] == sorted[b]);
        }
    }
    assert forall|m: Moment| #[trigger] starting_at(result, m) == starting_at(
        records.push(x),
        m,
    ) by {
        let pred = |r: RecordView| r.start_at == m;
        Seq::filter_distributes_over_add(head, tail, pred);
        Seq::filter_distributes_over_add(head.push(x), tail, pred);
        head.lemma_filter_push(x, pred);
        records.lemma_filter_push(x, pred);
        assert(starting_at(sorted, m) == starting_at(records, m));
        if x.start_at == m {
            assert forall|i: int| 0 <= i < tail.len() implies !pred(#[trigger] tail[i]) by {
                assert(tail[i] == sorted[at + i]);
            }
            tail.lemma_all_neg_filter_empty(pred);
            assert(starting_at(sorted, m) =~= head.filter(pred));
            assert(starting_at(result, m) =~= head.filter(pred).push(x));
        }
    }
}

/// The records in the order of their starts; those that start together keep their order.
pub fn sort_by_start(records: &Vec<EventReminderRecord>) -> (r: Vec<EventReminderRecord>)
    ensures
        stably_sorted(record_views(records@), record_views(r@)),
{
    let mut r: Vec<EventReminderRecord> = Vec::new();
    let mut i: usize = 0;
    proof {
        assert(record_views(r@) =~= record_views(records@).take(0));
    }
    while i < records.len()
        invariant
            i <= records@.len(),
            stably_sorted(record_views(records@).take(i as int), record_views(r@)),
        decreases records@.len() - i,
    {
        let x = records[i].clone();
        let mut at: usize = r.len();
        while at > 0 && !r[at - 1].start_at.at_or_before(&x.start_at)
            invariant
                at <= r@.len(),
                forall|j: int|
                    at <= j < r@.len() ==> !clock::not_after(
                        #[trigger] record_views(r@)[j].start_at,
                        x@.start_at,
                    ),
            decreases at,
        {
            at = at - 1;
        }
        let ghost before = record_views(r@);
        proof {
            assert forall|j: int| 0 <= j < at implies clock::not_after(
                #[trigger] before[j].start_at,
                x@.start_at,
            ) by {
                assert(clock::not_after(before[at - 1].start_at, x@.start_at));
                if j < at - 1 {
                    assert(clock::not_after(before[j].start_at, before[at - 1].start_at));
                }
            }
            lemma_sorted_insert(record_views(records@).take(i as int), before, at as int, x@);
            assert(record_views(records@).take(i as int).push(x@) =~= record_views(records@).take(
                i + 1,
            ));
        }
        r.insert(at, x);
        assert(record_views(r@) =~= before.insert(at as int, x@));
        i = i + 1;
    }
    assert(record_views(records@).take(i as int) =~= record_views(records@));
    r
}

/// The records of announced events, each under the id of its event.
pub type Reminders = Map<Seq<char>, RecordView>;

/// No two records are of the same event.
pub open spec fn distinct_events(records: Seq<RecordView>) -> bool {
    forall|i: int, j: int|
        0 <= i < j < records.len() ==> #[trigger] records[i].event_id
            != #[trigger] records[j].event_id
}

/// A record of the event `id` stands among `records`.
pub open spec fn records_event(records: Seq<RecordView>, id: Seq<char>) -> bool {
    exists|i: int| 0 <= i < records.len() && #[trigger] records[i].event_id == id
}

/// A list of records as a map from event to record.
pub open spec fn by_event(records: Seq<RecordView>) -> Reminders {
    Map::new(
        |id: Seq<char>| records_event(records, id),
        |id: Seq<char>|
            records[choose|i: int| 0 <= i < records.len() && #[trigger] records[i].event_id == id],
    )
}

/// Among records of distinct events, each is the one that its event maps to.
proof fn lemma_by_event(records: Seq<RecordView>, i: int)
    requires
        distinct_events(records),
        0 <= i < records.len(),
    ensures
        by_event(records).contains_key(records[i].event_id),
        by_event(records)[records[i].event_id] == records[i],
{
    let id = records[i].event_id;
    let k = choose|k: int| 0 <= k < records.len() && #[trigger] records[k].event_id == id;
    assert(records_event(records, id));
    assert(records[k].event_id == records[i].event_id);
}

/// The events of a calendar include one with the given id.
pub open spec fn fetched(events: Seq<EventView>, id: Seq<char>) -> bool {
    exists|i: int| 0 <= i < events.len() && #[trigger] events[i].id == id
}

/// The reminders whose events are still in the calendar.
pub open spec fn kept(book: Reminders, events: Seq<EventView>) -> Reminders {
    Map::new(|id: Seq<char>| book.contains_key(id) && fetched(events, id), |id: Seq<char>| book[id])
}

/// The window of the event stands open, and the event has left the calendar.
pub open spec fn vanished(book: Reminders, events: Seq<EventView>, id: Seq<char>) -> bool {
    book.contains_key(id) && book[id].display_state.shows() && !fetched(events, id)
}

/// Where an event stands in relation to the time.
#[derive(Clone, Copy, PartialEq, Eq, Structural)]
pub enum Timing {
    /// It starts later than the announcement time from now.
    Later,
    /// It starts within the announcement time.
    Upcoming,
    /// It has started.
    Started,
}

/// Where an event that starts at `start` stands at `now`.
pub open spec fn timing(start: Moment, now: Moment) -> Timing {
    let remaining = clock::nanos_between(start, now);
    if remaining <= 0 {
        Timing::Started
    } else if remaining <= REMINDER_UPCOMING_MINUTES * 60 * 1_000_000_000 {
        Timing::Upcoming
    } else {
        Timing::Later
    }
}

/// Where an event that starts at `start` stands at `now`.
pub fn timing_of(start: &Timestamp, now: &Timestamp) -> (r: Timing)
    ensures
        r == timing(start@, now@),
{
    let remaining: i128 = start.nanos_since(now);
    if remaining <= 0 {
        Timing::Started
    } else if remaining <= (REMINDER_UPCOMING_MINUTES as i128) * 60 * 1_000_000_000 {
        Timing::Upcoming
    } else {
        Timing::Later
    }
}

/// The end of an event, where it is given and can be read.
pub open spec fn event_end(event: EventView) -> Option<Moment> {
    match event.end_at {
        Some(end) => clock::read_moment(end),
        None => None,
    }
}

/// The record of an event that is announced in the given state.
pub open spec fn announcement(
    event: EventView,
    start: Moment,
    state: EventWindowDisplayState,
) -> RecordView {
    RecordView {
        event_id: event.id,
        title: event.title,
        start_at: start,
        end_at: event_end(event),
        meeting_url: event.meeting_url,
        location: event.location,
        display_state: state,
    }
}

/// What a look at one event brings about.
pub enum Effect {
    /// Nothing.
    Quiet,
    /// Windows open for the record, which replaces any earlier one.
    Open(RecordView),
    /// The open windows turn over to the running phase, with the record as it now is.
    Upgrade(RecordView),
}

/// What a look at `event` brings about at `now`, given what is known of it.
pub open spec fn effect(known: Option<RecordView>, event: EventView, now: Moment) -> Effect {
    match clock::read_moment(event.start_at) {
        None => Effect::Quiet,
        Some(start) => match (known, timing(start, now)) {
            (None, Timing::Upcoming) => Effect::Open(
                announcement(event, start, EventWindowDisplayState::ShowingUpcoming),
            ),
            (None, Timing::Started) => Effect::Open(
                announcement(event, start, EventWindowDisplayState::ShowingCurrent),
            ),
            (Some(record), Timing::Started) => match record.display_state {
                EventWindowDisplayState::ShowingUpcoming => Effect::Upgrade(
                    RecordView {
                        end_at: event_end(event),
                        display_state: EventWindowDisplayState::ShowingCurrent,
                        ..record
                    },
                ),
                EventWindowDisplayState::DismissedBeforeStart => Effect::Open(
                    announcement(event, start, EventWindowDisplayState::ShowingCurrent),
                ),
                _ => Effect::Quiet,
            },
            _ => Effect::Quiet,
        },
    }
}

/// The effect of a look at `event` on the reminders in `book`.
pub open spec fn effect_in(book: Reminders, event: EventView, now: Moment) -> Effect {
    effect(book.get(event.id), event, now)
}

/// The reminders after a look at one event.
pub open spec fn after_event(book: Reminders, event: EventView, now: Moment) -> Reminders {
    match effect_in(book, event, now) {
        Effect::Quiet => book,
        Effect::Open(record) => book.insert(event.id, record),
        Effect::Upgrade(record) => book.insert(event.id, record),
    }
}

/// The reminders after a look at the events, one after the other.
pub open spec fn after_events(book: Reminders, events: Seq<EventView>, now: Moment) -> Reminders
    decreases events.len(),
{
    if events.len() == 0 {
        book
    } else {
        after_event(after_events(book, events.drop_last(), now), events.last(), now)
    }
}

/// The records that a look at the events opens windows for, in the order of the events.
pub open spec fn opened(book: Reminders, events: Seq<EventView>, now: Moment) -> Seq<RecordView>
    decreases events.len(),
{
    if events.len() == 0 {
        Seq::empty()
    } else {
        let earlier = opened(book, events.drop_last(), now);
        match effect_in(after_events(book, events.drop_last(), now), events.last(), now) {
            Effect::Open(record) => earlier.push(record),
            _ => earlier,
        }
    }
}

/// The events whose windows a look at the events turns over, in the order of the events.
pub open spec fn upgraded(book: Reminders, events: Seq<EventView>, now: Moment) -> Seq<Seq<char>>
    decreases events.len(),
{
    if events.len() == 0 {
        Seq::empty()
    } else {
        let earlier = upgraded(book, events.drop_last(), now);
        match effect_in(after_events(book, events.drop_last(), now), events.last(), now) {
            Effect::Upgrade(_) => earlier.push(events.last().id),
            _ => earlier,
        }
    }
}

/// What a look at the calendar asks of the windows.
#[derive(Debug)]
pub struct SyncPlan {
    /// Events whose windows close.
    pub to_close: Vec<String>,
    /// Records that windows open for, in the order of their starts.
    pub to_open: Vec<EventReminderRecord>,
    /// Events whose windows turn over to the running phase.
    pub to_upgrade: Vec<String>,
}

impl SyncPlan {
    /// The plan asks for something.
    pub open spec fn changes(self) -> bool {
        self.to_close@.len() > 0 || self.to_open@.len() > 0 || self.to_upgrade@.len() > 0
    }

    pub fn has_changes(&self) -> (r: bool)
        ensures
            r == self.changes(),
    {
        !self.to_close.is_empty() || !self.to_open.is_empty() || !self.to_upgrade.is_empty()
    }
}

/// `ids` names each event of which `wanted` holds once, and no other.
pub open spec fn names_exactly(ids: Seq<Seq<char>>, wanted: spec_fn(Seq<char>) -> bool) -> bool {
    &&& ids.no_duplicates()
    &&& forall|id: Seq<char>| #[trigger] ids.contains(id) <==> wanted(id)
}

/// What a look at the events at `now` asks of the windows, given the reminders before it:
/// those of vanished events close; those of the opened records open in the order of their
/// starts, and in the order of the calendar where they start together; those of the upgraded
/// events turn over, in the order of the calendar.
pub open spec fn plan_of(
    plan: SyncPlan,
    book: Reminders,
    events: Seq<EventView>,
    now: Moment,
) -> bool {
    &&& names_exactly(
        text::texts(plan.to_close@),
        |id: Seq<char>| vanished(book, events, id),
    )
    &&& stably_sorted(opened(kept(book, events), events, now), record_views(plan.to_open@))
    &&& text::texts(plan.to_upgrade@) == upgraded(kept(book, events), events, now)
}

/// Where the record of the event `id` stands, if anywhere.
fn find_record(records: &Vec<EventReminderRecord>, id: &str) -> (r: Option<usize>)
    ensures
        match r {
            Some(i) => i < records@.len() && record_views(records@)[i as int].event_id == id@,
            None => !records_event(record_views(records@), id@),
        },
{
    let mut i: usize = 0;
    while i < records.len()
        invariant
            i <= records@.len(),
            forall|j: int|
                0 <= j < i ==> #[trigger] record_views(records@)[j].event_id != id@,
        decreases records@.len() - i,
    {
        if text::same_text(records[i].event_id.as_str(), id) {
            return Some(i);
        }
        i = i + 1;
    }
    None
}

/// Whether the events include one with the given id.
fn is_fetched(events: &Vec<CalendarEventSummary>, id: &str) -> (r: bool)
    ensures
        r == fetched(state::event_views(events@), id@),
{
    let mut i: usize = 0;
    while i < events.len()
        invariant
            i <= events@.len(),
            forall|j: int|
                0 <= j < i ==> #[trigger] state::event_views(events@)[j].id != id@,
        decreases events@.len() - i,
    {
        if text::same_text(events[i].id.as_str(), id) {
            assert(state::event_views(events@)[i as int].id == id@);
            return true;
        }
        i = i + 1;
    }
    false
}

/// Files a record under its event, in the place of any earlier one.
fn file_record(records: &mut Vec<EventReminderRecord>, record: EventReminderRecord)
    requires
        distinct_events(record_views(old(records)@)),
    ensures
        distinct_events(record_views(final(records)@)),
        by_event(record_views(final(records)@)) == by_event(record_views(old(records)@)).insert(
            record@.event_id,
            record@,
        ),
{
    let ghost before = record_views(records@);
    let ghost entry = record@;
    match find_record(records, record.event_id.as_str()) {
        Some(i) => {
            records.set(i, record);
            proof {
                let after = record_views(records@);
                assert(after =~= before.update(i as int, entry));
                lemma_filed(before, after, entry);
            }
        },
        None => {
            records.push(record);
            proof {
                let after = record_views(records@);
                assert(after =~= before.push(entry));
                lemma_filed(before, after, entry);
            }
        },
    }
}

/// A list of distinct events that agrees with an earlier one but for one record maps
/// each event as before, but for that record's.
proof fn lemma_filed(before: Seq<RecordView>, after: Seq<RecordView>, entry: RecordView)
    requires
        distinct_events(before),
        (exists|i: int|
            0 <= i < before.len() && #[trigger] before[i].event_id == entry.event_id && after
                == before.update(i, entry)) || (!records_event(before, entry.event_id) && after
            == before.push(entry)),
    ensures
        distinct_events(after),
        by_event(after) == by_event(before).insert(entry.event_id, entry),
{
    let place = if records_event(before, entry.event_id) {
        choose|i: int|
            0 <= i < before.len() && #[trigger] before[i].event_id == entry.event_id && after
                == before.update(i, entry)
    } else {
        before.len() as int
    };
    assert(after[place] == entry);
    assert forall|i: int, j: int| 0 <= i < j < after.len() implies #[trigger] after[i].event_id
        != #[trigger] after[j].event_id by {
        if i != place {
            assert(after[i] == before[i]);
        }
        if j != place {
            assert(after[j] == before[j]);
        }
    }
    let m = by_event(after);
    let n = by_event(before).insert(entry.event_id, entry);
    lemma_by_event(after, place);
    assert forall|id: Seq<char>| #[trigger] m.contains_key(id) == n.contains_key(id) by {
        if records_event(before, id) {
            let i = choose|i: int| 0 <= i < before.len() && #[trigger] before[i].event_id == id;
            assert(after[i].event_id == id);
        }
        if records_event(after, id) && id != entry.event_id {
            let i = choose|i: int| 0 <= i < after.len() && #[trigger] after[i].event_id == id;
            assert(after[i] == before[i]);
        }
    }
    assert forall|id: Seq<char>| m.contains_key(id) implies #[trigger] m[id] == n[id] by {
        let i = choose|i: int| 0 <= i < after.len() && #[trigger] after[i].event_id == id;
        lemma_by_event(after, i);
        if id != entry.event_id {
            assert(after[i] == before[i]);
            lemma_by_event(before, i);
        }
    }
    assert(m =~= n);
}

/// Takes out the records whose events have left the calendar, and lists those of them
/// whose windows stand open.
fn drop_unfetched(
    records: &Vec<EventReminderRecord>,
    events: &Vec<CalendarEventSummary>,
) -> (r: (Vec<EventReminderRecord>, Vec<String>))
    requires
        distinct_events(record_views(records@)),
    ensures
        distinct_events(record_views(r.0@)),
        by_event(record_views(r.0@)) == kept(
            by_event(record_views(records@)),
            state::event_views(events@),
        ),
        names_exactly(
            text::texts(r.1@),
            |id: Seq<char>|
                vanished(by_event(record_views(records@)), state::event_views(events@), id),
        ),
{
    let mut keep: Vec<EventReminderRecord> = Vec::new();
    let mut closed: Vec<String> = Vec::new();
    let ghost all = record_views(records@);
    let ghost calendar = state::event_views(events@);
    let mut i: usize = 0;
    while i < records.len()
        invariant
            i <= records@.len(),
            all == record_views(records@),
            calendar == state::event_views(events@),
            distinct_events(all),
            forall|k: int|
                0 <= k < keep@.len() ==> came_from(
                    all,
                    i as int,
                    #[trigger] record_views(keep@)[k],
                ) && fetched(calendar, record_views(keep@)[k].event_id),
            forall|j: int|
                0 <= j < i && fetched(calendar, all[j].event_id) ==> record_views(keep@).contains(
                    #[trigger] all[j],
                ),
            distinct_events(record_views(keep@)),
            text::texts(closed@).no_duplicates(),
            forall|id: Seq<char>| #[trigger]
                text::texts(closed@).contains(id) <==> closes_before(all, calendar, i as int, id),
        decreases records@.len() - i,
    {
        let record = &records[i];
        let ghost kept_before = record_views(keep@);
        let ghost closed_before = text::texts(closed@);
        assert(all[i as int] == record@);
        if is_fetched(events, record.event_id.as_str()) {
            let copy = record.clone();
            keep.push(copy);
            assert(record_views(keep@) =~= kept_before.push(record@));
            assert(record_views(keep@).last() == all[i as int]);
        } else if record.display_state.is_showing() {
            let id = record.event_id.clone();
            closed.push(id);
            assert(text::texts(closed@) =~= closed_before.push(record@.event_id));
            assert(!closed_before.contains(record@.event_id)) by {
                if closes_before(all, calendar, i as int, record@.event_id) {
                    let j = choose|j: int|
                        0 <= j < i && #[trigger] all[j].event_id == record@.event_id;
                    assert(all[j].event_id != all[i as int].event_id);
                }
            }
        }
        proof {
            let next = i + 1;
            assert forall|k: int| 0 <= k < keep@.len() implies came_from(
                all,
                next,
                #[trigger] record_views(keep@)[k],
            ) && fetched(calendar, record_views(keep@)[k].event_id) by {
                if k < kept_before.len() {
                    assert(record_views(keep@)[k] == kept_before[k]);
                    assert(came_from(all, i as int, kept_before[k]));
                }
            }
            assert forall|j: int| 0 <= j < next && fetched(calendar, all[j].event_id) implies
                record_views(keep@).contains(#[trigger] all[j]) by {
                if j < i {
                    let k = choose|k: int|
                        0 <= k < kept_before.len() && kept_before[k] == all[j];
                    assert(record_views(keep@)[k] == all[j]);
                } else {
                    assert(record_views(keep@)[record_views(keep@).len() - 1] == all[j]);
                }
            }
            assert forall|a: int, b: int| 0 <= a < b < record_views(keep@).len() implies
                #[trigger] record_views(keep@)[a].event_id
                    != #[trigger] record_views(keep@)[b].event_id by {
                assert(record_views(keep@)[a] == kept_before[a]);
                if b < kept_before.len() {
                    assert(record_views(keep@)[b] == kept_before[b]);
                } else {
                    let j = choose|j: int| 0 <= j < i && #[trigger] all[j] == kept_before[a];
                    assert(all[j].event_id != all[i as int].event_id);
                }
            }
            assert forall|id: Seq<char>| #[trigger]
                text::texts(closed@).contains(id) <==> closes_before(all, calendar, next, id) by {
                assert(closed_before.contains(id) <==> closes_before(all, calendar, i as int, id));
                let now_closed = text::texts(closed@);
                if closed_before.contains(id) {
                    let k = closed_before.index_of(id);
                    assert(now_closed[k] == id);
                }
                if closes_before(all, calendar, next, id) && !closes_before(
                    all,
                    calendar,
                    i as int,
                    id,
                ) {
                    assert(all[i as int].event_id == id);
                    assert(now_closed[now_closed.len() - 1] == id);
                }
            }
        }
        i = i + 1;
    }
    proof {
        let book = by_event(all);
        let left = by_event(record_views(keep@));
        let wanted = kept(book, calendar);
        assert forall|id: Seq<char>| #[trigger] left.contains_key(id) == wanted.contains_key(id) by {
            if left.contains_key(id) {
                let k = choose|k: int|
                    0 <= k < keep@.len() && #[trigger] record_views(keep@)[k].event_id == id;
                let j = choose|j: int|
                    0 <= j < i && #[trigger] all[j] == record_views(keep@)[k];
                assert(all[j].event_id == id);
            }
            if wanted.contains_key(id) {
                let j = choose|j: int| 0 <= j < all.len() && #[trigger] all[j].event_id == id;
                let k = record_views(keep@).index_of(all[j]);
                assert(record_views(keep@)[k].event_id == id);
            }
        }
        assert forall|id: Seq<char>| left.contains_key(id) implies #[trigger] left[id]
            == wanted[id] by {
            let k = choose|k: int|
                0 <= k < keep@.len() && #[trigger] record_views(keep@)[k].event_id == id;
            lemma_by_event(record_views(keep@), k);
            let j = choose|j: int| 0 <= j < i && #[trigger] all[j] == record_views(keep@)[k];
            lemma_by_event(all, j);
        }
        assert(left =~= wanted);
        assert forall|id: Seq<char>| #[trigger]
            text::texts(closed@).contains(id) <==> vanished(book, calendar, id) by {
            if records_event(all, id) {
                let j = choose|j: int| 0 <= j < all.len() && #[trigger] all[j].event_id == id;
                lemma_by_event(all, j);
            }
            if closes_before(all, calendar, i as int, id) {
                let j = choose|j: int|
                    0 <= j < i && #[trigger] all[j].event_id == id && all[j].display_state.shows()
                        && !fetched(calendar, id);
                lemma_by_event(all, j);
            }
        }
    }
    (keep, closed)
}

/// The record is one of the first `n`.
spec fn came_from(all: Seq<RecordView>, n: int, record: RecordView) -> bool {
    exists|j: int| 0 <= j < n && #[trigger] all[j] == record
}

/// One of the first `n` records is of the event `id`, shows a window, and has lost its event.
spec fn closes_before(
    all: Seq<RecordView>,
    calendar: Seq<EventView>,
    n: int,
    id: Seq<char>,
) -> bool {
    exists|j: int|
        0 <= j < n && #[trigger] all[j].event_id == id && all[j].display_state.shows() && !fetched(
            calendar,
            id,
        )
}

/// The records of announced events, at most one for each event.
#[derive(Debug)]
pub struct ReminderBook {
    records: Vec<EventReminderRecord>,
}

impl View for ReminderBook {
    type V = Reminders;

    closed spec fn view(&self) -> Reminders {
        by_event(record_views(self.records@))
    }
}

impl ReminderBook {
    #[verifier::type_invariant]
    closed spec fn one_record_each(self) -> bool {
        distinct_events(record_views(self.records@))
    }

    /// No event announced yet.
    pub fn new() -> (r: ReminderBook)
        ensures
            r@ == Map::<Seq<char>, RecordView>::empty(),
    {
        let r = ReminderBook { records: Vec::new() };
        assert(r@ =~= Map::<Seq<char>, RecordView>::empty());
        r
    }

    /// The record of the event, if it has been announced.
    pub fn get(&self, event_id: &str) -> (r: Option<&EventReminderRecord>)
        ensures
            match r {
                Some(record) => self@.get(event_id@) == Some(record@),
                None => self@.get(event_id@) is None,
            },
    {
        proof {
            use_type_invariant(self);
        }
        match find_record(&self.records, event_id) {
            Some(i) => {
                proof {
                    lemma_by_event(record_views(self.records@), i as int);
                }
                Some(&self.records[i])
            },
            None => None,
        }
    }
}

/// The record of an event that is announced in the given state.
fn announce(
    event: &CalendarEventSummary,
    start: Timestamp,
    end: Option<Timestamp>,
    display_state: EventWindowDisplayState,
) -> (r: EventReminderRecord)
    requires
        clock::opt_moment(end) == event_end(event@),
    ensures
        r@ == announcement(event@, start@, display_state),
{
    EventReminderRecord {
        event_id: event.id.clone(),
        title: event.title.clone(),
        start_at: start,
        end_at: end,
        meeting_url: text::copy_opt(&event.meeting_url),
        location: text::copy_opt(&event.location),
        display_state,
    }
}

/// What a look at one event asks of the windows.
enum Outcome {
    Quiet,
    Open(EventReminderRecord),
    Upgrade,
}

/// Looks at one event and brings its record up to date.
fn look_at_event(
    records: &mut Vec<EventReminderRecord>,
    event: &CalendarEventSummary,
    now: &Timestamp,
) -> (r: Outcome)
    requires
        distinct_events(record_views(old(records)@)),
    ensures
        distinct_events(record_views(final(records)@)),
        by_event(record_views(final(records)@)) == after_event(
            by_event(record_views(old(records)@)),
            event@,
            now@,
        ),
        match effect_in(by_event(record_views(old(records)@)), event@, now@) {
            Effect::Quiet => r is Quiet,
            Effect::Open(record) => r matches Outcome::Open(opened) && opened@ == record,
            Effect::Upgrade(_) => r is Upgrade,
        },
{
    let ghost book = by_event(record_views(records@));
    let start = match Timestamp::parse_rfc3339(event.start_at.as_str()) {
        Some(start) => start,
        None => {
            return Outcome::Quiet;
        },
    };
    let end = match &event.end_at {
        Some(end) => Timestamp::parse_rfc3339(end.as_str()),
        None => None,
    };
    let timing = timing_of(&start, now);
    match find_record(records, event.id.as_str()) {
        None => {
            assert(book.get(event@.id) is None);
            let display_state = match timing {
                Timing::Later => {
                    return Outcome::Quiet;
                },
                Timing::Upcoming => EventWindowDisplayState::ShowingUpcoming,
                Timing::Started => EventWindowDisplayState::ShowingCurrent,
            };
            let record = announce(event, start, end, display_state);
            file_record(records, record.clone());
            Outcome::Open(record)
        },
        Some(i) => {
            proof {
                lemma_by_event(record_views(records@), i as int);
                assert(book.get(event@.id) == Some(records@[i as int]@));
            }
            match (timing, records[i].display_state) {
                (Timing::Started, EventWindowDisplayState::ShowingUpcoming) => {
                    let mut record = records[i].clone();
                    record.display_state = EventWindowDisplayState::ShowingCurrent;
                    record.end_at = end;
                    file_record(records, record);
                    Outcome::Upgrade
                },
                (Timing::Started, EventWindowDisplayState::DismissedBeforeStart) => {
                    let record = announce(
                        event,
                        start,
                        end,
                        EventWindowDisplayState::ShowingCurrent,
                    );
                    file_record(records, record.clone());
                    Outcome::Open(record)
                },
                _ => Outcome::Quiet,
            }
        },
    }
}

impl ReminderBook {
    /// Looks at the events of the calendar at `now`: forgets the reminders whose events are
    /// gone, brings the others up to date, and says what the windows have to do.
    pub fn look_at_calendar(
        &mut self,
        events: &Vec<CalendarEventSummary>,
        now: &Timestamp,
    ) -> (plan: SyncPlan)
        ensures
            final(self)@ == after_events(
                kept(old(self)@, state::event_views(events@)),
                state::event_views(events@),
                now@,
            ),
            plan_of(plan, old(self)@, state::event_views(events@), now@),
    {
        proof {
            use_type_invariant(&*self);
        }
        let ghost calendar = state::event_views(events@);
        let ghost book = kept(self@, calendar);
        let (mut records, to_close) = drop_unfetched(&self.records, events);
        let mut to_open: Vec<EventReminderRecord> = Vec::new();
        let mut to_upgrade: Vec<String> = Vec::new();
        let mut i: usize = 0;
        proof {
            assert(calendar.take(0) =~= Seq::<EventView>::empty());
            assert(record_views(to_open@) =~= Seq::<RecordView>::empty());
            assert(text::texts(to_upgrade@) =~= Seq::<Seq<char>>::empty());
        }
        while i < events.len()
            invariant
                i <= events@.len(),
                calendar == state::event_views(events@),
                distinct_events(record_views(records@)),
                by_event(record_views(records@)) == after_events(
                    book,
                    calendar.take(i as int),
                    now@,
                ),
                record_views(to_open@) == opened(book, calendar.take(i as int), now@),
                text::texts(to_upgrade@) == upgraded(book, calendar.take(i as int), now@),
            decreases events@.len() - i,
        {
            let event = &events[i];
            let ghost opened_before = record_views(to_open@);
            let ghost upgraded_before = text::texts(to_upgrade@);
            proof {
                assert(calendar.take(i + 1).drop_last() =~= calendar.take(i as int));
                assert(calendar.take(i + 1).last() == event@);
            }
            match look_at_event(&mut records, event, now) {
                Outcome::Quiet => {},
                Outcome::Open(record) => {
                    let ghost entry = record@;
                    to_open.push(record);
                    assert(record_views(to_open@) =~= opened_before.push(entry));
                },
                Outcome::Upgrade => {
                    let id = event.id.clone();
                    to_upgrade.push(id);
                    assert(text::texts(to_upgrade@) =~= upgraded_before.push(event@.id));
                },
            }
            i = i + 1;
        }
        assert(calendar.take(i as int) =~= calendar);
        self.records = records;
        SyncPlan { to_close, to_open: sort_by_start(&to_open), to_upgrade }
    }

    /// Notes that the user closed the windows of the event at `now`.
    pub fn dismiss(&mut self, event_id: &str, now: &Timestamp)
        ensures
            final(self)@ == dismissed(old(self)@, event_id@, now@),
    {
        proof {
            use_type_invariant(&*self);
        }
        match find_record(&self.records, event_id) {
            Some(i) => {
                let mut record = self.records[i].clone();
                proof {
                    lemma_by_event(record_views(self.records@), i as int);
                }
                record.display_state = if record.start_at.at_or_before(now) {
                    EventWindowDisplayState::DismissedAfterStart
                } else {
                    EventWindowDisplayState::DismissedBeforeStart
                };
                let mut records: Vec<EventReminderRecord> = Vec::new();
                assert(distinct_events(record_views(records@)));
                std::mem::swap(&mut records, &mut self.records);
                file_record(&mut records, record);
                self.records = records;
            },
            None => {},
        }
    }

    /// Forgets every reminder.
    pub fn clear(&mut self)
        ensures
            final(self)@ == Map::<Seq<char>, RecordView>::empty(),
    {
        self.records = Vec::new();
        assert(self@ =~= Map::<Seq<char>, RecordView>::empty());
    }
}

/// Every reminder of a book is filed under the event that it is of.
pub proof fn law_filed_under_own_event(book: &ReminderBook, id: Seq<char>)
    requires
        book@.contains_key(id),
    ensures
        book@[id].event_id == id,
{
}

/// A record after the user closed the windows of its event at `now`.
pub open spec fn closed_record(record: RecordView, now: Moment) -> RecordView {
    RecordView {
        display_state: if clock::not_after(record.start_at, now) {
            EventWindowDisplayState::DismissedAfterStart
        } else {
            EventWindowDisplayState::DismissedBeforeStart
        },
        ..record
    }
}

/// The reminders after the user closed the windows of the event `id` at `now`.
pub open spec fn dismissed(book: Reminders, id: Seq<char>, now: Moment) -> Reminders {
    if book.contains_key(id) {
        book.insert(id, closed_record(book[id], now))
    } else {
        book
    }
}

/// `records` holds, once each, the reminders whose windows stand open.
pub open spec fn lists_showing(book: Reminders, records: Seq<RecordView>) -> bool {
    &&& distinct_events(records)
    &&& forall|i: int|
        0 <= i < records.len() ==> book.get(#[trigger] records[i].event_id) == Some(records[i])
            && records[i].display_state.shows()
    &&& forall|id: Seq<char>| #[trigger]
        book.contains_key(id) && book[id].display_state.shows() ==> records_event(records, id)
}

/// The events whose windows stand open.
pub open spec fn showing_events(book: Reminders) -> Set<Seq<char>> {
    Set::new(|id: Seq<char>| book.contains_key(id) && book[id].display_state.shows())
}

/// A list of the reminders whose windows stand open is as long as there are such events.
pub proof fn lemma_showing_count(book: Reminders, records: Seq<RecordView>)
    requires
        lists_showing(book, records),
    ensures
        records.len() == showing_events(book).len(),
{
    let ids = records.map_values(|r: RecordView| r.event_id);
    assert(ids.no_duplicates());
    ids.unique_seq_to_set();
    assert forall|id: Seq<char>| #[trigger] ids.to_set().contains(id) == showing_events(
        book,
    ).contains(id) by {
        if ids.contains(id) {
            let i = ids.index_of(id);
            assert(book.get(records[i].event_id) == Some(records[i]));
        }
        if book.contains_key(id) && book[id].display_state.shows() {
            let i = choose|i: int| 0 <= i < records.len() && #[trigger] records[i].event_id == id;
            assert(ids[i] == id);
        }
    }
    assert(ids.to_set() =~= showing_events(book));
}

impl ReminderBook {
    /// The reminders whose windows stand open, in the order of their starts. The order of
    /// those that start together is left open.
    pub fn sorted_showing_records(&self) -> (r: Vec<EventReminderRecord>)
        ensures
            lists_showing(self@, record_views(r@)),
            ordered_by_start(record_views(r@)),
    {
        proof {
            use_type_invariant(self);
        }
        let ghost all = record_views(self.records@);
        let mut showing: Vec<EventReminderRecord> = Vec::new();
        let mut i: usize = 0;
        while i < self.records.len()
            invariant
                i <= self.records@.len(),
                all == record_views(self.records@),
                distinct_events(all),
                distinct_events(record_views(showing@)),
                forall|k: int|
                    0 <= k < showing@.len() ==> came_from(
                        all,
                        i as int,
                        #[trigger] record_views(showing@)[k],
                    ) && record_views(showing@)[k].display_state.shows(),
                forall|j: int|
                    0 <= j < i && all[j].display_state.shows() ==> record_views(
                        showing@,
                    ).contains(#[trigger] all[j]),
            decreases self.records@.len() - i,
        {
            let record = &self.records[i];
            let ghost before = record_views(showing@);
            assert(all[i as int] == record@);
            if record.display_state.is_showing() {
                let copy = record.clone();
                showing.push(copy);
                assert(record_views(showing@) =~= before.push(record@));
            }
            proof {
                let after = record_views(showing@);
                assert forall|k: int| 0 <= k < showing@.len() implies came_from(
                    all,
                    i + 1,
                    #[trigger] after[k],
                ) && after[k].display_state.shows() by {
                    if k < before.len() {
                        assert(after[k] == before[k]);
                        assert(came_from(all, i as int, before[k]));
                    } else {
                        assert(after[k] == all[i as int]);
                    }
                }
                assert forall|j: int| 0 <= j < i + 1 && all[j].display_state.shows() implies
                    after.contains(#[trigger] all[j]) by {
                    if j < i {
                        let k = before.index_of(all[j]);
                        assert(after[k] == all[j]);
                    } else {
                        assert(after[after.len() - 1] == all[j]);
                    }
                }
                assert forall|a: int, b: int| 0 <= a < b < after.len() implies
                    #[trigger] after[a].event_id != #[trigger] after[b].event_id by {
                    assert(after[a] == before[a]);
                    if b < before.len() {
                        assert(after[b] == before[b]);
                    } else {
                        let j = choose|j: int| 0 <= j < i && #[trigger] all[j] == before[a];
                        assert(all[j].event_id != all[i as int].event_id);
                    }
                }
            }
            i = i + 1;
        }
        let r = sort_by_start(&showing);
        proof {
            let unsorted = record_views(showing@);
            let sorted = record_views(r@);
            lemma_same_members(unsorted, sorted);
            assert forall|k: int| 0 <= k < sorted.len() implies self@.get(
                #[trigger] sorted[k].event_id,
            ) == Some(sorted[k]) && sorted[k].display_state.shows() by {
                assert(sorted.contains(sorted[k]));
                let m = unsorted.index_of(sorted[k]);
                assert(came_from(all, i as int, unsorted[m]));
                let j = choose|j: int| 0 <= j < i && #[trigger] all[j] == unsorted[m];
                lemma_by_event(all, j);
            }
            assert forall|id: Seq<char>| #[trigger]
                self@.contains_key(id) && self@[id].display_state.shows() implies records_event(
                sorted,
                id,
            ) by {
                let j = choose|j: int| 0 <= j < all.len() && #[trigger] all[j].event_id == id;
                lemma_by_event(all, j);
                assert(sorted.contains(all[j]));
                let k = sorted.index_of(all[j]);
                assert(sorted[k].event_id == id);
            }
        }
        r
    }
}

/// Lists of records with the same contents have the same members, and the one is of
/// distinct events where the other is.
proof fn lemma_same_members(a: Seq<RecordView>, b: Seq<RecordView>)
    requires
        a.to_multiset() == b.to_multiset(),
        distinct_events(a),
    ensures
        forall|r: RecordView| #[trigger] b.contains(r) <==> a.contains(r),
        distinct_events(b),
{
    broadcast use vstd::seq_lib::group_to_multiset_ensures;

    assert forall|r: RecordView| #[trigger] b.contains(r) <==> a.contains(r) by {
        assert(a.contains(r) <==> a.to_multiset().count(r) > 0);
        assert(b.contains(r) <==> b.to_multiset().count(r) > 0);
    }
    assert forall|i: int, j: int| 0 <= i < a.len() && 0 <= j < a.len() && i != j implies a[i]
        != a[j] by {
        if i < j {
            assert(a[i].event_id != a[j].event_id);
        } else {
            assert(a[j].event_id != a[i].event_id);
        }
    }
    a.lemma_multiset_has_no_duplicates();
    b.lemma_multiset_has_no_duplicates_conv();
    assert forall|i: int, j: int| 0 <= i < j < b.len() implies #[trigger] b[i].event_id
        != #[trigger] b[j].event_id by {
        assert(b.contains(b[i]) && b.contains(b[j]));
        let p = a.index_of(b[i]);
        let q = a.index_of(b[j]);
        if p < q {
            assert(a[p].event_id != a[q].event_id);
        } else if q < p {
            assert(a[q].event_id != a[p].event_id);
        } else {
            assert(b[i] == b[j]);
        }
    }
}

} // verus!
