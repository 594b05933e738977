use rokind_reminder::clock::Timestamp;
use rokind_reminder::reminders::{
    sort_by_start, timing_of, EventReminderRecord, EventWindowDisplayState, ReminderBook,
    ReminderPhase, SyncPlan, Timing,
};
use rokind_reminder::state::CalendarEventSummary;

fn some(s: &str) -> Option<String> {
    Some(s.to_string())
}

fn at(text: &str) -> Timestamp {
    Timestamp::parse_rfc3339(text).unwrap()
}

fn event(id: &str, start: &str) -> CalendarEventSummary {
    CalendarEventSummary {
        id: id.to_string(),
        title: format!("title of {}", id),
        start_at: start.to_string(),
        end_at: some("2024-05-01T11:00:00Z"),
        location: some("room"),
        meeting_url: some("https://m.example"),
    }
}

fn record(id: &str, start: &str, state: EventWindowDisplayState) -> EventReminderRecord {
    EventReminderRecord {
        event_id: id.to_string(),
        title: "t".to_string(),
        start_at: at(start),
        end_at: None,
        meeting_url: None,
        location: None,
        display_state: state,
    }
}

fn opened(plan: &SyncPlan) -> Vec<&str> {
    plan.to_open.iter().map(|r| r.event_id.as_str()).collect()
}

fn state_of(book: &ReminderBook, id: &str) -> Option<EventWindowDisplayState> {
    book.get(id).map(|r| r.display_state)
}

fn quiet(plan: &SyncPlan) -> bool {
    !plan.has_changes()
        && plan.to_close.is_empty()
        && plan.to_open.is_empty()
        && plan.to_upgrade.is_empty()
}

#[test]
fn announcements_begin_five_minutes_ahead() {
    let now = at("2024-05-01T10:00:00Z");
    assert!(timing_of(&at("2024-05-01T10:05:00.000000001Z"), &now) == Timing::Later);
    assert!(timing_of(&at("2024-05-01T10:05:00Z"), &now) == Timing::Upcoming);
    assert!(timing_of(&at("2024-05-01T10:00:00.000000001Z"), &now) == Timing::Upcoming);
    assert!(timing_of(&at("2024-05-01T10:00:00Z"), &now) == Timing::Started);
    assert!(timing_of(&at("2024-05-01T09:00:00Z"), &now) == Timing::Started);
}

#[test]
fn upcoming_and_running_events_open_windows() {
    let now = at("2024-05-01T10:00:00Z");
    let events = vec![
        event("later", "2024-05-01T10:05:01Z"),
        event("soon", "2024-05-01T19:05:00+09:00"),
        event("running", "2024-05-01T09:00:00Z"),
    ];
    let mut book = ReminderBook::new();
    let plan = book.look_at_calendar(&events, &now);
    assert_eq!(opened(&plan), ["running", "soon"]);
    assert!(plan.to_close.is_empty());
    assert!(plan.to_upgrade.is_empty());
    assert!(plan.has_changes());
    assert_eq!(state_of(&book, "later"), None);
    assert_eq!(state_of(&book, "soon"), Some(EventWindowDisplayState::ShowingUpcoming));
    assert_eq!(state_of(&book, "running"), Some(EventWindowDisplayState::ShowingCurrent));
    let soon = &plan.to_open[1];
    assert_eq!(soon.title, "title of soon");
    assert_eq!(soon.start_at, at("2024-05-01T10:05:00Z"));
    assert_eq!(soon.end_at, Some(at("2024-05-01T11:00:00Z")));
    assert_eq!(soon.location, some("room"));
    assert_eq!(soon.meeting_url, some("https://m.example"));
}

#[test]
fn windows_open_in_the_order_of_starts() {
    let now = at("2024-05-01T10:00:00Z");
    let events = vec![
        event("c", "2024-05-01T10:03:00Z"),
        event("a", "2024-05-01T10:01:00Z"),
        event("b2", "2024-05-01T10:02:00Z"),
        event("b1", "2024-05-01T10:02:00Z"),
    ];
    let mut book = ReminderBook::new();
    assert_eq!(opened(&book.look_at_calendar(&events, &now)), ["a", "b2", "b1", "c"]);
}

#[test]
fn sorting_keeps_the_order_of_equal_starts() {
    let s = EventWindowDisplayState::ShowingUpcoming;
    let records = vec![
        record("1", "2024-05-01T10:02:00Z", s),
        record("2", "2024-05-01T10:01:00Z", s),
        record("3", "2024-05-01T10:02:00Z", s),
        record("4", "2024-05-01T10:01:00Z", s),
    ];
    let sorted = sort_by_start(&records);
    let ids: Vec<&str> = sorted.iter().map(|r| r.event_id.as_str()).collect();
    assert_eq!(ids, ["2", "4", "1", "3"]);
    assert!(sort_by_start(&Vec::new()).is_empty());
}

#[test]
fn a_second_look_is_quiet() {
    let now = at("2024-05-01T10:00:00Z");
    let events = vec![
        event("soon", "2024-05-01T10:05:00Z"),
        event("running", "2024-05-01T09:00:00Z"),
    ];
    let mut book = ReminderBook::new();
    assert_eq!(book.look_at_calendar(&events, &now).to_open.len(), 2);
    assert!(quiet(&book.look_at_calendar(&events, &now)));
    assert!(quiet(&book.look_at_calendar(&events, &at("2024-05-01T10:00:30Z"))));
}

#[test]
fn open_windows_turn_over_at_the_start() {
    let mut events = vec![event("e", "2024-05-01T10:05:00Z")];
    let mut book = ReminderBook::new();
    book.look_at_calendar(&events, &at("2024-05-01T10:00:00Z"));
    events[0].end_at = some("2024-05-01T12:00:00Z");
    events[0].title = "renamed".to_string();
    let plan = book.look_at_calendar(&events, &at("2024-05-01T10:05:00Z"));
    assert!(plan.to_open.is_empty());
    assert_eq!(plan.to_upgrade, ["e"]);
    let record = book.get("e").unwrap();
    assert_eq!(record.display_state, EventWindowDisplayState::ShowingCurrent);
    assert_eq!(record.end_at, Some(at("2024-05-01T12:00:00Z")));
    assert_eq!(record.title, "title of e");
    assert!(quiet(&book.look_at_calendar(&events, &at("2024-05-01T10:06:00Z"))));
}

#[test]
fn a_reminder_closed_early_returns_at_the_start() {
    let mut events = vec![event("e", "2024-05-01T10:05:00Z")];
    let mut book = ReminderBook::new();
    book.look_at_calendar(&events, &at("2024-05-01T10:00:00Z"));
    book.dismiss("e", &at("2024-05-01T10:01:00Z"));
    assert_eq!(state_of(&book, "e"), Some(EventWindowDisplayState::DismissedBeforeStart));
    assert!(quiet(&book.look_at_calendar(&events, &at("2024-05-01T10:04:59Z"))));
    events[0].title = "renamed".to_string();
    let plan = book.look_at_calendar(&events, &at("2024-05-01T10:05:00Z"));
    assert_eq!(opened(&plan), ["e"]);
    assert_eq!(plan.to_open[0].title, "renamed");
    assert_eq!(state_of(&book, "e"), Some(EventWindowDisplayState::ShowingCurrent));
}

#[test]
fn a_reminder_closed_after_the_start_stays_closed() {
    let events = vec![event("e", "2024-05-01T10:05:00Z")];
    let mut book = ReminderBook::new();
    book.look_at_calendar(&events, &at("2024-05-01T10:05:00Z"));
    book.dismiss("e", &at("2024-05-01T10:05:00Z"));
    assert_eq!(state_of(&book, "e"), Some(EventWindowDisplayState::DismissedAfterStart));
    assert!(quiet(&book.look_at_calendar(&events, &at("2024-05-01T10:06:00Z"))));
    assert_eq!(state_of(&book, "e"), Some(EventWindowDisplayState::DismissedAfterStart));
}

#[test]
fn a_window_left_open_past_the_start_can_be_closed_for_good() {
    let events = vec![event("e", "2024-05-01T10:05:00Z")];
    let mut book = ReminderBook::new();
    book.look_at_calendar(&events, &at("2024-05-01T10:04:00Z"));
    book.dismiss("e", &at("2024-05-01T10:05:10Z"));
    assert_eq!(state_of(&book, "e"), Some(EventWindowDisplayState::DismissedAfterStart));
    assert!(quiet(&book.look_at_calendar(&events, &at("2024-05-01T10:05:30Z"))));
}

#[test]
fn an_event_is_announced_once_in_each_phase() {
    let events = vec![event("e", "2024-05-01T10:05:00Z")];
    let mut book = ReminderBook::new();
    let mut count: usize = 0;
    for minute in 0..20 {
        let now = at(&format!("2024-05-01T10:{:02}:00Z", minute));
        count += book.look_at_calendar(&events, &now).to_open.len();
        book.dismiss("e", &at(&format!("2024-05-01T10:{:02}:10Z", minute)));
    }
    assert_eq!(count, 2);
}

#[test]
fn a_moved_event_keeps_the_start_on_record_until_it_opens_again() {
    let mut events = vec![event("e", "2024-05-01T10:05:00Z")];
    let mut book = ReminderBook::new();
    book.look_at_calendar(&events, &at("2024-05-01T10:00:00Z"));
    events[0].start_at = "2024-05-01T10:01:00Z".to_string();
    let plan = book.look_at_calendar(&events, &at("2024-05-01T10:01:00Z"));
    assert_eq!(plan.to_upgrade, ["e"]);
    assert_eq!(book.get("e").unwrap().start_at, at("2024-05-01T10:05:00Z"));
    book.dismiss("e", &at("2024-05-01T10:02:00Z"));
    assert_eq!(state_of(&book, "e"), Some(EventWindowDisplayState::DismissedBeforeStart));
    assert_eq!(opened(&book.look_at_calendar(&events, &at("2024-05-01T10:02:30Z"))), ["e"]);
}

#[test]
fn windows_of_vanished_events_close() {
    let now = at("2024-05-01T10:00:00Z");
    let mut book = ReminderBook::new();
    let events = vec![
        event("open", "2024-05-01T10:01:00Z"),
        event("closed", "2024-05-01T10:02:00Z"),
        event("stays", "2024-05-01T10:03:00Z"),
    ];
    book.look_at_calendar(&events, &now);
    book.dismiss("closed", &now);
    let plan = book.look_at_calendar(&vec![event("stays", "2024-05-01T10:03:00Z")], &now);
    assert_eq!(plan.to_close, ["open"]);
    assert!(plan.has_changes());
    assert!(book.get("open").is_none());
    assert!(book.get("closed").is_none());
    assert!(book.get("stays").is_some());
}

#[test]
fn an_event_that_comes_back_is_announced_anew() {
    let now = at("2024-05-01T10:00:00Z");
    let events = vec![event("e", "2024-05-01T09:00:00Z")];
    let mut book = ReminderBook::new();
    book.look_at_calendar(&events, &now);
    book.dismiss("e", &now);
    assert!(quiet(&book.look_at_calendar(&Vec::new(), &now)));
    assert_eq!(opened(&book.look_at_calendar(&events, &now)), ["e"]);
}

#[test]
fn unreadable_starts_are_passed_over() {
    let now = at("2024-05-01T10:00:00Z");
    let mut book = ReminderBook::new();
    let mut open_end = event("open-ended", "2024-05-01T10:00:00Z");
    open_end.end_at = some("soon");
    let plan = book.look_at_calendar(&vec![event("bad", "tomorrow"), open_end], &now);
    assert_eq!(opened(&plan), ["open-ended"]);
    assert_eq!(plan.to_open[0].end_at, None);
    assert!(book.get("bad").is_none());
}

#[test]
fn an_event_listed_twice_opens_once() {
    let now = at("2024-05-01T10:00:00Z");
    let mut book = ReminderBook::new();
    let plan = book.look_at_calendar(
        &vec![event("e", "2024-05-01T10:01:00Z"), event("e", "2024-05-01T09:59:00Z")],
        &now,
    );
    assert_eq!(opened(&plan), ["e"]);
    assert_eq!(plan.to_upgrade, ["e"]);
    assert_eq!(state_of(&book, "e"), Some(EventWindowDisplayState::ShowingCurrent));
}

#[test]
fn closing_what_was_never_announced_changes_nothing() {
    let now = at("2024-05-01T10:00:00Z");
    let mut book = ReminderBook::new();
    book.dismiss("e", &now);
    assert!(book.get("e").is_none());
}

#[test]
fn a_cleared_book_is_empty() {
    let now = at("2024-05-01T10:00:00Z");
    let mut book = ReminderBook::new();
    book.look_at_calendar(&vec![event("e", "2024-05-01T10:00:00Z")], &now);
    book.clear();
    assert!(book.get("e").is_none());
    assert!(book.sorted_showing_records().is_empty());
}

#[test]
fn windows_that_stand_open() {
    let now = at("2024-05-01T10:00:00Z");
    let mut book = ReminderBook::new();
    let events = vec![
        event("late", "2024-05-01T10:04:00Z"),
        event("gone", "2024-05-01T10:02:00Z"),
        event("early", "2024-05-01T09:04:00Z"),
    ];
    book.look_at_calendar(&events, &now);
    book.dismiss("gone", &now);
    let showing = book.sorted_showing_records();
    let ids: Vec<&str> = showing.iter().map(|r| r.event_id.as_str()).collect();
    assert_eq!(ids, ["early", "late"]);
}

#[test]
fn payloads_of_reminders() {
    let states = [
        (EventWindowDisplayState::ShowingUpcoming, ReminderPhase::Upcoming, true),
        (EventWindowDisplayState::DismissedBeforeStart, ReminderPhase::Upcoming, false),
        (EventWindowDisplayState::ShowingCurrent, ReminderPhase::StartingNow, true),
        (EventWindowDisplayState::DismissedAfterStart, ReminderPhase::StartingNow, false),
    ];
    for (state, phase, showing) in states {
        let mut r = record("e", "2024-05-01T19:00:00+09:00", state);
        assert_eq!(r.to_payload().phase, phase);
        assert_eq!(state.is_showing(), showing);
        r.end_at = Some(at("2024-05-01T11:00:00.5Z"));
        r.location = some("room");
        r.meeting_url = some("https://m.example");
        let payload = r.to_payload();
        assert_eq!(payload.event_id, "e");
        assert_eq!(payload.title, "t");
        assert_eq!(payload.start_at, "2024-05-01T10:00:00+00:00");
        assert_eq!(payload.end_at, some("2024-05-01T11:00:00.500+00:00"));
        assert_eq!(payload.location, some("room"));
        assert_eq!(payload.meeting_url, some("https://m.example"));
    }
}

#[test]
fn a_moved_event_is_announced_at_most_twice() {
    let mut book = ReminderBook::new();
    let mut count: usize = 0;
    let mut events = vec![event("e", "2024-05-01T10:05:00Z")];
    for minute in 0..20 {
        if minute == 1 {
            events[0].start_at = "2024-05-01T10:01:00Z".to_string();
        }
        let now = at(&format!("2024-05-01T10:{:02}:00Z", minute));
        count += book.look_at_calendar(&events, &now).to_open.len();
        if minute > 0 {
            book.dismiss("e", &at(&format!("2024-05-01T10:{:02}:10Z", minute)));
        }
    }
    assert_eq!(count, 2);
}
