use rokind_reminder::clock::Timestamp;
use rokind_reminder::reminders::{EventReminderRecord, EventWindowDisplayState};
use rokind_reminder::windows::{
    auth_reconnect_notice_window_label, auth_reconnect_notice_window_labels, close_action,
    devtools_menu_id, devtools_target, event_window_label, event_window_labels,
    notice_window_labels, reminder_page, reminder_window_labels, sanitize_for_window_label,
    slot_in, tray_action, CloseAction, TrayAction, POLL_INTERVAL_SECS,
};

fn record(id: &str) -> EventReminderRecord {
    EventReminderRecord {
        event_id: id.to_string(),
        title: String::new(),
        start_at: Timestamp::new(0, 0).unwrap(),
        end_at: None,
        meeting_url: None,
        location: None,
        display_state: EventWindowDisplayState::ShowingCurrent,
    }
}

fn strings(list: &[&str]) -> Vec<String> {
    list.iter().map(|s| s.to_string()).collect()
}

#[test]
fn label_characters() {
    assert_eq!(sanitize_for_window_label("aZ09-_@é 日"), "aZ09-_____");
    assert_eq!(sanitize_for_window_label(""), "");
}

#[test]
fn labels_of_windows() {
    assert_eq!(event_window_label("abc_2024@x", 0), "reminder-display-abc_2024_x_0");
    assert_eq!(event_window_label("", 12), "reminder-display-_12");
    assert_eq!(auth_reconnect_notice_window_label(0), "auth-reconnect-notice-0");
    assert_eq!(
        auth_reconnect_notice_window_label(usize::MAX),
        format!("auth-reconnect-notice-{}", usize::MAX)
    );
}

#[test]
fn labels_tell_windows_apart() {
    assert_ne!(event_window_label("a", 1), event_window_label("a", 11));
    assert_ne!(event_window_label("a_1", 1), event_window_label("a", 11));
    assert_ne!(event_window_label("a_1", 1), event_window_label("a", 1));
    assert_eq!(event_window_label("a@", 1), event_window_label("a_", 1));
    assert_ne!(auth_reconnect_notice_window_label(1), auth_reconnect_notice_window_label(2));
}

#[test]
fn windows_of_a_kind() {
    let labels = strings(&[
        "main",
        "reminder-display-a_0",
        "auth-reconnect-notice-0",
        "reminder-display-b_1",
        "xreminder-display-",
    ]);
    assert_eq!(
        reminder_window_labels(&labels),
        ["reminder-display-a_0", "reminder-display-b_1"]
    );
    assert_eq!(auth_reconnect_notice_window_labels(&labels), ["auth-reconnect-notice-0"]);
    assert!(reminder_window_labels(&Vec::new()).is_empty());
}

#[test]
fn pages_of_reminders() {
    assert_eq!(reminder_page("e 1"), "index.html?view=reminder&event_id=e 1");
}

#[test]
fn developer_tools_of_a_window() {
    assert_eq!(devtools_menu_id("main"), "window-devtools:main");
    for label in ["main", "", "window-devtools:x"] {
        assert_eq!(devtools_target(&devtools_menu_id(label)), Some(label.to_string()));
    }
    assert_eq!(devtools_target("tray-open"), None);
    assert_eq!(devtools_target("window-devtools"), None);
}

#[test]
fn items_of_the_tray() {
    assert_eq!(tray_action("tray-open"), TrayAction::Open);
    assert_eq!(tray_action("tray-quit"), TrayAction::Quit);
    assert_eq!(tray_action("tray"), TrayAction::Ignore);
    assert_eq!(tray_action(""), TrayAction::Ignore);
}

#[test]
fn closing_the_main_window_hides_it() {
    assert_eq!(close_action(false), CloseAction::Hide);
    assert_eq!(close_action(true), CloseAction::Close);
}

#[test]
fn places_of_windows() {
    let active = vec![record("a"), record("b"), record("a"), record("c")];
    assert_eq!(slot_in(&active, "a"), 0);
    assert_eq!(slot_in(&active, "b"), 1);
    assert_eq!(slot_in(&active, "c"), 3);
    assert_eq!(slot_in(&active, "d"), 0);
    assert_eq!(slot_in(&Vec::new(), "a"), 0);
}

#[test]
fn the_calendar_is_looked_at_twice_a_minute() {
    assert_eq!(POLL_INTERVAL_SECS, 30);
}

#[test]
fn every_monitor_has_its_window() {
    assert_eq!(event_window_labels("e", 2), ["reminder-display-e_0", "reminder-display-e_1"]);
    assert!(event_window_labels("e", 0).is_empty());
    assert_eq!(notice_window_labels(2), ["auth-reconnect-notice-0", "auth-reconnect-notice-1"]);
    let mut many = event_window_labels("e_1", 120);
    many.sort();
    many.dedup();
    assert_eq!(many.len(), 120);
}
