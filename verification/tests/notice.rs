use rokind_reminder::clock::Timestamp;
use rokind_reminder::notice::{should_open_notice, AuthReconnectNoticeState};

fn at(text: &str) -> Timestamp {
    Timestamp::parse_rfc3339(text).unwrap()
}

#[test]
fn payloads_of_notices() {
    let mut notice = AuthReconnectNoticeState::new("why", &at("2024-05-01T19:00:00+09:00"));
    let payload = notice.to_payload();
    assert_eq!(payload.message, "Google Calendar の接続が無効になりました");
    assert_eq!(payload.detail, Some("why".to_string()));
    assert_eq!(payload.first_detected_at, "2024-05-01T10:00:00+00:00");
    assert_eq!(payload.last_shown_at, None);
    notice.mark_shown(&at("2024-05-01T10:00:01Z"));
    let payload = notice.to_payload();
    assert_eq!(payload.first_detected_at, "2024-05-01T10:00:00+00:00");
    assert_eq!(payload.last_shown_at, Some("2024-05-01T10:00:01+00:00".to_string()));
}

#[test]
fn notices_wait_ten_minutes() {
    let mut notice = AuthReconnectNoticeState::new("why", &at("2024-05-01T10:00:00Z"));
    assert!(notice.is_due(&at("2024-05-01T10:00:00Z")));
    notice.mark_shown(&at("2024-05-01T10:00:00Z"));
    assert!(!notice.is_due(&at("2024-05-01T09:00:00Z")));
    assert!(!notice.is_due(&at("2024-05-01T10:09:59.999999999Z")));
    assert!(notice.is_due(&at("2024-05-01T10:10:00Z")));
}

#[test]
fn notices_open_one_at_a_time() {
    let now = at("2024-05-01T10:00:00Z");
    let mut notice = Some(AuthReconnectNoticeState::new("why", &now));
    assert!(should_open_notice(&notice, false, &now));
    assert!(!should_open_notice(&notice, true, &now));
    assert!(!should_open_notice(&None, false, &now));
    notice.as_mut().unwrap().mark_shown(&now);
    assert!(!should_open_notice(&notice, false, &now));
}
