use rokind_reminder::google::{
    convert_event, convert_events, describe_error, error_requires_reconnect, extract_meeting_url,
    fetch_outcome, find_link, is_success, parse_google_error, read_error_fields, ConferenceData,
    EntryPoint, ErrorFields, EventDateTime, GoogleCalendarEvent, Reply,
};

fn some(s: &str) -> Option<String> {
    Some(s.to_string())
}

fn event() -> GoogleCalendarEvent {
    GoogleCalendarEvent {
        id: some("e1"),
        summary: some("Standup"),
        description: None,
        location: None,
        hangout_link: None,
        conference_data: None,
        start: Some(EventDateTime { date_time: some("2024-05-01T09:00:00Z") }),
        end: Some(EventDateTime { date_time: some("2024-05-01T09:30:00Z") }),
    }
}

fn entry(kind: Option<&str>, uri: Option<&str>) -> EntryPoint {
    EntryPoint {
        uri: uri.map(|s| s.to_string()),
        entry_point_type: kind.map(|s| s.to_string()),
    }
}

#[test]
fn links_in_running_text() {
    let cases = [
        ("see https://meet.example/abc.", Some("https://meet.example/abc")),
        ("(http://a.b/c) and https://d.e", Some("http://a.b/c")),
        ("https://a.b/c],).", Some("https://a.b/c")),
        ("<https://a.b/c>", Some("https://a.b/c")),
        ("\"https://a.b/c\"", Some("https://a.b/c")),
        ("https://日本.例/会議\u{3000}です", Some("https://日本.例/会議")),
        ("https:// then http://x", Some("http://x")),
        ("hhttps://x", Some("https://x")),
        ("http://https://x", Some("http://https://x")),
        ("HTTPS://x", None),
        ("no link here", None),
        ("", None),
        ("http://.", Some("http://")),
    ];
    for (text, expected) in cases {
        assert_eq!(find_link(&some(text)).as_deref(), expected, "{}", text);
    }
    assert_eq!(find_link(&None), None);
}

#[test]
fn links_agree_with_the_regular_expression() {
    let regex = regex::Regex::new("https?://[^\\s<>()\"]+").unwrap();
    let texts = [
        "a\nhttps://x.y/z?q=1&r=2#f b",
        "httphttps://q",
        "https//:x http:///",
        "http://\u{a0}x http://y",
        "http://\u{200b}x",
        "ttps://x https:/y http://z(",
    ];
    for text in texts {
        let expected = regex
            .find(text)
            .map(|m| m.as_str().trim_end_matches([')', ']', '.', ',']).to_string());
        assert_eq!(find_link(&some(text)), expected, "{}", text);
    }
}

#[test]
fn meeting_links_by_preference() {
    let mut e = event();
    assert_eq!(extract_meeting_url(&e), None);
    e.description = some("join https://description.example/1, please");
    assert_eq!(extract_meeting_url(&e), some("https://description.example/1"));
    e.location = some("room 1");
    assert_eq!(extract_meeting_url(&e), some("https://description.example/1"));
    e.location = some("https://location.example/2");
    assert_eq!(extract_meeting_url(&e), some("https://location.example/2"));
    e.conference_data = Some(ConferenceData { entry_points: None });
    assert_eq!(extract_meeting_url(&e), some("https://location.example/2"));
    e.conference_data = Some(ConferenceData {
        entry_points: Some(vec![
            entry(Some("phone"), Some("tel:1")),
            entry(None, Some("https://untyped.example")),
            entry(Some("video"), None),
            entry(Some("more"), Some("https://more.example")),
            entry(Some("video"), Some("https://video.example")),
        ]),
    });
    assert_eq!(extract_meeting_url(&e), some("https://more.example"));
    e.hangout_link = some("https://meet.google.com/xyz");
    assert_eq!(extract_meeting_url(&e), some("https://meet.google.com/xyz"));
}

#[test]
fn a_conference_without_usable_entry_points_is_passed_over() {
    let mut e = event();
    e.location = some("https://location.example/2");
    e.conference_data = Some(ConferenceData {
        entry_points: Some(vec![entry(Some("phone"), Some("tel:1")), entry(Some("Video"), some("x").as_deref())]),
    });
    assert_eq!(extract_meeting_url(&e), some("https://location.example/2"));
}

#[test]
fn events_become_summaries() {
    let mut e = event();
    e.location = some("Room https://r.example/1");
    let summary = convert_event(e).unwrap();
    assert_eq!(summary.id, "e1");
    assert_eq!(summary.title, "Standup");
    assert_eq!(summary.start_at, "2024-05-01T09:00:00Z");
    assert_eq!(summary.end_at, some("2024-05-01T09:30:00Z"));
    assert_eq!(summary.location, some("Room https://r.example/1"));
    assert_eq!(summary.meeting_url, some("https://r.example/1"));
}

#[test]
fn missing_parts_of_events() {
    let mut e = event();
    e.summary = None;
    e.end = None;
    let summary = convert_event(e).unwrap();
    assert_eq!(summary.title, "No title");
    assert_eq!(summary.end_at, None);
    let mut e = event();
    e.end = Some(EventDateTime { date_time: None });
    assert_eq!(convert_event(e).unwrap().end_at, None);
    let mut e = event();
    e.id = None;
    assert!(convert_event(e).is_none());
    let mut e = event();
    e.start = None;
    assert!(convert_event(e).is_none());
}

#[test]
fn all_day_events_are_left_out() {
    let mut all_day = event();
    all_day.start = Some(EventDateTime { date_time: None });
    let mut second = event();
    second.id = some("e2");
    let listed = convert_events(vec![event(), all_day, second]);
    let ids: Vec<&str> = listed.iter().map(|e| e.id.as_str()).collect();
    assert_eq!(ids, ["e1", "e2"]);
}

#[test]
fn messages_that_tell_of_lost_access() {
    assert!(error_requires_reconnect("refresh token is missing; please reconnect Google Calendar"));
    assert!(error_requires_reconnect("HTTP 400 Bad Request: INVALID_GRANT (x)"));
    assert!(error_requires_reconnect("Token has been expired or revoked."));
    assert!(error_requires_reconnect("Request had Invalid Authentication Credentials."));
    assert!(!error_requires_reconnect("HTTP 500 Internal Server Error"));
    assert!(!error_requires_reconnect("invalid grant"));
    assert!(!error_requires_reconnect(""));
}

#[test]
fn statuses_of_success() {
    assert!(!is_success(199));
    assert!(is_success(200));
    assert!(is_success(299));
    assert!(!is_success(300));
}

#[test]
fn fields_of_error_bodies() {
    let fields = read_error_fields(r#"{"error":{"message":"m","code":401},"error_description":"d"}"#);
    assert_eq!(fields.message, some("m"));
    assert_eq!(fields.code, None);
    assert_eq!(fields.description, some("d"));
    let fields = read_error_fields(r#"{"error":"c","error_description":1}"#);
    assert_eq!(fields.message, None);
    assert_eq!(fields.code, some("c"));
    assert_eq!(fields.description, None);
    let fields = read_error_fields("[1]");
    assert_eq!(fields.message, None);
    assert_eq!(fields.code, None);
    assert_eq!(fields.description, None);
}

#[test]
fn error_lines_from_fields() {
    let fields = |m: Option<&str>, c: Option<&str>, d: Option<&str>| ErrorFields {
        message: m.map(|s| s.to_string()),
        code: c.map(|s| s.to_string()),
        description: d.map(|s| s.to_string()),
    };
    assert_eq!(describe_error("S", "b", &fields(Some("m"), Some("c"), Some("d"))), "HTTP S: m");
    assert_eq!(describe_error("S", "b", &fields(None, Some("c"), Some("d"))), "HTTP S: c (d)");
    assert_eq!(describe_error("S", "b", &fields(None, Some("c"), None)), "HTTP S: c");
    assert_eq!(describe_error("S", "b", &fields(None, None, Some("d"))), "HTTP S: d");
    assert_eq!(describe_error("S", "b", &fields(None, None, None)), "HTTP S: b");
}

#[test]
fn error_responses() {
    assert_eq!(
        parse_google_error(502, &None),
        "HTTP 502 Bad Gateway (response body could not be read)"
    );
    assert_eq!(parse_google_error(404, &some(" \n")), "HTTP 404 Not Found (empty response body)");
    assert_eq!(
        parse_google_error(401, &some(r#" {"error":{"message":"Invalid Credentials"}} "#)),
        "HTTP 401 Unauthorized: Invalid Credentials"
    );
    assert_eq!(
        parse_google_error(400, &some(r#"{"error":"invalid_grant","error_description":"Bad"}"#)),
        "HTTP 400 Bad Request: invalid_grant (Bad)"
    );
    assert_eq!(
        parse_google_error(400, &some(r#"{"error":"invalid_grant"}"#)),
        "HTTP 400 Bad Request: invalid_grant"
    );
    assert_eq!(
        parse_google_error(400, &some(r#"{"error_description":"why"}"#)),
        "HTTP 400 Bad Request: why"
    );
    assert_eq!(parse_google_error(500, &some(r#" {"x":1} "#)), r#"HTTP 500 Internal Server Error: {"x":1}"#);
    assert_eq!(parse_google_error(503, &some("oops")), "HTTP 503 Service Unavailable: oops");
    assert_eq!(
        parse_google_error(799, &some("oops")),
        "HTTP 799 <unknown status code>: oops"
    );
}

#[test]
fn answers_of_the_calendar() {
    assert_eq!(
        fetch_outcome(Reply::Unsent).unwrap_err(),
        "failed to request Google Calendar events"
    );
    assert_eq!(
        fetch_outcome(Reply::Undecodable).unwrap_err(),
        "failed to decode Google Calendar events response"
    );
    assert_eq!(
        fetch_outcome(Reply::Rejected { status: 403, body: some("no") }).unwrap_err(),
        "failed to load Google Calendar events: HTTP 403 Forbidden: no"
    );
    let events = fetch_outcome(Reply::Decoded(vec![event()])).unwrap();
    assert_eq!(events.len(), 1);
    assert_eq!(events[0].id, "e1");
}
