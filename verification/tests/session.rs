use rokind_reminder::clock::Timestamp;
use rokind_reminder::config::BuildConfig;
use rokind_reminder::google::{EventDateTime, GoogleCalendarEvent, Reply};
use rokind_reminder::oauth::{
    events_url, exchange_form, pending_auth, refresh_form, TokenResponse,
};
use rokind_reminder::reminders::{EventWindowDisplayState, ReminderPhase};
use rokind_reminder::session::{AppStateStore, AuthAction, AuthStart, SyncAction};
use rokind_reminder::state::{
    AuthCallback, CalendarEventSummary, GoogleOAuthConfig, PendingAuth, PersistentState,
    TokenState,
};

fn some(s: &str) -> Option<String> {
    Some(s.to_string())
}

fn at(text: &str) -> Timestamp {
    Timestamp::parse_rfc3339(text).unwrap()
}

fn now() -> Timestamp {
    at("2024-05-01T10:00:00Z")
}

fn build() -> BuildConfig {
    BuildConfig { client_id: some("built-id"), client_secret: some("built-secret"), source: None }
}

fn no_build() -> BuildConfig {
    BuildConfig { client_id: None, client_secret: None, source: None }
}

fn token(expires_at: &str, refresh: Option<&str>) -> TokenState {
    TokenState {
        access_token: "acc".to_string(),
        refresh_token: refresh.map(|s| s.to_string()),
        expires_at: at(expires_at),
    }
}

fn event(id: &str, start: &str) -> CalendarEventSummary {
    CalendarEventSummary {
        id: id.to_string(),
        title: "t".to_string(),
        start_at: start.to_string(),
        end_at: None,
        location: None,
        meeting_url: None,
    }
}

fn google_event(id: &str, start: &str) -> GoogleCalendarEvent {
    GoogleCalendarEvent {
        id: some(id),
        summary: some("t"),
        description: None,
        location: None,
        hangout_link: None,
        conference_data: None,
        start: Some(EventDateTime { date_time: some(start) }),
        end: None,
    }
}

fn pending(state: &str) -> PendingAuth {
    pending_auth("built-id", &some("built-secret"), 9, state.to_string(), "ver".to_string()).unwrap()
}

fn callback(state: &str) -> Result<AuthCallback, String> {
    Ok(AuthCallback { code: "c0de".to_string(), state: state.to_string() })
}

/// Signed in, with one event listed and announced.
fn signed_in() -> AppStateStore {
    let mut app = AppStateStore::default();
    app.persistent.token = Some(token("2024-05-01T11:00:00Z", Some("ref")));
    app.persistent.cached_events = vec![event("e", "2024-05-01T10:00:00Z")];
    app.persistent.last_sync_at = Some(now());
    let events = vec![event("e", "2024-05-01T10:00:00Z")];
    app.sync_calendar_and_maybe_notify(&events, &now());
    app
}

#[test]
fn an_empty_state() {
    let state = PersistentState::default();
    assert!(state.google_oauth_config.is_none());
    assert!(state.token.is_none());
    assert!(state.cached_events.is_empty());
    assert!(state.last_sync_at.is_none());
    assert!(state.last_error.is_none());
    let status = AppStateStore::default().get_app_status(&no_build());
    assert!(!status.client_id_configured);
    assert!(!status.client_secret_configured);
    assert!(!status.signed_in);
    assert!(!status.polling_enabled);
    assert!(!status.auth_in_progress);
    assert!(!status.can_start_google_auth);
    assert!(!status.auto_reconnect_ready);
    assert!(status.upcoming_events.is_empty());
}

#[test]
fn tokens_count_when_they_hold_something() {
    let mut t = token("2024-05-01T10:01:00Z", Some(" \t"));
    assert!(t.has_access_token());
    assert!(!t.has_refresh_token());
    t.refresh_token = some(" r ");
    assert!(t.has_refresh_token());
    t.access_token = "\u{3000}".to_string();
    assert!(!t.has_access_token());
    t.refresh_token = None;
    assert!(!t.has_refresh_token());
    assert!(!t.access_token_is_fresh_at(&now()));
    t.expires_at = at("2024-05-01T10:01:00.000000001Z");
    assert!(t.access_token_is_fresh_at(&now()));
}

#[test]
fn copies_hold_the_same() {
    let app = signed_in();
    let copy = app.persistent.clone();
    assert_eq!(copy.token.unwrap().access_token, "acc");
    assert_eq!(copy.cached_events[0].id, "e");
    assert_eq!(copy.last_sync_at, Some(now()));
    let p = pending("s");
    assert_eq!(p.clone().auth_url, p.auth_url);
}

#[test]
fn status_of_a_signed_in_user() {
    let mut app = signed_in();
    app.persistent.last_error = some("oops");
    let status = app.get_app_status(&build());
    assert!(status.signed_in);
    assert!(status.polling_enabled);
    assert!(status.auto_reconnect_ready);
    assert!(status.can_start_google_auth);
    assert!(!status.auth_in_progress);
    assert_eq!(status.google_client_id, some("built-id"));
    assert_eq!(status.google_client_secret, some("built-secret"));
    assert!(status.google_client_id_using_initial);
    assert!(status.google_client_secret_using_initial);
    assert_eq!(status.upcoming_events.len(), 1);
    assert_eq!(status.last_sync_at, some("2024-05-01T10:00:00+00:00"));
    assert_eq!(status.last_error, some("oops"));
    assert_eq!(
        status.oauth_config_diagnostics,
        "build-time source: unknown / GOOGLE_CLIENT_ID: initial from build / GOOGLE_CLIENT_SECRET: initial from build"
    );
    assert!(!app.get_app_status(&no_build()).polling_enabled);
    app.persistent.token = Some(token("2024-05-01T11:00:00Z", None));
    let status = app.get_app_status(&build());
    assert!(!status.signed_in);
    assert!(!status.auto_reconnect_ready);
}

#[test]
fn errors_are_noted() {
    let mut app = signed_in();
    app.record_error("bad");
    assert_eq!(app.persistent.last_error, some("bad"));
    assert!(app.persistent.token.is_some());
}

#[test]
fn signing_out_leaves_nothing() {
    let mut app = signed_in();
    app.persistent.google_oauth_config =
        Some(GoogleOAuthConfig { client_id: some("mine"), client_secret: None });
    app.begin_auth(pending("s"));
    app.reset_google_auth_state(some("why"));
    let status = app.get_app_status(&build());
    assert!(!status.signed_in && !status.auth_in_progress && !status.polling_enabled);
    assert!(status.upcoming_events.is_empty());
    assert_eq!(status.last_sync_at, None);
    assert_eq!(status.last_error, some("why"));
    assert_eq!(status.google_client_id, some("mine"));
    assert!(app.get_event_reminder("e").is_none());
    assert!(app.get_auth_reconnect_notice().is_none());
    assert!(matches!(app.sync_begin(&build(), &now()), SyncAction::Finish(e) if e.is_empty()));
}

#[test]
fn runtime_state_can_be_dropped_alone() {
    let mut app = signed_in();
    app.begin_auth(pending("s"));
    app.put_up_reconnect_notice("x", &now());
    app.record_error("x");
    app.clear_google_auth_runtime_state();
    assert!(app.pending_auth.is_none());
    assert!(app.get_auth_reconnect_notice().is_none());
    assert!(app.persistent.token.is_some());
    assert_eq!(app.persistent.last_error, some("x"));
}

#[test]
fn saved_settings_take_effect() {
    let mut app = signed_in();
    assert!(app.save_google_oauth_settings(" mine ", "\n", &build()));
    assert!(app.persistent.token.is_none());
    assert!(app.persistent.cached_events.is_empty());
    assert!(app.persistent.last_sync_at.is_none());
    assert!(app.get_event_reminder("e").is_none());
    let stored = app.persistent.google_oauth_config.clone().unwrap();
    assert_eq!(stored.client_id, some("mine"));
    assert_eq!(stored.client_secret, some(""));
    let status = app.get_app_status(&build());
    assert_eq!(status.google_client_id, some("mine"));
    assert_eq!(status.google_client_secret, None);
    assert!(!status.google_client_id_using_initial);
}

#[test]
fn settings_that_change_nothing_keep_the_session() {
    let mut app = signed_in();
    app.persistent.last_error = some("old");
    assert!(!app.save_google_oauth_settings("built-id ", " built-secret", &build()));
    assert!(app.persistent.token.is_some());
    assert_eq!(app.persistent.cached_events.len(), 1);
    assert_eq!(app.persistent.last_error, None);
    assert!(app.get_event_reminder("e").is_some());
    assert!(!app.get_app_status(&build()).google_client_id_using_initial);
    assert!(!app.save_google_oauth_settings("built-id", "built-secret", &no_build()));
}

#[test]
fn embedded_credentials_are_never_saved() {
    let mut app = signed_in();
    let reply = Reply::Decoded(vec![google_event("e", "2024-05-01T10:00:00Z")]);
    app.sync_begin(&build(), &now());
    app.sync_fetched(token("2024-05-01T11:00:00Z", Some("ref")), reply, &now());
    app.begin_auth(pending("s"));
    app.end_auth("s", &None);
    app.reset_google_auth_state(None);
    assert!(app.persistent.google_oauth_config.is_none());
}

#[test]
fn signing_in_needs_a_client_id() {
    let app = AppStateStore::default();
    assert!(matches!(
        app.start_google_auth(&no_build()),
        AuthStart::Unconfigured(m) if m == "GOOGLE_CLIENT_ID を .env に設定してください"
    ));
    match app.start_google_auth(&build()) {
        AuthStart::Ready { client_id, client_secret } => {
            assert_eq!(client_id, "built-id");
            assert_eq!(client_secret, some("built-secret"));
        }
        other => panic!("{:?}", other),
    }
}

#[test]
fn one_sign_in_at_a_time() {
    let mut app = AppStateStore::default();
    app.record_error("old");
    app.begin_auth(pending("s"));
    assert_eq!(app.persistent.last_error, None);
    assert!(matches!(
        app.start_google_auth(&build()),
        AuthStart::InProgress(url) if url == pending("s").auth_url
    ));
    let status = app.get_app_status(&build());
    assert!(status.auth_in_progress);
    assert!(!status.can_start_google_auth);
    assert!(app.pending_auth_matches("s"));
    assert!(!app.pending_auth_matches("t"));
    app.clear_pending_auth("t");
    assert!(app.pending_auth.is_some());
    app.clear_pending_auth("s");
    assert!(app.pending_auth.is_none());
}

#[test]
fn a_sign_in_that_succeeds() {
    let mut app = AppStateStore::default();
    app.begin_auth(pending("s"));
    match app.auth_called_back(&pending("s"), callback("s")) {
        AuthAction::Exchange(form) => assert_eq!(form, exchange_form(&pending("s"), "c0de")),
        other => panic!("{:?}", other),
    }
    let response = TokenResponse {
        access_token: "new".to_string(),
        expires_in: 3600,
        refresh_token: some("ref"),
    };
    let action = app.complete_google_auth(Reply::Decoded(response), &now());
    assert!(matches!(action, AuthAction::Done));
    app.end_auth("s", &None);
    let status = app.get_app_status(&build());
    assert!(status.signed_in);
    assert!(!status.auth_in_progress);
    assert_eq!(app.persistent.token.unwrap().expires_at, at("2024-05-01T11:00:00Z"));
}

#[test]
fn sign_ins_that_fail() {
    let mut app = signed_in();
    app.begin_auth(pending("s"));
    let failed = app.auth_called_back(&pending("s"), Err("broken".to_string()));
    assert!(matches!(failed, AuthAction::Fail(m) if m == "broken"));
    let failed = app.auth_called_back(&pending("s"), callback("t"));
    assert!(matches!(failed, AuthAction::Fail(m) if m == "OAuth state が一致しませんでした"));
    let failed = app.complete_google_auth(Reply::Unsent, &now());
    assert!(matches!(failed, AuthAction::Fail(m) if m == "failed to exchange authorization code"));
    assert_eq!(app.persistent.token.as_ref().unwrap().access_token, "acc");
    app.end_auth("s", &some("broken"));
    assert!(app.pending_auth.is_none());
    assert_eq!(app.persistent.last_error, some("broken"));
}

#[test]
fn stale_sign_ins_are_ignored() {
    let mut app = AppStateStore::default();
    app.begin_auth(pending("s"));
    app.reset_google_auth_state(None);
    assert!(matches!(app.auth_called_back(&pending("s"), callback("s")), AuthAction::Done));
    app.begin_auth(pending("t"));
    assert!(matches!(app.auth_called_back(&pending("s"), callback("s")), AuthAction::Done));
    app.end_auth("s", &None);
    assert!(app.pending_auth_matches("t"));
}

#[test]
fn without_a_user_the_calendar_counts_as_empty() {
    let mut app = AppStateStore::default();
    assert!(matches!(app.sync_begin(&build(), &now()), SyncAction::Finish(e) if e.is_empty()));
    let mut app = signed_in();
    assert!(matches!(app.sync_begin(&no_build(), &now()), SyncAction::Finish(e) if e.is_empty()));
    assert!(app.persistent.token.is_some());
}

#[test]
fn a_fresh_token_goes_straight_to_the_calendar() {
    let mut app = signed_in();
    match app.sync_begin(&build(), &now()) {
        SyncAction::Fetch { url, token } => {
            assert_eq!(url, events_url(&now()).unwrap());
            assert_eq!(token.access_token, "acc");
        }
        other => panic!("{:?}", other),
    }
}

#[test]
fn a_stale_token_is_renewed_first() {
    let mut app = signed_in();
    app.persistent.token = Some(token("2024-05-01T10:01:00Z", Some("ref")));
    let refresh_token = match app.sync_begin(&build(), &now()) {
        SyncAction::Refresh { form, refresh_token } => {
            assert_eq!(form, refresh_form("built-id", &some("built-secret"), "ref"));
            refresh_token
        }
        other => panic!("{:?}", other),
    };
    let response =
        TokenResponse { access_token: "new".to_string(), expires_in: 100, refresh_token: None };
    let later = at("2024-05-01T10:00:01Z");
    let fetched = match app.sync_refreshed(refresh_token, Reply::Decoded(response), &later) {
        SyncAction::Fetch { url, token } => {
            assert_eq!(url, events_url(&later).unwrap());
            assert_eq!(token.access_token, "new");
            assert_eq!(token.refresh_token, some("ref"));
            token
        }
        other => panic!("{:?}", other),
    };
    assert_eq!(app.persistent.token.as_ref().unwrap().access_token, "acc");
    let reply = Reply::Decoded(vec![google_event("x", "2024-05-01T10:30:00Z")]);
    let events = match app.sync_fetched(fetched, reply, &later) {
        SyncAction::Save(events) => events,
        other => panic!("{:?}", other),
    };
    assert!(matches!(AppStateStore::sync_saved(events, Ok(())), SyncAction::Finish(e) if e.len() == 1));
    assert_eq!(app.persistent.token.as_ref().unwrap().access_token, "new");
    assert_eq!(app.persistent.last_sync_at, Some(later));
    let status = app.get_app_status(&build());
    assert_eq!(status.upcoming_events.len(), 1);
    assert_eq!(status.upcoming_events[0].id, "x");
    assert_eq!(status.last_error, None);
}

#[test]
fn lost_access_signs_out_and_asks_to_reconnect() {
    let mut app = signed_in();
    app.persistent.token = Some(token("2024-05-01T10:00:00Z", None));
    let message = match app.sync_begin(&build(), &now()) {
        SyncAction::SignOut(message) => message,
        other => panic!("{:?}", other),
    };
    assert_eq!(message, "refresh token is missing; please reconnect Google Calendar");
    assert!(app.persistent.token.is_none());
    assert!(app.get_auth_reconnect_notice().is_none());
    assert_eq!(app.notice_slot(), None);
    assert_eq!(app.persistent.last_error, Some(message.clone()));
    match app.sync_signed_out(message.clone(), Ok(()), &now()) {
        SyncAction::Reconnect(why) => assert_eq!(why, message),
        other => panic!("{:?}", other),
    }
    assert_eq!(app.notice_slot(), Some(0));
    assert!(app.persistent.cached_events.is_empty());
    assert!(app.get_event_reminder("e").is_none());
    let notice = app.get_auth_reconnect_notice().unwrap();
    assert_eq!(notice.detail, some("refresh token is missing; please reconnect Google Calendar"));
    assert_eq!(notice.first_detected_at, "2024-05-01T10:00:00+00:00");
    assert_eq!(notice.last_shown_at, None);
    assert_eq!(app.persistent.last_error, notice.detail);
    assert!(app.maybe_open_auth_reconnect_notice(false, &now()));
    app.mark_notice_shown(&now());
    assert!(!app.maybe_open_auth_reconnect_notice(false, &at("2024-05-01T10:09:59Z")));
    assert!(app.maybe_open_auth_reconnect_notice(false, &at("2024-05-01T10:10:00Z")));
    assert!(!app.maybe_open_auth_reconnect_notice(true, &at("2024-05-01T10:10:00Z")));
    app.clear_auth_reconnect_notice();
    assert!(app.get_auth_reconnect_notice().is_none());
    app.mark_notice_shown(&now());
    assert!(app.get_auth_reconnect_notice().is_none());
}

#[test]
fn an_unsaved_sign_out_puts_up_no_notice() {
    let mut app = signed_in();
    app.persistent.token = Some(token("2024-05-01T10:00:00Z", None));
    let message = match app.sync_begin(&build(), &now()) {
        SyncAction::SignOut(message) => message,
        other => panic!("{:?}", other),
    };
    match app.sync_signed_out(message, Err("failed to write state file".to_string()), &now()) {
        SyncAction::Fail(why) => assert_eq!(why, "failed to write state file"),
        other => panic!("{:?}", other),
    }
    assert!(app.persistent.token.is_none());
    assert!(app.get_auth_reconnect_notice().is_none());
}

#[test]
fn the_notice_stands_behind_the_reminders() {
    let mut app = AppStateStore::default();
    let events = vec![
        event("a", "2024-05-01T10:00:00Z"),
        event("b", "2024-05-01T10:01:00Z"),
        event("c", "2024-05-01T10:02:00Z"),
    ];
    app.sync_calendar_and_maybe_notify(&events, &now());
    app.dismiss_event_reminder("b", &now());
    assert_eq!(app.notice_slot(), None);
    app.put_up_reconnect_notice("x", &now());
    assert_eq!(app.notice_slot(), Some(2));
}

#[test]
fn without_a_user_any_time_will_do() {
    let last = Timestamp::new(rokind_reminder::clock::MAX_SECS, 0).unwrap();
    let mut app = AppStateStore::default();
    assert!(matches!(app.sync_begin(&build(), &last), SyncAction::Finish(e) if e.is_empty()));
    let mut app = signed_in();
    let action = app.sync_refreshed("ref".to_string(), Reply::Unsent, &last);
    assert!(matches!(action, SyncAction::Fail(_)));
}

#[test]
fn a_refused_refresh_is_lost_access() {
    let mut app = signed_in();
    let body = some(r#"{"error":"invalid_grant","error_description":"Token has been expired."}"#);
    let reply = Reply::Rejected { status: 400, body };
    match app.sync_refreshed("ref".to_string(), reply, &now()) {
        SyncAction::SignOut(message) => {
            assert_eq!(
                message,
                "failed to refresh Google token: HTTP 400 Bad Request: invalid_grant (Token has been expired.)"
            );
        }
        other => panic!("{:?}", other),
    }
    assert!(app.persistent.token.is_none());
}

#[test]
fn refused_credentials_at_the_calendar_are_lost_access() {
    let mut app = signed_in();
    let body = some(r#"{"error":{"message":"Request had invalid authentication credentials."}}"#);
    let reply = Reply::Rejected { status: 401, body };
    let action = app.sync_fetched(token("2024-05-01T11:00:00Z", Some("ref")), reply, &now());
    assert!(matches!(action, SyncAction::SignOut(_)));
    assert!(app.persistent.token.is_none());
}

#[test]
fn other_failures_keep_the_session() {
    let mut app = signed_in();
    let action = app.sync_refreshed("ref".to_string(), Reply::Unsent, &now());
    assert!(matches!(action, SyncAction::Fail(m) if m == "failed to refresh Google OAuth token"));
    let reply = Reply::Rejected { status: 503, body: None };
    let action = app.sync_fetched(token("2024-05-01T11:00:00Z", Some("ref")), reply, &now());
    match action {
        SyncAction::Fail(message) => assert_eq!(
            message,
            "failed to load Google Calendar events: HTTP 503 Service Unavailable (response body could not be read)"
        ),
        other => panic!("{:?}", other),
    }
    assert!(app.persistent.token.is_some());
    assert_eq!(app.persistent.cached_events.len(), 1);
    assert!(app.get_event_reminder("e").is_some());
    assert!(app.auth_reconnect_notice.is_none());
    assert_eq!(app.persistent.last_error, None);
}

#[test]
fn reminders_of_the_session() {
    let mut app = AppStateStore::default();
    let events = vec![event("e", "2024-05-01T10:03:00Z")];
    let plan = app.sync_calendar_and_maybe_notify(&events, &now());
    assert_eq!(plan.to_open.len(), 1);
    assert_eq!(app.get_event_reminder("e").unwrap().phase, ReminderPhase::Upcoming);
    assert!(app.get_event_reminder("f").is_none());
    app.dismiss_event_reminder("e", &at("2024-05-01T10:01:00Z"));
    let state = app.event_reminder_states.get("e").unwrap().display_state;
    assert_eq!(state, EventWindowDisplayState::DismissedBeforeStart);
    let plan = app.sync_calendar_and_maybe_notify(&events, &at("2024-05-01T10:03:00Z"));
    assert_eq!(plan.to_open.len(), 1);
    assert_eq!(app.get_event_reminder("e").unwrap().phase, ReminderPhase::StartingNow);
    app.dismiss_event_reminder("f", &now());
    assert!(app.get_event_reminder("f").is_none());
    let plan = app.sync_calendar_and_maybe_notify(&Vec::new(), &now());
    assert_eq!(plan.to_close, ["e"]);
}

#[test]
fn a_look_that_could_not_be_saved_fails() {
    let events = vec![event("e", "2024-05-01T10:00:00Z")];
    let action = AppStateStore::sync_saved(events, Err("failed to write state file".to_string()));
    assert!(matches!(action, SyncAction::Fail(m) if m == "failed to write state file"));
}
