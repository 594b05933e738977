use rokind_reminder::clock::Timestamp;
use rokind_reminder::google::Reply;
use rokind_reminder::oauth::{
    answer_callback, build_auth_url, callback_from_pairs, callback_response, code_challenge,
    ensure_access_token, events_url, exchange_form, exchange_outcome, exchanged_token,
    find_last_value, new_pending_auth, parse_auth_callback, pending_auth, random_token,
    redirect_uri, refresh_form, refresh_outcome, refreshed_token, request_target,
    validate_loopback, AccessTokenNeed, PeerAddress, TokenResponse, CALLBACK_PAGE,
};
use rokind_reminder::state::{AuthCallback, PendingAuth, TokenState};

fn some(s: &str) -> Option<String> {
    Some(s.to_string())
}

fn at(text: &str) -> Timestamp {
    Timestamp::parse_rfc3339(text).unwrap()
}

fn pair(name: &str, value: &str) -> (String, String) {
    (name.to_string(), value.to_string())
}

fn pending() -> PendingAuth {
    PendingAuth {
        state: "st".to_string(),
        code_verifier: "ver".to_string(),
        redirect_uri: "http://127.0.0.1:1/oauth/callback".to_string(),
        auth_url: "u".to_string(),
        client_id: "id".to_string(),
        client_secret: some("sec"),
    }
}

fn token(expires_at: &str, refresh: Option<&str>) -> TokenState {
    TokenState {
        access_token: "acc".to_string(),
        refresh_token: refresh.map(|s| s.to_string()),
        expires_at: at(expires_at),
    }
}

fn response(expires_in: i64, refresh: Option<&str>) -> TokenResponse {
    TokenResponse {
        access_token: "new".to_string(),
        expires_in,
        refresh_token: refresh.map(|s| s.to_string()),
    }
}

#[test]
fn forms_for_tokens() {
    assert_eq!(
        refresh_form("id", &some("sec"), "ref"),
        vec![
            pair("client_id", "id"),
            pair("grant_type", "refresh_token"),
            pair("refresh_token", "ref"),
            pair("client_secret", "sec"),
        ]
    );
    assert_eq!(refresh_form("id", &None, "ref").len(), 3);
    assert_eq!(
        exchange_form(&pending(), "code"),
        vec![
            pair("client_id", "id"),
            pair("grant_type", "authorization_code"),
            pair("code", "code"),
            pair("redirect_uri", "http://127.0.0.1:1/oauth/callback"),
            pair("code_verifier", "ver"),
            pair("client_secret", "sec"),
        ]
    );
    let mut public = pending();
    public.client_secret = None;
    assert_eq!(exchange_form(&public, "code").len(), 5);
}

#[test]
fn random_tokens_are_alphanumeric() {
    for length in [0usize, 1, 32, 64] {
        let t = random_token(length);
        assert_eq!(t.len(), length);
        assert!(t.chars().all(|c| c.is_ascii_alphanumeric()));
    }
    assert_ne!(random_token(64), random_token(64));
}

#[test]
fn challenge_of_the_standard() {
    assert_eq!(
        code_challenge("dBjftJeZ4CVP-mB92K27uhbUJU1p1r_wW1gFWFOEjXk"),
        "E9Melhoa2OwvFrEMTJguCHaoeK1t8URWbuGJSstw-cM"
    );
    assert_eq!(code_challenge(""), "47DEQpj8HBSa-_TImW-5JCeuQeRkm5NMpJWZG3hSuFU");
}

#[test]
fn page_for_signing_in() {
    assert_eq!(
        build_auth_url("id.apps", "http://127.0.0.1:80/oauth/callback", "s t", "c_-").unwrap(),
        "https://accounts.google.com/o/oauth2/v2/auth?client_id=id.apps\
         &redirect_uri=http%3A%2F%2F127.0.0.1%3A80%2Foauth%2Fcallback&response_type=code\
         &scope=https%3A%2F%2Fwww.googleapis.com%2Fauth%2Fcalendar.readonly\
         &access_type=offline&prompt=consent&include_granted_scopes=true&state=s+t\
         &code_challenge=c_-&code_challenge_method=S256"
    );
    let url = build_auth_url("日*~", "", "&=%", "").unwrap();
    assert!(url.contains("client_id=%E6%97%A5*%7E&redirect_uri=&"));
    assert!(url.contains("&state=%26%3D%25&"));
}

#[test]
fn page_of_upcoming_events() {
    assert_eq!(
        events_url(&at("2024-05-01T18:30:15.75Z")).unwrap(),
        "https://www.googleapis.com/calendar/v3/calendars/primary/events?singleEvents=true\
         &orderBy=startTime&maxResults=250&conferenceDataVersion=1\
         &timeMin=2024-05-01T18%3A30%3A15Z&timeMax=2024-05-02T06%3A30%3A15Z"
    );
}

#[test]
fn addresses_to_come_back_to() {
    assert_eq!(redirect_uri(0), "http://127.0.0.1:0/oauth/callback");
    assert_eq!(redirect_uri(65535), "http://127.0.0.1:65535/oauth/callback");
}

#[test]
fn sign_ins_hold_what_the_exchange_needs() {
    let p = pending_auth("id", &some("sec"), 4711, "state".to_string(), "verifier".to_string());
    let p = p.unwrap();
    assert_eq!(p.state, "state");
    assert_eq!(p.code_verifier, "verifier");
    assert_eq!(p.redirect_uri, "http://127.0.0.1:4711/oauth/callback");
    assert_eq!(p.client_id, "id");
    assert_eq!(p.client_secret, some("sec"));
    let url = build_auth_url("id", &p.redirect_uri, "state", &code_challenge("verifier")).unwrap();
    assert_eq!(p.auth_url, url);
}

#[test]
fn new_sign_ins_are_random() {
    let a = new_pending_auth("id", &None, 1).unwrap();
    let b = new_pending_auth("id", &None, 1).unwrap();
    assert_eq!(a.state.len(), 32);
    assert_eq!(a.code_verifier.len(), 64);
    assert_ne!(a.state, b.state);
    assert_ne!(a.code_verifier, b.code_verifier);
    assert!(a.auth_url.contains(&format!("&state={}&", a.state)));
    assert!(a.auth_url.contains(&code_challenge(&a.code_verifier)));
}

#[test]
fn targets_of_requests() {
    assert_eq!(request_target("GET /a?b=c HTTP/1.1\r\nhost: x\r\n"), some("/a?b=c"));
    assert_eq!(request_target("  GET\t/a\u{3000}HTTP/1.1"), some("/a"));
    assert_eq!(request_target("GET\n/a"), None);
    assert_eq!(request_target("GET "), None);
    assert_eq!(request_target("\nGET /a"), None);
    assert_eq!(request_target(""), None);
    assert_eq!(request_target("GET /a\r\r\n"), some("/a"));
}

#[test]
fn targets_agree_with_the_standard_library() {
    for request in ["a b c", "a  b\r\nc d", " a\rb c\n", "x\u{2028}y z", "\r\n", "a\u{85}b"] {
        let expected = request
            .lines()
            .next()
            .and_then(|line| line.split_whitespace().nth(1))
            .map(|s| s.to_string());
        assert_eq!(request_target(request), expected, "{:?}", request);
    }
}

#[test]
fn the_last_of_several_values_counts() {
    let pairs = vec![pair("a", "1"), pair("b", "2"), pair("a", "3")];
    assert_eq!(find_last_value(&pairs, "a"), some("3"));
    assert_eq!(find_last_value(&pairs, "b"), some("2"));
    assert_eq!(find_last_value(&pairs, "c"), None);
}

#[test]
fn callbacks_need_code_and_state() {
    let callback = callback_from_pairs(&vec![pair("state", "s"), pair("code", "c")]).unwrap();
    assert_eq!(callback.code, "c");
    assert_eq!(callback.state, "s");
    assert_eq!(
        callback_from_pairs(&vec![pair("state", "s")]).unwrap_err(),
        "OAuth callback did not include a code"
    );
    assert_eq!(
        callback_from_pairs(&vec![pair("code", "c")]).unwrap_err(),
        "OAuth callback did not include a state"
    );
    assert_eq!(
        callback_from_pairs(&Vec::new()).unwrap_err(),
        "OAuth callback did not include a code"
    );
}

#[test]
fn callback_requests_are_read() {
    let request = b"GET /oauth/callback?state=a%20b+c&code=4%2F0Ab&scope=x HTTP/1.1\r\nHost: h\r\n\r\n";
    let callback = parse_auth_callback(request).unwrap();
    assert_eq!(callback.code, "4/0Ab");
    assert_eq!(callback.state, "a b c");
    let callback = parse_auth_callback(b"GET /?code=1&code=2&state=s HTTP/1.1\r\n").unwrap();
    assert_eq!(callback.code, "2");
    let callback = parse_auth_callback(b"GET /?code=%FF&state=\xff HTTP/1.1\r\n").unwrap();
    assert_eq!(callback.code, "\u{fffd}");
    assert_eq!(callback.state, "\u{fffd}");
}

#[test]
fn unreadable_callback_requests() {
    assert_eq!(
        parse_auth_callback(b"").unwrap_err(),
        "failed to parse OAuth callback request line"
    );
    assert_eq!(
        parse_auth_callback(b"GET\r\n").unwrap_err(),
        "failed to parse OAuth callback request line"
    );
    assert_eq!(
        parse_auth_callback(b"GET /favicon.ico HTTP/1.1\r\n").unwrap_err(),
        "OAuth callback did not include a code"
    );
    assert_eq!(
        parse_auth_callback(b"GET /?code=c HTTP/1.1\r\n").unwrap_err(),
        "OAuth callback did not include a state"
    );
    let expected = url::Url::parse("http://127.0.0.1:99999/").unwrap_err().to_string();
    assert_eq!(parse_auth_callback(b"GET :99999/ HTTP/1.1\r\n").unwrap_err(), expected);
}

#[test]
fn what_was_encoded_is_read_back() {
    let values = ["plain", "a b&c=d%e+f", "日本語", "\u{feff}x\u{fffd}", "", "'\"<>#"];
    for code in values {
        for state in values {
            let url = url::Url::parse_with_params(
                "http://127.0.0.1/oauth/callback",
                [("code", code), ("state", state)],
            )
            .unwrap();
            let request = format!("GET /oauth/callback?{} HTTP/1.1\r\n\r\n", url.query().unwrap());
            let callback = parse_auth_callback(request.as_bytes()).unwrap();
            assert_eq!(callback.code, code);
            assert_eq!(callback.state, state);
        }
    }
}

#[test]
fn only_this_machine_may_call_back() {
    assert!(validate_loopback(&PeerAddress::V4([127, 0, 0, 1])).is_ok());
    assert!(validate_loopback(&PeerAddress::V4([127, 255, 3, 4])).is_ok());
    assert!(validate_loopback(&PeerAddress::V6([0, 0, 0, 0, 0, 0, 0, 1])).is_ok());
    let message = "received OAuth callback from a non-loopback address";
    assert_eq!(validate_loopback(&PeerAddress::V4([192, 168, 0, 1])).unwrap_err(), message);
    assert_eq!(
        validate_loopback(&PeerAddress::V6([0, 0, 0, 0, 0, 0xffff, 0x7f00, 1])).unwrap_err(),
        message
    );
    assert_eq!(validate_loopback(&PeerAddress::V6([0, 0, 0, 0, 0, 0, 0, 0])).unwrap_err(), message);
}

#[test]
fn the_browser_is_answered_with_a_page() {
    let response = callback_response();
    let expected = format!(
        "HTTP/1.1 200 OK\r\ncontent-type: text/html; charset=utf-8\r\ncontent-length: {}\r\nconnection: close\r\n\r\n{}",
        CALLBACK_PAGE.len(),
        CALLBACK_PAGE
    );
    assert_eq!(response, expected);
    assert!(CALLBACK_PAGE.ends_with("Google Calendar の接続が完了しました。アプリへ戻ってください。</body></html>"));
}

#[test]
fn tokens_from_answers() {
    let now = at("2024-05-01T00:00:00Z");
    let t = refreshed_token(response(3600, Some("other")), "ref".to_string(), &now);
    assert_eq!(t.access_token, "new");
    assert_eq!(t.refresh_token, some("ref"));
    assert_eq!(t.expires_at, at("2024-05-01T01:00:00Z"));
    let t = exchanged_token(response(-1, Some("other")), &now);
    assert_eq!(t.refresh_token, some("other"));
    assert_eq!(t.expires_at, at("2024-04-30T23:59:59Z"));
    assert_eq!(exchanged_token(response(0, None), &now).refresh_token, None);
}

#[test]
fn fresh_tokens_will_do() {
    let now = at("2024-05-01T00:00:00Z");
    let need = ensure_access_token("id", &None, token("2024-05-01T00:01:00.000000001Z", None), &now);
    assert!(matches!(need, AccessTokenNeed::Fresh(t) if t.access_token == "acc"));
}

#[test]
fn stale_tokens_are_renewed() {
    let now = at("2024-05-01T00:00:00Z");
    match ensure_access_token("id", &None, token("2024-05-01T00:01:00Z", Some("ref")), &now) {
        AccessTokenNeed::Refresh { form, refresh_token } => {
            assert_eq!(form, refresh_form("id", &None, "ref"));
            assert_eq!(refresh_token, "ref");
        }
        other => panic!("{:?}", other),
    }
}

#[test]
fn stale_tokens_without_refresh_token_are_lost() {
    let now = at("2024-05-01T00:00:00Z");
    match ensure_access_token("id", &None, token("2024-05-01T00:00:00Z", None), &now) {
        AccessTokenNeed::Lost(message) => {
            assert_eq!(message, "refresh token is missing; please reconnect Google Calendar")
        }
        other => panic!("{:?}", other),
    }
}

#[test]
fn answers_to_a_refresh() {
    let now = at("2024-05-01T00:00:00Z");
    let outcome = |reply| refresh_outcome(reply, "ref".to_string(), &now);
    assert_eq!(outcome(Reply::Unsent).unwrap_err(), "failed to refresh Google OAuth token");
    assert_eq!(
        outcome(Reply::Undecodable).unwrap_err(),
        "failed to decode Google token refresh response"
    );
    assert_eq!(
        outcome(Reply::Rejected { status: 400, body: some(r#"{"error":"invalid_grant"}"#) })
            .unwrap_err(),
        "failed to refresh Google token: HTTP 400 Bad Request: invalid_grant"
    );
    let t = outcome(Reply::Decoded(response(61, None))).unwrap();
    assert_eq!(t.refresh_token, some("ref"));
    assert!(t.access_token_is_fresh_at(&now));
}

#[test]
fn answers_to_an_exchange() {
    let now = at("2024-05-01T00:00:00Z");
    assert_eq!(
        exchange_outcome(Reply::Unsent, &now).unwrap_err(),
        "failed to exchange authorization code"
    );
    assert_eq!(
        exchange_outcome(Reply::Undecodable, &now).unwrap_err(),
        "failed to decode Google token response"
    );
    assert_eq!(
        exchange_outcome(Reply::Rejected { status: 401, body: None }, &now).unwrap_err(),
        "failed to exchange authorization code: HTTP 401 Unauthorized (response body could not be read)"
    );
    let t = exchange_outcome(Reply::Decoded(response(10, Some("r"))), &now).unwrap();
    assert_eq!(t.refresh_token, some("r"));
    assert_eq!(t.expires_at, at("2024-05-01T00:00:10Z"));
}

#[test]
fn foreign_state_tokens_are_refused() {
    let callback = |state: &str| AuthCallback { code: "c".to_string(), state: state.to_string() };
    assert_eq!(answer_callback(&pending(), &callback("st")).unwrap(), exchange_form(&pending(), "c"));
    assert_eq!(
        answer_callback(&pending(), &callback("other")).unwrap_err(),
        "OAuth state が一致しませんでした"
    );
}
