//! Signing in: the page that the browser opens, what it brings back, and the tokens that
//! are had for it.

use base64::Engine;
use rand::Rng;
use sha2::Digest;
use vstd::prelude::*;

use crate::clock;
use crate::clock::{Moment, Timestamp};
use crate::google;
use crate::google::Reply;
use crate::state::{
    AuthCallback, CallbackView, PendingAuth, PendingView, TokenState, TokenView, TOKEN_MARGIN_SECS,
};
use crate::text;
use crate::text::CharClass;

verus! {

/// What the application asks leave for.
pub const GOOGLE_SCOPE: &'static str = "https://www.googleapis.com/auth/calendar.readonly";

/// The page where the user signs in.
pub const AUTH_ENDPOINT: &'static str = "https://accounts.google.com/o/oauth2/v2/auth";

/// Where tokens are had.
pub const TOKEN_ENDPOINT: &'static str = "https://oauth2.googleapis.com/token";

/// Where the events of the calendar are had.
pub const EVENTS_ENDPOINT: &'static str =
    "https://www.googleapis.com/calendar/v3/calendars/primary/events";

/// How far ahead events are asked for.
pub const EVENTS_LOOKAHEAD_HOURS: i64 = 12;

/// How many events are asked for at most.
pub const EVENTS_MAX_RESULTS: &'static str = "250";

/// The length of a code verifier.
pub const VERIFIER_LEN: usize = 64;

/// The length of a state token.
pub const STATE_LEN: usize = 32;

/// Names and values, as a form or a query holds them.
pub type Pairs = Seq<(Seq<char>, Seq<char>)>;

/// The names and values behind a list of pairs.
pub open spec fn pair_views(pairs: Seq<(String, String)>) -> Pairs {
    pairs.map_values(|p: (String, String)| (p.0@, p.1@))
}

/// Adds a pair to a list.
fn add_pair(pairs: &mut Vec<(String, String)>, name: &str, value: &str)
    ensures
        pair_views(final(pairs)@) == pair_views(old(pairs)@).push((name@, value@)),
{
    let ghost before = pair_views(pairs@);
    pairs.push((name.to_string(), value.to_string()));
    assert(pair_views(pairs@) =~= before.push((name@, value@)));
}

/// The pairs and the client secret, where there is one.
pub open spec fn with_secret(pairs: Pairs, secret: Option<Seq<char>>) -> Pairs {
    match secret {
        Some(secret) => pairs.push(("client_secret"@, secret)),
        None => pairs,
    }
}

/// The form that asks for a fresh access token.
pub open spec fn refresh_pairs(
    client_id: Seq<char>,
    client_secret: Option<Seq<char>>,
    refresh_token: Seq<char>,
) -> Pairs {
    with_secret(
        seq![
            ("client_id"@, client_id),
            ("grant_type"@, "refresh_token"@),
            ("refresh_token"@, refresh_token),
        ],
        client_secret,
    )
}

/// The form that asks for a fresh access token.
pub fn refresh_form(
    client_id: &str,
    client_secret: &Option<String>,
    refresh_token: &str,
) -> (r: Vec<(String, String)>)
    ensures
        pair_views(r@) == refresh_pairs(client_id@, text::opt_text(*client_secret), refresh_token@),
{
    let mut form: Vec<(String, String)> = Vec::new();
    assert(pair_views(form@) =~= Seq::empty());
    add_pair(&mut form, "client_id", client_id);
    add_pair(&mut form, "grant_type", "refresh_token");
    add_pair(&mut form, "refresh_token", refresh_token);
    if let Some(secret) = client_secret {
        add_pair(&mut form, "client_secret", secret.as_str());
    }
    assert(pair_views(form@) =~= refresh_pairs(
        client_id@,
        text::opt_text(*client_secret),
        refresh_token@,
    ));
    form
}

/// The form that asks for tokens in exchange for a code.
pub open spec fn exchange_pairs(pending: PendingView, code: Seq<char>) -> Pairs {
    with_secret(
        seq![
            ("client_id"@, pending.client_id),
            ("grant_type"@, "authorization_code"@),
            ("code"@, code),
            ("redirect_uri"@, pending.redirect_uri),
            ("code_verifier"@, pending.code_verifier),
        ],
        pending.client_secret,
    )
}

/// The form that asks for tokens in exchange for a code.
pub fn exchange_form(pending: &PendingAuth, code: &str) -> (r: Vec<(String, String)>)
    ensures
        pair_views(r@) == exchange_pairs(pending@, code@),
{
    let mut form: Vec<(String, String)> = Vec::new();
    assert(pair_views(form@) =~= Seq::empty());
    add_pair(&mut form, "client_id", pending.client_id.as_str());
    add_pair(&mut form, "grant_type", "authorization_code");
    add_pair(&mut form, "code", code);
    add_pair(&mut form, "redirect_uri", pending.redirect_uri.as_str());
    add_pair(&mut form, "code_verifier", pending.code_verifier.as_str());
    if let Some(secret) = &pending.client_secret {
        add_pair(&mut form, "client_secret", secret.as_str());
    }
    assert(pair_views(form@) =~= exchange_pairs(pending@, code@));
    form
}

/// `rand::thread_rng` sampled by `rand::distributions::Alphanumeric`: some ASCII letter or
/// digit. Which one is left to chance.
#[verifier::external_body]
fn rand_alphanumeric() -> (r: u8)
    ensures
        text::ascii_alphanumeric(r as char),
{
    rand::thread_rng().sample(rand::distributions::Alphanumeric)
}

/// The text is made of that many ASCII letters and digits.
pub open spec fn alphanumeric_of_len(s: Seq<char>, len: nat) -> bool {
    s.len() == len && forall|i: int| 0 <= i < s.len() ==> text::ascii_alphanumeric(#[trigger] s[i])
}

/// A random text of ASCII letters and digits.
pub fn random_token(length: usize) -> (r: String)
    ensures
        alphanumeric_of_len(r@, length as nat),
{
    let mut r = String::new();
    let mut i: usize = 0;
    while i < length
        invariant
            i <= length,
            alphanumeric_of_len(r@, i as nat),
        decreases length - i,
    {
        r.push(rand_alphanumeric() as char);
        i = i + 1;
    }
    r
}

/// What `sha2::Sha256` makes of the bytes.
pub uninterp spec fn sha256(bytes: Seq<u8>) -> Seq<u8>;

/// `sha2::Sha256::digest`: named. A digest has 32 bytes.
#[verifier::external_body]
fn sha2_digest(bytes: &[u8]) -> (r: Vec<u8>)
    ensures
        r@ == sha256(bytes@),
        r@.len() == 32,
{
    sha2::Sha256::digest(bytes).to_vec()
}

/// The letters, digits, `-` and `_` that stand for six bits.
pub open spec fn base64_char(v: int) -> char {
    if v < 26 {
        (65 + v) as u8 as char
    } else if v < 52 {
        (97 + v - 26) as u8 as char
    } else if v < 62 {
        (48 + v - 52) as u8 as char
    } else if v == 62 {
        '-'
    } else {
        '_'
    }
}

/// The six bits at place `k` of the bytes, with zeros behind their end.
pub open spec fn sextet(bytes: Seq<u8>, k: int) -> int {
    let i = 6 * k / 8;
    let next: int = if i + 1 < bytes.len() {
        bytes[i + 1] as int
    } else {
        0
    };
    let pair: int = bytes[i] * 256 + next;
    let shift: int = if 6 * k % 8 == 0 {
        1024
    } else if 6 * k % 8 == 2 {
        256
    } else if 6 * k % 8 == 4 {
        64
    } else {
        16
    };
    pair / shift % 64
}

/// The bytes in the URL-safe alphabet of Base64, without padding.
pub open spec fn base64_url(bytes: Seq<u8>) -> Seq<char> {
    Seq::new(((4 * bytes.len() + 2) / 3) as nat, |k: int| base64_char(sextet(bytes, k)))
}

/// `base64::engine::general_purpose::URL_SAFE_NO_PAD.encode`: six bits to a character, in
/// the URL-safe alphabet, without padding. (The call panics on lengths near the end of
/// the address space.)
#[verifier::external_body]
fn base64_encode(bytes: &Vec<u8>) -> (r: String)
    requires
        bytes@.len() <= 0xffff,
    ensures
        r@ == base64_url(bytes@),
{
    base64::engine::general_purpose::URL_SAFE_NO_PAD.encode(bytes)
}

/// The challenge that goes with a code verifier.
pub open spec fn challenge(verifier: Seq<char>) -> Seq<char> {
    base64_url(sha256(vstd::utf8::encode_utf8(verifier)))
}

/// The challenge that goes with a code verifier: 43 characters.
pub fn code_challenge(verifier: &str) -> (r: String)
    ensures
        r@ == challenge(verifier@),
        r@.len() == 43,
{
    let digest = sha2_digest(verifier.as_bytes());
    base64_encode(&digest)
}

/// A hexadecimal digit in upper case.
pub open spec fn hex_digit(d: int) -> char {
    if d < 10 {
        (48 + d) as u8 as char
    } else {
        (65 + d - 10) as u8 as char
    }
}

/// A byte in `application/x-www-form-urlencoded`: letters, digits and `*-._` as they are,
/// a space as `+`, the rest as `%` and two digits.
pub open spec fn form_byte(b: u8) -> Seq<char> {
    let c = b as char;
    if text::ascii_alphanumeric(c) || c == '*' || c == '-' || c == '.' || c == '_' {
        seq![c]
    } else if c == ' ' {
        seq!['+']
    } else {
        seq!['%', hex_digit(b as int / 16), hex_digit(b as int % 16)]
    }
}

/// Bytes in `application/x-www-form-urlencoded`.
pub open spec fn form_bytes(bytes: Seq<u8>) -> Seq<char>
    decreases bytes.len(),
{
    if bytes.len() == 0 {
        Seq::empty()
    } else {
        form_bytes(bytes.drop_last()) + form_byte(bytes.last())
    }
}

/// A name and its value in `application/x-www-form-urlencoded`.
pub open spec fn form_pair(pair: (Seq<char>, Seq<char>)) -> Seq<char> {
    form_bytes(vstd::utf8::encode_utf8(pair.0)) + seq!['='] + form_bytes(
        vstd::utf8::encode_utf8(pair.1),
    )
}

/// Names and values in `application/x-www-form-urlencoded`.
pub open spec fn form_query(pairs: Pairs) -> Seq<char>
    decreases pairs.len(),
{
    if pairs.len() == 0 {
        Seq::empty()
    } else if pairs.len() == 1 {
        form_pair(pairs[0])
    } else {
        form_query(pairs.drop_last()) + seq!['&'] + form_pair(pairs.last())
    }
}

/// An endpoint with a query.
pub open spec fn with_query(endpoint: Seq<char>, pairs: Pairs) -> Seq<char> {
    endpoint + seq!['?'] + form_query(pairs)
}

/// `url::Url::parse_with_params` and the URL as it displays. Both endpoints are URLs that
/// need no normalising and have no query of their own, so the result is the endpoint with
/// the encoded pairs as its query. (Any error would come back as its text; on these
/// endpoints there is none.)
#[verifier::external_body]
fn url_with_params(endpoint: &str, pairs: &Vec<(String, String)>) -> (r: Result<String, String>)
    requires
        endpoint@ == AUTH_ENDPOINT@ || endpoint@ == EVENTS_ENDPOINT@,
        pairs@.len() > 0,
    ensures
        r is Ok,
        r->Ok_0@ == with_query(endpoint@, pair_views(pairs@)),
{
    url::Url::parse_with_params(endpoint, pairs).map(|u| u.to_string()).map_err(|e| e.to_string())
}

/// What the page for signing in is asked with.
pub open spec fn auth_pairs(
    client_id: Seq<char>,
    redirect_uri: Seq<char>,
    state: Seq<char>,
    code_challenge: Seq<char>,
) -> Pairs {
    seq![
        ("client_id"@, client_id),
        ("redirect_uri"@, redirect_uri),
        ("response_type"@, "code"@),
        ("scope"@, GOOGLE_SCOPE@),
        ("access_type"@, "offline"@),
        ("prompt"@, "consent"@),
        ("include_granted_scopes"@, "true"@),
        ("state"@, state),
        ("code_challenge"@, code_challenge),
        ("code_challenge_method"@, "S256"@),
    ]
}

/// The URL of the page for signing in.
pub open spec fn auth_url(
    client_id: Seq<char>,
    redirect_uri: Seq<char>,
    state: Seq<char>,
    code_challenge: Seq<char>,
) -> Seq<char> {
    with_query(AUTH_ENDPOINT@, auth_pairs(client_id, redirect_uri, state, code_challenge))
}

/// The URL of the page for signing in. It can always be built.
pub fn build_auth_url(
    client_id: &str,
    redirect_uri: &str,
    state: &str,
    code_challenge: &str,
) -> (r: Result<String, String>)
    ensures
        r matches Ok(u) && u@ == auth_url(client_id@, redirect_uri@, state@, code_challenge@),
{
    let mut pairs: Vec<(String, String)> = Vec::new();
    assert(pair_views(pairs@) =~= Seq::empty());
    add_pair(&mut pairs, "client_id", client_id);
    add_pair(&mut pairs, "redirect_uri", redirect_uri);
    add_pair(&mut pairs, "response_type", "code");
    add_pair(&mut pairs, "scope", GOOGLE_SCOPE);
    add_pair(&mut pairs, "access_type", "offline");
    add_pair(&mut pairs, "prompt", "consent");
    add_pair(&mut pairs, "include_granted_scopes", "true");
    add_pair(&mut pairs, "state", state);
    add_pair(&mut pairs, "code_challenge", code_challenge);
    add_pair(&mut pairs, "code_challenge_method", "S256");
    assert(pair_views(pairs@) =~= auth_pairs(client_id@, redirect_uri@, state@, code_challenge@));
    assert(pairs@.len() == pair_views(pairs@).len());
    url_with_params(AUTH_ENDPOINT, &pairs)
}

/// What the calendar is asked with: single events by their start, from `now` to twelve
/// hours on.
pub open spec fn events_pairs(now: Moment) -> Pairs {
    seq![
        ("singleEvents"@, "true"@),
        ("orderBy"@, "startTime"@),
        ("maxResults"@, EVENTS_MAX_RESULTS@),
        ("conferenceDataVersion"@, "1"@),
        ("timeMin"@, clock::moment_seconds_text(now)),
        (
            "timeMax"@,
            clock::moment_seconds_text(clock::shifted(now, EVENTS_LOOKAHEAD_HOURS * 3600)),
        ),
    ]
}

/// The two ends of the time that events are asked for read as `now` and twelve hours on, in
/// whole seconds.
pub open spec fn ends_are_readable(now: Moment) -> bool {
    let end = clock::shifted(now, EVENTS_LOOKAHEAD_HOURS * 3600);
    &&& clock::read_moment(events_pairs(now)[4].1) == Some(clock::whole_second(now))
    &&& clock::read_moment(events_pairs(now)[5].1) == Some(clock::whole_second(end))
}

/// The URL that asks for the events of the next hours. It can always be built, and in the years
/// that RFC 3339 can write the ends of the time in it can be read.
pub fn events_url(now: &Timestamp) -> (r: Result<String, String>)
    requires
        clock::in_range_after(now@, EVENTS_LOOKAHEAD_HOURS * 3600),
    ensures
        r matches Ok(u) && u@ == with_query(EVENTS_ENDPOINT@, events_pairs(now@)),
        clock::four_digit_year(now@.secs) && clock::four_digit_year(
            clock::shifted(now@, EVENTS_LOOKAHEAD_HOURS * 3600).secs,
        ) ==> ends_are_readable(now@),
{
    let time_min = now.to_rfc3339_seconds();
    let time_max = now.shift(EVENTS_LOOKAHEAD_HOURS * 3600).to_rfc3339_seconds();
    let mut pairs: Vec<(String, String)> = Vec::new();
    assert(pair_views(pairs@) =~= Seq::empty());
    add_pair(&mut pairs, "singleEvents", "true");
    add_pair(&mut pairs, "orderBy", "startTime");
    add_pair(&mut pairs, "maxResults", EVENTS_MAX_RESULTS);
    add_pair(&mut pairs, "conferenceDataVersion", "1");
    add_pair(&mut pairs, "timeMin", time_min.as_str());
    add_pair(&mut pairs, "timeMax", time_max.as_str());
    assert(pair_views(pairs@) =~= events_pairs(now@));
    assert(pairs@.len() == pair_views(pairs@).len());
    url_with_params(EVENTS_ENDPOINT, &pairs)
}

/// The address on this machine that the browser comes back to.
pub open spec fn redirect_address(port: u16) -> Seq<char> {
    "http://127.0.0.1:"@ + text::decimal_digits(port as nat) + "/oauth/callback"@
}

/// The address on this machine that the browser comes back to.
pub fn redirect_uri(port: u16) -> (r: String)
    ensures
        r@ == redirect_address(port),
{
    let mut r = "http://127.0.0.1:".to_string();
    r.append(text::decimal(port as usize).as_str());
    r.append("/oauth/callback");
    r
}

/// The sign-in with the given credentials, port, state token and code verifier.
pub open spec fn pending_view(
    client_id: Seq<char>,
    client_secret: Option<Seq<char>>,
    port: u16,
    state: Seq<char>,
    code_verifier: Seq<char>,
) -> PendingView {
    PendingView {
        state,
        code_verifier,
        redirect_uri: redirect_address(port),
        auth_url: auth_url(client_id, redirect_address(port), state, challenge(code_verifier)),
        client_id,
        client_secret,
    }
}

/// The sign-in with the given credentials, port, state token and code verifier.
pub fn pending_auth(
    client_id: &str,
    client_secret: &Option<String>,
    port: u16,
    state: String,
    code_verifier: String,
) -> (r: Result<PendingAuth, String>)
    ensures
        r matches Ok(pending) && pending@ == pending_view(
            client_id@,
            text::opt_text(*client_secret),
            port,
            state@,
            code_verifier@,
        ),
{
    let challenge = code_challenge(code_verifier.as_str());
    let redirect = redirect_uri(port);
    match build_auth_url(client_id, redirect.as_str(), state.as_str(), challenge.as_str()) {
        Ok(auth_url) => Ok(
            PendingAuth {
                state,
                code_verifier,
                redirect_uri: redirect,
                auth_url,
                client_id: client_id.to_string(),
                client_secret: text::copy_opt(client_secret),
            },
        ),
        Err(error) => Err(error),
    }
}

/// A new sign-in, with a random state token and code verifier.
pub fn new_pending_auth(
    client_id: &str,
    client_secret: &Option<String>,
    port: u16,
) -> (r: Result<PendingAuth, String>)
    ensures
        r matches Ok(pending) && alphanumeric_of_len(pending@.state, STATE_LEN as nat)
            && alphanumeric_of_len(pending@.code_verifier, VERIFIER_LEN as nat) && pending@
            == pending_view(
            client_id@,
            text::opt_text(*client_secret),
            port,
            pending@.state,
            pending@.code_verifier,
        ),
{
    let code_verifier = random_token(VERIFIER_LEN);
    let state = random_token(STATE_LEN);
    pending_auth(client_id, client_secret, port, state, code_verifier)
}

/// The first line of a text, without its end.
pub open spec fn first_line(s: Seq<char>) -> Option<Seq<char>> {
    if s.len() == 0 {
        None
    } else {
        let line = text::take_lead(s, CharClass::Line);
        if line.len() < s.len() && line.len() > 0 && line.last() == '\r' {
            Some(line.drop_last())
        } else {
            Some(line)
        }
    }
}

/// What follows the first word of a text.
pub open spec fn after_word(s: Seq<char>) -> Seq<char> {
    text::skip_lead(text::skip_lead(s, CharClass::Space), CharClass::Word)
}

/// The first word of a text.
pub open spec fn first_word(s: Seq<char>) -> Option<Seq<char>> {
    let word = text::take_lead(text::skip_lead(s, CharClass::Space), CharClass::Word);
    if word.len() == 0 {
        None
    } else {
        Some(word)
    }
}

/// What an HTTP request asks for: the second word of its first line.
pub open spec fn target_of(request: Seq<char>) -> Option<Seq<char>> {
    match first_line(request) {
        Some(line) => first_word(after_word(line)),
        None => None,
    }
}

/// Where the first line of the characters ends.
fn first_line_end(v: &Vec<char>) -> (end: usize)
    requires
        v@.len() > 0,
    ensures
        end <= v@.len(),
        first_line(v@) == Some(v@.subrange(0, end as int)),
{
    let feed = text::lead_end(v, 0, v.len(), CharClass::Line);
    assert(v@.subrange(0, v@.len() as int) =~= v@);
    if feed < v.len() && feed > 0 && v[feed - 1] == '\r' {
        assert(v@.subrange(0, feed as int).drop_last() =~= v@.subrange(0, feed - 1));
        feed - 1
    } else {
        feed
    }
}

/// What an HTTP request asks for.
pub fn request_target(request: &str) -> (r: Option<String>)
    ensures
        text::opt_text(r) == target_of(request@),
{
    let v = text::chars_of(request);
    if v.len() == 0 {
        return None;
    }
    let end = first_line_end(&v);
    let word = text::lead_end(&v, 0, end, CharClass::Space);
    let gap = text::lead_end(&v, word, end, CharClass::Word);
    let from = text::lead_end(&v, gap, end, CharClass::Space);
    let to = text::lead_end(&v, from, end, CharClass::Word);
    if from == to {
        None
    } else {
        Some(text::piece(&v, from, to))
    }
}

/// The value that the last pair of the given name has.
pub open spec fn last_value(pairs: Pairs, name: Seq<char>) -> Option<Seq<char>>
    decreases pairs.len(),
{
    if pairs.len() == 0 {
        None
    } else if pairs.last().0 == name {
        Some(pairs.last().1)
    } else {
        last_value(pairs.drop_last(), name)
    }
}

/// The value that the last pair of the given name has.
pub fn find_last_value(pairs: &Vec<(String, String)>, name: &str) -> (r: Option<String>)
    ensures
        text::opt_text(r) == last_value(pair_views(pairs@), name@),
{
    let ghost all = pair_views(pairs@);
    let mut i: usize = pairs.len();
    assert(all.take(i as int) =~= all);
    while i > 0
        invariant
            i <= pairs@.len(),
            all == pair_views(pairs@),
            last_value(all, name@) == last_value(all.take(i as int), name@),
        decreases i,
    {
        let pair = &pairs[i - 1];
        proof {
            assert(all.take(i as int).last() == (pair.0@, pair.1@));
            assert(all.take(i as int).drop_last() =~= all.take(i - 1));
        }
        if text::same_text(pair.0.as_str(), name) {
            return Some(pair.1.clone());
        }
        i = i - 1;
    }
    None
}

/// The view of a result of reading a callback.
pub open spec fn callback_result(
    r: Result<AuthCallback, String>,
) -> Result<CallbackView, Seq<char>> {
    match r {
        Ok(callback) => Ok(callback@),
        Err(message) => Err(message@),
    }
}

/// What the query of the callback says: the code and the state token, both of which have to
/// be there. Of several values for a name the last one counts.
pub open spec fn callback_of(pairs: Pairs) -> Result<CallbackView, Seq<char>> {
    match (last_value(pairs, "code"@), last_value(pairs, "state"@)) {
        (None, _) => Err("OAuth callback did not include a code"@),
        (Some(_), None) => Err("OAuth callback did not include a state"@),
        (Some(code), Some(state)) => Ok(CallbackView { code, state }),
    }
}

/// What the query of the callback says.
pub fn callback_from_pairs(pairs: &Vec<(String, String)>) -> (r: Result<AuthCallback, String>)
    ensures
        callback_result(r) == callback_of(pair_views(pairs@)),
{
    match find_last_value(pairs, "code") {
        None => Err("OAuth callback did not include a code".to_string()),
        Some(code) => match find_last_value(pairs, "state") {
            None => Err("OAuth callback did not include a state".to_string()),
            Some(state) => Ok(AuthCallback { code, state }),
        },
    }
}

/// What `String::from_utf8_lossy` makes of the bytes.
pub uninterp spec fn lossy_text(bytes: Seq<u8>) -> Seq<char>;

/// `String::from_utf8_lossy`: named. Well-formed UTF-8 is decoded as it is.
#[verifier::external_body]
fn std_from_utf8_lossy(bytes: &[u8]) -> (r: String)
    ensures
        r@ == lossy_text(bytes@),
        vstd::utf8::valid_utf8(bytes@) ==> r@ == vstd::utf8::decode_utf8(bytes@),
{
    String::from_utf8_lossy(bytes).into_owned()
}

/// What `url::Url::parse` and `url::Url::query_pairs` find in a URL: its query as names and
/// values, or the text of the error.
pub uninterp spec fn url_query(url: Seq<char>) -> Result<Pairs, Seq<char>>;

/// The view of a list of pairs, or of the message that takes its place.
pub open spec fn pairs_result(
    r: Result<Vec<(String, String)>, String>,
) -> Result<Pairs, Seq<char>> {
    match r {
        Ok(pairs) => Ok(pair_views(pairs@)),
        Err(message) => Err(message@),
    }
}

/// A query that was read.
pub open spec fn read_pairs(pairs: Pairs) -> Result<Pairs, Seq<char>> {
    Ok(pairs)
}

/// The address that the browser comes back to, with a query, without its port.
pub open spec fn callback_url(pairs: Pairs) -> Seq<char> {
    "http://127.0.0.1"@ + callback_target(pairs)
}

/// What the browser asks for when it comes back with a query.
pub open spec fn callback_target(pairs: Pairs) -> Seq<char> {
    "/oauth/callback?"@ + form_query(pairs)
}

/// `url::Url::parse` and `url::Url::query_pairs`: named. From a callback address whose query
/// is the encoding of some pairs, those pairs are read. (Only on lengths near the end of 32
/// bits does parsing fail for the length alone.)
#[verifier::external_body]
fn url_query_pairs(url: &str) -> (r: Result<Vec<(String, String)>, String>)
    ensures
        pairs_result(r) == url_query(url@),
        forall|pairs: Pairs|
            url@ == #[trigger] callback_url(pairs) && url@.len() <= 0xffff ==> pairs_result(r)
                == read_pairs(pairs),
{
    let parsed = url::Url::parse(url).map_err(|error| error.to_string())?;
    Ok(parsed.query_pairs().into_owned().collect())
}

/// What the browser's request to this machine says.
pub open spec fn callback_in(request: Seq<u8>) -> Result<CallbackView, Seq<char>> {
    match target_of(lossy_text(request)) {
        None => Err("failed to parse OAuth callback request line"@),
        Some(target) => match url_query("http://127.0.0.1"@ + target) {
            Ok(pairs) => callback_of(pairs),
            Err(message) => Err(message),
        },
    }
}

/// The request that brings a query back, with whatever follows its first line.
pub open spec fn callback_request(pairs: Pairs, rest: Seq<char>) -> Seq<char> {
    "GET "@ + callback_target(pairs) + " HTTP/1.1\r\n"@ + rest
}

/// What the browser's request to this machine says. The query of a request for the callback
/// address is understood as it was meant.
pub fn parse_auth_callback(request: &[u8]) -> (r: Result<AuthCallback, String>)
    ensures
        callback_result(r) == callback_in(request@),
        forall|pairs: Pairs, rest: Seq<char>|
            request@ == vstd::utf8::encode_utf8(#[trigger] callback_request(pairs, rest))
                && callback_url(pairs).len() <= 0xffff ==> callback_result(r) == callback_of(
                pairs,
            ),
{
    let request_text = std_from_utf8_lossy(request);
    let target = request_target(request_text.as_str());
    proof {
        assert forall|pairs: Pairs, rest: Seq<char>|
            request@ == vstd::utf8::encode_utf8(
                #[trigger] callback_request(pairs, rest),
            ) implies text::opt_text(target) == Some(callback_target(pairs)) by {
            vstd::utf8::encode_utf8_valid_utf8(callback_request(pairs, rest));
            vstd::utf8::encode_utf8_decode_utf8(callback_request(pairs, rest));
            lemma_target_of_callback(pairs, rest);
        }
    }
    match target {
        None => Err("failed to parse OAuth callback request line".to_string()),
        Some(target) => {
            let mut url = "http://127.0.0.1".to_string();
            url.append(target.as_str());
            match url_query_pairs(url.as_str()) {
                Ok(pairs) => callback_from_pairs(&pairs),
                Err(message) => Err(message),
            }
        },
    }
}

/// No character of the text is white space.
spec fn unspaced(s: Seq<char>) -> bool {
    forall|i: int| 0 <= i < s.len() ==> !text::white_space(#[trigger] s[i])
}

proof fn lemma_sum_unspaced(a: Seq<char>, b: Seq<char>)
    requires
        unspaced(a),
        unspaced(b),
    ensures
        unspaced(a + b),
{
    assert forall|i: int| 0 <= i < (a + b).len() implies !text::white_space(#[trigger] (a + b)[i]) by {
        if i < a.len() {
            assert((a + b)[i] == a[i]);
        } else {
            assert((a + b)[i] == b[i - a.len()]);
        }
    }
}

/// An encoded query holds no white space.
proof fn lemma_query_unspaced(pairs: Pairs)
    ensures
        unspaced(form_query(pairs)),
    decreases pairs.len(),
{
    if pairs.len() == 1 {
        lemma_pair_unspaced(pairs[0]);
    } else if pairs.len() > 1 {
        let rest = form_query(pairs.drop_last());
        lemma_query_unspaced(pairs.drop_last());
        lemma_pair_unspaced(pairs.last());
        assert(unspaced(seq!['&']));
        lemma_sum_unspaced(rest, seq!['&']);
        lemma_sum_unspaced(rest + seq!['&'], form_pair(pairs.last()));
    }
}

proof fn lemma_pair_unspaced(pair: (Seq<char>, Seq<char>))
    ensures
        unspaced(form_pair(pair)),
{
    let name = form_bytes(vstd::utf8::encode_utf8(pair.0));
    let value = form_bytes(vstd::utf8::encode_utf8(pair.1));
    lemma_bytes_unspaced(vstd::utf8::encode_utf8(pair.0));
    lemma_bytes_unspaced(vstd::utf8::encode_utf8(pair.1));
    assert(unspaced(seq!['=']));
    lemma_sum_unspaced(name, seq!['=']);
    lemma_sum_unspaced(name + seq!['='], value);
}

proof fn lemma_bytes_unspaced(bytes: Seq<u8>)
    ensures
        unspaced(form_bytes(bytes)),
    decreases bytes.len(),
{
    if bytes.len() > 0 {
        lemma_bytes_unspaced(bytes.drop_last());
        let b = bytes.last();
        assert(unspaced(form_byte(b)));
        lemma_sum_unspaced(form_bytes(bytes.drop_last()), form_byte(b));
    }
}

/// What the request for the callback address asks for.
proof fn lemma_target_of_callback(pairs: Pairs, rest: Seq<char>)
    ensures
        target_of(callback_request(pairs, rest)) == Some(callback_target(pairs)),
{
    let request = callback_request(pairs, rest);
    let target = callback_target(pairs);
    reveal_strlit("GET ");
    reveal_strlit("/oauth/callback?");
    reveal_strlit(" HTTP/1.1\r\n");
    lemma_query_unspaced(pairs);
    assert(unspaced("/oauth/callback?"@));
    lemma_sum_unspaced("/oauth/callback?"@, form_query(pairs));
    let line = "GET "@ + target + seq![' ', 'H', 'T', 'T', 'P', '/', '1', '.', '1'];
    let n = target.len() as int;
    assert(request.len() == 4 + n + 11 + rest.len());
    assert forall|j: int| 0 <= j < n + 14 implies CharClass::Line.has(#[trigger] request[j]) by {
        if 4 <= j < 4 + n {
            assert(request[j] == target[j - 4]);
        } else if j >= 4 + n {
            assert(request[j] == " HTTP/1.1\r\n"@[j - 4 - n]);
        }
    }
    assert(request[n + 14] == '\n');
    text::lemma_lead(request, CharClass::Line, n + 14);
    assert(text::take_lead(request, CharClass::Line).last() == '\r');
    assert(text::take_lead(request, CharClass::Line).drop_last() =~= line);
    assert(first_line(request) == Some(line));
    // "GET"
    text::lemma_lead(line, CharClass::Space, 0);
    assert(text::skip_lead(line, CharClass::Space) =~= line);
    assert(line[3] == ' ');
    text::lemma_lead(line, CharClass::Word, 3);
    let tail = line.skip(3);
    assert(after_word(line) =~= tail);
    // the target
    assert(tail[0] == ' ' && tail[1] == '/');
    assert forall|j: int| 0 <= j < 1 implies CharClass::Space.has(#[trigger] tail[j]) by {}
    text::lemma_lead(tail, CharClass::Space, 1);
    let word = tail.skip(1);
    assert(text::skip_lead(tail, CharClass::Space) =~= word);
    assert forall|j: int| 0 <= j < n implies CharClass::Word.has(#[trigger] word[j]) by {
        assert(word[j] == target[j]);
    }
    assert(word[n] == ' ');
    text::lemma_lead(word, CharClass::Word, n);
    assert(text::take_lead(word, CharClass::Word) =~= target);
}

/// Where a connection comes from.
#[derive(Debug, Clone, Copy)]
pub enum PeerAddress {
    V4([u8; 4]),
    V6([u16; 8]),
}

impl PeerAddress {
    /// The address is of this machine: `127.x.x.x` or `::1`.
    pub open spec fn is_loopback(self) -> bool {
        match self {
            PeerAddress::V4(octets) => octets@[0] == 127,
            PeerAddress::V6(segments) => segments@ =~= seq![0u16, 0, 0, 0, 0, 0, 0, 1],
        }
    }
}

/// Lets connections from this machine pass.
pub fn validate_loopback(addr: &PeerAddress) -> (r: Result<(), String>)
    ensures
        r is Ok <==> addr.is_loopback(),
        r matches Err(message) ==> message@
            == "received OAuth callback from a non-loopback address"@,
{
    let loopback = match addr {
        PeerAddress::V4(octets) => octets[0] == 127,
        PeerAddress::V6(s) => {
            let r = s[0] == 0 && s[1] == 0 && s[2] == 0 && s[3] == 0 && s[4] == 0 && s[5] == 0
                && s[6] == 0 && s[7] == 1;
            assert(r == (s@ =~= seq![0u16, 0, 0, 0, 0, 0, 0, 1])) by {
                let t = seq![0u16, 0, 0, 0, 0, 0, 0, 1];
                if s@ =~= t {
                    assert(s@[0] == t[0] && s@[1] == t[1] && s@[2] == t[2] && s@[3] == t[3]
                        && s@[4] == t[4] && s@[5] == t[5] && s@[6] == t[6] && s@[7] == t[7]);
                }
            }
            r
        },
    };
    if loopback {
        Ok(())
    } else {
        Err("received OAuth callback from a non-loopback address".to_string())
    }
}

/// The page that the browser shows in the end.
pub const CALLBACK_PAGE: &'static str =
    "<!doctype html><html lang=\"ja\"><meta charset=\"utf-8\"><title>Connected</title><body style=\"font-family:sans-serif;padding:24px\">Google Calendar の接続が完了しました。アプリへ戻ってください。</body></html>";

/// An HTTP response with the given page.
pub open spec fn page_response(page: Seq<char>) -> Seq<char> {
    "HTTP/1.1 200 OK\r\ncontent-type: text/html; charset=utf-8\r\ncontent-length: "@
        + text::decimal_digits(vstd::utf8::encode_utf8(page).len())
        + "\r\nconnection: close\r\n\r\n"@ + page
}

/// The HTTP response to the browser's request.
pub fn callback_response() -> (r: String)
    ensures
        r@ == page_response(CALLBACK_PAGE@),
{
    let page = CALLBACK_PAGE;
    let length: usize = page.as_bytes().len();
    let mut r =
        "HTTP/1.1 200 OK\r\ncontent-type: text/html; charset=utf-8\r\ncontent-length: ".to_string();
    r.append(text::decimal(length).as_str());
    r.append("\r\nconnection: close\r\n\r\n");
    r.append(page);
    r
}

/// The tokens as the token service sends them.
#[derive(Debug)]
pub struct TokenResponse {
    pub access_token: String,
    /// Seconds from now.
    pub expires_in: i64,
    pub refresh_token: Option<String>,
}

/// The tokens had for a refresh token at `now`: a new access token, and the refresh token
/// that was used.
pub open spec fn refreshed(
    response: TokenResponse,
    refresh_token: Seq<char>,
    now: Moment,
) -> TokenView {
    TokenView {
        access_token: response.access_token@,
        refresh_token: Some(refresh_token),
        expires_at: clock::shifted(now, response.expires_in as int),
    }
}

/// The tokens had for a refresh token.
pub fn refreshed_token(
    response: TokenResponse,
    refresh_token: String,
    now: &Timestamp,
) -> (r: TokenState)
    requires
        clock::in_range_after(now@, response.expires_in as int),
    ensures
        r@ == refreshed(response, refresh_token@, now@),
{
    TokenState {
        access_token: response.access_token,
        refresh_token: Some(refresh_token),
        expires_at: now.shift(response.expires_in),
    }
}

/// The tokens had for a code at `now`.
pub open spec fn exchanged(response: TokenResponse, now: Moment) -> TokenView {
    TokenView {
        access_token: response.access_token@,
        refresh_token: text::opt_text(response.refresh_token),
        expires_at: clock::shifted(now, response.expires_in as int),
    }
}

/// The tokens had for a code.
pub fn exchanged_token(response: TokenResponse, now: &Timestamp) -> (r: TokenState)
    requires
        clock::in_range_after(now@, response.expires_in as int),
    ensures
        r@ == exchanged(response, now@),
{
    TokenState {
        access_token: response.access_token,
        refresh_token: response.refresh_token,
        expires_at: now.shift(response.expires_in),
    }
}

/// What is to be done to have an access token that works.
#[derive(Debug)]
pub enum AccessTokenNeed {
    /// Nothing: the token is fresh.
    Fresh(TokenState),
    /// Nothing can be done; the message says why.
    Lost(String),
    /// Ask the token service with the form; the refresh token goes with what it answers.
    Refresh { form: Vec<(String, String)>, refresh_token: String },
}

/// What is to be done to have an access token that works, as texts.
pub enum NeedView {
    Fresh(TokenView),
    Lost(Seq<char>),
    Refresh(Pairs, Seq<char>),
}

impl View for AccessTokenNeed {
    type V = NeedView;

    open spec fn view(&self) -> NeedView {
        match *self {
            AccessTokenNeed::Fresh(token) => NeedView::Fresh(token@),
            AccessTokenNeed::Lost(message) => NeedView::Lost(message@),
            AccessTokenNeed::Refresh { form, refresh_token } => NeedView::Refresh(
                pair_views(form@),
                refresh_token@,
            ),
        }
    }
}

/// A fresh access token will do; another one is renewed with its refresh token; without
/// one the user has to sign in again.
pub open spec fn access_token_need(
    client_id: Seq<char>,
    client_secret: Option<Seq<char>>,
    token: TokenView,
    now: Moment,
) -> NeedView {
    if token.fresh_at(now) {
        NeedView::Fresh(token)
    } else {
        match token.refresh_token {
            None => NeedView::Lost("refresh token is missing; please reconnect Google Calendar"@),
            Some(refresh_token) => NeedView::Refresh(
                refresh_pairs(client_id, client_secret, refresh_token),
                refresh_token,
            ),
        }
    }
}

/// What is to be done to have an access token that works.
pub fn ensure_access_token(
    client_id: &str,
    client_secret: &Option<String>,
    token: TokenState,
    now: &Timestamp,
) -> (r: AccessTokenNeed)
    requires
        clock::in_range_after(now@, TOKEN_MARGIN_SECS as int),
    ensures
        r@ == access_token_need(client_id@, text::opt_text(*client_secret), token@, now@),
{
    if token.access_token_is_fresh_at(now) {
        return AccessTokenNeed::Fresh(token);
    }
    match token.refresh_token {
        None => AccessTokenNeed::Lost(
            "refresh token is missing; please reconnect Google Calendar".to_string(),
        ),
        Some(refresh_token) => {
            let form = refresh_form(client_id, client_secret, refresh_token.as_str());
            AccessTokenNeed::Refresh { form, refresh_token }
        },
    }
}

/// What became of a request for tokens.
pub open spec fn token_result(r: Result<TokenState, String>) -> Result<TokenView, Seq<char>> {
    match r {
        Ok(token) => Ok(token@),
        Err(message) => Err(message@),
    }
}

/// The answer can be used at `now`: a status is one that exists, and an expiry can be
/// represented.
pub open spec fn usable_reply(reply: Reply<TokenResponse>, now: Moment) -> bool {
    match reply {
        Reply::Rejected { status, .. } => google::valid_status(status),
        Reply::Decoded(response) => clock::in_range_after(now, response.expires_in as int),
        _ => true,
    }
}

/// What became of a request to renew the access token.
pub open spec fn refresh_result(
    reply: Reply<TokenResponse>,
    refresh_token: Seq<char>,
    now: Moment,
) -> Result<TokenView, Seq<char>> {
    match reply {
        Reply::Unsent => Err("failed to refresh Google OAuth token"@),
        Reply::Rejected { status, body } => Err(
            "failed to refresh Google token: "@ + google::google_error(
                status,
                text::opt_text(body),
            ),
        ),
        Reply::Undecodable => Err("failed to decode Google token refresh response"@),
        Reply::Decoded(response) => Ok(refreshed(response, refresh_token, now)),
    }
}

/// What became of a request to renew the access token.
pub fn refresh_outcome(
    reply: Reply<TokenResponse>,
    refresh_token: String,
    now: &Timestamp,
) -> (r: Result<TokenState, String>)
    requires
        usable_reply(reply, now@),
    ensures
        token_result(r) == refresh_result(reply, refresh_token@, now@),
{
    match reply {
        Reply::Unsent => Err("failed to refresh Google OAuth token".to_string()),
        Reply::Rejected { status, body } => {
            let mut message = "failed to refresh Google token: ".to_string();
            message.append(google::parse_google_error(status, &body).as_str());
            Err(message)
        },
        Reply::Undecodable => Err("failed to decode Google token refresh response".to_string()),
        Reply::Decoded(response) => Ok(refreshed_token(response, refresh_token, now)),
    }
}

/// What became of a request to exchange a code for tokens.
pub open spec fn exchange_result(
    reply: Reply<TokenResponse>,
    now: Moment,
) -> Result<TokenView, Seq<char>> {
    match reply {
        Reply::Unsent => Err("failed to exchange authorization code"@),
        Reply::Rejected { status, body } => Err(
            "failed to exchange authorization code: "@ + google::google_error(
                status,
                text::opt_text(body),
            ),
        ),
        Reply::Undecodable => Err("failed to decode Google token response"@),
        Reply::Decoded(response) => Ok(exchanged(response, now)),
    }
}

/// What became of a request to exchange a code for tokens.
pub fn exchange_outcome(
    reply: Reply<TokenResponse>,
    now: &Timestamp,
) -> (r: Result<TokenState, String>)
    requires
        usable_reply(reply, now@),
    ensures
        token_result(r) == exchange_result(reply, now@),
{
    match reply {
        Reply::Unsent => Err("failed to exchange authorization code".to_string()),
        Reply::Rejected { status, body } => {
            let mut message = "failed to exchange authorization code: ".to_string();
            message.append(google::parse_google_error(status, &body).as_str());
            Err(message)
        },
        Reply::Undecodable => Err("failed to decode Google token response".to_string()),
        Reply::Decoded(response) => Ok(exchanged_token(response, now)),
    }
}

/// What answers a callback: the form that exchanges its code, if it carries the state token
/// of the sign-in; nothing is exchanged otherwise.
pub open spec fn callback_answer(
    pending: PendingView,
    callback: CallbackView,
) -> Result<Pairs, Seq<char>> {
    if callback.state == pending.state {
        Ok(exchange_pairs(pending, callback.code))
    } else {
        Err("OAuth state が一致しませんでした"@)
    }
}

/// What answers a callback.
pub fn answer_callback(pending: &PendingAuth, callback: &AuthCallback) -> (r: Result<
    Vec<(String, String)>,
    String,
>)
    ensures
        pairs_result(r) == callback_answer(pending@, callback@),
{
    if text::same_text(callback.state.as_str(), pending.state.as_str()) {
        Ok(exchange_form(pending, callback.code.as_str()))
    } else {
        Err("OAuth state が一致しませんでした".to_string())
    }
}

/// An access token whose expiry does not lie a minute ahead is never used: it is renewed with
/// its refresh token, and without one access is lost.
pub proof fn law_stale_token_is_never_used(
    client_id: Seq<char>,
    client_secret: Option<Seq<char>>,
    token: TokenView,
    now: Moment,
)
    requires
        token.expires_at.secs < now.secs + 60,
    ensures
        token.refresh_token is None ==> access_token_need(client_id, client_secret, token, now)
            is Lost,
        token.refresh_token matches Some(refresh_token) ==> access_token_need(
            client_id,
            client_secret,
            token,
            now,
        ) == NeedView::Refresh(
            refresh_pairs(client_id, client_secret, refresh_token),
            refresh_token,
        ),
{
}

/// An access token whose expiry lies more than a minute ahead is used as it is.
pub proof fn law_fresh_token_is_used_as_it_is(
    client_id: Seq<char>,
    client_secret: Option<Seq<char>>,
    token: TokenView,
    now: Moment,
)
    requires
        0 <= now.nanos < 1_000_000_000,
        token.expires_at.secs > now.secs + 60,
    ensures
        access_token_need(client_id, client_secret, token, now) == NeedView::Fresh(token),
{
}

/// The form that renews an access token holds the client id, the refresh token, what is asked
/// for and, where there is one, the client secret; and nothing else.
pub proof fn law_refresh_form_holds(
    client_id: Seq<char>,
    client_secret: Option<Seq<char>>,
    refresh_token: Seq<char>,
)
    ensures
        ({
            let form = refresh_pairs(client_id, client_secret, refresh_token);
            &&& form.contains(("client_id"@, client_id))
            &&& form.contains(("refresh_token"@, refresh_token))
            &&& form.contains(("grant_type"@, "refresh_token"@))
            &&& client_secret matches Some(secret) ==> form.contains(("client_secret"@, secret))
                && form.len() == 4
            &&& client_secret is None ==> form.len() == 3
        }),
{
    let form = refresh_pairs(client_id, client_secret, refresh_token);
    assert(form[0] == ("client_id"@, client_id));
    assert(form[1] == ("grant_type"@, "refresh_token"@));
    assert(form[2] == ("refresh_token"@, refresh_token));
    if let Some(secret) = client_secret {
        assert(form[3] == ("client_secret"@, secret));
    }
}

/// The form that exchanges a code holds the code, what the sign-in was begun with, what is asked
/// for and, where there is one, the client secret; and nothing else.
pub proof fn law_exchange_form_holds(pending: PendingView, code: Seq<char>)
    ensures
        ({
            let form = exchange_pairs(pending, code);
            &&& form.contains(("client_id"@, pending.client_id))
            &&& form.contains(("code"@, code))
            &&& form.contains(("redirect_uri"@, pending.redirect_uri))
            &&& form.contains(("code_verifier"@, pending.code_verifier))
            &&& form.contains(("grant_type"@, "authorization_code"@))
            &&& pending.client_secret matches Some(secret) ==> form.contains(
                ("client_secret"@, secret),
            ) && form.len() == 6
            &&& pending.client_secret is None ==> form.len() == 5
        }),
{
    let form = exchange_pairs(pending, code);
    assert(form[0] == ("client_id"@, pending.client_id));
    assert(form[1] == ("grant_type"@, "authorization_code"@));
    assert(form[2] == ("code"@, code));
    assert(form[3] == ("redirect_uri"@, pending.redirect_uri));
    assert(form[4] == ("code_verifier"@, pending.code_verifier));
    if let Some(secret) = pending.client_secret {
        assert(form[5] == ("client_secret"@, secret));
    }
}

/// The page for signing in is asked for read access to the calendar, for a code and for access
/// that lasts, in the name of the client and with the address, the state token and the challenge
/// of the sign-in; and for nothing else.
pub proof fn law_sign_in_page_is_asked(
    client_id: Seq<char>,
    redirect_uri: Seq<char>,
    state: Seq<char>,
    code_challenge: Seq<char>,
)
    ensures
        ({
            let asked = auth_pairs(client_id, redirect_uri, state, code_challenge);
            &&& asked.len() == 10
            &&& asked.contains(("client_id"@, client_id))
            &&& asked.contains(("redirect_uri"@, redirect_uri))
            &&& asked.contains(("state"@, state))
            &&& asked.contains(("code_challenge"@, code_challenge))
            &&& asked.contains(("code_challenge_method"@, "S256"@))
            &&& asked.contains(("response_type"@, "code"@))
            &&& asked.contains(
                ("scope"@, "https://www.googleapis.com/auth/calendar.readonly"@),
            )
            &&& asked.contains(("access_type"@, "offline"@))
            &&& asked.contains(("prompt"@, "consent"@))
            &&& asked.contains(("include_granted_scopes"@, "true"@))
            &&& auth_url(client_id, redirect_uri, state, code_challenge) == with_query(
                "https://accounts.google.com/o/oauth2/v2/auth"@,
                asked,
            )
        }),
{
    let asked = auth_pairs(client_id, redirect_uri, state, code_challenge);
    assert(asked[0] == ("client_id"@, client_id));
    assert(asked[1] == ("redirect_uri"@, redirect_uri));
    assert(asked[2] == ("response_type"@, "code"@));
    assert(asked[3] == ("scope"@, "https://www.googleapis.com/auth/calendar.readonly"@));
    assert(asked[4] == ("access_type"@, "offline"@));
    assert(asked[5] == ("prompt"@, "consent"@));
    assert(asked[6] == ("include_granted_scopes"@, "true"@));
    assert(asked[7] == ("state"@, state));
    assert(asked[8] == ("code_challenge"@, code_challenge));
    assert(asked[9] == ("code_challenge_method"@, "S256"@));
}

/// The calendar is asked for single events in the order of their starts, from now to twelve
/// hours on, with their conferences; and for nothing else.
pub proof fn law_calendar_is_asked(now: Moment)
    requires
        clock::valid_moment(now),
        now.nanos < 1_000_000_000,
    ensures
        ({
            let asked = events_pairs(now);
            &&& asked.len() == 6
            &&& asked.contains(("singleEvents"@, "true"@))
            &&& asked.contains(("orderBy"@, "startTime"@))
            &&& asked.contains(("maxResults"@, "250"@))
            &&& asked.contains(("conferenceDataVersion"@, "1"@))
            &&& asked.contains(
                ("timeMin"@, clock::rfc3339_seconds_text(now.secs as i64, now.nanos as u32)),
            )
            &&& asked.contains(
                (
                    "timeMax"@,
                    clock::rfc3339_seconds_text((now.secs + 43_200) as i64, now.nanos as u32),
                ),
            )
        }),
{
    let asked = events_pairs(now);
    assert(asked[0] == ("singleEvents"@, "true"@));
    assert(asked[1] == ("orderBy"@, "startTime"@));
    assert(asked[2] == ("maxResults"@, "250"@));
    assert(asked[3] == ("conferenceDataVersion"@, "1"@));
    assert(asked[4] == (
        "timeMin"@,
        clock::rfc3339_seconds_text(now.secs as i64, now.nanos as u32),
    ));
    assert(asked[5] == (
        "timeMax"@,
        clock::rfc3339_seconds_text((now.secs + 43_200) as i64, now.nanos as u32),
    ));
}

/// Of several values for a name the last one counts.
pub proof fn law_last_value_counts(pairs: Pairs, name: Seq<char>, i: int)
    requires
        -1 <= i,
        forall|j: int| i < j < pairs.len() ==> (#[trigger] pairs[j]).0 != name,
    ensures
        0 <= i < pairs.len() && pairs[i].0 == name ==> last_value(pairs, name) == Some(pairs[i].1),
        i < 0 ==> last_value(pairs, name) is None,
    decreases pairs.len(),
{
    if pairs.len() > 0 && i < pairs.len() - 1 {
        let rest = pairs.drop_last();
        assert(pairs[pairs.len() - 1].0 != name);
        assert forall|j: int| i < j < rest.len() implies (#[trigger] rest[j]).0 != name by {
            assert(rest[j] == pairs[j]);
        }
        law_last_value_counts(rest, name, i);
    }
}

/// A callback is understood exactly when it brings a code and a state token, in whatever order
/// and among whatever else; a missing code is told before a missing state token.
pub proof fn law_callback_needs_code_and_state(pairs: Pairs, i: int, j: int)
    requires
        -1 <= i < pairs.len(),
        -1 <= j < pairs.len(),
        i >= 0 ==> pairs[i].0 == "code"@,
        j >= 0 ==> pairs[j].0 == "state"@,
        forall|k: int| i < k < pairs.len() ==> (#[trigger] pairs[k]).0 != "code"@,
        forall|k: int| j < k < pairs.len() ==> (#[trigger] pairs[k]).0 != "state"@,
    ensures
        i >= 0 && j >= 0 ==> callback_of(pairs) == Ok::<CallbackView, Seq<char>>(
            (CallbackView { code: pairs[i].1, state: pairs[j].1 }),
        ),
        i < 0 ==> callback_of(pairs) == Err::<CallbackView, Seq<char>>(
            "OAuth callback did not include a code"@,
        ),
        i >= 0 && j < 0 ==> callback_of(pairs) == Err::<CallbackView, Seq<char>>(
            "OAuth callback did not include a state"@,
        ),
{
    law_last_value_counts(pairs, "code"@, i);
    law_last_value_counts(pairs, "state"@, j);
}

/// Connections from `127.x.x.x` and from `::1` count as coming from this machine, and no others.
pub proof fn law_only_this_machine_is_loopback(octets: [u8; 4], segments: [u16; 8])
    ensures
        PeerAddress::V4(octets).is_loopback() <==> octets@[0] == 127,
        PeerAddress::V6(segments).is_loopback() <==> segments@[7] == 1 && (forall|i: int|
            0 <= i < 7 ==> #[trigger] segments@[i] == 0),
{
    let one = seq![0u16, 0, 0, 0, 0, 0, 0, 1];
    if PeerAddress::V6(segments).is_loopback() {
        assert(segments@[7] == one[7]);
        assert forall|i: int| 0 <= i < 7 implies #[trigger] segments@[i] == 0 by {
            assert(segments@[i] == one[i]);
        }
    }
    if segments@[7] == 1 && (forall|i: int| 0 <= i < 7 ==> #[trigger] segments@[i] == 0) {
        assert(segments@ =~= one);
    }
}

/// Tokens hold what the service sent, and run out the given number of seconds from now. A
/// renewal keeps the refresh token that was used; an exchange takes the one that was sent.
pub proof fn law_tokens_hold_what_was_sent(
    response: TokenResponse,
    refresh_token: Seq<char>,
    now: Moment,
)
    requires
        now.nanos < 1_000_000_000,
    ensures
        refreshed(response, refresh_token, now).access_token == response.access_token@,
        refreshed(response, refresh_token, now).refresh_token == Some(refresh_token),
        refreshed(response, refresh_token, now).expires_at.secs == now.secs + response.expires_in,
        refreshed(response, refresh_token, now).expires_at.nanos == now.nanos,
        exchanged(response, now).access_token == response.access_token@,
        response.refresh_token matches Some(sent) ==> exchanged(response, now).refresh_token
            == Some(sent@),
        response.refresh_token is None ==> exchanged(response, now).refresh_token is None,
        exchanged(response, now).expires_at.secs == now.secs + response.expires_in,
        exchanged(response, now).expires_at.nanos == now.nanos,
{
}

/// An answer of the token service gives tokens exactly when it could be read; otherwise the
/// message tells what went wrong, with what the service said of a refusal.
pub proof fn law_answers_of_the_token_service(
    reply: Reply<TokenResponse>,
    refresh_token: Seq<char>,
    now: Moment,
)
    ensures
        refresh_result(reply, refresh_token, now) is Ok <==> reply is Decoded,
        exchange_result(reply, now) is Ok <==> reply is Decoded,
        reply is Unsent ==> refresh_result(reply, refresh_token, now)->Err_0
            == "failed to refresh Google OAuth token"@ && exchange_result(reply, now)->Err_0
            == "failed to exchange authorization code"@,
        reply is Undecodable ==> refresh_result(reply, refresh_token, now)->Err_0
            == "failed to decode Google token refresh response"@ && exchange_result(
            reply,
            now,
        )->Err_0 == "failed to decode Google token response"@,
        reply matches Reply::Rejected { status, body: None } ==> refresh_result(
            reply,
            refresh_token,
            now,
        )->Err_0 == "failed to refresh Google token: "@ + google::google_error(status, None)
            && exchange_result(reply, now)->Err_0 == "failed to exchange authorization code: "@
            + google::google_error(status, None),
        reply matches Reply::Rejected { status, body: Some(body) } ==> refresh_result(
            reply,
            refresh_token,
            now,
        )->Err_0 == "failed to refresh Google token: "@ + google::google_error(status, Some(body@))
            && exchange_result(reply, now)->Err_0 == "failed to exchange authorization code: "@
            + google::google_error(status, Some(body@)),
{
}

/// A sign-in is what it was begun with: its credentials, its tokens, the address of its port on
/// this machine, and the page that was given them and the challenge of its verifier.
pub proof fn law_sign_in_is_what_it_was_begun_with(
    client_id: Seq<char>,
    client_secret: Option<Seq<char>>,
    port: u16,
    state: Seq<char>,
    code_verifier: Seq<char>,
)
    ensures
        ({
            let pending = pending_view(client_id, client_secret, port, state, code_verifier);
            let address = "http://127.0.0.1:"@ + text::decimal_digits(port as nat)
                + "/oauth/callback"@;
            &&& pending.client_id == client_id
            &&& pending.client_secret == client_secret
            &&& pending.state == state
            &&& pending.code_verifier == code_verifier
            &&& pending.redirect_uri == address
            &&& pending.auth_url == auth_url(
                client_id,
                address,
                state,
                base64_url(sha256(vstd::utf8::encode_utf8(code_verifier))),
            )
        }),
{
}

/// What a request asks for is the second word of its first line, whatever follows.
pub proof fn law_target_is_the_second_word(
    method: Seq<char>,
    target: Seq<char>,
    version: Seq<char>,
    rest: Seq<char>,
)
    requires
        method.len() > 0,
        target.len() > 0,
        forall|i: int| 0 <= i < method.len() ==> !text::white_space(#[trigger] method[i]),
        forall|i: int| 0 <= i < target.len() ==> !text::white_space(#[trigger] target[i]),
        forall|i: int| 0 <= i < version.len() ==> #[trigger] version[i] != '\n',
    ensures
        target_of(method + seq![' '] + target + seq![' '] + version + seq!['\n'] + rest) == Some(
            target,
        ),
{
    let head = method + seq![' '] + target + seq![' '];
    let full = head + version;
    let request = full + seq!['\n'] + rest;
    assert(request =~= method + seq![' '] + target + seq![' '] + version + seq!['\n'] + rest);
    let n = full.len() as int;
    let m = method.len() as int;
    let t = target.len() as int;
    assert forall|j: int| 0 <= j < n implies CharClass::Line.has(#[trigger] request[j]) by {
        if j < m {
            assert(request[j] == method[j]);
        } else if m < j < m + 1 + t {
            assert(request[j] == target[j - m - 1]);
        } else if j >= m + t + 2 {
            assert(request[j] == version[j - m - t - 2]);
        }
    }
    assert(request[n] == '\n');
    text::lemma_lead(request, CharClass::Line, n);
    assert(text::take_lead(request, CharClass::Line) =~= full);
    let line = first_line(request)->Some_0;
    assert(full.last() == '\r' ==> version.len() > 0);
    assert(line.len() >= head.len());
    assert forall|j: int| 0 <= j < head.len() implies line[j] == #[trigger] head[j] by {}
    assert(line[0] == method[0]);
    text::lemma_lead(line, CharClass::Space, 0);
    assert(text::skip_lead(line, CharClass::Space) =~= line);
    assert forall|j: int| 0 <= j < m implies CharClass::Word.has(#[trigger] line[j]) by {
        assert(line[j] == method[j]);
    }
    assert(line[m] == ' ');
    text::lemma_lead(line, CharClass::Word, m);
    let tail = line.skip(m);
    assert(after_word(line) =~= tail);
    assert(tail[0] == ' ');
    assert(tail[1] == target[0]);
    text::lemma_lead(tail, CharClass::Space, 1);
    let word = tail.skip(1);
    assert(text::skip_lead(tail, CharClass::Space) =~= word);
    assert forall|j: int| 0 <= j < t implies CharClass::Word.has(#[trigger] word[j]) by {
        assert(word[j] == target[j]);
    }
    assert(word[t] == ' ');
    text::lemma_lead(word, CharClass::Word, t);
    assert(text::take_lead(word, CharClass::Word) =~= target);
}

/// The response with a page ends with that page, and tells its length in bytes before it.
pub proof fn law_response_tells_the_length_of_its_page(page: Seq<char>)
    ensures
        page_response(page).skip(page_response(page).len() - page.len()) == page,
        exists|head: Seq<char>|
            page_response(page) == #[trigger] (head + "content-length: "@ + text::decimal_digits(
                vstd::utf8::encode_utf8(page).len(),
            ) + "\r\nconnection: close\r\n\r\n"@ + page) && "HTTP/1.1 200 OK\r\n"@.is_prefix_of(head),
{
    let response = page_response(page);
    assert(response.skip(response.len() - page.len()) =~= page);
    reveal_strlit("HTTP/1.1 200 OK\r\ncontent-type: text/html; charset=utf-8\r\ncontent-length: ");
    reveal_strlit("HTTP/1.1 200 OK\r\n");
    reveal_strlit("content-length: ");
    let start = "HTTP/1.1 200 OK\r\ncontent-type: text/html; charset=utf-8\r\ncontent-length: "@;
    let head = start.take(start.len() - "content-length: "@.len());
    assert(start =~= head + "content-length: "@);
    assert("HTTP/1.1 200 OK\r\n"@ =~= head.subrange(0, "HTTP/1.1 200 OK\r\n"@.len() as int));
    assert(response =~= head + "content-length: "@ + text::decimal_digits(
        vstd::utf8::encode_utf8(page).len(),
    ) + "\r\nconnection: close\r\n\r\n"@ + page);
}

} // verus!
