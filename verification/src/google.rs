//! What the calendar service answers: events, the meeting links in them, and errors.

use vstd::prelude::*;

use crate::state;
use crate::state::{CalendarEventSummary, EventView};
use crate::text;
use crate::text::CharClass;

verus! {

/// A link in running text, as a regular expression.
pub const LINK_PATTERN: &'static str = "https?://[^\\s<>()\"]+";

/// A way into a meeting.
#[derive(Debug)]
pub struct EntryPoint {
    pub uri: Option<String>,
    pub entry_point_type: Option<String>,
}

/// The conference that belongs to an event.
#[derive(Debug)]
pub struct ConferenceData {
    pub entry_points: Option<Vec<EntryPoint>>,
}

/// A point in time of an event. All-day events have no `date_time`.
#[derive(Debug)]
pub struct EventDateTime {
    pub date_time: Option<String>,
}

/// An event as the calendar service sends it.
#[derive(Debug)]
pub struct GoogleCalendarEvent {
    pub id: Option<String>,
    pub summary: Option<String>,
    pub description: Option<String>,
    pub location: Option<String>,
    pub hangout_link: Option<String>,
    pub conference_data: Option<ConferenceData>,
    pub start: Option<EventDateTime>,
    pub end: Option<EventDateTime>,
}

/// A way into a meeting, as texts.
#[verifier::ext_equal]
pub struct EntryView {
    pub uri: Option<Seq<char>>,
    pub kind: Option<Seq<char>>,
}

impl View for EntryPoint {
    type V = EntryView;

    open spec fn view(&self) -> EntryView {
        EntryView { uri: text::opt_text(self.uri), kind: text::opt_text(self.entry_point_type) }
    }
}

/// An event as the calendar service sends it, as texts. A missing conference is one
/// without entry points, and a missing point in time is one without a date and time.
#[verifier::ext_equal]
pub struct GoogleEventView {
    pub id: Option<Seq<char>>,
    pub summary: Option<Seq<char>>,
    pub description: Option<Seq<char>>,
    pub location: Option<Seq<char>>,
    pub hangout_link: Option<Seq<char>>,
    pub entry_points: Seq<EntryView>,
    pub start: Option<Seq<char>>,
    pub end: Option<Seq<char>>,
}

/// The views of a list of entry points.
pub open spec fn entry_views(entries: Seq<EntryPoint>) -> Seq<EntryView> {
    entries.map_values(|e: EntryPoint| e@)
}

/// The entry points of an optional conference.
pub open spec fn conference_entries(conference: Option<ConferenceData>) -> Seq<EntryView> {
    match conference {
        Some(conference) => match conference.entry_points {
            Some(entries) => entry_views(entries@),
            None => Seq::empty(),
        },
        None => Seq::empty(),
    }
}

/// The date and time of an optional point in time.
pub open spec fn point_text(point: Option<EventDateTime>) -> Option<Seq<char>> {
    match point {
        Some(point) => text::opt_text(point.date_time),
        None => None,
    }
}

impl View for GoogleCalendarEvent {
    type V = GoogleEventView;

    open spec fn view(&self) -> GoogleEventView {
        GoogleEventView {
            id: text::opt_text(self.id),
            summary: text::opt_text(self.summary),
            description: text::opt_text(self.description),
            location: text::opt_text(self.location),
            hangout_link: text::opt_text(self.hangout_link),
            entry_points: conference_entries(self.conference_data),
            start: point_text(self.start),
            end: point_text(self.end),
        }
    }
}

/// The views of a list of events.
pub open spec fn google_event_views(events: Seq<GoogleCalendarEvent>) -> Seq<GoogleEventView> {
    events.map_values(|e: GoogleCalendarEvent| e@)
}

/// How many characters of `s` are the beginning of a link: `http://` or `https://`.
pub open spec fn scheme_len(s: Seq<char>) -> nat {
    if "https://"@.is_prefix_of(s) {
        8
    } else if "http://"@.is_prefix_of(s) {
        7
    } else {
        0
    }
}

/// How many characters of `s` are a link that stands at its beginning: a scheme and all
/// the characters after it that a link can hold, at least one.
pub open spec fn link_len(s: Seq<char>) -> nat {
    let rest = text::lead(s.skip(scheme_len(s) as int), CharClass::Link);
    if scheme_len(s) > 0 && rest > 0 {
        scheme_len(s) + rest
    } else {
        0
    }
}

/// The first link in a text.
pub open spec fn first_link(s: Seq<char>) -> Option<Seq<char>>
    decreases s.len(),
{
    if s.len() == 0 {
        None
    } else if link_len(s) > 0 {
        Some(s.take(link_len(s) as int))
    } else {
        first_link(s.drop_first())
    }
}

/// `regex::Regex::find` with the pattern of a link: the leftmost link in the text, as long
/// as it reaches.
#[verifier::external_body]
fn regex_find(pattern: &str, text: &str) -> (r: Option<String>)
    requires
        pattern@ == LINK_PATTERN@,
    ensures
        text::opt_text(r) == first_link(text@),
{
    let regex = regex::Regex::new(pattern).expect("a valid pattern");
    regex.find(text).map(|found| found.as_str().to_string())
}

/// The first link in an optional text, without the punctuation behind it.
pub open spec fn link_in(value: Option<Seq<char>>) -> Option<Seq<char>> {
    match value {
        Some(value) => match first_link(value) {
            Some(link) => Some(text::drop_trail(link, CharClass::Closing)),
            None => None,
        },
        None => None,
    }
}

/// The first link in an optional text, without the punctuation behind it.
pub fn find_link(value: &Option<String>) -> (r: Option<String>)
    ensures
        text::opt_text(r) == link_in(text::opt_text(*value)),
{
    match value {
        Some(value) => match regex_find(LINK_PATTERN, value.as_str()) {
            Some(link) => {
                let chars = text::chars_of(link.as_str());
                let end = text::trail_start(&chars, 0, chars.len(), CharClass::Closing);
                assert(chars@.subrange(0, chars@.len() as int) =~= link@);
                Some(text::piece(&chars, 0, end))
            },
            None => None,
        },
        None => None,
    }
}

impl EntryView {
    /// The entry point leads into the meeting by video, or is listed as a further way in.
    pub open spec fn preferred(self) -> bool {
        self.kind == Some("video"@) || self.kind == Some("more"@)
    }
}

/// The address of the first preferred entry point that has one.
pub open spec fn entry_link(entries: Seq<EntryView>) -> Option<Seq<char>>
    decreases entries.len(),
{
    if entries.len() == 0 {
        None
    } else if entries.first().preferred() && entries.first().uri is Some {
        entries.first().uri
    } else {
        entry_link(entries.drop_first())
    }
}

/// The address of the first preferred entry point that has one.
fn find_entry_link(entries: &Vec<EntryPoint>) -> (r: Option<String>)
    ensures
        text::opt_text(r) == entry_link(entry_views(entries@)),
{
    let mut i: usize = 0;
    proof {
        assert(entry_views(entries@).skip(0) =~= entry_views(entries@));
    }
    while i < entries.len()
        invariant
            i <= entries@.len(),
            entry_link(entry_views(entries@)) == entry_link(entry_views(entries@).skip(i as int)),
        decreases entries@.len() - i,
    {
        let entry = &entries[i];
        proof {
            let rest = entry_views(entries@).skip(i as int);
            assert(rest.first() == entry@);
            assert(rest.drop_first() =~= entry_views(entries@).skip(i + 1));
        }
        let preferred = match &entry.entry_point_type {
            Some(kind) => text::same_text(kind.as_str(), "video") || text::same_text(
                kind.as_str(),
                "more",
            ),
            None => false,
        };
        if preferred && entry.uri.is_some() {
            return text::copy_opt(&entry.uri);
        }
        i = i + 1;
    }
    None
}

/// The link to the meeting of an event: the meeting link itself, or else the first
/// preferred entry point of its conference, or else a link in its location, or else one in
/// its description.
pub open spec fn meeting_link(event: GoogleEventView) -> Option<Seq<char>> {
    if event.hangout_link is Some {
        event.hangout_link
    } else if entry_link(event.entry_points) is Some {
        entry_link(event.entry_points)
    } else if link_in(event.location) is Some {
        link_in(event.location)
    } else {
        link_in(event.description)
    }
}

/// The link to the meeting of an event.
pub fn extract_meeting_url(event: &GoogleCalendarEvent) -> (r: Option<String>)
    ensures
        text::opt_text(r) == meeting_link(event@),
{
    if event.hangout_link.is_some() {
        return text::copy_opt(&event.hangout_link);
    }
    if let Some(conference) = &event.conference_data {
        if let Some(entries) = &conference.entry_points {
            if let Some(link) = find_entry_link(entries) {
                return Some(link);
            }
        }
    }
    if let Some(link) = find_link(&event.location) {
        return Some(link);
    }
    find_link(&event.description)
}

/// An event of the service as the list of upcoming events shows it; nothing where it has
/// no id or no starting time, as all-day events have none.
pub open spec fn listed(event: GoogleEventView) -> Option<EventView> {
    match (event.id, event.start) {
        (Some(id), Some(start)) => Some(
            EventView {
                id,
                title: match event.summary {
                    Some(summary) => summary,
                    None => "No title"@,
                },
                start_at: start,
                end_at: event.end,
                location: event.location,
                meeting_url: meeting_link(event),
            },
        ),
        _ => None,
    }
}

/// An event of the service as the list of upcoming events shows it.
pub fn convert_event(event: GoogleCalendarEvent) -> (r: Option<CalendarEventSummary>)
    ensures
        r is Some <==> listed(event@) is Some,
        r matches Some(summary) ==> listed(event@) == Some(summary@),
{
    let meeting_url = extract_meeting_url(&event);
    let id = match event.id {
        Some(id) => id,
        None => {
            return None;
        },
    };
    let start_at = match event.start {
        Some(start) => match start.date_time {
            Some(date_time) => date_time,
            None => {
                return None;
            },
        },
        None => {
            return None;
        },
    };
    let end_at = match event.end {
        Some(end) => end.date_time,
        None => None,
    };
    Some(
        CalendarEventSummary {
            id,
            title: match event.summary {
                Some(summary) => summary,
                None => "No title".to_string(),
            },
            start_at,
            end_at,
            location: event.location,
            meeting_url,
        },
    )
}

/// The events of a calendar as the list of upcoming events shows them, in their order.
pub open spec fn all_listed(events: Seq<GoogleEventView>) -> Seq<EventView> {
    events.filter_map(|e: GoogleEventView| listed(e))
}

/// The events of a calendar as the list of upcoming events shows them.
pub fn convert_events(events: Vec<GoogleCalendarEvent>) -> (r: Vec<CalendarEventSummary>)
    ensures
        state::event_views(r@) == all_listed(google_event_views(events@)),
{
    let ghost all = google_event_views(events@);
    let mut r: Vec<CalendarEventSummary> = Vec::new();
    proof {
        assert(state::event_views(r@) =~= all_listed(all.take(0)));
    }
    for event in it: events
        invariant
            it.seq() == events@,
            all == google_event_views(events@),
            state::event_views(r@) == all_listed(all.take(it.index())),
    {
        let ghost before = state::event_views(r@);
        let ghost view = event@;
        proof {
            let n = it.index();
            assert(all.take(n + 1).drop_last() =~= all.take(n));
            assert(all.take(n + 1).last() == view);
        }
        if let Some(summary) = convert_event(event) {
            let ghost entry = summary@;
            r.push(summary);
            assert(state::event_views(r@) =~= before + seq![entry]);
        }
    }
    assert(all.take(all.len() as int) =~= all);
    r
}

/// An event without a starting time, as an all-day event is, is not listed.
pub proof fn law_all_day_events_are_not_listed(event: GoogleEventView)
    requires
        event.start is None,
    ensures
        listed(event) is None,
{
}

/// A link found in a text stands in that text and begins as a web address does.
pub proof fn law_link_stands_in_text(value: Seq<char>)
    ensures
        link_in(Some(value)) matches Some(link) ==> text::occurs(value, link) && (
        "http://"@.is_prefix_of(link) || "https://"@.is_prefix_of(link)),
{
    assert(value.skip(0) =~= value);
    lemma_first_link(value, value, 0);
    if let Some(found) = first_link(value) {
        let link = text::drop_trail(found, CharClass::Closing);
        text::lemma_trail_bounds(found, CharClass::Closing);
        reveal_strlit("http://");
        reveal_strlit("https://");
        let n = scheme_len(found) as int;
        assert(found[n - 1] == '/') by {
            if n == 8 {
                assert(found[7] == "https://"@[7]);
            } else {
                assert(found[6] == "http://"@[6]);
            }
        }
        assert(link.len() >= n);
        let at = choose|i: int| text::occurs_at(value, found, i);
        assert(value.subrange(at, at + found.len())[0] == found[0]);
        assert(value.subrange(at, at + link.len()) =~= link) by {
            assert(value.subrange(at, at + found.len()).take(link.len() as int) =~= value.subrange(
                at,
                at + link.len(),
            ));
        }
        assert(text::occurs_at(value, link, at));
        if n == 8 {
            assert("https://"@ =~= link.take(8));
        } else {
            assert("http://"@ =~= link.take(7));
        }
    }
}

/// The first link of what follows the first `n` characters of `value` stands in `value` and
/// begins with a scheme.
proof fn lemma_first_link(value: Seq<char>, rest: Seq<char>, n: int)
    requires
        0 <= n <= value.len(),
        rest == value.skip(n),
    ensures
        first_link(rest) matches Some(link) ==> text::occurs(value, link) && scheme_len(link) > 0,
    decreases rest.len(),
{
    if rest.len() > 0 {
        if link_len(rest) > 0 {
            let k = scheme_len(rest) as int;
            let link = rest.take(link_len(rest) as int);
            reveal_strlit("http://");
            reveal_strlit("https://");
            text::lemma_lead_bounds(rest.skip(k), CharClass::Link);
            assert(value.subrange(n, n + link.len()) =~= link);
            assert(text::occurs_at(value, link, n));
            if k == 8 {
                assert(link.take(8) =~= rest.take(8));
                assert("https://"@.is_prefix_of(link));
            } else {
                assert(link.take(7) =~= rest.take(7));
                assert("http://"@.is_prefix_of(link));
            }
        } else {
            assert(rest.drop_first() =~= value.skip(n + 1));
            lemma_first_link(value, rest.drop_first(), n + 1);
        }
    }
}

/// The message tells that the user has to sign in again.
pub open spec fn requires_reconnect(message: Seq<char>) -> bool {
    let normalized = text::ascii_lowercase(message);
    ||| text::occurs(normalized, "refresh token is missing"@)
    ||| text::occurs(normalized, "invalid_grant"@)
    ||| text::occurs(normalized, "expired or revoked"@)
    ||| text::occurs(normalized, "invalid authentication credentials"@)
}

/// Whether the message tells that the user has to sign in again.
pub fn error_requires_reconnect(message: &str) -> (r: bool)
    ensures
        r == requires_reconnect(message@),
{
    let normalized = text::to_ascii_lowercase(message);
    text::contains_text(normalized.as_str(), "refresh token is missing") || text::contains_text(
        normalized.as_str(),
        "invalid_grant",
    ) || text::contains_text(normalized.as_str(), "expired or revoked") || text::contains_text(
        normalized.as_str(),
        "invalid authentication credentials",
    )
}

/// What `reqwest::StatusCode` displays for a status: its number and its usual reason.
pub uninterp spec fn status_text(status: u16) -> Seq<char>;

/// What `serde_json` finds under `key` at the top of a JSON text, where that is a string.
pub uninterp spec fn json_string(json: Seq<char>, key: Seq<char>) -> Option<Seq<char>>;

/// What `serde_json` finds under `inner` in the object under `outer` at the top of a JSON
/// text, where that is a string.
pub uninterp spec fn json_nested_string(
    json: Seq<char>,
    outer: Seq<char>,
    inner: Seq<char>,
) -> Option<Seq<char>>;

/// A status of an HTTP response, as `reqwest::StatusCode` admits it.
pub open spec fn valid_status(status: u16) -> bool {
    100 <= status <= 999
}

/// `reqwest::StatusCode` as it displays: named. The text begins with the number and a space.
#[verifier::external_body]
fn reqwest_status_text(status: u16) -> (r: String)
    requires
        valid_status(status),
    ensures
        r@ == status_text(status),
        (text::decimal_digits(status as nat) + " "@).is_prefix_of(r@),
{
    reqwest::StatusCode::from_u16(status).expect("a valid status").to_string()
}

/// `serde_json::from_str` to a `Value`, `Value::get` and `Value::as_str`: named. Nothing
/// comes back where the text is no JSON, has no such key, or has no string there.
#[verifier::external_body]
fn serde_json_string(json: &str, key: &str) -> (r: Option<String>)
    ensures
        text::opt_text(r) == json_string(json@, key@),
{
    let value = serde_json::from_str::<serde_json::Value>(json).ok()?;
    value.get(key)?.as_str().map(|found| found.to_string())
}

/// `serde_json::from_str` to a `Value`, `Value::get` twice and `Value::as_str`: named.
#[verifier::external_body]
fn serde_json_nested_string(json: &str, outer: &str, inner: &str) -> (r: Option<String>)
    ensures
        text::opt_text(r) == json_nested_string(json@, outer@, inner@),
{
    let value = serde_json::from_str::<serde_json::Value>(json).ok()?;
    value.get(outer)?.get(inner)?.as_str().map(|found| found.to_string())
}

/// Whether a status tells of success.
pub open spec fn success(status: u16) -> bool {
    200 <= status <= 299
}

pub fn is_success(status: u16) -> (r: bool)
    ensures
        r == success(status),
{
    200 <= status && status <= 299
}

/// What an error response says of itself.
#[derive(Debug)]
pub struct ErrorFields {
    /// The string `message` in the object `error`.
    pub message: Option<String>,
    /// The string `error`.
    pub code: Option<String>,
    /// The string `error_description`.
    pub description: Option<String>,
}

/// What an error response says of itself, as texts.
#[verifier::ext_equal]
pub struct ErrorFieldsView {
    pub message: Option<Seq<char>>,
    pub code: Option<Seq<char>>,
    pub description: Option<Seq<char>>,
}

impl View for ErrorFields {
    type V = ErrorFieldsView;

    open spec fn view(&self) -> ErrorFieldsView {
        ErrorFieldsView {
            message: text::opt_text(self.message),
            code: text::opt_text(self.code),
            description: text::opt_text(self.description),
        }
    }
}

/// What the body of an error response says.
pub open spec fn error_fields(body: Seq<char>) -> ErrorFieldsView {
    ErrorFieldsView {
        message: json_nested_string(body, "error"@, "message"@),
        code: json_string(body, "error"@),
        description: json_string(body, "error_description"@),
    }
}

/// What the body of an error response says.
pub fn read_error_fields(body: &str) -> (r: ErrorFields)
    ensures
        r@ == error_fields(body@),
{
    ErrorFields {
        message: serde_json_nested_string(body, "error", "message"),
        code: serde_json_string(body, "error"),
        description: serde_json_string(body, "error_description"),
    }
}

/// One line on an error response with a body: its message, or else its code and
/// description as far as they are there, or else the body itself.
pub open spec fn error_line(
    status: Seq<char>,
    body: Seq<char>,
    fields: ErrorFieldsView,
) -> Seq<char> {
    let head = "HTTP "@ + status;
    match fields.message {
        Some(message) => head + ": "@ + message,
        None => match (fields.code, fields.description) {
            (Some(code), Some(description)) => head + ": "@ + code + " ("@ + description + ")"@,
            (Some(code), None) => head + ": "@ + code,
            (None, Some(description)) => head + ": "@ + description,
            (None, None) => head + ": "@ + body,
        },
    }
}

/// One line on an error response with a body.
pub fn describe_error(status: &str, body: &str, fields: &ErrorFields) -> (r: String)
    ensures
        r@ == error_line(status@, body@, fields@),
{
    let mut line = "HTTP ".to_string();
    line.append(status);
    line.append(": ");
    match &fields.message {
        Some(message) => {
            line.append(message.as_str());
        },
        None => match (&fields.code, &fields.description) {
            (Some(code), Some(description)) => {
                line.append(code.as_str());
                line.append(" (");
                line.append(description.as_str());
                line.append(")");
            },
            (Some(code), None) => {
                line.append(code.as_str());
            },
            (None, Some(description)) => {
                line.append(description.as_str());
            },
            (None, None) => {
                line.append(body);
            },
        },
    }
    line
}

/// One line on an error response: its status and what its body says, where it has one that
/// could be read.
pub open spec fn google_error(status: u16, body: Option<Seq<char>>) -> Seq<char> {
    match body {
        None => "HTTP "@ + status_text(status) + " (response body could not be read)"@,
        Some(body) => {
            let trimmed = text::trimmed(body);
            if trimmed.len() == 0 {
                "HTTP "@ + status_text(status) + " (empty response body)"@
            } else {
                error_line(status_text(status), trimmed, error_fields(trimmed))
            }
        },
    }
}

/// One line on an error response: its status and what its body says, where it has one that
/// could be read. The line begins with the number of the status.
pub fn parse_google_error(status: u16, body: &Option<String>) -> (r: String)
    requires
        valid_status(status),
    ensures
        r@ == google_error(status, text::opt_text(*body)),
        ("HTTP "@ + text::decimal_digits(status as nat) + " "@).is_prefix_of(r@),
{
    let ghost digits = text::decimal_digits(status as nat);
    let ghost number = digits + " "@;
    let status = reqwest_status_text(status);
    let line = match body {
        None => {
            let mut line = "HTTP ".to_string();
            line.append(status.as_str());
            line.append(" (response body could not be read)");
            line
        },
        Some(body) => {
            let trimmed = text::trim(body.as_str());
            if trimmed.as_str().is_empty() {
                let mut line = "HTTP ".to_string();
                line.append(status.as_str());
                line.append(" (empty response body)");
                line
            } else {
                let fields = read_error_fields(trimmed.as_str());
                describe_error(status.as_str(), trimmed.as_str(), &fields)
            }
        },
    };
    proof {
        let head = "HTTP "@ + status@;
        let wanted = "HTTP "@ + digits + " "@;
        assert(line@.take(head.len() as int) =~= head);
        assert(head =~= wanted + status@.skip(number.len() as int)) by {
            assert(status@ =~= status@.take(number.len() as int) + status@.skip(
                number.len() as int,
            ));
        }
        assert(head.take(wanted.len() as int) =~= wanted);
        assert(line@.take(wanted.len() as int) =~= line@.take(head.len() as int).take(
            wanted.len() as int,
        ));
    }
    line
}

/// What came of a request to a service.
#[derive(Debug)]
pub enum Reply<T> {
    /// The request did not get through.
    Unsent,
    /// The service refused; the body is missing where it could not be read.
    Rejected { status: u16, body: Option<String> },
    /// The service answered with something that could not be read.
    Undecodable,
    /// The service answered.
    Decoded(T),
}

/// What became of a request for the events of the calendar, as a result of views.
pub open spec fn events_result(
    r: Result<Vec<CalendarEventSummary>, String>,
) -> Result<Seq<EventView>, Seq<char>> {
    match r {
        Ok(events) => Ok(state::event_views(events@)),
        Err(message) => Err(message@),
    }
}

/// What became of a request for the events of the calendar.
pub open spec fn fetch_result(
    reply: Reply<Vec<GoogleCalendarEvent>>,
) -> Result<Seq<EventView>, Seq<char>> {
    match reply {
        Reply::Unsent => Err("failed to request Google Calendar events"@),
        Reply::Rejected { status, body } => Err(
            "failed to load Google Calendar events: "@ + google_error(status, text::opt_text(body)),
        ),
        Reply::Undecodable => Err("failed to decode Google Calendar events response"@),
        Reply::Decoded(events) => Ok(all_listed(google_event_views(events@))),
    }
}

/// What became of a request for the events of the calendar.
pub fn fetch_outcome(
    reply: Reply<Vec<GoogleCalendarEvent>>,
) -> (r: Result<Vec<CalendarEventSummary>, String>)
    requires
        reply matches Reply::Rejected { status, .. } ==> valid_status(status),
    ensures
        events_result(r) == fetch_result(reply),
{
    match reply {
        Reply::Unsent => Err("failed to request Google Calendar events".to_string()),
        Reply::Rejected { status, body } => {
            let mut message = "failed to load Google Calendar events: ".to_string();
            message.append(parse_google_error(status, &body).as_str());
            Err(message)
        },
        Reply::Undecodable => Err("failed to decode Google Calendar events response".to_string()),
        Reply::Decoded(events) => Ok(convert_events(events)),
    }
}

/// The meeting link itself comes before all others.
pub proof fn law_own_meeting_link_comes_first(event: GoogleEventView)
    requires
        event.hangout_link is Some,
    ensures
        meeting_link(event) == event.hangout_link,
{
}

/// Without a meeting link of its own, the link of an event is the address of the first entry
/// point that is of type `video` or `more` and has one.
pub proof fn law_first_way_in_is_the_link(event: GoogleEventView, i: int)
    requires
        event.hangout_link is None,
        0 <= i < event.entry_points.len(),
        event.entry_points[i].kind == Some("video"@) || event.entry_points[i].kind == Some(
            "more"@,
        ),
        event.entry_points[i].uri is Some,
        forall|j: int|
            0 <= j < i ==> (#[trigger] event.entry_points[j]).uri is None || (
            event.entry_points[j].kind != Some("video"@) && event.entry_points[j].kind != Some(
                "more"@,
            )),
    ensures
        meeting_link(event) == event.entry_points[i].uri,
{
    lemma_entry_link(event.entry_points, i);
}

proof fn lemma_entry_link(entries: Seq<EntryView>, i: int)
    requires
        0 <= i < entries.len(),
        entries[i].preferred() && entries[i].uri is Some,
        forall|j: int|
            0 <= j < i ==> (#[trigger] entries[j]).uri is None || !entries[j].preferred(),
    ensures
        entry_link(entries) == entries[i].uri,
    decreases entries.len(),
{
    if i > 0 {
        let rest = entries.drop_first();
        assert(entries[0].uri is None || !entries[0].preferred());
        assert forall|j: int| 0 <= j < i - 1 implies (#[trigger] rest[j]).uri is None
            || !rest[j].preferred() by {
            assert(rest[j] == entries[j + 1]);
        }
        lemma_entry_link(rest, i - 1);
    }
}

/// Without a meeting link of its own and without a way in of type `video` or `more` that has an
/// address, the link of an event is the first one in its location, or else in its description.
pub proof fn law_texts_are_searched_last(event: GoogleEventView)
    requires
        event.hangout_link is None,
        forall|j: int|
            0 <= j < event.entry_points.len() ==> (#[trigger] event.entry_points[j]).uri is None
                || (event.entry_points[j].kind != Some("video"@) && event.entry_points[j].kind
                != Some("more"@)),
    ensures
        link_in(event.location) is Some ==> meeting_link(event) == link_in(event.location),
        link_in(event.location) is None ==> meeting_link(event) == link_in(event.description),
        event.location is None && event.description is None ==> meeting_link(event) is None,
{
    lemma_no_entry_link(event.entry_points);
}

proof fn lemma_no_entry_link(entries: Seq<EntryView>)
    requires
        forall|j: int|
            0 <= j < entries.len() ==> (#[trigger] entries[j]).uri is None
                || !entries[j].preferred(),
    ensures
        entry_link(entries) is None,
    decreases entries.len(),
{
    if entries.len() > 0 {
        let rest = entries.drop_first();
        assert(entries[0].uri is None || !entries[0].preferred());
        assert forall|j: int| 0 <= j < rest.len() implies (#[trigger] rest[j]).uri is None
            || !rest[j].preferred() by {
            assert(rest[j] == entries[j + 1]);
        }
        lemma_no_entry_link(rest);
    }
}

/// A character that a link in running text can hold.
pub open spec fn link_char(c: char) -> bool {
    !text::white_space(c) && c != '<' && c != '>' && c != '(' && c != ')' && c != '"'
}

/// A link begins at place `i` of a text: `http://` or `https://` and a character of a link.
pub open spec fn link_begins(s: Seq<char>, i: int) -> bool {
    ||| 0 <= i && i + 7 < s.len() && s.subrange(i, i + 7) == "http://"@ && link_char(s[i + 7])
    ||| 0 <= i && i + 8 < s.len() && s.subrange(i, i + 8) == "https://"@ && link_char(s[i + 8])
}

/// `link` is the link that begins at place `i`, as long as it reaches.
pub open spec fn whole_link_at(s: Seq<char>, link: Seq<char>, i: int) -> bool {
    &&& text::occurs_at(s, link, i)
    &&& forall|j: int| 0 <= j < link.len() ==> link_char(#[trigger] link[j])
    &&& i + link.len() == s.len() || !link_char(s[i + link.len()])
}

/// The first link of a text is the leftmost one, as long as it reaches; there is none exactly
/// when nowhere in the text a link begins.
pub proof fn law_first_link_is_leftmost_and_whole(s: Seq<char>)
    ensures
        match first_link(s) {
            None => forall|i: int| 0 <= i < s.len() ==> !(#[trigger] link_begins(s, i)),
            Some(link) => exists|i: int| #[trigger]
                link_begins(s, i) && whole_link_at(s, link, i) && (forall|k: int|
                    0 <= k < i ==> !(#[trigger] link_begins(s, k))),
        },
    decreases s.len(),
{
    if s.len() > 0 {
        lemma_link_at_start(s);
        if link_len(s) == 0 {
            let rest = s.drop_first();
            law_first_link_is_leftmost_and_whole(rest);
            assert forall|i: int| 0 <= i implies link_begins(s, i + 1) == #[trigger] link_begins(
                rest,
                i,
            ) by {
                if i + 7 <= rest.len() {
                    assert(s.subrange(i + 1, i + 8) =~= rest.subrange(i, i + 7));
                }
                if i + 8 <= rest.len() {
                    assert(s.subrange(i + 1, i + 9) =~= rest.subrange(i, i + 8));
                }
            }
            match first_link(s) {
                None => {
                    assert forall|i: int| 0 <= i < s.len() implies !(#[trigger] link_begins(
                        s,
                        i,
                    )) by {
                        if i > 0 {
                            assert(!link_begins(rest, i - 1));
                        }
                    }
                },
                Some(link) => {
                    let i = choose|i: int| #[trigger]
                        link_begins(rest, i) && whole_link_at(rest, link, i) && (forall|k: int|
                            0 <= k < i ==> !(#[trigger] link_begins(rest, k)));
                    assert(s.subrange(i + 1, i + 1 + link.len()) =~= rest.subrange(
                        i,
                        i + link.len(),
                    ));
                    assert(whole_link_at(s, link, i + 1));
                    assert forall|k: int| 0 <= k < i + 1 implies !(#[trigger] link_begins(
                        s,
                        k,
                    )) by {
                        if k > 0 {
                            assert(!link_begins(rest, k - 1));
                        }
                    }
                    assert(link_begins(s, i + 1));
                },
            }
        }
    }
}

/// A link stands at the beginning of a text exactly when one begins there.
proof fn lemma_link_at_start(s: Seq<char>)
    requires
        s.len() > 0,
    ensures
        link_len(s) > 0 <==> link_begins(s, 0),
        link_len(s) > 0 ==> whole_link_at(s, s.take(link_len(s) as int), 0),
{
    reveal_strlit("http://");
    reveal_strlit("https://");
    let k = scheme_len(s) as int;
    let rest = s.skip(k);
    text::lemma_lead_bounds(rest, CharClass::Link);
    if k == 8 {
        assert(s.subrange(0, 8) == "https://"@);
        assert(s[4] == s.subrange(0, 8)[4]);
        assert(s.subrange(0, 7)[4] == s[4]);
    } else if k == 7 {
        assert(s.subrange(0, 7) == "http://"@);
    }
    if s.len() > 8 && s.subrange(0, 8) == "https://"@ {
        assert("https://"@.is_prefix_of(s));
    }
    if s.len() > 7 && s.subrange(0, 7) == "http://"@ {
        assert("http://"@.is_prefix_of(s));
        assert(s.subrange(0, 7)[4] == s[4]);
        if "https://"@.is_prefix_of(s) {
            assert(s.subrange(0, 8)[4] == s[4]);
        }
    }
    if k > 0 && rest.len() > 0 {
        assert(rest[0] == s[k]);
    }
    if link_len(s) > 0 {
        let link = s.take(link_len(s) as int);
        assert(s.subrange(0, link.len() as int) =~= link);
        assert forall|j: int| 0 <= j < link.len() implies link_char(#[trigger] link[j]) by {
            if j < k {
                assert(link[j] == s.subrange(0, k)[j]);
            } else {
                assert(link[j] == rest[j - k]);
            }
        }
        if link.len() < s.len() {
            assert(s[link.len() as int] == rest[link.len() - k]);
        }
    }
}

/// The link that is taken from a text is the first one there without the `)`, `]`, `.` and `,`
/// behind it, and those alone.
pub proof fn law_only_closing_punctuation_is_dropped(value: Seq<char>)
    ensures
        link_in(Some(value)) is Some <==> first_link(value) is Some,
        first_link(value) matches Some(found) ==> ({
            let link = link_in(Some(value))->Some_0;
            &&& link.len() <= found.len() && link == found.take(link.len() as int)
            &&& forall|j: int|
                link.len() <= j < found.len() ==> seq![')', ']', '.', ','].contains(
                    #[trigger] found[j],
                )
            &&& link.len() > 0 ==> !seq![')', ']', '.', ','].contains(link.last())
        }),
{
    if let Some(found) = first_link(value) {
        let marks = seq![')', ']', '.', ','];
        assert(marks[0] == ')' && marks[1] == ']' && marks[2] == '.' && marks[3] == ',');
        text::lemma_trail_bounds(found, CharClass::Closing);
        assert forall|c: char| CharClass::Closing.has(c) implies #[trigger] marks.contains(c) by {
            if c == ')' {
                assert(marks.contains(marks[0]));
            } else if c == ']' {
                assert(marks.contains(marks[1]));
            } else if c == '.' {
                assert(marks.contains(marks[2]));
            } else {
                assert(marks.contains(marks[3]));
            }
        }
    }
}

/// An event is listed exactly when it has an id and a starting time, with its own id, times,
/// location and link, and with its own title where it has one.
pub proof fn law_listed_as_it_is(event: GoogleEventView)
    ensures
        listed(event) is Some <==> event.id is Some && event.start is Some,
        listed(event) matches Some(entry) ==> ({
            &&& Some(entry.id) == event.id
            &&& Some(entry.start_at) == event.start
            &&& entry.end_at == event.end
            &&& entry.location == event.location
            &&& entry.meeting_url == meeting_link(event)
            &&& event.summary is Some ==> Some(entry.title) == event.summary
            &&& event.summary is None ==> entry.title == "No title"@
        }),
{
}

/// The list of two calendars, one behind the other, is their lists one behind the other: events
/// are listed each on its own and in their order.
pub proof fn law_lists_join(one: Seq<GoogleEventView>, other: Seq<GoogleEventView>)
    ensures
        all_listed(one + other) == all_listed(one) + all_listed(other),
    decreases other.len(),
{
    if other.len() == 0 {
        assert(one + other =~= one);
        assert(all_listed(other) =~= Seq::<EventView>::empty());
    } else {
        let rest = other.drop_last();
        law_lists_join(one, rest);
        assert((one + other).drop_last() =~= one + rest);
        assert((one + other).last() == other.last());
        assert(all_listed(one + other) =~= all_listed(one) + all_listed(other));
    }
}

/// The list of one event holds that event where it is listed, and nothing else.
pub proof fn law_list_of_one(event: GoogleEventView)
    ensures
        listed(event) matches Some(entry) ==> all_listed(seq![event]) == seq![entry],
        listed(event) is None ==> all_listed(seq![event]).len() == 0,
{
    let events = seq![event];
    assert(events.drop_last() =~= Seq::<GoogleEventView>::empty());
    assert(all_listed(events.drop_last()) =~= Seq::<EventView>::empty());
    assert(events.last() == event);
    if let Some(entry) = listed(event) {
        assert(all_listed(events) =~= seq![entry]);
    }
}

/// The view of an event holds every field, and the entry points in their order.
pub proof fn law_event_view_holds_every_field(event: GoogleCalendarEvent, i: int)
    ensures
        event.id matches Some(id) ==> event@.id == Some(id@),
        event.summary matches Some(summary) ==> event@.summary == Some(summary@),
        event.description matches Some(description) ==> event@.description == Some(description@),
        event.location matches Some(location) ==> event@.location == Some(location@),
        event.hangout_link matches Some(link) ==> event@.hangout_link == Some(link@),
        event.start matches Some(start) ==> (start.date_time matches Some(t) ==> event@.start
            == Some(t@)),
        event.end matches Some(end) ==> (end.date_time matches Some(t) ==> event@.end == Some(t@)),
        event.conference_data matches Some(conference) ==> (
        conference.entry_points matches Some(entries) ==> ({
            &&& event@.entry_points.len() == entries@.len()
            &&& 0 <= i < entries@.len() ==> ({
                &&& entries@[i].uri matches Some(uri) ==> event@.entry_points[i].uri == Some(uri@)
                &&& entries@[i].entry_point_type matches Some(kind)
                    ==> event@.entry_points[i].kind == Some(kind@)
                &&& entries@[i].uri is None ==> event@.entry_points[i].uri is None
            })
        })),
{
}

/// An error response with a body is told by its message, where it has one; else by its code,
/// with its description in brackets where it has both; else by its description; else by the
/// body.
pub proof fn law_error_line_tells_the_most_it_can(
    status: Seq<char>,
    body: Seq<char>,
    code: Seq<char>,
    description: Seq<char>,
    message: Seq<char>,
    fields: ErrorFieldsView,
)
    ensures
        fields.message == Some(message) ==> error_line(status, body, fields) == "HTTP "@ + status
            + ": "@ + message,
        fields.message is None && fields.code == Some(code) && fields.description == Some(
            description,
        ) ==> error_line(status, body, fields) == "HTTP "@ + status + ": "@ + code + " ("@
            + description + ")"@,
        fields.message is None && fields.code == Some(code) && fields.description is None
            ==> error_line(status, body, fields) == "HTTP "@ + status + ": "@ + code,
        fields.message is None && fields.code is None && fields.description == Some(description)
            ==> error_line(status, body, fields) == "HTTP "@ + status + ": "@ + description,
        fields.message is None && fields.code is None && fields.description is None
            ==> error_line(status, body, fields) == "HTTP "@ + status + ": "@ + body,
{
}

/// White space around the body of an error response makes no difference, and a body that is
/// all white space counts as empty.
pub proof fn law_error_body_is_trimmed(status: u16, body: Seq<char>)
    ensures
        google_error(status, Some(text::trimmed(body))) == google_error(status, Some(body)),
        (forall|j: int| 0 <= j < body.len() ==> text::white_space(#[trigger] body[j]))
            ==> google_error(status, Some(body)) == "HTTP "@ + status_text(status)
            + " (empty response body)"@,
        google_error(status, None) == "HTTP "@ + status_text(status)
            + " (response body could not be read)"@,
        !(forall|j: int| 0 <= j < body.len() ==> text::white_space(#[trigger] body[j]))
            ==> google_error(status, Some(body)) == error_line(
            status_text(status),
            text::trimmed(body),
            (ErrorFieldsView {
                message: json_nested_string(text::trimmed(body), "error"@, "message"@),
                code: json_string(text::trimmed(body), "error"@),
                description: json_string(text::trimmed(body), "error_description"@),
            }),
        ),
{
    text::law_trim_idempotent(body);
    text::law_blank_text_leaves_nothing(body);
}

/// `phrase`, which is in lower case, stands at place `i` of a message, in whatever case.
pub open spec fn reads_at(message: Seq<char>, phrase: Seq<char>, i: int) -> bool {
    &&& 0 <= i && i + phrase.len() <= message.len()
    &&& forall|k: int|
        0 <= k < phrase.len() ==> (#[trigger] phrase[k]) as int == if 65 <= message[i + k] as int
            <= 90 {
            message[i + k] as int + 32
        } else {
            message[i + k] as int
        }
}

/// One of the four phrases that tell of lost access stands at place `i` of a message, in
/// whatever case.
pub open spec fn tells_of_lost_access(message: Seq<char>, i: int) -> bool {
    ||| reads_at(message, "refresh token is missing"@, i)
    ||| reads_at(message, "invalid_grant"@, i)
    ||| reads_at(message, "expired or revoked"@, i)
    ||| reads_at(message, "invalid authentication credentials"@, i)
}

/// The user has to sign in again exactly when one of the four phrases stands in the message.
pub proof fn law_four_phrases_tell_of_lost_access(message: Seq<char>)
    ensures
        requires_reconnect(message) <==> exists|i: int| #[trigger]
            tells_of_lost_access(message, i),
{
    let normalized = text::ascii_lowercase(message);
    assert forall|i: int| #[trigger] tells_of_lost_access(message, i) == (text::occurs_at(
        normalized,
        "refresh token is missing"@,
        i,
    ) || text::occurs_at(normalized, "invalid_grant"@, i) || text::occurs_at(
        normalized,
        "expired or revoked"@,
        i,
    ) || text::occurs_at(normalized, "invalid authentication credentials"@, i)) by {
        lemma_reads_at(message, "refresh token is missing"@, i);
        lemma_reads_at(message, "invalid_grant"@, i);
        lemma_reads_at(message, "expired or revoked"@, i);
        lemma_reads_at(message, "invalid authentication credentials"@, i);
    }
    if requires_reconnect(message) {
        let i = choose|i: int|
            text::occurs_at(normalized, "refresh token is missing"@, i) || text::occurs_at(
                normalized,
                "invalid_grant"@,
                i,
            ) || text::occurs_at(normalized, "expired or revoked"@, i) || text::occurs_at(
                normalized,
                "invalid authentication credentials"@,
                i,
            );
        assert(tells_of_lost_access(message, i));
    }
}

proof fn lemma_reads_at(message: Seq<char>, phrase: Seq<char>, i: int)
    ensures
        reads_at(message, phrase, i) == text::occurs_at(text::ascii_lowercase(message), phrase, i),
{
    let normalized = text::ascii_lowercase(message);
    if 0 <= i && i + phrase.len() <= message.len() {
        let window = normalized.subrange(i, i + phrase.len());
        assert forall|k: int| 0 <= k < phrase.len() implies window[k] as int == if 65
            <= #[trigger] message[i + k] as int <= 90 {
            message[i + k] as int + 32
        } else {
            message[i + k] as int
        } by {
            text::law_lowercase_of_each_character(message, i + k);
        }
        if reads_at(message, phrase, i) {
            assert forall|k: int| 0 <= k < phrase.len() implies window[k] == phrase[k] by {
                assert(message[i + k] == message[i + k]);
            }
            assert(window =~= phrase);
        }
        if window == phrase {
            assert forall|k: int| 0 <= k < phrase.len() implies (#[trigger] phrase[k]) as int
                == if 65 <= message[i + k] as int <= 90 {
                message[i + k] as int + 32
            } else {
                message[i + k] as int
            } by {
                assert(window[k] == phrase[k]);
            }
        }
    }
}

/// The lower-case form of the character at a place of a text.
spec fn low_at(s: Seq<char>, i: int) -> int {
    if 65 <= s[i] as int <= 90 {
        s[i] as int + 32
    } else {
        s[i] as int
    }
}

/// None of the four phrases begins with the letters at place `i`.
spec fn begins_none(s: Seq<char>, i: int) -> bool {
    &&& !(low_at(s, i) == 'i' as int && low_at(s, i + 1) == 'n' as int)
    &&& !(low_at(s, i) == 'e' as int && low_at(s, i + 1) == 'x' as int)
    &&& !(low_at(s, i) == 'r' as int && low_at(s, i + 1) == 'e' as int && low_at(s, i + 2)
        == 'f' as int && low_at(s, i + 8) == 't' as int)
}

proof fn lemma_begins_none(message: Seq<char>, i: int)
    requires
        begins_none(message, i),
    ensures
        !tells_of_lost_access(message, i),
{
    reveal_strlit("refresh token is missing");
    reveal_strlit("invalid_grant");
    reveal_strlit("expired or revoked");
    reveal_strlit("invalid authentication credentials");
    let a = "refresh token is missing"@;
    let b = "invalid_grant"@;
    let c = "expired or revoked"@;
    let d = "invalid authentication credentials"@;
    assert(a[0] == 'r' && a[1] == 'e' && a[2] == 'f' && a[8] == 't');
    assert(b[0] == 'i' && b[1] == 'n');
    assert(c[0] == 'e' && c[1] == 'x');
    assert(d[0] == 'i' && d[1] == 'n');
}

/// Whether a refusal tells of lost access depends on what the service answered alone: what the
/// message says before that never does.
pub proof fn law_only_the_answer_tells_of_lost_access(line: Seq<char>)
    ensures
        requires_reconnect("failed to refresh Google token: "@ + line) <==> exists|i: int|
            #[trigger] tells_of_lost_access(line, i),
        requires_reconnect("failed to load Google Calendar events: "@ + line) <==> exists|i: int|
            #[trigger] tells_of_lost_access(line, i),
{
    let refresh = "failed to refresh Google token: "@;
    let load = "failed to load Google Calendar events: "@;
    reveal_strlit("failed to refresh Google token: ");
    reveal_strlit("failed to load Google Calendar events: ");
    assert forall|i: int| 0 <= i < refresh.len() implies #[trigger] begins_none(
        refresh + line,
        i,
    ) by {}
    assert forall|i: int| 0 <= i < load.len() implies #[trigger] begins_none(load + line, i) by {}
    lemma_told_behind(refresh, line);
    lemma_told_behind(load, line);
}

/// Behind a text in which none of the phrases begins, a message tells what it tells alone.
proof fn lemma_told_behind(head: Seq<char>, line: Seq<char>)
    requires
        forall|i: int| 0 <= i < head.len() ==> #[trigger] begins_none(head + line, i),
    ensures
        requires_reconnect(head + line) <==> exists|i: int| #[trigger]
            tells_of_lost_access(line, i),
{
    let message = head + line;
    let n = head.len() as int;
    law_four_phrases_tell_of_lost_access(message);
    assert forall|i: int| #[trigger] tells_of_lost_access(line, i) implies tells_of_lost_access(
        message,
        n + i,
    ) by {
        lemma_reads_behind(head, line, "refresh token is missing"@, i);
        lemma_reads_behind(head, line, "invalid_grant"@, i);
        lemma_reads_behind(head, line, "expired or revoked"@, i);
        lemma_reads_behind(head, line, "invalid authentication credentials"@, i);
    }
    assert forall|i: int| #[trigger] tells_of_lost_access(message, i) implies tells_of_lost_access(
        line,
        i - n,
    ) by {
        if 0 <= i < n {
            assert(begins_none(head + line, i));
            lemma_begins_none(message, i);
        }
        lemma_reads_behind(head, line, "refresh token is missing"@, i - n);
        lemma_reads_behind(head, line, "invalid_grant"@, i - n);
        lemma_reads_behind(head, line, "expired or revoked"@, i - n);
        lemma_reads_behind(head, line, "invalid authentication credentials"@, i - n);
    }
}

proof fn lemma_reads_behind(head: Seq<char>, line: Seq<char>, phrase: Seq<char>, i: int)
    requires
        i >= 0 || !reads_at(head + line, phrase, head.len() + i),
    ensures
        reads_at(line, phrase, i) <==> reads_at(head + line, phrase, head.len() + i),
{
    let message = head + line;
    let n = head.len() as int;
    if 0 <= i && i + phrase.len() <= line.len() {
        assert forall|k: int| 0 <= k < phrase.len() implies message[n + i + k]
            == #[trigger] line[i + k] by {}
        if reads_at(line, phrase, i) {
            assert forall|k: int| 0 <= k < phrase.len() implies (#[trigger] phrase[k]) as int
                == if 65 <= message[n + i + k] as int <= 90 {
                message[n + i + k] as int + 32
            } else {
                message[n + i + k] as int
            } by {
                assert(message[n + i + k] == line[i + k]);
            }
        }
        if reads_at(message, phrase, n + i) {
            assert forall|k: int| 0 <= k < phrase.len() implies (#[trigger] phrase[k]) as int
                == if 65 <= line[i + k] as int <= 90 {
                line[i + k] as int + 32
            } else {
                line[i + k] as int
            } by {
                assert(message[n + i + k] == line[i + k]);
            }
        }
    }
}

/// A request that does not get through, or whose answer cannot be read, never tells of lost
/// access.
pub proof fn law_broken_requests_are_no_lost_access()
    ensures
        !requires_reconnect("failed to refresh Google OAuth token"@),
        !requires_reconnect("failed to decode Google token refresh response"@),
        !requires_reconnect("failed to request Google Calendar events"@),
        !requires_reconnect("failed to decode Google Calendar events response"@),
{
    reveal_strlit("failed to refresh Google OAuth token");
    reveal_strlit("failed to decode Google token refresh response");
    reveal_strlit("failed to request Google Calendar events");
    reveal_strlit("failed to decode Google Calendar events response");
    lemma_tells_nothing("failed to refresh Google OAuth token"@);
    lemma_tells_nothing("failed to decode Google token refresh response"@);
    lemma_tells_nothing("failed to request Google Calendar events"@);
    lemma_tells_nothing("failed to decode Google Calendar events response"@);
}

proof fn lemma_tells_nothing(message: Seq<char>)
    requires
        forall|i: int| 0 <= i < message.len() - 8 ==> #[trigger] begins_none(message, i),
    ensures
        !requires_reconnect(message),
{
    law_four_phrases_tell_of_lost_access(message);
    reveal_strlit("refresh token is missing");
    reveal_strlit("invalid_grant");
    reveal_strlit("expired or revoked");
    reveal_strlit("invalid authentication credentials");
    assert forall|i: int| !(#[trigger] tells_of_lost_access(message, i)) by {
        if 0 <= i < message.len() - 8 {
            lemma_begins_none(message, i);
        }
    }
}

/// A status tells of success exactly when its number begins with two and has three digits.
pub proof fn law_success_is_two_hundred_and_up(status: u16)
    ensures
        success(status) <==> status / 100 == 2,
{
}

/// An answer of the calendar gives events exactly when it could be read; otherwise the message
/// tells what went wrong, with what the service said of a refusal.
pub proof fn law_answers_of_the_calendar(reply: Reply<Vec<GoogleCalendarEvent>>)
    ensures
        fetch_result(reply) is Ok <==> reply is Decoded,
        reply is Unsent ==> fetch_result(reply)->Err_0
            == "failed to request Google Calendar events"@,
        reply is Undecodable ==> fetch_result(reply)->Err_0
            == "failed to decode Google Calendar events response"@,
        reply matches Reply::Rejected { status, body: None } ==> fetch_result(reply)->Err_0
            == "failed to load Google Calendar events: "@ + google_error(status, None),
        reply matches Reply::Rejected { status, body: Some(body) } ==> fetch_result(reply)->Err_0
            == "failed to load Google Calendar events: "@ + google_error(status, Some(body@)),
{
}

} // verus!
