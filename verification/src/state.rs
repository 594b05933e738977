//! What the application keeps: the saved state, the tokens, the events of the calendar
//! and a sign-in that is under way.

use vstd::prelude::*;

use crate::clock;
use crate::clock::{Moment, Timestamp};
use crate::text;

verus! {

/// Seconds before its expiry at which an access token stops counting as fresh.
pub const TOKEN_MARGIN_SECS: i64 = 60;

/// The credentials of the OAuth client.
#[derive(Debug)]
pub struct GoogleOAuthConfig {
    pub client_id: Option<String>,
    pub client_secret: Option<String>,
}

/// The credentials of the OAuth client, as texts.
#[verifier::ext_equal]
pub struct ConfigView {
    pub client_id: Option<Seq<char>>,
    pub client_secret: Option<Seq<char>>,
}

impl View for GoogleOAuthConfig {
    type V = ConfigView;

    open spec fn view(&self) -> ConfigView {
        ConfigView {
            client_id: text::opt_text(self.client_id),
            client_secret: text::opt_text(self.client_secret),
        }
    }
}

impl Clone for GoogleOAuthConfig {
    fn clone(&self) -> (r: Self)
        ensures
            r@ == self@,
    {
        GoogleOAuthConfig {
            client_id: text::copy_opt(&self.client_id),
            client_secret: text::copy_opt(&self.client_secret),
        }
    }
}

impl GoogleOAuthConfig {
    /// Whether two sets of credentials are the same.
    pub fn same(&self, other: &GoogleOAuthConfig) -> (r: bool)
        ensures
            r == (self@ == other@),
    {
        text::same_opt_text(&self.client_id, &other.client_id) && text::same_opt_text(
            &self.client_secret,
            &other.client_secret,
        )
    }
}

/// The tokens of a signed-in user.
#[derive(Debug)]
pub struct TokenState {
    pub access_token: String,
    pub refresh_token: Option<String>,
    pub expires_at: Timestamp,
}

/// The tokens of a signed-in user, as texts and an instant.
#[verifier::ext_equal]
pub struct TokenView {
    pub access_token: Seq<char>,
    pub refresh_token: Option<Seq<char>>,
    pub expires_at: Moment,
}

impl View for TokenState {
    type V = TokenView;

    open spec fn view(&self) -> TokenView {
        TokenView {
            access_token: self.access_token@,
            refresh_token: text::opt_text(self.refresh_token),
            expires_at: self.expires_at@,
        }
    }
}

impl TokenView {
    /// The access token holds more than white space.
    pub open spec fn has_access_token(self) -> bool {
        text::trimmed(self.access_token).len() > 0
    }

    /// There is a refresh token, and it holds more than white space.
    pub open spec fn has_refresh_token(self) -> bool {
        match self.refresh_token {
            Some(token) => text::trimmed(token).len() > 0,
            None => false,
        }
    }

    /// The access token still holds for more than the margin at `now`.
    pub open spec fn fresh_at(self, now: Moment) -> bool {
        !clock::not_after(self.expires_at, clock::shifted(now, TOKEN_MARGIN_SECS as int))
    }
}

impl Clone for TokenState {
    fn clone(&self) -> (r: Self)
        ensures
            r@ == self@,
    {
        TokenState {
            access_token: self.access_token.clone(),
            refresh_token: text::copy_opt(&self.refresh_token),
            expires_at: self.expires_at,
        }
    }
}

impl TokenState {
    /// Whether the access token holds more than white space.
    pub fn has_access_token(&self) -> (r: bool)
        ensures
            r == self@.has_access_token(),
    {
        !text::trim(self.access_token.as_str()).as_str().is_empty()
    }

    /// Whether there is a refresh token that holds more than white space.
    pub fn has_refresh_token(&self) -> (r: bool)
        ensures
            r == self@.has_refresh_token(),
    {
        match &self.refresh_token {
            Some(token) => !text::trim(token.as_str()).as_str().is_empty(),
            None => false,
        }
    }

    /// Whether the access token is fresh at `now`.
    pub fn access_token_is_fresh_at(&self, now: &Timestamp) -> (r: bool)
        requires
            clock::in_range_after(now@, TOKEN_MARGIN_SECS as int),
        ensures
            r == self@.fresh_at(now@),
    {
        !self.expires_at.at_or_before(&now.shift(TOKEN_MARGIN_SECS))
    }
}

/// An event of the calendar, as the list of upcoming events shows it. The times are
/// the texts that the calendar gave.
#[derive(Debug)]
pub struct CalendarEventSummary {
    pub id: String,
    pub title: String,
    pub start_at: String,
    pub end_at: Option<String>,
    pub location: Option<String>,
    pub meeting_url: Option<String>,
}

/// An event of the calendar, as texts.
#[verifier::ext_equal]
pub struct EventView {
    pub id: Seq<char>,
    pub title: Seq<char>,
    pub start_at: Seq<char>,
    pub end_at: Option<Seq<char>>,
    pub location: Option<Seq<char>>,
    pub meeting_url: Option<Seq<char>>,
}

impl View for CalendarEventSummary {
    type V = EventView;

    open spec fn view(&self) -> EventView {
        EventView {
            id: self.id@,
            title: self.title@,
            start_at: self.start_at@,
            end_at: text::opt_text(self.end_at),
            location: text::opt_text(self.location),
            meeting_url: text::opt_text(self.meeting_url),
        }
    }
}

impl Clone for CalendarEventSummary {
    fn clone(&self) -> (r: Self)
        ensures
            r@ == self@,
    {
        CalendarEventSummary {
            id: self.id.clone(),
            title: self.title.clone(),
            start_at: self.start_at.clone(),
            end_at: text::copy_opt(&self.end_at),
            location: text::copy_opt(&self.location),
            meeting_url: text::copy_opt(&self.meeting_url),
        }
    }
}

/// The views of a list of events.
pub open spec fn event_views(events: Seq<CalendarEventSummary>) -> Seq<EventView> {
    events.map_values(|e: CalendarEventSummary| e@)
}

/// A copy of a list of events.
pub fn copy_events(events: &Vec<CalendarEventSummary>) -> (r: Vec<CalendarEventSummary>)
    ensures
        event_views(r@) == event_views(events@),
{
    let mut r: Vec<CalendarEventSummary> = Vec::new();
    let mut i: usize = 0;
    while i < events.len()
        invariant
            i <= events@.len(),
            event_views(r@) == event_views(events@).take(i as int),
        decreases events@.len() - i,
    {
        let ghost before = r@;
        let copy = events[i].clone();
        r.push(copy);
        i = i + 1;
        assert(event_views(r@) =~= event_views(before).push(copy@));
        assert(event_views(r@) =~= event_views(events@).take(i as int));
    }
    r
}

/// What is saved between runs.
#[derive(Debug)]
pub struct PersistentState {
    pub google_oauth_config: Option<GoogleOAuthConfig>,
    pub token: Option<TokenState>,
    pub cached_events: Vec<CalendarEventSummary>,
    pub last_sync_at: Option<Timestamp>,
    pub last_error: Option<String>,
}

/// What is saved between runs, as texts and instants.
#[verifier::ext_equal]
pub struct PersistentView {
    pub google_oauth_config: Option<ConfigView>,
    pub token: Option<TokenView>,
    pub cached_events: Seq<EventView>,
    pub last_sync_at: Option<Moment>,
    pub last_error: Option<Seq<char>>,
}

/// The view of optional credentials.
pub open spec fn opt_config(config: Option<GoogleOAuthConfig>) -> Option<ConfigView> {
    match config {
        Some(config) => Some(config@),
        None => None,
    }
}

/// The view of optional tokens.
pub open spec fn opt_token(token: Option<TokenState>) -> Option<TokenView> {
    match token {
        Some(token) => Some(token@),
        None => None,
    }
}

impl View for PersistentState {
    type V = PersistentView;

    open spec fn view(&self) -> PersistentView {
        PersistentView {
            google_oauth_config: opt_config(self.google_oauth_config),
            token: opt_token(self.token),
            cached_events: event_views(self.cached_events@),
            last_sync_at: clock::opt_moment(self.last_sync_at),
            last_error: text::opt_text(self.last_error),
        }
    }
}

impl Clone for PersistentState {
    fn clone(&self) -> (r: Self)
        ensures
            r@ == self@,
    {
        PersistentState {
            google_oauth_config: match &self.google_oauth_config {
                Some(config) => Some(config.clone()),
                None => None,
            },
            token: match &self.token {
                Some(token) => Some(token.clone()),
                None => None,
            },
            cached_events: copy_events(&self.cached_events),
            last_sync_at: clock::copy_opt_timestamp(&self.last_sync_at),
            last_error: text::copy_opt(&self.last_error),
        }
    }
}

impl PersistentView {
    /// Nothing saved yet.
    pub open spec fn empty() -> PersistentView {
        PersistentView {
            google_oauth_config: None,
            token: None,
            cached_events: Seq::empty(),
            last_sync_at: None,
            last_error: None,
        }
    }

    /// There are tokens to work with: an access token, and a refresh token to renew it.
    pub open spec fn signed_in(self) -> bool {
        match self.token {
            Some(token) => token.has_access_token() && token.has_refresh_token(),
            None => false,
        }
    }
}

impl Default for PersistentState {
    fn default() -> (r: Self)
        ensures
            r@ == PersistentView::empty(),
    {
        let r = PersistentState {
            google_oauth_config: None,
            token: None,
            cached_events: Vec::new(),
            last_sync_at: None,
            last_error: None,
        };
        assert(r@.cached_events =~= Seq::empty());
        r
    }
}

/// What the settings screen shows.
#[derive(Debug)]
pub struct AppStatus {
    pub client_id_configured: bool,
    pub client_secret_configured: bool,
    pub google_client_id: Option<String>,
    pub google_client_secret: Option<String>,
    pub google_client_id_using_initial: bool,
    pub google_client_secret_using_initial: bool,
    pub signed_in: bool,
    pub polling_enabled: bool,
    pub auth_in_progress: bool,
    pub can_start_google_auth: bool,
    pub auto_reconnect_ready: bool,
    pub oauth_config_diagnostics: String,
    pub upcoming_events: Vec<CalendarEventSummary>,
    pub last_sync_at: Option<String>,
    pub last_error: Option<String>,
}

/// What the settings screen shows, as texts.
#[verifier::ext_equal]
pub struct StatusView {
    pub client_id_configured: bool,
    pub client_secret_configured: bool,
    pub google_client_id: Option<Seq<char>>,
    pub google_client_secret: Option<Seq<char>>,
    pub google_client_id_using_initial: bool,
    pub google_client_secret_using_initial: bool,
    pub signed_in: bool,
    pub polling_enabled: bool,
    pub auth_in_progress: bool,
    pub can_start_google_auth: bool,
    pub auto_reconnect_ready: bool,
    pub oauth_config_diagnostics: Seq<char>,
    pub upcoming_events: Seq<EventView>,
    pub last_sync_at: Option<Seq<char>>,
    pub last_error: Option<Seq<char>>,
}

impl View for AppStatus {
    type V = StatusView;

    open spec fn view(&self) -> StatusView {
        StatusView {
            client_id_configured: self.client_id_configured,
            client_secret_configured: self.client_secret_configured,
            google_client_id: text::opt_text(self.google_client_id),
            google_client_secret: text::opt_text(self.google_client_secret),
            google_client_id_using_initial: self.google_client_id_using_initial,
            google_client_secret_using_initial: self.google_client_secret_using_initial,
            signed_in: self.signed_in,
            polling_enabled: self.polling_enabled,
            auth_in_progress: self.auth_in_progress,
            can_start_google_auth: self.can_start_google_auth,
            auto_reconnect_ready: self.auto_reconnect_ready,
            oauth_config_diagnostics: self.oauth_config_diagnostics@,
            upcoming_events: event_views(self.upcoming_events@),
            last_sync_at: text::opt_text(self.last_sync_at),
            last_error: text::opt_text(self.last_error),
        }
    }
}

/// A sign-in that waits for the browser to come back.
#[derive(Debug)]
pub struct PendingAuth {
    pub state: String,
    pub code_verifier: String,
    pub redirect_uri: String,
    pub auth_url: String,
    pub client_id: String,
    pub client_secret: Option<String>,
}

/// A sign-in that waits for the browser to come back, as texts.
#[verifier::ext_equal]
pub struct PendingView {
    pub state: Seq<char>,
    pub code_verifier: Seq<char>,
    pub redirect_uri: Seq<char>,
    pub auth_url: Seq<char>,
    pub client_id: Seq<char>,
    pub client_secret: Option<Seq<char>>,
}

impl View for PendingAuth {
    type V = PendingView;

    open spec fn view(&self) -> PendingView {
        PendingView {
            state: self.state@,
            code_verifier: self.code_verifier@,
            redirect_uri: self.redirect_uri@,
            auth_url: self.auth_url@,
            client_id: self.client_id@,
            client_secret: text::opt_text(self.client_secret),
        }
    }
}

impl Clone for PendingAuth {
    fn clone(&self) -> (r: Self)
        ensures
            r@ == self@,
    {
        PendingAuth {
            state: self.state.clone(),
            code_verifier: self.code_verifier.clone(),
            redirect_uri: self.redirect_uri.clone(),
            auth_url: self.auth_url.clone(),
            client_id: self.client_id.clone(),
            client_secret: text::copy_opt(&self.client_secret),
        }
    }
}

/// What the browser brought back from the sign-in page.
#[derive(Debug)]
pub struct AuthCallback {
    pub code: String,
    pub state: String,
}

/// What the browser brought back from the sign-in page, as texts.
#[verifier::ext_equal]
pub struct CallbackView {
    pub code: Seq<char>,
    pub state: Seq<char>,
}

impl View for AuthCallback {
    type V = CallbackView;

    open spec fn view(&self) -> CallbackView {
        CallbackView { code: self.code@, state: self.state@ }
    }
}

/// An access token is fresh exactly when its expiry lies more than a minute ahead; a token that
/// has run out is never fresh.
pub proof fn law_fresh_means_more_than_a_minute(token: TokenView, now: Moment)
    requires
        0 <= now.nanos < 1_000_000_000,
    ensures
        token.fresh_at(now) <==> token.expires_at.secs > now.secs + 60 || (token.expires_at.secs
            == now.secs + 60 && token.expires_at.nanos > now.nanos),
        token.expires_at.secs < now.secs + 60 ==> !token.fresh_at(now),
        clock::not_after(token.expires_at, now) ==> !token.fresh_at(now),
{
}

/// Within leap seconds too, a token whose expiry does not lie a minute ahead is not fresh.
pub proof fn law_expired_token_is_not_fresh(token: TokenView, now: Moment)
    requires
        token.expires_at.secs < now.secs + 60,
    ensures
        !token.fresh_at(now),
{
}

/// A token that is no longer fresh does not become fresh again.
pub proof fn law_freshness_only_ends(token: TokenView, earlier: Moment, later: Moment)
    requires
        0 <= earlier.nanos < 1_000_000_000,
        0 <= later.nanos < 1_000_000_000,
        clock::not_after(earlier, later),
    ensures
        token.fresh_at(later) ==> token.fresh_at(earlier),
{
}

/// A user is signed in exactly with an access token and a refresh token that each hold a
/// character other than white space.
pub proof fn law_signed_in_with_two_tokens(saved: PersistentView)
    ensures
        saved.signed_in() <==> match saved.token {
            Some(token) => (exists|i: int|
                0 <= i < token.access_token.len() && !text::white_space(
                    #[trigger] token.access_token[i],
                )) && match token.refresh_token {
                Some(refresh) => exists|i: int|
                    0 <= i < refresh.len() && !text::white_space(#[trigger] refresh[i]),
                None => false,
            },
            None => false,
        },
{
    if let Some(token) = saved.token {
        text::law_blank_text_leaves_nothing(token.access_token);
        if let Some(refresh) = token.refresh_token {
            text::law_blank_text_leaves_nothing(refresh);
        }
    }
}

/// The views of an event, of tokens, of credentials and of a sign-in hold every field.
pub proof fn law_views_hold_every_field(
    event: CalendarEventSummary,
    token: TokenState,
    credentials: GoogleOAuthConfig,
    pending: PendingAuth,
)
    ensures
        event@.id == event.id@ && event@.title == event.title@ && event@.start_at
            == event.start_at@,
        event.end_at matches Some(end) ==> event@.end_at == Some(end@),
        event.location matches Some(location) ==> event@.location == Some(location@),
        event.meeting_url matches Some(url) ==> event@.meeting_url == Some(url@),
        token@.access_token == token.access_token@ && token@.expires_at == token.expires_at@,
        token.refresh_token matches Some(refresh) ==> token@.refresh_token == Some(refresh@),
        credentials.client_id matches Some(id) ==> credentials@.client_id == Some(id@),
        credentials.client_secret matches Some(secret) ==> credentials@.client_secret == Some(
            secret@,
        ),
        pending@.state == pending.state@ && pending@.code_verifier == pending.code_verifier@,
        pending@.redirect_uri == pending.redirect_uri@ && pending@.auth_url == pending.auth_url@,
        pending@.client_id == pending.client_id@,
        pending.client_secret matches Some(secret) ==> pending@.client_secret == Some(secret@),
{
}

/// The view of the saved state holds every field.
pub proof fn law_saved_view_holds_every_field(saved: PersistentState, i: int)
    ensures
        saved.google_oauth_config matches Some(config) ==> saved@.google_oauth_config == Some(
            config@,
        ),
        saved.token matches Some(token) ==> saved@.token == Some(token@),
        saved@.cached_events.len() == saved.cached_events@.len(),
        0 <= i < saved.cached_events@.len() ==> saved@.cached_events[i] == saved.cached_events@[i]@,
        saved.last_sync_at matches Some(t) ==> saved@.last_sync_at == Some(t@),
        saved.last_error matches Some(message) ==> saved@.last_error == Some(message@),
{
}

/// The view of what the settings screen shows holds every field.
pub proof fn law_status_view_holds_every_field(status: AppStatus, i: int)
    ensures
        status@.client_id_configured == status.client_id_configured,
        status@.client_secret_configured == status.client_secret_configured,
        status.google_client_id matches Some(id) ==> status@.google_client_id == Some(id@),
        status.google_client_id is None ==> status@.google_client_id is None,
        status.google_client_secret matches Some(secret) ==> status@.google_client_secret == Some(
            secret@,
        ),
        status.google_client_secret is None ==> status@.google_client_secret is None,
        status@.google_client_id_using_initial == status.google_client_id_using_initial,
        status@.google_client_secret_using_initial == status.google_client_secret_using_initial,
        status@.signed_in == status.signed_in && status@.polling_enabled == status.polling_enabled,
        status@.auth_in_progress == status.auth_in_progress,
        status@.can_start_google_auth == status.can_start_google_auth,
        status@.auto_reconnect_ready == status.auto_reconnect_ready,
        status@.oauth_config_diagnostics == status.oauth_config_diagnostics@,
        status@.upcoming_events.len() == status.upcoming_events@.len(),
        0 <= i < status.upcoming_events@.len() ==> status@.upcoming_events[i]
            == status.upcoming_events@[i]@,
        status.last_sync_at matches Some(t) ==> status@.last_sync_at == Some(t@),
        status.last_error matches Some(message) ==> status@.last_error == Some(message@),
        status.last_error is None ==> status@.last_error is None,
{
}

} // verus!
