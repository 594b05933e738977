//! The state of the running application and all that changes it.

use vstd::prelude::*;

use crate::clock;
use crate::clock::{Moment, Timestamp};
use crate::config;
use crate::config::{BuildConfig, BuildView};
use crate::google;
use crate::google::{GoogleCalendarEvent, Reply};
use crate::notice;
use crate::notice::{AuthReconnectNoticePayload, AuthReconnectNoticeState, NoticeView};
use crate::oauth;
use crate::oauth::{AccessTokenNeed, NeedView, Pairs, TokenResponse};
use crate::reminders;
use crate::reminders::{EventReminderPayload, ReminderBook, Reminders, SyncPlan};
use crate::state;
use crate::state::{
    AppStatus, AuthCallback, CalendarEventSummary, CallbackView, ConfigView, EventView,
    GoogleOAuthConfig, PendingAuth, PendingView, PersistentState, PersistentView, StatusView,
    TokenState, TokenView, TOKEN_MARGIN_SECS,
};
use crate::text;

verus! {

/// What the user is told where no client id is configured.
pub const CLIENT_ID_MISSING: &'static str = "GOOGLE_CLIENT_ID を .env に設定してください";

/// The state of the running application.
#[derive(Debug)]
pub struct AppStateStore {
    /// What is saved between runs.
    pub persistent: PersistentState,
    /// A sign-in that is under way.
    pub pending_auth: Option<PendingAuth>,
    /// The events that have been announced.
    pub event_reminder_states: ReminderBook,
    /// That the user has to sign in again.
    pub auth_reconnect_notice: Option<AuthReconnectNoticeState>,
}

/// The state of the running application, as texts and instants.
#[verifier::ext_equal]
pub struct AppView {
    pub persistent: PersistentView,
    pub pending_auth: Option<PendingView>,
    pub reminders: Reminders,
    pub notice: Option<NoticeView>,
}

/// The view of an optional sign-in.
pub open spec fn opt_pending(pending: Option<PendingAuth>) -> Option<PendingView> {
    match pending {
        Some(pending) => Some(pending@),
        None => None,
    }
}

impl View for AppStateStore {
    type V = AppView;

    open spec fn view(&self) -> AppView {
        AppView {
            persistent: self.persistent@,
            pending_auth: opt_pending(self.pending_auth),
            reminders: self.event_reminder_states@,
            notice: notice::opt_notice(self.auth_reconnect_notice),
        }
    }
}

/// What the settings screen shows.
pub open spec fn status_of(app: AppView, build: BuildView) -> StatusView {
    let saved = app.persistent;
    let effective = config::effective_config(saved.google_oauth_config, build);
    let initial = config::initial_config(build);
    StatusView {
        client_id_configured: effective.client_id is Some,
        client_secret_configured: effective.client_secret is Some,
        google_client_id: effective.client_id,
        google_client_secret: effective.client_secret,
        google_client_id_using_initial: saved.google_oauth_config is None && initial.client_id
            is Some,
        google_client_secret_using_initial: saved.google_oauth_config is None
            && initial.client_secret is Some,
        signed_in: saved.signed_in(),
        polling_enabled: effective.client_id is Some && saved.signed_in(),
        auth_in_progress: app.pending_auth is Some,
        can_start_google_auth: effective.client_id is Some && app.pending_auth is None,
        auto_reconnect_ready: match saved.token {
            Some(token) => token.has_refresh_token(),
            None => false,
        },
        oauth_config_diagnostics: config::diagnostics(saved.google_oauth_config, build),
        upcoming_events: saved.cached_events,
        last_sync_at: reminders::opt_moment_text(saved.last_sync_at),
        last_error: saved.last_error,
    }
}

impl AppView {
    /// The state with nothing in it.
    pub open spec fn empty() -> AppView {
        AppView {
            persistent: PersistentView::empty(),
            pending_auth: None,
            reminders: Map::empty(),
            notice: None,
        }
    }

    /// After an error.
    pub open spec fn failed(self, message: Seq<char>) -> AppView {
        AppView {
            persistent: PersistentView { last_error: Some(message), ..self.persistent },
            ..self
        }
    }

    /// Signed out: no tokens, no events, no sign-in under way, no reminders, no notice. The
    /// credentials of the client stay.
    pub open spec fn signed_out(self, last_error: Option<Seq<char>>) -> AppView {
        AppView {
            persistent: PersistentView {
                google_oauth_config: self.persistent.google_oauth_config,
                token: None,
                cached_events: Seq::empty(),
                last_sync_at: None,
                last_error,
            },
            pending_auth: None,
            reminders: Map::empty(),
            notice: None,
        }
    }

    /// With a notice, not shown yet, that the user has to sign in again.
    pub open spec fn asked_to_reconnect(self, message: Seq<char>, now: Moment) -> AppView {
        AppView {
            notice: Some(
                NoticeView { detail: message, first_detected_at: now, last_shown_at: None },
            ),
            ..self
        }
    }

    /// Without a sign-in under way, reminders and notice.
    pub open spec fn without_runtime(self) -> AppView {
        AppView { pending_auth: None, reminders: Map::empty(), notice: None, ..self }
    }

    /// The credentials that the user's entries stand for.
    pub open spec fn entered(client_id: Seq<char>, client_secret: Seq<char>) -> ConfigView {
        ConfigView {
            client_id: Some(text::trimmed(client_id)),
            client_secret: Some(text::trimmed(client_secret)),
        }
    }

    /// Saving credentials changes those in effect.
    pub open spec fn settings_change(self, next: ConfigView, build: BuildView) -> bool {
        config::effective_config(self.persistent.google_oauth_config, build)
            != config::effective_config(Some(next), build)
    }

    /// With saved credentials; where they change those in effect, signed out as well.
    pub open spec fn with_settings(self, next: ConfigView, build: BuildView) -> AppView {
        if self.settings_change(next, build) {
            AppView {
                persistent: PersistentView {
                    google_oauth_config: Some(next),
                    token: None,
                    cached_events: Seq::empty(),
                    last_sync_at: None,
                    last_error: None,
                },
                pending_auth: None,
                reminders: Map::empty(),
                notice: None,
            }
        } else {
            AppView {
                persistent: PersistentView {
                    google_oauth_config: Some(next),
                    last_error: None,
                    ..self.persistent
                },
                ..self
            }
        }
    }

    /// With a sign-in under way.
    pub open spec fn signing_in(self, pending: PendingView) -> AppView {
        AppView {
            persistent: PersistentView { last_error: None, ..self.persistent },
            pending_auth: Some(pending),
            ..self
        }
    }

    /// The sign-in under way is the one with the state token.
    pub open spec fn awaits(self, state: Seq<char>) -> bool {
        match self.pending_auth {
            Some(pending) => pending.state == state,
            None => false,
        }
    }

    /// Without the sign-in that has the state token.
    pub open spec fn without_pending(self, state: Seq<char>) -> AppView {
        if self.awaits(state) {
            AppView { pending_auth: None, ..self }
        } else {
            self
        }
    }

    /// With new tokens.
    pub open spec fn with_token(self, token: TokenView) -> AppView {
        AppView {
            persistent: PersistentView {
                token: Some(token),
                last_error: None,
                ..self.persistent
            },
            ..self
        }
    }

    /// With the tokens and events of a look at the calendar at `now`.
    pub open spec fn synced(
        self,
        token: TokenView,
        events: Seq<EventView>,
        now: Moment,
    ) -> AppView {
        AppView {
            persistent: PersistentView {
                google_oauth_config: self.persistent.google_oauth_config,
                token: Some(token),
                cached_events: events,
                last_sync_at: Some(now),
                last_error: None,
            },
            ..self
        }
    }

    /// After a look at the events of the calendar.
    pub open spec fn looked(self, events: Seq<EventView>, now: Moment) -> AppView {
        AppView {
            reminders: reminders::after_events(
                reminders::kept(self.reminders, events),
                events,
                now,
            ),
            ..self
        }
    }
}

impl Default for AppStateStore {
    fn default() -> (r: Self)
        ensures
            r@ == AppView::empty(),
    {
        AppStateStore {
            persistent: PersistentState::default(),
            pending_auth: None,
            event_reminder_states: ReminderBook::new(),
            auth_reconnect_notice: None,
        }
    }
}

impl AppStateStore {
    /// What the settings screen shows.
    pub fn get_app_status(&self, build: &BuildConfig) -> (r: AppStatus)
        ensures
            r@ == status_of(self@, build@),
    {
        let auth_in_progress = self.pending_auth.is_some();
        let initial = config::initial_google_oauth_config(build);
        let effective = config::effective_google_oauth_config(
            &self.persistent.google_oauth_config,
            build,
        );
        let client_id_configured = effective.client_id.is_some();
        let client_secret_configured = effective.client_secret.is_some();
        let signed_in = match &self.persistent.token {
            Some(token) => token.has_access_token() && token.has_refresh_token(),
            None => false,
        };
        let auto_reconnect_ready = match &self.persistent.token {
            Some(token) => token.has_refresh_token(),
            None => false,
        };
        let uses_initial = self.persistent.google_oauth_config.is_none();
        AppStatus {
            client_id_configured,
            client_secret_configured,
            google_client_id: effective.client_id,
            google_client_secret: effective.client_secret,
            google_client_id_using_initial: uses_initial && initial.client_id.is_some(),
            google_client_secret_using_initial: uses_initial && initial.client_secret.is_some(),
            signed_in,
            polling_enabled: client_id_configured && signed_in,
            auth_in_progress,
            can_start_google_auth: client_id_configured && !auth_in_progress,
            auto_reconnect_ready,
            oauth_config_diagnostics: config::oauth_config_diagnostics(
                &self.persistent.google_oauth_config,
                build,
            ),
            upcoming_events: state::copy_events(&self.persistent.cached_events),
            last_sync_at: reminders::opt_rfc3339(&self.persistent.last_sync_at),
            last_error: text::copy_opt(&self.persistent.last_error),
        }
    }

    /// Notes an error.
    pub fn record_error(&mut self, message: &str)
        ensures
            final(self)@ == old(self)@.failed(message@),
    {
        self.persistent.last_error = Some(message.to_string());
    }

    /// Signs out.
    pub fn reset_google_auth_state(&mut self, last_error: Option<String>)
        ensures
            final(self)@ == old(self)@.signed_out(text::opt_text(last_error)),
    {
        self.persistent.token = None;
        self.persistent.cached_events = Vec::new();
        self.persistent.last_sync_at = None;
        self.persistent.last_error = last_error;
        self.pending_auth = None;
        self.event_reminder_states.clear();
        self.auth_reconnect_notice = None;
        assert(self@ =~= old(self)@.signed_out(text::opt_text(last_error)));
    }

    /// Puts up the notice that the user has to sign in again, and why.
    pub fn put_up_reconnect_notice(&mut self, message: &str, now: &Timestamp)
        ensures
            final(self)@ == old(self)@.asked_to_reconnect(message@, now@),
    {
        self.auth_reconnect_notice = Some(AuthReconnectNoticeState::new(message, now));
    }

    /// Drops the sign-in under way, the reminders and the notice.
    pub fn clear_google_auth_runtime_state(&mut self)
        ensures
            final(self)@ == old(self)@.without_runtime(),
    {
        self.pending_auth = None;
        self.event_reminder_states.clear();
        self.auth_reconnect_notice = None;
    }

    /// Drops the notice.
    pub fn clear_auth_reconnect_notice(&mut self)
        ensures
            final(self)@ == (AppView { notice: None, ..old(self)@ }),
    {
        self.auth_reconnect_notice = None;
    }

    /// Saves credentials, and signs out where they change those in effect. Says whether they
    /// did.
    pub fn apply_google_oauth_settings(
        &mut self,
        next_stored: GoogleOAuthConfig,
        build: &BuildConfig,
    ) -> (changed: bool)
        ensures
            final(self)@ == old(self)@.with_settings(next_stored@, build@),
            changed == old(self)@.settings_change(next_stored@, build@),
    {
        let previous = config::effective_google_oauth_config(
            &self.persistent.google_oauth_config,
            build,
        );
        let stored = Some(next_stored);
        let next = config::effective_google_oauth_config(&stored, build);
        let changed = !previous.same(&next);
        self.persistent.google_oauth_config = stored;
        self.persistent.last_error = None;
        if changed {
            self.persistent.token = None;
            self.persistent.cached_events = Vec::new();
            self.persistent.last_sync_at = None;
            self.clear_google_auth_runtime_state();
        }
        assert(self@ =~= old(self)@.with_settings(next_stored@, build@));
        changed
    }

    /// Saves the credentials that the user entered, without the white space around them.
    pub fn save_google_oauth_settings(
        &mut self,
        client_id: &str,
        client_secret: &str,
        build: &BuildConfig,
    ) -> (changed: bool)
        ensures
            final(self)@ == old(self)@.with_settings(
                AppView::entered(client_id@, client_secret@),
                build@,
            ),
            changed == old(self)@.settings_change(
                AppView::entered(client_id@, client_secret@),
                build@,
            ),
    {
        let next_stored = GoogleOAuthConfig {
            client_id: Some(text::trim(client_id)),
            client_secret: Some(text::trim(client_secret)),
        };
        self.apply_google_oauth_settings(next_stored, build)
    }
}

/// How a sign-in begins.
#[derive(Debug)]
pub enum AuthStart {
    /// It cannot: no client id is configured. The message says so.
    Unconfigured(String),
    /// One is under way; its page is at the URL.
    InProgress(String),
    /// A new one, with the credentials in effect.
    Ready { client_id: String, client_secret: Option<String> },
}

/// How a sign-in begins, as texts.
pub enum StartView {
    Unconfigured(Seq<char>),
    InProgress(Seq<char>),
    Ready(Seq<char>, Option<Seq<char>>),
}

impl View for AuthStart {
    type V = StartView;

    open spec fn view(&self) -> StartView {
        match *self {
            AuthStart::Unconfigured(message) => StartView::Unconfigured(message@),
            AuthStart::InProgress(url) => StartView::InProgress(url@),
            AuthStart::Ready { client_id, client_secret } => StartView::Ready(
                client_id@,
                text::opt_text(client_secret),
            ),
        }
    }
}

/// What the sign-in under way waits for next.
#[derive(Debug)]
pub enum AuthAction {
    /// The token service, asked with the form.
    Exchange(Vec<(String, String)>),
    /// Nothing: the tokens have been taken, or the sign-in is no longer under way.
    Done,
    /// Nothing: it failed, and the message says why.
    Fail(String),
}

/// What the sign-in under way waits for next, as texts.
pub enum AuthActionView {
    Exchange(Pairs),
    Done,
    Fail(Seq<char>),
}

impl View for AuthAction {
    type V = AuthActionView;

    open spec fn view(&self) -> AuthActionView {
        match *self {
            AuthAction::Exchange(form) => AuthActionView::Exchange(oauth::pair_views(form@)),
            AuthAction::Done => AuthActionView::Done,
            AuthAction::Fail(message) => AuthActionView::Fail(message@),
        }
    }
}

/// What a look at the calendar waits for next.
#[derive(Debug)]
pub enum SyncAction {
    /// The token service, asked with the form; the refresh token goes with what it answers.
    Refresh { form: Vec<(String, String)>, refresh_token: String },
    /// The calendar, asked at the URL with the access token of the tokens.
    Fetch { url: String, token: TokenState },
    /// The saving of the state, which the events have been taken into.
    Save(Vec<CalendarEventSummary>),
    /// Nothing: these are the events. What there is to save has been saved.
    Finish(Vec<CalendarEventSummary>),
    /// The saving of the state: access is lost, for the reason that the message gives, and the
    /// user has been signed out.
    SignOut(String),
    /// The windows of the notice, which is up. Then the look has failed, for the reason that the
    /// message gives.
    Reconnect(String),
    /// Nothing: it failed, and the message says why.
    Fail(String),
}

/// What a look at the calendar waits for next, as texts.
pub enum SyncActionView {
    Refresh(Pairs, Seq<char>),
    Fetch(Seq<char>, TokenView),
    Save(Seq<EventView>),
    Finish(Seq<EventView>),
    SignOut(Seq<char>),
    Reconnect(Seq<char>),
    Fail(Seq<char>),
}

impl View for SyncAction {
    type V = SyncActionView;

    open spec fn view(&self) -> SyncActionView {
        match *self {
            SyncAction::Refresh { form, refresh_token } => SyncActionView::Refresh(
                oauth::pair_views(form@),
                refresh_token@,
            ),
            SyncAction::Fetch { url, token } => SyncActionView::Fetch(url@, token@),
            SyncAction::Save(events) => SyncActionView::Save(state::event_views(events@)),
            SyncAction::Finish(events) => SyncActionView::Finish(state::event_views(events@)),
            SyncAction::SignOut(message) => SyncActionView::SignOut(message@),
            SyncAction::Reconnect(message) => SyncActionView::Reconnect(message@),
            SyncAction::Fail(message) => SyncActionView::Fail(message@),
        }
    }
}

impl AppView {
    /// How a sign-in begins: with a client id only, and one at a time.
    pub open spec fn auth_start(self, build: BuildView) -> StartView {
        let effective = config::effective_config(self.persistent.google_oauth_config, build);
        match (effective.client_id, self.pending_auth) {
            (None, _) => StartView::Unconfigured(CLIENT_ID_MISSING@),
            (Some(_), Some(pending)) => StartView::InProgress(pending.auth_url),
            (Some(client_id), None) => StartView::Ready(client_id, effective.client_secret),
        }
    }

    /// What follows when the browser came back to the sign-in `pending`, or did not: the
    /// exchange of the code, unless the sign-in is no longer under way or the state token is
    /// not its own.
    pub open spec fn called_back(
        self,
        pending: PendingView,
        callback: Result<CallbackView, Seq<char>>,
    ) -> AuthActionView {
        match callback {
            Err(message) => AuthActionView::Fail(message),
            Ok(callback) => if !self.awaits(pending.state) {
                AuthActionView::Done
            } else {
                match oauth::callback_answer(pending, callback) {
                    Ok(form) => AuthActionView::Exchange(form),
                    Err(message) => AuthActionView::Fail(message),
                }
            },
        }
    }

    /// The state, and what follows, once the token service was asked to exchange a code.
    pub open spec fn exchanged(self, result: Result<TokenView, Seq<char>>) -> (
        AppView,
        AuthActionView,
    ) {
        match result {
            Ok(token) => (self.with_token(token), AuthActionView::Done),
            Err(message) => (self, AuthActionView::Fail(message)),
        }
    }

    /// The state after the sign-in with the state token ended, well or with an error.
    pub open spec fn auth_ended(self, state: Seq<char>, error: Option<Seq<char>>) -> AppView {
        match error {
            Some(message) => self.without_pending(state).failed(message),
            None => self.without_pending(state),
        }
    }

    /// The state, and what follows, when a look at the calendar fails: lost access signs out.
    pub open spec fn sync_stops(self, message: Seq<char>) -> (AppView, SyncActionView) {
        if google::requires_reconnect(message) {
            (self.signed_out(Some(message)), SyncActionView::SignOut(message))
        } else {
            (self, SyncActionView::Fail(message))
        }
    }

    /// The state, and what follows, once the state was to be saved after a sign-out: the notice
    /// is put up only where that went well.
    pub open spec fn sync_signed_out(
        self,
        message: Seq<char>,
        saved: Result<(), Seq<char>>,
        now: Moment,
    ) -> (AppView, SyncActionView) {
        match saved {
            Ok(_) => (self.asked_to_reconnect(message, now), SyncActionView::Reconnect(message)),
            Err(error) => (self, SyncActionView::Fail(error)),
        }
    }

    /// There is something to look at the calendar with: a client id and tokens.
    pub open spec fn can_look(self, build: BuildView) -> bool {
        &&& config::effective_config(self.persistent.google_oauth_config, build).client_id is Some
        &&& self.persistent.token is Some
    }

    /// What follows when a look at the calendar has an access token that works.
    pub open spec fn fetch_with(token: TokenView, now: Moment) -> SyncActionView {
        SyncActionView::Fetch(
            oauth::with_query(oauth::EVENTS_ENDPOINT@, oauth::events_pairs(now)),
            token,
        )
    }

    /// The state, and what follows, when a look at the calendar begins. Without a client id,
    /// or with nobody signed in, the calendar counts as empty.
    pub open spec fn sync_begins(self, build: BuildView, now: Moment) -> (AppView, SyncActionView) {
        let effective = config::effective_config(self.persistent.google_oauth_config, build);
        match (effective.client_id, self.persistent.token) {
            (Some(client_id), Some(token)) => match oauth::access_token_need(
                client_id,
                effective.client_secret,
                token,
                now,
            ) {
                NeedView::Fresh(token) => (self, AppView::fetch_with(token, now)),
                NeedView::Refresh(form, refresh_token) => (
                    self,
                    SyncActionView::Refresh(form, refresh_token),
                ),
                NeedView::Lost(message) => self.sync_stops(message),
            },
            _ => (self, SyncActionView::Finish(Seq::empty())),
        }
    }

    /// The state, and what follows, once the token service was asked for a fresh access token.
    pub open spec fn sync_refreshed(
        self,
        result: Result<TokenView, Seq<char>>,
        now: Moment,
    ) -> (AppView, SyncActionView) {
        match result {
            Ok(token) => (self, AppView::fetch_with(token, now)),
            Err(message) => self.sync_stops(message),
        }
    }

    /// The state, and what follows, once the calendar was asked for its events.
    pub open spec fn sync_fetched(
        self,
        token: TokenView,
        result: Result<Seq<EventView>, Seq<char>>,
        now: Moment,
    ) -> (AppView, SyncActionView) {
        match result {
            Ok(events) => (self.synced(token, events, now), SyncActionView::Save(events)),
            Err(message) => self.sync_stops(message),
        }
    }

    /// What follows once the state was to be saved after the events were taken into it: the look
    /// succeeds only where that went well.
    pub open spec fn sync_saved(
        events: Seq<EventView>,
        saved: Result<(), Seq<char>>,
    ) -> SyncActionView {
        match saved {
            Ok(_) => SyncActionView::Finish(events),
            Err(error) => SyncActionView::Fail(error),
        }
    }
}

/// What became of the saving of the state.
pub open spec fn saving_result(saved: Result<(), String>) -> Result<(), Seq<char>> {
    match saved {
        Ok(_) => Ok(()),
        Err(error) => Err(error@),
    }
}

/// An empty calendar.
fn finish_empty() -> (r: SyncAction)
    ensures
        r@ == SyncActionView::Finish(Seq::empty()),
{
    let r = SyncAction::Finish(Vec::new());
    assert(r@->Finish_0 =~= Seq::<EventView>::empty());
    r
}

impl AppStateStore {
    /// How a sign-in begins.
    pub fn start_google_auth(&self, build: &BuildConfig) -> (r: AuthStart)
        ensures
            r@ == self@.auth_start(build@),
    {
        let effective = config::effective_google_oauth_config(
            &self.persistent.google_oauth_config,
            build,
        );
        match effective.client_id {
            None => AuthStart::Unconfigured(CLIENT_ID_MISSING.to_string()),
            Some(client_id) => match &self.pending_auth {
                Some(pending) => AuthStart::InProgress(pending.auth_url.clone()),
                None => AuthStart::Ready { client_id, client_secret: effective.client_secret },
            },
        }
    }

    /// Sets a sign-in under way.
    pub fn begin_auth(&mut self, pending: PendingAuth)
        ensures
            final(self)@ == old(self)@.signing_in(pending@),
    {
        self.pending_auth = Some(pending);
        self.persistent.last_error = None;
    }

    /// Whether the sign-in with the state token is still under way.
    pub fn pending_auth_matches(&self, expected_state: &str) -> (r: bool)
        ensures
            r == self@.awaits(expected_state@),
    {
        match &self.pending_auth {
            Some(pending) => text::same_text(pending.state.as_str(), expected_state),
            None => false,
        }
    }

    /// Drops the sign-in with the state token, if it is under way.
    pub fn clear_pending_auth(&mut self, expected_state: &str)
        ensures
            final(self)@ == old(self)@.without_pending(expected_state@),
    {
        if self.pending_auth_matches(expected_state) {
            self.pending_auth = None;
        }
    }

    /// Says what follows when the browser came back to the sign-in `pending`, or did not.
    pub fn auth_called_back(
        &self,
        pending: &PendingAuth,
        callback: Result<AuthCallback, String>,
    ) -> (r: AuthAction)
        ensures
            r@ == self@.called_back(pending@, oauth::callback_result(callback)),
    {
        match callback {
            Err(message) => AuthAction::Fail(message),
            Ok(callback) => if !self.pending_auth_matches(pending.state.as_str()) {
                AuthAction::Done
            } else {
                match oauth::answer_callback(pending, &callback) {
                    Ok(form) => AuthAction::Exchange(form),
                    Err(message) => AuthAction::Fail(message),
                }
            },
        }
    }

    /// Takes the tokens that came for a code, where they did.
    pub fn complete_google_auth(
        &mut self,
        reply: Reply<TokenResponse>,
        now: &Timestamp,
    ) -> (r: AuthAction)
        requires
            oauth::usable_reply(reply, now@),
        ensures
            (final(self)@, r@) == old(self)@.exchanged(oauth::exchange_result(reply, now@)),
    {
        match oauth::exchange_outcome(reply, now) {
            Ok(token) => {
                self.persistent.token = Some(token);
                self.persistent.last_error = None;
                AuthAction::Done
            },
            Err(message) => AuthAction::Fail(message),
        }
    }

    /// Ends the sign-in with the state token, well or with an error.
    pub fn end_auth(&mut self, state: &str, error: &Option<String>)
        ensures
            final(self)@ == old(self)@.auth_ended(state@, text::opt_text(*error)),
    {
        self.clear_pending_auth(state);
        if let Some(message) = error {
            self.record_error(message.as_str());
        }
    }

    /// Sees to a look at the calendar that failed.
    fn sync_stop(&mut self, message: String) -> (r: SyncAction)
        ensures
            (final(self)@, r@) == old(self)@.sync_stops(message@),
    {
        if google::error_requires_reconnect(message.as_str()) {
            self.reset_google_auth_state(Some(message.clone()));
            SyncAction::SignOut(message)
        } else {
            SyncAction::Fail(message)
        }
    }

    /// Says how the calendar is asked for its events.
    fn fetch_step(&mut self, token: TokenState, now: &Timestamp) -> (r: SyncAction)
        requires
            clock::in_range_after(now@, oauth::EVENTS_LOOKAHEAD_HOURS * 3600),
        ensures
            final(self)@ == old(self)@,
            r@ == AppView::fetch_with(token@, now@),
    {
        match oauth::events_url(now) {
            Ok(url) => SyncAction::Fetch { url, token },
            Err(message) => self.sync_stop(message),
        }
    }

    /// Begins a look at the calendar.
    pub fn sync_begin(&mut self, build: &BuildConfig, now: &Timestamp) -> (r: SyncAction)
        requires
            old(self)@.can_look(build@) ==> clock::in_range_after(now@, TOKEN_MARGIN_SECS as int),
            old(self)@.can_look(build@) && old(self)@.persistent.token->Some_0.fresh_at(now@)
                ==> clock::in_range_after(now@, oauth::EVENTS_LOOKAHEAD_HOURS * 3600),
        ensures
            (final(self)@, r@) == old(self)@.sync_begins(build@, now@),
    {
        let effective = config::effective_google_oauth_config(
            &self.persistent.google_oauth_config,
            build,
        );
        let token = match &self.persistent.token {
            Some(token) => token.clone(),
            None => {
                return finish_empty();
            },
        };
        let client_id = match effective.client_id {
            Some(client_id) => client_id,
            None => {
                return finish_empty();
            },
        };
        match oauth::ensure_access_token(
            client_id.as_str(),
            &effective.client_secret,
            token,
            now,
        ) {
            AccessTokenNeed::Fresh(token) => self.fetch_step(token, now),
            AccessTokenNeed::Refresh { form, refresh_token } => SyncAction::Refresh {
                form,
                refresh_token,
            },
            AccessTokenNeed::Lost(message) => self.sync_stop(message),
        }
    }

    /// Goes on with a look at the calendar once the token service was asked for a fresh
    /// access token.
    pub fn sync_refreshed(
        &mut self,
        refresh_token: String,
        reply: Reply<TokenResponse>,
        now: &Timestamp,
    ) -> (r: SyncAction)
        requires
            oauth::usable_reply(reply, now@),
            reply is Decoded ==> clock::in_range_after(now@, oauth::EVENTS_LOOKAHEAD_HOURS * 3600),
        ensures
            (final(self)@, r@) == old(self)@.sync_refreshed(
                oauth::refresh_result(reply, refresh_token@, now@),
                now@,
            ),
    {
        match oauth::refresh_outcome(reply, refresh_token, now) {
            Ok(token) => self.fetch_step(token, now),
            Err(message) => self.sync_stop(message),
        }
    }

    /// Goes on with a look at the calendar once the calendar was asked for its events.
    pub fn sync_fetched(
        &mut self,
        token: TokenState,
        reply: Reply<Vec<GoogleCalendarEvent>>,
        now: &Timestamp,
    ) -> (r: SyncAction)
        requires
            reply matches Reply::Rejected { status, .. } ==> google::valid_status(status),
        ensures
            (final(self)@, r@) == old(self)@.sync_fetched(
                token@,
                google::fetch_result(reply),
                now@,
            ),
    {
        match google::fetch_outcome(reply) {
            Ok(events) => {
                self.persistent.token = Some(token);
                self.persistent.cached_events = state::copy_events(&events);
                self.persistent.last_sync_at = Some(*now);
                self.persistent.last_error = None;
                SyncAction::Save(events)
            },
            Err(message) => self.sync_stop(message),
        }
    }

    /// Goes on with a look at the calendar once the state was to be saved after the events were
    /// taken into it.
    pub fn sync_saved(
        events: Vec<CalendarEventSummary>,
        saved: Result<(), String>,
    ) -> (r: SyncAction)
        ensures
            r@ == AppView::sync_saved(state::event_views(events@), saving_result(saved)),
    {
        match saved {
            Ok(_) => SyncAction::Finish(events),
            Err(error) => SyncAction::Fail(error),
        }
    }

    /// Goes on with a look at the calendar once the state was to be saved after a sign-out.
    pub fn sync_signed_out(
        &mut self,
        message: String,
        saved: Result<(), String>,
        now: &Timestamp,
    ) -> (r: SyncAction)
        ensures
            (final(self)@, r@) == old(self)@.sync_signed_out(message@, saving_result(saved), now@),
    {
        match saved {
            Ok(_) => {
                self.put_up_reconnect_notice(message.as_str(), now);
                SyncAction::Reconnect(message)
            },
            Err(error) => SyncAction::Fail(error),
        }
    }

    /// Looks at the events of the calendar and says what the windows have to do.
    pub fn sync_calendar_and_maybe_notify(
        &mut self,
        events: &Vec<CalendarEventSummary>,
        now: &Timestamp,
    ) -> (plan: SyncPlan)
        ensures
            final(self)@ == old(self)@.looked(state::event_views(events@), now@),
            reminders::plan_of(plan, old(self)@.reminders, state::event_views(events@), now@),
    {
        self.event_reminder_states.look_at_calendar(events, now)
    }

    /// Notes that the user closed the windows of an event.
    pub fn dismiss_event_reminder(&mut self, event_id: &str, now: &Timestamp)
        ensures
            final(self)@ == (AppView {
                reminders: reminders::dismissed(old(self)@.reminders, event_id@, now@),
                ..old(self)@
            }),
    {
        self.event_reminder_states.dismiss(event_id, now);
    }

    /// What the windows of an event are told, if it has been announced.
    pub fn get_event_reminder(&self, event_id: &str) -> (r: Option<EventReminderPayload>)
        ensures
            match self@.reminders.get(event_id@) {
                Some(record) => r matches Some(payload) && payload@ == record.payload(),
                None => r is None,
            },
    {
        match self.event_reminder_states.get(event_id) {
            Some(record) => Some(record.to_payload()),
            None => None,
        }
    }

    /// What the windows of the notice are told, if there is one.
    pub fn get_auth_reconnect_notice(&self) -> (r: Option<AuthReconnectNoticePayload>)
        ensures
            match self@.notice {
                Some(notice) => r matches Some(payload) && payload@ == notice.payload(),
                None => r is None,
            },
    {
        match &self.auth_reconnect_notice {
            Some(notice) => Some(notice.to_payload()),
            None => None,
        }
    }

    /// The place of the notice, if there is one: behind all reminders whose windows stand open.
    pub fn notice_slot(&self) -> (r: Option<usize>)
        ensures
            r is Some <==> self@.notice is Some,
            r matches Some(slot) ==> slot == reminders::showing_events(self@.reminders).len(),
    {
        if self.auth_reconnect_notice.is_none() {
            return None;
        }
        let showing = self.event_reminder_states.sorted_showing_records();
        proof {
            reminders::lemma_showing_count(
                self@.reminders,
                reminders::record_views(showing@),
            );
        }
        Some(showing.len())
    }

    /// Whether the notice opens.
    pub fn maybe_open_auth_reconnect_notice(
        &self,
        window_is_open: bool,
        now: &Timestamp,
    ) -> (r: bool)
        ensures
            r == notice::notice_opens(self@.notice, window_is_open, now@),
    {
        notice::should_open_notice(&self.auth_reconnect_notice, window_is_open, now)
    }

    /// Notes that the notice, if there is one, was shown at `now`.
    pub fn mark_notice_shown(&mut self, now: &Timestamp)
        ensures
            final(self)@ == (AppView {
                notice: match old(self)@.notice {
                    Some(notice) => Some(notice.shown(now@)),
                    None => None,
                },
                ..old(self)@
            }),
    {
        let mut current = None;
        std::mem::swap(&mut current, &mut self.auth_reconnect_notice);
        if let Some(mut notice) = current {
            notice.mark_shown(now);
            self.auth_reconnect_notice = Some(notice);
        }
    }
}

} // verus!
