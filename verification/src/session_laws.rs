//! What holds of the application's state across its changes.

use vstd::prelude::*;

use crate::clock;
use crate::clock::Moment;
use crate::config;
use crate::config::BuildView;
use crate::google;
use crate::google::{GoogleCalendarEvent, Reply};
use crate::notice;
use crate::oauth;
use crate::oauth::TokenResponse;
use crate::session;
use crate::session::{AppStateStore, AppView, AuthActionView, StartView, SyncActionView};
use crate::state::{CallbackView, ConfigView, EventView, PendingView, StatusView, TokenView};
use crate::text;

verus! {

/// Signing out leaves nothing of the session: nobody is signed in, nothing is listed or
/// reminded of, no sign-in is under way, and the calendar is not looked at. The credentials
/// of the client stay.
pub proof fn law_sign_out_is_complete(
    app: AppView,
    last_error: Option<Seq<char>>,
    build: BuildView,
    now: Moment,
)
    ensures
        ({
            let after = app.signed_out(last_error);
            let status = session::status_of(after, build);
            &&& !status.signed_in
            &&& !status.polling_enabled
            &&& !status.auth_in_progress
            &&& !status.auto_reconnect_ready
            &&& status.upcoming_events.len() == 0
            &&& status.last_sync_at is None
            &&& status.last_error == last_error
            &&& status.google_client_id == session::status_of(app, build).google_client_id
            &&& after.reminders == Map::<Seq<char>, crate::reminders::RecordView>::empty()
            &&& after.notice is None
            &&& after.sync_begins(build, now) == (after, SyncActionView::Finish(Seq::empty()))
        }),
{
}

/// A failure that tells of lost access signs out, and once that is saved the user is asked to
/// sign in again: the notice opens at once, and the message, noted, is shown as the last error.
pub proof fn law_lost_access_asks_to_reconnect(
    app: AppView,
    message: Seq<char>,
    now: Moment,
    build: BuildView,
    later: Moment,
)
    requires
        google::requires_reconnect(message),
    ensures
        ({
            let (out, first) = app.sync_stops(message);
            let (asked, second) = out.sync_signed_out(message, Ok(()), now);
            let after = asked.failed(message);
            let status = session::status_of(after, build);
            &&& out == app.signed_out(Some(message))
            &&& first == SyncActionView::SignOut(message)
            &&& second == SyncActionView::Reconnect(message)
            &&& !status.signed_in
            &&& status.upcoming_events.len() == 0
            &&& status.last_error == Some(message)
            &&& notice::notice_opens(after.notice, false, later)
            &&& after.sync_begins(build, later) == (after, SyncActionView::Finish(Seq::empty()))
        }),
{
}

/// Where the sign-out could not be saved, no notice is put up, and the look fails for that
/// reason; the user stays signed out.
pub proof fn law_unsaved_sign_out_puts_up_no_notice(
    app: AppView,
    message: Seq<char>,
    error: Seq<char>,
    now: Moment,
)
    requires
        google::requires_reconnect(message),
    ensures
        ({
            let (out, _) = app.sync_stops(message);
            &&& out.sync_signed_out(message, Err(error), now) == (out, SyncActionView::Fail(error))
            &&& out.notice is None
            &&& out.persistent.token is None
        }),
{
}

/// Any other failure leaves the session as it is; noted, it is shown as the last error.
pub proof fn law_other_failures_keep_the_session(app: AppView, message: Seq<char>, build: BuildView)
    requires
        !google::requires_reconnect(message),
    ensures
        app.sync_stops(message) == (app, SyncActionView::Fail(message)),
        session::status_of(app.failed(message), build) == (StatusView {
            last_error: Some(message),
            ..session::status_of(app, build)
        }),
{
}

/// An access token that has run out and cannot be renewed for want of a refresh token counts
/// as lost access.
pub proof fn law_missing_refresh_token_is_lost_access(
    client_id: Seq<char>,
    client_secret: Option<Seq<char>>,
    token: TokenView,
    now: Moment,
)
    requires
        !token.fresh_at(now),
        token.refresh_token is None,
    ensures
        oauth::access_token_need(client_id, client_secret, token, now) matches oauth::NeedView::Lost(
            message,
        ) && google::requires_reconnect(message),
{
    let part = "refresh token is missing"@;
    let message = "refresh token is missing; please reconnect Google Calendar"@;
    reveal_strlit("refresh token is missing");
    reveal_strlit("refresh token is missing; please reconnect Google Calendar");
    let lower = text::ascii_lowercase(message);
    assert(lower.subrange(0, part.len() as int) =~= part);
    assert(text::occurs_at(lower, part, 0));
}

/// A refusal to renew the access token with the error `invalid_grant` counts as lost access.
pub proof fn law_invalid_grant_is_lost_access(
    status: u16,
    body: String,
    refresh_token: Seq<char>,
    now: Moment,
)
    requires
        text::trimmed(body@).len() > 0,
        google::error_fields(text::trimmed(body@)).message is None,
        google::error_fields(text::trimmed(body@)).code == Some("invalid_grant"@),
    ensures
        oauth::refresh_result(
            Reply::<TokenResponse>::Rejected { status, body: Some(body) },
            refresh_token,
            now,
        ) matches Err(message) && google::requires_reconnect(message),
{
    let reply = Reply::<TokenResponse>::Rejected { status, body: Some(body) };
    let code = "invalid_grant"@;
    reveal_strlit("invalid_grant");
    assert(text::ascii_lowercase(code) =~= code);
    assert(code.subrange(0, code.len() as int) =~= code);
    assert(text::occurs_at(code, code, 0));
    let fields = google::error_fields(text::trimmed(body@));
    let line = google::google_error(status, Some(body@));
    let head = "HTTP "@ + google::status_text(status) + ": "@;
    let tail = match fields.description {
        Some(description) => " ("@ + description + ")"@,
        None => Seq::empty(),
    };
    assert(line =~= head + code + tail);
    let message = "failed to refresh Google token: "@ + line;
    let before = "failed to refresh Google token: "@ + head;
    assert(message =~= before + code + tail);
    lemma_lowercase_of_sum(before, code);
    lemma_lowercase_of_sum(before + code, tail);
    lemma_occurs_within(text::ascii_lowercase(before), code, text::ascii_lowercase(tail));
}

proof fn lemma_lowercase_of_sum(a: Seq<char>, b: Seq<char>)
    ensures
        text::ascii_lowercase(a + b) == text::ascii_lowercase(a) + text::ascii_lowercase(b),
{
    assert(text::ascii_lowercase(a + b) =~= text::ascii_lowercase(a) + text::ascii_lowercase(b));
}

proof fn lemma_occurs_within(a: Seq<char>, part: Seq<char>, b: Seq<char>)
    ensures
        text::occurs(a + part + b, part),
{
    let i = a.len() as int;
    assert((a + part + b).subrange(i, i + part.len()) =~= part);
    assert(text::occurs_at(a + part + b, part, i));
}

/// Renewing the access token keeps the refresh token, and the new access token is fresh when
/// it lasts longer than the margin.
pub proof fn law_renewed_token_is_fresh(
    reply: Reply<TokenResponse>,
    refresh_token: Seq<char>,
    now: Moment,
)
    requires
        clock::valid_moment(now),
    ensures
        oauth::refresh_result(reply, refresh_token, now) matches Ok(token) ==> token.refresh_token
            == Some(refresh_token) && (reply->Decoded_0.expires_in > 60 ==> token.fresh_at(now)),
{
}

/// Saved credentials are in effect from then on: the user's entries without the white space
/// around them, and nothing where only white space was entered.
pub proof fn law_saved_settings_take_effect(
    app: AppView,
    client_id: Seq<char>,
    client_secret: Seq<char>,
    build: BuildView,
)
    ensures
        ({
            let after = app.with_settings(AppView::entered(client_id, client_secret), build);
            let status = session::status_of(after, build);
            &&& status.google_client_id == config::trimmed_value(client_id)
            &&& status.google_client_secret == config::trimmed_value(client_secret)
            &&& !status.google_client_id_using_initial
            &&& status.last_error is None
        }),
{
    text::law_trim_idempotent(client_id);
    text::law_trim_idempotent(client_secret);
}

/// Saving the credentials that are in effect keeps the session; saving others ends it.
pub proof fn law_settings_end_the_session_only_when_they_change(
    app: AppView,
    next: ConfigView,
    build: BuildView,
)
    ensures
        app.with_settings(next, build).with_settings(next, build) == app.with_settings(next, build),
        !app.with_settings(next, build).settings_change(next, build),
        !app.settings_change(next, build) ==> {
            let after = app.with_settings(next, build);
            &&& after.persistent.token == app.persistent.token
            &&& after.persistent.cached_events == app.persistent.cached_events
            &&& after.pending_auth == app.pending_auth
            &&& after.reminders == app.reminders
            &&& after.notice == app.notice
        },
        app.settings_change(next, build) ==> {
            let after = app.with_settings(next, build);
            &&& after.persistent.token is None
            &&& after.persistent.cached_events.len() == 0
            &&& after.pending_auth is None
            &&& after.reminders.dom() =~= Set::<Seq<char>>::empty()
            &&& after.notice is None
        },
{
    let once = app.with_settings(next, build);
    assert(once.with_settings(next, build) =~= once);
}

/// What the build embedded is never saved: only the user's entries change the saved
/// credentials, and what is saved then does not depend on the build.
pub proof fn law_embedded_credentials_are_never_saved(
    app: AppView,
    next: ConfigView,
    build: BuildView,
    message: Seq<char>,
    last_error: Option<Seq<char>>,
    pending: PendingView,
    token: TokenView,
    events: Seq<EventView>,
    now: Moment,
)
    ensures
        app.with_settings(next, build).persistent.google_oauth_config == Some(next),
        app.failed(message).persistent.google_oauth_config == app.persistent.google_oauth_config,
        app.signed_out(last_error).persistent.google_oauth_config
            == app.persistent.google_oauth_config,
        app.asked_to_reconnect(message, now).persistent.google_oauth_config
            == app.persistent.google_oauth_config,
        app.without_runtime().persistent == app.persistent,
        app.signing_in(pending).persistent.google_oauth_config
            == app.persistent.google_oauth_config,
        app.without_pending(message).persistent == app.persistent,
        app.with_token(token).persistent.google_oauth_config
            == app.persistent.google_oauth_config,
        app.synced(token, events, now).persistent.google_oauth_config
            == app.persistent.google_oauth_config,
        app.sync_stops(message).0.persistent.google_oauth_config
            == app.persistent.google_oauth_config,
        app.looked(events, now).persistent == app.persistent,
{
}

/// One sign-in at a time: while one is under way, a further start leads to its page.
pub proof fn law_one_sign_in_at_a_time(app: AppView, pending: PendingView, build: BuildView)
    requires
        session::status_of(app, build).client_id_configured,
    ensures
        app.signing_in(pending).auth_start(build) == StartView::InProgress(pending.auth_url),
        session::status_of(app.signing_in(pending), build).auth_in_progress,
        !session::status_of(app.signing_in(pending), build).can_start_google_auth,
{
}

/// A sign-in is ended by its own state token only; what comes back after a sign-out, or after
/// another sign-in has taken its place, finds nothing to complete.
pub proof fn law_stale_sign_in_is_ignored(
    app: AppView,
    pending: PendingView,
    other: Seq<char>,
    callback: CallbackView,
    last_error: Option<Seq<char>>,
)
    requires
        other != pending.state,
    ensures
        app.signing_in(pending).awaits(pending.state),
        !app.signing_in(pending).awaits(other),
        app.signing_in(pending).without_pending(other) == app.signing_in(pending),
        app.signing_in(pending).without_pending(pending.state).pending_auth is None,
        !app.signed_out(last_error).awaits(other),
        app.signed_out(last_error).called_back(pending, Ok(callback)) is Done,
        app.signing_in(pending).called_back(
            (PendingView { state: other, ..pending }),
            Ok(callback),
        ) is Done,
{
}

/// What comes back with a state token that is not the sign-in's own is never exchanged for
/// tokens.
pub proof fn law_foreign_callback_is_refused(
    app: AppView,
    pending: PendingView,
    callback: CallbackView,
)
    requires
        callback.state != pending.state,
    ensures
        !(app.called_back(pending, Ok(callback)) is Exchange),
{
}

/// What comes back with the state token of the sign-in under way is exchanged for tokens: the
/// code that came back, with the verifier whose challenge the page for signing in was given.
pub proof fn law_own_callback_is_exchanged(
    app: AppView,
    client_id: Seq<char>,
    client_secret: Option<Seq<char>>,
    port: u16,
    state: Seq<char>,
    code_verifier: Seq<char>,
    code: Seq<char>,
)
    ensures
        ({
            let pending = oauth::pending_view(client_id, client_secret, port, state, code_verifier);
            let form = oauth::exchange_pairs(pending, code);
            &&& app.signing_in(pending).called_back(
                pending,
                Ok(CallbackView { code, state }),
            ) == AuthActionView::Exchange(form)
            &&& form.contains(("code"@, code))
            &&& form.contains(("code_verifier"@, code_verifier))
            &&& form.contains(("redirect_uri"@, oauth::redirect_address(port)))
            &&& oauth::auth_pairs(
                client_id,
                oauth::redirect_address(port),
                state,
                oauth::challenge(code_verifier),
            ).contains(("code_challenge"@, oauth::challenge(code_verifier)))
            &&& pending.auth_url == oauth::auth_url(
                client_id,
                oauth::redirect_address(port),
                state,
                oauth::challenge(code_verifier),
            )
        }),
{
    let pending = oauth::pending_view(client_id, client_secret, port, state, code_verifier);
    let form = oauth::exchange_pairs(pending, code);
    assert(form[2] == ("code"@, code));
    assert(form[3] == ("redirect_uri"@, oauth::redirect_address(port)));
    assert(form[4] == ("code_verifier"@, code_verifier));
    let asked = oauth::auth_pairs(
        client_id,
        oauth::redirect_address(port),
        state,
        oauth::challenge(code_verifier),
    );
    assert(asked[8] == ("code_challenge"@, oauth::challenge(code_verifier)));
}

/// Tokens that hold more than white space sign the user in.
pub proof fn law_tokens_sign_in(app: AppView, token: TokenView, build: BuildView)
    ensures
        session::status_of(app.with_token(token), build).signed_in <==> token.has_access_token()
            && token.has_refresh_token(),
        session::status_of(app.with_token(token), build).last_error is None,
{
}

/// After a look at the calendar that succeeded, its events are the ones that are listed.
pub proof fn law_synced_events_are_listed(
    app: AppView,
    token: TokenView,
    events: Seq<EventView>,
    now: Moment,
    build: BuildView,
)
    ensures
        session::status_of(app.synced(token, events, now), build).upcoming_events == events,
        session::status_of(app.synced(token, events, now), build).last_error is None,
        session::status_of(app.synced(token, events, now), build).last_sync_at == Some(
            clock::moment_text(now),
        ),
{
}

/// A look at the calendar is saved exactly after its events were fetched: the state then holds
/// them, and only once it is saved does the look succeed with them. A look that succeeds without
/// asking the calendar changes nothing and has nothing to save.
pub proof fn law_a_look_is_saved_exactly_after_a_fetch(
    app: AppView,
    build: BuildView,
    token: TokenView,
    refreshed: Result<TokenView, Seq<char>>,
    fetched: Result<Seq<EventView>, Seq<char>>,
    error: Seq<char>,
    now: Moment,
)
    ensures
        !(app.sync_begins(build, now).1 is Save),
        app.sync_begins(build, now).1 is Finish ==> app.sync_begins(build, now) == (
            app,
            SyncActionView::Finish(Seq::empty()),
        ),
        !(app.sync_refreshed(refreshed, now).1 is Save),
        !(app.sync_refreshed(refreshed, now).1 is Finish),
        !(app.sync_fetched(token, fetched, now).1 is Finish),
        app.sync_fetched(token, fetched, now).1 is Save <==> fetched is Ok,
        fetched matches Ok(events) ==> {
            &&& app.sync_fetched(token, fetched, now) == (
                app.synced(token, events, now),
                SyncActionView::Save(events),
            )
            &&& AppView::sync_saved(events, Ok(())) == SyncActionView::Finish(events)
            &&& AppView::sync_saved(events, Err(error)) == SyncActionView::Fail(error)
        },
{
}

/// Whenever a step of a look at the calendar changes what is saved between runs, saving comes
/// next.
pub proof fn law_changes_of_a_look_are_saved(
    app: AppView,
    build: BuildView,
    token: TokenView,
    refreshed: Result<TokenView, Seq<char>>,
    fetched: Result<Seq<EventView>, Seq<char>>,
    message: Seq<char>,
    saved: Result<(), Seq<char>>,
    now: Moment,
)
    ensures
        app.sync_begins(build, now).0.persistent == app.persistent || app.sync_begins(
            build,
            now,
        ).1 is SignOut,
        app.sync_refreshed(refreshed, now).0.persistent == app.persistent || app.sync_refreshed(
            refreshed,
            now,
        ).1 is SignOut,
        app.sync_fetched(token, fetched, now).0.persistent == app.persistent || app.sync_fetched(
            token,
            fetched,
            now,
        ).1 is SignOut || app.sync_fetched(token, fetched, now).1 is Save,
        app.sync_signed_out(message, saved, now).0.persistent == app.persistent,
{
}

/// A sign-in starts with exactly the credentials that were saved, without the white space around
/// them, whatever a build embeds; with a blank id it does not start.
pub proof fn law_sign_in_starts_with_saved_credentials(
    app: AppView,
    client_id: Seq<char>,
    client_secret: Seq<char>,
    build: BuildView,
    other: BuildView,
)
    ensures
        ({
            let saved = app.with_settings(AppView::entered(client_id, client_secret), build);
            let start = saved.without_runtime().auth_start(other);
            &&& text::trimmed(client_id).len() > 0 ==> start == StartView::Ready(
                text::trimmed(client_id),
                if text::trimmed(client_secret).len() > 0 {
                    Some(text::trimmed(client_secret))
                } else {
                    None
                },
            )
            &&& text::trimmed(client_id).len() == 0 ==> start is Unconfigured
        }),
{
    text::law_trim_idempotent(client_id);
    text::law_trim_idempotent(client_secret);
}

/// A sign-in starts with the credentials that the settings screen shows: both of them, and of
/// one origin.
pub proof fn law_sign_in_starts_with_shown_credentials(app: AppView, build: BuildView)
    ensures
        ({
            let status = session::status_of(app, build);
            &&& status.can_start_google_auth <==> app.auth_start(build) is Ready
            &&& app.auth_start(build) is Unconfigured <==> status.google_client_id is None
            &&& app.auth_start(build) matches StartView::Ready(id, secret)
                ==> status.google_client_id == Some(id) && status.google_client_secret == secret
            &&& app.auth_start(build) matches StartView::InProgress(url)
                ==> app.pending_auth matches Some(pending) && pending.auth_url == url
            &&& app.auth_start(build) matches StartView::Unconfigured(message) ==> message
                == "GOOGLE_CLIENT_ID を .env に設定してください"@
        }),
{
}

/// Each part of the settings screen says what its name says.
pub proof fn law_status_says_what_is(app: AppView, build: BuildView)
    ensures
        ({
            let status = session::status_of(app, build);
            let saved = app.persistent;
            let effective = config::effective_config(saved.google_oauth_config, build);
            &&& status.google_client_id == effective.client_id
            &&& status.google_client_secret == effective.client_secret
            &&& status.client_id_configured <==> status.google_client_id is Some
            &&& status.client_secret_configured <==> status.google_client_secret is Some
            &&& status.google_client_id_using_initial <==> saved.google_oauth_config is None
                && status.google_client_id is Some
            &&& status.google_client_secret_using_initial <==> saved.google_oauth_config is None
                && status.google_client_secret is Some
            &&& status.signed_in <==> saved.signed_in()
            &&& status.polling_enabled <==> status.signed_in && status.client_id_configured
            &&& status.auth_in_progress <==> app.pending_auth is Some
            &&& status.can_start_google_auth <==> status.client_id_configured
                && !status.auth_in_progress
            &&& status.signed_in ==> status.auto_reconnect_ready
            &&& status.auto_reconnect_ready <==> match saved.token {
                Some(token) => match token.refresh_token {
                    Some(refresh) => exists|i: int|
                        0 <= i < refresh.len() && !text::white_space(#[trigger] refresh[i]),
                    None => false,
                },
                None => false,
            }
            &&& status.oauth_config_diagnostics == config::diagnostics(
                saved.google_oauth_config,
                build,
            )
            &&& status.upcoming_events == saved.cached_events
            &&& status.last_error == saved.last_error
            &&& saved.last_sync_at matches Some(t) ==> status.last_sync_at == Some(
                clock::rfc3339_text(t.secs as i64, t.nanos as u32),
            )
            &&& saved.last_sync_at is None ==> status.last_sync_at is None
        }),
{
    if let Some(token) = app.persistent.token {
        if let Some(refresh) = token.refresh_token {
            text::law_blank_text_leaves_nothing(refresh);
        }
    }
}

/// Saving credentials ends the session exactly when it changes the id or the secret that the
/// settings screen shows.
pub proof fn law_settings_change_what_is_shown(app: AppView, next: ConfigView, build: BuildView)
    ensures
        ({
            let before = session::status_of(app, build);
            let after = session::status_of(app.with_settings(next, build), build);
            &&& app.settings_change(next, build) <==> before.google_client_id
                != after.google_client_id || before.google_client_secret
                != after.google_client_secret
            &&& app.settings_change(next, build) ==> after.upcoming_events.len() == 0
                && after.last_sync_at is None && !after.signed_in && !after.auth_in_progress
            &&& !app.settings_change(next, build) ==> after.upcoming_events
                == before.upcoming_events && after.last_sync_at == before.last_sync_at
                && after.signed_in == before.signed_in && after.auth_in_progress
                == before.auth_in_progress
            &&& app.with_settings(next, build).persistent.google_oauth_config == Some(next)
            &&& after.last_error is None
        }),
{
}

/// What the user enters is saved without the white space around it, id as id and secret as
/// secret.
pub proof fn law_entries_are_saved_trimmed(client_id: Seq<char>, client_secret: Seq<char>)
    ensures
        AppView::entered(client_id, client_secret).client_id == Some(text::trimmed(client_id)),
        AppView::entered(client_id, client_secret).client_secret == Some(
            text::trimmed(client_secret),
        ),
{
}

/// Each change of the state leaves alone what it is not about.
pub proof fn law_changes_leave_the_rest_alone(
    app: AppView,
    pending: PendingView,
    token: TokenView,
    events: Seq<EventView>,
    message: Seq<char>,
    state: Seq<char>,
    now: Moment,
)
    ensures
        ({
            let after = app.failed(message);
            &&& after.persistent.last_error == Some(message)
            &&& after.persistent.token == app.persistent.token
            &&& after.persistent.cached_events == app.persistent.cached_events
            &&& after.persistent.last_sync_at == app.persistent.last_sync_at
            &&& after.pending_auth == app.pending_auth
            &&& after.reminders == app.reminders
            &&& after.notice == app.notice
        }),
        ({
            let after = app.signing_in(pending);
            &&& after.pending_auth == Some(pending)
            &&& after.persistent.last_error is None
            &&& after.persistent.token == app.persistent.token
            &&& after.persistent.cached_events == app.persistent.cached_events
            &&& after.persistent.last_sync_at == app.persistent.last_sync_at
            &&& after.reminders == app.reminders
            &&& after.notice == app.notice
        }),
        ({
            let after = app.with_token(token);
            &&& after.persistent.token == Some(token)
            &&& after.persistent.last_error is None
            &&& after.persistent.cached_events == app.persistent.cached_events
            &&& after.persistent.last_sync_at == app.persistent.last_sync_at
            &&& after.pending_auth == app.pending_auth
            &&& after.reminders == app.reminders
            &&& after.notice == app.notice
        }),
        ({
            let after = app.synced(token, events, now);
            &&& after.persistent.token == Some(token)
            &&& after.persistent.cached_events == events
            &&& after.persistent.last_sync_at == Some(now)
            &&& after.persistent.last_error is None
            &&& after.pending_auth == app.pending_auth
            &&& after.reminders == app.reminders
            &&& after.notice == app.notice
        }),
        ({
            let after = app.looked(events, now);
            &&& after.persistent == app.persistent
            &&& after.pending_auth == app.pending_auth
            &&& after.notice == app.notice
            &&& after.reminders == crate::reminders::after_events(
                crate::reminders::kept(app.reminders, events),
                events,
                now,
            )
        }),
        ({
            let after = app.without_pending(state);
            &&& after.persistent == app.persistent
            &&& after.reminders == app.reminders
            &&& after.notice == app.notice
            &&& app.pending_auth matches Some(pending) ==> (pending.state == state
                ==> after.pending_auth is None) && (pending.state != state ==> after == app)
        }),
        ({
            let after = app.without_runtime();
            &&& after.persistent == app.persistent
            &&& after.pending_auth is None
            &&& after.notice is None
            &&& after.reminders.dom() =~= Set::<Seq<char>>::empty()
        }),
        ({
            let after = app.asked_to_reconnect(message, now);
            &&& after.persistent == app.persistent
            &&& after.pending_auth == app.pending_auth
            &&& after.reminders == app.reminders
            &&& after.notice matches Some(notice) && notice.detail == message
                && notice.first_detected_at == now && notice.last_shown_at is None
        }),
{
}

/// A sign-in ends for itself only, and an error that ended it is noted.
pub proof fn law_ended_sign_in_is_gone(
    app: AppView,
    state: Seq<char>,
    error: Option<Seq<char>>,
)
    ensures
        !app.auth_ended(state, error).awaits(state),
        error matches Some(message) ==> app.auth_ended(state, error).persistent.last_error == Some(
            message,
        ),
        error is None ==> app.auth_ended(state, error).persistent == app.persistent,
        app.auth_ended(state, error).persistent.token == app.persistent.token,
        !app.awaits(state) ==> app.auth_ended(state, error).pending_auth == app.pending_auth,
        app.auth_ended(state, error).reminders == app.reminders,
        app.auth_ended(state, error).notice == app.notice,
{
}

/// What comes back to a sign-in that is no longer under way is let go. A callback that cannot be
/// understood fails for its own reason, and one with a foreign state token for that; one with
/// the sign-in's own is exchanged. Tokens that came are taken, and a refusal leaves
/// the state as it is.
pub proof fn law_sign_in_fails_for_its_reason(
    app: AppView,
    pending: PendingView,
    callback: CallbackView,
    message: Seq<char>,
    token: TokenView,
)
    ensures
        app.called_back(pending, Err(message)) == AuthActionView::Fail(message),
        app.awaits(pending.state) <==> (app.pending_auth matches Some(waiting) && waiting.state
            == pending.state),
        !app.awaits(pending.state) ==> app.called_back(pending, Ok(callback)) is Done,
        app.awaits(pending.state) && callback.state == pending.state ==> app.called_back(
            pending,
            Ok(callback),
        ) == AuthActionView::Exchange(oauth::exchange_pairs(pending, callback.code)),
        app.awaits(pending.state) && callback.state != pending.state ==> app.called_back(
            pending,
            Ok(callback),
        ) == AuthActionView::Fail("OAuth state が一致しませんでした"@),
        app.exchanged(Err(message)) == (app, AuthActionView::Fail(message)),
        app.exchanged(Ok(token)).1 is Done,
        app.exchanged(Ok(token)).0.persistent.token == Some(token),
        app.exchanged(Ok(token)).0.persistent.last_error is None,
{
}

/// A look at the calendar with an access token that has run out asks for a new one first, with
/// the credentials that the settings screen shows and the refresh token that is saved.
pub proof fn law_stale_token_is_renewed_with_shown_credentials(
    app: AppView,
    build: BuildView,
    token: TokenView,
    refresh_token: Seq<char>,
    now: Moment,
)
    requires
        app.persistent.token == Some(token),
        token.refresh_token == Some(refresh_token),
        token.expires_at.secs < now.secs + 60,
        session::status_of(app, build).client_id_configured,
    ensures
        ({
            let status = session::status_of(app, build);
            &&& app.sync_begins(build, now) == (
                app,
                SyncActionView::Refresh(
                    oauth::refresh_pairs(
                        status.google_client_id->Some_0,
                        status.google_client_secret,
                        refresh_token,
                    ),
                    refresh_token,
                ),
            )
        }),
{
}

/// A look at the calendar with an access token that lasts asks the calendar with that token, and
/// so does one with a token that was just renewed.
pub proof fn law_lasting_token_asks_the_calendar(
    app: AppView,
    build: BuildView,
    token: TokenView,
    now: Moment,
)
    requires
        0 <= now.nanos < 1_000_000_000,
    ensures
        ({
            let url = oauth::with_query(
                "https://www.googleapis.com/calendar/v3/calendars/primary/events"@,
                oauth::events_pairs(now),
            );
            &&& app.persistent.token == Some(token) && token.expires_at.secs > now.secs + 60
                && session::status_of(app, build).client_id_configured ==> app.sync_begins(
                build,
                now,
            ) == (app, SyncActionView::Fetch(url, token))
            &&& app.sync_refreshed(Ok(token), now) == (app, SyncActionView::Fetch(url, token))
        }),
{
}

/// Without a client id, or without tokens, a look at the calendar finds it empty and changes
/// nothing; with both it never counts as empty without asking.
pub proof fn law_looks_without_a_session_find_nothing(app: AppView, build: BuildView, now: Moment)
    ensures
        app.sync_begins(build, now).1 is Finish <==> !session::status_of(
            app,
            build,
        ).client_id_configured || app.persistent.token is None,
        app.sync_begins(build, now).1 is Finish ==> app.sync_begins(build, now) == (
            app,
            SyncActionView::Finish(Seq::empty()),
        ),
{
}

/// A refusal to renew the access token, or to give the events, in which the service says none of
/// the four phrases of lost access, leaves the session as it is; and so does a request that did
/// not get through or whose answer could not be read.
pub proof fn law_passing_failures_keep_the_session(
    app: AppView,
    status: u16,
    body: String,
    refresh_token: Seq<char>,
    token: TokenView,
    now: Moment,
)
    requires
        forall|i: int|
            !(#[trigger] google::tells_of_lost_access(
                google::google_error(status, Some(body@)),
                i,
            )),
    ensures
        ({
            let line = google::google_error(status, Some(body@));
            let refused = Reply::<TokenResponse>::Rejected { status, body: Some(body) };
            let unsent = Reply::<TokenResponse>::Unsent;
            let unread = Reply::<TokenResponse>::Undecodable;
            &&& app.sync_refreshed(oauth::refresh_result(refused, refresh_token, now), now) == (
                app,
                SyncActionView::Fail("failed to refresh Google token: "@ + line),
            )
            &&& app.sync_refreshed(oauth::refresh_result(unsent, refresh_token, now), now) == (
                app,
                SyncActionView::Fail("failed to refresh Google OAuth token"@),
            )
            &&& app.sync_refreshed(oauth::refresh_result(unread, refresh_token, now), now) == (
                app,
                SyncActionView::Fail("failed to decode Google token refresh response"@),
            )
        }),
        ({
            let line = google::google_error(status, Some(body@));
            let refused = Reply::<Vec<GoogleCalendarEvent>>::Rejected { status, body: Some(body) };
            let unsent = Reply::<Vec<GoogleCalendarEvent>>::Unsent;
            let unread = Reply::<Vec<GoogleCalendarEvent>>::Undecodable;
            &&& app.sync_fetched(token, google::fetch_result(refused), now) == (
                app,
                SyncActionView::Fail("failed to load Google Calendar events: "@ + line),
            )
            &&& app.sync_fetched(token, google::fetch_result(unsent), now) == (
                app,
                SyncActionView::Fail("failed to request Google Calendar events"@),
            )
            &&& app.sync_fetched(token, google::fetch_result(unread), now) == (
                app,
                SyncActionView::Fail("failed to decode Google Calendar events response"@),
            )
        }),
{
    google::law_only_the_answer_tells_of_lost_access(google::google_error(status, Some(body@)));
    google::law_broken_requests_are_no_lost_access();
}

/// A refusal in which the service says one of the four phrases signs out.
pub proof fn law_told_loss_of_access_signs_out(
    app: AppView,
    status: u16,
    body: String,
    refresh_token: Seq<char>,
    token: TokenView,
    now: Moment,
    i: int,
)
    requires
        google::tells_of_lost_access(google::google_error(status, Some(body@)), i),
    ensures
        ({
            let line = google::google_error(status, Some(body@));
            let renewal = Reply::<TokenResponse>::Rejected { status, body: Some(body) };
            let listing = Reply::<Vec<GoogleCalendarEvent>>::Rejected { status, body: Some(body) };
            let (one, first) = app.sync_refreshed(
                oauth::refresh_result(renewal, refresh_token, now),
                now,
            );
            let (other, second) = app.sync_fetched(token, google::fetch_result(listing), now);
            &&& first == SyncActionView::SignOut("failed to refresh Google token: "@ + line)
            &&& second == SyncActionView::SignOut(
                "failed to load Google Calendar events: "@ + line,
            )
            &&& one.persistent.token is None && other.persistent.token is None
            &&& one.persistent.google_oauth_config == app.persistent.google_oauth_config
        }),
{
    google::law_only_the_answer_tells_of_lost_access(google::google_error(status, Some(body@)));
}

/// Events that the calendar sent are the ones that are taken into the state, each as it is
/// listed.
pub proof fn law_sent_events_are_taken(
    app: AppView,
    token: TokenView,
    events: Vec<GoogleCalendarEvent>,
    now: Moment,
)
    ensures
        app.sync_fetched(
            token,
            google::fetch_result(Reply::<Vec<GoogleCalendarEvent>>::Decoded(events)),
            now,
        ).0.persistent.cached_events == google::all_listed(google::google_event_views(events@)),
        google::google_event_views(events@).len() == events@.len(),
        forall|i: int|
            0 <= i < events@.len() ==> #[trigger] google::google_event_views(events@)[i]
                == events@[i]@,
{
}

/// The view of the state holds every part of it.
pub proof fn law_state_view_holds_every_part(app: AppStateStore)
    ensures
        app@.persistent == app.persistent@,
        app.pending_auth matches Some(pending) ==> app@.pending_auth == Some(pending@),
        app.pending_auth is None ==> app@.pending_auth is None,
        app@.reminders == app.event_reminder_states@,
        app.auth_reconnect_notice matches Some(notice) ==> app@.notice == Some(notice@),
        app.auth_reconnect_notice is None ==> app@.notice is None,
{
}

} // verus!
