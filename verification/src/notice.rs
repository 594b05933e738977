//! The notice that asks the user to sign in again.

use vstd::prelude::*;

use crate::clock;
use crate::clock::{Moment, Timestamp};
use crate::reminders;
use crate::text;

verus! {

/// What the notice says first.
pub const RECONNECT_MESSAGE: &'static str = "Google Calendar の接続が無効になりました";

/// Seconds between two showings of the notice.
pub const AUTH_RECONNECT_NOTICE_INTERVAL_SECS: i64 = 600;

/// That the user has to sign in again, why, and when the notice was last shown.
#[derive(Debug)]
pub struct AuthReconnectNoticeState {
    pub detail: String,
    pub first_detected_at: Timestamp,
    pub last_shown_at: Option<Timestamp>,
}

/// A notice, as text and instants.
#[verifier::ext_equal]
pub struct NoticeView {
    pub detail: Seq<char>,
    pub first_detected_at: Moment,
    pub last_shown_at: Option<Moment>,
}

impl View for AuthReconnectNoticeState {
    type V = NoticeView;

    open spec fn view(&self) -> NoticeView {
        NoticeView {
            detail: self.detail@,
            first_detected_at: self.first_detected_at@,
            last_shown_at: clock::opt_moment(self.last_shown_at),
        }
    }
}

/// The view of an optional notice.
pub open spec fn opt_notice(notice: Option<AuthReconnectNoticeState>) -> Option<NoticeView> {
    match notice {
        Some(notice) => Some(notice@),
        None => None,
    }
}

/// What the windows of the notice are told.
#[derive(Debug)]
pub struct AuthReconnectNoticePayload {
    pub message: String,
    pub detail: Option<String>,
    pub first_detected_at: String,
    pub last_shown_at: Option<String>,
}

/// What the windows of the notice are told, as texts.
#[verifier::ext_equal]
pub struct NoticePayloadView {
    pub message: Seq<char>,
    pub detail: Option<Seq<char>>,
    pub first_detected_at: Seq<char>,
    pub last_shown_at: Option<Seq<char>>,
}

impl View for AuthReconnectNoticePayload {
    type V = NoticePayloadView;

    open spec fn view(&self) -> NoticePayloadView {
        NoticePayloadView {
            message: self.message@,
            detail: text::opt_text(self.detail),
            first_detected_at: self.first_detected_at@,
            last_shown_at: text::opt_text(self.last_shown_at),
        }
    }
}

impl NoticeView {
    /// What the windows of the notice are told.
    pub open spec fn payload(self) -> NoticePayloadView {
        NoticePayloadView {
            message: RECONNECT_MESSAGE@,
            detail: Some(self.detail),
            first_detected_at: clock::moment_text(self.first_detected_at),
            last_shown_at: reminders::opt_moment_text(self.last_shown_at),
        }
    }

    /// The notice has not been shown yet, or not for the whole interval before `now`.
    pub open spec fn due(self, now: Moment) -> bool {
        match self.last_shown_at {
            None => true,
            Some(last) => clock::nanos_between(now, last) >= AUTH_RECONNECT_NOTICE_INTERVAL_SECS
                * 1_000_000_000,
        }
    }

    /// The notice after it was shown at `now`.
    pub open spec fn shown(self, now: Moment) -> NoticeView {
        NoticeView { last_shown_at: Some(now), ..self }
    }
}

impl AuthReconnectNoticeState {
    /// A notice that has not been shown yet.
    pub fn new(detail: &str, now: &Timestamp) -> (r: AuthReconnectNoticeState)
        ensures
            r@ == (NoticeView { detail: detail@, first_detected_at: now@, last_shown_at: None }),
    {
        AuthReconnectNoticeState {
            detail: detail.to_string(),
            first_detected_at: *now,
            last_shown_at: None,
        }
    }

    /// What the windows of the notice are told.
    pub fn to_payload(&self) -> (r: AuthReconnectNoticePayload)
        ensures
            r@ == self@.payload(),
    {
        AuthReconnectNoticePayload {
            message: RECONNECT_MESSAGE.to_string(),
            detail: Some(self.detail.clone()),
            first_detected_at: self.first_detected_at.to_rfc3339(),
            last_shown_at: reminders::opt_rfc3339(&self.last_shown_at),
        }
    }

    /// Whether it is time to show the notice.
    pub fn is_due(&self, now: &Timestamp) -> (r: bool)
        ensures
            r == self@.due(now@),
    {
        match &self.last_shown_at {
            None => true,
            Some(last) => now.nanos_since(last) >= (AUTH_RECONNECT_NOTICE_INTERVAL_SECS as i128)
                * 1_000_000_000,
        }
    }

    /// Notes that the notice was shown at `now`.
    pub fn mark_shown(&mut self, now: &Timestamp)
        ensures
            final(self)@ == old(self)@.shown(now@),
    {
        self.last_shown_at = Some(*now);
    }
}

/// The notice opens: there is one, no window of it stands open, and it is due.
pub open spec fn notice_opens(
    notice: Option<NoticeView>,
    window_is_open: bool,
    now: Moment,
) -> bool {
    !window_is_open && match notice {
        Some(notice) => notice.due(now),
        None => false,
    }
}

/// Whether the notice opens.
pub fn should_open_notice(
    notice: &Option<AuthReconnectNoticeState>,
    window_is_open: bool,
    now: &Timestamp,
) -> (r: bool)
    ensures
        r == notice_opens(opt_notice(*notice), window_is_open, now@),
{
    if window_is_open {
        return false;
    }
    match notice {
        Some(notice) => notice.is_due(now),
        None => false,
    }
}

/// Once shown, the notice waits: it is due again exactly when ten minutes have passed.
pub proof fn law_notice_waits_between_showings(notice: NoticeView, shown_at: Moment, now: Moment)
    ensures
        notice.shown(shown_at).due(now) <==> clock::nanos_between(now, shown_at) >= 600
            * 1_000_000_000,
{
}

/// A notice that has not been shown opens at once; no notice opens while a window of it stands
/// open, nor without one being up.
pub proof fn law_notice_opens_one_at_a_time(notice: NoticeView, now: Moment)
    ensures
        notice.last_shown_at is None ==> notice_opens(Some(notice), false, now),
        !notice_opens(Some(notice), true, now),
        !notice_opens(None, false, now),
        !notice_opens(None, true, now),
{
}

/// A notice that was shown opens again exactly after ten minutes, where no window of it stands
/// open. Showing it changes nothing but the time of the showing.
pub proof fn law_showing_changes_only_its_time(notice: NoticeView, shown_at: Moment, now: Moment)
    ensures
        notice_opens(Some(notice.shown(shown_at)), false, now) <==> clock::nanos_between(
            now,
            shown_at,
        ) >= 600_000_000_000,
        notice.shown(shown_at).detail == notice.detail,
        notice.shown(shown_at).first_detected_at == notice.first_detected_at,
        notice.shown(shown_at).last_shown_at == Some(shown_at),
{
}

/// The windows of a notice are told the message, why, since when and when last.
pub proof fn law_notice_tells_why_and_when(notice: NoticeView)
    ensures
        notice.payload().message == "Google Calendar の接続が無効になりました"@,
        notice.payload().detail == Some(notice.detail),
        notice.payload().first_detected_at == clock::rfc3339_text(
            notice.first_detected_at.secs as i64,
            notice.first_detected_at.nanos as u32,
        ),
        notice.last_shown_at matches Some(t) ==> notice.payload().last_shown_at == Some(
            clock::rfc3339_text(t.secs as i64, t.nanos as u32),
        ),
        notice.last_shown_at is None ==> notice.payload().last_shown_at is None,
{
}

} // verus!
