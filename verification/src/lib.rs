//! The logic of Rokind Reminder, a desktop program that stays in the tray, watches a Google
//! calendar and shows a reminder on every display five minutes before an event starts and
//! again once it has started.

pub mod clock;
pub mod config;
pub mod google;
pub mod notice;
pub mod oauth;
pub mod reminder_laws;
pub mod reminders;
pub mod session;
pub mod session_laws;
pub mod state;
pub mod text;
pub mod windows;
