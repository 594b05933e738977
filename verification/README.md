# Rokind Reminder

A desktop program that stays in the tray, looks at the primary Google calendar every thirty
seconds, and shows a reminder on every display: five minutes before an event starts, and again
once it has started. The logic is a library whose behaviour is stated in contracts and proved
with Verus; the program around it is ordinary Rust on Tauri.

## The library (`src/`)

| module | what it holds |
| --- | --- |
| `text` | characters and texts: trimming, searching, splitting, decimal notation |
| `clock` | instants of UTC, as `chrono` counts them, leap seconds included |
| `state` | what is saved, the tokens, the listed events, the sign-in under way |
| `config` | the credentials of the OAuth client: embedded, saved, in effect |
| `google` | the events and errors that the services send, and the meeting links in events |
| `oauth` | the sign-in page, the way back from it, and the tokens |
| `reminders` | which windows a look at the calendar opens, turns over and closes |
| `notice` | the notice that asks the user to sign in again |
| `windows` | labels, pages and places of windows |
| `session` | the state of the running program and everything that changes it |
| `reminder_laws`, `session_laws` | what holds across looks at the calendar and across the life of a session |

Every type has a view: texts are sequences of characters, the announced events are a map from
event id to record, and the state of the program is one record of these. A method that changes
the state says what the new view is in terms of the old one. Sign-in and calendar look are
state machines: a step takes the answer to the last request and says which request comes next.

What the library has from other crates stands behind small wrappers at the places that need
them: `chrono` for instants, `regex` for links in running text, `serde_json` and `reqwest` for
error responses, `rand`, `sha2` and `base64` for the sign-in, `url` for queries. The comment
above each wrapper says what is claimed of the crate.

## The program (`app/`)

`main` and the commands of the settings screen, requests to the services, the saved file,
windows, tray icon and the polling loop. Values that are saved or sent have serialisable
twins in `wire.rs`.

## Credentials

`GOOGLE_CLIENT_ID`, `GOOGLE_CLIENT_SECRET` and `ROKIND_OAUTH_CONFIG_SOURCE` are read from the
environment of the build. What a build embeds is never written to the saved state; only
credentials that the user enters are.
