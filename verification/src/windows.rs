//! The windows of the application: their labels and pages and the places
//! of reminder windows on the screen.

use vstd::prelude::*;

use crate::clock;
use crate::reminders;
use crate::reminders::{EventReminderRecord, RecordView, Reminders};
use crate::text;

verus! {

/// How the labels of reminder windows begin.
pub const REMINDER_WINDOW_PREFIX: &'static str = "reminder-display-";

/// How the labels of the windows that ask for a new sign-in begin.
pub const AUTH_RECONNECT_NOTICE_WINDOW_PREFIX: &'static str = "auth-reconnect-notice-";

/// How the ids of the menu items that open the developer tools begin.
pub const DEVTOOLS_MENU_ID_PREFIX: &'static str = "window-devtools:";

/// The tray item that shows the settings.
pub const TRAY_OPEN_ID: &'static str = "tray-open";

/// The tray item that ends the application.
pub const TRAY_QUIT_ID: &'static str = "tray-quit";

/// Seconds between two looks at the calendar.
pub const POLL_INTERVAL_SECS: u64 = 30;

/// A character as a window label can hold it.
pub open spec fn label_char(c: char) -> char {
    if text::ascii_alphanumeric(c) || c == '-' {
        c
    } else {
        '_'
    }
}

/// A text as a window label can hold it.
pub open spec fn label_text(s: Seq<char>) -> Seq<char> {
    s.map_values(|c: char| label_char(c))
}

/// The text as a window label can hold it.
pub fn sanitize_for_window_label(s: &str) -> (r: String)
    ensures
        r@ == label_text(s@),
{
    let v = text::chars_of(s);
    let mut r = String::new();
    let mut i: usize = 0;
    while i < v.len()
        invariant
            v@ == s@,
            i <= v@.len(),
            r@ == label_text(s@.take(i as int)),
        decreases v@.len() - i,
    {
        let c = v[i];
        if text::is_ascii_alphanumeric(c) || c == '-' {
            r.push(c);
        } else {
            r.push('_');
        }
        i = i + 1;
        assert(r@ =~= label_text(s@.take(i as int)));
    }
    assert(s@.take(i as int) =~= s@);
    r
}

/// The label of the window of an event on a monitor.
pub open spec fn event_label(event_id: Seq<char>, monitor: nat) -> Seq<char> {
    REMINDER_WINDOW_PREFIX@ + label_text(event_id) + "_"@ + text::decimal_digits(monitor)
}

/// The label of the window of an event on a monitor.
pub fn event_window_label(event_id: &str, monitor_index: usize) -> (r: String)
    ensures
        r@ == event_label(event_id@, monitor_index as nat),
{
    let mut r = REMINDER_WINDOW_PREFIX.to_string();
    r.append(sanitize_for_window_label(event_id).as_str());
    r.append("_");
    r.append(text::decimal(monitor_index).as_str());
    r
}

/// The labels of the windows of an event, one for each monitor.
pub open spec fn event_labels(event_id: Seq<char>, monitors: nat) -> Seq<Seq<char>> {
    Seq::new(monitors, |i: int| event_label(event_id, i as nat))
}

/// The labels of the windows of an event, one for each monitor.
pub fn event_window_labels(event_id: &str, monitors: usize) -> (r: Vec<String>)
    ensures
        text::texts(r@) == event_labels(event_id@, monitors as nat),
{
    let mut r: Vec<String> = Vec::new();
    let mut i: usize = 0;
    assert(text::texts(r@) =~= event_labels(event_id@, 0));
    while i < monitors
        invariant
            i <= monitors,
            text::texts(r@) == event_labels(event_id@, i as nat),
        decreases monitors - i,
    {
        let ghost before = text::texts(r@);
        let label = event_window_label(event_id, i);
        r.push(label);
        i = i + 1;
        assert(text::texts(r@) =~= before.push(label@));
        assert(text::texts(r@) =~= event_labels(event_id@, i as nat));
    }
    r
}

/// The label of the notice on a monitor.
pub open spec fn notice_label(monitor: nat) -> Seq<char> {
    AUTH_RECONNECT_NOTICE_WINDOW_PREFIX@ + text::decimal_digits(monitor)
}

/// The label of the notice on a monitor.
pub fn auth_reconnect_notice_window_label(monitor_index: usize) -> (r: String)
    ensures
        r@ == notice_label(monitor_index as nat),
{
    let mut r = AUTH_RECONNECT_NOTICE_WINDOW_PREFIX.to_string();
    r.append(text::decimal(monitor_index).as_str());
    r
}

/// The labels of the windows of the notice, one for each monitor.
pub open spec fn notice_labels(monitors: nat) -> Seq<Seq<char>> {
    Seq::new(monitors, |i: int| notice_label(i as nat))
}

/// The labels of the windows of the notice, one for each monitor.
pub fn notice_window_labels(monitors: usize) -> (r: Vec<String>)
    ensures
        text::texts(r@) == notice_labels(monitors as nat),
{
    let mut r: Vec<String> = Vec::new();
    let mut i: usize = 0;
    assert(text::texts(r@) =~= notice_labels(0));
    while i < monitors
        invariant
            i <= monitors,
            text::texts(r@) == notice_labels(i as nat),
        decreases monitors - i,
    {
        let ghost before = text::texts(r@);
        let label = auth_reconnect_notice_window_label(i);
        r.push(label);
        i = i + 1;
        assert(text::texts(r@) =~= before.push(label@));
        assert(text::texts(r@) =~= notice_labels(i as nat));
    }
    r
}

/// The labels that begin with a prefix, in their order.
pub open spec fn labels_with(labels: Seq<Seq<char>>, prefix: Seq<char>) -> Seq<Seq<char>> {
    labels.filter(|label: Seq<char>| prefix.is_prefix_of(label))
}

/// The labels that begin with a prefix, in their order.
fn labels_with_prefix(labels: &Vec<String>, prefix: &str) -> (r: Vec<String>)
    ensures
        text::texts(r@) == labels_with(text::texts(labels@), prefix@),
{
    let ghost all = text::texts(labels@);
    let ghost pred = |label: Seq<char>| prefix@.is_prefix_of(label);
    let mut r: Vec<String> = Vec::new();
    let mut i: usize = 0;
    proof {
        reveal(Seq::filter);
        assert(text::texts(r@) =~= all.take(0).filter(pred));
    }
    while i < labels.len()
        invariant
            i <= labels@.len(),
            all == text::texts(labels@),
            pred == (|label: Seq<char>| prefix@.is_prefix_of(label)),
            text::texts(r@) == all.take(i as int).filter(pred),
        decreases labels@.len() - i,
    {
        let ghost before = text::texts(r@);
        let label = &labels[i];
        proof {
            assert(all.take(i + 1) =~= all.take(i as int).push(label@));
            all.take(i as int).lemma_filter_push(label@, pred);
        }
        if text::begins_with(label.as_str(), prefix) {
            let copy = label.clone();
            r.push(copy);
            assert(text::texts(r@) =~= before.push(label@));
        }
        i = i + 1;
    }
    assert(all.take(i as int) =~= all);
    r
}

/// The labels of reminder windows among all labels.
pub fn reminder_window_labels(labels: &Vec<String>) -> (r: Vec<String>)
    ensures
        text::texts(r@) == labels_with(text::texts(labels@), REMINDER_WINDOW_PREFIX@),
{
    labels_with_prefix(labels, REMINDER_WINDOW_PREFIX)
}

/// The labels of the windows that ask for a new sign-in among all labels.
pub fn auth_reconnect_notice_window_labels(labels: &Vec<String>) -> (r: Vec<String>)
    ensures
        text::texts(r@) == labels_with(text::texts(labels@), AUTH_RECONNECT_NOTICE_WINDOW_PREFIX@),
{
    labels_with_prefix(labels, AUTH_RECONNECT_NOTICE_WINDOW_PREFIX)
}

/// The page that a reminder window shows.
pub open spec fn reminder_page_of(event_id: Seq<char>) -> Seq<char> {
    "index.html?view=reminder&event_id="@ + event_id
}

/// The page that a reminder window shows.
pub fn reminder_page(event_id: &str) -> (r: String)
    ensures
        r@ == reminder_page_of(event_id@),
{
    let mut r = "index.html?view=reminder&event_id=".to_string();
    r.append(event_id);
    r
}

/// The id of the menu item that opens the developer tools of a window.
pub open spec fn devtools_id(label: Seq<char>) -> Seq<char> {
    DEVTOOLS_MENU_ID_PREFIX@ + label
}

/// The id of the menu item that opens the developer tools of a window.
pub fn devtools_menu_id(window_label: &str) -> (r: String)
    ensures
        r@ == devtools_id(window_label@),
{
    let mut r = DEVTOOLS_MENU_ID_PREFIX.to_string();
    r.append(window_label);
    r
}

/// The window whose developer tools a menu item opens.
pub open spec fn devtools_window(menu_id: Seq<char>) -> Option<Seq<char>> {
    if DEVTOOLS_MENU_ID_PREFIX@.is_prefix_of(menu_id) {
        Some(menu_id.skip(DEVTOOLS_MENU_ID_PREFIX@.len() as int))
    } else {
        None
    }
}

/// The window whose developer tools a menu item opens.
pub fn devtools_target(menu_id: &str) -> (r: Option<String>)
    ensures
        text::opt_text(r) == devtools_window(menu_id@),
{
    text::after_prefix(menu_id, DEVTOOLS_MENU_ID_PREFIX)
}

/// What a tray item asks for.
#[derive(Debug, Clone, Copy, PartialEq, Eq, Structural)]
pub enum TrayAction {
    Open,
    Quit,
    Ignore,
}

/// What a tray item asks for.
pub open spec fn tray_action_of(menu_id: Seq<char>) -> TrayAction {
    if menu_id == TRAY_OPEN_ID@ {
        TrayAction::Open
    } else if menu_id == TRAY_QUIT_ID@ {
        TrayAction::Quit
    } else {
        TrayAction::Ignore
    }
}

/// What a tray item asks for.
pub fn tray_action(menu_id: &str) -> (r: TrayAction)
    ensures
        r == tray_action_of(menu_id@),
{
    if text::same_text(menu_id, TRAY_OPEN_ID) {
        TrayAction::Open
    } else if text::same_text(menu_id, TRAY_QUIT_ID) {
        TrayAction::Quit
    } else {
        TrayAction::Ignore
    }
}

/// What a request to close the main window leads to.
#[derive(Debug, Clone, Copy, PartialEq, Eq, Structural)]
pub enum CloseAction {
    /// The window closes.
    Close,
    /// The window is hidden, and the application goes on.
    Hide,
}

/// Says what a request to close the main window leads to: it closes only when the application
/// ends.
pub fn close_action(is_quitting: bool) -> (r: CloseAction)
    ensures
        r == if is_quitting {
            CloseAction::Close
        } else {
            CloseAction::Hide
        },
{
    if is_quitting {
        CloseAction::Close
    } else {
        CloseAction::Hide
    }
}

/// `slot` is the place of the event among the records: that of its first record, or the
/// first place where it has none.
pub open spec fn slot_among(records: Seq<RecordView>, event_id: Seq<char>, slot: int) -> bool {
    if reminders::records_event(records, event_id) {
        &&& 0 <= slot < records.len()
        &&& records[slot].event_id == event_id
        &&& forall|j: int| 0 <= j < slot ==> #[trigger] records[j].event_id != event_id
    } else {
        slot == 0
    }
}

/// The place of an event among the records.
pub fn slot_in(active: &Vec<EventReminderRecord>, event_id: &str) -> (r: usize)
    ensures
        slot_among(reminders::record_views(active@), event_id@, r as int),
{
    let ghost views = reminders::record_views(active@);
    let mut i: usize = 0;
    while i < active.len()
        invariant
            i <= active@.len(),
            views == reminders::record_views(active@),
            forall|j: int| 0 <= j < i ==> #[trigger] views[j].event_id != event_id@,
        decreases active@.len() - i,
    {
        if text::same_text(active[i].event_id.as_str(), event_id) {
            assert(views[i as int].event_id == event_id@);
            return i;
        }
        i = i + 1;
    }
    0
}

/// A character that a window label may hold.
pub open spec fn valid_in_label(c: char) -> bool {
    text::ascii_alphanumeric(c) || c == '-' || c == '_'
}

/// Whatever the id of the event, the label of its window holds only ASCII letters, digits,
/// `-` and `_`.
pub proof fn law_event_label_is_valid(event_id: Seq<char>, monitor: nat)
    ensures
        forall|i: int|
            0 <= i < event_label(event_id, monitor).len() ==> valid_in_label(
                #[trigger] event_label(event_id, monitor)[i],
            ),
{
    reveal_strlit("reminder-display-");
    reveal_strlit("_");
    text::lemma_decimal_shape(monitor);
    let prefix = REMINDER_WINDOW_PREFIX@;
    let name = label_text(event_id);
    let label = event_label(event_id, monitor);
    assert forall|i: int| 0 <= i < label.len() implies valid_in_label(#[trigger] label[i]) by {
        if i < prefix.len() {
            assert(label[i] == prefix[i]);
            lemma_prefix_is_valid(i);
        } else if i < prefix.len() + name.len() {
            assert(label[i] == name[i - prefix.len()]);
        } else if i == prefix.len() + name.len() {
            assert(label[i] == "_"@[0]);
        } else {
            assert(label[i] == text::decimal_digits(monitor)[i - prefix.len() - name.len() - 1]);
        }
    }
}

proof fn lemma_prefix_is_valid(i: int)
    requires
        0 <= i < REMINDER_WINDOW_PREFIX@.len(),
    ensures
        valid_in_label(REMINDER_WINDOW_PREFIX@[i]),
{
    reveal_strlit("reminder-display-");
    let p = REMINDER_WINDOW_PREFIX@;
    assert(p.len() == 17);
    assert(p[0] == 'r' && p[1] == 'e' && p[2] == 'm' && p[3] == 'i' && p[4] == 'n' && p[5] == 'd'
        && p[6] == 'e' && p[7] == 'r' && p[8] == '-' && p[9] == 'd' && p[10] == 'i' && p[11] == 's'
        && p[12] == 'p' && p[13] == 'l' && p[14] == 'a' && p[15] == 'y' && p[16] == '-');
}

/// Two reminder windows have the same label exactly when they are on the same monitor and
/// their events have the same id as far as a label can tell.
pub proof fn law_event_labels_differ(a: Seq<char>, i: nat, b: Seq<char>, j: nat)
    ensures
        event_label(a, i) == event_label(b, j) <==> (label_text(a) == label_text(b) && i == j),
{
    reveal_strlit("_");
    text::lemma_decimal_shape(i);
    text::lemma_decimal_shape(j);
    text::lemma_decimal_injective(i, j);
    let x = event_label(a, i);
    let y = event_label(b, j);
    let p = REMINDER_WINDOW_PREFIX@.len() as int;
    let m = text::decimal_digits(i).len() as int;
    let n = text::decimal_digits(j).len() as int;
    let dx = x.len() - m;
    let dy = y.len() - n;
    assert(x[dx - 1] == '_');
    assert(y[dy - 1] == '_');
    if x == y {
        if m < n {
            assert(y[dx - 1] == text::decimal_digits(j)[dx - 1 - dy]);
        }
        if n < m {
            assert(x[dy - 1] == text::decimal_digits(i)[dy - 1 - dx]);
        }
        assert(x.skip(dx) =~= text::decimal_digits(i));
        assert(y.skip(dy) =~= text::decimal_digits(j));
        assert(x.subrange(p, dx - 1) =~= label_text(a));
        assert(y.subrange(p, dy - 1) =~= label_text(b));
    }
}

/// Notices on different monitors have different labels.
pub proof fn law_notice_labels_differ(i: nat, j: nat)
    ensures
        notice_label(i) == notice_label(j) <==> i == j,
{
    text::lemma_decimal_injective(i, j);
    let p = AUTH_RECONNECT_NOTICE_WINDOW_PREFIX@.len() as int;
    assert(notice_label(i).skip(p) =~= text::decimal_digits(i));
    assert(notice_label(j).skip(p) =~= text::decimal_digits(j));
}

/// Every monitor has a reminder window and a notice of its own: there are as many of each as
/// there are monitors, and no two have the same label.
pub proof fn law_every_monitor_has_its_window(event_id: Seq<char>, monitors: nat)
    ensures
        event_labels(event_id, monitors).len() == monitors,
        event_labels(event_id, monitors).no_duplicates(),
        notice_labels(monitors).len() == monitors,
        notice_labels(monitors).no_duplicates(),
{
    let shown = event_labels(event_id, monitors);
    let notices = notice_labels(monitors);
    assert forall|i: int, j: int|
        0 <= i < shown.len() && 0 <= j < shown.len() && i != j implies shown[i]
        != shown[j] by {
        law_event_labels_differ(event_id, i as nat, event_id, j as nat);
    }
    assert forall|i: int, j: int|
        0 <= i < notices.len() && 0 <= j < notices.len() && i != j implies notices[i]
        != notices[j] by {
        law_notice_labels_differ(i as nat, j as nat);
    }
}

/// Closing all reminder windows reaches each of them and no notice; closing all notices
/// reaches each of them and no reminder window.
pub proof fn law_windows_are_told_apart(
    labels: Seq<Seq<char>>,
    event_id: Seq<char>,
    monitor: nat,
)
    ensures
        labels.contains(event_label(event_id, monitor)) <==> labels_with(
            labels,
            REMINDER_WINDOW_PREFIX@,
        ).contains(event_label(event_id, monitor)),
        labels.contains(notice_label(monitor)) <==> labels_with(
            labels,
            AUTH_RECONNECT_NOTICE_WINDOW_PREFIX@,
        ).contains(notice_label(monitor)),
        !labels_with(labels, REMINDER_WINDOW_PREFIX@).contains(notice_label(monitor)),
        !labels_with(labels, AUTH_RECONNECT_NOTICE_WINDOW_PREFIX@).contains(
            event_label(event_id, monitor),
        ),
{
    reveal_strlit("reminder-display-");
    reveal_strlit("auth-reconnect-notice-");
    let r = REMINDER_WINDOW_PREFIX@;
    let n = AUTH_RECONNECT_NOTICE_WINDOW_PREFIX@;
    let reminder = event_label(event_id, monitor);
    let notice = notice_label(monitor);
    assert(reminder.take(r.len() as int) =~= r);
    assert(notice.take(n.len() as int) =~= n);
    assert(reminder[0] == 'r' && notice[0] == 'a');
    lemma_labels_with(labels, r, reminder);
    lemma_labels_with(labels, r, notice);
    lemma_labels_with(labels, n, reminder);
    lemma_labels_with(labels, n, notice);
}

/// A label is picked exactly when it is there and begins with the prefix.
proof fn lemma_labels_with(labels: Seq<Seq<char>>, prefix: Seq<char>, label: Seq<char>)
    ensures
        labels_with(labels, prefix).contains(label) <==> labels.contains(label)
            && prefix.is_prefix_of(label),
{
    let pred = |l: Seq<char>| prefix.is_prefix_of(l);
    broadcast use vstd::seq_lib::group_filter_ensures;

    let picked = labels.filter(pred);
    if picked.contains(label) {
        let i = picked.index_of(label);
        assert(pred(picked[i]));
        labels.lemma_filter_contains_rev(pred, label);
    }
    if labels.contains(label) && prefix.is_prefix_of(label) {
        let i = labels.index_of(label);
        assert(pred(labels[i]));
        labels.lemma_filter_contains(pred, i);
    }
}

/// The menu item made for a window opens the developer tools of that window.
pub proof fn law_devtools_item_finds_its_window(label: Seq<char>)
    ensures
        devtools_window(devtools_id(label)) == Some(label),
{
    let p = DEVTOOLS_MENU_ID_PREFIX@;
    assert(devtools_id(label).take(p.len() as int) =~= p);
    assert(devtools_id(label).skip(p.len() as int) =~= label);
}

/// Windows of different events that stand open have different places, all of them above the
/// place behind the last one, and what starts earlier has the smaller place.
pub proof fn law_slots_differ(
    book: Reminders,
    showing: Seq<RecordView>,
    a: Seq<char>,
    b: Seq<char>,
    slot_a: int,
    slot_b: int,
)
    requires
        reminders::lists_showing(book, showing),
        reminders::ordered_by_start(showing),
        book.contains_key(a) && book[a].display_state.shows(),
        book.contains_key(b) && book[b].display_state.shows(),
        a != b,
        slot_among(showing, a, slot_a),
        slot_among(showing, b, slot_b),
    ensures
        slot_a != slot_b,
        0 <= slot_a < showing.len(),
        0 <= slot_b < showing.len(),
        !clock::not_after(book[b].start_at, book[a].start_at) ==> slot_a < slot_b,
{
    assert(reminders::records_event(showing, a));
    assert(reminders::records_event(showing, b));
    assert(book.get(showing[slot_a].event_id) == Some(showing[slot_a]));
    assert(book.get(showing[slot_b].event_id) == Some(showing[slot_b]));
    if slot_b < slot_a {
        assert(clock::not_after(showing[slot_b].start_at, showing[slot_a].start_at));
    }
}

/// The notice stands behind every reminder whose window stands open.
pub proof fn law_notice_stands_behind_reminders(
    book: Reminders,
    showing: Seq<RecordView>,
    event_id: Seq<char>,
    slot: int,
)
    requires
        reminders::lists_showing(book, showing),
        book.contains_key(event_id) && book[event_id].display_state.shows(),
        slot_among(showing, event_id, slot),
    ensures
        slot < reminders::showing_events(book).len(),
{
    assert(reminders::records_event(showing, event_id));
    reminders::lemma_showing_count(book, showing);
}

/// A label keeps the ASCII letters, the digits and `-` of an id in their places, and holds `_` in
/// all others.
pub proof fn law_label_keeps_letters_and_digits(id: Seq<char>, i: int)
    requires
        0 <= i < id.len(),
    ensures
        label_text(id).len() == id.len(),
        text::ascii_alphanumeric(id[i]) || id[i] == '-' ==> label_text(id)[i] == id[i],
        !text::ascii_alphanumeric(id[i]) && id[i] != '-' ==> label_text(id)[i] == '_',
{
}

/// A tray item opens the settings or ends the application by its id, and any other does nothing.
pub proof fn law_tray_items(menu_id: Seq<char>)
    ensures
        tray_action_of(menu_id) == TrayAction::Open <==> menu_id == "tray-open"@,
        tray_action_of(menu_id) == TrayAction::Quit <==> menu_id == "tray-quit"@,
{
    reveal_strlit("tray-open");
    reveal_strlit("tray-quit");
    assert("tray-open"@[5] != "tray-quit"@[5]);
}

/// A menu item whose id is not that of a developer-tools item opens no developer tools.
pub proof fn law_other_menu_items_open_no_tools(menu_id: Seq<char>)
    ensures
        devtools_window(menu_id) matches Some(label) ==> menu_id == "window-devtools:"@ + label,
        devtools_window(menu_id) is None ==> !"window-devtools:"@.is_prefix_of(menu_id),
{
    if let Some(label) = devtools_window(menu_id) {
        assert(menu_id =~= "window-devtools:"@ + label);
    }
}

/// The page of a reminder window is told the id of its event, as it is.
pub proof fn law_reminder_page_names_its_event(event_id: Seq<char>)
    ensures
        reminder_page_of(event_id) == "index.html?view=reminder&event_id="@ + event_id,
{
}

/// A label names its kind of window, the event and the number of the monitor.
pub proof fn law_labels_name_event_and_monitor(event_id: Seq<char>, monitor: nat, i: int)
    ensures
        event_label(event_id, monitor) == "reminder-display-"@ + label_text(event_id) + "_"@
            + text::decimal_digits(monitor),
        notice_label(monitor) == "auth-reconnect-notice-"@ + text::decimal_digits(monitor),
        0 <= i < monitor ==> event_labels(event_id, monitor)[i] == event_label(event_id, i as nat),
        0 <= i < monitor ==> notice_labels(monitor)[i] == notice_label(i as nat),
{
}

/// Closing all windows of a kind reaches exactly the open windows whose labels begin as that
/// kind's do.
pub proof fn law_only_windows_of_the_kind_are_reached(labels: Seq<Seq<char>>, label: Seq<char>)
    ensures
        labels_with(labels, REMINDER_WINDOW_PREFIX@).contains(label) <==> labels.contains(label)
            && label.len() >= 17 && label.take(17) == "reminder-display-"@,
        labels_with(labels, AUTH_RECONNECT_NOTICE_WINDOW_PREFIX@).contains(label)
            <==> labels.contains(label) && label.len() >= 22 && label.take(22)
            == "auth-reconnect-notice-"@,
{
    reveal_strlit("reminder-display-");
    reveal_strlit("auth-reconnect-notice-");
    lemma_labels_with(labels, "reminder-display-"@, label);
    lemma_labels_with(labels, "auth-reconnect-notice-"@, label);
    if label.len() >= 17 {
        assert(label.take(17) =~= label.subrange(0, 17));
    }
    if label.len() >= 22 {
        assert(label.take(22) =~= label.subrange(0, 22));
    }
}

/// An event that has no window open is given the first place.
pub proof fn law_place_without_a_window(showing: Seq<RecordView>, event_id: Seq<char>, slot: int)
    requires
        slot_among(showing, event_id, slot),
        forall|k: int| 0 <= k < showing.len() ==> #[trigger] showing[k].event_id != event_id,
    ensures
        slot == 0,
{
}

} // verus!
