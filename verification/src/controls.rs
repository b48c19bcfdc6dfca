//! What the window's switches, lists and dialogs do.
use vstd::prelude::*;

use crate::network::option_view;
use crate::status::{Action, Facts, Tone};
use crate::text::{join_strings, joined, trim, trimmed, views};
use crate::time::{elapsed, Moment, Span, NANOS_PER_SEC};
use crate::window::{Install, SystemStatus};

verus! {

// ---------------------------------------------------------------------------
// Colours
// ---------------------------------------------------------------------------

/// The colours of the window, by what they mean.
#[derive(Debug, Clone, Copy, PartialEq, Eq, Structural)]
pub enum Accent {
    Good,
    Primary,
    Warn,
    Bad,
    Muted,
    Text,
    Line,
}

/// The colour of a card.
pub fn tone_accent(tone: Tone) -> (accent: Accent)
    ensures
        accent == (match tone {
            Tone::Proven => Accent::Good,
            Tone::Wait => Accent::Primary,
            Tone::Fixing => Accent::Warn,
            Tone::Action => Accent::Bad,
            Tone::Off => Accent::Muted,
        }),
{
    match tone {
        Tone::Proven => Accent::Good,
        Tone::Wait => Accent::Primary,
        Tone::Fixing => Accent::Warn,
        Tone::Action => Accent::Bad,
        Tone::Off => Accent::Muted,
    }
}

/// The colour of an install's dot: green when patched, grey when not, and barely
/// there when it is not known or there is no install.
pub fn install_accent(row: &Install) -> (accent: Accent)
    ensures
        accent == Accent::Good <==> row.path is Some && row.patched == Some(true),
        accent == Accent::Muted <==> row.path is Some && row.patched == Some(false),
        accent == Accent::Line <==> row.path is None || row.patched is None,
{
    match (&row.path, row.patched) {
        (None, _) => Accent::Line,
        (Some(_), Some(true)) => Accent::Good,
        (Some(_), Some(false)) => Accent::Muted,
        (Some(_), None) => Accent::Line,
    }
}

/// The path a click on the cross forgets: only one that was given by hand.
pub fn forgettable(row: &Install) -> (path: Option<String>)
    ensures
        option_view(path) == (if row.manual {
            option_view(row.path)
        } else {
            None
        }),
{
    if row.manual {
        match &row.path {
            Some(p) => Some(p.clone()),
            None => None,
        }
    } else {
        None
    }
}

/// The text a click on the pencil starts from: the path, where there is one.
pub fn editable(row: &Install) -> (text: String)
    ensures
        text@ == (match row.path {
            Some(p) => p@,
            None => Seq::empty(),
        }),
{
    match &row.path {
        Some(p) => p.clone(),
        None => String::new(),
    }
}

/// Whether the card counts up on its own and has to be drawn again: it does when
/// it may show an age.
pub fn counts_up(f: &Facts) -> (counts: bool)
    ensures
        counts == (f.refusal is Some || f.answer is Some),
{
    f.refusal.is_some() || f.answer.is_some()
}

/// What pressing the card's button has done.
#[derive(Debug, Clone, Copy, PartialEq, Eq, Structural)]
pub enum Command {
    /// The worker turns everything on.
    EnableAll,
    /// The worker reinstalls and restarts the service.
    Repair,
    /// This program asks to be restarted elevated.
    RequestElevation,
}

/// The command a pressed button stands for.
pub fn command_of(action: Action) -> (c: Command)
    ensures
        c == (match action {
            Action::EnableAll => Command::EnableAll,
            Action::Repair => Command::Repair,
            Action::Elevate => Command::RequestElevation,
        }),
{
    match action {
        Action::EnableAll => Command::EnableAll,
        Action::Repair => Command::Repair,
        Action::Elevate => Command::RequestElevation,
    }
}

/// For how many seconds the window says that the report was copied.
pub const COPIED_FOR: u64 = 4;

pub fn says_copied(copied_at: Option<Moment>, now: Moment) -> (says: bool)
    ensures
        says == (copied_at matches Some(at) && elapsed(at@, now@) < COPIED_FOR * NANOS_PER_SEC),
{
    match copied_at {
        Some(at) => at.elapsed(now).as_nanos() < Span::from_secs(COPIED_FOR).as_nanos(),
        None => false,
    }
}

// ---------------------------------------------------------------------------
// Switches
// ---------------------------------------------------------------------------

/// What a switch turns on and off.
#[derive(Debug, Clone, Copy, PartialEq, Eq, Structural)]
pub enum Cap {
    ClientPatch,
    Watchdog,
    Dns,
    DnsRotation,
    LocalProxy,
    BuiltinExits,
    VerifyTls,
    OwnProxy,
}

/// Whether any part of the bypass is on. The master switch is derived from this,
/// never stored, which keeps one truth instead of two.
pub fn bypass_on(status: &Option<SystemStatus>) -> (on: bool)
    ensures
        on == (status matches Some(s) && (s.dns || s.local_proxy || s.builtin_exits)),
{
    match status {
        Some(s) => s.dns || s.local_proxy || s.builtin_exits,
        None => false,
    }
}

/// The parts of the bypass in the order the master switch sets them.
pub open spec fn master_order(on: bool) -> Seq<Cap> {
    if on {
        seq![Cap::Dns, Cap::LocalProxy, Cap::BuiltinExits]
    } else {
        seq![Cap::LocalProxy, Cap::BuiltinExits, Cap::Dns]
    }
}

/// The parts of the bypass in the order the master switch sets them. On: the
/// relay has to be answering before the proxy variable may name it. Off: the
/// variable comes off before the listener it names goes away.
pub fn bypass_order(on: bool) -> (order: Vec<Cap>)
    ensures
        order@ == master_order(on),
{
    let mut order: Vec<Cap> = Vec::new();
    if on {
        order.push(Cap::Dns);
        order.push(Cap::LocalProxy);
        order.push(Cap::BuiltinExits);
    } else {
        order.push(Cap::LocalProxy);
        order.push(Cap::BuiltinExits);
        order.push(Cap::Dns);
    }
    assert(order@ == master_order(on));
    order
}

/// The proxy variable never names a listener that is not there: the DNS half,
/// whose service holds the listener, is set before the local proxy when turning
/// on, and after it when turning off. Both ways set the same parts.
pub proof fn the_proxy_never_outlives_its_listener(on: bool)
    ensures
        ({
            let order = master_order(on);
            &&& order.len() == 3
            &&& on ==> order[0] == Cap::Dns && order[1] == Cap::LocalProxy
            &&& !on ==> order[0] == Cap::LocalProxy && order[2] == Cap::Dns
        }),
        forall|c: Cap| master_order(true).contains(c) <==> master_order(false).contains(c),
{
    let a = master_order(true);
    let b = master_order(false);
    assert(a[0] == b[2] && a[1] == b[0] && a[2] == b[1]);
    assert forall|c: Cap| a.contains(c) <==> b.contains(c) by {
        if a.contains(c) {
            let i = a.index_of(c);
            assert(b.contains(a[i]));
        }
        if b.contains(c) {
            let i = b.index_of(c);
            assert(a.contains(b[i]));
        }
    }
}

/// The state of a switch: whether it is on, whether the system keeps it from
/// being moved, and the reason where the system disagrees with it.
#[derive(Debug, Clone, PartialEq, Eq)]
pub struct SwitchState {
    pub on: bool,
    pub blocked: bool,
    pub note: Option<String>,
}

/// A switch as it is drawn.
#[derive(Debug, Clone, PartialEq, Eq)]
pub struct CapRow {
    pub on: bool,
    pub enabled: bool,
    pub note: Option<String>,
    pub note_accent: Accent,
}

/// A switch as it is drawn: off before the machine has been looked at, and not to
/// be moved while something is running or the system blocks it.
pub fn cap_row(state: &Option<SwitchState>, busy: bool) -> (row: CapRow)
    ensures
        row.on == (state matches Some(s) && s.on),
        row.enabled == (!busy && !(state matches Some(s) && s.blocked)),
        option_view(row.note) == (match state {
            Some(s) => option_view(s.note),
            None => None,
        }),
        row.note_accent == (if state matches Some(s) && s.blocked {
            Accent::Warn
        } else {
            Accent::Muted
        }),
{
    match state {
        Some(s) => CapRow {
            on: s.on,
            enabled: !busy && !s.blocked,
            note: match &s.note {
                Some(n) => Some(n.clone()),
                None => None,
            },
            note_accent: if s.blocked {
                Accent::Warn
            } else {
                Accent::Muted
            },
        },
        None => CapRow { on: false, enabled: !busy, note: None, note_accent: Accent::Muted },
    }
}

// ---------------------------------------------------------------------------
// The list of providers
// ---------------------------------------------------------------------------

/// A DNS provider, by the name everything is keyed by.
#[derive(Debug, Clone, PartialEq, Eq)]
pub struct Provider {
    pub name: String,
    pub enabled: bool,
}

/// The providers as the window lists them, and whether a drag has moved one.
#[derive(Debug, Clone, PartialEq, Eq)]
pub struct ProviderList {
    pub rows: Vec<Provider>,
    pub reordering: bool,
}

/// A list with the row at `from` taken out and put back at `to`.
pub open spec fn moved<T>(rows: Seq<T>, from: int, to: int) -> Seq<T> {
    rows.remove(from).insert(to, rows[from])
}

/// Whether the provider at `i` is the first that is on.
pub open spec fn is_first_on(rows: Seq<Provider>, i: int) -> bool {
    &&& 0 <= i < rows.len()
    &&& rows[i].enabled
    &&& forall|j: int| 0 <= j < i ==> !(#[trigger] rows[j]).enabled
}

pub open spec fn names_of(rows: Seq<Provider>) -> Seq<Seq<char>> {
    rows.map_values(|p: Provider| p.name@)
}

impl ProviderList {
    /// Whether a provider is on but never asked: without rotation only the first
    /// that is on is.
    pub fn is_idle(&self, i: usize, rotating: bool) -> (idle: bool)
        requires
            i < self.rows@.len(),
        ensures
            idle == (!rotating && self.rows@[i as int].enabled && !is_first_on(
                self.rows@,
                i as int,
            )),
    {
        if rotating || !self.rows[i].enabled {
            return false;
        }
        for j in 0..i
            invariant
                i < self.rows@.len(),
                !rotating && self.rows@[i as int].enabled,
                forall|k: int| 0 <= k < j ==> !(#[trigger] self.rows@[k]).enabled,
        {
            if self.rows[j].enabled {
                assert(self.rows@[j as int].enabled);
                assert(!is_first_on(self.rows@, i as int));
                return true;
            }
        }
        false
    }

    /// A drag that started on the row at `from` is over the row at `to`: the row
    /// follows the pointer while the button is still down. True when it moved,
    /// and the drag is from `to` on from there.
    fn drag_over(&mut self, from: usize, to: usize) -> (did: bool)
        ensures
            did == moves(old(self).rows@.len(), from, to),
            final(self).rows@ == (if did {
                moved(old(self).rows@, from as int, to as int)
            } else {
                old(self).rows@
            }),
            final(self).reordering == (old(self).reordering || did),
    {
        if from == to || from >= self.rows.len() || to >= self.rows.len() {
            return false;
        }
        let row = self.rows.remove(from);
        self.rows.insert(to, row);
        self.reordering = true;
        true
    }

    fn order(&self) -> (names: Vec<String>)
        ensures
            views(names@) == names_of(self.rows@),
    {
        let mut names: Vec<String> = Vec::new();
        for i in 0..self.rows.len()
            invariant
                views(names@) == names_of(self.rows@.take(i as int)),
        {
            let ghost before = names@;
            names.push(self.rows[i].name.clone());
            assert(views(names@) == views(before).push(self.rows@[i as int].name@));
            assert(names_of(self.rows@.take(i + 1)) == names_of(self.rows@.take(i as int)).push(
                self.rows@[i as int].name@,
            ));
        }
        assert(self.rows@.take(self.rows@.len() as int) == self.rows@);
        names
    }

    /// The order to save, if a drag that moved something is over: dropped on the
    /// list, or let go of anywhere. Saved once; writing on every move would be a
    /// file write per frame of a drag.
    fn release(&mut self, dropped: bool, released: bool) -> (order: Option<Vec<String>>)
        ensures
            order is Some <==> old(self).reordering && (dropped || released),
            order matches Some(names) ==> views(names@) == names_of(old(self).rows@),
            final(self).reordering == (old(self).reordering && !dropped && !released),
            final(self).rows == old(self).rows,
    {
        if self.reordering && (dropped || released) {
            self.reordering = false;
            Some(self.order())
        } else {
            None
        }
    }

    /// Settles a frame of the list: first the row follows the pointer, then what
    /// the drag has come to is saved if it is over. `hover` is the row the drag
    /// is from and the row it is over.
    pub fn settle(
        &mut self,
        hover: Option<(usize, usize)>,
        dropped: bool,
        released: bool,
    ) -> (settled: Settled)
        ensures
            is_frame(*old(self), hover, dropped || released, *final(self), settled),
    {
        let mut dragged_to: Option<usize> = None;
        if let Some((from, to)) = hover {
            if self.drag_over(from, to) {
                dragged_to = Some(to);
            }
        }
        let order = self.release(dropped, released);
        Settled { dragged_to, order }
    }
}

/// Whether that is what a frame of the list comes to: the dragged row follows the
/// pointer, and once the drag is over the order is saved, if it moved anything.
pub open spec fn is_frame(
    before: ProviderList,
    hover: Option<(usize, usize)>,
    over: bool,
    after: ProviderList,
    settled: Settled,
) -> bool {
    let reordering = before.reordering || settled.dragged_to is Some;
    &&& settled.dragged_to == (match hover {
        Some((from, to)) if moves(before.rows@.len(), from, to) => Some(to),
        _ => None,
    })
    &&& after.rows@ == (match hover {
        Some((from, to)) if moves(before.rows@.len(), from, to) => moved(
            before.rows@,
            from as int,
            to as int,
        ),
        _ => before.rows@,
    })
    &&& settled.order is Some <==> reordering && over
    &&& after.reordering == (reordering && !over)
    &&& settled.order matches Some(names) ==> views(names@) == names_of(after.rows@)
}

/// A frame keeps every provider. The row that was dragged is found where the drag is
/// said to go on from, so a next frame over that row moves nothing. What is saved is
/// the order that is shown; it is saved by the frame that ends a drag that moved
/// something, in that frame or before, and not again by the next.
pub proof fn a_drag_is_saved_once(
    first: ProviderList,
    hover: Option<(usize, usize)>,
    over: bool,
    second: ProviderList,
    settled: Settled,
    third: ProviderList,
    later: Settled,
)
    requires
        is_frame(first, hover, over, second, settled),
        is_frame(
            second,
            match settled.dragged_to {
                Some(to) => Some((to, to)),
                None => None,
            },
            true,
            third,
            later,
        ),
    ensures
        second.rows@.to_multiset() == first.rows@.to_multiset(),
        second.rows@.len() == first.rows@.len(),
        settled.dragged_to matches Some(to) ==> hover is Some && to == (hover->0).1
            && second.rows@[to as int] == first.rows@[(hover->0).0 as int] && (hover->0).0 != to,
        settled.dragged_to is None ==> second.rows@ == first.rows@,
        third.rows@ == second.rows@ && later.dragged_to is None,
        first.reordering || second.rows@ != first.rows@ ==> settled.order is Some || later.order
            is Some,
        !(settled.order is Some && later.order is Some),
        !over ==> settled.order is None,
        !first.reordering && settled.dragged_to is None ==> settled.order is None && later.order
            is None,
        settled.order matches Some(names) ==> views(names@) == names_of(second.rows@),
        later.order matches Some(names) ==> views(names@) == names_of(second.rows@),
        !third.reordering,
{
    if let Some((from, to)) = hover {
        if moves(first.rows@.len(), from, to) {
            moving_a_row_keeps_the_rest(first.rows@, from as int, to as int);
        }
    }
}

/// What a frame of the list came to.
#[derive(Debug, Clone, PartialEq, Eq)]
pub struct Settled {
    /// Where the dragged row is now, if it moved: the drag goes on from there, or
    /// the next frame would move the row straight back.
    pub dragged_to: Option<usize>,
    /// The order to save.
    pub order: Option<Vec<String>>,
}

/// Whether a drag from one row to another moves anything.
pub open spec fn moves(len: nat, from: usize, to: usize) -> bool {
    from != to && from < len && to < len
}

/// Moving a row keeps every row, puts that one where it was dragged, and leaves
/// the others in the order they were in.
pub proof fn moving_a_row_keeps_the_rest<T>(rows: Seq<T>, from: int, to: int)
    requires
        0 <= from < rows.len(),
        0 <= to < rows.len(),
    ensures
        moved(rows, from, to).len() == rows.len(),
        moved(rows, from, to)[to] == rows[from],
        moved(rows, from, to).remove(to) == rows.remove(from),
        moved(rows, from, to).to_multiset() == rows.to_multiset(),
        moved(moved(rows, from, to), to, from) == rows,
{
    let rest = rows.remove(from);
    let after = moved(rows, from, to);
    assert(after.remove(to) == rest);
    assert(moved(after, to, from) == rows);
    assert(rest.insert(from, rows[from]) == rows);
    vstd::seq_lib::to_multiset_insert(rest, from, rows[from]);
    vstd::seq_lib::to_multiset_insert(rest, to, rows[from]);
}

/// Without rotation exactly one of the providers that are on is asked, if any is
/// on: the one that stands first.
pub proof fn one_provider_is_asked_without_rotation(rows: Seq<Provider>)
    ensures
        (exists|i: int| 0 <= i < rows.len() && (#[trigger] rows[i]).enabled) ==> exists|i: int|
            #[trigger] is_first_on(rows, i),
        forall|i: int, j: int|
            (#[trigger] is_first_on(rows, i)) && (#[trigger] is_first_on(rows, j)) ==> i == j,
        forall|i: int, j: int|
            (#[trigger] is_first_on(rows, i)) && 0 <= j < rows.len() && (#[trigger] rows[j]).enabled
                ==> i <= j && rows[i].enabled,
{
    if exists|i: int| 0 <= i < rows.len() && (#[trigger] rows[i]).enabled {
        let i = choose|i: int| 0 <= i < rows.len() && (#[trigger] rows[i]).enabled;
        lemma_first_on(rows, i);
    }
}

proof fn lemma_first_on(rows: Seq<Provider>, i: int)
    requires
        0 <= i < rows.len(),
        rows[i].enabled,
    ensures
        exists|k: int| #[trigger] is_first_on(rows, k),
    decreases i,
{
    if !is_first_on(rows, i) {
        let j = choose|j: int| 0 <= j < i && (#[trigger] rows[j]).enabled;
        lemma_first_on(rows, j);
    }
}

// ---------------------------------------------------------------------------
// The journal
// ---------------------------------------------------------------------------

/// What a line of the journal is.
#[derive(Debug, Clone, Copy, PartialEq, Eq, Structural)]
pub enum Level {
    Done,
    Warn,
    Failed,
    Step,
    Info,
}

/// The colour of a line of the journal.
pub fn level_accent(level: Level) -> (accent: Accent)
    ensures
        accent == (match level {
            Level::Done => Accent::Good,
            Level::Warn => Accent::Warn,
            Level::Failed => Accent::Bad,
            Level::Step => Accent::Text,
            Level::Info => Accent::Muted,
        }),
{
    match level {
        Level::Done => Accent::Good,
        Level::Warn => Accent::Warn,
        Level::Failed => Accent::Bad,
        Level::Step => Accent::Text,
        Level::Info => Accent::Muted,
    }
}

/// A journal line as it is drawn and copied.
pub open spec fn drawn(level: Level, line: Seq<char>) -> Seq<char> {
    if level == Level::Step {
        "— "@ + line
    } else {
        line
    }
}

/// One log line as it is drawn - and as it is copied, so that what lands on the
/// clipboard is what was on screen.
pub fn log_line(level: Level, line: &str) -> (s: String)
    ensures
        s@ == drawn(level, line@),
{
    if level == Level::Step {
        let mut s = "— ".to_owned();
        s.append(line);
        s
    } else {
        line.to_owned()
    }
}

pub open spec fn drawn_lines(log: Seq<(Level, String)>) -> Seq<Seq<char>> {
    log.map_values(|l: (Level, String)| drawn(l.0, l.1@))
}

/// The whole journal, line by line as it is drawn.
pub fn journal_text(log: &Vec<(Level, String)>) -> (text: String)
    ensures
        text@ == joined(drawn_lines(log@), "\n"@),
{
    let mut lines: Vec<String> = Vec::new();
    for i in 0..log.len()
        invariant
            views(lines@) == drawn_lines(log@.take(i as int)),
    {
        let ghost before = lines@;
        let line = log_line(log[i].0, log[i].1.as_str());
        lines.push(line);
        assert(views(lines@) == views(before).push(line@));
        assert(drawn_lines(log@.take(i + 1)) == drawn_lines(log@.take(i as int)).push(
            drawn(log@[i as int].0, log@[i as int].1@),
        ));
    }
    assert(log@.take(log@.len() as int) == log@);
    join_strings(&lines, "\n")
}

/// What was pressed over the journal.
#[derive(Debug, Clone, Copy, PartialEq, Eq, Structural)]
pub struct JournalKeys {
    /// A text field has the keyboard, and select-all belongs to it.
    pub typing: bool,
    pub select_all: bool,
    /// Copy or cut.
    pub copy: bool,
    /// Any click, or Escape.
    pub dismiss: bool,
}

/// Whether the whole journal is selected once select-all has been seen to.
pub open spec fn selected_after(selected: bool, keys: JournalKeys, has_lines: bool) -> bool {
    if keys.select_all && !keys.typing {
        has_lines
    } else {
        selected
    }
}

/// Select-all over the journal, then copy. The result is whether the journal is
/// selected from here on, and the text to copy if any: only while our own
/// selection is up, so that one made with the mouse is copied as it is.
pub fn journal_keys(selected: bool, log: &Vec<(Level, String)>, keys: JournalKeys) -> (r: (
    bool,
    Option<String>,
))
    ensures
        r.0 == (selected_after(selected, keys, log@.len() > 0) && !keys.dismiss),
        option_view(r.1) == (if selected_after(selected, keys, log@.len() > 0) && keys.copy {
            Some(joined(drawn_lines(log@), "\n"@))
        } else {
            None
        }),
{
    let mut now = selected;
    if !keys.typing && keys.select_all {
        now = log.len() > 0;
    }
    if !now {
        return (false, None);
    }
    let copied = if keys.copy {
        Some(journal_text(log))
    } else {
        None
    };
    (!keys.dismiss, copied)
}

// ---------------------------------------------------------------------------
// The path dialog
// ---------------------------------------------------------------------------

/// What is left of the dialog after a frame of it.
#[derive(Debug, Clone, PartialEq, Eq)]
pub struct PathDialog<P> {
    /// The text in it while it stays open.
    pub text: Option<String>,
    pub error: Option<String>,
    /// The install to add.
    pub add: Option<P>,
}

/// Whether there is anything to submit.
pub fn can_submit(text: &str) -> (can: bool)
    ensures
        can == (trimmed(text@).len() > 0),
{
    !trim(text).is_empty()
}

/// Settles a frame of the dialog. A submitted path that leads to an install is
/// added and closes the dialog; one that does not leaves it open with the
/// reason. Cancelling closes it, and a closed dialog keeps no error.
/// `resolved` is the install the submitted text leads to.
pub fn path_dialog<P>(
    text: String,
    error: Option<String>,
    submit: bool,
    cancel: bool,
    resolved: Option<P>,
) -> (dialog: PathDialog<P>)
    ensures
        ({
            let added = submit && resolved is Some;
            let open = !cancel && !added;
            &&& option_view(dialog.text) == (if open {
                Some(text@)
            } else {
                None
            })
            &&& dialog.add == (if added {
                resolved
            } else {
                None
            })
            &&& option_view(dialog.error) == (if !open {
                None
            } else if submit {
                Some("По этому пути установка Antigravity не найдена."@)
            } else {
                option_view(error)
            })
        }),
{
    let mut keep_open = !cancel;
    let mut error = error;
    let mut add: Option<P> = None;
    if submit {
        match resolved {
            Some(root) => {
                add = Some(root);
                error = None;
                keep_open = false;
            },
            None => {
                error = Some("По этому пути установка Antigravity не найдена.".to_owned());
            },
        }
    }
    if keep_open {
        PathDialog { text: Some(text), error, add }
    } else {
        PathDialog { text: None, error: None, add }
    }
}

/// The order that is saved names every provider, on or off, in the place it stands.
pub proof fn the_saved_order_names_every_provider(rows: Seq<Provider>)
    ensures
        names_of(rows).len() == rows.len(),
        forall|i: int| 0 <= i < rows.len() ==> #[trigger] names_of(rows)[i] == rows[i].name@,
{
}

/// A row that is moved stands where it was dragged, and every row between the two
/// places makes room by one.
pub proof fn the_rows_between_make_room<T>(rows: Seq<T>, from: int, to: int, i: int)
    requires
        0 <= from < rows.len(),
        0 <= to < rows.len(),
        0 <= i < rows.len(),
    ensures
        i == to ==> moved(rows, from, to)[i] == rows[from],
        from <= i < to ==> moved(rows, from, to)[i] == rows[i + 1],
        to < i <= from ==> moved(rows, from, to)[i] == rows[i - 1],
        (i < from && i < to) || (i > from && i > to) ==> moved(rows, from, to)[i] == rows[i],
{
}

/// A drag moves a row to any other place of the list, and to none outside it.
pub proof fn a_drag_moves_to_any_other_place(len: nat, from: usize, to: usize)
    requires
        from < len,
    ensures
        to < len && to != from ==> moves(len, from, to) && moves(len, to, from),
        to >= len ==> !moves(len, from, to) && !moves(len, to, from),
        !moves(len, from, from),
{
}

/// Select-all selects the journal whatever was selected before, unless it is empty,
/// and not while something is being typed; nothing else changes what is selected.
pub proof fn select_all_selects_the_journal(selected: bool, keys: JournalKeys, has_lines: bool)
    ensures
        keys.select_all && !keys.typing ==> selected_after(selected, keys, has_lines) == has_lines,
        !keys.select_all || keys.typing ==> selected_after(selected, keys, has_lines) == selected,
        selected_after(selected_after(selected, keys, has_lines), keys, has_lines)
            == selected_after(selected, keys, has_lines),
{
}

/// A line is drawn as it is, with nothing but a dash in front of a step; so every
/// line is drawn, and two lines of a kind that are drawn alike are the same.
pub proof fn every_line_is_drawn_as_it_is(level: Level, line: Seq<char>, other: Seq<char>)
    ensures
        level == Level::Step ==> drawn(level, line) == "— "@ + line,
        level != Level::Step ==> drawn(level, line) == line,
        drawn(level, line) == drawn(level, other) ==> line == other,
{
    if level == Level::Step && drawn(level, line) == drawn(level, other) {
        assert(line =~= drawn(level, line).skip("— "@.len() as int));
        assert(other =~= drawn(level, other).skip("— "@.len() as int));
    }
}

/// The journal has a line for each entry, in order.
pub proof fn the_journal_leaves_no_line_out(log: Seq<(Level, String)>)
    ensures
        drawn_lines(log).len() == log.len(),
        forall|i: int|
            0 <= i < log.len() ==> #[trigger] drawn_lines(log)[i] == drawn(log[i].0, log[i].1@),
{
}

} // verus!
