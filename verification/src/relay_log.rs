//! What the relay writes to its log.
//!
//! A background process with no console is otherwise impossible to diagnose.
//! The file is truncated rather than rotated, and every line is stamped.
use vstd::prelude::*;

use crate::text::{
    decimal, join_strs, joined, pad, padded, push_decimal, push_two_digits, str_views, two_digits,
};
use crate::time::Span;

verus! {

/// Where the NRPT rules point. Any 127.0.0.0/8 address works; .53 keeps it
/// recognisable and clear of anything bound to 127.0.0.1.
pub const LISTEN_IP: &'static str = "127.0.0.53";

pub const LISTEN_PORT: u16 = 53;

/// Beyond this many bytes the log starts over.
pub const LOG_LIMIT_BYTES: u64 = 64 * 1024;

/// What an answer turned out to be.
#[derive(Debug, Clone, Copy, PartialEq, Eq, Structural)]
pub enum Verdict {
    /// The address was substituted, so the region gate is being defeated.
    Substituted,
    /// A sibling's address came back.
    Sibling,
    /// The genuine address came back.
    Passthrough,
    /// There was no reference to judge by.
    Unknown,
}

impl Verdict {
    pub open spec fn tag(self) -> Seq<char> {
        match self {
            Verdict::Substituted => "substituted"@,
            Verdict::Sibling => "sibling"@,
            Verdict::Passthrough => "PASSTHROUGH"@,
            Verdict::Unknown => "ok"@,
        }
    }
}

/// Log prefix for what the answer turned out to be. `PASSTHROUGH` shouts because
/// it is the failure a plain `ok` would hide.
pub fn verdict_tag(v: Verdict) -> (tag: &'static str)
    ensures
        tag@ == v.tag(),
{
    match v {
        Verdict::Substituted => "substituted",
        Verdict::Sibling => "sibling",
        Verdict::Passthrough => "PASSTHROUGH",
        Verdict::Unknown => "ok",
    }
}

/// A local wall-clock time of day.
#[derive(Debug, Clone, Copy, PartialEq, Eq, Structural)]
pub struct Clock {
    pub hour: u8,
    pub minute: u8,
    pub second: u8,
}

impl Clock {
    pub open spec fn spec_hms(self) -> Seq<char> {
        two_digits(self.hour as nat) + ":"@ + two_digits(self.minute as nat) + ":"@ + two_digits(
            self.second as nat,
        )
    }

    /// `HH:MM:SS`.
    pub fn hms(self) -> (s: String)
        ensures
            s@ == self.spec_hms(),
    {
        let mut s = String::new();
        push_two_digits(&mut s, self.hour as u64);
        s.append(":");
        push_two_digits(&mut s, self.minute as u64);
        s.append(":");
        push_two_digits(&mut s, self.second as u64);
        assert(s@ == self.spec_hms());
        s
    }
}

/// Local wall-clock `HH:MM:SS` for a log line; empty where there is no local
/// clock to read, which costs a stamp rather than a line.
pub fn stamp(clock: Option<Clock>) -> (s: String)
    ensures
        s@ == (match clock {
            Some(c) => c.spec_hms(),
            None => Seq::empty(),
        }),
{
    match clock {
        Some(c) => c.hms(),
        None => String::new(),
    }
}

/// How many bytes of a log of that size are kept before the next line.
pub open spec fn kept(size: nat) -> nat {
    if size <= LOG_LIMIT_BYTES {
        size
    } else {
        0
    }
}

/// Whether the log is removed before the next line is written; no size stands
/// for no file.
pub fn starts_over(size: Option<u64>) -> (over: bool)
    ensures
        over == (size matches Some(n) && n > LOG_LIMIT_BYTES),
        size matches Some(n) ==> kept(n as nat) == (if over {
            0
        } else {
            n
        }),
{
    match size {
        Some(n) => n > LOG_LIMIT_BYTES,
        None => false,
    }
}

/// What is appended to the log for one line.
pub fn log_entry(stamp: &str, line: &str) -> (s: String)
    ensures
        s@ == stamp@ + " "@ + line@ + "\n"@,
{
    let mut s = stamp.to_owned();
    s.append(" ");
    s.append(line);
    s.append("\n");
    s
}

/// The size of a log after entries of the given sizes.
pub open spec fn size_after(size: nat, entries: Seq<nat>) -> nat
    decreases entries.len(),
{
    if entries.len() == 0 {
        size
    } else {
        kept(size_after(size, entries.drop_last())) + entries.last()
    }
}

/// However often it is written to, and whatever size it was found at, the log
/// never holds more than the limit and one entry; and an entry just written is
/// never removed with what was before it.
pub proof fn the_log_stays_small(size: nat, entries: Seq<nat>)
    requires
        entries.len() > 0,
    ensures
        entries.last() <= size_after(size, entries) <= LOG_LIMIT_BYTES + entries.last(),
{
}

/// The line of a failed start: the console is gone by then.
pub fn log_fatal(message: &str) -> (line: String)
    ensures
        line@ == "fatal: "@ + message@,
{
    let mut line = "fatal: ".to_owned();
    line.append(message);
    line
}

/// A line of the proxy's. It shares the relay's log: one file is what makes a
/// resolve and the connection that followed it readable together.
pub fn log_proxy(message: &str) -> (line: String)
    ensures
        line@ == "proxy        "@ + message@,
{
    let mut line = "proxy        ".to_owned();
    line.append(message);
    line
}

/// Who answered a race that produced no substitution, and whether a reference
/// was available to judge it.
pub fn log_race(name: &str, heard: &[&str], had_reference: bool) -> (line: String)
    ensures
        line@ == "race         "@ + name@ + " heard ["@ + joined(str_views(heard@), ", "@) + "]"@
            + (if had_reference {
            Seq::empty()
        } else {
            " (no reference)"@
        }),
{
    let mut line = "race         ".to_owned();
    line.append(name);
    line.append(" heard [");
    line.append(join_strs(heard, ", ").as_str());
    line.append("]");
    let ghost before = line@;
    if !had_reference {
        line.append(" (no reference)");
    }
    assert(had_reference ==> line@ == before + Seq::<char>::empty());
    line
}

/// The line of a relayed query: the verdict in a column of its own, the name,
/// and who answered.
pub fn relayed_line(verdict: Verdict, name: &str, provider: &str) -> (line: String)
    ensures
        line@ == padded(verdict.tag(), 12) + " "@ + name@ + " ["@ + provider@ + "]"@,
{
    let mut line = pad(verdict_tag(verdict), 12);
    line.append(" ");
    line.append(name);
    line.append(" [");
    line.append(provider);
    line.append("]");
    line
}

/// The line of a query nobody answered.
pub fn unanswered_line(name: &str) -> (line: String)
    ensures
        line@ == "fail         "@ + name@,
{
    let mut line = "fail         ".to_owned();
    line.append(name);
    line
}

/// The address the relay listens on.
pub open spec fn listen_address() -> Seq<char> {
    LISTEN_IP@ + ":"@ + decimal(LISTEN_PORT as nat)
}

fn push_address(line: &mut String)
    ensures
        final(line)@ == old(line)@ + listen_address(),
{
    line.append(LISTEN_IP);
    line.append(":");
    push_decimal(line, LISTEN_PORT as u64);
    assert(line@ == old(line)@ + listen_address());
}

/// The first line of a run.
pub fn start_line() -> (line: String)
    ensures
        line@ == "start: "@ + listen_address(),
{
    let mut line = "start: ".to_owned();
    push_address(&mut line);
    line
}

/// The line that names the interface queries leave through.
pub fn egress_line(index: u32) -> (line: String)
    ensures
        line@ == "egress: if"@ + decimal(index as nat),
{
    let mut line = "egress: if".to_owned();
    push_decimal(&mut line, index as u64);
    line
}

/// What a relay that cannot have its address says.
pub fn bind_error(reason: &str) -> (message: String)
    ensures
        message@ == "не удалось занять "@ + listen_address() + " — "@ + reason@,
{
    let mut message = "не удалось занять ".to_owned();
    push_address(&mut message);
    message.append(" — ");
    message.append(reason);
    message
}

/// A length of time in whole hours where it is one, and in minutes elsewhere.
pub open spec fn minutes_text(secs: nat) -> Seq<char> {
    let mins = secs / 60;
    if mins >= 60 && mins % 60 == 0 {
        decimal(mins / 60) + " ч"@
    } else {
        decimal(mins) + " мин"@
    }
}

/// «10 мин», «1 ч», «6 ч».
pub fn human_minutes(d: Span) -> (s: String)
    ensures
        s@ == minutes_text(d.secs()),
{
    let mins: u64 = d.as_secs() / 60;
    let mut s = String::new();
    if mins >= 60 && mins % 60 == 0 {
        push_decimal(&mut s, mins / 60);
        s.append(" ч");
    } else {
        push_decimal(&mut s, mins);
        s.append(" мин");
    }
    assert(s@ == minutes_text(d.secs()));
    s
}

/// A length of so many hours and minutes is said in hours where there are any and no
/// minutes beyond them, and in minutes altogether elsewhere; seconds do not matter.
pub proof fn a_penalty_is_said_in_whole_hours_or_minutes(hours: nat, minutes: nat, seconds: nat)
    requires
        minutes < 60,
        seconds < 60,
    ensures
        minutes_text(3600 * hours + 60 * minutes + seconds) == (if hours > 0 && minutes == 0 {
            decimal(hours) + " ч"@
        } else {
            decimal(60 * hours + minutes) + " мин"@
        }),
{
    let secs: nat = 3600 * hours + 60 * minutes + seconds;
    let mins: nat = 60 * hours + minutes;
    assert(secs / 60 == mins);
    assert(mins % 60 == minutes);
    assert(mins / 60 == hours);
}

/// A time of day is as long as its stamp: three numbers of two digits, with a colon
/// behind the first and the second.
pub proof fn a_stamp_has_its_places(c: Clock)
    requires
        c.hour < 24 && c.minute < 60 && c.second < 60,
    ensures
        c.spec_hms().len() == 8,
        c.spec_hms()[2] == ':' && c.spec_hms()[5] == ':',
        c.spec_hms().subrange(0, 2) == two_digits(c.hour as nat),
        c.spec_hms().subrange(3, 5) == two_digits(c.minute as nat),
        c.spec_hms().subrange(6, 8) == two_digits(c.second as nat),
{
    reveal_strlit(":");
    crate::text::two_digits_are_written(c.hour as nat);
    crate::text::two_digits_are_written(c.minute as nat);
    crate::text::two_digits_are_written(c.second as nat);
}

/// No two verdicts have the same tag, and every tag fits its column.
pub proof fn verdicts_are_told_apart(v: Verdict, w: Verdict)
    ensures
        v.tag() == w.tag() ==> v == w,
        0 < v.tag().len() <= 12,
{
    reveal_strlit("substituted");
    reveal_strlit("sibling");
    reveal_strlit("PASSTHROUGH");
    reveal_strlit("ok");
    if v.tag() == w.tag() {
        assert(v.tag()[0] == w.tag()[0]);
        assert(v.tag()[1] == w.tag()[1]);
    }
}

} // verus!
