//! What the window shows, read off what it knows.
use vstd::prelude::*;

use crate::network::option_view;
use crate::status::{capitalised, replace_head, with_head, Answered, Facts};
use crate::text::{
    a_text_mentions_its_parts, ascii_lower, ascii_lower_text, ascii_upper, chars_of, is_letter, letter, mentions, same,
    to_ascii_lowercase,
    upper_of_text, uppercase_char, uppercase_text, views,
};
use crate::time::{Span, MAX_NANOS};

verus! {

/// One Antigravity the window lists.
#[derive(Debug, Clone, PartialEq, Eq)]
pub struct Install {
    pub label: String,
    /// Where it was found, if it was.
    pub path: Option<String>,
    /// Whether it is patched, where that is known.
    pub patched: Option<bool>,
    /// The path was given by hand.
    pub manual: bool,
}

/// What the worker last found of the machine.
#[derive(Debug, Clone, PartialEq, Eq)]
pub struct SystemStatus {
    pub admin: bool,
    pub installs: Vec<Install>,
    pub client_patch: bool,
    pub dns: bool,
    pub local_proxy: bool,
    pub builtin_exits: bool,
    pub dns_rotation: bool,
    pub relay_running: bool,
    pub relay_outdated: bool,
    pub rules: bool,
}

/// Lines of a kind in the client logs: how long ago the newest was when they
/// were read, and how many there are.
#[derive(Debug, Clone, Copy, PartialEq, Eq, Structural)]
pub struct Sighting {
    pub ago: Span,
    pub count: usize,
}

/// What the relay wrote about the last refusal: when, in seconds since 1970,
/// and what it did.
#[derive(Debug, Clone, PartialEq, Eq)]
pub struct Episode {
    pub at: u64,
    pub acted: String,
    pub bypassed: bool,
}

/// The last answer the relay saw: when, in seconds since 1970, and the route
/// that carried it, empty when none of ours did.
#[derive(Debug, Clone, PartialEq, Eq)]
pub struct LastAnswer {
    pub at: u64,
    pub route: String,
}

/// What the relay says it is doing.
#[derive(Debug, Clone, PartialEq, Eq)]
pub struct RelayRecord {
    /// The route in force, empty when there is none.
    pub route: String,
    pub last_400: Option<Episode>,
    pub last_ok: Option<LastAnswer>,
    pub tunnel: bool,
    /// The country the tunnel comes out in, empty when unknown.
    pub vpn_exit: String,
    pub loopback: bool,
}

/// What the client logs and the relay's record said when they were last read.
#[derive(Debug, Clone, PartialEq, Eq)]
pub struct LogState {
    /// The newest refusal over the long window.
    pub refused_long: Option<Sighting>,
    /// The refusals of the last ten minutes.
    pub seen: Option<Sighting>,
    /// The newest answer over the long window.
    pub answered: Option<Sighting>,
    pub relay: Option<RelayRecord>,
}

/// When the facts are read, and what counts as recent.
#[derive(Debug, Clone, Copy, PartialEq, Eq, Structural)]
pub struct Reading {
    /// How long ago the logs were read.
    pub since_read: Span,
    /// The time, in seconds since 1970.
    pub now_unix: u64,
    /// For how long a refusal's note is looked for.
    pub recent: Span,
    /// For how long the last answer's route is named.
    pub answer_recent: Span,
    /// Elevation and DNS rules exist only on Windows.
    pub windows: bool,
}

/// How many seconds *before* a refusal the relay's note may be stamped and still
/// be an answer to it: the whole-second quantisation both stamps carry, and
/// nothing more.
pub const EPISODE_SLACK: u64 = 3;

/// A note answers a refusal unless it was stamped before it by more than the
/// slack.
pub open spec fn is_answer_to(episode_at: u64, refusal_at: u64) -> bool {
    episode_at + EPISODE_SLACK >= refusal_at
}

/// Whether the relay's note answers a refusal stamped at `refusal_at`.
pub fn answers(episode_at: u64, refusal_at: u64) -> (r: bool)
    ensures
        r == is_answer_to(episode_at, refusal_at),
{
    episode_at >= refusal_at || refusal_at - episode_at <= EPISODE_SLACK
}

/// What answers a refusal answers every earlier one, and a later note does too.
pub proof fn a_later_note_still_answers(note: u64, refusal: u64, later_note: u64, earlier: u64)
    requires
        is_answer_to(note, refusal),
        later_note >= note,
        earlier <= refusal,
    ensures
        is_answer_to(later_note, earlier),
{
}

// ---------------------------------------------------------------------------
// The facts
// ---------------------------------------------------------------------------

/// The relay's record, which is worth something only while the relay runs: a
/// record outlives its writer.
pub open spec fn live_record(status: SystemStatus, logs: LogState) -> Option<RelayRecord> {
    if status.relay_running {
        logs.relay
    } else {
        None
    }
}

/// The time of a refusal that old, in seconds since 1970.
pub open spec fn refused_at(now_unix: u64, ago: nat) -> u64 {
    let secs = ago / crate::time::NANOS_PER_SEC as nat;
    if now_unix >= secs {
        (now_unix - secs) as u64
    } else {
        0
    }
}

/// The relay's note on the newest refusal: one written after it, while the
/// refusal is recent and the relay runs.
pub open spec fn note_on_refusal(status: SystemStatus, logs: LogState, at: Reading) -> Option<
    Episode,
> {
    match (logs.refused_long, live_record(status, logs)) {
        (Some(x), Some(r)) => {
            let ago = x.ago@ + at.since_read@;
            match r.last_400 {
                Some(e) if ago <= at.recent@ && is_answer_to(e.at, refused_at(at.now_unix, ago)) =>
                    Some(e),
                _ => None,
            }
        },
        _ => None,
    }
}

/// The path named on the card: that of the last answer when the relay saw one
/// recently - and then exactly that, nothing for an answer that went around us -
/// and otherwise the route in force.
pub open spec fn named_route(status: SystemStatus, logs: LogState, at: Reading) -> Option<Seq<char>> {
    match live_record(status, logs) {
        Some(r) => {
            let route = match r.last_ok {
                Some(ok) if at.now_unix - ok.at <= at.answer_recent.secs() => ok.route@,
                _ => r.route@,
            };
            if route.len() > 0 {
                Some(route)
            } else {
                None
            }
        },
        None => None,
    }
}

pub open spec fn any_found(installs: Seq<Install>) -> bool {
    exists|i: int| 0 <= i < installs.len() && (#[trigger] installs[i]).path is Some
}

/// The ages shown can be held.
pub open spec fn ages_fit(logs: LogState, at: Reading) -> bool {
    &&& logs.refused_long matches Some(x) ==> x.ago@ + at.since_read@ <= MAX_NANOS
    &&& logs.answered matches Some(x) ==> x.ago@ + at.since_read@ <= MAX_NANOS
}

/// Whether the facts are those the window knows.
pub open spec fn facts_of(
    f: Facts,
    status: SystemStatus,
    logs: LogState,
    at: Reading,
) -> bool {
    &&& f.admin == (status.admin || !at.windows)
    &&& f.installs_found == any_found(status.installs@)
    &&& f.patch_on == status.client_patch
    &&& f.bypass_on == status.dns
    &&& f.relay_running == status.relay_running
    &&& f.relay_outdated == status.relay_outdated
    &&& f.rules == (status.rules || !at.windows)
    &&& f.relay_reporting == (live_record(status, logs) is Some)
    &&& match logs.refused_long {
        Some(x) => {
            &&& f.refusal is Some
            &&& f.refused_ago()@ == x.ago@ + at.since_read@
            &&& f.refused_lines() == (match logs.seen {
                Some(s) => s.count,
                None => 0,
            })
        },
        None => f.refusal is None,
    }
    &&& match logs.answered {
        Some(x) => f.answer matches Some(a) && a@ == x.ago@ + at.since_read@,
        None => f.answer is None,
    }
    &&& match note_on_refusal(status, logs, at) {
        Some(e) => f.answered matches Some(a) && a.acted@ == e.acted@ && a.bypassed == e.bypassed,
        None => f.answered is None,
    }
    &&& option_view(f.route) == named_route(status, logs, at)
}

fn found(installs: &Vec<Install>) -> (any: bool)
    ensures
        any == any_found(installs@),
{
    for i in 0..installs.len()
        invariant
            forall|j: int| 0 <= j < i ==> (#[trigger] installs@[j]).path is None,
    {
        if installs[i].path.is_some() {
            return true;
        }
    }
    false
}

fn named(route: &String) -> (name: Option<String>)
    ensures
        option_view(name) == (if route@.len() > 0 {
            Some(route@)
        } else {
            None
        }),
{
    if route.as_str().is_empty() {
        None
    } else {
        Some(route.clone())
    }
}

fn aged(ago: Span, since_read: Span) -> (span: Span)
    requires
        ago@ + since_read@ <= MAX_NANOS,
    ensures
        span@ == ago@ + since_read@,
{
    ago.checked_add(since_read).unwrap()
}

/// Whether `facts` can be read: the ages it would show can be held.
pub fn can_read_facts(logs: &LogState, at: &Reading) -> (can: bool)
    ensures
        can == ages_fit(*logs, *at),
{
    let refusal_fits = match &logs.refused_long {
        Some(x) => x.ago.checked_add(at.since_read).is_some(),
        None => true,
    };
    let answer_fits = match &logs.answered {
        Some(x) => x.ago.checked_add(at.since_read).is_some(),
        None => true,
    };
    refusal_fits && answer_fits
}

/// Everything the verdict is made of, read off the window's own state; nothing
/// before the machine has been looked at.
pub fn facts(status: &Option<SystemStatus>, logs: &LogState, at: &Reading) -> (f: Option<Facts>)
    requires
        status is Some ==> ages_fit(*logs, *at),
    ensures
        f is Some <==> status is Some,
        f matches Some(f) ==> facts_of(f, status->0, *logs, *at),
{
    let s = match status {
        Some(s) => s,
        None => {
            return None;
        },
    };
    let refusal: Option<(Span, usize)> = match &logs.refused_long {
        Some(x) => Some(
            (
                aged(x.ago, at.since_read),
                match &logs.seen {
                    Some(s) => s.count,
                    None => 0,
                },
            ),
        ),
        None => None,
    };
    let answer: Option<Span> = match &logs.answered {
        Some(x) => Some(aged(x.ago, at.since_read)),
        None => None,
    };
    let mut answered: Option<Answered> = None;
    let mut route: Option<String> = None;
    let mut relay_reporting = false;
    if s.relay_running {
        if let Some(r) = &logs.relay {
            relay_reporting = true;
            if let (Some((ago, _)), Some(e)) = (refusal, &r.last_400) {
                let secs: u64 = ago.as_secs();
                let refusal_at: u64 = if at.now_unix >= secs {
                    at.now_unix - secs
                } else {
                    0
                };
                if ago.as_nanos() <= at.recent.as_nanos() && answers(e.at, refusal_at) {
                    answered = Some(Answered { acted: e.acted.clone(), bypassed: e.bypassed });
                }
            }
            route = named(
                match &r.last_ok {
                    Some(ok) => {
                        let since: u64 = if at.now_unix >= ok.at {
                            at.now_unix - ok.at
                        } else {
                            0
                        };
                        if since <= at.answer_recent.as_secs() {
                            &ok.route
                        } else {
                            &r.route
                        }
                    },
                    None => &r.route,
                },
            );
        }
    }
    Some(
        Facts {
            admin: s.admin || !at.windows,
            installs_found: found(&s.installs),
            patch_on: s.client_patch,
            bypass_on: s.dns,
            relay_running: s.relay_running,
            relay_outdated: s.relay_outdated,
            rules: s.rules || !at.windows,
            relay_reporting,
            refusal,
            answer,
            answered,
            route,
        },
    )
}

/// Nothing the relay wrote reaches the card of a relay that does not run.
pub proof fn a_dead_relay_says_nothing(f: Facts, status: SystemStatus, logs: LogState, at: Reading)
    requires
        facts_of(f, status, logs, at),
        !status.relay_running,
    ensures
        !f.relay_reporting,
        f.answered is None,
        f.route is None,
{
}

/// A note on the card was written no earlier than the refusal it is shown with,
/// give or take the slack of the stamps.
pub proof fn only_a_note_after_the_refusal_is_shown(
    f: Facts,
    status: SystemStatus,
    logs: LogState,
    at: Reading,
)
    requires
        facts_of(f, status, logs, at),
        f.answered is Some,
    ensures
        logs.relay matches Some(r) && r.last_400 matches Some(e) && e.at + EPISODE_SLACK
            >= refused_at(at.now_unix, f.refused_ago()@) && f.refused_ago()@ <= at.recent@,
{
}

/// The facts are the machine's: the switches and the service as they were found,
/// the rights and the rules as they were found where there are such things, and an
/// install wherever one has a path.
pub proof fn the_facts_are_the_machines(f: Facts, status: SystemStatus, logs: LogState, at: Reading)
    requires
        facts_of(f, status, logs, at),
    ensures
        f.patch_on == status.client_patch,
        f.bypass_on == status.dns,
        f.relay_running == status.relay_running,
        f.relay_outdated == status.relay_outdated,
        at.windows ==> f.admin == status.admin && f.rules == status.rules,
        !at.windows ==> f.admin && f.rules,
        f.installs_found <==> exists|i: int|
            0 <= i < status.installs@.len() && (#[trigger] status.installs@[i]).path is Some,
        f.relay_reporting <==> status.relay_running && logs.relay is Some,
{
}

/// Ages grow with the time since the logs were read, and are shown for what the logs
/// hold and nothing else. The refusals counted are those of the last ten minutes,
/// none where there are none.
pub proof fn ages_grow_with_the_clock(f: Facts, status: SystemStatus, logs: LogState, at: Reading)
    requires
        facts_of(f, status, logs, at),
    ensures
        f.refusal is Some <==> logs.refused_long is Some,
        f.answer is Some <==> logs.answered is Some,
        f.refusal is Some ==> (f.refusal->0).0@ - at.since_read@ == logs.refused_long->0.ago@ && (
        f.refusal->0).1 == (if logs.seen is Some {
            logs.seen->0.count
        } else {
            0
        }),
        f.answer is Some ==> f.answer->0@ - at.since_read@ == logs.answered->0.ago@,
{
}

/// A note of a running relay is shown, as it was written, for every refusal that is
/// still recent and that it does not come before by more than the slack.
pub proof fn a_note_on_a_recent_refusal_is_shown(
    f: Facts,
    status: SystemStatus,
    logs: LogState,
    at: Reading,
)
    requires
        facts_of(f, status, logs, at),
        status.relay_running,
        logs.relay is Some,
        logs.relay->0.last_400 is Some,
        logs.refused_long is Some,
    ensures
        ({
            let note = logs.relay->0.last_400->0;
            let ago = logs.refused_long->0.ago@ + at.since_read@;
            let secs = ago / 1_000_000_000;
            &&& f.answered is Some <==> ago <= at.recent@ && note.at + 3 + secs >= at.now_unix
            &&& f.answered is Some ==> (f.answered->0).acted@ == note.acted@ && (
            f.answered->0).bypassed == note.bypassed
        }),
{
}

/// The path named is that of the last answer for as long as that is recent, even
/// where it has none; and the route in force before and after that.
pub proof fn the_last_answers_path_is_named(
    f: Facts,
    status: SystemStatus,
    logs: LogState,
    at: Reading,
)
    requires
        facts_of(f, status, logs, at),
        status.relay_running,
        logs.relay is Some,
    ensures
        ({
            let r = logs.relay->0;
            let recent = r.last_ok is Some && at.now_unix <= r.last_ok->0.at
                + at.answer_recent.secs();
            let route = if recent {
                r.last_ok->0.route@
            } else {
                r.route@
            };
            &&& f.route is Some <==> route.len() > 0
            &&& f.route is Some ==> f.route->0@ == route
        }),
{
}

/// The time of a refusal is as long before now as it is old, in whole seconds, and
/// not before 1970.
pub proof fn a_refusal_is_as_old_as_it_is(now_unix: u64, ago: nat)
    ensures
        refused_at(now_unix, ago) + ago / 1_000_000_000 == now_unix || (refused_at(now_unix, ago)
            == 0 && ago / 1_000_000_000 > now_unix),
{
}

// ---------------------------------------------------------------------------
// Names
// ---------------------------------------------------------------------------

/// The letters a text starts with.
pub open spec fn lead(s: Seq<char>) -> Seq<char>
    decreases s.len(),
{
    if s.len() > 0 && is_letter(s[0]) {
        seq![s[0]] + lead(s.skip(1))
    } else {
        Seq::empty()
    }
}

/// The letters an ASCII text starts with.
pub open spec fn ascii_lead(s: Seq<char>) -> Seq<char>
    decreases s.len(),
{
    if s.len() > 0 && ('a' <= s[0] <= 'z' || 'A' <= s[0] <= 'Z') {
        seq![s[0]] + ascii_lead(s.skip(1))
    } else {
        Seq::empty()
    }
}

/// Whether a name leads with the acronym, in any case.
pub open spec fn leads_with_dns(lead: Seq<char>) -> bool {
    ascii_lower_text(lead) == "dns"@
}

pub open spec fn is_ascii(s: Seq<char>) -> bool {
    forall|i: int| 0 <= i < s.len() ==> (#[trigger] s[i] as u32) < 128
}

/// A name as it is written in a list.
pub open spec fn shown_name(name: Seq<char>) -> Seq<char> {
    if leads_with_dns(lead(name)) {
        upper_of_text(name)
    } else {
        capitalised(name)
    }
}

/// The same of an ASCII name, letter by letter.
pub open spec fn ascii_shown_name(name: Seq<char>) -> Seq<char> {
    if leads_with_dns(ascii_lead(name)) {
        name.map_values(|c: char| ascii_upper(c))
    } else {
        with_head(seq![ascii_upper(name[0])], name)
    }
}

proof fn lemma_lead_is_prefix(s: Seq<char>, n: int)
    requires
        0 <= n <= s.len(),
        forall|i: int| 0 <= i < n ==> is_letter(#[trigger] s[i]),
        n < s.len() ==> !is_letter(s[n]),
    ensures
        lead(s) == s.take(n),
    decreases n,
{
    if n > 0 {
        let rest = s.skip(1);
        assert(is_letter(s[0]));
        assert forall|i: int| 0 <= i < n - 1 implies is_letter(#[trigger] rest[i]) by {
            assert(is_letter(s[i + 1]));
        }
        lemma_lead_is_prefix(rest, n - 1);
        assert(seq![s[0]] + rest.take(n - 1) == s.take(n));
    } else {
        assert(s.take(0) == Seq::<char>::empty());
    }
}

proof fn lemma_ascii_lead_is_prefix(s: Seq<char>, n: int)
    requires
        0 <= n <= s.len(),
        forall|i: int|
            0 <= i < n ==> ('a' <= #[trigger] s[i] <= 'z' || 'A' <= s[i] <= 'Z'),
        n < s.len() ==> !('a' <= s[n] <= 'z' || 'A' <= s[n] <= 'Z'),
    ensures
        ascii_lead(s) == s.take(n),
    decreases n,
{
    if n > 0 {
        let rest = s.skip(1);
        assert('a' <= s[0] <= 'z' || 'A' <= s[0] <= 'Z');
        assert forall|i: int| 0 <= i < n - 1 implies ('a' <= #[trigger] rest[i] <= 'z' || 'A'
            <= rest[i] <= 'Z') by {
            assert(rest[i] == s[i + 1]);
        }
        lemma_ascii_lead_is_prefix(rest, n - 1);
        assert(seq![s[0]] + rest.take(n - 1) == s.take(n));
    } else {
        assert(s.take(0) == Seq::<char>::empty());
    }
}

/// Whether the letters a name starts with are the acronym.
fn is_acronym(name: &str) -> (is: bool)
    ensures
        is == leads_with_dns(lead(name@)),
        is_ascii(name@) ==> is == leads_with_dns(ascii_lead(name@)),
{
    let chars = chars_of(name);
    let mut n: usize = 0;
    while n < chars.len() && letter(chars[n])
        invariant
            chars@ == name@,
            n <= chars.len(),
            forall|i: int| 0 <= i < n ==> is_letter(#[trigger] name@[i]),
            is_ascii(name@) ==> forall|i: int|
                0 <= i < n ==> ('a' <= #[trigger] name@[i] <= 'z' || 'A' <= name@[i] <= 'Z'),
        ensures
            n <= chars.len(),
            forall|i: int| 0 <= i < n ==> is_letter(#[trigger] name@[i]),
            is_ascii(name@) ==> forall|i: int|
                0 <= i < n ==> ('a' <= #[trigger] name@[i] <= 'z' || 'A' <= name@[i] <= 'Z'),
            n < chars.len() ==> !is_letter(name@[n as int]),
            n < chars.len() && is_ascii(name@) ==> !('a' <= name@[n as int] <= 'z' || 'A'
                <= name@[n as int] <= 'Z'),
        decreases chars.len() - n,
    {
        n = n + 1;
    }
    proof {
        lemma_lead_is_prefix(name@, n as int);
        if is_ascii(name@) {
            lemma_ascii_lead_is_prefix(name@, n as int);
        }
    }
    let start = name.substring_char(0, n);
    assert(start@ == name@.take(n as int));
    same(to_ascii_lowercase(start).as_str(), "dns")
}

/// A name all in upper case where it leads with the acronym, and with its first
/// character in upper case elsewhere. `upper` is the whole name in upper case,
/// and `head` its first character.
pub fn written_name(name: &str, acronym: bool, upper: &str, head: &str) -> (shown: String)
    ensures
        shown@ == (if acronym {
            upper@
        } else {
            with_head(head@, name@)
        }),
{
    if acronym {
        upper.to_owned()
    } else {
        replace_head(head, name)
    }
}

/// How a provider's name is written in the list.
///
/// The pool stores them the way they are typed as hostnames, all lower case. An
/// acronym stays an acronym (`dns-ai.ru` is shown as `DNS-AI.RU`); everything
/// else just gets its first letter. Presentation only: the stored name never
/// changes.
pub fn display_name(name: &str) -> (shown: String)
    ensures
        shown@ == shown_name(name@),
        is_ascii(name@) ==> shown@ == ascii_shown_name(name@),
{
    if name.is_empty() {
        proof {
            reveal_strlit("dns");
            assert(ascii_lower_text(lead(name@)).len() == 0);
            assert(ascii_lower_text(ascii_lead(name@)).len() == 0);
        }
        return String::new();
    }
    let acronym = is_acronym(name);
    let upper = uppercase_text(name);
    let head = uppercase_char(name.get_char(0));
    let shown = written_name(name, acronym, upper.as_str(), head.as_str());
    assert(is_ascii(name@) ==> (name@[0] as u32) < 128);
    shown
}

/// The letters a text starts with are all of them up to the first other character.
pub proof fn the_lead_is_every_letter_up_to_another(s: Seq<char>)
    ensures
        lead(s).len() <= s.len(),
        lead(s) == s.take(lead(s).len() as int),
        forall|i: int| 0 <= i < lead(s).len() ==> is_letter(#[trigger] s[i]),
        lead(s).len() < s.len() ==> !is_letter(s[lead(s).len() as int]),
    decreases s.len(),
{
    if s.len() > 0 && is_letter(s[0]) {
        let rest = s.skip(1);
        the_lead_is_every_letter_up_to_another(rest);
        assert(lead(s) =~= s.take(lead(s).len() as int));
        assert forall|i: int| 0 <= i < lead(s).len() implies is_letter(#[trigger] s[i]) by {
            if i > 0 {
                assert(rest[i - 1] == s[i]);
            }
        }
        if lead(s).len() < s.len() {
            assert(rest[lead(rest).len() as int] == s[lead(s).len() as int]);
        }
    }
}

/// A name leads with the acronym when its letters up to the first other character
/// are those three and no more, in any case; then all of it is put in upper case,
/// and elsewhere its first character is.
pub proof fn only_the_acronym_is_put_in_upper_case(name: Seq<char>)
    ensures
        ({
            let letters = lead(name);
            let acronym = letters.len() == 3 && (letters[0] == 'd' || letters[0] == 'D') && (
            letters[1] == 'n' || letters[1] == 'N') && (letters[2] == 's' || letters[2] == 'S');
            &&& acronym ==> shown_name(name) == upper_of_text(name)
            &&& !acronym && name.len() > 0 ==> shown_name(name) == crate::text::upper_of_char(
                name[0],
            ) + name.skip(1)
            &&& name.len() == 0 ==> shown_name(name).len() == 0
        }),
{
    reveal_strlit("dns");
    let letters = lead(name);
    let lower = ascii_lower_text(letters);
    if letters.len() == 3 {
        assert(lower[0] == ascii_lower(letters[0]));
        assert(lower[1] == ascii_lower(letters[1]));
        assert(lower[2] == ascii_lower(letters[2]));
        if ascii_lower(letters[0]) == 'd' && ascii_lower(letters[1]) == 'n' && ascii_lower(
            letters[2],
        ) == 's' {
            assert(lower =~= "dns"@);
        }
    } else {
        assert(lower.len() != "dns"@.len());
    }
}

/// Writing a name changes nothing but the case of its letters: of all of them where
/// it leads with the acronym, and of the first elsewhere.
pub proof fn writing_a_name_changes_case_alone(name: Seq<char>)
    requires
        is_ascii(name),
    ensures
        ascii_shown_name(name).len() == name.len(),
        ascii_lower_text(ascii_shown_name(name)) == ascii_lower_text(name),
        leads_with_dns(ascii_lead(name)) ==> forall|i: int|
            0 <= i < name.len() ==> !('a' <= #[trigger] ascii_shown_name(name)[i] <= 'z'),
        !leads_with_dns(ascii_lead(name)) ==> forall|i: int|
            1 <= i < name.len() ==> #[trigger] ascii_shown_name(name)[i] == name[i],
        name.len() > 0 ==> !('a' <= ascii_shown_name(name)[0] <= 'z'),
{
    let shown = ascii_shown_name(name);
    if name.len() == 0 {
        reveal_strlit("dns");
        assert(ascii_lower_text(ascii_lead(name)).len() == 0);
    }
    assert(shown.len() == name.len());
    assert forall|i: int| 0 <= i < name.len() implies ascii_lower(#[trigger] shown[i])
        == ascii_lower(name[i]) by {}
    assert(ascii_lower_text(shown) =~= ascii_lower_text(name));
}

// ---------------------------------------------------------------------------
// The network
// ---------------------------------------------------------------------------

/// What is said of the VPN.
pub open spec fn vpn_hint(r: RelayRecord, blocked: bool) -> Seq<char> {
    if !r.tunnel {
        "VPN не обнаружен."@
    } else if r.vpn_exit@.len() == 0 {
        "VPN включён — соединения службы с сервисами разблокировки идут мимо него."@
    } else if blocked {
        "VPN включён, выход: "@ + r.vpn_exit@
            + " — там ошибка 400, поэтому соединения идут мимо него."@
    } else {
        "VPN включён, выход: "@ + r.vpn_exit@ + " — используется как один из путей."@
    }
}

/// What is said of the network: the VPN, the path in use where there is one,
/// and that names are not answered by us yet where they are not.
pub open spec fn network_hints(r: RelayRecord, blocked: bool) -> Seq<Seq<char>> {
    seq![vpn_hint(r, blocked)] + (if r.route@.len() > 0 {
        seq!["Первый путь сейчас: "@ + r.route@ + "."@]
    } else {
        seq![]
    }) + (if !r.loopback {
        seq![
            "Служба ещё не перехватывает имена серверов Google — Antigravity идёт через них, только если перезапущен после включения обхода."@,
        ]
    } else {
        seq![]
    })
}

/// What the relay says about the network right now. Facts, not advice. `blocked`
/// is whether the country the tunnel comes out in is.
pub fn network_facts(r: &RelayRecord, blocked: bool) -> (hints: Vec<String>)
    ensures
        views(hints@) == network_hints(*r, blocked),
{
    let mut hints: Vec<String> = Vec::new();
    let vpn: String = if !r.tunnel {
        "VPN не обнаружен.".to_owned()
    } else if r.vpn_exit.as_str().is_empty() {
        "VPN включён — соединения службы с сервисами разблокировки идут мимо него.".to_owned()
    } else {
        let mut s = "VPN включён, выход: ".to_owned();
        s.append(r.vpn_exit.as_str());
        s.append(
            if blocked {
                " — там ошибка 400, поэтому соединения идут мимо него."
            } else {
                " — используется как один из путей."
            },
        );
        s
    };
    hints.push(vpn);
    if !r.route.as_str().is_empty() {
        let mut s = "Первый путь сейчас: ".to_owned();
        s.append(r.route.as_str());
        s.append(".");
        hints.push(s);
    }
    if !r.loopback {
        hints.push(
            "Служба ещё не перехватывает имена серверов Google — Antigravity идёт через них, только если перезапущен после включения обхода.".to_owned(),
        );
    }
    assert(views(hints@) == network_hints(*r, blocked));
    hints
}

/// There is one hint about the VPN, first; one about the path exactly where there is
/// a path, naming it; and one about names exactly where they are not answered by us,
/// last. A country is named exactly where a tunnel comes out in a known one, and
/// whether that is blocked matters there alone.
pub proof fn the_network_is_described_by_what_is_known(r: RelayRecord, blocked: bool)
    ensures
        ({
            let hints = network_hints(r, blocked);
            let country = r.tunnel && r.vpn_exit@.len() > 0;
            &&& hints.len() == 1 + (if r.route@.len() > 0 {
                1nat
            } else {
                0nat
            }) + (if r.loopback {
                0nat
            } else {
                1nat
            })
            &&& r.route@.len() > 0 ==> mentions(hints[1], r.route@)
            &&& country ==> mentions(hints[0], r.vpn_exit@)
            &&& country ==> network_hints(r, true)[0] != network_hints(r, false)[0]
            &&& !country ==> network_hints(r, true) == network_hints(r, false)
            &&& !r.tunnel ==> hints[0] == "VPN не обнаружен."@
        }),
{
    let hints = network_hints(r, blocked);
    assert(hints[0] == vpn_hint(r, blocked));
    assert(network_hints(r, true)[0] == vpn_hint(r, true));
    assert(network_hints(r, false)[0] == vpn_hint(r, false));
    if r.route@.len() > 0 {
        a_text_mentions_its_parts("Первый путь сейчас: "@, r.route@, "."@);
        assert(hints[1] == "Первый путь сейчас: "@ + r.route@ + "."@);
    }
    if r.tunnel && r.vpn_exit@.len() > 0 {
        let start = "VPN включён, выход: "@;
        reveal_strlit(" — там ошибка 400, поэтому соединения идут мимо него.");
        reveal_strlit(" — используется как один из путей.");
        a_text_mentions_its_parts(
            start,
            r.vpn_exit@,
            " — там ошибка 400, поэтому соединения идут мимо него."@,
        );
        a_text_mentions_its_parts(start, r.vpn_exit@, " — используется как один из путей."@);
        assert(vpn_hint(r, true).len() != vpn_hint(r, false).len());
    } else {
        assert(network_hints(r, true) =~= network_hints(r, false));
    }
}

} // verus!
