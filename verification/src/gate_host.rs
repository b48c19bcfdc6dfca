//! What the relay answers for a gate host itself, instead of relaying anyone's
//! answer.
use vstd::hash_map::StringHashMap;
use vstd::prelude::*;

use crate::client_log::{due, is_due};
use crate::dns_client::{
    a_reply_answers_its_question, a_reply_gives_the_address_for_its_time, answer_count, four_bytes, question_end, question_name, question_type, name_of,
    reply_of, synth_reply, type_of,
};
use crate::network::option_view;
use crate::text::{
    a_text_mentions_its_parts, ascii_lower, ascii_lower_text, mentions, same, to_ascii_lowercase,
};
use crate::time::Moment;

verus! {

/// The question type of an IPv4 address.
pub const TYPE_A: u16 = 1;

/// The question type of an IPv6 address.
pub const TYPE_AAAA: u16 = 28;

/// The question types of a service binding. Such a record can carry address
/// hints of its own.
pub const TYPE_SVCB: u16 = 64;

pub const TYPE_HTTPS: u16 = 65;

/// Whether a name is one of the given hosts, in any case.
pub open spec fn among(hosts: Seq<&str>, name: Seq<char>) -> bool {
    exists|i: int|
        0 <= i < hosts.len() && ascii_lower_text(#[trigger] hosts[i]@) == ascii_lower_text(name)
}

/// Whether a name is one of the given hosts, in any case.
pub fn is_gate_host(hosts: &[&str], name: &str) -> (is: bool)
    ensures
        is == among(hosts@, name@),
{
    let lower = to_ascii_lowercase(name);
    for i in 0..hosts.len()
        invariant
            lower@ == ascii_lower_text(name@),
            forall|j: int|
                0 <= j < i ==> ascii_lower_text(#[trigger] hosts@[j]@) != ascii_lower_text(name@),
    {
        if same(to_ascii_lowercase(hosts[i]).as_str(), lower.as_str()) {
            assert(ascii_lower_text(hosts@[i as int]@) == ascii_lower_text(name@));
            return true;
        }
    }
    false
}

/// The name a query is logged and judged under: the one it asks for, or `?`
/// where that cannot be read.
pub fn query_name(query: &[u8]) -> (name: String)
    ensures
        name@ == (match name_of(query@) {
            Some(n) => n,
            None => "?"@,
        }),
{
    match question_name(query) {
        Some(name) => name,
        None => "?".to_owned(),
    }
}

/// A reply of the relay's own.
#[derive(Debug, Clone, PartialEq, Eq)]
pub struct OwnAnswer {
    pub reply: Vec<u8>,
    /// What to log of it: that a host is answered with our own address, now and
    /// then.
    pub line: Option<String>,
}

/// The relay's own reply, if it has one for that query.
pub open spec fn own_reply(
    query: Seq<u8>,
    gate_host: bool,
    loopback: Option<[u8; 4]>,
    ttl: u32,
) -> Option<Seq<u8>> {
    if !gate_host {
        None
    } else if type_of(query) == Some(TYPE_A) {
        if loopback is Some {
            reply_of(query, loopback, ttl)
        } else {
            None
        }
    } else if type_of(query) == Some(TYPE_AAAA) || type_of(query) == Some(TYPE_SVCB) || type_of(
        query,
    ) == Some(TYPE_HTTPS) {
        reply_of(query, None, ttl)
    } else {
        None
    }
}

// ---------------------------------------------------------------------------
// Saying so in the log
// ---------------------------------------------------------------------------

/// For how many seconds after a line about a host there is no other.
pub const NOTE_EVERY: u64 = 30 * 60;

/// When each host, by its name in small letters, was last noted.
pub struct LoopbackNotes {
    pub last: StringHashMap<Moment>,
}

impl View for LoopbackNotes {
    type V = Map<Seq<char>, Moment>;

    open spec fn view(&self) -> Map<Seq<char>, Moment> {
        self.last@
    }
}

/// What the log says of a host answered with our own address.
pub open spec fn note_line(name: Seq<char>) -> Seq<char> {
    "loopback     "@ + name + " [наш маршрут]"@
}

/// Whether a host is due a line: never noted, or not for a while.
pub open spec fn note_due(notes: Map<Seq<char>, Moment>, name: Seq<char>, now: nat) -> bool {
    let key = ascii_lower_text(name);
    is_due(
        if notes.contains_key(key) {
            Some(notes[key])
        } else {
            None
        },
        now,
        NOTE_EVERY,
    )
}

impl LoopbackNotes {
    pub fn new() -> (n: LoopbackNotes)
        ensures
            n@ == Map::<Seq<char>, Moment>::empty(),
    {
        LoopbackNotes { last: StringHashMap::new() }
    }

    /// The line that a gate host is being answered with our own address - once,
    /// and again only after a while, so that a client re-asking every thirty
    /// seconds does not fill the log.
    pub fn note_loopback(&mut self, name: &str, now: Moment) -> (line: Option<String>)
        ensures
            option_view(line) == (if note_due(old(self)@, name@, now@) {
                Some(note_line(name@))
            } else {
                None
            }),
            final(self)@ == (if note_due(old(self)@, name@, now@) {
                old(self)@.insert(ascii_lower_text(name@), now)
            } else {
                old(self)@
            }),
    {
        let key = to_ascii_lowercase(name);
        let last: Option<Moment> = match self.last.get(key.as_str()) {
            Some(at) => Some(*at),
            None => None,
        };
        if due(last, now, NOTE_EVERY) {
            self.last.insert(key, now);
            let mut line = "loopback     ".to_owned();
            line.append(name);
            line.append(" [наш маршрут]");
            Some(line)
        } else {
            None
        }
    }
}

/// Once a host is noted, nothing more is said of it, however its name is
/// capitalised, until the time is over; and noting it says nothing of others.
pub proof fn a_host_is_noted_once_in_its_time(
    notes: Map<Seq<char>, Moment>,
    name: Seq<char>,
    at: Moment,
    other: Seq<char>,
    now: nat,
)
    requires
        now >= at@,
    ensures
        ({
            let after = notes.insert(ascii_lower_text(name), at);
            &&& ascii_lower_text(other) == ascii_lower_text(name) ==> (note_due(after, other, now)
                <==> now - at@ >= NOTE_EVERY * crate::time::NANOS_PER_SEC)
            &&& ascii_lower_text(other) != ascii_lower_text(name) ==> note_due(after, other, now)
                == note_due(notes, other, now)
        }),
{
}

// ---------------------------------------------------------------------------
// The answer
// ---------------------------------------------------------------------------

/// The answer the relay gives a gate host itself instead of relaying anyone's.
///
/// For an address: the loopback listener's address for that host, while it is
/// up. For an IPv6 address or a service binding: an empty answer, always - an
/// IPv6 client handed Google's own address dials it from the blocked
/// region with the whole layer "working". Anything else is relayed.
pub fn own_answer(
    query: &[u8],
    name: &str,
    gate_hosts: &[&str],
    loopback: Option<[u8; 4]>,
    ttl: u32,
    notes: &mut LoopbackNotes,
    now: Moment,
) -> (answer: Option<OwnAnswer>)
    ensures
        ({
            let noted = among(gate_hosts@, name@) && type_of(query@) == Some(TYPE_A) && loopback
                is Some && note_due(old(notes)@, name@, now@);
            &&& match own_reply(query@, among(gate_hosts@, name@), loopback, ttl) {
                Some(r) => answer matches Some(a) && a.reply@ == r && option_view(a.line) == (
                if noted {
                    Some(note_line(name@))
                } else {
                    None
                }),
                None => answer is None,
            }
            &&& final(notes)@ == (if noted {
                old(notes)@.insert(ascii_lower_text(name@), now)
            } else {
                old(notes)@
            })
        }),
{
    if !is_gate_host(gate_hosts, name) {
        return None;
    }
    let qtype: u16 = match question_type(query) {
        Some(t) => t,
        None => {
            return None;
        },
    };
    if qtype == TYPE_A {
        if loopback.is_none() {
            return None;
        }
        let line = notes.note_loopback(name, now);
        match synth_reply(query, loopback, ttl) {
            Some(reply) => Some(OwnAnswer { reply, line }),
            None => None,
        }
    } else if qtype == TYPE_AAAA || qtype == TYPE_SVCB || qtype == TYPE_HTTPS {
        match synth_reply(query, None, ttl) {
            Some(reply) => Some(OwnAnswer { reply, line: None }),
            None => None,
        }
    } else {
        None
    }
}

/// A gate host's IPv6 and service questions are always answered by the relay,
/// with no address; its IPv4 question is whenever the loopback listener is up,
/// with one address. Either way the reply answers the question that was asked.
pub proof fn gate_hosts_never_leak(query: Seq<u8>, loopback: Option<[u8; 4]>, ttl: u32)
    ensures
        type_of(query) matches Some(t) && (t == TYPE_AAAA || t == TYPE_SVCB || t == TYPE_HTTPS)
            ==> own_reply(query, true, loopback, ttl) is Some && answer_count(
            own_reply(query, true, loopback, ttl)->0,
        ) == 0,
        type_of(query) == Some(TYPE_A) && loopback is Some ==> own_reply(
            query,
            true,
            loopback,
            ttl,
        ) is Some && answer_count(own_reply(query, true, loopback, ttl)->0) == 1,
        own_reply(query, true, loopback, ttl) matches Some(r) ==> type_of(r) == type_of(query)
            && r[0] == query[0] && r[1] == query[1],
{
    if question_end(query) is Some {
        a_reply_answers_its_question(query, loopback, ttl);
        a_reply_answers_its_question(query, None, ttl);
    }
}

/// Nothing but a gate host is ever answered by the relay itself.
pub proof fn other_names_are_relayed(query: Seq<u8>, loopback: Option<[u8; 4]>, ttl: u32)
    ensures
        own_reply(query, false, loopback, ttl) is None,
{
}

/// While the listener is up, the reply to a gate host's question for an address
/// ends with one record: it holds for the time it was given, and its address is
/// the listener's. While it is down there is no such reply, whatever the time.
pub proof fn the_listener_is_given_for_its_time(query: Seq<u8>, ip: [u8; 4], ttl: u32)
    requires
        type_of(query) == Some(1u16),
    ensures
        own_reply(query, true, None, ttl) is None,
        own_reply(query, true, Some(ip), ttl) is Some,
        ({
            let reply = own_reply(query, true, Some(ip), ttl)->0;
            let n = reply.len() as int;
            &&& n == question_end(query)->0 + 16
            &&& four_bytes(reply, n - 10) == ttl
            &&& reply[n - 4] == ip[0] && reply[n - 3] == ip[1] && reply[n - 2] == ip[2]
                && reply[n - 1] == ip[3]
        }),
{
    a_reply_gives_the_address_for_its_time(query, ip, ttl);
}

/// The empty answer is the same whether the listener is up or not, and whatever the
/// time; and questions of any other type, or none that can be read, are left to be
/// relayed.
pub proof fn only_the_known_types_are_answered(
    query: Seq<u8>,
    loopback: Option<[u8; 4]>,
    other: Option<[u8; 4]>,
    ttl: u32,
    later: u32,
)
    ensures
        type_of(query) != Some(1u16) ==> own_reply(query, true, loopback, ttl) == own_reply(
            query,
            true,
            other,
            later,
        ),
        own_reply(query, true, loopback, ttl) is Some ==> type_of(query) == Some(1u16) || type_of(
            query,
        ) == Some(28u16) || type_of(query) == Some(64u16) || type_of(query) == Some(65u16),
        type_of(query) == Some(28u16) || type_of(query) == Some(64u16) || type_of(query) == Some(
            65u16,
        ) ==> own_reply(query, true, loopback, ttl) is Some && own_reply(
            query,
            true,
            loopback,
            ttl,
        )->0.len() == question_end(query)->0,
{
    if question_end(query) is Some {
        a_reply_answers_its_question(query, None, ttl);
    }
}

/// A name is a gate host by the list and nothing else: each host of the list is
/// one, in any case; a longer list has all of a shorter one; and only a name as
/// long as one of the hosts, and the same but for case, is one.
pub proof fn gate_hosts_are_those_of_the_list(hosts: Seq<&str>, more: Seq<&str>, name: Seq<char>)
    ensures
        among(hosts + more, name) <==> among(hosts, name) || among(more, name),
        !among(Seq::<&str>::empty(), name),
        forall|i: int| 0 <= i < hosts.len() ==> among(hosts, #[trigger] hosts[i]@),
        among(hosts, ascii_lower_text(name)) == among(hosts, name),
        among(hosts, name) ==> exists|i: int|
            0 <= i < hosts.len() && (#[trigger] hosts[i])@.len() == name.len() && forall|k: int|
                0 <= k < name.len() ==> ascii_lower(#[trigger] hosts[i]@[k]) == ascii_lower(
                    name[k],
                ),
{
    let both = hosts + more;
    let lower = ascii_lower_text(name);
    if among(both, name) {
        let i = choose|i: int|
            0 <= i < both.len() && ascii_lower_text(#[trigger] both[i]@) == lower;
        if i < hosts.len() {
            assert(hosts[i] == both[i]);
        } else {
            assert(more[i - hosts.len()] == both[i]);
        }
    }
    if among(hosts, name) {
        let i = choose|i: int|
            0 <= i < hosts.len() && ascii_lower_text(#[trigger] hosts[i]@) == lower;
        assert(both[i] == hosts[i]);
        let h = hosts[i]@;
        assert(ascii_lower_text(h).len() == h.len() && lower.len() == name.len());
        assert forall|k: int| 0 <= k < name.len() implies ascii_lower(#[trigger] hosts[i]@[k])
            == ascii_lower(name[k]) by {
            assert(ascii_lower_text(h)[k] == lower[k]);
        }
    }
    if among(more, name) {
        let i = choose|i: int|
            0 <= i < more.len() && ascii_lower_text(#[trigger] more[i]@) == lower;
        assert(both[hosts.len() + i] == more[i]);
    }
    assert(ascii_lower_text(lower) =~= lower) by {
        assert forall|k: int| 0 <= k < name.len() implies ascii_lower_text(lower)[k]
            == lower[k] by {
            assert(lower[k] == ascii_lower(name[k]));
        }
    }
}

/// The line about a host names it as it was asked for.
pub proof fn a_note_names_the_host(name: Seq<char>)
    ensures
        mentions(note_line(name), name),
{
    a_text_mentions_its_parts("loopback     "@, name, " [наш маршрут]"@);
}

} // verus!
