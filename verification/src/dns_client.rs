//! The little of the DNS wire format the relay reads and writes itself.
//!
//! A message is a header of twelve bytes, then the question: a name, as labels
//! each led by its length and ended by an empty one, and two bytes each for the
//! type and the class.
use vstd::prelude::*;

use crate::text::joined;

verus! {

/// The length of a message's header.
pub const HEADER: usize = 12;

/// Where the name that starts at `at` ends: behind its empty label. None for a
/// name that is cut short, or that holds anything but plain labels.
pub open spec fn name_end(msg: Seq<u8>, at: int) -> Option<int>
    decreases msg.len() + 64 - at,
{
    if !(0 <= at < msg.len()) {
        None
    } else if msg[at] == 0 {
        Some(at + 1)
    } else if msg[at] >= 64 {
        None
    } else {
        name_end(msg, at + 1 + msg[at])
    }
}

/// Where the question ends, behind its type and class.
pub open spec fn question_end(msg: Seq<u8>) -> Option<int> {
    match name_end(msg, HEADER as int) {
        Some(end) if end + 4 <= msg.len() => Some(end + 4),
        _ => None,
    }
}

pub open spec fn be16(msg: Seq<u8>, at: int) -> u16 {
    (msg[at] * 256 + msg[at + 1]) as u16
}

/// The type of the question, where there is a whole one.
pub open spec fn type_of(msg: Seq<u8>) -> Option<u16> {
    match question_end(msg) {
        Some(end) => Some(be16(msg, end - 4)),
        None => None,
    }
}

/// How many answers a message says it holds.
pub open spec fn answer_count(msg: Seq<u8>) -> u16 {
    be16(msg, 6)
}

/// A message asks a question worth relaying only if it holds a whole header.
pub fn worth_relaying(len: usize) -> (worth: bool)
    ensures
        worth == (len >= HEADER),
{
    len >= HEADER
}

proof fn lemma_name_end_bounds(msg: Seq<u8>, at: int)
    requires
        at >= 0,
    ensures
        name_end(msg, at) matches Some(end) ==> at < end <= msg.len(),
    decreases msg.len() + 64 - at,
{
    if at < msg.len() && msg[at] != 0 && msg[at] < 64 {
        lemma_name_end_bounds(msg, at + 1 + msg[at]);
    }
}

/// A name is where it is whatever else a message holds.
proof fn lemma_same_name(a: Seq<u8>, b: Seq<u8>, at: int, end: int)
    requires
        at >= 0,
        name_end(a, at) == Some(end),
        b.len() >= end,
        forall|i: int| at <= i < end ==> a[i] == b[i],
    ensures
        name_end(b, at) == Some(end),
    decreases end - at,
{
    lemma_name_end_bounds(a, at);
    assert(a[at] == b[at]);
    if a[at] != 0 {
        lemma_name_end_bounds(a, at + 1 + a[at]);
        lemma_same_name(a, b, at + 1 + a[at], end);
    }
}

/// Where the question ends.
fn find_question_end(msg: &[u8]) -> (end: Option<usize>)
    ensures
        end is Some <==> question_end(msg@) is Some,
        end matches Some(e) ==> question_end(msg@) == Some(e as int) && HEADER + 5 <= e
            <= msg@.len(),
{
    let mut at: usize = HEADER;
    while at < msg.len() && msg[at] != 0
        invariant
            at >= HEADER,
            name_end(msg@, HEADER as int) == name_end(msg@, at as int),
        decreases msg@.len() - at,
    {
        let len: usize = msg[at] as usize;
        if len >= 64 || len >= msg.len() - at {
            assert(len < 64 ==> name_end(msg@, at + 1 + len) is None);
            return None;
        }
        at = at + 1 + len;
    }
    if at < msg.len() && msg.len() - at >= 5 {
        Some(at + 5)
    } else {
        None
    }
}

/// The type of the question, where there is a whole one.
pub fn question_type(msg: &[u8]) -> (qtype: Option<u16>)
    ensures
        qtype == type_of(msg@),
{
    match find_question_end(msg) {
        Some(end) => Some(msg[end - 4] as u16 * 256 + msg[end - 3] as u16),
        None => None,
    }
}

// ---------------------------------------------------------------------------
// The name in the question
// ---------------------------------------------------------------------------

/// Two parts of a dotted name; an empty part takes no dot.
pub open spec fn dotted(a: Seq<char>, b: Seq<char>) -> Seq<char> {
    if a.len() == 0 {
        b
    } else if b.len() == 0 {
        a
    } else {
        a + "."@ + b
    }
}

pub open spec fn all_ascii(bytes: Seq<u8>) -> bool {
    forall|i: int| 0 <= i < bytes.len() ==> (#[trigger] bytes[i]) < 128
}

pub open spec fn bytes_as_text(bytes: Seq<u8>) -> Seq<char> {
    bytes.map_values(|b: u8| b as char)
}

/// The name that starts at `at`, its labels with dots between them. None where
/// the name has no end, or holds a byte that is not ASCII.
pub open spec fn name_at(msg: Seq<u8>, at: int) -> Option<Seq<char>>
    decreases msg.len() + 64 - at,
{
    if !(0 <= at < msg.len()) || msg[at] >= 64 || at + 1 + msg[at] > msg.len() {
        None
    } else if msg[at] == 0 {
        Some(Seq::empty())
    } else {
        let label = msg.subrange(at + 1, at + 1 + msg[at]);
        match name_at(msg, at + 1 + msg[at]) {
            Some(rest) if all_ascii(label) => Some(dotted(bytes_as_text(label), rest)),
            _ => None,
        }
    }
}

/// The name in the question.
pub open spec fn name_of(msg: Seq<u8>) -> Option<Seq<char>> {
    name_at(msg, HEADER as int)
}

proof fn lemma_dotted_assoc(a: Seq<char>, b: Seq<char>, c: Seq<char>)
    requires
        b.len() > 0,
    ensures
        dotted(dotted(a, b), c) == dotted(a, dotted(b, c)),
{
    assert(dotted(dotted(a, b), c) =~= dotted(a, dotted(b, c)));
}

/// Appends the bytes as characters; false at the first that is not ASCII.
fn push_ascii(s: &mut String, bytes: &[u8], from: usize, to: usize) -> (ascii: bool)
    requires
        from <= to <= bytes@.len(),
    ensures
        ascii == all_ascii(bytes@.subrange(from as int, to as int)),
        ascii ==> final(s)@ == old(s)@ + bytes_as_text(bytes@.subrange(from as int, to as int)),
{
    let ghost label = bytes@.subrange(from as int, to as int);
    let mut i: usize = from;
    while i < to
        invariant
            from <= i <= to <= bytes@.len(),
            label == bytes@.subrange(from as int, to as int),
            all_ascii(label.take(i - from)),
            s@ == old(s)@ + bytes_as_text(label.take(i - from)),
        decreases to - i,
    {
        let b = bytes[i];
        assert(label[i - from] == b);
        if b >= 128 {
            return false;
        }
        s.push(b as char);
        proof {
            let n = i - from;
            assert(label.take(n + 1) == label.take(n).push(b));
            assert(s@ == old(s)@ + bytes_as_text(label.take(n + 1)));
            assert forall|j: int| 0 <= j < n + 1 implies (#[trigger] label.take(n + 1)[j]) < 128 by {
                if j < n {
                    assert(label.take(n)[j] == label[j]);
                }
            }
        }
        i = i + 1;
    }
    assert(label.take(label.len() as int) == label);
    true
}

/// The name in the question, where it can be read.
pub fn question_name(msg: &[u8]) -> (name: Option<String>)
    ensures
        match name_of(msg@) {
            Some(n) => name matches Some(s) && s@ == n,
            None => name is None,
        },
{
    let mut name = String::new();
    let mut at: usize = HEADER;
    assert(name_of(msg@) matches Some(n) ==> n == dotted(name@, n));
    while at < msg.len() && msg[at] != 0
        invariant
            at >= HEADER,
            name_of(msg@) is Some <==> name_at(msg@, at as int) is Some,
            name_of(msg@) matches Some(n) ==> n == dotted(name@, name_at(msg@, at as int)->0),
        decreases msg@.len() - at,
    {
        let len: usize = msg[at] as usize;
        if len >= 64 || len >= msg.len() - at {
            return None;
        }
        let ghost before = name@;
        let ghost label = msg@.subrange(at + 1, at + 1 + len);
        if !name.as_str().is_empty() {
            name.append(".");
        }
        if !push_ascii(&mut name, msg, at + 1, at + 1 + len) {
            return None;
        }
        proof {
            assert(name@ == dotted(before, bytes_as_text(label)));
            if let Some(rest) = name_at(msg@, at + 1 + len) {
                lemma_dotted_assoc(before, bytes_as_text(label), rest);
            }
        }
        at = at + 1 + len;
    }
    if at < msg.len() {
        Some(name)
    } else {
        None
    }
}

// ---------------------------------------------------------------------------
// A reply of our own
// ---------------------------------------------------------------------------

/// The record that answers a question for an address: the name by reference to
/// the question, the address type and class, how long it holds, and the address.
pub open spec fn address_record(ip: [u8; 4], ttl: u32) -> Seq<u8> {
    seq![
        0xc0u8,
        0x0c,
        0,
        1,
        0,
        1,
        (ttl / 0x100_0000) as u8,
        (ttl / 0x1_0000 % 0x100) as u8,
        (ttl / 0x100 % 0x100) as u8,
        (ttl % 0x100) as u8,
        0,
        4,
        ip[0],
        ip[1],
        ip[2],
        ip[3],
    ]
}

/// The reply to a question: the id echoed, marked a reply with the opcode and
/// the wish for recursion kept and recursion available, one question, and one
/// answer or none; then the question as it was asked, and the answer.
pub open spec fn reply_of(query: Seq<u8>, ip: Option<[u8; 4]>, ttl: u32) -> Option<Seq<u8>> {
    match question_end(query) {
        Some(end) => Some(
            seq![
                query[0],
                query[1],
                0x80u8 | (query[2] & 0x79),
                0x80u8,
                0,
                1,
                0,
                if ip is Some {
                    1
                } else {
                    0
                },
                0,
                0,
                0,
                0,
            ] + query.subrange(HEADER as int, end) + (match ip {
                Some(ip) => address_record(ip, ttl),
                None => Seq::empty(),
            }),
        ),
        None => None,
    }
}

/// Builds the reply to a question. None where the question is not whole.
pub fn synth_reply(query: &[u8], ip: Option<[u8; 4]>, ttl: u32) -> (reply: Option<Vec<u8>>)
    ensures
        match reply_of(query@, ip, ttl) {
            Some(r) => reply matches Some(v) && v@ == r,
            None => reply is None,
        },
{
    let end = match find_question_end(query) {
        Some(end) => end,
        None => return None,
    };
    let mut r: Vec<u8> = Vec::new();
    r.push(query[0]);
    r.push(query[1]);
    r.push(0x80u8 | (query[2] & 0x79));
    r.push(0x80);
    r.push(0);
    r.push(1);
    r.push(0);
    r.push(
        if ip.is_some() {
            1
        } else {
            0
        },
    );
    r.push(0);
    r.push(0);
    r.push(0);
    r.push(0);
    let ghost head = r@;
    let mut i: usize = HEADER;
    while i < end
        invariant
            HEADER <= i <= end <= query@.len(),
            r@ == head + query@.subrange(HEADER as int, i as int),
        decreases end - i,
    {
        r.push(query[i]);
        assert(query@.subrange(HEADER as int, i + 1) == query@.subrange(HEADER as int, i as int).push(
            query@[i as int],
        ));
        i = i + 1;
    }
    let ghost asked = r@;
    if let Some(ip) = ip {
        r.push(0xc0);
        r.push(0x0c);
        r.push(0);
        r.push(1);
        r.push(0);
        r.push(1);
        r.push((ttl / 0x100_0000) as u8);
        r.push((ttl / 0x1_0000 % 0x100) as u8);
        r.push((ttl / 0x100 % 0x100) as u8);
        r.push((ttl % 0x100) as u8);
        r.push(0);
        r.push(4);
        r.push(ip[0]);
        r.push(ip[1]);
        r.push(ip[2]);
        r.push(ip[3]);
        assert(r@ == asked + address_record(ip, ttl));
    }
    assert(Some(r@) == reply_of(query@, ip, ttl));
    Some(r)
}

/// A reply echoes the id and the question it answers, and holds as many answers
/// as it was given addresses; without one it ends with the question.
pub proof fn a_reply_answers_its_question(query: Seq<u8>, ip: Option<[u8; 4]>, ttl: u32)
    requires
        question_end(query) is Some,
    ensures
        ({
            let reply = reply_of(query, ip, ttl)->0;
            let end = question_end(query)->0;
            &&& reply[0] == query[0] && reply[1] == query[1]
            &&& question_end(reply) == Some(end)
            &&& reply.subrange(HEADER as int, end) == query.subrange(HEADER as int, end)
            &&& type_of(reply) == type_of(query)
            &&& answer_count(reply) == (if ip is Some {
                1u16
            } else {
                0u16
            })
            &&& ip is None ==> reply.len() == end
            &&& ip matches Some(ip) ==> reply.subrange(end, reply.len() as int) == address_record(
                ip,
                ttl,
            )
        }),
{
    let reply = reply_of(query, ip, ttl)->0;
    let name = name_end(query, HEADER as int)->0;
    let end = question_end(query)->0;
    lemma_name_end_bounds(query, HEADER as int);
    assert forall|i: int| HEADER <= i < end implies reply[i] == query[i] by {
        assert(query.subrange(HEADER as int, end)[i - HEADER] == query[i]);
    }
    lemma_same_name(query, reply, HEADER as int, name);
    assert(reply.subrange(HEADER as int, end) == query.subrange(HEADER as int, end));
    if let Some(ip) = ip {
        assert(reply.subrange(end, reply.len() as int) == address_record(ip, ttl));
    }
}

/// Two bytes and four, the most significant first.
pub open spec fn two_bytes(msg: Seq<u8>, at: int) -> int {
    msg[at] * 0x100 + msg[at + 1]
}

pub open spec fn four_bytes(msg: Seq<u8>, at: int) -> int {
    msg[at] * 0x100_0000 + msg[at + 1] * 0x1_0000 + msg[at + 2] * 0x100 + msg[at + 3]
}

/// The record behind the question names the host by where the question names it,
/// is an address of the internet, holds for as long as was said, and ends with the
/// address it was given.
pub proof fn a_reply_gives_the_address_for_its_time(query: Seq<u8>, ip: [u8; 4], ttl: u32)
    requires
        question_end(query) is Some,
    ensures
        ({
            let reply = reply_of(query, Some(ip), ttl)->0;
            let n = reply.len() as int;
            &&& n == question_end(query)->0 + 16
            &&& two_bytes(reply, n - 16) == 0xc000 + 12
            &&& two_bytes(reply, n - 14) == 1
            &&& two_bytes(reply, n - 12) == 1
            &&& four_bytes(reply, n - 10) == ttl
            &&& two_bytes(reply, n - 6) == 4
            &&& reply[n - 4] == ip[0] && reply[n - 3] == ip[1] && reply[n - 2] == ip[2]
                && reply[n - 1] == ip[3]
        }),
{
    a_reply_answers_its_question(query, Some(ip), ttl);
    lemma_name_end_bounds(query, HEADER as int);
    let reply = reply_of(query, Some(ip), ttl)->0;
    let end = question_end(query)->0;
    let record = reply.subrange(end, reply.len() as int);
    assert(record == address_record(ip, ttl));
    assert forall|i: int| 0 <= i < 16 implies reply[end + i] == #[trigger] record[i] by {}
    assert(record[0] == 0xc0 && record[1] == 0x0c && record[2] == 0 && record[3] == 1 && record[4]
        == 0 && record[5] == 1 && record[10] == 0 && record[11] == 4);
    assert(record[6] * 0x100_0000 + record[7] * 0x1_0000 + record[8] * 0x100 + record[9] == ttl)
        by {
        assert(ttl / 0x1_0000 == (ttl / 0x100_0000) * 0x100 + ttl / 0x1_0000 % 0x100);
        assert(ttl / 0x100 == (ttl / 0x1_0000) * 0x100 + ttl / 0x100 % 0x100);
        assert(ttl == (ttl / 0x100) * 0x100 + ttl % 0x100);
    }
    assert(record[12] == ip[0] && record[13] == ip[1] && record[14] == ip[2] && record[15]
        == ip[3]);
}

/// A reply says that it is one and that it went well, to the kind of query it was
/// and with the wish for recursion as it was; and it holds one question, and
/// nothing but that and the answer.
pub proof fn a_reply_is_marked_as_one(query: Seq<u8>, ip: Option<[u8; 4]>, ttl: u32)
    requires
        question_end(query) is Some,
    ensures
        ({
            let reply = reply_of(query, ip, ttl)->0;
            &&& reply[2] & 0x80 == 0x80
            &&& reply[2] & 0x78 == query[2] & 0x78
            &&& reply[2] & 0x01 == query[2] & 0x01
            &&& reply[2] & 0x06 == 0
            &&& reply[3] & 0x0f == 0
            &&& two_bytes(reply, 4) == 1
            &&& two_bytes(reply, 8) == 0
            &&& two_bytes(reply, 10) == 0
        }),
{
    let asked = query[2];
    assert((0x80u8 | (asked & 0x79)) & 0x80 == 0x80) by (bit_vector);
    assert((0x80u8 | (asked & 0x79)) & 0x78 == asked & 0x78) by (bit_vector);
    assert((0x80u8 | (asked & 0x79)) & 0x01 == asked & 0x01) by (bit_vector);
    assert((0x80u8 | (asked & 0x79)) & 0x06 == 0) by (bit_vector);
    assert(0x80u8 & 0x0f == 0) by (bit_vector);
}

// ---------------------------------------------------------------------------
// A question as it is written
// ---------------------------------------------------------------------------

/// A name as it is written: each label led by its length, and an empty one behind
/// them.
pub open spec fn written(labels: Seq<Seq<u8>>) -> Seq<u8>
    decreases labels.len(),
{
    if labels.len() == 0 {
        seq![0u8]
    } else {
        seq![labels[0].len() as u8] + labels[0] + written(labels.skip(1))
    }
}

/// Labels a name can have: not empty, short, and of ASCII.
pub open spec fn plain(labels: Seq<Seq<u8>>) -> bool {
    forall|i: int|
        0 <= i < labels.len() ==> 0 < (#[trigger] labels[i]).len() < 64 && all_ascii(labels[i])
}

/// A question that was written is read back: the name, its labels with dots between
/// them, and the type, whatever stands around them.
pub proof fn a_written_question_reads_back(
    header: Seq<u8>,
    labels: Seq<Seq<u8>>,
    qtype: u16,
    class: Seq<u8>,
    behind: Seq<u8>,
)
    requires
        header.len() == 12,
        plain(labels),
        class.len() == 2,
    ensures
        ({
            let kind = seq![(qtype / 256) as u8, (qtype % 256) as u8];
            let query = header + written(labels) + kind + class + behind;
            &&& name_of(query) == Some(
                joined(labels.map_values(|label: Seq<u8>| bytes_as_text(label)), "."@),
            )
            &&& type_of(query) == Some(qtype)
            &&& question_end(query) == Some((16 + written(labels).len()) as int)
        }),
{
    let kind = seq![(qtype / 256) as u8, (qtype % 256) as u8];
    let query = header + written(labels) + kind + class + behind;
    assert(query =~= header + written(labels) + (kind + class + behind));
    lemma_written_name(header, labels, kind + class + behind);
    let end: int = 12 + written(labels).len() as int;
    assert(query[end] == kind[0] && query[end + 1] == kind[1]);
}

proof fn lemma_written_name(before: Seq<u8>, labels: Seq<Seq<u8>>, behind: Seq<u8>)
    requires
        plain(labels),
    ensures
        ({
            let msg = before + written(labels) + behind;
            let at = before.len() as int;
            &&& name_end(msg, at) == Some(at + written(labels).len())
            &&& name_at(msg, at) == Some(
                joined(labels.map_values(|label: Seq<u8>| bytes_as_text(label)), "."@),
            )
        }),
    decreases labels.len(),
{
    let msg = before + written(labels) + behind;
    let at = before.len() as int;
    let texts = labels.map_values(|label: Seq<u8>| bytes_as_text(label));
    assert(written(labels).len() > 0);
    assert(msg[at] == written(labels)[0]);
    if labels.len() == 0 {
        assert(texts.len() == 0);
        assert(joined(texts, "."@) =~= Seq::<char>::empty());
    } else {
        let label = labels[0];
        let rest = labels.skip(1);
        assert(0 < label.len() < 64 && all_ascii(label));
        let longer = before + seq![label.len() as u8] + label;
        assert(msg =~= longer + written(rest) + behind);
        assert forall|i: int| 0 <= i < rest.len() implies 0 < (#[trigger] rest[i]).len() < 64
            && all_ascii(rest[i]) by {
            assert(rest[i] == labels[i + 1]);
        }
        lemma_written_name(longer, rest, behind);
        assert(msg[at] == label.len());
        assert(longer.len() == at + 1 + label.len());
        assert(msg.subrange(at + 1, at + 1 + label.len()) =~= label);
        let rest_texts = rest.map_values(|label: Seq<u8>| bytes_as_text(label));
        assert(rest_texts =~= texts.skip(1));
        if rest.len() == 0 {
            assert(texts.len() == 1);
            assert(joined(rest_texts, "."@).len() == 0);
        } else {
            assert(texts =~= seq![texts[0]] + rest_texts);
            crate::text::joining_leaves_nothing_out(seq![texts[0]], rest_texts, "."@);
            lemma_joined_len(rest_texts);
            assert(rest_texts[0].len() > 0) by {
                assert(rest_texts[0] == bytes_as_text(rest[0]));
                assert(rest[0].len() > 0);
            }
        }
    }
}

proof fn lemma_joined_len(parts: Seq<Seq<char>>)
    requires
        parts.len() > 0,
    ensures
        joined(parts, "."@).len() >= parts[0].len(),
    decreases parts.len(),
{
    if parts.len() > 1 {
        lemma_joined_len(parts.drop_last());
    }
}

} // verus!
