//! Answering what the client's own logs say.
//!
//! The one place the region 400 and the model answer are written down is the
//! client's log. A refusal benches the route that carried it, an answer proves
//! the route that carried it.
use vstd::prelude::*;

use crate::network::option_view;
use crate::relay_log::{human_minutes, log_proxy, minutes_text};
use crate::text::{
    a_text_mentions_its_parts, decimal, mentions, push_decimal, stands_at, views,
};
use crate::time::{elapsed, Moment, Span, NANOS_PER_SEC};

verus! {

/// How often, in seconds, the client logs are looked at: a user who sees the error
/// and sends the message again should find the route already switched.
pub const LOG_WATCH_EVERY: u64 = 2;

/// What one look at a client log found.
#[derive(Debug, Clone, PartialEq, Eq)]
pub struct Tally {
    pub refusals: usize,
    pub answers: usize,
    /// How long ago the newest of each was, where its stamp could be read.
    pub refused_ago: Option<Span>,
    pub answered_ago: Option<Span>,
    /// The host the newest of each came from, where it is known.
    pub refused_host: Option<String>,
    pub answered_host: Option<String>,
}

/// A client log, by its file name, and what was found in it.
#[derive(Debug, Clone, PartialEq, Eq)]
pub struct Hit {
    pub file: String,
    pub tally: Tally,
}

#[derive(Debug, Clone, Copy, PartialEq, Eq, Structural)]
pub enum Kind {
    Refused,
    Answered,
}

/// A refusal or an answer that can be placed in time, and so be acted on.
#[derive(Debug, Clone, PartialEq, Eq)]
pub struct Event {
    pub kind: Kind,
    pub count: usize,
    pub at: Moment,
    pub host: Option<String>,
}

/// An event, in mathematical terms.
pub struct News {
    pub kind: Kind,
    pub count: nat,
    pub at: nat,
    pub host: Option<Seq<char>>,
}

impl View for Event {
    type V = News;

    open spec fn view(&self) -> News {
        News {
            kind: self.kind,
            count: self.count as nat,
            at: self.at@,
            host: option_view(self.host),
        }
    }
}

/// What a look at the logs comes to: the lines to log, and what to act on, in
/// order.
#[derive(Debug, Clone, PartialEq, Eq)]
pub struct LogNews {
    pub lines: Vec<String>,
    pub events: Vec<Event>,
}

// ---------------------------------------------------------------------------
// The newest of several
// ---------------------------------------------------------------------------

/// The more recent of two ages.
pub open spec fn newest_of(a: Option<Span>, b: Option<Span>) -> Option<Span> {
    match (a, b) {
        (Some(x), Some(y)) => if x@ <= y@ {
            Some(x)
        } else {
            Some(y)
        },
        (x, None) => x,
        (None, y) => y,
    }
}

/// The more recent of two ages.
pub fn newest(a: Option<Span>, b: Option<Span>) -> (n: Option<Span>)
    ensures
        n == newest_of(a, b),
{
    match (a, b) {
        (Some(x), Some(y)) => if x.as_nanos() <= y.as_nanos() {
            Some(x)
        } else {
            Some(y)
        },
        (x, None) => x,
        (None, y) => y,
    }
}

/// Whether the age at `i` is the most recent of all; of equal ones the last in
/// the list counts.
pub open spec fn is_newest(ages: Seq<Option<Span>>, i: int) -> bool {
    &&& 0 <= i < ages.len()
    &&& ages[i] is Some
    &&& forall|j: int|
        0 <= j < ages.len() && (#[trigger] ages[j]) is Some ==> ages[i]->0@ <= ages[j]->0@ && (j > i
            ==> ages[i]->0@ < ages[j]->0@)
}

/// Where the most recent age stands, if there is any age at all.
pub open spec fn newest_index(ages: Seq<Option<Span>>) -> Option<int> {
    if exists|i: int| is_newest(ages, i) {
        Some(choose|i: int| is_newest(ages, i))
    } else {
        None
    }
}

/// There is at most one most recent age.
proof fn lemma_newest_unique(ages: Seq<Option<Span>>, i: int)
    requires
        is_newest(ages, i),
    ensures
        newest_index(ages) == Some(i),
{
    let k = choose|k: int| is_newest(ages, k);
    assert(is_newest(ages, k));
    if k < i {
        assert(ages[k]->0@ < ages[i]->0@);
    } else if i < k {
        assert(ages[i]->0@ < ages[k]->0@);
    }
}

/// A list with any age in it has a most recent one.
pub proof fn some_age_is_the_newest(ages: Seq<Option<Span>>)
    ensures
        newest_index(ages) is None <==> (forall|i: int|
            0 <= i < ages.len() ==> (#[trigger] ages[i]) is None),
        newest_index(ages) matches Some(i) ==> is_newest(ages, i),
    decreases ages.len(),
{
    if ages.len() > 0 {
        let head = ages.drop_last();
        some_age_is_the_newest(head);
        lemma_newest_push(head, ages.last());
        assert(head.push(ages.last()) == ages);
        if newest_index(ages) is None {
            assert forall|i: int| 0 <= i < ages.len() implies (#[trigger] ages[i]) is None by {
                if i < head.len() {
                    assert(head[i] is None);
                }
            }
        }
    }
}

/// One more age at the end is the most recent when nothing before it is more
/// recent.
proof fn lemma_newest_push(ages: Seq<Option<Span>>, age: Option<Span>)
    requires
        newest_index(ages) is None ==> (forall|i: int|
            0 <= i < ages.len() ==> (#[trigger] ages[i]) is None),
    ensures
        newest_index(ages.push(age)) == (match (newest_index(ages), age) {
            (p, None) => p,
            (None, Some(_)) => Some(ages.len() as int),
            (Some(i), Some(x)) => if x@ <= ages[i]->0@ {
                Some(ages.len() as int)
            } else {
                Some(i)
            },
        }),
{
    let longer = ages.push(age);
    match (newest_index(ages), age) {
        (Some(i), None) => {
            assert(is_newest(ages, i));
            assert(is_newest(longer, i)) by {
                assert forall|j: int|
                    0 <= j < longer.len() && (#[trigger] longer[j]) is Some implies longer[i]->0@
                    <= longer[j]->0@ && (j > i ==> longer[i]->0@ < longer[j]->0@) by {
                    assert(longer[j] == ages[j]);
                }
            }
            lemma_newest_unique(longer, i);
        },
        (None, None) => {
            assert forall|i: int| !is_newest(longer, i) by {
                if 0 <= i < ages.len() {
                    assert(longer[i] == ages[i]);
                }
            }
        },
        (None, Some(x)) => {
            assert(is_newest(longer, ages.len() as int)) by {
                assert forall|j: int|
                    0 <= j < longer.len() && (#[trigger] longer[j]) is Some implies j
                    == ages.len() by {
                    if j < ages.len() {
                        assert(longer[j] == ages[j]);
                    }
                }
            }
            lemma_newest_unique(longer, ages.len() as int);
        },
        (Some(i), Some(x)) => {
            assert(is_newest(ages, i));
            let k = if x@ <= ages[i]->0@ {
                ages.len() as int
            } else {
                i
            };
            assert(is_newest(longer, k)) by {
                assert forall|j: int|
                    0 <= j < longer.len() && (#[trigger] longer[j]) is Some implies longer[k]->0@
                    <= longer[j]->0@ && (j > k ==> longer[k]->0@ < longer[j]->0@) by {
                    if j < ages.len() {
                        assert(longer[j] == ages[j]);
                    }
                }
            }
            lemma_newest_unique(longer, k);
        },
    }
}

// ---------------------------------------------------------------------------
// From the logs to what is acted on
// ---------------------------------------------------------------------------

impl Tally {
    pub open spec fn count(self, kind: Kind) -> usize {
        match kind {
            Kind::Refused => self.refusals,
            Kind::Answered => self.answers,
        }
    }

    pub open spec fn age(self, kind: Kind) -> Option<Span> {
        match kind {
            Kind::Refused => self.refused_ago,
            Kind::Answered => self.answered_ago,
        }
    }

    pub open spec fn host(self, kind: Kind) -> Option<Seq<char>> {
        match kind {
            Kind::Refused => option_view(self.refused_host),
            Kind::Answered => option_view(self.answered_host),
        }
    }
}

/// How many refusals or answers the logs hold together.
pub open spec fn total(hits: Seq<Hit>, kind: Kind) -> nat
    decreases hits.len(),
{
    if hits.len() == 0 {
        0
    } else {
        total(hits.drop_last(), kind) + hits.last().tally.count(kind) as nat
    }
}

/// The age of the newest refusal or answer of each log.
pub open spec fn ages(hits: Seq<Hit>, kind: Kind) -> Seq<Option<Span>> {
    Seq::new(hits.len(), |i: int| hits[i].tally.age(kind))
}

/// What there is to act on of one kind. Only an event that can be placed in
/// time is: a line whose stamp would not parse, or one older than the tunnels
/// are remembered, would be pinned on whatever route is open now.
pub open spec fn placed(hits: Seq<Hit>, kind: Kind, now: nat, memory: nat) -> Option<News> {
    match newest_index(ages(hits, kind)) {
        Some(i) => {
            let ago = hits[i].tally.age(kind)->0@;
            if total(hits, kind) > 0 && ago <= memory && ago <= now {
                Some(
                    News {
                        kind,
                        count: total(hits, kind),
                        at: (now - ago) as nat,
                        host: hits[i].tally.host(kind),
                    },
                )
            } else {
                None
            }
        },
        None => None,
    }
}

/// The older of the two comes first; a refusal first where both are as old.
pub open spec fn in_order(refusal: Option<News>, answer: Option<News>) -> Seq<News> {
    match (refusal, answer) {
        (Some(r), Some(a)) => if a.at < r.at {
            seq![a, r]
        } else {
            seq![r, a]
        },
        (Some(r), None) => seq![r],
        (None, Some(a)) => seq![a],
        (None, None) => seq![],
    }
}

/// The line of a log with refusals in it.
pub open spec fn refusal_line(h: Hit) -> Seq<char> {
    "proxy        "@ + ("region-400 x"@ + decimal(h.tally.refusals as nat) + " в "@ + h.file@
        + " — Antigravity упёрся в гейт"@)
}

/// One line for each log with refusals in it.
pub open spec fn refusal_lines(hits: Seq<Hit>) -> Seq<Seq<char>>
    decreases hits.len(),
{
    if hits.len() == 0 {
        seq![]
    } else {
        let before = refusal_lines(hits.drop_last());
        if hits.last().tally.refusals > 0 {
            before.push(refusal_line(hits.last()))
        } else {
            before
        }
    }
}

pub open spec fn news_of(events: Seq<Event>) -> Seq<News> {
    events.map_values(|e: Event| e@)
}

proof fn lemma_total_prefix(hits: Seq<Hit>, kind: Kind, i: int)
    requires
        0 <= i <= hits.len(),
    ensures
        total(hits.take(i), kind) <= total(hits, kind),
    decreases hits.len() - i,
{
    if i < hits.len() {
        lemma_total_prefix(hits, kind, i + 1);
        assert(hits.take(i + 1).drop_last() == hits.take(i));
    } else {
        assert(hits.take(i) == hits);
    }
}

fn copy_host(host: &Option<String>) -> (copy: Option<String>)
    ensures
        option_view(copy) == option_view(*host),
{
    match host {
        Some(h) => Some(h.clone()),
        None => None,
    }
}

/// What there is to act on of one kind.
fn gather(hits: &[Hit], kind: Kind, now: Moment, memory: Span) -> (event: Option<Event>)
    requires
        total(hits@, kind) <= usize::MAX,
    ensures
        match placed(hits@, kind, now@, memory@) {
            Some(news) => event matches Some(e) && e@ == news,
            None => event is None,
        },
{
    let mut count: usize = 0;
    let mut ago: Option<Span> = None;
    let mut host: Option<String> = None;
    for i in 0..hits.len()
        invariant
            total(hits@, kind) <= usize::MAX,
            count == total(hits@.take(i as int), kind),
            match newest_index(ages(hits@.take(i as int), kind)) {
                Some(k) => ago is Some && ago == hits@[k].tally.age(kind) && option_view(host)
                    == hits@[k].tally.host(kind) && 0 <= k < i,
                None => ago is None,
            },
    {
        let ghost before = ages(hits@.take(i as int), kind);
        let tally = &hits[i].tally;
        let (n, age, from) = match kind {
            Kind::Refused => (tally.refusals, tally.refused_ago, &tally.refused_host),
            Kind::Answered => (tally.answers, tally.answered_ago, &tally.answered_host),
        };
        proof {
            lemma_total_prefix(hits@, kind, i + 1);
            assert(hits@.take(i + 1).drop_last() == hits@.take(i as int));
            assert(ages(hits@.take(i + 1), kind) == before.push(age));
            some_age_is_the_newest(before);
            lemma_newest_push(before, age);
        }
        count = count + n;
        if let Some(x) = age {
            let takes_over = match ago {
                Some(y) => x.as_nanos() <= y.as_nanos(),
                None => true,
            };
            if takes_over {
                host = copy_host(from);
            }
            proof {
                if let Some(y) = ago {
                    if x@ == y@ {
                        crate::time::span_is_its_length(x, y);
                    }
                }
            }
        }
        ago = newest(ago, age);
    }
    assert(hits@.take(hits@.len() as int) == hits@);
    if count == 0 {
        return None;
    }
    match ago {
        Some(a) => {
            if a.as_nanos() > memory.as_nanos() {
                return None;
            }
            match now.checked_sub(a) {
                Some(at) => Some(Event { kind, count, at, host }),
                None => None,
            }
        },
        None => None,
    }
}

/// Answers what the client logs say: the lines to log, and the refusal and the
/// answer to act on, the older of the two first - so that a pass that saw a
/// refusal and then an answer on the route that replaced it ends with the right
/// route proven, and one that saw an answer and then a refusal ends with it
/// benched. `memory` is how long the tunnels are remembered.
pub fn answer_log(hits: &[Hit], now: Moment, memory: Span) -> (news: LogNews)
    requires
        total(hits@, Kind::Refused) <= usize::MAX,
        total(hits@, Kind::Answered) <= usize::MAX,
    ensures
        views(news.lines@) == refusal_lines(hits@),
        news_of(news.events@) == in_order(
            placed(hits@, Kind::Refused, now@, memory@),
            placed(hits@, Kind::Answered, now@, memory@),
        ),
{
    let mut lines: Vec<String> = Vec::new();
    for i in 0..hits.len()
        invariant
            views(lines@) == refusal_lines(hits@.take(i as int)),
    {
        let h = &hits[i];
        assert(hits@.take(i + 1).drop_last() == hits@.take(i as int));
        if h.tally.refusals > 0 {
            let mut text = "region-400 x".to_owned();
            push_decimal(&mut text, h.tally.refusals as u64);
            text.append(" в ");
            text.append(h.file.as_str());
            text.append(" — Antigravity упёрся в гейт");
            let line = log_proxy(text.as_str());
            let ghost so_far = lines@;
            lines.push(line);
            assert(views(lines@) == views(so_far).push(line@));
        }
    }
    assert(hits@.take(hits@.len() as int) == hits@);
    let mut events: Vec<Event> = Vec::new();
    let refusal = gather(hits, Kind::Refused, now, memory);
    let answer = gather(hits, Kind::Answered, now, memory);
    match (refusal, answer) {
        (Some(r), Some(a)) => {
            if a.at.is_before(r.at) {
                events.push(a);
                events.push(r);
            } else {
                events.push(r);
                events.push(a);
            }
        },
        (Some(r), None) => {
            events.push(r);
        },
        (None, Some(a)) => {
            events.push(a);
        },
        (None, None) => {},
    }
    assert(news_of(events@) == in_order(
        placed(hits@, Kind::Refused, now@, memory@),
        placed(hits@, Kind::Answered, now@, memory@),
    ));
    LogNews { lines, events }
}

/// What is acted on is acted on in the order it happened, at most one of each
/// kind, and nothing older than the tunnels are remembered.
pub proof fn news_is_acted_on_in_order(hits: Seq<Hit>, now: nat, memory: nat)
    ensures
        ({
            let events = in_order(
                placed(hits, Kind::Refused, now, memory),
                placed(hits, Kind::Answered, now, memory),
            );
            &&& events.len() <= 2
            &&& events.len() == 2 ==> events[0].at <= events[1].at && events[0].kind
                != events[1].kind
            &&& forall|i: int|
                0 <= i < events.len() ==> now - memory <= (#[trigger] events[i]).at <= now
                    && events[i].count > 0
        }),
{
}

/// Nothing that can be placed is left out, and nothing else is acted on: there is
/// one event for each kind that can be placed, and it is that one, whatever the
/// other is.
pub proof fn what_can_be_placed_is_acted_on(hits: Seq<Hit>, kind: Kind, now: nat, memory: nat)
    ensures
        ({
            let events = in_order(
                placed(hits, Kind::Refused, now, memory),
                placed(hits, Kind::Answered, now, memory),
            );
            let refused = placed(hits, Kind::Refused, now, memory) is Some;
            let answered = placed(hits, Kind::Answered, now, memory) is Some;
            &&& events.len() == (if refused && answered {
                2nat
            } else if refused || answered {
                1nat
            } else {
                0nat
            })
            &&& placed(hits, kind, now, memory) matches Some(event) ==> events.contains(event)
            &&& forall|i: int|
                0 <= i < events.len() && (#[trigger] events[i]).kind == kind ==> placed(
                    hits,
                    kind,
                    now,
                    memory,
                ) == Some(events[i])
        }),
{
    let refusal = placed(hits, Kind::Refused, now, memory);
    let answer = placed(hits, Kind::Answered, now, memory);
    let events = in_order(refusal, answer);
    if let Some(r) = refusal {
        assert(events[0] == r || events[1] == r);
    }
    if let Some(a) = answer {
        assert(events[0] == a || events[1] == a);
    }
}

/// What the logs hold together is what each of them holds.
pub proof fn counts_add_up(hits: Seq<Hit>, more: Seq<Hit>, kind: Kind)
    ensures
        total(hits + more, kind) == total(hits, kind) + total(more, kind),
        hits.len() == 0 ==> total(hits, kind) == 0,
        hits.len() == 1 ==> total(hits, Kind::Refused) == hits[0].tally.refusals && total(
            hits,
            Kind::Answered,
        ) == hits[0].tally.answers,
    decreases more.len(),
{
    if hits.len() == 1 {
        assert(hits.drop_last().len() == 0);
        assert(total(hits.drop_last(), Kind::Refused) == 0);
        assert(total(hits.drop_last(), Kind::Answered) == 0);
    }
    if more.len() > 0 {
        counts_add_up(hits, more.drop_last(), kind);
        assert((hits + more).drop_last() == hits + more.drop_last());
        assert((hits + more).last() == more.last());
    } else {
        assert(hits + more == hits);
    }
}

/// A refusal is acted on exactly when there are any and one of the logs dates one
/// within the time the tunnels are remembered. It is dated by the most recent of
/// them, and is from the host that log names - of two as recent, the later log.
pub proof fn the_newest_refusal_is_acted_on(hits: Seq<Hit>, now: nat, memory: nat)
    ensures
        ({
            let event = placed(hits, Kind::Refused, now, memory);
            &&& event is Some <==> total(hits, Kind::Refused) > 0 && exists|i: int|
                0 <= i < hits.len() && (#[trigger] hits[i]).tally.refused_ago is Some
                    && hits[i].tally.refused_ago->0@ <= memory && hits[i].tally.refused_ago->0@
                    <= now
            &&& event matches Some(e) ==> {
                &&& e.kind == Kind::Refused
                &&& e.count == total(hits, Kind::Refused)
                &&& forall|i: int|
                    0 <= i < hits.len() && (#[trigger] hits[i]).tally.refused_ago is Some ==> e.at
                        + hits[i].tally.refused_ago->0@ >= now
                &&& exists|i: int|
                    0 <= i < hits.len() && (#[trigger] hits[i]).tally.refused_ago is Some && e.at
                        + hits[i].tally.refused_ago->0@ == now && e.host == option_view(
                        hits[i].tally.refused_host,
                    ) && forall|j: int|
                        i < j < hits.len() && (#[trigger] hits[j]).tally.refused_ago is Some ==> e.at
                            + hits[j].tally.refused_ago->0@ > now
            }
        }),
{
    let dated = ages(hits, Kind::Refused);
    some_age_is_the_newest(dated);
    assert forall|i: int| 0 <= i < hits.len() implies dated[i] == (
    #[trigger] hits[i]).tally.refused_ago by {}
    if let Some(k) = newest_index(dated) {
        assert(is_newest(dated, k));
        assert(hits[k].tally.refused_ago == dated[k]);
        assert forall|i: int|
            0 <= i < hits.len() && (
            #[trigger] hits[i]).tally.refused_ago is Some implies dated[k]->0@
            <= hits[i].tally.refused_ago->0@ && (i > k ==> dated[k]->0@
            < hits[i].tally.refused_ago->0@) by {
            assert(dated[i] is Some);
        }
    } else {
        assert forall|i: int| 0 <= i < hits.len() implies (
        #[trigger] hits[i]).tally.refused_ago is None by {
            assert(dated[i] is None);
        }
    }
}

/// And so is an answer, by what the logs say of answers.
pub proof fn the_newest_answer_is_acted_on(hits: Seq<Hit>, now: nat, memory: nat)
    ensures
        ({
            let event = placed(hits, Kind::Answered, now, memory);
            &&& event is Some <==> total(hits, Kind::Answered) > 0 && exists|i: int|
                0 <= i < hits.len() && (#[trigger] hits[i]).tally.answered_ago is Some
                    && hits[i].tally.answered_ago->0@ <= memory && hits[i].tally.answered_ago->0@
                    <= now
            &&& event matches Some(e) ==> {
                &&& e.kind == Kind::Answered
                &&& e.count == total(hits, Kind::Answered)
                &&& forall|i: int|
                    0 <= i < hits.len() && (#[trigger] hits[i]).tally.answered_ago is Some ==> e.at
                        + hits[i].tally.answered_ago->0@ >= now
                &&& exists|i: int|
                    0 <= i < hits.len() && (#[trigger] hits[i]).tally.answered_ago is Some && e.at
                        + hits[i].tally.answered_ago->0@ == now && e.host == option_view(
                        hits[i].tally.answered_host,
                    ) && forall|j: int|
                        i < j < hits.len() && (#[trigger] hits[j]).tally.answered_ago is Some
                            ==> e.at + hits[j].tally.answered_ago->0@ > now
            }
        }),
{
    let dated = ages(hits, Kind::Answered);
    some_age_is_the_newest(dated);
    assert forall|i: int| 0 <= i < hits.len() implies dated[i] == (
    #[trigger] hits[i]).tally.answered_ago by {}
    if let Some(k) = newest_index(dated) {
        assert(is_newest(dated, k));
        assert(hits[k].tally.answered_ago == dated[k]);
        assert forall|i: int|
            0 <= i < hits.len() && (
            #[trigger] hits[i]).tally.answered_ago is Some implies dated[k]->0@
            <= hits[i].tally.answered_ago->0@ && (i > k ==> dated[k]->0@
            < hits[i].tally.answered_ago->0@) by {
            assert(dated[i] is Some);
        }
    } else {
        assert forall|i: int| 0 <= i < hits.len() implies (
        #[trigger] hits[i]).tally.answered_ago is None by {
            assert(dated[i] is None);
        }
    }
}

/// The more recent of two ages is one of them, and neither is more recent; an age
/// that is known is more recent than one that is not.
pub proof fn the_newest_is_no_older(a: Option<Span>, b: Option<Span>)
    ensures
        newest_of(a, b) == a || newest_of(a, b) == b,
        newest_of(a, b) is None <==> a is None && b is None,
        a is Some ==> newest_of(a, b)->0@ <= a->0@,
        b is Some ==> newest_of(a, b)->0@ <= b->0@,
{
}

/// Every log with refusals in it, and no other, has its line, in the order of the
/// logs; and the line names the log and how many there are.
pub proof fn every_log_with_refusals_is_named(hits: Seq<Hit>, h: Hit)
    ensures
        h.tally.refusals == 0 ==> refusal_lines(hits.push(h)) == refusal_lines(hits),
        h.tally.refusals > 0 ==> refusal_lines(hits.push(h)) == refusal_lines(hits).push(
            refusal_line(h),
        ),
        refusal_lines(Seq::<Hit>::empty()).len() == 0,
        mentions(refusal_line(h), h.file@),
        mentions(refusal_line(h), decimal(h.tally.refusals as nat)),
{
    assert(hits.push(h).drop_last() == hits);
    assert(hits.push(h).last() == h);
    let n = decimal(h.tally.refusals as nat);
    let to_n = "proxy        "@ + "region-400 x"@;
    let to_file = to_n + n + " в "@;
    let end = " — Antigravity упёрся в гейт"@;
    assert(refusal_line(h) =~= to_file + h.file@ + end);
    assert(refusal_line(h) =~= to_n + n + (" в "@ + h.file@ + end));
    a_text_mentions_its_parts(to_file, h.file@, end);
    a_text_mentions_its_parts(to_n, n, " в "@ + h.file@ + end);
}

// ---------------------------------------------------------------------------
// A refusal
// ---------------------------------------------------------------------------

/// For how many seconds one refusal through a tunnel the relay stood down for
/// keeps substitution forced on.
pub const FORCE_SUBSTITUTE_FOR: u64 = 30 * 60;

/// What is done to the DNS layer about a refusal.
#[derive(Debug, Clone, Copy, PartialEq, Eq, Structural)]
pub enum DnsMove {
    Nothing,
    /// Substitute over the tunnel for `FORCE_SUBSTITUTE_FOR` seconds.
    ForceSubstitution,
    /// Forget the routed names and resolve them anew.
    Rerace,
}

/// The route that carried a refusal, by its name, and for how long blaming it
/// benched it, if it did.
#[derive(Debug, Clone, PartialEq, Eq)]
pub struct Blamed {
    pub label: String,
    pub penalty: Option<Span>,
}

/// What is done about refusals, and what is written down of it.
#[derive(Debug, Clone, PartialEq, Eq)]
pub struct RefusalAnswer {
    pub line: Option<String>,
    pub dns: DnsMove,
    /// The record of the episode: how many refusals, what was done, and the
    /// route that carried them.
    pub count: u32,
    pub acted: String,
    pub carried: Option<String>,
}

/// What is done to the DNS layer, by whether a route of ours carried the refusal and
/// whether the relay stands down for a tunnel.
pub open spec fn dns_move(carried: bool, vpn_active: bool) -> DnsMove {
    if carried {
        DnsMove::Nothing
    } else if vpn_active {
        DnsMove::ForceSubstitution
    } else {
        DnsMove::Rerace
    }
}

/// The DNS layer moves exactly where no route of ours carried the refusal, and then
/// by substituting over the tunnel exactly where the relay stands down for one.
pub proof fn the_dns_layer_moves_where_no_route_can_help(carried: bool, vpn_active: bool)
    ensures
        dns_move(carried, vpn_active) != DnsMove::Nothing <==> !carried,
        dns_move(carried, vpn_active) == DnsMove::ForceSubstitution <==> !carried && vpn_active,
        dns_move(carried, vpn_active) == DnsMove::Rerace <==> !carried && !vpn_active,
{
}

pub open spec fn bench_line(label: Seq<char>, penalty: Span) -> Seq<char> {
    "proxy        "@ + ("маршрут «"@ + label + "» нёс region-400 — отложен на "@ + minutes_text(
        penalty.secs(),
    ) + ", его соединения закрыты"@)
}

/// What the log says of the answer to a refusal, where it says anything.
pub open spec fn blame_line(carried: Option<Blamed>, vpn_active: bool) -> Option<Seq<char>> {
    match carried {
        Some(b) => match b.penalty {
            Some(p) => Some(bench_line(b.label@, p)),
            None => None,
        },
        None => Some(
            if vpn_active {
                "VPN-выход не снимает гейт — подмена включена принудительно на 30 мин"@
            } else {
                "Antigravity обратился к Google мимо обхода — адреса подбираются заново"@
            },
        ),
    }
}

/// What the record says was done about a refusal.
pub open spec fn acted_text(carried: Option<Blamed>, vpn_active: bool) -> Seq<char> {
    match carried {
        Some(b) => match b.penalty {
            Some(p) => "маршрут «"@ + b.label@ + "» отложен на "@ + minutes_text(p.secs())
                + ", следующее соединение пойдёт другим"@,
            None => "соединения через «"@ + b.label@ + "» закрыты — повтор пойдёт другим путём"@,
        },
        None => if vpn_active {
            "ваш VPN не снимает блокировку — подмена адресов включена поверх туннеля на 30 мин"@
        } else {
            "Antigravity обратился к Google мимо обхода — адреса подбираются заново"@
        },
    }
}

/// The low 32 bits of a count.
fn low_bits(count: usize) -> (low: u32)
    ensures
        low == count as nat % 0x1_0000_0000,
{
    let wide: u64 = count as u64;
    assert(wide as u32 == wide % 0x1_0000_0000) by (bit_vector);
    #[verifier::truncate]
    (wide as u32)
}

/// Answers refusals. Nothing is attributed on a guess: `carried` is the route
/// whose tunnel was open at the time. With none open the client reached Google
/// without us, which no route switch can help with; then the DNS layer moves -
/// over the tunnel the relay was standing down for, or else by resolving anew.
pub fn on_refusals(count: usize, carried: &Option<Blamed>, vpn_active: bool) -> (answer:
    RefusalAnswer)
    ensures
        option_view(answer.line) == blame_line(*carried, vpn_active),
        answer.dns == dns_move(carried is Some, vpn_active),
        answer.count == count as nat % 0x1_0000_0000,
        answer.acted@ == acted_text(*carried, vpn_active),
        option_view(answer.carried) == (match carried {
            Some(b) => Some(b.label@),
            None => None,
        }),
{
    match carried {
        Some(b) => {
            let label = b.label.as_str();
            match b.penalty {
                Some(penalty) => {
                    let minutes = human_minutes(penalty);
                    let mut text = "маршрут «".to_owned();
                    text.append(label);
                    text.append("» нёс region-400 — отложен на ");
                    text.append(minutes.as_str());
                    text.append(", его соединения закрыты");
                    let mut acted = "маршрут «".to_owned();
                    acted.append(label);
                    acted.append("» отложен на ");
                    acted.append(minutes.as_str());
                    acted.append(", следующее соединение пойдёт другим");
                    RefusalAnswer {
                        line: Some(log_proxy(text.as_str())),
                        dns: DnsMove::Nothing,
                        count: low_bits(count),
                        acted,
                        carried: Some(b.label.clone()),
                    }
                },
                None => {
                    let mut acted = "соединения через «".to_owned();
                    acted.append(label);
                    acted.append("» закрыты — повтор пойдёт другим путём");
                    RefusalAnswer {
                        line: None,
                        dns: DnsMove::Nothing,
                        count: low_bits(count),
                        acted,
                        carried: Some(b.label.clone()),
                    }
                },
            }
        },
        None => {
            if vpn_active {
                RefusalAnswer {
                    line: Some(
                        "VPN-выход не снимает гейт — подмена включена принудительно на 30 мин".to_owned(),
                    ),
                    dns: DnsMove::ForceSubstitution,
                    count: low_bits(count),
                    acted:
                        "ваш VPN не снимает блокировку — подмена адресов включена поверх туннеля на 30 мин".to_owned(),
                    carried: None,
                }
            } else {
                RefusalAnswer {
                    line: Some(
                        "Antigravity обратился к Google мимо обхода — адреса подбираются заново".to_owned(),
                    ),
                    dns: DnsMove::Rerace,
                    count: low_bits(count),
                    acted:
                        "Antigravity обратился к Google мимо обхода — адреса подбираются заново".to_owned(),
                    carried: None,
                }
            }
        },
    }
}

/// Something is always said to have been done about a refusal.
pub proof fn every_refusal_is_answered(carried: Option<Blamed>, vpn_active: bool)
    ensures
        acted_text(carried, vpn_active).len() > 0,
{
    reveal_strlit("маршрут «");
    reveal_strlit("соединения через «");
    reveal_strlit(
        "ваш VPN не снимает блокировку — подмена адресов включена поверх туннеля на 30 мин",
    );
    reveal_strlit("Antigravity обратился к Google мимо обхода — адреса подбираются заново");
}

/// What is said of a route that carried a refusal names that route, in the log and
/// in the record; and for how long it is benched, where it is. A route that is not
/// benched has no line.
pub proof fn what_is_said_names_the_route(b: Blamed, vpn_active: bool)
    ensures
        mentions(acted_text(Some(b), vpn_active), b.label@),
        b.penalty is None <==> blame_line(Some(b), vpn_active) is None,
        b.penalty matches Some(p) ==> {
            &&& mentions(acted_text(Some(b), vpn_active), minutes_text(p.secs()))
            &&& mentions(blame_line(Some(b), vpn_active)->0, b.label@)
            &&& mentions(blame_line(Some(b), vpn_active)->0, minutes_text(p.secs()))
        },
        acted_text(Some(b), true) == acted_text(Some(b), false),
        blame_line(Some(b), true) == blame_line(Some(b), false),
{
    let acted = acted_text(Some(b), vpn_active);
    match b.penalty {
        Some(p) => {
            let m = minutes_text(p.secs());
            let end = ", следующее соединение пойдёт другим"@;
            assert(acted =~= "маршрут «"@ + b.label@ + ("» отложен на "@ + m + end));
            a_text_mentions_its_parts("маршрут «"@, b.label@, "» отложен на "@ + m + end);
            a_text_mentions_its_parts("маршрут «"@ + b.label@ + "» отложен на "@, m, end);
            let line = blame_line(Some(b), vpn_active)->0;
            let to_label = "proxy        "@ + "маршрут «"@;
            let middle = "» нёс region-400 — отложен на "@;
            let end = ", его соединения закрыты"@;
            assert(line =~= to_label + b.label@ + (middle + m + end));
            assert(line =~= to_label + b.label@ + middle + m + end);
            a_text_mentions_its_parts(to_label, b.label@, middle + m + end);
            a_text_mentions_its_parts(to_label + b.label@ + middle, m, end);
        },
        None => {
            a_text_mentions_its_parts(
                "соединения через «"@,
                b.label@,
                "» закрыты — повтор пойдёт другим путём"@,
            );
        },
    }
}

/// A refusal no route of ours carried is answered the same whatever else is known,
/// and differently inside a tunnel the relay stood down for; and what is said of how
/// long substitution is forced on there is how long it is.
pub proof fn a_refusal_around_us_is_told_from_one_in_the_tunnel()
    ensures
        blame_line(None, true) is Some && blame_line(None, false) is Some,
        blame_line(None, true) != blame_line(None, false),
        acted_text(None, true) != acted_text(None, false),
        mentions(acted_text(None, true), minutes_text(FORCE_SUBSTITUTE_FOR as nat)),
        mentions(blame_line(None, true)->0, minutes_text(FORCE_SUBSTITUTE_FOR as nat)),
{
    reveal_strlit(" мин");
    reveal_strlit("VPN-выход не снимает гейт — подмена включена принудительно на 30 мин");
    reveal_strlit("Antigravity обратился к Google мимо обхода — адреса подбираются заново");
    reveal_strlit(
        "ваш VPN не снимает блокировку — подмена адресов включена поверх туннеля на 30 мин",
    );
    let acted = acted_text(None, true);
    let line = blame_line(None, true)->0;
    let said = minutes_text(FORCE_SUBSTITUTE_FOR as nat);
    assert(decimal(3) == seq!['3']);
    assert(decimal(30) =~= seq!['3', '0']);
    assert(said =~= seq!['3', '0', ' ', 'м', 'и', 'н']);
    assert(acted.subrange(75, 81) =~= said);
    assert(stands_at(said, acted, 75));
    assert(line.subrange(62, 68) =~= said);
    assert(stands_at(said, line, 62));
    assert(line[0] != blame_line(None, false)->0[0]);
    assert(acted[0] != acted_text(None, false)[0]);
}

// ---------------------------------------------------------------------------
// An answer
// ---------------------------------------------------------------------------

/// For how many seconds after a line about answers there is no other: a long
/// session produces an answer every few seconds, and the log is small.
pub const ANSWER_LINE_EVERY: u64 = 60;

/// The route that carried an answer, by its name, and whether it is the relay.
#[derive(Debug, Clone, PartialEq, Eq)]
pub struct Carrier {
    pub label: String,
    pub is_relay: bool,
}

/// When the last line about answers was written.
#[derive(Debug, Clone, Copy, PartialEq, Eq, Structural)]
pub struct AnswerLines {
    pub last: Option<Moment>,
}

/// What is done about answers.
#[derive(Debug, Clone, PartialEq, Eq)]
pub struct AnswerNote {
    /// Credit the route that carried them.
    pub credit: bool,
    /// Clear the relay's failures: a model answer is the one thing that settles
    /// whether it works.
    pub relay_answered: bool,
    pub line: Option<String>,
    /// The record: the route that carried them.
    pub carried: Option<String>,
}

/// Whether enough time has passed since something was last written.
pub open spec fn is_due(last: Option<Moment>, now: nat, every: u64) -> bool {
    match last {
        Some(at) => elapsed(at@, now) >= every * NANOS_PER_SEC,
        None => true,
    }
}

/// Whether enough time has passed since something was last written.
pub fn due(last: Option<Moment>, now: Moment, every: u64) -> (d: bool)
    ensures
        d == is_due(last, now@, every),
{
    match last {
        Some(at) => at.elapsed(now).as_nanos() >= Span::from_secs(every).as_nanos(),
        None => true,
    }
}

pub open spec fn answer_line(count: usize, carried: Option<Carrier>) -> Seq<char> {
    "proxy        "@ + ("модель ответила (x"@ + decimal(count as nat) + ") — маршрут «"@ + (
    match carried {
        Some(c) => c.label@,
        None => "не наш"@,
    }) + "»"@)
}

impl AnswerLines {
    pub fn new() -> (a: AnswerLines)
        ensures
            a.last is None,
    {
        AnswerLines { last: None }
    }

    /// Takes answers that came over `carried`, if any route of ours.
    pub fn on_answers(&mut self, count: usize, carried: &Option<Carrier>, now: Moment) -> (note:
        AnswerNote)
        ensures
            note.credit == (carried is Some),
            note.relay_answered == (carried matches Some(c) && c.is_relay),
            option_view(note.line) == (if is_due(old(self).last, now@, ANSWER_LINE_EVERY) {
                Some(answer_line(count, *carried))
            } else {
                None
            }),
            option_view(note.carried) == (match carried {
                Some(c) => Some(c.label@),
                None => None,
            }),
            final(self).last == (if is_due(old(self).last, now@, ANSWER_LINE_EVERY) {
                Some(now)
            } else {
                old(self).last
            }),
    {
        let line = if due(self.last, now, ANSWER_LINE_EVERY) {
            self.last = Some(now);
            let mut text = "модель ответила (x".to_owned();
            push_decimal(&mut text, count as u64);
            text.append(") — маршрут «");
            text.append(
                match carried {
                    Some(c) => c.label.as_str(),
                    None => "не наш",
                },
            );
            text.append("»");
            Some(log_proxy(text.as_str()))
        } else {
            None
        };
        match carried {
            Some(c) => AnswerNote {
                credit: true,
                relay_answered: c.is_relay,
                line,
                carried: Some(c.label.clone()),
            },
            None => AnswerNote { credit: false, relay_answered: false, line, carried: None },
        }
    }
}

/// Nothing is due again before its time has passed, and it is from then on.
pub proof fn due_once_in_its_time(at: Moment, now: nat, every: u64)
    requires
        now >= at@,
    ensures
        is_due(Some(at), now, every) <==> now - at@ >= every * NANOS_PER_SEC,
{
}

/// The line about answers names how many there were and the route that carried
/// them.
pub proof fn an_answer_line_names_the_route(count: usize, c: Carrier)
    ensures
        mentions(answer_line(count, Some(c)), c.label@),
        mentions(answer_line(count, Some(c)), decimal(count as nat)),
        mentions(answer_line(count, None), decimal(count as nat)),
{
    let start = "proxy        "@ + "модель ответила (x"@;
    let n = decimal(count as nat);
    let middle = ") — маршрут «"@;
    let line = answer_line(count, Some(c));
    assert(line =~= start + n + middle + c.label@ + "»"@);
    assert(line =~= start + n + (middle + c.label@ + "»"@));
    a_text_mentions_its_parts(start + n + middle, c.label@, "»"@);
    a_text_mentions_its_parts(start, n, middle + c.label@ + "»"@);
    assert(answer_line(count, None) =~= start + n + (middle + "не наш"@ + "»"@));
    a_text_mentions_its_parts(start, n, middle + "не наш"@ + "»"@);
}

} // verus!
