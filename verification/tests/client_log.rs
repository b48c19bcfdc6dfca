use ag_unlocker::client_log::{
    answer_log, newest, on_refusals, AnswerLines, Blamed, Carrier, DnsMove, Hit, Kind, Tally,
};
use ag_unlocker::time::{Moment, Span};

fn at(secs: u64) -> Moment {
    Moment::after_origin(Span::from_secs(secs))
}

fn hit(file: &str, refused: (usize, Option<u64>), answered: (usize, Option<u64>)) -> Hit {
    Hit {
        file: file.into(),
        tally: Tally {
            refusals: refused.0,
            answers: answered.0,
            refused_ago: refused.1.map(Span::from_secs),
            answered_ago: answered.1.map(Span::from_secs),
            refused_host: Some(format!("r-{file}")),
            answered_host: Some(format!("a-{file}")),
        },
    }
}

#[test]
fn the_newest_of_two_ages_is_the_smaller() {
    let s = |n| Some(Span::from_secs(n));
    assert_eq!(newest(s(3), s(5)), s(3));
    assert_eq!(newest(s(5), s(3)), s(3));
    assert_eq!(newest(s(5), None), s(5));
    assert_eq!(newest(None, s(5)), s(5));
    assert_eq!(newest(None, None), None);
}

#[test]
fn the_older_event_is_acted_on_first() {
    let n = answer_log(
        &[hit("ide.log", (4, Some(20)), (1, Some(5)))],
        at(1000),
        Span::from_secs(60),
    );
    assert_eq!(
        n.lines,
        ["proxy        region-400 x4 в ide.log — Antigravity упёрся в гейт"]
    );
    let kinds: Vec<Kind> = n.events.iter().map(|e| e.kind).collect();
    assert_eq!(kinds, [Kind::Refused, Kind::Answered]);
    assert_eq!(n.events[0].at, at(980));
    assert_eq!(n.events[1].at, at(995));

    let n = answer_log(
        &[hit("ide.log", (4, Some(5)), (1, Some(20)))],
        at(1000),
        Span::from_secs(60),
    );
    let kinds: Vec<Kind> = n.events.iter().map(|e| e.kind).collect();
    assert_eq!(kinds, [Kind::Answered, Kind::Refused]);

    // As old as each other: the refusal first.
    let n = answer_log(
        &[hit("ide.log", (4, Some(5)), (1, Some(5)))],
        at(1000),
        Span::from_secs(60),
    );
    let kinds: Vec<Kind> = n.events.iter().map(|e| e.kind).collect();
    assert_eq!(kinds, [Kind::Refused, Kind::Answered]);
}

#[test]
fn several_logs_are_counted_together_and_the_newest_names_the_host() {
    let n = answer_log(
        &[
            hit("a", (2, Some(9)), (0, None)),
            hit("b", (3, Some(4)), (0, None)),
            hit("c", (0, None), (0, None)),
            hit("d", (1, Some(30)), (0, None)),
        ],
        at(100),
        Span::from_secs(60),
    );
    assert_eq!(n.lines.len(), 3);
    assert_eq!(n.events.len(), 1);
    assert_eq!(n.events[0].count, 6);
    assert_eq!(n.events[0].host.as_deref(), Some("r-b"));
    assert_eq!(n.events[0].at, at(96));
    // Of two as new as each other the later in the list names it.
    let n = answer_log(
        &[hit("a", (0, None), (2, Some(9))), hit("b", (0, None), (3, Some(9)))],
        at(100),
        Span::from_secs(60),
    );
    assert!(n.lines.is_empty());
    assert_eq!(n.events[0].host.as_deref(), Some("a-b"));
    assert_eq!(n.events[0].count, 5);
}

#[test]
fn what_cannot_be_placed_in_time_is_not_acted_on() {
    let memory = Span::from_secs(60);
    // No stamp, older than the tunnels are remembered, and before the clock began.
    for (ago, now) in [(None, 1000), (Some(61), 1000), (Some(50), 49)] {
        let n = answer_log(&[hit("a", (1, ago), (0, None))], at(now), memory);
        assert_eq!(n.lines.len(), 1);
        assert!(n.events.is_empty());
    }
    let n = answer_log(&[hit("a", (1, Some(60)), (0, None))], at(1000), memory);
    assert_eq!(n.events.len(), 1);
    // An age without a single line counts for nothing.
    let n = answer_log(&[hit("a", (0, Some(5)), (0, Some(5)))], at(1000), memory);
    assert!(n.events.is_empty());
}

#[test]
fn the_route_that_carried_a_refusal_is_benched() {
    let a = on_refusals(
        4,
        &Some(Blamed {
            label: "прямой".into(),
            penalty: Some(Span::from_secs(600)),
        }),
        true,
    );
    assert_eq!(
        a.line.as_deref(),
        Some("proxy        маршрут «прямой» нёс region-400 — отложен на 10 мин, его соединения закрыты")
    );
    assert_eq!(
        a.acted,
        "маршрут «прямой» отложен на 10 мин, следующее соединение пойдёт другим"
    );
    assert_eq!(a.dns, DnsMove::Nothing);
    assert_eq!((a.count, a.carried.as_deref()), (4, Some("прямой")));

    let a = on_refusals(
        1,
        &Some(Blamed {
            label: "релей".into(),
            penalty: None,
        }),
        false,
    );
    assert_eq!(a.line, None);
    assert_eq!(
        a.acted,
        "соединения через «релей» закрыты — повтор пойдёт другим путём"
    );
    assert_eq!(a.dns, DnsMove::Nothing);
}

#[test]
fn a_refusal_that_went_around_us_moves_the_dns_layer() {
    let a = on_refusals(2, &None, true);
    assert_eq!(a.dns, DnsMove::ForceSubstitution);
    assert_eq!(
        a.line.as_deref(),
        Some("VPN-выход не снимает гейт — подмена включена принудительно на 30 мин")
    );
    assert_eq!(
        a.acted,
        "ваш VPN не снимает блокировку — подмена адресов включена поверх туннеля на 30 мин"
    );
    let a = on_refusals(2, &None, false);
    assert_eq!(a.dns, DnsMove::Rerace);
    assert_eq!(
        a.acted,
        "Antigravity обратился к Google мимо обхода — адреса подбираются заново"
    );
    assert_eq!(a.line.as_deref(), Some(a.acted.as_str()));
    assert_eq!(a.carried, None);
}

#[test]
fn answers_are_noted_once_a_minute() {
    let mut lines = AnswerLines::new();
    let relay = Some(Carrier {
        label: "релей".into(),
        is_relay: true,
    });
    let n = lines.on_answers(3, &relay, at(100));
    assert_eq!(
        n.line.as_deref(),
        Some("proxy        модель ответила (x3) — маршрут «релей»")
    );
    assert!(n.credit && n.relay_answered);
    assert_eq!(n.carried.as_deref(), Some("релей"));
    let direct = Some(Carrier {
        label: "прямой".into(),
        is_relay: false,
    });
    let n = lines.on_answers(1, &direct, at(159));
    assert_eq!(n.line, None);
    assert!(n.credit && !n.relay_answered);
    let n = lines.on_answers(1, &None, at(160));
    assert_eq!(
        n.line.as_deref(),
        Some("proxy        модель ответила (x1) — маршрут «не наш»")
    );
    assert!(!n.credit && !n.relay_answered);
    assert_eq!(n.carried, None);
}
