use ag_unlocker::status::{headline, Tone};
use ag_unlocker::time::Span;
use ag_unlocker::window::{
    answers, can_read_facts, display_name, facts, network_facts, written_name, Episode, Install,
    LastAnswer, LogState, Reading, RelayRecord, Sighting, SystemStatus,
};

#[test]
fn an_acronym_stays_an_acronym_and_everything_else_gets_one_capital() {
    assert_eq!(display_name("dns-ai.ru"), "DNS-AI.RU");
    assert_eq!(display_name("comss.one"), "Comss.one");
    assert_eq!(display_name("geohide.ru"), "Geohide.ru");
    // Must not panic on a name the pool could grow later.
    assert_eq!(display_name(""), "");
    assert_eq!(display_name("1.1.1.1"), "1.1.1.1");
}

#[test]
fn only_a_note_written_after_the_refusal_answers_it() {
    assert!(answers(1_000, 1_000));
    assert!(answers(1_015, 1_000));
    assert!(answers(998, 1_000));
    assert!(!answers(940, 1_000));
    assert!(!answers(0, 1_000));
    assert!(answers(u64::MAX, 1_000));
    assert!(!answers(0, u64::MAX));
}

#[test]
fn the_slack_of_a_note_is_three_seconds() {
    assert!(answers(997, 1_000));
    assert!(!answers(996, 1_000));
    assert!(answers(u64::MAX - 3, u64::MAX));
    assert!(!answers(u64::MAX - 4, u64::MAX));
}

#[test]
fn only_a_whole_run_of_letters_is_the_acronym() {
    assert_eq!(display_name("DNS"), "DNS");
    assert_eq!(display_name("dns.яндекс"), "DNS.ЯНДЕКС");
    assert_eq!(display_name("dnsя.ru"), "Dnsя.ru");
    assert_eq!(display_name("яндекс-днс"), "Яндекс-днс");
    assert_eq!(display_name("ßeta"), "SSeta");
    assert_eq!(display_name("adns"), "Adns");
    assert_eq!(written_name("abc", true, "XYZ", "Q"), "XYZ");
    assert_eq!(written_name("abc", false, "XYZ", "Q"), "Qbc");
}

fn install(path: Option<&str>) -> Install {
    Install {
        label: "IDE".into(),
        path: path.map(|p| p.into()),
        patched: None,
        manual: false,
    }
}

fn status() -> SystemStatus {
    SystemStatus {
        admin: false,
        installs: vec![install(None), install(Some("/opt/antigravity"))],
        client_patch: true,
        dns: true,
        local_proxy: false,
        builtin_exits: false,
        dns_rotation: false,
        relay_running: true,
        relay_outdated: false,
        rules: false,
    }
}

fn record() -> RelayRecord {
    RelayRecord {
        route: "прямой".into(),
        last_400: Some(Episode {
            at: 999_990,
            acted: "адреса подбираются заново".into(),
            bypassed: false,
        }),
        last_ok: Some(LastAnswer {
            at: 999_700,
            route: "релей".into(),
        }),
        tunnel: false,
        vpn_exit: String::new(),
        loopback: true,
    }
}

fn sighting(secs: u64, count: usize) -> Option<Sighting> {
    Some(Sighting {
        ago: Span::from_secs(secs),
        count,
    })
}

fn logs() -> LogState {
    LogState {
        refused_long: sighting(8, 40),
        seen: sighting(8, 4),
        answered: sighting(300, 1),
        relay: Some(record()),
    }
}

fn reading() -> Reading {
    Reading {
        since_read: Span::from_secs(2),
        now_unix: 1_000_000,
        recent: Span::from_secs(600),
        answer_recent: Span::from_secs(400),
        windows: false,
    }
}

#[test]
fn there_are_no_facts_before_the_machine_was_looked_at() {
    assert!(facts(&None, &logs(), &reading()).is_none());
}

#[test]
fn the_facts_are_read_off_the_windows_state() {
    let f = facts(&Some(status()), &logs(), &reading()).unwrap();
    // Not Windows: nothing needs elevation or rules.
    assert!(f.admin && f.rules);
    assert!(f.installs_found && f.patch_on && f.bypass_on);
    assert!(f.relay_running && f.relay_reporting && !f.relay_outdated);
    // Aged by the time since the logs were read; counted over the short window.
    assert_eq!(f.refusal, Some((Span::from_secs(10), 4)));
    assert_eq!(f.answer, Some(Span::from_secs(302)));
    assert_eq!(
        f.answered.as_ref().map(|a| a.acted.as_str()),
        Some("адреса подбираются заново")
    );
    assert_eq!(f.route.as_deref(), Some("релей"));
    assert_eq!(headline(&f).tone, Tone::Fixing);

    let windows = Reading {
        windows: true,
        ..reading()
    };
    let f = facts(&Some(status()), &logs(), &windows).unwrap();
    assert!(!f.admin && !f.rules);
}

#[test]
fn nothing_found_is_no_install() {
    let s = SystemStatus {
        installs: vec![install(None)],
        ..status()
    };
    assert!(!facts(&Some(s), &logs(), &reading()).unwrap().installs_found);
}

#[test]
fn a_dead_relays_record_is_not_believed() {
    let s = SystemStatus {
        relay_running: false,
        ..status()
    };
    let f = facts(&Some(s), &logs(), &reading()).unwrap();
    assert!(!f.relay_reporting);
    assert!(f.answered.is_none());
    assert!(f.route.is_none());
}

#[test]
fn a_note_on_something_else_is_not_shown() {
    let mut l = logs();
    l.relay.as_mut().unwrap().last_400.as_mut().unwrap().at = 999_986;
    assert!(facts(&Some(status()), &l, &reading())
        .unwrap()
        .answered
        .is_none());
    // Within the slack it is.
    l.relay.as_mut().unwrap().last_400.as_mut().unwrap().at = 999_987;
    assert!(facts(&Some(status()), &l, &reading())
        .unwrap()
        .answered
        .is_some());
    // And an old refusal has no note.
    l.refused_long = sighting(599, 1);
    assert!(facts(&Some(status()), &l, &reading())
        .unwrap()
        .answered
        .is_none());
}

#[test]
fn an_answer_that_went_around_us_names_no_path() {
    let mut l = logs();
    l.relay.as_mut().unwrap().last_ok.as_mut().unwrap().route = String::new();
    assert!(facts(&Some(status()), &l, &reading())
        .unwrap()
        .route
        .is_none());
    // An old answer leaves the route in force.
    l.relay.as_mut().unwrap().last_ok.as_mut().unwrap().at = 999_599;
    assert_eq!(
        facts(&Some(status()), &l, &reading())
            .unwrap()
            .route
            .as_deref(),
        Some("прямой")
    );
    // One stamped in the future counts as just now.
    l.relay.as_mut().unwrap().last_ok.as_mut().unwrap().at = 2_000_000;
    assert!(facts(&Some(status()), &l, &reading())
        .unwrap()
        .route
        .is_none());
}

#[test]
fn ages_beyond_what_can_be_held_are_told_apart() {
    assert!(can_read_facts(&logs(), &reading()));
    let l = LogState {
        answered: sighting(u64::MAX, 1),
        ..logs()
    };
    assert!(!can_read_facts(&l, &reading()));
    let l = LogState {
        refused_long: sighting(u64::MAX, 1),
        ..logs()
    };
    assert!(!can_read_facts(&l, &reading()));
}

#[test]
fn the_network_is_described_as_the_relay_sees_it() {
    let mut r = record();
    assert_eq!(
        network_facts(&r, false),
        ["VPN не обнаружен.", "Первый путь сейчас: прямой."]
    );
    r.tunnel = true;
    r.route = String::new();
    r.loopback = false;
    assert_eq!(
        network_facts(&r, true),
        [
            "VPN включён — соединения службы с сервисами разблокировки идут мимо него.",
            "Служба ещё не перехватывает имена серверов Google — Antigravity идёт через них, \
             только если перезапущен после включения обхода."
        ]
    );
    r.vpn_exit = "NL".into();
    r.loopback = true;
    assert_eq!(
        network_facts(&r, false),
        ["VPN включён, выход: NL — используется как один из путей."]
    );
    assert_eq!(
        network_facts(&r, true),
        ["VPN включён, выход: NL — там ошибка 400, поэтому соединения идут мимо него."]
    );
}
