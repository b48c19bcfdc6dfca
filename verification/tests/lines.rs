use ag_unlocker::paths::{log_dir, log_path, version_path, DataPath, Environment, Platform};
use ag_unlocker::relay_log::{
    bind_error, egress_line, human_minutes, log_entry, log_fatal, log_proxy, log_race,
    relayed_line, stamp, start_line, starts_over, unanswered_line, verdict_tag, Clock, Verdict,
};
use ag_unlocker::startup::{
    legacy_removed_line, loopback_failed_line, network_changed_line, not_set_line,
    proxy_failed_line, set_line, Outcome,
};
use ag_unlocker::text::{parse_u32, trim};
use ag_unlocker::time::Span;
use ag_unlocker::version::{parse_version, recorded_version, RELAY_VERSION};

#[test]
fn a_line_is_stamped() {
    let clock = Clock {
        hour: 9,
        minute: 5,
        second: 42,
    };
    assert_eq!(stamp(Some(clock)), "09:05:42");
    assert_eq!(stamp(None), "");
    assert_eq!(log_entry("09:05:42", "start"), "09:05:42 start\n");
    assert_eq!(log_entry("", "start"), " start\n");
}

#[test]
fn the_log_starts_over_past_its_limit() {
    assert!(!starts_over(None));
    assert!(!starts_over(Some(65_536)));
    assert!(starts_over(Some(65_537)));
}

#[test]
fn the_lines_of_the_relay() {
    assert_eq!(log_fatal("e"), "fatal: e");
    assert_eq!(log_proxy("m"), "proxy        m");
    assert_eq!(
        log_race("n", &["a", "b"], true),
        "race         n heard [a, b]"
    );
    assert_eq!(
        log_race("n", &[], false),
        "race         n heard [] (no reference)"
    );
    assert_eq!(start_line(), "start: 127.0.0.53:53");
    assert_eq!(egress_line(17), "egress: if17");
    assert_eq!(egress_line(0), "egress: if0");
    assert_eq!(
        bind_error("занят"),
        "не удалось занять 127.0.0.53:53 — занят"
    );
    assert_eq!(unanswered_line("n"), "fail         n");
    assert_eq!(
        relayed_line(Verdict::Sibling, "n", "p"),
        "sibling      n [p]"
    );
    assert_eq!(
        relayed_line(Verdict::Passthrough, "n", "p"),
        "PASSTHROUGH  n [p]"
    );
    assert_eq!(verdict_tag(Verdict::Substituted), "substituted");
    assert_eq!(verdict_tag(Verdict::Unknown), "ok");
    assert_eq!(human_minutes(Span::from_secs(59)), "0 мин");
    assert_eq!(human_minutes(Span::from_secs(3601)), "1 ч");
}

#[test]
fn the_proxy_variable_at_the_start() {
    let failed = Err("нет прав".to_string());
    assert_eq!(
        legacy_removed_line(&Ok(true)).as_deref(),
        Some("proxy        снята прежняя общесистемная HTTPS_PROXY")
    );
    assert_eq!(legacy_removed_line(&Ok(false)), None);
    assert_eq!(
        legacy_removed_line(&failed).as_deref(),
        Some("proxy        прежняя HTTPS_PROXY не снята: нет прав")
    );
    assert_eq!(
        not_set_line("VAR", false, false).as_deref(),
        Some("proxy        VAR не выставлена: локальный прокси не поднялся")
    );
    assert_eq!(
        not_set_line("VAR", true, false).as_deref(),
        Some("proxy        VAR не выставлена: выключена в настройках")
    );
    assert_eq!(not_set_line("VAR", true, true), None);
    assert_eq!(
        set_line("VAR", &Ok(Outcome::Applied)).as_deref(),
        Some("proxy        VAR снова указывает на локальный прокси")
    );
    assert_eq!(set_line("VAR", &Ok(Outcome::AlreadySet)), None);
    assert_eq!(
        set_line("VAR", &Err("нет прав".to_string())).as_deref(),
        Some("proxy        VAR не восстановлена: нет прав")
    );
    assert_eq!(proxy_failed_line("e"), "proxy        not started: e");
    assert_eq!(
        loopback_failed_line("e"),
        "proxy        локальные адреса гейт-хостов не заняты: e"
    );
    assert_eq!(
        network_changed_line(),
        "proxy        сеть изменилась — что работает, выясняется заново"
    );
}

#[test]
fn a_written_version_reads_back() {
    assert_eq!(recorded_version(), "31");
    assert_eq!(parse_version(Some(&recorded_version())), RELAY_VERSION);
    assert_eq!(parse_version(Some("+5")), 5);
    assert_eq!(parse_version(Some("-5")), 0);
    assert_eq!(parse_version(Some("4294967295")), u32::MAX);
    assert_eq!(parse_version(Some("4294967296")), 0);
    assert_eq!(parse_version(Some("7 7")), 0);
    assert_eq!(parse_version(Some("007")), 7);
}

#[test]
fn numbers_and_white_space_are_read_as_std_reads_them() {
    for s in [
        "", "+", "-", "+1", "++1", "1+", "00", "4294967295", "4294967296", "99999999999999999999",
        "١", " 1", "1 ", "1_0", "0x1",
    ] {
        assert_eq!(parse_u32(s), s.parse::<u32>().ok(), "{s:?}");
    }
    for c in '\u{0}'..='\u{10ffff}' {
        if trim(&format!("{c}")).is_empty() != c.is_whitespace() {
            panic!("{c:?}");
        }
    }
    assert_eq!(trim(" \u{a0} a b\u{3000}\r\n"), "a b");
}

fn shown(p: &DataPath) -> String {
    let mut s = p.base.clone();
    for n in &p.names {
        s.push('/');
        s.push_str(n);
    }
    s
}

#[test]
fn the_state_directory_follows_the_platform() {
    let mut env = Environment {
        local_app_data: Some("C:/Users/u/AppData/Local".into()),
        xdg_data_home: Some("/data".into()),
        home: Some("/home/u".into()),
    };
    assert_eq!(
        shown(&log_path(Platform::Windows, &env)),
        "C:/Users/u/AppData/Local/AGUnlocker/forwarder.log"
    );
    assert_eq!(
        shown(&version_path(Platform::Other, &env)),
        "/data/agunlocker/relay.version"
    );
    env.xdg_data_home = Some(String::new());
    assert_eq!(
        shown(&log_dir(Platform::Other, &env)),
        "/home/u/.local/share/agunlocker"
    );
    env.xdg_data_home = None;
    env.home = None;
    env.local_app_data = None;
    assert_eq!(
        shown(&log_dir(Platform::Other, &env)),
        "/.local/share/agunlocker"
    );
    assert_eq!(log_dir(Platform::Windows, &env).base, "");
}
