use ag_unlocker::interface::EgressCache;
use ag_unlocker::network::{network_context, network_fingerprint, VpnExit};
use ag_unlocker::time::{Moment, Span};
use ag_unlocker::warm::{Egress, VpnReading, WarmLoop, WARM_EVERY};
use ag_unlocker::warm_pass::{Reply, Task, WarmPass};

fn at(secs: u64) -> Moment {
    Moment::after_origin(Span::from_secs(secs))
}

#[test]
fn everything_is_due_on_the_first_pass() {
    let mut w = WarmLoop::new();
    assert!(!w.route_seen(Some(7)));
    assert!(w.vpn_check_due());
    assert!(!w.exit_check_due(true));
    assert!(w.own_probe_due(false));
    assert!(w.exits_probe_due());
    assert!(w.direct_probe_due());
    assert!(!w.own_probe_due(false) && !w.exits_probe_due() && !w.direct_probe_due());
}

#[test]
fn the_exits_are_probed_every_eighth_pass() {
    let mut w = WarmLoop::new();
    let mut probed = vec![];
    for pass in 0..20 {
        let exits = w.exits_probe_due();
        assert_eq!(w.direct_probe_due(), exits);
        if exits {
            probed.push(pass);
        }
        assert!(w.can_sleep());
        w.slept();
    }
    assert_eq!(probed, [0, 8, 16]);
}

#[test]
fn a_benched_proxy_of_the_users_is_probed_on_every_pass() {
    let mut w = WarmLoop::new();
    for _ in 0..5 {
        assert!(w.own_probe_due(true));
        w.slept();
    }
    assert!(!w.own_probe_due(false));
}

#[test]
fn a_change_of_route_has_the_tunnel_checked_at_once() {
    let mut w = WarmLoop::new();
    let seen = reading(None, false);
    assert!(!w.route_seen(Some(7)));
    w.vpn_checked(&seen, false);
    w.slept();
    assert!(!w.route_seen(Some(7)));
    assert!(!w.vpn_check_due());
    assert!(w.route_seen(Some(9)));
    assert!(w.vpn_check_due());
    w.vpn_checked(&seen, false);
    assert!(w.route_seen(None));
    // From no route at all there is nothing learned to drop.
    assert!(!w.route_seen(Some(9)));
    assert!(w.vpn_check_due());
    w.vpn_checked(&seen, false);
    for _ in 0..15 {
        w.slept();
        assert!(!w.vpn_check_due());
    }
    w.slept();
    assert!(w.vpn_check_due());
}

fn reading(egress: Option<(u32, bool)>, was_tunnel: bool) -> VpnReading {
    VpnReading {
        egress: egress.map(|(if_index, vpn_active)| Egress {
            if_index,
            vpn_active,
        }),
        was_tunnel,
        loopback_active: true,
        standing_down: false,
        exit_known: true,
    }
}

#[test]
fn our_connections_are_pinned_while_a_tunnel_is_up() {
    let mut w = WarmLoop::new();
    let seen = reading(Some((5, true)), false);
    assert!(!seen.needs_verdict());
    let p = w.vpn_checked(&seen, true);
    assert_eq!(seen.pin(), 5);
    // The loopback door is up, so there is nothing to stand down for.
    assert!(!p.stand_down && p.stand_down_line().is_none());
    assert_eq!(
        p.tunnel_line(),
        Some("VPN поднят — соединения службы с сервисами разблокировки идут мимо него, через провайдера")
    );
    assert!(p.measure_exit && !p.forget_exit);
    let p = w.vpn_checked(&reading(Some((5, true)), true), false);
    assert!(p.tunnel_line().is_none() && !p.measure_exit);
    let p = w.vpn_checked(
        &VpnReading {
            exit_known: false,
            ..reading(Some((5, true)), true)
        },
        false,
    );
    assert!(p.measure_exit);
    let seen = reading(Some((5, false)), true);
    let p = w.vpn_checked(&seen, false);
    assert_eq!((seen.pin(), p.tunnel_line()), (0, Some("VPN отключён")));
    assert!(p.forget_exit && !p.measure_exit);
    let seen = reading(None, false);
    let p = w.vpn_checked(&seen, true);
    assert_eq!((seen.pin(), p.stand_down), (0, false));
}

#[test]
fn the_relay_stands_down_only_for_a_client_inside_the_tunnel() {
    let mut w = WarmLoop::new();
    let door_down = VpnReading {
        loopback_active: false,
        ..reading(Some((5, true)), true)
    };
    assert!(door_down.needs_verdict());
    let p = w.vpn_checked(&door_down, true);
    assert!(p.stand_down);
    assert_eq!(
        p.stand_down_line(),
        Some("Antigravity ходит через VPN мимо обхода — адреса отдаются как у VPN")
    );
    let p = w.vpn_checked(
        &VpnReading {
            standing_down: true,
            ..door_down
        },
        false,
    );
    assert_eq!(p.stand_down_line(), Some("подмена адресов снова включена"));
}

#[test]
fn the_exit_is_measured_again_every_half_hour() {
    let mut w = WarmLoop::new();
    for _ in 0..120 {
        assert!(!w.exit_check_due(true));
        w.slept();
    }
    assert!(!w.exit_check_due(false));
    assert!(w.exit_check_due(true));
    assert!(!w.exit_check_due(true));
}

#[test]
fn a_failed_detection_is_not_a_new_network() {
    assert_eq!(network_context(0, Some(3), false), None);
    assert_eq!(
        network_context(2, Some(3), true),
        Some(network_fingerprint(2, Some(3), true))
    );
    assert_eq!(
        network_fingerprint(2, Some(3), true),
        1 + (2 << 33) + (3 << 1) + 1
    );
    assert_eq!(
        network_fingerprint(u32::MAX, Some(u32::MAX), false),
        u64::MAX
    );
    // The largest parts there are still make a fingerprint, and not 0.
    assert_eq!(network_fingerprint(u32::MAX, Some(u32::MAX), true), 1);
    assert_eq!(
        network_context(0x7fff_ffff, Some(u32::MAX), true),
        Some(1)
    );
    // The top bit of the provider's adapter does not fit.
    assert_eq!(
        network_fingerprint(0x8000_0001, None, false),
        network_fingerprint(1, Some(0), false)
    );
}

#[test]
fn one_measurement_of_the_exit_at_a_time() {
    let mut exit = VpnExit::unknown();
    assert!(exit.begin());
    assert!(!exit.begin());
    let f = exit.measured(Some("NL".into()), false, true).unwrap();
    assert_eq!(f.permitted, Some(true));
    assert_eq!(f.line, "VPN выходит в NL — его можно использовать как маршрут");
    assert_eq!(exit.vpn_exit_country(), "NL");
    // Not over until what was found has been acted on.
    assert!(!exit.begin());
    exit.done();
    assert!(exit.begin());
    let f = exit.measured(Some("RU".into()), true, true).unwrap();
    assert_eq!(f.permitted, Some(false));
    assert_eq!(
        f.line,
        "VPN выходит в RU — там ошибка 400, этот маршрут не используется"
    );
    exit.done();
    // The tunnel went down meanwhile: nothing comes of it.
    assert!(exit.begin());
    assert_eq!(exit.measured(Some("NL".into()), false, false), None);
    assert_eq!(exit.vpn_exit_country(), "RU");
    exit.done();
    assert!(!exit.measuring);
    let f = exit.measured(None, true, true).unwrap();
    assert_eq!(f.permitted, None);
    assert_eq!(f.line, "страну выхода VPN узнать не удалось");
    assert_eq!(exit.vpn_exit_country(), "");
    exit.begin();
    exit.done();
    assert!(exit.begin());
    exit.country = "NL".into();
    exit.forget();
    assert_eq!(exit.vpn_exit_country(), "");
    assert!(exit.measuring);
}

#[test]
fn an_interface_is_served_for_its_time() {
    let mut cache = EgressCache::new();
    assert_eq!(cache.isp_interface(at(0)), None);
    assert_eq!(cache.detected(Some(12), at(10)), 12);
    assert_eq!(cache.isp_interface(at(1809)), Some(12));
    assert_eq!(cache.isp_interface(at(1810)), None);
    assert_eq!(cache.detected(None, at(2000)), 0);
    assert_eq!(cache.isp_interface(at(2029)), Some(0));
    assert_eq!(cache.isp_interface(at(2030)), None);
}

#[test]
fn a_query_nobody_answered_drops_the_interface() {
    let mut cache = EgressCache::new();
    cache.detected(Some(12), at(10));
    assert_eq!(cache.relay(Some("reply")), Some("reply"));
    assert_eq!(cache.isp_interface(at(11)), Some(12));
    assert_eq!(cache.relay(None::<&str>), None);
    assert_eq!(cache.isp_interface(at(11)), None);
}

#[test]
fn spans_and_moments() {
    assert!(Span::new(1, 1_000_000_000).is_none());
    assert_eq!(Span::new(1, 999_999_999).unwrap().as_secs(), 1);
    let longest = Span::new(u64::MAX, 999_999_999).unwrap();
    assert_eq!(longest.as_secs(), u64::MAX);
    assert!(longest.checked_add(Span::new(0, 1).unwrap()).is_none());
    assert_eq!(
        Span::from_secs(2).checked_add(Span::from_secs(3)),
        Some(Span::from_secs(5))
    );
    assert_eq!(at(5).elapsed(at(3)), Span::from_secs(0));
    assert_eq!(at(3).elapsed(at(5)), Span::from_secs(2));
    assert_eq!(at(3).checked_sub(Span::from_secs(4)), None);
    assert_eq!(at(3).since_origin(), Span::from_secs(3));
    assert!(at(3).is_before(at(4)) && !at(4).is_before(at(4)));
}

/// A machine that replies to every task, and writes down what it was asked.
struct Fake {
    best: Option<u32>,
    vpn: VpnReading,
    interface: u32,
    relay_benched: bool,
    asked: Vec<Task>,
}

impl Fake {
    fn new(interface: u32) -> Fake {
        Fake {
            best: Some(7),
            vpn: reading(Some((5, true)), false),
            interface,
            relay_benched: false,
            asked: vec![],
        }
    }

    fn reply(&mut self, task: Task) -> Reply {
        self.asked.push(task);
        match task {
            Task::LookUpRoute => Reply::Route(self.best),
            Task::ReadTunnel => Reply::Tunnel(self.vpn),
            Task::FindInterface => Reply::Interface(self.interface),
            Task::ReadRelayBench => Reply::Answer(self.relay_benched),
            Task::SetContext(_) => Reply::Answer(true),
            Task::AskVerdict(_) | Task::ReadTunnelUp | Task::ReadNetwork | Task::ReadOwnBench => {
                Reply::Answer(false)
            }
            _ => Reply::Done,
        }
    }

    /// Runs the loop up to the next record.
    fn pass(&mut self, warm: &mut WarmPass) -> Vec<Task> {
        self.asked.clear();
        loop {
            let reply = self.reply(warm.task);
            assert!(warm.can_step());
            if warm.step(reply) == Task::Publish {
                return self.asked.clone();
            }
        }
    }
}

#[test]
fn a_pass_is_done_in_order() {
    let mut warm = WarmPass::new();
    let mut machine = Fake::new(5);
    let plan = WarmLoop::new().vpn_checked(&machine.vpn, false);
    assert_eq!(
        machine.pass(&mut warm),
        [
            Task::Publish,
            Task::LookUpRoute,
            Task::ReadTunnel,
            Task::Pin(5),
            Task::ChangeTunnel(plan),
            Task::ReadTunnelUp,
            Task::FindInterface,
            Task::ReadNetwork,
            Task::SetContext(network_fingerprint(5, Some(7), false)),
            Task::SayNetworkChanged,
            Task::WarmNames(5),
            Task::ReadRelayBench,
            Task::ReadOwnBench,
            Task::ProbeOwnProxy,
            Task::ProbeExits,
            Task::ProbeDirect(5),
            Task::RefreshLeader,
            Task::Sleep,
        ]
    );
    assert_eq!(warm.clocks.since_exits, WARM_EVERY);
    // Nothing is due on the next but what every pass does.
    assert_eq!(
        machine.pass(&mut warm),
        [
            Task::Publish,
            Task::LookUpRoute,
            Task::ReadTunnelUp,
            Task::FindInterface,
            Task::ReadNetwork,
            Task::SetContext(network_fingerprint(5, Some(7), false)),
            Task::SayNetworkChanged,
            Task::WarmNames(5),
            Task::ReadRelayBench,
            Task::ReadOwnBench,
            Task::RefreshLeader,
            Task::Sleep,
        ]
    );
}

#[test]
fn every_pass_publishes_first_and_warms_and_sleeps_once() {
    let mut warm = WarmPass::new();
    let mut machine = Fake::new(5);
    for pass in 0..40u32 {
        machine.best = Some(pass / 3);
        machine.interface = pass % 4;
        machine.relay_benched = pass % 5 == 0;
        let asked = machine.pass(&mut warm);
        let times = |f: fn(&Task) -> bool| asked.iter().filter(|t| f(t)).count();
        assert_eq!(asked[0], Task::Publish);
        assert_eq!(asked[asked.len() - 1], Task::Sleep);
        assert_eq!(times(|t| *t == Task::Publish), 1);
        assert_eq!(times(|t| matches!(t, Task::WarmNames(_))), 1);
        assert_eq!(times(|t| *t == Task::Sleep), 1);
        // No network without an interface; the relay only while benched.
        assert_eq!(
            times(|t| matches!(t, Task::SetContext(_))) == 1,
            machine.interface != 0
        );
        assert_eq!(
            times(|t| *t == Task::ProbeRelay) == 1,
            machine.relay_benched
        );
        assert_eq!(times(|t| *t == Task::ProbeExits) == 1, pass % 8 == 0);
        assert_eq!(
            times(|t| *t == Task::ForgetInterface) == 1,
            pass > 0 && pass % 3 == 0
        );
    }
}

#[test]
fn a_reply_to_something_else_changes_nothing() {
    let mut warm = WarmPass::new();
    let before = warm;
    assert_eq!(warm.step(Reply::Answer(true)), Task::Publish);
    assert_eq!(warm, before);
    assert_eq!(warm.step(Reply::Done), Task::LookUpRoute);
    assert_eq!(warm.step(Reply::Done), Task::LookUpRoute);
}

#[test]
fn the_verdict_is_asked_for_only_where_it_counts() {
    let mut warm = WarmPass::new();
    let mut machine = Fake::new(5);
    machine.vpn.loopback_active = false;
    let asked = machine.pass(&mut warm);
    assert_eq!(asked[3], Task::Pin(5));
    assert_eq!(asked[4], Task::AskVerdict(machine.vpn.egress));
    // No room on the clocks for another sleep.
    let mut full = warm;
    full.task = Task::Sleep;
    full.clocks.since_exit_check = u64::MAX;
    assert!(!full.can_step());
}
