//! What the warm loop decides on each of its passes.
//!
//! A pass looks up the default route, checks on the tunnel when that is due,
//! warms the routed names, probes the routes that are due, and sleeps. Every
//! clock here counts the seconds slept since the last time.
use vstd::prelude::*;

verus! {

/// How often, in seconds, the routed names are re-resolved in the background:
/// half the time a substituted answer is served for, so that a client's query
/// never finds one expired.
pub const WARM_EVERY: u64 = 15;

/// For how many seconds a substituted answer is served from memory.
pub const ANSWER_TTL: u64 = 30;

/// How often, in seconds, the relay re-asks whether a tunnel is carrying the
/// machine.
pub const VPN_CHECK_EVERY: u64 = 4 * 60;

/// How often, in seconds, the user's own proxy, the built-in exits and the
/// direct route are re-timed while healthy.
pub const PROBE_HEALTHY_EVERY: u64 = 2 * 60;

/// How often, in seconds, the tunnel's exit country is re-read while a VPN stays
/// up.
pub const VPN_EXIT_EVERY: u64 = 30 * 60;

/// The name the route table is refreshed against: the one the IDE uses.
pub const ROUTE_PROBE_HOST: &'static str = "daily-cloudcode-pa.googleapis.com";

/// The physical link out of the machine, and whether a tunnel holds the default
/// route over it.
#[derive(Debug, Clone, Copy, PartialEq, Eq, Structural)]
pub struct Egress {
    pub if_index: u32,
    pub vpn_active: bool,
}

/// What a check on the tunnel finds before anything is changed.
#[derive(Debug, Clone, Copy, PartialEq, Eq, Structural)]
pub struct VpnReading {
    /// The detected link, if any.
    pub egress: Option<Egress>,
    /// A tunnel was up until now.
    pub was_tunnel: bool,
    /// Gate hosts are answered with our own loopback addresses.
    pub loopback_active: bool,
    /// The relay is answering as the tunnel's resolver would.
    pub standing_down: bool,
    /// Whether the tunnel may be used as a route has been measured.
    pub exit_known: bool,
}

impl VpnReading {
    pub open spec fn has_tunnel(self) -> bool {
        self.egress matches Some(e) && e.vpn_active
    }

    /// The client's own traffic has to be looked at only when a tunnel is up and
    /// the loopback door, which would bring that traffic to us, is down.
    pub open spec fn wants_verdict(self) -> bool {
        self.has_tunnel() && !self.loopback_active
    }

    /// The tunnel's exit is measured when it has just come up, and until it is
    /// known.
    pub open spec fn wants_measuring(self) -> bool {
        self.has_tunnel() && (!self.was_tunnel || !self.exit_known)
    }

    /// The link our own connections are pinned to; 0 for none.
    pub open spec fn pinned(self) -> u32 {
        match self.egress {
            Some(e) if e.vpn_active => e.if_index,
            _ => 0,
        }
    }

    /// What is changed on that reading. `carried` is whether the client was
    /// measured inside the tunnel, and counts only where that is asked.
    pub open spec fn plan(self, carried: bool) -> VpnPlan {
        let stand_down = self.wants_verdict() && carried;
        VpnPlan {
            tunnel: self.has_tunnel(),
            tunnel_changes: self.has_tunnel() != self.was_tunnel,
            stand_down,
            stand_down_changes: stand_down != self.standing_down,
            measure_exit: self.wants_measuring(),
            forget_exit: !self.has_tunnel(),
        }
    }

    /// Nothing found, and nothing before it.
    pub open spec fn is_blank(self) -> bool {
        &&& self.egress is None
        &&& !self.was_tunnel && !self.loopback_active && !self.standing_down && !self.exit_known
    }

    pub fn blank() -> (seen: VpnReading)
        ensures
            seen.is_blank(),
    {
        VpnReading {
            egress: None,
            was_tunnel: false,
            loopback_active: false,
            standing_down: false,
            exit_known: false,
        }
    }

    pub fn tunnel(&self) -> (t: bool)
        ensures
            t == self.has_tunnel(),
    {
        match self.egress {
            Some(e) => e.vpn_active,
            None => false,
        }
    }

    /// The link our own connections are pinned to while a tunnel is up, so that
    /// it cannot catch them; 0 for none.
    pub fn pin(&self) -> (index: u32)
        ensures
            index == self.pinned(),
    {
        match self.egress {
            Some(e) => if e.vpn_active {
                e.if_index
            } else {
                0
            },
            None => 0,
        }
    }

    pub fn needs_verdict(&self) -> (needs: bool)
        ensures
            needs == self.wants_verdict(),
    {
        self.tunnel() && !self.loopback_active
    }
}

/// What a check on the tunnel changes.
#[derive(Debug, Clone, Copy, PartialEq, Eq, Structural)]
pub struct VpnPlan {
    /// A tunnel is up.
    pub tunnel: bool,
    /// It was not before, or no longer is.
    pub tunnel_changes: bool,
    /// Answer as the tunnel's resolver would.
    pub stand_down: bool,
    /// That was not so before, or no longer is.
    pub stand_down_changes: bool,
    /// Measure where the tunnel comes out.
    pub measure_exit: bool,
    /// Drop what was known of the tunnel's exit.
    pub forget_exit: bool,
}

pub open spec fn line_view(line: Option<&'static str>) -> Option<Seq<char>> {
    match line {
        Some(l) => Some(l@),
        None => None,
    }
}

impl VpnPlan {
    /// What to log of the stand-down, when it changes.
    pub fn stand_down_line(&self) -> (line: Option<&'static str>)
        ensures
            line_view(line) == (if !self.stand_down_changes {
                None
            } else if self.stand_down {
                Some("Antigravity ходит через VPN мимо обхода — адреса отдаются как у VPN"@)
            } else {
                Some("подмена адресов снова включена"@)
            }),
    {
        if !self.stand_down_changes {
            None
        } else if self.stand_down {
            Some("Antigravity ходит через VPN мимо обхода — адреса отдаются как у VPN")
        } else {
            Some("подмена адресов снова включена")
        }
    }

    /// What to log of the tunnel, when it comes up or goes down.
    pub fn tunnel_line(&self) -> (line: Option<&'static str>)
        ensures
            line_view(line) == (if !self.tunnel_changes {
                None
            } else if self.tunnel {
                Some(
                    "VPN поднят — соединения службы с сервисами разблокировки идут мимо него, через провайдера"@,
                )
            } else {
                Some("VPN отключён"@)
            }),
    {
        if !self.tunnel_changes {
            None
        } else if self.tunnel {
            Some(
                "VPN поднят — соединения службы с сервисами разблокировки идут мимо него, через провайдера",
            )
        } else {
            Some("VPN отключён")
        }
    }
}

/// Which routes to probe on this pass.
#[derive(Debug, Clone, Copy, PartialEq, Eq, Structural)]
pub struct Probes {
    pub relay: bool,
    pub upstream: bool,
    pub exits: bool,
    pub direct: bool,
}

/// The clocks of the loop, in seconds slept, and the default route it last saw.
#[derive(Debug, Clone, Copy, PartialEq, Eq, Structural)]
pub struct WarmLoop {
    pub since_upstream: u64,
    pub since_exits: u64,
    pub since_direct: u64,
    pub since_vpn: u64,
    pub since_exit_check: u64,
    pub last_best: Option<u32>,
}

impl WarmLoop {
    /// Everything but the tunnel's exit is due on the first pass.
    pub open spec fn at_start(self) -> bool {
        &&& self.since_upstream == PROBE_HEALTHY_EVERY
        &&& self.since_exits == PROBE_HEALTHY_EVERY
        &&& self.since_direct == PROBE_HEALTHY_EVERY
        &&& self.since_vpn == VPN_CHECK_EVERY
        &&& self.since_exit_check == 0
        &&& self.last_best is None
    }

    /// The clocks can take one more sleep.
    pub open spec fn has_room(self) -> bool {
        &&& self.since_upstream <= u64::MAX - WARM_EVERY
        &&& self.since_exits <= u64::MAX - WARM_EVERY
        &&& self.since_direct <= u64::MAX - WARM_EVERY
        &&& self.since_vpn <= u64::MAX - WARM_EVERY
        &&& self.since_exit_check <= u64::MAX - WARM_EVERY
    }

    /// The state one sleep later.
    pub open spec fn later(self) -> WarmLoop {
        WarmLoop {
            since_upstream: (self.since_upstream + WARM_EVERY) as u64,
            since_exits: (self.since_exits + WARM_EVERY) as u64,
            since_direct: (self.since_direct + WARM_EVERY) as u64,
            since_vpn: (self.since_vpn + WARM_EVERY) as u64,
            since_exit_check: (self.since_exit_check + WARM_EVERY) as u64,
            last_best: self.last_best,
        }
    }

    /// The state once the default route has been looked up.
    pub open spec fn after_route(self, best: Option<u32>) -> WarmLoop {
        WarmLoop {
            last_best: best,
            since_vpn: if best != self.last_best { VPN_CHECK_EVERY } else { self.since_vpn },
            ..self
        }
    }

    /// The state once the tunnel has been checked.
    pub open spec fn after_vpn(self, seen: VpnReading) -> WarmLoop {
        WarmLoop {
            since_vpn: 0,
            since_exit_check: if seen.wants_measuring() { 0 } else { self.since_exit_check },
            ..self
        }
    }

    /// The state once the tunnel's exit has been seen to.
    pub open spec fn after_exit(self, tunnel_up: bool) -> WarmLoop {
        WarmLoop {
            since_exit_check: if tunnel_up && self.since_exit_check >= VPN_EXIT_EVERY {
                0
            } else {
                self.since_exit_check
            },
            ..self
        }
    }

    /// What is probed: the relay, which is somebody else's server, only to lift
    /// a bench; the user's own proxy while benched and on the healthy clock; the
    /// exits and the direct route on that clock alone.
    pub open spec fn due(self, relay_benched: bool, own_benched: bool) -> Probes {
        Probes {
            relay: relay_benched,
            upstream: own_benched || self.since_upstream >= PROBE_HEALTHY_EVERY,
            exits: self.since_exits >= PROBE_HEALTHY_EVERY,
            direct: self.since_direct >= PROBE_HEALTHY_EVERY,
        }
    }

    /// The state once the user's own proxy has been seen to.
    pub open spec fn after_own(self, benched: bool) -> WarmLoop {
        WarmLoop {
            since_upstream: if benched || self.since_upstream >= PROBE_HEALTHY_EVERY {
                0
            } else {
                self.since_upstream
            },
            ..self
        }
    }

    /// The state once the exits have been seen to.
    pub open spec fn after_exits(self) -> WarmLoop {
        WarmLoop {
            since_exits: if self.since_exits >= PROBE_HEALTHY_EVERY { 0 } else { self.since_exits },
            ..self
        }
    }

    /// The state once the direct route has been seen to.
    pub open spec fn after_direct(self) -> WarmLoop {
        WarmLoop {
            since_direct: if self.since_direct >= PROBE_HEALTHY_EVERY {
                0
            } else {
                self.since_direct
            },
            ..self
        }
    }

    /// The state after those probes: their clocks start over.
    pub open spec fn probed(self, p: Probes) -> WarmLoop {
        WarmLoop {
            since_upstream: if p.upstream { 0 } else { self.since_upstream },
            since_exits: if p.exits { 0 } else { self.since_exits },
            since_direct: if p.direct { 0 } else { self.since_direct },
            ..self
        }
    }

    pub fn new() -> (w: WarmLoop)
        ensures
            w.at_start(),
    {
        WarmLoop {
            since_upstream: PROBE_HEALTHY_EVERY,
            since_exits: PROBE_HEALTHY_EVERY,
            since_direct: PROBE_HEALTHY_EVERY,
            since_vpn: VPN_CHECK_EVERY,
            since_exit_check: 0,
            last_best: None,
        }
    }

    /// Takes the adapter the default route leaves through now. A change is a VPN
    /// coming up or going down, or a different network, so the tunnel is checked
    /// right away; and unless it is the first one seen, what was learned of the
    /// interface is to be dropped, which is the result.
    pub fn route_seen(&mut self, best: Option<u32>) -> (forget_interface: bool)
        ensures
            forget_interface == (best != old(self).last_best && old(self).last_best is Some),
            *final(self) == old(self).after_route(best),
    {
        let changed = match (best, self.last_best) {
            (Some(a), Some(b)) => a != b,
            (None, None) => false,
            _ => true,
        };
        if !changed {
            return false;
        }
        let forget_interface = self.last_best.is_some();
        self.last_best = best;
        self.since_vpn = VPN_CHECK_EVERY;
        forget_interface
    }

    pub fn vpn_check_due(&self) -> (due: bool)
        ensures
            due == (self.since_vpn >= VPN_CHECK_EVERY),
    {
        self.since_vpn >= VPN_CHECK_EVERY
    }

    /// Settles a check on the tunnel. `carried` is whether the client was
    /// measured inside the tunnel, and counts only where that was asked.
    pub fn vpn_checked(&mut self, seen: &VpnReading, carried: bool) -> (plan: VpnPlan)
        ensures
            plan == seen.plan(carried),
            *final(self) == old(self).after_vpn(*seen),
    {
        let tunnel = seen.tunnel();
        let stand_down = tunnel && !seen.loopback_active && carried;
        let measure_exit = tunnel && (!seen.was_tunnel || !seen.exit_known);
        if measure_exit {
            self.since_exit_check = 0;
        }
        self.since_vpn = 0;
        VpnPlan {
            tunnel,
            tunnel_changes: tunnel != seen.was_tunnel,
            stand_down,
            stand_down_changes: stand_down != seen.standing_down,
            measure_exit,
            forget_exit: !tunnel,
        }
    }

    /// Whether the tunnel's exit is to be measured again. Starts its clock over
    /// when it is.
    pub fn exit_check_due(&mut self, tunnel_up: bool) -> (due: bool)
        ensures
            due == (tunnel_up && old(self).since_exit_check >= VPN_EXIT_EVERY),
            *final(self) == old(self).after_exit(tunnel_up),
    {
        let due = tunnel_up && self.since_exit_check >= VPN_EXIT_EVERY;
        if due {
            self.since_exit_check = 0;
        }
        due
    }

    /// Whether to probe the user's own proxy. Starts its clock over when it is.
    pub fn own_probe_due(&mut self, benched: bool) -> (due: bool)
        ensures
            due == old(self).due(false, benched).upstream,
            *final(self) == old(self).after_own(benched),
    {
        let due = benched || self.since_upstream >= PROBE_HEALTHY_EVERY;
        if due {
            self.since_upstream = 0;
        }
        due
    }

    /// Whether to probe the built-in exits. Starts their clock over when it is.
    pub fn exits_probe_due(&mut self) -> (due: bool)
        ensures
            due == (old(self).since_exits >= PROBE_HEALTHY_EVERY),
            *final(self) == old(self).after_exits(),
    {
        let due = self.since_exits >= PROBE_HEALTHY_EVERY;
        if due {
            self.since_exits = 0;
        }
        due
    }

    /// Whether to probe the direct route and the tunnel. Starts their clock over
    /// when it is.
    pub fn direct_probe_due(&mut self) -> (due: bool)
        ensures
            due == (old(self).since_direct >= PROBE_HEALTHY_EVERY),
            *final(self) == old(self).after_direct(),
    {
        let due = self.since_direct >= PROBE_HEALTHY_EVERY;
        if due {
            self.since_direct = 0;
        }
        due
    }

    pub fn can_sleep(&self) -> (room: bool)
        ensures
            room == self.has_room(),
    {
        self.since_upstream <= u64::MAX - WARM_EVERY && self.since_exits <= u64::MAX - WARM_EVERY
            && self.since_direct <= u64::MAX - WARM_EVERY && self.since_vpn <= u64::MAX - WARM_EVERY
            && self.since_exit_check <= u64::MAX - WARM_EVERY
    }

    /// Counts one sleep of `WARM_EVERY` seconds.
    pub fn slept(&mut self)
        requires
            old(self).has_room(),
        ensures
            *final(self) == old(self).later(),
    {
        self.since_upstream = self.since_upstream + WARM_EVERY;
        self.since_exits = self.since_exits + WARM_EVERY;
        self.since_direct = self.since_direct + WARM_EVERY;
        self.since_vpn = self.since_vpn + WARM_EVERY;
        self.since_exit_check = self.since_exit_check + WARM_EVERY;
    }
}

// ---------------------------------------------------------------------------
// What holds over many passes
// ---------------------------------------------------------------------------

/// What the other parts of the machine say during one pass.
pub struct PassReading {
    pub best: Option<u32>,
    pub vpn: VpnReading,
    /// The client was measured inside the tunnel.
    pub carried: bool,
    /// A tunnel is up once the tunnel has been checked.
    pub tunnel_up: bool,
    pub interface: u32,
    /// A tunnel is up once the interface has been found.
    pub tunnel_still_up: bool,
    pub new_network: bool,
    pub relay_benched: bool,
    pub own_benched: bool,
}

impl WarmLoop {
    /// The state when the probes of a pass are decided: the route is looked up,
    /// the tunnel checked where that is due, and its exit seen to.
    pub open spec fn before_probes(self, r: PassReading) -> WarmLoop {
        let w = self.after_route(r.best);
        let w = if w.since_vpn >= VPN_CHECK_EVERY { w.after_vpn(r.vpn) } else { w };
        w.after_exit(r.tunnel_up)
    }

    /// The state after a whole pass, its sleep included.
    pub open spec fn after_pass(self, r: PassReading) -> WarmLoop {
        let w = self.before_probes(r);
        w.probed(w.due(r.relay_benched, r.own_benched)).later()
    }

    /// The state after one pass for each reading.
    pub open spec fn after_passes(self, rs: Seq<PassReading>) -> WarmLoop
        decreases rs.len(),
    {
        if rs.len() == 0 {
            self
        } else {
            self.after_passes(rs.drop_last()).after_pass(rs.last())
        }
    }
}

/// A name is warmed twice in the time its answer is served for, so a client's
/// query never finds one expired.
pub proof fn an_answer_is_warmed_before_it_goes_stale()
    ensures
        WARM_EVERY < ANSWER_TTL,
        2 * WARM_EVERY <= ANSWER_TTL,
{
}

/// On the first pass everything is looked at but the relay, which is probed only
/// if it is benched, and the tunnel's exit, which is measured only once a tunnel
/// is known.
pub proof fn everything_is_due_at_the_start(w: WarmLoop, r: PassReading)
    requires
        w.at_start(),
    ensures
        w.after_route(r.best).since_vpn >= VPN_CHECK_EVERY,
        w.before_probes(r).due(r.relay_benched, r.own_benched) == (Probes {
            relay: r.relay_benched,
            upstream: true,
            exits: true,
            direct: true,
        }),
{
}

/// The exits, somebody's free proxies, are probed on the healthy clock alone,
/// whatever is benched: after a pass that probes them the next to do so is the
/// eighth.
pub proof fn exits_are_probed_every_eighth_pass(
    w: WarmLoop,
    probing: PassReading,
    rs: Seq<PassReading>,
    r: PassReading,
)
    requires
        w.before_probes(probing).due(probing.relay_benched, probing.own_benched).exits,
        rs.len() <= 7,
    ensures
        ({
            let now = w.after_pass(probing).after_passes(rs);
            &&& now.since_exits == (rs.len() + 1) * WARM_EVERY
            &&& now.before_probes(r).due(r.relay_benched, r.own_benched).exits == (rs.len() == 7)
        }),
    decreases rs.len(),
{
    if rs.len() > 0 {
        exits_are_probed_every_eighth_pass(w, probing, rs.drop_last(), rs.last());
    }
}

/// And the direct route is timed on a clock of the same length, so that the route
/// table compares like with like.
pub proof fn the_direct_route_is_probed_every_eighth_pass(
    w: WarmLoop,
    probing: PassReading,
    rs: Seq<PassReading>,
    r: PassReading,
)
    requires
        w.before_probes(probing).due(probing.relay_benched, probing.own_benched).direct,
        rs.len() <= 7,
    ensures
        ({
            let now = w.after_pass(probing).after_passes(rs);
            &&& now.since_direct == (rs.len() + 1) * WARM_EVERY
            &&& now.before_probes(r).due(r.relay_benched, r.own_benched).direct == (rs.len() == 7)
        }),
    decreases rs.len(),
{
    if rs.len() > 0 {
        the_direct_route_is_probed_every_eighth_pass(w, probing, rs.drop_last(), rs.last());
    }
}

/// While the default route stays as it is, after a pass that checks the tunnel the
/// next to do so is the sixteenth.
pub proof fn a_steady_route_is_checked_every_sixteenth_pass(
    w: WarmLoop,
    checking: PassReading,
    rs: Seq<PassReading>,
)
    requires
        w.after_route(checking.best).since_vpn >= VPN_CHECK_EVERY,
        rs.len() <= 15,
        forall|i: int| 0 <= i < rs.len() ==> (#[trigger] rs[i]).best == checking.best,
    ensures
        ({
            let now = w.after_pass(checking).after_passes(rs);
            &&& now.last_best == checking.best
            &&& now.since_vpn == (rs.len() + 1) * WARM_EVERY
            &&& now.after_route(checking.best).since_vpn >= VPN_CHECK_EVERY <==> rs.len() == 15
        }),
    decreases rs.len(),
{
    if rs.len() > 0 {
        let head = rs.drop_last();
        assert forall|i: int| 0 <= i < head.len() implies (#[trigger] head[i]).best
            == checking.best by {
            assert(head[i] == rs[i]);
        }
        a_steady_route_is_checked_every_sixteenth_pass(w, checking, head);
        assert(rs.last() == rs[rs.len() - 1]);
    }
}

/// A change of the default route has the tunnel checked on that very pass.
pub proof fn a_new_route_is_checked_at_once(w: WarmLoop, best: Option<u32>)
    requires
        best != w.last_best,
    ensures
        w.after_route(best).since_vpn >= VPN_CHECK_EVERY,
{
}

} // verus!
