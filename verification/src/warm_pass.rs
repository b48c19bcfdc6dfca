//! The warm loop, one task at a time.
//!
//! A pass writes the record of what the relay is doing, looks up the default
//! route, checks on the tunnel where that is due, finds the interface, warms the
//! routed names, probes what is due, and sleeps; then the next begins. The loop
//! asks for one task at a time and is told what came of it.
use vstd::prelude::*;

use crate::network::{context_of, network_context};
use crate::warm::{
    Egress, PassReading, VpnPlan, VpnReading, WarmLoop, PROBE_HEALTHY_EVERY, VPN_CHECK_EVERY,
    VPN_EXIT_EVERY, WARM_EVERY,
};

verus! {

/// What is to be done next.
#[derive(Debug, Clone, Copy, PartialEq, Eq, Structural)]
pub enum Task {
    /// Write the record of what the relay is doing. First in the pass: a user who
    /// has just switched the bypass on is watching for it.
    Publish,
    /// Find the adapter the default route leaves through.
    LookUpRoute,
    /// Drop what was learned of the interface.
    ForgetInterface,
    /// Detect the link, and read what a check on the tunnel has to know.
    ReadTunnel,
    /// Pin our own connections to a link; 0 for none.
    Pin(u32),
    /// Find out whether the client is inside the tunnel.
    AskVerdict(Option<Egress>),
    /// Change what the check on the tunnel calls for.
    ChangeTunnel(VpnPlan),
    /// Find out whether a tunnel is up.
    ReadTunnelUp,
    /// Measure where the tunnel comes out.
    MeasureExit,
    /// Find the interface queries leave through; 0 for none.
    FindInterface,
    /// Find out whether a tunnel is up, for the fingerprint of the network.
    ReadNetwork,
    /// Rank routes under that fingerprint, and find out whether it is a new one.
    SetContext(u64),
    /// Log that the network has changed.
    SayNetworkChanged,
    /// Resolve the routed names anew over that interface.
    WarmNames(u32),
    /// Find out whether the relay is benched.
    ReadRelayBench,
    ProbeRelay,
    /// Find out whether the user's own proxy is benched.
    ReadOwnBench,
    ProbeOwnProxy,
    ProbeExits,
    /// Probe the direct route over that interface, and the tunnel.
    ProbeDirect(u32),
    /// Choose the route in force.
    RefreshLeader,
    /// Sleep `WARM_EVERY` seconds.
    Sleep,
}

/// What came of a task.
#[derive(Debug, Clone, Copy, PartialEq, Eq, Structural)]
pub enum Reply {
    Done,
    Route(Option<u32>),
    Tunnel(VpnReading),
    Interface(u32),
    Answer(bool),
}

/// The loop: its clocks, the task it waits for, what the last check on the tunnel
/// found, and the interface of the pass.
#[derive(Debug, Clone, Copy, PartialEq, Eq, Structural)]
pub struct WarmPass {
    pub clocks: WarmLoop,
    pub task: Task,
    pub seen: VpnReading,
    pub interface: u32,
}

/// Whether a reply is one to that task.
pub open spec fn fits(task: Task, reply: Reply) -> bool {
    match task {
        Task::LookUpRoute => reply is Route,
        Task::ReadTunnel => reply is Tunnel,
        Task::FindInterface => reply is Interface,
        Task::AskVerdict(_) => reply is Answer,
        Task::ReadTunnelUp => reply is Answer,
        Task::ReadNetwork => reply is Answer,
        Task::SetContext(_) => reply is Answer,
        Task::ReadRelayBench => reply is Answer,
        Task::ReadOwnBench => reply is Answer,
        _ => reply is Done,
    }
}

impl WarmPass {
    /// Nothing done yet, and the record to be written first.
    pub open spec fn at_start(self) -> bool {
        self.clocks.at_start() && self.task == Task::Publish && self.seen.is_blank()
            && self.interface == 0
    }

    pub open spec fn ask(self, task: Task) -> WarmPass {
        WarmPass { task, ..self }
    }

    pub open spec fn with(self, clocks: WarmLoop) -> WarmPass {
        WarmPass { clocks, ..self }
    }

    /// The tunnel is checked when that is due.
    pub open spec fn then_tunnel(self) -> WarmPass {
        if self.clocks.since_vpn >= VPN_CHECK_EVERY {
            self.ask(Task::ReadTunnel)
        } else {
            self.ask(Task::ReadTunnelUp)
        }
    }

    pub open spec fn then_change(self, carried: bool) -> WarmPass {
        self.with(self.clocks.after_vpn(self.seen)).ask(Task::ChangeTunnel(self.seen.plan(carried)))
    }

    pub open spec fn then_direct(self) -> WarmPass {
        self.with(self.clocks.after_direct()).ask(
            if self.clocks.since_direct >= PROBE_HEALTHY_EVERY {
                Task::ProbeDirect(self.interface)
            } else {
                Task::RefreshLeader
            },
        )
    }

    pub open spec fn then_exits(self) -> WarmPass {
        let p = self.with(self.clocks.after_exits());
        if self.clocks.since_exits >= PROBE_HEALTHY_EVERY {
            p.ask(Task::ProbeExits)
        } else {
            p.then_direct()
        }
    }

    /// The loop once its task has been replied to. A reply that is none to the
    /// task changes nothing, and the task is asked for again.
    pub open spec fn next(self, reply: Reply) -> WarmPass {
        match (self.task, reply) {
            (Task::Publish, Reply::Done) => self.ask(Task::LookUpRoute),
            (Task::LookUpRoute, Reply::Route(best)) => {
                let p = self.with(self.clocks.after_route(best));
                if best != self.clocks.last_best && self.clocks.last_best is Some {
                    p.ask(Task::ForgetInterface)
                } else {
                    p.then_tunnel()
                }
            },
            (Task::ForgetInterface, Reply::Done) => self.then_tunnel(),
            (Task::ReadTunnel, Reply::Tunnel(seen)) => (WarmPass { seen, ..self }).ask(
                Task::Pin(seen.pinned()),
            ),
            (Task::Pin(_), Reply::Done) => if self.seen.wants_verdict() {
                self.ask(Task::AskVerdict(self.seen.egress))
            } else {
                self.then_change(false)
            },
            (Task::AskVerdict(_), Reply::Answer(carried)) => self.then_change(carried),
            (Task::ChangeTunnel(_), Reply::Done) => self.ask(Task::ReadTunnelUp),
            (Task::ReadTunnelUp, Reply::Answer(up)) => self.with(self.clocks.after_exit(up)).ask(
                if up && self.clocks.since_exit_check >= VPN_EXIT_EVERY {
                    Task::MeasureExit
                } else {
                    Task::FindInterface
                },
            ),
            (Task::MeasureExit, Reply::Done) => self.ask(Task::FindInterface),
            (Task::FindInterface, Reply::Interface(interface)) => (WarmPass {
                interface,
                ..self
            }).ask(Task::ReadNetwork),
            (Task::ReadNetwork, Reply::Answer(tunnel)) => self.ask(
                match context_of(self.interface, self.clocks.last_best, tunnel) {
                    Some(context) => Task::SetContext(context),
                    None => Task::WarmNames(self.interface),
                },
            ),
            (Task::SetContext(_), Reply::Answer(changed)) => self.ask(
                if changed {
                    Task::SayNetworkChanged
                } else {
                    Task::WarmNames(self.interface)
                },
            ),
            (Task::SayNetworkChanged, Reply::Done) => self.ask(Task::WarmNames(self.interface)),
            (Task::WarmNames(_), Reply::Done) => self.ask(Task::ReadRelayBench),
            (Task::ReadRelayBench, Reply::Answer(benched)) => self.ask(
                if benched {
                    Task::ProbeRelay
                } else {
                    Task::ReadOwnBench
                },
            ),
            (Task::ProbeRelay, Reply::Done) => self.ask(Task::ReadOwnBench),
            (Task::ReadOwnBench, Reply::Answer(benched)) => {
                let p = self.with(self.clocks.after_own(benched));
                if self.clocks.due(false, benched).upstream {
                    p.ask(Task::ProbeOwnProxy)
                } else {
                    p.then_exits()
                }
            },
            (Task::ProbeOwnProxy, Reply::Done) => self.then_exits(),
            (Task::ProbeExits, Reply::Done) => self.then_direct(),
            (Task::ProbeDirect(_), Reply::Done) => self.ask(Task::RefreshLeader),
            (Task::RefreshLeader, Reply::Done) => self.ask(Task::Sleep),
            (Task::Sleep, Reply::Done) => self.with(self.clocks.later()).ask(Task::Publish),
            _ => self,
        }
    }

    pub fn new() -> (p: WarmPass)
        ensures
            p.at_start(),
    {
        WarmPass {
            clocks: WarmLoop::new(),
            task: Task::Publish,
            seen: VpnReading::blank(),
            interface: 0,
        }
    }

    fn tunnel_task(&self) -> (task: Task)
        ensures
            self.ask(task) == self.then_tunnel(),
    {
        if self.clocks.vpn_check_due() {
            Task::ReadTunnel
        } else {
            Task::ReadTunnelUp
        }
    }

    fn change_tunnel(&mut self, carried: bool)
        ensures
            *final(self) == old(self).then_change(carried),
    {
        let seen = self.seen;
        let plan = self.clocks.vpn_checked(&seen, carried);
        self.task = Task::ChangeTunnel(plan);
    }

    fn probe_direct(&mut self)
        ensures
            *final(self) == old(self).then_direct(),
    {
        self.task = if self.clocks.direct_probe_due() {
            Task::ProbeDirect(self.interface)
        } else {
            Task::RefreshLeader
        };
    }

    fn probe_exits(&mut self)
        ensures
            *final(self) == old(self).then_exits(),
    {
        if self.clocks.exits_probe_due() {
            self.task = Task::ProbeExits;
        } else {
            self.probe_direct();
        }
    }

    /// Whether the loop can take a reply: there is room for a sleep on its clocks,
    /// where that is what it waits for.
    pub open spec fn has_room(self) -> bool {
        self.task is Sleep ==> self.clocks.has_room()
    }

    pub fn can_step(&self) -> (can: bool)
        ensures
            can == self.has_room(),
    {
        match self.task {
            Task::Sleep => self.clocks.can_sleep(),
            _ => true,
        }
    }

    /// Takes what came of the task, and gives the next one.
    pub fn step(&mut self, reply: Reply) -> (task: Task)
        requires
            old(self).has_room(),
        ensures
            *final(self) == old(self).next(reply),
            task == final(self).task,
    {
        match (self.task, reply) {
            (Task::Publish, Reply::Done) => {
                self.task = Task::LookUpRoute;
            },
            (Task::LookUpRoute, Reply::Route(best)) => {
                self.task = if self.clocks.route_seen(best) {
                    Task::ForgetInterface
                } else {
                    self.tunnel_task()
                };
            },
            (Task::ForgetInterface, Reply::Done) => {
                self.task = self.tunnel_task();
            },
            (Task::ReadTunnel, Reply::Tunnel(seen)) => {
                self.seen = seen;
                self.task = Task::Pin(seen.pin());
            },
            (Task::Pin(_), Reply::Done) => {
                if self.seen.needs_verdict() {
                    self.task = Task::AskVerdict(self.seen.egress);
                } else {
                    self.change_tunnel(false);
                }
            },
            (Task::AskVerdict(_), Reply::Answer(carried)) => {
                self.change_tunnel(carried);
            },
            (Task::ChangeTunnel(_), Reply::Done) => {
                self.task = Task::ReadTunnelUp;
            },
            (Task::ReadTunnelUp, Reply::Answer(up)) => {
                self.task = if self.clocks.exit_check_due(up) {
                    Task::MeasureExit
                } else {
                    Task::FindInterface
                };
            },
            (Task::MeasureExit, Reply::Done) => {
                self.task = Task::FindInterface;
            },
            (Task::FindInterface, Reply::Interface(interface)) => {
                self.interface = interface;
                self.task = Task::ReadNetwork;
            },
            (Task::ReadNetwork, Reply::Answer(tunnel)) => {
                self.task = match network_context(self.interface, self.clocks.last_best, tunnel) {
                    Some(context) => Task::SetContext(context),
                    None => Task::WarmNames(self.interface),
                };
            },
            (Task::SetContext(_), Reply::Answer(changed)) => {
                self.task = if changed {
                    Task::SayNetworkChanged
                } else {
                    Task::WarmNames(self.interface)
                };
            },
            (Task::SayNetworkChanged, Reply::Done) => {
                self.task = Task::WarmNames(self.interface);
            },
            (Task::WarmNames(_), Reply::Done) => {
                self.task = Task::ReadRelayBench;
            },
            (Task::ReadRelayBench, Reply::Answer(benched)) => {
                self.task = if benched {
                    Task::ProbeRelay
                } else {
                    Task::ReadOwnBench
                };
            },
            (Task::ProbeRelay, Reply::Done) => {
                self.task = Task::ReadOwnBench;
            },
            (Task::ReadOwnBench, Reply::Answer(benched)) => {
                if self.clocks.own_probe_due(benched) {
                    self.task = Task::ProbeOwnProxy;
                } else {
                    self.probe_exits();
                }
            },
            (Task::ProbeOwnProxy, Reply::Done) => {
                self.probe_exits();
            },
            (Task::ProbeExits, Reply::Done) => {
                self.probe_direct();
            },
            (Task::ProbeDirect(_), Reply::Done) => {
                self.task = Task::RefreshLeader;
            },
            (Task::RefreshLeader, Reply::Done) => {
                self.task = Task::Sleep;
            },
            (Task::Sleep, Reply::Done) => {
                self.clocks.slept();
                self.task = Task::Publish;
            },
            _ => {},
        }
        self.task
    }
}

// ---------------------------------------------------------------------------
// What holds however the machine replies
// ---------------------------------------------------------------------------

/// Where a task stands in a pass.
pub open spec fn place(task: Task) -> nat {
    match task {
        Task::Publish => 0,
        Task::LookUpRoute => 1,
        Task::ForgetInterface => 2,
        Task::ReadTunnel => 3,
        Task::Pin(_) => 4,
        Task::AskVerdict(_) => 5,
        Task::ChangeTunnel(_) => 6,
        Task::ReadTunnelUp => 7,
        Task::MeasureExit => 8,
        Task::FindInterface => 9,
        Task::ReadNetwork => 10,
        Task::SetContext(_) => 11,
        Task::SayNetworkChanged => 12,
        Task::WarmNames(_) => 13,
        Task::ReadRelayBench => 14,
        Task::ProbeRelay => 15,
        Task::ReadOwnBench => 16,
        Task::ProbeOwnProxy => 17,
        Task::ProbeExits => 18,
        Task::ProbeDirect(_) => 19,
        Task::RefreshLeader => 20,
        Task::Sleep => 21,
    }
}

/// A task that was done, and what came of it.
pub struct Deed {
    pub task: Task,
    pub reply: Reply,
}

impl WarmPass {
    /// The loop after those replies.
    pub open spec fn after(self, replies: Seq<Reply>) -> WarmPass
        decreases replies.len(),
    {
        if replies.len() == 0 {
            self
        } else {
            self.after(replies.drop_last()).next(replies.last())
        }
    }

    /// What was done over those replies, in order.
    pub open spec fn deeds(self, replies: Seq<Reply>) -> Seq<Deed>
        decreases replies.len(),
    {
        if replies.len() == 0 {
            seq![]
        } else {
            let before = self.deeds(replies.drop_last());
            let task = self.after(replies.drop_last()).task;
            if fits(task, replies.last()) {
                before.push(Deed { task, reply: replies.last() })
            } else {
                before
            }
        }
    }
}

/// How many of the deeds were the task that stands at that place.
pub open spec fn times(deeds: Seq<Deed>, at: nat) -> nat
    decreases deeds.len(),
{
    if deeds.len() == 0 {
        0
    } else {
        times(deeds.drop_last(), at) + (if place(deeds.last().task) == at {
            1nat
        } else {
            0nat
        })
    }
}

pub open spec fn publishes(deeds: Seq<Deed>) -> nat {
    times(deeds, place(Task::Publish))
}

pub open spec fn warms(deeds: Seq<Deed>) -> nat {
    times(deeds, place(Task::WarmNames(0)))
}

pub open spec fn sleeps(deeds: Seq<Deed>) -> nat {
    times(deeds, place(Task::Sleep))
}

proof fn lemma_times_push(deeds: Seq<Deed>, deed: Deed, at: nat)
    ensures
        times(deeds.push(deed), at) == times(deeds, at) + (if place(deed.task) == at {
            1nat
        } else {
            0nat
        }),
{
    assert(deeds.push(deed).drop_last() == deeds);
}

/// A reply to the task moves the loop on within the pass, never past the warming
/// of the names nor past the sleep; the sleep leads to the next pass. Any other
/// reply changes nothing.
pub proof fn a_pass_only_moves_on(p: WarmPass, reply: Reply)
    ensures
        !fits(p.task, reply) ==> p.next(reply) == p,
        fits(p.task, reply) && p.task is Sleep ==> p.next(reply).task is Publish,
        fits(p.task, reply) && !(p.task is Sleep) ==> place(p.task) < place(p.next(reply).task),
        place(p.task) < 13 ==> place(p.next(reply).task) <= 13,
{
}

/// Every pass writes the record once, warms the names once and sleeps once,
/// whatever the machine replies: after any replies, each has been done as often as
/// the sleep, and once more where the pass is already past it.
pub proof fn every_pass_publishes_warms_and_sleeps_once(start: WarmPass, replies: Seq<Reply>)
    requires
        start.at_start(),
    ensures
        ({
            let deeds = start.deeds(replies);
            let now = start.after(replies);
            &&& publishes(deeds) == sleeps(deeds) + (if now.task is Publish {
                0nat
            } else {
                1nat
            })
            &&& warms(deeds) == sleeps(deeds) + (if place(now.task) <= place(Task::WarmNames(0)) {
                0nat
            } else {
                1nat
            })
        }),
    decreases replies.len(),
{
    if replies.len() > 0 {
        let head = replies.drop_last();
        every_pass_publishes_warms_and_sleeps_once(start, head);
        let p = start.after(head);
        a_pass_only_moves_on(p, replies.last());
        if fits(p.task, replies.last()) {
            let deed = Deed { task: p.task, reply: replies.last() };
            lemma_times_push(start.deeds(head), deed, 0);
            lemma_times_push(start.deeds(head), deed, 13);
            lemma_times_push(start.deeds(head), deed, 21);
        }
    }
}

/// The record is written first of all, and first after every sleep, and nowhere
/// else: before any check or probe of its pass.
pub proof fn every_pass_publishes_first(start: WarmPass, replies: Seq<Reply>)
    requires
        start.at_start(),
    ensures
        ({
            let deeds = start.deeds(replies);
            &&& forall|i: int|
                0 <= i < deeds.len() ==> ((#[trigger] deeds[i]).task is Publish <==> i == 0
                    || deeds[i - 1].task is Sleep)
            &&& start.after(replies).task is Publish <==> deeds.len() == 0
                || deeds.last().task is Sleep
        }),
    decreases replies.len(),
{
    if replies.len() > 0 {
        let head = replies.drop_last();
        every_pass_publishes_first(start, head);
        a_pass_only_moves_on(start.after(head), replies.last());
        let before = start.deeds(head);
        let deeds = start.deeds(replies);
        assert forall|i: int| 0 <= i < deeds.len() implies ((#[trigger] deeds[i]).task is Publish
            <==> i == 0 || deeds[i - 1].task is Sleep) by {
            if i < before.len() {
                assert(deeds[i] == before[i]);
                if i > 0 {
                    assert(deeds[i - 1] == before[i - 1]);
                }
            }
        }
    }
}

/// The loop never ends and never stalls: as long as its tasks are replied to, it
/// sleeps again after at most twenty-two of them.
pub proof fn the_loop_never_stalls(start: WarmPass, replies: Seq<Reply>)
    requires
        start.at_start(),
    ensures
        ({
            let deeds = start.deeds(replies);
            let now = start.after(replies);
            &&& deeds.len() <= 22 * sleeps(deeds) + place(now.task)
            &&& place(now.task) < 22
        }),
    decreases replies.len(),
{
    if replies.len() > 0 {
        let head = replies.drop_last();
        the_loop_never_stalls(start, head);
        let p = start.after(head);
        a_pass_only_moves_on(p, replies.last());
        if fits(p.task, replies.last()) {
            lemma_times_push(start.deeds(head), Deed { task: p.task, reply: replies.last() }, 21);
        }
    }
}

/// Routes are ranked under a network exactly in the passes that found an
/// interface, and then under the fingerprint of that one; a pass whose interface
/// is unknown goes straight on to the names.
pub proof fn no_network_is_set_without_an_interface(start: WarmPass, replies: Seq<Reply>)
    requires
        start.at_start(),
    ensures
        ({
            let deeds = start.deeds(replies);
            forall|i: int|
                0 <= i < deeds.len() ==> {
                    &&& (#[trigger] deeds[i]).task is SetContext ==> i >= 2 && network_known(
                        deeds[i - 2],
                        deeds[i - 1],
                    ) && names_context(deeds.take(i), deeds[i].task)
                    &&& i >= 2 && network_known(deeds[i - 2], deeds[i - 1])
                        ==> deeds[i].task is SetContext
                    &&& i >= 2 && network_unknown(deeds[i - 2], deeds[i - 1]) ==> deeds[i].task
                        == Task::WarmNames(0)
                }
        }),
    decreases replies.len(),
{
    if replies.len() > 0 {
        let head = replies.drop_last();
        no_network_is_set_without_an_interface(start, head);
        lemma_network_on_its_way(start, head);
        let before = start.deeds(head);
        let deeds = start.deeds(replies);
        assert forall|i: int| 0 <= i < deeds.len() implies {
            &&& (#[trigger] deeds[i]).task is SetContext ==> i >= 2 && network_known(
                deeds[i - 2],
                deeds[i - 1],
            ) && names_context(deeds.take(i), deeds[i].task)
            &&& i >= 2 && network_known(deeds[i - 2], deeds[i - 1]) ==> deeds[i].task is SetContext
            &&& i >= 2 && network_unknown(deeds[i - 2], deeds[i - 1]) ==> deeds[i].task
                == Task::WarmNames(0)
        } by {
            if i < before.len() {
                assert(deeds[i] == before[i]);
                assert(deeds.take(i) == before.take(i));
                if i >= 2 {
                    assert(deeds[i - 1] == before[i - 1]);
                    assert(deeds[i - 2] == before[i - 2]);
                }
            } else {
                assert(deeds.take(i) == before);
            }
        }
    }
}

/// An interface was found, and whether a tunnel is up was read.
pub open spec fn network_known(found: Deed, read: Deed) -> bool {
    found.task is FindInterface && found.reply != Reply::Interface(0) && read.task is ReadNetwork
}

/// No interface was found, and whether a tunnel is up was read.
pub open spec fn network_unknown(found: Deed, read: Deed) -> bool {
    found.reply == Reply::Interface(0) && read.task is ReadNetwork
}

/// The default route as last looked up.
pub open spec fn last_route(deeds: Seq<Deed>) -> Option<u32>
    decreases deeds.len(),
{
    if deeds.len() == 0 {
        None
    } else {
        match deeds.last().reply {
            Reply::Route(best) => best,
            _ => last_route(deeds.drop_last()),
        }
    }
}

/// The task is to rank routes under the network that was found, after those deeds.
pub open spec fn names_context(deeds: Seq<Deed>, task: Task) -> bool {
    let n = deeds.len();
    &&& deeds[n - 2].reply is Interface
    &&& deeds[n - 1].reply is Answer
    &&& task == Task::SetContext(
        context_of(
            deeds[n - 2].reply->Interface_0,
            last_route(deeds),
            deeds[n - 1].reply->Answer_0,
        )->0,
    )
}

proof fn lemma_network_on_its_way(start: WarmPass, replies: Seq<Reply>)
    requires
        start.at_start(),
    ensures
        ({
            let deeds = start.deeds(replies);
            let now = start.after(replies);
            let n = deeds.len();
            &&& now.clocks.last_best == last_route(deeds)
            &&& now.task is ReadNetwork <==> n > 0 && deeds.last().task is FindInterface
            &&& now.task is ReadNetwork ==> deeds.last().reply == Reply::Interface(now.interface)
            &&& n > 0 && deeds.last().task is ReadNetwork ==> {
                &&& n >= 2
                &&& deeds[n - 2].task is FindInterface
                &&& deeds[n - 2].reply == Reply::Interface(now.interface)
                &&& deeds.last().reply is Answer
                &&& now.task == (match context_of(
                    now.interface,
                    now.clocks.last_best,
                    deeds.last().reply->Answer_0,
                ) {
                    Some(c) => Task::SetContext(c),
                    None => Task::WarmNames(now.interface),
                })
            }
            &&& now.task is SetContext ==> n > 0 && deeds.last().task is ReadNetwork
        }),
    decreases replies.len(),
{
    if replies.len() > 0 {
        let head = replies.drop_last();
        lemma_network_on_its_way(start, head);
        if fits(start.after(head).task, replies.last()) {
            assert(start.deeds(replies).drop_last() == start.deeds(head));
        }
    }
}

/// The relay, which is somebody else's server, is probed exactly where it was just
/// found benched.
pub proof fn only_a_benched_relay_is_probed(start: WarmPass, replies: Seq<Reply>)
    requires
        start.at_start(),
    ensures
        ({
            let deeds = start.deeds(replies);
            &&& forall|i: int|
                0 <= i < deeds.len() ==> ((#[trigger] deeds[i]).task is ProbeRelay <==> i > 0
                    && found_benched(deeds[i - 1]))
            &&& start.after(replies).task is ProbeRelay <==> deeds.len() > 0 && found_benched(
                deeds.last(),
            )
        }),
    decreases replies.len(),
{
    if replies.len() > 0 {
        let head = replies.drop_last();
        only_a_benched_relay_is_probed(start, head);
        let before = start.deeds(head);
        let deeds = start.deeds(replies);
        assert forall|i: int| 0 <= i < deeds.len() implies ((#[trigger] deeds[i]).task is ProbeRelay
            <==> i > 0 && found_benched(deeds[i - 1])) by {
            if i < before.len() {
                assert(deeds[i] == before[i]);
                if i > 0 {
                    assert(deeds[i - 1] == before[i - 1]);
                }
            }
        }
    }
}

pub open spec fn found_benched(deed: Deed) -> bool {
    deed.task is ReadRelayBench && deed.reply == Reply::Answer(true)
}

impl WarmPass {
    /// No clock but the exit check's runs past its period, which is up only until
    /// the pass has seen to it; and that one counts at most the sleeps.
    pub open spec fn on_time(self, slept: nat) -> bool {
        let c = self.clocks;
        let at = place(self.task);
        &&& c.since_upstream <= PROBE_HEALTHY_EVERY && c.since_upstream % WARM_EVERY == 0
        &&& c.since_exits <= PROBE_HEALTHY_EVERY && c.since_exits % WARM_EVERY == 0
        &&& c.since_direct <= PROBE_HEALTHY_EVERY && c.since_direct % WARM_EVERY == 0
        &&& c.since_vpn <= VPN_CHECK_EVERY && c.since_vpn % WARM_EVERY == 0
        &&& c.since_exit_check <= slept * WARM_EVERY
        &&& at > place(Task::ReadOwnBench) ==> c.since_upstream < PROBE_HEALTHY_EVERY
        &&& at >= place(Task::ProbeExits) ==> c.since_exits < PROBE_HEALTHY_EVERY
        &&& at >= place(Task::ProbeDirect(0)) ==> c.since_direct < PROBE_HEALTHY_EVERY
        &&& at > place(Task::AskVerdict(None)) ==> c.since_vpn < VPN_CHECK_EVERY
    }
}

/// A pass stays on time up to its sleep.
proof fn lemma_stays_on_time(p: WarmPass, reply: Reply, slept: nat)
    requires
        p.on_time(slept),
        !(p.task is Sleep),
    ensures
        p.next(reply).on_time(slept),
{
}

/// And so does the sleep.
proof fn lemma_sleeps_on_time(p: WarmPass, slept: nat)
    requires
        p.on_time(slept),
        p.task is Sleep,
        (slept + 1) * WARM_EVERY <= u64::MAX,
    ensures
        p.next(Reply::Done).on_time(slept + 1),
{
}

/// However the machine replies, the loop never falls behind: at any time each
/// route's clock and the tunnel's is within its period, and there is room for the
/// next sleep, for as many sleeps as 64 bits of seconds hold.
pub proof fn the_loop_keeps_its_clocks(start: WarmPass, replies: Seq<Reply>)
    requires
        start.at_start(),
        (sleeps(start.deeds(replies)) + 1) * WARM_EVERY <= u64::MAX,
    ensures
        start.after(replies).on_time(sleeps(start.deeds(replies))),
        start.after(replies).clocks.has_room(),
        start.after(replies).has_room(),
    decreases replies.len(),
{
    if replies.len() > 0 {
        let head = replies.drop_last();
        let p = start.after(head);
        if fits(p.task, replies.last()) {
            lemma_times_push(start.deeds(head), Deed { task: p.task, reply: replies.last() }, 21);
        }
        the_loop_keeps_its_clocks(start, head);
        let slept = sleeps(start.deeds(head));
        if !(p.task is Sleep) {
            lemma_stays_on_time(p, replies.last(), slept);
        } else if replies.last() is Done {
            lemma_sleeps_on_time(p, slept);
        }
    }
}

// ---------------------------------------------------------------------------
// What is asked for, from what was done
// ---------------------------------------------------------------------------

/// The interface as last found.
pub open spec fn last_interface(deeds: Seq<Deed>) -> Option<u32>
    decreases deeds.len(),
{
    if deeds.len() == 0 {
        None
    } else {
        match deeds.last().reply {
            Reply::Interface(i) => Some(i),
            _ => last_interface(deeds.drop_last()),
        }
    }
}

/// How many sleeps there were since the task at that place was last done; none
/// where it never was.
pub open spec fn slept_since(deeds: Seq<Deed>, at: nat) -> Option<nat>
    decreases deeds.len(),
{
    if deeds.len() == 0 {
        None
    } else if place(deeds.last().task) == at {
        Some(0)
    } else {
        match slept_since(deeds.drop_last(), at) {
            Some(n) => Some(
                if deeds.last().task is Sleep {
                    n + 1
                } else {
                    n
                },
            ),
            None => None,
        }
    }
}

/// The task at that place was never done, or not for so many passes.
pub open spec fn is_time(deeds: Seq<Deed>, at: nat, passes: nat) -> bool {
    match slept_since(deeds, at) {
        Some(n) => n >= passes,
        None => true,
    }
}

/// The default route as last looked up is not the one before it.
pub open spec fn route_changed(deeds: Seq<Deed>) -> bool
    decreases deeds.len(),
{
    if deeds.len() == 0 {
        false
    } else {
        match deeds.last().reply {
            Reply::Route(best) => best != last_route(deeds.drop_last()),
            _ => route_changed(deeds.drop_last()),
        }
    }
}

/// Whether a task has the tunnel's exit measured.
pub open spec fn measures(task: Task) -> bool {
    match task {
        Task::MeasureExit => true,
        Task::ChangeTunnel(plan) => plan.measure_exit,
        _ => false,
    }
}

/// How many sleeps there were since the tunnel's exit was last measured, or since
/// the start.
pub open spec fn slept_since_measured(deeds: Seq<Deed>) -> nat
    decreases deeds.len(),
{
    if deeds.len() == 0 || measures(deeds.last().task) {
        0
    } else if deeds.last().task is Sleep {
        slept_since_measured(deeds.drop_last()) + 1
    } else {
        slept_since_measured(deeds.drop_last())
    }
}

/// A pass that is under way, as far as what was done tells of it: the interface and
/// the default route it works with.
spec fn remembers(p: WarmPass, deeds: Seq<Deed>) -> bool {
    let n = deeds.len();
    let at = place(p.task);
    &&& p.clocks.last_best == last_route(deeds)
    &&& last_interface(deeds) matches Some(i) ==> p.interface == i
    &&& at > place(Task::FindInterface) ==> last_interface(deeds) is Some
    &&& p.task matches Task::WarmNames(i) ==> i == p.interface
    &&& p.task matches Task::ProbeDirect(i) ==> i == p.interface
    &&& p.task is ForgetInterface <==> n > 0 && deeds.last().task is LookUpRoute && last_route(
        deeds.drop_last(),
    ) is Some && last_route(deeds.drop_last()) != last_route(deeds)
    &&& p.task is SayNetworkChanged <==> n > 0 && deeds.last().task is SetContext
        && deeds.last().reply == Reply::Answer(true)
    &&& p.task is Pin <==> n > 0 && deeds.last().task is ReadTunnel
    &&& n > 0 && deeds.last().task is ReadTunnel ==> deeds.last().reply == Reply::Tunnel(p.seen)
        && p.task == Task::Pin(p.seen.pinned())
    &&& n > 0 && deeds.last().task is Pin ==> {
        &&& n > 1
        &&& deeds[n - 2].task is ReadTunnel
        &&& deeds[n - 2].reply == Reply::Tunnel(p.seen)
        &&& p.task == (if p.seen.wants_verdict() {
            Task::AskVerdict(p.seen.egress)
        } else {
            Task::ChangeTunnel(p.seen.plan(false))
        })
    }
    &&& n > 0 && deeds.last().task is AskVerdict ==> {
        &&& n > 2
        &&& deeds[n - 2].task is Pin
        &&& deeds[n - 3].task is ReadTunnel
        &&& deeds[n - 3].reply == Reply::Tunnel(p.seen)
        &&& deeds.last().reply is Answer
        &&& p.task == Task::ChangeTunnel(p.seen.plan(deeds.last().reply->Answer_0))
    }
    &&& p.task is AskVerdict ==> n > 0 && deeds.last().task is Pin
    &&& p.task is ChangeTunnel ==> n > 0 && (deeds.last().task is Pin
        || deeds.last().task is AskVerdict)
}

proof fn lemma_remembers(start: WarmPass, replies: Seq<Reply>)
    requires
        start.at_start(),
    ensures
        remembers(start.after(replies), start.deeds(replies)),
    decreases replies.len(),
{
    if replies.len() > 0 {
        let head = replies.drop_last();
        lemma_remembers(start, head);
        let p = start.after(head);
        a_pass_only_moves_on(p, replies.last());
        if fits(p.task, replies.last()) {
            let before = start.deeds(head);
            lemma_remembers_more(p, before, replies.last());
        }
    }
}

proof fn lemma_remembers_more(p: WarmPass, before: Seq<Deed>, reply: Reply)
    requires
        remembers(p, before),
        fits(p.task, reply),
    ensures
        remembers(p.next(reply), before.push(Deed { task: p.task, reply })),
{
    let deeds = before.push(Deed { task: p.task, reply });
    assert(deeds.drop_last() == before);
    assert(deeds.last().task == p.task);
    if before.len() > 0 {
        assert(deeds[deeds.len() - 2] == before.last());
        if before.len() > 1 {
            assert(deeds[deeds.len() - 3] == before[before.len() - 2]);
        }
    }
}

/// What is done is done after what was asked for before it.
proof fn lemma_was_asked(start: WarmPass, replies: Seq<Reply>, i: int) -> (earlier: Seq<Reply>)
    requires
        0 <= i < start.deeds(replies).len(),
    ensures
        start.deeds(earlier) == start.deeds(replies).take(i),
        start.after(earlier).task == start.deeds(replies)[i].task,
    decreases replies.len(),
{
    let head = replies.drop_last();
    let before = start.deeds(head);
    if i < before.len() {
        assert(start.deeds(replies)[i] == before[i]);
        assert(start.deeds(replies).take(i) == before.take(i));
        lemma_was_asked(start, head, i)
    } else {
        assert(start.deeds(replies).take(i) == before);
        head
    }
}

/// The names are warmed, and the direct route is probed, over the interface found
/// last - the one of that pass, since every pass finds it once, before either.
pub proof fn the_interface_found_is_the_one_used(start: WarmPass, replies: Seq<Reply>)
    requires
        start.at_start(),
    ensures
        ({
            let deeds = start.deeds(replies);
            &&& forall|i: int|
                #![trigger deeds[i]]
                0 <= i < deeds.len() ==> {
                    &&& deeds[i].task matches Task::WarmNames(used) ==> last_interface(
                        deeds.take(i),
                    ) == Some(used)
                    &&& deeds[i].task matches Task::ProbeDirect(used) ==> last_interface(
                        deeds.take(i),
                    ) == Some(used)
                }
            &&& start.after(replies).task matches Task::WarmNames(used) ==> last_interface(deeds)
                == Some(used)
            &&& start.after(replies).task matches Task::ProbeDirect(used) ==> last_interface(deeds)
                == Some(used)
        }),
{
    lemma_remembers(start, replies);
    let deeds = start.deeds(replies);
    assert forall|i: int| #![trigger deeds[i]] 0 <= i < deeds.len() implies {
        &&& deeds[i].task matches Task::WarmNames(used) ==> last_interface(deeds.take(i)) == Some(
            used,
        )
        &&& deeds[i].task matches Task::ProbeDirect(used) ==> last_interface(deeds.take(i))
            == Some(used)
    } by {
        let earlier = lemma_was_asked(start, replies, i);
        lemma_remembers(start, earlier);
    }
}

/// Whether every pass has to come to the task at that place.
pub open spec fn in_every_pass(at: nat) -> bool {
    ||| at == place(Task::Publish) || at == place(Task::LookUpRoute)
    ||| at == place(Task::ReadTunnelUp) || at == place(Task::FindInterface)
    ||| at == place(Task::ReadNetwork) || at == place(Task::WarmNames(0))
    ||| at == place(Task::ReadRelayBench) || at == place(Task::ReadOwnBench)
    ||| at == place(Task::RefreshLeader)
}

/// Every pass looks up the route, looks whether a tunnel is up, finds the
/// interface, reads the network, warms the names, looks at both benches and chooses
/// the leader, each exactly once.
pub proof fn every_pass_does_its_rounds(start: WarmPass, replies: Seq<Reply>, at: nat)
    requires
        start.at_start(),
        in_every_pass(at),
    ensures
        ({
            let deeds = start.deeds(replies);
            times(deeds, at) == sleeps(deeds) + (if place(start.after(replies).task) <= at {
                0nat
            } else {
                1nat
            })
        }),
    decreases replies.len(),
{
    if replies.len() > 0 {
        let head = replies.drop_last();
        every_pass_does_its_rounds(start, head, at);
        let p = start.after(head);
        a_pass_only_moves_on(p, replies.last());
        assert(place(p.task) < at ==> place(p.next(replies.last()).task) <= at);
        if fits(p.task, replies.last()) {
            let deed = Deed { task: p.task, reply: replies.last() };
            lemma_times_push(start.deeds(head), deed, at);
            lemma_times_push(start.deeds(head), deed, 21);
        }
    }
}

/// What was learned of the interface is dropped exactly when the default route just
/// looked up is another than a known one before it; and a change of network is
/// logged exactly when the routes were just told of one.
pub proof fn changes_are_noticed(start: WarmPass, replies: Seq<Reply>)
    requires
        start.at_start(),
    ensures
        ({
            let deeds = start.deeds(replies);
            let now = start.after(replies);
            &&& now.task is ForgetInterface <==> deeds.len() > 0 && deeds.last().task is LookUpRoute
                && last_route(deeds.drop_last()) is Some && deeds.last().reply != Reply::Route(
                last_route(deeds.drop_last()),
            )
            &&& now.task is SayNetworkChanged <==> deeds.len() > 0
                && deeds.last().task is SetContext && deeds.last().reply == Reply::Answer(true)
        }),
    decreases replies.len(),
{
    lemma_remembers(start, replies);
    let deeds = start.deeds(replies);
    if deeds.len() > 0 {
        lemma_deeds_fit(start, replies);
    }
}

proof fn lemma_deeds_fit(start: WarmPass, replies: Seq<Reply>)
    requires
        start.deeds(replies).len() > 0,
    ensures
        fits(start.deeds(replies).last().task, start.deeds(replies).last().reply),
    decreases replies.len(),
{
    let head = replies.drop_last();
    if !fits(start.after(head).task, replies.last()) {
        lemma_deeds_fit(start, head);
    }
}

/// What a check on the tunnel leads to. Our own connections are pinned to the link
/// exactly while a tunnel is up. The client is looked for inside the tunnel exactly
/// when one is up and the loopback door is down, and only a client found there has
/// the relay stand down. What is new is told from what was before. The exit is
/// measured when a tunnel comes up and until it is known, and forgotten when there
/// is no tunnel.
pub proof fn a_check_changes_what_it_finds(start: WarmPass, replies: Seq<Reply>)
    requires
        start.at_start(),
    ensures
        ({
            let deeds = start.deeds(replies);
            let n = deeds.len();
            let now = start.after(replies);
            &&& n > 0 && deeds.last().task is ReadTunnel ==> {
                let seen = deeds.last().reply->Tunnel_0;
                &&& now.task is Pin
                &&& now.task->Pin_0 == (match seen.egress {
                    Some(e) => if e.vpn_active {
                        e.if_index
                    } else {
                        0
                    },
                    None => 0,
                })
            }
            &&& n > 0 && deeds.last().task is Pin ==> {
                let seen = deeds[n - 2].reply->Tunnel_0;
                let up = seen.egress is Some && seen.egress->0.vpn_active;
                &&& n > 1 && deeds[n - 2].task is ReadTunnel
                &&& up && !seen.loopback_active ==> now.task == Task::AskVerdict(seen.egress)
                &&& !up || seen.loopback_active ==> now.task is ChangeTunnel && right_plan(
                    seen,
                    false,
                    now.task->ChangeTunnel_0,
                )
            }
            &&& n > 0 && deeds.last().task is AskVerdict ==> {
                &&& n > 2 && deeds[n - 3].task is ReadTunnel
                &&& now.task is ChangeTunnel && right_plan(
                    deeds[n - 3].reply->Tunnel_0,
                    deeds.last().reply == Reply::Answer(true),
                    now.task->ChangeTunnel_0,
                )
            }
            &&& now.task is Pin ==> n > 0 && deeds.last().task is ReadTunnel
            &&& now.task is AskVerdict ==> n > 0 && deeds.last().task is Pin
            &&& now.task is ChangeTunnel ==> n > 0 && (deeds.last().task is Pin
                || deeds.last().task is AskVerdict)
        }),
{
    lemma_remembers(start, replies);
}

/// Whether that is what to change where the tunnel is as seen and the client was or
/// was not found inside it.
pub open spec fn right_plan(seen: VpnReading, found_inside: bool, plan: VpnPlan) -> bool {
    let up = seen.egress is Some && seen.egress->0.vpn_active;
    &&& plan.tunnel == up
    &&& plan.forget_exit == !up
    &&& plan.tunnel_changes <==> up != seen.was_tunnel
    &&& plan.stand_down ==> up && !seen.loopback_active && found_inside
    &&& up && !seen.loopback_active && found_inside ==> plan.stand_down
    &&& plan.stand_down_changes <==> plan.stand_down != seen.standing_down
    &&& plan.measure_exit ==> up
    &&& up && !seen.was_tunnel ==> plan.measure_exit
    &&& up && !seen.exit_known ==> plan.measure_exit
    &&& seen.was_tunnel && seen.exit_known ==> !plan.measure_exit
}

/// A check that finds everything as the one before it left it changes nothing more.
pub proof fn a_second_check_changes_nothing(seen: VpnReading, carried: bool, again: VpnReading)
    requires
        again.egress == seen.egress,
        again.loopback_active == seen.loopback_active,
        again.was_tunnel == seen.plan(carried).tunnel,
        again.standing_down == seen.plan(carried).stand_down,
        again.exit_known,
    ensures
        again.pinned() == seen.pinned(),
        again.plan(carried).tunnel == seen.plan(carried).tunnel,
        again.plan(carried).stand_down == seen.plan(carried).stand_down,
        !again.plan(carried).tunnel_changes,
        !again.plan(carried).stand_down_changes,
        !again.plan(carried).measure_exit,
{
}

// ---------------------------------------------------------------------------
// When it is time
// ---------------------------------------------------------------------------

/// A clock of the loop against the sleeps since its task, which starts it over, was
/// asked for. It stands at its period before the task was ever done.
spec fn counts(clock: u64, p: WarmPass, deeds: Seq<Deed>, at: nat, passes: nat) -> bool {
    if place(p.task) == at {
        clock == 0 && (slept_since(deeds, at) matches Some(n) ==> n <= passes)
    } else {
        match slept_since(deeds, at) {
            Some(n) => clock == n * 15 && n <= passes && (place(p.task) > at ==> n < passes),
            None => clock == passes * 15 && place(p.task) < at,
        }
    }
}

/// The clocks of the probes against what was done.
spec fn probes_count(p: WarmPass, deeds: Seq<Deed>) -> bool {
    &&& counts(p.clocks.since_upstream, p, deeds, 17, 8)
    &&& counts(p.clocks.since_exits, p, deeds, 18, 8)
    &&& counts(p.clocks.since_direct, p, deeds, 19, 8)
    &&& p.task is ProbeOwnProxy ==> is_time(deeds, 17, 8) || (deeds.len() > 0 && deeds.last()
        == (Deed { task: Task::ReadOwnBench, reply: Reply::Answer(true) }))
    &&& p.task is ProbeExits ==> is_time(deeds, 18, 8)
    &&& p.task is ProbeDirect ==> is_time(deeds, 19, 8)
    &&& deeds.len() > 0 && deeds.last() == (Deed {
        task: Task::ReadOwnBench,
        reply: Reply::Answer(true),
    }) ==> p.task is ProbeOwnProxy
}

proof fn lemma_probes_count_more(p: WarmPass, before: Seq<Deed>, reply: Reply)
    requires
        probes_count(p, before),
        fits(p.task, reply),
    ensures
        probes_count(p.next(reply), before.push(Deed { task: p.task, reply })),
{
    let deeds = before.push(Deed { task: p.task, reply });
    assert(deeds.drop_last() == before);
    assert(deeds.last() == (Deed { task: p.task, reply }));
}

proof fn lemma_probes_count(start: WarmPass, replies: Seq<Reply>)
    requires
        start.at_start(),
    ensures
        probes_count(start.after(replies), start.deeds(replies)),
    decreases replies.len(),
{
    if replies.len() > 0 {
        let head = replies.drop_last();
        lemma_probes_count(start, head);
        let p = start.after(head);
        a_pass_only_moves_on(p, replies.last());
        if fits(p.task, replies.last()) {
            lemma_probes_count_more(p, start.deeds(head), replies.last());
        }
    }
}

/// The exits and the direct route are probed on the first pass and then on every
/// eighth, no sooner and no later. So is the user's own proxy, but for a benched
/// one, which is probed on every pass.
pub proof fn probes_come_when_it_is_time(start: WarmPass, replies: Seq<Reply>)
    requires
        start.at_start(),
    ensures
        ({
            let deeds = start.deeds(replies);
            let now = start.after(replies);
            let own_benched = deeds.len() > 0 && deeds.last().task is ReadOwnBench
                && deeds.last().reply == Reply::Answer(true);
            &&& now.task is ProbeExits ==> is_time(deeds, place(Task::ProbeExits), 8)
            &&& place(now.task) > place(Task::ProbeExits) ==> !is_time(
                deeds,
                place(Task::ProbeExits),
                8,
            )
            &&& now.task is ProbeDirect ==> is_time(deeds, place(Task::ProbeDirect(0)), 8)
            &&& place(now.task) > place(Task::ProbeDirect(0)) ==> !is_time(
                deeds,
                place(Task::ProbeDirect(0)),
                8,
            )
            &&& now.task is ProbeOwnProxy ==> is_time(deeds, place(Task::ProbeOwnProxy), 8)
                || own_benched
            &&& own_benched ==> now.task is ProbeOwnProxy
            &&& place(now.task) > place(Task::ProbeOwnProxy) ==> !is_time(
                deeds,
                place(Task::ProbeOwnProxy),
                8,
            )
        }),
{
    lemma_probes_count(start, replies);
}

/// The clock of the check on the tunnel against what was done.
spec fn checks_count(p: WarmPass, deeds: Seq<Deed>) -> bool {
    let at = place(p.task);
    let clock = p.clocks.since_vpn;
    &&& p.clocks.last_best == last_route(deeds)
    &&& at <= 1 || at >= 6 ==> (match slept_since(deeds, 3) {
        Some(n) => clock == n * 15 && n <= 16 && (at >= 6 ==> n < 16),
        None => clock == 240 && at <= 1,
    })
    &&& at == 2 || at == 3 ==> clock == (if route_changed(deeds) {
        240
    } else {
        match slept_since(deeds, 3) {
            Some(n) => n * 15,
            None => 240,
        }
    }) && (slept_since(deeds, 3) matches Some(n) ==> n <= 16)
    &&& at == 3 ==> route_changed(deeds) || is_time(deeds, 3, 16)
    &&& at == 4 || at == 5 ==> slept_since(deeds, 3) == Some(0nat)
    &&& at > 3 && route_changed(deeds) ==> slept_since(deeds, 3) == Some(0nat)
}

proof fn lemma_checks_count_more(p: WarmPass, before: Seq<Deed>, reply: Reply)
    requires
        checks_count(p, before),
        fits(p.task, reply),
    ensures
        checks_count(p.next(reply), before.push(Deed { task: p.task, reply })),
{
    let deeds = before.push(Deed { task: p.task, reply });
    assert(deeds.drop_last() == before);
    assert(deeds.last() == (Deed { task: p.task, reply }));
}

proof fn lemma_checks_count(start: WarmPass, replies: Seq<Reply>)
    requires
        start.at_start(),
    ensures
        checks_count(start.after(replies), start.deeds(replies)),
    decreases replies.len(),
{
    if replies.len() > 0 {
        let head = replies.drop_last();
        lemma_checks_count(start, head);
        let p = start.after(head);
        a_pass_only_moves_on(p, replies.last());
        if fits(p.task, replies.last()) {
            lemma_checks_count_more(p, start.deeds(head), replies.last());
        }
    }
}

/// The tunnel is checked on the first pass, on every sixteenth after a check, and
/// on every pass that finds another default route - and on no other.
pub proof fn the_tunnel_is_checked_when_it_is_time(start: WarmPass, replies: Seq<Reply>)
    requires
        start.at_start(),
    ensures
        ({
            let deeds = start.deeds(replies);
            let now = start.after(replies);
            let at = place(Task::ReadTunnel);
            &&& now.task is ReadTunnel ==> is_time(deeds, at, 16) || route_changed(deeds)
            &&& place(now.task) > at ==> !is_time(deeds, at, 16)
            &&& place(now.task) > at && route_changed(deeds) ==> slept_since(deeds, at) == Some(
                0nat,
            )
        }),
{
    lemma_checks_count(start, replies);
}

/// The clock of the exit's measuring against what was done.
spec fn measuring_counts(p: WarmPass, deeds: Seq<Deed>) -> bool {
    &&& if measures(p.task) {
        p.clocks.since_exit_check == 0
    } else {
        p.clocks.since_exit_check == slept_since_measured(deeds) * 15
    }
    &&& slept_since_measured(deeds) <= sleeps(deeds)
    &&& p.task is MeasureExit <==> deeds.len() > 0 && deeds.last() == (Deed {
        task: Task::ReadTunnelUp,
        reply: Reply::Answer(true),
    }) && slept_since_measured(deeds) >= 120
}

proof fn lemma_measuring_counts_more(p: WarmPass, before: Seq<Deed>, reply: Reply)
    requires
        measuring_counts(p, before),
        fits(p.task, reply),
        (sleeps(before) + 1) * 15 <= u64::MAX,
    ensures
        measuring_counts(p.next(reply), before.push(Deed { task: p.task, reply })),
{
    let deeds = before.push(Deed { task: p.task, reply });
    assert(deeds.drop_last() == before);
    assert(deeds.last() == (Deed { task: p.task, reply }));
    lemma_times_push(before, Deed { task: p.task, reply }, 21);
}

proof fn lemma_measuring_counts(start: WarmPass, replies: Seq<Reply>)
    requires
        start.at_start(),
        (sleeps(start.deeds(replies)) + 1) * 15 <= u64::MAX,
    ensures
        measuring_counts(start.after(replies), start.deeds(replies)),
    decreases replies.len(),
{
    if replies.len() > 0 {
        let head = replies.drop_last();
        let p = start.after(head);
        a_pass_only_moves_on(p, replies.last());
        if fits(p.task, replies.last()) {
            lemma_times_push(start.deeds(head), Deed { task: p.task, reply: replies.last() }, 21);
        }
        lemma_measuring_counts(start, head);
        if fits(p.task, replies.last()) {
            lemma_measuring_counts_more(p, start.deeds(head), replies.last());
        }
    }
}

/// The exit of a tunnel that is up is measured anew exactly when half an hour of
/// sleeps, a hundred and twenty of them, has passed since it was last measured, or
/// since the start. No check on the tunnel puts that off without measuring.
pub proof fn the_exit_is_measured_when_it_is_time(start: WarmPass, replies: Seq<Reply>)
    requires
        start.at_start(),
        (sleeps(start.deeds(replies)) + 1) * 15 <= u64::MAX,
    ensures
        ({
            let deeds = start.deeds(replies);
            start.after(replies).task is MeasureExit <==> deeds.len() > 0
                && deeds.last().task is ReadTunnelUp && deeds.last().reply == Reply::Answer(true)
                && slept_since_measured(deeds) >= 120
        }),
{
    lemma_measuring_counts(start, replies);
}

// ---------------------------------------------------------------------------
// A whole pass
// ---------------------------------------------------------------------------

/// What came of a task in a pass in which the machine says all that.
pub open spec fn reply_to(task: Task, r: PassReading) -> Reply {
    match task {
        Task::LookUpRoute => Reply::Route(r.best),
        Task::ReadTunnel => Reply::Tunnel(r.vpn),
        Task::AskVerdict(_) => Reply::Answer(r.carried),
        Task::ReadTunnelUp => Reply::Answer(r.tunnel_up),
        Task::FindInterface => Reply::Interface(r.interface),
        Task::ReadNetwork => Reply::Answer(r.tunnel_still_up),
        Task::SetContext(_) => Reply::Answer(r.new_network),
        Task::ReadRelayBench => Reply::Answer(r.relay_benched),
        Task::ReadOwnBench => Reply::Answer(r.own_benched),
        _ => Reply::Done,
    }
}

impl WarmPass {
    /// The loop at the end of the pass, its sleep included.
    pub open spec fn through(self, r: PassReading) -> WarmPass
        decreases 22 - place(self.task),
    {
        let p = self.next(reply_to(self.task, r));
        proof {
            a_pass_only_moves_on(self, reply_to(self.task, r));
        }
        if self.task is Sleep {
            p
        } else {
            p.through(r)
        }
    }

    /// The loop after a whole pass for each reading.
    pub open spec fn through_all(self, rs: Seq<PassReading>) -> WarmPass
        decreases rs.len(),
    {
        if rs.len() == 0 {
            self
        } else {
            self.through_all(rs.drop_last()).through(rs.last())
        }
    }

    /// Whether the rest of the pass comes to the task at that place.
    pub open spec fn comes_to(self, r: PassReading, at: nat) -> bool
        decreases 22 - place(self.task),
    {
        let p = self.next(reply_to(self.task, r));
        proof {
            a_pass_only_moves_on(self, reply_to(self.task, r));
        }
        place(self.task) == at || (!(self.task is Sleep) && p.comes_to(r, at))
    }

    /// The clocks at the end of the pass, from where it stands now.
    spec fn clocks_at_the_end(self, r: PassReading) -> WarmLoop {
        let at = place(self.task);
        let c = self.clocks;
        let c = if at <= 1 { c.after_route(r.best) } else { c };
        let c = if at == 3 || (at <= 2 && c.since_vpn >= VPN_CHECK_EVERY) {
            c.after_vpn(r.vpn)
        } else if at == 4 || at == 5 {
            c.after_vpn(self.seen)
        } else {
            c
        };
        let c = if at <= 7 { c.after_exit(r.tunnel_up) } else { c };
        let c = if at <= 16 { c.after_own(r.own_benched) } else { c };
        let c = if at <= 17 { c.after_exits() } else { c };
        let c = if at <= 18 { c.after_direct() } else { c };
        c.later()
    }
}

proof fn lemma_rest_of_the_pass(p: WarmPass, r: PassReading)
    ensures
        p.through(r).task is Publish,
        p.through(r).clocks == p.clocks_at_the_end(r),
    decreases 22 - place(p.task),
{
    a_pass_only_moves_on(p, reply_to(p.task, r));
    if !(p.task is Sleep) {
        let q = p.next(reply_to(p.task, r));
        lemma_rest_of_the_pass(q, r);
        lemma_same_end(p, r);
    }
}

proof fn lemma_same_end(p: WarmPass, r: PassReading)
    requires
        !(p.task is Sleep),
    ensures
        p.next(reply_to(p.task, r)).clocks_at_the_end(r) == p.clocks_at_the_end(r),
{
}

proof fn lemma_rest_of_the_probes(p: WarmPass, r: PassReading)
    ensures
        ({
            let at = place(p.task);
            let c = p.clocks;
            &&& at <= 1 ==> p.comes_to(r, 3) == (c.after_route(r.best).since_vpn >= VPN_CHECK_EVERY)
            &&& at == 2 ==> p.comes_to(r, 3) == (c.since_vpn >= VPN_CHECK_EVERY)
            &&& at >= 3 ==> p.comes_to(r, 3) == (at == 3)
            &&& at <= 14 ==> p.comes_to(r, 15) == r.relay_benched
            &&& at >= 15 ==> p.comes_to(r, 15) == (at == 15)
            &&& at <= 16 ==> p.comes_to(r, 17) == c.due(r.relay_benched, r.own_benched).upstream
            &&& at >= 17 ==> p.comes_to(r, 17) == (at == 17)
            &&& at <= 17 ==> p.comes_to(r, 18) == (c.since_exits >= PROBE_HEALTHY_EVERY)
            &&& at >= 18 ==> p.comes_to(r, 18) == (at == 18)
            &&& at <= 18 ==> p.comes_to(r, 19) == (c.since_direct >= PROBE_HEALTHY_EVERY)
            &&& at >= 19 ==> p.comes_to(r, 19) == (at == 19)
        }),
    decreases 22 - place(p.task),
{
    a_pass_only_moves_on(p, reply_to(p.task, r));
    if !(p.task is Sleep) {
        lemma_rest_of_the_probes(p.next(reply_to(p.task, r)), r);
    }
}

/// A pass comes to the check on the tunnel and to each probe exactly when it is
/// due, and at its end the clocks are those of a whole pass.
pub proof fn a_pass_does_what_is_due(p: WarmPass, r: PassReading)
    requires
        p.task is Publish,
    ensures
        p.through(r).task is Publish,
        p.through(r).clocks == p.clocks.after_pass(r),
        p.comes_to(r, place(Task::ReadTunnel)) == (p.clocks.after_route(r.best).since_vpn
            >= VPN_CHECK_EVERY),
        ({
            let due = p.clocks.before_probes(r).due(r.relay_benched, r.own_benched);
            &&& p.comes_to(r, place(Task::ProbeRelay)) == due.relay
            &&& p.comes_to(r, place(Task::ProbeOwnProxy)) == due.upstream
            &&& p.comes_to(r, place(Task::ProbeExits)) == due.exits
            &&& p.comes_to(r, place(Task::ProbeDirect(0))) == due.direct
        }),
{
    lemma_rest_of_the_pass(p, r);
    lemma_rest_of_the_probes(p, r);
}

/// Pass after pass, the clocks of the loop are those the passes make.
pub proof fn many_passes_are_one_after_another(p: WarmPass, rs: Seq<PassReading>)
    requires
        p.task is Publish,
    ensures
        p.through_all(rs).task is Publish,
        p.through_all(rs).clocks == p.clocks.after_passes(rs),
    decreases rs.len(),
{
    if rs.len() > 0 {
        many_passes_are_one_after_another(p, rs.drop_last());
        a_pass_does_what_is_due(p.through_all(rs.drop_last()), rs.last());
    }
}

/// A pass with a tunnel that stays up and whose exit is known.
pub open spec fn steady_tunnel(r: PassReading) -> bool {
    &&& r.vpn.egress is Some && r.vpn.egress->0.vpn_active
    &&& r.vpn.was_tunnel && r.vpn.exit_known && r.tunnel_up
}

proof fn lemma_comes_to_measuring(p: WarmPass, r: PassReading)
    ensures
        ({
            let at = place(p.task);
            let c = p.clocks;
            let c = if at <= 1 { c.after_route(r.best) } else { c };
            let c = if at == 3 || (at <= 2 && c.since_vpn >= VPN_CHECK_EVERY) {
                c.after_vpn(r.vpn)
            } else if at == 4 || at == 5 {
                c.after_vpn(p.seen)
            } else {
                c
            };
            &&& at <= 7 ==> p.comes_to(r, 8) == (r.tunnel_up && c.since_exit_check
                >= VPN_EXIT_EVERY)
            &&& at >= 8 ==> p.comes_to(r, 8) == (at == 8)
        }),
    decreases 22 - place(p.task),
{
    a_pass_only_moves_on(p, reply_to(p.task, r));
    if !(p.task is Sleep) {
        lemma_comes_to_measuring(p.next(reply_to(p.task, r)), r);
    }
}

/// While a tunnel stays up and its exit is known, each pass brings the next
/// measuring closer by its sleep, checks on the tunnel or not: after a pass that
/// measures the exit, the hundred and twentieth does so again, and none before it.
pub proof fn a_steady_tunnel_is_measured_every_half_hour(
    p: WarmPass,
    measuring: PassReading,
    rs: Seq<PassReading>,
    r: PassReading,
)
    requires
        p.task is Publish,
        p.comes_to(measuring, place(Task::MeasureExit)),
        forall|i: int| 0 <= i < rs.len() ==> steady_tunnel(#[trigger] rs[i]),
        steady_tunnel(r),
        rs.len() <= 119,
    ensures
        ({
            let now = p.through(measuring).through_all(rs);
            &&& now.clocks.since_exit_check == (rs.len() + 1) * 15
            &&& now.comes_to(r, place(Task::MeasureExit)) <==> rs.len() == 119
        }),
    decreases rs.len(),
{
    a_pass_does_what_is_due(p, measuring);
    lemma_comes_to_measuring(p, measuring);
    let first = p.through(measuring);
    many_passes_are_one_after_another(first, rs);
    if rs.len() > 0 {
        let head = rs.drop_last();
        assert forall|i: int| 0 <= i < head.len() implies steady_tunnel(#[trigger] head[i]) by {
            assert(head[i] == rs[i]);
        }
        assert(steady_tunnel(rs[rs.len() - 1]));
        a_steady_tunnel_is_measured_every_half_hour(p, measuring, head, rs.last());
        many_passes_are_one_after_another(first, head);
        a_pass_does_what_is_due(first.through_all(head), rs.last());
    }
    lemma_comes_to_measuring(first.through_all(rs), r);
}

} // verus!
