//! Which network the machine is on, and where a tunnel comes out.
use vstd::prelude::*;

use crate::text::{a_text_mentions_its_parts, mentions};

verus! {

/// The adapter the default route leaves through; 0 when there is none.
pub open spec fn leaves_by(best: Option<u32>) -> u32 {
    match best {
        Some(b) => b,
        None => 0,
    }
}

/// The parts of a network, one above the other: whether the default route is a
/// tunnel in the lowest place, the adapter it leaves through above it, the low 31
/// bits of the provider's adapter above that, and one more than all of it.
pub open spec fn stacked(isp: u32, best: Option<u32>, tunnel: bool) -> nat {
    1 + (isp as nat % 0x8000_0000) * 0x2_0000_0000 + leaves_by(best) as nat * 2 + (if tunnel {
        1nat
    } else {
        0nat
    })
}

/// The fingerprint as a number: the parts stacked. The largest stack there is,
/// and no other, takes more than 64 bits; it has the number of the smallest.
pub open spec fn fingerprint(isp: u32, best: Option<u32>, tunnel: bool) -> nat {
    if stacked(isp, best, tunnel) <= u64::MAX {
        stacked(isp, best, tunnel)
    } else {
        1
    }
}

/// A fingerprint of the network the route table's evidence belongs to: which
/// adapter is the ISP link, which one the default route leaves through, and
/// whether that is a tunnel. Never 0 - that is the table's "not set yet".
pub fn network_fingerprint(isp: u32, best: Option<u32>, tunnel: bool) -> (print: u64)
    ensures
        print == fingerprint(isp, best, tunnel),
        print != 0,
{
    let b: u32 = match best {
        Some(b) => b,
        None => 0,
    };
    let high: u64 = (isp as u64) << 33;
    let mid: u64 = (b as u64) << 1;
    assert((isp as u64) << 33 == (isp as u64 % 0x8000_0000) * 0x2_0000_0000) by (bit_vector);
    assert((b as u64) << 1 == (b as u64) * 2) by (bit_vector);
    let without: u64 = 1 + high + mid;
    if !tunnel {
        without
    } else if without < u64::MAX {
        without + 1
    } else {
        1
    }
}

/// The fingerprint to rank routes under, where the provider's adapter is known.
pub open spec fn context_of(isp: u32, best: Option<u32>, tunnel: bool) -> Option<u64> {
    if isp != 0 {
        Some(fingerprint(isp, best, tunnel) as u64)
    } else {
        None
    }
}

/// The fingerprint to rank routes under: none while the provider's adapter is
/// unknown, so that a failed detection is not taken for a new network.
pub fn network_context(isp: u32, best: Option<u32>, tunnel: bool) -> (context: Option<u64>)
    ensures
        context == context_of(isp, best, tunnel),
{
    if isp != 0 {
        Some(network_fingerprint(isp, best, tunnel))
    } else {
        None
    }
}

/// Whatever the adapters, the fingerprint is a number of 64 bits and not 0.
pub proof fn fingerprint_is_never_the_unset_value(isp: u32, best: Option<u32>, tunnel: bool)
    ensures
        0 < fingerprint(isp, best, tunnel) <= u64::MAX,
{
}

/// Whether the parts are the largest there are.
pub open spec fn is_largest(isp: u32, best: Option<u32>, tunnel: bool) -> bool {
    isp % 0x8000_0000 == 0x7fff_ffff && leaves_by(best) == u32::MAX && tunnel
}

/// Whether the parts are the smallest there are.
pub open spec fn is_smallest(isp: u32, best: Option<u32>, tunnel: bool) -> bool {
    isp % 0x8000_0000 == 0 && leaves_by(best) == 0 && !tunnel
}

/// Two networks have the same fingerprint exactly when they agree on all three
/// parts, as far as adapter numbers of 31 bits go and with "no default route"
/// read as adapter 0 - or when one has the largest parts there are and the other
/// the smallest, there being one number too few.
pub proof fn fingerprint_tells_networks_apart(
    isp1: u32,
    best1: Option<u32>,
    tunnel1: bool,
    isp2: u32,
    best2: Option<u32>,
    tunnel2: bool,
)
    ensures
        fingerprint(isp1, best1, tunnel1) == fingerprint(isp2, best2, tunnel2) <==> {
            ||| {
                &&& isp1 % 0x8000_0000 == isp2 % 0x8000_0000
                &&& leaves_by(best1) == leaves_by(best2)
                &&& tunnel1 == tunnel2
            }
            ||| is_largest(isp1, best1, tunnel1) && is_smallest(isp2, best2, tunnel2)
            ||| is_smallest(isp1, best1, tunnel1) && is_largest(isp2, best2, tunnel2)
        },
        0 < isp1 < 0x8000_0000 && 0 < isp2 < 0x8000_0000 && best1 is Some && best2 is Some
            && fingerprint(isp1, best1, tunnel1) == fingerprint(isp2, best2, tunnel2) ==> isp1
            == isp2 && best1 == best2 && tunnel1 == tunnel2,
{
}

// ---------------------------------------------------------------------------
// Where the tunnel comes out
// ---------------------------------------------------------------------------

/// What is known of the tunnel's exit: its country as last measured, empty when
/// unknown, and whether a measurement is running.
#[derive(Debug, Clone, PartialEq, Eq)]
pub struct VpnExit {
    pub country: String,
    pub measuring: bool,
}

/// What a finished measurement settles.
#[derive(Debug, Clone, PartialEq, Eq)]
pub struct ExitFinding {
    /// Whether the tunnel may be offered as a route; unknown when its exit is.
    pub permitted: Option<bool>,
    /// The line to log.
    pub line: String,
}

/// What the log says of a measured exit.
pub open spec fn exit_line(exit: Option<Seq<char>>, blocked: bool) -> Seq<char> {
    match exit {
        Some(country) if !blocked => "VPN выходит в "@ + country
            + " — его можно использовать как маршрут"@,
        Some(country) => "VPN выходит в "@ + country
            + " — там ошибка 400, этот маршрут не используется"@,
        None => "страну выхода VPN узнать не удалось"@,
    }
}

/// Whether a tunnel may be offered as a route; unknown when its exit is.
pub open spec fn may_be_used(exit: Option<Seq<char>>, blocked: bool) -> Option<bool> {
    if exit is Some {
        Some(!blocked)
    } else {
        None
    }
}

/// The country known after a measurement: nothing comes of one that the tunnel did
/// not outlast.
pub open spec fn country_after(
    known: Seq<char>,
    exit: Option<Seq<char>>,
    tunnel_up: bool,
) -> Seq<char> {
    if !tunnel_up {
        known
    } else {
        match exit {
            Some(c) => c,
            None => Seq::empty(),
        }
    }
}

/// A tunnel is offered as a route only where its exit is known and not blocked, and
/// is ruled out only where it is known and blocked. While it is up, what is known of
/// its exit is what was measured last and nothing older; a measurement it did not
/// outlast changes nothing.
pub proof fn only_an_open_exit_is_offered(
    known: Seq<char>,
    other: Seq<char>,
    exit: Option<Seq<char>>,
    blocked: bool,
)
    ensures
        may_be_used(exit, blocked) == Some(true) <==> exit is Some && !blocked,
        may_be_used(exit, blocked) == Some(false) <==> exit is Some && blocked,
        country_after(known, exit, true) == country_after(other, exit, true),
        exit is Some ==> country_after(known, exit, true) == exit->0,
        exit is None ==> country_after(known, exit, true).len() == 0,
        country_after(known, exit, false) == known,
{
}

pub open spec fn option_view(s: Option<String>) -> Option<Seq<char>> {
    match s {
        Some(s) => Some(s@),
        None => None,
    }
}

impl VpnExit {
    pub fn unknown() -> (exit: VpnExit)
        ensures
            exit.country@ == Seq::<char>::empty(),
            !exit.measuring,
    {
        VpnExit { country: String::new(), measuring: false }
    }

    /// The exit country, empty when unknown.
    pub fn vpn_exit_country(&self) -> (country: String)
        ensures
            country@ == self.country@,
    {
        self.country.clone()
    }

    /// Whether a measurement may start now: not while another is running.
    pub fn begin(&mut self) -> (started: bool)
        ensures
            started == !old(self).measuring,
            final(self).measuring,
            final(self).country == old(self).country,
    {
        let started = !self.measuring;
        self.measuring = true;
        started
    }

    /// A measurement is over, or could not be started at all: the next may start.
    pub fn done(&mut self)
        ensures
            !final(self).measuring,
            final(self).country == old(self).country,
    {
        self.measuring = false;
    }

    /// Takes the result of a measurement: the exit country, if one was read, and
    /// whether that country is blocked. Nothing comes of it once the tunnel is
    /// gone: a measurement that raced the VPN going down would offer a route
    /// that no longer exists. It is over only once `done` is said, after what was
    /// found has been acted on.
    pub fn measured(&mut self, exit: Option<String>, blocked: bool, tunnel_up: bool) -> (finding:
        Option<ExitFinding>)
        ensures
            final(self).measuring == old(self).measuring,
            finding is Some <==> tunnel_up,
            finding matches Some(f) ==> {
                &&& f.permitted == may_be_used(option_view(exit), blocked)
                &&& f.line@ == exit_line(option_view(exit), blocked)
            },
            final(self).country@ == country_after(old(self).country@, option_view(exit), tunnel_up),
    {
        if !tunnel_up {
            return None;
        }
        match exit {
            Some(country) => {
                let mut line = "VPN выходит в ".to_owned();
                line.append(country.as_str());
                line.append(
                    if blocked {
                        " — там ошибка 400, этот маршрут не используется"
                    } else {
                        " — его можно использовать как маршрут"
                    },
                );
                self.country = country;
                Some(ExitFinding { permitted: Some(!blocked), line })
            },
            None => {
                self.country = String::new();
                Some(
                    ExitFinding {
                        permitted: None,
                        line: "страну выхода VPN узнать не удалось".to_owned(),
                    },
                )
            },
        }
    }

    /// The tunnel is gone, and its exit with it.
    pub fn forget(&mut self)
        ensures
            final(self).country@ == Seq::<char>::empty(),
            final(self).measuring == old(self).measuring,
    {
        self.country = String::new();
    }
}

/// What the log says of a measured exit names the country, and tells one that may be
/// used as a route from one that may not.
pub proof fn a_measured_exit_is_named(country: Seq<char>)
    ensures
        mentions(exit_line(Some(country), true), country),
        mentions(exit_line(Some(country), false), country),
        exit_line(Some(country), true) != exit_line(Some(country), false),
        exit_line(None, true) == exit_line(None, false),
        exit_line(Some(country), true) != exit_line(None, true),
        exit_line(Some(country), false) != exit_line(None, false),
{
    let start = "VPN выходит в "@;
    reveal_strlit("VPN выходит в ");
    reveal_strlit(" — его можно использовать как маршрут");
    reveal_strlit(" — там ошибка 400, этот маршрут не используется");
    reveal_strlit("страну выхода VPN узнать не удалось");
    a_text_mentions_its_parts(start, country, " — его можно использовать как маршрут"@);
    a_text_mentions_its_parts(start, country, " — там ошибка 400, этот маршрут не используется"@);
    assert(exit_line(Some(country), true).len() != exit_line(Some(country), false).len());
    assert(exit_line(Some(country), true)[0] == start[0]);
    assert(exit_line(Some(country), false)[0] == start[0]);
}

/// Routes are ranked under a network exactly where the provider's adapter is known,
/// and then under its fingerprint.
pub proof fn a_context_is_the_fingerprint_of_a_known_network(
    isp: u32,
    best: Option<u32>,
    tunnel: bool,
)
    ensures
        context_of(isp, best, tunnel) is None <==> isp == 0,
        isp != 0 ==> context_of(isp, best, tunnel)->0 == fingerprint(isp, best, tunnel)
            && context_of(isp, best, tunnel)->0 != 0,
{
}

} // verus!
