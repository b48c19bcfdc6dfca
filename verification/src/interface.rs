//! The interface the relay's own queries leave through, as last detected.
use vstd::prelude::*;

use crate::time::{elapsed, Moment, Span, NANOS_PER_SEC};

verus! {

/// For how many seconds a *detected* interface is trusted. Long on purpose: one
/// that dies is caught by the first failed relay, and detection spawns a
/// process.
pub const EGRESS_TTL: u64 = 30 * 60;

/// For how many seconds a *failed* detection is remembered. Short, because it is
/// usually the network not being up yet at logon - but not zero, or a machine
/// with no physical egress at all would spawn a probe per query.
pub const EGRESS_RETRY: u64 = 30;

/// An interface index, when it was learned, and how long that answer is good
/// for. Index 0 means "use the routing table".
#[derive(Debug, Clone, Copy, PartialEq, Eq, Structural)]
pub struct Learned {
    pub index: u32,
    pub at: Moment,
    pub good_for: Span,
}

/// What was learned last, if anything.
#[derive(Debug, Clone, Copy, PartialEq, Eq, Structural)]
pub struct EgressCache {
    pub entry: Option<Learned>,
}

impl EgressCache {
    /// The index served at a time: what was learned, while it is good.
    pub open spec fn served(self, now: nat) -> Option<u32> {
        match self.entry {
            Some(e) if elapsed(e.at@, now) < e.good_for@ => Some(e.index),
            _ => None,
        }
    }

    pub fn new() -> (c: EgressCache)
        ensures
            c.entry is None,
    {
        EgressCache { entry: None }
    }

    /// Drops what was learned, so that the next query detects again.
    pub fn invalidate_interface(&mut self)
        ensures
            final(self).entry is None,
    {
        self.entry = None;
    }

    /// The interface from memory. `None` asks for a detection, whose result goes
    /// to `detected`.
    pub fn isp_interface(&self, now: Moment) -> (index: Option<u32>)
        ensures
            index == self.served(now@),
    {
        if let Some(e) = self.entry {
            if e.at.elapsed(now).as_nanos() < e.good_for.as_nanos() {
                return Some(e.index);
            }
        }
        None
    }

    /// Takes the result of a detection made at `now`, and gives the interface to
    /// use: the detected one, or 0 where there is none.
    pub fn detected(&mut self, found: Option<u32>, now: Moment) -> (index: u32)
        ensures
            index == (match found {
                Some(i) => i,
                None => 0,
            }),
            final(self).entry matches Some(e) && e.index == index && e.at == now && e.good_for@
                == (if found is Some {
                EGRESS_TTL
            } else {
                EGRESS_RETRY
            }) * NANOS_PER_SEC,
    {
        let (index, good_for) = match found {
            Some(i) => (i, Span::from_secs(EGRESS_TTL)),
            None => (0, Span::from_secs(EGRESS_RETRY)),
        };
        self.entry = Some(Learned { index, at: now, good_for });
        index
    }

    /// Takes what the providers answered to one query. When nobody answered the
    /// interface may have gone away, so it is dropped.
    pub fn relay<T>(&mut self, hit: Option<T>) -> (answer: Option<T>)
        ensures
            answer == hit,
            final(self).entry == (if hit is Some {
                old(self).entry
            } else {
                None
            }),
    {
        if hit.is_none() {
            self.invalidate_interface();
        }
        hit
    }
}

/// A detection made at `at` is what is served from then on, for its time: half
/// an hour when it found an interface, half a minute when it did not. After that
/// nothing is served and the interface is detected again.
pub proof fn a_detection_is_served_for_its_time(c: EgressCache, found: Option<u32>, now: nat)
    requires
        c.entry is Some,
        c.entry->0.index == found.unwrap_or(0),
        c.entry->0.good_for@ == (if found is Some {
            EGRESS_TTL
        } else {
            EGRESS_RETRY
        }) * NANOS_PER_SEC,
        now >= c.entry->0.at@,
    ensures
        c.served(now) is Some <==> now - c.entry->0.at@ < (if found is Some {
            EGRESS_TTL
        } else {
            EGRESS_RETRY
        }) * NANOS_PER_SEC,
        c.served(now) matches Some(i) ==> i == found.unwrap_or(0),
        found is None && now - c.entry->0.at@ >= 30 * NANOS_PER_SEC ==> c.served(now) is None,
{
}

/// What has been dropped, or has outlived its time, is never served again.
pub proof fn an_expired_entry_stays_expired(c: EgressCache, now: nat, later: nat)
    requires
        c.entry matches Some(e) ==> now >= e.at@,
        c.served(now) is None,
        later >= now,
    ensures
        c.served(later) is None,
{
}

} // verus!
