//! Which generation of relay is installed.
use vstd::prelude::*;

use crate::text::{
    all_digits, decimal, decimal_reads_back, is_digit, is_space, number, parse_u32, parsed_u32,
    push_decimal, trim, trimmed, trimming_takes_only_the_ends,
};

verus! {

/// What generation of relay this build ships.
///
/// Separate from the product version on purpose: the relay is installed once, by
/// an administrator, and then keeps running across reboots. The unlocker
/// compares this against what the installed relay wrote. It grows whenever the
/// relay's own behaviour changes and never decreases: the comparison is "older
/// than".
pub const RELAY_VERSION: u32 = 31;

/// The generation a version file stands for. Anything unreadable counts as the
/// oldest possible relay.
pub open spec fn version_of(raw: Option<Seq<char>>) -> u32 {
    match raw {
        Some(s) => match parsed_u32(trimmed(s)) {
            Some(v) => v,
            None => 0,
        },
        None => 0,
    }
}

pub open spec fn raw_view(raw: Option<&str>) -> Option<Seq<char>> {
    match raw {
        Some(s) => Some(s@),
        None => None,
    }
}

/// Reads a version file. Anything unreadable counts as the oldest possible
/// relay: the file is written by us and never edited, so a value that will not
/// parse means something else wrote it.
pub fn parse_version(raw: Option<&str>) -> (version: u32)
    ensures
        version == version_of(raw_view(raw)),
{
    match raw {
        Some(s) => match parse_u32(trim(s)) {
            Some(v) => v,
            None => 0,
        },
        None => 0,
    }
}

/// What is written down of the generation in place.
pub fn recorded_version() -> (text: String)
    ensures
        text@ == decimal(RELAY_VERSION as nat),
{
    let mut text = String::new();
    push_decimal(&mut text, RELAY_VERSION as u64);
    assert(text@ == decimal(RELAY_VERSION as nat));
    text
}

/// A number text has no white space at either end.
proof fn lemma_digits_are_trimmed(s: Seq<char>)
    requires
        s.len() > 0,
        all_digits(s),
    ensures
        trimmed(s) == s,
{
    assert(is_digit(s[0]) && is_digit(s.last()));
    assert(!is_space(s[0]) && !is_space(s.last()));
}

/// A generation that was written down is the one read back.
pub proof fn a_recorded_version_reads_back(version: u32)
    ensures
        version_of(Some(decimal(version as nat))) == version,
{
    let s = decimal(version as nat);
    decimal_reads_back(version as nat);
    lemma_digits_are_trimmed(s);
    assert(is_digit(s[0]));
}

/// A missing or unreadable version file always reads as older than this build.
pub proof fn an_unreadable_version_is_the_oldest(raw: Option<Seq<char>>)
    requires
        raw matches Some(s) ==> parsed_u32(trimmed(s)) is None,
    ensures
        version_of(raw) == 0,
        version_of(raw) < RELAY_VERSION,
{
}

/// White space around a generation does not matter, and a missing file is the oldest
/// relay.
pub proof fn only_the_number_matters(s: Seq<char>, before: Seq<char>, behind: Seq<char>)
    requires
        forall|i: int| 0 <= i < before.len() ==> is_space(#[trigger] before[i]),
        forall|i: int| 0 <= i < behind.len() ==> is_space(#[trigger] behind[i]),
    ensures
        version_of(Some(before + s + behind)) == version_of(Some(s)),
        version_of(None) == 0,
        s.len() > 0 && all_digits(s) && number(s) <= u32::MAX ==> version_of(Some(s)) == number(s),
{
    trimming_takes_only_the_ends(s, before, behind);
    if s.len() > 0 && all_digits(s) {
        lemma_digits_are_trimmed(s);
        assert(is_digit(s[0]));
    }
}

} // verus!
