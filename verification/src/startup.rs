//! The proxy variable at the relay's start.
//!
//! The variable must never name a listener that is not there, so it is set only
//! once the local proxy has come up, and only while the user wants it.
use vstd::prelude::*;

use crate::network::option_view;
use crate::relay_log::log_proxy;

verus! {

/// For how many seconds the proxy listener is waited for.
pub const PROXY_START_BUDGET: u64 = 30;

/// What setting the variable came to.
#[derive(Debug, Clone, Copy, PartialEq, Eq, Structural)]
pub enum Outcome {
    Applied,
    AlreadySet,
}

fn line_of(first: &str, second: &str) -> (line: String)
    ensures
        line@ == "proxy        "@ + (first@ + second@),
{
    let mut text = first.to_owned();
    text.append(second);
    log_proxy(text.as_str())
}

/// What is logged of taking an older build's user-wide variable off: nothing
/// when there was none.
pub fn legacy_removed_line(removed: &Result<bool, String>) -> (line: Option<String>)
    ensures
        option_view(line) == (match removed {
            Ok(true) => Some("proxy        "@ + "снята прежняя общесистемная HTTPS_PROXY"@),
            Ok(false) => None,
            Err(e) => Some("proxy        "@ + ("прежняя HTTPS_PROXY не снята: "@ + e@)),
        }),
{
    match removed {
        Ok(true) => Some(log_proxy("снята прежняя общесистемная HTTPS_PROXY")),
        Ok(false) => None,
        Err(e) => Some(line_of("прежняя HTTPS_PROXY не снята: ", e.as_str())),
    }
}

/// Why the variable is not set: the listener did not come up, or else the user
/// switched it off. `None` when it is to be set.
pub fn not_set_line(variable: &str, listener_up: bool, wanted: bool) -> (line: Option<String>)
    ensures
        option_view(line) == (if !listener_up {
            Some("proxy        "@ + (variable@ + " не выставлена: локальный прокси не поднялся"@))
        } else if !wanted {
            Some("proxy        "@ + (variable@ + " не выставлена: выключена в настройках"@))
        } else {
            None
        }),
{
    if !listener_up {
        Some(line_of(variable, " не выставлена: локальный прокси не поднялся"))
    } else if !wanted {
        Some(line_of(variable, " не выставлена: выключена в настройках"))
    } else {
        None
    }
}

/// What is logged of setting the variable: nothing when it was set already.
pub fn set_line(variable: &str, outcome: &Result<Outcome, String>) -> (line: Option<String>)
    ensures
        option_view(line) == (match outcome {
            Ok(Outcome::Applied) => Some(
                "proxy        "@ + (variable@ + " снова указывает на локальный прокси"@),
            ),
            Ok(Outcome::AlreadySet) => None,
            Err(e) => Some("proxy        "@ + ((variable@ + " не восстановлена: "@) + e@)),
        }),
{
    match outcome {
        Ok(Outcome::Applied) => Some(line_of(variable, " снова указывает на локальный прокси")),
        Ok(Outcome::AlreadySet) => None,
        Err(e) => {
            let mut first = variable.to_owned();
            first.append(" не восстановлена: ");
            Some(line_of(first.as_str(), e.as_str()))
        },
    }
}

/// What is logged of the proxy itself not starting.
pub fn proxy_failed_line(reason: &str) -> (line: String)
    ensures
        line@ == "proxy        "@ + ("not started: "@ + reason@),
{
    line_of("not started: ", reason)
}

/// What is logged of the loopback addresses not being had.
pub fn loopback_failed_line(reason: &str) -> (line: String)
    ensures
        line@ == "proxy        "@ + ("локальные адреса гейт-хостов не заняты: "@ + reason@),
{
    line_of("локальные адреса гейт-хостов не заняты: ", reason)
}

/// What is logged when the network is not the one it was.
pub fn network_changed_line() -> (line: String)
    ensures
        line@ == "proxy        "@ + "сеть изменилась — что работает, выясняется заново"@,
{
    log_proxy("сеть изменилась — что работает, выясняется заново")
}

} // verus!
