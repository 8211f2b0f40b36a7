//! What the daemon does on a network change.
//!
//! On every change it reconciles: where the current gateway's MAC address is in
//! the trusted set, Tailscale goes down; otherwise, no network included, it goes
//! up. While a pause is active nothing is toggled. The caller watches the
//! system for changes, reads the configuration, the gateway and the pause
//! window, and runs the CLI that the decision names.
use vstd::prelude::*;
use vstd::string::*;

use crate::config::Config;
use crate::mac::{mac_key, mac_text, MacAddr};
use crate::pause::PauseUpdate;
use crate::tailscale::Toggle;

verus! {

/// The outcome of one reconciliation.
#[derive(Clone, Copy, PartialEq, Eq, Structural, Debug)]
pub enum Reconciliation {
    /// A pause is active: Tailscale is left as it is.
    Paused,
    /// Tailscale is toggled as the gateway's trust says.
    Apply { trusted: bool, toggle: Toggle },
}

/// The gateway is present and its address is in `trusted`.
pub open spec fn gateway_trusted(trusted: Set<u64>, gateway: Option<MacAddr>) -> bool {
    gateway matches Some(m) && trusted.contains(mac_key(m))
}

/// Trusted gateway: down; anything else, no gateway included: up; nothing while
/// paused.
pub open spec fn reconcile_spec(trusted: Set<u64>, gateway: Option<MacAddr>, paused: bool) -> Reconciliation {
    if paused {
        Reconciliation::Paused
    } else if gateway_trusted(trusted, gateway) {
        Reconciliation::Apply { trusted: true, toggle: Toggle::Down }
    } else {
        Reconciliation::Apply { trusted: false, toggle: Toggle::Up }
    }
}

/// Decides what to do for the current gateway (`None`: no network).
pub fn reconcile(config: &Config, gateway: Option<MacAddr>, paused: bool) -> (r: Reconciliation)
    ensures
        r == reconcile_spec(config.trusted(), gateway, paused),
{
    if paused {
        return Reconciliation::Paused;
    }
    let trusted = match gateway {
        Some(mac) => config.is_trusted(mac),
        None => false,
    };
    if trusted {
        Reconciliation::Apply { trusted: true, toggle: Toggle::Down }
    } else {
        Reconciliation::Apply { trusted: false, toggle: Toggle::Up }
    }
}

/// The text of a gateway in a report: its address, or `none`.
pub open spec fn gateway_text(gateway: Option<MacAddr>) -> Seq<char> {
    match gateway {
        Some(m) => mac_text(m),
        None => "none"@,
    }
}

/// The line logged after a successful toggle.
pub open spec fn report_spec(gateway: Option<MacAddr>, trusted: bool) -> Seq<char> {
    "tailcloak: gateway "@ + gateway_text(gateway) + (if trusted {
        " trusted"@
    } else {
        " untrusted"@
    }) + " -> tailscale "@ + (if trusted {
        "down"@
    } else {
        "up"@
    })
}

/// `tailcloak: gateway <mac|none> <trusted|untrusted> -> tailscale <down|up>`.
pub fn report(gateway: Option<MacAddr>, trusted: bool) -> (s: String)
    ensures
        s@ == report_spec(gateway, trusted),
{
    let mut s = "tailcloak: gateway ".to_string();
    match gateway {
        Some(m) => {
            let t = m.to_string();
            s.append(t.as_str());
        },
        None => {
            s.append("none");
        },
    }
    if trusted {
        s.append(" trusted");
    } else {
        s.append(" untrusted");
    }
    s.append(" -> tailscale ");
    if trusted {
        s.append("down");
    } else {
        s.append("up");
    }
    s
}

/// What pausing does to Tailscale: a pause that starts takes it down (so that,
/// for instance, a captive portal can be signed into); clearing the pause
/// leaves it as it is until the next network change.
pub fn pause_toggle(update: &PauseUpdate) -> (t: Option<Toggle>)
    ensures
        t == (match update {
            PauseUpdate::Start { .. } => Some(Toggle::Down),
            PauseUpdate::Clear => None::<Toggle>,
        }),
{
    match update {
        PauseUpdate::Start { .. } => Some(Toggle::Down),
        PauseUpdate::Clear => None,
    }
}

// ---------------------------------------------------------------------------
// Laws of reconciliation
// ---------------------------------------------------------------------------

/// After the current gateway is trusted, reconciling takes Tailscale down.
pub proof fn law_trusted_gateway_goes_down(trusted: Set<u64>, mac: MacAddr)
    ensures
        reconcile_spec(trusted.insert(mac_key(mac)), Some(mac), false) == (Reconciliation::Apply {
            trusted: true,
            toggle: Toggle::Down,
        }),
{
}

/// After the current gateway stops being trusted, reconciling brings Tailscale
/// up.
pub proof fn law_distrusted_gateway_goes_up(trusted: Set<u64>, mac: MacAddr)
    ensures
        reconcile_spec(trusted.remove(mac_key(mac)), Some(mac), false) == (Reconciliation::Apply {
            trusted: false,
            toggle: Toggle::Up,
        }),
{
}

/// Without a network Tailscale goes up, whatever is trusted.
pub proof fn law_no_network_goes_up(trusted: Set<u64>)
    ensures
        reconcile_spec(trusted, None, false) == (Reconciliation::Apply {
            trusted: false,
            toggle: Toggle::Up,
        }),
{
}

/// By default all networks are untrusted: with nothing trusted, reconciling
/// always brings Tailscale up.
pub proof fn law_nothing_trusted_goes_up(gateway: Option<MacAddr>)
    ensures
        reconcile_spec(Set::empty(), gateway, false) == (Reconciliation::Apply {
            trusted: false,
            toggle: Toggle::Up,
        }),
{
}

/// While paused nothing is toggled, whatever the network.
pub proof fn law_paused_toggles_nothing(trusted: Set<u64>, gateway: Option<MacAddr>)
    ensures
        reconcile_spec(trusted, gateway, true) == Reconciliation::Paused,
{
}

/// Outside a pause every reconciliation toggles, and it takes Tailscale down
/// exactly when the gateway is trusted.
pub proof fn law_down_iff_trusted(trusted: Set<u64>, gateway: Option<MacAddr>)
    ensures
        reconcile_spec(trusted, gateway, false) matches Reconciliation::Apply { trusted: t, toggle }
            && t == gateway_trusted(trusted, gateway) && (toggle == Toggle::Down <==> t),
{
}

} // verus!
