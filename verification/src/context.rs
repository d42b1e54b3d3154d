//! The network the agent is on: the WiFi name (read from `nmcli` or `iw`), the
//! interface, and whether the link to the gateway is up.
use vstd::prelude::*;
use crate::net::IpAddress;
use crate::model::{string_of, str_eq, opt_view};
use crate::text::{lines, split_lines, split_on, split_chars, to_chars, string_from_chars, strip_prefix, has_prefix, trim, trim_str};

verus! {

// ---------------------------------------------------------------------------
// WiFi name
// ---------------------------------------------------------------------------
/// What the `nmcli -t -f ACTIVE,SSID dev wifi` listing says: the active network's
/// name, no active network, or a line without a `:` (which ends the nmcli probe).
pub enum WifiListing {
    Active(Seq<char>),
    NoneActive,
    Malformed,
}

/// The listing's lines from `i` on.
pub open spec fn wifi_listing(ls: Seq<Seq<char>>, i: int) -> WifiListing
    decreases ls.len() - i,
{
    if i < 0 || i >= ls.len() {
        WifiListing::NoneActive
    } else {
        let parts = split_on(ls[i], ':');
        if parts.len() < 2 {
            WifiListing::Malformed
        } else if parts[0] == "yes"@ && parts[1].len() > 0 {
            WifiListing::Active(parts[1])
        } else {
            wifi_listing(ls, i + 1)
        }
    }
}

/// The connection named in `nmcli -t -f GENERAL.CONNECTION device show` output,
/// from line `i` on: the trimmed text after `GENERAL.CONNECTION:` when it is
/// neither empty nor `--`.
pub open spec fn nmcli_connection(ls: Seq<Seq<char>>, i: int) -> Option<Seq<char>>
    decreases ls.len() - i,
{
    if i < 0 || i >= ls.len() {
        None
    } else {
        let p = "GENERAL.CONNECTION:"@;
        if has_prefix(ls[i], p) {
            let c = trim(ls[i].subrange(p.len() as int, ls[i].len() as int));
            if c.len() > 0 && c != "--"@ {
                Some(c)
            } else {
                nmcli_connection(ls, i + 1)
            }
        } else {
            nmcli_connection(ls, i + 1)
        }
    }
}

/// The network named in `iw dev <if> link` output, from line `i` on: the trimmed
/// text after `SSID:` on a trimmed line, when it is not empty.
pub open spec fn iw_ssid(ls: Seq<Seq<char>>, i: int) -> Option<Seq<char>>
    decreases ls.len() - i,
{
    if i < 0 || i >= ls.len() {
        None
    } else {
        let p = "SSID:"@;
        let l = trim(ls[i]);
        if has_prefix(l, p) {
            let s = trim(l.subrange(p.len() as int, l.len() as int));
            if s.len() > 0 {
                Some(s)
            } else {
                iw_ssid(ls, i + 1)
            }
        } else {
            iw_ssid(ls, i + 1)
        }
    }
}

/// Where the WiFi-name probe stands: which command to run next, or the answer.
pub enum SsidProbe {
    NmcliWifi,
    NmcliConnection,
    Iw,
    Done(Option<String>),
}

pub enum SsidProbeView {
    NmcliWifi,
    NmcliConnection,
    Iw,
    Done(Option<Seq<char>>),
}

impl View for SsidProbe {
    type V = SsidProbeView;

    open spec fn view(&self) -> SsidProbeView {
        match self {
            SsidProbe::NmcliWifi => SsidProbeView::NmcliWifi,
            SsidProbe::NmcliConnection => SsidProbeView::NmcliConnection,
            SsidProbe::Iw => SsidProbeView::Iw,
            SsidProbe::Done(s) => SsidProbeView::Done(opt_view(*s)),
        }
    }
}

/// The next step of the probe, given the output of the command the current step
/// names (`None` when the command could not run or failed): nmcli's WiFi listing
/// first, then nmcli's connection name, then `iw`.
pub open spec fn ssid_step(state: SsidProbeView, output: Option<Seq<char>>) -> SsidProbeView {
    match state {
        SsidProbeView::NmcliWifi => match output {
            None => SsidProbeView::Iw,
            Some(t) => match wifi_listing(lines(t), 0) {
                WifiListing::Active(s) => SsidProbeView::Done(Some(s)),
                WifiListing::NoneActive => SsidProbeView::NmcliConnection,
                WifiListing::Malformed => SsidProbeView::Iw,
            },
        },
        SsidProbeView::NmcliConnection => match output {
            None => SsidProbeView::Iw,
            Some(t) => match nmcli_connection(lines(t), 0) {
                Some(c) => SsidProbeView::Done(Some(c)),
                None => SsidProbeView::Iw,
            },
        },
        SsidProbeView::Iw => match output {
            None => SsidProbeView::Done(None),
            Some(t) => SsidProbeView::Done(iw_ssid(lines(t), 0)),
        },
        SsidProbeView::Done(s) => SsidProbeView::Done(s),
    }
}

fn wifi_listing_exec(text: &str) -> (r: Result<Option<String>, ()>)
    ensures
        match wifi_listing(lines(text@), 0) {
            WifiListing::Active(s) => r matches Ok(Some(x)) && x@ == s,
            WifiListing::NoneActive => r matches Ok(None),
            WifiListing::Malformed => r is Err,
        },
{
    let ls = split_lines(text);
    let ghost lv = ls@.map_values(|p: String| p@);
    let mut i: usize = 0;
    while i < ls.len()
        invariant
            i <= ls.len(),
            lv == ls@.map_values(|p: String| p@),
            lv == lines(text@),
            wifi_listing(lv, 0) == wifi_listing(lv, i as int),
        decreases ls.len() - i,
    {
        let line = to_chars(ls[i].as_str());
        let parts = split_chars(&line, ':');
        let ghost pv = parts@.map_values(|p: Vec<char>| p@);
        proof {
            assert(lv[i as int] == ls@[i as int]@);
        }
        if parts.len() < 2 {
            return Err(());
        }
        proof {
            assert(pv[0] == parts@[0]@);
            assert(pv[1] == parts@[1]@);
        }
        let active = string_from_chars(&parts[0]);
        if str_eq(active.as_str(), "yes") && parts[1].len() > 0 {
            return Ok(Some(string_from_chars(&parts[1])));
        }
        i += 1;
    }
    Ok(None)
}

fn nmcli_connection_exec(text: &str) -> (r: Option<String>)
    ensures
        match nmcli_connection(lines(text@), 0) {
            Some(c) => r matches Some(x) && x@ == c,
            None => r is None,
        },
{
    let ls = split_lines(text);
    let ghost lv = ls@.map_values(|p: String| p@);
    let mut i: usize = 0;
    while i < ls.len()
        invariant
            i <= ls.len(),
            lv == ls@.map_values(|p: String| p@),
            lv == lines(text@),
            nmcli_connection(lv, 0) == nmcli_connection(lv, i as int),
        decreases ls.len() - i,
    {
        proof {
            assert(lv[i as int] == ls@[i as int]@);
        }
        if let Some(rest) = strip_prefix(ls[i].as_str(), "GENERAL.CONNECTION:") {
            let conn = trim_str(rest.as_str());
            if conn.as_str().unicode_len() > 0 && !str_eq(conn.as_str(), "--") {
                return Some(conn);
            }
        }
        i += 1;
    }
    None
}

fn iw_ssid_exec(text: &str) -> (r: Option<String>)
    ensures
        match iw_ssid(lines(text@), 0) {
            Some(c) => r matches Some(x) && x@ == c,
            None => r is None,
        },
{
    let ls = split_lines(text);
    let ghost lv = ls@.map_values(|p: String| p@);
    let mut i: usize = 0;
    while i < ls.len()
        invariant
            i <= ls.len(),
            lv == ls@.map_values(|p: String| p@),
            lv == lines(text@),
            iw_ssid(lv, 0) == iw_ssid(lv, i as int),
        decreases ls.len() - i,
    {
        proof {
            assert(lv[i as int] == ls@[i as int]@);
        }
        let line = trim_str(ls[i].as_str());
        if let Some(rest) = strip_prefix(line.as_str(), "SSID:") {
            let ssid = trim_str(rest.as_str());
            if ssid.as_str().unicode_len() > 0 {
                return Some(ssid);
            }
        }
        i += 1;
    }
    None
}

/// One step of finding the WiFi network's name. Start at `SsidProbe::NmcliWifi`;
/// run the command the state names and pass its standard output (or `None` when it
/// could not run or failed); stop at `Done`.
pub fn detect_wifi_ssid(state: SsidProbe, output: Option<&str>) -> (r: SsidProbe)
    ensures
        r@ == ssid_step(
            state@,
            match output {
                Some(t) => Some(t@),
                None => None,
            },
        ),
{
    match state {
        SsidProbe::NmcliWifi => match output {
            None => SsidProbe::Iw,
            Some(t) => match wifi_listing_exec(t) {
                Ok(Some(s)) => SsidProbe::Done(Some(s)),
                Ok(None) => SsidProbe::NmcliConnection,
                Err(()) => SsidProbe::Iw,
            },
        },
        SsidProbe::NmcliConnection => match output {
            None => SsidProbe::Iw,
            Some(t) => match nmcli_connection_exec(t) {
                Some(c) => SsidProbe::Done(Some(c)),
                None => SsidProbe::Iw,
            },
        },
        SsidProbe::Iw => match output {
            None => SsidProbe::Done(None),
            Some(t) => SsidProbe::Done(iw_ssid_exec(t)),
        },
        SsidProbe::Done(s) => SsidProbe::Done(s),
    }
}

// ---------------------------------------------------------------------------
// Network context
// ---------------------------------------------------------------------------
/// The WiFi name and the interface the agent currently knows.
pub struct NetworkContextState {
    pub network_name: Option<String>,
    pub interface: Option<String>,
}

impl NetworkContextState {
    pub fn new() -> (s: NetworkContextState)
        ensures
            s.network_name is None,
            s.interface is None,
    {
        NetworkContextState { network_name: None, interface: None }
    }

    /// Records the interface in use; the WiFi name is refreshed separately.
    pub fn set_interface(&mut self, interface: &str)
        ensures
            final(self).interface matches Some(i) && i@ == interface@,
            opt_view(final(self).network_name) == opt_view(old(self).network_name),
    {
        self.interface = Some(string_of(interface));
    }

    /// Records the WiFi name found by the last probe.
    pub fn set_network_name(&mut self, name: Option<String>)
        ensures
            opt_view(final(self).network_name) == opt_view(name),
            opt_view(final(self).interface) == opt_view(old(self).interface),
    {
        self.network_name = name;
    }
}

impl Default for NetworkContextState {
    fn default() -> (s: NetworkContextState)
        ensures
            s.network_name is None,
            s.interface is None,
    {
        NetworkContextState::new()
    }
}

/// Seconds between WiFi-name refreshes: the requested period, at least 30.
pub fn refresh_period_secs(poll_secs: u64) -> (r: u64)
    ensures
        r == if poll_secs >= 30 { poll_secs } else { 30 },
{
    if poll_secs >= 30 {
        poll_secs
    } else {
        30
    }
}

// ---------------------------------------------------------------------------
// Link state
// ---------------------------------------------------------------------------
#[derive(Clone, Copy, Debug, PartialEq, Eq, Structural)]
pub enum LinkState {
    Up,
    Down,
    Unknown,
}

/// The lower-case name of a link state (as the health endpoint reports it).
pub open spec fn link_state_name(s: LinkState) -> Seq<char> {
    match s {
        LinkState::Up => "up"@,
        LinkState::Down => "down"@,
        LinkState::Unknown => "unknown"@,
    }
}

impl LinkState {
    pub fn name(&self) -> (r: String)
        ensures
            r@ == link_state_name(*self),
    {
        match self {
            LinkState::Up => string_of("up"),
            LinkState::Down => string_of("down"),
            LinkState::Unknown => string_of("unknown"),
        }
    }
}

/// The link as last probed.
#[derive(Clone, Copy)]
pub struct LinkStatus {
    pub state: LinkState,
    pub gateway: Option<IpAddress>,
    pub interface_up: bool,
}

impl LinkStatus {
    /// Before the first probe: unknown, no gateway, interface assumed up.
    pub fn initial() -> (s: LinkStatus)
        ensures
            s.state == LinkState::Unknown,
            s.gateway is None,
            s.interface_up,
    {
        LinkStatus { state: LinkState::Unknown, gateway: None, interface_up: true }
    }

    /// The outcome of a probe: whether a network was detected, its gateway, and
    /// whether the gateway answered a ping (only asked when there is a gateway).
    /// The link is up when the network was found and the gateway answered.
    pub fn probed(network_found: bool, gateway: Option<IpAddress>, gateway_reachable: bool) -> (s: LinkStatus)
        ensures
            s.interface_up == network_found,
            s.gateway == gateway,
            s.state == if network_found && gateway is Some && gateway_reachable {
                LinkState::Up
            } else {
                LinkState::Down
            },
    {
        let reachable = match gateway {
            Some(_) => gateway_reachable,
            None => false,
        };
        let state = if network_found && reachable {
            LinkState::Up
        } else {
            LinkState::Down
        };
        LinkStatus { state, gateway, interface_up: network_found }
    }
}

/// A change worth reporting: the state differs from the last one, and the last
/// one was known.
pub fn link_changed(last: LinkState, current: LinkState) -> (r: bool)
    ensures
        r == (current != last && last != LinkState::Unknown),
{
    current != last && last != LinkState::Unknown
}

/// Seconds between link probes: the configured period, at least 5.
pub fn probe_period_secs(check_interval_secs: u64) -> (r: u64)
    ensures
        r == if check_interval_secs >= 5 { check_interval_secs } else { 5 },
{
    if check_interval_secs >= 5 {
        check_interval_secs
    } else {
        5
    }
}

} // verus!
