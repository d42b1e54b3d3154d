//! Notification texts: titles and bodies for network and device events, and the
//! agent-name prefix that tells several monitors on one topic apart.
use vstd::prelude::*;
use crate::net::{IpAddress, ip_text};
use crate::model::{EventKind, Timestamp, opt_view, opt_str_view, string_of};
use crate::text::push_str;

verus! {

/// What a notification channel is handed.
pub struct NotificationPayload {
    pub agent_name: String,
    pub network_name: Option<String>,
    pub kind: EventKind,
    pub title: String,
    pub body: String,
    pub timestamp: Timestamp,
    pub device_name: Option<String>,
    pub device_ip: Option<IpAddress>,
    pub gateway: Option<IpAddress>,
}

pub struct NotificationPayloadView {
    pub agent_name: Seq<char>,
    pub network_name: Option<Seq<char>>,
    pub kind: EventKind,
    pub title: Seq<char>,
    pub body: Seq<char>,
    pub timestamp: Timestamp,
    pub device_name: Option<Seq<char>>,
    pub device_ip: Option<IpAddress>,
    pub gateway: Option<IpAddress>,
}

impl View for NotificationPayload {
    type V = NotificationPayloadView;

    open spec fn view(&self) -> NotificationPayloadView {
        NotificationPayloadView {
            agent_name: self.agent_name@,
            network_name: opt_view(self.network_name),
            kind: self.kind,
            title: self.title@,
            body: self.body@,
            timestamp: self.timestamp,
            device_name: opt_view(self.device_name),
            device_ip: self.device_ip,
            gateway: self.gateway,
        }
    }
}

/// `"[agent] title"`.
pub open spec fn prefixed_title(agent: Seq<char>, title: Seq<char>) -> Seq<char> {
    "["@ + agent + "] "@ + title
}

/// `s` between double quotes.
pub open spec fn quoted(s: Seq<char>) -> Seq<char> {
    "\""@ + s + "\""@
}

pub open spec fn network_down_title_spec(network: Option<Seq<char>>) -> Seq<char> {
    match network {
        Some(ssid) => quoted(ssid) + " is down"@,
        None => "Network is down"@,
    }
}

pub open spec fn unreachable_text(gateway: Option<IpAddress>) -> Seq<char> {
    match gateway {
        Some(g) => "gateway "@ + ip_text(g) + " unreachable"@,
        None => "link unreachable"@,
    }
}

pub open spec fn network_down_body_spec(gateway: Option<IpAddress>, network: Option<Seq<char>>) -> Seq<char> {
    match network {
        Some(ssid) => "WiFi "@ + quoted(ssid) + " — "@ + unreachable_text(gateway),
        None => unreachable_text(gateway),
    }
}

pub open spec fn network_restored_title_spec(network: Option<Seq<char>>) -> Seq<char> {
    match network {
        Some(ssid) => quoted(ssid) + " restored"@,
        None => "Network restored"@,
    }
}

pub open spec fn network_restored_body_spec(network: Option<Seq<char>>) -> Seq<char> {
    match network {
        Some(ssid) => "WiFi "@ + quoted(ssid) + " is back online"@,
        None => "Network connectivity restored"@,
    }
}

/// `", ip"`, or nothing.
pub open spec fn ip_part(ip: Option<IpAddress>) -> Seq<char> {
    match ip {
        Some(a) => ", "@ + ip_text(a),
        None => Seq::empty(),
    }
}

pub open spec fn device_joined_body_spec(
    name: Seq<char>,
    label: Seq<char>,
    ip: Option<IpAddress>,
    network: Option<Seq<char>>,
) -> Seq<char> {
    match network {
        Some(ssid) => name + "'s "@ + label + ip_part(ip) + " joined "@ + quoted(ssid),
        None => name + "'s "@ + label + ip_part(ip) + " joined the network"@,
    }
}

pub open spec fn device_left_body_spec(name: Seq<char>, label: Seq<char>, network: Option<Seq<char>>) -> Seq<char> {
    match network {
        Some(ssid) => name + "'s "@ + label + " left "@ + quoted(ssid),
        None => name + "'s "@ + label + " left the network"@,
    }
}

fn push_quoted(s: &mut String, t: &str)
    ensures
        final(s)@ == old(s)@ + quoted(t@),
{
    push_str(s, "\"");
    push_str(s, t);
    push_str(s, "\"");
    proof {
        assert(final(s)@ =~= old(s)@ + quoted(t@));
    }
}

/// The title and body a channel shows: the title carries the agent's name in
/// square brackets in front, the body is the payload's.
pub fn format_notification(payload: &NotificationPayload) -> (r: (String, String))
    ensures
        r.0@ == prefixed_title(payload.agent_name@, payload.title@),
        r.1@ == payload.body@,
{
    let mut title = string_of("[");
    push_str(&mut title, payload.agent_name.as_str());
    push_str(&mut title, "] ");
    push_str(&mut title, payload.title.as_str());
    proof {
        assert(title@ =~= prefixed_title(payload.agent_name@, payload.title@));
    }
    (title, payload.body.clone())
}

pub fn network_down_title(network_name: Option<&str>) -> (r: String)
    ensures
        r@ == network_down_title_spec(opt_str_view(network_name)),
{
    match network_name {
        Some(ssid) => {
            let mut s = String::new();
            push_quoted(&mut s, ssid);
            push_str(&mut s, " is down");
            proof {
                assert(s@ =~= quoted(ssid@) + " is down"@);
            }
            s
        },
        None => string_of("Network is down"),
    }
}

fn unreachable(gateway: Option<IpAddress>) -> (r: String)
    ensures
        r@ == unreachable_text(gateway),
{
    match gateway {
        Some(g) => {
            let mut s = string_of("gateway ");
            let t = g.to_text();
            push_str(&mut s, t.as_str());
            push_str(&mut s, " unreachable");
            proof {
                assert(s@ =~= "gateway "@ + ip_text(g) + " unreachable"@);
            }
            s
        },
        None => string_of("link unreachable"),
    }
}

pub fn network_down_body(gateway: Option<IpAddress>, network_name: Option<&str>) -> (r: String)
    ensures
        r@ == network_down_body_spec(gateway, opt_str_view(network_name)),
{
    let gw = unreachable(gateway);
    match network_name {
        Some(ssid) => {
            let mut s = string_of("WiFi ");
            push_quoted(&mut s, ssid);
            push_str(&mut s, " — ");
            push_str(&mut s, gw.as_str());
            proof {
                assert(s@ =~= "WiFi "@ + quoted(ssid@) + " — "@ + unreachable_text(gateway));
            }
            s
        },
        None => gw,
    }
}

pub fn network_restored_title(network_name: Option<&str>) -> (r: String)
    ensures
        r@ == network_restored_title_spec(opt_str_view(network_name)),
{
    match network_name {
        Some(ssid) => {
            let mut s = String::new();
            push_quoted(&mut s, ssid);
            push_str(&mut s, " restored");
            proof {
                assert(s@ =~= quoted(ssid@) + " restored"@);
            }
            s
        },
        None => string_of("Network restored"),
    }
}

pub fn network_restored_body(network_name: Option<&str>) -> (r: String)
    ensures
        r@ == network_restored_body_spec(opt_str_view(network_name)),
{
    match network_name {
        Some(ssid) => {
            let mut s = string_of("WiFi ");
            push_quoted(&mut s, ssid);
            push_str(&mut s, " is back online");
            proof {
                assert(s@ =~= "WiFi "@ + quoted(ssid@) + " is back online"@);
            }
            s
        },
        None => string_of("Network connectivity restored"),
    }
}

fn push_ip_part(s: &mut String, ip: Option<IpAddress>)
    ensures
        final(s)@ == old(s)@ + ip_part(ip),
{
    match ip {
        Some(a) => {
            push_str(s, ", ");
            let t = a.to_text();
            push_str(s, t.as_str());
            proof {
                assert(final(s)@ =~= old(s)@ + ip_part(ip));
            }
        },
        None => {
            proof {
                assert(final(s)@ =~= old(s)@ + ip_part(ip));
            }
        },
    }
}

pub fn device_joined_body(
    device_name: &str,
    kind_label: &str,
    ip: Option<IpAddress>,
    network_name: Option<&str>,
) -> (r: String)
    ensures
        r@ == device_joined_body_spec(device_name@, kind_label@, ip, opt_str_view(network_name)),
{
    let mut s = string_of(device_name);
    push_str(&mut s, "'s ");
    push_str(&mut s, kind_label);
    push_ip_part(&mut s, ip);
    match network_name {
        Some(ssid) => {
            push_str(&mut s, " joined ");
            push_quoted(&mut s, ssid);
            proof {
                assert(s@ =~= device_name@ + "'s "@ + kind_label@ + ip_part(ip) + " joined "@ + quoted(ssid@));
            }
        },
        None => {
            push_str(&mut s, " joined the network");
            proof {
                assert(s@ =~= device_name@ + "'s "@ + kind_label@ + ip_part(ip) + " joined the network"@);
            }
        },
    }
    s
}

pub fn device_left_body(device_name: &str, kind_label: &str, network_name: Option<&str>) -> (r: String)
    ensures
        r@ == device_left_body_spec(device_name@, kind_label@, opt_str_view(network_name)),
{
    let mut s = string_of(device_name);
    push_str(&mut s, "'s ");
    push_str(&mut s, kind_label);
    match network_name {
        Some(ssid) => {
            push_str(&mut s, " left ");
            push_quoted(&mut s, ssid);
            proof {
                assert(s@ =~= device_name@ + "'s "@ + kind_label@ + " left "@ + quoted(ssid@));
            }
        },
        None => {
            push_str(&mut s, " left the network");
            proof {
                assert(s@ =~= device_name@ + "'s "@ + kind_label@ + " left the network"@);
            }
        },
    }
    s
}

/// A known network name always appears, quoted, in the down and restored titles
/// and bodies; an unknown one leaves the generic wording.
pub proof fn law_ssid_in_network_alerts(ssid: Seq<char>, gateway: Option<IpAddress>)
    ensures
        network_down_title_spec(Some(ssid)).subrange(0, ssid.len() + 2 as int) == quoted(ssid),
        network_restored_title_spec(Some(ssid)).subrange(0, ssid.len() + 2 as int) == quoted(ssid),
        network_down_body_spec(gateway, Some(ssid)).subrange(5, ssid.len() + 7 as int) == quoted(ssid),
        network_restored_body_spec(Some(ssid)).subrange(5, ssid.len() + 7 as int) == quoted(ssid),
        network_down_title_spec(None) == "Network is down"@,
        network_restored_title_spec(None) == "Network restored"@,
        network_down_body_spec(gateway, None) == unreachable_text(gateway),
{
    reveal_strlit("\"");
    reveal_strlit("WiFi ");
    assert(network_down_title_spec(Some(ssid)).subrange(0, ssid.len() + 2 as int) =~= quoted(ssid));
    assert(network_restored_title_spec(Some(ssid)).subrange(0, ssid.len() + 2 as int) =~= quoted(ssid));
    assert(network_down_body_spec(gateway, Some(ssid)).subrange(5, ssid.len() + 7 as int) =~= quoted(ssid));
    assert(network_restored_body_spec(Some(ssid)).subrange(5, ssid.len() + 7 as int) =~= quoted(ssid));
}

/// Every formatted title starts with the agent's name in square brackets.
pub proof fn law_agent_prefix(agent: Seq<char>, title: Seq<char>)
    ensures
        prefixed_title(agent, title).subrange(0, agent.len() + 2 as int) == "["@ + agent + "]"@,
{
    reveal_strlit("[");
    reveal_strlit("] ");
    reveal_strlit("]");
    assert(prefixed_title(agent, title).subrange(0, agent.len() + 2 as int) =~= "["@ + agent + "]"@);
}

} // verus!
