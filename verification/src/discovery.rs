//! Discovery backends and passive capture: their settings, their errors, the
//! names they read from reverse DNS, and which captured devices are new.
use vstd::prelude::*;
use crate::net::{MacAddr, IpAddress, ip_text};
use crate::model::{string_of, str_eq};
use crate::packets::PassiveObservation;
use crate::text::{push_str, words, split_whitespace, trim_end_char, trim_end_matches_char};

verus! {

/// Why a discovery pass failed.
#[derive(Debug)]
pub enum DiscoveryError {
    Failed(String),
    NoInterface,
}

impl DiscoveryError {
    pub fn message(&self) -> (r: String)
        ensures
            r@ == match self {
                DiscoveryError::Failed(s) => "discovery failed: "@ + s@,
                DiscoveryError::NoInterface => "no suitable network interface found"@,
            },
    {
        match self {
            DiscoveryError::Failed(s) => {
                let mut r = string_of("discovery failed: ");
                push_str(&mut r, s.as_str());
                r
            },
            DiscoveryError::NoInterface => string_of("no suitable network interface found"),
        }
    }
}

/// What one discovery pass found: the network and the devices seen on it.
pub struct DiscoverySnapshot {
    pub network: crate::interface::NetworkInfo,
    pub devices: Vec<crate::model::DeviceSnapshot>,
}

/// Discovery on Linux: ARP sweep of the chosen interface's subnet.
pub struct LinuxDiscoveryBackend {
    pub interface: String,
    pub gateway: String,
}

impl LinuxDiscoveryBackend {
    /// A backend for the configured interface and gateway (each may be `auto`).
    pub fn new(interface: &str, gateway: &str) -> (b: LinuxDiscoveryBackend)
        ensures
            b.interface@ == interface@,
            b.gateway@ == gateway@,
    {
        LinuxDiscoveryBackend { interface: string_of(interface), gateway: string_of(gateway) }
    }

    pub fn platform_name(&self) -> (r: String)
        ensures
            r@ == "linux"@,
    {
        string_of("linux")
    }
}

/// The backend for the platform the agent runs on.
pub struct PlatformBackend {
    pub inner: LinuxDiscoveryBackend,
}

impl PlatformBackend {
    pub fn new(interface: &str, gateway: &str) -> (b: PlatformBackend)
        ensures
            b.inner.interface@ == interface@,
            b.inner.gateway@ == gateway@,
    {
        PlatformBackend { inner: LinuxDiscoveryBackend::new(interface, gateway) }
    }
}

/// The host name reverse DNS gives for `ip`: none when the lookup failed or only
/// echoed the address back, else the name without trailing dots.
pub open spec fn reverse_dns_spec(ip: IpAddress, looked_up: Option<Seq<char>>) -> Option<Seq<char>> {
    match looked_up {
        Some(h) => if h == ip_text(ip) {
            None
        } else {
            Some(trim_end_char(h, '.'))
        },
        None => None,
    }
}

pub fn reverse_dns_name(ip: IpAddress, looked_up: Option<&str>) -> (r: Option<String>)
    ensures
        match reverse_dns_spec(
            ip,
            match looked_up {
                Some(h) => Some(h@),
                None => None,
            },
        ) {
            Some(n) => r matches Some(x) && x@ == n,
            None => r is None,
        },
{
    match looked_up {
        Some(h) => {
            let text = ip.to_text();
            if str_eq(h, text.as_str()) {
                None
            } else {
                Some(trim_end_matches_char(h, '.'))
            }
        },
        None => None,
    }
}

/// The host name in `getent hosts <ip>` output: its second word.
pub fn getent_host(output: &str) -> (r: Option<String>)
    ensures
        words(output@).len() >= 2 ==> (r matches Some(h) && h@ == words(output@)[1]),
        words(output@).len() < 2 ==> r is None,
{
    let w = split_whitespace(output);
    if w.len() >= 2 {
        proof {
            assert(w@.map_values(|p: String| p@)[1] == w@[1]@);
        }
        Some(w[1].clone())
    } else {
        None
    }
}

/// Passive capture on an interface, remembering which devices it has reported.
pub struct PassiveCapture {
    interface: String,
    seen: Vec<MacAddr>,
}

impl PassiveCapture {
    /// The interface captured on.
    pub closed spec fn interface_name(&self) -> Seq<char> {
        self.interface@
    }

    pub fn interface(&self) -> (r: &str)
        ensures
            r@ == self.interface_name(),
    {
        self.interface.as_str()
    }

    /// The MAC addresses reported so far.
    pub closed spec fn seen(&self) -> Set<MacAddr> {
        self.seen@.to_set()
    }

    pub fn new(interface: &str) -> (c: PassiveCapture)
        ensures
            c.interface_name() == interface@,
            c.seen() == Set::<MacAddr>::empty(),
    {
        let c = PassiveCapture { interface: string_of(interface), seen: Vec::new() };
        proof {
            assert(c.seen@.to_set() =~= Set::<MacAddr>::empty());
        }
        c
    }

    /// Notes an observation; it is to be reported when its device had not been
    /// seen before.
    pub fn note(&mut self, obs: &PassiveObservation) -> (is_new: bool)
        ensures
            is_new == !old(self).seen().contains(obs.snapshot.mac),
            final(self).seen() == old(self).seen().insert(obs.snapshot.mac),
            final(self).interface_name() == old(self).interface_name(),
    {
        let mac = obs.snapshot.mac;
        let mut found = false;
        let mut i: usize = 0;
        while i < self.seen.len()
            invariant_except_break
                !found,
            invariant
                i <= self.seen.len(),
                forall|k: int| 0 <= k < i ==> self.seen@[k] != mac,
            ensures
                found ==> self.seen@.contains(mac),
                !found ==> forall|k: int| 0 <= k < self.seen@.len() ==> self.seen@[k] != mac,
            decreases self.seen.len() - i,
        {
            if self.seen[i] == mac {
                found = true;
                proof {
                    assert(self.seen@[i as int] == mac);
                }
                break;
            }
            i += 1;
        }
        if found {
            proof {
                assert(self.seen@.to_set().contains(mac));
                assert(self.seen@.to_set().insert(mac) =~= self.seen@.to_set());
            }
            return false;
        }
        proof {
            assert(!self.seen@.to_set().contains(mac));
        }
        let ghost before = self.seen@;
        self.seen.push(mac);
        proof {
            assert(self.seen@.to_set() =~= before.to_set().insert(mac)) by {
                assert forall|m: MacAddr| self.seen@.to_set().contains(m) == before.to_set().insert(mac).contains(m) by {
                    if self.seen@.to_set().contains(m) && m != mac {
                        let k = choose|k: int| 0 <= k < self.seen@.len() && self.seen@[k] == m;
                        assert(k < before.len());
                        assert(before[k] == m);
                    }
                    if before.to_set().contains(m) {
                        let k = choose|k: int| 0 <= k < before.len() && before[k] == m;
                        assert(self.seen@[k] == m);
                    }
                    if m == mac {
                        assert(self.seen@[before.len() as int] == mac);
                    }
                }
            }
        }
        true
    }
}

/// A device is reported once: once `note` has seen a MAC address, the set it
/// checks later observations against holds that address, so they are not new.
pub proof fn law_passive_reports_once(seen: Set<MacAddr>, mac: MacAddr)
    ensures
        seen.insert(mac).contains(mac),
{
}

} // verus!
