//! Device classification: infers a device's kind and operating system from its
//! vendor, mDNS services, open ports and host name.
//!
//! Each signal that matches sets the kind (and, for most, the operating system),
//! raises the confidence to at least the signal's own, and records its name; later
//! signals override earlier ones. Confidence is kept in thousandths.
use vstd::prelude::*;
use crate::net::MacAddr;
use crate::model::{DeviceKind, OsHint, opt_view, string_of};
use crate::text::{seq_contains, str_contains, join, join_strings, to_lowercase, lowercase};

verus! {

/// What the classifier looks at.
pub struct ClassificationInput {
    pub mac: MacAddr,
    pub vendor: Option<String>,
    pub hostname: Option<String>,
    pub open_ports: Vec<u16>,
    pub mdns_services: Vec<String>,
    pub dhcp_hostname: Option<String>,
    pub is_gateway: bool,
}

impl Default for ClassificationInput {
    fn default() -> (r: ClassificationInput)
        ensures
            r.mac == MacAddr(0, 0, 0, 0, 0, 0),
            r.vendor is None,
            r.hostname is None,
            r.open_ports@.len() == 0,
            r.mdns_services@.len() == 0,
            r.dhcp_hostname is None,
            !r.is_gateway,
    {
        ClassificationInput {
            mac: MacAddr::zero(),
            vendor: None,
            hostname: None,
            open_ports: Vec::new(),
            mdns_services: Vec::new(),
            dhcp_hostname: None,
            is_gateway: false,
        }
    }
}

/// The classifier's verdict.
pub struct ClassificationResult {
    pub kind: DeviceKind,
    pub os_hint: OsHint,
    /// Confidence in thousandths (900 stands for 0.9).
    pub confidence_permille: u16,
    /// Names of the signals that matched, comma-separated, or `none`.
    pub inference_source: String,
}

/// The verdict as it builds up, signal by signal.
pub struct Tally {
    pub kind: DeviceKind,
    pub os: OsHint,
    pub conf: int,
    pub sources: Seq<Seq<char>>,
}

pub open spec fn no_signal() -> Tally {
    Tally { kind: DeviceKind::Unknown, os: OsHint::Unknown, conf: 0, sources: Seq::empty() }
}

/// A signal named `src` matched: it sets the kind, sets the OS when it names one,
/// and raises the confidence to at least `conf`.
pub open spec fn mark(t: Tally, kind: DeviceKind, os: Option<OsHint>, conf: int, src: Seq<char>) -> Tally {
    Tally {
        kind,
        os: match os {
            Some(o) => o,
            None => t.os,
        },
        conf: if t.conf >= conf { t.conf } else { conf },
        sources: t.sources.push(src),
    }
}

/// The vendor rule, on the lower-cased vendor name.
pub open spec fn vendor_step(t: Tally, v: Seq<char>) -> Tally {
    if seq_contains(v, "apple"@) {
        mark(t, DeviceKind::Mobile, Some(OsHint::Ios), 700, "oui_apple"@)
    } else if seq_contains(v, "samsung"@) || seq_contains(v, "xiaomi"@) || seq_contains(v, "google"@) {
        mark(t, DeviceKind::Mobile, Some(OsHint::Android), 650, "oui_android_vendor"@)
    } else if seq_contains(v, "raspberry"@) {
        mark(t, DeviceKind::Desktop, Some(OsHint::Linux), 800, "oui_raspberry"@)
    } else if seq_contains(v, "intel"@) || seq_contains(v, "microsoft"@) {
        mark(
            t,
            DeviceKind::Desktop,
            if seq_contains(v, "microsoft"@) { Some(OsHint::Windows) } else { None },
            500,
            "oui_desktop_vendor"@,
        )
    } else if seq_contains(v, "cisco"@) || seq_contains(v, "tp-link"@) || seq_contains(v, "asus"@)
        || seq_contains(v, "linksys"@) {
        mark(t, DeviceKind::Router, None, 750, "oui_router_vendor"@)
    } else {
        t
    }
}

/// The mDNS rule, on one lower-cased service name.
pub open spec fn service_step(t: Tally, s: Seq<char>) -> Tally {
    if seq_contains(s, "airplay"@) || seq_contains(s, "apple"@) {
        mark(t, DeviceKind::Mobile, Some(OsHint::Ios), 850, "mdns_airplay"@)
    } else if seq_contains(s, "androidtv"@) || seq_contains(s, "googlecast"@) {
        mark(t, DeviceKind::Mobile, Some(OsHint::Android), 800, "mdns_android"@)
    } else if seq_contains(s, "smb"@) || seq_contains(s, "ssh"@) {
        mark(t, DeviceKind::Desktop, None, 600, "mdns_desktop_service"@)
    } else {
        t
    }
}

/// The open-port rule, on one port.
pub open spec fn port_step(t: Tally, p: u16, gateway: bool) -> Tally {
    if p == 22 {
        mark(t, DeviceKind::Desktop, Some(OsHint::Linux), 550, "port_22"@)
    } else if p == 445 || p == 139 {
        mark(t, DeviceKind::Desktop, Some(OsHint::Windows), 600, "port_smb"@)
    } else if p == 548 || p == 631 {
        mark(t, DeviceKind::Desktop, Some(OsHint::MacOS), 550, "port_mac"@)
    } else if p == 62078 {
        mark(t, DeviceKind::Mobile, Some(OsHint::Ios), 900, "port_ios_sync"@)
    } else if (p == 80 || p == 443 || p == 8080) && gateway {
        mark(t, DeviceKind::Router, None, 700, "port_router_web"@)
    } else {
        t
    }
}

/// The host-name rule, on the lower-cased host name.
pub open spec fn host_step(t: Tally, h: Seq<char>) -> Tally {
    if seq_contains(h, "iphone"@) || seq_contains(h, "ipad"@) {
        mark(t, DeviceKind::Mobile, Some(OsHint::Ios), 850, "hostname_apple"@)
    } else if seq_contains(h, "android"@) || seq_contains(h, "galaxy"@) || seq_contains(h, "pixel"@) {
        mark(t, DeviceKind::Mobile, Some(OsHint::Android), 850, "hostname_android"@)
    } else if seq_contains(h, "router"@) || seq_contains(h, "gateway"@) {
        mark(t, DeviceKind::Router, None, 800, "hostname_router"@)
    } else {
        t
    }
}

pub open spec fn services_steps(t: Tally, svcs: Seq<Seq<char>>) -> Tally
    decreases svcs.len(),
{
    if svcs.len() == 0 {
        t
    } else {
        service_step(services_steps(t, svcs.drop_last()), svcs.last())
    }
}

pub open spec fn ports_steps(t: Tally, ports: Seq<u16>, gateway: bool) -> Tally
    decreases ports.len(),
{
    if ports.len() == 0 {
        t
    } else {
        port_step(ports_steps(t, ports.drop_last(), gateway), ports.last(), gateway)
    }
}

/// The whole verdict, from the lower-cased vendor, service and host names: the
/// gateway signal first, then the vendor, the services in order, the ports in
/// order, and the host name last.
pub open spec fn classify_spec(
    gateway: bool,
    vendor: Option<Seq<char>>,
    services: Seq<Seq<char>>,
    ports: Seq<u16>,
    host: Seq<char>,
) -> Tally {
    let t1 = if gateway {
        mark(no_signal(), DeviceKind::Router, None, 900, "gateway_ip"@)
    } else {
        no_signal()
    };
    let t2 = match vendor {
        Some(v) => vendor_step(t1, v),
        None => t1,
    };
    host_step(ports_steps(services_steps(t2, services), ports, gateway), host)
}

/// `none` when no signal matched, else the signal names joined by commas.
pub open spec fn source_text(t: Tally) -> Seq<char> {
    if t.sources.len() == 0 {
        "none"@
    } else {
        join(t.sources, ","@)
    }
}

pub open spec fn result_is(r: ClassificationResult, t: Tally) -> bool {
    &&& r.kind == t.kind
    &&& r.os_hint == t.os
    &&& r.confidence_permille == t.conf
    &&& r.inference_source@ == source_text(t)
}

pub open spec fn views_of(v: Seq<String>) -> Seq<Seq<char>> {
    v.map_values(|s: String| s@)
}

/// The host name the classifier reads: the reported one, else the one from DHCP,
/// else the empty string.
pub open spec fn host_choice(hostname: Option<Seq<char>>, dhcp: Option<Seq<char>>) -> Seq<char> {
    match hostname {
        Some(h) => h,
        None => match dhcp {
            Some(d) => d,
            None => ""@,
        },
    }
}

struct Verdict {
    kind: DeviceKind,
    os: OsHint,
    conf: u16,
    sources: Vec<String>,
}

impl Verdict {
    spec fn tally(&self) -> Tally {
        Tally { kind: self.kind, os: self.os, conf: self.conf as int, sources: views_of(self.sources@) }
    }

    fn mark(&mut self, kind: DeviceKind, os: Option<OsHint>, conf: u16, src: &str)
        ensures
            final(self).tally() == mark(old(self).tally(), kind, os, conf as int, src@),
    {
        self.kind = kind;
        if let Some(o) = os {
            self.os = o;
        }
        if self.conf < conf {
            self.conf = conf;
        }
        self.sources.push(string_of(src));
        proof {
            assert(views_of(self.sources@) =~= views_of(old(self).sources@).push(src@));
        }
    }

    fn vendor(&mut self, v: &str)
        ensures
            final(self).tally() == vendor_step(old(self).tally(), v@),
    {
        if str_contains(v, "apple") {
            self.mark(DeviceKind::Mobile, Some(OsHint::Ios), 700, "oui_apple");
        } else if str_contains(v, "samsung") || str_contains(v, "xiaomi") || str_contains(v, "google") {
            self.mark(DeviceKind::Mobile, Some(OsHint::Android), 650, "oui_android_vendor");
        } else if str_contains(v, "raspberry") {
            self.mark(DeviceKind::Desktop, Some(OsHint::Linux), 800, "oui_raspberry");
        } else if str_contains(v, "intel") || str_contains(v, "microsoft") {
            let os = if str_contains(v, "microsoft") { Some(OsHint::Windows) } else { None };
            self.mark(DeviceKind::Desktop, os, 500, "oui_desktop_vendor");
        } else if str_contains(v, "cisco") || str_contains(v, "tp-link") || str_contains(v, "asus")
            || str_contains(v, "linksys") {
            self.mark(DeviceKind::Router, None, 750, "oui_router_vendor");
        }
    }

    fn service(&mut self, s: &str)
        ensures
            final(self).tally() == service_step(old(self).tally(), s@),
    {
        if str_contains(s, "airplay") || str_contains(s, "apple") {
            self.mark(DeviceKind::Mobile, Some(OsHint::Ios), 850, "mdns_airplay");
        } else if str_contains(s, "androidtv") || str_contains(s, "googlecast") {
            self.mark(DeviceKind::Mobile, Some(OsHint::Android), 800, "mdns_android");
        } else if str_contains(s, "smb") || str_contains(s, "ssh") {
            self.mark(DeviceKind::Desktop, None, 600, "mdns_desktop_service");
        }
    }

    fn port(&mut self, p: u16, gateway: bool)
        ensures
            final(self).tally() == port_step(old(self).tally(), p, gateway),
    {
        if p == 22 {
            self.mark(DeviceKind::Desktop, Some(OsHint::Linux), 550, "port_22");
        } else if p == 445 || p == 139 {
            self.mark(DeviceKind::Desktop, Some(OsHint::Windows), 600, "port_smb");
        } else if p == 548 || p == 631 {
            self.mark(DeviceKind::Desktop, Some(OsHint::MacOS), 550, "port_mac");
        } else if p == 62078 {
            self.mark(DeviceKind::Mobile, Some(OsHint::Ios), 900, "port_ios_sync");
        } else if (p == 80 || p == 443 || p == 8080) && gateway {
            self.mark(DeviceKind::Router, None, 700, "port_router_web");
        }
    }

    fn host(&mut self, h: &str)
        ensures
            final(self).tally() == host_step(old(self).tally(), h@),
    {
        if str_contains(h, "iphone") || str_contains(h, "ipad") {
            self.mark(DeviceKind::Mobile, Some(OsHint::Ios), 850, "hostname_apple");
        } else if str_contains(h, "android") || str_contains(h, "galaxy") || str_contains(h, "pixel") {
            self.mark(DeviceKind::Mobile, Some(OsHint::Android), 850, "hostname_android");
        } else if str_contains(h, "router") || str_contains(h, "gateway") {
            self.mark(DeviceKind::Router, None, 800, "hostname_router");
        }
    }
}

/// Classifies from names that are already lower-cased: `vendor`, each of
/// `services` and `host`.
pub fn classify_lowered(
    is_gateway: bool,
    vendor: Option<&str>,
    services: &Vec<String>,
    ports: &Vec<u16>,
    host: &str,
) -> (r: ClassificationResult)
    ensures
        result_is(
            r,
            classify_spec(
                is_gateway,
                match vendor {
                    Some(v) => Some(v@),
                    None => None,
                },
                views_of(services@),
                ports@,
                host@,
            ),
        ),
{
    let ghost vend = match vendor {
        Some(v) => Some(v@),
        None => None::<Seq<char>>,
    };
    let mut t = Verdict { kind: DeviceKind::Unknown, os: OsHint::Unknown, conf: 0, sources: Vec::new() };
    proof {
        assert(views_of(t.sources@) =~= Seq::<Seq<char>>::empty());
    }
    if is_gateway {
        t.mark(DeviceKind::Router, None, 900, "gateway_ip");
    }
    if let Some(v) = vendor {
        t.vendor(v);
    }
    let ghost t2 = t.tally();
    let ghost svcs = views_of(services@);
    let mut i: usize = 0;
    while i < services.len()
        invariant
            i <= services.len(),
            svcs == views_of(services@),
            t.tally() == services_steps(t2, svcs.take(i as int)),
        decreases services.len() - i,
    {
        t.service(services[i].as_str());
        proof {
            assert(svcs.take(i + 1).drop_last() =~= svcs.take(i as int));
            assert(svcs.take(i + 1).last() == services@[i as int]@);
        }
        i += 1;
    }
    proof {
        assert(svcs.take(services.len() as int) =~= svcs);
    }
    let ghost t3 = t.tally();
    let mut j: usize = 0;
    while j < ports.len()
        invariant
            j <= ports.len(),
            t.tally() == ports_steps(t3, ports@.take(j as int), is_gateway),
        decreases ports.len() - j,
    {
        t.port(ports[j], is_gateway);
        proof {
            assert(ports@.take(j + 1).drop_last() =~= ports@.take(j as int));
        }
        j += 1;
    }
    proof {
        assert(ports@.take(ports.len() as int) =~= ports@);
    }
    t.host(host);
    let source = if t.sources.len() == 0 {
        string_of("none")
    } else {
        join_strings(&t.sources, ",")
    };
    ClassificationResult { kind: t.kind, os_hint: t.os, confidence_permille: t.conf, inference_source: source }
}

/// The device classifier.
pub struct DeviceClassifier;

impl DeviceClassifier {
    /// Classifies a device. The vendor, each mDNS service and the host name (the
    /// reported one, else the DHCP one, else empty) are lower-cased with
    /// `str::to_lowercase` before the rules read them.
    pub fn classify(input: &ClassificationInput) -> (r: ClassificationResult)
        ensures
            result_is(
                r,
                classify_spec(
                    input.is_gateway,
                    match input.vendor {
                        Some(v) => Some(lowercase(v@)),
                        None => None,
                    },
                    input.mdns_services@.map_values(|s: String| lowercase(s@)),
                    input.open_ports@,
                    lowercase(host_choice(opt_view(input.hostname), opt_view(input.dhcp_hostname))),
                ),
            ),
    {
        let vendor = match &input.vendor {
            Some(v) => Some(to_lowercase(v.as_str())),
            None => None,
        };
        let mut services: Vec<String> = Vec::new();
        let mut i: usize = 0;
        while i < input.mdns_services.len()
            invariant
                i <= input.mdns_services.len(),
                views_of(services@) == input.mdns_services@.take(i as int).map_values(|s: String| lowercase(s@)),
            decreases input.mdns_services.len() - i,
        {
            let ghost before = services@;
            let low = to_lowercase(input.mdns_services[i].as_str());
            services.push(low);
            proof {
                assert(views_of(services@) =~= views_of(before).push(low@));
                assert(input.mdns_services@.take(i + 1) =~= input.mdns_services@.take(i as int).push(
                    input.mdns_services@[i as int],
                ));
                assert(views_of(services@) =~= input.mdns_services@.take(i + 1).map_values(
                    |s: String| lowercase(s@),
                ));
            }
            i += 1;
        }
        proof {
            assert(input.mdns_services@.take(input.mdns_services.len() as int) =~= input.mdns_services@);
        }
        let host = match &input.hostname {
            Some(h) => to_lowercase(h.as_str()),
            None => match &input.dhcp_hostname {
                Some(d) => to_lowercase(d.as_str()),
                None => to_lowercase(""),
            },
        };
        let v = match &vendor {
            Some(s) => Some(s.as_str()),
            None => None,
        };
        classify_lowered(input.is_gateway, v, &services, &input.open_ports, host.as_str())
    }
}

/// `b` keeps every signal of `a`, in front, and a confidence at least `a`'s.
pub open spec fn extends(a: Tally, b: Tally) -> bool {
    &&& b.conf >= a.conf
    &&& a.sources.len() <= b.sources.len()
    &&& b.sources.subrange(0, a.sources.len() as int) == a.sources
}

proof fn lemma_mark_extends(t: Tally, kind: DeviceKind, os: Option<OsHint>, conf: int, src: Seq<char>)
    ensures
        extends(t, mark(t, kind, os, conf, src)),
{
    assert(mark(t, kind, os, conf, src).sources.subrange(0, t.sources.len() as int) =~= t.sources);
}

proof fn lemma_extends_trans(a: Tally, b: Tally, c: Tally)
    requires
        extends(a, b),
        extends(b, c),
    ensures
        extends(a, c),
{
    assert(c.sources.subrange(0, a.sources.len() as int) =~= b.sources.subrange(0, a.sources.len() as int));
}

proof fn lemma_extends_refl(a: Tally)
    ensures
        extends(a, a),
{
    assert(a.sources.subrange(0, a.sources.len() as int) =~= a.sources);
}

proof fn lemma_vendor_extends(t: Tally, v: Seq<char>)
    ensures
        extends(t, vendor_step(t, v)),
{
    lemma_extends_refl(t);
    lemma_mark_extends(t, DeviceKind::Mobile, Some(OsHint::Ios), 700, "oui_apple"@);
    lemma_mark_extends(t, DeviceKind::Mobile, Some(OsHint::Android), 650, "oui_android_vendor"@);
    lemma_mark_extends(t, DeviceKind::Desktop, Some(OsHint::Linux), 800, "oui_raspberry"@);
    lemma_mark_extends(t, DeviceKind::Desktop, Some(OsHint::Windows), 500, "oui_desktop_vendor"@);
    lemma_mark_extends(t, DeviceKind::Desktop, None, 500, "oui_desktop_vendor"@);
    lemma_mark_extends(t, DeviceKind::Router, None, 750, "oui_router_vendor"@);
}

proof fn lemma_services_extend(t: Tally, svcs: Seq<Seq<char>>)
    ensures
        extends(t, services_steps(t, svcs)),
    decreases svcs.len(),
{
    if svcs.len() == 0 {
        lemma_extends_refl(t);
    } else {
        let u = services_steps(t, svcs.drop_last());
        lemma_services_extend(t, svcs.drop_last());
        lemma_extends_refl(u);
        lemma_mark_extends(u, DeviceKind::Mobile, Some(OsHint::Ios), 850, "mdns_airplay"@);
        lemma_mark_extends(u, DeviceKind::Mobile, Some(OsHint::Android), 800, "mdns_android"@);
        lemma_mark_extends(u, DeviceKind::Desktop, None, 600, "mdns_desktop_service"@);
        lemma_extends_trans(t, u, service_step(u, svcs.last()));
    }
}

proof fn lemma_ports_extend(t: Tally, ports: Seq<u16>, gateway: bool)
    ensures
        extends(t, ports_steps(t, ports, gateway)),
    decreases ports.len(),
{
    if ports.len() == 0 {
        lemma_extends_refl(t);
    } else {
        let u = ports_steps(t, ports.drop_last(), gateway);
        lemma_ports_extend(t, ports.drop_last(), gateway);
        lemma_extends_refl(u);
        lemma_mark_extends(u, DeviceKind::Desktop, Some(OsHint::Linux), 550, "port_22"@);
        lemma_mark_extends(u, DeviceKind::Desktop, Some(OsHint::Windows), 600, "port_smb"@);
        lemma_mark_extends(u, DeviceKind::Desktop, Some(OsHint::MacOS), 550, "port_mac"@);
        lemma_mark_extends(u, DeviceKind::Mobile, Some(OsHint::Ios), 900, "port_ios_sync"@);
        lemma_mark_extends(u, DeviceKind::Router, None, 700, "port_router_web"@);
        lemma_extends_trans(t, u, port_step(u, ports.last(), gateway));
    }
}

proof fn lemma_host_extends(t: Tally, h: Seq<char>)
    ensures
        extends(t, host_step(t, h)),
{
    lemma_extends_refl(t);
    lemma_mark_extends(t, DeviceKind::Mobile, Some(OsHint::Ios), 850, "hostname_apple"@);
    lemma_mark_extends(t, DeviceKind::Mobile, Some(OsHint::Android), 850, "hostname_android"@);
    lemma_mark_extends(t, DeviceKind::Router, None, 800, "hostname_router"@);
}

/// Signals only add: the gateway signal, when there is one, stays the first
/// recorded source, and confidence never falls below that of any signal that
/// matched before. In particular the gateway's own confidence, 0.9, is a floor.
pub proof fn law_gateway_signal_kept(
    vendor: Option<Seq<char>>,
    services: Seq<Seq<char>>,
    ports: Seq<u16>,
    host: Seq<char>,
)
    ensures
        classify_spec(true, vendor, services, ports, host).conf >= 900,
        classify_spec(true, vendor, services, ports, host).sources.len() >= 1,
        classify_spec(true, vendor, services, ports, host).sources[0] == "gateway_ip"@,
{
    let t1 = mark(no_signal(), DeviceKind::Router, None, 900, "gateway_ip"@);
    let t2 = match vendor {
        Some(v) => vendor_step(t1, v),
        None => t1,
    };
    match vendor {
        Some(v) => lemma_vendor_extends(t1, v),
        None => lemma_extends_refl(t1),
    }
    let t3 = services_steps(t2, services);
    lemma_services_extend(t2, services);
    let t4 = ports_steps(t3, ports, true);
    lemma_ports_extend(t3, ports, true);
    lemma_host_extends(t4, host);
    lemma_extends_trans(t1, t2, t3);
    lemma_extends_trans(t1, t3, t4);
    lemma_extends_trans(t1, t4, host_step(t4, host));
    let r = host_step(t4, host);
    assert(t1.sources.len() == 1);
    assert(r.sources.subrange(0, 1)[0] == r.sources[0]);
}

/// The host name has the last word: a host name that names an iPhone or iPad
/// makes the device an iOS mobile, whatever the other signals said.
pub proof fn law_hostname_decides(
    gateway: bool,
    vendor: Option<Seq<char>>,
    services: Seq<Seq<char>>,
    ports: Seq<u16>,
    host: Seq<char>,
)
    requires
        seq_contains(host, "iphone"@) || seq_contains(host, "ipad"@),
    ensures
        classify_spec(gateway, vendor, services, ports, host).kind == DeviceKind::Mobile,
        classify_spec(gateway, vendor, services, ports, host).os == OsHint::Ios,
        classify_spec(gateway, vendor, services, ports, host).conf >= 850,
{
}

/// A device with no matching signal stays unknown, with no confidence and the
/// source `none`.
pub proof fn law_no_signal_unknown(host: Seq<char>)
    requires
        !(seq_contains(host, "iphone"@) || seq_contains(host, "ipad"@) || seq_contains(host, "android"@)
            || seq_contains(host, "galaxy"@) || seq_contains(host, "pixel"@) || seq_contains(host, "router"@)
            || seq_contains(host, "gateway"@)),
    ensures
        classify_spec(false, None, Seq::empty(), Seq::empty(), host) == no_signal(),
        source_text(classify_spec(false, None, Seq::empty(), Seq::empty(), host)) == "none"@,
{
}

/// A Raspberry Pi vendor (and none of the phone makers) makes the device a Linux
/// desktop, with confidence at least 0.8, and names the signal `oui_raspberry`.
pub proof fn law_raspberry_vendor_is_linux_desktop(t: Tally, v: Seq<char>)
    requires
        seq_contains(v, "raspberry"@),
        !seq_contains(v, "apple"@),
        !seq_contains(v, "samsung"@),
        !seq_contains(v, "xiaomi"@),
        !seq_contains(v, "google"@),
    ensures
        vendor_step(t, v).kind == DeviceKind::Desktop,
        vendor_step(t, v).os == OsHint::Linux,
        vendor_step(t, v).conf >= 800,
        vendor_step(t, v).conf >= t.conf,
        t.conf <= 800 ==> vendor_step(t, v).conf == 800,
        vendor_step(t, v).sources == t.sources.push("oui_raspberry"@),
{
}

/// A device known only by a Raspberry Pi vendor is a Linux desktop with
/// confidence 0.8, from the one signal `oui_raspberry`.
pub proof fn law_raspberry_device(v: Seq<char>, host: Seq<char>)
    requires
        seq_contains(v, "raspberry"@),
        !seq_contains(v, "apple"@),
        !seq_contains(v, "samsung"@),
        !seq_contains(v, "xiaomi"@),
        !seq_contains(v, "google"@),
        !(seq_contains(host, "iphone"@) || seq_contains(host, "ipad"@) || seq_contains(host, "android"@)
            || seq_contains(host, "galaxy"@) || seq_contains(host, "pixel"@) || seq_contains(host, "router"@)
            || seq_contains(host, "gateway"@)),
    ensures
        classify_spec(false, Some(v), Seq::empty(), Seq::empty(), host).kind == DeviceKind::Desktop,
        classify_spec(false, Some(v), Seq::empty(), Seq::empty(), host).os == OsHint::Linux,
        classify_spec(false, Some(v), Seq::empty(), Seq::empty(), host).conf == 800,
        classify_spec(false, Some(v), Seq::empty(), Seq::empty(), host).sources == seq!["oui_raspberry"@],
{
    assert(Seq::<Seq<char>>::empty().push("oui_raspberry"@) =~= seq!["oui_raspberry"@]);
}

} // verus!
