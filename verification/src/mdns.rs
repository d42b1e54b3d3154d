//! Services announced over mDNS, by host name.
use vstd::prelude::*;
use dashmap::DashMap;
use std::collections::HashSet;
use crate::text::{trim_end_char, trim_end_matches_char};

verus! {

#[verifier::external_type_specification]
#[verifier::external_body]
#[verifier::reject_recursive_types(K)]
#[verifier::reject_recursive_types(V)]
#[verifier::reject_recursive_types(S)]
pub struct ExDashMap<K, V, S>(DashMap<K, V, S>);

/// Service names by host name.
pub type HostMap = DashMap<String, HashSet<String>>;

/// What a map from host names to sets of service names holds.
pub uninterp spec fn host_services(m: HostMap) -> Map<Seq<char>, Set<Seq<char>>>;

pub open spec fn names(v: Seq<String>) -> Seq<Seq<char>> {
    v.map_values(|s: String| s@)
}

/// `DashMap::new`: an empty map.
#[verifier::external_body]
fn empty_host_map() -> (r: HostMap)
    ensures
        host_services(r) =~= Map::empty(),
{
    DashMap::new()
}

/// `DashMap::get` for a host, with the services of its set cloned out (in the
/// set's own order, each once); none when the host is absent.
#[verifier::external_body]
fn services_of(m: &HostMap, host: &str) -> (r: Vec<String>)
    ensures
        host_services(*m).contains_key(host@) ==> names(r@).to_set() == host_services(*m)[host@]
            && names(r@).no_duplicates(),
        !host_services(*m).contains_key(host@) ==> r@.len() == 0,
{
    m.get(host).map(|set| set.iter().cloned().collect()).unwrap_or_default()
}

/// `DashMap::iter` over the keys, cloned (in the map's own order, each once).
#[verifier::external_body]
fn hosts_of(m: &HostMap) -> (r: Vec<String>)
    ensures
        names(r@).to_set() == host_services(*m).dom(),
        names(r@).no_duplicates(),
{
    m.iter().map(|e| e.key().clone()).collect()
}

/// `DashMap::entry(host).or_default().insert(service)`: the host's set, created
/// empty when missing, gains the service.
#[verifier::external_body]
fn add_service(m: &mut HostMap, host: String, service: String)
    ensures
        host_services(*final(m)) == host_services(*old(m)).insert(
            host@,
            (if host_services(*old(m)).contains_key(host@) {
                host_services(*old(m))[host@]
            } else {
                Set::empty()
            }).insert(service@),
        ),
{
    m.entry(host).or_default().insert(service);
}

/// The services each host has announced.
pub struct MdnsRegistry {
    inner: HostMap,
}

impl View for MdnsRegistry {
    type V = Map<Seq<char>, Set<Seq<char>>>;

    closed spec fn view(&self) -> Map<Seq<char>, Set<Seq<char>>> {
        host_services(self.inner)
    }
}

impl MdnsRegistry {
    pub fn new() -> (r: MdnsRegistry)
        ensures
            r@ == Map::<Seq<char>, Set<Seq<char>>>::empty(),
    {
        MdnsRegistry { inner: empty_host_map() }
    }

    /// The services of a host (none when it announced nothing), each once.
    pub fn services_for_host(&self, hostname: &str) -> (r: Vec<String>)
        ensures
            self@.contains_key(hostname@) ==> names(r@).to_set() == self@[hostname@] && names(r@).no_duplicates(),
            !self@.contains_key(hostname@) ==> r@.len() == 0,
    {
        services_of(&self.inner, hostname)
    }

    /// Every host that announced a service, each once.
    pub fn all_hosts(&self) -> (r: Vec<String>)
        ensures
            names(r@).to_set() == self@.dom(),
            names(r@).no_duplicates(),
    {
        hosts_of(&self.inner)
    }

    /// Records a resolved service: its full name under the host name without
    /// trailing dots.
    pub fn record_resolved(&mut self, hostname: &str, fullname: &str)
        ensures
            ({
                let h = trim_end_char(hostname@, '.');
                final(self)@ == old(self)@.insert(
                    h,
                    (if old(self)@.contains_key(h) {
                        old(self)@[h]
                    } else {
                        Set::empty()
                    }).insert(fullname@),
                )
            }),
    {
        let host = trim_end_matches_char(hostname, '.');
        add_service(&mut self.inner, host, crate::model::string_of(fullname));
    }
}

impl Default for MdnsRegistry {
    fn default() -> (r: MdnsRegistry)
        ensures
            r@ == Map::<Seq<char>, Set<Seq<char>>>::empty(),
    {
        MdnsRegistry::new()
    }
}

/// A service once recorded for a host is among the services reported for it.
pub proof fn law_recorded_service_listed(
    before: Map<Seq<char>, Set<Seq<char>>>,
    host: Seq<char>,
    service: Seq<char>,
)
    ensures
        ({
            let after = before.insert(
                host,
                (if before.contains_key(host) {
                    before[host]
                } else {
                    Set::empty()
                }).insert(service),
            );
            &&& after.contains_key(host)
            &&& after[host].contains(service)
            &&& before.contains_key(host) ==> before[host].subset_of(after[host])
        }),
{
}

} // verus!
