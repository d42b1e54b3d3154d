//! The device table: devices keyed by MAC address, as the store holds them.
use vstd::prelude::*;
use crate::net::MacAddr;
use crate::model::{Device, DeviceView};

verus! {

/// Views of a vector of devices.
pub open spec fn device_views(v: Seq<Device>) -> Seq<DeviceView> {
    v.map_values(|d: Device| d@)
}

/// No two rows share a MAC address.
pub open spec fn macs_distinct(s: Seq<DeviceView>) -> bool {
    forall|i: int, j: int| 0 <= i < s.len() && 0 <= j < s.len() && i != j ==> s[i].mac != s[j].mac
}

pub open spec fn has_mac(s: Seq<DeviceView>, m: MacAddr) -> bool {
    exists|i: int| 0 <= i < s.len() && s[i].mac == m
}

/// The rows as a map from MAC address to device.
pub open spec fn table_map(s: Seq<DeviceView>) -> Map<MacAddr, DeviceView> {
    Map::new(
        |m: MacAddr| has_mac(s, m),
        |m: MacAddr| s[choose|i: int| 0 <= i < s.len() && s[i].mac == m],
    )
}

/// The store's upsert: an existing row keeps its first-seen time and any host
/// name or vendor that the new record leaves empty; every other field is replaced.
pub open spec fn merged(old: DeviceView, d: DeviceView) -> DeviceView {
    DeviceView {
        hostname: if d.hostname is Some {
            d.hostname
        } else {
            old.hostname
        },
        vendor: if d.vendor is Some {
            d.vendor
        } else {
            old.vendor
        },
        first_seen: old.first_seen,
        ..d
    }
}

/// The store after upserting `d`.
pub open spec fn upsert_spec(store: Map<MacAddr, DeviceView>, d: DeviceView) -> Map<
    MacAddr,
    DeviceView,
> {
    if store.contains_key(d.mac) {
        store.insert(d.mac, merged(store[d.mac], d))
    } else {
        store.insert(d.mac, d)
    }
}

/// The table loaded from a list of rows (a later row with the same MAC replaces an
/// earlier one).
pub open spec fn load_spec(rows: Seq<DeviceView>) -> Map<MacAddr, DeviceView>
    decreases rows.len(),
{
    if rows.len() == 0 {
        Map::empty()
    } else {
        load_spec(rows.drop_last()).insert(rows.last().mac, rows.last())
    }
}

pub proof fn lemma_lookup(s: Seq<DeviceView>, i: int)
    requires
        macs_distinct(s),
        0 <= i < s.len(),
    ensures
        table_map(s).contains_key(s[i].mac),
        table_map(s)[s[i].mac] == s[i],
{
    let m = s[i].mac;
    assert(has_mac(s, m));
    let j = choose|j: int| 0 <= j < s.len() && s[j].mac == m;
    assert(j == i);
}

pub proof fn lemma_absent(s: Seq<DeviceView>, m: MacAddr)
    requires
        forall|i: int| 0 <= i < s.len() ==> s[i].mac != m,
    ensures
        !table_map(s).contains_key(m),
{
}

pub proof fn lemma_update(s: Seq<DeviceView>, i: int, d: DeviceView)
    requires
        macs_distinct(s),
        0 <= i < s.len(),
        d.mac == s[i].mac,
    ensures
        macs_distinct(s.update(i, d)),
        table_map(s.update(i, d)) == table_map(s).insert(d.mac, d),
{
    let t = s.update(i, d);
    assert forall|a: int, b: int| 0 <= a < t.len() && 0 <= b < t.len() && a != b implies t[a].mac
        != t[b].mac by {
        assert(t[a].mac == s[a].mac);
        assert(t[b].mac == s[b].mac);
    }
    assert forall|m: MacAddr| #[trigger] has_mac(t, m) == has_mac(s, m) by {
        if has_mac(s, m) {
            let j = choose|j: int| 0 <= j < s.len() && s[j].mac == m;
            assert(t[j].mac == m);
        }
        if has_mac(t, m) {
            let j = choose|j: int| 0 <= j < t.len() && t[j].mac == m;
            assert(s[j].mac == m);
        }
    }
    assert forall|m: MacAddr| table_map(t).contains_key(m) implies table_map(t)[m] == table_map(
        s,
    ).insert(d.mac, d)[m] by {
        let j = choose|j: int| 0 <= j < t.len() && t[j].mac == m;
        lemma_lookup(t, j);
        if m == d.mac {
            assert(t[i].mac == m);
            assert(j == i);
        } else {
            assert(s[j].mac == m);
            lemma_lookup(s, j);
        }
    }
    assert(table_map(t) =~= table_map(s).insert(d.mac, d));
}

pub proof fn lemma_push(s: Seq<DeviceView>, d: DeviceView)
    requires
        macs_distinct(s),
        forall|i: int| 0 <= i < s.len() ==> s[i].mac != d.mac,
    ensures
        macs_distinct(s.push(d)),
        table_map(s.push(d)) == table_map(s).insert(d.mac, d),
{
    let t = s.push(d);
    assert forall|m: MacAddr| #[trigger] has_mac(t, m) == (has_mac(s, m) || m == d.mac) by {
        if has_mac(s, m) {
            let j = choose|j: int| 0 <= j < s.len() && s[j].mac == m;
            assert(t[j].mac == m);
        }
        if m == d.mac {
            assert(t[s.len() as int].mac == m);
        }
        if has_mac(t, m) && m != d.mac {
            let j = choose|j: int| 0 <= j < t.len() && t[j].mac == m;
            assert(j < s.len());
            assert(s[j].mac == m);
        }
    }
    assert forall|m: MacAddr| table_map(t).contains_key(m) implies table_map(t)[m] == table_map(
        s,
    ).insert(d.mac, d)[m] by {
        let j = choose|j: int| 0 <= j < t.len() && t[j].mac == m;
        lemma_lookup(t, j);
        if m == d.mac {
            assert(j == s.len());
        } else {
            assert(j < s.len());
            assert(s[j].mac == m);
            lemma_lookup(s, j);
        }
    }
    assert(table_map(t) =~= table_map(s).insert(d.mac, d));
}

/// Devices in memory, one per MAC address.
pub struct DeviceTable {
    pub rows: Vec<Device>,
}

impl DeviceTable {
    pub open spec fn wf(&self) -> bool {
        macs_distinct(device_views(self.rows@))
    }

    pub open spec fn map(&self) -> Map<MacAddr, DeviceView> {
        table_map(device_views(self.rows@))
    }

    pub fn new() -> (t: DeviceTable)
        ensures
            t.wf(),
            t.map() == Map::<MacAddr, DeviceView>::empty(),
    {
        let t = DeviceTable { rows: Vec::new() };
        assert(t.map() =~= Map::<MacAddr, DeviceView>::empty());
        t
    }

    /// Position of the row with MAC address `mac`.
    pub fn find(&self, mac: MacAddr) -> (r: Option<usize>)
        requires
            self.wf(),
        ensures
            r is Some ==> r->0 < self.rows.len() && self.rows@[r->0 as int].mac == mac
                && self.map().contains_key(mac) && self.map()[mac] == self.rows@[r->0 as int]@,
            r is None ==> !self.map().contains_key(mac),
    {
        let mut i: usize = 0;
        while i < self.rows.len()
            invariant
                i <= self.rows.len(),
                self.wf(),
                forall|k: int| 0 <= k < i ==> self.rows@[k].mac != mac,
            decreases self.rows.len() - i,
        {
            if self.rows[i].mac == mac {
                proof {
                    lemma_lookup(device_views(self.rows@), i as int);
                }
                return Some(i);
            }
            i += 1;
        }
        proof {
            lemma_absent(device_views(self.rows@), mac);
        }
        None
    }

    /// Stores `d` as is, replacing any row with the same MAC address.
    pub fn put(&mut self, d: Device)
        requires
            old(self).wf(),
        ensures
            final(self).wf(),
            final(self).map() == old(self).map().insert(d@.mac, d@),
    {
        let ghost dv = d@;
        match self.find(d.mac) {
            Some(i) => {
                proof {
                    lemma_update(device_views(self.rows@), i as int, dv);
                }
                self.rows.set(i, d);
                proof {
                    assert(device_views(self.rows@) =~= device_views(old(self).rows@).update(
                        i as int,
                        dv,
                    ));
                }
            },
            None => {
                proof {
                    assert forall|k: int| 0 <= k < self.rows.len() implies device_views(
                        self.rows@,
                    )[k].mac != dv.mac by {
                        if device_views(self.rows@)[k].mac == dv.mac {
                            lemma_lookup(device_views(self.rows@), k);
                        }
                    }
                    lemma_push(device_views(self.rows@), dv);
                }
                self.rows.push(d);
                proof {
                    assert(device_views(self.rows@) =~= device_views(old(self).rows@).push(dv));
                }
            },
        }
    }

    /// Loads rows in order.
    pub fn load(rows: &Vec<Device>) -> (t: DeviceTable)
        ensures
            t.wf(),
            t.map() == load_spec(device_views(rows@)),
    {
        let mut t = DeviceTable::new();
        let mut i: usize = 0;
        while i < rows.len()
            invariant
                i <= rows.len(),
                t.wf(),
                t.map() == load_spec(device_views(rows@).take(i as int)),
            decreases rows.len() - i,
        {
            let d = rows[i].duplicate();
            t.put(d);
            proof {
                let pre = device_views(rows@).take(i + 1);
                assert(pre.drop_last() =~= device_views(rows@).take(i as int));
                assert(pre.last() == rows@[i as int]@);
            }
            i += 1;
        }
        proof {
            assert(device_views(rows@).take(rows.len() as int) =~= device_views(rows@));
        }
        t
    }
}

} // verus!
