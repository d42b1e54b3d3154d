//! What every discovery pass guarantees about the device table and the events it
//! reports.
use vstd::prelude::*;
use crate::net::MacAddr;
use crate::model::{DeviceView, DeviceSnapshotView, Identity, Timestamp, elapsed_exceeds};
use crate::table::{load_spec, upsert_spec, macs_distinct, has_mac};
use crate::registry::{RegistryEventView, fresh_device, SweepView, sweep_step, sweep_snaps, seen_in, sweep_leavers, process_sweep_spec, refreshed, stale_all, mark_stale_spec};

verus! {

/// Every stored device is filed under its own MAC address.
pub open spec fn keys_match(store: Map<MacAddr, DeviceView>) -> bool {
    forall|m: MacAddr| #[trigger] store.contains_key(m) ==> store[m].mac == m
}

/// No two snapshots of a pass share a MAC address.
pub open spec fn snap_macs_distinct(snaps: Seq<DeviceSnapshotView>) -> bool {
    forall|i: int, j: int|
        0 <= i < snaps.len() && 0 <= j < snaps.len() && i != j ==> snaps[i].mac != snaps[j].mac
}

/// One of the first `n` snapshots has MAC address `m`.
pub open spec fn seen_upto(snaps: Seq<DeviceSnapshotView>, n: int, m: MacAddr) -> bool {
    exists|i: int| 0 <= i < n && i < snaps.len() && #[trigger] snaps[i].mac == m
}

/// The store holds `m` and records it online as of `now`.
pub open spec fn online_now(store: Map<MacAddr, DeviceView>, m: MacAddr, now: Timestamp) -> bool {
    store.contains_key(m) && store[m].online && store[m].last_seen == now
}

pub proof fn lemma_load_distinct(s: Seq<DeviceView>)
    requires
        macs_distinct(s),
    ensures
        keys_match(load_spec(s)),
        forall|m: MacAddr| #[trigger] load_spec(s).contains_key(m) <==> has_mac(s, m),
        forall|i: int| 0 <= i < s.len() ==> load_spec(s)[#[trigger] s[i].mac] == s[i],
    decreases s.len(),
{
    if s.len() > 0 {
        let t = s.drop_last();
        assert(macs_distinct(t)) by {
            assert forall|i: int, j: int|
                0 <= i < t.len() && 0 <= j < t.len() && i != j implies t[i].mac != t[j].mac by {
                assert(t[i] == s[i] && t[j] == s[j]);
            }
        }
        lemma_load_distinct(t);
        assert forall|m: MacAddr| #[trigger] load_spec(s).contains_key(m) <==> has_mac(s, m) by {
            if has_mac(t, m) {
                let i = choose|i: int| 0 <= i < t.len() && t[i].mac == m;
                assert(s[i].mac == m);
            }
            if has_mac(s, m) && m != s.last().mac {
                let i = choose|i: int| 0 <= i < s.len() && s[i].mac == m;
                assert(i < t.len());
                assert(t[i].mac == m);
            }
            if m == s.last().mac {
                assert(s[s.len() - 1].mac == m);
            }
        }
        assert forall|i: int| 0 <= i < s.len() implies load_spec(s)[#[trigger] s[i].mac] == s[i] by {
            if i < s.len() - 1 {
                assert(s[i].mac != s.last().mac);
                assert(t[i] == s[i]);
            }
        }
    }
}

proof fn lemma_upsert_keys(store: Map<MacAddr, DeviceView>, d: DeviceView)
    requires
        keys_match(store),
    ensures
        keys_match(upsert_spec(store, d)),
        upsert_spec(store, d).contains_key(d.mac),
        upsert_spec(store, d)[d.mac].online == d.online,
        upsert_spec(store, d)[d.mac].last_seen == d.last_seen,
        upsert_spec(store, d)[d.mac].current_ip == d.current_ip,
        store.contains_key(d.mac) ==> upsert_spec(store, d)[d.mac].first_seen == store[d.mac].first_seen,
        forall|m: MacAddr| m != d.mac ==> (#[trigger] upsert_spec(store, d).contains_key(m)
            == store.contains_key(m)) && (store.contains_key(m) ==> upsert_spec(store, d)[m]
            == store[m]),
{
}

/// A snapshot only touches its own device.
proof fn lemma_step(
    st: SweepView,
    snap: DeviceSnapshotView,
    agent: Seq<char>,
    net: Option<Seq<char>>,
    ids: Seq<Identity>,
    now: Timestamp,
)
    requires
        keys_match(st.store),
    ensures
        ({
            let st2 = sweep_step(st, snap, agent, net, ids, now);
            &&& keys_match(st2.store)
            &&& online_now(st2.store, snap.mac, now)
            &&& (snap.ip is Some ==> st2.store[snap.mac].current_ip == snap.ip)
            &&& (st.store.contains_key(snap.mac) ==> st2.store[snap.mac].first_seen
                == st.store[snap.mac].first_seen)
            &&& forall|m: MacAddr| m != snap.mac ==> (#[trigger] st2.store.contains_key(m)
                == st.store.contains_key(m)) && (st.store.contains_key(m) ==> st2.store[m]
                == st.store[m])
            &&& ((st.store.contains_key(snap.mac) && st.store[snap.mac].online && (snap.ip is None
                || st.store[snap.mac].current_ip == snap.ip)) ==> st2.events == st.events)
        }),
{
    if st.store.contains_key(snap.mac) {
        let d = st.store[snap.mac];
        let d2 = refreshed(d, snap, now);
        assert(d2.mac == snap.mac);
        lemma_upsert_keys(st.store, d2);
        let st2 = sweep_step(st, snap, agent, net, ids, now);
        if d.online && (snap.ip is None || d.current_ip == snap.ip) {
            assert(st2.events =~= st.events);
        }
    } else {
        let st2 = sweep_step(st, snap, agent, net, ids, now);
        lemma_upsert_keys(st.store, crate::registry::fresh_device(snap, now));
    }
}

/// After the first `n` snapshots: every snapshot's device is online as of `now`,
/// devices not among them are untouched, and the store stays keyed by MAC.
proof fn lemma_snaps(
    st: SweepView,
    snaps: Seq<DeviceSnapshotView>,
    n: nat,
    agent: Seq<char>,
    net: Option<Seq<char>>,
    ids: Seq<Identity>,
    now: Timestamp,
)
    requires
        keys_match(st.store),
        n <= snaps.len(),
    ensures
        ({
            let r = sweep_snaps(st, snaps, n, agent, net, ids, now);
            &&& keys_match(r.store)
            &&& forall|j: int| 0 <= j < n ==> online_now(r.store, #[trigger] snaps[j].mac, now)
            &&& forall|m: MacAddr| !seen_upto(snaps, n as int, m) ==> (#[trigger] r.store.contains_key(m)
                == st.store.contains_key(m)) && (st.store.contains_key(m) ==> r.store[m]
                == st.store[m])
            &&& forall|m: MacAddr| #[trigger] st.store.contains_key(m) ==> r.store.contains_key(m)
                && r.store[m].first_seen == st.store[m].first_seen
        }),
    decreases n,
{
    if n > 0 {
        lemma_snaps(st, snaps, (n - 1) as nat, agent, net, ids, now);
        let prev = sweep_snaps(st, snaps, (n - 1) as nat, agent, net, ids, now);
        let snap = snaps[n - 1];
        lemma_step(prev, snap, agent, net, ids, now);
        let r = sweep_snaps(st, snaps, n, agent, net, ids, now);
        assert forall|j: int| 0 <= j < n implies online_now(r.store, #[trigger] snaps[j].mac, now) by {
            if j < n - 1 && snaps[j].mac != snap.mac {
                assert(online_now(prev.store, snaps[j].mac, now));
            }
        }
        assert forall|m: MacAddr| !seen_upto(snaps, n as int, m) implies (#[trigger] r.store.contains_key(m)
            == st.store.contains_key(m)) && (st.store.contains_key(m) ==> r.store[m]
            == st.store[m]) by {
            assert(m != snap.mac);
            assert(!seen_upto(snaps, n - 1, m));
        }
        assert forall|m: MacAddr| #[trigger] st.store.contains_key(m) implies r.store.contains_key(m)
            && r.store[m].first_seen == st.store[m].first_seen by {
            assert(prev.store.contains_key(m));
        }
    }
}

/// With distinct MAC addresses, each snapshot's reported IP address is the one
/// stored after the pass.
proof fn lemma_snaps_ip(
    st: SweepView,
    snaps: Seq<DeviceSnapshotView>,
    n: nat,
    agent: Seq<char>,
    net: Option<Seq<char>>,
    ids: Seq<Identity>,
    now: Timestamp,
)
    requires
        keys_match(st.store),
        n <= snaps.len(),
        snap_macs_distinct(snaps),
    ensures
        ({
            let r = sweep_snaps(st, snaps, n, agent, net, ids, now);
            forall|j: int| 0 <= j < n && (#[trigger] snaps[j]).ip is Some ==> r.store[snaps[j].mac].current_ip == snaps[j].ip
        }),
    decreases n,
{
    if n > 0 {
        lemma_snaps_ip(st, snaps, (n - 1) as nat, agent, net, ids, now);
        lemma_snaps(st, snaps, (n - 1) as nat, agent, net, ids, now);
        let prev = sweep_snaps(st, snaps, (n - 1) as nat, agent, net, ids, now);
        lemma_step(prev, snaps[n - 1], agent, net, ids, now);
        let r = sweep_snaps(st, snaps, n, agent, net, ids, now);
        assert forall|j: int| 0 <= j < n && (#[trigger] snaps[j]).ip is Some implies r.store[snaps[j].mac].current_ip == snaps[j].ip by {
            if j < n - 1 {
                assert(snaps[j].mac != snaps[n - 1].mac);
                assert(online_now(prev.store, snaps[j].mac, now));
            }
        }
    }
}

/// With distinct MAC addresses, a snapshot whose device is already online at its
/// stored IP address reports nothing.
proof fn lemma_snaps_quiet(
    st: SweepView,
    snaps: Seq<DeviceSnapshotView>,
    n: nat,
    agent: Seq<char>,
    net: Option<Seq<char>>,
    ids: Seq<Identity>,
    now: Timestamp,
)
    requires
        keys_match(st.store),
        n <= snaps.len(),
        snap_macs_distinct(snaps),
        forall|j: int| 0 <= j < n ==> {
            let s = #[trigger] snaps[j];
            st.store.contains_key(s.mac) && st.store[s.mac].online && (s.ip is None
                || st.store[s.mac].current_ip == s.ip)
        },
    ensures
        sweep_snaps(st, snaps, n, agent, net, ids, now).events == st.events,
    decreases n,
{
    if n > 0 {
        lemma_snaps_quiet(st, snaps, (n - 1) as nat, agent, net, ids, now);
        lemma_snaps(st, snaps, (n - 1) as nat, agent, net, ids, now);
        let prev = sweep_snaps(st, snaps, (n - 1) as nat, agent, net, ids, now);
        let s = snaps[n - 1];
        assert(!seen_upto(snaps, n - 1, s.mac));
        lemma_step(prev, s, agent, net, ids, now);
    }
}

/// The departure check only touches devices the pass did not see.
proof fn lemma_leavers(
    st: SweepView,
    existing: Seq<DeviceView>,
    n: nat,
    snaps: Seq<DeviceSnapshotView>,
    agent: Seq<char>,
    net: Option<Seq<char>>,
    ids: Seq<Identity>,
)
    requires
        keys_match(st.store),
        n <= existing.len(),
    ensures
        ({
            let r = sweep_leavers(st, existing, n, snaps, agent, net, ids);
            &&& keys_match(r.store)
            &&& forall|m: MacAddr| seen_in(snaps, m) ==> (#[trigger] r.store.contains_key(m)
                == st.store.contains_key(m)) && (st.store.contains_key(m) ==> r.store[m]
                == st.store[m])
            &&& forall|m: MacAddr| #[trigger] st.store.contains_key(m) ==> r.store.contains_key(m)
                && r.store[m].first_seen == st.store[m].first_seen
            &&& forall|m: MacAddr| #[trigger] r.store.contains_key(m) ==> st.store.contains_key(m)
                || exists|k: int| 0 <= k < n && existing[k].mac == m
            &&& forall|k: int| 0 <= k < n && !seen_in(snaps, (#[trigger] existing[k]).mac)
                && existing[k].online ==> r.store.contains_key(existing[k].mac)
                && !r.store[existing[k].mac].online
            &&& forall|m: MacAddr| !(exists|k: int| 0 <= k < n && existing[k].mac == m && existing[k].online
                && !seen_in(snaps, m)) ==> (#[trigger] r.store.contains_key(m)
                == st.store.contains_key(m)) && (st.store.contains_key(m) ==> r.store[m] == st.store[m])
            &&& ((forall|k: int| 0 <= k < n ==> ((#[trigger] existing[k]).online ==> seen_in(snaps, existing[k].mac)))
                ==> r.events == st.events)
        }),
    decreases n,
{
    if n > 0 {
        lemma_leavers(st, existing, (n - 1) as nat, snaps, agent, net, ids);
        let prev = sweep_leavers(st, existing, (n - 1) as nat, snaps, agent, net, ids);
        let d = existing[n - 1];
        let r = sweep_leavers(st, existing, n, snaps, agent, net, ids);
        if d.online && !seen_in(snaps, d.mac) {
            let off = DeviceView { online: false, ..d };
            lemma_upsert_keys(prev.store, off);
            assert forall|m: MacAddr| #[trigger] r.store.contains_key(m) implies st.store.contains_key(m)
                || exists|k: int| 0 <= k < n && existing[k].mac == m by {
                if m == d.mac {
                    assert(existing[n - 1].mac == m);
                } else if !st.store.contains_key(m) {
                    assert(prev.store.contains_key(m));
                    let k = choose|k: int| 0 <= k < n - 1 && existing[k].mac == m;
                    assert(existing[k].mac == m);
                }
            }
            assert forall|k: int| 0 <= k < n && !seen_in(snaps, (#[trigger] existing[k]).mac)
                && existing[k].online implies r.store.contains_key(existing[k].mac)
                && !r.store[existing[k].mac].online by {
                if existing[k].mac != d.mac {
                    assert(prev.store.contains_key(existing[k].mac));
                }
            }
            assert forall|m: MacAddr| !(exists|k: int| 0 <= k < n && existing[k].mac == m && existing[k].online
                && !seen_in(snaps, m)) implies (#[trigger] r.store.contains_key(m)
                == st.store.contains_key(m)) && (st.store.contains_key(m) ==> r.store[m] == st.store[m]) by {
                assert(m != d.mac);
                assert(!(exists|k: int| 0 <= k < n - 1 && existing[k].mac == m && existing[k].online
                    && !seen_in(snaps, m))) by {
                    if exists|k: int| 0 <= k < n - 1 && existing[k].mac == m && existing[k].online
                        && !seen_in(snaps, m) {
                        let k = choose|k: int| 0 <= k < n - 1 && existing[k].mac == m && existing[k].online
                            && !seen_in(snaps, m);
                        assert(0 <= k < n);
                    }
                }
            }
            assert(!(forall|k: int| 0 <= k < n ==> ((#[trigger] existing[k]).online ==> seen_in(snaps, existing[k].mac))));
        } else {
            assert forall|m: MacAddr| #[trigger] r.store.contains_key(m) implies st.store.contains_key(m)
                || exists|k: int| 0 <= k < n && existing[k].mac == m by {
                if !st.store.contains_key(m) {
                    let k = choose|k: int| 0 <= k < n - 1 && existing[k].mac == m;
                    assert(existing[k].mac == m);
                }
            }
            assert forall|m: MacAddr| !(exists|k: int| 0 <= k < n && existing[k].mac == m && existing[k].online
                && !seen_in(snaps, m)) implies (#[trigger] r.store.contains_key(m)
                == st.store.contains_key(m)) && (st.store.contains_key(m) ==> r.store[m] == st.store[m]) by {
                assert(!(exists|k: int| 0 <= k < n - 1 && existing[k].mac == m && existing[k].online
                    && !seen_in(snaps, m))) by {
                    if exists|k: int| 0 <= k < n - 1 && existing[k].mac == m && existing[k].online
                        && !seen_in(snaps, m) {
                        let k = choose|k: int| 0 <= k < n - 1 && existing[k].mac == m && existing[k].online
                            && !seen_in(snaps, m);
                        assert(0 <= k < n);
                    }
                }
            }
        }
    }
}

proof fn lemma_seen_upto_all(snaps: Seq<DeviceSnapshotView>, m: MacAddr)
    ensures
        seen_upto(snaps, snaps.len() as int, m) == seen_in(snaps, m),
{
    if seen_in(snaps, m) {
        let i = choose|i: int| 0 <= i < snaps.len() && #[trigger] snaps[i].mac == m;
        assert(seen_upto(snaps, snaps.len() as int, m));
    }
}

/// After a pass, every device the pass saw is stored as online, last seen at the
/// time of the pass.
pub proof fn law_seen_devices_online(
    agent: Seq<char>,
    existing: Seq<DeviceView>,
    ids: Seq<Identity>,
    snaps: Seq<DeviceSnapshotView>,
    net: Option<Seq<char>>,
    now: Timestamp,
)
    requires
        macs_distinct(existing),
    ensures
        forall|j: int| 0 <= j < snaps.len() ==> online_now(
            process_sweep_spec(agent, existing, ids, snaps, net, now).store,
            #[trigger] snaps[j].mac,
            now,
        ),
{
    lemma_load_distinct(existing);
    let st0 = SweepView { store: load_spec(existing), events: Seq::empty(), writes: Seq::empty() };
    lemma_snaps(st0, snaps, snaps.len(), agent, net, ids, now);
    let st1 = sweep_snaps(st0, snaps, snaps.len(), agent, net, ids, now);
    lemma_leavers(st1, existing, existing.len(), snaps, agent, net, ids);
    assert forall|j: int| 0 <= j < snaps.len() implies online_now(
        process_sweep_spec(agent, existing, ids, snaps, net, now).store,
        #[trigger] snaps[j].mac,
        now,
    ) by {
        assert(seen_in(snaps, snaps[j].mac));
        assert(online_now(st1.store, snaps[j].mac, now));
    }
}

/// After a pass, every stored device that was online and that the pass did not
/// see is stored as offline, and no device's first-seen time changes.
pub proof fn law_missing_devices_offline(
    agent: Seq<char>,
    existing: Seq<DeviceView>,
    ids: Seq<Identity>,
    snaps: Seq<DeviceSnapshotView>,
    net: Option<Seq<char>>,
    now: Timestamp,
)
    requires
        macs_distinct(existing),
    ensures
        forall|k: int| 0 <= k < existing.len() && (#[trigger] existing[k]).online && !seen_in(snaps, existing[k].mac) ==> {
            let store = process_sweep_spec(agent, existing, ids, snaps, net, now).store;
            store.contains_key(existing[k].mac) && !store[existing[k].mac].online
        },
        forall|k: int| 0 <= k < existing.len() ==> {
            let store = process_sweep_spec(agent, existing, ids, snaps, net, now).store;
            store.contains_key((#[trigger] existing[k]).mac) && store[existing[k].mac].first_seen == existing[k].first_seen
        },
{
    lemma_load_distinct(existing);
    let st0 = SweepView { store: load_spec(existing), events: Seq::empty(), writes: Seq::empty() };
    lemma_snaps(st0, snaps, snaps.len(), agent, net, ids, now);
    let st1 = sweep_snaps(st0, snaps, snaps.len(), agent, net, ids, now);
    lemma_leavers(st1, existing, existing.len(), snaps, agent, net, ids);
    assert forall|k: int| 0 <= k < existing.len() implies {
        let store = process_sweep_spec(agent, existing, ids, snaps, net, now).store;
        store.contains_key((#[trigger] existing[k]).mac) && store[existing[k].mac].first_seen == existing[k].first_seen
    } by {
        assert(has_mac(existing, existing[k].mac));
        assert(st0.store.contains_key(existing[k].mac));
    }
}

/// Running the same pass again, over the device list the first pass left, reports
/// no event: no device joins, returns, leaves or changes address twice.
pub proof fn law_repeated_pass_reports_nothing(
    agent: Seq<char>,
    existing: Seq<DeviceView>,
    ids: Seq<Identity>,
    snaps: Seq<DeviceSnapshotView>,
    net: Option<Seq<char>>,
    now: Timestamp,
    listed: Seq<DeviceView>,
    later: Timestamp,
)
    requires
        macs_distinct(existing),
        snap_macs_distinct(snaps),
        macs_distinct(listed),
        load_spec(listed) == process_sweep_spec(agent, existing, ids, snaps, net, now).store,
    ensures
        process_sweep_spec(agent, listed, ids, snaps, net, later).events.len() == 0,
{
    // the first pass
    lemma_load_distinct(existing);
    let st0 = SweepView { store: load_spec(existing), events: Seq::empty(), writes: Seq::empty() };
    lemma_snaps(st0, snaps, snaps.len(), agent, net, ids, now);
    lemma_snaps_ip(st0, snaps, snaps.len(), agent, net, ids, now);
    let st1 = sweep_snaps(st0, snaps, snaps.len(), agent, net, ids, now);
    lemma_leavers(st1, existing, existing.len(), snaps, agent, net, ids);
    let r1 = process_sweep_spec(agent, existing, ids, snaps, net, now).store;
    // the second pass starts from what the first left
    lemma_load_distinct(listed);
    let u0 = SweepView { store: load_spec(listed), events: Seq::empty(), writes: Seq::empty() };
    assert forall|j: int| 0 <= j < snaps.len() implies {
        let s = #[trigger] snaps[j];
        u0.store.contains_key(s.mac) && u0.store[s.mac].online && (s.ip is None
            || u0.store[s.mac].current_ip == s.ip)
    } by {
        assert(seen_in(snaps, snaps[j].mac));
        assert(online_now(st1.store, snaps[j].mac, now));
    }
    lemma_snaps_quiet(u0, snaps, snaps.len(), agent, net, ids, later);
    lemma_snaps(u0, snaps, snaps.len(), agent, net, ids, later);
    let u1 = sweep_snaps(u0, snaps, snaps.len(), agent, net, ids, later);
    assert forall|k: int| 0 <= k < listed.len() && (#[trigger] listed[k]).online implies seen_in(snaps, listed[k].mac) by {
        let m = listed[k].mac;
        assert(load_spec(listed)[m] == listed[k]);
        if !seen_in(snaps, m) {
            assert(has_mac(listed, m));
            assert(r1.contains_key(m));
            lemma_seen_upto_all(snaps, m);
            // an unseen device of the first pass's result came from the old list
            if !st1.store.contains_key(m) {
                let k2 = choose|k2: int| 0 <= k2 < existing.len() && existing[k2].mac == m;
                assert(has_mac(existing, m));
            }
            assert(st1.store.contains_key(m) == st0.store.contains_key(m));
            assert(has_mac(existing, m));
            let k1 = choose|k1: int| 0 <= k1 < existing.len() && existing[k1].mac == m;
            assert(existing[k1].mac == m);
            if existing[k1].online {
                assert(!r1[m].online);
            } else {
                assert(st0.store[m] == existing[k1]);
                assert(st1.store[m] == st0.store[m]);
                assert(!(exists|k: int| 0 <= k < existing.len() && existing[k].mac == m && existing[k].online
                    && !seen_in(snaps, m))) by {
                    if exists|k: int| 0 <= k < existing.len() && existing[k].mac == m && existing[k].online
                        && !seen_in(snaps, m) {
                        let k3 = choose|k: int| 0 <= k < existing.len() && existing[k].mac == m && existing[k].online
                            && !seen_in(snaps, m);
                        assert(existing[k3].mac == existing[k1].mac);
                        assert(k3 == k1);
                    }
                }
                assert(r1[m] == st1.store[m]);
            }
            assert(false);
        }
    }
    lemma_leavers(u1, listed, listed.len(), snaps, agent, net, ids);
}

/// The join events for the first `n` snapshots, in order.
pub open spec fn joins_of(snaps: Seq<DeviceSnapshotView>, n: int, now: Timestamp) -> Seq<RegistryEventView> {
    Seq::new(n as nat, |i: int| RegistryEventView::DeviceJoined { device: fresh_device(snaps[i], now), identity_name: None })
}

proof fn lemma_first_pass_joins(
    snaps: Seq<DeviceSnapshotView>,
    n: nat,
    agent: Seq<char>,
    net: Option<Seq<char>>,
    ids: Seq<Identity>,
    now: Timestamp,
)
    requires
        n <= snaps.len(),
        snap_macs_distinct(snaps),
    ensures
        sweep_snaps(
            SweepView { store: Map::empty(), events: Seq::empty(), writes: Seq::empty() },
            snaps,
            n,
            agent,
            net,
            ids,
            now,
        ).events == joins_of(snaps, n as int, now),
    decreases n,
{
    let st0 = SweepView { store: Map::<MacAddr, DeviceView>::empty(), events: Seq::empty(), writes: Seq::empty() };
    if n == 0 {
        assert(joins_of(snaps, 0, now) =~= Seq::<RegistryEventView>::empty());
    } else {
        lemma_first_pass_joins(snaps, (n - 1) as nat, agent, net, ids, now);
        lemma_snaps(st0, snaps, (n - 1) as nat, agent, net, ids, now);
        let prev = sweep_snaps(st0, snaps, (n - 1) as nat, agent, net, ids, now);
        let m = snaps[n - 1].mac;
        assert(!seen_upto(snaps, n - 1, m)) by {
            if seen_upto(snaps, n - 1, m) {
                let i = choose|i: int| 0 <= i < n - 1 && i < snaps.len() && #[trigger] snaps[i].mac == m;
                assert(snaps[i].mac != snaps[n - 1].mac);
            }
        }
        assert(!prev.store.contains_key(m));
        assert(joins_of(snaps, n as int, now) =~= joins_of(snaps, n - 1, now).push(
            RegistryEventView::DeviceJoined { device: fresh_device(snaps[n - 1], now), identity_name: None },
        ));
    }
}

/// On a store that knows no device, a pass reports every device it sees as
/// joined, once each, in the order seen, with the time of the pass as its
/// first and last sighting.
pub proof fn law_first_pass_reports_joins(
    agent: Seq<char>,
    ids: Seq<Identity>,
    snaps: Seq<DeviceSnapshotView>,
    net: Option<Seq<char>>,
    now: Timestamp,
)
    requires
        snap_macs_distinct(snaps),
    ensures
        process_sweep_spec(agent, Seq::empty(), ids, snaps, net, now).events == joins_of(snaps, snaps.len() as int, now),
{
    assert(load_spec(Seq::<DeviceView>::empty()) =~= Map::<MacAddr, DeviceView>::empty());
    lemma_first_pass_joins(snaps, snaps.len(), agent, net, ids, now);
}

// ---------------------------------------------------------------------------
// Staleness checks
// ---------------------------------------------------------------------------
/// More than `limit` whole seconds between `then` and `now` is a span of at least
/// `limit + 1` seconds.
proof fn lemma_elapsed_exceeds(now: Timestamp, then: Timestamp, limit: i64)
    requires
        limit >= 0,
    ensures
        elapsed_exceeds(now, then, limit) <==> now.total_nanos() - then.total_nanos() >= (limit + 1) * 1_000_000_000,
{
    let d = now.total_nanos() - then.total_nanos();
    if d >= 0 {
        assert((d / 1_000_000_000 > limit) <==> (d >= (limit + 1) * 1_000_000_000)) by (nonlinear_arith)
            requires
                d >= 0,
                limit >= 0,
        {
            let q = d / 1_000_000_000;
            assert(d == q * 1_000_000_000 + d % 1_000_000_000);
            assert(0 <= d % 1_000_000_000 < 1_000_000_000);
        }
    } else {
        assert((-d) / 1_000_000_000 >= 0) by (nonlinear_arith)
            requires
                -d > 0,
        ;
    }
}

/// A staleness check only appends events, and each one it appends reports a
/// checked device, as it was, as having left, after more than `timeout` seconds.
proof fn lemma_stale_events(
    st: SweepView,
    devices: Seq<DeviceView>,
    n: nat,
    timeout: u64,
    agent: Seq<char>,
    net: Option<Seq<char>>,
    ids: Seq<Identity>,
    now: Timestamp,
)
    requires
        n <= devices.len(),
    ensures
        ({
            let r = stale_all(st, devices, n, timeout, agent, net, ids, now);
            &&& r.events.len() >= st.events.len()
            &&& forall|j: int| 0 <= j < st.events.len() ==> r.events[j] == st.events[j]
            &&& forall|j: int| st.events.len() <= j < r.events.len() ==> (#[trigger] r.events[j] matches
                RegistryEventView::DeviceLeft { device, .. } && exists|i: int| 0 <= i < n
                && (#[trigger] devices[i]).mac == device.mac && devices[i].last_seen == device.last_seen
                && elapsed_exceeds(now, devices[i].last_seen, timeout as i64))
        }),
    decreases n,
{
    if n > 0 {
        lemma_stale_events(st, devices, (n - 1) as nat, timeout, agent, net, ids, now);
        let prev = stale_all(st, devices, (n - 1) as nat, timeout, agent, net, ids, now);
        let r = stale_all(st, devices, n, timeout, agent, net, ids, now);
        let d = devices[n - 1];
        assert forall|j: int| st.events.len() <= j < r.events.len() implies (#[trigger] r.events[j] matches
            RegistryEventView::DeviceLeft { device, .. } && exists|i: int| 0 <= i < n
            && (#[trigger] devices[i]).mac == device.mac && devices[i].last_seen == device.last_seen
            && elapsed_exceeds(now, devices[i].last_seen, timeout as i64)) by {
            if j < prev.events.len() {
                assert(r.events[j] == prev.events[j]);
            } else {
                assert(devices[n - 1] == d);
            }
        }
    }
}

/// A staleness check reports as having left only devices last seen more than
/// `timeout` whole seconds before `now`; a stored device last seen within that
/// time is never reported, whenever it was first seen.
pub proof fn law_stale_check_reports_only_stale_devices(
    agent: Seq<char>,
    devices: Seq<DeviceView>,
    ids: Seq<Identity>,
    timeout: u64,
    net: Option<Seq<char>>,
    now: Timestamp,
)
    requires
        macs_distinct(devices),
        timeout <= 0x7fff_ffff_ffff_ffff,
    ensures
        ({
            let ev = mark_stale_spec(agent, devices, ids, timeout, net, now).events;
            forall|j: int| 0 <= j < ev.len() ==> (#[trigger] ev[j] matches RegistryEventView::DeviceLeft { device, .. }
                && now.total_nanos() - device.last_seen.total_nanos() >= (timeout + 1) * 1_000_000_000)
        }),
        ({
            let ev = mark_stale_spec(agent, devices, ids, timeout, net, now).events;
            forall|p: int, j: int|
                0 <= p < devices.len() && 0 <= j < ev.len() && now.total_nanos() - (#[trigger] devices[p]).last_seen.total_nanos()
                    < (timeout + 1) * 1_000_000_000 ==> !(#[trigger] ev[j] matches RegistryEventView::DeviceLeft { device, .. }
                    && device.mac == devices[p].mac)
        }),
{
    let st0 = SweepView { store: crate::table::load_spec(devices), events: Seq::empty(), writes: Seq::empty() };
    lemma_stale_events(st0, devices, devices.len(), timeout, agent, net, ids, now);
    let ev = mark_stale_spec(agent, devices, ids, timeout, net, now).events;
    assert forall|j: int| 0 <= j < ev.len() implies (#[trigger] ev[j] matches RegistryEventView::DeviceLeft { device, .. }
        && now.total_nanos() - device.last_seen.total_nanos() >= (timeout + 1) * 1_000_000_000) by {
        if let RegistryEventView::DeviceLeft { device, .. } = ev[j] {
            let i = choose|i: int| 0 <= i < devices.len() && (#[trigger] devices[i]).mac == device.mac
                && devices[i].last_seen == device.last_seen && elapsed_exceeds(now, devices[i].last_seen, timeout as i64);
            lemma_elapsed_exceeds(now, devices[i].last_seen, timeout as i64);
        }
    }
    assert forall|p: int, j: int|
        0 <= p < devices.len() && 0 <= j < ev.len() && now.total_nanos() - (#[trigger] devices[p]).last_seen.total_nanos()
            < (timeout + 1) * 1_000_000_000 implies !(#[trigger] ev[j] matches RegistryEventView::DeviceLeft { device, .. }
            && device.mac == devices[p].mac) by {
        if let RegistryEventView::DeviceLeft { device, .. } = ev[j] {
            if device.mac == devices[p].mac {
                let i = choose|i: int| 0 <= i < devices.len() && (#[trigger] devices[i]).mac == device.mac
                    && devices[i].last_seen == device.last_seen && elapsed_exceeds(now, devices[i].last_seen, timeout as i64);
                assert(i == p);
                lemma_elapsed_exceeds(now, devices[i].last_seen, timeout as i64);
            }
        }
    }
}

// ---------------------------------------------------------------------------
// Address changes
// ---------------------------------------------------------------------------
/// Later snapshots only append events.
proof fn lemma_snaps_events_grow(
    st: SweepView,
    snaps: Seq<DeviceSnapshotView>,
    a: nat,
    b: nat,
    agent: Seq<char>,
    net: Option<Seq<char>>,
    ids: Seq<Identity>,
    now: Timestamp,
)
    requires
        a <= b <= snaps.len(),
    ensures
        ({
            let ra = sweep_snaps(st, snaps, a, agent, net, ids, now);
            let rb = sweep_snaps(st, snaps, b, agent, net, ids, now);
            &&& ra.events.len() <= rb.events.len()
            &&& forall|j: int| 0 <= j < ra.events.len() ==> rb.events[j] == ra.events[j]
        }),
    decreases b,
{
    if a < b {
        lemma_snaps_events_grow(st, snaps, a, (b - 1) as nat, agent, net, ids, now);
        let prev = sweep_snaps(st, snaps, (b - 1) as nat, agent, net, ids, now);
        let rb = sweep_snaps(st, snaps, b, agent, net, ids, now);
        assert(rb == sweep_step(prev, snaps[b - 1], agent, net, ids, now));
        assert forall|j: int| 0 <= j < prev.events.len() implies rb.events[j] == prev.events[j] by {}
    }
}

/// The departure check only appends events.
proof fn lemma_leavers_events_grow(
    st: SweepView,
    existing: Seq<DeviceView>,
    n: nat,
    snaps: Seq<DeviceSnapshotView>,
    agent: Seq<char>,
    net: Option<Seq<char>>,
    ids: Seq<Identity>,
)
    requires
        n <= existing.len(),
    ensures
        ({
            let r = sweep_leavers(st, existing, n, snaps, agent, net, ids);
            &&& st.events.len() <= r.events.len()
            &&& forall|j: int| 0 <= j < st.events.len() ==> r.events[j] == st.events[j]
        }),
    decreases n,
{
    if n > 0 {
        lemma_leavers_events_grow(st, existing, (n - 1) as nat, snaps, agent, net, ids);
    }
}

/// A known device seen in a pass at an address other than its stored one is
/// reported as having changed address, with the stored address as the old one,
/// whether it was online or offline before the pass.
pub proof fn law_address_change_reported(
    agent: Seq<char>,
    existing: Seq<DeviceView>,
    ids: Seq<Identity>,
    snaps: Seq<DeviceSnapshotView>,
    net: Option<Seq<char>>,
    now: Timestamp,
    k: int,
    i: int,
)
    requires
        macs_distinct(existing),
        snap_macs_distinct(snaps),
        0 <= k < existing.len(),
        0 <= i < snaps.len(),
        snaps[i].mac == existing[k].mac,
        snaps[i].ip is Some,
        snaps[i].ip != existing[k].current_ip,
    ensures
        exists|j: int| 0 <= j < process_sweep_spec(agent, existing, ids, snaps, net, now).events.len()
            && (#[trigger] process_sweep_spec(agent, existing, ids, snaps, net, now).events[j] matches
            RegistryEventView::IpChanged { device, old_ip } && device.mac == existing[k].mac
            && old_ip == existing[k].current_ip && device.current_ip == snaps[i].ip),
{
    lemma_load_distinct(existing);
    let m = existing[k].mac;
    let st0 = SweepView { store: crate::table::load_spec(existing), events: Seq::empty(), writes: Seq::empty() };
    lemma_snaps(st0, snaps, i as nat, agent, net, ids, now);
    let prev = sweep_snaps(st0, snaps, i as nat, agent, net, ids, now);
    assert(!seen_upto(snaps, i, m)) by {
        if seen_upto(snaps, i, m) {
            let q = choose|q: int| 0 <= q < i && q < snaps.len() && #[trigger] snaps[q].mac == m;
            assert(snaps[q].mac == snaps[i].mac);
        }
    }
    assert(st0.store.contains_key(m));
    assert(prev.store[m] == existing[k]);
    let step = sweep_snaps(st0, snaps, (i + 1) as nat, agent, net, ids, now);
    assert(step == sweep_step(prev, snaps[i], agent, net, ids, now));
    let d = existing[k];
    let d2 = refreshed(d, snaps[i], now);
    let pos = step.events.len() - 1;
    assert(step.events[pos] == RegistryEventView::IpChanged { device: d2, old_ip: d.current_ip });
    lemma_snaps_events_grow(st0, snaps, (i + 1) as nat, snaps.len(), agent, net, ids, now);
    let st1 = sweep_snaps(st0, snaps, snaps.len(), agent, net, ids, now);
    lemma_leavers_events_grow(st1, existing, existing.len(), snaps, agent, net, ids);
    let ev = process_sweep_spec(agent, existing, ids, snaps, net, now).events;
    assert(ev[pos] == step.events[pos]);
}

} // verus!
