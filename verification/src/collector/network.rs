//! Network collection: per-interface byte counters and their change since
//! the previous collection.

use vstd::prelude::*;

use crate::collector::MetricCollector;
use crate::models::{NetworkMetrics, NetworkMetricsView};
use crate::text::{chars_to_string, str_chars};

verus! {

/// Network collection failed.
#[derive(Debug, Clone, Copy, PartialEq, Eq, Structural)]
pub enum NetworkCollectorError {
    RefreshFailed,
}

impl NetworkCollectorError {
    pub fn message(&self) -> (s: String)
        ensures
            s@ == "failed to refresh network data"@,
    {
        chars_to_string(str_chars("failed to refresh network data").as_slice())
    }
}

/// `sysinfo::Networks`, the interfaces of the machine.
#[verifier::external_type_specification]
#[verifier::external_body]
pub struct ExNetworks(sysinfo::Networks);

/// `sysinfo::NetworkData`, the counters of one interface; declared because
/// `Networks` dereferences to a map of them.
#[verifier::external_type_specification]
#[verifier::external_body]
pub struct ExNetworkData(sysinfo::NetworkData);

/// The interfaces a `sysinfo::Networks` holds, each with its total
/// transmitted and total received bytes.
pub uninterp spec fn network_totals(n: sysinfo::Networks) -> Map<Seq<char>, (u64, u64)>;

/// `Networks::new_with_refreshed_list`: the interfaces the machine has now.
/// What they are depends on the machine; the collection is finite.
#[verifier::external_body]
fn networks_new() -> (n: sysinfo::Networks)
    ensures
        network_totals(n).dom().finite(),
{
    sysinfo::Networks::new_with_refreshed_list()
}

/// `Networks::refresh`: updates the counters of the interfaces already
/// listed; as its documentation says, it neither adds nor removes any.
#[verifier::external_body]
fn networks_refresh(n: &mut sysinfo::Networks)
    ensures
        network_totals(*final(n)).dom() == network_totals(*old(n)).dom(),
{
    n.refresh()
}

/// One reading per interface: its name, `total_transmitted` and
/// `total_received`. The interfaces come in the map's iteration order,
/// which nothing fixes; each comes once.
#[verifier::external_body]
fn network_readings(n: &sysinfo::Networks) -> (r: Vec<(String, u64, u64)>)
    ensures
        r@.len() == network_totals(*n).dom().len(),
        forall|i: int| 0 <= i < r@.len() ==> #[trigger] network_totals(*n).contains_key(r@[i].0@)
            && network_totals(*n)[r@[i].0@] == (r@[i].1, r@[i].2),
        forall|i: int, j: int| 0 <= i < j < r@.len() ==> #[trigger] r@[i].0@ != #[trigger] r@[j].0@,
{
    n.iter().map(|(name, data)| (name.to_string(), data.total_transmitted(), data.total_received())).collect()
}

pub open spec fn reading_view(r: (String, u64, u64)) -> (Seq<char>, u64, u64) {
    (r.0@, r.1, r.2)
}

pub open spec fn readings_view(v: Seq<(String, u64, u64)>) -> Seq<(Seq<char>, u64, u64)> {
    v.map_values(|r: (String, u64, u64)| reading_view(r))
}

/// The counters of the first reading for `name`.
pub open spec fn lookup_previous(prev: Seq<(Seq<char>, u64, u64)>, name: Seq<char>) -> Option<(u64, u64)>
    decreases prev.len(),
{
    if prev.len() == 0 {
        None
    } else if prev[0].0 == name {
        Some((prev[0].1, prev[0].2))
    } else {
        lookup_previous(prev.drop_first(), name)
    }
}

pub open spec fn saturating_sub(a: u64, b: u64) -> u64 {
    if b <= a { (a - b) as u64 } else { 0 }
}

/// The metrics of one reading: its counters, and their increase since the
/// previous reading of the same interface (zero for a new interface, and
/// zero when a counter went down).
pub open spec fn metric_spec(prev: Seq<(Seq<char>, u64, u64)>, r: (Seq<char>, u64, u64)) -> NetworkMetricsView {
    let (tx_delta, rx_delta) = match lookup_previous(prev, r.0) {
        Some((ptx, prx)) => (saturating_sub(r.1, ptx), saturating_sub(r.2, prx)),
        None => (0u64, 0u64),
    };
    NetworkMetricsView { interface: r.0, tx_bytes: r.1, rx_bytes: r.2, tx_delta, rx_delta }
}

pub open spec fn metrics_spec(prev: Seq<(Seq<char>, u64, u64)>, readings: Seq<(Seq<char>, u64, u64)>) -> Seq<NetworkMetricsView> {
    readings.map_values(|r: (Seq<char>, u64, u64)| metric_spec(prev, r))
}

/// Delta law: every reported change is at most the counter it belongs to, and
/// it is the exact increase when the interface was seen before with a
/// counter not above the current one.
pub proof fn lemma_deltas_bounded(prev: Seq<(Seq<char>, u64, u64)>, readings: Seq<(Seq<char>, u64, u64)>, i: int)
    requires
        0 <= i < readings.len(),
    ensures
        metrics_spec(prev, readings)[i].tx_delta <= readings[i].1,
        metrics_spec(prev, readings)[i].rx_delta <= readings[i].2,
        lookup_previous(prev, readings[i].0) matches Some((ptx, prx)) ==> {
            &&& ptx <= readings[i].1 ==> metrics_spec(prev, readings)[i].tx_delta == readings[i].1 - ptx
            &&& prx <= readings[i].2 ==> metrics_spec(prev, readings)[i].rx_delta == readings[i].2 - prx
        },
{
}

/// Whether a listing of readings is exactly the contents of `totals`.
pub open spec fn lists_totals(listing: Seq<(Seq<char>, u64, u64)>, totals: Map<Seq<char>, (u64, u64)>) -> bool {
    &&& listing.len() == totals.dom().len()
    &&& forall|i: int| 0 <= i < listing.len() ==> #[trigger] totals.contains_key(listing[i].0)
        && totals[listing[i].0] == (listing[i].1, listing[i].2)
    &&& forall|i: int, j: int| 0 <= i < j < listing.len() ==> #[trigger] listing[i].0 != #[trigger] listing[j].0
}

/// Collects network metrics, remembering the counters of each collection.
pub struct NetworkCollector {
    networks: sysinfo::Networks,
    previous: Vec<(String, u64, u64)>,
}

fn lookup_previous_exec(prev: &Vec<(String, u64, u64)>, name: &String) -> (r: Option<(u64, u64)>)
    ensures
        r == lookup_previous(readings_view(prev@), name@),
{
    let ghost pv = readings_view(prev@);
    let mut i: usize = 0;
    assert(pv.skip(0) =~= pv);
    while i < prev.len()
        invariant
            i <= prev@.len(),
            pv == readings_view(prev@),
            lookup_previous(pv, name@) == lookup_previous(pv.skip(i as int), name@),
        decreases prev.len() - i,
    {
        assert(pv.skip(i as int)[0] == reading_view(prev@[i as int]));
        assert(pv.skip(i as int).drop_first() =~= pv.skip(i + 1));
        if prev[i].0 == *name {
            return Some((prev[i].1, prev[i].2));
        }
        i = i + 1;
    }
    None
}

fn copy_reading(r: &(String, u64, u64)) -> (c: (String, u64, u64))
    ensures
        reading_view(c) == reading_view(*r),
{
    (chars_to_string(str_chars(r.0.as_str()).as_slice()), r.1, r.2)
}

/// The metrics of `readings` against the previous readings.
pub fn compute_metrics(previous: &Vec<(String, u64, u64)>, readings: &Vec<(String, u64, u64)>) -> (m: Vec<NetworkMetrics>)
    ensures
        m@.map_values(|x: NetworkMetrics| x@) == metrics_spec(readings_view(previous@), readings_view(readings@)),
{
    let ghost pv = readings_view(previous@);
    let ghost rv = readings_view(readings@);
    let mut m: Vec<NetworkMetrics> = Vec::new();
    for i in 0..readings.len()
        invariant
            pv == readings_view(previous@),
            rv == readings_view(readings@),
            m@.map_values(|x: NetworkMetrics| x@) == metrics_spec(pv, rv.take(i as int)),
    {
        let r = &readings[i];
        let (tx_delta, rx_delta) = match lookup_previous_exec(previous, &r.0) {
            Some((ptx, prx)) => (r.1.saturating_sub(ptx), r.2.saturating_sub(prx)),
            None => (0u64, 0u64),
        };
        let ghost before = m@.map_values(|x: NetworkMetrics| x@);
        m.push(NetworkMetrics {
            interface: chars_to_string(str_chars(r.0.as_str()).as_slice()),
            tx_bytes: r.1,
            rx_bytes: r.2,
            tx_delta,
            rx_delta,
        });
        assert(rv[i as int] == reading_view(readings@[i as int]));
        assert(m@.map_values(|x: NetworkMetrics| x@) =~= before.push(metric_spec(pv, rv[i as int])));
        assert(metrics_spec(pv, rv.take(i + 1)) =~= metrics_spec(pv, rv.take(i as int)).push(metric_spec(pv, rv[i as int])));
    }
    assert(rv.take(readings@.len() as int) =~= rv);
    m
}

impl NetworkCollector {
    /// The interfaces' counters from the last collection.
    pub closed spec fn previous(self) -> Seq<(Seq<char>, u64, u64)> {
        readings_view(self.previous@)
    }

    /// What the interfaces hold now.
    pub closed spec fn totals(self) -> Map<Seq<char>, (u64, u64)> {
        network_totals(self.networks)
    }

    /// Lists the machine's interfaces and takes their current counters as
    /// the baseline of the first collection.
    pub fn new() -> (c: NetworkCollector)
        ensures
            lists_totals(c.previous(), c.totals()),
    {
        let networks = networks_new();
        let previous = network_readings(&networks);
        let c = NetworkCollector { networks, previous };
        assert forall|i: int, j: int| 0 <= i < j < c.previous().len() implies
            #[trigger] c.previous()[i].0 != #[trigger] c.previous()[j].0 by {
            assert(c.previous()[i] == reading_view(c.previous@[i]));
            assert(c.previous()[j] == reading_view(c.previous@[j]));
        }
        assert forall|i: int| 0 <= i < c.previous().len() implies #[trigger] c.totals().contains_key(c.previous()[i].0)
            && c.totals()[c.previous()[i].0] == (c.previous()[i].1, c.previous()[i].2) by {
            assert(c.previous()[i] == reading_view(c.previous@[i]));
        }
        c
    }

    /// Forgets the previous counters; the next collection reports a zero
    /// change for every interface.
    pub fn reset_baseline(&mut self)
        ensures
            final(self).previous() == Seq::<(Seq<char>, u64, u64)>::empty(),
            final(self).totals() == old(self).totals(),
    {
        self.previous = Vec::new();
        assert(readings_view(self.previous@) =~= Seq::<(Seq<char>, u64, u64)>::empty());
    }

    /// Refreshes the counters and reports, for every interface, its totals
    /// and their increase since the previous collection; the new counters
    /// become the baseline of the next one. The set of interfaces stays the
    /// one listed when the collector was made.
    pub fn collect_sync(&mut self) -> (r: Result<Vec<NetworkMetrics>, NetworkCollectorError>)
        ensures
            final(self).totals().dom() == old(self).totals().dom(),
            lists_totals(final(self).previous(), final(self).totals()),
            r matches Ok(m) && m@.map_values(|x: NetworkMetrics| x@) == metrics_spec(old(self).previous(), final(self).previous()),
    {
        networks_refresh(&mut self.networks);
        let readings = network_readings(&self.networks);
        let metrics = compute_metrics(&self.previous, &readings);
        let mut next: Vec<(String, u64, u64)> = Vec::new();
        for i in 0..readings.len()
            invariant
                readings_view(next@) == readings_view(readings@).take(i as int),
        {
            let ghost before = readings_view(next@);
            next.push(copy_reading(&readings[i]));
            assert(readings_view(next@) =~= before.push(reading_view(readings@[i as int])));
            assert(readings_view(readings@).take(i + 1) =~= readings_view(readings@).take(i as int).push(reading_view(readings@[i as int])));
        }
        assert(readings_view(readings@).take(readings@.len() as int) =~= readings_view(readings@));
        self.previous = next;
        let ghost nv = readings_view(self.previous@);
        assert forall|i: int, j: int| 0 <= i < j < nv.len() implies #[trigger] nv[i].0 != #[trigger] nv[j].0 by {
            assert(nv[i] == reading_view(readings@[i]));
            assert(nv[j] == reading_view(readings@[j]));
        }
        assert forall|i: int| 0 <= i < nv.len() implies #[trigger] network_totals(self.networks).contains_key(nv[i].0)
            && network_totals(self.networks)[nv[i].0] == (nv[i].1, nv[i].2) by {
            assert(nv[i] == reading_view(readings@[i]));
        }
        Ok(metrics)
    }
}

impl MetricCollector for NetworkCollector {
    type Output = Vec<NetworkMetrics>;
    type Error = NetworkCollectorError;

    fn collect(&mut self) -> (r: Result<Vec<NetworkMetrics>, NetworkCollectorError>)
        ensures
            final(self).totals().dom() == old(self).totals().dom(),
            lists_totals(final(self).previous(), final(self).totals()),
            r matches Ok(m) && m@.map_values(|x: NetworkMetrics| x@) == metrics_spec(old(self).previous(), final(self).previous()),
    {
        self.collect_sync()
    }
}

} // verus!
