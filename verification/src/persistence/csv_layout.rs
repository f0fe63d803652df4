//! CSV flattening: each snapshot is one row. Fixed columns come first —
//! `timestamp, cpu_global, ram_total, ram_used, ram_percent` — then two
//! columns per disk (`disk_mount_<i>, disk_percent_<i>`) and three per network
//! interface (`net_interface_<i>, net_tx_delta_<i>, net_rx_delta_<i>`).
//! The number of disks and interfaces is fixed by the first snapshot of a
//! file (or read back from the header of an existing file); later snapshots
//! with more are cut to it, those with fewer are padded with empty values.

use vstd::prelude::*;

use crate::models::{NetworkMetrics, NetworkMetricsView};
use crate::text::{chars_to_string, decimal, has_prefix, push_decimal, push_str, starts_with_str, str_chars};
use vstd::utf8::encode_utf8;

verus! {

/// One disk as a CSV row reads it.
pub struct CsvDisk {
    pub mount_point: String,
    /// Usage in percent, rendered with two decimals.
    pub usage_percent: String,
}

/// A snapshot as a CSV row reads it; its floating-point gauges are rendered
/// with two decimals.
pub struct CsvSnapshot {
    pub timestamp: String,
    pub cpu_global: String,
    pub ram_total: u64,
    pub ram_used: u64,
    pub ram_percent: String,
    pub disks: Vec<CsvDisk>,
    pub network: Vec<NetworkMetrics>,
}

pub struct CsvSnapshotView {
    pub timestamp: Seq<char>,
    pub cpu_global: Seq<char>,
    pub ram_total: u64,
    pub ram_used: u64,
    pub ram_percent: Seq<char>,
    pub disks: Seq<(Seq<char>, Seq<char>)>,
    pub network: Seq<NetworkMetricsView>,
}

impl View for CsvSnapshot {
    type V = CsvSnapshotView;

    open spec fn view(&self) -> CsvSnapshotView {
        CsvSnapshotView {
            timestamp: self.timestamp@,
            cpu_global: self.cpu_global@,
            ram_total: self.ram_total,
            ram_used: self.ram_used,
            ram_percent: self.ram_percent@,
            disks: self.disks@.map_values(|d: CsvDisk| (d.mount_point@, d.usage_percent@)),
            network: self.network@.map_values(|n: NetworkMetrics| n@),
        }
    }
}

pub open spec fn fixed_header() -> Seq<Seq<char>> {
    seq!["timestamp"@, "cpu_global"@, "ram_total"@, "ram_used"@, "ram_percent"@]
}

pub open spec fn disk_header(n: nat) -> Seq<Seq<char>>
    decreases n,
{
    if n == 0 {
        seq![]
    } else {
        disk_header((n - 1) as nat) + seq![
            "disk_mount_"@ + decimal((n - 1) as nat),
            "disk_percent_"@ + decimal((n - 1) as nat),
        ]
    }
}

pub open spec fn net_header(n: nat) -> Seq<Seq<char>>
    decreases n,
{
    if n == 0 {
        seq![]
    } else {
        net_header((n - 1) as nat) + seq![
            "net_interface_"@ + decimal((n - 1) as nat),
            "net_tx_delta_"@ + decimal((n - 1) as nat),
            "net_rx_delta_"@ + decimal((n - 1) as nat),
        ]
    }
}

/// The header of a file laid out for `disks` disks and `nets` interfaces.
pub open spec fn header_spec(disks: nat, nets: nat) -> Seq<Seq<char>> {
    fixed_header() + disk_header(disks) + net_header(nets)
}

pub open spec fn disk_fields(d: Seq<(Seq<char>, Seq<char>)>, n: nat) -> Seq<Seq<char>>
    decreases n,
{
    if n == 0 {
        seq![]
    } else {
        let i = (n - 1) as int;
        disk_fields(d, (n - 1) as nat) + if i < d.len() {
            seq![d[i].0, d[i].1]
        } else {
            seq![Seq::<char>::empty(), Seq::<char>::empty()]
        }
    }
}

pub open spec fn net_fields(d: Seq<NetworkMetricsView>, n: nat) -> Seq<Seq<char>>
    decreases n,
{
    if n == 0 {
        seq![]
    } else {
        let i = (n - 1) as int;
        net_fields(d, (n - 1) as nat) + if i < d.len() {
            seq![d[i].interface, decimal(d[i].tx_delta as nat), decimal(d[i].rx_delta as nat)]
        } else {
            seq![Seq::<char>::empty(), Seq::<char>::empty(), Seq::<char>::empty()]
        }
    }
}

/// The row of a snapshot in a file laid out for `disks` disks and `nets`
/// interfaces.
pub open spec fn row_spec(s: CsvSnapshotView, disks: nat, nets: nat) -> Seq<Seq<char>> {
    seq![s.timestamp, s.cpu_global, decimal(s.ram_total as nat), decimal(s.ram_used as nat), s.ram_percent]
        + disk_fields(s.disks, disks) + net_fields(s.network, nets)
}

proof fn lemma_widths(s: CsvSnapshotView, disks: nat, nets: nat)
    ensures
        disk_header(disks).len() == 2 * disks,
        net_header(nets).len() == 3 * nets,
        disk_fields(s.disks, disks).len() == 2 * disks,
        net_fields(s.network, nets).len() == 3 * nets,
    decreases disks + nets,
{
    if disks > 0 {
        lemma_widths(s, (disks - 1) as nat, nets);
    }
    if nets > 0 {
        lemma_widths(s, disks, (nets - 1) as nat);
    }
}

/// Row-width law: in a file laid out for a number of disks and interfaces,
/// every snapshot's row has exactly as many fields as the header, however
/// many disks and interfaces the snapshot itself has.
pub proof fn lemma_row_matches_header(s: CsvSnapshotView, disks: nat, nets: nat)
    ensures
        row_spec(s, disks, nets).len() == header_spec(disks, nets).len(),
        header_spec(disks, nets).len() == 5 + 2 * disks + 3 * nets,
{
    lemma_widths(s, disks, nets);
}

/// The number of fields that start with `prefix`.
pub open spec fn count_prefixed(fields: Seq<Seq<char>>, prefix: Seq<char>) -> nat
    decreases fields.len(),
{
    if fields.len() == 0 {
        0
    } else {
        count_prefixed(fields.drop_last(), prefix) + if has_prefix(fields.last(), prefix) { 1nat } else { 0nat }
    }
}

/// Where a writer stands with the active CSV file.
pub struct CsvLayout {
    pub header_written: bool,
    pub num_disks: usize,
    pub num_interfaces: usize,
}

fn field(text: &str) -> (s: String)
    ensures
        s@ == text@,
{
    chars_to_string(str_chars(text).as_slice())
}

fn indexed(prefix: &str, i: usize) -> (s: String)
    ensures
        s@ == prefix@ + decimal(i as nat),
{
    let mut s = String::new();
    push_str(&mut s, prefix);
    push_decimal(&mut s, i as u64);
    s
}

fn decimal_string(n: u64) -> (s: String)
    ensures
        s@ == decimal(n as nat),
{
    let mut s = String::new();
    push_decimal(&mut s, n);
    s
}

fn copy_string(t: &String) -> (s: String)
    ensures
        s@ == t@,
{
    chars_to_string(str_chars(t.as_str()).as_slice())
}

pub open spec fn field_views(v: Seq<String>) -> Seq<Seq<char>> {
    v.map_values(|s: String| s@)
}

impl CsvLayout {
    /// A writer that has not written or read a header yet.
    pub fn new() -> (l: CsvLayout)
        ensures
            !l.header_written,
            l.num_disks == 0,
            l.num_interfaces == 0,
    {
        CsvLayout { header_written: false, num_disks: 0, num_interfaces: 0 }
    }

    /// The header for the current layout.
    pub fn build_header_record(&self) -> (cols: Vec<String>)
        ensures
            field_views(cols@) == header_spec(self.num_disks as nat, self.num_interfaces as nat),
    {
        let mut cols: Vec<String> = Vec::new();
        cols.push(field("timestamp"));
        cols.push(field("cpu_global"));
        cols.push(field("ram_total"));
        cols.push(field("ram_used"));
        cols.push(field("ram_percent"));
        assert(field_views(cols@) =~= fixed_header());
        for i in 0..self.num_disks
            invariant
                field_views(cols@) == fixed_header() + disk_header(i as nat),
        {
            let ghost before = field_views(cols@);
            cols.push(indexed("disk_mount_", i));
            cols.push(indexed("disk_percent_", i));
            assert(field_views(cols@) =~= before + seq!["disk_mount_"@ + decimal(i as nat), "disk_percent_"@ + decimal(i as nat)]);
            assert(disk_header((i + 1) as nat) == disk_header(i as nat) + seq!["disk_mount_"@ + decimal(i as nat), "disk_percent_"@ + decimal(i as nat)]);
        }
        for i in 0..self.num_interfaces
            invariant
                field_views(cols@) == fixed_header() + disk_header(self.num_disks as nat) + net_header(i as nat),
        {
            let ghost before = field_views(cols@);
            cols.push(indexed("net_interface_", i));
            cols.push(indexed("net_tx_delta_", i));
            cols.push(indexed("net_rx_delta_", i));
            assert(field_views(cols@) =~= before + seq![
                "net_interface_"@ + decimal(i as nat),
                "net_tx_delta_"@ + decimal(i as nat),
                "net_rx_delta_"@ + decimal(i as nat),
            ]);
            assert(net_header((i + 1) as nat) == net_header(i as nat) + seq![
                "net_interface_"@ + decimal(i as nat),
                "net_tx_delta_"@ + decimal(i as nat),
                "net_rx_delta_"@ + decimal(i as nat),
            ]);
        }
        cols
    }

    /// The row of `snapshot` in the current layout.
    pub fn flatten_snapshot(&self, snapshot: &CsvSnapshot) -> (fields: Vec<String>)
        ensures
            field_views(fields@) == row_spec(snapshot@, self.num_disks as nat, self.num_interfaces as nat),
    {
        let mut fields: Vec<String> = Vec::new();
        fields.push(copy_string(&snapshot.timestamp));
        fields.push(copy_string(&snapshot.cpu_global));
        fields.push(decimal_string(snapshot.ram_total));
        fields.push(decimal_string(snapshot.ram_used));
        fields.push(copy_string(&snapshot.ram_percent));
        let ghost sv = snapshot@;
        assert(field_views(fields@) =~= seq![sv.timestamp, sv.cpu_global, decimal(sv.ram_total as nat), decimal(sv.ram_used as nat), sv.ram_percent]);
        for i in 0..self.num_disks
            invariant
                sv == snapshot@,
                field_views(fields@) == seq![sv.timestamp, sv.cpu_global, decimal(sv.ram_total as nat), decimal(sv.ram_used as nat), sv.ram_percent]
                    + disk_fields(sv.disks, i as nat),
        {
            let ghost before = field_views(fields@);
            if i < snapshot.disks.len() {
                fields.push(copy_string(&snapshot.disks[i].mount_point));
                fields.push(copy_string(&snapshot.disks[i].usage_percent));
                assert(field_views(fields@) =~= before + seq![sv.disks[i as int].0, sv.disks[i as int].1]);
            } else {
                fields.push(String::new());
                fields.push(String::new());
                assert(field_views(fields@) =~= before + seq![Seq::<char>::empty(), Seq::<char>::empty()]);
            }
        }
        for i in 0..self.num_interfaces
            invariant
                sv == snapshot@,
                field_views(fields@) == seq![sv.timestamp, sv.cpu_global, decimal(sv.ram_total as nat), decimal(sv.ram_used as nat), sv.ram_percent]
                    + disk_fields(sv.disks, self.num_disks as nat) + net_fields(sv.network, i as nat),
        {
            let ghost before = field_views(fields@);
            if i < snapshot.network.len() {
                fields.push(copy_string(&snapshot.network[i].interface));
                fields.push(decimal_string(snapshot.network[i].tx_delta));
                fields.push(decimal_string(snapshot.network[i].rx_delta));
                assert(field_views(fields@) =~= before + seq![
                    sv.network[i as int].interface,
                    decimal(sv.network[i as int].tx_delta as nat),
                    decimal(sv.network[i as int].rx_delta as nat),
                ]);
            } else {
                fields.push(String::new());
                fields.push(String::new());
                fields.push(String::new());
                assert(field_views(fields@) =~= before + seq![Seq::<char>::empty(), Seq::<char>::empty(), Seq::<char>::empty()]);
            }
        }
        fields
    }
}

pub open spec fn records_view(records: Seq<Vec<String>>) -> Seq<Seq<Seq<char>>> {
    records.map_values(|r: Vec<String>| field_views(r@))
}

/// The layout a flush writes with: the current one once the header is
/// written, else the one of the first snapshot flushed.
pub open spec fn flush_layout(l: CsvLayout, first: CsvSnapshotView) -> (nat, nat) {
    if l.header_written {
        (l.num_disks as nat, l.num_interfaces as nat)
    } else {
        (first.disks.len(), first.network.len())
    }
}

pub open spec fn rows_spec(rows: Seq<CsvSnapshotView>, disks: nat, nets: nat) -> Seq<Seq<Seq<char>>> {
    rows.map_values(|r: CsvSnapshotView| row_spec(r, disks, nets))
}

impl CsvLayout {
    /// Takes the layout from the header of an existing file: one disk per
    /// `disk_mount_` column and one interface per `net_interface_` column.
    pub fn adopt_header(&mut self, header: &Vec<String>)
        ensures
            final(self).header_written,
            final(self).num_disks == count_prefixed(field_views(header@), "disk_mount_"@),
            final(self).num_interfaces == count_prefixed(field_views(header@), "net_interface_"@),
    {
        let mut disks: usize = 0;
        let mut nets: usize = 0;
        let ghost all = field_views(header@);
        for i in 0..header.len()
            invariant
                all == field_views(header@),
                disks == count_prefixed(all.take(i as int), "disk_mount_"@),
                nets == count_prefixed(all.take(i as int), "net_interface_"@),
                disks <= i,
                nets <= i,
        {
            let v = str_chars(header[i].as_str());
            assert(all.take(i + 1).drop_last() =~= all.take(i as int));
            assert(all.take(i + 1).last() == v@);
            if starts_with_str(v.as_slice(), "disk_mount_") {
                disks = disks + 1;
            }
            if starts_with_str(v.as_slice(), "net_interface_") {
                nets = nets + 1;
            }
        }
        assert(all.take(header@.len() as int) =~= all);
        self.header_written = true;
        self.num_disks = disks;
        self.num_interfaces = nets;
    }

    /// Takes the layout from the content of the existing active file, when
    /// the writer has no header yet: an empty file or one without a record
    /// leaves the layout as it is; a first record that cannot be read is an
    /// error, with the reader's message; else that record is the header.
    pub fn load_existing_layout(&mut self, content: &str) -> (r: Result<(), String>)
        ensures
            if old(self).header_written || content@.len() == 0 {
                r is Ok && *final(self) == *old(self)
            } else {
                match csv_first_record(content@) {
                    None => r is Ok && *final(self) == *old(self),
                    Some(Err(e)) => r matches Err(m) && m@ == e && *final(self) == *old(self),
                    Some(Ok(header)) => {
                        &&& r is Ok
                        &&& final(self).header_written
                        &&& final(self).num_disks == count_prefixed(header, "disk_mount_"@)
                        &&& final(self).num_interfaces == count_prefixed(header, "net_interface_"@)
                    },
                }
            },
            !old(self).header_written && content@.len() > 0 ==> forall|disks: nat, nets: nat, rows: Seq<Seq<Seq<char>>>|
                #![trigger csv_encode(seq![header_spec(disks, nets)] + rows)]
                same_width(seq![header_spec(disks, nets)] + rows)
                    && encode_utf8(content@) == csv_encode(seq![header_spec(disks, nets)] + rows)
                    ==> (r is Ok && final(self).header_written && final(self).num_disks == disks
                        && final(self).num_interfaces == nets),
    {
        if self.header_written || content.unicode_len() == 0 {
            return Ok(());
        }
        let result = read_first_record(content);
        proof {
            reveal_strlit("timestamp");
            assert forall|disks: nat, nets: nat, rows: Seq<Seq<Seq<char>>>|
                #![trigger csv_encode(seq![header_spec(disks, nets)] + rows)]
                same_width(seq![header_spec(disks, nets)] + rows)
                    && encode_utf8(content@) == csv_encode(seq![header_spec(disks, nets)] + rows)
                implies (result matches Some(Ok(fields)) && field_views(fields@) == header_spec(disks, nets)
                    && count_prefixed(header_spec(disks, nets), "disk_mount_"@) == disks
                    && count_prefixed(header_spec(disks, nets), "net_interface_"@) == nets) by {
                let records = seq![header_spec(disks, nets)] + rows;
                assert(records[0] == header_spec(disks, nets));
                lemma_row_matches_header(CsvSnapshotView {
                    timestamp: Seq::empty(),
                    cpu_global: Seq::empty(),
                    ram_total: 0,
                    ram_used: 0,
                    ram_percent: Seq::empty(),
                    disks: Seq::empty(),
                    network: Seq::empty(),
                }, disks, nets);
                assert(header_spec(disks, nets)[0] == "timestamp"@);
                assert("timestamp"@[0] == 't');
                lemma_header_round_trip(disks, nets);
            }
        }
        match result {
            None => Ok(()),
            Some(Err(e)) => Err(e),
            Some(Ok(header)) => {
                self.adopt_header(&header);
                Ok(())
            },
        }
    }

    /// The records one flush appends: the header first when the file has
    /// none yet (fixing the layout from the first snapshot), then one row per
    /// snapshot.
    pub fn prepare_records(&mut self, rows: &Vec<CsvSnapshot>) -> (records: Vec<Vec<String>>)
        requires
            rows@.len() > 0,
        ensures
            ({
                let (disks, nets) = flush_layout(*old(self), rows@[0]@);
                let views = rows@.map_values(|r: CsvSnapshot| r@);
                &&& final(self).header_written
                &&& final(self).num_disks == disks
                &&& final(self).num_interfaces == nets
                &&& records_view(records@) == (if old(self).header_written {
                    Seq::<Seq<Seq<char>>>::empty()
                } else {
                    seq![header_spec(disks, nets)]
                }) + rows_spec(views, disks, nets)
            }),
    {
        let mut records: Vec<Vec<String>> = Vec::new();
        let ghost had_header = self.header_written;
        if !self.header_written {
            self.num_disks = rows[0].disks.len();
            self.num_interfaces = rows[0].network.len();
            records.push(self.build_header_record());
            self.header_written = true;
        }
        let ghost disks = self.num_disks as nat;
        let ghost nets = self.num_interfaces as nat;
        let ghost views = rows@.map_values(|r: CsvSnapshot| r@);
        let ghost head: Seq<Seq<Seq<char>>> = if had_header {
            Seq::<Seq<Seq<char>>>::empty()
        } else {
            seq![header_spec(disks, nets)]
        };
        assert(records_view(records@) =~= head);
        for i in 0..rows.len()
            invariant
                disks == self.num_disks,
                nets == self.num_interfaces,
                views == rows@.map_values(|r: CsvSnapshot| r@),
                records_view(records@) == head + rows_spec(views.take(i as int), disks, nets),
        {
            let row = self.flatten_snapshot(&rows[i]);
            let ghost before = records_view(records@);
            records.push(row);
            assert(records_view(records@) =~= before.push(row_spec(views[i as int], disks, nets)));
            assert(rows_spec(views.take(i + 1), disks, nets) =~= rows_spec(views.take(i as int), disks, nets).push(row_spec(views[i as int], disks, nets)));
        }
        assert(views.take(rows@.len() as int) =~= views);
        records
    }

    /// After a rotation the new active file has no header yet.
    pub fn reset(&mut self)
        ensures
            !final(self).header_written,
            final(self).num_disks == 0,
            final(self).num_interfaces == 0,
    {
        self.header_written = false;
        self.num_disks = 0;
        self.num_interfaces = 0;
    }
}

proof fn lemma_count_concat(a: Seq<Seq<char>>, b: Seq<Seq<char>>, p: Seq<char>)
    ensures
        count_prefixed(a + b, p) == count_prefixed(a, p) + count_prefixed(b, p),
    decreases b.len(),
{
    if b.len() == 0 {
        assert(a + b =~= a);
    } else {
        lemma_count_concat(a, b.drop_last(), p);
        assert((a + b).drop_last() =~= a + b.drop_last());
    }
}

proof fn lemma_count_pair(x: Seq<char>, y: Seq<char>, p: Seq<char>)
    ensures
        count_prefixed(seq![x, y], p) == (if has_prefix(x, p) { 1nat } else { 0nat }) + (if has_prefix(y, p) { 1nat } else { 0nat }),
{
    assert(seq![x, y].drop_last() =~= seq![x]);
    assert(seq![x].drop_last() =~= Seq::<Seq<char>>::empty());
    assert(count_prefixed(Seq::<Seq<char>>::empty(), p) == 0);
    assert(count_prefixed(seq![x], p) == (if has_prefix(x, p) { 1nat } else { 0nat }));
}

proof fn lemma_count_triple(x: Seq<char>, y: Seq<char>, z: Seq<char>, p: Seq<char>)
    ensures
        count_prefixed(seq![x, y, z], p) == (if has_prefix(x, p) { 1nat } else { 0nat })
            + (if has_prefix(y, p) { 1nat } else { 0nat }) + (if has_prefix(z, p) { 1nat } else { 0nat }),
{
    assert(seq![x, y, z].drop_last() =~= seq![x, y]);
    lemma_count_pair(x, y, p);
}

/// `a + rest` has prefix `p` when `a` is `p`.
proof fn lemma_prefix_of_concat(a: Seq<char>, rest: Seq<char>)
    ensures
        has_prefix(a + rest, a),
{
    assert((a + rest).take(a.len() as int) =~= a);
}

/// `a + rest` lacks prefix `p` when `a` and `p` differ at a position both have.
proof fn lemma_no_prefix(a: Seq<char>, rest: Seq<char>, p: Seq<char>, k: int)
    requires
        0 <= k < a.len(),
        k < p.len(),
        a[k] != p[k],
    ensures
        !has_prefix(a + rest, p),
{
    if has_prefix(a + rest, p) {
        assert((a + rest).take(p.len() as int)[k] == p[k]);
    }
}

proof fn lemma_disk_header_counts(n: nat)
    ensures
        count_prefixed(disk_header(n), "disk_mount_"@) == n,
        count_prefixed(disk_header(n), "net_interface_"@) == 0,
    decreases n,
{
    reveal_strlit("disk_mount_");
    reveal_strlit("disk_percent_");
    reveal_strlit("net_interface_");
    if n > 0 {
        let i = (n - 1) as nat;
        lemma_disk_header_counts(i);
        let m = "disk_mount_"@ + decimal(i);
        let q = "disk_percent_"@ + decimal(i);
        lemma_count_concat(disk_header(i), seq![m, q], "disk_mount_"@);
        lemma_count_concat(disk_header(i), seq![m, q], "net_interface_"@);
        lemma_count_pair(m, q, "disk_mount_"@);
        lemma_count_pair(m, q, "net_interface_"@);
        lemma_prefix_of_concat("disk_mount_"@, decimal(i));
        lemma_no_prefix("disk_percent_"@, decimal(i), "disk_mount_"@, 5);
        lemma_no_prefix("disk_mount_"@, decimal(i), "net_interface_"@, 0);
        lemma_no_prefix("disk_percent_"@, decimal(i), "net_interface_"@, 0);
    }
}

proof fn lemma_net_header_counts(n: nat)
    ensures
        count_prefixed(net_header(n), "disk_mount_"@) == 0,
        count_prefixed(net_header(n), "net_interface_"@) == n,
    decreases n,
{
    reveal_strlit("disk_mount_");
    reveal_strlit("net_interface_");
    reveal_strlit("net_tx_delta_");
    reveal_strlit("net_rx_delta_");
    if n > 0 {
        let i = (n - 1) as nat;
        lemma_net_header_counts(i);
        let a = "net_interface_"@ + decimal(i);
        let b = "net_tx_delta_"@ + decimal(i);
        let c = "net_rx_delta_"@ + decimal(i);
        lemma_count_concat(net_header(i), seq![a, b, c], "disk_mount_"@);
        lemma_count_concat(net_header(i), seq![a, b, c], "net_interface_"@);
        lemma_count_triple(a, b, c, "disk_mount_"@);
        lemma_count_triple(a, b, c, "net_interface_"@);
        lemma_prefix_of_concat("net_interface_"@, decimal(i));
        lemma_no_prefix("net_tx_delta_"@, decimal(i), "net_interface_"@, 4);
        lemma_no_prefix("net_rx_delta_"@, decimal(i), "net_interface_"@, 4);
        lemma_no_prefix("net_interface_"@, decimal(i), "disk_mount_"@, 0);
        lemma_no_prefix("net_tx_delta_"@, decimal(i), "disk_mount_"@, 0);
        lemma_no_prefix("net_rx_delta_"@, decimal(i), "disk_mount_"@, 0);
    }
}

proof fn lemma_fixed_header_counts()
    ensures
        count_prefixed(fixed_header(), "disk_mount_"@) == 0,
        count_prefixed(fixed_header(), "net_interface_"@) == 0,
{
    reveal_strlit("disk_mount_");
    reveal_strlit("net_interface_");
    reveal_strlit("timestamp");
    reveal_strlit("cpu_global");
    reveal_strlit("ram_total");
    reveal_strlit("ram_used");
    reveal_strlit("ram_percent");
    let f = fixed_header();
    assert(f =~= seq!["timestamp"@, "cpu_global"@] + seq!["ram_total"@, "ram_used"@, "ram_percent"@]);
    let e = Seq::<char>::empty();
    assert("timestamp"@ + e =~= "timestamp"@);
    assert("cpu_global"@ + e =~= "cpu_global"@);
    assert("ram_total"@ + e =~= "ram_total"@);
    assert("ram_used"@ + e =~= "ram_used"@);
    assert("ram_percent"@ + e =~= "ram_percent"@);
    lemma_no_prefix("timestamp"@, e, "disk_mount_"@, 0);
    lemma_no_prefix("cpu_global"@, e, "disk_mount_"@, 0);
    lemma_no_prefix("ram_total"@, e, "disk_mount_"@, 0);
    lemma_no_prefix("ram_used"@, e, "disk_mount_"@, 0);
    lemma_no_prefix("ram_percent"@, e, "disk_mount_"@, 0);
    lemma_no_prefix("timestamp"@, e, "net_interface_"@, 0);
    lemma_no_prefix("cpu_global"@, e, "net_interface_"@, 0);
    lemma_no_prefix("ram_total"@, e, "net_interface_"@, 0);
    lemma_no_prefix("ram_used"@, e, "net_interface_"@, 0);
    lemma_no_prefix("ram_percent"@, e, "net_interface_"@, 0);
    lemma_count_concat(seq!["timestamp"@, "cpu_global"@], seq!["ram_total"@, "ram_used"@, "ram_percent"@], "disk_mount_"@);
    lemma_count_concat(seq!["timestamp"@, "cpu_global"@], seq!["ram_total"@, "ram_used"@, "ram_percent"@], "net_interface_"@);
    lemma_count_pair("timestamp"@, "cpu_global"@, "disk_mount_"@);
    lemma_count_pair("timestamp"@, "cpu_global"@, "net_interface_"@);
    lemma_count_triple("ram_total"@, "ram_used"@, "ram_percent"@, "disk_mount_"@);
    lemma_count_triple("ram_total"@, "ram_used"@, "ram_percent"@, "net_interface_"@);
}

/// Layout round trip: reading back the header written for a layout gives
/// that layout, so a writer that reopens an existing file appends rows of
/// the same width and writes no second header.
pub proof fn lemma_header_round_trip(disks: nat, nets: nat)
    ensures
        count_prefixed(header_spec(disks, nets), "disk_mount_"@) == disks,
        count_prefixed(header_spec(disks, nets), "net_interface_"@) == nets,
{
    lemma_fixed_header_counts();
    lemma_disk_header_counts(disks);
    lemma_net_header_counts(nets);
    lemma_count_concat(fixed_header() + disk_header(disks), net_header(nets), "disk_mount_"@);
    lemma_count_concat(fixed_header() + disk_header(disks), net_header(nets), "net_interface_"@);
    lemma_count_concat(fixed_header(), disk_header(disks), "disk_mount_"@);
    lemma_count_concat(fixed_header(), disk_header(disks), "net_interface_"@);
}

// ---------------------------------------------------------------------------
// The csv crate
// ---------------------------------------------------------------------------

/// An in-memory CSV encoder: a `csv::Writer` over a `Vec<u8>`, which encodes
/// records (quoting fields as RFC 4180 needs). Only the wrappers below touch
/// it; what it holds is named by [`csv_written`].
#[verifier::external_body]
pub struct CsvEncoder {
    inner: csv::Writer<Vec<u8>>,
}

/// The records written so far into the encoder.
pub uninterp spec fn csv_written(w: CsvEncoder) -> Seq<Seq<Seq<char>>>;

/// The bytes `csv::Writer` with its default settings produces for records.
pub uninterp spec fn csv_encode(records: Seq<Seq<Seq<char>>>) -> Seq<u8>;

/// `csv::Writer::from_writer(Vec::new())`: a writer with nothing written.
#[verifier::external_body]
fn csv_writer_new() -> (w: CsvEncoder)
    ensures
        csv_written(w) == Seq::<Seq<Seq<char>>>::empty(),
{
    CsvEncoder { inner: csv::Writer::from_writer(Vec::new()) }
}

/// `csv::Writer::write_record`. A writer that is not flexible (the default)
/// takes the field count of its first record and refuses, with an
/// `UnequalLengths` error, a later record of another count; writing into a
/// `Vec<u8>` fails in no other way. On success the writer is handed back
/// with the record appended to what it holds; a refused record leaves part
/// of itself in the writer's buffer, so on error the writer is dropped.
#[verifier::external_body]
fn csv_write_record(w: CsvEncoder, record: &Vec<String>) -> (r: Result<CsvEncoder, String>)
    ensures
        r is Ok <==> (csv_written(w).len() == 0 || record@.len() == csv_written(w)[0].len()),
        r matches Ok(next) ==> csv_written(next) == csv_written(w).push(field_views(record@)),
{
    let mut w = w;
    match w.inner.write_record(record) {
        Ok(()) => Ok(w),
        Err(e) => Err(e.to_string()),
    }
}

/// `csv::Writer::into_inner`: flushes and hands back the encoded bytes of the
/// records written. Its only failure is one of the underlying writer, and
/// writing into a `Vec<u8>` does not fail, so it succeeds.
#[verifier::external_body]
fn csv_into_bytes(w: CsvEncoder) -> (r: Result<Vec<u8>, String>)
    ensures
        r is Ok,
        r matches Ok(b) ==> b@ == csv_encode(csv_written(w)),
{
    w.inner.into_inner().map_err(|e| e.to_string())
}

/// Whether all records have as many fields as the first.
pub open spec fn uniform_width(records: Seq<Vec<String>>) -> bool {
    forall|i: int| 0 <= i < records.len() ==> #[trigger] records[i]@.len() == records[0]@.len()
}

/// Encodes records as CSV text. It succeeds exactly when all records have the
/// same number of fields, and then the bytes are the CSV encoding of the
/// records in order; otherwise the encoder's error (records of unequal
/// length) is passed on as its text.
pub fn serialize_records(records: &Vec<Vec<String>>) -> (r: Result<Vec<u8>, String>)
    ensures
        r is Ok <==> uniform_width(records@),
        r matches Ok(b) ==> b@ == csv_encode(records_view(records@)),
{
    let mut w = csv_writer_new();
    for i in 0..records.len()
        invariant
            csv_written(w) == records_view(records@.take(i as int)),
            uniform_width(records@.take(i as int)),
    {
        assert(i > 0 ==> csv_written(w)[0] == field_views(records@[0]@));
        assert(i > 0 ==> records@.take(i as int)[0] == records@[0]);
        match csv_write_record(w, &records[i]) {
            Ok(next) => {
                w = next;
            },
            Err(e) => {
                assert(!uniform_width(records@)) by {
                    assert(records@[i as int]@.len() != records@[0]@.len());
                }
                return Err(e);
            },
        }
        assert(records_view(records@.take(i + 1)) =~= records_view(records@.take(i as int)).push(field_views(records@[i as int]@)));
        assert forall|j: int| 0 <= j < i + 1 implies #[trigger] records@.take(i + 1)[j]@.len() == records@.take(i + 1)[0]@.len() by {
            if j < i {
                assert(records@.take(i as int)[j] == records@[j]);
            }
        }
    }
    assert(records@.take(records@.len() as int) =~= records@);
    csv_into_bytes(w)
}

/// What a `csv::Reader` without headers reads first from a text: `None`
/// when it holds no record, else the first record's fields or the text of
/// the reader's error.
pub uninterp spec fn csv_first_record(content: Seq<char>) -> Option<Result<Seq<Seq<char>>, Seq<char>>>;

/// Whether a record, written first by the encoder, is read back as the
/// same fields: it has a field; it is not one empty field (written as an
/// empty line, which the reader skips); and it does not start with a UTF-8
/// byte-order mark (which the reader strips from the start of its input).
pub open spec fn reads_back_first(record: Seq<Seq<char>>) -> bool {
    &&& record.len() > 0
    &&& !(record.len() == 1 && record[0].len() == 0)
    &&& !(record[0].len() > 0 && record[0][0] == '\u{feff}')
}

/// The fields of a successfully read record.
pub open spec fn read_fields(r: Option<Result<Vec<String>, String>>) -> Option<Seq<Seq<char>>> {
    match r {
        Some(Ok(fields)) => Some(field_views(fields@)),
        _ => None,
    }
}

/// Whether all records have as many fields as the first.
pub open spec fn same_width(records: Seq<Seq<Seq<char>>>) -> bool {
    forall|i: int| 0 <= i < records.len() ==> #[trigger] records[i].len() == records[0].len()
}

/// Reads the first record of a CSV text with
/// `csv::ReaderBuilder::new().has_headers(false)`. The contract claims that
/// the outcome is the one `csv_first_record` names for the text, and that a
/// text whose UTF-8 bytes are what `csv::Writer` (default settings) wrote for
/// records of one width reads back the first of them field for field, when
/// that record is one that reads back (see [`reads_back_first`]): the writer
/// quotes every field holding a comma, a quote or a line break and doubles
/// its quotes, and the reader undoes exactly that.
#[verifier::external_body]
fn read_first_record(content: &str) -> (r: Option<Result<Vec<String>, String>>)
    ensures
        csv_first_record(content@) == match r {
            None => None,
            Some(Ok(fields)) => Some(Ok(field_views(fields@))),
            Some(Err(e)) => Some(Err::<Seq<Seq<char>>, Seq<char>>(e@)),
        },
        forall|records: Seq<Seq<Seq<char>>>|
            records.len() > 0 && reads_back_first(records[0]) && same_width(records)
                && encode_utf8(content@) == #[trigger] csv_encode(records)
                ==> read_fields(r) == Some(records[0]),
{
    let mut reader = csv::ReaderBuilder::new().has_headers(false).from_reader(content.as_bytes());
    match reader.records().next() {
        None => None,
        Some(Ok(record)) => Some(Ok(record.iter().map(|f| f.to_string()).collect())),
        Some(Err(e)) => Some(Err(e.to_string())),
    }
}

} // verus!
