//! The state of a log writer across flushes: the buffered snapshots, when the
//! active file was started, its rotation policy and, for CSV, its column
//! layout. A flush goes `begin_flush`, then (for CSV) `encode_pending`, the
//! append and the rotation check, then `end_flush`.

use vstd::prelude::*;

use crate::persistence::buffer::WriteBuffer;
use crate::persistence::csv_layout::{
    count_prefixed, csv_encode, csv_first_record, field_views, flush_layout, header_spec,
    lemma_row_matches_header, records_view, row_spec, rows_spec, serialize_records,
    CsvLayout, CsvSnapshot, CsvSnapshotView,
};
use crate::persistence::rotation::RotationPolicy;
use crate::text::{decimal, lemma_decimal_starts_with_digit};

verus! {

/// A log writer's state.
pub struct LogFile<T> {
    pub buffer: WriteBuffer<T>,
    /// When the active file was started (nanoseconds from the Unix epoch).
    pub file_started_at: Option<i128>,
    pub policy: RotationPolicy,
}

impl<T> LogFile<T> {
    /// A writer with an empty buffer of `capacity` snapshots; `file_started_at`
    /// is what the existing active file's metadata says, if it exists.
    pub fn new(capacity: usize, policy: RotationPolicy, file_started_at: Option<i128>) -> (f: Self)
        ensures
            f.buffer.items() == Seq::<T>::empty(),
            f.buffer.capacity() == capacity,
            f.file_started_at == file_started_at,
            f.policy == policy,
    {
        LogFile { buffer: WriteBuffer::new(capacity), file_started_at, policy }
    }

    /// Buffers a snapshot; returns whether the buffer is full and due to be
    /// flushed.
    pub fn write(&mut self, item: T) -> (flush_due: bool)
        ensures
            final(self).buffer.items() == old(self).buffer.items().push(item),
            final(self).buffer.capacity() == old(self).buffer.capacity(),
            flush_due == (final(self).buffer.items().len() >= final(self).buffer.capacity()),
            final(self).file_started_at == old(self).file_started_at,
            final(self).policy == old(self).policy,
    {
        self.buffer.push(item)
    }

    /// Starts a flush at `now`: returns whether anything is buffered. A file
    /// first written by this flush is dated `now`.
    pub fn begin_flush(&mut self, now: i128) -> (pending: bool)
        ensures
            pending == (old(self).buffer.items().len() > 0),
            final(self).buffer == old(self).buffer,
            final(self).policy == old(self).policy,
            final(self).file_started_at == if pending && old(self).file_started_at is None {
                Some(now)
            } else {
                old(self).file_started_at
            },
    {
        let pending = !self.buffer.is_empty();
        if pending && self.file_started_at.is_none() {
            self.file_started_at = Some(now);
        }
        pending
    }

    /// Ends a flush: the buffered snapshots are written, and when the file
    /// rotated, its empty successor is dated `now`.
    pub fn end_flush(&mut self, rotated: bool, now: i128)
        ensures
            final(self).buffer.items() == Seq::<T>::empty(),
            final(self).buffer.capacity() == old(self).buffer.capacity(),
            final(self).policy == old(self).policy,
            final(self).file_started_at == if rotated { Some(now) } else { old(self).file_started_at },
    {
        self.buffer.clear();
        if rotated {
            self.file_started_at = Some(now);
        }
    }
}

/// The layout after taking over the existing active file's content: kept
/// when a header is already written or the file is empty or holds no record;
/// the reader's message when its first record cannot be read; else the
/// layout that first record describes.
pub open spec fn layout_after_load(l: CsvLayout, content: Seq<char>) -> Result<CsvLayout, Seq<char>> {
    if l.header_written || content.len() == 0 {
        Ok(l)
    } else {
        match csv_first_record(content) {
            None => Ok(l),
            Some(Err(e)) => Err(e),
            Some(Ok(header)) => Ok(CsvLayout {
                header_written: true,
                num_disks: count_prefixed(header, "disk_mount_"@) as usize,
                num_interfaces: count_prefixed(header, "net_interface_"@) as usize,
            }),
        }
    }
}

/// What one flush appends to a file with layout `l`: the header when the file
/// has none yet, then one row per snapshot.
pub open spec fn flush_records(l: CsvLayout, rows: Seq<CsvSnapshotView>) -> Seq<Seq<Seq<char>>> {
    let (disks, nets) = flush_layout(l, rows[0]);
    (if l.header_written {
        Seq::<Seq<Seq<char>>>::empty()
    } else {
        seq![header_spec(disks, nets)]
    }) + rows_spec(rows, disks, nets)
}

/// Every record one flush appends has the same width: five fixed columns,
/// two per disk and three per interface of the flush's layout.
pub proof fn lemma_flush_records_width(l: CsvLayout, rows: Seq<CsvSnapshotView>)
    requires
        rows.len() > 0,
    ensures
        ({
            let (disks, nets) = flush_layout(l, rows[0]);
            forall|i: int| 0 <= i < flush_records(l, rows).len() ==>
                #[trigger] flush_records(l, rows)[i].len() == 5 + 2 * disks + 3 * nets
        }),
{
    let (disks, nets) = flush_layout(l, rows[0]);
    let head: Seq<Seq<Seq<char>>> = if l.header_written {
        Seq::<Seq<Seq<char>>>::empty()
    } else {
        seq![header_spec(disks, nets)]
    };
    let body = rows_spec(rows, disks, nets);
    assert(flush_records(l, rows) == head + body);
    assert forall|i: int| 0 <= i < flush_records(l, rows).len() implies
        #[trigger] flush_records(l, rows)[i].len() == 5 + 2 * disks + 3 * nets by {
        lemma_row_matches_header(rows[0], disks, nets);
        if i < head.len() {
            assert(flush_records(l, rows)[i] == header_spec(disks, nets));
        } else {
            let k = i - head.len();
            assert(flush_records(l, rows)[i] == body[k]);
            assert(body[k] == row_spec(rows[k], disks, nets));
            lemma_row_matches_header(rows[k], disks, nets);
        }
    }
}

/// The layout after a flush of `rows` into a file laid out as `l`.
pub open spec fn layout_after_flush(l: CsvLayout, rows: Seq<CsvSnapshotView>) -> CsvLayout {
    let (disks, nets) = flush_layout(l, rows[0]);
    CsvLayout { header_written: true, num_disks: disks as usize, num_interfaces: nets as usize }
}

/// The records that a sequence of flushes, each of a non-empty batch of
/// snapshots, appends to one file that starts laid out as `l`.
pub open spec fn file_records(l: CsvLayout, batches: Seq<Seq<CsvSnapshotView>>) -> Seq<Seq<Seq<char>>>
    decreases batches.len(),
{
    if batches.len() == 0 {
        Seq::empty()
    } else {
        flush_records(l, batches[0]) + file_records(layout_after_flush(l, batches[0]), batches.drop_first())
    }
}

/// One-header law: over the life of one file — from a fresh layout (a new
/// or rotated-in file) or from the layout adopted from the header already in
/// it — the records the flushes append are, for a fresh file, its header
/// followed by one row per snapshot, all as wide as that header; for a file
/// with a header, only rows of its width. No row is ever a header.
pub proof fn lemma_one_header_per_file(l: CsvLayout, batches: Seq<Seq<CsvSnapshotView>>)
    requires
        forall|k: int| 0 <= k < batches.len() ==> (#[trigger] batches[k]).len() > 0,
        !l.header_written && batches.len() > 0 ==> batches[0][0].disks.len() <= usize::MAX,
        !l.header_written && batches.len() > 0 ==> batches[0][0].network.len() <= usize::MAX,
    ensures
        batches.len() > 0 && !l.header_written ==> {
            let (disks, nets) = (batches[0][0].disks.len(), batches[0][0].network.len());
            file_records(l, batches) == seq![header_spec(disks, nets)] + rows_spec(batches.flatten(), disks, nets)
        },
        l.header_written ==> file_records(l, batches)
            == rows_spec(batches.flatten(), l.num_disks as nat, l.num_interfaces as nat),
    decreases batches.len(),
{
    if batches.len() > 0 {
        let b0 = batches[0];
        let rest = batches.drop_first();
        assert forall|k: int| 0 <= k < rest.len() implies (#[trigger] rest[k]).len() > 0 by {
            assert(rest[k] == batches[k + 1]);
        }
        let l1 = layout_after_flush(l, b0);
        lemma_one_header_per_file(l1, rest);
        let (disks, nets) = flush_layout(l, b0[0]);
        assert(batches.flatten() == b0 + rest.flatten());
        assert(rows_spec(b0 + rest.flatten(), disks, nets)
            =~= rows_spec(b0, disks, nets) + rows_spec(rest.flatten(), disks, nets));
        if l.header_written {
            assert(l1 == l);
        } else {
            let h: Seq<Seq<Seq<char>>> = seq![header_spec(disks, nets)];
            assert(flush_records(l, b0) == h + rows_spec(b0, disks, nets));
            assert(file_records(l, batches) =~= h + (rows_spec(b0, disks, nets) + rows_spec(rest.flatten(), disks, nets)));
        }
    }
}

/// No data row equals a header: its third field, the total memory, is a
/// number, where a header has `ram_total`.
pub proof fn lemma_row_is_not_a_header(s: CsvSnapshotView, disks: nat, nets: nat, hd: nat, hn: nat)
    ensures
        row_spec(s, disks, nets) != header_spec(hd, hn),
{
    reveal_strlit("ram_total");
    lemma_decimal_starts_with_digit(s.ram_total as nat);
    lemma_row_matches_header(s, disks, nets);
    lemma_row_matches_header(s, hd, hn);
    assert(row_spec(s, disks, nets)[2] == decimal(s.ram_total as nat));
    assert(header_spec(hd, hn)[2] == "ram_total"@);
    assert("ram_total"@[0] == 'r');
}

/// The width of a file laid out as `l`.
pub open spec fn layout_width(l: CsvLayout) -> nat {
    5 + 2 * (l.num_disks as nat) + 3 * (l.num_interfaces as nat)
}

/// A data row of a file of width `width`: that many fields, the third (the
/// total memory) a number.
pub open spec fn is_data_row(record: Seq<Seq<char>>, width: nat) -> bool {
    &&& record.len() == width
    &&& record[2].len() > 0
    &&& '0' <= record[2][0] <= '9'
}

/// The shape of the active file as far as this writer has written it, with
/// layout `l`: nothing while no header is known; when the writer took the
/// header over from the file (`adopted`), only data rows of its width; else
/// the header it wrote, first, then only data rows of its width.
pub open spec fn one_header_file(l: CsvLayout, adopted: bool, written: Seq<Seq<Seq<char>>>) -> bool {
    if !l.header_written {
        written.len() == 0 && !adopted
    } else if adopted {
        forall|k: int| 0 <= k < written.len() ==> is_data_row(#[trigger] written[k], layout_width(l))
    } else {
        &&& written.len() > 0
        &&& written[0] == header_spec(l.num_disks as nat, l.num_interfaces as nat)
        &&& forall|k: int| 1 <= k < written.len() ==> is_data_row(#[trigger] written[k], layout_width(l))
    }
}

/// A data row is never a header: a header's third field is `ram_total`.
pub proof fn lemma_data_row_is_not_a_header(record: Seq<Seq<char>>, width: nat, disks: nat, nets: nat)
    requires
        is_data_row(record, width),
    ensures
        record != header_spec(disks, nets),
{
    reveal_strlit("ram_total");
    lemma_row_matches_header(CsvSnapshotView {
        timestamp: Seq::empty(),
        cpu_global: Seq::empty(),
        ram_total: 0,
        ram_used: 0,
        ram_percent: Seq::empty(),
        disks: Seq::empty(),
        network: Seq::empty(),
    }, disks, nets);
    assert(header_spec(disks, nets)[2] == "ram_total"@);
    assert("ram_total"@[0] == 'r');
}

proof fn lemma_rows_are_data_rows(rows: Seq<CsvSnapshotView>, disks: nat, nets: nat)
    ensures
        forall|k: int| 0 <= k < rows_spec(rows, disks, nets).len() ==>
            is_data_row(#[trigger] rows_spec(rows, disks, nets)[k], 5 + 2 * disks + 3 * nets),
{
    assert forall|k: int| 0 <= k < rows_spec(rows, disks, nets).len() implies
        is_data_row(#[trigger] rows_spec(rows, disks, nets)[k], 5 + 2 * disks + 3 * nets) by {
        let s = rows[k];
        lemma_row_matches_header(s, disks, nets);
        lemma_decimal_starts_with_digit(s.ram_total as nat);
        assert(rows_spec(rows, disks, nets)[k] == row_spec(s, disks, nets));
        assert(row_spec(s, disks, nets)[2] == decimal(s.ram_total as nat));
    }
}

/// A CSV writer's state: the common state, the active file's layout, and
/// (as ghost state) the records this writer appended to the active file and
/// whether it took the file's header over from the file.
pub struct CsvLogFile {
    pub file: LogFile<CsvSnapshot>,
    pub layout: CsvLayout,
    pub written: Ghost<Seq<Seq<Seq<char>>>>,
    pub adopted: Ghost<bool>,
}

impl CsvLogFile {
    /// The records this writer appended to the active file.
    pub open spec fn written(self) -> Seq<Seq<Seq<char>>> {
        self.written@
    }

    /// Whether the active file's header was there before this writer.
    pub open spec fn adopted(self) -> bool {
        self.adopted@
    }

    /// One-header law, as the writer keeps it: see [`one_header_file`].
    pub open spec fn one_header(self) -> bool {
        one_header_file(self.layout, self.adopted(), self.written())
    }

    pub fn new(capacity: usize, policy: RotationPolicy, file_started_at: Option<i128>) -> (f: Self)
        ensures
            f.file.buffer.items() == Seq::<CsvSnapshot>::empty(),
            f.file.buffer.capacity() == capacity,
            f.file.file_started_at == file_started_at,
            f.file.policy == policy,
            !f.layout.header_written,
            f.layout.num_disks == 0,
            f.layout.num_interfaces == 0,
            f.written() == Seq::<Seq<Seq<char>>>::empty(),
            f.one_header(),
    {
        CsvLogFile {
            file: LogFile::new(capacity, policy, file_started_at),
            layout: CsvLayout::new(),
            written: Ghost(Seq::empty()),
            adopted: Ghost(false),
        }
    }

    /// The bytes a flush appends to the active file, whose current content
    /// is `existing` (empty when it does not exist): the layout is first
    /// taken from that content when no header is written yet, then the
    /// buffered snapshots are laid out (with the header if the file has none)
    /// and encoded. Fails with the reader's message when the existing header
    /// cannot be read, or with the encoder's message.
    pub fn encode_pending(&mut self, existing: &str) -> (r: Result<Vec<u8>, String>)
        requires
            old(self).file.buffer.items().len() > 0,
        ensures
            final(self).file == old(self).file,
            ({
                let rows = old(self).file.buffer.items().map_values(|s: CsvSnapshot| s@);
                match layout_after_load(old(self).layout, existing@) {
                    Err(e) => {
                        &&& r matches Err(m) && m@ == e
                        &&& final(self).layout == old(self).layout
                        &&& final(self).written() == old(self).written()
                        &&& final(self).adopted() == old(self).adopted()
                    },
                    Ok(l) => {
                        let (disks, nets) = flush_layout(l, rows[0]);
                        &&& final(self).written() == old(self).written() + flush_records(l, rows)
                        &&& final(self).layout.header_written
                        &&& final(self).layout.num_disks == disks
                        &&& final(self).layout.num_interfaces == nets
                        &&& final(self).layout == layout_after_flush(l, rows)
                        &&& r matches Ok(b) && b@ == csv_encode(flush_records(l, rows))
                    },
                }
            }),
            old(self).one_header() ==> final(self).one_header(),
    {
        let ghost before = self.layout;
        let had_header = self.layout.header_written;
        match self.layout.load_existing_layout(existing) {
            Ok(()) => {},
            Err(e) => return Err(e),
        }
        let ghost loaded = self.layout;
        if !had_header && self.layout.header_written {
            self.adopted = Ghost(true);
        }
        let records = self.layout.prepare_records(self.file.buffer.items_ref());
        proof {
            let rows = self.file.buffer.items().map_values(|s: CsvSnapshot| s@);
            lemma_flush_records_width(loaded, rows);
            assert(records_view(records@) == flush_records(loaded, rows));
            assert forall|i: int| 0 <= i < records@.len() implies
                #[trigger] records@[i]@.len() == records@[0]@.len() by {
                assert(records_view(records@)[i] == field_views(records@[i]@));
                assert(records_view(records@)[0] == field_views(records@[0]@));
            }
        }
        let ghost old_written = self.written@;
        let ghost rows = self.file.buffer.items().map_values(|s: CsvSnapshot| s@);
        self.written = Ghost(old_written + flush_records(loaded, rows));
        proof {
            let (disks, nets) = flush_layout(loaded, rows[0]);
            lemma_rows_are_data_rows(rows, disks, nets);
            let body = rows_spec(rows, disks, nets);
            let w = self.written@;
            if one_header_file(before, self.adopted@, old_written) {
                if loaded.header_written {
                    assert(flush_records(loaded, rows) == body);
                    assert(layout_width(self.layout) == 5 + 2 * disks + 3 * nets);
                    assert forall|k: int| old_written.len() <= k < w.len() implies
                        is_data_row(#[trigger] w[k], layout_width(self.layout)) by {
                        assert(w[k] == body[k - old_written.len()]);
                    }
                } else {
                    assert(old_written.len() == 0);
                    assert(flush_records(loaded, rows) == seq![header_spec(disks, nets)] + body);
                    assert(w[0] == header_spec(disks, nets));
                    assert forall|k: int| 1 <= k < w.len() implies
                        is_data_row(#[trigger] w[k], layout_width(self.layout)) by {
                        assert(w[k] == body[k - 1]);
                    }
                }
            }
        }
        serialize_records(&records)
    }

    /// Ends a flush; when the file rotated, its successor has no header yet.
    pub fn end_flush(&mut self, rotated: bool, now: i128)
        ensures
            final(self).file.buffer.items() == Seq::<CsvSnapshot>::empty(),
            final(self).file.buffer.capacity() == old(self).file.buffer.capacity(),
            final(self).file.policy == old(self).file.policy,
            final(self).file.file_started_at == if rotated { Some(now) } else { old(self).file.file_started_at },
            final(self).layout == if rotated {
                CsvLayout { header_written: false, num_disks: 0, num_interfaces: 0 }
            } else {
                old(self).layout
            },
            final(self).written() == if rotated { Seq::<Seq<Seq<char>>>::empty() } else { old(self).written() },
            old(self).one_header() ==> final(self).one_header(),
    {
        self.file.end_flush(rotated, now);
        if rotated {
            self.layout.reset();
            self.written = Ghost(Seq::empty());
            self.adopted = Ghost(false);
        }
    }
}

} // verus!
