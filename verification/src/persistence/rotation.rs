//! Log-file rotation by size and age, and retention of rotated files.

use vstd::prelude::*;

use crate::text::{has_prefix, push_str, str_chars};

verus! {

// ---------------------------------------------------------------------------
// Ordering of file names
// ---------------------------------------------------------------------------

/// Lexicographic order of file names by character (code point); for UTF-8
/// names this is the byte order in which paths of one directory sort.
pub open spec fn lex_le(a: Seq<char>, b: Seq<char>) -> bool
    decreases a.len(),
{
    if a.len() == 0 {
        true
    } else if b.len() == 0 {
        false
    } else if a[0] != b[0] {
        a[0] < b[0]
    } else {
        lex_le(a.drop_first(), b.drop_first())
    }
}

pub proof fn lemma_lex_total(a: Seq<char>, b: Seq<char>)
    ensures
        lex_le(a, b) || lex_le(b, a),
    decreases a.len(),
{
    if a.len() > 0 && b.len() > 0 && a[0] == b[0] {
        lemma_lex_total(a.drop_first(), b.drop_first());
    }
}

pub proof fn lemma_lex_reflexive(a: Seq<char>)
    ensures
        lex_le(a, a),
    decreases a.len(),
{
    if a.len() > 0 {
        lemma_lex_reflexive(a.drop_first());
    }
}

pub proof fn lemma_lex_antisymmetric(a: Seq<char>, b: Seq<char>)
    requires
        lex_le(a, b),
        lex_le(b, a),
    ensures
        a == b,
    decreases a.len(),
{
    if a.len() > 0 && b.len() > 0 {
        lemma_lex_antisymmetric(a.drop_first(), b.drop_first());
        assert(a =~= seq![a[0]] + a.drop_first());
        assert(b =~= seq![b[0]] + b.drop_first());
    } else {
        assert(a.len() == 0 && b.len() == 0);
        assert(a =~= b);
    }
}

pub proof fn lemma_lex_transitive(a: Seq<char>, b: Seq<char>, c: Seq<char>)
    requires
        lex_le(a, b),
        lex_le(b, c),
    ensures
        lex_le(a, c),
    decreases a.len(),
{
    if a.len() > 0 && b.len() > 0 && c.len() > 0 && a[0] == b[0] && b[0] == c[0] {
        lemma_lex_transitive(a.drop_first(), b.drop_first(), c.drop_first());
    }
}

/// Compares two names in [`lex_le`] order.
pub fn lex_le_exec(a: &[char], b: &[char]) -> (r: bool)
    ensures
        r == lex_le(a@, b@),
{
    let mut i: usize = 0;
    assert(a@.skip(0) =~= a@);
    assert(b@.skip(0) =~= b@);
    while i < a.len() && i < b.len()
        invariant
            i <= a@.len(),
            i <= b@.len(),
            a@.take(i as int) == b@.take(i as int),
            lex_le(a@, b@) == lex_le(a@.skip(i as int), b@.skip(i as int)),
        decreases a.len() - i,
    {
        proof {
            let sa = a@.skip(i as int);
            let sb = b@.skip(i as int);
            assert(sa[0] == a@[i as int]);
            assert(sb[0] == b@[i as int]);
            assert(sa.drop_first() =~= a@.skip(i + 1));
            assert(sb.drop_first() =~= b@.skip(i + 1));
        }
        if a[i] != b[i] {
            return a[i] < b[i];
        }
        proof {
            assert(a@.take(i + 1) =~= a@.take(i as int).push(a@[i as int]));
            assert(b@.take(i + 1) =~= b@.take(i as int).push(b@[i as int]));
        }
        i = i + 1;
    }
    assert(a@.skip(i as int).len() == a@.len() - i);
    i == a.len()
}

// ---------------------------------------------------------------------------
// Which files retention manages
// ---------------------------------------------------------------------------

/// The index of the last `.` in a file name.
pub open spec fn last_dot(name: Seq<char>) -> Option<int>
    decreases name.len(),
{
    if name.len() == 0 {
        None
    } else if name.last() == '.' {
        Some(name.len() - 1)
    } else {
        last_dot(name.drop_last())
    }
}

pub open spec fn is_dot_dot(name: Seq<char>) -> bool {
    name.len() == 2 && name[0] == '.' && name[1] == '.'
}

/// `Path::file_stem` of a file name: the part before the last `.`, or the
/// whole name when it has no `.` other than a leading one.
pub open spec fn file_stem_spec(name: Seq<char>) -> Seq<char> {
    if is_dot_dot(name) {
        name
    } else {
        match last_dot(name) {
            Some(i) => if i == 0 { name } else { name.take(i) },
            None => name,
        }
    }
}

/// `Path::extension` of a file name: the part after the last `.`, if that
/// `.` is not the first character.
pub open spec fn file_extension_spec(name: Seq<char>) -> Option<Seq<char>> {
    if is_dot_dot(name) {
        None
    } else {
        match last_dot(name) {
            Some(i) => if i == 0 { None } else { Some(name.skip(i + 1)) },
            None => None,
        }
    }
}

/// A log file that rotation manages: extension `ext`, and stem `sentinel`
/// (the active file) or starting with `sentinel_` (a rotated file).
pub open spec fn is_managed_log(name: Seq<char>, ext: Seq<char>) -> bool {
    &&& file_extension_spec(name) == Some(ext)
    &&& (file_stem_spec(name) == "sentinel"@ || has_prefix(file_stem_spec(name), "sentinel_"@))
}

proof fn lemma_last_dot(name: Seq<char>, i: int)
    requires
        -1 <= i < name.len(),
        forall|j: int| i < j < name.len() ==> name[j] != '.',
    ensures
        i >= 0 && name[i] == '.' ==> last_dot(name) == Some(i),
        i == -1 ==> last_dot(name) is None,
    decreases name.len(),
{
    if name.len() > 0 && i < name.len() - 1 {
        lemma_last_dot(name.drop_last(), i);
    }
}

fn last_dot_exec(name: &[char]) -> (r: Option<usize>)
    ensures
        match r {
            Some(i) => last_dot(name@) == Some(i as int) && i < name@.len(),
            None => last_dot(name@) is None,
        },
{
    let mut i: usize = name.len();
    while i > 0
        invariant
            i <= name@.len(),
            forall|j: int| i <= j < name@.len() ==> name@[j] != '.',
        decreases i,
    {
        if name[i - 1] == '.' {
            proof { lemma_last_dot(name@, i - 1); }
            return Some(i - 1);
        }
        i = i - 1;
    }
    proof { lemma_last_dot(name@, -1); }
    None
}

/// Whether `name` is a log file that retention manages for `extension`.
pub fn is_managed_log_file(name: &str, extension: &str) -> (r: bool)
    ensures
        r == is_managed_log(name@, extension@),
{
    let v = str_chars(name);
    let n = v.as_slice();
    if n.len() == 2 && n[0] == '.' && n[1] == '.' {
        return false;
    }
    match last_dot_exec(n) {
        None => false,
        Some(i) => {
            if i == 0 {
                return false;
            }
            let (stem, rest) = n.split_at(i);
            let ext = crate::numeric::slice_from(rest, 1);
            assert(ext@ =~= name@.skip(i + 1));
            assert(stem@ =~= name@.take(i as int));
            if !crate::text::chars_eq_str(ext, extension) {
                return false;
            }
            crate::text::chars_eq_str(stem, "sentinel") || crate::text::starts_with_str(stem, "sentinel_")
        },
    }
}

// ---------------------------------------------------------------------------
// Retention
// ---------------------------------------------------------------------------

/// How many rotated files are kept beside the active one.
pub open spec fn kept_rotated(max_files: usize) -> nat {
    if max_files == 0 { 0 } else { (max_files - 1) as nat }
}

/// The managed files among the directory's file names.
pub open spec fn managed_names(names: Seq<Seq<char>>, ext: Seq<char>) -> Seq<Seq<char>> {
    names.filter(|n: Seq<char>| is_managed_log(n, ext))
}

/// How many managed files retention deletes.
pub open spec fn deletion_count(managed: nat, max_files: usize) -> nat {
    if managed <= kept_rotated(max_files) { 0 } else { (managed - kept_rotated(max_files)) as nat }
}

pub open spec fn views(v: Seq<String>) -> Seq<Seq<char>> {
    v.map_values(|s: String| s@)
}

/// `r` is sorted and holds the `r.len()` smallest of `pool`.
pub open spec fn smallest_sorted(r: Seq<Seq<char>>, pool: Seq<Seq<char>>) -> bool {
    &&& forall|i: int, j: int| 0 <= i < j < r.len() ==> lex_le(#[trigger] r[i], #[trigger] r[j])
    &&& r.to_multiset().subset_of(pool.to_multiset())
    &&& forall|x: Seq<char>, y: Seq<char>|
        r.contains(x) && pool.to_multiset().sub(r.to_multiset()).count(y) > 0 ==> #[trigger] lex_le(x, y)
}

proof fn lemma_filter_push(s: Seq<Seq<char>>, x: Seq<char>, ext: Seq<char>)
    ensures
        managed_names(s.push(x), ext) == if is_managed_log(x, ext) {
            managed_names(s, ext).push(x)
        } else {
            managed_names(s, ext)
        },
{
    reveal_with_fuel(Seq::<_>::filter, 1);
    assert(s.push(x).drop_last() =~= s);
}

fn managed_files(names: &Vec<String>, extension: &str) -> (r: Vec<String>)
    ensures
        views(r@) == managed_names(views(names@), extension@),
{
    let mut r: Vec<String> = Vec::new();
    let ghost all = views(names@);
    for i in 0..names.len()
        invariant
            all == views(names@),
            views(r@) == managed_names(all.take(i as int), extension@),
    {
        proof {
            lemma_filter_push(all.take(i as int), all[i as int], extension@);
            assert(all.take(i + 1) =~= all.take(i as int).push(all[i as int]));
        }
        if is_managed_log_file(names[i].as_str(), extension) {
            let n = crate::text::chars_to_string(str_chars(names[i].as_str()).as_slice());
            r.push(n);
            assert(views(r@) =~= managed_names(all.take(i as int), extension@).push(all[i as int]));
        }
    }
    assert(all.take(names@.len() as int) =~= all);
    r
}

fn string_lex_le(a: &String, b: &String) -> (r: bool)
    ensures
        r == lex_le(a@, b@),
{
    let va = str_chars(a.as_str());
    let vb = str_chars(b.as_str());
    lex_le_exec(va.as_slice(), vb.as_slice())
}

/// The index of a smallest element.
fn min_index(v: &Vec<String>) -> (m: usize)
    requires
        v@.len() > 0,
    ensures
        m < v@.len(),
        forall|t: int| 0 <= t < v@.len() ==> lex_le(v@[m as int]@, #[trigger] v@[t]@),
{
    let mut m: usize = 0;
    let mut i: usize = 1;
    proof { lemma_lex_reflexive(v@[0]@); }
    while i < v.len()
        invariant
            1 <= i <= v@.len(),
            m < i,
            forall|t: int| 0 <= t < i ==> lex_le(v@[m as int]@, #[trigger] v@[t]@),
        decreases v.len() - i,
    {
        if !string_lex_le(&v[m], &v[i]) {
            proof {
                lemma_lex_total(v@[m as int]@, v@[i as int]@);
                assert forall|t: int| 0 <= t <= i implies lex_le(v@[i as int]@, #[trigger] v@[t]@) by {
                    if t < i {
                        lemma_lex_transitive(v@[i as int]@, v@[m as int]@, v@[t]@);
                    } else {
                        lemma_lex_reflexive(v@[i as int]@);
                    }
                }
            }
            m = i;
        }
        i = i + 1;
    }
    m
}

/// Retention law: after the selected files are deleted, at most
/// `max_files - 1` managed files remain besides the new active file (none when
/// `max_files` is 0), and nothing is deleted while the managed files are
/// within that limit.
pub proof fn lemma_retention_bound(managed: nat, max_files: usize)
    ensures
        managed - deletion_count(managed, max_files) == if managed <= kept_rotated(max_files) {
            managed
        } else {
            kept_rotated(max_files)
        },
        deletion_count(managed, max_files) <= managed,
        managed <= kept_rotated(max_files) ==> deletion_count(managed, max_files) == 0,
{
}

/// Retention count law, in terms of `max_files` alone: with `max_files` of
/// at least 1, nothing is deleted while at most `max_files - 1` managed files
/// exist, and otherwise exactly enough to leave `max_files - 1`; with
/// `max_files` 0, every managed file is deleted.
pub proof fn lemma_retention_count(managed: nat, max_files: usize)
    ensures
        deletion_count(managed, max_files) == if max_files == 0 {
            managed
        } else if managed <= max_files - 1 {
            0
        } else {
            (managed - (max_files - 1)) as nat
        },
        max_files >= 1 ==> managed - deletion_count(managed, max_files) == if managed <= max_files - 1 {
            managed
        } else {
            (max_files - 1) as nat
        },
{
}

/// Rotation law: a file at or over the size limit rotates, whatever the
/// rotation period; with a period, a file whose start (the writer's record of
/// it, else the earlier of its creation and modification times) lies at
/// least that many seconds before `now` rotates; and nothing else rotates.
pub proof fn lemma_rotation_decision(
    len: u64,
    policy: RotationPolicy,
    active_started_at: Option<i128>,
    created: Option<i128>,
    modified: Option<i128>,
    now: i128,
)
    ensures
        len >= policy.max_file_size_bytes ==> needs_rotation_spec(len, policy, active_started_at, created, modified, now),
        needs_rotation_spec(len, policy, active_started_at, created, modified, now) == (
            len >= policy.max_file_size_bytes || match policy.rotate_every {
                None => false,
                Some(limit) => {
                    let start: Option<i128> = match active_started_at {
                        Some(t) => Some(t),
                        None => match (created, modified) {
                            (Some(c), Some(m)) => Some(if c <= m { c } else { m }),
                            (Some(c), None) => Some(c),
                            (None, Some(m)) => Some(m),
                            (None, None) => None,
                        },
                    };
                    match start {
                        None => false,
                        Some(t) => now >= t && now - t >= limit * 1_000_000_000,
                    }
                },
            }
        ),
{
}

/// The rotated files that retention deletes: of the managed files among
/// `names` (see [`is_managed_log`]), all but the newest `max_files - 1` —
/// the ones that sort first, which for `sentinel_<timestamp>` names are the
/// oldest — returned in sorted order. Unmanaged files are never selected.
pub fn select_for_deletion(names: &Vec<String>, max_files: usize, extension: &str) -> (r: Vec<String>)
    ensures
        r@.len() == deletion_count(managed_names(views(names@), extension@).len(), max_files),
        ({
            let managed = managed_names(views(names@), extension@).len();
            r@.len() == if max_files == 0 {
                managed
            } else if managed <= max_files - 1 {
                0
            } else {
                (managed - (max_files - 1)) as nat
            }
        }),
        smallest_sorted(views(r@), managed_names(views(names@), extension@)),
        forall|i: int| 0 <= i < r@.len() ==> is_managed_log(#[trigger] r@[i]@, extension@),
{
    broadcast use vstd::seq_lib::group_to_multiset_ensures;
    broadcast use vstd::multiset::group_multiset_axioms;

    let mut work = managed_files(names, extension);
    let ghost pool = views(work@);
    let keep: usize = if max_files == 0 { 0 } else { max_files - 1 };
    let to_delete: usize = if work.len() <= keep { 0 } else { work.len() - keep };
    let mut out: Vec<String> = Vec::new();
    proof {
        assert(views(out@) + views(work@) =~= pool);
        assert forall|i: int| 0 <= i < pool.len() implies is_managed_log(#[trigger] pool[i], extension@) by {
            views(names@).lemma_filter_pred(|n: Seq<char>| is_managed_log(n, extension@), i);
        }
    }
    while out.len() < to_delete
        invariant
            to_delete <= pool.len(),
            out@.len() + work@.len() == pool.len(),
            out@.len() <= to_delete,
            (views(out@) + views(work@)).to_multiset() == pool.to_multiset(),
            forall|i: int, j: int| 0 <= i < j < out@.len() ==> lex_le(#[trigger] out@[i]@, #[trigger] out@[j]@),
            forall|i: int, j: int| 0 <= i < out@.len() && 0 <= j < work@.len() ==> lex_le(#[trigger] out@[i]@, #[trigger] work@[j]@),
            forall|i: int| 0 <= i < pool.len() ==> is_managed_log(#[trigger] pool[i], extension@),
        decreases to_delete - out@.len(),
    {
        let ghost old_out = views(out@);
        let ghost old_work = views(work@);
        let m = min_index(&work);
        let ghost mv = work@[m as int]@;
        let s = work.remove(m);
        out.push(s);
        proof {
            assert(views(work@) =~= old_work.remove(m as int));
            assert(views(out@) =~= old_out.push(mv));
            assert(old_work[m as int] == mv);
            vstd::seq_lib::to_multiset_build(old_out, mv);
            vstd::seq_lib::to_multiset_remove(old_work, m as int);
            assert(views(out@).to_multiset() =~= old_out.to_multiset().insert(mv));
            assert(views(work@).to_multiset() =~= old_work.to_multiset().remove(mv));
            assert(old_work.to_multiset().count(mv) > 0) by {
                assert(old_work.contains(mv));
                vstd::seq_lib::to_multiset_contains(old_work, mv);
            }
            vstd::seq_lib::lemma_multiset_commutative(views(out@), views(work@));
            vstd::seq_lib::lemma_multiset_commutative(old_out, old_work);
            assert((views(out@) + views(work@)).to_multiset() =~= (old_out + old_work).to_multiset());
        }
    }
    proof {
        let ov = views(out@);
        let wv = views(work@);
        vstd::seq_lib::lemma_multiset_commutative(ov, wv);
        assert(pool.to_multiset().sub(ov.to_multiset()) =~= wv.to_multiset());
        assert forall|x: Seq<char>, y: Seq<char>|
            ov.contains(x) && pool.to_multiset().sub(ov.to_multiset()).count(y) > 0 implies #[trigger] lex_le(x, y) by {
            let i = choose|i: int| 0 <= i < ov.len() && ov[i] == x;
            assert(wv.to_multiset().count(y) > 0);
            assert(wv.contains(y));
            let j = choose|j: int| 0 <= j < wv.len() && wv[j] == y;
            assert(lex_le(out@[i]@, work@[j]@));
        }
        assert(ov.to_multiset().subset_of(pool.to_multiset()));
        assert forall|i: int| 0 <= i < out@.len() implies is_managed_log(#[trigger] out@[i]@, extension@) by {
            assert(ov.to_multiset().count(ov[i]) > 0);
            assert(pool.to_multiset().count(ov[i]) > 0);
            assert(pool.contains(ov[i]));
        }
    }
    out
}

// ---------------------------------------------------------------------------
// When to rotate
// ---------------------------------------------------------------------------

/// When the active log file is rotated.
pub struct RotationPolicy {
    /// Rotate once the file reaches this size.
    pub max_file_size_bytes: u64,
    /// Rotate once the file is this old, in seconds; `None` disables it.
    pub rotate_every: Option<u64>,
    /// Log files kept in all, the active one included.
    pub max_files: usize,
}

/// The outcome of a rotation check.
pub struct RotationResult {
    pub rotated: bool,
    /// Where the rotated file went.
    pub new_path: Option<String>,
}

/// A failed file-system operation during rotation.
pub enum RotationError {
    Metadata(std::io::Error),
    Rename(std::io::Error),
    Delete(std::io::Error),
    ReadDir(std::io::Error),
}

/// `std::io::Error`, carried through [`RotationError`].
#[verifier::external_type_specification]
#[verifier::external_body]
pub struct ExIoError(std::io::Error);

/// The `Display` text of an I/O error (`e.to_string()`). It comes from the
/// operating system's description of the error, so nothing is claimed of it.
#[verifier::external_body]
fn io_error_text(e: &std::io::Error) -> (s: String) {
    e.to_string()
}

/// What a rotation error's text starts with: the operation that failed.
pub open spec fn rotation_error_prefix(e: RotationError) -> Seq<char> {
    match e {
        RotationError::Metadata(_) => "failed to query file metadata: "@,
        RotationError::Rename(_) => "failed to rename log file: "@,
        RotationError::Delete(_) => "failed to delete old log file: "@,
        RotationError::ReadDir(_) => "failed to read output directory: "@,
    }
}

impl RotationError {
    /// The text of the error: the failed operation, then the I/O error's own
    /// text.
    pub fn message(&self) -> (s: String)
        ensures
            has_prefix(s@, rotation_error_prefix(*self)),
    {
        let mut s = String::new();
        let e = match self {
            RotationError::Metadata(e) => {
                push_str(&mut s, "failed to query file metadata: ");
                e
            },
            RotationError::Rename(e) => {
                push_str(&mut s, "failed to rename log file: ");
                e
            },
            RotationError::Delete(e) => {
                push_str(&mut s, "failed to delete old log file: ");
                e
            },
            RotationError::ReadDir(e) => {
                push_str(&mut s, "failed to read output directory: ");
                e
            },
        };
        let ghost head = s@;
        let detail = io_error_text(e);
        push_str(&mut s, detail.as_str());
        assert(s@.take(head.len() as int) =~= head);
        s
    }
}

pub open spec fn bytes_per_mb() -> nat {
    1024 * 1024
}

impl RotationPolicy {
    /// The policy of a configuration: its size limit in bytes, its rotation
    /// period and its file count.
    pub fn from_config(config: &crate::config::AppConfig) -> (p: RotationPolicy)
        requires
            config.max_file_size_mb * bytes_per_mb() <= u64::MAX,
        ensures
            p.max_file_size_bytes == config.max_file_size_mb * bytes_per_mb(),
            p.rotate_every == config.rotate_every,
            p.max_files == config.max_files,
    {
        RotationPolicy {
            max_file_size_bytes: config.max_file_size_mb * 1048576,
            rotate_every: config.rotate_every,
            max_files: config.max_files,
        }
    }
}

/// Nanoseconds in a second.
pub open spec fn nanos_per_sec() -> int {
    1_000_000_000
}

/// The earlier of two instants (given in nanoseconds from the Unix epoch).
pub open spec fn earlier_spec(left: i128, right: i128) -> i128 {
    if left >= right { right } else { left }
}

pub fn earlier_system_time(left: i128, right: i128) -> (t: i128)
    ensures
        t == earlier_spec(left, right),
{
    if left >= right { right } else { left }
}

/// The instant a file's age is measured from: the earlier of its creation
/// and modification times, as far as the file system reports them.
pub open spec fn reference_time_spec(created: Option<i128>, modified: Option<i128>) -> Option<i128> {
    match (created, modified) {
        (Some(c), Some(m)) => Some(earlier_spec(c, m)),
        (Some(c), None) => Some(c),
        (None, Some(m)) => Some(m),
        (None, None) => None,
    }
}

pub fn rotation_reference_time(created: Option<i128>, modified: Option<i128>) -> (t: Option<i128>)
    ensures
        t == reference_time_spec(created, modified),
{
    match (created, modified) {
        (Some(c), Some(m)) => Some(earlier_system_time(c, m)),
        (Some(c), None) => Some(c),
        (None, Some(m)) => Some(m),
        (None, None) => None,
    }
}

/// Whether the file is at least `rotate_every` old at `now`. Its age counts
/// from when the writer started it (`active_started_at`), or else from its
/// file-system times; an instant in the future gives no age.
pub open spec fn age_exceeded_spec(
    rotate_every: Option<u64>,
    active_started_at: Option<i128>,
    created: Option<i128>,
    modified: Option<i128>,
    now: i128,
) -> bool {
    match rotate_every {
        None => false,
        Some(limit) => {
            let reference = match active_started_at {
                Some(t) => Some(t),
                None => reference_time_spec(created, modified),
            };
            match reference {
                None => false,
                Some(r) => now >= r && now - r >= limit * nanos_per_sec(),
            }
        },
    }
}

pub fn has_exceeded_rotation_age(
    rotate_every: Option<u64>,
    active_started_at: Option<i128>,
    created: Option<i128>,
    modified: Option<i128>,
    now: i128,
) -> (r: bool)
    ensures
        r == age_exceeded_spec(rotate_every, active_started_at, created, modified, now),
{
    let limit = match rotate_every {
        None => return false,
        Some(l) => l,
    };
    let reference = match active_started_at {
        Some(t) => Some(t),
        None => rotation_reference_time(created, modified),
    };
    match reference {
        None => false,
        Some(r) => {
            if now < r {
                return false;
            }
            let limit_ns: i128 = (limit as i128) * 1_000_000_000;
            match now.checked_sub(r) {
                Some(age) => age >= limit_ns,
                None => true,
            }
        },
    }
}

/// Whether the active file is rotated: it reached the size limit, or it is
/// older than the rotation period.
pub open spec fn needs_rotation_spec(
    len: u64,
    policy: RotationPolicy,
    active_started_at: Option<i128>,
    created: Option<i128>,
    modified: Option<i128>,
    now: i128,
) -> bool {
    len >= policy.max_file_size_bytes
        || age_exceeded_spec(policy.rotate_every, active_started_at, created, modified, now)
}

pub fn needs_rotation(
    len: u64,
    policy: &RotationPolicy,
    active_started_at: Option<i128>,
    created: Option<i128>,
    modified: Option<i128>,
    now: i128,
) -> (r: bool)
    ensures
        r == needs_rotation_spec(len, *policy, active_started_at, created, modified, now),
{
    let size_exceeded = len >= policy.max_file_size_bytes;
    let time_exceeded = has_exceeded_rotation_age(policy.rotate_every, active_started_at, created, modified, now);
    size_exceeded || time_exceeded
}

// ---------------------------------------------------------------------------
// File names
// ---------------------------------------------------------------------------

pub open spec fn active_name_spec(ext: Seq<char>) -> Seq<char> {
    "sentinel."@ + ext
}

pub open spec fn rotated_name_spec(timestamp: Seq<char>, ext: Seq<char>) -> Seq<char> {
    "sentinel_"@ + timestamp + "."@ + ext
}

/// The name of the active log file.
pub fn active_file_name(extension: &str) -> (s: String)
    ensures
        s@ == active_name_spec(extension@),
{
    let mut s = String::new();
    push_str(&mut s, "sentinel.");
    push_str(&mut s, extension);
    s
}

/// The name a rotated file gets.
pub fn rotated_file_name(timestamp: &str, extension: &str) -> (s: String)
    ensures
        s@ == rotated_name_spec(timestamp@, extension@),
{
    let mut s = String::new();
    push_str(&mut s, "sentinel_");
    push_str(&mut s, timestamp);
    push_str(&mut s, ".");
    push_str(&mut s, extension);
    s
}

proof fn lemma_last_dot_before_ext(prefix: Seq<char>, ext: Seq<char>)
    requires
        forall|j: int| 0 <= j < ext.len() ==> ext[j] != '.',
    ensures
        last_dot(prefix + "."@ + ext) == Some(prefix.len() as int),
{
    reveal_strlit(".");
    let name = prefix + "."@ + ext;
    assert(name[prefix.len() as int] == '.');
    lemma_last_dot(name, prefix.len() as int);
}

/// Naming law: the active file and every rotated file, whatever its
/// timestamp, are files that retention manages, for any extension without a
/// dot.
pub proof fn lemma_log_names_are_managed(timestamp: Seq<char>, ext: Seq<char>)
    requires
        forall|j: int| 0 <= j < ext.len() ==> ext[j] != '.',
    ensures
        is_managed_log(active_name_spec(ext), ext),
        is_managed_log(rotated_name_spec(timestamp, ext), ext),
{
    reveal_strlit("sentinel");
    reveal_strlit("sentinel.");
    reveal_strlit("sentinel_");
    reveal_strlit(".");
    let active = active_name_spec(ext);
    assert(active =~= "sentinel"@ + "."@ + ext);
    lemma_last_dot_before_ext("sentinel"@, ext);
    assert(active.take(8) =~= "sentinel"@);
    assert(active.skip(9) =~= ext);
    let stem = "sentinel_"@ + timestamp;
    let rotated = rotated_name_spec(timestamp, ext);
    assert(rotated =~= stem + "."@ + ext);
    lemma_last_dot_before_ext(stem, ext);
    assert(rotated.take(stem.len() as int) =~= stem);
    assert(rotated.skip(stem.len() as int + 1) =~= ext);
    assert(stem.take(9) =~= "sentinel_"@);
}

/// Renaming law: a rotated file never takes the active file's name, so a
/// rotation cannot overwrite the file it moves away from.
pub proof fn lemma_rotated_name_differs_from_active(timestamp: Seq<char>, ext: Seq<char>)
    ensures
        rotated_name_spec(timestamp, ext) != active_name_spec(ext),
{
    reveal_strlit("sentinel.");
    reveal_strlit("sentinel_");
    reveal_strlit(".");
    assert(rotated_name_spec(timestamp, ext)[8] == '_');
    assert(active_name_spec(ext)[8] == '.');
}

} // verus!
