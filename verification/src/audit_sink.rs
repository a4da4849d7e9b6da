//! The mirror of the audit log in a file: one line per event, a new file each
//! day and whenever a file is full, and only so many files kept.
use vstd::prelude::*;
use vstd::string::StringSliceAdditionalSpecFns;

pub use crate::calendar::{utc_date, ymd_from_unix_secs};

use crate::audit::{mirror_event_json, mirror_json, AuditEvent};
use crate::json::{json_text, write_compact};
use crate::text::{cat3, decimal, holds, same, show_u64, starts, starts_with, texts};

verus! {

/// Where the mirror is, how large a file may be, and how many files are kept.
#[derive(Debug, Clone)]
pub struct JsonlSinkConfig {
    pub path: String,
    pub max_bytes: u64,
    pub keep_files: usize,
}

impl Default for JsonlSinkConfig {
    fn default() -> (r: JsonlSinkConfig)
        ensures
            r.path@ == "/var/log/locksmith/audit.jsonl"@,
            r.max_bytes == 100 * 1024 * 1024,
            r.keep_files == 14,
    {
        JsonlSinkConfig {
            path: "/var/log/locksmith/audit.jsonl".to_string(),
            max_bytes: 100 * 1024 * 1024,
            keep_files: 14,
        }
    }
}

/// The line of an event.
pub fn serialize(e: &AuditEvent) -> (r: String)
    ensures
        r@ == json_text(mirror_json(e@)).push('\n'),
{
    let mut s = write_compact(&mirror_event_json(e));
    s.push('\n');
    s
}

/// The state of the open file.
pub struct SinkState {
    /// Whether a file is open.
    pub open: bool,
    /// How many bytes it holds.
    pub written: u64,
    /// The day that it is for.
    pub today: String,
}

/// Whether a new file is due because the day is over.
pub open spec fn day_over(s: SinkState, today: Seq<char>) -> bool {
    s.today@ != today
}

/// Whether a new file is due because a line would not fit: an empty file takes
/// any line.
pub open spec fn file_full(s: SinkState, line_len: nat, max_bytes: u64) -> bool {
    s.written > 0 && capped_sum(s.written, line_len) > max_bytes
}

/// The sum of two numbers, or the largest number.
pub open spec fn capped_sum(a: u64, b: nat) -> u64 {
    if a + b > u64::MAX {
        u64::MAX
    } else {
        (a + b) as u64
    }
}

impl SinkState {
    /// The state after a file was opened for a day, which holds the given number
    /// of bytes; none where it could not be opened.
    pub fn opened(today: &str, size: Option<u64>) -> (r: SinkState)
        ensures
            r.today@ == today@,
            r.open == (size is Some),
            r.written == match size {
                Some(n) => n,
                None => 0,
            },
    {
        SinkState {
            open: size.is_some(),
            written: match size {
                Some(n) => n,
                None => 0,
            },
            today: today.to_string(),
        }
    }

    /// Whether a new file is due because the day is over.
    pub fn daily_rotation_due(&self, today: &str) -> (r: bool)
        ensures
            r == day_over(*self, today@),
    {
        !same(self.today.as_str(), today)
    }

    /// Whether a new file is due because a line of the given length would not
    /// fit.
    pub fn cap_rotation_due(&self, line_len: usize, max_bytes: u64) -> (r: bool)
        ensures
            r == file_full(*self, line_len as nat, max_bytes),
    {
        let would_be: u64 = self.written.saturating_add(line_len as u64);
        would_be > max_bytes && self.written > 0
    }

    /// The state after a line was written, or could not be.
    pub fn appended(&mut self, line_len: usize, written: bool)
        ensures
            final(self).today == old(self).today,
            old(self).open && written ==> final(self).open && final(self).written == capped_sum(
                old(self).written,
                line_len as nat,
            ),
            old(self).open && !written ==> !final(self).open && final(self).written == old(
                self).written,
            !old(self).open ==> *final(self) == *old(self),
    {
        if self.open {
            if written {
                self.written = self.written.saturating_add(line_len as u64);
            } else {
                self.open = false;
            }
        }
    }
}

/// The name of the first file of a day.
pub open spec fn day_name(stem: Seq<char>, today: Seq<char>) -> Seq<char> {
    stem + "."@ + today
}

/// The name of a further file of a day.
pub open spec fn overflow_name(stem: Seq<char>, today: Seq<char>, i: nat) -> Seq<char> {
    stem + "."@ + today + "."@ + decimal(i)
}

/// The name of the first file of a day.
pub fn active_path(stem: &str, today: &str) -> (r: String)
    ensures
        r@ == day_name(stem@, today@),
{
    cat3(stem, ".", today)
}

/// The first number from `i` on, up to ten thousand, whose file is not there.
pub open spec fn free_index(
    stem: Seq<char>,
    today: Seq<char>,
    present: Seq<Seq<char>>,
    i: nat,
) -> Option<nat>
    decreases 10001 - i,
{
    if i > 10000 {
        None
    } else if !present.contains(overflow_name(stem, today, i)) {
        Some(i)
    } else {
        free_index(stem, today, present, i + 1)
    }
}

/// The name of the next file of a day, given the names of the files that are
/// there: the day's first name where it is free, else the first free one of its
/// numbered names. Where all are taken it is the first name again.
pub open spec fn next_name(
    stem: Seq<char>,
    today: Seq<char>,
    present: Seq<Seq<char>>,
) -> Seq<char> {
    if !present.contains(day_name(stem, today)) {
        day_name(stem, today)
    } else {
        match free_index(stem, today, present, 1) {
            Some(i) => overflow_name(stem, today, i),
            None => day_name(stem, today),
        }
    }
}

/// The name of the next file of a day.
pub fn next_target(stem: &str, today: &str, present: &Vec<String>) -> (r: String)
    ensures
        r@ == next_name(stem@, today@, texts(present@)),
{
    let primary = active_path(stem, today);
    if !holds(present, primary.as_str()) {
        return primary;
    }
    let mut i: u64 = 1;
    while i <= 10_000
        invariant
            1 <= i <= 10_001,
            primary@ == day_name(stem@, today@),
            free_index(stem@, today@, texts(present@), 1) == free_index(
                stem@,
                today@,
                texts(present@),
                i as nat,
            ),
            texts(present@).contains(day_name(stem@, today@)),
        decreases 10_001 - i,
    {
        let candidate = cat3(primary.as_str(), ".", show_u64(i).as_str());
        if !holds(present, candidate.as_str()) {
            return candidate;
        }
        i = i + 1;
    }
    primary
}

/// A new file is a fresh one, unless ten thousand and one files of its day are
/// there.
pub proof fn law_next_file_is_fresh(stem: Seq<char>, today: Seq<char>, present: Seq<Seq<char>>)
    requires
        !present.contains(day_name(stem, today)) || free_index(stem, today, present, 1) is Some,
    ensures
        !present.contains(next_name(stem, today, present)),
{
    lemma_free(stem, today, present, 1);
}

proof fn lemma_free(stem: Seq<char>, today: Seq<char>, present: Seq<Seq<char>>, i: nat)
    ensures
        free_index(stem, today, present, i) matches Some(k) ==> i <= k <= 10000
            && !present.contains(overflow_name(stem, today, k)),
    decreases 10001 - i,
{
    if i <= 10000 {
        lemma_free(stem, today, present, i + 1);
    }
}

/// A file of the mirror, and when it was last changed, in nanoseconds.
pub struct RotatedFile {
    pub mtime: i128,
    pub name: String,
}

/// What a [`RotatedFile`] says.
#[verifier::ext_equal]
pub ghost struct FileView {
    pub mtime: i128,
    pub name: Seq<char>,
}

impl View for RotatedFile {
    type V = FileView;

    open spec fn view(&self) -> FileView {
        FileView { mtime: self.mtime, name: self.name@ }
    }
}

/// What files say.
pub open spec fn file_views(v: Seq<RotatedFile>) -> Seq<FileView> {
    Seq::new(v.len(), |i: int| v[i]@)
}

/// Whether what was changed first stands first.
pub open spec fn oldest_first(v: Seq<FileView>) -> bool {
    forall|i: int, j: int|
        0 <= i < j < v.len() ==> (#[trigger] v[i]).mtime <= (#[trigger] v[j]).mtime
}

/// Whether a file belongs to the mirror.
pub fn is_mirror_file(name: &str, stem: &str) -> (r: bool)
    ensures
        r == starts(name@, stem@),
{
    starts_with(name, stem)
}

fn add_file(v: Vec<RotatedFile>, x: RotatedFile) -> (r: Vec<RotatedFile>)
    requires
        oldest_first(file_views(v@)),
    ensures
        oldest_first(file_views(r@)),
        file_views(r@).to_multiset() == file_views(v@).to_multiset().insert(x@),
{
    let ghost was = file_views(v@);
    let ghost xv = x@;
    let mut out = v;
    let mut k: usize = out.len();
    while k > 0 && out[k - 1].mtime > x.mtime
        invariant
            k <= out@.len(),
            was == file_views(out@),
            oldest_first(was),
            xv == x@,
            forall|i: int| k <= i < out@.len() ==> (#[trigger] was[i]).mtime > xv.mtime,
        decreases k,
    {
        assert(was[k - 1].mtime == out@[k - 1].mtime);
        k = k - 1;
    }
    proof {
        if k > 0 {
            assert(was[k - 1].mtime == out@[k - 1].mtime);
            assert forall|i: int| 0 <= i < k implies (#[trigger] was[i]).mtime <= xv.mtime by {
                if i < k - 1 {
                    assert(was[i].mtime <= was[k - 1].mtime);
                }
            }
        }
    }
    out.insert(k, x);
    proof {
        let now = file_views(out@);
        assert(now =~= was.insert(k as int, xv));
        vstd::seq_lib::to_multiset_insert(was, k as int, xv);
        assert forall|i: int, j: int| 0 <= i < j < now.len() implies (#[trigger] now[i]).mtime
            <= (#[trigger] now[j]).mtime by {
            let a = if i < k {
                i
            } else {
                i - 1
            };
            let b = if j < k {
                j
            } else {
                j - 1
            };
            if i != k {
                assert(now[i] == was[a]);
            }
            if j != k {
                assert(now[j] == was[b]);
            }
        }
    }
    out
}

/// The files in the order of their last change.
fn by_age(files: Vec<RotatedFile>) -> (r: Vec<RotatedFile>)
    ensures
        oldest_first(file_views(r@)),
        file_views(r@).to_multiset() == file_views(files@).to_multiset(),
{
    let ghost all = file_views(files@);
    let mut left = files;
    let mut out: Vec<RotatedFile> = Vec::new();
    proof {
        assert(file_views(out@) =~= Seq::empty());
        Seq::<FileView>::empty().to_multiset_ensures();
        all.to_multiset_ensures();
        assert(file_views(left@) =~= all);
        assert(file_views(out@).to_multiset().add(all.to_multiset()) =~= all.to_multiset());
    }
    while left.len() > 0
        invariant
            oldest_first(file_views(out@)),
            file_views(out@).to_multiset().add(file_views(left@).to_multiset())
                == all.to_multiset(),
        decreases left.len(),
    {
        let ghost was = file_views(left@);
        let ghost had = file_views(out@);
        let x = left.pop().unwrap();
        let ghost xv = x@;
        proof {
            assert(was =~= file_views(left@).push(xv));
            vstd::seq_lib::to_multiset_build(file_views(left@), xv);
        }
        out = add_file(out, x);
        proof {
            assert(file_views(out@).to_multiset().add(file_views(left@).to_multiset())
                =~= had.to_multiset().add(was.to_multiset()));
        }
    }
    proof {
        assert(file_views(left@) =~= Seq::empty());
        Seq::<FileView>::empty().to_multiset_ensures();
        assert(file_views(out@).to_multiset().add(Seq::<FileView>::empty().to_multiset())
            =~= file_views(out@).to_multiset());
    }
    out
}

/// Whether the files were parted into those that go and those that stay: nothing
/// is lost or added, as many stay as are to be kept, all where there are no more,
/// and nothing that stays is older than what goes.
pub open spec fn pruned(
    files: Seq<FileView>,
    keep: nat,
    gone: Seq<FileView>,
    kept: Seq<FileView>,
) -> bool {
    &&& gone.to_multiset().add(kept.to_multiset()) == files.to_multiset()
    &&& kept.len() == if files.len() < keep {
        files.len()
    } else {
        keep
    }
    &&& forall|i: int, j: int|
        0 <= i < gone.len() && 0 <= j < kept.len() ==> (#[trigger] gone[i]).mtime <= (
        #[trigger] kept[j]).mtime
}

/// The files that are to be taken away so that only the newest are kept.
pub fn prune_oldest(files: Vec<RotatedFile>, keep_files: usize) -> (r: Vec<RotatedFile>)
    ensures
        exists|kept: Seq<FileView>| #[trigger]
            pruned(file_views(files@), keep_files as nat, file_views(r@), kept),
        r@.len() == if files@.len() < keep_files {
            0
        } else {
            files@.len() - keep_files
        },
{
    let ghost all = file_views(files@);
    let n: usize = if files.len() < keep_files {
        0
    } else {
        files.len() - keep_files
    };
    let mut sorted = by_age(files);
    proof {
        all.to_multiset_ensures();
        file_views(sorted@).to_multiset_ensures();
        assert(sorted@.len() == all.len());
    }
    let ghost order = file_views(sorted@);
    sorted.truncate(n);
    proof {
        let gone = file_views(sorted@);
        let kept = order.skip(n as int);
        assert(gone =~= order.take(n as int));
        assert(order =~= gone + kept);
        vstd::seq_lib::lemma_multiset_commutative(gone, kept);
        assert forall|i: int, j: int|
            0 <= i < gone.len() && 0 <= j < kept.len() implies (#[trigger] gone[i]).mtime <= (
        #[trigger] kept[j]).mtime by {
            assert(gone[i] == order[i]);
            assert(kept[j] == order[n + j]);
        }
        assert(pruned(all, keep_files as nat, gone, kept));
    }
    sorted
}

proof fn lemma_free_is_first(stem: Seq<char>, today: Seq<char>, present: Seq<Seq<char>>, i: nat)
    ensures
        free_index(stem, today, present, i) matches Some(k) ==> forall|j: nat|
            i <= j < k ==> present.contains(#[trigger] overflow_name(stem, today, j)),
        free_index(stem, today, present, i) is None ==> forall|j: nat|
            i <= j <= 10000 ==> present.contains(#[trigger] overflow_name(stem, today, j)),
    decreases 10001 - i,
{
    if i <= 10000 && present.contains(overflow_name(stem, today, i)) {
        lemma_free_is_first(stem, today, present, i + 1);
    }
}

/// The next file is the day's own where that is free, and else the first of its numbered
/// ones that is; where all of ten thousand are taken, it is the day's own again.
pub proof fn law_next_file_is_the_first_free_one(
    stem: Seq<char>,
    today: Seq<char>,
    present: Seq<Seq<char>>,
    n: nat,
)
    ensures
        ({
            let own = stem + "."@ + today;
            let next = next_name(stem, today, present);
            &&& !present.contains(own) ==> next == own
            &&& present.contains(own) && 1 <= n <= 10000 && !present.contains(
                own + "."@ + decimal(n),
            ) && (forall|j: nat|
                1 <= j < n ==> present.contains(#[trigger] overflow_name(stem, today, j))) ==> next
                == own + "."@ + decimal(n)
            &&& present.contains(own) && (forall|j: nat|
                1 <= j <= 10000 ==> present.contains(#[trigger] overflow_name(stem, today, j)))
                ==> next == own
        }),
{
    lemma_free(stem, today, present, 1);
    lemma_free_is_first(stem, today, present, 1);
    assert(overflow_name(stem, today, n) == stem + "."@ + today + "."@ + decimal(n));
    if let Some(k) = free_index(stem, today, present, 1) {
        if k < n {
            assert(!present.contains(overflow_name(stem, today, k)));
        } else if n < k {
            assert(1 <= n ==> present.contains(overflow_name(stem, today, n)));
        }
    }
}

/// A file is full for a line if something was written to it and the line would take it over
/// its limit; an empty file takes any line. A day is over once another one has begun.
pub proof fn law_when_files_are_full(s: SinkState, len: nat, max_bytes: u64, today: Seq<char>)
    requires
        s.written + len <= u64::MAX,
    ensures
        file_full(s, len, max_bytes) <==> s.written > 0 && s.written + len > max_bytes,
        day_over(s, today) <==> today != s.today@,
{
}

/// Of the files of the mirror the newest are kept, as many as are asked for: what goes was
/// changed no later than anything that stays, nothing goes while there are no more than are
/// kept, and every file either goes or stays.
pub proof fn law_oldest_files_go(
    files: Seq<FileView>,
    keep: nat,
    gone: Seq<FileView>,
    kept: Seq<FileView>,
    old_file: FileView,
    new_file: FileView,
)
    requires
        pruned(files, keep, gone, kept),
        gone.contains(old_file),
        kept.contains(new_file),
    ensures
        old_file.mtime <= new_file.mtime,
        files.contains(old_file),
        files.contains(new_file),
        gone.len() + kept.len() == files.len(),
        kept.len() == keep,
        files.len() > keep,
{
    let i = choose|i: int| 0 <= i < gone.len() && gone[i] == old_file;
    let j = choose|j: int| 0 <= j < kept.len() && kept[j] == new_file;
    assert(gone[i].mtime <= kept[j].mtime);
    gone.to_multiset_ensures();
    kept.to_multiset_ensures();
    files.to_multiset_ensures();
    assert(files.to_multiset().count(old_file) == gone.to_multiset().count(old_file)
        + kept.to_multiset().count(old_file));
    assert(files.to_multiset().count(new_file) == gone.to_multiset().count(new_file)
        + kept.to_multiset().count(new_file));
    assert(files.to_multiset().len() == gone.to_multiset().len() + kept.to_multiset().len());
}

/// The bytes of the lines of a file add up, as long as there is a number for them.
pub proof fn law_written_bytes_add_up(a: u64, b: nat, c: nat)
    ensures
        a + b <= u64::MAX ==> capped_sum(a, b) == a + b,
        a + b > u64::MAX ==> capped_sum(a, b) == u64::MAX,
        capped_sum(capped_sum(a, b), c) == capped_sum(a, b + c),
{
}

/// Every file goes or stays, and as many stay as are asked for, all of them where there are
/// no more.
pub proof fn law_no_more_files_stay_than_asked(
    files: Seq<FileView>,
    keep: nat,
    gone: Seq<FileView>,
    kept: Seq<FileView>,
)
    requires
        pruned(files, keep, gone, kept),
    ensures
        gone.len() + kept.len() == files.len(),
        files.len() <= keep ==> gone.len() == 0,
        files.len() >= keep ==> kept.len() == keep,
{
    gone.to_multiset_ensures();
    kept.to_multiset_ensures();
    files.to_multiset_ensures();
    assert(files.to_multiset().len() == gone.to_multiset().len() + kept.to_multiset().len());
}

} // verus!
