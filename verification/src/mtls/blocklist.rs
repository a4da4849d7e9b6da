//! The local list of revoked serials, read from a file: one serial in hexadecimal
//! per line. Empty lines and lines that begin with `#` are passed over, and the
//! case of the digits does not matter.
use vstd::prelude::*;

use crate::mtls::serials::SerialSet;
use crate::text::{
    ascii_lower, joined, law_joining_undoes_splitting, lower, same, split, split_spec, starts_with,
    texts, trim, trimmed,
};

verus! {

/// Whether a line names a serial.
pub open spec fn names_serial(line: Seq<char>) -> bool {
    trimmed(line).len() > 0 && trimmed(line)[0] != '#'
}

/// The serials that lines name, in lower case.
pub open spec fn serials_of(lines: Seq<Seq<char>>) -> Set<Seq<char>>
    decreases lines.len(),
{
    if lines.len() == 0 {
        Set::empty()
    } else {
        let rest = serials_of(lines.drop_last());
        if names_serial(lines.last()) {
            rest.insert(lower(trimmed(lines.last())))
        } else {
            rest
        }
    }
}

/// The serials that a file names.
pub open spec fn serials_in(text: Seq<char>) -> Set<Seq<char>> {
    serials_of(split_spec(text, '\n'))
}

/// The serials that a file names.
pub fn read_serials(text: &str) -> (r: SerialSet)
    ensures
        r@ == serials_in(text@),
{
    let lines = split(text, '\n');
    let mut out = SerialSet::new();
    let mut i: usize = 0;
    let ghost all = texts(lines@);
    assert(all.take(0) =~= Seq::empty());
    while i < lines.len()
        invariant
            i <= lines@.len(),
            all == texts(lines@),
            out@ == serials_of(all.take(i as int)),
        decreases lines.len() - i,
    {
        let line = trim(lines[i].as_str());
        proof {
            reveal_strlit("");
            reveal_strlit("#");
            assert(all.take(i + 1).drop_last() =~= all.take(i as int));
            assert(all.take(i + 1).last() == lines@[i as int]@);
            assert(line@.len() == 0 ==> line@ =~= ""@);
            if line@.len() > 0 {
                assert(line@.take(1) =~= seq![line@[0]]);
                assert(("#"@) =~= seq!['#']);
                if line@[0] == '#' {
                    assert(line@.take(1) =~= "#"@);
                } else {
                    assert(line@.take(1)[0] != "#"@[0]);
                }
            }
        }
        if !same(line.as_str(), "") && !starts_with(line.as_str(), "#") {
            out = out.insert(ascii_lower(line.as_str()));
        }
        i = i + 1;
    }
    assert(all.take(all.len() as int) =~= all);
    out
}

/// What was read of the file: its text and the time of its last change.
pub struct BlocklistFile {
    pub text: String,
    pub mtime_secs: i64,
}

/// Whether a file was changed since it was read, given the time of its last change.
pub open spec fn file_changed(mtime: Option<i64>, read_at: i64) -> bool {
    mtime is Some && mtime->Some_0 != read_at
}

/// The list as it was last read.
pub struct Blocklist {
    path: String,
    serials: SerialSet,
    mtime_secs: i64,
}

impl Blocklist {
    /// The file that the list is read from.
    pub closed spec fn file(self) -> Seq<char> {
        self.path@
    }

    /// The revoked serials, in lower case.
    pub closed spec fn revoked(self) -> Set<Seq<char>> {
        self.serials@
    }

    /// The time of the file's last change when it was last read.
    pub closed spec fn read_at(self) -> i64 {
        self.mtime_secs
    }

    /// The list of a file. A file that cannot be read is an empty list.
    pub fn open(path: String, file: Option<BlocklistFile>) -> (r: Blocklist)
        ensures
            r.file() == path@,
            match file {
                Some(f) => r.revoked() == serials_in(f.text@) && r.read_at() == f.mtime_secs,
                None => r.revoked() == Set::<Seq<char>>::empty() && r.read_at() == 0,
            },
    {
        match file {
            Some(f) => Blocklist {
                path,
                serials: read_serials(f.text.as_str()),
                mtime_secs: f.mtime_secs,
            },
            None => Blocklist { path, serials: SerialSet::new(), mtime_secs: 0 },
        }
    }

    /// The file that the list is read from.
    pub fn path(&self) -> (r: &str)
        ensures
            r@ == self.file(),
    {
        self.path.as_str()
    }

    /// Whether the file was changed since it was read, given the time of its last
    /// change. A file that is not there was not changed.
    pub fn changed(&self, mtime: Option<i64>) -> (r: bool)
        ensures
            r == file_changed(mtime, self.read_at()),
    {
        match mtime {
            Some(t) => t != self.mtime_secs,
            None => false,
        }
    }

    /// Reads the list anew where the file was changed and could be read; in every
    /// other case the list stays as it is.
    pub fn reload_if_changed(&mut self, mtime: Option<i64>, file: Option<BlocklistFile>) -> (r:
        bool)
        ensures
            r == (file_changed(mtime, old(self).read_at()) && file is Some),
            !r ==> *final(self) == *old(self),
            r ==> final(self).file() == old(self).file() && final(self).revoked() == serials_in(
                file->Some_0.text@,
            ) && final(self).read_at() == file->Some_0.mtime_secs,
    {
        if !self.changed(mtime) {
            return false;
        }
        match file {
            Some(f) => {
                self.serials = read_serials(f.text.as_str());
                self.mtime_secs = f.mtime_secs;
                true
            },
            None => false,
        }
    }

    /// Whether a serial was revoked.
    pub fn contains(&self, serial_hex: &str) -> (r: bool)
        ensures
            r == self.revoked().contains(lower(serial_hex@)),
    {
        self.serials.contains(ascii_lower(serial_hex).as_str())
    }

    /// How many serials were revoked.
    pub fn len(&self) -> (r: usize)
        ensures
            r == self.revoked().len(),
    {
        self.serials.len()
    }

    /// Whether no serial was revoked.
    pub fn is_empty(&self) -> (r: bool)
        ensures
            r == (self.revoked().len() == 0),
    {
        self.len() == 0
    }
}

/// Lines after lines name what either names.
pub proof fn lemma_serials_join(a: Seq<Seq<char>>, b: Seq<Seq<char>>)
    ensures
        serials_of(a + b) == serials_of(a).union(serials_of(b)),
    decreases b.len(),
{
    if b.len() == 0 {
        assert(a + b =~= a);
        assert(serials_of(a).union(serials_of(b)) =~= serials_of(a));
    } else {
        assert((a + b).drop_last() =~= a + b.drop_last());
        assert((a + b).last() == b.last());
        lemma_serials_join(a, b.drop_last());
        assert(serials_of(a + b) =~= serials_of(a).union(serials_of(b)));
    }
}

proof fn lemma_named_is_listed(lines: Seq<Seq<char>>, i: int)
    requires
        0 <= i < lines.len(),
        names_serial(lines[i]),
    ensures
        serials_of(lines).contains(lower(trimmed(lines[i]))),
    decreases lines.len(),
{
    if i < lines.len() - 1 {
        assert(lines.drop_last()[i] == lines[i]);
        lemma_named_is_listed(lines.drop_last(), i);
    }
}

/// Every serial that a line of the file names is revoked, however its digits are
/// written.
pub proof fn law_named_serial_is_revoked(text: Seq<char>, i: int, serial: Seq<char>)
    requires
        0 <= i < split_spec(text, '\n').len(),
        names_serial(split_spec(text, '\n')[i]),
        lower(serial) == lower(trimmed(split_spec(text, '\n')[i])),
    ensures
        serials_in(text).contains(lower(serial)),
{
    lemma_named_is_listed(split_spec(text, '\n'), i);
}

/// A serial is revoked exactly if some line of the file, without the white space around it
/// and in lower case, is that serial; a line that is empty or starts with `#` revokes
/// nothing.
pub proof fn law_lines_of_the_file_are_what_is_revoked(lines: Seq<Seq<char>>, serial: Seq<char>)
    ensures
        serials_of(lines).contains(serial) <==> exists|i: int|
            0 <= i < lines.len() && lower(trimmed(#[trigger] lines[i])) == serial && trimmed(
                lines[i],
            ).len() > 0 && trimmed(lines[i])[0] != '#',
    decreases lines.len(),
{
    if lines.len() > 0 {
        let front = lines.drop_last();
        law_lines_of_the_file_are_what_is_revoked(front, serial);
        let n = lines.len() - 1;
        assert(lines[n] == lines.last());
        if serials_of(front).contains(serial) {
            let i = choose|i: int|
                0 <= i < front.len() && lower(trimmed(#[trigger] front[i])) == serial && trimmed(
                    front[i],
                ).len() > 0 && trimmed(front[i])[0] != '#';
            assert(lines[i] == front[i]);
        }
        if exists|i: int|
            0 <= i < lines.len() && lower(trimmed(#[trigger] lines[i])) == serial && trimmed(
                lines[i],
            ).len() > 0 && trimmed(lines[i])[0] != '#' {
            let i = choose|i: int|
                0 <= i < lines.len() && lower(trimmed(#[trigger] lines[i])) == serial && trimmed(
                    lines[i],
                ).len() > 0 && trimmed(lines[i])[0] != '#';
            if i < n {
                assert(front[i] == lines[i]);
            }
        }
    }
}

/// The lines of the file are what stands between its line ends.
pub proof fn law_the_file_is_read_line_by_line(text: Seq<char>, serial: Seq<char>)
    ensures
        serials_in(text).contains(serial) <==> serials_of(split_spec(text, '\n')).contains(serial),
        joined(split_spec(text, '\n'), seq!['\n']) == text,
{
    law_joining_undoes_splitting(text, '\n');
}

/// A file counts as changed exactly if it is there with another time of its last change than
/// the one that was read: earlier or later.
pub proof fn law_changed_files_have_another_time(at: i64, read_at: i64)
    ensures
        !file_changed(None, read_at),
        !file_changed(Some(at), at),
        at < read_at || read_at < at ==> file_changed(Some(at), read_at),
{
}

} // verus!
