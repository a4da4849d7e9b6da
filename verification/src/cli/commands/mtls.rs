//! `mtls`: certificates that are no longer good.
use vstd::prelude::*;

use crate::cli::output::{print, shown, Format};
use crate::json::{jstrs, Json};
use crate::mtls::blocklist::{lemma_serials_join, names_serial, serials_in, serials_of};
use crate::text::{
    ascii_lower, cat4, chars_of, lemma_split_join, lemma_split_single, lemma_trimmed_once,
    lower, opt_text, split, split_spec, starts_with, texts, trim, trimmed,
};

verus! {

/// The commands on certificates.
pub enum MtlsCmd {
    /// Puts a serial on the list of a file.
    Revoke { serial: String, blocklist_path: String, reason: Option<String> },
    /// Shows the serials on the list of a file.
    ListBlocklist { blocklist_path: String },
    /// Says where the state of the revocation lists is found.
    CrlStatus,
}

/// What is left to do of a command.
pub enum MtlsStep {
    /// Write a file, then say something.
    Write { path: String, text: String, notice: String },
    /// Show something.
    Show(String),
    /// Say something.
    Say(String),
}

/// What a [`MtlsStep`] says.
pub ghost enum MtlsStepView {
    Write { path: Seq<char>, text: Seq<char>, notice: Seq<char> },
    Show(Seq<char>),
    Say(Seq<char>),
}

impl View for MtlsStep {
    type V = MtlsStepView;

    open spec fn view(&self) -> MtlsStepView {
        match self {
            MtlsStep::Write { path, text, notice } => MtlsStepView::Write {
                path: path@,
                text: text@,
                notice: notice@,
            },
            MtlsStep::Show(s) => MtlsStepView::Show(s@),
            MtlsStep::Say(s) => MtlsStepView::Say(s@),
        }
    }
}

/// The text of a file, ended by a line break where it is not empty.
pub open spec fn line_ended(text: Seq<char>) -> Seq<char> {
    if text.len() > 0 && text.last() != '\n' {
        text + "\n"@
    } else {
        text
    }
}

/// The text of a file and a comment on what follows.
pub open spec fn commented(text: Seq<char>, reason: Option<Seq<char>>) -> Seq<char> {
    match reason {
        Some(r) => line_ended(text) + "# "@ + r + "\n"@,
        None => line_ended(text),
    }
}

/// A serial as it is written to the file.
pub open spec fn normalized(serial: Seq<char>) -> Seq<char> {
    lower(trimmed(serial))
}

/// The text of the file with one serial more, at its end.
pub open spec fn with_serial(text: Seq<char>, serial: Seq<char>, reason: Option<Seq<char>>) -> Seq<
    char,
> {
    commented(text, reason) + normalized(serial) + "\n"@
}

/// The serials that lines name, as they are written, in order.
pub open spec fn listed(lines: Seq<Seq<char>>) -> Seq<Seq<char>>
    decreases lines.len(),
{
    if lines.len() == 0 {
        Seq::empty()
    } else {
        let rest = listed(lines.drop_last());
        if names_serial(lines.last()) {
            rest.push(trimmed(lines.last()))
        } else {
            rest
        }
    }
}

/// What a command on certificates comes to. `existing` is the text of the file,
/// empty where it could not be read.
pub open spec fn mtls_plan(cmd: MtlsCmd, existing: Seq<char>, format: Format) -> MtlsStepView {
    match cmd {
        MtlsCmd::Revoke { serial, blocklist_path, reason } => MtlsStepView::Write {
            path: blocklist_path@,
            text: with_serial(existing, serial@, opt_text(reason)),
            notice: "Revoked serial "@ + normalized(serial@) + " in "@ + blocklist_path@,
        },
        MtlsCmd::ListBlocklist { .. } => MtlsStepView::Show(
            shown(jstrs(listed(split_spec(existing, '\n'))), format),
        ),
        MtlsCmd::CrlStatus => MtlsStepView::Say(
            "crl-status: stub. Consult `journalctl -u locksmith | grep CRL` for refresh logs."@,
        ),
    }
}

fn with_serial_text(existing: &str, serial: &str, reason: &Option<String>) -> (r: (String, String))
    ensures
        r.0@ == with_serial(existing@, serial@, opt_text(*reason)),
        r.1@ == normalized(serial@),
{
    let name = ascii_lower(trim(serial).as_str());
    let cs = chars_of(existing);
    let mut text = existing.to_owned();
    if cs.len() > 0 && cs[cs.len() - 1] != '\n' {
        text.append("\n");
    }
    match reason {
        Some(why) => {
            text.append("# ");
            text.append(why.as_str());
            text.append("\n");
        },
        None => {},
    }
    text.append(name.as_str());
    text.append("\n");
    (text, name)
}

fn list(existing: &str) -> (r: Vec<String>)
    ensures
        texts(r@) == listed(split_spec(existing@, '\n')),
{
    let lines = split(existing, '\n');
    let mut out: Vec<String> = Vec::new();
    let mut i: usize = 0;
    let ghost all = texts(lines@);
    assert(all.take(0) =~= Seq::empty());
    assert(texts(out@) =~= listed(all.take(0)));
    while i < lines.len()
        invariant
            i <= lines@.len(),
            all == texts(lines@),
            texts(out@) == listed(all.take(i as int)),
        decreases lines.len() - i,
    {
        let line = trim(lines[i].as_str());
        let ghost before = out@;
        proof {
            reveal_strlit("#");
            assert(all.take(i + 1).drop_last() =~= all.take(i as int));
            assert(all.take(i + 1).last() == lines@[i as int]@);
            if line@.len() > 0 {
                assert(line@.take(1) =~= seq![line@[0]]);
                assert(("#"@) =~= seq!['#']);
                if line@[0] == '#' {
                    assert(line@.take(1) =~= "#"@);
                } else {
                    assert(line@.take(1)[0] != "#"@[0]);
                }
            }
        }
        if !line.as_str().is_empty() && !starts_with(line.as_str(), "#") {
            out.push(line);
            assert(texts(out@) =~= texts(before).push(line@));
        }
        i = i + 1;
    }
    assert(all.take(all.len() as int) =~= all);
    out
}

/// What is left to do of a command on certificates.
pub fn run(format: Format, cmd: MtlsCmd, existing: &str) -> (r: MtlsStep)
    ensures
        r@ == mtls_plan(cmd, existing@, format),
{
    match cmd {
        MtlsCmd::Revoke { serial, blocklist_path, reason } => {
            let (text, name) = with_serial_text(existing, serial.as_str(), &reason);
            let notice = cat4("Revoked serial ", name.as_str(), " in ", blocklist_path.as_str());
            MtlsStep::Write { path: blocklist_path, text, notice }
        },
        MtlsCmd::ListBlocklist { blocklist_path: _ } => {
            let serials = list(existing);
            MtlsStep::Show(print(&Json::texts(&serials), format))
        },
        MtlsCmd::CrlStatus => MtlsStep::Say(
            "crl-status: stub. Consult `journalctl -u locksmith | grep CRL` for refresh logs.".to_owned(),
        ),
    }
}

/// A serial that was put on the list is revoked, and so is every serial that was on
/// it before, whatever the reason was. The serial must be one line that is no
/// comment.
pub proof fn law_revoked_serial_is_on_the_list(
    text: Seq<char>,
    serial: Seq<char>,
    reason: Option<Seq<char>>,
)
    requires
        names_serial(serial),
        !trimmed(serial).contains('\n'),
    ensures
        serials_in(with_serial(text, serial, reason)).contains(normalized(serial)),
        serials_in(text).subset_of(serials_in(with_serial(text, serial, reason))),
{
    reveal_strlit("\n");
    reveal_strlit("# ");
    let nl = seq!['\n'];
    assert("\n"@ =~= nl);
    let name = normalized(serial);
    let new = with_serial(text, serial, reason);
    let head = commented(text, reason);
    // The line of the serial names it.
    lemma_trimmed_once(serial);
    assert(trimmed(name) == name);
    assert(name.len() == trimmed(serial).len());
    assert(name[0] == crate::text::lower_char(trimmed(serial)[0]));
    assert(names_serial(name));
    crate::text::lemma_lower_idempotent(trimmed(serial));
    assert forall|i: int| 0 <= i < name.len() implies name[i] != '\n' by {
        assert(name[i] == crate::text::lower_char(trimmed(serial)[i]));
        assert(trimmed(serial).contains(trimmed(serial)[i]));
    }
    lemma_split_single(name, '\n');
    assert(!name.contains('\n'));
    let empty = Seq::<char>::empty();
    lemma_split_single(empty, '\n');
    lemma_split_join(name, empty, '\n');
    assert(name + nl + empty =~= name + "\n"@);
    assert(split_spec(name + "\n"@, '\n') =~= seq![name, empty]);
    assert(serials_of(seq![name, empty]).contains(name)) by {
        let v = seq![name, empty];
        assert(v.drop_last() =~= seq![name]);
        assert(seq![name].drop_last() =~= Seq::<Seq<char>>::empty());
        assert(trimmed(empty) =~= empty);
        assert(serials_of(seq![name]) == serials_of(Seq::<Seq<char>>::empty()).insert(
            lower(trimmed(name)),
        ));
    }
    // The lines before it name what they named.
    if head.len() == 0 {
        assert(new =~= name + "\n"@);
        assert(text =~= empty);
        assert(split_spec(text, '\n') =~= seq![empty]);
        lemma_empty_line();
    } else {
        assert(head.last() == '\n');
        let rest = head.drop_last();
        assert(head =~= rest + nl);
        lemma_split_join(rest, name + "\n"@, '\n');
        assert(new =~= rest + nl + (name + "\n"@));
        lemma_serials_join(split_spec(rest, '\n'), split_spec(name + "\n"@, '\n'));
        lemma_kept(text, reason);
    }
}

proof fn lemma_empty_line()
    ensures
        serials_of(seq![Seq::<char>::empty()]) == Set::<Seq<char>>::empty(),
{
    let line = Seq::<char>::empty();
    assert(trimmed(line) =~= line);
    assert(seq![line].drop_last() =~= Seq::<Seq<char>>::empty());
    assert(seq![line].last() == line);
    assert(serials_of(Seq::<Seq<char>>::empty()) == Set::<Seq<char>>::empty());
}

proof fn lemma_kept(text: Seq<char>, reason: Option<Seq<char>>)
    requires
        commented(text, reason).len() > 0,
        commented(text, reason).last() == '\n',
    ensures
        serials_in(text).subset_of(serials_in(commented(text, reason).drop_last())),
{
    reveal_strlit("\n");
    reveal_strlit("# ");
    let nl = seq!['\n'];
    let empty = Seq::<char>::empty();
    assert("\n"@ =~= nl);
    let rest = commented(text, reason).drop_last();
    let ended = line_ended(text);
    if text.len() == 0 {
        lemma_split_single(text, '\n');
        assert(text =~= empty);
        lemma_empty_line();
    } else {
        let body = ended.drop_last();
        assert(ended =~= body + nl);
        assert(serials_in(text).subset_of(serials_in(body))) by {
            if text.last() == '\n' {
                assert(text =~= body + nl + empty);
                lemma_split_join(body, empty, '\n');
                lemma_split_single(empty, '\n');
                lemma_serials_join(split_spec(body, '\n'), seq![empty]);
                lemma_empty_line();
            } else {
                assert(body =~= text);
            }
        }
        match reason {
            Some(r) => {
                assert(rest =~= body + nl + ("# "@ + r));
                lemma_split_join(body, "# "@ + r, '\n');
                lemma_serials_join(split_spec(body, '\n'), split_spec("# "@ + r, '\n'));
            },
            None => {
                assert(rest =~= body);
            },
        }
    }
}

/// What is shown of the list is what its lines name, in order, without white space around
/// it; lines that are empty or start with `#` are passed over.
pub proof fn law_serials_are_listed_line_by_line(lines: Seq<Seq<char>>, line: Seq<char>)
    ensures
        listed(Seq::empty()).len() == 0,
        trimmed(line).len() > 0 && trimmed(line)[0] != '#' ==> listed(lines.push(line)) == listed(
            lines,
        ) + seq![trimmed(line)],
        trimmed(line).len() == 0 || trimmed(line)[0] == '#' ==> listed(lines.push(line)) == listed(
            lines,
        ),
{
    assert(lines.push(line).drop_last() =~= lines);
    assert(listed(lines) + seq![trimmed(line)] =~= listed(lines).push(trimmed(line)));
}

/// A revocation is written to the file that is named, behind what stands there.
pub proof fn law_revocations_are_written_behind_the_file(
    serial: String,
    blocklist_path: String,
    reason: Option<String>,
    existing: Seq<char>,
    format: Format,
)
    ensures
        mtls_plan(
            MtlsCmd::Revoke { serial, blocklist_path, reason },
            existing,
            format,
        ) matches MtlsStepView::Write { path, text, .. } && path == blocklist_path@
            && existing.is_prefix_of(text) && text.last() == '\n' && text.drop_last().skip(
            text.len() - 1 - trimmed(serial@).len(),
        ) == lower(trimmed(serial@)),
{
    reveal_strlit("\n");
    reveal_strlit("# ");
    let text = with_serial(existing, serial@, opt_text(reason));
    let head = commented(existing, opt_text(reason));
    let name = lower(trimmed(serial@));
    assert(text =~= head + name + "\n"@);
    assert(existing =~= text.subrange(0, existing.len() as int));
    assert(text.drop_last().skip(text.len() - 1 - name.len()) =~= name);
}

/// A text that does not end its last line gets the end of it; an empty one, and one whose
/// last line is ended, stay as they are.
pub proof fn law_last_lines_are_ended(text: Seq<char>)
    ensures
        line_ended(Seq::empty()) == Seq::<char>::empty(),
        line_ended(text + seq!['\n']) == text + seq!['\n'],
        text.len() > 0 && text.last() != '\n' ==> line_ended(text) == text + "\n"@,
        line_ended(line_ended(text)) == line_ended(text),
{
    reveal_strlit("\n");
    assert((text + seq!['\n']).last() == '\n');
    assert((text + "\n"@).last() == '\n');
}

} // verus!
