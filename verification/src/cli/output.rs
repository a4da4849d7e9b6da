//! How the command line shows a document.
use vstd::prelude::*;

use crate::json;
use crate::json::{Json, JsonView};
use crate::text;

verus! {

/// The forms in which a document can be shown.
#[derive(Clone, Copy, Debug, PartialEq, Eq, Structural)]
pub enum Format {
    Table,
    Json,
    Yaml,
}

/// A value on one line: null is a dash, a string stands without quotes, and an
/// array or an object is compact JSON.
pub open spec fn scalar(v: JsonView) -> Seq<char> {
    match v {
        JsonView::Null => "-"@,
        JsonView::Bool(b) => if b {
            "true"@
        } else {
            "false"@
        },
        JsonView::Number(n) => n,
        JsonView::Str(s) => s,
        JsonView::Array(_) | JsonView::Object(_) => json::json_text(v),
    }
}

/// The names of an object's members, in order; none for any other value.
pub open spec fn columns(v: JsonView) -> Seq<Seq<char>> {
    match v {
        JsonView::Object(m) => text::ordered(m.map_values(|kv: (Seq<char>, JsonView)| kv.0)),
        _ => Seq::empty(),
    }
}

/// What a row shows in a column: the member of that name, or a dash.
pub open spec fn cell(row: JsonView, column: Seq<char>) -> Seq<char> {
    match json::member(row, column) {
        Some(v) => scalar(v),
        None => "-"@,
    }
}

/// The width of a column: the most bytes that its heading or one of its cells has.
pub open spec fn column_width(rows: Seq<JsonView>, column: Seq<char>) -> nat
    decreases rows.len(),
{
    if rows.len() == 0 {
        text::byte_len(column)
    } else {
        let rest = column_width(rows.drop_last(), column);
        let here = text::byte_len(cell(rows.last(), column));
        if here > rest {
            here
        } else {
            rest
        }
    }
}

/// `s`, filled with spaces to `width` characters.
pub open spec fn filled(s: Seq<char>, width: nat) -> Seq<char> {
    if s.len() < width {
        s + text::repeated(' ', (width - s.len()) as nat)
    } else {
        s
    }
}

/// The headings of a table, each filled to its column's width.
pub open spec fn heading(rows: Seq<JsonView>, columns: Seq<Seq<char>>) -> Seq<Seq<char>> {
    columns.map_values(|c: Seq<char>| filled(c, column_width(rows, c)))
}

/// The dashes below a heading, one for each of its bytes.
pub open spec fn rule(heading: Seq<Seq<char>>) -> Seq<Seq<char>> {
    heading.map_values(|h: Seq<char>| text::repeated('-', text::byte_len(h)))
}

/// The cells of a row, each filled to its column's width.
pub open spec fn cells(rows: Seq<JsonView>, columns: Seq<Seq<char>>, row: JsonView) -> Seq<
    Seq<char>,
> {
    columns.map_values(|c: Seq<char>| filled(cell(row, c), column_width(rows, c)))
}

/// Each text on a line of its own.
pub open spec fn lines(v: Seq<Seq<char>>) -> Seq<char>
    decreases v.len(),
{
    if v.len() == 0 {
        Seq::empty()
    } else {
        lines(v.drop_last()) + v.last() + "\n"@
    }
}

/// The rows of a table, from the cells of each row.
pub open spec fn row_lines(rows: Seq<JsonView>, columns: Seq<Seq<char>>) -> Seq<Seq<char>> {
    rows.map_values(|row: JsonView| text::joined(cells(rows, columns, row), "  "@))
}

/// A list of documents as a table. The columns are those of the first one; where
/// it has none, each document stands on a line of its own.
pub open spec fn array_table(rows: Seq<JsonView>) -> Seq<char> {
    if rows.len() == 0 {
        "(no rows)"@ + "\n"@
    } else if columns(rows[0]).len() == 0 {
        lines(rows.map_values(|row: JsonView| scalar(row)))
    } else {
        let cols = columns(rows[0]);
        let head = heading(rows, cols);
        lines(
            seq![text::joined(head, "  "@), text::joined(rule(head), "  "@)] + row_lines(rows, cols),
        )
    }
}

/// One member of a document, as its name, a colon and its value.
pub open spec fn member_line(v: JsonView, key: Seq<char>) -> Seq<char> {
    key + ": "@ + cell(v, key)
}

/// A document as a table.
pub open spec fn table(v: JsonView) -> Seq<char> {
    match v {
        JsonView::Object(_) => lines(columns(v).map_values(|k: Seq<char>| member_line(v, k))),
        JsonView::Array(rows) => array_table(rows),
        _ => lines(seq![scalar(v)]),
    }
}

/// What is written for a document in a form.
pub open spec fn shown(v: JsonView, format: Format) -> Seq<char> {
    match format {
        Format::Json => json::json_pretty(v) + "\n"@,
        Format::Yaml => json::yaml_text(v) + "\n"@,
        Format::Table => table(v),
    }
}

/// A value on one line.
pub fn render_scalar(v: &Json) -> (r: String)
    ensures
        r@ == scalar(v@),
{
    match v {
        Json::Null => "-".to_owned(),
        Json::Bool(b) => if *b {
            "true".to_owned()
        } else {
            "false".to_owned()
        },
        Json::Number(n) => n.clone(),
        Json::Str(s) => s.clone(),
        Json::Array(_) | Json::Object(_) => json::write_compact(v),
    }
}

fn columns_of(v: &Json) -> (r: Vec<String>)
    ensures
        text::texts(r@) == columns(v@),
{
    match v {
        Json::Object(m) => {
            proof {
                json::lemma_object_view(*m);
            }
            let mut keys: Vec<String> = Vec::new();
            let mut i: usize = 0;
            while i < m.len()
                invariant
                    i <= m@.len(),
                    keys@.len() == i,
                    forall|k: int| 0 <= k < i ==> (#[trigger] keys@[k])@ == m@[k].0@,
                decreases m.len() - i,
            {
                let k: String = m[i].0.clone();
                keys.push(k);
                i = i + 1;
            }
            proof {
                assert(text::texts(keys@) =~= json::members(m@).map_values(
                    |kv: (Seq<char>, JsonView)| kv.0,
                ));
            }
            text::sorted(&keys)
        },
        _ => {
            let none: Vec<String> = Vec::new();
            assert(text::texts(none@) =~= columns(v@));
            none
        },
    }
}

fn cell_of(row: &Json, column: &str) -> (r: String)
    ensures
        r@ == cell(row@, column@),
{
    match row.get(column) {
        Some(v) => render_scalar(v),
        None => "-".to_owned(),
    }
}

fn width_of(rows: &Vec<Json>, column: &str) -> (r: usize)
    ensures
        r == column_width(json::views(rows@), column@),
{
    let mut width: usize = text::bytes_in(column);
    let mut i: usize = 0;
    while i < rows.len()
        invariant
            i <= rows@.len(),
            width == column_width(json::views(rows@).take(i as int), column@),
        decreases rows.len() - i,
    {
        let ghost next = json::views(rows@).take(i + 1);
        assert(next.drop_last() =~= json::views(rows@).take(i as int));
        assert(next.last() == rows@[i as int]@);
        let here: usize = text::bytes_in(cell_of(&rows[i], column).as_str());
        if here > width {
            width = here;
        }
        i = i + 1;
    }
    assert(json::views(rows@).take(rows@.len() as int) =~= json::views(rows@));
    width
}

fn fill(s: &str, width: usize) -> (r: String)
    ensures
        r@ == filled(s@, width as nat),
{
    let n: usize = text::chars_in(s);
    if n < width {
        text::cat(s, text::repeat(' ', width - n).as_str())
    } else {
        s.to_owned()
    }
}

fn as_lines(v: &Vec<String>) -> (r: String)
    ensures
        r@ == lines(text::texts(v@)),
{
    let mut out: String = String::new();
    let mut i: usize = 0;
    assert(out@ =~= lines(text::texts(v@).take(0)));
    while i < v.len()
        invariant
            i <= v@.len(),
            out@ == lines(text::texts(v@).take(i as int)),
        decreases v.len() - i,
    {
        let ghost next = text::texts(v@).take(i + 1);
        assert(next.drop_last() =~= text::texts(v@).take(i as int));
        out.append(v[i].as_str());
        out.append("\n");
        i = i + 1;
    }
    assert(text::texts(v@).take(v@.len() as int) =~= text::texts(v@));
    out
}

fn print_array_table(rows: &Vec<Json>) -> (r: String)
    ensures
        r@ == array_table(json::views(rows@)),
{
    let ghost all = json::views(rows@);
    if rows.len() == 0 {
        return text::cat("(no rows)", "\n");
    }
    let cols = columns_of(&rows[0]);
    let ghost names = text::texts(cols@);
    assert(all[0] == rows@[0]@);
    if cols.len() == 0 {
        let mut each: Vec<String> = Vec::new();
        let mut i: usize = 0;
        while i < rows.len()
            invariant
                i <= rows@.len(),
                each@.len() == i,
                forall|k: int| 0 <= k < i ==> (#[trigger] each@[k])@ == scalar(rows@[k]@),
            decreases rows.len() - i,
        {
            each.push(render_scalar(&rows[i]));
            i = i + 1;
        }
        assert(text::texts(each@) =~= all.map_values(|row: JsonView| scalar(row)));
        return as_lines(&each);
    }
    let mut widths: Vec<usize> = Vec::new();
    let mut head: Vec<String> = Vec::new();
    let mut dashes: Vec<String> = Vec::new();
    let mut c: usize = 0;
    while c < cols.len()
        invariant
            c <= cols@.len(),
            all == json::views(rows@),
            widths@.len() == c,
            head@.len() == c,
            dashes@.len() == c,
            forall|k: int|
                0 <= k < c ==> (#[trigger] widths@[k]) == column_width(all, cols@[k]@),
            forall|k: int|
                0 <= k < c ==> (#[trigger] head@[k])@ == filled(
                    cols@[k]@,
                    column_width(all, cols@[k]@),
                ),
            forall|k: int|
                0 <= k < c ==> (#[trigger] dashes@[k])@ == text::repeated(
                    '-',
                    text::byte_len(head@[k]@),
                ),
        decreases cols.len() - c,
    {
        let width: usize = width_of(rows, cols[c].as_str());
        let h = fill(cols[c].as_str(), width);
        let d = text::repeat('-', text::bytes_in(h.as_str()));
        widths.push(width);
        head.push(h);
        dashes.push(d);
        c = c + 1;
    }
    assert(text::texts(head@) =~= heading(all, names));
    assert(text::texts(dashes@) =~= rule(heading(all, names)));
    let mut out: Vec<String> = Vec::new();
    out.push(text::join(&head, "  "));
    out.push(text::join(&dashes, "  "));
    let mut i: usize = 0;
    while i < rows.len()
        invariant
            i <= rows@.len(),
            all == json::views(rows@),
            names == text::texts(cols@),
            widths@.len() == cols@.len(),
            forall|k: int|
                0 <= k < cols@.len() ==> (#[trigger] widths@[k]) == column_width(all, cols@[k]@),
            out@.len() == i + 2,
            out@[0]@ == text::joined(heading(all, names), "  "@),
            out@[1]@ == text::joined(rule(heading(all, names)), "  "@),
            forall|k: int|
                2 <= k < i + 2 ==> (#[trigger] out@[k])@ == text::joined(
                    cells(all, names, rows@[k - 2]@),
                    "  "@,
                ),
        decreases rows.len() - i,
    {
        let mut line: Vec<String> = Vec::new();
        let mut c: usize = 0;
        while c < cols.len()
            invariant
                i < rows@.len(),
                c <= cols@.len(),
                widths@.len() == cols@.len(),
                forall|k: int|
                    0 <= k < cols@.len() ==> (#[trigger] widths@[k]) == column_width(
                        all,
                        cols@[k]@,
                    ),
                line@.len() == c,
                forall|k: int|
                    0 <= k < c ==> (#[trigger] line@[k])@ == filled(
                        cell(rows@[i as int]@, cols@[k]@),
                        column_width(all, cols@[k]@),
                    ),
            decreases cols.len() - c,
        {
            let shown = cell_of(&rows[i], cols[c].as_str());
            line.push(fill(shown.as_str(), widths[c]));
            c = c + 1;
        }
        assert(text::texts(line@) =~= cells(all, names, rows@[i as int]@));
        out.push(text::join(&line, "  "));
        i = i + 1;
    }
    proof {
        let want = seq![
            text::joined(heading(all, names), "  "@),
            text::joined(rule(heading(all, names)), "  "@),
        ] + row_lines(all, names);
        assert forall|k: int| 0 <= k < want.len() implies text::texts(out@)[k] == want[k] by {
            if k >= 2 {
                assert(out@[k]@ == text::joined(cells(all, names, all[k - 2]), "  "@));
            }
        }
        assert(text::texts(out@) =~= want);
    }
    as_lines(&out)
}

fn print_table(value: &Json) -> (r: String)
    ensures
        r@ == table(value@),
{
    match value {
        Json::Object(_) => {
            let keys = columns_of(value);
            let mut out: Vec<String> = Vec::new();
            let mut i: usize = 0;
            while i < keys.len()
                invariant
                    i <= keys@.len(),
                    out@.len() == i,
                    forall|k: int|
                        0 <= k < i ==> (#[trigger] out@[k])@ == member_line(value@, keys@[k]@),
                decreases keys.len() - i,
            {
                let shown = cell_of(value, keys[i].as_str());
                out.push(text::cat3(keys[i].as_str(), ": ", shown.as_str()));
                i = i + 1;
            }
            assert(text::texts(out@) =~= columns(value@).map_values(
                |k: Seq<char>| member_line(value@, k),
            ));
            as_lines(&out)
        },
        Json::Array(rows) => {
            proof {
                json::lemma_array_view(*rows);
            }
            print_array_table(rows)
        },
        other => {
            let mut out: Vec<String> = Vec::new();
            out.push(render_scalar(other));
            assert(text::texts(out@) =~= seq![scalar(value@)]);
            as_lines(&out)
        },
    }
}

/// The text to write for a document in a form.
pub fn print(value: &Json, format: Format) -> (r: String)
    ensures
        r@ == shown(value@, format),
{
    match format {
        Format::Json => text::cat(json::write_pretty(value).as_str(), "\n"),
        Format::Yaml => text::cat(json::write_yaml(value).as_str(), "\n"),
        Format::Table => print_table(value),
    }
}

/// A value on one line is its text: null and what is missing are a dash, a string stands
/// without quotes, numbers and truth values as they are written.
pub proof fn law_values_on_one_line(row: JsonView, column: Seq<char>, s: Seq<char>)
    ensures
        scalar(JsonView::Null) == "-"@,
        scalar(JsonView::Bool(true)) == "true"@,
        scalar(JsonView::Bool(false)) == "false"@,
        scalar(JsonView::Number(s)) == s,
        scalar(JsonView::Str(s)) == s,
        json::member(row, column) is None ==> cell(row, column) == "-"@,
        json::member(row, column) matches Some(v) ==> cell(row, column) == scalar(v),
{
}

/// The columns of a document are the names of its members, each of them, in order.
pub proof fn law_columns_are_the_names_in_order(m: Seq<(Seq<char>, JsonView)>)
    ensures
        text::in_order(columns(JsonView::Object(m))),
        columns(JsonView::Object(m)).to_multiset() == Seq::new(
            m.len(),
            |i: int| m[i].0,
        ).to_multiset(),
        columns(JsonView::Null).len() == 0,
{
    let names = m.map_values(|kv: (Seq<char>, JsonView)| kv.0);
    text::law_ordered(names);
    assert(names =~= Seq::new(m.len(), |i: int| m[i].0));
}

/// A column is as wide as its heading and as each of its cells, and as one of them; what
/// stands in it is filled with spaces to that width.
pub proof fn law_columns_are_wide_enough(
    rows: Seq<JsonView>,
    column: Seq<char>,
    i: int,
    s: Seq<char>,
    width: nat,
)
    ensures
        column_width(rows, column) >= text::byte_len(column),
        0 <= i < rows.len() ==> column_width(rows, column) >= text::byte_len(
            cell(rows[i], column),
        ),
        column_width(rows, column) == text::byte_len(column) || exists|k: int|
            0 <= k < rows.len() && column_width(rows, column) == text::byte_len(
                cell(#[trigger] rows[k], column),
            ),
        s.is_prefix_of(filled(s, width)),
        s.len() <= width ==> filled(s, width).len() == width,
        s.len() >= width ==> filled(s, width) == s,
        forall|k: int| s.len() <= k < filled(s, width).len() ==> filled(s, width)[k] == ' ',
    decreases rows.len(),
{
    assert(s =~= filled(s, width).subrange(0, s.len() as int));
    if rows.len() > 0 {
        let front = rows.drop_last();
        law_columns_are_wide_enough(front, column, i, s, width);
        assert(rows[rows.len() - 1] == rows.last());
        if 0 <= i < front.len() {
            assert(front[i] == rows[i]);
        }
        if column_width(rows, column) == column_width(front, column) && column_width(front, column)
            != text::byte_len(column) {
            let k = choose|k: int|
                0 <= k < front.len() && column_width(front, column) == text::byte_len(
                    cell(#[trigger] front[k], column),
                );
            assert(rows[k] == front[k]);
        }
    }
}

/// A document is shown with a line for each member, its name, a colon and its value; a list
/// without documents says so.
pub proof fn law_documents_are_shown_line_by_line(
    m: Seq<(Seq<char>, JsonView)>,
    v: Seq<Seq<char>>,
    s: Seq<char>,
    key: Seq<char>,
    j: JsonView,
)
    ensures
        lines(Seq::empty()).len() == 0,
        lines(v.push(s)) == lines(v) + s + "\n"@,
        member_line(JsonView::Object(m), key) == key + ": "@ + cell(JsonView::Object(m), key),
        shown(JsonView::Object(m), Format::Table) == lines(
            Seq::new(
                columns(JsonView::Object(m)).len(),
                |i: int| member_line(JsonView::Object(m), columns(JsonView::Object(m))[i]),
            ),
        ),
        shown(JsonView::Array(Seq::empty()), Format::Table) == "(no rows)"@ + "\n"@,
        shown(j, Format::Json) == json::json_pretty(j) + "\n"@,
        shown(j, Format::Yaml) == json::yaml_text(j) + "\n"@,
{
    assert(v.push(s).drop_last() =~= v);
    let d = JsonView::Object(m);
    assert(columns(d).map_values(|k: Seq<char>| member_line(d, k)) =~= Seq::new(
        columns(d).len(),
        |i: int| member_line(d, columns(d)[i]),
    ));
}

/// A list whose first document has members is shown as a table with a line of headings, a
/// line of dashes, and a line for each document in its order. The headings are the names of
/// the first document's members; below a heading stand the documents' members of that name,
/// or a dash. Cells are parted by two spaces and filled to the width of their column.
pub proof fn law_lists_are_shown_as_tables(rows: Seq<JsonView>, format: Format, i: int, c: int)
    requires
        format == Format::Table,
        0 <= i < rows.len(),
        0 <= c < columns(rows[0]).len(),
    ensures
        ({
            let cols = columns(rows[0]);
            let head = heading(rows, cols);
            &&& shown(JsonView::Array(rows), format) == text::joined(head, "  "@) + "\n"@
                + text::joined(rule(head), "  "@) + "\n"@ + lines(row_lines(rows, cols))
            &&& row_lines(rows, cols).len() == rows.len()
            &&& row_lines(rows, cols)[i] == text::joined(cells(rows, cols, rows[i]), "  "@)
            &&& cells(rows, cols, rows[i]).len() == cols.len()
            &&& cells(rows, cols, rows[i])[c] == filled(
                cell(rows[i], cols[c]),
                column_width(rows, cols[c]),
            )
            &&& head[c] == filled(cols[c], column_width(rows, cols[c]))
            &&& rule(head)[c] == text::repeated('-', text::byte_len(head[c]))
        }),
{
    let cols = columns(rows[0]);
    let head = heading(rows, cols);
    let first = seq![text::joined(head, "  "@), text::joined(rule(head), "  "@)];
    lemma_lines_of_both(first, row_lines(rows, cols));
    assert(first.drop_last() =~= seq![text::joined(head, "  "@)]);
    assert(first.drop_last().drop_last() =~= Seq::<Seq<char>>::empty());
    reveal_with_fuel(lines, 3);
    assert(lines(first) =~= text::joined(head, "  "@) + "\n"@ + text::joined(rule(head), "  "@)
        + "\n"@);
}

proof fn lemma_lines_of_both(a: Seq<Seq<char>>, b: Seq<Seq<char>>)
    ensures
        lines(a + b) == lines(a) + lines(b),
    decreases b.len(),
{
    if b.len() == 0 {
        assert(a + b =~= a);
        assert(lines(a) + lines(b) =~= lines(a));
    } else {
        lemma_lines_of_both(a, b.drop_last());
        assert((a + b).drop_last() =~= a + b.drop_last());
        assert(lines(a + b) =~= lines(a) + lines(b));
    }
}

/// A column is as wide as its heading and each of its cells, and no wider than the widest of
/// them.
pub proof fn law_columns_are_as_wide_as_their_widest(rows: Seq<JsonView>, column: Seq<char>, i: int)
    ensures
        column_width(rows, column) >= text::byte_len(column),
        0 <= i < rows.len() ==> column_width(rows, column) >= text::byte_len(cell(rows[i], column)),
        column_width(rows, column) == text::byte_len(column) || exists|k: int|
            0 <= k < rows.len() && column_width(rows, column) == text::byte_len(
                cell(#[trigger] rows[k], column),
            ),
    decreases rows.len(),
{
    if rows.len() > 0 {
        let front = rows.drop_last();
        law_columns_are_as_wide_as_their_widest(front, column, i);
        assert(rows[rows.len() - 1] == rows.last());
        if 0 <= i < front.len() {
            assert(front[i] == rows[i]);
        }
        if column_width(front, column) != text::byte_len(column) {
            let k = choose|k: int|
                0 <= k < front.len() && column_width(front, column) == text::byte_len(
                    cell(#[trigger] front[k], column),
                );
            assert(rows[k] == front[k]);
        }
    }
}

/// A list without documents says so, one of documents without members has each of them on a
/// line of its own, and an object has its members on lines of their own, by their names.
pub proof fn law_other_documents_are_shown_line_by_line(rows: Seq<JsonView>, v: JsonView)
    ensures
        table(JsonView::Array(Seq::empty())) == "(no rows)"@ + "\n"@,
        rows.len() > 0 && columns(rows[0]).len() == 0 ==> table(JsonView::Array(rows)) == lines(
            Seq::new(rows.len(), |i: int| scalar(rows[i])),
        ),
        v is Object ==> table(v) == lines(
            Seq::new(columns(v).len(), |i: int| columns(v)[i] + ": "@ + cell(v, columns(v)[i])),
        ),
        !(v is Object || v is Array) ==> table(v) == scalar(v) + "\n"@,
        scalar(JsonView::Null) == "-"@,
        scalar(JsonView::Bool(true)) == "true"@,
        scalar(JsonView::Bool(false)) == "false"@,
{
    assert(rows.map_values(|row: JsonView| scalar(row)) =~= Seq::new(
        rows.len(),
        |i: int| scalar(rows[i]),
    ));
    assert(columns(v).map_values(|k: Seq<char>| member_line(v, k)) =~= Seq::new(
        columns(v).len(),
        |i: int| columns(v)[i] + ": "@ + cell(v, columns(v)[i]),
    ));
    reveal_with_fuel(lines, 2);
    assert(seq![scalar(v)].drop_last() =~= Seq::<Seq<char>>::empty());
    assert(lines(seq![scalar(v)]) =~= scalar(v) + "\n"@);
}

} // verus!
