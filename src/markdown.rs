//! Markdown table rendering.
use vstd::prelude::*;
use crate::table::{RowView, align_row, aligned};

verus! {

/// What a cell character becomes inside a Markdown table cell.
pub open spec fn escape_char(c: char) -> Seq<char> {
    if c == '|' {
        seq!['\\', '|']
    } else if c == '\n' {
        seq!['<', 'b', 'r', '>']
    } else {
        seq![c]
    }
}

/// A cell with `|` escaped as `\|` and each newline replaced by `<br>`.
pub open spec fn escape_md(s: Seq<char>) -> Seq<char>
    decreases s.len(),
{
    if s.len() == 0 {
        Seq::empty()
    } else {
        escape_md(s.drop_last()) + escape_char(s.last())
    }
}

/// `| c1 | c2 | ... | ` without the line end.
pub open spec fn md_cells(cells: RowView) -> Seq<char>
    decreases cells.len(),
{
    if cells.len() == 0 {
        seq!['|', ' ']
    } else {
        md_cells(cells.drop_last()) + cells.last() + seq![' ', '|', ' ']
    }
}

/// One table line: the cells between pipes, then a newline.
pub open spec fn md_line(cells: RowView) -> Seq<char> {
    md_cells(cells).push('\n')
}

/// The separator row: one `---` per column.
pub open spec fn md_separator(width: nat) -> RowView {
    Seq::new(width, |i: int| seq!['-', '-', '-'])
}

/// A data row as it stands in the table: aligned to the header count, each
/// cell escaped.
pub open spec fn md_data_cells(width: nat, row: RowView) -> RowView {
    aligned(width, row).map_values(|c: Seq<char>| escape_md(c))
}

/// The data lines of a table, in row order.
pub open spec fn md_body(width: nat, rows: Seq<RowView>) -> Seq<char>
    decreases rows.len(),
{
    if rows.len() == 0 {
        Seq::empty()
    } else {
        md_body(width, rows.drop_last()) + md_line(md_data_cells(width, rows.last()))
    }
}

/// The whole Markdown table: header line, separator line, data lines.
pub open spec fn markdown_text(headers: RowView, rows: Seq<RowView>) -> Seq<char> {
    md_line(headers) + md_line(md_separator(headers.len())) + md_body(headers.len(), rows)
}

/// Relies on `String::push`: appends one character.
#[verifier::external_body]
fn push_char(s: &mut String, c: char)
    ensures
        final(s)@ == old(s)@.push(c),
{
    s.push(c)
}

/// Escapes a cell for a Markdown table: `|` becomes `\|` and a newline
/// becomes `<br>`, so the cell stays on one line and inside its column.
pub fn escape_cell(cell: &str) -> (r: String)
    ensures
        r@ == escape_md(cell@),
{
    let mut out = String::new();
    let n = cell.unicode_len();
    let mut i: usize = 0;
    while i < n
        invariant
            i <= n,
            n == cell@.len(),
            out@ == escape_md(cell@.subrange(0, i as int)),
        decreases n - i,
    {
        let c = cell.get_char(i);
        assert(cell@.subrange(0, i as int + 1).drop_last() =~= cell@.subrange(0, i as int));
        if c == '|' {
            push_char(&mut out, '\\');
            push_char(&mut out, '|');
        } else if c == '\n' {
            proof {
                reveal_strlit("<br>");
            }
            out.append("<br>");
        } else {
            push_char(&mut out, c);
        }
        i = i + 1;
        assert(out@ =~= escape_md(cell@.subrange(0, i as int)));
    }
    assert(cell@.subrange(0, i as int) =~= cell@);
    out
}

/// Appends `| c1 | c2 | ... | ` and a newline.
fn push_line(out: &mut String, cells: &Vec<String>)
    ensures
        final(out)@ == old(out)@ + md_line(cells.deep_view()),
{
    proof {
        reveal_strlit("| ");
        reveal_strlit(" | ");
    }
    let ghost start = out@;
    out.append("| ");
    let mut i: usize = 0;
    while i < cells.len()
        invariant
            i <= cells.len(),
            out@ == start + md_cells(cells.deep_view().subrange(0, i as int)),
        decreases cells.len() - i,
    {
        assert(cells.deep_view().subrange(0, i as int + 1).drop_last()
            =~= cells.deep_view().subrange(0, i as int));
        let ghost sub = cells.deep_view().subrange(0, i as int + 1);
        assert(sub.last() == cells[i as int]@);
        assert(md_cells(sub) == md_cells(sub.drop_last()) + sub.last() + seq![' ', '|', ' ']);
        let ghost before = out@;
        out.append(cells[i].as_str());
        out.append(" | ");
        proof {
            reveal_strlit(" | ");
        }
        assert(" | "@ =~= seq![' ', '|', ' ']);
        assert(out@ =~= before + sub.last() + seq![' ', '|', ' ']);
        i = i + 1;
        assert(out@ =~= start + md_cells(cells.deep_view().subrange(0, i as int)));
    }
    assert(cells.deep_view().subrange(0, i as int) =~= cells.deep_view());
    push_char(out, '\n');
    assert(out@ =~= start + md_line(cells.deep_view()));
}

/// Renders a table as Markdown: the header line, a `---` separator per
/// column, then one line per data row, each aligned to the header count and
/// with its cells escaped.
pub fn render_markdown(headers: &Vec<String>, rows: &Vec<Vec<String>>) -> (r: String)
    ensures
        r@ == markdown_text(headers.deep_view(), rows.deep_view()),
{
    let width = headers.len();
    let mut out = String::new();
    push_line(&mut out, headers);
    let mut sep: Vec<String> = Vec::new();
    let mut k: usize = 0;
    while k < width
        invariant
            k <= width,
            sep.deep_view() == md_separator(k as nat),
        decreases width - k,
    {
        proof {
            reveal_strlit("---");
        }
        let ghost prev = sep.deep_view();
        let dash = String::from_str("---");
        assert(dash@ =~= seq!['-', '-', '-']);
        sep.push(dash);
        assert(sep.deep_view() =~= prev.push(dash@));
        k = k + 1;
        assert(sep.deep_view() =~= md_separator(k as nat));
    }
    push_line(&mut out, &sep);
    let ghost head = out@;
    assert(head == markdown_text(headers.deep_view(), Seq::empty()));
    let mut i: usize = 0;
    while i < rows.len()
        invariant
            i <= rows.len(),
            width == headers.len(),
            head == md_line(headers.deep_view()) + md_line(md_separator(width as nat)),
            out@ == head + md_body(width as nat, rows.deep_view().subrange(0, i as int)),
        decreases rows.len() - i,
    {
        let row = align_row(width, &rows[i]);
        let mut cells: Vec<String> = Vec::new();
        let mut j: usize = 0;
        while j < row.len()
            invariant
                j <= row.len(),
                cells.deep_view() == row.deep_view().subrange(0, j as int).map_values(
                    |c: Seq<char>| escape_md(c),
                ),
            decreases row.len() - j,
        {
            let e = escape_cell(row[j].as_str());
            let ghost prev = cells.deep_view();
            cells.push(e);
            assert(cells.deep_view() =~= prev.push(e@));
            j = j + 1;
            assert(cells.deep_view() =~= row.deep_view().subrange(0, j as int).map_values(
                |c: Seq<char>| escape_md(c),
            ));
        }
        assert(row.deep_view().subrange(0, j as int) =~= row.deep_view());
        assert(cells.deep_view() == md_data_cells(width as nat, rows.deep_view()[i as int]));
        push_line(&mut out, &cells);
        assert(rows.deep_view().subrange(0, i as int + 1).drop_last()
            =~= rows.deep_view().subrange(0, i as int));
        i = i + 1;
        assert(out@ =~= head + md_body(width as nat, rows.deep_view().subrange(0, i as int)));
    }
    assert(rows.deep_view().subrange(0, i as int) =~= rows.deep_view());
    out
}

proof fn lemma_escape_md_shape(s: Seq<char>)
    ensures
        forall|i: int| 0 <= i < escape_md(s).len() ==> #[trigger] escape_md(s)[i] != '\n',
        forall|i: int| 0 <= i < escape_md(s).len() && #[trigger] escape_md(s)[i] == '|'
            ==> i > 0 && escape_md(s)[i - 1] == '\\',
    decreases s.len(),
{
    if s.len() > 0 {
        lemma_escape_md_shape(s.drop_last());
        let p = escape_md(s.drop_last());
        let e = escape_char(s.last());
        assert(escape_md(s) == p + e);
        assert forall|i: int| 0 <= i < escape_md(s).len() && #[trigger] escape_md(s)[i] == '|'
            implies i > 0 && escape_md(s)[i - 1] == '\\' by {
            if i >= p.len() {
                assert(e[i - p.len()] == '|');
            } else {
                assert(p[i] == '|');
            }
        }
        assert forall|i: int| 0 <= i < escape_md(s).len() implies #[trigger] escape_md(s)[i] != '\n' by {
            if i >= p.len() {
                assert(escape_md(s)[i] == e[i - p.len()]);
            } else {
                assert(escape_md(s)[i] == p[i]);
            }
        }
    }
}

proof fn lemma_md_cells_no_newline(cells: RowView)
    requires
        forall|j: int, i: int| 0 <= j < cells.len() && 0 <= i < cells[j].len() ==> #[trigger] cells[j][i] != '\n',
    ensures
        forall|i: int| 0 <= i < md_cells(cells).len() ==> #[trigger] md_cells(cells)[i] != '\n',
    decreases cells.len(),
{
    if cells.len() > 0 {
        let d = cells.drop_last();
        assert forall|j: int, i: int| 0 <= j < d.len() && 0 <= i < d[j].len() implies #[trigger] d[j][i] != '\n' by {
            assert(d[j] == cells[j]);
        }
        lemma_md_cells_no_newline(d);
        let a = md_cells(d);
        let b = cells.last();
        let t = seq![' ', '|', ' '];
        assert forall|i: int| 0 <= i < md_cells(cells).len() implies #[trigger] md_cells(cells)[i] != '\n' by {
            if i < a.len() {
                assert(md_cells(cells)[i] == a[i]);
            } else if i < a.len() + b.len() {
                assert(md_cells(cells)[i] == b[i - a.len()]);
                assert(cells[cells.len() - 1][i - a.len()] != '\n');
            } else {
                assert(md_cells(cells)[i] == t[i - a.len() - b.len()]);
            }
        }
    }
}

/// Escaping keeps every data row of a Markdown table on one line: an
/// escaped cell holds no newline and each `|` in it is preceded by `\`, and
/// the line of a data row holds a newline only as its last character.
pub proof fn markdown_row_is_one_line(cell: Seq<char>, width: nat, row: RowView)
    ensures
        forall|i: int| 0 <= i < escape_md(cell).len() ==> #[trigger] escape_md(cell)[i] != '\n',
        forall|i: int| 0 <= i < escape_md(cell).len() && #[trigger] escape_md(cell)[i] == '|'
            ==> i > 0 && escape_md(cell)[i - 1] == '\\',
        md_line(md_data_cells(width, row)).last() == '\n',
        forall|i: int| 0 <= i < md_line(md_data_cells(width, row)).len() - 1
            ==> #[trigger] md_line(md_data_cells(width, row))[i] != '\n',
{
    lemma_escape_md_shape(cell);
    let cells = md_data_cells(width, row);
    assert forall|j: int, i: int| 0 <= j < cells.len() && 0 <= i < cells[j].len() implies #[trigger] cells[j][i] != '\n' by {
        lemma_escape_md_shape(aligned(width, row)[j]);
    }
    lemma_md_cells_no_newline(cells);
    let l = md_line(cells);
    assert forall|i: int| 0 <= i < l.len() - 1 implies #[trigger] l[i] != '\n' by {
        assert(l[i] == md_cells(cells)[i]);
    }
}

} // verus!
