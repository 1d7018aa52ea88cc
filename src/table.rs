//! The record model: rows of string cells, the clean-up applied to a
//! worksheet's rows, and the records built by zipping headers with a row.
use vstd::prelude::*;
use crate::json::{insert_field, new_object, object_fields, objects_view};

verus! {

/// A row of cells, as plain character sequences.
pub type RowView = Seq<Seq<char>>;

/// A record: header/value pairs in column order.
pub type RecordView = Seq<(Seq<char>, Seq<char>)>;

/// Whether a character has the Unicode `White_Space` property, as
/// `char::is_whitespace` decides it.
pub open spec fn is_white(c: char) -> bool {
    let u = c as u32;
    (0x9 <= u && u <= 0xd) || u == 0x20 || u == 0x85 || u == 0xa0 || u == 0x1680 || (0x2000
        <= u && u <= 0x200a) || u == 0x2028 || u == 0x2029 || u == 0x202f || u == 0x205f || u
        == 0x3000
}

/// A cell with its leading and trailing whitespace removed.
pub open spec fn trimmed(s: Seq<char>) -> Seq<char>
    decreases s.len(),
{
    if s.len() > 0 && is_white(s[0]) {
        trimmed(s.drop_first())
    } else if s.len() > 0 && is_white(s.last()) {
        trimmed(s.drop_last())
    } else {
        s
    }
}

/// Relies on `str::trim`: the cell without its leading and trailing
/// characters that have the `White_Space` property.
#[verifier::external_body]
fn trim_cell(s: &String) -> (r: String)
    ensures
        r@ == trimmed(s@),
{
    s.trim().to_string()
}

/// A headers-plus-data table, as produced from one worksheet.
pub struct Table {
    pub headers: Vec<String>,
    pub rows: Vec<Vec<String>>,
}

/// The cell that a row holds at `i`, or the empty string past its end.
pub open spec fn cell_at(row: RowView, i: int) -> Seq<char> {
    if 0 <= i < row.len() {
        row[i]
    } else {
        Seq::empty()
    }
}

/// A row cut or padded with empty cells to exactly `width` cells.
pub open spec fn aligned(width: nat, row: RowView) -> RowView {
    Seq::new(width, |i: int| cell_at(row, i))
}

pub open spec fn clean_cell(c: Seq<char>, trim: bool) -> Seq<char> {
    if trim {
        trimmed(c)
    } else {
        c
    }
}

pub open spec fn clean_row(row: RowView, trim: bool) -> RowView {
    row.map_values(|c: Seq<char>| clean_cell(c, trim))
}

/// A row is blank when every one of its cells is the empty string.
pub open spec fn is_blank(row: RowView) -> bool {
    forall|i: int| 0 <= i < row.len() ==> #[trigger] row[i].len() == 0
}

/// The rows that survive the empty-row policy, in their original order.
pub open spec fn kept_rows(rows: Seq<RowView>, remove_empty: bool) -> Seq<RowView>
    decreases rows.len(),
{
    if rows.len() == 0 {
        Seq::empty()
    } else {
        let k = kept_rows(rows.drop_last(), remove_empty);
        if remove_empty && is_blank(rows.last()) {
            k
        } else {
            k.push(rows.last())
        }
    }
}

/// The header row of a sequence of rows: its first row, or none at all.
pub open spec fn header_of(rows: Seq<RowView>) -> RowView {
    if rows.len() > 0 {
        rows[0]
    } else {
        Seq::empty()
    }
}

/// The data rows of a sequence of rows: all rows after the first.
pub open spec fn data_of(rows: Seq<RowView>) -> Seq<RowView> {
    if rows.len() > 0 {
        rows.drop_first()
    } else {
        Seq::empty()
    }
}

/// The rows of a worksheet after the cell clean-up and the empty-row policy.
pub open spec fn normalized(raw: Seq<RowView>, remove_empty: bool, trim: bool) -> Seq<RowView> {
    kept_rows(raw.map_values(|r: RowView| clean_row(r, trim)), remove_empty)
}

/// Applies the whitespace policy to every cell of a row.
pub fn clean_cells(row: &Vec<String>, trim_whitespace: bool) -> (r: Vec<String>)
    ensures
        r.deep_view() == clean_row(row.deep_view(), trim_whitespace),
{
    let mut out: Vec<String> = Vec::new();
    let mut i: usize = 0;
    while i < row.len()
        invariant
            i <= row.len(),
            out.deep_view() == clean_row(row.deep_view().subrange(0, i as int), trim_whitespace),
        decreases row.len() - i,
    {
        let c = if trim_whitespace {
            trim_cell(&row[i])
        } else {
            row[i].clone()
        };
        assert(c@ == clean_cell(row.deep_view()[i as int], trim_whitespace));
        let ghost prev = out.deep_view();
        out.push(c);
        assert(out.deep_view() =~= prev.push(c@));
        i = i + 1;
        assert(out.deep_view() =~= clean_row(
            row.deep_view().subrange(0, i as int),
            trim_whitespace,
        ));
    }
    assert(row.deep_view().subrange(0, i as int) =~= row.deep_view());
    out
}

/// Whether every cell of a row is the empty string.
pub fn is_blank_row(row: &Vec<String>) -> (r: bool)
    ensures
        r == is_blank(row.deep_view()),
{
    let mut i: usize = 0;
    while i < row.len()
        invariant
            i <= row.len(),
            forall|j: int| 0 <= j < i ==> #[trigger] row.deep_view()[j].len() == 0,
        decreases row.len() - i,
    {
        if row[i].as_str().unicode_len() != 0 {
            assert(row.deep_view()[i as int].len() != 0);
            return false;
        }
        i = i + 1;
    }
    true
}

/// Applies the empty-row policy to rows whose cells are already cleaned,
/// then takes the first surviving row as the header row.
pub fn split_rows(rows: &Vec<Vec<String>>, remove_empty_rows: bool) -> (t: Table)
    ensures
        t.headers.deep_view() == header_of(kept_rows(rows.deep_view(), remove_empty_rows)),
        t.rows.deep_view() == data_of(kept_rows(rows.deep_view(), remove_empty_rows)),
{
    broadcast use vstd::std_specs::vec::vec_clone_deep_view_proof;

    let ghost all = rows.deep_view();
    let mut headers: Vec<String> = Vec::new();
    let mut data: Vec<Vec<String>> = Vec::new();
    let mut have_header: bool = false;
    let mut i: usize = 0;
    while i < rows.len()
        invariant
            i <= rows.len(),
            all == rows.deep_view(),
            have_header == (kept_rows(all.subrange(0, i as int), remove_empty_rows).len() > 0),
            headers.deep_view() == header_of(kept_rows(all.subrange(0, i as int), remove_empty_rows)),
            data.deep_view() == data_of(kept_rows(all.subrange(0, i as int), remove_empty_rows)),
        decreases rows.len() - i,
    {
        let ghost before = kept_rows(all.subrange(0, i as int), remove_empty_rows);
        assert(all.subrange(0, i as int + 1).drop_last() =~= all.subrange(0, i as int));
        assert(all.subrange(0, i as int + 1).last() == all[i as int]);
        let skip = remove_empty_rows && is_blank_row(&rows[i]);
        if !skip {
            let row = rows[i].clone();
            assert(row.deep_view() == all[i as int]);
            let ghost after = before.push(all[i as int]);
            if have_header {
                assert(data_of(after) =~= data_of(before).push(all[i as int]));
                data.push(row);
                assert(data.deep_view() =~= data_of(after));
            } else {
                assert(data_of(after) =~= Seq::<RowView>::empty());
                headers = row;
                have_header = true;
            }
        }
        i = i + 1;
    }
    assert(all.subrange(0, i as int) =~= all);
    Table { headers, rows: data }
}

/// Turns a worksheet's raw rows into headers and data rows: cells are
/// trimmed when `trim_whitespace` is set, blank rows are dropped when
/// `remove_empty_rows` is set, and the first surviving row is the header row.
pub fn normalize_rows(raw: &Vec<Vec<String>>, remove_empty_rows: bool, trim_whitespace: bool) -> (t: Table)
    ensures
        t.headers.deep_view() == header_of(normalized(raw.deep_view(), remove_empty_rows, trim_whitespace)),
        t.rows.deep_view() == data_of(normalized(raw.deep_view(), remove_empty_rows, trim_whitespace)),
{
    let mut cleaned: Vec<Vec<String>> = Vec::new();
    let mut i: usize = 0;
    while i < raw.len()
        invariant
            i <= raw.len(),
            cleaned.deep_view() == raw.deep_view().subrange(0, i as int).map_values(
                |r: RowView| clean_row(r, trim_whitespace),
            ),
        decreases raw.len() - i,
    {
        let row = clean_cells(&raw[i], trim_whitespace);
        let ghost prev = cleaned.deep_view();
        cleaned.push(row);
        assert(cleaned.deep_view() =~= prev.push(row.deep_view()));
        i = i + 1;
        assert(cleaned.deep_view() =~= raw.deep_view().subrange(0, i as int).map_values(
            |r: RowView| clean_row(r, trim_whitespace),
        ));
    }
    assert(raw.deep_view().subrange(0, i as int) =~= raw.deep_view());
    split_rows(&cleaned, remove_empty_rows)
}

/// A record with the pair `(k, v)` written into it: the value replaces the
/// one under the first equal key in place, or the pair is appended.
pub open spec fn upsert(rec: RecordView, k: Seq<char>, v: Seq<char>) -> RecordView
    decreases rec.len(),
{
    if rec.len() == 0 {
        seq![(k, v)]
    } else if rec[0].0 == k {
        rec.update(0, (k, v))
    } else {
        seq![rec[0]] + upsert(rec.drop_first(), k, v)
    }
}

/// The record built from the first `n` headers: each header is written in
/// turn with the cell in its column, so a later equal header wins.
pub open spec fn record_prefix(headers: RowView, row: RowView, n: nat) -> RecordView
    decreases n,
{
    if n == 0 || n > headers.len() {
        Seq::empty()
    } else {
        upsert(
            record_prefix(headers, row, (n - 1) as nat),
            headers[n - 1],
            cell_at(row, n - 1),
        )
    }
}

/// The record that pairs every header with the cell in its column.
pub open spec fn record_of(headers: RowView, row: RowView) -> RecordView {
    record_prefix(headers, row, headers.len())
}

/// One record per data row, in row order.
pub open spec fn records_of(headers: RowView, rows: Seq<RowView>) -> Seq<RecordView> {
    rows.map_values(|r: RowView| record_of(headers, r))
}

/// The keys of a record, in order.
pub open spec fn keys_of(rec: RecordView) -> Seq<Seq<char>> {
    rec.map_values(|p: (Seq<char>, Seq<char>)| p.0)
}

/// The headers with every repeat of an earlier header left out.
pub open spec fn first_occurrences(s: Seq<Seq<char>>) -> Seq<Seq<char>>
    decreases s.len(),
{
    if s.len() == 0 {
        Seq::empty()
    } else {
        let d = first_occurrences(s.drop_last());
        if d.contains(s.last()) {
            d
        } else {
            d.push(s.last())
        }
    }
}

proof fn lemma_upsert_keys(rec: RecordView, k: Seq<char>, v: Seq<char>)
    ensures
        keys_of(upsert(rec, k, v)) == if keys_of(rec).contains(k) {
            keys_of(rec)
        } else {
            keys_of(rec).push(k)
        },
    decreases rec.len(),
{
    if rec.len() == 0 {
        assert(keys_of(upsert(rec, k, v)) =~= keys_of(rec).push(k));
    } else if rec[0].0 == k {
        assert(keys_of(rec)[0] == k);
        assert(keys_of(upsert(rec, k, v)) =~= keys_of(rec));
    } else {
        let t = rec.drop_first();
        lemma_upsert_keys(t, k, v);
        assert(keys_of(rec) =~= seq![rec[0].0] + keys_of(t));
        assert(keys_of(upsert(rec, k, v)) =~= seq![rec[0].0] + keys_of(upsert(t, k, v)));
        if keys_of(t).contains(k) {
            let j = choose|j: int| 0 <= j < keys_of(t).len() && keys_of(t)[j] == k;
            assert(keys_of(rec)[j + 1] == k);
        } else {
            assert forall|j: int| 0 <= j < keys_of(rec).len() implies keys_of(rec)[j] != k by {
                if j > 0 {
                    assert(keys_of(rec)[j] == keys_of(t)[j - 1]);
                }
            }
            assert(keys_of(upsert(rec, k, v)) =~= keys_of(rec).push(k));
        }
    }
}

proof fn lemma_record_prefix_keys(headers: RowView, row: RowView, n: nat)
    requires
        n <= headers.len(),
    ensures
        keys_of(record_prefix(headers, row, n)) == first_occurrences(headers.subrange(0, n as int)),
    decreases n,
{
    if n == 0 {
        assert(keys_of(record_prefix(headers, row, n)) =~= Seq::<Seq<char>>::empty());
    } else {
        lemma_record_prefix_keys(headers, row, (n - 1) as nat);
        lemma_upsert_keys(record_prefix(headers, row, (n - 1) as nat), headers[n - 1], cell_at(row, n - 1));
        assert(headers.subrange(0, n as int).drop_last() =~= headers.subrange(0, n - 1));
    }
}

proof fn lemma_first_occurrences_len(s: Seq<Seq<char>>)
    ensures
        first_occurrences(s).len() <= s.len(),
    decreases s.len(),
{
    if s.len() > 0 {
        lemma_first_occurrences_len(s.drop_last());
    }
}

/// Every record built from a table has one entry per distinct header, and
/// its keys are the headers in column order with repeats left out: there is
/// one record per data row, each with at most as many keys as there are
/// headers.
pub proof fn records_follow_headers(headers: RowView, rows: Seq<RowView>)
    ensures
        records_of(headers, rows).len() == rows.len(),
        forall|i: int| 0 <= i < rows.len() ==>
            keys_of(#[trigger] records_of(headers, rows)[i]) == first_occurrences(headers),
        first_occurrences(headers).len() <= headers.len(),
{
    assert forall|i: int| 0 <= i < rows.len() implies
        keys_of(#[trigger] records_of(headers, rows)[i]) == first_occurrences(headers) by {
        lemma_record_prefix_keys(headers, rows[i], headers.len());
        assert(headers.subrange(0, headers.len() as int) =~= headers);
    }
    lemma_first_occurrences_len(headers);
}

/// Builds the record of one row as an object: each header in turn is
/// inserted with the cell in its column (the empty string past the row's
/// end); cells past the last header are dropped, and a later equal header
/// wins.
pub fn build_record(headers: &Vec<String>, row: &Vec<String>) -> (r: serde_json::Map<String, serde_json::Value>)
    ensures
        object_fields(r) == record_of(headers.deep_view(), row.deep_view()),
{
    let mut rec = new_object();
    let mut n: usize = 0;
    while n < headers.len()
        invariant
            n <= headers.len(),
            object_fields(rec) == record_prefix(headers.deep_view(), row.deep_view(), n as nat),
        decreases headers.len() - n,
    {
        let v = if n < row.len() {
            row[n].clone()
        } else {
            String::new()
        };
        assert(v@ == cell_at(row.deep_view(), n as int));
        insert_field(&mut rec, headers[n].clone(), v);
        n = n + 1;
    }
    rec
}

/// Builds one record per data row, in row order.
pub fn build_records(headers: &Vec<String>, rows: &Vec<Vec<String>>) -> (r: Vec<serde_json::Map<String, serde_json::Value>>)
    ensures
        objects_view(r@) == records_of(headers.deep_view(), rows.deep_view()),
{
    let mut out: Vec<serde_json::Map<String, serde_json::Value>> = Vec::new();
    let mut i: usize = 0;
    while i < rows.len()
        invariant
            i <= rows.len(),
            objects_view(out@) == records_of(headers.deep_view(), rows.deep_view().subrange(0, i as int)),
        decreases rows.len() - i,
    {
        let rec = build_record(headers, &rows[i]);
        let ghost prev = out@;
        out.push(rec);
        assert(objects_view(out@) =~= objects_view(prev).push(object_fields(rec)));
        i = i + 1;
        assert(objects_view(out@) =~= records_of(headers.deep_view(), rows.deep_view().subrange(0, i as int)));
    }
    assert(rows.deep_view().subrange(0, i as int) =~= rows.deep_view());
    out
}

/// A row cut or padded with empty cells to exactly `width` cells.
pub fn align_row(width: usize, row: &Vec<String>) -> (r: Vec<String>)
    ensures
        r.deep_view() == aligned(width as nat, row.deep_view()),
{
    let mut out: Vec<String> = Vec::new();
    let mut i: usize = 0;
    while i < width
        invariant
            i <= width,
            out.deep_view() == aligned(i as nat, row.deep_view()),
        decreases width - i,
    {
        let c = if i < row.len() {
            row[i].clone()
        } else {
            String::new()
        };
        let ghost prev = out.deep_view();
        out.push(c);
        assert(out.deep_view() =~= prev.push(c@));
        i = i + 1;
        assert(out.deep_view() =~= aligned(i as nat, row.deep_view()));
    }
    out
}

} // verus!
