//! The two conversions: delimited text to one JSON, YAML or TOML document,
//! and a worksheet's rows to a document in any format.
use vstd::prelude::*;
use crate::encode::{json_text_of, csv_rows_of, encode_table, read_rows, table_outcome, text_result};
use crate::error::ConvertError;
use crate::format::{OutFormat, format_name};
use crate::table::{first_occurrences, keys_of, records_follow_headers, records_of, RowView, data_of, header_of, kept_rows, normalize_rows, normalized, split_rows};

verus! {

/// The outcome of converting delimited text: CSV and Markdown are refused,
/// malformed text gives `Parse`, and otherwise the first record is the
/// header row and every later record a data row.
pub open spec fn csv_outcome(text: Seq<char>, delimiter: u8, format: OutFormat) -> Result<Seq<char>, ConvertError> {
    if !format.spec_single_table() {
        Err(ConvertError::UnsupportedFormat)
    } else {
        match csv_rows_of(text, delimiter) {
            Some(rows) => table_outcome(format, header_of(rows), data_of(rows)),
            None => Err(ConvertError::Parse),
        }
    }
}

/// The outcome of converting a worksheet's rows.
pub open spec fn sheet_outcome(raw: Seq<RowView>, format: OutFormat, remove_empty: bool, trim: bool) -> Result<Seq<char>, ConvertError> {
    let rows = normalized(raw, remove_empty, trim);
    table_outcome(format, header_of(rows), data_of(rows))
}

/// The name of the file that holds one sheet's output:
/// `<stem>_<sheet>.<format name>`.
pub open spec fn sheet_file_name(stem: Seq<char>, sheet: Seq<char>, format: OutFormat) -> Seq<char> {
    stem + seq!['_'] + sheet + seq!['.'] + format_name(format)
}

proof fn lemma_kept_rows_all(rows: Seq<RowView>)
    ensures
        kept_rows(rows, false) == rows,
    decreases rows.len(),
{
    if rows.len() > 0 {
        lemma_kept_rows_all(rows.drop_last());
        assert(rows.drop_last().push(rows.last()) =~= rows);
    }
}

/// Converts rows that were read from delimited text: the first row gives the
/// headers and each later row one record. Only JSON, YAML and TOML are
/// produced; CSV and Markdown are refused before anything is encoded.
pub fn convert_rows(rows: &Vec<Vec<String>>, format: OutFormat) -> (r: Result<String, ConvertError>)
    ensures
        text_result(r) == if format.spec_single_table() {
            table_outcome(format, header_of(rows.deep_view()), data_of(rows.deep_view()))
        } else {
            Err(ConvertError::UnsupportedFormat)
        },
        format == OutFormat::Json ==> r is Ok,
{
    if !format.single_table() {
        return Err(ConvertError::UnsupportedFormat);
    }
    proof {
        lemma_kept_rows_all(rows.deep_view());
    }
    let table = split_rows(rows, false);
    encode_table(format, &table.headers, &table.rows)
}

/// Converts delimited text to one JSON, YAML or TOML document. CSV and
/// Markdown are refused with `UnsupportedFormat` before the text is read;
/// malformed text gives `Parse`. JSON output of well-formed text always
/// succeeds.
pub fn csv_to_text(text: &str, delimiter: u8, format: OutFormat) -> (r: Result<String, ConvertError>)
    ensures
        text_result(r) == csv_outcome(text@, delimiter, format),
        format == OutFormat::Json && csv_rows_of(text@, delimiter) is Some ==> r is Ok,
{
    if !format.single_table() {
        return Err(ConvertError::UnsupportedFormat);
    }
    let rows = read_rows(text, delimiter)?;
    convert_rows(&rows, format)
}

/// Converts one worksheet's rows: the cells are cleaned, blank rows dropped
/// as the flags say, the first remaining row taken as headers, and the table
/// encoded in `format`. JSON, CSV and Markdown output always succeed.
pub fn convert_sheet(
    raw: &Vec<Vec<String>>,
    format: OutFormat,
    remove_empty_rows: bool,
    trim_whitespace: bool,
) -> (r: Result<String, ConvertError>)
    ensures
        text_result(r) == sheet_outcome(raw.deep_view(), format, remove_empty_rows, trim_whitespace),
        format != OutFormat::Yaml && format != OutFormat::Toml ==> r is Ok,
{
    let table = normalize_rows(raw, remove_empty_rows, trim_whitespace);
    encode_table(format, &table.headers, &table.rows)
}

/// The name of the file for one sheet: `<stem>_<sheet>.<format name>`.
pub fn sheet_file(stem: &str, sheet: &str, format: OutFormat) -> (r: String)
    ensures
        r@ == sheet_file_name(stem@, sheet@, format),
{
    proof {
        reveal_strlit("_");
        reveal_strlit(".");
    }
    let mut name = String::from_str(stem);
    name.append("_");
    name.append(sheet);
    name.append(".");
    name.append(format.as_str());
    assert(name@ =~= sheet_file_name(stem@, sheet@, format));
    name
}

/// Converting well-formed delimited text to JSON succeeds, and encodes one
/// record per data row; each record's keys are the headers in column order
/// with repeats left out, so no record has more keys than there are
/// headers.
pub proof fn csv_json_has_one_record_per_row(text: Seq<char>, delimiter: u8)
    requires
        csv_rows_of(text, delimiter) is Some,
    ensures
        ({
            let rows = csv_rows_of(text, delimiter)->Some_0;
            let recs = records_of(header_of(rows), data_of(rows));
            &&& csv_outcome(text, delimiter, OutFormat::Json) == Ok::<Seq<char>, ConvertError>(json_text_of(recs))
            &&& recs.len() == data_of(rows).len()
            &&& forall|i: int| 0 <= i < recs.len() ==> keys_of(#[trigger] recs[i]) == first_occurrences(header_of(rows))
            &&& first_occurrences(header_of(rows)).len() <= header_of(rows).len()
        }),
{
    let rows = csv_rows_of(text, delimiter)->Some_0;
    records_follow_headers(header_of(rows), data_of(rows));
}

} // verus!
