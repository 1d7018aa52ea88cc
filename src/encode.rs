//! Encoders from a table (headers and data rows) to JSON, YAML, TOML, CSV
//! and Markdown text, and the reading of delimited text into rows.
use vstd::prelude::*;
use crate::error::ConvertError;
use crate::format::OutFormat;
use crate::json::objects_view;
use crate::markdown::{markdown_text, render_markdown};
use crate::table::{RecordView, RowView, align_row, aligned, build_records, records_of};

verus! {

#[verifier::external_type_specification]
#[verifier::external_body]
pub struct ExJsonError(serde_json::Error);

#[verifier::external_type_specification]
#[verifier::external_body]
pub struct ExYamlError(serde_yaml::Error);

#[verifier::external_type_specification]
#[verifier::external_body]
pub struct ExTomlError(toml::ser::Error);

#[verifier::external_type_specification]
#[verifier::external_body]
pub struct ExCsvError(csv::Error);

/// The pretty-printed JSON array of objects for a list of records.
pub uninterp spec fn json_text_of(records: Seq<RecordView>) -> Seq<char>;

/// The YAML sequence of mappings for a list of records, or `None` where
/// the encoder refuses them.
pub uninterp spec fn yaml_result_of(records: Seq<RecordView>) -> Option<Seq<char>>;

/// The TOML document that holds a list of records as an array of tables
/// under one top-level key, or `None` where the encoder refuses them.
pub uninterp spec fn toml_result_of(key: Seq<char>, records: Seq<RecordView>) -> Option<Seq<char>>;

/// One CSV line (with its line end) for a list of fields.
pub uninterp spec fn csv_line_of(fields: RowView) -> Seq<char>;

/// The records of delimited text, read without treating any as headers and
/// with records of any length, or `None` where the text is malformed.
pub uninterp spec fn csv_rows_of(text: Seq<char>, delimiter: u8) -> Option<Seq<RowView>>;

/// Relies on `serde_json::to_string_pretty`: string-keyed objects of string
/// values always serialize, and the text is a function of the records.
#[verifier::external_body]
fn json_pretty(records: &Vec<serde_json::Map<String, serde_json::Value>>) -> (r: Result<String, serde_json::Error>)
    ensures
        r is Ok,
        r matches Ok(s) ==> s@ == json_text_of(objects_view(records@)),
{
    serde_json::to_string_pretty(records)
}

/// Relies on `serde_yaml::to_string`: its outcome is a function of the
/// records alone.
#[verifier::external_body]
fn yaml_string(records: &Vec<serde_json::Map<String, serde_json::Value>>) -> (r: Result<String, serde_yaml::Error>)
    ensures
        match yaml_result_of(objects_view(records@)) {
            Some(t) => r matches Ok(s) && s@ == t,
            None => r is Err,
        },
{
    serde_yaml::to_string(records)
}

/// Relies on `toml::to_string`, given a table whose one key `key` holds one
/// table per record: its outcome is a function of the key and records alone.
#[verifier::external_body]
fn toml_string(key: &str, records: &Vec<serde_json::Map<String, serde_json::Value>>) -> (r: Result<String, toml::ser::Error>)
    ensures
        match toml_result_of(key@, objects_view(records@)) {
            Some(t) => r matches Ok(s) && s@ == t,
            None => r is Err,
        },
{
    let tables: Vec<serde_json::Value> = records.iter().cloned().map(serde_json::Value::Object).collect();
    let mut top = serde_json::Map::new();
    top.insert(key.to_string(), serde_json::Value::Array(tables));
    toml::to_string(&top)
}

/// Relies on `csv::Writer::write_record` and `into_inner` on an in-memory
/// writer: one record, the first of its writer, always goes through, written
/// with the default quoting and `\n` line end.
#[verifier::external_body]
fn csv_line(fields: &Vec<String>) -> (r: Result<String, csv::Error>)
    ensures
        r is Ok,
        r matches Ok(s) ==> s@ == csv_line_of(fields.deep_view()),
{
    let mut w = csv::Writer::from_writer(Vec::new());
    w.write_record(fields)?;
    let bytes = w.into_inner().map_err(|e| csv::Error::from(e.into_error()))?;
    Ok(String::from_utf8_lossy(&bytes).into_owned())
}

/// Relies on `csv::ReaderBuilder` with the given delimiter, no header row
/// and records of any length: its outcome is a function of the text and
/// delimiter alone.
#[verifier::external_body]
fn read_csv_rows(text: &str, delimiter: u8) -> (r: Result<Vec<Vec<String>>, csv::Error>)
    ensures
        match csv_rows_of(text@, delimiter) {
            Some(rows) => r matches Ok(x) && x.deep_view() == rows,
            None => r is Err,
        },
{
    let mut reader = csv::ReaderBuilder::new().delimiter(delimiter).has_headers(false).flexible(true).from_reader(text.as_bytes());
    reader.records().map(|rec| rec.map(|rec| rec.iter().map(String::from).collect())).collect()
}

/// The key under which TOML output holds its array of tables.
pub open spec fn records_key() -> Seq<char> {
    seq!['r', 'e', 'c', 'o', 'r', 'd', 's']
}

/// The CSV lines of the data rows, each aligned to `width` fields.
pub open spec fn csv_body(width: nat, rows: Seq<RowView>) -> Seq<char>
    decreases rows.len(),
{
    if rows.len() == 0 {
        Seq::empty()
    } else {
        csv_body(width, rows.drop_last()) + csv_line_of(aligned(width, rows.last()))
    }
}

/// CSV text of a table: the header line, then one line per data row with as
/// many fields as there are headers.
pub open spec fn csv_text(headers: RowView, rows: Seq<RowView>) -> Seq<char> {
    csv_line_of(headers) + csv_body(headers.len(), rows)
}

/// What a result holds, with its text as characters.
pub open spec fn text_result(r: Result<String, ConvertError>) -> Result<Seq<char>, ConvertError> {
    match r {
        Ok(s) => Ok(s@),
        Err(e) => Err(e),
    }
}

/// An encoder's outcome: its text, or `Serialization` where it refused.
pub open spec fn encoded(t: Option<Seq<char>>) -> Result<Seq<char>, ConvertError> {
    match t {
        Some(s) => Ok(s),
        None => Err(ConvertError::Serialization),
    }
}

/// The outcome of encoding a table in a format. JSON, CSV and Markdown
/// always succeed.
pub open spec fn table_outcome(format: OutFormat, headers: RowView, rows: Seq<RowView>) -> Result<Seq<char>, ConvertError> {
    match format {
        OutFormat::Json => Ok(json_text_of(records_of(headers, rows))),
        OutFormat::Yaml => encoded(yaml_result_of(records_of(headers, rows))),
        OutFormat::Toml => encoded(toml_result_of(records_key(), records_of(headers, rows))),
        OutFormat::Csv => Ok(csv_text(headers, rows)),
        OutFormat::Markdown => Ok(markdown_text(headers, rows)),
    }
}

/// Encodes a table as CSV: the header line, then each data row cut or
/// padded to the header count.
pub fn encode_csv(headers: &Vec<String>, rows: &Vec<Vec<String>>) -> (r: Result<String, ConvertError>)
    ensures
        r matches Ok(s) && s@ == csv_text(headers.deep_view(), rows.deep_view()),
{
    let mut out = match csv_line(headers) {
        Ok(s) => s,
        Err(_) => {
            return Err(ConvertError::Serialization);
        },
    };
    let width = headers.len();
    let mut i: usize = 0;
    while i < rows.len()
        invariant
            i <= rows.len(),
            width == headers.len(),
            out@ == csv_line_of(headers.deep_view()) + csv_body(
                width as nat,
                rows.deep_view().subrange(0, i as int),
            ),
        decreases rows.len() - i,
    {
        let row = align_row(width, &rows[i]);
        let line = match csv_line(&row) {
            Ok(s) => s,
            Err(_) => {
                return Err(ConvertError::Serialization);
            },
        };
        out.append(line.as_str());
        assert(rows.deep_view().subrange(0, i as int + 1).drop_last()
            =~= rows.deep_view().subrange(0, i as int));
        i = i + 1;
        assert(out@ =~= csv_line_of(headers.deep_view()) + csv_body(
            width as nat,
            rows.deep_view().subrange(0, i as int),
        ));
    }
    assert(rows.deep_view().subrange(0, i as int) =~= rows.deep_view());
    Ok(out)
}

/// Encodes a table in the given format. JSON, CSV and Markdown always
/// succeed; YAML and TOML fail with `Serialization` exactly where their
/// encoder refuses the records.
pub fn encode_table(format: OutFormat, headers: &Vec<String>, rows: &Vec<Vec<String>>) -> (r: Result<String, ConvertError>)
    ensures
        text_result(r) == table_outcome(format, headers.deep_view(), rows.deep_view()),
        format != OutFormat::Yaml && format != OutFormat::Toml ==> r is Ok,
{
    match format {
        OutFormat::Json => {
            let records = build_records(headers, rows);
            match json_pretty(&records) {
                Ok(s) => Ok(s),
                Err(_) => Err(ConvertError::Serialization),
            }
        },
        OutFormat::Yaml => {
            let records = build_records(headers, rows);
            match yaml_string(&records) {
                Ok(s) => Ok(s),
                Err(_) => Err(ConvertError::Serialization),
            }
        },
        OutFormat::Toml => {
            let records = build_records(headers, rows);
            proof {
                reveal_strlit("records");
            }
            assert("records"@ =~= records_key());
            match toml_string("records", &records) {
                Ok(s) => Ok(s),
                Err(_) => Err(ConvertError::Serialization),
            }
        },
        OutFormat::Csv => encode_csv(headers, rows),
        OutFormat::Markdown => Ok(render_markdown(headers, rows)),
    }
}

/// Reads delimited text into rows, none of them taken as headers; rows may
/// differ in length. Malformed text gives `Parse`.
pub fn read_rows(text: &str, delimiter: u8) -> (r: Result<Vec<Vec<String>>, ConvertError>)
    ensures
        match csv_rows_of(text@, delimiter) {
            Some(rows) => r matches Ok(x) && x.deep_view() == rows,
            None => r == Err::<Vec<Vec<String>>, ConvertError>(ConvertError::Parse),
        },
{
    match read_csv_rows(text, delimiter) {
        Ok(rows) => Ok(rows),
        Err(_) => Err(ConvertError::Parse),
    }
}

} // verus!
