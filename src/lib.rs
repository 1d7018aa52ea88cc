//! Conversion of tabular data (delimited text, worksheet rows) into JSON,
//! YAML, TOML, CSV and Markdown text.
//!
//! A table is a header row and data rows of string cells. Records pair each
//! header with the cell in its column; worksheet rows are first cleaned
//! (trimmed, blank rows dropped) as the caller's flags say.
pub mod encode;
pub mod error;
pub mod format;
pub mod json;
pub mod markdown;
pub mod opts;
pub mod pipeline;
pub mod table;

pub use encode::{encode_csv, encode_table, read_rows};
pub use error::ConvertError;
pub use format::{OutFormat, parse_output_format};
pub use markdown::{escape_cell, render_markdown};
pub use opts::{CsvOpts, Opts, SubCommand, XlsxOpts, existence_result, verify_file_exists};
pub use pipeline::{convert_rows, convert_sheet, csv_to_text, sheet_file};
pub use table::{Table, align_row, build_record, build_records, clean_cells, is_blank_row, normalize_rows, split_rows};
