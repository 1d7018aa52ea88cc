//! The options of the two conversions, as a command line gives them.
use vstd::prelude::*;
use crate::format::{OutFormat, format_name};

verus! {

/// The options of one run.
pub struct Opts {
    pub cmd: SubCommand,
}

/// The conversion to run.
pub enum SubCommand {
    Csv(CsvOpts),
    Xlsx(XlsxOpts),
}

/// Options of the CSV conversion.
pub struct CsvOpts {
    /// Path of the delimited input file.
    pub input: String,
    /// Path of the output file; `output.<format>` when absent.
    pub output: Option<String>,
    /// Field delimiter.
    pub delimiter: char,
    /// Whether the input has a header row.
    pub header: bool,
    /// Output format.
    pub format: OutFormat,
}

/// Options of the workbook conversion.
pub struct XlsxOpts {
    /// Path of the workbook.
    pub input: String,
    /// Directory for the output files; the current directory when absent.
    pub output_dir: Option<String>,
    /// Output format.
    pub format: OutFormat,
    /// Keep rows whose cells are all empty.
    pub keep_empty_rows: bool,
    /// Keep whitespace around cell values.
    pub keep_whitespace: bool,
}

/// The output path used when none is given: `output.<format>`.
pub open spec fn default_output(format: OutFormat) -> Seq<char> {
    seq!['o', 'u', 't', 'p', 'u', 't', '.'] + format_name(format)
}

impl CsvOpts {
    /// The output path: the one given, or `output.<format>`.
    pub fn output_path(&self) -> (r: String)
        ensures
            self.output matches Some(o) ==> r@ == o@,
            self.output is None ==> r@ == default_output(self.format),
    {
        match &self.output {
            Some(o) => o.clone(),
            None => {
                proof {
                    reveal_strlit("output.");
                }
                let mut p = String::from_str("output.");
                p.append(self.format.as_str());
                assert(p@ =~= default_output(self.format));
                p
            },
        }
    }

    /// The delimiter as a byte, when it is an ASCII character.
    pub fn delimiter_byte(&self) -> (r: Option<u8>)
        ensures
            (self.delimiter as u32) < 128 ==> r == Some((self.delimiter as u32) as u8),
            (self.delimiter as u32) >= 128 ==> r is None,
    {
        let c = self.delimiter as u32;
        if c < 128 {
            Some(c as u8)
        } else {
            None
        }
    }
}

impl XlsxOpts {
    /// The output directory: the one given, or `.`.
    pub fn output_dir_or_default(&self) -> (r: String)
        ensures
            self.output_dir matches Some(d) ==> r@ == d@,
            self.output_dir is None ==> r@ == seq!['.'],
    {
        match &self.output_dir {
            Some(d) => d.clone(),
            None => {
                proof {
                    reveal_strlit(".");
                }
                String::from_str(".")
            },
        }
    }

    /// Whether blank rows are dropped: unless they are to be kept.
    pub fn remove_empty_rows(&self) -> (r: bool)
        ensures
            r == !self.keep_empty_rows,
    {
        !self.keep_empty_rows
    }

    /// Whether cells are trimmed: unless whitespace is to be kept.
    pub fn trim_whitespace(&self) -> (r: bool)
        ensures
            r == !self.keep_whitespace,
    {
        !self.keep_whitespace
    }
}

/// Relies on `std::path::Path::exists`: whether the path names something on
/// disk at the time of the call.
#[verifier::external_body]
fn path_exists(file_name: &str) -> (r: bool) {
    std::path::Path::new(file_name).exists()
}

/// What the existence check of an input path returns, given whether the
/// path exists.
pub fn existence_result(file_name: &str, exists: bool) -> (r: Result<String, &'static str>)
    ensures
        exists ==> (r matches Ok(s) && s@ == file_name@),
        !exists ==> (r matches Err(e) && e@ == "File does not exist"@),
{
    proof {
        reveal_strlit("File does not exist");
    }
    if exists {
        Ok(String::from_str(file_name))
    } else {
        Err("File does not exist")
    }
}

/// Checks that an input path exists, and returns it if so.
pub fn verify_file_exists(file_name: &str) -> (r: Result<String, &'static str>)
    ensures
        r matches Ok(s) ==> s@ == file_name@,
        r matches Err(e) ==> e@ == "File does not exist"@,
{
    let exists = path_exists(file_name);
    existence_result(file_name, exists)
}

} // verus!
