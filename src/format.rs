//! The output formats and their names.
use vstd::prelude::*;
use crate::error::ConvertError;

verus! {

/// The text formats that tables can be converted to.
#[derive(Clone, Copy, Debug, PartialEq, Eq, Structural)]
pub enum OutFormat {
    Json,
    Yaml,
    Toml,
    Csv,
    Markdown,
}

/// The name of a format, as it is written on the command line.
pub open spec fn format_name(f: OutFormat) -> Seq<char> {
    match f {
        OutFormat::Json => seq!['j', 's', 'o', 'n'],
        OutFormat::Yaml => seq!['y', 'a', 'm', 'l'],
        OutFormat::Toml => seq!['t', 'o', 'm', 'l'],
        OutFormat::Csv => seq!['c', 's', 'v'],
        OutFormat::Markdown => seq!['m', 'a', 'r', 'k', 'd', 'o', 'w', 'n'],
    }
}

/// The format with exactly this name, if any.
pub open spec fn format_named(name: Seq<char>) -> Option<OutFormat> {
    if name == format_name(OutFormat::Json) {
        Some(OutFormat::Json)
    } else if name == format_name(OutFormat::Yaml) {
        Some(OutFormat::Yaml)
    } else if name == format_name(OutFormat::Toml) {
        Some(OutFormat::Toml)
    } else if name == format_name(OutFormat::Csv) {
        Some(OutFormat::Csv)
    } else if name == format_name(OutFormat::Markdown) {
        Some(OutFormat::Markdown)
    } else {
        None
    }
}

/// What parsing a lower-cased format name gives.
pub open spec fn parsed_format(lowered: Seq<char>) -> Result<OutFormat, ConvertError> {
    match format_named(lowered) {
        Some(f) => Ok(f),
        None => Err(ConvertError::InvalidFormat),
    }
}

/// What `str::to_lowercase` returns.
pub uninterp spec fn lowercase_of(s: Seq<char>) -> Seq<char>;

/// Relies on `str::to_lowercase`: the lower-case mapping of every
/// character; the result depends on the characters alone.
#[verifier::external_body]
fn to_lowercase(s: &str) -> (r: String)
    ensures
        r@ == lowercase_of(s@),
{
    s.to_lowercase()
}

/// Whether two strings hold the same characters.
fn same_text(a: &str, b: &str) -> (r: bool)
    ensures
        r == (a@ == b@),
{
    let n = a.unicode_len();
    if n != b.unicode_len() {
        return false;
    }
    let mut i: usize = 0;
    while i < n
        invariant
            i <= n,
            n == a@.len(),
            n == b@.len(),
            forall|j: int| 0 <= j < i ==> a@[j] == b@[j],
        decreases n - i,
    {
        if a.get_char(i) != b.get_char(i) {
            return false;
        }
        i = i + 1;
    }
    assert(a@ =~= b@);
    true
}

impl OutFormat {
    /// The format's name: `json`, `yaml`, `toml`, `csv` or `markdown`.
    pub fn as_str(&self) -> (r: &'static str)
        ensures
            r@ == format_name(*self),
    {
        proof {
            reveal_strlit("json");
            reveal_strlit("yaml");
            reveal_strlit("toml");
            reveal_strlit("csv");
            reveal_strlit("markdown");
        }
        match self {
            OutFormat::Json => "json",
            OutFormat::Yaml => "yaml",
            OutFormat::Toml => "toml",
            OutFormat::Csv => "csv",
            OutFormat::Markdown => "markdown",
        }
    }

    /// Whether the single-table CSV conversion can produce this format.
    pub open spec fn spec_single_table(self) -> bool {
        self == OutFormat::Json || self == OutFormat::Yaml || self == OutFormat::Toml
    }

    /// Whether the single-table CSV conversion can produce this format:
    /// JSON, YAML and TOML can; CSV and Markdown cannot.
    pub fn single_table(&self) -> (r: bool)
        ensures
            r == self.spec_single_table(),
    {
        match self {
            OutFormat::Json | OutFormat::Yaml | OutFormat::Toml => true,
            OutFormat::Csv | OutFormat::Markdown => false,
        }
    }

    /// Parses a format name that is already lower case.
    pub fn from_lowercase(lowered: &str) -> (r: Result<OutFormat, ConvertError>)
        ensures
            r == parsed_format(lowered@),
    {
        proof {
            reveal_strlit("json");
            reveal_strlit("yaml");
            reveal_strlit("toml");
            reveal_strlit("csv");
            reveal_strlit("markdown");
        }
        assert("json"@ =~= format_name(OutFormat::Json));
        assert("yaml"@ =~= format_name(OutFormat::Yaml));
        assert("toml"@ =~= format_name(OutFormat::Toml));
        assert("csv"@ =~= format_name(OutFormat::Csv));
        assert("markdown"@ =~= format_name(OutFormat::Markdown));
        if same_text(lowered, "json") {
            Ok(OutFormat::Json)
        } else if same_text(lowered, "yaml") {
            Ok(OutFormat::Yaml)
        } else if same_text(lowered, "toml") {
            Ok(OutFormat::Toml)
        } else if same_text(lowered, "csv") {
            Ok(OutFormat::Csv)
        } else if same_text(lowered, "markdown") {
            Ok(OutFormat::Markdown)
        } else {
            Err(ConvertError::InvalidFormat)
        }
    }
}

/// Parses a format name, ignoring case.
pub fn parse_output_format(format: &str) -> (r: Result<OutFormat, ConvertError>)
    ensures
        r == parsed_format(lowercase_of(format@)),
{
    let lowered = to_lowercase(format);
    OutFormat::from_lowercase(lowered.as_str())
}

impl std::str::FromStr for OutFormat {
    type Err = ConvertError;

    fn from_str(s: &str) -> Result<OutFormat, ConvertError> {
        parse_output_format(s)
    }
}

} // verus!
