//! Options of the CSV conversion, and where its output goes.
use vstd::prelude::*;

verus! {

/// The format that CSV records are converted to.
#[derive(Debug, Clone, Copy, PartialEq, Eq, Structural)]
pub enum OutputFormat {
    Json,
    Yaml,
}

/// The lower-case name of a format, which is also its file extension.
pub open spec fn format_name(format: OutputFormat) -> Seq<char> {
    match format {
        OutputFormat::Json => "json"@,
        OutputFormat::Yaml => "yaml"@,
    }
}

impl OutputFormat {
    pub fn as_str(&self) -> (r: &'static str)
        ensures
            r@ == format_name(*self),
    {
        match self {
            OutputFormat::Json => "json",
            OutputFormat::Yaml => "yaml",
        }
    }
}

/// A request to convert the CSV file `input`.
pub struct CsvOpts {
    pub input: String,
    pub output: Option<String>,
    pub format: OutputFormat,
    /// Whether the first record names the columns.
    pub header: bool,
    pub delimiter: char,
}

impl CsvOpts {
    /// Where the converted records go: `output` where given, else the input path
    /// with the format's name appended as an extension.
    pub fn output_path(&self) -> (r: String)
        ensures
            r@ == (match self.output {
                Some(path) => path@,
                None => self.input@ + "."@ + format_name(self.format),
            }),
    {
        match &self.output {
            Some(path) => path.clone(),
            None => self.input.clone().concat(".").concat(self.format.as_str()),
        }
    }
}

} // verus!
