//! Output format selection and formatter configuration.
//!
//! The serializers themselves write files and live outside the library;
//! what is here is the closed set of formats, the parsing of format tags,
//! and the configuration values each serializer is built from.

use vstd::prelude::*;

use crate::text::chars_eq;
use crate::text::lower_seq;
use crate::text::str_to_chars;
use crate::text::to_lower;

verus! {

/// Output format identifier.
#[derive(Clone, Copy, PartialEq, Eq, Structural, Debug, Hash)]
pub enum OutputFormat {
    /// CSV format.
    Csv,
    /// JSON array format.
    Json,
    /// Newline-delimited JSON format.
    Ndjson,
    /// Columnar format.
    Parquet,
}

impl Default for OutputFormat {
    /// The default output format is CSV.
    fn default() -> (r: Self)
        ensures
            r == OutputFormat::Csv,
    {
        OutputFormat::Csv
    }
}

impl OutputFormat {
    /// The file extension of the format.
    pub open spec fn extension_chars(self) -> Seq<char> {
        match self {
            OutputFormat::Csv => seq!['c', 's', 'v'],
            OutputFormat::Json => seq!['j', 's', 'o', 'n'],
            OutputFormat::Ndjson => seq!['n', 'd', 'j', 's', 'o', 'n'],
            OutputFormat::Parquet => seq!['p', 'a', 'r', 'q', 'u', 'e', 't'],
        }
    }

    /// Returns the file extension for this format.
    pub fn extension(&self) -> (r: &'static str)
        ensures
            r@ == self.extension_chars(),
    {
        proof {
            reveal_strlit("csv");
            reveal_strlit("json");
            reveal_strlit("ndjson");
            reveal_strlit("parquet");
        }
        match self {
            OutputFormat::Csv => "csv",
            OutputFormat::Json => "json",
            OutputFormat::Ndjson => "ndjson",
            OutputFormat::Parquet => "parquet",
        }
    }

    /// Returns all available formats.
    pub fn all() -> (r: Vec<OutputFormat>)
        ensures
            r@ == seq![
                OutputFormat::Csv,
                OutputFormat::Json,
                OutputFormat::Ndjson,
                OutputFormat::Parquet,
            ],
    {
        let v = vec![
            OutputFormat::Csv,
            OutputFormat::Json,
            OutputFormat::Ndjson,
            OutputFormat::Parquet,
        ];
        proof {
            assert(v@ =~= seq![
                OutputFormat::Csv,
                OutputFormat::Json,
                OutputFormat::Ndjson,
                OutputFormat::Parquet,
            ]);
        }
        v
    }

    /// Parses a format tag or alias, ASCII case-insensitively. Any other
    /// string is rejected, carried back in the error.
    pub fn parse(s: &str) -> (r: Result<OutputFormat, FormatError>)
        ensures
            r matches Ok(f) ==> format_of(lower_seq(s@)) == Some(f),
            r is Err <==> format_of(lower_seq(s@)) is None,
            r matches Err(e) ==> (e matches FormatError::UnknownFormat(m) && m@ == s@),
    {
        let cs = str_to_chars(s);
        let low = to_lower(&cs);
        proof {
            assert(low@ =~= lower_seq(s@));
        }
        if chars_eq(&low, &str_to_chars("csv")) {
            Ok(OutputFormat::Csv)
        } else if chars_eq(&low, &str_to_chars("json")) {
            Ok(OutputFormat::Json)
        } else if chars_eq(&low, &str_to_chars("ndjson")) || chars_eq(
            &low,
            &str_to_chars("jsonl"),
        ) {
            Ok(OutputFormat::Ndjson)
        } else if chars_eq(&low, &str_to_chars("parquet")) || chars_eq(
            &low,
            &str_to_chars("pq"),
        ) {
            Ok(OutputFormat::Parquet)
        } else {
            Err(FormatError::UnknownFormat(String::from_str(s)))
        }
    }
}

/// The format a lowercase tag or alias denotes.
pub open spec fn format_of(s: Seq<char>) -> Option<OutputFormat> {
    if s == "csv"@ {
        Some(OutputFormat::Csv)
    } else if s == "json"@ {
        Some(OutputFormat::Json)
    } else if s == "ndjson"@ || s == "jsonl"@ {
        Some(OutputFormat::Ndjson)
    } else if s == "parquet"@ || s == "pq"@ {
        Some(OutputFormat::Parquet)
    } else {
        None
    }
}

impl core::str::FromStr for OutputFormat {
    type Err = FormatError;

    fn from_str(s: &str) -> Result<OutputFormat, FormatError> {
        OutputFormat::parse(s)
    }
}

/// Errors that can occur during formatting.
#[derive(Debug, Clone)]
pub enum FormatError {
    /// Unknown output format tag.
    UnknownFormat(String),
    /// I/O failure while writing; holds the underlying message.
    Io(String),
    /// JSON serialization failure; holds the underlying message.
    Json(String),
    /// Columnar-writer failure; holds the underlying message.
    Parquet(String),
}

/// CSV formatter configuration.
#[derive(Debug, Clone, Copy, PartialEq, Eq, Structural)]
pub struct CsvFormatter {
    /// Field delimiter.
    pub delimiter: char,
    /// Whether to include a header row.
    pub include_header: bool,
}

impl CsvFormatter {
    /// Comma-separated output with a header row.
    pub fn new() -> (r: CsvFormatter)
        ensures
            r.delimiter == ',',
            r.include_header == true,
    {
        CsvFormatter { delimiter: ',', include_header: true }
    }

    /// Sets the field delimiter.
    pub fn with_delimiter(self, delimiter: char) -> (r: CsvFormatter)
        ensures
            r.delimiter == delimiter,
            r.include_header == self.include_header,
    {
        CsvFormatter { delimiter, ..self }
    }

    /// Sets whether a header row is written.
    pub fn with_header(self, header: bool) -> (r: CsvFormatter)
        ensures
            r.delimiter == self.delimiter,
            r.include_header == header,
    {
        CsvFormatter { include_header: header, ..self }
    }

    /// Tab-separated output with a header row.
    pub fn tsv() -> (r: CsvFormatter)
        ensures
            r.delimiter == '\t',
            r.include_header == true,
    {
        CsvFormatter { delimiter: '\t', include_header: true }
    }
}

impl Default for CsvFormatter {
    /// The default CSV formatter: comma-separated with a header row.
    fn default() -> (r: Self)
        ensures
            r.delimiter == ',',
            r.include_header == true,
    {
        CsvFormatter::new()
    }
}

/// JSON output style.
#[derive(Clone, Copy, PartialEq, Eq, Structural, Debug)]
pub enum JsonStyle {
    /// JSON array (standard JSON).
    Array,
    /// Newline-delimited JSON (NDJSON/JSONL).
    Ndjson,
}

impl Default for JsonStyle {
    /// The default style is a JSON array.
    fn default() -> (r: Self)
        ensures
            r == JsonStyle::Array,
    {
        JsonStyle::Array
    }
}

/// JSON formatter configuration.
#[derive(Clone, Copy, PartialEq, Eq, Structural, Debug)]
pub struct JsonFormatter {
    /// Output style.
    pub style: JsonStyle,
    /// Whether to pretty-print (array style only).
    pub pretty: bool,
}

impl JsonFormatter {
    /// Array-style output, compact.
    pub fn new() -> (r: JsonFormatter)
        ensures
            r.style == JsonStyle::Array,
            r.pretty == false,
    {
        JsonFormatter { style: JsonStyle::Array, pretty: false }
    }

    /// Newline-delimited output.
    pub fn ndjson() -> (r: JsonFormatter)
        ensures
            r.style == JsonStyle::Ndjson,
            r.pretty == false,
    {
        JsonFormatter { style: JsonStyle::Ndjson, pretty: false }
    }

    /// Sets whether to pretty-print (array style only).
    pub fn with_pretty(self, pretty: bool) -> (r: JsonFormatter)
        ensures
            r.style == self.style,
            r.pretty == pretty,
    {
        JsonFormatter { pretty, ..self }
    }

    /// Sets the output style.
    pub fn with_style(self, style: JsonStyle) -> (r: JsonFormatter)
        ensures
            r.style == style,
            r.pretty == self.pretty,
    {
        JsonFormatter { style, ..self }
    }
}

impl Default for JsonFormatter {
    /// The default JSON formatter: compact array style.
    fn default() -> (r: Self)
        ensures
            r.style == JsonStyle::Array,
            r.pretty == false,
    {
        JsonFormatter::new()
    }
}

/// Compression codec of the columnar writer.
#[derive(Clone, Copy, PartialEq, Eq, Structural, Debug)]
pub enum ParquetCompression {
    /// No compression.
    Uncompressed,
    /// Snappy compression.
    Snappy,
    /// Gzip compression.
    Gzip,
    /// Zstandard compression.
    Zstd,
}

/// Columnar formatter configuration.
#[derive(Clone, Copy, PartialEq, Eq, Structural, Debug)]
pub struct ParquetFormatter {
    /// Number of rows per row group.
    pub row_group_size: usize,
    /// Compression codec.
    pub compression: ParquetCompression,
}

impl ParquetFormatter {
    /// The default columnar configuration: row groups of 100 000 rows,
    /// Snappy-compressed.
    pub fn new() -> (r: ParquetFormatter)
        ensures
            r.row_group_size == 100_000,
            r.compression == ParquetCompression::Snappy,
    {
        ParquetFormatter { row_group_size: 100_000, compression: ParquetCompression::Snappy }
    }

    /// Sets the row group size.
    pub fn with_row_group_size(self, size: usize) -> (r: ParquetFormatter)
        ensures
            r.row_group_size == size,
            r.compression == self.compression,
    {
        ParquetFormatter { row_group_size: size, ..self }
    }

    /// Sets the compression codec.
    pub fn with_compression(self, compression: ParquetCompression) -> (r: ParquetFormatter)
        ensures
            r.row_group_size == self.row_group_size,
            r.compression == compression,
    {
        ParquetFormatter { compression, ..self }
    }
}

impl Default for ParquetFormatter {
    /// The default columnar formatter configuration.
    fn default() -> (r: Self)
        ensures
            r.row_group_size == 100_000,
            r.compression == ParquetCompression::Snappy,
    {
        ParquetFormatter::new()
    }
}

} // verus!
