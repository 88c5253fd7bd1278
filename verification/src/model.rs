//! The values that callers hand in and get back.

use vstd::prelude::*;

verus! {

/// How one input fared.
#[derive(Debug)]
pub struct ConversionResult {
    pub success: bool,
    pub input_path: String,
    pub output_path: Option<String>,
    pub error: Option<String>,
}

/// How a whole batch fared, with one result for each input, in order.
#[derive(Debug)]
pub struct BatchConversionResult {
    pub total: usize,
    pub succeeded: usize,
    pub failed: usize,
    pub results: Vec<ConversionResult>,
}

/// What the file list shows of an image.
#[derive(Debug, Clone)]
pub struct ImageInfo {
    pub path: String,
    pub name: String,
    pub width: u32,
    pub height: u32,
    pub format: String,
    pub size_bytes: u64,
}

/// Where converted images go.
#[derive(Debug, Clone, Copy, PartialEq, Eq, Structural)]
pub enum OutputMode {
    SameFolder,
    CustomFolder,
    ReplaceOriginal,
}

/// What a batch is converted to.
#[derive(Debug, Clone)]
pub struct ConversionOptions {
    pub format: String,
    pub quality: u8,
    pub output_mode: OutputMode,
    pub output_folder: Option<String>,
    /// Carry Exif/ICC from the source into the output where the container allows it.
    pub preserve_metadata: bool,
}

/// What `preserve_metadata` is where nothing was said: stripping metadata is always a
/// deliberate choice.
pub fn default_preserve_metadata() -> (r: bool)
    ensures
        r,
{
    true
}

/// One output format on offer.
#[derive(Debug)]
pub struct OutputFormatInfo {
    pub name: String,
    pub extension: String,
    pub supports_quality: bool,
    /// Whether Exif/ICC survive conversion to this format.
    pub supports_metadata: bool,
}

/// The texts of a result whose two sides are strings.
pub open spec fn outcome(r: Result<String, String>) -> Result<Seq<char>, Seq<char>> {
    match r {
        Ok(text) => Ok(text@),
        Err(message) => Err(message@),
    }
}

/// The text of an optional string.
pub open spec fn optional(s: Option<String>) -> Option<Seq<char>> {
    match s {
        Some(text) => Some(text@),
        None => None,
    }
}

} // verus!
