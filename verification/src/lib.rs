//! Batch image conversion: where each converted file goes, how it is encoded, which metadata
//! travels with it, and in what order files are written, renamed and removed.
//!
//! The library reads no files and writes none. Its caller hands it the bytes of a file, the
//! answer whether a file exists, or the outcome of a file operation, and it says what is to
//! be done next.

pub mod batch;
pub mod container;
pub mod convert;
pub mod convert_laws;
pub mod decode;
pub mod decode_laws;
pub mod encode;
pub mod encode_laws;
pub mod format;
pub mod metadata;
pub mod model;
pub mod naming_laws;
pub mod path;
pub mod picture;
pub mod planning;
pub mod planning_laws;
pub mod staging;
pub mod text;

pub use batch::{assign, summarise, task_failed, Assignment};
pub use convert::{convert_single_image, Action, Conversion, ConversionStep};
pub use decode::{decode_oriented, read_image_info};
pub use encode::{encode_to_bytes, encode_webp};
pub use format::{
    format_carries_metadata, get_supported_input_formats, get_supported_output_formats,
};
pub use metadata::{attach_metadata, SourceMetadata};
pub use model::{
    default_preserve_metadata, BatchConversionResult, ConversionOptions, ConversionResult,
    ImageInfo, OutputFormatInfo, OutputMode,
};
pub use planning::{get_output_path, plan_output_paths, resume_output_path, PathStep, Reserved};
pub use staging::temp_path_for;
