//! The formats on offer.

use vstd::prelude::*;

use crate::model::OutputFormatInfo;
use crate::path::texts;
use crate::text::{all_ascii, ascii_lower, ascii_upper, lowercase, same_text, to_lower, uppercase};

verus! {

/// A format that images can be written in.
#[derive(Debug, Clone, Copy, PartialEq, Eq, Structural)]
pub enum OutputFormat {
    Jpeg,
    Png,
    WebP,
    Avif,
    Gif,
    Bmp,
    Tiff,
}

/// The format that a lower-case name stands for.
pub open spec fn format_named(name: Seq<char>) -> Option<OutputFormat> {
    if name == "jpeg"@ || name == "jpg"@ {
        Some(OutputFormat::Jpeg)
    } else if name == "png"@ {
        Some(OutputFormat::Png)
    } else if name == "webp"@ {
        Some(OutputFormat::WebP)
    } else if name == "avif"@ {
        Some(OutputFormat::Avif)
    } else if name == "gif"@ {
        Some(OutputFormat::Gif)
    } else if name == "bmp"@ {
        Some(OutputFormat::Bmp)
    } else if name == "tiff"@ {
        Some(OutputFormat::Tiff)
    } else {
        None
    }
}

/// The format that a name stands for, in whatever letter case it is written.
pub open spec fn output_format(name: Seq<char>) -> Option<OutputFormat> {
    format_named(lowercase(name))
}

/// The extension that files of a format get.
pub open spec fn extension_for(format: OutputFormat) -> Seq<char> {
    match format {
        OutputFormat::Jpeg => "jpg"@,
        OutputFormat::Png => "png"@,
        OutputFormat::WebP => "webp"@,
        OutputFormat::Avif => "avif"@,
        OutputFormat::Gif => "gif"@,
        OutputFormat::Bmp => "bmp"@,
        OutputFormat::Tiff => "tiff"@,
    }
}

/// Whether files of a format can carry Exif and ICC here. TIFF and AVIF both allow Exif in
/// principle, but nothing here writes it.
pub open spec fn carries_metadata(format: OutputFormat) -> bool {
    format is Jpeg || format is Png || format is WebP
}

/// The input formats on offer. AVIF can be written, not read.
pub open spec fn supported_inputs() -> Seq<Seq<char>> {
    seq!["PNG"@, "JPEG"@, "GIF"@, "WebP"@, "BMP"@, "TIFF"@, "ICO"@]
}

/// The output formats on offer, each with its display name and whether the quality setting
/// applies to it.
pub open spec fn supported_outputs() -> Seq<(Seq<char>, OutputFormat, bool)> {
    seq![
        ("PNG"@, OutputFormat::Png, false),
        ("JPEG"@, OutputFormat::Jpeg, true),
        ("WebP"@, OutputFormat::WebP, true),
        ("AVIF"@, OutputFormat::Avif, false),
        ("GIF"@, OutputFormat::Gif, false),
        ("BMP"@, OutputFormat::Bmp, false),
        ("TIFF"@, OutputFormat::Tiff, false),
    ]
}

/// Whether `info` describes the format listed as `entry`.
pub open spec fn describes(info: OutputFormatInfo, entry: (Seq<char>, OutputFormat, bool)) -> bool {
    &&& info.name@ == entry.0
    &&& info.extension@ == extension_for(entry.1)
    &&& info.supports_quality == entry.2
    &&& info.supports_metadata == carries_metadata(entry.1)
}

/// The format that a lower-case name stands for.
pub fn format_for(name: &str) -> (r: Option<OutputFormat>)
    ensures
        r == format_named(name@),
{
    if same_text(name, "jpeg") || same_text(name, "jpg") {
        Some(OutputFormat::Jpeg)
    } else if same_text(name, "png") {
        Some(OutputFormat::Png)
    } else if same_text(name, "webp") {
        Some(OutputFormat::WebP)
    } else if same_text(name, "avif") {
        Some(OutputFormat::Avif)
    } else if same_text(name, "gif") {
        Some(OutputFormat::Gif)
    } else if same_text(name, "bmp") {
        Some(OutputFormat::Bmp)
    } else if same_text(name, "tiff") {
        Some(OutputFormat::Tiff)
    } else {
        None
    }
}

/// The extension that files of a format get.
pub fn file_extension(format: OutputFormat) -> (r: &'static str)
    ensures
        r@ == extension_for(format),
{
    match format {
        OutputFormat::Jpeg => "jpg",
        OutputFormat::Png => "png",
        OutputFormat::WebP => "webp",
        OutputFormat::Avif => "avif",
        OutputFormat::Gif => "gif",
        OutputFormat::Bmp => "bmp",
        OutputFormat::Tiff => "tiff",
    }
}

/// Whether an output format can carry Exif/ICC metadata.
pub fn format_carries_metadata(format: &str) -> (r: bool)
    ensures
        r == (output_format(format@) matches Some(f) && carries_metadata(f)),
{
    let name = to_lower(format);
    match format_for(name.as_str()) {
        Some(OutputFormat::Jpeg) | Some(OutputFormat::Png) | Some(OutputFormat::WebP) => true,
        _ => false,
    }
}

/// The names of the formats that images can be read from.
pub fn get_supported_input_formats() -> (r: Vec<String>)
    ensures
        texts(r@) == supported_inputs(),
{
    let r: Vec<String> = vec![
        "PNG".to_owned(),
        "JPEG".to_owned(),
        "GIF".to_owned(),
        "WebP".to_owned(),
        "BMP".to_owned(),
        "TIFF".to_owned(),
        "ICO".to_owned(),
    ];
    assert(texts(r@) =~= supported_inputs());
    r
}

/// The description of one output format.
fn format_info(name: &str, format: OutputFormat, supports_quality: bool) -> (r: OutputFormatInfo)
    ensures
        describes(r, (name@, format, supports_quality)),
{
    let extension = file_extension(format);
    let supports_metadata = format_carries_metadata(extension);
    proof {
        lemma_extension_names_format(format);
    }
    OutputFormatInfo {
        name: name.to_owned(),
        extension: extension.to_owned(),
        supports_quality,
        supports_metadata,
    }
}

/// The output formats on offer.
pub fn get_supported_output_formats() -> (r: Vec<OutputFormatInfo>)
    ensures
        r@.len() == supported_outputs().len(),
        forall|i: int| 0 <= i < r@.len() ==> describes(#[trigger] r@[i], supported_outputs()[i]),
{
    vec![
        format_info("PNG", OutputFormat::Png, false),
        format_info("JPEG", OutputFormat::Jpeg, true),
        format_info("WebP", OutputFormat::WebP, true),
        format_info("AVIF", OutputFormat::Avif, false),
        format_info("GIF", OutputFormat::Gif, false),
        format_info("BMP", OutputFormat::Bmp, false),
        format_info("TIFF", OutputFormat::Tiff, false),
    ]
}

/// Reveals the texts of the format names.
proof fn lemma_format_names()
    ensures
        "jpeg"@ =~= seq!['j', 'p', 'e', 'g'],
        "jpg"@ =~= seq!['j', 'p', 'g'],
        "png"@ =~= seq!['p', 'n', 'g'],
        "webp"@ =~= seq!['w', 'e', 'b', 'p'],
        "avif"@ =~= seq!['a', 'v', 'i', 'f'],
        "gif"@ =~= seq!['g', 'i', 'f'],
        "bmp"@ =~= seq!['b', 'm', 'p'],
        "tiff"@ =~= seq!['t', 'i', 'f', 'f'],
{
    reveal_strlit("jpeg");
    reveal_strlit("jpg");
    reveal_strlit("png");
    reveal_strlit("webp");
    reveal_strlit("avif");
    reveal_strlit("gif");
    reveal_strlit("bmp");
    reveal_strlit("tiff");
}

/// The extension that a format's files get names that format again.
pub proof fn lemma_extension_names_format(format: OutputFormat)
    ensures
        output_format(extension_for(format)) == Some(format),
        format_named(extension_for(format)) == Some(format),
        all_ascii(extension_for(format)),
        extension_for(format).len() > 0,
        forall|i: int|
            0 <= i < extension_for(format).len() ==> 'a' <= #[trigger] extension_for(format)[i]
                <= 'z',
{
    lemma_format_names();
    let e = extension_for(format);
    assert(lowercase(e) =~= e);
    assert("jpeg"@[0] == 'j' && "jpg"@[0] == 'j' && "png"@[0] == 'p' && "webp"@[0] == 'w'
        && "avif"@[0] == 'a' && "gif"@[0] == 'g' && "bmp"@[0] == 'b' && "tiff"@[0] == 't');
}

/// A format name means the same in any mix of capitals and small letters.
pub proof fn law_format_names_ignore_case(name: Seq<char>)
    requires
        all_ascii(name),
    ensures
        output_format(uppercase(name)) == output_format(name),
        output_format(lowercase(name)) == output_format(name),
{
    assert(all_ascii(uppercase(name))) by {
        assert forall|i: int| 0 <= i < name.len() implies (#[trigger] uppercase(name)[i] as int)
            < 128 by {
            assert(uppercase(name)[i] == ascii_upper(name[i]));
        }
    }
    assert(all_ascii(lowercase(name))) by {
        assert forall|i: int| 0 <= i < name.len() implies (#[trigger] lowercase(name)[i] as int)
            < 128 by {
            assert(lowercase(name)[i] == ascii_lower(name[i]));
        }
    }
    assert(lowercase(uppercase(name)) =~= lowercase(name));
    assert(lowercase(lowercase(name)) =~= lowercase(name));
}

/// `jpeg` and `jpg` name one format, whose files get the extension `jpg`.
pub proof fn law_jpeg_and_jpg_are_one_format(name: Seq<char>)
    requires
        lowercase(name) == "jpeg"@ || lowercase(name) == "jpg"@,
    ensures
        output_format(name) == Some(OutputFormat::Jpeg),
        extension_for(OutputFormat::Jpeg) == "jpg"@,
{
}

/// AVIF is not offered as an input format.
pub proof fn law_avif_is_no_input()
    ensures
        !supported_inputs().contains("AVIF"@),
{
    reveal_strlit("AVIF");
    reveal_strlit("PNG");
    reveal_strlit("JPEG");
    reveal_strlit("GIF");
    reveal_strlit("WebP");
    reveal_strlit("BMP");
    reveal_strlit("TIFF");
    reveal_strlit("ICO");
    assert("AVIF"@[0] == 'A');
    assert forall|i: int| 0 <= i < supported_inputs().len() implies supported_inputs()[i]
        != "AVIF"@ by {
        assert(supported_inputs()[i][0] != 'A');
    }
}

/// Every output format is offered, once.
pub proof fn law_every_output_format_is_offered_once(format: OutputFormat)
    ensures
        exists|i: int|
            0 <= i < supported_outputs().len() && (#[trigger] supported_outputs()[i]).1 == format
                && forall|j: int|
                0 <= j < supported_outputs().len() && (#[trigger] supported_outputs()[j]).1
                    == format ==> j == i,
{
    let at = match format {
        OutputFormat::Png => 0int,
        OutputFormat::Jpeg => 1,
        OutputFormat::WebP => 2,
        OutputFormat::Avif => 3,
        OutputFormat::Gif => 4,
        OutputFormat::Bmp => 5,
        OutputFormat::Tiff => 6,
    };
    assert(supported_outputs()[at].1 == format);
}

} // verus!
