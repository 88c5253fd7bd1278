//! Encoding pictures.
//!
//! Memory is taken to suffice: what an encoder does when it runs out of it is not modelled.

use vstd::prelude::*;

use crate::container::{announced_kind, is_carrier, looks_like_container, ContainerKind};
use crate::format::{
    carries_metadata, format_for, output_format, supported_outputs, OutputFormat,
};
use crate::model::ConversionOptions;
use crate::path::file_stem_of;
use crate::picture::{
    accepts, bytes_of, can_go_to_encoder, colour, colour_has_alpha, dimensions, fills_buffer,
    has_alpha, image_shape, is_encodable, normalise_for_format, normalised, picture, recoloured,
    sample_bytes, takes_buffer, to_rgb8, to_rgba8, ColourType, Picture,
};
use crate::planning::{target_of, Target};
use crate::text::{append_decimal, decimal, lowercase, prefixed, to_lower};

verus! {

/// libwebp's hard limit on either dimension.
pub const WEBP_MAX_DIMENSION: u32 = 16383;

/// The quality setting from which on WebP files are lossless.
pub const WEBP_LOSSLESS_QUALITY: u8 = 100;

/// How hard libwebp works on lossless files.
pub const WEBP_LOSSLESS_EFFORT: u8 = 75;

/// The bytes or the message of a result.
pub open spec fn file_outcome(r: Result<Vec<u8>, String>) -> Result<Seq<u8>, Seq<char>> {
    match r {
        Ok(bytes) => Ok(bytes@),
        Err(message) => Err(message@),
    }
}

/// The bytes of a file that may be missing.
pub open spec fn byte_view(file: Option<Vec<u8>>) -> Option<Seq<u8>> {
    match file {
        Some(bytes) => Some(bytes@),
        None => None,
    }
}

/// The file that libwebp makes of red, green and blue samples on a machine, or nothing where
/// it fails. Its estimates rest on how the machine rounds.
pub uninterp spec fn webp_rgb_file(
    samples: Seq<u8>,
    width: u32,
    height: u32,
    lossless: bool,
    quality: u8,
    machine: nat,
) -> Option<Seq<u8>>;

/// The file that libwebp makes of red, green, blue and alpha samples on a machine, or nothing
/// where it fails. Its estimates rest on how the machine rounds.
pub uninterp spec fn webp_rgba_file(
    samples: Seq<u8>,
    width: u32,
    height: u32,
    lossless: bool,
    quality: u8,
    machine: nat,
) -> Option<Seq<u8>>;

/// The file that `image` makes of a picture with its JPEG encoder, or its message.
pub uninterp spec fn jpeg_file(p: Picture, quality: u8) -> Result<Seq<u8>, Seq<char>>;

/// The file that `image` makes of a picture with its encoder for PNG, GIF or BMP, or its
/// message.
pub uninterp spec fn image_file(p: Picture, format: OutputFormat) -> Result<Seq<u8>, Seq<char>>;

/// The file that `image` makes of a picture with its TIFF encoder, or its message. Numbers
/// in it have the byte order of the machine.
pub uninterp spec fn tiff_file(p: Picture, little_endian: bool) -> Result<Seq<u8>, Seq<char>>;

/// The file that `image` makes of a picture with its AVIF encoder on a machine, or its
/// message. Large pictures are cut into as many tiles as there are threads to work on them,
/// and estimates rest on how the machine rounds.
pub uninterp spec fn avif_file(p: Picture, machine: nat) -> Result<Seq<u8>, Seq<char>>;

/// Whether a picture is neither empty nor too large for a JPEG file.
pub open spec fn fits_jpeg(p: Picture) -> bool {
    1 <= p.width <= 65535 && 1 <= p.height <= 65535
}

/// Whether a picture is not too large for a GIF file.
pub open spec fn fits_gif(p: Picture) -> bool {
    p.width <= 65535 && p.height <= 65535
}

/// Whether a file starts as those of a format do that cannot carry metadata.
pub open spec fn starts_as(bytes: Seq<u8>, format: OutputFormat) -> bool {
    match format {
        OutputFormat::Gif => bytes.len() > 0 && bytes[0] == 0x47,
        OutputFormat::Bmp => bytes.len() > 0 && bytes[0] == 0x42,
        OutputFormat::Tiff => bytes.len() > 0 && (bytes[0] == 0x49 || bytes[0] == 0x4d),
        OutputFormat::Avif => bytes.len() > 0 && bytes[0] == 0,
        _ => true,
    }
}

/// What an empty or missing WebP file means.
pub open spec fn webp_outcome(file: Option<Seq<u8>>) -> Result<Seq<u8>, Seq<char>> {
    match file {
        Some(bytes) => if bytes.len() == 0 {
            Err("WebP encoding failed"@)
        } else {
            Ok(bytes)
        },
        None => Err("WebP encoding failed"@),
    }
}

/// The message for a picture that is too large for WebP.
pub open spec fn webp_too_large(width: u32, height: u32) -> Seq<char> {
    "WebP cannot store "@ + decimal(width as nat) + "x"@ + decimal(height as nat)
        + ": maximum dimension is "@ + decimal(WEBP_MAX_DIMENSION as nat)
}

/// What encoding a picture as WebP comes to on a machine, where it is not too large. The alpha
/// samples go into the file where there are any, and from quality 100 on it is lossless.
pub open spec fn webp_file(p: Picture, quality: u8, machine: nat) -> Result<Seq<u8>, Seq<char>> {
    let lossless = quality >= WEBP_LOSSLESS_QUALITY;
    let effort = if lossless {
        WEBP_LOSSLESS_EFFORT
    } else {
        quality
    };
    if has_alpha(p.colour) {
        let samples = sample_bytes(recoloured(p, ColourType::Rgba8));
        webp_outcome(webp_rgba_file(samples, p.width, p.height, lossless, effort, machine))
    } else {
        let samples = sample_bytes(recoloured(p, ColourType::Rgb8));
        webp_outcome(webp_rgb_file(samples, p.width, p.height, lossless, effort, machine))
    }
}

/// Whether `r` is what encoding a picture as WebP comes to. A file that comes out is one that
/// metadata can be put into.
pub open spec fn is_webp_of(p: Picture, quality: u8, r: Result<Seq<u8>, Seq<char>>) -> bool {
    &&& r matches Ok(bytes) ==> is_carrier(ContainerKind::WebP, bytes)
    &&& if p.width > WEBP_MAX_DIMENSION || p.height > WEBP_MAX_DIMENSION {
        r == Err::<Seq<u8>, Seq<char>>(webp_too_large(p.width, p.height))
    } else {
        exists|machine: nat| r == #[trigger] webp_file(p, quality, machine)
    }
}

/// Whether `r` is what encoding a picture in a format comes to.
pub open spec fn is_file_of(
    p: Picture,
    format: OutputFormat,
    quality: u8,
    r: Result<Seq<u8>, Seq<char>>,
) -> bool {
    let n = normalised(p, format);
    match format {
        OutputFormat::Jpeg => r == jpeg_file(n, quality),
        OutputFormat::WebP => is_webp_of(n, quality, r),
        OutputFormat::Avif => exists|machine: nat| r == #[trigger] avif_file(n, machine),
        OutputFormat::Tiff => exists|little_endian: bool| r == #[trigger] tiff_file(n, little_endian),
        _ => r == image_file(n, format),
    }
}

/// Whether a message reads as the one for a format that is not known.
pub open spec fn is_refusal(message: Seq<char>) -> bool {
    "Unsupported format: "@.is_prefix_of(message)
}

/// The container that files of a format are, where they can carry metadata.
pub open spec fn container_for(format: OutputFormat) -> ContainerKind {
    match format {
        OutputFormat::Png => ContainerKind::Png,
        OutputFormat::WebP => ContainerKind::WebP,
        _ => ContainerKind::Jpeg,
    }
}

/// What is known of the result of encoding a picture in a format, besides what it is: when a
/// JPEG or GIF file comes out, that no message reads as if the format were not known, that a
/// file which can carry metadata is a container that it can be put into, and that another is
/// not taken for one.
pub open spec fn is_as_known(
    p: Picture,
    format: OutputFormat,
    r: Result<Seq<u8>, Seq<char>>,
) -> bool {
    &&& format is Jpeg ==> (r is Ok) == fits_jpeg(p)
    &&& format is Gif ==> (r is Ok) == fits_gif(p)
    &&& r matches Err(message) ==> !is_refusal(message)
    &&& carries_metadata(format) ==> (r matches Ok(bytes) ==> is_carrier(
        container_for(format),
        bytes,
    ))
    &&& !carries_metadata(format) ==> (r matches Ok(bytes) ==> !looks_like_container(bytes)
        && announced_kind(bytes) is Jpeg)
}

/// Whether `r` is what encoding a picture as the options ask comes to.
pub open spec fn is_encoding(
    p: Picture,
    options: ConversionOptions,
    r: Result<Seq<u8>, Seq<char>>,
) -> bool {
    match output_format(options.format@) {
        Some(format) => is_file_of(p, format, options.quality, r) && is_as_known(p, format, r),
        None => r == Err::<Seq<u8>, Seq<char>>("Unsupported format: "@ + lowercase(options.format@)),
    }
}

/// Whether a picture can go to the encoder that the options ask for.
pub open spec fn is_encodable_as(p: Picture, options: ConversionOptions) -> bool {
    output_format(options.format@) matches Some(format) ==> is_encodable(p, format)
}

/// Calls `webp::Encoder::from_rgb` and `webp::Encoder::encode_simple`, and gives nothing
/// where that fails. The file depends on the samples, the size, the settings and the machine.
/// It is a WebP file that opens with the chunk that lists what it holds, or with the picture
/// and its size.
#[verifier::external_body]
fn webp_encode_rgb(samples: &Vec<u8>, width: u32, height: u32, lossless: bool, quality: u8) -> (r:
    Option<Vec<u8>>)
    requires
        samples@.len() >= width * height * 3,
        width <= WEBP_MAX_DIMENSION,
        height <= WEBP_MAX_DIMENSION,
        quality <= 100,
    ensures
        exists|machine: nat|
            byte_view(r) == #[trigger] webp_rgb_file(
                samples@,
                width,
                height,
                lossless,
                quality,
                machine,
            ),
        r matches Some(bytes) ==> (bytes@.len() > 0 ==> is_carrier(ContainerKind::WebP, bytes@)),
{
    let encoder = webp::Encoder::from_rgb(samples, width, height);
    encoder.encode_simple(lossless, quality.into()).ok().map(|memory| memory.to_vec())
}

/// Calls `webp::Encoder::from_rgba` and `webp::Encoder::encode_simple`, and gives nothing
/// where that fails. The file depends on the samples, the size, the settings and the machine.
/// It is a WebP file that opens with the chunk that lists what it holds, or with the picture
/// and its size.
#[verifier::external_body]
fn webp_encode_rgba(samples: &Vec<u8>, width: u32, height: u32, lossless: bool, quality: u8) -> (r:
    Option<Vec<u8>>)
    requires
        samples@.len() >= width * height * 4,
        width <= WEBP_MAX_DIMENSION,
        height <= WEBP_MAX_DIMENSION,
        quality <= 100,
    ensures
        exists|machine: nat|
            byte_view(r) == #[trigger] webp_rgba_file(
                samples@,
                width,
                height,
                lossless,
                quality,
                machine,
            ),
        r matches Some(bytes) ==> (bytes@.len() > 0 ==> is_carrier(ContainerKind::WebP, bytes@)),
{
    let encoder = webp::Encoder::from_rgba(samples, width, height);
    encoder.encode_simple(lossless, quality.into()).ok().map(|memory| memory.to_vec())
}

/// Calls `DynamicImage::write_with_encoder` with a `JpegEncoder` of the given quality. The
/// result depends on the picture and the quality alone, and is a file exactly where both
/// sides are between 1 and 65535. Its segments can be read up to the scan. The message tells
/// of the size, and opens as a format error.
#[verifier::external_body]
fn encode_jpeg(img: &image::DynamicImage, quality: u8) -> (r: Result<Vec<u8>, String>)
    requires
        takes_buffer(OutputFormat::Jpeg, image_shape(*img).2) ==> fills_buffer(picture(*img)),
    ensures
        file_outcome(r) == jpeg_file(picture(*img), quality),
        (r is Ok) == fits_jpeg(picture(*img)),
        r matches Ok(bytes) ==> is_carrier(ContainerKind::Jpeg, bytes@),
        r matches Err(message) ==> !is_refusal(message@),
{
    let mut buf = Vec::new();
    let encoder = image::codecs::jpeg::JpegEncoder::new_with_quality(&mut buf, quality);
    img.write_with_encoder(encoder).map_err(|e| e.to_string())?;
    Ok(buf)
}

/// Calls `DynamicImage::write_to` for the given format, with a picture that the format's
/// encoder takes. The result depends on the picture alone, but for the byte order of the
/// machine in TIFF files, and how it rounds and the number of threads that `rayon` runs in
/// AVIF files. A GIF file comes out exactly where neither side is above 65535, and a TIFF
/// file only where neither side is zero. GIF files start with `G`, BMP files with `B`, TIFF
/// files with `I` or `M`, and AVIF files with a zero byte. The chunks of PNG files can be
/// read, and run from the header to the one that ends the file. No message of the encoders
/// opens with `Unsupported format: `.
#[verifier::external_body]
fn write_image(img: &image::DynamicImage, format: OutputFormat) -> (r: Result<Vec<u8>, String>)
    requires
        format is Png || format is Gif || format is Bmp || format is Tiff || format is Avif,
        accepts(format, image_shape(*img).2),
        takes_buffer(format, image_shape(*img).2) ==> fills_buffer(picture(*img)),
    ensures
        format is Png || format is Gif || format is Bmp ==> file_outcome(r) == image_file(
            picture(*img),
            format,
        ),
        format is Tiff ==> exists|little_endian: bool|
            file_outcome(r) == #[trigger] tiff_file(picture(*img), little_endian),
        format is Avif ==> exists|machine: nat|
            file_outcome(r) == #[trigger] avif_file(picture(*img), machine),
        format is Gif ==> (r is Ok) == fits_gif(picture(*img)),
        format is Tiff && (image_shape(*img).0 == 0 || image_shape(*img).1 == 0) ==> r is Err,
        r matches Ok(bytes) ==> starts_as(bytes@, format),
        format is Png ==> (r matches Ok(bytes) ==> is_carrier(ContainerKind::Png, bytes@)),
        r matches Err(message) ==> !is_refusal(message@),
{
    let target = match format {
        OutputFormat::Jpeg => image::ImageFormat::Jpeg,
        OutputFormat::Png => image::ImageFormat::Png,
        OutputFormat::WebP => image::ImageFormat::WebP,
        OutputFormat::Avif => image::ImageFormat::Avif,
        OutputFormat::Gif => image::ImageFormat::Gif,
        OutputFormat::Bmp => image::ImageFormat::Bmp,
        OutputFormat::Tiff => image::ImageFormat::Tiff,
    };
    let mut buf = std::io::Cursor::new(Vec::new());
    img.write_to(&mut buf, target).map_err(|e| e.to_string())?;
    Ok(buf.into_inner())
}

/// What libwebp's answer means: it signals failure by giving no bytes.
pub fn webp_result(file: Option<Vec<u8>>) -> (r: Result<Vec<u8>, String>)
    ensures
        file_outcome(r) == webp_outcome(byte_view(file)),
{
    match file {
        Some(bytes) => {
            if bytes.len() == 0 {
                Err("WebP encoding failed".to_owned())
            } else {
                Ok(bytes)
            }
        },
        None => Err("WebP encoding failed".to_owned()),
    }
}

/// WebP through libwebp.
///
/// `quality` is the quality setting, 1-100. 100 switches to lossless, matching how `cwebp`
/// treats the top of the range.
pub fn encode_webp(img: &image::DynamicImage, quality: u8) -> (r: Result<Vec<u8>, String>)
    ensures
        is_webp_of(picture(*img), quality, file_outcome(r)),
{
    let (width, height): (u32, u32) = dimensions(img);
    if width > WEBP_MAX_DIMENSION || height > WEBP_MAX_DIMENSION {
        let mut message: String = "WebP cannot store ".to_owned();
        append_decimal(&mut message, width as u64);
        message.append("x");
        append_decimal(&mut message, height as u64);
        message.append(": maximum dimension is ");
        append_decimal(&mut message, WEBP_MAX_DIMENSION as u64);
        return Err(message);
    }
    let lossless = quality >= WEBP_LOSSLESS_QUALITY;
    let effort: u8 = if lossless {
        WEBP_LOSSLESS_EFFORT
    } else {
        quality
    };
    if colour_has_alpha(colour(img)) {
        let samples = bytes_of(&to_rgba8(img));
        let file = webp_encode_rgba(&samples, width, height, lossless, effort);
        let ghost view = byte_view(file);
        let r = webp_result(file);
        proof {
            let machine = choose|machine: nat|
                view == #[trigger] webp_rgba_file(
                    samples@,
                    width,
                    height,
                    lossless,
                    effort,
                    machine,
                );
            assert(file_outcome(r) == webp_file(picture(*img), quality, machine));
        }
        r
    } else {
        let samples = bytes_of(&to_rgb8(img));
        let file = webp_encode_rgb(&samples, width, height, lossless, effort);
        let ghost view = byte_view(file);
        let r = webp_result(file);
        proof {
            let machine = choose|machine: nat|
                view == #[trigger] webp_rgb_file(
                    samples@,
                    width,
                    height,
                    lossless,
                    effort,
                    machine,
                );
            assert(file_outcome(r) == webp_file(picture(*img), quality, machine));
        }
        r
    }
}

/// The messages of the WebP encoder do not read as if the format were not known.
proof fn lemma_webp_messages(p: Picture, quality: u8, r: Result<Seq<u8>, Seq<char>>)
    ensures
        is_webp_of(p, quality, r) ==> (r matches Err(message) ==> !is_refusal(message)),
{
    reveal_strlit("Unsupported format: ");
    reveal_strlit("WebP encoding failed");
    reveal_strlit("WebP cannot store ");
    assert("Unsupported format: "@[0] == 'U');
    assert("WebP encoding failed"@[0] == 'W');
    assert(webp_too_large(p.width, p.height)[0] == 'W');
}

/// Encodes a picture in a format.
fn encode_as(img: &image::DynamicImage, format: OutputFormat, quality: u8) -> (r: Result<
    Vec<u8>,
    String,
>)
    requires
        is_encodable(picture(*img), format),
    ensures
        is_file_of(picture(*img), format, quality, file_outcome(r)),
        is_as_known(picture(*img), format, file_outcome(r)),
{
    let converted = normalise_for_format(img, format);
    let source = match &converted {
        Some(other) => other,
        None => img,
    };
    assert(picture(*source) == normalised(picture(*img), format));
    let r = match format {
        OutputFormat::Jpeg => encode_jpeg(source, quality),
        OutputFormat::WebP => encode_webp(source, quality),
        _ => write_image(source, format),
    };
    proof {
        lemma_webp_messages(picture(*source), quality, file_outcome(r));
        if let Ok(bytes) = &r {
            if bytes@.len() >= 8 {
                assert(bytes@.take(8)[0] == bytes@[0]);
            }
            if bytes@.len() >= 4 {
                assert(bytes@.take(4)[0] == bytes@[0]);
            }
        }
    }
    r
}

/// Whether a picture can go to the encoder that the options ask for.
pub fn can_encode(img: &image::DynamicImage, options: &ConversionOptions) -> (r: bool)
    ensures
        r == is_encodable_as(picture(*img), *options),
{
    let name = to_lower(options.format.as_str());
    match format_for(name.as_str()) {
        Some(format) => can_go_to_encoder(img, format),
        None => true,
    }
}

/// Encodes into memory rather than straight to disk, because metadata is spliced into the
/// encoded container afterwards.
pub fn encode_to_bytes(img: &image::DynamicImage, options: &ConversionOptions) -> (r: Result<
    Vec<u8>,
    String,
>)
    requires
        is_encodable_as(picture(*img), *options),
    ensures
        is_encoding(picture(*img), *options, file_outcome(r)),
{
    let name = to_lower(options.format.as_str());
    match format_for(name.as_str()) {
        Some(format) => encode_as(img, format, options.quality),
        None => Err(prefixed("Unsupported format: ", name.as_str())),
    }
}

/// From quality 100 on, what encoding as WebP comes to does not change with the quality, on any
/// one machine and so in all that can come out.
pub proof fn law_top_quality_is_one_setting(
    p: Picture,
    quality: u8,
    r: Result<Seq<u8>, Seq<char>>,
)
    requires
        quality >= WEBP_LOSSLESS_QUALITY,
    ensures
        is_webp_of(p, quality, r) == is_webp_of(p, WEBP_LOSSLESS_QUALITY, r),
        forall|machine: nat| #[trigger]
            webp_file(p, quality, machine) == webp_file(p, WEBP_LOSSLESS_QUALITY, machine),
{
    assert forall|machine: nat| #[trigger]
        webp_file(p, quality, machine) == webp_file(p, WEBP_LOSSLESS_QUALITY, machine) by {}
    if is_webp_of(p, WEBP_LOSSLESS_QUALITY, r) && !(p.width > WEBP_MAX_DIMENSION || p.height
        > WEBP_MAX_DIMENSION) {
        let machine = choose|machine: nat|
            r == #[trigger] webp_file(p, WEBP_LOSSLESS_QUALITY, machine);
        assert(r == webp_file(p, quality, machine));
    }
}

/// Encoding a picture as WebP is encoding its copy with eight bits for each sample, with alpha
/// where the picture has it, on any one machine and so in all that can come out, and a file
/// that comes out is never empty.
pub proof fn law_webp_takes_eight_bits(
    p: Picture,
    quality: u8,
    r: Result<Seq<u8>, Seq<char>>,
)
    ensures
        has_alpha(p.colour) ==> is_webp_of(p, quality, r) == is_webp_of(
            recoloured(p, ColourType::Rgba8),
            quality,
            r,
        ),
        !has_alpha(p.colour) ==> is_webp_of(p, quality, r) == is_webp_of(
            recoloured(p, ColourType::Rgb8),
            quality,
            r,
        ),
        forall|machine: nat|
            has_alpha(p.colour) ==> #[trigger] webp_file(p, quality, machine) == webp_file(
                recoloured(p, ColourType::Rgba8),
                quality,
                machine,
            ),
        forall|machine: nat|
            !has_alpha(p.colour) ==> #[trigger] webp_file(p, quality, machine) == webp_file(
                recoloured(p, ColourType::Rgb8),
                quality,
                machine,
            ),
        is_webp_of(p, quality, r) ==> (r matches Ok(bytes) ==> bytes.len() > 0),
{
    let copy = if has_alpha(p.colour) {
        recoloured(p, ColourType::Rgba8)
    } else {
        recoloured(p, ColourType::Rgb8)
    };
    assert forall|machine: nat| #[trigger]
        webp_file(p, quality, machine) == webp_file(copy, quality, machine) by {}
    if is_webp_of(copy, quality, r) && !(p.width > WEBP_MAX_DIMENSION || p.height
        > WEBP_MAX_DIMENSION) {
        let machine = choose|machine: nat| r == #[trigger] webp_file(copy, quality, machine);
        assert(r == webp_file(p, quality, machine));
    }
}

/// The name of a format as it is written in small letters, with `jpeg` read as `jpg`.
pub open spec fn plain_name(name: Seq<char>) -> Seq<char> {
    if lowercase(name) == "jpeg"@ {
        "jpg"@
    } else {
        lowercase(name)
    }
}

/// Of the options, encoding goes by the quality and by the format alone, in whatever letter
/// case that is written and whether as `jpeg` or as `jpg`.
pub proof fn law_encoding_goes_by_format_and_quality(
    p: Picture,
    a: ConversionOptions,
    b: ConversionOptions,
    r: Result<Seq<u8>, Seq<char>>,
)
    requires
        plain_name(a.format@) == plain_name(b.format@),
        a.quality == b.quality,
    ensures
        is_encoding(p, a, r) == is_encoding(p, b, r),
{
}

/// The quality has no influence on the files of a format that is listed without quality
/// support.
pub proof fn law_quality_matters_only_where_it_is_supported(
    p: Picture,
    a: ConversionOptions,
    b: ConversionOptions,
    r: Result<Seq<u8>, Seq<char>>,
    i: int,
)
    requires
        a.format@ == b.format@,
        0 <= i < supported_outputs().len(),
        output_format(a.format@) == Some(supported_outputs()[i].1),
        !supported_outputs()[i].2,
    ensures
        is_encoding(p, a, r) == is_encoding(p, b, r),
{
}

/// Encoding a picture twice as JPEG, PNG, GIF or BMP, or in a format that is not known, comes to
/// the same, whatever else the options say, and but for JPEG whatever the quality.
pub proof fn law_encoding_again_changes_nothing(
    p: Picture,
    a: ConversionOptions,
    b: ConversionOptions,
    first: Result<Seq<u8>, Seq<char>>,
    second: Result<Seq<u8>, Seq<char>>,
)
    requires
        plain_name(a.format@) == plain_name(b.format@),
        output_format(a.format@) matches Some(format) ==> !(format is WebP || format is Avif
            || format is Tiff),
        output_format(a.format@) matches Some(format) ==> (format is Jpeg ==> a.quality
            == b.quality),
        is_encoding(p, a, first),
        is_encoding(p, b, second),
    ensures
        first == second,
{
}

/// The formats that are not known, and no others, are refused as such, with their names, and
/// they are those that no destination is chosen for either. WebP files come from the WebP
/// encoder.
pub proof fn law_unknown_formats_are_refused(
    p: Picture,
    options: ConversionOptions,
    r: Result<Seq<u8>, Seq<char>>,
    input: Seq<char>,
)
    requires
        file_stem_of(input) is Some,
    ensures
        output_format(options.format@) is None ==> (is_encoding(p, options, r) <==> r == Err::<
            Seq<u8>,
            Seq<char>,
        >("Unsupported format: "@ + lowercase(options.format@))),
        is_encoding(p, options, r) ==> (output_format(options.format@) is None <==> (r matches Err(
            message,
        ) && is_refusal(message))),
        output_format(options.format@) is None <==> target_of(input, options) == Err::<
            Target,
            Seq<char>,
        >("Unsupported output format: "@ + lowercase(options.format@)),
        output_format(options.format@) == Some(OutputFormat::WebP) ==> (is_encoding(p, options, r)
            <==> is_webp_of(p, options.quality, r)),
{
    lemma_webp_messages(p, options.quality, r);
    reveal_strlit("Unsupported output format: ");
    reveal_strlit("Custom folder not specified");
    reveal_strlit("Cannot determine parent directory");
    let refusal = "Unsupported output format: "@ + lowercase(options.format@);
    assert(refusal[0] == 'U');
    assert("Custom folder not specified"@[0] == 'C');
    assert("Cannot determine parent directory"@[0] == 'C');
    assert(is_refusal("Unsupported format: "@ + lowercase(options.format@)));
}

} // verus!
