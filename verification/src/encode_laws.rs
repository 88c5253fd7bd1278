//! What holds of every picture that is encoded.

use vstd::prelude::*;

use crate::decode::{picture_outcome, read_block};
use crate::encode::{
    avif_file, byte_view, file_outcome, image_file, is_encodable_as, is_encoding, is_webp_of,
    jpeg_file, tiff_file, webp_file, webp_rgb_file, webp_rgba_file,
};
use crate::format::{
    carries_metadata, describes, extension_for, format_named, lemma_extension_names_format,
    output_format, supported_inputs, supported_outputs, OutputFormat,
};
use crate::metadata::block;
use crate::model::{optional, ConversionOptions, OutputFormatInfo};
use crate::picture::{
    buffer_size, image_contents, image_shape, normalised, picture, pixel_size, recoloured,
    rgb16_contents, rgb8_contents, rgba16_contents, rgba8_contents, sample_bytes, ColourType,
    Picture,
};
use crate::text::{decimal, lowercase};

verus! {

/// A WebP file is made of the alpha samples too wherever the picture has any, whether it is lossy
/// or lossless, and of the whole picture in its own size. It is lossless from quality 100 on,
/// and below that of the quality that was asked for. An empty file counts as a failure.
pub proof fn law_webp_files_keep_alpha(p: Picture, quality: u8, r: Result<Seq<u8>, Seq<char>>) -> (
    machine: nat)
    requires
        is_webp_of(p, quality, r),
        p.width <= 16383,
        p.height <= 16383,
    ensures
        ({
            let file = if p.colour is La8 || p.colour is Rgba8 || p.colour is La16 || p.colour
                is Rgba16 || p.colour is Rgba32F {
                webp_rgba_file(
                    sample_bytes(
                        if p.colour is Rgba8 {
                            p
                        } else {
                            Picture { colour: ColourType::Rgba8, contents: rgba8_contents(p), ..p }
                        },
                    ),
                    p.width,
                    p.height,
                    quality >= 100,
                    if quality >= 100 {
                        75
                    } else {
                        quality
                    },
                    machine,
                )
            } else {
                webp_rgb_file(
                    sample_bytes(
                        if p.colour is Rgb8 {
                            p
                        } else {
                            Picture { colour: ColourType::Rgb8, contents: rgb8_contents(p), ..p }
                        },
                    ),
                    p.width,
                    p.height,
                    quality >= 100,
                    if quality >= 100 {
                        75
                    } else {
                        quality
                    },
                    machine,
                )
            };
            match r {
                Ok(bytes) => file == Some(bytes) && bytes.len() > 0,
                Err(message) => message == "WebP encoding failed"@ && (file matches Some(bytes)
                    ==> bytes.len() == 0),
            }
        }),
{
    choose|machine: nat| r == #[trigger] webp_file(p, quality, machine)
}

/// A picture with a side of more than 16383 pixels is no WebP file, and the message names its
/// size and the limit.
pub proof fn law_webp_refuses_what_is_too_large(
    p: Picture,
    quality: u8,
    r: Result<Seq<u8>, Seq<char>>,
)
    requires
        is_webp_of(p, quality, r),
        p.width > 16383 || p.height > 16383,
    ensures
        r == Err::<Seq<u8>, Seq<char>>(
            "WebP cannot store "@ + decimal(p.width as nat) + "x"@ + decimal(p.height as nat)
                + ": maximum dimension is "@ + decimal(16383),
        ),
{
}

/// The name of the format, in whatever letter case, decides which encoder makes the file, and
/// that encoder is handed the picture itself wherever it can store it, and otherwise a copy
/// with as many bits as it can store, which has alpha exactly where the picture has it.
pub proof fn law_files_are_made_of_the_picture(
    p: Picture,
    options: ConversionOptions,
    r: Result<Seq<u8>, Seq<char>>,
) -> (on: (nat, bool))
    requires
        is_encoding(p, options, r),
    ensures
        ({
            let (machine, little_endian) = on;
            let name = lowercase(options.format@);
            let alpha = p.colour is La8 || p.colour is Rgba8 || p.colour is La16 || p.colour
                is Rgba16 || p.colour is Rgba32F;
            let eight = if alpha {
                Picture { colour: ColourType::Rgba8, contents: rgba8_contents(p), ..p }
            } else {
                Picture { colour: ColourType::Rgb8, contents: rgb8_contents(p), ..p }
            };
            let sixteen = if alpha {
                Picture { colour: ColourType::Rgba16, contents: rgba16_contents(p), ..p }
            } else {
                Picture { colour: ColourType::Rgb16, contents: rgb16_contents(p), ..p }
            };
            let small = if p.colour is Rgb8 || p.colour is Rgba8 {
                p
            } else {
                eight
            };
            &&& name == "jpg"@ || name == "jpeg"@ ==> r == jpeg_file(p, options.quality)
            &&& name == "webp"@ ==> is_webp_of(p, options.quality, r)
            &&& name == "png"@ ==> r == image_file(
                if p.colour is Rgb32F || p.colour is Rgba32F || p.colour is Other {
                    sixteen
                } else {
                    p
                },
                OutputFormat::Png,
            )
            &&& name == "gif"@ ==> r == image_file(small, OutputFormat::Gif)
            &&& name == "bmp"@ ==> r == image_file(
                if p.colour is La8 || p.colour is La16 {
                    eight
                } else {
                    p
                },
                OutputFormat::Bmp,
            )
            &&& name == "avif"@ ==> r == avif_file(small, machine)
            &&& name == "tiff"@ ==> r == tiff_file(
                if p.colour is La8 {
                    eight
                } else if p.colour is La16 || p.colour is Other {
                    sixteen
                } else {
                    p
                },
                little_endian,
            )
            &&& name != "jpg"@ && name != "jpeg"@ && name != "webp"@ && name != "png"@ && name
                != "gif"@ && name != "bmp"@ && name != "avif"@ && name != "tiff"@ ==> r == Err::<
                Seq<u8>,
                Seq<char>,
            >("Unsupported format: "@ + name)
        }),
{
    law_format_names_are_told_apart(lowercase(options.format@));
    let avif = normalised(p, OutputFormat::Avif);
    let tiff = normalised(p, OutputFormat::Tiff);
    (
        choose|machine: nat| r == #[trigger] avif_file(avif, machine),
        choose|little_endian: bool| r == #[trigger] tiff_file(tiff, little_endian),
    )
}

/// Eight names stand for the seven formats, two of them for JPEG, and no other name stands for
/// any.
pub proof fn law_format_names_are_told_apart(name: Seq<char>)
    ensures
        format_named(name) == Some(OutputFormat::Jpeg) <==> name == "jpg"@ || name == "jpeg"@,
        format_named(name) == Some(OutputFormat::Png) <==> name == "png"@,
        format_named(name) == Some(OutputFormat::WebP) <==> name == "webp"@,
        format_named(name) == Some(OutputFormat::Avif) <==> name == "avif"@,
        format_named(name) == Some(OutputFormat::Gif) <==> name == "gif"@,
        format_named(name) == Some(OutputFormat::Bmp) <==> name == "bmp"@,
        format_named(name) == Some(OutputFormat::Tiff) <==> name == "tiff"@,
        format_named(name) is None <==> name != "jpg"@ && name != "jpeg"@ && name != "webp"@
            && name != "png"@ && name != "gif"@ && name != "bmp"@ && name != "avif"@ && name
            != "tiff"@,
{
    reveal_strlit("jpeg");
    reveal_strlit("jpg");
    reveal_strlit("png");
    reveal_strlit("webp");
    reveal_strlit("avif");
    reveal_strlit("gif");
    reveal_strlit("bmp");
    reveal_strlit("tiff");
    assert("jpeg"@.len() == 4 && "jpg"@.len() == 3);
    assert("jpeg"@[0] == 'j' && "jpg"@[0] == 'j' && "png"@[0] == 'p' && "webp"@[0] == 'w'
        && "avif"@[0] == 'a' && "gif"@[0] == 'g' && "bmp"@[0] == 'b' && "tiff"@[0] == 't');
}

/// Files get the usual extension of their format, and those of JPEG, PNG and WebP, and no
/// others, can carry metadata.
pub proof fn law_extensions_are_those_of_the_formats(format: OutputFormat)
    ensures
        format is Jpeg <==> extension_for(format) == "jpg"@,
        format is Png <==> extension_for(format) == "png"@,
        format is WebP <==> extension_for(format) == "webp"@,
        format is Avif <==> extension_for(format) == "avif"@,
        format is Gif <==> extension_for(format) == "gif"@,
        format is Bmp <==> extension_for(format) == "bmp"@,
        format is Tiff <==> extension_for(format) == "tiff"@,
        carries_metadata(format) <==> extension_for(format) == "jpg"@ || extension_for(format)
            == "png"@ || extension_for(format) == "webp"@,
{
    law_format_names_are_told_apart(extension_for(format));
}

/// A picture comes out as JPEG exactly where both sides are between 1 and 65535, and as GIF
/// exactly where neither is above 65535.
pub proof fn law_sizes_decide_what_comes_out(
    p: Picture,
    options: ConversionOptions,
    r: Result<Seq<u8>, Seq<char>>,
)
    requires
        is_encoding(p, options, r),
    ensures
        lowercase(options.format@) == "jpg"@ || lowercase(options.format@) == "jpeg"@ ==> (r is Ok
            <==> 1 <= p.width <= 65535 && 1 <= p.height <= 65535),
        lowercase(options.format@) == "gif"@ ==> (r is Ok <==> p.width <= 65535 && p.height
            <= 65535),
{
    law_format_names_are_told_apart(lowercase(options.format@));
}

/// A picture whose buffer ends with its last pixel can go to every encoder, and any picture can
/// go to one that is handed a copy.
pub proof fn law_whole_pictures_can_be_encoded(p: Picture, options: ConversionOptions)
    ensures
        ({
            let pixels = p.width * p.height;
            ||| p.colour is L8 && buffer_size(p) == pixels
            ||| (p.colour is La8 || p.colour is L16) && buffer_size(p) == pixels * 2
            ||| p.colour is Rgb8 && buffer_size(p) == pixels * 3
            ||| (p.colour is Rgba8 || p.colour is La16) && buffer_size(p) == pixels * 4
            ||| p.colour is Rgb16 && buffer_size(p) == pixels * 6
            ||| p.colour is Rgba16 && buffer_size(p) == pixels * 8
            ||| p.colour is Rgb32F && buffer_size(p) == pixels * 12
            ||| p.colour is Rgba32F && buffer_size(p) == pixels * 16
        }) ==> is_encodable_as(p, options),
        lowercase(options.format@) == "webp"@ ==> is_encodable_as(p, options),
        output_format(options.format@) is None ==> is_encodable_as(p, options),
        !is_encodable_as(p, options) ==> ({
            let name = lowercase(options.format@);
            let plain = p.colour is Rgb8 || p.colour is Rgba8;
            &&& name == "jpg"@ || name == "jpeg"@ ==> p.colour is L8 || p.colour is Rgb8
            &&& name == "bmp"@ ==> p.colour is L8 || plain
            &&& name == "gif"@ || name == "avif"@ ==> plain
            &&& name == "png"@ ==> !(p.colour is Rgb32F || p.colour is Rgba32F || p.colour is Other)
            &&& name == "tiff"@ ==> !(p.colour is La8 || p.colour is La16 || p.colour is Other)
        }),
{
    law_format_names_are_told_apart(lowercase(options.format@));
    let size = pixel_size(p.colour) as int;
    assert forall|k: int| k == size implies p.width * p.height * size == #[trigger] (p.width
        * p.height * k) by {}
}

/// Each format on offer is listed under a name that stands for it, and the quality setting
/// applies to JPEG and WebP and to no other.
pub proof fn law_formats_are_listed_as_they_are(i: int)
    requires
        0 <= i < supported_outputs().len(),
    ensures
        output_format(supported_outputs()[i].0) == Some(supported_outputs()[i].1),
        supported_outputs().len() == 7,
        supported_outputs()[i].2 <==> supported_outputs()[i].1 is Jpeg || supported_outputs()[i].1
            is WebP,
{
    reveal_strlit("jpeg");
    reveal_strlit("png");
    reveal_strlit("webp");
    reveal_strlit("avif");
    reveal_strlit("gif");
    reveal_strlit("bmp");
    reveal_strlit("tiff");
    reveal_strlit("JPEG");
    reveal_strlit("PNG");
    reveal_strlit("WebP");
    reveal_strlit("AVIF");
    reveal_strlit("GIF");
    reveal_strlit("BMP");
    reveal_strlit("TIFF");
    assert(lowercase("JPEG"@) =~= "jpeg"@);
    assert(lowercase("PNG"@) =~= "png"@);
    assert(lowercase("WebP"@) =~= "webp"@);
    assert(lowercase("AVIF"@) =~= "avif"@);
    assert(lowercase("GIF"@) =~= "gif"@);
    assert(lowercase("BMP"@) =~= "bmp"@);
    assert(lowercase("TIFF"@) =~= "tiff"@);
    law_format_names_are_told_apart(lowercase(supported_outputs()[i].0));
}

/// Seven formats can be read, and no others are on offer.
pub proof fn law_inputs_on_offer(name: Seq<char>)
    ensures
        supported_inputs().contains(name) <==> name == "PNG"@ || name == "JPEG"@ || name == "GIF"@
            || name == "WebP"@ || name == "BMP"@ || name == "TIFF"@ || name == "ICO"@,
        supported_inputs().len() == 7,
{
    let s = supported_inputs();
    assert(s[0] == "PNG"@ && s[1] == "JPEG"@ && s[2] == "GIF"@ && s[3] == "WebP"@ && s[4] == "BMP"@
        && s[5] == "TIFF"@ && s[6] == "ICO"@);
}

/// A copy in another colour type has the size of the picture, and the samples that `image`
/// converts its samples to.
pub proof fn law_copies_show_the_same_picture(p: Picture)
    ensures
        p.colour is Rgb8 ==> recoloured(p, ColourType::Rgb8) == p,
        !(p.colour is Rgb8) ==> recoloured(p, ColourType::Rgb8) == (Picture {
            colour: ColourType::Rgb8,
            contents: rgb8_contents(p),
            ..p
        }),
        p.colour is Rgba8 ==> recoloured(p, ColourType::Rgba8) == p,
        !(p.colour is Rgba8) ==> recoloured(p, ColourType::Rgba8) == (Picture {
            colour: ColourType::Rgba8,
            contents: rgba8_contents(p),
            ..p
        }),
        !(p.colour is Rgb16) ==> recoloured(p, ColourType::Rgb16) == (Picture {
            colour: ColourType::Rgb16,
            contents: rgb16_contents(p),
            ..p
        }),
        !(p.colour is Rgba16) ==> recoloured(p, ColourType::Rgba16) == (Picture {
            colour: ColourType::Rgba16,
            contents: rgba16_contents(p),
            ..p
        }),
{
}

/// A format on offer is described with its display name, its extension, and whether the quality
/// setting applies to it and its files carry metadata, which those of JPEG, PNG and WebP do.
pub proof fn law_offers_tell_of_their_format(
    info: OutputFormatInfo,
    entry: (Seq<char>, OutputFormat, bool),
)
    requires
        describes(info, entry),
    ensures
        info.name@ == entry.0,
        output_format(info.extension@) == Some(entry.1),
        info.supports_quality == entry.2,
        info.supports_metadata <==> info.extension@ == "jpg"@ || info.extension@ == "png"@
            || info.extension@ == "webp"@,
{
    law_extensions_are_those_of_the_formats(entry.1);
    lemma_extension_names_format(entry.1);
}

/// Files, blocks and texts are read as they stand.
pub proof fn law_outcomes_are_read_as_they_stand(
    file: Result<Vec<u8>, String>,
    bytes: Option<Vec<u8>>,
    inner: Option<Option<Vec<u8>>>,
    text: Option<String>,
    image: Result<image::DynamicImage, String>,
)
    ensures
        file matches Ok(v) ==> file_outcome(file) == Ok::<Seq<u8>, Seq<char>>(v@),
        file matches Err(m) ==> file_outcome(file) == Err::<Seq<u8>, Seq<char>>(m@),
        bytes matches Some(v) ==> byte_view(bytes) == Some(v@) && block(bytes) == Some(v@),
        bytes is None ==> byte_view(bytes) is None && block(bytes) is None,
        inner matches Some(Some(v)) ==> read_block(inner) == Some(Some(v@)),
        inner matches Some(None) ==> read_block(inner) == Some(None::<Seq<u8>>),
        inner is None ==> read_block(inner) is None,
        text matches Some(s) ==> optional(text) == Some(s@),
        text is None ==> optional(text) is None,
        image matches Ok(img) ==> picture_outcome(image) == Ok::<Picture, Seq<char>>(picture(img)),
        image matches Err(m) ==> picture_outcome(image) == Err::<Picture, Seq<char>>(m@),
{
}

/// A picture is read as it stands.
pub proof fn law_pictures_are_read_as_they_stand(img: image::DynamicImage)
    ensures
        (picture(img).width, picture(img).height, picture(img).colour) == image_shape(img),
        picture(img).contents == image_contents(img),
{
}

} // verus!
