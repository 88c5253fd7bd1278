//! Reading image files that are held in memory.
//!
//! Memory is taken to suffice: what a decoder does when it runs out of it is not modelled.

use vstd::prelude::*;

use crate::metadata::{block, SourceMetadata};
use crate::model::{outcome, ImageInfo};
use crate::path::{extension, extension_of, file_name, file_name_of};
use crate::picture::{
    apply_orientation, fills_buffer, image_shape, orientation_for, orientation_numbered, orientation_swaps_axes,
    oriented_size, picture, turned, Orientation, Picture,
};
use crate::text::{lowercase, prefixed, to_upper, uppercase};

verus! {

/// The format that `image` finds in the first bytes of a file, by its usual extension.
pub uninterp spec fn format_of_content(bytes: Seq<u8>) -> Option<Seq<char>>;

/// The format that `image` finds in the extension of a path, by its usual extension, or its
/// message.
pub uninterp spec fn format_of_path(path: Seq<char>) -> Result<Seq<char>, Seq<char>>;

/// The message with which `image` refuses to decode a file as a format, where it does.
pub uninterp spec fn decoder_refusal(format: Seq<char>, bytes: Seq<u8>) -> Option<Seq<char>>;

/// The stored width and height of the image in a file.
pub uninterp spec fn stored_size(format: Seq<char>, bytes: Seq<u8>) -> (u32, u32);

/// The Exif orientation number of a file, or nothing where reading it fails.
pub uninterp spec fn stored_orientation(format: Seq<char>, bytes: Seq<u8>) -> Option<u8>;

/// The Exif block of a file, if it has one, or nothing where reading it fails.
pub uninterp spec fn stored_exif(format: Seq<char>, bytes: Seq<u8>) -> Option<Option<Seq<u8>>>;

/// The ICC profile of a file, if it has one, or nothing where reading it fails.
pub uninterp spec fn stored_icc(format: Seq<char>, bytes: Seq<u8>) -> Option<Option<Seq<u8>>>;

/// The picture that a machine decodes from a file that is not an OpenEXR one, or the message
/// with which decoding fails.
pub uninterp spec fn stored_picture(format: Seq<char>, bytes: Seq<u8>, machine: nat) -> Result<
    Picture,
    Seq<char>,
>;

/// The orientation number that an Exif block holds, if it holds a valid one.
pub uninterp spec fn exif_orientation(exif: Seq<u8>) -> Option<u8>;

/// An Exif block once its orientation was reset.
pub uninterp spec fn upright_exif(exif: Seq<u8>) -> Seq<u8>;

/// Whether two blocks are of one length and the same but for two bytes from `at` on.
pub open spec fn same_but_two(a: Seq<u8>, b: Seq<u8>, at: int) -> bool {
    &&& a.len() == b.len()
    &&& forall|i: int| 0 <= i < a.len() && i != at && i != at + 1 ==> #[trigger] a[i] == b[i]
}

/// The path whose extension is asked for a format: none where the extension is empty, which
/// says nothing.
pub open spec fn telling_path(path: Seq<char>) -> Seq<char> {
    match extension_of(path) {
        Some(ext) => if ext.len() > 0 {
            path
        } else {
            ""@
        },
        None => ""@,
    }
}

/// The format as which a file is read: what its content shows, and otherwise what its path
/// says.
pub open spec fn chosen_format(path: Seq<char>, bytes: Seq<u8>) -> Result<Seq<char>, Seq<char>> {
    match format_of_content(bytes) {
        Some(format) => Ok(format),
        None => format_of_path(telling_path(path)),
    }
}

/// The orientation that a number stands for: none where there is no valid number.
pub open spec fn orientation_or_upright(number: Option<u8>) -> Orientation {
    match number {
        Some(n) => match orientation_numbered(n) {
            Some(orientation) => orientation,
            None => Orientation::NoTransforms,
        },
        None => Orientation::NoTransforms,
    }
}

/// The orientation of a file: none where it has no valid one, or reading it fails.
pub open spec fn orientation_of(format: Seq<char>, bytes: Seq<u8>) -> Orientation {
    orientation_or_upright(stored_orientation(format, bytes))
}

/// A block that was read, where reading it succeeded and there was one.
pub open spec fn found(b: Option<Option<Seq<u8>>>) -> Option<Seq<u8>> {
    match b {
        Some(inner) => inner,
        None => None,
    }
}

/// The Exif block that goes with a picture turned for display: the one that was read, with
/// its orientation reset.
pub open spec fn carried_exif(exif: Option<Option<Seq<u8>>>) -> Option<Seq<u8>> {
    match found(exif) {
        Some(block) => Some(upright_exif(block)),
        None => None,
    }
}

/// Whether decoding a file of a format comes to the same whenever a machine does it. The
/// blocks of an OpenEXR file are decoded by threads, whose timing decides which of two
/// failures is told, and its samples go through functions of no fixed precision.
pub open spec fn is_repeatable(format: Seq<char>) -> bool {
    lowercase(format) != "exr"@
}

/// Whether `stored` is what decoding the picture in a file comes to, whatever the machine: a
/// picture of the stored size, with nothing behind it in its buffer, or a message.
pub open spec fn is_stored(
    format: Seq<char>,
    bytes: Seq<u8>,
    stored: Result<Picture, Seq<char>>,
) -> bool {
    &&& is_repeatable(format) ==> exists|machine: nat|
        stored == #[trigger] stored_picture(format, bytes, machine)
    &&& stored matches Ok(p) ==> (p.width, p.height) == stored_size(format, bytes)
    &&& stored matches Ok(p) ==> fills_buffer(p)
}

/// What decoding a file comes to, given what decoding its picture came to: the picture turned
/// for display, with the Exif block and the ICC profile that go with it, or the message.
pub open spec fn upright(
    format: Seq<char>,
    bytes: Seq<u8>,
    stored: Result<Picture, Seq<char>>,
) -> Result<(Picture, Option<Seq<u8>>, Option<Seq<u8>>), Seq<char>> {
    match stored {
        Err(message) => Err(message),
        Ok(p) => Ok(
            (
                turned(p, orientation_of(format, bytes)),
                carried_exif(stored_exif(format, bytes)),
                found(stored_icc(format, bytes)),
            ),
        ),
    }
}

/// Whether `r` is what decoding a file comes to.
pub open spec fn is_decoded(
    path: Seq<char>,
    bytes: Seq<u8>,
    r: Result<(Picture, Option<Seq<u8>>, Option<Seq<u8>>), Seq<char>>,
) -> bool {
    match chosen_format(path, bytes) {
        Err(message) => r == Err::<(Picture, Option<Seq<u8>>, Option<Seq<u8>>), Seq<char>>(message),
        Ok(format) => match decoder_refusal(format, bytes) {
            Some(message) => r == Err::<(Picture, Option<Seq<u8>>, Option<Seq<u8>>), Seq<char>>(
                message,
            ),
            None => {
                &&& exists|stored: Result<Picture, Seq<char>>| #[trigger]
                    is_stored(format, bytes, stored) && r == upright(format, bytes, stored)
                &&& r matches Ok((p, exif, icc)) ==> is_reset(
                    found(stored_exif(format, bytes)),
                    exif,
                )
            },
        },
    }
}

/// Whether `after` is the Exif block `before` with its orientation reset: of the same length,
/// the same but for two bytes next to each other, and without anything left to transform.
pub open spec fn is_reset(before: Option<Seq<u8>>, after: Option<Seq<u8>>) -> bool {
    match (before, after) {
        (Some(b), Some(a)) => {
            &&& exists|at: int| #[trigger] same_but_two(b, a, at)
            &&& exif_orientation(b) is None ==> a == b
            &&& exif_orientation(b) is Some ==> exif_orientation(a) == Some(1u8)
        },
        (None, None) => true,
        _ => false,
    }
}

/// The size that the image in a file is shown with, or the message with which reading it
/// fails.
pub open spec fn shown_size(path: Seq<char>, bytes: Seq<u8>) -> Result<(u32, u32), Seq<char>> {
    match chosen_format(path, bytes) {
        Err(message) => Err(message),
        Ok(format) => match decoder_refusal(format, bytes) {
            Some(message) => Err(message),
            None => Ok(oriented_size(stored_size(format, bytes), orientation_of(format, bytes))),
        },
    }
}

/// Calls `ImageReader::with_guessed_format` on a reader over the bytes, and gives the first
/// of the extensions that the format lists. The guess depends on the bytes alone, as long as
/// no hook of `image` adds formats.
#[verifier::external_body]
fn guess_format(bytes: &Vec<u8>) -> (r: Option<String>)
    ensures
        match r {
            Some(format) => format_of_content(bytes@) == Some(format@),
            None => format_of_content(bytes@) is None,
        },
{
    let reader = image::ImageReader::new(std::io::Cursor::new(bytes.as_slice()));
    let format = reader.with_guessed_format().ok()?.format()?;
    Some(format.extensions_str().first()?.to_string())
}

/// Calls `ImageFormat::from_path`, and gives the first of the extensions that the format
/// lists, or the text of the error. The result depends on the path alone.
#[verifier::external_body]
fn format_from_path(path: &str) -> (r: Result<String, String>)
    ensures
        outcome(r) == format_of_path(path@),
{
    let format = image::ImageFormat::from_path(path).map_err(|e| e.to_string())?;
    Ok(format.extensions_str()[0].to_string())
}

/// What the header of a file says.
struct Header {
    size: (u32, u32),
    orientation: Option<u8>,
}

/// Calls `ImageReader::into_decoder` on a reader over the bytes with the given format, and
/// then `ImageDecoder::dimensions` and `ImageDecoder::orientation`, or gives the text of the
/// error of the first. Each result depends on the format and the bytes alone.
#[verifier::external_body]
fn read_header(format: &str, bytes: &Vec<u8>) -> (r: Result<Header, String>)
    ensures
        match r {
            Ok(header) => {
                &&& decoder_refusal(format@, bytes@) is None
                &&& header.size == stored_size(format@, bytes@)
                &&& header.orientation == stored_orientation(format@, bytes@)
            },
            Err(message) => decoder_refusal(format@, bytes@) == Some(message@),
        },
{
    let mut reader = image::ImageReader::new(std::io::Cursor::new(bytes.as_slice()));
    if let Some(known) = image::ImageFormat::from_extension(format) {
        reader.set_format(known);
    }
    let mut decoder = reader.into_decoder().map_err(|e| e.to_string())?;
    let size = image::ImageDecoder::dimensions(&decoder);
    let orientation = image::ImageDecoder::orientation(&mut decoder).ok().map(|o| o.to_exif());
    Ok(Header { size, orientation })
}

/// What was read from a file: its Exif orientation number, its Exif block and its ICC
/// profile, each of which may be missing or fail to be read, and its picture.
pub struct Contents {
    pub orientation: Option<u8>,
    pub exif: Option<Option<Vec<u8>>>,
    pub icc: Option<Option<Vec<u8>>>,
    pub image: Result<image::DynamicImage, String>,
}

/// What decoding a picture came to.
pub open spec fn picture_outcome(r: Result<image::DynamicImage, String>) -> Result<
    Picture,
    Seq<char>,
> {
    match r {
        Ok(img) => Ok(picture(img)),
        Err(message) => Err(message@),
    }
}

/// The bytes of a block that may be missing.
pub open spec fn read_block(b: Option<Option<Vec<u8>>>) -> Option<Option<Seq<u8>>> {
    match b {
        Some(inner) => Some(block(inner)),
        None => None,
    }
}

/// Calls `ImageReader::into_decoder` on a reader over the bytes with the given format, and
/// then, on the decoder, `ImageDecoder::orientation`, `ImageDecoder::exif_metadata`,
/// `ImageDecoder::icc_profile` and `DynamicImage::from_decoder`, or gives the text of the
/// error of the first. The first four results depend on the format and the bytes alone. So
/// does the last on a given machine, unless the file is an OpenEXR one. A picture has the
/// stored size, and its buffer ends with its last pixel.
#[verifier::external_body]
fn read_contents(format: &str, bytes: &Vec<u8>) -> (r: Result<Contents, String>)
    ensures
        match r {
            Ok(contents) => {
                &&& decoder_refusal(format@, bytes@) is None
                &&& contents.orientation == stored_orientation(format@, bytes@)
                &&& read_block(contents.exif) == stored_exif(format@, bytes@)
                &&& read_block(contents.icc) == stored_icc(format@, bytes@)
                &&& is_repeatable(format@) ==> exists|machine: nat|
                    picture_outcome(contents.image) == #[trigger] stored_picture(
                        format@,
                        bytes@,
                        machine,
                    )
                &&& contents.image matches Ok(img) ==> (image_shape(img).0, image_shape(img).1)
                    == stored_size(format@, bytes@)
                &&& contents.image matches Ok(img) ==> fills_buffer(picture(img))
            },
            Err(message) => decoder_refusal(format@, bytes@) == Some(message@),
        },
{
    let mut reader = image::ImageReader::new(std::io::Cursor::new(bytes.as_slice()));
    if let Some(known) = image::ImageFormat::from_extension(format) {
        reader.set_format(known);
    }
    let mut decoder = reader.into_decoder().map_err(|e| e.to_string())?;
    let orientation = image::ImageDecoder::orientation(&mut decoder).ok().map(|o| o.to_exif());
    let exif = image::ImageDecoder::exif_metadata(&mut decoder).ok();
    let icc = image::ImageDecoder::icc_profile(&mut decoder).ok();
    let image = image::DynamicImage::from_decoder(decoder).map_err(|e| e.to_string());
    Ok(Contents { orientation, exif, icc, image })
}

/// Calls `image::metadata::Orientation::remove_from_exif_chunk`. The orientation that it
/// finds and the block that it leaves depend on the block alone: where it finds none the
/// block stays as it is, and otherwise a later search finds that there is nothing to
/// transform, and at most two bytes next to each other have changed.
#[verifier::external_body]
fn remove_orientation(exif: &mut Vec<u8>) -> (r: Option<u8>)
    ensures
        r == exif_orientation(old(exif)@),
        final(exif)@ == upright_exif(old(exif)@),
        r is None ==> final(exif)@ == old(exif)@,
        r is Some ==> exif_orientation(final(exif)@) == Some(1u8),
        exists|at: int| #[trigger] same_but_two(old(exif)@, final(exif)@, at),
{
    image::metadata::Orientation::remove_from_exif_chunk(exif).map(|o| o.to_exif())
}

/// Resets the orientation that an Exif block holds to "no transforms", leaving the rest of
/// the block as it is, and tells what it was.
pub fn clear_orientation(exif: &mut Vec<u8>) -> (r: Option<Orientation>)
    ensures
        r == (match exif_orientation(old(exif)@) {
            Some(number) => orientation_numbered(number),
            None => None,
        }),
        final(exif)@ == upright_exif(old(exif)@),
        exif_orientation(old(exif)@) is None ==> final(exif)@ == old(exif)@,
        exif_orientation(old(exif)@) is Some ==> exif_orientation(final(exif)@) == Some(1u8),
        exists|at: int| #[trigger] same_but_two(old(exif)@, final(exif)@, at),
{
    match remove_orientation(exif) {
        Some(number) => orientation_for(number),
        None => None,
    }
}

/// The path whose extension is asked for a format.
pub fn path_to_ask<'a>(path: &'a str) -> (r: &'a str)
    ensures
        r@ == telling_path(path@),
{
    match extension(path) {
        Some(ext) => {
            if ext.as_str().is_empty() {
                ""
            } else {
                path
            }
        },
        None => "",
    }
}

/// The format as which a file is read.
pub fn choose_format(path: &str, bytes: &Vec<u8>) -> (r: Result<String, String>)
    ensures
        outcome(r) == chosen_format(path@, bytes@),
{
    match guess_format(bytes) {
        Some(format) => Ok(format),
        None => format_from_path(path_to_ask(path)),
    }
}

/// The orientation that a number stands for, or none.
pub fn orientation_or_none(number: Option<u8>) -> (r: Orientation)
    ensures
        r == orientation_or_upright(number),
{
    match number {
        Some(n) => match orientation_for(n) {
            Some(orientation) => orientation,
            None => Orientation::NoTransforms,
        },
        None => Orientation::NoTransforms,
    }
}

/// Turns a picture for display, with the metadata that goes with it.
///
/// The rotation is baked into the pixels, so the Exif orientation is reset: carrying the
/// original forward would make every Exif-aware viewer rotate the image a second time.
/// Metadata is best-effort: a source that cannot report it still decodes.
pub fn orient(contents: Contents) -> (r: Result<(image::DynamicImage, SourceMetadata), String>)
    ensures
        match (contents.image, r) {
            (Ok(source), Ok((img, meta))) => {
                &&& picture(img) == turned(
                    picture(source),
                    orientation_or_upright(contents.orientation),
                )
                &&& block(meta.exif) == carried_exif(read_block(contents.exif))
                &&& block(meta.icc) == found(read_block(contents.icc))
                &&& is_reset(found(read_block(contents.exif)), block(meta.exif))
                &&& contents.exif matches Some(Some(bytes)) ==> is_reset(
                    Some(bytes@),
                    block(meta.exif),
                )
                &&& contents.icc matches Some(Some(bytes)) ==> block(meta.icc) == Some(bytes@)
                &&& !(contents.icc matches Some(Some(_))) ==> meta.icc is None
                &&& !(contents.exif matches Some(Some(_))) ==> meta.exif is None
                &&& fills_buffer(picture(source)) ==> fills_buffer(picture(img))
            },
            (Err(message), Err(told)) => told@ == message@,
            _ => false,
        },
{
    let orientation = orientation_or_none(contents.orientation);
    let mut exif = match contents.exif {
        Some(inner) => inner,
        None => None,
    };
    let icc = match contents.icc {
        Some(inner) => inner,
        None => None,
    };
    if let Some(chunk) = &mut exif {
        let _ = remove_orientation(chunk);
    }
    match contents.image {
        Ok(source) => {
            let mut img = source;
            apply_orientation(&mut img, orientation);
            Ok((img, SourceMetadata { exif, icc }))
        },
        Err(message) => Err(message),
    }
}

/// Decodes a file and turns the picture for display, with the metadata that goes with it.
pub fn decode_oriented(path: &str, bytes: &Vec<u8>) -> (r: Result<
    (image::DynamicImage, SourceMetadata),
    String,
>)
    ensures
        is_decoded(
            path@,
            bytes@,
            match r {
                Ok((img, meta)) => Ok((picture(img), block(meta.exif), block(meta.icc))),
                Err(message) => Err(message@),
            },
        ),
        r matches Ok((img, meta)) ==> shown_size(path@, bytes@) == Ok::<(u32, u32), Seq<char>>(
            (image_shape(img).0, image_shape(img).1),
        ),
        r matches Ok((img, meta)) ==> fills_buffer(picture(img)),
        r matches Ok((img, meta)) ==> (chosen_format(path@, bytes@) matches Ok(format) && is_reset(
            found(stored_exif(format, bytes@)),
            block(meta.exif),
        )),
{
    let format = match choose_format(path, bytes) {
        Ok(format) => format,
        Err(message) => return Err(message),
    };
    match read_contents(format.as_str(), bytes) {
        Ok(contents) => {
            let ghost stored = picture_outcome(contents.image);
            let r = orient(contents);
            proof {
                assert(is_stored(format@, bytes@, stored));
            }
            r
        },
        Err(message) => Err(message),
    }
}

/// Whether `info` describes an image that is shown with the given size, in a file of
/// `size_bytes` bytes.
pub open spec fn describes_image(
    info: ImageInfo,
    path: Seq<char>,
    shown: (u32, u32),
    size_bytes: u64,
) -> bool {
    &&& info.path@ == path
    &&& info.name@ == (match file_name_of(path) {
        Some(name) => name,
        None => "unknown"@,
    })
    &&& info.width == shown.0
    &&& info.height == shown.1
    &&& info.format@ == uppercase(
        match extension_of(path) {
            Some(ext) => ext,
            None => "unknown"@,
        },
    )
    &&& info.size_bytes == size_bytes
}

/// What the file list shows of an image of the given stored size and orientation.
///
/// Conversion applies the orientation, so the size is the one that the output will have
/// rather than the stored one.
pub fn image_info(path: &str, stored: (u32, u32), orientation: Orientation, size_bytes: u64) -> (r:
    ImageInfo)
    ensures
        describes_image(r, path@, oriented_size(stored, orientation), size_bytes),
{
    let (width, height): (u32, u32) = if orientation_swaps_axes(orientation) {
        (stored.1, stored.0)
    } else {
        (stored.0, stored.1)
    };
    let name = match file_name(path) {
        Some(name) => name,
        None => "unknown".to_owned(),
    };
    let format = match extension(path) {
        Some(ext) => to_upper(ext.as_str()),
        None => to_upper("unknown"),
    };
    ImageInfo { path: path.to_owned(), name, width, height, format, size_bytes }
}

/// Whether `r` is what describing the image at `path` comes to, given what reading the file and
/// looking up its size came to.
pub open spec fn is_info_of(
    path: Seq<char>,
    file: Result<Seq<u8>, Seq<char>>,
    size_bytes: Result<u64, Seq<char>>,
    r: Result<ImageInfo, Seq<char>>,
) -> bool {
    match file {
        Err(message) => r == Err::<ImageInfo, Seq<char>>("Failed to open image: "@ + message),
        Ok(bytes) => match shown_size(path, bytes) {
            Err(message) => r == Err::<ImageInfo, Seq<char>>("Failed to read image: "@ + message),
            Ok(shown) => match size_bytes {
                Err(message) => r == Err::<ImageInfo, Seq<char>>(
                    "Failed to read metadata: "@ + message,
                ),
                Ok(size) => r matches Ok(info) && describes_image(info, path, shown, size),
            },
        },
    }
}

/// Describes the image at `path`, given what reading the file and looking up its size came
/// to. Only the header is decoded.
pub fn read_image_info(
    path: &str,
    file: Result<Vec<u8>, String>,
    size_bytes: Result<u64, String>,
) -> (r: Result<ImageInfo, String>)
    ensures
        match (file, r) {
            (Err(message), told) => told matches Err(text) && text@ == "Failed to open image: "@
                + message@,
            (Ok(bytes), told) => match shown_size(path@, bytes@) {
                Err(message) => told matches Err(text) && text@ == "Failed to read image: "@
                    + message,
                Ok(shown) => match size_bytes {
                    Err(message) => told matches Err(text) && text@
                        == "Failed to read metadata: "@ + message@,
                    Ok(size) => told matches Ok(info) && describes_image(info, path@, shown, size),
                },
            },
        },
        is_info_of(
            path@,
            match file {
                Ok(bytes) => Ok(bytes@),
                Err(message) => Err(message@),
            },
            match size_bytes {
                Ok(size) => Ok(size),
                Err(message) => Err(message@),
            },
            match r {
                Ok(info) => Ok(info),
                Err(message) => Err(message@),
            },
        ),
{
    let bytes = match file {
        Ok(bytes) => bytes,
        Err(message) => return Err(prefixed("Failed to open image: ", message.as_str())),
    };
    let format = match choose_format(path, &bytes) {
        Ok(format) => format,
        Err(message) => return Err(prefixed("Failed to read image: ", message.as_str())),
    };
    let header = match read_header(format.as_str(), &bytes) {
        Ok(header) => header,
        Err(message) => return Err(prefixed("Failed to read image: ", message.as_str())),
    };
    let orientation = orientation_or_none(header.orientation);
    match size_bytes {
        Ok(size) => Ok(image_info(path, header.size, orientation, size)),
        Err(message) => Err(prefixed("Failed to read metadata: ", message.as_str())),
    }
}

} // verus!
