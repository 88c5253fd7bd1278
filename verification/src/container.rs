//! Image containers: the parts that JPEG, PNG and WebP files are made of, and the Exif and
//! ICC blocks among them.

use vstd::prelude::*;

use crate::decode::{decoder_refusal, stored_exif, stored_icc};

verus! {

/// The containers that can hold metadata here.
#[derive(Debug, Clone, Copy, PartialEq, Eq, Structural)]
pub enum ContainerKind {
    Jpeg,
    Png,
    WebP,
}

/// One part of a container: a PNG chunk, a RIFF chunk of a WebP file, or a JPEG segment with
/// the image data that follows it. The tag is the chunk type or the segment's marker. What a
/// RIFF chunk holds that lists further chunks is their encoding.
pub struct Part {
    pub tag: Seq<u8>,
    pub contents: Seq<u8>,
    pub image_data: Seq<u8>,
}

/// A part with no image data behind it.
pub open spec fn plain_part(tag: Seq<u8>, contents: Seq<u8>) -> Part {
    Part { tag, contents, image_data: Seq::empty() }
}

/// The type of the PNG chunk that holds Exif, `eXIf`.
pub open spec fn png_exif_tag() -> Seq<u8> {
    seq![0x65u8, 0x58, 0x49, 0x66]
}

/// The type of the PNG chunk that holds image data, `IDAT`.
pub open spec fn png_data_tag() -> Seq<u8> {
    seq![0x49u8, 0x44, 0x41, 0x54]
}

/// The type of the PNG chunk that holds an ICC profile, `iCCP`.
pub open spec fn png_icc_tag() -> Seq<u8> {
    seq![0x69u8, 0x43, 0x43, 0x50]
}

/// The type of the PNG chunk that declares sRGB colour, `sRGB`.
pub open spec fn png_srgb_tag() -> Seq<u8> {
    seq![0x73u8, 0x52, 0x47, 0x42]
}

/// The type of the chunk that opens a PNG file, `IHDR`.
pub open spec fn png_header_tag() -> Seq<u8> {
    seq![0x49u8, 0x48, 0x44, 0x52]
}

/// The type of the chunk that ends a PNG file, `IEND`.
pub open spec fn png_end_tag() -> Seq<u8> {
    seq![0x49u8, 0x45, 0x4e, 0x44]
}

/// The id of the WebP chunk that holds Exif, `EXIF`.
pub open spec fn webp_exif_tag() -> Seq<u8> {
    seq![0x45u8, 0x58, 0x49, 0x46]
}

/// The id of the WebP chunk that holds an ICC profile, `ICCP`.
pub open spec fn webp_icc_tag() -> Seq<u8> {
    seq![0x49u8, 0x43, 0x43, 0x50]
}

/// The id of the WebP chunk that lists what the file holds, `VP8X`.
pub open spec fn webp_header_tag() -> Seq<u8> {
    seq![0x56u8, 0x50, 0x38, 0x58]
}

/// The id of the WebP chunk that holds a lossy picture, `VP8 `.
pub open spec fn webp_lossy_tag() -> Seq<u8> {
    seq![0x56u8, 0x50, 0x38, 0x20]
}

/// The id of the WebP chunk that holds a lossless picture, `VP8L`.
pub open spec fn webp_lossless_tag() -> Seq<u8> {
    seq![0x56u8, 0x50, 0x38, 0x4c]
}

/// What opens a JPEG segment with Exif: `Exif` and two zero bytes.
pub open spec fn jpeg_exif_prefix() -> Seq<u8> {
    seq![0x45u8, 0x78, 0x69, 0x66, 0, 0]
}

/// What opens a JPEG segment with a piece of an ICC profile: `ICC_PROFILE` and a zero byte.
pub open spec fn jpeg_icc_prefix() -> Seq<u8> {
    seq![0x49u8, 0x43, 0x43, 0x5f, 0x50, 0x52, 0x4f, 0x46, 0x49, 0x4c, 0x45, 0]
}

/// What opens a JPEG segment that lists the further images of the file: `MPF` and a zero
/// byte.
pub open spec fn jpeg_index_prefix() -> Seq<u8> {
    seq![0x4du8, 0x50, 0x46, 0]
}

/// Whether a JPEG segment has the given marker and opens with the given bytes.
pub open spec fn is_jpeg_segment(part: Part, marker: u8, prefix: Seq<u8>) -> bool {
    part.tag == seq![marker] && prefix.is_prefix_of(part.contents)
}

/// How much Exif fits into a JPEG file.
pub const JPEG_EXIF_MAX: usize = 65527;

/// How much of an ICC profile fits into one JPEG segment.
pub const JPEG_ICC_PIECE: usize = 65519;

/// How much of an ICC profile fits into a JPEG file.
pub const JPEG_ICC_MAX: usize = 16707345;

/// How much of an ICC profile the decoder of JPEG files puts together again.
pub const JPEG_ICC_READ_MAX: usize = 16641826;

/// How much fits into one JPEG segment.
pub const JPEG_SEGMENT_MAX: usize = 65533;

/// The longest chunk that the decoder of PNG files reads.
pub const PNG_CHUNK_READ_MAX: usize = 0x7fff_ffff;

/// How much of an ICC profile the decoder of PNG files is sure to have room for.
pub const PNG_ICC_READ_MAX: usize = 0x100_0000;

/// Whether the file opens as a JPEG, PNG or WebP file does.
pub open spec fn looks_like_container(bytes: Seq<u8>) -> bool {
    ||| bytes.len() > 4 && bytes[0] == 0xff && bytes[1] == 0xd8 && bytes[2] == 0xff
    ||| bytes.len() >= 8 && bytes.take(8) == seq![0x89u8, 0x50, 0x4e, 0x47, 0x0d, 0x0a, 0x1a, 0x0a]
    ||| bytes.len() > 12 && bytes.take(4) == seq![0x52u8, 0x49, 0x46, 0x46] && bytes.subrange(8, 12)
        == seq![0x57u8, 0x45, 0x42, 0x50]
}

/// The kind of container that the first byte of a file announces.
pub open spec fn announced_kind(bytes: Seq<u8>) -> ContainerKind {
    if bytes.len() > 0 && bytes[0] == 0x89 {
        ContainerKind::Png
    } else if bytes.len() > 0 && bytes[0] == 0x52 {
        ContainerKind::WebP
    } else {
        ContainerKind::Jpeg
    }
}

/// How much room the chunks of a WebP file take: each its id, its size field, its contents and
/// a byte of padding where these are odd, after the file's own header.
pub open spec fn webp_size(parts: Seq<Part>) -> nat
    decreases parts.len(),
{
    if parts.len() == 0 {
        12
    } else {
        webp_size(parts.drop_last()) + parts.last().contents.len() + parts.last().contents.len() % 2
            + 8
    }
}

/// Whether the sizes in a container fit its size fields.
pub open spec fn sizes_fit(kind: ContainerKind, parts: Seq<Part>) -> bool {
    match kind {
        ContainerKind::Jpeg => forall|i: int|
            0 <= i < parts.len() ==> (#[trigger] parts[i]).contents.len() <= JPEG_SEGMENT_MAX,
        ContainerKind::Png => forall|i: int|
            0 <= i < parts.len() ==> (#[trigger] parts[i]).contents.len() <= u32::MAX,
        ContainerKind::WebP => webp_size(parts) <= u32::MAX,
    }
}

/// Whether no chunk but the last ends the PNG file.
pub open spec fn ends_last(chunks: Seq<Part>) -> bool {
    forall|i: int| 0 <= i < chunks.len() - 1 ==> (#[trigger] chunks[i]).tag != png_end_tag()
}

/// Whether the chunks of a PNG file start with its header, and none but the last ends it.
pub open spec fn is_proper_png(chunks: Seq<Part>) -> bool {
    chunks.len() > 0 && chunks[0].tag == png_header_tag() && ends_last(chunks)
}

/// Whether a JPEG marker opens a segment with a length.
pub open spec fn has_length(marker: u8) -> bool {
    0xc0 <= marker <= 0xcf || 0xda <= marker <= 0xfe
}

/// Whether a JPEG segment is one that can be read back: its marker has a length, its contents
/// fit, and only the one that starts a scan, which is the last, has image data behind it.
pub open spec fn is_proper_segment(part: Part, is_last: bool) -> bool {
    &&& part.tag.len() == 1
    &&& has_length(part.tag[0])
    &&& part.contents.len() <= JPEG_SEGMENT_MAX
    &&& (part.image_data.len() > 0) == (part.tag[0] == 0xda)
    &&& part.tag[0] == 0xda ==> is_last
}

/// Whether every segment of a JPEG file can be read back.
pub open spec fn is_proper_jpeg(parts: Seq<Part>) -> bool {
    forall|i: int|
        0 <= i < parts.len() ==> is_proper_segment(#[trigger] parts[i], i == parts.len() - 1)
}

/// Whether reading the file that parts make up gives those parts back.
pub open spec fn reads_back(kind: ContainerKind, parts: Seq<Part>) -> bool {
    parts.len() > 0 && match kind {
        ContainerKind::Jpeg => is_proper_jpeg(parts),
        ContainerKind::Png => ends_last(parts),
        ContainerKind::WebP => true,
    }
}

/// Whether a WebP chunk with a picture tells the size of the picture in its header.
pub open spec fn tells_size(part: Part) -> bool {
    let c = part.contents;
    ||| part.tag == webp_lossy_tag() && c.len() >= 10 && c[0] % 2 == 0 && c.subrange(3, 6) == seq![
        0x9du8,
        0x01,
        0x2a,
    ] && (c[6] != 0 || c[7] % 64 != 0) && (c[8] != 0 || c[9] % 64 != 0)
    ||| part.tag == webp_lossless_tag() && c.len() >= 5
}

/// Whether a WebP file opens with the chunk that lists what the file holds.
pub open spec fn opens_extended(parts: Seq<Part>) -> bool {
    parts.len() > 0 && parts[0].tag == webp_header_tag()
}

/// Whether a WebP file opens with the chunk that lists what it holds, or has none and opens
/// with a picture that tells its size, so that one can be made.
pub open spec fn opens_sized(parts: Seq<Part>) -> bool {
    ||| opens_extended(parts)
    ||| parts.len() > 0 && tells_size(parts[0]) && forall|i: int|
        0 <= i < parts.len() ==> (#[trigger] parts[i]).tag != webp_header_tag()
}

/// Whether no APP0 segment of a JPEG file has exactly four bytes. Of such a one the decoder
/// reads five, and so loses the segment behind it.
pub open spec fn heads_are_whole(parts: Seq<Part>) -> bool {
    forall|i: int|
        0 <= i < parts.len() ==> !((#[trigger] parts[i]).tag == seq![0xe0u8]
            && parts[i].contents.len() == 4)
}

/// Whether decoders can come to find metadata in a container once it was put in: the decoder
/// of a JPEG file loses no segment, a PNG file starts with its header and a WebP file tells
/// its size.
pub open spec fn is_ready(kind: ContainerKind, parts: Seq<Part>) -> bool {
    match kind {
        ContainerKind::Jpeg => heads_are_whole(parts),
        ContainerKind::Png => is_proper_png(parts),
        ContainerKind::WebP => opens_sized(parts),
    }
}

/// The format as which `image` decodes the files of a container.
pub open spec fn decoded_as(kind: ContainerKind) -> Seq<char> {
    match kind {
        ContainerKind::Jpeg => "jpg"@,
        ContainerKind::Png => "png"@,
        ContainerKind::WebP => "webp"@,
    }
}

/// The parts without those of one type.
pub open spec fn without_tag(parts: Seq<Part>, tag: Seq<u8>) -> Seq<Part> {
    parts.filter(|p: Part| p.tag != tag)
}

/// The parts with one more right after the first.
pub open spec fn with_second(parts: Seq<Part>, part: Part) -> Seq<Part> {
    parts.insert(
        if parts.len() == 0 {
            0
        } else {
            1
        },
        part,
    )
}

/// The container that `img_parts::DynImage::from_bytes` finds in a file: its kind and its
/// parts.
pub uninterp spec fn parsed_container(bytes: Seq<u8>) -> Option<(ContainerKind, Seq<Part>)>;

/// Whether a file is a container of a kind that metadata can be put into.
pub open spec fn is_carrier(kind: ContainerKind, bytes: Seq<u8>) -> bool {
    parsed_container(bytes) matches Some((found, parts)) && found == kind && is_ready(kind, parts)
}

/// Which container an `img_parts::DynImage` is.
pub uninterp spec fn container_kind(image: img_parts::DynImage) -> ContainerKind;

/// The parts that an `img_parts::DynImage` holds, in order.
pub uninterp spec fn container_parts(image: img_parts::DynImage) -> Seq<Part>;

/// The chunks that an `img_parts::png::Png` holds, in order.
pub uninterp spec fn png_chunks(png: img_parts::png::Png) -> Seq<Part>;

/// The chunk that an `img_parts::png::PngChunk` is.
pub uninterp spec fn chunk_part(chunk: img_parts::png::PngChunk) -> Part;

/// Whether an `img_parts::DynImage` is put together as one that was read from a file: the
/// outermost chunk of a WebP file is `RIFF`, and within it those chunks list others, and only
/// those, whose id says so, and no deeper than files are read.
pub uninterp spec fn is_sound(image: img_parts::DynImage) -> bool;

/// The parts of a WebP file, or of a JPEG file that lists further images, after `set_exif`.
pub uninterp spec fn replaced_exif(
    kind: ContainerKind,
    parts: Seq<Part>,
    exif: Seq<u8>,
) -> Seq<Part>;

/// The parts of a WebP file, or of a JPEG file that lists further images, after
/// `set_icc_profile`.
pub uninterp spec fn replaced_icc(
    kind: ContainerKind,
    parts: Seq<Part>,
    icc: Seq<u8>,
) -> Seq<Part>;

/// The contents of the `iCCP` chunk that `set_icc_profile` makes of a profile.
pub uninterp spec fn png_icc_contents(icc: Seq<u8>) -> Seq<u8>;

/// The file that a container's parts make up.
pub uninterp spec fn container_file(kind: ContainerKind, parts: Seq<Part>) -> Seq<u8>;

/// Where the first part that meets a condition stands, or the number of parts where none does.
pub open spec fn first_where(parts: Seq<Part>, pred: spec_fn(Part) -> bool) -> int
    decreases parts.len(),
{
    if parts.len() == 0 || pred(parts[0]) {
        0
    } else {
        1 + first_where(parts.skip(1), pred)
    }
}

/// Where the frame of a JPEG file starts, or its scan where it has no frame, or the number of
/// segments where it has neither.
pub open spec fn frame_at(parts: Seq<Part>) -> int {
    first_where(
        parts,
        |p: Part|
            p.tag == seq![0xdau8] || p.tag.len() == 1 && 0xc0 <= p.tag[0] <= 0xcf && p.tag[0] != 0xc4
                && p.tag[0] != 0xc8 && p.tag[0] != 0xcc,
    )
}

/// Whether a JPEG file has no segment that lists further images.
pub open spec fn lists_no_images(parts: Seq<Part>) -> bool {
    forall|i: int|
        0 <= i < parts.len() ==> !is_jpeg_segment(#[trigger] parts[i], 0xe2, jpeg_index_prefix())
}

/// The segments of a JPEG file after its Exif was set: those with Exif are dropped, and the new
/// one takes the place of the first of them, or comes after the APP0 segments at the start,
/// but in front of the frame. One that is too large is left out.
pub open spec fn jpeg_with_exif(parts: Seq<Part>, exif: Seq<u8>) -> Seq<Part> {
    let kept = parts.filter(|p: Part| !is_jpeg_segment(p, 0xe1, jpeg_exif_prefix()));
    let had = first_where(parts, |p: Part| is_jpeg_segment(p, 0xe1, jpeg_exif_prefix()));
    let at = if had < parts.len() {
        had
    } else {
        first_where(kept, |p: Part| p.tag != seq![0xe0u8])
    };
    if exif.len() > JPEG_EXIF_MAX {
        kept
    } else {
        kept.insert(
            if at < frame_at(kept) {
                at
            } else {
                frame_at(kept)
            },
            exif_part(ContainerKind::Jpeg, exif),
        )
    }
}

/// The segments of a JPEG file after its ICC profile was set: those with a piece of one are
/// dropped, and the new ones come after the third segment, but in front of the frame. A
/// profile that is too large is left out.
pub open spec fn jpeg_with_icc(parts: Seq<Part>, icc: Seq<u8>) -> Seq<Part> {
    let kept = parts.filter(
        |p: Part| !(is_jpeg_segment(p, 0xe2, jpeg_icc_prefix()) && p.contents.len() >= 14),
    );
    let at = if frame_at(kept) < 3 {
        frame_at(kept)
    } else {
        3
    };
    if icc.len() > JPEG_ICC_MAX {
        kept
    } else {
        kept.take(at) + icc_parts(ContainerKind::Jpeg, icc) + kept.skip(at)
    }
}

/// The parts of a container after its Exif was set.
pub open spec fn with_exif(kind: ContainerKind, parts: Seq<Part>, exif: Seq<u8>) -> Seq<Part> {
    match kind {
        ContainerKind::Jpeg => if lists_no_images(parts) {
            jpeg_with_exif(parts, exif)
        } else {
            replaced_exif(kind, parts, exif)
        },
        ContainerKind::Png => with_second(
            without_tag(parts, png_exif_tag()),
            plain_part(png_exif_tag(), exif),
        ),
        _ => replaced_exif(kind, parts, exif),
    }
}

/// The parts of a container after its ICC profile was set.
pub open spec fn with_icc(kind: ContainerKind, parts: Seq<Part>, icc: Seq<u8>) -> Seq<Part> {
    match kind {
        ContainerKind::Jpeg => if lists_no_images(parts) {
            jpeg_with_icc(parts, icc)
        } else {
            replaced_icc(kind, parts, icc)
        },
        ContainerKind::Png => with_second(
            without_tag(without_tag(parts, png_icc_tag()), png_srgb_tag()),
            plain_part(png_icc_tag(), png_icc_contents(icc)),
        ),
        _ => replaced_icc(kind, parts, icc),
    }
}

/// Whether a container holds the given Exif block. One too large for a JPEG file is left
/// out of it.
pub open spec fn holds_exif(kind: ContainerKind, parts: Seq<Part>, exif: Seq<u8>) -> bool {
    match kind {
        ContainerKind::Jpeg => exif.len() <= JPEG_EXIF_MAX ==> parts.contains(
            plain_part(seq![0xe1u8], jpeg_exif_prefix() + exif),
        ),
        ContainerKind::Png => parts.contains(plain_part(png_exif_tag(), exif)),
        ContainerKind::WebP => parts.contains(plain_part(webp_exif_tag(), exif)),
    }
}

/// How many JPEG segments an ICC profile takes.
pub open spec fn icc_pieces(icc: Seq<u8>) -> int {
    if icc.len() == 0 {
        1
    } else {
        (icc.len() - 1) / (JPEG_ICC_PIECE as int) + 1
    }
}

/// The JPEG segment that holds a piece of an ICC profile, counted from zero.
pub open spec fn icc_segment(icc: Seq<u8>, piece: int) -> Part {
    let start = piece * JPEG_ICC_PIECE;
    let end = if start + JPEG_ICC_PIECE < icc.len() {
        start + JPEG_ICC_PIECE
    } else {
        icc.len() as int
    };
    plain_part(
        seq![0xe2u8],
        jpeg_icc_prefix() + seq![(piece + 1) as u8, icc_pieces(icc) as u8] + icc.subrange(
            start,
            end,
        ),
    )
}

/// Whether a container holds the given ICC profile. One too large for a JPEG file is left
/// out of it.
pub open spec fn holds_icc(kind: ContainerKind, parts: Seq<Part>, icc: Seq<u8>) -> bool {
    match kind {
        ContainerKind::Jpeg => icc.len() <= JPEG_ICC_MAX ==> forall|piece: int|
            0 <= piece < icc_pieces(icc) ==> parts.contains(#[trigger] icc_segment(icc, piece)),
        ContainerKind::Png => parts.contains(plain_part(png_icc_tag(), png_icc_contents(icc))),
        ContainerKind::WebP => parts.contains(plain_part(webp_icc_tag(), icc)),
    }
}

/// Whether setting Exif leaves a part as it is.
pub open spec fn outlives_exif(kind: ContainerKind, part: Part) -> bool {
    match kind {
        ContainerKind::Jpeg => !is_jpeg_segment(part, 0xe1, jpeg_exif_prefix())
            && !is_jpeg_segment(part, 0xe2, jpeg_index_prefix()),
        ContainerKind::Png => part.tag != png_exif_tag(),
        ContainerKind::WebP => part.tag != webp_exif_tag() && part.tag != webp_header_tag(),
    }
}

/// Whether setting an ICC profile leaves a part as it is.
pub open spec fn outlives_icc(kind: ContainerKind, part: Part) -> bool {
    match kind {
        ContainerKind::Jpeg => !is_jpeg_segment(part, 0xe2, jpeg_icc_prefix())
            && !is_jpeg_segment(part, 0xe2, jpeg_index_prefix()),
        ContainerKind::Png => part.tag != png_icc_tag() && part.tag != png_srgb_tag(),
        ContainerKind::WebP => part.tag != webp_icc_tag() && part.tag != webp_header_tag(),
    }
}

/// The part that holds an Exif block.
pub open spec fn exif_part(kind: ContainerKind, exif: Seq<u8>) -> Part {
    match kind {
        ContainerKind::Jpeg => plain_part(seq![0xe1u8], jpeg_exif_prefix() + exif),
        ContainerKind::Png => plain_part(png_exif_tag(), exif),
        ContainerKind::WebP => plain_part(webp_exif_tag(), exif),
    }
}

/// The parts that hold an ICC profile, in order.
pub open spec fn icc_parts(kind: ContainerKind, icc: Seq<u8>) -> Seq<Part> {
    match kind {
        ContainerKind::Jpeg => Seq::new(
            icc_pieces(icc) as nat,
            |piece: int| icc_segment(icc, piece),
        ),
        ContainerKind::Png => seq![plain_part(png_icc_tag(), png_icc_contents(icc))],
        ContainerKind::WebP => seq![plain_part(webp_icc_tag(), icc)],
    }
}

/// Those of the parts of a JPEG or WebP file that hold Exif. A JPEG segment with nothing but
/// its prefix holds none.
pub open spec fn exif_among(kind: ContainerKind, parts: Seq<Part>) -> Seq<Part> {
    parts.filter(
        |p: Part|
            if kind is Jpeg {
                is_jpeg_segment(p, 0xe1, jpeg_exif_prefix()) && p.contents.len() > 6
            } else {
                p.tag == webp_exif_tag()
            },
    )
}

/// Those of the parts of a JPEG or WebP file that hold pieces of an ICC profile. A JPEG segment
/// with nothing but its prefix and its count holds none.
pub open spec fn icc_among(kind: ContainerKind, parts: Seq<Part>) -> Seq<Part> {
    parts.filter(
        |p: Part|
            if kind is Jpeg {
                is_jpeg_segment(p, 0xe2, jpeg_icc_prefix()) && p.contents.len() > 14
            } else {
                p.tag == webp_icc_tag()
            },
    )
}

/// Those of the parts that neither block replaces, in order.
pub open spec fn other_parts(kind: ContainerKind, parts: Seq<Part>) -> Seq<Part> {
    parts.filter(|p: Part| outlives_exif(kind, p) && outlives_icc(kind, p))
}

/// Whether a decoder that accepts the file finds the Exif block in it.
pub open spec fn shows_exif(kind: ContainerKind, parts: Seq<Part>, exif: Seq<u8>) -> bool {
    match kind {
        ContainerKind::Jpeg => is_proper_jpeg(parts) && heads_are_whole(parts) && exif.len() > 0
            && exif_among(kind, parts) == seq![exif_part(kind, exif)],
        ContainerKind::Png => exif.len() <= PNG_CHUNK_READ_MAX && parts.len() > 1 && parts[0].tag
            == png_header_tag() && (parts[1] == exif_part(kind, exif) || (parts.len() > 2
            && parts[1].tag == png_icc_tag() && parts[2] == exif_part(kind, exif))),
        ContainerKind::WebP => opens_extended(parts) && exif_among(kind, parts) == seq![
            exif_part(kind, exif),
        ],
    }
}

/// Whether a decoder that accepts the file finds the ICC profile in it.
pub open spec fn shows_icc(kind: ContainerKind, parts: Seq<Part>, icc: Seq<u8>) -> bool {
    match kind {
        ContainerKind::Jpeg => is_proper_jpeg(parts) && heads_are_whole(parts) && 0 < icc.len()
            <= JPEG_ICC_READ_MAX && icc_among(kind, parts) == icc_parts(kind, icc),
        ContainerKind::Png => icc.len() <= PNG_ICC_READ_MAX && parts.len() > 1 && parts[0].tag
            == png_header_tag() && parts[1] == icc_parts(kind, icc)[0],
        ContainerKind::WebP => opens_extended(parts) && icc_among(kind, parts) == icc_parts(
            kind,
            icc,
        ),
    }
}

/// Whether an Exif block is one that files of a kind have room for and decoders read.
pub open spec fn is_readable_exif(kind: ContainerKind, exif: Seq<u8>) -> bool {
    match kind {
        ContainerKind::Jpeg => 0 < exif.len() <= JPEG_EXIF_MAX,
        ContainerKind::Png => exif.len() <= PNG_CHUNK_READ_MAX,
        ContainerKind::WebP => true,
    }
}

/// Whether an ICC profile is one that files of a kind have room for and decoders read.
pub open spec fn is_readable_icc(kind: ContainerKind, icc: Seq<u8>) -> bool {
    match kind {
        ContainerKind::Jpeg => 0 < icc.len() <= JPEG_ICC_READ_MAX,
        ContainerKind::Png => icc.len() <= PNG_ICC_READ_MAX,
        ContainerKind::WebP => true,
    }
}

#[verifier::external_type_specification]
#[verifier::external_body]
pub struct ExDynImage(img_parts::DynImage);

#[verifier::external_type_specification]
#[verifier::external_body]
pub struct ExPng(img_parts::png::Png);

#[verifier::external_type_specification]
#[verifier::external_body]
pub struct ExPngChunk(img_parts::png::PngChunk);

/// Calls `img_parts::DynImage::from_bytes` and gives nothing where it finds no container or
/// fails to read one. What it finds depends on the bytes alone: a container only in a file
/// that opens as one, of the kind that its first byte announces. The parts are pieces of the
/// file, so their sizes are those of its size fields. Those of a PNG file stop at the chunk
/// that ends it, and those of a JPEG file at the segment that starts a scan.
#[verifier::external_body]
pub(crate) fn parse_container(bytes: &Vec<u8>) -> (r: Option<img_parts::DynImage>)
    ensures
        match r {
            Some(image) => parsed_container(bytes@) == Some(
                (container_kind(image), container_parts(image)),
            ),
            None => parsed_container(bytes@) is None,
        },
        r is Some ==> looks_like_container(bytes@),
        r matches Some(image) ==> container_kind(image) == announced_kind(bytes@),
        r matches Some(image) ==> (container_kind(image) is Png ==> sizes_fit(
            ContainerKind::Png,
            container_parts(image),
        )),
        r matches Some(image) ==> (container_kind(image) is Png ==> ends_last(
            container_parts(image),
        )),
        r matches Some(image) ==> (container_kind(image) is Jpeg ==> is_proper_jpeg(
            container_parts(image),
        )),
        r matches Some(image) ==> is_sound(image),
        r matches Some(image) ==> (container_kind(image) is WebP ==> webp_size(
            container_parts(image),
        ) <= bytes@.len()),
{
    img_parts::DynImage::from_bytes(img_parts::Bytes::copy_from_slice(bytes)).ok().flatten()
}

/// Calls `set_exif` of `img_parts::ImageEXIF` with a block to store. In a PNG file it drops
/// every `eXIf` chunk and puts a new one right after the first chunk. In a JPEG file that lists
/// no further images it drops the Exif segments and puts a new one in the place of the first,
/// or else after the APP0 segments at the start, but in front of the frame. In a JPEG file
/// that does list further images what it does depends on the parts and the block alone, and so
/// it does in a WebP file that is put together as reading one gives it. In these it adds one
/// part with the block, unless the block is too large for a JPEG file, and otherwise drops
/// only parts with Exif and rewrites only the part that lists what the file holds. A JPEG
/// segment goes in front of the scan. A WebP file that tells its size opens with the chunk
/// that lists what it holds.
#[verifier::external_body]
pub(crate) fn set_exif(image: &mut img_parts::DynImage, exif: &Vec<u8>)
    ensures
        container_kind(*final(image)) == container_kind(*old(image)),
        container_kind(*old(image)) is Png ==> container_parts(*final(image)) == with_second(
            without_tag(container_parts(*old(image)), png_exif_tag()),
            plain_part(png_exif_tag(), exif@),
        ),
        container_kind(*old(image)) is Jpeg && lists_no_images(container_parts(*old(image)))
            ==> container_parts(*final(image)) == jpeg_with_exif(
            container_parts(*old(image)),
            exif@,
        ),
        container_kind(*old(image)) is Jpeg && !lists_no_images(container_parts(*old(image)))
            || container_kind(*old(image)) is WebP && is_sound(*old(image)) ==> container_parts(
            *final(image),
        ) == replaced_exif(
            container_kind(*old(image)),
            container_parts(*old(image)),
            exif@,
        ),
        is_sound(*old(image)) ==> is_sound(*final(image)),
        holds_exif(container_kind(*old(image)), container_parts(*final(image)), exif@),
        forall|p: Part| #[trigger]
            container_parts(*old(image)).contains(p) && outlives_exif(container_kind(*old(image)), p)
                ==> container_parts(*final(image)).contains(p),
        !(container_kind(*old(image)) is Png) ==> other_parts(
            container_kind(*old(image)),
            container_parts(*final(image)),
        ) == other_parts(container_kind(*old(image)), container_parts(*old(image))),
        container_kind(*old(image)) is Jpeg && 0 < exif@.len() <= JPEG_EXIF_MAX || container_kind(
            *old(image),
        ) is WebP ==> exif_among(container_kind(*old(image)), container_parts(*final(image)))
            == seq![exif_part(container_kind(*old(image)), exif@)],
        container_kind(*old(image)) is Jpeg && is_proper_jpeg(container_parts(*old(image)))
            ==> is_proper_jpeg(container_parts(*final(image))),
        container_kind(*old(image)) is WebP && is_sound(*old(image)) && opens_sized(
            container_parts(*old(image)),
        ) ==> opens_extended(container_parts(*final(image))),
        container_kind(*old(image)) is WebP ==> webp_size(container_parts(*final(image)))
            <= webp_size(container_parts(*old(image))) + exif@.len() + 28,
{
    let block = img_parts::Bytes::copy_from_slice(exif);
    img_parts::ImageEXIF::set_exif(image, Some(block))
}

/// Calls `set_icc_profile` of `img_parts::ImageICC` with a profile to store. In a PNG file it
/// drops every `iCCP` and `sRGB` chunk and puts a new `iCCP` chunk right after the first
/// chunk; the profile is compressed into it, which at worst takes twice the space. In a JPEG
/// file that lists no further images it drops the segments with pieces of a profile and puts
/// new ones after the third segment, but in front of the frame. In a JPEG file that does list
/// further images what it does depends on the parts and the profile alone, and so it does in a
/// WebP file that is put together as reading one gives it. In these it adds parts with the
/// profile, unless it is too large for a JPEG file, and otherwise drops only parts with a
/// profile and rewrites only the part that lists what the file holds. JPEG segments go in
/// front of the scan. A WebP file that tells its size opens with the chunk that lists what it
/// holds.
#[verifier::external_body]
pub(crate) fn set_icc_profile(image: &mut img_parts::DynImage, icc: &Vec<u8>)
    ensures
        container_kind(*final(image)) == container_kind(*old(image)),
        container_kind(*old(image)) is Png ==> container_parts(*final(image)) == with_second(
            without_tag(
                without_tag(container_parts(*old(image)), png_icc_tag()),
                png_srgb_tag(),
            ),
            plain_part(png_icc_tag(), png_icc_contents(icc@)),
        ),
        container_kind(*old(image)) is Png ==> (forall|i: int|
            0 <= i < container_parts(*final(image)).len() && (#[trigger] container_parts(
                *final(image),
            )[i]).tag == png_icc_tag() ==> container_parts(*final(image))[i].contents.len() <= 2
                * icc@.len() + 256),
        container_kind(*old(image)) is Jpeg && lists_no_images(container_parts(*old(image)))
            ==> container_parts(*final(image)) == jpeg_with_icc(
            container_parts(*old(image)),
            icc@,
        ),
        container_kind(*old(image)) is Jpeg && !lists_no_images(container_parts(*old(image)))
            || container_kind(*old(image)) is WebP && is_sound(*old(image)) ==> container_parts(
            *final(image),
        ) == replaced_icc(
            container_kind(*old(image)),
            container_parts(*old(image)),
            icc@,
        ),
        is_sound(*old(image)) ==> is_sound(*final(image)),
        holds_icc(container_kind(*old(image)), container_parts(*final(image)), icc@),
        forall|p: Part| #[trigger]
            container_parts(*old(image)).contains(p) && outlives_icc(container_kind(*old(image)), p)
                ==> container_parts(*final(image)).contains(p),
        !(container_kind(*old(image)) is Png) ==> other_parts(
            container_kind(*old(image)),
            container_parts(*final(image)),
        ) == other_parts(container_kind(*old(image)), container_parts(*old(image))),
        !(container_kind(*old(image)) is Png) ==> exif_among(
            container_kind(*old(image)),
            container_parts(*final(image)),
        ) == exif_among(container_kind(*old(image)), container_parts(*old(image))),
        container_kind(*old(image)) is Jpeg && 0 < icc@.len() <= JPEG_ICC_MAX || container_kind(
            *old(image),
        ) is WebP ==> icc_among(container_kind(*old(image)), container_parts(*final(image)))
            == icc_parts(container_kind(*old(image)), icc@),
        container_kind(*old(image)) is Jpeg && is_proper_jpeg(container_parts(*old(image)))
            ==> is_proper_jpeg(container_parts(*final(image))),
        container_kind(*old(image)) is WebP && is_sound(*old(image)) && opens_sized(
            container_parts(*old(image)),
        ) ==> opens_extended(container_parts(*final(image))),
        container_kind(*old(image)) is WebP ==> webp_size(container_parts(*final(image)))
            <= webp_size(container_parts(*old(image))) + icc@.len() + 28,
{
    let profile = img_parts::Bytes::copy_from_slice(icc);
    img_parts::ImageICC::set_icc_profile(image, Some(profile))
}

/// Takes the `img_parts::png::Png` out of an `img_parts::DynImage` that is one.
#[verifier::external_body]
pub(crate) fn into_png(image: img_parts::DynImage) -> (r: Result<
    img_parts::png::Png,
    img_parts::DynImage,
>)
    ensures
        match r {
            Ok(png) => container_kind(image) is Png && png_chunks(png) == container_parts(image),
            Err(other) => !(container_kind(image) is Png) && other == image,
        },
{
    match image {
        img_parts::DynImage::Png(png) => Ok(png),
        img_parts::DynImage::Jpeg(jpeg) => Err(img_parts::DynImage::Jpeg(jpeg)),
        img_parts::DynImage::WebP(webp) => Err(img_parts::DynImage::WebP(webp)),
    }
}

/// Puts an `img_parts::png::Png` back into an `img_parts::DynImage`.
#[verifier::external_body]
pub(crate) fn from_png(png: img_parts::png::Png) -> (r: img_parts::DynImage)
    ensures
        container_kind(r) is Png,
        container_parts(r) == png_chunks(png),
        is_sound(r),
{
    img_parts::DynImage::from(png)
}

/// Calls `img_parts::png::Png::chunks` for the number of chunks.
#[verifier::external_body]
fn png_chunk_count(png: &img_parts::png::Png) -> (r: usize)
    ensures
        r == png_chunks(*png).len(),
{
    png.chunks().len()
}

/// Calls `img_parts::png::PngChunk::kind` for the type of one chunk.
#[verifier::external_body]
fn png_chunk_kind(png: &img_parts::png::Png, i: usize) -> (r: [u8; 4])
    requires
        i < png_chunks(*png).len(),
    ensures
        r@ == png_chunks(*png)[i as int].tag,
{
    png.chunks()[i].kind()
}

/// Calls `img_parts::png::PngChunk::contents` for the size of one chunk.
#[verifier::external_body]
fn png_chunk_len(png: &img_parts::png::Png, i: usize) -> (r: usize)
    requires
        i < png_chunks(*png).len(),
    ensures
        r == png_chunks(*png)[i as int].contents.len(),
{
    png.chunks()[i].contents().len()
}

/// Takes one chunk out through `img_parts::png::Png::chunks_mut`.
#[verifier::external_body]
fn png_take_chunk(png: &mut img_parts::png::Png, at: usize) -> (r: img_parts::png::PngChunk)
    requires
        at < png_chunks(*old(png)).len(),
    ensures
        chunk_part(r) == png_chunks(*old(png))[at as int],
        png_chunks(*final(png)) == png_chunks(*old(png)).remove(at as int),
{
    png.chunks_mut().remove(at)
}

/// Puts one chunk in through `img_parts::png::Png::chunks_mut`.
#[verifier::external_body]
fn png_put_chunk(png: &mut img_parts::png::Png, at: usize, chunk: img_parts::png::PngChunk)
    requires
        at <= png_chunks(*old(png)).len(),
    ensures
        png_chunks(*final(png)) == png_chunks(*old(png)).insert(at as int, chunk_part(chunk)),
{
    png.chunks_mut().insert(at, chunk)
}

/// Calls `img_parts::DynImage::encoder` and collects its bytes. They depend on the kind of
/// container and its parts alone, and `img_parts::DynImage::from_bytes` reads the same parts
/// from them, unless there are none, a PNG file ends before its last chunk, or a JPEG segment
/// is not such as is read. Where a decoder of `image` accepts the file, it finds in it an Exif
/// block and an ICC profile that stand where it looks for them: in a JPEG file whose segments
/// it all meets, in the only ones of their kind in front of the scan; in a PNG file, right after the header; in a
/// WebP file, in the only chunks of their kind behind the one that lists what the file holds.
#[verifier::external_body]
pub(crate) fn write_container(image: img_parts::DynImage) -> (r: Vec<u8>)
    requires
        is_sound(image),
        sizes_fit(container_kind(image), container_parts(image)),
    ensures
        r@ == container_file(container_kind(image), container_parts(image)),
        reads_back(container_kind(image), container_parts(image)) ==> parsed_container(r@) == Some(
            (container_kind(image), container_parts(image)),
        ),
        forall|exif: Seq<u8>| #[trigger]
            shows_exif(container_kind(image), container_parts(image), exif) && decoder_refusal(
                decoded_as(container_kind(image)),
                r@,
            ) is None ==> stored_exif(decoded_as(container_kind(image)), r@) == Some(Some(exif)),
        forall|icc: Seq<u8>| #[trigger]
            shows_icc(container_kind(image), container_parts(image), icc) && decoder_refusal(
                decoded_as(container_kind(image)),
                r@,
            ) is None ==> stored_icc(decoded_as(container_kind(image)), r@) == Some(Some(icc)),
{
    image.encoder().bytes().to_vec()
}

/// Where the first part of a type stands, or the number of parts where there is none.
pub open spec fn first_with_tag(parts: Seq<Part>, tag: Seq<u8>) -> int
    decreases parts.len(),
{
    if parts.len() == 0 {
        0
    } else if parts[0].tag == tag {
        0
    } else {
        1 + first_with_tag(parts.skip(1), tag)
    }
}

/// The chunks of a PNG file with the first `eXIf` chunk in front of the first `IDAT` chunk,
/// all others in their order. Where either is missing, or they are in that order already,
/// the chunks as they are.
pub open spec fn exif_before_data(chunks: Seq<Part>) -> Seq<Part> {
    let exif_at = first_with_tag(chunks, png_exif_tag());
    let data_at = first_with_tag(chunks, png_data_tag());
    if exif_at < chunks.len() && data_at < exif_at {
        chunks.remove(exif_at).insert(data_at, chunks[exif_at])
    } else {
        chunks
    }
}

/// What the first part of a type is.
pub proof fn lemma_first_with_tag(parts: Seq<Part>, tag: Seq<u8>)
    ensures
        0 <= first_with_tag(parts, tag) <= parts.len(),
        forall|i: int| 0 <= i < first_with_tag(parts, tag) ==> (#[trigger] parts[i]).tag != tag,
        first_with_tag(parts, tag) < parts.len() ==> parts[first_with_tag(parts, tag)].tag == tag,
    decreases parts.len(),
{
    if parts.len() > 0 && parts[0].tag != tag {
        let rest = parts.skip(1);
        lemma_first_with_tag(rest, tag);
        assert forall|i: int| 0 <= i < first_with_tag(parts, tag) implies (#[trigger] parts[i]).tag
            != tag by {
            if i > 0 {
                assert(rest[i - 1] == parts[i]);
            }
        }
    }
}

/// A part of a type that no earlier part has is the first of it.
pub proof fn lemma_first_with_tag_is(parts: Seq<Part>, tag: Seq<u8>, i: int)
    requires
        0 <= i <= parts.len(),
        forall|j: int| 0 <= j < i ==> (#[trigger] parts[j]).tag != tag,
        i < parts.len() ==> parts[i].tag == tag,
    ensures
        first_with_tag(parts, tag) == i,
{
    lemma_first_with_tag(parts, tag);
    let first = first_with_tag(parts, tag);
    if first < i {
        assert(parts[first].tag != tag);
    } else if i < first {
        assert(parts[i].tag != tag);
    }
}

/// Where the first chunk of a type stands, or the number of chunks where there is none.
fn find_chunk(png: &img_parts::png::Png, kind: [u8; 4]) -> (r: usize)
    ensures
        r == first_with_tag(png_chunks(*png), kind@),
{
    let count: usize = png_chunk_count(png);
    let mut i: usize = 0;
    while i < count
        invariant
            i <= count == png_chunks(*png).len(),
            forall|j: int| 0 <= j < i ==> (#[trigger] png_chunks(*png)[j]).tag != kind@,
        decreases count - i,
    {
        let found: [u8; 4] = png_chunk_kind(png, i);
        if found[0] == kind[0] && found[1] == kind[1] && found[2] == kind[2] && found[3]
            == kind[3] {
            proof {
                assert(found@ =~= kind@);
                lemma_first_with_tag_is(png_chunks(*png), kind@, i as int);
            }
            return i;
        }
        i = i + 1;
    }
    proof {
        lemma_first_with_tag_is(png_chunks(*png), kind@, i as int);
    }
    i
}

/// How large the chunk is that an ICC profile is compressed into, tried on a PNG file, or
/// nothing where the file is not one.
pub(crate) fn png_icc_size(image: img_parts::DynImage, icc: &Vec<u8>) -> (r: Option<usize>)
    ensures
        match r {
            Some(size) => container_kind(image) is Png && size == png_icc_contents(icc@).len(),
            None => !(container_kind(image) is Png),
        },
{
    let mut image = image;
    set_icc_profile(&mut image, icc);
    match into_png(image) {
        Ok(png) => {
            let at: usize = if png_chunk_count(&png) > 1 {
                1
            } else {
                0
            };
            Some(png_chunk_len(&png, at))
        },
        Err(_) => None,
    }
}

/// Moves the `eXIf` chunk ahead of the first `IDAT`.
///
/// The PNG format allows `eXIf` on either side of the image data, but decoders commonly only
/// surface ancillary chunks they meet before `IDAT`, so metadata written after it reads back
/// as absent.
pub fn move_png_exif_before_idat(png: &mut img_parts::png::Png)
    ensures
        png_chunks(*final(png)) == exif_before_data(png_chunks(*old(png))),
{
    let exif_kind: [u8; 4] = [0x65, 0x58, 0x49, 0x66];
    let data_kind: [u8; 4] = [0x49, 0x44, 0x41, 0x54];
    proof {
        assert(exif_kind@ =~= png_exif_tag());
        assert(data_kind@ =~= png_data_tag());
    }
    let count: usize = png_chunk_count(png);
    let exif_at: usize = find_chunk(png, exif_kind);
    let data_at: usize = find_chunk(png, data_kind);
    if exif_at < count && data_at < exif_at {
        let chunk = png_take_chunk(png, exif_at);
        png_put_chunk(png, data_at, chunk);
    }
}

} // verus!
