//! What holds of every image that is read.

use vstd::prelude::*;

use crate::decode::{
    carried_exif, chosen_format, decoder_refusal, describes_image, exif_orientation,
    format_of_content, format_of_path, found, is_decoded, is_info_of, is_stored,
    orientation_or_upright, same_but_two, shown_size, stored_exif, stored_icc, stored_orientation,
    stored_picture, stored_size, upright, upright_exif,
};
use crate::model::ImageInfo;
use crate::path::{extension_of, file_name_of};
use crate::picture::{
    buffer_size, orientation_numbered, pixel_size, swaps_axes, turned_contents, Orientation,
    Picture,
};
use crate::text::{lowercase, uppercase};

verus! {

/// Whether a file is to be read as a format: its content shows the format, or shows none, and
/// then its extension names it. A path without an extension, or with an empty one, names none.
pub open spec fn reads_as(path: Seq<char>, bytes: Seq<u8>, format: Seq<char>) -> bool {
    ||| format_of_content(bytes) == Some(format)
    ||| format_of_content(bytes) is None && format_of_path(
        if extension_of(path) matches Some(ext) && ext.len() > 0 {
            path
        } else {
            ""@
        },
    ) == Ok::<Seq<char>, Seq<char>>(format)
}

/// Each Exif orientation number stands for one way to turn and flip a picture, and other
/// numbers stand for none.
pub proof fn law_orientation_numbers_are_those_of_exif(number: u8)
    ensures
        number == 1 <==> orientation_numbered(number) == Some(Orientation::NoTransforms),
        number == 2 <==> orientation_numbered(number) == Some(Orientation::FlipHorizontal),
        number == 3 <==> orientation_numbered(number) == Some(Orientation::Rotate180),
        number == 4 <==> orientation_numbered(number) == Some(Orientation::FlipVertical),
        number == 5 <==> orientation_numbered(number) == Some(Orientation::Rotate90FlipH),
        number == 6 <==> orientation_numbered(number) == Some(Orientation::Rotate90),
        number == 7 <==> orientation_numbered(number) == Some(Orientation::Rotate270FlipH),
        number == 8 <==> orientation_numbered(number) == Some(Orientation::Rotate270),
        orientation_numbered(number) matches Some(o) ==> (swaps_axes(o) <==> number >= 5),
{
}

/// A decoded picture is the stored one, turned and flipped as the Exif orientation number of
/// the file says, whatever its size: its sides are swapped for the numbers from 5 to 8, its
/// samples are rearranged for those from 2 to 8, and otherwise it is the stored one itself.
pub proof fn law_photos_come_out_upright(
    path: Seq<char>,
    bytes: Seq<u8>,
    p: Picture,
    exif: Option<Seq<u8>>,
    icc: Option<Seq<u8>>,
) -> (source: (Seq<char>, Picture))
    requires
        is_decoded(path, bytes, Ok((p, exif, icc))),
    ensures
        ({
            let (format, stored) = source;
            let number = stored_orientation(format, bytes);
            &&& reads_as(path, bytes, format)
            &&& decoder_refusal(format, bytes) is None
            &&& (stored.width, stored.height) == stored_size(format, bytes)
            &&& lowercase(format) != "exr"@ ==> exists|machine: nat|
                Ok::<Picture, Seq<char>>(stored) == #[trigger] stored_picture(
                    format,
                    bytes,
                    machine,
                )
            &&& number == Some(2u8) ==> p.contents == turned_contents(
                stored,
                Orientation::FlipHorizontal,
            )
            &&& number == Some(3u8) ==> p.contents == turned_contents(
                stored,
                Orientation::Rotate180,
            )
            &&& number == Some(4u8) ==> p.contents == turned_contents(
                stored,
                Orientation::FlipVertical,
            )
            &&& number == Some(5u8) ==> p.contents == turned_contents(
                stored,
                Orientation::Rotate90FlipH,
            )
            &&& number == Some(6u8) ==> p.contents == turned_contents(
                stored,
                Orientation::Rotate90,
            )
            &&& number == Some(7u8) ==> p.contents == turned_contents(
                stored,
                Orientation::Rotate270FlipH,
            )
            &&& number == Some(8u8) ==> p.contents == turned_contents(
                stored,
                Orientation::Rotate270,
            )
            &&& (number matches Some(n) && 5 <= n <= 8) ==> p.width == stored.height && p.height
                == stored.width
            &&& !(number matches Some(n) && 5 <= n <= 8) ==> p.width == stored.width && p.height
                == stored.height
            &&& !(number matches Some(n) && 2 <= n <= 8) ==> p == stored
            &&& p.colour == stored.colour
        }),
{
    let r = Ok::<(Picture, Option<Seq<u8>>, Option<Seq<u8>>), Seq<char>>((p, exif, icc));
    let format = chosen_format(path, bytes)->Ok_0;
    let stored = choose|stored: Result<Picture, Seq<char>>| #[trigger]
        is_stored(format, bytes, stored) && r == upright(format, bytes, stored);
    assert(stored == Ok::<Picture, Seq<char>>(stored->Ok_0));
    (format, stored->Ok_0)
}

/// The Exif block and the ICC profile of a file are handed on whole, whatever their size. Of
/// the Exif block two bytes next to each other may change, so that it asks for no further
/// turning. A file without a block, or whose block cannot be read, hands on none.
pub proof fn law_blocks_are_handed_on_whole(
    path: Seq<char>,
    bytes: Seq<u8>,
    p: Picture,
    exif: Option<Seq<u8>>,
    icc: Option<Seq<u8>>,
    format: Seq<char>,
) -> (at: int)
    requires
        is_decoded(path, bytes, Ok((p, exif, icc))),
        reads_as(path, bytes, format),
    ensures
        stored_icc(format, bytes) matches Some(Some(b)) ==> icc == Some(b),
        !(stored_icc(format, bytes) matches Some(Some(b))) ==> icc is None,
        stored_exif(format, bytes) matches Some(Some(b)) ==> {
            &&& exif == Some(upright_exif(b))
            &&& upright_exif(b).len() == b.len()
            &&& forall|i: int|
                0 <= i < b.len() && i != at && i != at + 1 ==> #[trigger] upright_exif(b)[i] == b[i]
            &&& exif_orientation(b) is None ==> upright_exif(b) == b
            &&& exif_orientation(b) is Some ==> exif_orientation(upright_exif(b)) == Some(1u8)
        },
        !(stored_exif(format, bytes) matches Some(Some(b))) ==> exif is None,
{
    if let Some(Some(b)) = stored_exif(format, bytes) {
        choose|at: int| #[trigger] same_but_two(b, upright_exif(b), at)
    } else {
        0
    }
}

/// A file is not decoded only where its path names no format that its content does not show
/// either, where the decoder of its format refuses it, or where decoding its picture fails,
/// and the message is that of the cause.
pub proof fn law_decoding_fails_for_a_reason(
    path: Seq<char>,
    bytes: Seq<u8>,
    message: Seq<char>,
) -> (format: Seq<char>)
    requires
        is_decoded(path, bytes, Err(message)),
    ensures
        ({
            ||| format_of_content(bytes) is None && format_of_path(
                if extension_of(path) matches Some(ext) && ext.len() > 0 {
                    path
                } else {
                    ""@
                },
            ) == Err::<Seq<char>, Seq<char>>(message)
            ||| reads_as(path, bytes, format) && decoder_refusal(format, bytes) == Some(message)
            ||| reads_as(path, bytes, format) && decoder_refusal(format, bytes) is None && (lowercase(
                format,
            ) != "exr"@ ==> exists|machine: nat|
                Err::<Picture, Seq<char>>(message) == #[trigger] stored_picture(
                    format,
                    bytes,
                    machine,
                ))
        }),
{
    let format = chosen_format(path, bytes)->Ok_0;
    let r = Err::<(Picture, Option<Seq<u8>>, Option<Seq<u8>>), Seq<char>>(message);
    if reads_as(path, bytes, format) && decoder_refusal(format, bytes) is None {
        let stored = choose|stored: Result<Picture, Seq<char>>| #[trigger]
            is_stored(format, bytes, stored) && r == upright(format, bytes, stored);
        assert(stored == Err::<Picture, Seq<char>>(message));
    }
    format
}

/// The buffer of a decoded picture ends with its last pixel before it is turned.
pub proof fn law_stored_pictures_fill_their_buffers(
    format: Seq<char>,
    bytes: Seq<u8>,
    stored: Picture,
)
    requires
        is_stored(format, bytes, Ok(stored)),
    ensures
        ({
            let pixels = stored.width * stored.height;
            &&& stored.colour is L8 ==> buffer_size(stored) == pixels
            &&& stored.colour is La8 || stored.colour is L16 ==> buffer_size(stored) == pixels * 2
            &&& stored.colour is Rgb8 ==> buffer_size(stored) == pixels * 3
            &&& stored.colour is Rgba8 || stored.colour is La16 ==> buffer_size(stored) == pixels
                * 4
            &&& stored.colour is Rgb16 ==> buffer_size(stored) == pixels * 6
            &&& stored.colour is Rgba16 ==> buffer_size(stored) == pixels * 8
            &&& stored.colour is Rgb32F ==> buffer_size(stored) == pixels * 12
            &&& stored.colour is Rgba32F ==> buffer_size(stored) == pixels * 16
        }),
{
    let size = pixel_size(stored.colour) as int;
    assert forall|k: int| k == size implies stored.width * stored.height * size
        == #[trigger] (stored.width * stored.height * k) by {}
}

/// The size that the file list shows is the one that the image is decoded with, which is the
/// stored one, with its sides swapped for the Exif orientation numbers from 5 to 8.
pub proof fn law_shown_sizes_are_those_of_the_output(
    path: Seq<char>,
    bytes: Seq<u8>,
    format: Seq<char>,
)
    requires
        reads_as(path, bytes, format),
    ensures
        decoder_refusal(format, bytes) matches Some(message) ==> shown_size(path, bytes) == Err::<
            (u32, u32),
            Seq<char>,
        >(message),
        decoder_refusal(format, bytes) is None ==> ({
            let (width, height) = stored_size(format, bytes);
            shown_size(path, bytes) == Ok::<(u32, u32), Seq<char>>(
                if stored_orientation(format, bytes) matches Some(n) && 5 <= n <= 8 {
                    (height, width)
                } else {
                    (width, height)
                },
            )
        }),
        forall|p: Picture, exif: Option<Seq<u8>>, icc: Option<Seq<u8>>| #[trigger]
            is_decoded(path, bytes, Ok((p, exif, icc))) ==> shown_size(path, bytes) == Ok::<
                (u32, u32),
                Seq<char>,
            >((p.width, p.height)),
{
    assert forall|p: Picture, exif: Option<Seq<u8>>, icc: Option<Seq<u8>>| #[trigger]
        is_decoded(path, bytes, Ok((p, exif, icc))) implies shown_size(path, bytes) == Ok::<
        (u32, u32),
        Seq<char>,
    >((p.width, p.height)) by {
        let (found, stored) = law_photos_come_out_upright(path, bytes, p, exif, icc);
    }
}

/// A file whose content shows no format and whose path names none has no size to show, and the
/// message is that for the path.
pub proof fn law_files_of_no_format_have_no_size(
    path: Seq<char>,
    bytes: Seq<u8>,
    message: Seq<char>,
)
    requires
        format_of_content(bytes) is None,
        format_of_path(
            if extension_of(path) matches Some(ext) && ext.len() > 0 {
                path
            } else {
                ""@
            },
        ) == Err::<Seq<char>, Seq<char>>(message),
    ensures
        shown_size(path, bytes) == Err::<(u32, u32), Seq<char>>(message),
{
}

/// The file list shows an image with its path, its file name, its extension in capitals, its
/// size on screen and its size on disk.
pub proof fn law_descriptions_tell_of_their_image(
    info: ImageInfo,
    path: Seq<char>,
    shown: (u32, u32),
    size_bytes: u64,
)
    requires
        describes_image(info, path, shown, size_bytes),
    ensures
        info.path@ == path,
        info.width == shown.0,
        info.height == shown.1,
        info.size_bytes == size_bytes,
        file_name_of(path) matches Some(name) ==> info.name@ == name,
        file_name_of(path) is None ==> info.name@ == "unknown"@,
        extension_of(path) matches Some(ext) ==> info.format@ == uppercase(ext),
        extension_of(path) is None ==> info.format@ == uppercase("unknown"@),
{
}

/// A block that was read is found whatever its length, and carried on with its orientation
/// reset, and nothing is found where there was none or reading failed.
pub proof fn law_blocks_that_were_read_are_found(b: Seq<u8>)
    ensures
        found(Some(Some(b))) == Some(b),
        found(Some(None)) is None,
        found(None) is None,
        carried_exif(Some(Some(b))) == Some(upright_exif(b)),
        carried_exif(Some(None)) is None,
        carried_exif(None) is None,
{
}

/// The orientation that a file is turned by is the one that its number stands for, and none
/// where it has no number or none that stands for any.
pub proof fn law_numbers_decide_on_the_turn(number: u8)
    ensures
        orientation_numbered(number) matches Some(o) ==> orientation_or_upright(Some(number)) == o,
        orientation_numbered(number) is None ==> orientation_or_upright(Some(number))
            == Orientation::NoTransforms,
        orientation_or_upright(None) == Orientation::NoTransforms,
        orientation_numbered(number) is Some <==> 1 <= number <= 8,
{
}

/// An image is listed with the size that it is shown with wherever its file can be opened, its
/// header read and its size on disk looked up, and otherwise the message tells which of these
/// failed, the first of them in this order.
pub proof fn law_images_are_listed_or_the_reason_told(
    path: Seq<char>,
    file: Result<Seq<u8>, Seq<char>>,
    size_bytes: Result<u64, Seq<char>>,
    r: Result<ImageInfo, Seq<char>>,
    format: Seq<char>,
)
    requires
        is_info_of(path, file, size_bytes, r),
    ensures
        file matches Err(message) ==> r == Err::<ImageInfo, Seq<char>>(
            "Failed to open image: "@ + message,
        ),
        file matches Ok(bytes) ==> (reads_as(path, bytes, format) ==> match decoder_refusal(
            format,
            bytes,
        ) {
            Some(message) => r == Err::<ImageInfo, Seq<char>>("Failed to read image: "@ + message),
            None => match size_bytes {
                Err(message) => r == Err::<ImageInfo, Seq<char>>(
                    "Failed to read metadata: "@ + message,
                ),
                Ok(size) => {
                    let stored = stored_size(format, bytes);
                    let swapped = stored_orientation(format, bytes) matches Some(n) && 5 <= n <= 8;
                    r matches Ok(info) && {
                        &&& info.path@ == path
                        &&& info.size_bytes == size
                        &&& swapped ==> info.width == stored.1 && info.height == stored.0
                        &&& !swapped ==> info.width == stored.0 && info.height == stored.1
                        &&& file_name_of(path) matches Some(name) ==> info.name@ == name
                        &&& extension_of(path) matches Some(ext) ==> info.format@ == uppercase(ext)
                    }
                },
            },
        }),
        file matches Ok(bytes) ==> (format_of_content(bytes) is None ==> (format_of_path(
            if extension_of(path) matches Some(ext) && ext.len() > 0 {
                path
            } else {
                ""@
            },
        ) matches Err(message) ==> r == Err::<ImageInfo, Seq<char>>(
            "Failed to read image: "@ + message,
        ))),
{
}

} // verus!
