//! Carrying Exif and ICC blocks from a source image into its converted file.

use vstd::prelude::*;

use crate::container::{
    announced_kind, container_file, container_kind, container_parts, decoded_as, ends_last,
    exif_before_data, exif_part, first_with_tag, from_png, heads_are_whole, holds_exif, holds_icc,
    icc_parts, icc_pieces, icc_segment, into_png, is_proper_jpeg, is_proper_png, is_readable_exif,
    is_readable_icc, is_ready, is_sound, jpeg_exif_prefix, lemma_first_with_tag,
    lemma_first_with_tag_is, looks_like_container, move_png_exif_before_idat, other_parts,
    outlives_exif, outlives_icc, parse_container, parsed_container, plain_part, png_data_tag,
    png_end_tag, png_exif_tag, png_header_tag, png_icc_contents, png_icc_size, png_icc_tag,
    png_srgb_tag, reads_back, set_exif, set_icc_profile, shows_exif, shows_icc, sizes_fit,
    webp_exif_tag, webp_header_tag, webp_icc_tag, webp_size, with_exif, with_icc, with_second,
    without_tag, write_container, ContainerKind, Part,
};
use crate::decode::{decoder_refusal, stored_exif, stored_icc};

verus! {

/// Raw metadata blocks lifted off the source image, to be re-attached to the output.
///
/// Both are opaque: `exif` is a TIFF-structured Exif block (starting with the `II*\0`/`MM\0*`
/// byte-order marker, no `Exif\0\0` prefix) and `icc` is an ICC profile.
#[derive(Debug, Default, Clone)]
pub struct SourceMetadata {
    pub exif: Option<Vec<u8>>,
    pub icc: Option<Vec<u8>>,
}

/// The bytes of an optional block.
pub open spec fn block(b: Option<Vec<u8>>) -> Option<Seq<u8>> {
    match b {
        Some(bytes) => Some(bytes@),
        None => None,
    }
}

/// The size of an optional block.
pub open spec fn block_len(b: Option<Seq<u8>>) -> nat {
    match b {
        Some(bytes) => bytes.len(),
        None => 0,
    }
}

/// The parts of a container once the blocks were put into it.
pub open spec fn attached_parts(
    kind: ContainerKind,
    parts: Seq<Part>,
    exif: Option<Seq<u8>>,
    icc: Option<Seq<u8>>,
) -> Seq<Part> {
    let first = match exif {
        Some(bytes) => with_exif(kind, parts, bytes),
        None => parts,
    };
    let second = match icc {
        Some(bytes) => with_icc(kind, first, bytes),
        None => first,
    };
    if kind is Png {
        exif_before_data(second)
    } else {
        second
    }
}

/// The file once the blocks were put into it: the file as it was where there is no block, or
/// no container that could hold one.
pub open spec fn attached(encoded: Seq<u8>, exif: Option<Seq<u8>>, icc: Option<Seq<u8>>) -> Seq<
    u8,
> {
    if exif is None && icc is None {
        encoded
    } else {
        match parsed_container(encoded) {
            Some((kind, parts)) => container_file(kind, attached_parts(kind, parts, exif, icc)),
            None => encoded,
        }
    }
}

/// Whether the parts `done` hold the blocks and every one of `parts` that the blocks do not
/// replace.
pub open spec fn holds_blocks(
    kind: ContainerKind,
    parts: Seq<Part>,
    done: Seq<Part>,
    exif: Option<Seq<u8>>,
    icc: Option<Seq<u8>>,
) -> bool {
    &&& exif matches Some(bytes) ==> holds_exif(kind, done, bytes)
    &&& icc matches Some(bytes) ==> holds_icc(kind, done, bytes)
    &&& forall|p: Part| #[trigger]
        parts.contains(p) && outlives_exif(kind, p) && outlives_icc(kind, p) ==> done.contains(p)
}

/// Whether the blocks stand where decoders look for them, as far as files of the kind have
/// room for them and decoders read them.
pub open spec fn shows_blocks(
    kind: ContainerKind,
    done: Seq<Part>,
    exif: Option<Seq<u8>>,
    icc: Option<Seq<u8>>,
) -> bool {
    &&& exif matches Some(bytes) ==> (is_readable_exif(kind, bytes) ==> shows_exif(
        kind,
        done,
        bytes,
    ))
    &&& icc matches Some(bytes) ==> (is_readable_icc(kind, bytes) ==> shows_icc(kind, done, bytes))
}

/// Whether a decoder that accepts the file finds the blocks in it, as far as such files have
/// room for them and decoders read them.
pub open spec fn shown_to_decoders(
    kind: ContainerKind,
    file: Seq<u8>,
    exif: Option<Seq<u8>>,
    icc: Option<Seq<u8>>,
) -> bool {
    decoder_refusal(decoded_as(kind), file) is None ==> {
        &&& exif matches Some(bytes) ==> (is_readable_exif(kind, bytes) ==> stored_exif(
            decoded_as(kind),
            file,
        ) == Some(Some(bytes)))
        &&& icc matches Some(bytes) ==> (is_readable_icc(kind, bytes) ==> stored_icc(
            decoded_as(kind),
            file,
        ) == Some(Some(bytes)))
    }
}

/// Whether the container in a file holds the blocks once they were put into it, still holds
/// every part that they do not replace, in order, can be read back, and shows the blocks to
/// decoders.
pub open spec fn carried_over(
    encoded: Seq<u8>,
    exif: Option<Seq<u8>>,
    icc: Option<Seq<u8>>,
) -> bool {
    !(exif is None && icc is None) ==> (parsed_container(encoded) matches Some((kind, parts)) ==> {
        let done = attached_parts(kind, parts, exif, icc);
        &&& holds_blocks(kind, parts, done, exif, icc)
        &&& reads_back(kind, done) ==> parsed_container(attached(encoded, exif, icc)) == Some(
            (kind, done),
        )
        &&& other_parts(kind, done) == other_parts(kind, parts)
        &&& kind is Png && is_proper_png(parts) ==> reads_back(kind, done)
        &&& kind is Jpeg && done.len() > 0 ==> reads_back(kind, done)
        &&& is_ready(kind, parts) ==> shown_to_decoders(
            kind,
            attached(encoded, exif, icc),
            exif,
            icc,
        )
    })
}

/// Whether an ICC profile fits into a PNG chunk. Compressing it takes at worst twice the
/// space, so that only of a very large one the outcome counts.
pub open spec fn icc_fits_png(icc: Seq<u8>) -> bool {
    2 * icc.len() + 256 <= u32::MAX || png_icc_contents(icc).len() <= u32::MAX
}

/// Whether blocks can be put into a container within its 32-bit size fields.
pub open spec fn blocks_fit(
    kind: ContainerKind,
    encoded: Seq<u8>,
    exif: Option<Seq<u8>>,
    icc: Option<Seq<u8>>,
) -> bool {
    match kind {
        ContainerKind::Jpeg => true,
        ContainerKind::Png => (exif matches Some(bytes) ==> bytes.len() <= u32::MAX) && (
        icc matches Some(bytes) ==> icc_fits_png(bytes)),
        ContainerKind::WebP => encoded.len() + block_len(exif) + block_len(icc) + 56 <= u32::MAX,
    }
}

/// Whether the blocks, if there are any, can be put into the container in a file, if there is
/// one, within its 32-bit size fields.
pub open spec fn metadata_fits(
    encoded: Seq<u8>,
    exif: Option<Seq<u8>>,
    icc: Option<Seq<u8>>,
) -> bool {
    ||| exif is None && icc is None
    ||| parsed_container(encoded) is None
    ||| blocks_fit(announced_kind(encoded), encoded, exif, icc)
}

impl SourceMetadata {
    /// Whether there is no block.
    pub fn is_empty(&self) -> (r: bool)
        ensures
            r == (self.exif is None && self.icc is None),
    {
        self.exif.is_none() && self.icc.is_none()
    }
}

/// Whether the blocks, if there are any, can be put into the container in a file, if there is
/// one, within its 32-bit size fields.
pub fn can_attach(encoded: &Vec<u8>, meta: &SourceMetadata) -> (r: bool)
    ensures
        r == metadata_fits(encoded@, block(meta.exif), block(meta.icc)),
{
    if meta.is_empty() {
        return true;
    }
    let exif_len: u128 = match &meta.exif {
        Some(bytes) => bytes.len() as u128,
        None => 0,
    };
    let icc_len: u128 = match &meta.icc {
        Some(bytes) => bytes.len() as u128,
        None => 0,
    };
    let limit: u128 = 0xffff_ffff;
    let is_png = encoded.len() > 0 && encoded[0] == 0x89;
    let is_webp = encoded.len() > 0 && encoded[0] == 0x52;
    if !is_png && !is_webp || is_png && exif_len <= limit && 2 * icc_len + 256 <= limit || is_webp
        && encoded.len() as u128 + exif_len + icc_len + 56 <= limit {
        return true;
    }
    match parse_container(encoded) {
        None => true,
        Some(image) => match &meta.icc {
            Some(icc) => is_png && exif_len <= limit && match png_icc_size(image, icc) {
                Some(size) => size as u128 <= limit,
                None => false,
            },
            None => false,
        },
    }
}

/// Puts the blocks into a container, and the Exif of a PNG file in front of its image data.
/// What becomes of the parts of a WebP file is told only of one that is put together as reading
/// a file does.
pub fn insert_metadata(image: img_parts::DynImage, meta: &SourceMetadata) -> (r:
    img_parts::DynImage)
    ensures
        container_kind(r) == container_kind(image),
        is_sound(image) || !(container_kind(image) is WebP) ==> container_parts(r)
            == attached_parts(
            container_kind(image),
            container_parts(image),
            block(meta.exif),
            block(meta.icc),
        ),
        is_sound(image) ==> is_sound(r),
        other_parts(container_kind(image), container_parts(r)) == other_parts(
            container_kind(image),
            container_parts(image),
        ),
        (is_sound(image) || !(container_kind(image) is WebP)) && is_ready(
            container_kind(image),
            container_parts(image),
        ) && (container_kind(image) is Jpeg ==> is_proper_jpeg(container_parts(image)))
            ==> shows_blocks(
            container_kind(image),
            container_parts(r),
            block(meta.exif),
            block(meta.icc),
        ),
        container_kind(image) is Jpeg && is_proper_jpeg(container_parts(image)) ==> is_proper_jpeg(
            container_parts(r),
        ),
        holds_blocks(
            container_kind(image),
            container_parts(image),
            container_parts(r),
            block(meta.exif),
            block(meta.icc),
        ),
        container_kind(image) is Png && sizes_fit(ContainerKind::Png, container_parts(image))
            && block_len(block(meta.exif)) <= u32::MAX && (block(meta.icc) matches Some(bytes)
            ==> icc_fits_png(bytes)) ==> sizes_fit(ContainerKind::Png, container_parts(r)),
        container_kind(image) is Png && is_proper_png(container_parts(image)) ==> reads_back(
            ContainerKind::Png,
            container_parts(r),
        ),
        container_kind(image) is WebP ==> webp_size(container_parts(r)) <= webp_size(
            container_parts(image),
        ) + block_len(block(meta.exif)) + block_len(block(meta.icc)) + 56,
{
    let mut image = image;
    let ghost kind = container_kind(image);
    let ghost parts = container_parts(image);
    if let Some(exif) = &meta.exif {
        set_exif(&mut image, exif);
        proof {
            if kind is Png {
                if sizes_fit(kind, parts) && exif@.len() <= u32::MAX {
                    lemma_sizes_after_exif(parts, exif@);
                }
                lemma_png_tags();
                lemma_replacing_keeps_proper(
                    parts,
                    png_exif_tag(),
                    plain_part(png_exif_tag(), exif@),
                );
            }
        }
    }
    let ghost first = container_parts(image);
    if let Some(icc) = &meta.icc {
        set_icc_profile(&mut image, icc);
        proof {
            if let Some(exif) = &meta.exif {
                lemma_exif_outlives_icc(kind, first, container_parts(image), exif@);
            }
            if kind is Png {
                if sizes_fit(kind, first) && icc_fits_png(icc@) {
                    let done = container_parts(image);
                    let at: int = if done.len() > 1 {
                        1
                    } else {
                        0
                    };
                    assert(done[at] == plain_part(png_icc_tag(), png_icc_contents(icc@)));
                    lemma_sizes_after_icc(first, icc@);
                }
                lemma_png_tags();
                lemma_dropping_keeps_proper(first, png_icc_tag());
                lemma_replacing_keeps_proper(
                    without_tag(first, png_icc_tag()),
                    png_srgb_tag(),
                    plain_part(png_icc_tag(), png_icc_contents(icc@)),
                );
            }
        }
    }
    let ghost second = container_parts(image);
    proof {
        if kind is Png {
            if let Some(exif) = block(meta.exif) {
                lemma_png_others(parts, exif, Seq::empty());
            }
            if let Some(icc) = block(meta.icc) {
                lemma_png_others(first, Seq::empty(), icc);
            }
        }
        if kind is Jpeg && heads_are_whole(parts) {
            lemma_heads_stay_whole(parts, second);
        }
    }
    match into_png(image) {
        Ok(mut png) => {
            move_png_exif_before_idat(&mut png);
            proof {
                lemma_move_keeps_parts(second);
                lemma_move_keeps_others(second);
                if is_proper_png(parts) {
                    lemma_png_shows_blocks(parts, block(meta.exif), block(meta.icc));
                }
            }
            from_png(png)
        },
        Err(other) => other,
    }
}

/// Re-attaches `meta` to already-encoded image bytes.
///
/// Only the JPEG, PNG and WebP containers can carry Exif/ICC here; anything else is returned
/// unchanged. Callers that need to know whether metadata survived should consult
/// [`crate::format::format_carries_metadata`].
pub fn attach_metadata(encoded: Vec<u8>, meta: &SourceMetadata) -> (r: Vec<u8>)
    requires
        metadata_fits(encoded@, block(meta.exif), block(meta.icc)),
    ensures
        r@ == attached(encoded@, block(meta.exif), block(meta.icc)),
        !looks_like_container(encoded@) ==> r@ == encoded@,
        carried_over(encoded@, block(meta.exif), block(meta.icc)),
{
    if meta.is_empty() {
        return encoded;
    }
    match parse_container(&encoded) {
        Some(image) => write_container(insert_metadata(image, meta)),
        None => encoded,
    }
}

/// The APP0 segments of a JPEG file are as whole as they were once blocks were put in.
proof fn lemma_heads_stay_whole(parts: Seq<Part>, done: Seq<Part>)
    requires
        heads_are_whole(parts),
        other_parts(ContainerKind::Jpeg, done) == other_parts(ContainerKind::Jpeg, parts),
    ensures
        heads_are_whole(done),
{
    let other = is_other(ContainerKind::Jpeg);
    assert forall|i: int| 0 <= i < done.len() implies !((#[trigger] done[i]).tag == seq![0xe0u8]
        && done[i].contents.len() == 4) by {
        if done[i].tag == seq![0xe0u8] {
            assert(seq![0xe0u8][0] != seq![0xe1u8][0] && seq![0xe0u8][0] != seq![0xe2u8][0]);
            assert(other(done[i]));
            done.lemma_filter_contains(other, i);
            parts.lemma_filter_contains_rev(other, done[i]);
            let k = choose|k: int| 0 <= k < parts.len() && parts[k] == done[i];
            assert(!(parts[k].tag == seq![0xe0u8] && parts[k].contents.len() == 4));
        }
    }
}

/// Whether a part is one that neither block replaces.
spec fn is_other(kind: ContainerKind) -> spec_fn(Part) -> bool {
    |p: Part| outlives_exif(kind, p) && outlives_icc(kind, p)
}

/// Filtering by a condition that implies another makes filtering by that one first needless.
proof fn lemma_filter_twice(
    parts: Seq<Part>,
    wide: spec_fn(Part) -> bool,
    narrow: spec_fn(Part) -> bool,
)
    requires
        forall|p: Part| #[trigger] narrow(p) ==> wide(p),
    ensures
        parts.filter(wide).filter(narrow) == parts.filter(narrow),
    decreases parts.len(),
{
    reveal(Seq::filter);
    if parts.len() > 0 {
        let rest = parts.drop_last();
        lemma_filter_twice(rest, wide, narrow);
        if wide(parts.last()) {
            assert(parts.filter(wide).drop_last() =~= rest.filter(wide));
        }
    }
}

/// A part that does not meet a condition makes no difference to those that do.
proof fn lemma_filter_insert(parts: Seq<Part>, at: int, part: Part, pred: spec_fn(Part) -> bool)
    requires
        0 <= at <= parts.len(),
        !pred(part),
    ensures
        parts.insert(at, part).filter(pred) == parts.filter(pred),
{
    let front = parts.take(at);
    let back = parts.skip(at);
    assert(parts =~= front + back);
    assert(parts.insert(at, part) =~= (front + seq![part]) + back);
    Seq::filter_distributes_over_add(front, back, pred);
    Seq::filter_distributes_over_add(front, seq![part], pred);
    Seq::filter_distributes_over_add(front + seq![part], back, pred);
    assert(seq![part].filter(pred) =~= Seq::empty()) by {
        reveal_with_fuel(Seq::filter, 2);
        assert(seq![part].drop_last() =~= Seq::empty());
    }
    assert(front.filter(pred) + Seq::empty() =~= front.filter(pred));
}

/// Two parts at the front that meet a condition stay there when the others are dropped.
proof fn lemma_filter_keeps_two(parts: Seq<Part>, pred: spec_fn(Part) -> bool)
    requires
        parts.len() >= 2,
        pred(parts[0]),
        pred(parts[1]),
    ensures
        parts.filter(pred).len() >= 2,
        parts.filter(pred)[0] == parts[0],
        parts.filter(pred)[1] == parts[1],
{
    let front = parts.take(2);
    let back = parts.skip(2);
    assert(parts =~= front + back);
    Seq::filter_distributes_over_add(front, back, pred);
    assert(front.filter(pred) =~= front) by {
        reveal_with_fuel(Seq::filter, 3);
        assert(front.drop_last() =~= seq![parts[0]]);
        assert(front.drop_last().drop_last() =~= Seq::empty());
    }
}

/// Putting blocks into a PNG file leaves its other chunks as they are.
proof fn lemma_png_others(chunks: Seq<Part>, exif: Seq<u8>, icc: Seq<u8>)
    ensures
        other_parts(ContainerKind::Png, with_exif(ContainerKind::Png, chunks, exif)) == other_parts(
            ContainerKind::Png,
            chunks,
        ),
        other_parts(ContainerKind::Png, with_icc(ContainerKind::Png, chunks, icc)) == other_parts(
            ContainerKind::Png,
            chunks,
        ),
{
    let other = is_other(ContainerKind::Png);
    let no_exif = |p: Part| p.tag != png_exif_tag();
    let no_icc = |p: Part| p.tag != png_icc_tag();
    let no_srgb = |p: Part| p.tag != png_srgb_tag();
    lemma_filter_twice(chunks, no_exif, other);
    lemma_filter_twice(chunks, no_icc, other);
    let rest = without_tag(chunks, png_icc_tag());
    lemma_filter_twice(rest, no_srgb, other);
    let kept_exif = without_tag(chunks, png_exif_tag());
    let kept_icc = without_tag(rest, png_srgb_tag());
    lemma_filter_insert(
        kept_exif,
        if kept_exif.len() == 0 {
            0
        } else {
            1
        },
        plain_part(png_exif_tag(), exif),
        other,
    );
    lemma_filter_insert(
        kept_icc,
        if kept_icc.len() == 0 {
            0
        } else {
            1
        },
        plain_part(png_icc_tag(), png_icc_contents(icc)),
        other,
    );
}

/// Moving the Exif chunk of a PNG file leaves its other chunks as they are, and those in front
/// of the image data in their places.
proof fn lemma_move_keeps_others(chunks: Seq<Part>)
    ensures
        other_parts(ContainerKind::Png, exif_before_data(chunks)) == other_parts(
            ContainerKind::Png,
            chunks,
        ),
        exif_before_data(chunks).len() == chunks.len(),
        forall|k: int|
            0 <= k < first_with_tag(chunks, png_data_tag()) ==> #[trigger] exif_before_data(
                chunks,
            )[k] == chunks[k],
{
    let exif_at = first_with_tag(chunks, png_exif_tag());
    let data_at = first_with_tag(chunks, png_data_tag());
    lemma_first_with_tag(chunks, png_exif_tag());
    lemma_first_with_tag(chunks, png_data_tag());
    if exif_at < chunks.len() && data_at < exif_at {
        let other = is_other(ContainerKind::Png);
        let rest = chunks.remove(exif_at);
        assert(chunks =~= rest.insert(exif_at, chunks[exif_at]));
        lemma_filter_insert(rest, exif_at, chunks[exif_at], other);
        lemma_filter_insert(rest, data_at, chunks[exif_at], other);
    }
}

/// Image data comes after as many chunks of a PNG file as have another type.
proof fn lemma_data_comes_after(chunks: Seq<Part>, n: int)
    requires
        0 <= n <= chunks.len(),
        forall|i: int| 0 <= i < n ==> (#[trigger] chunks[i]).tag != png_data_tag(),
    ensures
        first_with_tag(chunks, png_data_tag()) >= n,
{
    lemma_first_with_tag(chunks, png_data_tag());
}

/// In a proper PNG file the blocks that were put in stand right after the header.
proof fn lemma_png_shows_blocks(
    parts: Seq<Part>,
    exif: Option<Seq<u8>>,
    icc: Option<Seq<u8>>,
)
    requires
        is_proper_png(parts),
    ensures
        shows_blocks(
            ContainerKind::Png,
            attached_parts(ContainerKind::Png, parts, exif, icc),
            exif,
            icc,
        ),
{
    let kind = ContainerKind::Png;
    lemma_png_tags();
    assert(png_header_tag()[1] != png_data_tag()[1]);
    assert(png_exif_tag()[0] != png_data_tag()[0]);
    assert(png_icc_tag()[0] != png_data_tag()[0]);
    assert(png_exif_tag()[0] != png_icc_tag()[0] && png_exif_tag()[0] != png_srgb_tag()[0]);
    let first = match exif {
        Some(bytes) => with_exif(kind, parts, bytes),
        None => parts,
    };
    if let Some(bytes) = exif {
        lemma_replacing_keeps_proper(parts, png_exif_tag(), plain_part(png_exif_tag(), bytes));
        lemma_dropping_keeps_proper(parts, png_exif_tag());
        assert(first[1] == exif_part(kind, bytes));
    }
    assert(is_proper_png(first));
    let second = match icc {
        Some(bytes) => with_icc(kind, first, bytes),
        None => first,
    };
    if let Some(bytes) = icc {
        let rest = without_tag(first, png_icc_tag());
        let kept = without_tag(rest, png_srgb_tag());
        lemma_dropping_keeps_proper(first, png_icc_tag());
        lemma_dropping_keeps_proper(rest, png_srgb_tag());
        assert(second[0] == kept[0]);
        assert(second[1] == icc_parts(kind, bytes)[0]);
        if exif is Some {
            lemma_filter_keeps_two(first, |p: Part| p.tag != png_icc_tag());
            lemma_filter_keeps_two(rest, |p: Part| p.tag != png_srgb_tag());
            assert(second[2] == kept[1]);
        }
    }
    lemma_move_keeps_others(second);
    if exif is Some && icc is Some {
        lemma_data_comes_after(second, 3);
    } else if exif is Some || icc is Some {
        lemma_data_comes_after(second, 2);
    }
}

/// Putting Exif into a PNG file keeps the sizes of its chunks within bounds.
proof fn lemma_sizes_after_exif(chunks: Seq<Part>, exif: Seq<u8>)
    requires
        sizes_fit(ContainerKind::Png, chunks),
        exif.len() <= u32::MAX,
    ensures
        sizes_fit(ContainerKind::Png, with_exif(ContainerKind::Png, chunks, exif)),
{
    let pred = |p: Part| p.tag != png_exif_tag();
    let kept = without_tag(chunks, png_exif_tag());
    let done = with_exif(ContainerKind::Png, chunks, exif);
    assert forall|i: int| 0 <= i < done.len() implies (#[trigger] done[i]).contents.len()
        <= u32::MAX by {
        let at: int = if kept.len() == 0 {
            0
        } else {
            1
        };
        if i != at {
            let j = if i < at {
                i
            } else {
                i - 1
            };
            assert(done[i] == kept[j]);
            chunks.lemma_filter_contains_rev(pred, kept[j]);
            let k = choose|k: int| 0 <= k < chunks.len() && chunks[k] == kept[j];
            assert(chunks[k].contents.len() <= u32::MAX);
        }
    }
}

/// Putting an ICC profile into a PNG file keeps the sizes of its chunks within bounds.
proof fn lemma_sizes_after_icc(chunks: Seq<Part>, icc: Seq<u8>)
    requires
        sizes_fit(ContainerKind::Png, chunks),
        png_icc_contents(icc).len() <= u32::MAX,
    ensures
        sizes_fit(ContainerKind::Png, with_icc(ContainerKind::Png, chunks, icc)),
{
    let done = with_icc(ContainerKind::Png, chunks, icc);
    let no_icc = |p: Part| p.tag != png_icc_tag();
    let no_srgb = |p: Part| p.tag != png_srgb_tag();
    let rest = without_tag(chunks, png_icc_tag());
    let kept = without_tag(rest, png_srgb_tag());
    assert forall|i: int| 0 <= i < done.len() implies (#[trigger] done[i]).contents.len()
        <= u32::MAX by {
        let at: int = if kept.len() == 0 {
            0
        } else {
            1
        };
        if i != at {
            let j = if i < at {
                i
            } else {
                i - 1
            };
            assert(done[i] == kept[j]);
            rest.lemma_filter_contains_rev(no_srgb, kept[j]);
            chunks.lemma_filter_contains_rev(no_icc, kept[j]);
            let k = choose|k: int| 0 <= k < chunks.len() && chunks[k] == kept[j];
            assert(chunks[k].contents.len() <= u32::MAX);
        }
    }
}

/// Dropping chunks adds none that end the file.
proof fn lemma_dropping_adds_no_end(chunks: Seq<Part>, tag: Seq<u8>)
    requires
        forall|i: int| 0 <= i < chunks.len() ==> (#[trigger] chunks[i]).tag != png_end_tag(),
    ensures
        forall|i: int|
            0 <= i < without_tag(chunks, tag).len() ==> (#[trigger] without_tag(chunks, tag)[i]).tag
                != png_end_tag(),
{
    let pred = |p: Part| p.tag != tag;
    let kept = without_tag(chunks, tag);
    assert forall|i: int| 0 <= i < kept.len() implies (#[trigger] kept[i]).tag != png_end_tag() by {
        chunks.lemma_filter_contains_rev(pred, kept[i]);
        let k = choose|k: int| 0 <= k < chunks.len() && chunks[k] == kept[i];
        assert(chunks[k].tag != png_end_tag());
    }
}

/// A proper PNG file stays one when chunks other than its header are dropped.
proof fn lemma_dropping_keeps_proper(chunks: Seq<Part>, tag: Seq<u8>)
    requires
        tag != png_header_tag(),
    ensures
        is_proper_png(chunks) ==> is_proper_png(without_tag(chunks, tag)),
    decreases chunks.len(),
{
    if is_proper_png(chunks) {
        reveal(Seq::filter);
        let pred = |p: Part| p.tag != tag;
        let rest = chunks.drop_last();
        let kept_rest = without_tag(rest, tag);
        let kept = without_tag(chunks, tag);
        if chunks.len() == 1 {
            assert(rest.filter(pred) =~= Seq::empty());
            assert(kept =~= seq![chunks[0]]);
        } else {
            assert forall|i: int| 0 <= i < rest.len() implies (#[trigger] rest[i]).tag
                != png_end_tag() by {
                assert(chunks[i].tag != png_end_tag());
            }
            lemma_dropping_keeps_proper(rest, tag);
            lemma_dropping_adds_no_end(rest, tag);
            assert(kept == kept_rest || kept == kept_rest.push(chunks.last()));
            assert(kept[0] == kept_rest[0]);
            assert forall|i: int| 0 <= i < kept.len() - 1 implies (#[trigger] kept[i]).tag
                != png_end_tag() by {
                assert(kept[i] == kept_rest[i]);
            }
        }
    }
}

/// A proper PNG file stays one when chunks of a type are dropped and another chunk is put
/// after its header.
proof fn lemma_replacing_keeps_proper(chunks: Seq<Part>, dropped: Seq<u8>, part: Part)
    requires
        dropped != png_header_tag(),
        part.tag != png_end_tag(),
    ensures
        is_proper_png(chunks) ==> is_proper_png(with_second(without_tag(chunks, dropped), part)),
{
    lemma_dropping_keeps_proper(chunks, dropped);
    if is_proper_png(chunks) {
        let kept = without_tag(chunks, dropped);
        let done = with_second(kept, part);
        assert(done[0] == kept[0]);
        assert(png_header_tag()[1] != png_end_tag()[1]);
        assert forall|i: int| 0 <= i < done.len() - 1 implies (#[trigger] done[i]).tag
            != png_end_tag() by {
            if i > 1 {
                assert(done[i] == kept[i - 1]);
            }
        }
    }
}

/// The chunk types that are put into PNG files and taken out of them are neither the first
/// nor the last of a file.
proof fn lemma_png_tags()
    ensures
        png_exif_tag() != png_header_tag(),
        png_icc_tag() != png_header_tag(),
        png_srgb_tag() != png_header_tag(),
        png_exif_tag() != png_end_tag(),
        png_icc_tag() != png_end_tag(),
{
    assert(png_exif_tag()[0] != png_header_tag()[0]);
    assert(png_icc_tag()[0] != png_header_tag()[0]);
    assert(png_srgb_tag()[0] != png_header_tag()[0]);
    assert(png_exif_tag()[0] != png_end_tag()[0]);
    assert(png_icc_tag()[0] != png_end_tag()[0]);
}

/// An Exif block that a container holds is still there after an ICC profile was put in.
proof fn lemma_exif_outlives_icc(
    kind: ContainerKind,
    parts: Seq<Part>,
    done: Seq<Part>,
    exif: Seq<u8>,
)
    requires
        holds_exif(kind, parts, exif),
        forall|p: Part| #[trigger]
            parts.contains(p) && outlives_icc(kind, p) ==> done.contains(p),
    ensures
        holds_exif(kind, done, exif),
{
    let part = match kind {
        ContainerKind::Jpeg => plain_part(seq![0xe1u8], jpeg_exif_prefix() + exif),
        ContainerKind::Png => plain_part(png_exif_tag(), exif),
        ContainerKind::WebP => plain_part(webp_exif_tag(), exif),
    };
    assert(outlives_icc(kind, part)) by {
        assert(seq![0xe1u8][0] != seq![0xe2u8][0]);
        assert(png_exif_tag()[0] != png_icc_tag()[0] && png_exif_tag()[0] != png_srgb_tag()[0]);
        assert(webp_exif_tag()[0] != webp_icc_tag()[0] && webp_exif_tag()[0]
            != webp_header_tag()[0]);
    }
    if parts.contains(part) {
        assert(done.contains(part));
    }
}

/// Moving the Exif chunk of a PNG file keeps every chunk.
proof fn lemma_move_keeps_parts(chunks: Seq<Part>)
    ensures
        forall|p: Part| #[trigger]
            chunks.contains(p) ==> exif_before_data(chunks).contains(p),
        sizes_fit(ContainerKind::Png, chunks) ==> sizes_fit(
            ContainerKind::Png,
            exif_before_data(chunks),
        ),
        ends_last(chunks) ==> ends_last(exif_before_data(chunks)),
        chunks.len() > 0 ==> exif_before_data(chunks).len() > 0,
{
    let exif_at = first_with_tag(chunks, png_exif_tag());
    let data_at = first_with_tag(chunks, png_data_tag());
    lemma_first_with_tag(chunks, png_exif_tag());
    lemma_first_with_tag(chunks, png_data_tag());
    let done = exif_before_data(chunks);
    if exif_at < chunks.len() && data_at < exif_at {
        lemma_png_tags();
        assert forall|i: int| 0 <= i < done.len() - 1 && ends_last(chunks) implies (
        #[trigger] done[i]).tag != png_end_tag() by {
            if i == data_at {
                assert(done[i] == chunks[exif_at]);
            } else if i < data_at || i > exif_at {
                assert(done[i] == chunks[i]);
            } else {
                assert(done[i] == chunks[i - 1]);
            }
        }
        assert forall|p: Part| #[trigger] chunks.contains(p) implies done.contains(p) by {
            let i = choose|i: int| 0 <= i < chunks.len() && chunks[i] == p;
            if i == exif_at {
                assert(done[data_at] == p);
            } else if i < data_at || i > exif_at {
                assert(done[i] == p);
            } else {
                assert(done[i + 1] == p);
            }
        }
        assert forall|i: int| 0 <= i < done.len() && sizes_fit(
            ContainerKind::Png,
            chunks,
        ) implies (#[trigger] done[i]).contents.len() <= u32::MAX by {
            let j = if i == data_at {
                exif_at
            } else if i < data_at || i > exif_at {
                i
            } else {
                i - 1
            };
            assert(done[i] == chunks[j]);
        }
    }
}

/// Of a PNG file that holds Exif and image data, the Exif comes first.
pub proof fn law_png_exif_precedes_the_image_data(chunks: Seq<Part>)
    requires
        first_with_tag(chunks, png_exif_tag()) < chunks.len(),
        first_with_tag(chunks, png_data_tag()) < chunks.len(),
    ensures
        first_with_tag(exif_before_data(chunks), png_exif_tag()) < first_with_tag(
            exif_before_data(chunks),
            png_data_tag(),
        ),
{
    let exif_at = first_with_tag(chunks, png_exif_tag());
    let data_at = first_with_tag(chunks, png_data_tag());
    lemma_first_with_tag(chunks, png_exif_tag());
    lemma_first_with_tag(chunks, png_data_tag());
    let done = exif_before_data(chunks);
    assert(png_exif_tag()[0] != png_data_tag()[0]);
    if data_at < exif_at {
        assert(done[data_at] == chunks[exif_at]);
        assert(done[data_at + 1] == chunks[data_at]);
        assert forall|i: int| 0 <= i < data_at implies done[i] == chunks[i] by {}
        assert forall|j: int| 0 <= j < data_at implies (#[trigger] done[j]).tag
            != png_exif_tag() by {
            assert(done[j] == chunks[j]);
        }
        assert forall|j: int| 0 <= j < data_at + 1 implies (#[trigger] done[j]).tag
            != png_data_tag() by {
            if j < data_at {
                assert(done[j] == chunks[j]);
            }
        }
        lemma_first_with_tag_is(done, png_exif_tag(), data_at);
        lemma_first_with_tag_is(done, png_data_tag(), data_at + 1);
    } else {
        assert(exif_at != data_at);
    }
}

/// Moving the Exif chunk of a PNG file neither adds nor loses a chunk, and leaves the others
/// in their order.
pub proof fn law_moving_exif_keeps_the_other_chunks(chunks: Seq<Part>)
    ensures
        exif_before_data(chunks).to_multiset() == chunks.to_multiset(),
        exif_before_data(chunks) == chunks || ({
            let exif_at = first_with_tag(chunks, png_exif_tag());
            let data_at = first_with_tag(chunks, png_data_tag());
            exif_before_data(chunks).remove(data_at) == chunks.remove(exif_at)
        }),
{
    let exif_at = first_with_tag(chunks, png_exif_tag());
    let data_at = first_with_tag(chunks, png_data_tag());
    lemma_first_with_tag(chunks, png_exif_tag());
    lemma_first_with_tag(chunks, png_data_tag());
    if exif_at < chunks.len() && data_at < exif_at {
        let rest = chunks.remove(exif_at);
        let done = exif_before_data(chunks);
        vstd::seq_lib::to_multiset_remove(chunks, exif_at);
        vstd::seq_lib::to_multiset_insert(rest, data_at, chunks[exif_at]);
        assert(done.remove(data_at) =~= rest);
        chunks.to_multiset_ensures();
        assert(done.to_multiset() =~= chunks.to_multiset());
    }
}

/// Bytes that no container is found in come back as they were, whatever was to be attached
/// to them.
pub proof fn law_other_files_stay_as_they_are(
    encoded: Seq<u8>,
    exif: Option<Seq<u8>>,
    icc: Option<Seq<u8>>,
)
    ensures
        parsed_container(encoded) is None ==> attached(encoded, exif, icc) == encoded,
{
}

/// Attaching nothing changes nothing.
pub proof fn law_attaching_nothing_changes_nothing(encoded: Seq<u8>)
    ensures
        attached(encoded, None, None) == encoded,
{
}

/// Putting blocks into a file leaves all its other parts as they are and where they are: of a
/// PNG file every chunk but `eXIf`, `iCCP` and `sRGB`, of a WebP file every chunk but `EXIF`,
/// `ICCP` and `VP8X`, and of a JPEG file every segment but those with Exif, with an ICC profile
/// or with a list of further images.
pub proof fn law_other_parts_stay(
    encoded: Seq<u8>,
    exif: Option<Seq<u8>>,
    icc: Option<Seq<u8>>,
    kind: ContainerKind,
    parts: Seq<Part>,
)
    requires
        carried_over(encoded, exif, icc),
        exif is Some || icc is Some,
        parsed_container(encoded) == Some((kind, parts)),
    ensures
        ({
            let done = attached_parts(kind, parts, exif, icc);
            let kept = match kind {
                ContainerKind::Png => |p: Part|
                    p.tag != seq![0x65u8, 0x58, 0x49, 0x66] && p.tag != seq![
                        0x69u8,
                        0x43,
                        0x43,
                        0x50,
                    ] && p.tag != seq![0x73u8, 0x52, 0x47, 0x42],
                ContainerKind::WebP => |p: Part|
                    p.tag != seq![0x45u8, 0x58, 0x49, 0x46] && p.tag != seq![
                        0x49u8,
                        0x43,
                        0x43,
                        0x50,
                    ] && p.tag != seq![0x56u8, 0x50, 0x38, 0x58],
                ContainerKind::Jpeg => |p: Part|
                    !(p.tag == seq![0xe1u8] && seq![0x45u8, 0x78, 0x69, 0x66, 0, 0].is_prefix_of(
                        p.contents,
                    )) && !(p.tag == seq![0xe2u8] && (seq![
                        0x49u8,
                        0x43,
                        0x43,
                        0x5f,
                        0x50,
                        0x52,
                        0x4f,
                        0x46,
                        0x49,
                        0x4c,
                        0x45,
                        0,
                    ].is_prefix_of(p.contents) || seq![0x4du8, 0x50, 0x46, 0].is_prefix_of(
                        p.contents,
                    ))),
            };
            &&& done.filter(kept) == parts.filter(kept)
            &&& attached(encoded, exif, icc) == container_file(kind, done)
            &&& kind is Png && parts.len() > 0 && parts[0].tag == seq![0x49u8, 0x48, 0x44, 0x52] && (
            forall|i: int|
                0 <= i < parts.len() - 1 ==> (#[trigger] parts[i]).tag != seq![
                    0x49u8,
                    0x45,
                    0x4e,
                    0x44,
                ]) ==> parsed_container(attached(encoded, exif, icc)) == Some((kind, done))
            &&& kind is Jpeg && done.len() > 0 ==> parsed_container(attached(encoded, exif, icc))
                == Some((kind, done))
        }),
{
    let done = attached_parts(kind, parts, exif, icc);
    let other = is_other(kind);
    let kept = match kind {
        ContainerKind::Png => |p: Part|
            p.tag != seq![0x65u8, 0x58, 0x49, 0x66] && p.tag != seq![0x69u8, 0x43, 0x43, 0x50]
                && p.tag != seq![0x73u8, 0x52, 0x47, 0x42],
        ContainerKind::WebP => |p: Part|
            p.tag != seq![0x45u8, 0x58, 0x49, 0x46] && p.tag != seq![0x49u8, 0x43, 0x43, 0x50]
                && p.tag != seq![0x56u8, 0x50, 0x38, 0x58],
        ContainerKind::Jpeg => |p: Part|
            !(p.tag == seq![0xe1u8] && seq![0x45u8, 0x78, 0x69, 0x66, 0, 0].is_prefix_of(
                p.contents,
            )) && !(p.tag == seq![0xe2u8] && (seq![
                0x49u8,
                0x43,
                0x43,
                0x5f,
                0x50,
                0x52,
                0x4f,
                0x46,
                0x49,
                0x4c,
                0x45,
                0,
            ].is_prefix_of(p.contents) || seq![0x4du8, 0x50, 0x46, 0].is_prefix_of(p.contents))),
    };
    assert(kept =~= other);
    assert(done.filter(other) == other_parts(kind, done));
    assert(parts.filter(other) == other_parts(kind, parts));
}

/// The blocks that were put into a file are among its parts, byte for byte: in a PNG file the
/// Exif block in an `eXIf` chunk and the profile in an `iCCP` chunk, in a WebP file in an `EXIF`
/// and an `ICCP` chunk, and in a JPEG file the Exif block in one APP1 segment and the profile
/// in numbered APP2 segments, unless they are too large for any.
pub proof fn law_blocks_are_among_the_parts(
    encoded: Seq<u8>,
    exif: Option<Seq<u8>>,
    icc: Option<Seq<u8>>,
    kind: ContainerKind,
    parts: Seq<Part>,
    piece: int,
)
    requires
        carried_over(encoded, exif, icc),
        exif is Some || icc is Some,
        parsed_container(encoded) == Some((kind, parts)),
    ensures
        ({
            let done = attached_parts(kind, parts, exif, icc);
            let none = Seq::<u8>::empty();
            &&& exif matches Some(b) ==> done.contains(
                match kind {
                    ContainerKind::Png => Part {
                        tag: seq![0x65u8, 0x58, 0x49, 0x66],
                        contents: b,
                        image_data: none,
                    },
                    ContainerKind::WebP => Part {
                        tag: seq![0x45u8, 0x58, 0x49, 0x46],
                        contents: b,
                        image_data: none,
                    },
                    ContainerKind::Jpeg => Part {
                        tag: seq![0xe1u8],
                        contents: seq![0x45u8, 0x78, 0x69, 0x66, 0, 0] + b,
                        image_data: none,
                    },
                },
            ) || kind is Jpeg && b.len() > 65527
            &&& icc matches Some(b) ==> (kind is Png ==> done.contains(
                Part {
                    tag: seq![0x69u8, 0x43, 0x43, 0x50],
                    contents: png_icc_contents(b),
                    image_data: none,
                },
            ))
            &&& icc matches Some(b) ==> (kind is WebP ==> done.contains(
                Part { tag: seq![0x49u8, 0x43, 0x43, 0x50], contents: b, image_data: none },
            ))
            &&& icc matches Some(b) ==> (kind is Jpeg && 0 < b.len() <= 16707345 && 0 <= piece
                && piece * 65519 < b.len() ==> done.contains(
                Part {
                    tag: seq![0xe2u8],
                    contents: seq![
                        0x49u8,
                        0x43,
                        0x43,
                        0x5f,
                        0x50,
                        0x52,
                        0x4f,
                        0x46,
                        0x49,
                        0x4c,
                        0x45,
                        0,
                    ] + seq![(piece + 1) as u8, ((b.len() - 1) / 65519 + 1) as u8] + b.subrange(
                        piece * 65519,
                        if (piece + 1) * 65519 < b.len() {
                            (piece + 1) * 65519
                        } else {
                            b.len() as int
                        },
                    ),
                    image_data: none,
                },
            ))
        }),
{
    let done = attached_parts(kind, parts, exif, icc);
    if let Some(b) = icc {
        if kind is Jpeg && 0 < b.len() <= 16707345 && 0 <= piece && piece * 65519 < b.len() {
            assert(piece < icc_pieces(b));
            assert(done.contains(icc_segment(b, piece)));
        }
    }
}

/// A PNG file whose Exif chunk comes before its image data, or that lacks either, stays as it
/// is.
pub proof fn law_exif_moves_only_where_it_must(chunks: Seq<Part>)
    ensures
        (forall|i: int|
            0 <= i < chunks.len() ==> (#[trigger] chunks[i]).tag != seq![0x65u8, 0x58, 0x49, 0x66])
            ==> exif_before_data(chunks) == chunks,
        (forall|i: int|
            0 <= i < chunks.len() ==> (#[trigger] chunks[i]).tag != seq![0x49u8, 0x44, 0x41, 0x54])
            ==> exif_before_data(chunks) == chunks,
        (exists|at: int|
            0 <= at < chunks.len() && (#[trigger] chunks[at]).tag == seq![0x65u8, 0x58, 0x49, 0x66]
                && forall|i: int|
                0 <= i < at ==> (#[trigger] chunks[i]).tag != seq![0x49u8, 0x44, 0x41, 0x54])
            ==> exif_before_data(chunks) == chunks,
{
    lemma_first_with_tag(chunks, png_exif_tag());
    lemma_first_with_tag(chunks, png_data_tag());
    let exif_at = first_with_tag(chunks, png_exif_tag());
    let data_at = first_with_tag(chunks, png_data_tag());
    if exif_at < chunks.len() {
        assert(chunks[exif_at].tag == png_exif_tag());
    }
    if data_at < chunks.len() {
        assert(chunks[data_at].tag == png_data_tag());
    }
}

/// Once blocks were put into a PNG file that holds image data, an Exif chunk that it holds, be
/// it new or its own, comes before all image data.
pub proof fn law_exif_of_png_files_comes_before_the_image(
    parts: Seq<Part>,
    exif: Option<Seq<u8>>,
    icc: Option<Seq<u8>>,
    data_at: int,
) -> (exif_at: int)
    requires
        0 <= data_at < attached_parts(ContainerKind::Png, parts, exif, icc).len(),
        attached_parts(ContainerKind::Png, parts, exif, icc)[data_at].tag == seq![
            0x49u8,
            0x44,
            0x41,
            0x54,
        ],
        exists|i: int|
            0 <= i < attached_parts(ContainerKind::Png, parts, exif, icc).len() && (
            #[trigger] attached_parts(ContainerKind::Png, parts, exif, icc)[i]).tag == seq![
                0x65u8,
                0x58,
                0x49,
                0x66,
            ],
    ensures
        0 <= exif_at < data_at,
        attached_parts(ContainerKind::Png, parts, exif, icc)[exif_at].tag == seq![
            0x65u8,
            0x58,
            0x49,
            0x66,
        ],
{
    let first = match exif {
        Some(bytes) => with_exif(ContainerKind::Png, parts, bytes),
        None => parts,
    };
    let second = match icc {
        Some(bytes) => with_icc(ContainerKind::Png, first, bytes),
        None => first,
    };
    let done = attached_parts(ContainerKind::Png, parts, exif, icc);
    lemma_first_with_tag(done, png_exif_tag());
    lemma_first_with_tag(done, png_data_tag());
    let exif_at = first_with_tag(done, png_exif_tag());
    let i = choose|i: int| 0 <= i < done.len() && (#[trigger] done[i]).tag == png_exif_tag();
    assert(done[i].tag == png_exif_tag());
    assert(exif_at < done.len());
    assert(first_with_tag(done, png_data_tag()) <= data_at);
    lemma_move_keeps_parts(second);
    assert(done.contains(done[i]) && done.contains(done[data_at]));
    lemma_first_with_tag(second, png_exif_tag());
    lemma_first_with_tag(second, png_data_tag());
    law_moving_exif_keeps_the_other_chunks(second);
    second.to_multiset_ensures();
    done.to_multiset_ensures();
    assert(second.contains(done[i]) && second.contains(done[data_at]));
    law_png_exif_precedes_the_image_data(second);
    exif_at
}

} // verus!
