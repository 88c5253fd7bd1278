//! Decoded pictures: their size, their colour type and their orientation.

use vstd::prelude::*;

use crate::format::OutputFormat;

verus! {

/// What the samples of a picture stand for, and their size in bits.
#[derive(Debug, Clone, Copy, PartialEq, Eq, Structural)]
pub enum ColourType {
    L8,
    La8,
    Rgb8,
    Rgba8,
    L16,
    La16,
    Rgb16,
    Rgba16,
    Rgb32F,
    Rgba32F,
    Other,
}

/// How a stored picture is to be turned and flipped for display.
#[derive(Debug, Clone, Copy, PartialEq, Eq, Structural)]
pub enum Orientation {
    NoTransforms,
    Rotate90,
    Rotate180,
    Rotate270,
    FlipHorizontal,
    FlipVertical,
    Rotate90FlipH,
    Rotate270FlipH,
}

/// A decoded picture. `contents` lists the codes of its colour space and then every sample
/// of its buffer, row by row.
pub struct Picture {
    pub width: u32,
    pub height: u32,
    pub colour: ColourType,
    pub contents: Seq<u32>,
}

#[verifier::external_type_specification]
#[verifier::external_body]
pub struct ExDynamicImage(image::DynamicImage);

/// The width, height and colour type of an `image::DynamicImage`.
pub uninterp spec fn image_shape(img: image::DynamicImage) -> (u32, u32, ColourType);

/// The colour space codes and samples that an `image::DynamicImage` holds.
pub uninterp spec fn image_contents(img: image::DynamicImage) -> Seq<u32>;

/// The picture that an `image::DynamicImage` holds.
pub open spec fn picture(img: image::DynamicImage) -> Picture {
    Picture {
        width: image_shape(img).0,
        height: image_shape(img).1,
        colour: image_shape(img).2,
        contents: image_contents(img),
    }
}

/// The contents that `DynamicImage::to_rgb8` gives a picture.
pub uninterp spec fn rgb8_contents(p: Picture) -> Seq<u32>;

/// The contents that `DynamicImage::to_rgba8` gives a picture.
pub uninterp spec fn rgba8_contents(p: Picture) -> Seq<u32>;

/// The contents that `DynamicImage::to_rgb16` gives a picture.
pub uninterp spec fn rgb16_contents(p: Picture) -> Seq<u32>;

/// The contents that `DynamicImage::to_rgba16` gives a picture.
pub uninterp spec fn rgba16_contents(p: Picture) -> Seq<u32>;

/// The contents that `DynamicImage::apply_orientation` gives a picture.
pub uninterp spec fn turned_contents(p: Picture, orientation: Orientation) -> Seq<u32>;

/// The samples of a picture with one byte for each, as `DynamicImage::as_bytes` lists them.
pub uninterp spec fn sample_bytes(p: Picture) -> Seq<u8>;

/// How many bytes the buffer of a picture has, as `DynamicImage::as_bytes` gives it.
pub uninterp spec fn buffer_size(p: Picture) -> nat;

/// How many bytes a pixel of a colour type takes.
pub open spec fn pixel_size(colour: ColourType) -> nat {
    match colour {
        ColourType::L8 => 1,
        ColourType::La8 | ColourType::L16 => 2,
        ColourType::Rgb8 => 3,
        ColourType::Rgba8 | ColourType::La16 => 4,
        ColourType::Rgb16 => 6,
        ColourType::Rgba16 => 8,
        ColourType::Rgb32F => 12,
        ColourType::Rgba32F => 16,
        ColourType::Other => 0,
    }
}

/// Whether the buffer of a picture ends with its last pixel. A buffer may be longer.
pub open spec fn fills_buffer(p: Picture) -> bool {
    buffer_size(p) == p.width * p.height * pixel_size(p.colour)
}

/// The orientation that an Exif orientation number stands for.
pub open spec fn orientation_numbered(number: u8) -> Option<Orientation> {
    if number == 1 {
        Some(Orientation::NoTransforms)
    } else if number == 2 {
        Some(Orientation::FlipHorizontal)
    } else if number == 3 {
        Some(Orientation::Rotate180)
    } else if number == 4 {
        Some(Orientation::FlipVertical)
    } else if number == 5 {
        Some(Orientation::Rotate90FlipH)
    } else if number == 6 {
        Some(Orientation::Rotate90)
    } else if number == 7 {
        Some(Orientation::Rotate270FlipH)
    } else if number == 8 {
        Some(Orientation::Rotate270)
    } else {
        None
    }
}

/// Whether an orientation swaps width and height.
pub open spec fn swaps_axes(orientation: Orientation) -> bool {
    orientation is Rotate90 || orientation is Rotate270 || orientation is Rotate90FlipH
        || orientation is Rotate270FlipH
}

/// The size of a picture once it is turned for display.
pub open spec fn oriented_size(size: (u32, u32), orientation: Orientation) -> (u32, u32) {
    if swaps_axes(orientation) {
        (size.1, size.0)
    } else {
        size
    }
}

/// The picture as it is to be displayed.
pub open spec fn turned(p: Picture, orientation: Orientation) -> Picture {
    if orientation is NoTransforms {
        p
    } else {
        Picture {
            width: oriented_size((p.width, p.height), orientation).0,
            height: oriented_size((p.width, p.height), orientation).1,
            colour: p.colour,
            contents: turned_contents(p, orientation),
        }
    }
}

/// The picture in another colour type, out of the four that a picture can be brought to. One
/// that is of the colour type already stays as it is.
pub open spec fn recoloured(p: Picture, colour: ColourType) -> Picture {
    if p.colour == colour {
        p
    } else {
        let contents = match colour {
            ColourType::Rgb8 => rgb8_contents(p),
            ColourType::Rgba8 => rgba8_contents(p),
            ColourType::Rgb16 => rgb16_contents(p),
            _ => rgba16_contents(p),
        };
        Picture { colour, contents, ..p }
    }
}

/// Whether pixels of a colour type have an alpha sample.
pub open spec fn has_alpha(colour: ColourType) -> bool {
    colour is La8 || colour is Rgba8 || colour is La16 || colour is Rgba16 || colour is Rgba32F
}

/// Whether a picture of a colour type goes to the encoder of a format as it is. Those of
/// JPEG and WebP convert what they cannot store themselves. That of BMP does so too, but
/// drops the alpha of grey pictures, which it could store with colours. That of AVIF does so
/// for some colour types, but not for an empty picture, so it is handed what it stores.
pub open spec fn accepts(format: OutputFormat, colour: ColourType) -> bool {
    match format {
        OutputFormat::Jpeg | OutputFormat::WebP => true,
        OutputFormat::Bmp => !(colour is La8 || colour is La16),
        OutputFormat::Png => !(colour is Rgb32F || colour is Rgba32F || colour is Other),
        OutputFormat::Gif | OutputFormat::Avif => colour is Rgb8 || colour is Rgba8,
        OutputFormat::Tiff => !(colour is La8 || colour is La16 || colour is Other),
    }
}

/// The colour type in which a picture is handed to the encoder of a format: its own where the
/// encoder takes it, and otherwise one that keeps alpha, with as many bits as the encoder
/// takes.
pub open spec fn colour_for(format: OutputFormat, colour: ColourType) -> ColourType {
    if accepts(format, colour) {
        colour
    } else if format is Gif || format is Avif || format is Bmp || colour is La8 {
        if has_alpha(colour) {
            ColourType::Rgba8
        } else {
            ColourType::Rgb8
        }
    } else if has_alpha(colour) {
        ColourType::Rgba16
    } else {
        ColourType::Rgb16
    }
}

/// Whether the encoder of a format is handed the buffer of a picture of a colour type, rather
/// than that of a copy in another colour type.
pub open spec fn takes_buffer(format: OutputFormat, colour: ColourType) -> bool {
    match format {
        OutputFormat::Jpeg => colour is L8 || colour is Rgb8,
        OutputFormat::Bmp => colour is L8 || colour is Rgb8 || colour is Rgba8,
        OutputFormat::WebP => false,
        _ => accepts(format, colour),
    }
}

/// Whether a picture can go to the encoder of a format, which insists on a buffer without
/// anything behind the last pixel.
pub open spec fn is_encodable(p: Picture, format: OutputFormat) -> bool {
    takes_buffer(format, p.colour) ==> fills_buffer(p)
}

/// The picture as it is handed to the encoder of a format.
pub open spec fn normalised(p: Picture, format: OutputFormat) -> Picture {
    if accepts(format, p.colour) {
        p
    } else {
        recoloured(p, colour_for(format, p.colour))
    }
}

/// Calls `DynamicImage::width` and `DynamicImage::height`.
#[verifier::external_body]
pub(crate) fn dimensions(img: &image::DynamicImage) -> (r: (u32, u32))
    ensures
        r == (image_shape(*img).0, image_shape(*img).1),
{
    (img.width(), img.height())
}

/// Calls `DynamicImage::color`, and gives its result as a colour type of this library, one
/// for one.
#[verifier::external_body]
pub(crate) fn colour(img: &image::DynamicImage) -> (r: ColourType)
    ensures
        r == image_shape(*img).2,
{
    match img.color() {
        image::ColorType::L8 => ColourType::L8,
        image::ColorType::La8 => ColourType::La8,
        image::ColorType::Rgb8 => ColourType::Rgb8,
        image::ColorType::Rgba8 => ColourType::Rgba8,
        image::ColorType::L16 => ColourType::L16,
        image::ColorType::La16 => ColourType::La16,
        image::ColorType::Rgb16 => ColourType::Rgb16,
        image::ColorType::Rgba16 => ColourType::Rgba16,
        image::ColorType::Rgb32F => ColourType::Rgb32F,
        image::ColorType::Rgba32F => ColourType::Rgba32F,
        _ => ColourType::Other,
    }
}

/// Calls `DynamicImage::to_rgb8`: a picture of the same size with eight bits each of red,
/// green and blue. One that has them already is copied as it is. Otherwise the samples depend
/// on the picture alone, and nothing stands behind them in the buffer.
#[verifier::external_body]
pub(crate) fn to_rgb8(img: &image::DynamicImage) -> (r: image::DynamicImage)
    ensures
        image_shape(r) == (image_shape(*img).0, image_shape(*img).1, ColourType::Rgb8),
        image_shape(*img).2 is Rgb8 ==> image_contents(r) == image_contents(*img),
        !(image_shape(*img).2 is Rgb8) ==> image_contents(r) == rgb8_contents(picture(*img)),
        !(image_shape(*img).2 is Rgb8) ==> fills_buffer(picture(r)),
{
    image::DynamicImage::ImageRgb8(img.to_rgb8())
}

/// Calls `DynamicImage::to_rgba8`: a picture of the same size with eight bits each of red,
/// green, blue and alpha. One that has them already is copied as it is. Otherwise the samples
/// depend on the picture alone, and nothing stands behind them in the buffer.
#[verifier::external_body]
pub(crate) fn to_rgba8(img: &image::DynamicImage) -> (r: image::DynamicImage)
    ensures
        image_shape(r) == (image_shape(*img).0, image_shape(*img).1, ColourType::Rgba8),
        image_shape(*img).2 is Rgba8 ==> image_contents(r) == image_contents(*img),
        !(image_shape(*img).2 is Rgba8) ==> image_contents(r) == rgba8_contents(picture(*img)),
        !(image_shape(*img).2 is Rgba8) ==> fills_buffer(picture(r)),
{
    image::DynamicImage::ImageRgba8(img.to_rgba8())
}

/// Calls `DynamicImage::to_rgb16`: a picture of the same size with sixteen bits each of red,
/// green and blue. One that has them already is copied as it is. Otherwise the samples depend
/// on the picture alone, and nothing stands behind them in the buffer.
#[verifier::external_body]
fn to_rgb16(img: &image::DynamicImage) -> (r: image::DynamicImage)
    ensures
        image_shape(r) == (image_shape(*img).0, image_shape(*img).1, ColourType::Rgb16),
        image_shape(*img).2 is Rgb16 ==> image_contents(r) == image_contents(*img),
        !(image_shape(*img).2 is Rgb16) ==> image_contents(r) == rgb16_contents(picture(*img)),
        !(image_shape(*img).2 is Rgb16) ==> fills_buffer(picture(r)),
{
    image::DynamicImage::ImageRgb16(img.to_rgb16())
}

/// Calls `DynamicImage::to_rgba16`: a picture of the same size with sixteen bits each of
/// red, green, blue and alpha. One that has them already is copied as it is. Otherwise the
/// samples depend on the picture alone, and nothing stands behind them in the buffer.
#[verifier::external_body]
fn to_rgba16(img: &image::DynamicImage) -> (r: image::DynamicImage)
    ensures
        image_shape(r) == (image_shape(*img).0, image_shape(*img).1, ColourType::Rgba16),
        image_shape(*img).2 is Rgba16 ==> image_contents(r) == image_contents(*img),
        !(image_shape(*img).2 is Rgba16) ==> image_contents(r) == rgba16_contents(picture(*img)),
        !(image_shape(*img).2 is Rgba16) ==> fills_buffer(picture(r)),
{
    image::DynamicImage::ImageRgba16(img.to_rgba16())
}

/// Calls `DynamicImage::as_bytes` on a picture with one byte for each sample: the bytes of
/// its whole buffer, which depend on the picture alone. A buffer holds at least the pixels.
#[verifier::external_body]
pub(crate) fn bytes_of(img: &image::DynamicImage) -> (r: Vec<u8>)
    requires
        image_shape(*img).2 is Rgb8 || image_shape(*img).2 is Rgba8,
    ensures
        r@ == sample_bytes(picture(*img)),
        r@.len() >= image_shape(*img).0 * image_shape(*img).1 * pixel_size(image_shape(*img).2),
{
    img.as_bytes().to_vec()
}

/// Calls `DynamicImage::as_bytes` for the length of the buffer, which depends on the picture
/// alone.
#[verifier::external_body]
fn buffer_len(img: &image::DynamicImage) -> (r: usize)
    ensures
        r == buffer_size(picture(*img)),
{
    img.as_bytes().len()
}

/// Calls `DynamicImage::apply_orientation`: the size changes as the orientation swaps the
/// axes, the colour type stays, and nothing changes where there is nothing to transform. The
/// samples depend on the picture and the orientation alone. A buffer that ends with the last
/// pixel still does.
#[verifier::external_body]
pub(crate) fn apply_orientation(img: &mut image::DynamicImage, orientation: Orientation)
    ensures
        orientation is NoTransforms ==> picture(*final(img)) == picture(*old(img)),
        !(orientation is NoTransforms) ==> image_contents(*final(img)) == turned_contents(
            picture(*old(img)),
            orientation,
        ),
        (image_shape(*final(img)).0, image_shape(*final(img)).1) == oriented_size(
            (image_shape(*old(img)).0, image_shape(*old(img)).1),
            orientation,
        ),
        image_shape(*final(img)).2 == image_shape(*old(img)).2,
        fills_buffer(picture(*old(img))) ==> fills_buffer(picture(*final(img))),
{
    img.apply_orientation(match orientation {
        Orientation::NoTransforms => image::metadata::Orientation::NoTransforms,
        Orientation::Rotate90 => image::metadata::Orientation::Rotate90,
        Orientation::Rotate180 => image::metadata::Orientation::Rotate180,
        Orientation::Rotate270 => image::metadata::Orientation::Rotate270,
        Orientation::FlipHorizontal => image::metadata::Orientation::FlipHorizontal,
        Orientation::FlipVertical => image::metadata::Orientation::FlipVertical,
        Orientation::Rotate90FlipH => image::metadata::Orientation::Rotate90FlipH,
        Orientation::Rotate270FlipH => image::metadata::Orientation::Rotate270FlipH,
    })
}

/// The orientation that an Exif orientation number stands for.
pub fn orientation_for(number: u8) -> (r: Option<Orientation>)
    ensures
        r == orientation_numbered(number),
{
    match number {
        1 => Some(Orientation::NoTransforms),
        2 => Some(Orientation::FlipHorizontal),
        3 => Some(Orientation::Rotate180),
        4 => Some(Orientation::FlipVertical),
        5 => Some(Orientation::Rotate90FlipH),
        6 => Some(Orientation::Rotate90),
        7 => Some(Orientation::Rotate270FlipH),
        8 => Some(Orientation::Rotate270),
        _ => None,
    }
}

/// True for the orientations that transpose the image, and so swap width and height.
pub fn orientation_swaps_axes(orientation: Orientation) -> (r: bool)
    ensures
        r == swaps_axes(orientation),
{
    matches!(
        orientation,
        Orientation::Rotate90
            | Orientation::Rotate270
            | Orientation::Rotate90FlipH
            | Orientation::Rotate270FlipH
    )
}

/// Whether pixels of a colour type have an alpha sample.
pub fn colour_has_alpha(colour: ColourType) -> (r: bool)
    ensures
        r == has_alpha(colour),
{
    matches!(
        colour,
        ColourType::La8
            | ColourType::Rgba8
            | ColourType::La16
            | ColourType::Rgba16
            | ColourType::Rgba32F
    )
}

/// The colour type in which a picture is handed to the encoder of a format.
pub fn encoder_colour(format: OutputFormat, colour: ColourType) -> (r: ColourType)
    ensures
        r == colour_for(format, colour),
{
    let accepted = match format {
        OutputFormat::Jpeg | OutputFormat::WebP => true,
        OutputFormat::Bmp => !matches!(colour, ColourType::La8 | ColourType::La16),
        OutputFormat::Png => !matches!(
            colour,
            ColourType::Rgb32F | ColourType::Rgba32F | ColourType::Other
        ),
        OutputFormat::Gif | OutputFormat::Avif => matches!(
            colour,
            ColourType::Rgb8 | ColourType::Rgba8
        ),
        OutputFormat::Tiff => !matches!(
            colour,
            ColourType::La8 | ColourType::La16 | ColourType::Other
        ),
    };
    if accepted {
        return colour;
    }
    let eight_bits = matches!(
        format,
        OutputFormat::Gif | OutputFormat::Avif | OutputFormat::Bmp
    ) || matches!(colour, ColourType::La8);
    match (eight_bits, colour_has_alpha(colour)) {
        (true, true) => ColourType::Rgba8,
        (true, false) => ColourType::Rgb8,
        (false, true) => ColourType::Rgba16,
        (false, false) => ColourType::Rgb16,
    }
}

/// How many bytes a pixel of a colour type takes.
fn bytes_per_pixel(colour: ColourType) -> (r: u128)
    ensures
        r == pixel_size(colour),
{
    match colour {
        ColourType::L8 => 1,
        ColourType::La8 | ColourType::L16 => 2,
        ColourType::Rgb8 => 3,
        ColourType::Rgba8 | ColourType::La16 => 4,
        ColourType::Rgb16 => 6,
        ColourType::Rgba16 => 8,
        ColourType::Rgb32F => 12,
        ColourType::Rgba32F => 16,
        ColourType::Other => 0,
    }
}

/// Whether a picture can go to the encoder of a format.
pub fn can_go_to_encoder(img: &image::DynamicImage, format: OutputFormat) -> (r: bool)
    ensures
        r == is_encodable(picture(*img), format),
{
    let own: ColourType = colour(img);
    let taken = match format {
        OutputFormat::Jpeg => matches!(own, ColourType::L8 | ColourType::Rgb8),
        OutputFormat::Bmp => matches!(
            own,
            ColourType::L8 | ColourType::Rgb8 | ColourType::Rgba8
        ),
        OutputFormat::WebP => false,
        _ => encoder_colour(format, own) == own,
    };
    if !taken {
        return true;
    }
    let (width, height): (u32, u32) = dimensions(img);
    let pixel: u128 = bytes_per_pixel(own);
    proof {
        assert(width * height <= 0xffff_ffff * 0xffff_ffff) by (nonlinear_arith)
            requires
                width <= 0xffff_ffff,
                height <= 0xffff_ffff,
        ;
        assert(0 <= width * height * pixel <= 0xffff_fffe_0000_0001 * 16) by (nonlinear_arith)
            requires
                0 <= width * height <= 0xffff_fffe_0000_0001,
                pixel <= 16,
        ;
    }
    buffer_len(img) as u128 == width as u128 * height as u128 * pixel
}

/// Brings a picture to a colour type that the encoder of a format takes, keeping alpha, or
/// gives nothing where the encoder takes the picture as it is.
pub fn normalise_for_format(img: &image::DynamicImage, format: OutputFormat) -> (r: Option<
    image::DynamicImage,
>)
    ensures
        match r {
            Some(other) => picture(other) == normalised(picture(*img), format),
            None => picture(*img) == normalised(picture(*img), format),
        },
        r is None <==> accepts(format, image_shape(*img).2),
        r matches Some(other) ==> fills_buffer(picture(other)),
{
    let own: ColourType = colour(img);
    let wanted: ColourType = encoder_colour(format, own);
    if wanted == own {
        None
    } else {
        match wanted {
            ColourType::Rgb8 => Some(to_rgb8(img)),
            ColourType::Rgba8 => Some(to_rgba8(img)),
            ColourType::Rgb16 => Some(to_rgb16(img)),
            _ => Some(to_rgba16(img)),
        }
    }
}

/// Whether the encoder of a format writes the alpha samples of pictures of a colour type. No
/// JPEG file has any, and a BMP file has none with grey samples.
pub open spec fn stores_alpha(format: OutputFormat, colour: ColourType) -> bool {
    has_alpha(colour) && match format {
        OutputFormat::Jpeg => false,
        OutputFormat::Bmp => !(colour is La8 || colour is La16),
        _ => true,
    }
}

/// Whatever its colour type, a picture reaches an encoder in one that the encoder takes. Where
/// the format has room for alpha, the encoder is handed a colour type whose alpha it stores.
pub proof fn law_encoders_get_what_they_take(format: OutputFormat, p: Picture)
    ensures
        accepts(format, normalised(p, format).colour),
        normalised(p, format).width == p.width,
        normalised(p, format).height == p.height,
        has_alpha(p.colour) && !(format is Jpeg) ==> stores_alpha(
            format,
            normalised(p, format).colour,
        ),
{
}

/// Turning a picture swaps its sides exactly where its orientation transposes it.
pub proof fn law_turning_swaps_the_sides(p: Picture, orientation: Orientation)
    ensures
        (turned(p, orientation).width, turned(p, orientation).height) == oriented_size(
            (p.width, p.height),
            orientation,
        ),
{
}

/// A turned picture holds the samples of the picture as `image` rearranges them for that very
/// orientation, in the same colour type, with its sides swapped for the four orientations that
/// transpose it, whatever its size. With nothing to transform it is the picture itself.
pub proof fn law_turning_rearranges_the_samples(p: Picture, orientation: Orientation)
    ensures
        orientation is NoTransforms ==> turned(p, orientation) == p,
        !(orientation is NoTransforms) ==> turned(p, orientation).contents == turned_contents(
            p,
            orientation,
        ),
        turned(p, orientation).colour == p.colour,
        orientation is Rotate90 || orientation is Rotate270 || orientation is Rotate90FlipH
            || orientation is Rotate270FlipH ==> turned(p, orientation).width == p.height && turned(
            p,
            orientation,
        ).height == p.width,
        orientation is Rotate180 || orientation is FlipHorizontal || orientation is FlipVertical
            ==> turned(p, orientation).width == p.width && turned(p, orientation).height
            == p.height,
{
}

} // verus!
