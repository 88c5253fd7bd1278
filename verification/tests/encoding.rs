use image::{DynamicImage, ImageReader};
use pasture_panda::encode::{can_encode, webp_result, WEBP_MAX_DIMENSION};
use pasture_panda::format::OutputFormat;
use pasture_panda::picture::{
    colour_has_alpha, encoder_colour, normalise_for_format, orientation_for,
    orientation_swaps_axes, ColourType, Orientation,
};
use pasture_panda::{encode_to_bytes, encode_webp, ConversionOptions, OutputMode};
use std::io::Cursor;

fn options(format: &str, quality: u8) -> ConversionOptions {
    ConversionOptions {
        format: format.to_string(),
        quality,
        output_mode: OutputMode::SameFolder,
        output_folder: None,
        preserve_metadata: true,
    }
}

/// Photographic-ish content: a smooth gradient plus pseudo-random grain from a small LCG. A
/// regular pattern would compress losslessly to almost nothing and make any lossy-vs-lossless
/// size comparison meaningless.
fn noisy_image(width: u32, height: u32) -> image::RgbImage {
    let mut state: u32 = 0x1234_5678;
    let mut next = || {
        state = state.wrapping_mul(1_664_525).wrapping_add(1_013_904_223);
        (state >> 24) as u8
    };

    let mut img = image::RgbImage::new(width, height);
    for (x, y, px) in img.enumerate_pixels_mut() {
        let base_r = (x * 255 / width.max(1)) as u8;
        let base_g = (y * 255 / height.max(1)) as u8;
        *px = image::Rgb([
            base_r.wrapping_add(next() / 2),
            base_g.wrapping_add(next() / 2),
            next(),
        ]);
    }
    img
}

fn dimensions_of(bytes: &[u8]) -> (u32, u32) {
    ImageReader::new(Cursor::new(bytes))
        .with_guessed_format()
        .unwrap()
        .into_dimensions()
        .unwrap()
}

fn every_colour_type() -> Vec<DynamicImage> {
    vec![
        DynamicImage::new_luma8(3, 2),
        DynamicImage::new_luma_a8(3, 2),
        DynamicImage::new_rgb8(3, 2),
        DynamicImage::new_rgba8(3, 2),
        DynamicImage::new_luma16(3, 2),
        DynamicImage::new_luma_a16(3, 2),
        DynamicImage::new_rgb16(3, 2),
        DynamicImage::new_rgba16(3, 2),
        DynamicImage::new_rgb32f(3, 2),
        DynamicImage::new_rgba32f(3, 2),
    ]
}

/// The point of libwebp: a photographic image at slider quality should encode smaller than
/// the same image losslessly.
#[test]
fn lossy_webp_beats_lossless_on_photographic_content() {
    let img = DynamicImage::ImageRgb8(noisy_image(256, 256));

    let lossy = encode_webp(&img, 60).expect("lossy encode");
    let lossless = encode_webp(&img, 100).expect("lossless encode");

    assert!(
        lossy.len() < lossless.len(),
        "expected lossy ({} bytes) to beat lossless ({} bytes)",
        lossy.len(),
        lossless.len()
    );

    // And the result must still be a readable WebP of the right size.
    assert_eq!(dimensions_of(&lossy), (256, 256));
}

#[test]
fn webp_quality_slider_changes_output_size() {
    let img = DynamicImage::ImageRgb8(noisy_image(128, 128));
    let low = encode_webp(&img, 20).unwrap();
    let high = encode_webp(&img, 95).unwrap();

    assert!(
        low.len() < high.len(),
        "quality 20 ({}) should be smaller than quality 95 ({})",
        low.len(),
        high.len()
    );
}

#[test]
fn webp_preserves_alpha() {
    let mut img = image::RgbaImage::new(32, 32);
    for (x, _y, px) in img.enumerate_pixels_mut() {
        *px = image::Rgba([255, 0, 0, if x < 16 { 0 } else { 255 }]);
    }
    let encoded = encode_webp(&DynamicImage::ImageRgba8(img), 100).unwrap();

    let decoded = image::load_from_memory(&encoded).expect("decode webp");
    assert!(decoded.color().has_alpha(), "alpha channel must survive");
    assert_eq!(decoded.to_rgba8().get_pixel(0, 0)[3], 0, "left half transparent");
    assert_eq!(decoded.to_rgba8().get_pixel(31, 0)[3], 255, "right half opaque");
}

#[test]
fn webp_rejects_oversized_images_with_a_clear_message() {
    let img = DynamicImage::new_rgb8(WEBP_MAX_DIMENSION + 1, 1);
    let err = encode_webp(&img, 80).unwrap_err();
    assert!(err.contains("maximum dimension"), "got: {}", err);
    assert_eq!(err, "WebP cannot store 16384x1: maximum dimension is 16383");
    let tall = DynamicImage::new_rgba8(2, 20000);
    assert_eq!(
        encode_webp(&tall, 100).unwrap_err(),
        "WebP cannot store 2x20000: maximum dimension is 16383"
    );
}

#[test]
fn webp_at_full_quality_is_lossless() {
    let source = noisy_image(40, 30);
    for quality in [100, 101, 255] {
        let encoded = encode_webp(&DynamicImage::ImageRgb8(source.clone()), quality).unwrap();
        let decoded = image::load_from_memory(&encoded).unwrap();
        assert_eq!(decoded.to_rgb8(), source);
    }
    let lossy = encode_webp(&DynamicImage::ImageRgb8(source.clone()), 99).unwrap();
    assert_ne!(image::load_from_memory(&lossy).unwrap().to_rgb8(), source);
}

#[test]
fn webp_files_are_those_of_libwebp() {
    let source = noisy_image(24, 16);
    let expected = webp::Encoder::from_rgb(source.as_raw(), 24, 16).encode(60.0).to_vec();
    assert_eq!(encode_webp(&DynamicImage::ImageRgb8(source.clone()), 60).unwrap(), expected);
    let rgba = DynamicImage::ImageRgb8(source).to_rgba8();
    let expected = webp::Encoder::from_rgba(rgba.as_raw(), 24, 16).encode_lossless().to_vec();
    assert_eq!(encode_webp(&DynamicImage::ImageRgba8(rgba), 100).unwrap(), expected);
}

#[test]
fn sixteen_bit_sources_encode_to_webp() {
    let img = DynamicImage::new_rgba16(5, 4);
    assert_eq!(dimensions_of(&encode_webp(&img, 80).unwrap()), (5, 4));
}

#[test]
fn an_empty_webp_file_is_a_failure() {
    assert_eq!(webp_result(None), Err("WebP encoding failed".to_string()));
    assert_eq!(webp_result(Some(vec![])), Err("WebP encoding failed".to_string()));
    assert_eq!(webp_result(Some(vec![7])), Ok(vec![7]));
    // libwebp refuses empty pictures.
    assert_eq!(
        encode_webp(&DynamicImage::new_rgb8(0, 3), 80),
        Err("WebP encoding failed".to_string())
    );
}

#[test]
fn every_colour_type_converts_to_every_format() {
    for img in every_colour_type() {
        for format in ["jpg", "png", "webp", "avif", "gif", "bmp", "tiff"] {
            let opts = options(format, 80);
            assert!(can_encode(&img, &opts));
            let encoded = encode_to_bytes(&img, &opts);
            let bytes = encoded.unwrap_or_else(|e| panic!("{:?} to {}: {}", img.color(), format, e));
            if format != "avif" {
                assert_eq!(dimensions_of(&bytes), (3, 2), "{:?} to {}", img.color(), format);
            }
        }
    }
}

#[test]
fn alpha_survives_where_the_format_has_room() {
    for img in every_colour_type() {
        let alpha = img.color().has_alpha();
        for format in ["png", "gif", "tiff", "webp", "bmp"] {
            let bytes = encode_to_bytes(&img, &options(format, 100)).unwrap();
            let decoded = image::load_from_memory(&bytes).unwrap();
            assert!(!alpha || decoded.color().has_alpha(), "{:?} to {}", img.color(), format);
        }
        let jpeg = encode_to_bytes(&img, &options("jpg", 80)).unwrap();
        assert!(!image::load_from_memory(&jpeg).unwrap().color().has_alpha());
    }
}

#[test]
fn pictures_reach_encoders_in_a_colour_type_they_take() {
    use_normalised(OutputFormat::Gif, DynamicImage::new_luma8(1, 1), Some(image::ColorType::Rgb8));
    use_normalised(OutputFormat::Gif, DynamicImage::new_luma_a16(1, 1), Some(image::ColorType::Rgba8));
    use_normalised(OutputFormat::Gif, DynamicImage::new_rgb8(1, 1), None);
    use_normalised(OutputFormat::Png, DynamicImage::new_rgb32f(1, 1), Some(image::ColorType::Rgb16));
    use_normalised(OutputFormat::Png, DynamicImage::new_rgba32f(1, 1), Some(image::ColorType::Rgba16));
    use_normalised(OutputFormat::Png, DynamicImage::new_luma_a16(1, 1), None);
    use_normalised(OutputFormat::Tiff, DynamicImage::new_luma_a8(1, 1), Some(image::ColorType::Rgba8));
    use_normalised(OutputFormat::Tiff, DynamicImage::new_luma_a16(1, 1), Some(image::ColorType::Rgba16));
    use_normalised(OutputFormat::Tiff, DynamicImage::new_rgba32f(1, 1), None);
    use_normalised(OutputFormat::Avif, DynamicImage::new_luma16(1, 1), Some(image::ColorType::Rgb8));
    use_normalised(OutputFormat::Jpeg, DynamicImage::new_rgba32f(1, 1), None);
    use_normalised(OutputFormat::Bmp, DynamicImage::new_luma_a8(1, 1), Some(image::ColorType::Rgba8));
    use_normalised(OutputFormat::Bmp, DynamicImage::new_luma_a16(1, 1), Some(image::ColorType::Rgba8));
    use_normalised(OutputFormat::Bmp, DynamicImage::new_luma16(1, 1), None);
    assert_eq!(encoder_colour(OutputFormat::Gif, ColourType::La8), ColourType::Rgba8);
    assert!(colour_has_alpha(ColourType::La16));
    assert!(!colour_has_alpha(ColourType::Rgb32F));
}

fn use_normalised(format: OutputFormat, img: DynamicImage, expected: Option<image::ColorType>) {
    let converted = normalise_for_format(&img, format);
    assert_eq!(converted.map(|c| c.color()), expected, "{:?} for {:?}", img.color(), format);
}

#[test]
fn encoded_files_are_those_of_the_image_crate() {
    let img = DynamicImage::ImageRgb8(noisy_image(20, 10));
    for (name, format) in [
        ("PNG", image::ImageFormat::Png),
        ("gif", image::ImageFormat::Gif),
        ("Bmp", image::ImageFormat::Bmp),
        ("tiff", image::ImageFormat::Tiff),
    ] {
        let mut buf = Cursor::new(Vec::new());
        img.write_to(&mut buf, format).unwrap();
        assert_eq!(encode_to_bytes(&img, &options(name, 50)).unwrap(), buf.into_inner());
    }
    let mut expected = Vec::new();
    let encoder = image::codecs::jpeg::JpegEncoder::new_with_quality(&mut expected, 50);
    img.write_with_encoder(encoder).unwrap();
    assert_eq!(encode_to_bytes(&img, &options("jpeg", 50)).unwrap(), expected);
    assert_eq!(
        encode_to_bytes(&img, &options("webp", 50)),
        encode_webp(&img, 50)
    );
}

#[test]
fn the_quality_setting_applies_to_jpeg() {
    let img = DynamicImage::ImageRgb8(noisy_image(64, 64));
    let low = encode_to_bytes(&img, &options("jpg", 10)).unwrap();
    let high = encode_to_bytes(&img, &options("jpg", 95)).unwrap();
    assert!(low.len() < high.len());
}

#[test]
fn pictures_that_do_not_fit_are_refused() {
    let wide = DynamicImage::new_luma8(65536, 1);
    assert!(encode_to_bytes(&wide, &options("jpg", 80)).is_err());
    assert!(encode_to_bytes(&wide, &options("gif", 80)).is_err());
    assert!(encode_to_bytes(&wide, &options("png", 80)).is_ok());
    let fits = DynamicImage::new_luma8(65535, 1);
    assert!(encode_to_bytes(&fits, &options("jpg", 80)).is_ok());
    assert!(encode_to_bytes(&fits, &options("gif", 80)).is_ok());
    let empty = DynamicImage::new_luma8(0, 0);
    for format in ["jpg", "png", "webp", "avif", "tiff"] {
        assert!(encode_to_bytes(&empty, &options(format, 80)).is_err(), "{}", format);
    }
    for img in [DynamicImage::new_luma8(0, 0), DynamicImage::new_rgba8(0, 7)] {
        assert!(encode_to_bytes(&img, &options("gif", 80)).is_ok());
    }
    assert_eq!(
        encode_to_bytes(&fits, &options("Heic", 80)),
        Err("Unsupported format: heic".to_string())
    );
}

#[test]
fn files_start_as_their_format_does() {
    let img = DynamicImage::new_rgba8(2, 2);
    for (format, first) in [("gif", b'G'), ("bmp", b'B'), ("avif", 0)] {
        assert_eq!(encode_to_bytes(&img, &options(format, 80)).unwrap()[0], first);
    }
    let tiff = encode_to_bytes(&img, &options("tiff", 80)).unwrap();
    assert!(tiff[0] == b'I' || tiff[0] == b'M');
}

#[test]
fn orientation_swapping_covers_the_transposing_variants() {
    for o in [
        Orientation::Rotate90,
        Orientation::Rotate270,
        Orientation::Rotate90FlipH,
        Orientation::Rotate270FlipH,
    ] {
        assert!(orientation_swaps_axes(o), "{:?} transposes", o);
    }
    for o in [
        Orientation::NoTransforms,
        Orientation::Rotate180,
        Orientation::FlipHorizontal,
        Orientation::FlipVertical,
    ] {
        assert!(!orientation_swaps_axes(o), "{:?} preserves axes", o);
    }
}

#[test]
fn orientation_numbers_are_those_of_exif() {
    for n in 0..=255u8 {
        let ours = orientation_for(n).map(|o| format!("{:?}", o));
        let theirs = image::metadata::Orientation::from_exif(n).map(|o| format!("{:?}", o));
        assert_eq!(ours, theirs);
    }
}

#[test]
fn grey_pictures_keep_their_alpha_as_bmp() {
    let mut img = image::GrayAlphaImage::new(2, 1);
    img.put_pixel(0, 0, image::LumaA([200, 0]));
    img.put_pixel(1, 0, image::LumaA([100, 128]));
    let bytes = encode_to_bytes(&DynamicImage::ImageLumaA8(img), &options("bmp", 80)).unwrap();
    let decoded = image::load_from_memory(&bytes).unwrap().to_rgba8();
    assert_eq!(decoded.get_pixel(0, 0).0, [200, 200, 200, 0]);
    assert_eq!(decoded.get_pixel(1, 0).0, [100, 100, 100, 128]);
}

#[test]
fn wide_empty_grey_pictures_are_refused_as_bmp() {
    let opts = options("bmp", 80);
    for img in [DynamicImage::new_luma_a8(1 << 31, 0), DynamicImage::new_luma_a16(1 << 31, 0)] {
        assert!(can_encode(&img, &opts));
        assert!(encode_to_bytes(&img, &opts).is_err());
    }
}

#[test]
fn buffers_are_to_end_with_the_last_pixel() {
    let longer = DynamicImage::ImageRgb8(image::RgbImage::from_raw(1, 1, vec![9; 6]).unwrap());
    let exact = DynamicImage::ImageRgb8(image::RgbImage::from_raw(1, 1, vec![9; 3]).unwrap());
    for format in ["jpg", "png", "gif", "bmp", "tiff", "avif"] {
        assert!(!can_encode(&longer, &options(format, 80)), "{}", format);
        assert!(can_encode(&exact, &options(format, 80)), "{}", format);
    }
    assert!(can_encode(&longer, &options("webp", 80)));
    assert!(can_encode(&longer, &options("heic", 80)));
    assert_eq!(encode_webp(&longer, 80), encode_webp(&exact, 80));

    // What is recoloured on its way to the encoder loses what stands behind the pixels.
    let grey = image::GrayAlphaImage::from_raw(1, 1, vec![9; 8]).unwrap();
    let grey = DynamicImage::ImageLumaA8(grey);
    for format in ["jpg", "gif", "bmp", "tiff", "avif"] {
        assert!(can_encode(&grey, &options(format, 80)), "{}", format);
        assert!(encode_to_bytes(&grey, &options(format, 80)).is_ok(), "{}", format);
    }
    assert!(!can_encode(&grey, &options("png", 80)));
}

#[test]
fn top_quality_is_one_setting() {
    let img = DynamicImage::ImageRgb8(noisy_image(20, 10));
    let top = encode_webp(&img, 100).unwrap();
    for quality in [101, 200, 255] {
        assert_eq!(encode_webp(&img, quality).unwrap(), top);
    }
    assert_ne!(encode_webp(&img, 99).unwrap(), top);
}

#[test]
fn lossless_webp_gives_every_pixel_back() {
    let rgb = noisy_image(33, 17);
    let bytes = encode_webp(&DynamicImage::ImageRgb8(rgb.clone()), 100).unwrap();
    assert_eq!(image::load_from_memory(&bytes).unwrap().to_rgb8(), rgb);

    let mut rgba = DynamicImage::ImageRgb8(rgb).to_rgba8();
    for (x, _y, px) in rgba.enumerate_pixels_mut() {
        px.0[3] = (x * 7) as u8;
    }
    let bytes = encode_webp(&DynamicImage::ImageRgba8(rgba.clone()), 100).unwrap();
    let decoded = image::load_from_memory(&bytes).unwrap().to_rgba8();
    assert_eq!(decoded.dimensions(), rgba.dimensions());
    for (a, b) in decoded.pixels().zip(rgba.pixels()) {
        assert_eq!(a.0[3], b.0[3]);
        assert!(b.0[3] == 0 || a == b);
    }
}

#[test]
fn webp_takes_eight_bits_for_each_sample() {
    let noise = DynamicImage::ImageRgb8(noisy_image(9, 7));
    let mut pictures = every_colour_type();
    pictures.push(DynamicImage::ImageRgb16(noise.to_rgb16()));
    pictures.push(DynamicImage::ImageLuma16(noise.to_luma16()));
    pictures.push(DynamicImage::ImageLumaA8(noise.to_luma_alpha8()));
    pictures.push(DynamicImage::ImageRgba32F(noise.to_rgba32f()));
    for img in pictures {
        let copy = if img.color().has_alpha() {
            DynamicImage::ImageRgba8(img.to_rgba8())
        } else {
            DynamicImage::ImageRgb8(img.to_rgb8())
        };
        for quality in [30, 100] {
            let bytes = encode_webp(&img, quality).unwrap();
            assert!(!bytes.is_empty());
            assert_eq!(bytes, encode_webp(&copy, quality).unwrap(), "{:?}", img.color());
        }
    }
}

#[test]
fn encoding_goes_by_format_and_quality_alone() {
    let img = DynamicImage::ImageRgb8(noisy_image(12, 12));
    for (a, b) in [("jpg", "JPEG"), ("png", "PNG"), ("webp", "WebP"), ("gif", "Gif")] {
        let one = options(a, 70);
        let mut other = options(b, 70);
        other.output_mode = OutputMode::CustomFolder;
        other.output_folder = Some("/elsewhere".to_string());
        other.preserve_metadata = false;
        assert_eq!(encode_to_bytes(&img, &one), encode_to_bytes(&img, &other), "{} and {}", a, b);
    }
    let refused = encode_to_bytes(&img, &options("HEIC", 70));
    assert_eq!(refused, Err("Unsupported format: heic".to_string()));
}

#[test]
fn quality_matters_only_where_it_is_supported() {
    let img = DynamicImage::ImageRgb8(noisy_image(12, 12));
    for info in pasture_panda::get_supported_output_formats() {
        let low = encode_to_bytes(&img, &options(&info.extension, 10)).unwrap();
        let high = encode_to_bytes(&img, &options(&info.extension, 90)).unwrap();
        assert_eq!(low != high, info.supports_quality, "{}", info.name);
    }
}

#[test]
fn encoding_again_changes_nothing() {
    let img = DynamicImage::ImageRgb8(noisy_image(19, 11));
    for (name, other_name, quality) in
        [("jpg", "JPEG", 85), ("png", "PNG", 3), ("gif", "Gif", 40), ("bmp", "bmp", 1), ("xyz", "XYZ", 9)]
    {
        let mut other = options(other_name, quality);
        other.preserve_metadata = false;
        other.output_mode = OutputMode::ReplaceOriginal;
        assert_eq!(encode_to_bytes(&img, &options(name, 85)), encode_to_bytes(&img, &other));
    }
}
