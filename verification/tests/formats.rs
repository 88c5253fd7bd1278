use pasture_panda::format::{file_extension, format_for, OutputFormat};
use pasture_panda::{
    default_preserve_metadata, format_carries_metadata, get_supported_input_formats,
    get_supported_output_formats,
};

#[test]
fn avif_is_not_advertised_as_an_input_format() {
    // Decoding AVIF needs a feature of the decoder that is not enabled.
    assert!(!get_supported_input_formats().iter().any(|f| f == "AVIF"));
}

#[test]
fn webp_output_reports_quality_support() {
    let webp = get_supported_output_formats()
        .into_iter()
        .find(|f| f.extension == "webp")
        .expect("webp output format");
    assert!(webp.supports_quality, "lossy WebP means the slider applies");
}

#[test]
fn metadata_support_is_reported_per_format() {
    let formats = get_supported_output_formats();
    let supports = |ext: &str| {
        formats
            .iter()
            .find(|f| f.extension == ext)
            .unwrap()
            .supports_metadata
    };

    for ext in ["jpg", "png", "webp"] {
        assert!(supports(ext), "{} should carry metadata", ext);
    }
    for ext in ["avif", "gif", "bmp", "tiff"] {
        assert!(!supports(ext), "{} does not carry metadata here", ext);
    }
}

#[test]
fn the_lists_hold_every_format_in_order() {
    assert_eq!(
        get_supported_input_formats(),
        vec!["PNG", "JPEG", "GIF", "WebP", "BMP", "TIFF", "ICO"]
    );
    let listed: Vec<(String, String, bool)> = get_supported_output_formats()
        .into_iter()
        .map(|f| (f.name, f.extension, f.supports_quality))
        .collect();
    let expected: Vec<(String, String, bool)> = [
        ("PNG", "png", false),
        ("JPEG", "jpg", true),
        ("WebP", "webp", true),
        ("AVIF", "avif", false),
        ("GIF", "gif", false),
        ("BMP", "bmp", false),
        ("TIFF", "tiff", false),
    ]
    .iter()
    .map(|(n, e, q)| (n.to_string(), e.to_string(), *q))
    .collect();
    assert_eq!(listed, expected);
}

#[test]
fn format_names_ignore_case() {
    for name in ["jpg", "JPEG", "Png", "wEBp"] {
        assert!(format_carries_metadata(name), "{}", name);
    }
    for name in ["avif", "GIF", "bmp", "tiff", "heic", "", "jp g", "ｐｎｇ"] {
        assert!(!format_carries_metadata(name), "{}", name);
    }
    assert_eq!(format_for("jpeg"), format_for("jpg"));
    assert_eq!(format_for("JPEG"), None);
}

#[test]
fn extensions_name_their_formats() {
    for format in [
        OutputFormat::Jpeg,
        OutputFormat::Png,
        OutputFormat::WebP,
        OutputFormat::Avif,
        OutputFormat::Gif,
        OutputFormat::Bmp,
        OutputFormat::Tiff,
    ] {
        assert_eq!(format_for(file_extension(format)), Some(format));
    }
}

#[test]
fn metadata_is_kept_unless_said_otherwise() {
    assert!(default_preserve_metadata());
}
