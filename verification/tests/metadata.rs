use image::metadata::Orientation;
use image::{DynamicImage, ImageDecoder, ImageReader};
use pasture_panda::container::move_png_exif_before_idat;
use pasture_panda::decode::{clear_orientation, orient, path_to_ask, Contents};
use pasture_panda::metadata::{can_attach, insert_metadata};
use pasture_panda::{
    attach_metadata, decode_oriented, encode_to_bytes, read_image_info, ConversionOptions,
    OutputMode, SourceMetadata,
};
use std::io::Cursor;

fn options(format: &str) -> ConversionOptions {
    ConversionOptions {
        format: format.to_string(),
        quality: 85,
        output_mode: OutputMode::SameFolder,
        output_folder: None,
        preserve_metadata: true,
    }
}

fn noisy_image(width: u32, height: u32) -> image::RgbImage {
    let mut state: u32 = 0x1234_5678;
    let mut next = || {
        state = state.wrapping_mul(1_664_525).wrapping_add(1_013_904_223);
        (state >> 24) as u8
    };

    let mut img = image::RgbImage::new(width, height);
    for (x, y, px) in img.enumerate_pixels_mut() {
        let base_r = (x * 255 / width.max(1)) as u8;
        let base_g = (y * 255 / height.max(1)) as u8;
        *px = image::Rgb([
            base_r.wrapping_add(next() / 2),
            base_g.wrapping_add(next() / 2),
            next(),
        ]);
    }
    img
}

/// Minimal but valid Exif block: little-endian TIFF header, one IFD entry holding the
/// orientation tag (0x0112), plus an ImageDescription (0x010E) so there is something other
/// than orientation to preserve.
fn exif_chunk_with_orientation(exif_orientation: u16) -> Vec<u8> {
    let mut chunk: Vec<u8> = Vec::new();
    chunk.extend_from_slice(b"II*\0"); // little-endian marker
    chunk.extend_from_slice(&8u32.to_le_bytes()); // offset of first IFD
    chunk.extend_from_slice(&2u16.to_le_bytes()); // entry count

    // Orientation: SHORT, count 1.
    chunk.extend_from_slice(&0x0112u16.to_le_bytes());
    chunk.extend_from_slice(&3u16.to_le_bytes());
    chunk.extend_from_slice(&1u32.to_le_bytes());
    chunk.extend_from_slice(&exif_orientation.to_le_bytes());
    chunk.extend_from_slice(&0u16.to_le_bytes()); // value padding

    // ImageDescription: ASCII, 4 bytes, fits inline.
    chunk.extend_from_slice(&0x010Eu16.to_le_bytes());
    chunk.extend_from_slice(&2u16.to_le_bytes());
    chunk.extend_from_slice(&4u32.to_le_bytes());
    chunk.extend_from_slice(b"ab\0\0");

    chunk.extend_from_slice(&0u32.to_le_bytes()); // no next IFD
    chunk
}

fn read_back_exif(bytes: &[u8]) -> Option<Vec<u8>> {
    let mut decoder = ImageReader::new(Cursor::new(bytes))
        .with_guessed_format()
        .unwrap()
        .into_decoder()
        .unwrap();
    decoder.exif_metadata().ok().flatten()
}

fn read_back_icc(bytes: &[u8]) -> Option<Vec<u8>> {
    let mut decoder = ImageReader::new(Cursor::new(bytes))
        .with_guessed_format()
        .unwrap()
        .into_decoder()
        .unwrap();
    decoder.icc_profile().ok().flatten()
}

/// Walks the PNG chunk sequence, returning the four-byte type codes in order.
fn png_chunk_kinds(bytes: &[u8]) -> Vec<String> {
    let mut kinds = Vec::new();
    let mut i = 8; // skip the signature
    while i + 8 <= bytes.len() {
        let len = u32::from_be_bytes([bytes[i], bytes[i + 1], bytes[i + 2], bytes[i + 3]]);
        let kind = String::from_utf8_lossy(&bytes[i + 4..i + 8]).to_string();
        let is_end = kind == "IEND";
        kinds.push(kind);
        if is_end {
            break;
        }
        i += 12 + len as usize;
    }
    kinds
}

#[test]
fn exif_and_icc_are_attached_to_jpeg_output() {
    let img = DynamicImage::ImageRgb8(noisy_image(32, 32));
    let opts = options("jpg");
    let meta = SourceMetadata {
        exif: Some(exif_chunk_with_orientation(1)),
        icc: Some(b"fake-icc-profile".to_vec()),
    };

    let encoded = attach_metadata(encode_to_bytes(&img, &opts).unwrap(), &meta);

    let exif = read_back_exif(&encoded).expect("exif should survive");
    assert!(
        exif.windows(2).any(|w| w == [0x0E, 0x01]),
        "ImageDescription tag should still be present"
    );

    let icc = read_back_icc(&encoded).expect("icc should survive");
    assert_eq!(icc, b"fake-icc-profile");
}

#[test]
fn exif_survives_a_png_round_trip() {
    let img = DynamicImage::ImageRgb8(noisy_image(16, 16));
    let opts = options("png");
    let meta = SourceMetadata {
        exif: Some(exif_chunk_with_orientation(1)),
        icc: None,
    };

    let encoded = attach_metadata(encode_to_bytes(&img, &opts).unwrap(), &meta);

    assert!(read_back_exif(&encoded).is_some(), "png eXIf chunk should be readable");
    assert!(image::load_from_memory(&encoded).is_ok(), "png should still decode");
}

/// Decoders commonly never look for `eXIf` after `IDAT`. Ordering is the whole reason PNG
/// metadata reads back at all.
#[test]
fn png_exif_chunk_precedes_the_image_data() {
    let img = DynamicImage::ImageRgb8(noisy_image(16, 16));
    let opts = options("png");
    let meta = SourceMetadata {
        exif: Some(exif_chunk_with_orientation(1)),
        icc: None,
    };

    let encoded = attach_metadata(encode_to_bytes(&img, &opts).unwrap(), &meta);
    let kinds = png_chunk_kinds(&encoded);

    let exif_at = kinds.iter().position(|k| k == "eXIf").expect("eXIf chunk");
    let idat_at = kinds.iter().position(|k| k == "IDAT").expect("IDAT chunk");
    assert!(
        exif_at < idat_at,
        "eXIf must precede IDAT, got order: {:?}",
        kinds
    );
}

/// The pixels are rotated, so if the original orientation tag were carried through, every
/// Exif-aware viewer would rotate the output a second time.
#[test]
fn preserved_exif_has_its_orientation_tag_neutralised() {
    let mut chunk = exif_chunk_with_orientation(6); // 6 = rotate 90 clockwise
    let before = chunk.clone();
    assert_eq!(
        Orientation::from_exif_chunk(&chunk),
        Some(Orientation::Rotate90),
        "fixture should start out rotated"
    );

    let removed = clear_orientation(&mut chunk);
    assert_eq!(removed, Some(pasture_panda::picture::Orientation::Rotate90));
    assert_eq!(
        Orientation::from_exif_chunk(&chunk),
        Some(Orientation::NoTransforms),
        "tag must be reset or viewers will double-rotate"
    );

    // The rest of the block must be untouched.
    assert!(
        chunk.windows(2).any(|w| w == [0x0E, 0x01]),
        "clearing orientation must not drop other tags"
    );
    let changed: Vec<usize> = (0..chunk.len()).filter(|i| chunk[*i] != before[*i]).collect();
    assert_eq!(changed, vec![18]);
}

#[test]
fn exif_survives_a_webp_round_trip() {
    let img = DynamicImage::ImageRgb8(noisy_image(32, 32));
    let opts = options("webp");
    let meta = SourceMetadata {
        exif: Some(exif_chunk_with_orientation(1)),
        icc: None,
    };

    // A plain libwebp file is a simple VP8/VP8L container; it has to be promoted to the
    // extended VP8X form before it can hold an EXIF chunk.
    let encoded = attach_metadata(encode_to_bytes(&img, &opts).unwrap(), &meta);

    assert!(image::load_from_memory(&encoded).is_ok(), "webp should still decode");
    assert!(read_back_exif(&encoded).is_some(), "webp EXIF chunk should be readable");
}

#[test]
fn stripping_metadata_produces_a_clean_file() {
    let img = DynamicImage::ImageRgb8(noisy_image(16, 16));
    let opts = options("jpg");

    // preserve_metadata=false means attach_metadata is never called.
    let encoded = encode_to_bytes(&img, &opts).unwrap();

    assert!(
        read_back_exif(&encoded).is_none(),
        "no metadata should be written when preserving is off"
    );
}

#[test]
fn formats_that_cannot_carry_metadata_still_encode() {
    let img = DynamicImage::ImageRgb8(noisy_image(16, 16));
    let meta = SourceMetadata {
        exif: Some(exif_chunk_with_orientation(1)),
        icc: Some(b"fake-icc".to_vec()),
    };

    // BMP and GIF are not containers that hold metadata here; attach_metadata must pass the
    // bytes through untouched rather than corrupting or dropping them.
    for format in ["bmp", "gif", "tiff"] {
        let opts = options(format);
        let plain = encode_to_bytes(&img, &opts).unwrap();
        let attached = attach_metadata(plain.clone(), &meta);
        assert_eq!(attached, plain, "{} bytes should be unchanged", format);
        assert!(
            image::load_from_memory(&attached).is_ok(),
            "{} should still be readable",
            format
        );
    }
    let plain = encode_to_bytes(&img, &options("avif")).unwrap();
    assert_eq!(attach_metadata(plain.clone(), &meta), plain);
}

#[test]
fn both_blocks_read_back_from_every_container() {
    let img = DynamicImage::ImageRgba8(DynamicImage::ImageRgb8(noisy_image(24, 24)).to_rgba8());
    let exif = exif_chunk_with_orientation(1);
    let icc: Vec<u8> = (0..70000u32).map(|i| (i % 251) as u8).collect();
    let meta = SourceMetadata {
        exif: Some(exif.clone()),
        icc: Some(icc.clone()),
    };
    for format in ["jpg", "png", "webp"] {
        let plain = encode_to_bytes(&img, &options(format)).unwrap();
        assert!(can_attach(&plain, &meta));
        let attached = attach_metadata(plain.clone(), &meta);
        assert_eq!(read_back_exif(&attached), Some(exif.clone()), "{}", format);
        assert_eq!(read_back_icc(&attached), Some(icc.clone()), "{}", format);
        assert_eq!(
            image::load_from_memory(&attached).unwrap().to_rgba8(),
            image::load_from_memory(&plain).unwrap().to_rgba8(),
            "{} pixels",
            format
        );
    }
}

#[test]
fn attaching_replaces_what_was_there() {
    let img = DynamicImage::ImageRgb8(noisy_image(8, 8));
    let first = SourceMetadata {
        exif: Some(exif_chunk_with_orientation(3)),
        icc: Some(b"one".to_vec()),
    };
    let second = SourceMetadata {
        exif: Some(exif_chunk_with_orientation(1)),
        icc: Some(b"two".to_vec()),
    };
    for format in ["jpg", "png", "webp"] {
        let plain = encode_to_bytes(&img, &options(format)).unwrap();
        let once = attach_metadata(plain.clone(), &second);
        let twice = attach_metadata(attach_metadata(plain, &first), &second);
        assert_eq!(read_back_exif(&twice), second.exif, "{}", format);
        assert_eq!(read_back_icc(&twice), second.icc, "{}", format);
        assert_eq!(once.len(), twice.len(), "{}", format);
    }
}

#[test]
fn attaching_nothing_changes_nothing() {
    let meta = SourceMetadata::default();
    assert!(meta.is_empty());
    let img = DynamicImage::ImageRgb8(noisy_image(8, 8));
    for format in ["jpg", "png", "webp", "gif"] {
        let plain = encode_to_bytes(&img, &options(format)).unwrap();
        assert_eq!(attach_metadata(plain.clone(), &meta), plain);
    }
    for bytes in [Vec::new(), b"RIFF".to_vec(), vec![0x89; 20]] {
        assert!(can_attach(&bytes, &meta));
        assert_eq!(attach_metadata(bytes.clone(), &meta), bytes);
    }
    // Nothing is stripped either.
    let carried = SourceMetadata {
        exif: Some(exif_chunk_with_orientation(1)),
        icc: Some(b"profile".to_vec()),
    };
    for format in ["jpg", "png", "webp"] {
        let plain = encode_to_bytes(&img, &options(format)).unwrap();
        let full = attach_metadata(plain, &carried);
        assert_eq!(attach_metadata(full.clone(), &meta), full);
    }
}

#[test]
fn attached_files_decode_to_the_same_pixels() {
    let meta = SourceMetadata {
        exif: Some(exif_chunk_with_orientation(1)),
        icc: Some(vec![7; 70000]),
    };
    let rgb = DynamicImage::ImageRgb8(noisy_image(16, 9));
    for img in [rgb.clone(), DynamicImage::ImageRgba8(rgb.to_rgba8())] {
        for format in ["jpg", "png", "webp"] {
            let plain = encode_to_bytes(&img, &options(format)).unwrap();
            let full = attach_metadata(plain.clone(), &meta);
            assert_eq!(
                image::load_from_memory(&full).unwrap(),
                image::load_from_memory(&plain).unwrap(),
                "{}",
                format
            );
            assert_eq!(read_back_exif(&full), meta.exif);
            assert_eq!(read_back_icc(&full), meta.icc);
        }
    }
}

#[test]
fn broken_containers_come_back_as_they_were() {
    let meta = SourceMetadata {
        exif: Some(exif_chunk_with_orientation(1)),
        icc: None,
    };
    assert!(!meta.is_empty());
    for bytes in [
        vec![],
        vec![0x89, 0x50, 0x4e, 0x47],
        vec![0x89, 0x50, 0x4e, 0x47, 0x0d, 0x0a, 0x1a, 0x0a, 0, 0],
        vec![0xff, 0xd8, 0xff, 0xe0, 0, 200],
        b"RIFF\x08\0\0\0WEBPVP8 ".to_vec(),
        b"Right".to_vec(),
    ] {
        assert!(can_attach(&bytes, &meta));
        assert_eq!(attach_metadata(bytes.clone(), &meta), bytes);
    }
}

#[test]
fn exif_too_large_for_a_jpeg_is_left_out() {
    let img = DynamicImage::ImageRgb8(noisy_image(8, 8));
    let plain = encode_to_bytes(&img, &options("jpg")).unwrap();
    let mut largest = exif_chunk_with_orientation(1);
    largest.resize(65527, 0);
    let meta = SourceMetadata { exif: Some(largest.clone()), icc: None };
    let attached = attach_metadata(plain.clone(), &meta);
    assert_eq!(read_back_exif(&attached), Some(largest.clone()));
    largest.push(0);
    let meta = SourceMetadata { exif: Some(largest), icc: None };
    assert_eq!(attach_metadata(plain.clone(), &meta), plain);
}

fn png_of(kinds: &[[u8; 4]]) -> img_parts::png::Png {
    let signature = vec![0x89, 0x50, 0x4e, 0x47, 0x0d, 0x0a, 0x1a, 0x0a];
    let mut png = img_parts::png::Png::from_bytes(signature.into()).unwrap();
    for (i, kind) in kinds.iter().enumerate() {
        let chunk = img_parts::png::PngChunk::new(*kind, vec![i as u8].into());
        png.chunks_mut().push(chunk);
    }
    png
}

/// The chunk types after the move, each with the place that the chunk had before.
fn moved(kinds: &[[u8; 4]]) -> Vec<([u8; 4], u8)> {
    let mut png = png_of(kinds);
    move_png_exif_before_idat(&mut png);
    png.chunks().iter().map(|c| (c.kind(), c.contents()[0])).collect()
}

#[test]
fn exif_moves_ahead_of_the_first_data_chunk() {
    assert_eq!(
        moved(&[*b"IHDR", *b"IDAT", *b"IDAT", *b"eXIf", *b"IEND"]),
        vec![(*b"IHDR", 0), (*b"eXIf", 3), (*b"IDAT", 1), (*b"IDAT", 2), (*b"IEND", 4)]
    );
    // Only the first of two moves.
    assert_eq!(
        moved(&[*b"IDAT", *b"eXIf", *b"eXIf"]),
        vec![(*b"eXIf", 1), (*b"IDAT", 0), (*b"eXIf", 2)]
    );
}

#[test]
fn exif_stays_where_it_need_not_move() {
    for kinds in [
        vec![*b"IHDR", *b"eXIf", *b"IDAT", *b"eXIf"],
        vec![*b"IHDR", *b"eXIf", *b"IEND"],
        vec![*b"IHDR", *b"IDAT", *b"IEND"],
        vec![],
    ] {
        let expected: Vec<([u8; 4], u8)> =
            kinds.iter().enumerate().map(|(i, k)| (*k, i as u8)).collect();
        assert_eq!(moved(&kinds), expected);
    }
}

#[test]
fn blocks_go_right_after_the_header_of_a_png() {
    let png = png_of(&[*b"IHDR", *b"sRGB", *b"IDAT", *b"eXIf", *b"iCCP", *b"IEND"]);
    let meta = SourceMetadata {
        exif: Some(vec![7, 7]),
        icc: Some(vec![8]),
    };
    let image = insert_metadata(img_parts::DynImage::from(png), &meta);
    match &image {
        img_parts::DynImage::Png(png) => {
            let kinds: Vec<[u8; 4]> = png.chunks().iter().map(|c| c.kind()).collect();
            assert_eq!(kinds, vec![*b"IHDR", *b"iCCP", *b"eXIf", *b"IDAT", *b"IEND"]);
            assert_eq!(png.chunks()[2].contents().to_vec(), vec![7, 7]);
            assert!(png.chunks()[1].contents().starts_with(b"icc\0"));
        }
        other => panic!("{:?}", other),
    }
}

#[test]
fn blocks_are_parts_of_their_own_in_a_jpeg() {
    let img = DynamicImage::ImageRgb8(noisy_image(8, 8));
    let plain = encode_to_bytes(&img, &options("jpg")).unwrap();
    let image = img_parts::DynImage::from_bytes(plain.into()).unwrap().unwrap();
    let meta = SourceMetadata {
        exif: Some(vec![1, 2, 3]),
        icc: Some(vec![9; 65520]),
    };
    match insert_metadata(image, &meta) {
        img_parts::DynImage::Jpeg(jpeg) => {
            let app1: Vec<Vec<u8>> =
                jpeg.segments_by_marker(0xe1).map(|s| s.contents().to_vec()).collect();
            assert_eq!(app1, vec![b"Exif\0\0\x01\x02\x03".to_vec()]);
            let app2: Vec<Vec<u8>> =
                jpeg.segments_by_marker(0xe2).map(|s| s.contents().to_vec()).collect();
            assert_eq!(app2.len(), 2);
            assert!(app2[0].starts_with(b"ICC_PROFILE\0\x01\x02"));
            assert_eq!(app2[0].len(), 14 + 65519);
            assert_eq!(app2[1], b"ICC_PROFILE\0\x02\x02\x09".to_vec());
        }
        other => panic!("{:?}", other),
    }
}

#[test]
fn an_empty_extension_says_nothing() {
    assert_eq!(path_to_ask("a/b.png"), "a/b.png");
    assert_eq!(path_to_ask("a/b."), "");
    assert_eq!(path_to_ask("a/.png"), "");
    assert_eq!(path_to_ask("a/.."), "");
}

#[test]
fn blocks_without_orientation_stay_as_they_are() {
    for chunk in [
        Vec::new(),
        b"II*\0".to_vec(),
        exif_chunk_with_orientation(0),
        exif_chunk_with_orientation(9),
    ] {
        let mut cleared = chunk.clone();
        assert_eq!(clear_orientation(&mut cleared), None);
        assert_eq!(cleared, chunk);
    }
}

#[test]
fn decoding_turns_the_picture_and_resets_the_tag() {
    let img = DynamicImage::ImageRgb8(noisy_image(6, 4));
    for (number, shown) in [(1, (6, 4)), (3, (6, 4)), (6, (4, 6)), (8, (4, 6)), (5, (4, 6))] {
        let meta = SourceMetadata {
            exif: Some(exif_chunk_with_orientation(number)),
            icc: Some(b"profile".to_vec()),
        };
        let file = attach_metadata(encode_to_bytes(&img, &options("png")).unwrap(), &meta);
        let (turned, carried) = decode_oriented("a.png", &file).unwrap();
        assert_eq!((turned.width(), turned.height()), shown, "orientation {}", number);
        let mut expected = img.clone();
        expected.apply_orientation(Orientation::from_exif(number as u8).unwrap());
        assert_eq!(turned.to_rgb8(), expected.to_rgb8());
        assert_eq!(carried.exif, Some(exif_chunk_with_orientation(1)));
        assert_eq!(carried.icc, Some(b"profile".to_vec()));

        // The file list shows the size that the output will have.
        let info = read_image_info("/x/a.png", Ok(file.clone()), Ok(7)).unwrap();
        assert_eq!((info.width, info.height), shown);
        assert_eq!(info.path, "/x/a.png");
        assert_eq!(info.name, "a.png");
        assert_eq!(info.format, "PNG");
        assert_eq!(info.size_bytes, 7);
    }
}

#[test]
fn what_was_read_is_put_together() {
    let img = DynamicImage::ImageRgb8(noisy_image(5, 2));
    let contents = Contents {
        orientation: Some(8),
        exif: Some(Some(exif_chunk_with_orientation(8))),
        icc: None,
        image: Ok(img.clone()),
    };
    let (turned, meta) = orient(contents).unwrap();
    assert_eq!((turned.width(), turned.height()), (2, 5));
    assert_eq!(turned.to_rgb8(), img.rotate270().to_rgb8());
    assert_eq!(meta.exif, Some(exif_chunk_with_orientation(1)));
    assert_eq!(meta.icc, None);

    // Metadata and orientation that cannot be read do not matter.
    let contents = Contents {
        orientation: None,
        exif: None,
        icc: Some(Some(vec![1, 2])),
        image: Ok(img.clone()),
    };
    let (turned, meta) = orient(contents).unwrap();
    assert_eq!(turned, img);
    assert_eq!(meta.exif, None);
    assert_eq!(meta.icc, Some(vec![1, 2]));

    let contents = Contents {
        orientation: Some(6),
        exif: Some(None),
        icc: Some(None),
        image: Err("no pixels".to_string()),
    };
    assert_eq!(orient(contents).err(), Some("no pixels".to_string()));
}

#[test]
fn content_decides_the_format_before_the_extension() {
    let img = DynamicImage::ImageRgb8(noisy_image(3, 5));
    let png = encode_to_bytes(&img, &options("png")).unwrap();
    assert!(decode_oriented("picture.jpg", &png).is_ok());
    assert!(decode_oriented("picture", &png).is_ok());
    let info = read_image_info("dir/picture", Ok(png.clone()), Ok(1)).unwrap();
    assert_eq!((info.width, info.height), (3, 5));
    assert_eq!(info.name, "picture");
    assert_eq!(info.format, "UNKNOWN");

    // TGA has no signature, so the extension decides.
    let mut tga = Cursor::new(Vec::new());
    img.write_to(&mut tga, image::ImageFormat::Tga).unwrap();
    let tga = tga.into_inner();
    assert!(decode_oriented("picture.TGA", &tga).is_ok());
    assert!(decode_oriented("picture.png", &tga).is_err());
}

#[test]
fn unreadable_files_say_why() {
    let junk = b"not an image".to_vec();
    let reason = |path: &str| decode_oriented(path, &junk).err().unwrap();
    assert_eq!(
        reason("notes.txt"),
        "The file extension `.\"txt\"` was not recognized as an image format"
    );
    assert_eq!(reason("notes"), "The image format could not be determined");
    assert_eq!(reason("notes."), "The image format could not be determined");

    let info = |file: Result<Vec<u8>, String>, size: Result<u64, String>| {
        read_image_info("notes", file, size).err().unwrap()
    };
    assert_eq!(
        info(Err("gone".to_string()), Ok(0)),
        "Failed to open image: gone"
    );
    assert_eq!(
        info(Ok(junk.clone()), Ok(0)),
        "Failed to read image: The image format could not be determined"
    );
    let img = DynamicImage::new_rgb8(1, 1);
    let png = encode_to_bytes(&img, &options("png")).unwrap();
    assert_eq!(
        info(Ok(png.clone()), Err("denied".to_string())),
        "Failed to read metadata: denied"
    );
    let truncated = png[..20].to_vec();
    assert!(info(Ok(truncated), Ok(0)).starts_with("Failed to read image: "));
}

#[test]
fn resetting_the_orientation_changes_two_bytes_at_most() {
    for number in 1..=8 {
        let chunk = exif_chunk_with_orientation(number);
        let mut cleared = chunk.clone();
        assert!(clear_orientation(&mut cleared).is_some());
        assert_eq!(cleared.len(), chunk.len());
        assert_eq!(cleared, exif_chunk_with_orientation(1));
        let changed = cleared.iter().zip(&chunk).filter(|(a, b)| a != b).count();
        assert!(changed <= 2);
    }
}

#[test]
fn files_of_other_formats_are_read_as_well() {
    let rgb = DynamicImage::ImageRgb8(noisy_image(5, 3));
    for (name, format, img) in [
        ("a.exr", image::ImageFormat::OpenExr, DynamicImage::ImageRgb32F(rgb.to_rgb32f())),
        ("a.hdr", image::ImageFormat::Hdr, DynamicImage::ImageRgb32F(rgb.to_rgb32f())),
        ("a.qoi", image::ImageFormat::Qoi, rgb.clone()),
        ("a.tga", image::ImageFormat::Tga, rgb.clone()),
    ] {
        let mut buf = Cursor::new(Vec::new());
        img.write_to(&mut buf, format).unwrap();
        let (decoded, meta) = decode_oriented(name, &buf.into_inner()).unwrap();
        assert_eq!((decoded.width(), decoded.height()), (5, 3), "{}", name);
        assert!(meta.is_empty());
    }
}

fn jpeg_of(markers: &[u8], contents: &[&[u8]]) -> img_parts::DynImage {
    let mut file = vec![0xff, 0xd8];
    for (marker, bytes) in markers.iter().zip(contents) {
        file.extend_from_slice(&[0xff, *marker]);
        file.extend_from_slice(&(bytes.len() as u16 + 2).to_be_bytes());
        file.extend_from_slice(bytes);
    }
    file.extend_from_slice(&[0xff, 0xd9]);
    img_parts::DynImage::from_bytes(file.into()).unwrap().unwrap()
}

fn segments_of(image: img_parts::DynImage) -> Vec<(u8, Vec<u8>)> {
    match image {
        img_parts::DynImage::Jpeg(jpeg) => jpeg
            .segments()
            .iter()
            .map(|s| (s.marker(), s.contents().to_vec()))
            .collect(),
        _ => panic!("not a JPEG"),
    }
}

#[test]
fn blocks_have_their_place_in_a_jpeg() {
    let meta = SourceMetadata {
        exif: Some(vec![7]),
        icc: Some(vec![9]),
    };
    let exif = (0xe1, b"Exif\0\0\x07".to_vec());
    let icc = (0xe2, b"ICC_PROFILE\0\x01\x01\x09".to_vec());

    // after the APP0 segments, and after the third segment
    let image = jpeg_of(&[0xe0, 0xe0, 0xfe, 0xdb, 0xc0], &[b"a", b"b", b"c", b"d", b"e"]);
    assert_eq!(
        segments_of(insert_metadata(image, &meta)),
        vec![
            (0xe0, b"a".to_vec()),
            (0xe0, b"b".to_vec()),
            exif.clone(),
            icc.clone(),
            (0xfe, b"c".to_vec()),
            (0xdb, b"d".to_vec()),
            (0xc0, b"e".to_vec()),
        ]
    );

    // in the place of the old ones, and in front of the frame
    let image = jpeg_of(
        &[0xfe, 0xe1, 0xe1, 0xe2, 0xc0, 0xfe],
        &[b"a", b"Exif\0\0old", b"Exif\0\0old", b"ICC_PROFILE\0\x01\x01old", b"b", b"c"],
    );
    assert_eq!(
        segments_of(insert_metadata(image, &meta)),
        vec![
            (0xfe, b"a".to_vec()),
            exif,
            icc,
            (0xc0, b"b".to_vec()),
            (0xfe, b"c".to_vec()),
        ]
    );
}

#[test]
fn a_short_jpeg_header_is_kept_beside_the_blocks() {
    let plain = encode_to_bytes(&DynamicImage::ImageRgb8(noisy_image(8, 8)), &options("jpg")).unwrap();
    let mut odd = vec![0xff, 0xd8, 0xff, 0xe0, 0x00, 0x06, 1, 2, 3, 4];
    odd.extend_from_slice(&plain[2..]);
    let exif = exif_chunk_with_orientation(1);
    let meta = SourceMetadata { exif: Some(exif.clone()), icc: None };
    assert!(can_attach(&odd, &meta));
    let done = attach_metadata(odd, &meta);
    let image = img_parts::DynImage::from_bytes(done.into()).unwrap().unwrap();
    assert_eq!(img_parts::ImageEXIF::exif(&image).unwrap().to_vec(), exif);
    assert_eq!(segments_of(image)[0], (0xe0, vec![1, 2, 3, 4]));
}
