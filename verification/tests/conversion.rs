use image::{DynamicImage, ImageDecoder, ImageReader};
use pasture_panda::convert::{
    encode_file, encode_picture, finish_encoding, settle, start_conversion, Encoded,
};
use pasture_panda::{
    assign, attach_metadata, convert_single_image, encode_to_bytes, get_output_path,
    resume_output_path, summarise, task_failed, temp_path_for, Action, Assignment,
    ConversionOptions, ConversionResult, ConversionStep, OutputMode, PathStep, Reserved,
    SourceMetadata,
};
use std::collections::BTreeMap;
use std::io::Cursor;

fn options(format: &str, output_mode: OutputMode) -> ConversionOptions {
    ConversionOptions {
        format: format.to_string(),
        quality: 85,
        output_mode,
        output_folder: None,
        preserve_metadata: true,
    }
}

fn noisy_image(width: u32, height: u32) -> image::RgbImage {
    let mut state: u32 = 0x1234_5678;
    let mut next = || {
        state = state.wrapping_mul(1_664_525).wrapping_add(1_013_904_223);
        (state >> 24) as u8
    };

    let mut img = image::RgbImage::new(width, height);
    for (x, y, px) in img.enumerate_pixels_mut() {
        let base_r = (x * 255 / width.max(1)) as u8;
        let base_g = (y * 255 / height.max(1)) as u8;
        *px = image::Rgb([
            base_r.wrapping_add(next() / 2),
            base_g.wrapping_add(next() / 2),
            next(),
        ]);
    }
    img
}

fn exif_chunk_with_orientation(exif_orientation: u16) -> Vec<u8> {
    let mut chunk: Vec<u8> = Vec::new();
    chunk.extend_from_slice(b"II*\0");
    chunk.extend_from_slice(&8u32.to_le_bytes());
    chunk.extend_from_slice(&2u16.to_le_bytes());
    chunk.extend_from_slice(&0x0112u16.to_le_bytes());
    chunk.extend_from_slice(&3u16.to_le_bytes());
    chunk.extend_from_slice(&1u32.to_le_bytes());
    chunk.extend_from_slice(&exif_orientation.to_le_bytes());
    chunk.extend_from_slice(&0u16.to_le_bytes());
    chunk.extend_from_slice(&0x010Eu16.to_le_bytes());
    chunk.extend_from_slice(&2u16.to_le_bytes());
    chunk.extend_from_slice(&4u32.to_le_bytes());
    chunk.extend_from_slice(b"ab\0\0");
    chunk.extend_from_slice(&0u32.to_le_bytes());
    chunk
}

fn read_back_exif(bytes: &[u8]) -> Option<Vec<u8>> {
    let mut decoder = ImageReader::new(Cursor::new(bytes))
        .with_guessed_format()
        .unwrap()
        .into_decoder()
        .unwrap();
    decoder.exif_metadata().ok().flatten()
}

/// A disk in memory, on which single operations can be made to fail.
#[derive(Default)]
struct Disk {
    files: BTreeMap<String, Vec<u8>>,
    refuse: Vec<String>,
    log: Vec<String>,
}

impl Disk {
    fn with(path: &str, bytes: Vec<u8>) -> Disk {
        let mut disk = Disk::default();
        disk.files.insert(path.to_string(), bytes);
        disk
    }

    fn read(&self, path: &str) -> Result<Vec<u8>, String> {
        match self.files.get(path) {
            Some(bytes) => Ok(bytes.clone()),
            None => Err("no such file".to_string()),
        }
    }

    fn perform(&mut self, action: Action) -> Result<(), String> {
        let what = match &action {
            Action::Write(..) => "write",
            Action::Rename(..) => "rename",
            Action::Remove(..) => "remove",
        };
        self.log.push(what.to_string());
        let refused = self.refuse.iter().any(|r| r == what);
        match action {
            Action::Write(path, bytes) => {
                // A failed write can leave a part of the file behind.
                let kept = if refused { bytes.len() / 2 } else { bytes.len() };
                self.files.insert(path.to_string(), bytes[..kept].to_vec());
            }
            Action::Rename(from, to) if !refused => {
                let bytes = self.files.remove(from).unwrap();
                self.files.insert(to.to_string(), bytes);
            }
            Action::Remove(path) if !refused => {
                self.files.remove(path);
            }
            _ => {}
        }
        if refused {
            Err(format!("{} refused", what))
        } else {
            Ok(())
        }
    }

    fn convert(&mut self, input: &str, output: &str, opts: &ConversionOptions) -> ConversionResult {
        let file = self.read(input);
        let step = convert_single_image(input, output.to_string(), opts, file);
        self.finish(step.expect("the result fits its format"))
    }

    fn finish(&mut self, step: ConversionStep) -> ConversionResult {
        let mut step = step;
        loop {
            step = match step {
                ConversionStep::Done(result) => return result,
                ConversionStep::Perform(conversion) => {
                    let result = self.perform(conversion.action());
                    conversion.advance(result)
                }
            };
        }
    }

    fn paths(&self) -> Vec<&str> {
        self.files.keys().map(|k| k.as_str()).collect()
    }
}

fn png(width: u32, height: u32) -> Vec<u8> {
    let mut buf = Cursor::new(Vec::new());
    DynamicImage::new_rgb8(width, height)
        .write_to(&mut buf, image::ImageFormat::Png)
        .expect("write png");
    buf.into_inner()
}

fn dimensions_of(bytes: &[u8]) -> (u32, u32) {
    ImageReader::new(Cursor::new(bytes))
        .with_guessed_format()
        .unwrap()
        .into_dimensions()
        .unwrap()
}

#[test]
fn existing_file_on_disk_is_never_overwritten() {
    let dir = "/scratch";
    let existing = format!("{}/a.png", dir);
    let picture = png(2, 2);
    let mut disk = Disk::with(&existing, picture.clone());
    disk.files.insert(format!("{}/a.tiff", dir), png(4, 4));

    let mut reserved = Reserved::new();
    let opts = options("png", OutputMode::SameFolder);
    let mut step = get_output_path("/scratch/a.tiff", &opts, &mut reserved);
    let out = loop {
        step = match step {
            PathStep::Settled(result) => break result.unwrap(),
            PathStep::Probe(search) => {
                let occupied = disk.files.contains_key(&search.candidate());
                assert!(search.can_go_on());
                resume_output_path(search, occupied, &mut reserved)
            }
        };
    };

    assert_eq!(out, format!("{}/a_1.png", dir));
    assert!(disk.files.contains_key(&existing), "pre-existing file must survive planning");

    // And it survives the conversion as well.
    assert!(disk.convert("/scratch/a.tiff", &out, &opts).success);
    assert_eq!(disk.read(&existing), Ok(picture));
    assert_eq!(dimensions_of(&disk.read(&out).unwrap()), (4, 4));
}

#[test]
fn replace_in_place_leaves_a_valid_image_and_no_temp_files() {
    let target = "/scratch/photo.png";
    let mut disk = Disk::with(target, png(4, 6));

    let opts = options("png", OutputMode::ReplaceOriginal);
    let input = target.to_string();
    let mut reserved = Reserved::new();
    let out = match get_output_path(&input, &opts, &mut reserved) {
        PathStep::Settled(result) => result.unwrap(),
        PathStep::Probe(_) => panic!("nothing to look at"),
    };
    assert_eq!(out, input, "same-format replace should target the input");

    let result = disk.convert(&input, &out, &opts);
    assert!(result.success, "conversion failed: {:?}", result.error);

    // The replacement must be a readable image, not a truncated file.
    assert_eq!(dimensions_of(&disk.files[target]), (4, 6));
    assert_eq!(disk.paths(), vec![target], "staging files left behind");
}

/// JPEG cannot encode a dimension above 65535, so a very wide source decodes fine and then
/// fails during encoding. Replacing points the destination at the input, so nothing may have
/// touched it by then.
#[test]
fn encode_failure_after_decode_leaves_the_original_intact() {
    let target = "/scratch/wide.png";
    let before = png(70_000, 1);
    let mut disk = Disk::with(target, before.clone());

    let opts = options("jpg", OutputMode::ReplaceOriginal);

    // Aim the destination at the input directly to reproduce the in-place case.
    let result = disk.convert(target, target, &opts);

    assert!(!result.success, "oversized JPEG encode should fail");
    assert!(disk.files.contains_key(target), "original must still exist");
    assert_eq!(
        disk.files[target], before,
        "original must be byte-identical after a failed conversion"
    );
    assert_eq!(disk.paths(), vec![target], "staging files left behind");
    let error = result.error.unwrap();
    assert!(error.starts_with("Failed to save image: "), "got: {}", error);
    assert!(error.contains("Invalid image size"), "got: {}", error);
}

#[test]
fn unsupported_format_fails_without_touching_the_destination() {
    let target = "/scratch/photo.png";
    let before = png(3, 3);
    let mut disk = Disk::with(target, before.clone());

    let opts = options("heic", OutputMode::ReplaceOriginal);
    let result = disk.convert(target, target, &opts);

    assert!(!result.success, "unsupported format should fail");
    assert_eq!(disk.files[target], before);
    assert_eq!(
        result.error,
        Some("Failed to save image: Unsupported format: heic".to_string())
    );
    assert!(disk.log.is_empty());
}

/// End-to-end through the real conversion entry point, which exercises the metadata read
/// side too.
#[test]
fn metadata_travels_from_source_file_to_converted_output() {
    // Build a source JPEG that genuinely carries EXIF and an ICC profile.
    let img = DynamicImage::ImageRgb8(noisy_image(48, 48));
    let seed = options("jpg", OutputMode::SameFolder);
    let planted = SourceMetadata {
        exif: Some(exif_chunk_with_orientation(1)),
        icc: Some(b"planted-icc-profile".to_vec()),
    };
    let source = attach_metadata(encode_to_bytes(&img, &seed).unwrap(), &planted);
    let mut disk = Disk::with("/scratch/source.jpg", source);

    // Convert it to PNG, a different container entirely.
    let opts = options("png", OutputMode::SameFolder);
    let dest = "/scratch/source.png";
    let result = disk.convert("/scratch/source.jpg", dest, &opts);
    assert!(result.success, "conversion failed: {:?}", result.error);

    let exif = read_back_exif(&disk.files[dest]).expect("exif should reach the output");
    assert!(
        exif.windows(2).any(|w| w == [0x0E, 0x01]),
        "ImageDescription should have travelled across formats"
    );

    let mut decoder = ImageReader::new(Cursor::new(&disk.files[dest]))
        .with_guessed_format()
        .unwrap()
        .into_decoder()
        .unwrap();
    assert_eq!(
        decoder.icc_profile().ok().flatten().as_deref(),
        Some(b"planted-icc-profile".as_slice()),
        "icc profile should have travelled too"
    );
}

#[test]
fn conversion_with_preserving_off_strips_source_metadata() {
    let img = DynamicImage::ImageRgb8(noisy_image(32, 32));
    let seed = options("jpg", OutputMode::SameFolder);
    let planted = SourceMetadata {
        exif: Some(exif_chunk_with_orientation(1)),
        icc: None,
    };
    let source = attach_metadata(encode_to_bytes(&img, &seed).unwrap(), &planted);
    assert!(read_back_exif(&source).is_some(), "source should have exif");
    let mut disk = Disk::with("/scratch/source.jpg", source);

    let mut opts = options("jpg", OutputMode::SameFolder);
    opts.preserve_metadata = false;
    let dest = "/scratch/stripped-out.jpg";
    let result = disk.convert("/scratch/source.jpg", dest, &opts);
    assert!(result.success, "conversion failed: {:?}", result.error);
    assert!(
        read_back_exif(&disk.files[dest]).is_none(),
        "metadata must not appear when preserving is off"
    );
}

#[test]
fn replacing_with_another_format_drops_the_original_last() {
    let mut disk = Disk::with("/p/a.png", png(2, 2));
    let opts = options("gif", OutputMode::ReplaceOriginal);
    let result = disk.convert("/p/a.png", "/p/a.gif", &opts);
    assert!(result.success);
    assert_eq!(result.input_path, "/p/a.png");
    assert_eq!(result.output_path, Some("/p/a.gif".to_string()));
    assert_eq!(result.error, None);
    assert_eq!(disk.paths(), vec!["/p/a.gif"]);
    assert_eq!(disk.log, vec!["write", "rename", "remove"]);

    // An original that cannot be removed is no failure.
    let mut disk = Disk::with("/p/a.png", png(2, 2));
    disk.refuse.push("remove".to_string());
    let result = disk.convert("/p/a.png", "/p/a.gif", &opts);
    assert!(result.success);
    assert_eq!(disk.paths(), vec!["/p/a.gif", "/p/a.png"]);

    // One path written in two ways is one path.
    let mut disk = Disk::with("/p/a.png", png(2, 2));
    let result = disk.convert("/p/a.png", "/p//a.png", &opts);
    assert!(result.success);
    assert_eq!(disk.log, vec!["write", "rename"]);
}

#[test]
fn originals_stay_unless_they_are_to_be_replaced() {
    for mode in [OutputMode::SameFolder, OutputMode::CustomFolder] {
        let before = png(2, 2);
        let mut disk = Disk::with("/p/a.png", before.clone());
        let result = disk.convert("/p/a.png", "/q/a.bmp", &options("bmp", mode));
        assert!(result.success);
        assert_eq!(disk.files["/p/a.png"], before);
        assert_eq!(disk.paths(), vec!["/p/a.png", "/q/a.bmp"]);
    }
}

#[test]
fn a_write_that_fails_is_cleaned_up() {
    let before = png(2, 2);
    let mut disk = Disk::with("/p/a.png", before.clone());
    disk.refuse.push("write".to_string());
    let opts = options("png", OutputMode::ReplaceOriginal);
    let result = disk.convert("/p/a.png", "/p/a.png", &opts);
    assert!(!result.success);
    assert_eq!(result.output_path, None);
    assert_eq!(result.error, Some("Failed to save image: write refused".to_string()));
    assert_eq!(disk.paths(), vec!["/p/a.png"]);
    assert_eq!(disk.files["/p/a.png"], before);
    assert_eq!(disk.log, vec!["write", "remove"]);
}

#[test]
fn a_rename_that_fails_is_cleaned_up() {
    let before = png(2, 2);
    let mut disk = Disk::with("/p/a.png", before.clone());
    disk.refuse.push("rename".to_string());
    let opts = options("gif", OutputMode::ReplaceOriginal);
    let result = disk.convert("/p/a.png", "/p/a.gif", &opts);
    assert!(!result.success);
    assert_eq!(
        result.error,
        Some("Failed to write /p/a.gif: rename refused".to_string())
    );
    assert_eq!(disk.paths(), vec!["/p/a.png"]);
    assert_eq!(disk.files["/p/a.png"], before);
    assert_eq!(disk.log, vec!["write", "rename", "remove"]);
}

#[test]
fn a_file_that_cannot_be_opened_fails() {
    let mut disk = Disk::default();
    let opts = options("png", OutputMode::SameFolder);
    let result = disk.convert("/p/a.jpg", "/p/a.png", &opts);
    assert!(!result.success);
    assert_eq!(
        result.error,
        Some("Failed to open image: no such file".to_string())
    );
    let mut disk = Disk::with("/p/a.txt", b"words".to_vec());
    let result = disk.convert("/p/a.txt", "/p/a.png", &opts);
    assert_eq!(
        result.error,
        Some(
            "Failed to open image: The file extension `.\"txt\"` was not recognized as an image format"
                .to_string()
        )
    );
    assert_eq!(disk.paths(), vec!["/p/a.txt"]);
}

#[test]
fn the_encode_is_staged_first() {
    let opts = options("png", OutputMode::SameFolder);
    let step = start_conversion("/p/in.gif", "/p/out.png".to_string(), &opts, Encoded::Ready(vec![1, 2]));
    let conversion = match step {
        Some(ConversionStep::Perform(conversion)) => conversion,
        other => panic!("{:?}", other),
    };
    let temp = temp_path_for("/p/out.png", "/p/in.gif");
    assert!(matches!(
        conversion.action(),
        Action::Write(path, bytes) if path == temp && bytes == &vec![1, 2]
    ));
    let conversion = match conversion.advance(Ok(())) {
        ConversionStep::Perform(conversion) => conversion,
        other => panic!("{:?}", other),
    };
    assert!(matches!(
        conversion.action(),
        Action::Rename(from, to) if from == temp && to == "/p/out.png"
    ));
    assert!(matches!(
        conversion.advance(Ok(())),
        ConversionStep::Done(result) if result.success
    ));
    for encoded in [Encoded::TooLarge, Encoded::Malformed] {
        assert!(start_conversion("a", "b".to_string(), &opts, encoded).is_none());
    }
    let step = start_conversion("a", "b".to_string(), &opts, Encoded::Failed("why".to_string()));
    assert!(matches!(
        step,
        Some(ConversionStep::Done(result)) if result.error == Some("why".to_string())
    ));
}

#[test]
fn encodes_are_finished_as_the_options_ask() {
    let meta = SourceMetadata {
        exif: Some(exif_chunk_with_orientation(1)),
        icc: None,
    };
    let kept = options("png", OutputMode::SameFolder);
    let mut stripped = options("png", OutputMode::SameFolder);
    stripped.preserve_metadata = false;

    let plain = png(2, 2);
    assert!(matches!(
        finish_encoding(Ok(plain.clone()), &meta, &stripped),
        Encoded::Ready(bytes) if bytes == plain
    ));
    assert!(matches!(
        finish_encoding(Ok(plain.clone()), &meta, &kept),
        Encoded::Ready(bytes) if bytes == attach_metadata(plain.clone(), &meta) && bytes != plain
    ));
    assert!(matches!(
        finish_encoding(Ok(vec![1, 2]), &meta, &kept),
        Encoded::Ready(bytes) if bytes == vec![1, 2]
    ));
    assert!(matches!(
        finish_encoding(Err("no".to_string()), &meta, &kept),
        Encoded::Failed(message) if message == "Failed to save image: no"
    ));
}

#[test]
fn turned_pictures_come_out_upright() {
    let img = DynamicImage::ImageRgb8(noisy_image(8, 5));
    let opts = options("png", OutputMode::SameFolder);
    let meta = SourceMetadata {
        exif: Some(exif_chunk_with_orientation(6)),
        icc: None,
    };
    let source = attach_metadata(encode_to_bytes(&img, &opts).unwrap(), &meta);
    let converted = match encode_file("a.png", Ok(source), &opts) {
        Encoded::Ready(bytes) => bytes,
        other => panic!("{:?}", other),
    };
    let decoded = image::load_from_memory(&converted).unwrap();
    assert_eq!(decoded.to_rgb8(), img.rotate90().to_rgb8());
    assert_eq!(read_back_exif(&converted), Some(exif_chunk_with_orientation(1)));
}

#[test]
fn formats_without_metadata_convert_as_if_it_were_stripped() {
    let img = DynamicImage::ImageRgb8(noisy_image(8, 5));
    let seed = options("jpg", OutputMode::SameFolder);
    let meta = SourceMetadata {
        exif: Some(exif_chunk_with_orientation(1)),
        icc: Some(vec![5; 40]),
    };
    let source = attach_metadata(encode_to_bytes(&img, &seed).unwrap(), &meta);
    for format in ["gif", "bmp", "tiff"] {
        let kept = options(format, OutputMode::SameFolder);
        let mut stripped = options(format, OutputMode::SameFolder);
        stripped.preserve_metadata = false;
        let bytes = |opts: &ConversionOptions| match encode_file("a.jpg", Ok(source.clone()), opts) {
            Encoded::Ready(bytes) => bytes,
            other => panic!("{:?}", other),
        };
        assert_eq!(bytes(&kept), bytes(&stripped), "{}", format);
    }
}

fn result(success: bool) -> ConversionResult {
    ConversionResult {
        success,
        input_path: "in".to_string(),
        output_path: None,
        error: None,
    }
}

#[test]
fn a_batch_is_added_up() {
    let batch = summarise(vec![result(true), result(false), result(true)]);
    assert_eq!((batch.total, batch.succeeded, batch.failed), (3, 2, 1));
    let successes: Vec<bool> = batch.results.iter().map(|r| r.success).collect();
    assert_eq!(successes, vec![true, false, true]);
    let empty = summarise(Vec::new());
    assert_eq!((empty.total, empty.succeeded, empty.failed), (0, 0, 0));
}

#[test]
fn a_batch_whose_task_fails_fails_for_every_input() {
    let inputs = ["a".to_string(), "b".to_string()];
    let results = task_failed(&inputs, "cancelled");
    let told: Vec<(bool, &str, Option<&str>)> = results
        .iter()
        .map(|r| (r.success, r.input_path.as_str(), r.error.as_deref()))
        .collect();
    assert_eq!(
        told,
        vec![
            (false, "a", Some("Conversion task failed: cancelled")),
            (false, "b", Some("Conversion task failed: cancelled")),
        ]
    );
}

#[test]
fn inputs_without_a_destination_are_refused() {
    assert!(matches!(
        assign("in", Ok("out".to_string())),
        Assignment::Convert(output) if output == "out"
    ));
    match assign("in", Err("no room".to_string())) {
        Assignment::Refused(refused) => {
            assert!(!refused.success);
            assert_eq!(refused.input_path, "in");
            assert_eq!(refused.output_path, None);
            assert_eq!(refused.error, Some("no room".to_string()));
        }
        Assignment::Convert(_) => panic!("must not be converted"),
    }
}

#[test]
fn pictures_with_longer_buffers_are_not_encoded() {
    let buffer = image::RgbImage::from_raw(1, 1, vec![9; 6]).unwrap();
    let img = DynamicImage::ImageRgb8(buffer);
    let meta = SourceMetadata::default();
    for format in ["png", "jpg", "bmp", "gif", "tiff", "avif"] {
        let opts = options(format, OutputMode::SameFolder);
        assert!(matches!(encode_picture(&img, &meta, &opts), Encoded::Malformed), "{}", format);
    }
    // libwebp reads the pixels alone, and a format that is not known asks for no buffer.
    let opts = options("webp", OutputMode::SameFolder);
    assert!(matches!(encode_picture(&img, &meta, &opts), Encoded::Ready(_)));
    let opts = options("heic", OutputMode::SameFolder);
    assert!(matches!(
        encode_picture(&img, &meta, &opts),
        Encoded::Failed(e) if e == "Failed to save image: Unsupported format: heic"
    ));
}

#[test]
fn results_that_do_not_fit_are_failures() {
    match settle("/p/in.png", None) {
        ConversionStep::Done(result) => {
            assert!(!result.success);
            assert_eq!(result.input_path, "/p/in.png");
            assert_eq!(result.output_path, None);
            assert_eq!(
                result.error,
                Some("Failed to save image: the metadata does not fit".to_string())
            );
        }
        other => panic!("{:?}", other),
    }
    let opts = options("png", OutputMode::SameFolder);
    let file = Ok(png(3, 2));
    let start = convert_single_image("/p/in.png", "/p/out.png".to_string(), &opts, file);
    assert!(matches!(
        settle("/p/in.png", start),
        ConversionStep::Perform(conversion)
            if matches!(conversion.action(), Action::Write(_, bytes) if dimensions_of(bytes) == (3, 2))
    ));
}
