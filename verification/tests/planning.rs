use pasture_panda::planning::Planner;
use pasture_panda::{
    get_output_path, plan_output_paths, resume_output_path, temp_path_for, ConversionOptions,
    OutputMode, PathStep, Reserved,
};
use std::hash::{DefaultHasher, Hash, Hasher};
use std::path::Path;

fn options(format: &str, output_mode: OutputMode) -> ConversionOptions {
    ConversionOptions {
        format: format.to_string(),
        quality: 85,
        output_mode,
        output_folder: None,
        preserve_metadata: true,
    }
}

fn into_folder(format: &str, folder: &str) -> ConversionOptions {
    let mut opts = options(format, OutputMode::CustomFolder);
    opts.output_folder = Some(folder.to_string());
    opts
}

/// Chooses a destination where the given files exist.
fn settle(
    input: &str,
    opts: &ConversionOptions,
    reserved: &mut Reserved,
    files: &[&str],
) -> Result<String, String> {
    let mut step = get_output_path(input, opts, reserved);
    loop {
        step = match step {
            PathStep::Settled(result) => return result,
            PathStep::Probe(search) => {
                let occupied = files.contains(&search.candidate().as_str());
                assert!(search.can_go_on());
                resume_output_path(search, occupied, reserved)
            }
        };
    }
}

/// Plans a batch where the given files exist.
fn plan(paths: &[String], opts: &ConversionOptions, files: &[&str]) -> Vec<Result<String, String>> {
    let mut planner: Planner = plan_output_paths(paths, opts);
    while let Some(candidate) = planner.probe() {
        assert!(planner.can_go_on());
        planner.answer(files.contains(&candidate.as_str()));
    }
    planner.finish()
}

fn strings(texts: &[&str]) -> Vec<String> {
    texts.iter().map(|t| t.to_string()).collect()
}

#[test]
fn same_folder_keeps_stem_and_swaps_extension() {
    let mut reserved = Reserved::new();
    let out = settle(
        "/photos/holiday.png",
        &options("webp", OutputMode::SameFolder),
        &mut reserved,
        &[],
    )
    .unwrap();
    assert_eq!(out, "/photos/holiday.webp");
}

#[test]
fn jpeg_and_jpg_both_normalise_to_jpg() {
    let mut reserved = Reserved::new();
    for format in ["jpeg", "JPEG", "jpg"] {
        reserved.clear();
        let out = settle(
            "/photos/a.png",
            &options(format, OutputMode::SameFolder),
            &mut reserved,
            &[],
        )
        .unwrap();
        assert_eq!(out, "/photos/a.jpg", "format {}", format);
    }
}

#[test]
fn unsupported_output_format_is_rejected() {
    let mut reserved = Reserved::new();
    let err = settle(
        "/photos/a.png",
        &options("heic", OutputMode::SameFolder),
        &mut reserved,
        &[],
    )
    .unwrap_err();
    assert!(err.contains("Unsupported output format"), "got: {}", err);
}

#[test]
fn custom_folder_redirects_output() {
    let mut reserved = Reserved::new();
    let mut opts = options("png", OutputMode::CustomFolder);
    opts.output_folder = Some("/exports".to_string());
    let out = settle("/photos/deep/a.tiff", &opts, &mut reserved, &[]).unwrap();
    assert_eq!(out, "/exports/a.png");
}

#[test]
fn custom_folder_without_folder_is_an_error() {
    let mut reserved = Reserved::new();
    let err = settle(
        "/photos/a.png",
        &options("png", OutputMode::CustomFolder),
        &mut reserved,
        &[],
    )
    .unwrap_err();
    assert!(err.contains("Custom folder not specified"), "got: {}", err);
}

#[test]
fn batch_collisions_get_distinct_names() {
    let mut reserved = Reserved::new();
    let opts = options("png", OutputMode::CustomFolder);
    let mut opts = opts;
    opts.output_folder = Some("/exports".to_string());

    // Two different inputs whose stems collide in one destination folder.
    let first = settle("/a/shot.jpg", &opts, &mut reserved, &[]).unwrap();
    let second = settle("/b/shot.tiff", &opts, &mut reserved, &[]).unwrap();
    assert_eq!(first, "/exports/shot.png");
    assert_eq!(second, "/exports/shot_1.png");
    assert_ne!(first, second);
}

#[test]
fn replace_mode_same_format_targets_the_input_itself() {
    let mut reserved = Reserved::new();
    let out = settle(
        "/photos/a.jpeg",
        &options("jpg", OutputMode::ReplaceOriginal),
        &mut reserved,
        &[],
    )
    .unwrap();
    // .jpeg and .jpg are the same format, so this is an in-place replacement.
    assert_eq!(out, "/photos/a.jpeg");
}

#[test]
fn replace_mode_rejects_two_inputs_claiming_one_destination() {
    let mut reserved = Reserved::new();
    let opts = options("jpg", OutputMode::ReplaceOriginal);

    // a.jpg replaces itself; a.png would then also want to become a.jpg.
    let first = settle("/photos/a.jpg", &opts, &mut reserved, &[]).unwrap();
    assert_eq!(first, "/photos/a.jpg");

    let err = settle("/photos/a.png", &opts, &mut reserved, &[]).unwrap_err();
    assert!(
        err.contains("already writes to"),
        "second claim must fail rather than race: {}",
        err
    );
    assert_eq!(err, "Another file in this batch already writes to /photos/a.jpg");
}

#[test]
fn plan_output_paths_reserves_across_the_whole_batch() {
    let opts = {
        let mut o = options("png", OutputMode::CustomFolder);
        o.output_folder = Some("/exports".to_string());
        o
    };
    let planned = plan(
        &[
            "/a/x.jpg".to_string(),
            "/b/x.jpg".to_string(),
            "/c/x.jpg".to_string(),
        ],
        &opts,
        &[],
    );
    let paths: Vec<String> = planned.into_iter().map(|r| r.unwrap()).collect();
    assert_eq!(
        paths,
        vec!["/exports/x.png", "/exports/x_1.png", "/exports/x_2.png"]
    );
}

#[test]
fn a_plan_skips_files_and_claims_alike() {
    let opts = into_folder("PNG", "/exports/");
    let inputs = strings(&["/a/x.jpg", "/b/x.jpg", "/c/..", "/d/y.bmp"]);
    let planned = plan(&inputs, &opts, &["/exports/x.png", "/exports/x_2.png"]);
    assert_eq!(
        planned,
        vec![
            Ok("/exports/x_1.png".to_string()),
            Ok("/exports/x_3.png".to_string()),
            Err("Invalid input filename".to_string()),
            Ok("/exports/y.png".to_string()),
        ]
    );
}

#[test]
fn destinations_of_a_batch_are_distinct_paths() {
    let opts = into_folder("gif", "out");
    let inputs = strings(&["a/x.png", "b/x.gif", "x", "./x.x", "x_1.png", "y.jpg"]);
    let planned = plan(&inputs, &opts, &["out/x_1.gif"]);
    let paths: Vec<String> = planned.into_iter().map(|r| r.unwrap()).collect();
    for (i, a) in paths.iter().enumerate() {
        assert_ne!(a, "out/x_1.gif");
        for b in &paths[..i] {
            assert_ne!(Path::new(a), Path::new(b));
        }
    }
    assert_eq!(
        paths,
        vec!["out/x.gif", "out/x_2.gif", "out/x_3.gif", "out/x_4.gif", "out/x_1_1.gif", "out/y.gif"]
    );
}

#[test]
fn a_search_counts_past_nine() {
    let opts = options("bmp", OutputMode::SameFolder);
    let files: Vec<String> = (0..12)
        .map(|n| if n == 0 { "x.bmp".to_string() } else { format!("x_{}.bmp", n) })
        .collect();
    let files: Vec<&str> = files.iter().map(|f| f.as_str()).collect();
    let mut reserved = Reserved::new();
    let out = settle("x.png", &opts, &mut reserved, &files).unwrap();
    assert_eq!(out, "x_12.bmp");
}

#[test]
fn replacing_with_another_format_writes_beside_the_input() {
    let mut reserved = Reserved::new();
    let opts = options("webp", OutputMode::ReplaceOriginal);
    // Whatever stands at the destination is no question in this mode.
    let step = get_output_path("/photos/a.b.PNG", &opts, &mut reserved);
    assert!(matches!(step, PathStep::Settled(Ok(ref p)) if p == "/photos/a.b.webp"));
    assert!(reserved.contains("/photos//a.b.webp"));
    assert!(!reserved.contains("/photos/a.b.PNG"));
}

#[test]
fn a_failed_claim_claims_nothing() {
    let mut reserved = Reserved::new();
    reserved.insert("/photos/./a.jpg");
    reserved.insert("/photos/a.jpg");
    let opts = options("jpg", OutputMode::ReplaceOriginal);
    let err = settle("/photos/a.png", &opts, &mut reserved, &[]).unwrap_err();
    assert_eq!(err, "Another file in this batch already writes to /photos/a.jpg");
    assert!(reserved.contains("/photos/a.jpg"));
    assert!(!reserved.contains("/photos/a.png"));
    reserved.clear();
    assert!(!reserved.contains("/photos/a.jpg"));
}

#[test]
fn unusable_requests_say_why() {
    let mut reserved = Reserved::new();
    assert_eq!(
        settle("/", &options("png", OutputMode::SameFolder), &mut reserved, &[]),
        Err("Invalid input filename".to_string())
    );
    assert_eq!(
        settle("a.png", &options("HEIC", OutputMode::SameFolder), &mut reserved, &[]),
        Err("Unsupported output format: heic".to_string())
    );
    assert_eq!(
        settle("a.png", &options("Ünï", OutputMode::SameFolder), &mut reserved, &[]),
        Err("Unsupported output format: ünï".to_string())
    );
    assert_eq!(
        settle("a.png", &options("png", OutputMode::CustomFolder), &mut reserved, &[]),
        Err("Custom folder not specified".to_string())
    );
}

#[test]
fn staging_files_are_hidden_beside_their_destination() {
    let temp = temp_path_for("/photos/out.png", "/photos/in.jpg");
    let path = Path::new(&temp);
    assert_eq!(path.parent(), Some(Path::new("/photos")));
    let name = path.file_name().unwrap().to_str().unwrap();
    assert!(name.starts_with(".out.png."));
    assert!(name.ends_with(".tmp"));
    let hash = &name[".out.png.".len()..name.len() - ".tmp".len()];
    assert_eq!(hash.len(), 16);
    assert!(hash.chars().all(|c| c.is_ascii_digit() || ('a'..='f').contains(&c)));

    let mut hasher = DefaultHasher::new();
    "/photos/in.jpg".hash(&mut hasher);
    assert_eq!(hash, format!("{:016x}", hasher.finish()));

    // Another input for the same destination is staged elsewhere.
    assert_ne!(temp, temp_path_for("/photos/out.png", "/photos/in.gif"));
    assert!(temp_path_for("a.png", "b").starts_with(".a.png."));
    assert!(temp_path_for("/", "b").starts_with("./.output."));
}

#[test]
fn staging_files_of_a_batch_keep_apart() {
    let opts = into_folder("png", "out");
    let inputs = strings(&["a/x.jpg", "b/x.jpg", "c/y.gif"]);
    let planned = plan(&inputs, &opts, &[]);
    let mut seen: Vec<String> = Vec::new();
    for (input, output) in inputs.iter().zip(planned) {
        let output = output.unwrap();
        seen.push(temp_path_for(&output, input));
        seen.push(output);
    }
    for (i, a) in seen.iter().enumerate() {
        assert_eq!(Path::new(a).parent(), Some(Path::new("out")));
        for b in &seen[..i] {
            assert_ne!(Path::new(a), Path::new(b));
        }
    }
}

#[test]
fn a_failed_input_changes_no_other_destination() {
    let opts = options("jpg", OutputMode::ReplaceOriginal);
    let paths = strings(&["/p/a.png", "/p/b.png", "/p/a.gif", "/", "/p/c.jpeg"]);
    let whole = plan(&paths, &opts, &[]);
    for i in 0..paths.len() {
        if whole[i].is_err() {
            let mut fewer_paths = paths.clone();
            fewer_paths.remove(i);
            let mut fewer = whole.clone();
            fewer.remove(i);
            assert_eq!(plan(&fewer_paths, &opts, &[]), fewer, "without {}", paths[i]);
        }
    }
    assert_eq!(whole.iter().filter(|r| r.is_err()).count(), 2);

    let opts = options("png", OutputMode::SameFolder);
    let paths = strings(&["/p/a.gif", "/", "/p/a.jpg", "/p/a.bmp"]);
    let files = ["/p/a_1.png"];
    let whole = plan(&paths, &opts, &files);
    let fewer = plan(&strings(&["/p/a.gif", "/p/a.jpg", "/p/a.bmp"]), &opts, &files);
    assert_eq!(whole[1], Err("Invalid input filename".to_string()));
    assert_eq!(fewer, vec![whole[0].clone(), whole[2].clone(), whole[3].clone()]);
    assert_eq!(fewer[2], Ok("/p/a_3.png".to_string()));
}

#[test]
fn destinations_stay_distinct_while_the_disk_changes() {
    let paths: Vec<String> =
        ["/p/a.png", "/p/a.bmp", "/p/a.gif", "/p/a.tiff"].iter().map(|p| p.to_string()).collect();
    let opts = options("jpg", OutputMode::SameFolder);
    for pattern in 0..256u32 {
        let mut planner: Planner = plan_output_paths(&paths, &opts);
        let mut free: Vec<String> = Vec::new();
        let mut asked: u32 = 0;
        while let Some(candidate) = planner.probe() {
            assert!(planner.can_go_on());
            let occupied = asked < 8 && (pattern >> asked) & 1 == 1;
            asked += 1;
            if !occupied {
                free.push(candidate);
            }
            planner.answer(occupied);
        }
        let planned: Vec<String> = planner.finish().into_iter().map(|r| r.unwrap()).collect();
        assert_eq!(planned.len(), paths.len());
        for (i, path) in planned.iter().enumerate() {
            assert!(free.contains(path));
            for other in &planned[i + 1..] {
                assert_ne!(path, other);
            }
        }
    }
}
