//! What conversions do to files.

use vstd::prelude::*;

use crate::container::{container_file, parsed_container, png_icc_contents};
use crate::convert::{
    action_of, action_state, after, encoded_state, failure_state, first_state, is_encoded_file,
    is_encoded_picture, is_encoded_source, next_state, result_state, settled_start, success_state,
    with_metadata, Action, ConversionState, ConversionStep, Encoded, EncodedState, FileAction,
    NextState, ResultState, StageState,
};
use crate::decode::{
    decoder_refusal, exif_orientation, is_decoded, stored_exif, stored_icc, upright_exif,
};
use crate::decode_laws::{law_blocks_are_handed_on_whole, reads_as};
use crate::encode::{is_encodable_as, is_encoding};
use crate::encode_laws::law_format_names_are_told_apart;
use crate::metadata::{attached_parts, metadata_fits};
use crate::model::{ConversionOptions, ConversionResult, OutputMode};
use crate::path::{path_key, PathKey};
use crate::picture::Picture;
use crate::staging::{law_staging_is_not_the_destination, staging_path, text_hash};
use crate::text::lowercase;

verus! {

/// The files on disk: what each path holds.
pub type Files = Map<PathKey, Seq<u8>>;

/// Whether performing an action on `files` with the given result can leave `later`. A write
/// that fails may leave anything at its path, and touches no other. A rename or removal that
/// fails changes nothing.
pub open spec fn can_leave(
    files: Files,
    action: FileAction,
    result: Result<(), Seq<char>>,
    later: Files,
) -> bool {
    match action {
        FileAction::Write(path, bytes) => match result {
            Ok(_) => later == files.insert(path_key(path), bytes),
            Err(_) => later.remove(path_key(path)) == files.remove(path_key(path)),
        },
        FileAction::Rename(from, to) => match result {
            Ok(_) => files.contains_key(path_key(from)) && later == files.remove(
                path_key(from),
            ).insert(path_key(to), files[path_key(from)]),
            Err(_) => later == files,
        },
        FileAction::Remove(path) => match result {
            Ok(_) => later == files.remove(path_key(path)),
            Err(_) => later == files,
        },
    }
}

/// What the files are while a conversion is under way that found them as `start`.
pub open spec fn in_order(c: ConversionState, start: Files, now: Files) -> bool {
    match c.stage {
        StageState::Writing => now == start,
        StageState::Renaming => now == start.insert(path_key(c.temp), c.bytes),
        StageState::Cleaning(_) => now.remove(path_key(c.temp)) == start.remove(path_key(c.temp)),
        StageState::Dropping => now == start.remove(path_key(c.temp)).insert(
            path_key(c.output),
            c.bytes,
        ) && c.replaces && path_key(c.input) != path_key(c.output),
    }
}

/// What the files are once a conversion is over that found them as `start`. After a failure
/// nothing but the staging file can be other than it was. After a success the destination
/// holds the encode, and nothing else is other than it was, but that the staging file is
/// gone, and the original may be where it was to be replaced by a file at another path.
pub open spec fn left_in_order(
    c: ConversionState,
    start: Files,
    result: ResultState,
    now: Files,
) -> bool {
    let placed = start.remove(path_key(c.temp)).insert(path_key(c.output), c.bytes);
    if result.success {
        ||| now == placed
        ||| c.replaces && path_key(c.input) != path_key(c.output) && now == placed.remove(
            path_key(c.input),
        )
    } else {
        now.remove(path_key(c.temp)) == start.remove(path_key(c.temp))
    }
}

/// Whether a run of a conversion from `now` on, with the given results and the files after
/// each, is possible and ends with `result`.
pub open spec fn ends_with(
    c: ConversionState,
    now: Files,
    run: Seq<(Result<(), Seq<char>>, Files)>,
    result: ResultState,
) -> bool
    decreases run.len(),
{
    &&& run.len() > 0
    &&& can_leave(now, action_of(c), run[0].0, run[0].1)
    &&& match after(c, run[0].0) {
        NextState::Done(r) => r == result && run.len() == 1,
        NextState::Go(next) => ends_with(next, run[0].1, run.skip(1), result),
    }
}

/// Every step of a conversion leaves the files in order.
pub proof fn law_each_step_leaves_files_in_order(
    c: ConversionState,
    start: Files,
    now: Files,
    result: Result<(), Seq<char>>,
    later: Files,
)
    requires
        in_order(c, start, now),
        can_leave(now, action_of(c), result, later),
        path_key(c.temp) != path_key(c.output),
    ensures
        match after(c, result) {
            NextState::Go(next) => in_order(next, start, later) && next == (ConversionState {
                stage: next.stage,
                ..c
            }),
            NextState::Done(r) => left_in_order(c, start, r, later),
        },
        after(c, result) matches NextState::Done(r) ==> (!r.success && result is Ok
            ==> !later.contains_key(path_key(c.temp))),
{
    let temp = path_key(c.temp);
    let output = path_key(c.output);
    match c.stage {
        StageState::Renaming => {
            let placed = start.remove(temp).insert(output, c.bytes);
            assert(start.insert(temp, c.bytes).remove(temp) =~= start.remove(temp));
            if result is Ok {
                assert(now[temp] == c.bytes);
                assert(later =~= placed);
            }
        },
        StageState::Cleaning(_) => {
            assert(now.remove(temp).remove(temp) =~= now.remove(temp));
        },
        _ => {},
    }
}

/// Every finished run leaves the files in order.
proof fn lemma_runs_end_in_order(
    c: ConversionState,
    start: Files,
    now: Files,
    run: Seq<(Result<(), Seq<char>>, Files)>,
    result: ResultState,
)
    requires
        in_order(c, start, now),
        ends_with(c, now, run, result),
        path_key(c.temp) != path_key(c.output),
    ensures
        left_in_order(c, start, result, run.last().1),
        !result.success && run.last().0 is Ok ==> !run.last().1.contains_key(path_key(c.temp)),
    decreases run.len(),
{
    reveal_with_fuel(ends_with, 2);
    law_each_step_leaves_files_in_order(c, start, now, run[0].0, run[0].1);
    if let NextState::Go(next) = after(c, run[0].0) {
        lemma_runs_end_in_order(next, start, run[0].1, run.skip(1), result);
        assert(run.skip(1).last() == run.last());
    }
}

/// A conversion that fails leaves every file but its own staging file as it was, and one
/// that succeeds leaves the encode at the destination, in whatever way the file operations
/// go.
pub proof fn law_conversions_leave_files_in_order(
    c: ConversionState,
    hash: u64,
    start: Files,
    run: Seq<(Result<(), Seq<char>>, Files)>,
    result: ResultState,
)
    requires
        c.stage is Writing,
        c.temp == staging_path(c.output, hash),
        ends_with(c, start, run, result),
    ensures
        left_in_order(c, start, result, run.last().1),
{
    law_staging_is_not_the_destination(c.output, hash);
    lemma_runs_end_in_order(c, start, start, run, result);
}

/// No staging file is left behind: a conversion that succeeds leaves none, and one that fails
/// leaves none where its removal succeeds.
pub proof fn law_no_staging_file_is_left(
    c: ConversionState,
    hash: u64,
    start: Files,
    run: Seq<(Result<(), Seq<char>>, Files)>,
    result: ResultState,
)
    requires
        c.stage is Writing,
        c.temp == staging_path(c.output, hash),
        ends_with(c, start, run, result),
        result.success || run.last().0 is Ok,
    ensures
        !run.last().1.contains_key(path_key(c.temp)),
{
    law_staging_is_not_the_destination(c.output, hash);
    lemma_runs_end_in_order(c, start, start, run, result);
}

/// A conversion that fails leaves the original as it was, unless the original is itself the
/// staging file.
pub proof fn law_failure_leaves_the_original(
    c: ConversionState,
    hash: u64,
    start: Files,
    run: Seq<(Result<(), Seq<char>>, Files)>,
    result: ResultState,
)
    requires
        c.stage is Writing,
        c.temp == staging_path(c.output, hash),
        ends_with(c, start, run, result),
        !result.success,
        path_key(c.input) != path_key(c.temp),
    ensures
        run.last().1.contains_key(path_key(c.input)) == start.contains_key(path_key(c.input)),
        start.contains_key(path_key(c.input)) ==> run.last().1[path_key(c.input)]
            == start[path_key(c.input)],
{
    law_conversions_leave_files_in_order(c, hash, start, run, result);
    let temp = path_key(c.temp);
    let input = path_key(c.input);
    let now = run.last().1;
    assert(now.remove(temp).contains_key(input) == now.contains_key(input));
    assert(start.remove(temp).contains_key(input) == start.contains_key(input));
    if start.contains_key(input) {
        assert(now.remove(temp)[input] == start.remove(temp)[input]);
    }
}

/// The original is removed only once the destination holds the encode.
pub proof fn law_originals_go_only_when_replaced(c: ConversionState, start: Files, now: Files)
    requires
        in_order(c, start, now),
        c.stage is Dropping,
    ensures
        action_of(c) == FileAction::Remove(c.input),
        c.replaces,
        now.contains_key(path_key(c.output)),
        now[path_key(c.output)] == c.bytes,
        path_key(c.input) != path_key(c.output),
{
}

/// An encode carries no metadata that it was not asked to carry.
pub proof fn law_metadata_is_stripped_unless_kept(
    file: Seq<u8>,
    exif: Option<Seq<u8>>,
    icc: Option<Seq<u8>>,
)
    ensures
        with_metadata(Ok(file), false, exif, icc) == EncodedState::Ready(file),
{
}

/// A conversion names its output exactly where it succeeds, and an error exactly where it
/// fails.
pub proof fn law_results_say_what_happened(c: ConversionState, result: Result<(), Seq<char>>)
    ensures
        after(c, result) matches NextState::Done(r) ==> {
            &&& r.input_path == c.input
            &&& r.success == (r.error is None)
            &&& r.success == (r.output_path == Some(c.output))
            &&& r.success == (r.output_path is Some)
        },
{
}

/// The file operations that a run of a conversion performs, in order.
pub open spec fn performed(
    c: ConversionState,
    run: Seq<(Result<(), Seq<char>>, Files)>,
) -> Seq<FileAction>
    decreases run.len(),
{
    if run.len() == 0 {
        Seq::empty()
    } else {
        seq![action_of(c)] + match after(c, run[0].0) {
            NextState::Done(_) => Seq::empty(),
            NextState::Go(next) => performed(next, run.skip(1)),
        }
    }
}

/// A conversion writes the encode to its staging file and renames that to the destination.
/// The original is removed after that exactly where originals are to be replaced and the
/// destination is another path. Where the write or the rename fails, nothing is done but to
/// remove the staging file, and the result tells the operation that failed.
pub proof fn law_conversions_keep_to_the_script(
    input: Seq<char>,
    output: Seq<char>,
    options: ConversionOptions,
    bytes: Seq<u8>,
    c: ConversionState,
    start: Files,
    run: Seq<(Result<(), Seq<char>>, Files)>,
    result: ResultState,
)
    requires
        first_state(input, output, options, EncodedState::Ready(bytes)) == Some(NextState::Go(c)),
        ends_with(c, start, run, result),
    ensures
        ({
            let temp = staging_path(output, text_hash(input));
            let write = FileAction::Write(temp, bytes);
            let rename = FileAction::Rename(temp, output);
            let clean = FileAction::Remove(temp);
            let done = performed(c, run);
            &&& run[0].0 matches Err(e) ==> {
                &&& done == seq![write, clean]
                &&& result == (ResultState {
                    success: false,
                    input_path: input,
                    output_path: None,
                    error: Some("Failed to save image: "@ + e),
                })
            }
            &&& run[0].0 is Ok ==> run.len() > 1 && (run[1].0 matches Err(e) ==> {
                &&& done == seq![write, rename, clean]
                &&& result == (ResultState {
                    success: false,
                    input_path: input,
                    output_path: None,
                    error: Some("Failed to write "@ + output + ": "@ + e),
                })
            })
            &&& run[0].0 is Ok && run[1].0 is Ok ==> {
                &&& options.output_mode == OutputMode::ReplaceOriginal && path_key(input)
                    != path_key(output) ==> done == seq![write, rename, FileAction::Remove(input)]
                &&& !(options.output_mode == OutputMode::ReplaceOriginal && path_key(input)
                    != path_key(output)) ==> done == seq![write, rename]
                &&& result == (ResultState {
                    success: true,
                    input_path: input,
                    output_path: Some(output),
                    error: None,
                })
            }
        }),
{
    reveal_with_fuel(ends_with, 4);
    reveal_with_fuel(performed, 5);
    let rest = run.skip(1);
    if rest.len() > 0 {
        assert(rest[0] == run[1]);
        let last = rest.skip(1);
        assert(last =~= run.skip(2));
        if last.len() > 0 {
            assert(last[0] == run[2]);
            assert(last.skip(1).len() == run.len() - 3);
        }
    }
}

/// Unless originals are to be replaced, every run of a conversion leaves the original as it
/// was, and none of its operations removes it, as long as it is neither the destination nor
/// the staging file itself.
pub proof fn law_originals_stay_unless_replaced(
    input: Seq<char>,
    output: Seq<char>,
    options: ConversionOptions,
    bytes: Seq<u8>,
    c: ConversionState,
    start: Files,
    run: Seq<(Result<(), Seq<char>>, Files)>,
    result: ResultState,
)
    requires
        first_state(input, output, options, EncodedState::Ready(bytes)) == Some(NextState::Go(c)),
        ends_with(c, start, run, result),
        options.output_mode != OutputMode::ReplaceOriginal,
        path_key(input) != path_key(output),
        path_key(input) != path_key(staging_path(output, text_hash(input))),
    ensures
        run.last().1.contains_key(path_key(input)) == start.contains_key(path_key(input)),
        start.contains_key(path_key(input)) ==> run.last().1[path_key(input)]
            == start[path_key(input)],
        forall|i: int, path: Seq<char>|
            0 <= i < performed(c, run).len() && #[trigger] performed(c, run)[i]
                == FileAction::Remove(path) ==> #[trigger] path_key(path) != path_key(input),
{
    law_conversions_keep_to_the_script(input, output, options, bytes, c, start, run, result);
    law_conversions_leave_files_in_order(c, text_hash(input), start, run, result);
    let temp = path_key(c.temp);
    let key = path_key(input);
    let now = run.last().1;
    if !result.success {
        assert(now.remove(temp).contains_key(key) == now.contains_key(key));
        assert(start.remove(temp).contains_key(key) == start.contains_key(key));
        if start.contains_key(key) {
            assert(now.remove(temp)[key] == start.remove(temp)[key]);
        }
    }
}

/// Where originals are to be replaced, a conversion that succeeds leaves the encode at the
/// destination, and removes an original at another path as its last operation: it is gone once
/// that succeeds.
pub proof fn law_replaced_originals_go(
    input: Seq<char>,
    output: Seq<char>,
    options: ConversionOptions,
    bytes: Seq<u8>,
    c: ConversionState,
    start: Files,
    run: Seq<(Result<(), Seq<char>>, Files)>,
    result: ResultState,
)
    requires
        first_state(input, output, options, EncodedState::Ready(bytes)) == Some(NextState::Go(c)),
        ends_with(c, start, run, result),
        options.output_mode == OutputMode::ReplaceOriginal,
        result.success,
    ensures
        run.last().1.contains_key(path_key(output)),
        run.last().1[path_key(output)] == bytes,
        path_key(input) != path_key(output) ==> performed(c, run).last() == FileAction::Remove(
            input,
        ),
        path_key(input) != path_key(output) && run.last().0 is Ok ==> !run.last().1.contains_key(
            path_key(input),
        ),
{
    law_conversions_keep_to_the_script(input, output, options, bytes, c, start, run, result);
    law_conversions_leave_files_in_order(c, text_hash(input), start, run, result);
    if path_key(input) != path_key(output) {
        lemma_last_operation(c, start, run, result);
    }
}

/// The last operation of a run leaves what it says.
proof fn lemma_last_operation(
    c: ConversionState,
    start: Files,
    run: Seq<(Result<(), Seq<char>>, Files)>,
    result: ResultState,
)
    requires
        ends_with(c, start, run, result),
    ensures
        performed(c, run).len() == run.len() > 0,
        performed(c, run).last() matches FileAction::Remove(path) ==> (run.last().0 is Ok
            ==> !run.last().1.contains_key(path_key(path))),
    decreases run.len(),
{
    if let NextState::Go(next) = after(c, run[0].0) {
        lemma_last_operation(next, run[0].1, run.skip(1), result);
        assert(run.skip(1).last() == run.last());
        assert(performed(c, run).last() == performed(next, run.skip(1)).last());
    } else {
        assert(performed(c, run) =~= seq![action_of(c)]);
    }
}

/// A conversion that has no encode touches no file: it is over with the message, or there is
/// no conversion where the encode would be too large or the picture is none.
pub proof fn law_without_an_encode_nothing_is_done(
    input: Seq<char>,
    output: Seq<char>,
    options: ConversionOptions,
    e: EncodedState,
)
    ensures
        e matches EncodedState::Failed(message) ==> first_state(input, output, options, e) == Some(
            NextState::Done(
                ResultState {
                    success: false,
                    input_path: input,
                    output_path: None,
                    error: Some(message),
                },
            ),
        ),
        e is Ready ==> first_state(input, output, options, e) matches Some(NextState::Go(c)),
        e is TooLarge || e is Malformed ==> first_state(input, output, options, e) is None,
        forall|next: NextState| #[trigger] settled_start(input, Some(next)) == next,
        settled_start(input, None) == NextState::Done(
            ResultState {
                success: false,
                input_path: input,
                output_path: None,
                error: Some("Failed to save image: the metadata does not fit"@),
            },
        ),
{
}

/// A failure names the input and the error and no output, and a success the input and the
/// output and no error.
pub proof fn law_results_name_what_they_are_about(input: Seq<char>, text: Seq<char>)
    ensures
        !failure_state(input, text).success,
        failure_state(input, text).input_path == input,
        failure_state(input, text).output_path is None,
        failure_state(input, text).error == Some(text),
        success_state(input, text).success,
        success_state(input, text).input_path == input,
        success_state(input, text).output_path == Some(text),
        success_state(input, text).error is None,
{
}

/// A file that cannot be read, or not be decoded, is not converted, and the result says that it
/// could not be opened and why. Any other is encoded as it was decoded.
pub proof fn law_files_are_decoded_and_encoded(
    input: Seq<char>,
    file: Result<Seq<u8>, Seq<char>>,
    options: ConversionOptions,
    e: EncodedState,
) -> (decoded: Result<(Picture, Option<Seq<u8>>, Option<Seq<u8>>), Seq<char>>)
    requires
        is_encoded_file(input, file, options, e),
    ensures
        file matches Err(message) ==> e == EncodedState::Failed(
            "Failed to open image: "@ + message,
        ),
        file matches Ok(bytes) ==> {
            &&& is_decoded(input, bytes, decoded)
            &&& decoded matches Err(message) ==> e == EncodedState::Failed(
                "Failed to open image: "@ + message,
            )
            &&& decoded matches Ok(source) ==> is_encoded_picture(source, options, e)
        },
{
    choose|decoded: Result<(Picture, Option<Seq<u8>>, Option<Seq<u8>>), Seq<char>>| #[trigger]
        is_decoded(input, file->Ok_0, decoded) && is_encoded_source(decoded, options, e)
}

/// A picture that its encoder refuses is not converted, and the result says why. Any other is
/// written as it was encoded where metadata is to be stripped, or there is none, or it was
/// encoded to no container, and otherwise with the blocks among the parts of its container,
/// as long as the sizes fit.
pub proof fn law_pictures_are_encoded_and_finished(
    p: Picture,
    exif: Option<Seq<u8>>,
    icc: Option<Seq<u8>>,
    options: ConversionOptions,
    e: EncodedState,
) -> (file: Result<Seq<u8>, Seq<char>>)
    requires
        is_encoded_picture((p, exif, icc), options, e),
    ensures
        !is_encodable_as(p, options) ==> e is Malformed,
        is_encodable_as(p, options) ==> {
            &&& is_encoding(p, options, file)
            &&& file matches Err(message) ==> e == EncodedState::Failed(
                "Failed to save image: "@ + message,
            )
            &&& file matches Ok(bytes) ==> {
                &&& !options.preserve_metadata || exif is None && icc is None || parsed_container(
                    bytes,
                ) is None ==> e == EncodedState::Ready(bytes)
                &&& options.preserve_metadata && (exif is Some || icc is Some) ==> (
                parsed_container(bytes) matches Some((kind, parts)) ==> {
                    ||| metadata_fits(bytes, exif, icc) && e == EncodedState::Ready(
                        container_file(kind, attached_parts(kind, parts, exif, icc)),
                    )
                    ||| !metadata_fits(bytes, exif, icc) && e is TooLarge
                })
            }
        },
{
    choose|file: Result<Seq<u8>, Seq<char>>|
        {
            &&& #[trigger] is_encoding(p, options, file)
            &&& e == with_metadata(file, options.preserve_metadata, exif, icc)
        }
}

/// Blocks fit into every JPEG file, into a PNG file wherever each can be described there, a
/// profile with room for its compression, and into a WebP file wherever all of it can be
/// described there.
pub proof fn law_blocks_fit_where_there_is_room(
    encoded: Seq<u8>,
    exif: Option<Seq<u8>>,
    icc: Option<Seq<u8>>,
)
    requires
        encoded.len() > 0,
    ensures
        ({
            let exif_len: nat = match exif {
                Some(b) => b.len(),
                None => 0,
            };
            let icc_len: nat = match icc {
                Some(b) => b.len(),
                None => 0,
            };
            &&& encoded[0] == 0xff ==> metadata_fits(encoded, exif, icc)
            &&& encoded[0] == 0x89 && exif_len <= 0xffff_ffff && 2 * icc_len + 256 <= 0xffff_ffff
                ==> metadata_fits(encoded, exif, icc)
            &&& encoded[0] == 0x52 && encoded.len() + exif_len + icc_len + 56 <= 0xffff_ffff
                ==> metadata_fits(encoded, exif, icc)
            &&& exif is None && icc is None ==> metadata_fits(encoded, exif, icc)
        }),
{
}

/// The metadata of a file that is converted to JPEG, PNG or WebP with its metadata is what a
/// decoder that accepts the converted file finds in it: the ICC profile as it was, and the Exif
/// block with its orientation reset, which changes two bytes next to each other at most. It
/// is so for every block that such files have room for and decoders read.
pub proof fn law_metadata_travels(
    input: Seq<char>,
    bytes: Seq<u8>,
    options: ConversionOptions,
    out: Seq<u8>,
    format: Seq<char>,
) -> (at: int)
    requires
        is_encoded_file(input, Ok(bytes), options, EncodedState::Ready(out)),
        reads_as(input, bytes, format),
        options.preserve_metadata,
    ensures
        ({
            let name = if lowercase(options.format@) == "jpeg"@ {
                "jpg"@
            } else {
                lowercase(options.format@)
            };
            (name == "jpg"@ || name == "png"@ || name == "webp"@) && decoder_refusal(
                name,
                out,
            ) is None ==> {
                &&& stored_icc(format, bytes) matches Some(Some(b)) ==> ((name == "jpg"@ ==> 0
                    < b.len() <= 16641826) && (name == "png"@ ==> b.len() <= 0x100_0000)
                    ==> stored_icc(name, out) == Some(Some(b)))
                &&& stored_exif(format, bytes) matches Some(Some(b)) ==> {
                    &&& (name == "jpg"@ ==> 0 < b.len() <= 65527) && (name == "png"@ ==> b.len()
                        <= 0x7fff_ffff) ==> stored_exif(name, out) == Some(Some(upright_exif(b)))
                    &&& upright_exif(b).len() == b.len()
                    &&& forall|i: int|
                        0 <= i < b.len() && i != at && i != at + 1 ==> #[trigger] upright_exif(
                            b,
                        )[i] == b[i]
                    &&& exif_orientation(b) is None ==> upright_exif(b) == b
                    &&& exif_orientation(b) is Some ==> exif_orientation(upright_exif(b)) == Some(
                        1u8,
                    )
                }
            }
        }),
{
    let e = EncodedState::Ready(out);
    law_format_names_are_told_apart(lowercase(options.format@));
    let decoded = law_files_are_decoded_and_encoded(input, Ok(bytes), options, e);
    let (p, exif, icc) = decoded->Ok_0;
    assert(is_encoded_picture((p, exif, icc), options, e));
    law_blocks_are_handed_on_whole(input, bytes, p, exif, icc, format)
}

/// A file that is converted with its metadata stripped, or to a format that carries none, is
/// the encoded picture and nothing else.
pub proof fn law_stripped_files_are_the_picture_alone(
    input: Seq<char>,
    bytes: Seq<u8>,
    options: ConversionOptions,
    out: Seq<u8>,
) -> (source: (Picture, Option<Seq<u8>>, Option<Seq<u8>>))
    requires
        is_encoded_file(input, Ok(bytes), options, EncodedState::Ready(out)),
        !options.preserve_metadata || lowercase(options.format@) == "gif"@ || lowercase(
            options.format@,
        ) == "bmp"@ || lowercase(options.format@) == "tiff"@ || lowercase(options.format@)
            == "avif"@,
    ensures
        is_decoded(input, bytes, Ok(source)),
        is_encoding(source.0, options, Ok(out)),
{
    let e = EncodedState::Ready(out);
    law_format_names_are_told_apart(lowercase(options.format@));
    let decoded = law_files_are_decoded_and_encoded(input, Ok(bytes), options, e);
    let source = decoded->Ok_0;
    assert(is_encoded_picture(source, options, e));
    source
}

/// Blocks fit into a PNG file wherever the chunks that come out can be described there.
pub proof fn law_blocks_fit_as_they_come_out(encoded: Seq<u8>, exif: Seq<u8>, icc: Seq<u8>)
    requires
        encoded.len() > 0,
        encoded[0] == 0x89,
        exif.len() <= 0xffff_ffff,
        png_icc_contents(icc).len() <= 0xffff_ffff,
    ensures
        metadata_fits(encoded, Some(exif), Some(icc)),
        metadata_fits(encoded, Some(exif), None),
        metadata_fits(encoded, None, Some(icc)),
{
}

/// A result is read as it stands: its success, its paths and its error, with nothing left out.
pub proof fn law_results_are_read_as_they_stand(r: ConversionResult)
    ensures
        result_state(r).success == r.success,
        result_state(r).input_path == r.input_path@,
        r.output_path matches Some(path) ==> result_state(r).output_path == Some(path@),
        r.output_path is None ==> result_state(r).output_path is None,
        r.error matches Some(text) ==> result_state(r).error == Some(text@),
        r.error is None ==> result_state(r).error is None,
{
}

/// An encoding is read as it stands.
pub proof fn law_encodings_are_read_as_they_stand(e: Encoded)
    ensures
        e matches Encoded::Ready(bytes) ==> encoded_state(e) == EncodedState::Ready(bytes@),
        e matches Encoded::Failed(text) ==> encoded_state(e) == EncodedState::Failed(text@),
        e is TooLarge ==> encoded_state(e) is TooLarge,
        e is Malformed ==> encoded_state(e) is Malformed,
{
}

/// A file operation is read as it stands.
pub proof fn law_operations_are_read_as_they_stand(a: Action<'_>)
    ensures
        a matches Action::Write(path, bytes) ==> action_state(a) == FileAction::Write(
            path@,
            bytes@,
        ),
        a matches Action::Rename(from, to) ==> action_state(a) == FileAction::Rename(from@, to@),
        a matches Action::Remove(path) ==> action_state(a) == FileAction::Remove(path@),
{
}

/// A step is read as it stands.
pub proof fn law_steps_are_read_as_they_stand(step: ConversionStep)
    ensures
        step matches ConversionStep::Done(r) ==> next_state(step) == NextState::Done(
            result_state(r),
        ),
        step matches ConversionStep::Perform(c) ==> next_state(step) == NextState::Go(c@),
{
}

} // verus!
