//! Converting one image: from the bytes of the source to the steps that put the result in
//! its place.
//!
//! The encode is always staged in a temporary file and renamed into place. Where originals
//! are replaced the destination can be the input itself, so writing straight into it would
//! truncate the original before the first byte is written: a full disk or a crash in the
//! middle would leave no copy of the source anywhere.

use vstd::prelude::*;

use crate::container::{announced_kind, is_carrier, looks_like_container};
use crate::decode::{decode_oriented, is_decoded};
use crate::encode::{
    can_encode, container_for, encode_to_bytes, file_outcome, is_encodable_as, is_encoding,
};
use crate::format::{carries_metadata, output_format};
use crate::metadata::{
    attach_metadata, attached, block, can_attach, carried_over, metadata_fits, shown_to_decoders,
    SourceMetadata,
};
use crate::model::{optional, ConversionOptions, ConversionResult, OutputMode};
use crate::path::{path_key, same_path};
use crate::picture::{picture, Picture};
use crate::staging::{staging_path, temp_path_for, text_hash};
use crate::text::prefixed;

verus! {

/// What encoding the image in a file comes to.
#[derive(Debug)]
pub enum Encoded {
    /// The converted file.
    Ready(Vec<u8>),
    /// Why there is none.
    Failed(String),
    /// The result would be larger than its format can describe.
    TooLarge,
    /// The picture cannot go to its encoder: its buffer does not end with its last pixel.
    Malformed,
}

/// What a conversion result says.
pub struct ResultState {
    pub success: bool,
    pub input_path: Seq<char>,
    pub output_path: Option<Seq<char>>,
    pub error: Option<Seq<char>>,
}

/// What an encoding says.
pub enum EncodedState {
    Ready(Seq<u8>),
    Failed(Seq<char>),
    TooLarge,
    Malformed,
}

/// What a conversion result says.
pub open spec fn result_state(r: ConversionResult) -> ResultState {
    ResultState {
        success: r.success,
        input_path: r.input_path@,
        output_path: optional(r.output_path),
        error: optional(r.error),
    }
}

/// What an encoding says.
pub open spec fn encoded_state(e: Encoded) -> EncodedState {
    match e {
        Encoded::Ready(bytes) => EncodedState::Ready(bytes@),
        Encoded::Failed(message) => EncodedState::Failed(message@),
        Encoded::TooLarge => EncodedState::TooLarge,
        Encoded::Malformed => EncodedState::Malformed,
    }
}

/// The result of a conversion that failed.
pub open spec fn failure_state(input: Seq<char>, error: Seq<char>) -> ResultState {
    ResultState { success: false, input_path: input, output_path: None, error: Some(error) }
}

/// The result of a conversion that succeeded.
pub open spec fn success_state(input: Seq<char>, output: Seq<char>) -> ResultState {
    ResultState { success: true, input_path: input, output_path: Some(output), error: None }
}

/// What becomes of an encoded picture: its metadata is attached where it is to be kept.
pub open spec fn with_metadata(
    file: Result<Seq<u8>, Seq<char>>,
    preserve: bool,
    exif: Option<Seq<u8>>,
    icc: Option<Seq<u8>>,
) -> EncodedState {
    match file {
        Err(message) => EncodedState::Failed("Failed to save image: "@ + message),
        Ok(bytes) => if !preserve {
            EncodedState::Ready(bytes)
        } else if metadata_fits(bytes, exif, icc) {
            EncodedState::Ready(attached(bytes, exif, icc))
        } else {
            EncodedState::TooLarge
        },
    }
}

/// Whether `e` is what encoding a decoded picture as the options ask comes to.
pub open spec fn is_encoded_picture(
    source: (Picture, Option<Seq<u8>>, Option<Seq<u8>>),
    options: ConversionOptions,
    e: EncodedState,
) -> bool {
    if !is_encodable_as(source.0, options) {
        e == EncodedState::Malformed
    } else {
        exists|file: Result<Seq<u8>, Seq<char>>|
            {
                &&& #[trigger] is_encoding(source.0, options, file)
                &&& e == with_metadata(file, options.preserve_metadata, source.1, source.2)
                &&& e is Ready && options.preserve_metadata ==> carried_over(
                    file->Ok_0,
                    source.1,
                    source.2,
                )
                &&& output_format(options.format@) matches Some(format) ==> (!carries_metadata(
                    format,
                ) ==> e == with_metadata(file, false, None, None))
                &&& output_format(options.format@) matches Some(format) ==> (e matches
                    EncodedState::Ready(bytes) ==> (options.preserve_metadata && carries_metadata(
                    format,
                ) ==> shown_to_decoders(container_for(format), bytes, source.1, source.2)))
            }
    }
}

/// Whether `e` is what encoding as the options ask comes to, given what decoding came to.
pub open spec fn is_encoded_source(
    decoded: Result<(Picture, Option<Seq<u8>>, Option<Seq<u8>>), Seq<char>>,
    options: ConversionOptions,
    e: EncodedState,
) -> bool {
    match decoded {
        Err(message) => e == EncodedState::Failed("Failed to open image: "@ + message),
        Ok(source) => is_encoded_picture(source, options, e),
    }
}

/// Whether `e` is what encoding the image in a file as the options ask comes to.
pub open spec fn is_encoded_image(
    input: Seq<char>,
    bytes: Seq<u8>,
    options: ConversionOptions,
    e: EncodedState,
) -> bool {
    exists|decoded: Result<(Picture, Option<Seq<u8>>, Option<Seq<u8>>), Seq<char>>| #[trigger]
        is_decoded(input, bytes, decoded) && is_encoded_source(decoded, options, e)
}

/// Whether `e` is what encoding the image in a file as the options ask comes to, given what
/// reading the file came to.
pub open spec fn is_encoded_file(
    input: Seq<char>,
    file: Result<Seq<u8>, Seq<char>>,
    options: ConversionOptions,
    e: EncodedState,
) -> bool {
    match file {
        Err(message) => e == EncodedState::Failed("Failed to open image: "@ + message),
        Ok(bytes) => is_encoded_image(input, bytes, options, e),
    }
}

/// What becomes of an encoded picture: its metadata is attached where it is to be kept.
pub fn finish_encoding(
    encoding: Result<Vec<u8>, String>,
    metadata: &SourceMetadata,
    options: &ConversionOptions,
) -> (r: Encoded)
    ensures
        encoded_state(r) == with_metadata(
            file_outcome(encoding),
            options.preserve_metadata,
            block(metadata.exif),
            block(metadata.icc),
        ),
        r is Ready && options.preserve_metadata ==> carried_over(
            file_outcome(encoding)->Ok_0,
            block(metadata.exif),
            block(metadata.icc),
        ),
        encoding matches Ok(bytes) ==> (!looks_like_container(bytes@) && announced_kind(bytes@)
            is Jpeg ==> encoded_state(r) == EncodedState::Ready(bytes@)),
{
    match encoding {
        Err(e) => Encoded::Failed(prefixed("Failed to save image: ", e.as_str())),
        Ok(encoded) => {
            if !options.preserve_metadata {
                Encoded::Ready(encoded)
            } else if can_attach(&encoded, metadata) {
                Encoded::Ready(attach_metadata(encoded, metadata))
            } else {
                Encoded::TooLarge
            }
        },
    }
}

/// Encodes a decoded picture as the options ask, with its metadata where that is to be kept.
pub fn encode_picture(
    img: &image::DynamicImage,
    metadata: &SourceMetadata,
    options: &ConversionOptions,
) -> (r: Encoded)
    ensures
        is_encoded_picture(
            (picture(*img), block(metadata.exif), block(metadata.icc)),
            *options,
            encoded_state(r),
        ),
{
    if !can_encode(img, options) {
        return Encoded::Malformed;
    }
    let encoding = encode_to_bytes(img, options);
    let ghost file = file_outcome(encoding);
    let r = finish_encoding(encoding, metadata, options);
    proof {
        let source = (picture(*img), block(metadata.exif), block(metadata.icc));
        assert(is_encoding(source.0, *options, file));
        assert(encoded_state(r) == with_metadata(
            file,
            options.preserve_metadata,
            source.1,
            source.2,
        ));
        assert(encoded_state(r) is Ready && options.preserve_metadata ==> carried_over(
            file->Ok_0,
            source.1,
            source.2,
        ));
        assert(output_format(options.format@) matches Some(format) ==> (!carries_metadata(format)
            ==> encoded_state(r) == with_metadata(file, false, None, None)));
        if let Some(format) = output_format(options.format@) {
            if let Encoded::Ready(bytes) = &r {
                if options.preserve_metadata && carries_metadata(format) {
                    assert(is_carrier(container_for(format), file->Ok_0));
                    assert(shown_to_decoders(container_for(format), bytes@, source.1, source.2));
                }
            }
        }
    }
    r
}

/// Decodes a file and encodes it as the options ask, with its metadata where that is to be
/// kept, given what reading the file came to.
pub fn encode_file(
    input_path: &str,
    file: Result<Vec<u8>, String>,
    options: &ConversionOptions,
) -> (r: Encoded)
    ensures
        is_encoded_file(input_path@, file_outcome(file), *options, encoded_state(r)),
        !(r is Malformed),
{
    let bytes = match file {
        Ok(bytes) => bytes,
        Err(e) => return Encoded::Failed(prefixed("Failed to open image: ", e.as_str())),
    };
    let (decoded, r): (Ghost<_>, Encoded) = match decode_oriented(input_path, &bytes) {
        Ok((img, metadata)) => (
            Ghost(Ok((picture(img), block(metadata.exif), block(metadata.icc)))),
            encode_picture(&img, &metadata, options),
        ),
        Err(e) => (
            Ghost(Err(e@)),
            Encoded::Failed(prefixed("Failed to open image: ", e.as_str())),
        ),
    };
    assert(is_decoded(input_path@, bytes@, decoded@));
    assert(is_encoded_source(decoded@, *options, encoded_state(r)));
    r
}

/// How far a conversion has come.
pub enum StageState {
    /// The encode is to be written to the staging file.
    Writing,
    /// The staging file is to be renamed to the destination.
    Renaming,
    /// The conversion failed, and the staging file is to be removed.
    Cleaning(Seq<char>),
    /// The destination is in place, and the original is to be removed.
    Dropping,
}

/// A conversion under way.
pub struct ConversionState {
    pub input: Seq<char>,
    pub output: Seq<char>,
    pub temp: Seq<char>,
    pub bytes: Seq<u8>,
    pub replaces: bool,
    pub stage: StageState,
}

/// Something to be done to files.
pub enum FileAction {
    Write(Seq<char>, Seq<u8>),
    Rename(Seq<char>, Seq<char>),
    Remove(Seq<char>),
}

/// Where a conversion stands after a step.
pub enum NextState {
    Done(ResultState),
    Go(ConversionState),
}

/// What a conversion is to do next.
pub open spec fn action_of(c: ConversionState) -> FileAction {
    match c.stage {
        StageState::Writing => FileAction::Write(c.temp, c.bytes),
        StageState::Renaming => FileAction::Rename(c.temp, c.output),
        StageState::Cleaning(_) => FileAction::Remove(c.temp),
        StageState::Dropping => FileAction::Remove(c.input),
    }
}

/// Where a conversion stands once its action came to `result`. The original is removed only
/// where it is to be replaced by a file at another path, and only once that file is in
/// place. Whether a removal succeeds makes no difference.
pub open spec fn after(c: ConversionState, result: Result<(), Seq<char>>) -> NextState {
    match c.stage {
        StageState::Writing => match result {
            Ok(_) => NextState::Go(ConversionState { stage: StageState::Renaming, ..c }),
            Err(e) => NextState::Go(
                ConversionState {
                    stage: StageState::Cleaning("Failed to save image: "@ + e),
                    ..c
                },
            ),
        },
        StageState::Renaming => match result {
            Ok(_) => if c.replaces && path_key(c.input) != path_key(c.output) {
                NextState::Go(ConversionState { stage: StageState::Dropping, ..c })
            } else {
                NextState::Done(success_state(c.input, c.output))
            },
            Err(e) => NextState::Go(
                ConversionState {
                    stage: StageState::Cleaning("Failed to write "@ + c.output + ": "@ + e),
                    ..c
                },
            ),
        },
        StageState::Cleaning(error) => NextState::Done(failure_state(c.input, error)),
        StageState::Dropping => NextState::Done(success_state(c.input, c.output)),
    }
}

/// How far a conversion has come.
#[derive(Debug)]
enum Stage {
    Writing,
    Renaming,
    Cleaning(String),
    Dropping,
}

/// A conversion under way: it hands out one file operation at a time and is told how that
/// went.
#[derive(Debug)]
pub struct Conversion {
    input: String,
    output: String,
    temp: String,
    bytes: Vec<u8>,
    replaces: bool,
    stage: Stage,
}

impl View for Conversion {
    type V = ConversionState;

    closed spec fn view(&self) -> ConversionState {
        ConversionState {
            input: self.input@,
            output: self.output@,
            temp: self.temp@,
            bytes: self.bytes@,
            replaces: self.replaces,
            stage: match self.stage {
                Stage::Writing => StageState::Writing,
                Stage::Renaming => StageState::Renaming,
                Stage::Cleaning(error) => StageState::Cleaning(error@),
                Stage::Dropping => StageState::Dropping,
            },
        }
    }
}

/// Something to be done to files.
#[derive(Debug)]
pub enum Action<'a> {
    Write(&'a str, &'a Vec<u8>),
    Rename(&'a str, &'a str),
    Remove(&'a str),
}

/// What an action says.
pub open spec fn action_state(a: Action<'_>) -> FileAction {
    match a {
        Action::Write(path, bytes) => FileAction::Write(path@, bytes@),
        Action::Rename(from, to) => FileAction::Rename(from@, to@),
        Action::Remove(path) => FileAction::Remove(path@),
    }
}

/// Where a conversion stands after a step.
#[derive(Debug)]
pub enum ConversionStep {
    /// It is over.
    Done(ConversionResult),
    /// There is a file operation to perform.
    Perform(Conversion),
}

/// What a step says.
pub open spec fn next_state(step: ConversionStep) -> NextState {
    match step {
        ConversionStep::Done(result) => NextState::Done(result_state(result)),
        ConversionStep::Perform(conversion) => NextState::Go(conversion@),
    }
}

/// The step that an encoding leads to.
pub open spec fn first_state(
    input: Seq<char>,
    output: Seq<char>,
    options: ConversionOptions,
    e: EncodedState,
) -> Option<NextState> {
    match e {
        EncodedState::Ready(bytes) => Some(
            NextState::Go(
                ConversionState {
                    input,
                    output,
                    temp: staging_path(output, text_hash(input)),
                    bytes,
                    replaces: options.output_mode == OutputMode::ReplaceOriginal,
                    stage: StageState::Writing,
                },
            ),
        ),
        EncodedState::Failed(message) => Some(NextState::Done(failure_state(input, message))),
        EncodedState::TooLarge | EncodedState::Malformed => None,
    }
}

/// The result for an input that was not converted.
pub fn failure(input_path: &str, error: String) -> (r: ConversionResult)
    ensures
        result_state(r) == failure_state(input_path@, error@),
{
    ConversionResult {
        success: false,
        input_path: input_path.to_owned(),
        output_path: None,
        error: Some(error),
    }
}

/// Starts to put an encoded file in its place, or nothing where the result is larger than
/// its format can describe, or the picture cannot go to its encoder.
pub fn start_conversion(
    input_path: &str,
    output_path: String,
    options: &ConversionOptions,
    encoded: Encoded,
) -> (r: Option<ConversionStep>)
    ensures
        (match r {
            Some(step) => Some(next_state(step)),
            None => None,
        }) == first_state(input_path@, output_path@, *options, encoded_state(encoded)),
{
    match encoded {
        Encoded::TooLarge | Encoded::Malformed => None,
        Encoded::Failed(message) => Some(ConversionStep::Done(failure(input_path, message))),
        Encoded::Ready(bytes) => {
            let temp = temp_path_for(output_path.as_str(), input_path);
            Some(
                ConversionStep::Perform(
                    Conversion {
                        input: input_path.to_owned(),
                        output: output_path,
                        temp,
                        bytes,
                        replaces: options.output_mode == OutputMode::ReplaceOriginal,
                        stage: Stage::Writing,
                    },
                ),
            )
        },
    }
}

/// Starts to convert one image, given what reading its file came to: the image is decoded
/// and encoded, and what is left is to put the result in its place. Nothing comes back where
/// the result is larger than its format can describe.
pub fn convert_single_image(
    input_path: &str,
    output_path: String,
    options: &ConversionOptions,
    file: Result<Vec<u8>, String>,
) -> (r: Option<ConversionStep>)
    ensures
        exists|e: EncodedState|
            {
                &&& #[trigger] is_encoded_file(input_path@, file_outcome(file), *options, e)
                &&& !(e is Malformed)
                &&& (match r {
                    Some(step) => Some(next_state(step)),
                    None => None,
                }) == first_state(input_path@, output_path@, *options, e)
            },
{
    let encoded = encode_file(input_path, file, options);
    let ghost e = encoded_state(encoded);
    assert(is_encoded_file(input_path@, file_outcome(file), *options, e));
    start_conversion(input_path, output_path, options, encoded)
}

/// How a conversion starts that may have nothing to put in place: an input whose result is
/// larger than its format can describe is not converted.
pub open spec fn settled_start(input: Seq<char>, start: Option<NextState>) -> NextState {
    match start {
        Some(next) => next,
        None => NextState::Done(
            failure_state(input, "Failed to save image: the metadata does not fit"@),
        ),
    }
}

/// Settles an input whose result is larger than its format can describe.
pub fn settle(input_path: &str, start: Option<ConversionStep>) -> (r: ConversionStep)
    ensures
        next_state(r) == settled_start(
            input_path@,
            match start {
                Some(step) => Some(next_state(step)),
                None => None,
            },
        ),
{
    match start {
        Some(step) => step,
        None => {
            let error = "Failed to save image: the metadata does not fit".to_owned();
            ConversionStep::Done(failure(input_path, error))
        },
    }
}

impl Conversion {
    /// The file operation to perform.
    pub fn action<'a>(&'a self) -> (r: Action<'a>)
        ensures
            action_state(r) == action_of(self@),
    {
        match &self.stage {
            Stage::Writing => Action::Write(self.temp.as_str(), &self.bytes),
            Stage::Renaming => Action::Rename(self.temp.as_str(), self.output.as_str()),
            Stage::Cleaning(_) => Action::Remove(self.temp.as_str()),
            Stage::Dropping => Action::Remove(self.input.as_str()),
        }
    }

    /// Goes on once the operation was performed, told how it went.
    pub fn advance(self, result: Result<(), String>) -> (r: ConversionStep)
        ensures
            next_state(r) == after(
                self@,
                match result {
                    Ok(_) => Ok(()),
                    Err(e) => Err(e@),
                },
            ),
    {
        let Conversion { input, output, temp, bytes, replaces, stage } = self;
        let stage = match (stage, result) {
            (Stage::Writing, Ok(_)) => Stage::Renaming,
            (Stage::Writing, Err(e)) => Stage::Cleaning(
                prefixed("Failed to save image: ", e.as_str()),
            ),
            (Stage::Renaming, Ok(_)) => {
                if replaces && !same_path(input.as_str(), output.as_str()) {
                    Stage::Dropping
                } else {
                    return ConversionStep::Done(success(input, output));
                }
            },
            (Stage::Renaming, Err(e)) => {
                let mut message = prefixed("Failed to write ", output.as_str());
                message.append(": ");
                message.append(e.as_str());
                Stage::Cleaning(message)
            },
            (Stage::Cleaning(error), _) => {
                return ConversionStep::Done(failure(input.as_str(), error));
            },
            (Stage::Dropping, _) => {
                return ConversionStep::Done(success(input, output));
            },
        };
        ConversionStep::Perform(Conversion { input, output, temp, bytes, replaces, stage })
    }
}

/// The result for an input that was converted.
fn success(input_path: String, output_path: String) -> (r: ConversionResult)
    ensures
        result_state(r) == success_state(input_path@, output_path@),
{
    ConversionResult { success: true, input_path, output_path: Some(output_path), error: None }
}

} // verus!
