//! Where the inputs of a batch end up: in which folder, and under which name.

use vstd::prelude::*;

use crate::encode_laws::{
    law_extensions_are_those_of_the_formats, law_format_names_are_told_apart,
};
use crate::format::{extension_for, lemma_extension_names_format, output_format};
use crate::model::{outcome, ConversionOptions, OutputMode};
use crate::path::{
    extension_of, file_name_of, file_stem_of, law_joining_puts_a_slash_between, lemma_joined,
    parent_of, path_key, texts, PathKey,
};
use crate::planning::{
    answered, candidate, choice_of, first_choice, has_format, next_choice, numbered_name, outcomes,
    settled, start_next, target_of, unplanned, with_choice, Choice, PathStep, PlanState,
    SearchState, Target, MAX_ATTEMPTS,
};
use crate::planning_laws::{
    at_attempt, can_go_to, claims, driven, is_destination, law_driven_plans_stay_right,
    law_planning_starts_right, law_plans_are_fair, lemma_is_name_search, lemma_jpeg_is_no_extension,
    lemma_numbered_name, lemma_settled_adds, taken, told,
};
use crate::text::{decimal, lowercase};

verus! {

/// The path of a file in a folder whose name is a stem and an extension, with a number between
/// them unless that is zero.
pub open spec fn named(dir: Seq<char>, stem: Seq<char>, ext: Seq<char>, number: nat) -> Seq<char> {
    let name = stem + if number == 0 {
        Seq::empty()
    } else {
        seq!['_'] + decimal(number)
    } + seq!['.'] + ext;
    if dir.len() == 0 {
        name
    } else if dir[dir.len() - 1] == '/' {
        dir + name
    } else {
        dir + seq!['/'] + name
    }
}

/// The extension that the files of a batch get: the name of the format, with `jpeg` written as
/// `jpg`.
pub open spec fn wanted_extension(options: ConversionOptions) -> Seq<char> {
    if lowercase(options.format@) == "jpeg"@ {
        "jpg"@
    } else {
        lowercase(options.format@)
    }
}

/// The folder that an input goes to: the one that was asked for, or the input's own.
pub open spec fn wanted_folder(input: Seq<char>, options: ConversionOptions) -> Seq<char> {
    if options.output_mode == OutputMode::CustomFolder {
        options.output_folder->0@
    } else {
        parent_of(input)->0
    }
}

/// Whether an input has the extension that the files of its batch get, in whatever letter
/// case, and whether `jpg` or `jpeg`.
pub open spec fn has_wanted_extension(input: Seq<char>, options: ConversionOptions) -> bool {
    extension_of(input) matches Some(ext) && (lowercase(ext) == wanted_extension(options)
        || lowercase(ext) == "jpeg"@ && wanted_extension(options) == "jpg"@)
}

/// The formats on offer have the names and the extensions that they are asked for by.
proof fn lemma_wanted_extension(options: ConversionOptions)
    ensures
        output_format(options.format@) matches Some(format) ==> extension_for(format)
            == wanted_extension(options),
{
    law_format_names_are_told_apart(lowercase(options.format@));
    if let Some(format) = output_format(options.format@) {
        law_extensions_are_those_of_the_formats(format);
    }
}

/// What a search tries is the stem of the input, a number and the extension, in the folder.
proof fn lemma_candidate_is_named(input: Seq<char>, options: ConversionOptions, attempt: nat)
    requires
        target_of(input, options) is Ok,
    ensures
        ({
            let search = SearchState {
                dir: wanted_folder(input, options),
                stem: file_stem_of(input)->0,
                extension: wanted_extension(options),
                attempt,
            };
            &&& candidate(search) == named(
                wanted_folder(input, options),
                file_stem_of(input)->0,
                wanted_extension(options),
                attempt,
            )
            &&& parent_of(candidate(search)) is Some
            &&& path_key(parent_of(candidate(search))->0) == path_key(wanted_folder(input, options))
            &&& file_name_of(candidate(search)) == Some(
                numbered_name(search.stem, search.extension, attempt),
            )
        }),
{
    let format = output_format(options.format@)->0;
    lemma_wanted_extension(options);
    reveal_strlit(".");
    reveal_strlit("_");
    assert("."@ =~= seq!['.']);
    assert("_"@ =~= seq!['_']);
    let dir = wanted_folder(input, options);
    let stem = file_stem_of(input)->0;
    let ext = wanted_extension(options);
    let search = SearchState { dir, stem, extension: ext, attempt };
    lemma_is_name_search(input, search, format);
    lemma_numbered_name(search);
    let name = numbered_name(stem, ext, attempt);
    if attempt == 0 {
        assert(name =~= stem + Seq::<char>::empty() + seq!['.'] + ext);
    } else {
        assert(name =~= stem + (seq!['_'] + decimal(attempt)) + seq!['.'] + ext);
    }
    lemma_joined(dir, name);
    law_joining_puts_a_slash_between(dir, name);
}

/// An input that replaces its original has the wanted extension exactly where it is a file of
/// the format.
proof fn lemma_has_wanted_extension(input: Seq<char>, options: ConversionOptions)
    requires
        output_format(options.format@) is Some,
    ensures
        has_format(input, output_format(options.format@)->0)
            == has_wanted_extension(input, options),
{
    let format = output_format(options.format@)->0;
    lemma_wanted_extension(options);
    lemma_extension_names_format(format);
    lemma_jpeg_is_no_extension(format);
    assert(lowercase(Seq::empty()).len() == 0);
    reveal_strlit("jpeg");
    assert("jpeg"@.len() == 4);
}

/// Wherever an input can go, that is its own path, where originals are to be replaced and it
/// is a file of the format already, or else a file in the wanted folder, with the stem of the
/// input, the extension of the format, and a number between them where other files stand in
/// the way, but never where originals are to be replaced.
pub proof fn law_inputs_go_to_the_wanted_folder(
    input: Seq<char>,
    options: ConversionOptions,
    path: Seq<char>,
) -> (number: nat)
    requires
        can_go_to(target_of(input, options), path),
    ensures
        file_stem_of(input) is Some,
        output_format(options.format@) is Some,
        options.output_mode == OutputMode::CustomFolder ==> options.output_folder is Some,
        options.output_mode != OutputMode::CustomFolder ==> parent_of(input) is Some,
        options.output_mode == OutputMode::ReplaceOriginal && has_wanted_extension(input, options)
            ==> path == input,
        !(options.output_mode == OutputMode::ReplaceOriginal && has_wanted_extension(
            input,
            options,
        )) ==> path == named(
            wanted_folder(input, options),
            file_stem_of(input)->0,
            wanted_extension(options),
            number,
        ),
        options.output_mode == OutputMode::ReplaceOriginal ==> number == 0,
        parent_of(path) is Some,
        options.output_mode == OutputMode::CustomFolder ==> path_key(parent_of(path)->0)
            == path_key(options.output_folder->0@),
        options.output_mode != OutputMode::CustomFolder ==> path_key(parent_of(path)->0)
            == path_key(parent_of(input)->0),
{
    lemma_wanted_extension(options);
    lemma_has_wanted_extension(input, options);
    let search = SearchState {
        dir: wanted_folder(input, options),
        stem: file_stem_of(input)->0,
        extension: wanted_extension(options),
        attempt: 0,
    };
    let number = match target_of(input, options) {
        Ok(Target::Search(start)) => {
            assert(start == search);
            choose|attempt: nat| path == #[trigger] candidate(at_attempt(start, attempt))
        },
        _ => 0,
    };
    assert(at_attempt(search, 0) == search);
    lemma_candidate_is_named(input, options, number);
    number
}

/// Every destination of a plan is where its input is to go, whatever the plan is told of the
/// files on disk.
pub proof fn law_destinations_are_named_after_their_inputs(
    paths: Seq<Seq<char>>,
    options: ConversionOptions,
    answers: Seq<bool>,
    i: int,
) -> (number: nat)
    requires
        0 <= i < told(paths, options, answers).planned.len(),
        told(paths, options, answers).planned[i] is Ok,
    ensures
        ({
            let input = paths[i];
            let path = told(paths, options, answers).planned[i]->Ok_0;
            &&& options.output_mode == OutputMode::ReplaceOriginal && has_wanted_extension(
                input,
                options,
            ) ==> path == input
            &&& !(options.output_mode == OutputMode::ReplaceOriginal && has_wanted_extension(
                input,
                options,
            )) ==> path == named(
                wanted_folder(input, options),
                file_stem_of(input)->0,
                wanted_extension(options),
                number,
            )
            &&& options.output_mode == OutputMode::ReplaceOriginal ==> number == 0
        }),
{
    law_plans_are_fair(paths, options, answers);
    law_inputs_go_to_the_wanted_folder(
        paths[i],
        options,
        told(paths, options, answers).planned[i]->Ok_0,
    )
}

/// A claim is made by a result.
proof fn lemma_claims_have_owners(
    planned: Seq<Result<Seq<char>, Seq<char>>>,
    n: int,
    key: PathKey,
) -> (owner: int)
    requires
        n <= planned.len(),
        claims(planned, n).contains(key),
    ensures
        0 <= owner < n,
        planned[owner] matches Ok(path) && path_key(path) == key,
    decreases n,
{
    if planned[n - 1] matches Ok(path) && path_key(path) == key {
        n - 1
    } else {
        lemma_claims_have_owners(planned, n - 1, key)
    }
}

/// An input gets no destination only where it has no name, where the format is not known,
/// where the folder is missing, or where originals are to be replaced and an earlier input goes
/// to the same path, and the message is that of the cause, the first of them in this order.
pub proof fn law_inputs_are_refused_for_a_reason(
    paths: Seq<Seq<char>>,
    options: ConversionOptions,
    answers: Seq<bool>,
    i: int,
) -> (earlier: int)
    requires
        0 <= i < told(paths, options, answers).planned.len(),
        told(paths, options, answers).planned[i] is Err,
    ensures
        ({
            let planned = told(paths, options, answers).planned;
            let input = paths[i];
            let message = planned[i]->Err_0;
            let custom = options.output_mode == OutputMode::CustomFolder;
            let wanted = if has_wanted_extension(input, options) {
                input
            } else {
                named(
                    wanted_folder(input, options),
                    file_stem_of(input)->0,
                    wanted_extension(options),
                    0,
                )
            };
            if file_stem_of(input) is None {
                message == "Invalid input filename"@
            } else if output_format(options.format@) is None {
                message == "Unsupported output format: "@ + lowercase(options.format@)
            } else if custom && options.output_folder is None {
                message == "Custom folder not specified"@
            } else if !custom && parent_of(input) is None {
                message == "Cannot determine parent directory"@
            } else {
                &&& options.output_mode == OutputMode::ReplaceOriginal
                &&& message == "Another file in this batch already writes to "@ + wanted
                &&& 0 <= earlier < i
                &&& planned[earlier] matches Ok(path) && path_key(path) == path_key(wanted)
            }
        }),
{
    law_plans_are_fair(paths, options, answers);
    let planned = told(paths, options, answers).planned;
    let input = paths[i];
    let target = target_of(input, options);
    assert(first_choice(target, claims(planned, i)).0 == Choice::Settled(planned[i]));
    if let Ok(Target::Fixed(path)) = target {
        lemma_wanted_extension(options);
        lemma_has_wanted_extension(input, options);
        lemma_candidate_is_named(input, options, 0);
        lemma_claims_have_owners(planned, i, path_key(path))
    } else {
        0
    }
}

/// Unless originals are to be replaced, an input gets the first name that is free: no file on
/// disk has it and no earlier input of the batch, while each name with a smaller number is
/// a file's or an earlier input's.
pub proof fn law_the_first_free_name_is_taken(
    paths: Seq<Seq<char>>,
    options: ConversionOptions,
    files: Set<Seq<char>>,
    answers: nat,
    i: int,
) -> (number: nat)
    requires
        options.output_mode != OutputMode::ReplaceOriginal,
        0 <= i < driven(settled(unplanned(paths, options)), files, answers).planned.len(),
        driven(settled(unplanned(paths, options)), files, answers).planned[i] is Ok,
    ensures
        ({
            let planned = driven(settled(unplanned(paths, options)), files, answers).planned;
            let dir = wanted_folder(paths[i], options);
            let stem = file_stem_of(paths[i])->0;
            let ext = wanted_extension(options);
            &&& planned[i]->Ok_0 == named(dir, stem, ext, number)
            &&& !files.contains(named(dir, stem, ext, number))
            &&& forall|smaller: nat|
                smaller < number ==> files.contains(#[trigger] named(dir, stem, ext, smaller)) || (
                exists|j: int|
                    0 <= j < i && (#[trigger] planned[j] matches Ok(path) && path_key(path)
                        == path_key(named(dir, stem, ext, smaller))))
        }),
{
    let start = settled(unplanned(paths, options));
    let state = driven(start, files, answers);
    law_planning_starts_right(paths, options, files);
    law_driven_plans_stay_right(start, files, answers);
    lemma_driven_keeps_paths(start, files, answers);
    lemma_settled_keeps_paths(unplanned(paths, options));
    let planned = state.planned;
    let input = paths[i];
    let target = target_of(input, options);
    let reserved = claims(planned, i);
    assert(is_destination(target_of(state.paths[i], state.options), files, reserved, planned[i]));
    let dir = wanted_folder(input, options);
    let stem = file_stem_of(input)->0;
    let ext = wanted_extension(options);
    lemma_wanted_extension(options);
    if let Ok(Target::Search(search)) = target {
        let number = choose|attempt: nat|
            {
                &&& !#[trigger] taken(search, attempt, files, reserved)
                &&& forall|earlier: nat|
                    earlier < attempt ==> #[trigger] taken(search, earlier, files, reserved)
                &&& planned[i] == Ok::<Seq<char>, Seq<char>>(candidate(at_attempt(search, attempt)))
            };
        assert(!taken(search, number, files, reserved));
        lemma_candidate_is_named(input, options, number);
        assert forall|smaller: nat| smaller < number implies files.contains(
            #[trigger] named(dir, stem, ext, smaller),
        ) || (exists|j: int|
            0 <= j < i && (#[trigger] planned[j] matches Ok(path) && path_key(path) == path_key(
                named(dir, stem, ext, smaller),
            ))) by {
            assert(taken(search, smaller, files, reserved));
            lemma_candidate_is_named(input, options, smaller);
            let path = named(dir, stem, ext, smaller);
            if !files.contains(path) {
                let owner = lemma_claims_have_owners(planned, i, path_key(path));
                assert(planned[owner] matches Ok(found) && path_key(found) == path_key(path));
            }
        }
        number
    } else {
        0
    }
}

/// Settling leaves the batch what it is.
proof fn lemma_settled_keeps_paths(state: PlanState)
    ensures
        settled(state).paths == state.paths,
        settled(state).options == state.options,
        settled(state).search is None ==> settled(state).planned.len() >= state.paths.len(),
    decreases state.paths.len() - state.planned.len(),
{
    if !(state.search is Some || state.planned.len() >= state.paths.len()) {
        let next = start_next(state);
        if next.search is None {
            lemma_settled_keeps_paths(next);
        }
    }
}

/// Answers leave the batch what it is.
proof fn lemma_driven_keeps_paths(
    state: PlanState,
    files: Set<Seq<char>>,
    answers: nat,
)
    ensures
        driven(state, files, answers).paths == state.paths,
        driven(state, files, answers).options == state.options,
    decreases answers,
{
    if answers > 0 && state.search is Some {
        let search = state.search->0;
        let occupied = files.contains(candidate(search));
        let next = answered(state, occupied);
        lemma_settled_keeps_paths(
            with_choice(state, next_choice(search, occupied, state.reserved)),
        );
        lemma_driven_keeps_paths(next, files, (answers - 1) as nat);
    }
}

/// Once there is nothing left to ask, every input of the batch has its result, in order, and
/// until then the next name of the next input is what is asked for.
pub proof fn law_plans_go_on_until_every_input_is_settled(
    paths: Seq<Seq<char>>,
    options: ConversionOptions,
    answers: Seq<bool>,
)
    ensures
        ({
            let state = told(paths, options, answers);
            &&& state.search is None ==> state.planned.len() == paths.len()
            &&& state.search matches Some(search) ==> {
                let n = state.planned.len() as int;
                &&& n < paths.len()
                &&& candidate(search) == named(
                    wanted_folder(paths[n], options),
                    file_stem_of(paths[n])->0,
                    wanted_extension(options),
                    search.attempt,
                )
            }
        }),
    decreases answers.len(),
{
    law_plans_are_fair(paths, options, answers);
    let state = told(paths, options, answers);
    if answers.len() == 0 {
        lemma_settled_keeps_paths(unplanned(paths, options));
    } else {
        let before = told(paths, options, answers.drop_last());
        law_plans_are_fair(paths, options, answers.drop_last());
        law_plans_go_on_until_every_input_is_settled(paths, options, answers.drop_last());
        if let Some(search) = before.search {
            lemma_settled_keeps_paths(
                with_choice(before, next_choice(search, answers.last(), before.reserved)),
            );
        }
    }
    if let Some(search) = state.search {
        let input = paths[state.planned.len() as int];
        lemma_wanted_extension(options);
        lemma_candidate_is_named(input, options, search.attempt);
    }
}

/// A name that is free when it is asked for is the destination, and one that is not is followed
/// by the next for the same input.
pub proof fn law_answers_decide_on_the_name(
    paths: Seq<Seq<char>>,
    options: ConversionOptions,
    answers: Seq<bool>,
    occupied: bool,
)
    requires
        told(paths, options, answers).search is Some,
    ensures
        ({
            let state = told(paths, options, answers);
            let search = state.search->0;
            let n = state.planned.len() as int;
            let next = told(paths, options, answers.push(occupied));
            if occupied || state.reserved.contains(path_key(candidate(search))) {
                &&& next.planned == state.planned
                &&& next.search matches Some(on) && candidate(on) == named(
                    wanted_folder(paths[n], options),
                    file_stem_of(paths[n])->0,
                    wanted_extension(options),
                    search.attempt + 1,
                )
            } else {
                &&& next.planned.len() > n
                &&& next.planned[n] == Ok::<Seq<char>, Seq<char>>(candidate(search))
                &&& forall|i: int| 0 <= i < n ==> #[trigger] next.planned[i] == state.planned[i]
            }
        }),
{
    let state = told(paths, options, answers);
    let search = state.search->0;
    law_plans_are_fair(paths, options, answers);
    assert(answers.push(occupied).drop_last() =~= answers);
    let chosen = with_choice(state, next_choice(search, occupied, state.reserved));
    lemma_settled_adds(chosen);
    let n = state.planned.len() as int;
    if !(occupied || state.reserved.contains(path_key(candidate(search)))) {
        assert(settled(chosen).planned[n] == chosen.planned[n]);
        assert forall|i: int| 0 <= i < n implies #[trigger] settled(chosen).planned[i]
            == state.planned[i] by {
            assert(settled(chosen).planned[i] == chosen.planned[i]);
        }
    }
    law_plans_go_on_until_every_input_is_settled(paths, options, answers.push(occupied));
}

/// A search that has tried fewer than 2147483646 further names can try another.
pub proof fn law_searches_can_go_on(tried: u32)
    ensures
        tried < 2147483646 <==> tried < MAX_ATTEMPTS,
{
}

/// A step of a plan is read as it stands, and so are its results.
pub proof fn law_plan_steps_are_read_as_they_stand(step: PathStep, r: Result<String, String>)
    ensures
        r matches Ok(path) ==> outcome(r) == Ok::<Seq<char>, Seq<char>>(path@),
        r matches Err(text) ==> outcome(r) == Err::<Seq<char>, Seq<char>>(text@),
        step matches PathStep::Settled(result) ==> choice_of(step) == Choice::Settled(
            outcome(result),
        ),
        step matches PathStep::Probe(search) ==> choice_of(step) == Choice::Probe(search@),
{
}

/// The results of a plan are read one by one, in order, and so are the inputs of a batch.
pub proof fn law_plans_are_read_in_order(results: Seq<Result<String, String>>, paths: Seq<String>)
    ensures
        outcomes(results).len() == results.len(),
        forall|i: int|
            0 <= i < results.len() ==> #[trigger] outcomes(results)[i] == outcome(results[i]),
        texts(paths).len() == paths.len(),
        forall|i: int| 0 <= i < paths.len() ==> #[trigger] texts(paths)[i] == paths[i]@,
{
}

} // verus!
