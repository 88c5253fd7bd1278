//! What holds of every planned batch.

use vstd::prelude::*;

use crate::format::{extension_for, lemma_extension_names_format, output_format, OutputFormat};
use crate::model::{ConversionOptions, OutputMode};
use crate::path::{
    components, extension_of, file_name_of, file_stem_of, is_plain_name, last_dot, last_slash,
    lemma_joined, lemma_last_dot, lemma_last_slash, lemma_name_follows_key, parent_of, path_key,
    trimmed, PathKey,
};
use crate::planning::{
    answered, candidate, first_choice, has_format, next_choice, numbered_name, output_dir, settled,
    start_next, target_of, unplanned, with_choice, Choice, PlanState, SearchState, Target,
};
use crate::staging::{
    law_different_destinations_are_staged_apart, lemma_staging_extension, staging_path,
};
use crate::text::{decimal, lemma_decimal_injective, lemma_decimal_nonempty, lowercase};

verus! {

/// A search whose names are fit to be file names: the stem has characters and no slash, and
/// the extension is one that a format's files get.
pub open spec fn is_name_search(search: SearchState) -> bool {
    &&& search.stem.len() > 0
    &&& forall|i: int| 0 <= i < search.stem.len() ==> search.stem[i] != '/'
    &&& exists|format: OutputFormat| search.extension == extension_for(format)
}

/// The search with another number of names tried.
pub open spec fn at_attempt(search: SearchState, attempt: nat) -> SearchState {
    SearchState { attempt, ..search }
}

/// The claims that the first `n` results of a plan make.
pub open spec fn claims(planned: Seq<Result<Seq<char>, Seq<char>>>, n: int) -> Set<PathKey>
    decreases n,
{
    if n <= 0 {
        Set::empty()
    } else {
        match planned[n - 1] {
            Ok(path) => claims(planned, n - 1).insert(path_key(path)),
            Err(_) => claims(planned, n - 1),
        }
    }
}

/// Whether a name that a search tries is taken, by a file or by a claim.
pub open spec fn taken(
    search: SearchState,
    attempt: nat,
    files: Set<Seq<char>>,
    reserved: Set<PathKey>,
) -> bool {
    let path = candidate(at_attempt(search, attempt));
    files.contains(path) || reserved.contains(path_key(path))
}

/// Whether `result` is what an input is to get, where `files` stand on disk and `reserved`
/// is claimed: of a search, the first name that is not taken.
pub open spec fn is_destination(
    target: Result<Target, Seq<char>>,
    files: Set<Seq<char>>,
    reserved: Set<PathKey>,
    result: Result<Seq<char>, Seq<char>>,
) -> bool {
    match target {
        Ok(Target::Search(search)) => exists|attempt: nat|
            {
                &&& !#[trigger] taken(search, attempt, files, reserved)
                &&& forall|earlier: nat|
                    earlier < attempt ==> #[trigger] taken(search, earlier, files, reserved)
                &&& result == Ok::<Seq<char>, Seq<char>>(candidate(at_attempt(search, attempt)))
            },
        _ => first_choice(target, reserved).0 == Choice::Settled(result),
    }
}

/// Whether a plan that is under way gives every input its destination, where `files` stand
/// on disk, and has tried only names that are taken for the next input.
pub open spec fn keeps_to(state: PlanState, files: Set<Seq<char>>) -> bool {
    &&& state.planned.len() <= state.paths.len()
    &&& state.reserved == claims(state.planned, state.planned.len() as int)
    &&& forall|i: int|
        0 <= i < state.planned.len() ==> is_destination(
            target_of(state.paths[i], state.options),
            files,
            claims(state.planned, i),
            #[trigger] state.planned[i],
        )
    &&& match state.search {
        Some(search) => {
            &&& state.planned.len() < state.paths.len()
            &&& target_of(state.paths[state.planned.len() as int], state.options) == Ok::<
                Target,
                Seq<char>,
            >(Target::Search(at_attempt(search, 0)))
            &&& forall|earlier: nat|
                earlier < search.attempt ==> #[trigger] taken(
                    search,
                    earlier,
                    files,
                    state.reserved,
                )
        },
        None => true,
    }
}

/// The claims of a plan do not change when results are added.
proof fn lemma_claims_prefix(
    planned: Seq<Result<Seq<char>, Seq<char>>>,
    more: Seq<Result<Seq<char>, Seq<char>>>,
    n: int,
)
    requires
        n <= planned.len() <= more.len(),
        forall|i: int| 0 <= i < planned.len() ==> planned[i] == more[i],
    ensures
        claims(planned, n) == claims(more, n),
    decreases n,
{
    if n > 0 {
        lemma_claims_prefix(planned, more, n - 1);
    }
}

/// What a plan claims is what its results name.
proof fn lemma_claims_hold_results(planned: Seq<Result<Seq<char>, Seq<char>>>, n: int, i: int)
    requires
        0 <= i < n <= planned.len(),
        planned[i] is Ok,
    ensures
        claims(planned, n).contains(path_key(planned[i]->Ok_0)),
    decreases n,
{
    if i < n - 1 {
        lemma_claims_hold_results(planned, n - 1, i);
    }
}

/// Adding a destination keeps a plan to its files.
proof fn lemma_push_keeps(
    state: PlanState,
    files: Set<Seq<char>>,
    result: Result<Seq<char>, Seq<char>>,
    reserved: Set<PathKey>,
)
    requires
        keeps_to(state, files),
        state.planned.len() < state.paths.len(),
        is_destination(
            target_of(state.paths[state.planned.len() as int], state.options),
            files,
            state.reserved,
            result,
        ),
        reserved == (match result {
            Ok(path) => state.reserved.insert(path_key(path)),
            Err(_) => state.reserved,
        }),
    ensures
        keeps_to(with_choice(state, (Choice::Settled(result), reserved)), files),
{
    let next = with_choice(state, (Choice::Settled(result), reserved));
    let n = state.planned.len() as int;
    lemma_claims_prefix(state.planned, next.planned, n);
    assert forall|i: int| 0 <= i < next.planned.len() implies is_destination(
        target_of(next.paths[i], next.options),
        files,
        claims(next.planned, i),
        #[trigger] next.planned[i],
    ) by {
        lemma_claims_prefix(state.planned, next.planned, i);
        if i < n {
            assert(next.planned[i] == state.planned[i]);
        }
    }
}

/// Settling keeps a plan to its files.
proof fn lemma_settled_keeps(state: PlanState, files: Set<Seq<char>>)
    requires
        keeps_to(state, files),
    ensures
        keeps_to(settled(state), files),
        settled(state).search is None ==> settled(state).planned.len() == state.paths.len(),
        settled(state).paths == state.paths,
        settled(state).options == state.options,
    decreases state.paths.len() - state.planned.len(),
{
    if !(state.search is Some || state.planned.len() >= state.paths.len()) {
        let target = target_of(state.paths[state.planned.len() as int], state.options);
        let next = start_next(state);
        match first_choice(target, state.reserved).0 {
            Choice::Settled(result) => {
                lemma_push_keeps(
                    state,
                    files,
                    result,
                    first_choice(target, state.reserved).1,
                );
                lemma_settled_keeps(next, files);
            },
            Choice::Probe(search) => {
                assert(at_attempt(search, 0) == search);
            },
        }
    }
}

/// A batch of which nothing is planned keeps to whatever files there are, and so does what
/// planning starts with.
pub proof fn law_planning_starts_right(
    paths: Seq<Seq<char>>,
    options: ConversionOptions,
    files: Set<Seq<char>>,
)
    ensures
        keeps_to(settled(unplanned(paths, options)), files),
        settled(unplanned(paths, options)).search is None ==> settled(
            unplanned(paths, options),
        ).planned.len() == paths.len(),
{
    lemma_settled_keeps(unplanned(paths, options), files);
}

/// A plan whose questions are answered from the files that stand on disk gives every input
/// its destination: the path it replaces, or the first name in the search that neither a
/// file nor an earlier input of the batch has. Once no question is left, every input has
/// its result.
pub proof fn law_answers_keep_the_plan_right(state: PlanState, files: Set<Seq<char>>)
    requires
        keeps_to(state, files),
        state.search is Some,
    ensures
        ({
            let next = answered(state, files.contains(candidate(state.search->0)));
            &&& keeps_to(next, files)
            &&& next.search is None ==> next.planned.len() == state.paths.len()
            &&& next.paths == state.paths
            &&& next.options == state.options
        }),
{
    let search = state.search->0;
    let occupied = files.contains(candidate(search));
    let choice = next_choice(search, occupied, state.reserved);
    let next = with_choice(state, choice);
    assert(at_attempt(search, search.attempt) == search);
    let start = at_attempt(search, 0);
    assert forall|k: nat| #[trigger]
        taken(search, k, files, state.reserved) == taken(start, k, files, state.reserved) by {
        assert(at_attempt(search, k) == at_attempt(start, k));
    }
    if occupied || state.reserved.contains(path_key(candidate(search))) {
        let on = at_attempt(search, search.attempt + 1);
        assert(taken(search, search.attempt, files, state.reserved));
        assert(at_attempt(on, 0) == start);
        assert forall|earlier: nat| earlier < on.attempt implies #[trigger] taken(
            on,
            earlier,
            files,
            state.reserved,
        ) by {
            assert(at_attempt(on, earlier) == at_attempt(search, earlier));
            assert(taken(search, earlier, files, state.reserved));
        }
    } else {
        let result = Ok::<Seq<char>, Seq<char>>(candidate(search));
        assert(!taken(start, search.attempt, files, state.reserved));
        assert forall|earlier: nat| earlier < search.attempt implies #[trigger] taken(
            start,
            earlier,
            files,
            state.reserved,
        ) by {
            assert(taken(search, earlier, files, state.reserved));
        }
        assert(at_attempt(start, search.attempt) == search);
        lemma_push_keeps(state, files, result, choice.1);
    }
    lemma_settled_keeps(next, files);
}

/// Unless originals are to be replaced, nothing that stands on disk is ever chosen.
pub proof fn law_no_file_is_overwritten(state: PlanState, files: Set<Seq<char>>, i: int)
    requires
        keeps_to(state, files),
        0 <= i < state.planned.len(),
        state.planned[i] is Ok,
        state.options.output_mode != OutputMode::ReplaceOriginal,
    ensures
        !files.contains(state.planned[i]->Ok_0),
{
    assert(is_destination(
        target_of(state.paths[i], state.options),
        files,
        claims(state.planned, i),
        state.planned[i],
    ));
}

/// Where originals are replaced, a second claim to one destination is an error and claims
/// nothing.
pub proof fn law_second_claim_to_a_fixed_path_fails(
    path: Seq<char>,
    reserved: Set<PathKey>,
)
    requires
        reserved.contains(path_key(path)),
    ensures
        first_choice(Ok(Target::Fixed(path)), reserved) == (
            Choice::Settled(Err("Another file in this batch already writes to "@ + path)),
            reserved,
        ),
{
}

/// The names made of an input's stem and a format's extension are proper.
pub proof fn lemma_is_name_search(input: Seq<char>, search: SearchState, format: OutputFormat)
    requires
        file_stem_of(input) == Some(search.stem),
        search.extension == extension_for(format),
    ensures
        is_name_search(search),
{
    let t = trimmed(input);
    let name = file_name_of(input)->0;
    lemma_last_slash(t);
    assert forall|i: int| 0 <= i < name.len() implies name[i] != '/' by {
        assert(name[i] == t[last_slash(t) + 1 + i]);
    }
    lemma_last_dot(name);
    assert forall|i: int| 0 <= i < search.stem.len() implies search.stem[i] != '/' by {
        assert(search.stem[i] == name[i]);
    }
}

/// Every search that an input leads to has proper names.
pub proof fn lemma_target_is_name_search(input: Seq<char>, options: ConversionOptions)
    ensures
        target_of(input, options) matches Ok(Target::Search(search)) ==> is_name_search(search),
{
    if let Ok(Target::Search(search)) = target_of(input, options) {
        lemma_is_name_search(input, search, output_format(options.format@)->0);
    }
}

/// Every name that a search tries is a plain file name.
pub proof fn lemma_numbered_name(search: SearchState)
    requires
        is_name_search(search),
    ensures
        is_plain_name(numbered_name(search.stem, search.extension, search.attempt)),
        numbered_name(search.stem, search.extension, search.attempt) != seq!['.', '.'],
        last_dot(numbered_name(search.stem, search.extension, search.attempt)) == numbered_name(
            search.stem,
            search.extension,
            search.attempt,
        ).len() - search.extension.len() - 1,
        last_dot(numbered_name(search.stem, search.extension, search.attempt)) > 0,
{
    reveal_strlit(".");
    reveal_strlit("_");
    let format = choose|format: OutputFormat| search.extension == extension_for(format);
    lemma_extension_names_format(format);
    lemma_decimal_nonempty(search.attempt);
    let name = numbered_name(search.stem, search.extension, search.attempt);
    let dot = name.len() - search.extension.len() - 1;
    lemma_last_dot(name);
    assert(name[dot] == '.');
    assert forall|i: int| dot < i < name.len() implies 'a' <= #[trigger] name[i] <= 'z' by {
        assert(name[i] == search.extension[i - dot - 1]);
    }
    assert forall|i: int| 0 <= i < name.len() implies name[i] != '/' by {
        if i < search.stem.len() {
            assert(name[i] == search.stem[i]);
        } else if i > dot {
            assert('a' <= name[i] <= 'z');
        } else if search.attempt > 0 && search.stem.len() < i < dot {
            assert(name[i] == decimal(search.attempt)[i - search.stem.len() - 1]);
        }
    }
    assert(name.last() != '.');
}

/// Whatever name a search settles on, the file lies in the search's directory and has the
/// extension of the output format.
pub proof fn law_candidates_stay_in_their_directory(search: SearchState)
    requires
        is_name_search(search),
    ensures
        parent_of(candidate(search)) is Some,
        path_key(parent_of(candidate(search))->0) == path_key(search.dir),
        extension_of(candidate(search)) == Some(search.extension),
{
    lemma_numbered_name(search);
    let name = numbered_name(search.stem, search.extension, search.attempt);
    lemma_joined(search.dir, name);
    assert(name.skip(last_dot(name) + 1) =~= search.extension);
}

/// A search never tries one path twice.
pub proof fn law_candidates_differ(search: SearchState, a: nat, b: nat)
    requires
        is_name_search(search),
        a != b,
    ensures
        path_key(candidate(at_attempt(search, a))) != path_key(candidate(at_attempt(search, b))),
{
    let left = numbered_name(search.stem, search.extension, a);
    let right = numbered_name(search.stem, search.extension, b);
    lemma_numbered_name(at_attempt(search, a));
    lemma_numbered_name(at_attempt(search, b));
    lemma_joined(search.dir, left);
    lemma_joined(search.dir, right);
    reveal_strlit(".");
    reveal_strlit("_");
    let at = search.stem.len() as int;
    if left == right {
        if a == 0 {
            assert(left[at] == '.' && right[at] == '_');
        } else if b == 0 {
            assert(left[at] == '_' && right[at] == '.');
        } else {
            let n = decimal(a).len() as int;
            assert(decimal(b).len() == n);
            assert(left.subrange(at + 1, at + 1 + n) =~= decimal(a));
            assert(right.subrange(at + 1, at + 1 + n) =~= decimal(b));
            lemma_decimal_injective(a, b);
        }
        assert(false);
    }
    assert(components(search.dir).push(left).last() == left);
    assert(components(search.dir).push(right).last() == right);
}

/// The keys of the first `n` paths that a search tries.
spec fn first_candidates(search: SearchState, n: nat) -> Set<PathKey>
    decreases n,
{
    if n == 0 {
        Set::empty()
    } else {
        first_candidates(search, (n - 1) as nat).insert(
            path_key(candidate(at_attempt(search, (n - 1) as nat))),
        )
    }
}

/// The first `n` paths that a search tries are `n` different ones.
proof fn lemma_first_candidates(search: SearchState, n: nat)
    requires
        is_name_search(search),
    ensures
        first_candidates(search, n).finite(),
        first_candidates(search, n).len() == n,
        forall|k: PathKey|
            first_candidates(search, n).contains(k) ==> exists|a: nat|
                a < n && k == path_key(#[trigger] candidate(at_attempt(search, a))),
    decreases n,
{
    if n > 0 {
        let m = (n - 1) as nat;
        lemma_first_candidates(search, m);
        let last = path_key(candidate(at_attempt(search, m)));
        if first_candidates(search, m).contains(last) {
            let a = choose|a: nat|
                a < m && last == path_key(#[trigger] candidate(at_attempt(search, a)));
            law_candidates_differ(search, a, m);
        }
        assert forall|k: PathKey|
            first_candidates(search, n).contains(k) implies exists|a: nat|
            a < n && k == path_key(#[trigger] candidate(at_attempt(search, a))) by {
            if k == last {
                assert(m < n && k == path_key(candidate(at_attempt(search, m))));
            } else {
                let a = choose|a: nat|
                    a < m && k == path_key(#[trigger] candidate(at_attempt(search, a)));
                assert(a < n && k == path_key(candidate(at_attempt(search, a))));
            }
        }
    }
}

/// However many paths are taken, a search finds a free one after at most that many names.
pub proof fn law_some_name_is_free(search: SearchState, used: Set<PathKey>)
    requires
        is_name_search(search),
        used.finite(),
    ensures
        exists|a: nat|
            a <= used.len() && !used.contains(
                path_key(#[trigger] candidate(at_attempt(search, a))),
            ),
{
    let n = used.len() + 1;
    lemma_first_candidates(search, n);
    if forall|a: nat|
        a <= used.len() ==> used.contains(
            path_key(#[trigger] candidate(at_attempt(search, a))),
        ) {
        assert(first_candidates(search, n).subset_of(used)) by {
            assert forall|k: PathKey|
                first_candidates(search, n).contains(k) implies used.contains(k) by {
                let a = choose|a: nat|
                    a < n && k == path_key(#[trigger] candidate(at_attempt(search, a)));
                assert(used.contains(path_key(candidate(at_attempt(search, a)))));
            }
        }
        vstd::set_lib::lemma_len_subset(first_candidates(search, n), used);
        assert(false);
    }
}

/// The keys of the paths that files stand at and that are claimed.
pub open spec fn used_keys(
    files: Set<Seq<char>>,
    reserved: Set<PathKey>,
) -> Set<PathKey> {
    files.map(|f: Seq<char>| path_key(f)).union(reserved)
}

/// There are no more used keys than files and claims, and a name whose key is not used is not
/// taken.
proof fn lemma_used_keys(files: Set<Seq<char>>, reserved: Set<PathKey>)
    requires
        files.finite(),
        reserved.finite(),
    ensures
        used_keys(files, reserved).finite(),
        used_keys(files, reserved).len() <= files.len() + reserved.len(),
        forall|search: SearchState, attempt: nat|
            #![trigger taken(search, attempt, files, reserved)]
            taken(search, attempt, files, reserved) ==> used_keys(files, reserved).contains(
                path_key(candidate(at_attempt(search, attempt))),
            ),
{
    let key = |f: Seq<char>| path_key(f);
    let mapped = files.map(key);
    files.lemma_map_finite(key);
    vstd::set_lib::lemma_map_size_bound(files, mapped, key);
    vstd::set_lib::lemma_len_union(mapped, reserved);
    assert forall|search: SearchState, attempt: nat|
        #![trigger taken(search, attempt, files, reserved)]
        taken(search, attempt, files, reserved) implies used_keys(files, reserved).contains(
        path_key(candidate(at_attempt(search, attempt))),
    ) by {
        let path = candidate(at_attempt(search, attempt));
        if files.contains(path) {
            assert(mapped.contains(key(path)));
        }
    }
}

/// The claims of a plan are finite.
proof fn lemma_claims_finite(planned: Seq<Result<Seq<char>, Seq<char>>>, n: int)
    ensures
        claims(planned, n).finite(),
    decreases n,
{
    if n > 0 {
        lemma_claims_finite(planned, n - 1);
    }
}

/// A search has never tried more names than there are files and claims, so its counter does
/// not run out while those are fewer than it can count.
pub proof fn law_searches_try_few_names(state: PlanState, files: Set<Seq<char>>)
    requires
        keeps_to(state, files),
        files.finite(),
        state.search is Some,
    ensures
        state.search->0.attempt <= files.len() + state.reserved.len(),
{
    let search = state.search->0;
    lemma_claims_finite(state.planned, state.planned.len() as int);
    lemma_used_keys(files, state.reserved);
    let used = used_keys(files, state.reserved);
    lemma_target_is_name_search(state.paths[state.planned.len() as int], state.options);
    let start = at_attempt(search, 0);
    lemma_first_candidates(start, search.attempt);
    assert(first_candidates(start, search.attempt).subset_of(used)) by {
        assert forall|k: PathKey|
            first_candidates(start, search.attempt).contains(k) implies used.contains(k) by {
            let a = choose|a: nat|
                a < search.attempt && k == path_key(#[trigger] candidate(at_attempt(start, a)));
            assert(taken(search, a, files, state.reserved));
            assert(at_attempt(start, a) == at_attempt(search, a));
        }
    }
    vstd::set_lib::lemma_len_subset(first_candidates(start, search.attempt), used);
}

/// The plan after a number of answers that are given from the files on disk.
pub open spec fn driven(state: PlanState, files: Set<Seq<char>>, answers: nat) -> PlanState
    decreases answers,
{
    if answers == 0 || state.search is None {
        state
    } else {
        driven(
            answered(state, files.contains(candidate(state.search->0))),
            files,
            (answers - 1) as nat,
        )
    }
}

/// However many answers are given, the plan stays right.
pub proof fn law_driven_plans_stay_right(state: PlanState, files: Set<Seq<char>>, answers: nat)
    requires
        keeps_to(state, files),
    ensures
        keeps_to(driven(state, files, answers), files),
        driven(state, files, answers).paths == state.paths,
        driven(state, files, answers).options == state.options,
    decreases answers,
{
    if answers > 0 && state.search is Some {
        law_answers_keep_the_plan_right(state, files);
        law_driven_plans_stay_right(
            answered(state, files.contains(candidate(state.search->0))),
            files,
            (answers - 1) as nat,
        );
    }
}

/// Settling only adds results.
proof fn lemma_settled_grows(state: PlanState)
    ensures
        settled(state).planned.len() >= state.planned.len(),
    decreases state.paths.len() - state.planned.len(),
{
    if !(state.search is Some || state.planned.len() >= state.paths.len()) {
        let next = start_next(state);
        if next.search is None {
            lemma_settled_grows(next);
        }
    }
}

/// A search that has a free name ahead settles.
proof fn lemma_search_settles(state: PlanState, files: Set<Seq<char>>, free: nat)
    requires
        keeps_to(state, files),
        state.search is Some,
        state.search->0.attempt <= free,
        !taken(state.search->0, free, files, state.reserved),
    ensures
        exists|answers: nat|
            (#[trigger] driven(state, files, answers)).planned.len() > state.planned.len(),
    decreases free - state.search->0.attempt,
{
    let search = state.search->0;
    let next = answered(state, files.contains(candidate(search)));
    law_answers_keep_the_plan_right(state, files);
    assert(at_attempt(search, search.attempt) == search);
    if taken(search, search.attempt, files, state.reserved) {
        let on = at_attempt(search, search.attempt + 1);
        assert(next.search == Some(on));
        assert(at_attempt(on, free) == at_attempt(search, free));
        lemma_search_settles(next, files, free);
        let answers = choose|answers: nat|
            (#[trigger] driven(next, files, answers)).planned.len() > next.planned.len();
        assert(driven(state, files, answers + 1) == driven(next, files, answers));
    } else {
        let after_choice = with_choice(
            state,
            next_choice(search, files.contains(candidate(search)), state.reserved),
        );
        lemma_settled_grows(after_choice);
        assert(driven(next, files, 0) == next);
        assert(driven(state, files, 1) == driven(next, files, 0));
    }
}

/// Answers can be given in two lots.
proof fn lemma_driven_twice(state: PlanState, files: Set<Seq<char>>, a: nat, b: nat)
    ensures
        driven(driven(state, files, a), files, b) == driven(state, files, a + b),
    decreases a,
{
    if a > 0 && state.search is Some {
        let next = answered(state, files.contains(candidate(state.search->0)));
        lemma_driven_twice(next, files, (a - 1) as nat, b);
    }
}

/// Where finitely many files stand on disk, planning comes to an end.
pub proof fn law_planning_ends(state: PlanState, files: Set<Seq<char>>)
    requires
        keeps_to(state, files),
        files.finite(),
    ensures
        exists|answers: nat| (#[trigger] driven(state, files, answers)).search is None,
    decreases state.paths.len() - state.planned.len(),
{
    if state.search is None {
        assert(driven(state, files, 0).search is None);
    } else {
        let search = state.search->0;
        lemma_claims_finite(state.planned, state.planned.len() as int);
        lemma_used_keys(files, state.reserved);
        let used = used_keys(files, state.reserved);
        lemma_target_is_name_search(state.paths[state.planned.len() as int], state.options);
        let start = at_attempt(search, 0);
        law_some_name_is_free(start, used);
        let free = choose|a: nat|
            a <= used.len() && !used.contains(
                path_key(#[trigger] candidate(at_attempt(start, a))),
            );
        assert(at_attempt(start, free) == at_attempt(search, free));
        assert(!taken(search, free, files, state.reserved));
        if free < search.attempt {
            assert(taken(search, free, files, state.reserved));
        }
        lemma_search_settles(state, files, free);
        let answers = choose|answers: nat|
            (#[trigger] driven(state, files, answers)).planned.len() > state.planned.len();
        let later = driven(state, files, answers);
        law_driven_plans_stay_right(state, files, answers);
        law_planning_ends(later, files);
        let more = choose|more: nat| (#[trigger] driven(later, files, more)).search is None;
        lemma_driven_twice(state, files, answers, more);
        assert(driven(state, files, answers + more).search is None);
    }
}

/// An input gets one result, given the files on disk and the claims before it.
proof fn lemma_destination_is_unique(
    target: Result<Target, Seq<char>>,
    files: Set<Seq<char>>,
    reserved: Set<PathKey>,
    a: Result<Seq<char>, Seq<char>>,
    b: Result<Seq<char>, Seq<char>>,
)
    requires
        is_destination(target, files, reserved, a),
        is_destination(target, files, reserved, b),
    ensures
        a == b,
{
    if let Ok(Target::Search(search)) = target {
        let x = choose|attempt: nat|
            {
                &&& !#[trigger] taken(search, attempt, files, reserved)
                &&& forall|earlier: nat|
                    earlier < attempt ==> #[trigger] taken(search, earlier, files, reserved)
                &&& a == Ok::<Seq<char>, Seq<char>>(candidate(at_attempt(search, attempt)))
            };
        let y = choose|attempt: nat|
            {
                &&& !#[trigger] taken(search, attempt, files, reserved)
                &&& forall|earlier: nat|
                    earlier < attempt ==> #[trigger] taken(search, earlier, files, reserved)
                &&& b == Ok::<Seq<char>, Seq<char>>(candidate(at_attempt(search, attempt)))
            };
        if x < y {
            assert(taken(search, x, files, reserved));
        } else if y < x {
            assert(taken(search, y, files, reserved));
        }
    }
}

/// Whether a plan keeps to its files, taken as a whole.
#[verifier::opaque]
spec fn is_right(state: PlanState, files: Set<Seq<char>>) -> bool {
    keeps_to(state, files)
}

/// Two right plans give an input the same result if the same is claimed before it.
proof fn lemma_results_agree(
    a: PlanState,
    b: PlanState,
    files: Set<Seq<char>>,
    i: int,
    j: int,
)
    requires
        is_right(a, files),
        is_right(b, files),
        0 <= i < a.planned.len(),
        0 <= j < b.planned.len(),
        target_of(a.paths[i], a.options) == target_of(b.paths[j], b.options),
        claims(a.planned, i) == claims(b.planned, j),
    ensures
        a.planned[i] == b.planned[j],
{
    reveal(is_right);
    lemma_destination_is_unique(
        target_of(a.paths[i], a.options),
        files,
        claims(a.planned, i),
        a.planned[i],
        b.planned[j],
    );
}

/// Two right plans, one for a batch and one for the batch without an input that failed, agree
/// on the first results of the shorter one, and so on what these claim.
proof fn lemma_plans_agree(
    whole: PlanState,
    rest: PlanState,
    files: Set<Seq<char>>,
    i: int,
    n: int,
)
    requires
        is_right(whole, files),
        is_right(rest, files),
        0 <= i < whole.planned.len() <= whole.paths.len(),
        whole.planned[i] is Err,
        rest.paths == whole.paths.remove(i),
        rest.options == whole.options,
        0 <= n <= rest.planned.len(),
        n < whole.planned.len(),
    ensures
        n <= i ==> claims(rest.planned, n) == claims(whole.planned, n),
        n >= i ==> claims(rest.planned, n) == claims(whole.planned, n + 1),
        forall|j: int|
            0 <= j < n ==> #[trigger] rest.planned[j] == whole.planned[if j < i {
                j
            } else {
                j + 1
            }],
    decreases n,
{
    if n > 0 {
        lemma_plans_agree(whole, rest, files, i, n - 1);
        let j = n - 1;
        let k = if j < i {
            j
        } else {
            j + 1
        };
        assert(rest.paths[j] == whole.paths[k]);
        lemma_results_agree(whole, rest, files, k, j);
        assert(claims(rest.planned, n) == claims(whole.planned, k + 1));
    }
    if n == i {
        assert(claims(whole.planned, n + 1) == claims(whole.planned, n));
    }
}

/// An input that fails planning claims no name and changes no other input's destination: the
/// batch without it is planned in the same way.
pub proof fn law_failed_inputs_change_no_destination(
    paths: Seq<Seq<char>>,
    options: ConversionOptions,
    files: Set<Seq<char>>,
    i: int,
    answers: nat,
    fewer: nat,
)
    requires
        0 <= i < paths.len(),
        driven(settled(unplanned(paths, options)), files, answers).search is None,
        driven(settled(unplanned(paths, options)), files, answers).planned[i] is Err,
        driven(settled(unplanned(paths.remove(i), options)), files, fewer).search is None,
    ensures
        driven(settled(unplanned(paths.remove(i), options)), files, fewer).planned == driven(
            settled(unplanned(paths, options)),
            files,
            answers,
        ).planned.remove(i),
{
    let rest_paths = paths.remove(i);
    lemma_complete_plan(paths, options, files, answers);
    lemma_complete_plan(rest_paths, options, files, fewer);
    let whole = driven(settled(unplanned(paths, options)), files, answers);
    let rest = driven(settled(unplanned(rest_paths, options)), files, fewer);
    reveal(is_right);
    lemma_plans_agree(whole, rest, files, i, rest.planned.len() as int);
    assert(rest.planned =~= whole.planned.remove(i));
}

/// A plan without an open question is right and has a result for every input.
proof fn lemma_complete_plan(
    paths: Seq<Seq<char>>,
    options: ConversionOptions,
    files: Set<Seq<char>>,
    answers: nat,
)
    requires
        driven(settled(unplanned(paths, options)), files, answers).search is None,
    ensures
        keeps_to(driven(settled(unplanned(paths, options)), files, answers), files),
        driven(settled(unplanned(paths, options)), files, answers).paths == paths,
        driven(settled(unplanned(paths, options)), files, answers).options == options,
        driven(settled(unplanned(paths, options)), files, answers).planned.len() == paths.len(),
{
    let start = settled(unplanned(paths, options));
    lemma_settled_keeps(unplanned(paths, options), files);
    law_driven_plans_stay_right(start, files, answers);
    lemma_driven_is_complete(start, files, answers);
}

/// However many answers are given, a plan without an open question has a result for every
/// input.
proof fn lemma_driven_is_complete(state: PlanState, files: Set<Seq<char>>, answers: nat)
    requires
        keeps_to(state, files),
        state.search is None ==> state.planned.len() == state.paths.len(),
    ensures
        driven(state, files, answers).search is None ==> driven(state, files, answers).planned.len()
            == state.paths.len(),
    decreases answers,
{
    if answers > 0 && state.search is Some {
        law_answers_keep_the_plan_right(state, files);
        lemma_driven_is_complete(
            answered(state, files.contains(candidate(state.search->0))),
            files,
            (answers - 1) as nat,
        );
    }
}

/// Whether an input with the given target can end up at `path`.
pub open spec fn can_go_to(target: Result<Target, Seq<char>>, path: Seq<char>) -> bool {
    match target {
        Ok(Target::Fixed(fixed)) => path == fixed,
        Ok(Target::Search(search)) => exists|attempt: nat|
            path == #[trigger] candidate(at_attempt(search, attempt)),
        Err(_) => false,
    }
}

/// Every destination is, by its extension, a file of the output format.
pub proof fn law_destinations_have_the_output_format(
    input: Seq<char>,
    options: ConversionOptions,
    path: Seq<char>,
)
    requires
        can_go_to(target_of(input, options), path),
    ensures
        output_format(options.format@) is Some,
        has_format(path, output_format(options.format@)->0),
        file_name_of(path) is Some,
{
    let format = output_format(options.format@)->0;
    lemma_extension_names_format(format);
    assert(lowercase(Seq::empty()).len() == 0);
    let search = SearchState {
        dir: output_dir(input, options)->Ok_0,
        stem: file_stem_of(input)->0,
        extension: extension_for(format),
        attempt: 0,
    };
    let attempt = match target_of(input, options) {
        Ok(Target::Search(_)) => choose|attempt: nat|
            path == #[trigger] candidate(at_attempt(search, attempt)),
        _ => 0,
    };
    if !(path == input && has_format(input, format)) {
        let found = at_attempt(search, attempt);
        assert(path == candidate(found));
        lemma_is_name_search(input, found, format);
        law_candidates_stay_in_their_directory(found);
        assert(lowercase(found.extension) =~= found.extension) by {
            assert forall|i: int| 0 <= i < found.extension.len() implies lowercase(
                found.extension,
            )[i] == found.extension[i] by {}
        }
        lemma_jpeg_is_no_extension(format);
    }
}

/// No format's files get the extension `jpeg` or `tmp`.
pub proof fn lemma_jpeg_is_no_extension(format: OutputFormat)
    ensures
        extension_for(format) != "jpeg"@,
        extension_for(format) != "tmp"@,
{
    reveal_strlit("jpeg");
    reveal_strlit("jpg");
    reveal_strlit("png");
    reveal_strlit("webp");
    reveal_strlit("avif");
    reveal_strlit("gif");
    reveal_strlit("bmp");
    reveal_strlit("tiff");
    reveal_strlit("tmp");
    assert("jpeg"@[0] == 'j' && "tmp"@[1] == 'm' && "tiff"@[1] == 'i');
    assert(extension_for(format)[0] != 'j' || extension_for(format).len() == 3);
    assert(extension_for(format)[0] != 't' || extension_for(format)[1] == 'i');
    assert("tmp"@[0] == 't');
}

/// No destination is ever a staging file, so parallel conversions of a batch keep out of each
/// other's way.
pub proof fn law_no_destination_is_a_staging_file(
    input: Seq<char>,
    options: ConversionOptions,
    path: Seq<char>,
    output: Seq<char>,
    hash: u64,
)
    requires
        can_go_to(target_of(input, options), path),
    ensures
        path_key(path) != path_key(staging_path(output, hash)),
{
    let format = output_format(options.format@)->0;
    law_destinations_have_the_output_format(input, options, path);
    lemma_staging_extension(output, hash);
    lemma_jpeg_is_no_extension(format);
    if path_key(path) == path_key(staging_path(output, hash)) {
        lemma_name_follows_key(path, staging_path(output, hash));
        reveal_strlit("tmp");
        reveal_strlit("jpeg");
        assert(lowercase("tmp"@) =~= "tmp"@);
        assert("tmp"@[0] != "jpeg"@[0]);
        assert(false);
    }
}

/// Where originals are replaced by files of another format, no original that is removed is
/// the destination of another input.
pub proof fn law_removed_originals_are_no_destinations(
    input: Seq<char>,
    output: Seq<char>,
    other: Seq<char>,
    options: ConversionOptions,
    path: Seq<char>,
)
    requires
        options.output_mode == OutputMode::ReplaceOriginal,
        can_go_to(target_of(input, options), output),
        path_key(input) != path_key(output),
        can_go_to(target_of(other, options), path),
    ensures
        path_key(input) != path_key(path),
{
    let format = output_format(options.format@)->0;
    law_destinations_have_the_output_format(other, options, path);
    assert(!has_format(input, format));
    if path_key(input) == path_key(path) {
        lemma_name_follows_key(input, path);
        assert(false);
    }
}

/// An input that is looked for a name can go to whichever is tried.
proof fn lemma_can_go_to_candidate(target: Result<Target, Seq<char>>, search: SearchState)
    requires
        target == Ok::<Target, Seq<char>>(Target::Search(at_attempt(search, 0))),
    ensures
        can_go_to(target, candidate(search)),
{
    if let Ok(Target::Search(start)) = target {
        assert(at_attempt(start, search.attempt) == search);
        assert(candidate(search) == candidate(at_attempt(start, search.attempt)));
    }
}

/// A batch after a number of answers, whatever they were.
pub open spec fn told(
    paths: Seq<Seq<char>>,
    options: ConversionOptions,
    answers: Seq<bool>,
) -> PlanState
    decreases answers.len(),
{
    if answers.len() == 0 {
        settled(unplanned(paths, options))
    } else {
        answered(told(paths, options, answers.drop_last()), answers.last())
    }
}

/// Whether a plan has claimed what its results name, has sent every input where it can go and
/// no two of them to one path, has refused no input that has somewhere to go, and looks for a
/// name of the next input.
pub open spec fn is_fair(state: PlanState) -> bool {
    &&& state.planned.len() <= state.paths.len()
    &&& state.reserved == claims(state.planned, state.planned.len() as int)
    &&& forall|i: int|
        0 <= i < state.planned.len() ==> (#[trigger] state.planned[i] matches Ok(path)
            ==> can_go_to(target_of(state.paths[i], state.options), path))
    &&& forall|i: int|
        0 <= i < state.planned.len() ==> ((#[trigger] state.planned[i]) is Err ==> first_choice(
            target_of(state.paths[i], state.options),
            claims(state.planned, i),
        ).0 == Choice::Settled(state.planned[i]))
    &&& forall|i: int, j: int|
        #![trigger state.planned[i], state.planned[j]]
        0 <= i < j < state.planned.len() && state.planned[i] is Ok && state.planned[j] is Ok
            ==> path_key(state.planned[i]->Ok_0) != path_key(state.planned[j]->Ok_0)
    &&& state.search matches Some(search) ==> {
        &&& state.planned.len() < state.paths.len()
        &&& target_of(state.paths[state.planned.len() as int], state.options) == Ok::<
            Target,
            Seq<char>,
        >(Target::Search(at_attempt(search, 0)))
    }
}

/// A result that claims a path nobody has keeps a plan fair, and so does an error.
proof fn lemma_push_is_fair(
    state: PlanState,
    result: Result<Seq<char>, Seq<char>>,
    reserved: Set<PathKey>,
)
    requires
        is_fair(state),
        state.planned.len() < state.paths.len(),
        match result {
            Ok(path) => {
                &&& can_go_to(
                    target_of(state.paths[state.planned.len() as int], state.options),
                    path,
                )
                &&& !state.reserved.contains(path_key(path))
                &&& reserved == state.reserved.insert(path_key(path))
            },
            Err(_) => {
                &&& reserved == state.reserved
                &&& first_choice(
                    target_of(state.paths[state.planned.len() as int], state.options),
                    state.reserved,
                ).0 == Choice::Settled(result)
            },
        },
    ensures
        is_fair(with_choice(state, (Choice::Settled(result), reserved))),
{
    let next = with_choice(state, (Choice::Settled(result), reserved));
    let n = state.planned.len() as int;
    lemma_claims_prefix(state.planned, next.planned, n);
    assert forall|i: int| 0 <= i < next.planned.len() && (#[trigger] next.planned[i]) is Err implies
        first_choice(target_of(next.paths[i], next.options), claims(next.planned, i)).0
        == Choice::Settled(next.planned[i]) by {
        lemma_claims_prefix(state.planned, next.planned, i);
        if i < n {
            assert(next.planned[i] == state.planned[i]);
        }
    }
    assert forall|i: int, j: int|
        #![trigger next.planned[i], next.planned[j]]
        0 <= i < j < next.planned.len() && next.planned[i] is Ok && next.planned[j] is Ok implies
        path_key(next.planned[i]->Ok_0) != path_key(next.planned[j]->Ok_0) by {
        assert(next.planned[i] == state.planned[i]);
        if j == n {
            lemma_claims_hold_results(state.planned, n, i);
        } else {
            assert(next.planned[j] == state.planned[j]);
        }
    }
}

/// Settling keeps a plan fair.
proof fn lemma_settled_is_fair(state: PlanState)
    requires
        is_fair(state),
    ensures
        is_fair(settled(state)),
        settled(state).paths == state.paths,
        settled(state).options == state.options,
    decreases state.paths.len() - state.planned.len(),
{
    if !(state.search is Some || state.planned.len() >= state.paths.len()) {
        let target = target_of(state.paths[state.planned.len() as int], state.options);
        let choice = first_choice(target, state.reserved);
        match choice.0 {
            Choice::Settled(result) => {
                lemma_push_is_fair(state, result, choice.1);
                lemma_settled_is_fair(start_next(state));
            },
            Choice::Probe(search) => {
                assert(at_attempt(search, 0) == search);
            },
        }
    }
}

/// Whatever a plan is told of the files on disk, and however they change while it is made, it
/// has claimed what its results name, has sent every input where it can go and no two of them
/// to one path, and has refused no input that has somewhere to go.
pub proof fn law_plans_are_fair(
    paths: Seq<Seq<char>>,
    options: ConversionOptions,
    answers: Seq<bool>,
)
    ensures
        is_fair(told(paths, options, answers)),
        told(paths, options, answers).paths == paths,
        told(paths, options, answers).options == options,
    decreases answers.len(),
{
    if answers.len() == 0 {
        lemma_settled_is_fair(unplanned(paths, options));
    } else {
        let state = told(paths, options, answers.drop_last());
        law_plans_are_fair(paths, options, answers.drop_last());
        if let Some(search) = state.search {
            let choice = next_choice(search, answers.last(), state.reserved);
            match choice.0 {
                Choice::Settled(result) => {
                    lemma_can_go_to_candidate(
                        target_of(paths[state.planned.len() as int], options),
                        search,
                    );
                    lemma_push_is_fair(state, result, choice.1);
                },
                Choice::Probe(on) => {
                    assert(at_attempt(on, 0) == at_attempt(search, 0));
                },
            }
            lemma_settled_is_fair(with_choice(state, choice));
        }
    }
}

/// No two inputs of a batch get one destination, whatever the plan is told of the files on
/// disk.
pub proof fn law_destinations_are_distinct(
    paths: Seq<Seq<char>>,
    options: ConversionOptions,
    answers: Seq<bool>,
    i: int,
    j: int,
)
    requires
        0 <= i < j < told(paths, options, answers).planned.len(),
        told(paths, options, answers).planned[i] is Ok,
        told(paths, options, answers).planned[j] is Ok,
    ensures
        path_key(told(paths, options, answers).planned[i]->Ok_0) != path_key(
            told(paths, options, answers).planned[j]->Ok_0,
        ),
{
    law_plans_are_fair(paths, options, answers);
}

/// Settling adds results behind those there are, and no destination unless originals are to
/// be replaced.
pub proof fn lemma_settled_adds(state: PlanState)
    requires
        state.options.output_mode != OutputMode::ReplaceOriginal,
    ensures
        state.planned.len() <= settled(state).planned.len(),
        forall|i: int|
            0 <= i < state.planned.len() ==> #[trigger] settled(state).planned[i]
                == state.planned[i],
        forall|i: int|
            state.planned.len() <= i < settled(state).planned.len()
                ==> #[trigger] settled(state).planned[i] is Err,
    decreases state.paths.len() - state.planned.len(),
{
    if !(state.search is Some || state.planned.len() >= state.paths.len()) {
        let next = start_next(state);
        if next.search is None {
            lemma_settled_adds(next);
            assert forall|i: int| 0 <= i < state.planned.len() implies #[trigger] settled(
                state,
            ).planned[i] == state.planned[i] by {
                assert(settled(next).planned[i] == next.planned[i]);
            }
            assert forall|i: int|
                state.planned.len() <= i < settled(state).planned.len() implies #[trigger] settled(
                state,
            ).planned[i] is Err by {
                if i == state.planned.len() {
                    assert(settled(next).planned[i] == next.planned[i]);
                }
            }
        }
    }
}

/// Unless originals are to be replaced, every destination is a name of which the plan was told
/// that no file has it, whatever else it was told.
pub proof fn law_destinations_were_found_free(
    paths: Seq<Seq<char>>,
    options: ConversionOptions,
    answers: Seq<bool>,
    i: int,
)
    requires
        options.output_mode != OutputMode::ReplaceOriginal,
        0 <= i < told(paths, options, answers).planned.len(),
        told(paths, options, answers).planned[i] is Ok,
    ensures
        exists|k: int|
            0 <= k < answers.len() && !#[trigger] answers[k] && (told(
                paths,
                options,
                answers.take(k),
            ).search matches Some(search) && told(paths, options, answers).planned[i] == Ok::<
                Seq<char>,
                Seq<char>,
            >(candidate(search))),
    decreases answers.len(),
{
    let start = unplanned(paths, options);
    if answers.len() == 0 {
        lemma_settled_adds(start);
        assert(settled(start).planned[i] is Err);
    } else {
        let last = answers.len() - 1;
        let before = answers.drop_last();
        let state = told(paths, options, before);
        let done = told(paths, options, answers);
        law_plans_are_fair(paths, options, before);
        assert(answers.take(last) =~= before);
        if let Some(search) = state.search {
            let next = with_choice(state, next_choice(search, answers.last(), state.reserved));
            lemma_settled_adds(next);
            assert(done.planned[i] == settled(next).planned[i]);
            if i >= state.planned.len() {
                assert(i == state.planned.len());
                assert(done.planned[i] == next.planned[i]);
                assert(!answers[last]);
            }
        }
        if i < state.planned.len() {
            assert(done.planned[i] == state.planned[i]);
            law_destinations_were_found_free(paths, options, before, i);
            let k = choose|k: int|
                0 <= k < before.len() && !#[trigger] before[k] && (told(
                    paths,
                    options,
                    before.take(k),
                ).search matches Some(search) && state.planned[i] == Ok::<Seq<char>, Seq<char>>(
                    candidate(search),
                ));
            assert(before[k] == answers[k]);
            assert(before.take(k) =~= answers.take(k));
        }
    }
}

/// Two inputs of a batch have neither their destinations nor their staging files in common,
/// nor is the destination of one the staging file of the other, whatever the plan is told of
/// the files on disk.
pub proof fn law_conversions_of_a_batch_keep_apart(
    paths: Seq<Seq<char>>,
    options: ConversionOptions,
    answers: Seq<bool>,
    i: int,
    j: int,
    hash: u64,
    other_hash: u64,
)
    requires
        0 <= i < j < told(paths, options, answers).planned.len(),
        told(paths, options, answers).planned[i] is Ok,
        told(paths, options, answers).planned[j] is Ok,
    ensures
        ({
            let path = told(paths, options, answers).planned[i]->Ok_0;
            let other = told(paths, options, answers).planned[j]->Ok_0;
            let staged = path_key(staging_path(path, hash));
            let other_staged = path_key(staging_path(other, other_hash));
            &&& path_key(path) != path_key(other)
            &&& staged != other_staged
            &&& staged != path_key(other)
            &&& other_staged != path_key(path)
        }),
{
    let path = told(paths, options, answers).planned[i]->Ok_0;
    let other = told(paths, options, answers).planned[j]->Ok_0;
    law_plans_are_fair(paths, options, answers);
    assert(can_go_to(target_of(paths[i], options), path));
    assert(can_go_to(target_of(paths[j], options), other));
    law_destinations_have_the_output_format(paths[i], options, path);
    law_destinations_have_the_output_format(paths[j], options, other);
    law_different_destinations_are_staged_apart(path, hash, other, other_hash);
    law_no_destination_is_a_staging_file(paths[j], options, other, path, hash);
    law_no_destination_is_a_staging_file(paths[i], options, path, other, other_hash);
}

} // verus!
