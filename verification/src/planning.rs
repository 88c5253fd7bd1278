//! Choosing where each converted image goes.
//!
//! Destinations are reserved one after another before any image is converted, so that no
//! two inputs of a batch end up writing to one file. Whether a file already stands at a
//! path is for the caller to find out: a search hands out one candidate at a time and is
//! told the answer.

use vstd::prelude::*;

use crate::format::{extension_for, file_extension, format_for, output_format, OutputFormat};
use crate::model::{optional, outcome, ConversionOptions, OutputMode};
use crate::path::{
    extension, extension_of, file_stem, file_stem_of, join, joined, parent, parent_of, path_key,
    same_path, texts, PathKey,
};
use crate::text::{append_decimal, decimal, lowercase, prefixed, same_text, to_lower};

verus! {

/// The destinations claimed so far. No two of them are one path.
#[derive(Debug)]
pub struct Reserved {
    paths: Vec<String>,
}

/// The keys of the paths that a vector lists.
pub open spec fn keys(paths: Seq<String>) -> Seq<PathKey> {
    paths.map_values(|p: String| path_key(p@))
}

impl View for Reserved {
    type V = Set<PathKey>;

    closed spec fn view(&self) -> Set<PathKey> {
        keys(self.paths@).to_set()
    }
}

impl Reserved {
    #[verifier::type_invariant]
    spec fn nothing_twice(self) -> bool {
        keys(self.paths@).no_duplicates()
    }

    /// Nothing claimed yet.
    pub fn new() -> (r: Reserved)
        ensures
            r@ == Set::<PathKey>::empty(),
    {
        let paths: Vec<String> = Vec::new();
        assert(keys(paths@).to_set() =~= Set::empty());
        Reserved { paths }
    }

    /// Gives every claim up.
    pub fn clear(&mut self)
        ensures
            final(self)@ == Set::<PathKey>::empty(),
    {
        *self = Reserved::new();
    }

    /// Whether a path is claimed.
    pub fn contains(&self, path: &str) -> (r: bool)
        ensures
            r == self@.contains(path_key(path@)),
    {
        let mut i: usize = 0;
        while i < self.paths.len()
            invariant
                i <= self.paths@.len(),
                forall|j: int| 0 <= j < i ==> keys(self.paths@)[j] != path_key(path@),
            decreases self.paths@.len() - i,
        {
            if same_path(self.paths[i].as_str(), path) {
                assert(keys(self.paths@)[i as int] == path_key(path@));
                return true;
            }
            i = i + 1;
        }
        false
    }

    /// Claims a path.
    pub fn insert(&mut self, path: &str)
        ensures
            final(self)@ == old(self)@.insert(path_key(path@)),
    {
        proof {
            use_type_invariant(&*self);
        }
        if self.contains(path) {
            assert(self@.insert(path_key(path@)) =~= self@);
            return;
        }
        let mut paths: Vec<String> = Vec::new();
        std::mem::swap(&mut paths, &mut self.paths);
        let ghost before = paths@;
        paths.push(path.to_owned());
        proof {
            assert(keys(paths@) =~= keys(before).push(path_key(path@)));
            keys(before).lemma_push_to_set_commute(path_key(path@));
        }
        self.paths = paths;
    }
}

/// A search for a free name in a directory: how many names were tried before.
pub struct SearchState {
    pub dir: Seq<char>,
    pub stem: Seq<char>,
    pub extension: Seq<char>,
    pub attempt: nat,
}

/// Where an input is to go, before anything is known of files and claims: one fixed path, or
/// the first free name of a search.
pub enum Target {
    Fixed(Seq<char>),
    Search(SearchState),
}

/// What a step of choosing a destination comes to: a destination or an error, or a
/// candidate to look at first.
pub enum Choice {
    Settled(Result<Seq<char>, Seq<char>>),
    Probe(SearchState),
}

/// The file name tried at a given attempt: the first is `stem.extension`, the next are
/// `stem_1.extension`, `stem_2.extension` and so on.
pub open spec fn numbered_name(stem: Seq<char>, extension: Seq<char>, attempt: nat) -> Seq<char> {
    if attempt == 0 {
        stem + "."@ + extension
    } else {
        stem + "_"@ + decimal(attempt) + "."@ + extension
    }
}

/// The path that a search tries now.
pub open spec fn candidate(search: SearchState) -> Seq<char> {
    joined(search.dir, numbered_name(search.stem, search.extension, search.attempt))
}

/// Whether the input is already a file of the format, by its extension. `jpeg` and `jpg`
/// are one format.
pub open spec fn has_format(input: Seq<char>, format: OutputFormat) -> bool {
    let ext = lowercase(
        match extension_of(input) {
            Some(e) => e,
            None => Seq::empty(),
        },
    );
    (if ext == "jpeg"@ {
        "jpg"@
    } else {
        ext
    }) == extension_for(format)
}

/// The directory that a converted file goes to.
pub open spec fn output_dir(input: Seq<char>, options: ConversionOptions) -> Result<
    Seq<char>,
    Seq<char>,
> {
    match options.output_mode {
        OutputMode::CustomFolder => match options.output_folder {
            Some(folder) => Ok(folder@),
            None => Err("Custom folder not specified"@),
        },
        _ => match parent_of(input) {
            Some(dir) => Ok(dir),
            None => Err("Cannot determine parent directory"@),
        },
    }
}

/// Where an input is to go, or why it can go nowhere.
pub open spec fn target_of(input: Seq<char>, options: ConversionOptions) -> Result<
    Target,
    Seq<char>,
> {
    match file_stem_of(input) {
        None => Err("Invalid input filename"@),
        Some(stem) => match output_format(options.format@) {
            None => Err("Unsupported output format: "@ + lowercase(options.format@)),
            Some(format) => match output_dir(input, options) {
                Err(message) => Err(message),
                Ok(dir) => {
                    let search = SearchState {
                        dir,
                        stem,
                        extension: extension_for(format),
                        attempt: 0,
                    };
                    if options.output_mode != OutputMode::ReplaceOriginal {
                        Ok(Target::Search(search))
                    } else if has_format(input, format) {
                        Ok(Target::Fixed(input))
                    } else {
                        Ok(Target::Fixed(candidate(search)))
                    }
                },
            },
        },
    }
}

/// The first step for an input, and the claims after it. A fixed path that is claimed
/// already is an error: there is no other name to fall back on.
pub open spec fn first_choice(
    target: Result<Target, Seq<char>>,
    reserved: Set<PathKey>,
) -> (Choice, Set<PathKey>) {
    match target {
        Err(message) => (Choice::Settled(Err(message)), reserved),
        Ok(Target::Fixed(path)) => if reserved.contains(path_key(path)) {
            (
                Choice::Settled(Err("Another file in this batch already writes to "@ + path)),
                reserved,
            )
        } else {
            (Choice::Settled(Ok(path)), reserved.insert(path_key(path)))
        },
        Ok(Target::Search(search)) => (Choice::Probe(search), reserved),
    }
}

/// The next step of a search once it is known whether a file stands at its candidate, and
/// the claims after it.
pub open spec fn next_choice(
    search: SearchState,
    occupied: bool,
    reserved: Set<PathKey>,
) -> (Choice, Set<PathKey>) {
    let path = candidate(search);
    if occupied || reserved.contains(path_key(path)) {
        (Choice::Probe(SearchState { attempt: search.attempt + 1, ..search }), reserved)
    } else {
        (Choice::Settled(Ok(path)), reserved.insert(path_key(path)))
    }
}

/// A search for a free name in a directory.
#[derive(Debug)]
pub struct NameSearch {
    dir: String,
    stem: String,
    extension: String,
    attempt: u32,
}

impl View for NameSearch {
    type V = SearchState;

    closed spec fn view(&self) -> SearchState {
        SearchState {
            dir: self.dir@,
            stem: self.stem@,
            extension: self.extension@,
            attempt: self.attempt as nat,
        }
    }
}

/// How many further names a search may try: its counter is a 32-bit signed number.
pub const MAX_ATTEMPTS: u32 = 0x7fff_fffe;

impl NameSearch {
    /// The path to look at.
    pub fn candidate(&self) -> (r: String)
        ensures
            r@ == candidate(self@),
    {
        let mut name: String = self.stem.clone();
        if self.attempt > 0 {
            name.append("_");
            append_decimal(&mut name, self.attempt as u64);
        }
        name.append(".");
        name.append(self.extension.as_str());
        assert(name@ =~= numbered_name(self@.stem, self@.extension, self@.attempt));
        join(self.dir.as_str(), name.as_str())
    }

    /// Whether there is another name to try after this one.
    pub fn can_go_on(&self) -> (r: bool)
        ensures
            r == (self@.attempt < MAX_ATTEMPTS),
    {
        self.attempt < MAX_ATTEMPTS
    }
}

/// What a step of choosing a destination comes to.
#[derive(Debug)]
pub enum PathStep {
    /// The destination is chosen and claimed, or cannot be chosen.
    Settled(Result<String, String>),
    /// The caller is to find out whether a file stands at the search's candidate.
    Probe(NameSearch),
}

/// What a step says.
pub open spec fn choice_of(step: PathStep) -> Choice {
    match step {
        PathStep::Settled(result) => Choice::Settled(outcome(result)),
        PathStep::Probe(search) => Choice::Probe(search@),
    }
}

/// Where an input is to go.
#[derive(Debug)]
enum Goal {
    Fixed(String),
    Search(NameSearch),
}

/// What a goal says.
closed spec fn target_view(goal: Result<Goal, String>) -> Result<Target, Seq<char>> {
    match goal {
        Ok(Goal::Fixed(path)) => Ok(Target::Fixed(path@)),
        Ok(Goal::Search(search)) => Ok(Target::Search(search@)),
        Err(message) => Err(message@),
    }
}

/// Whether the input is already a file of the format, by its extension.
fn is_of_format(input_path: &str, format: OutputFormat) -> (r: bool)
    ensures
        r == has_format(input_path@, format),
{
    let ext: String = match extension(input_path) {
        Some(e) => to_lower(e.as_str()),
        None => to_lower(""),
    };
    proof {
        reveal_strlit("");
        assert(""@ =~= Seq::empty());
    }
    if same_text(ext.as_str(), "jpeg") {
        same_text("jpg", file_extension(format))
    } else {
        same_text(ext.as_str(), file_extension(format))
    }
}

/// Where an input is to go.
fn goal_for(input_path: &str, options: &ConversionOptions) -> (r: Result<Goal, String>)
    ensures
        target_view(r) == target_of(input_path@, *options),
{
    let stem = match file_stem(input_path) {
        Some(stem) => stem,
        None => return Err("Invalid input filename".to_owned()),
    };
    let name = to_lower(options.format.as_str());
    let format = match format_for(name.as_str()) {
        Some(format) => format,
        None => {
            return Err(prefixed("Unsupported output format: ", name.as_str()));
        },
    };
    let dir = match options.output_mode {
        OutputMode::CustomFolder => match &options.output_folder {
            Some(folder) => folder.clone(),
            None => return Err("Custom folder not specified".to_owned()),
        },
        _ => match parent(input_path) {
            Some(dir) => dir,
            None => return Err("Cannot determine parent directory".to_owned()),
        },
    };
    let replacing = options.output_mode == OutputMode::ReplaceOriginal;
    if replacing && is_of_format(input_path, format) {
        return Ok(Goal::Fixed(input_path.to_owned()));
    }
    let search = NameSearch {
        dir,
        stem,
        extension: file_extension(format).to_owned(),
        attempt: 0,
    };
    if replacing {
        Ok(Goal::Fixed(search.candidate()))
    } else {
        Ok(Goal::Search(search))
    }
}

/// Starts to resolve the destination of one input.
///
/// `reserved` accumulates every destination handed out so far in this batch. Because
/// conversion runs in parallel, looking at the files alone is not enough: two inputs
/// planned at the same time would both see a free path and then race for it.
pub fn get_output_path(
    input_path: &str,
    options: &ConversionOptions,
    reserved: &mut Reserved,
) -> (r: PathStep)
    ensures
        (choice_of(r), final(reserved)@) == first_choice(
            target_of(input_path@, *options),
            old(reserved)@,
        ),
{
    match goal_for(input_path, options) {
        Err(message) => PathStep::Settled(Err(message)),
        Ok(Goal::Search(search)) => PathStep::Probe(search),
        Ok(Goal::Fixed(path)) => {
            if reserved.contains(path.as_str()) {
                let message = prefixed(
                    "Another file in this batch already writes to ",
                    path.as_str(),
                );
                PathStep::Settled(Err(message))
            } else {
                reserved.insert(path.as_str());
                PathStep::Settled(Ok(path))
            }
        },
    }
}

/// Goes on with a search, told whether a file stands at its candidate.
pub fn resume_output_path(search: NameSearch, occupied: bool, reserved: &mut Reserved) -> (r:
    PathStep)
    requires
        occupied || old(reserved)@.contains(path_key(candidate(search@))) ==> search@.attempt
            < MAX_ATTEMPTS,
    ensures
        (choice_of(r), final(reserved)@) == next_choice(search@, occupied, old(reserved)@),
{
    let path = search.candidate();
    if occupied || reserved.contains(path.as_str()) {
        PathStep::Probe(NameSearch { attempt: search.attempt + 1, ..search })
    } else {
        reserved.insert(path.as_str());
        PathStep::Settled(Ok(path))
    }
}

/// A batch whose destinations are being planned: those settled so far, in the order of the
/// inputs, what they claim, and the search that goes on for the next input.
pub struct PlanState {
    pub paths: Seq<Seq<char>>,
    pub options: ConversionOptions,
    pub planned: Seq<Result<Seq<char>, Seq<char>>>,
    pub reserved: Set<PathKey>,
    pub search: Option<SearchState>,
}

/// A batch of which nothing is planned.
pub open spec fn unplanned(paths: Seq<Seq<char>>, options: ConversionOptions) -> PlanState {
    PlanState { paths, options, planned: Seq::empty(), reserved: Set::empty(), search: None }
}

/// The batch after the next input's choice.
pub open spec fn with_choice(
    state: PlanState,
    choice: (Choice, Set<PathKey>),
) -> PlanState {
    match choice.0 {
        Choice::Settled(result) => PlanState {
            planned: state.planned.push(result),
            reserved: choice.1,
            search: None,
            ..state
        },
        Choice::Probe(search) => PlanState { reserved: choice.1, search: Some(search), ..state },
    }
}

/// The first step for the next input.
pub open spec fn start_next(state: PlanState) -> PlanState {
    with_choice(
        state,
        first_choice(target_of(state.paths[state.planned.len() as int], state.options), state.reserved),
    )
}

/// The batch once every input is settled that needs no look at a file, up to the first that
/// does.
pub open spec fn settled(state: PlanState) -> PlanState
    decreases state.paths.len() - state.planned.len(),
{
    if state.search is Some || state.planned.len() >= state.paths.len() {
        state
    } else {
        let next = start_next(state);
        if next.search is Some {
            next
        } else {
            settled(next)
        }
    }
}

/// The batch after an answer to the search that goes on.
pub open spec fn answered(state: PlanState, occupied: bool) -> PlanState {
    match state.search {
        Some(search) => settled(with_choice(state, next_choice(search, occupied, state.reserved))),
        None => state,
    }
}

/// Plans the destinations of a batch.
#[derive(Debug)]
pub struct Planner<'a> {
    paths: &'a [String],
    options: &'a ConversionOptions,
    planned: Vec<Result<String, String>>,
    reserved: Reserved,
    search: Option<NameSearch>,
}

/// The texts of a vector of results.
pub open spec fn outcomes(v: Seq<Result<String, String>>) -> Seq<Result<Seq<char>, Seq<char>>> {
    v.map_values(|r: Result<String, String>| outcome(r))
}

impl<'a> View for Planner<'a> {
    type V = PlanState;

    closed spec fn view(&self) -> PlanState {
        PlanState {
            paths: texts(self.paths@),
            options: *self.options,
            planned: outcomes(self.planned@),
            reserved: self.reserved@,
            search: match self.search {
                Some(search) => Some(search@),
                None => None,
            },
        }
    }
}

/// Starts to reserve a destination for every input up front, one after another, so that the
/// parallel conversion never has to look at files to pick a name.
pub fn plan_output_paths<'a>(paths: &'a [String], options: &'a ConversionOptions) -> (r: Planner<
    'a,
>)
    ensures
        r@ == settled(unplanned(texts(paths@), *options)),
{
    let mut planner = Planner {
        paths,
        options,
        planned: Vec::new(),
        reserved: Reserved::new(),
        search: None,
    };
    proof {
        assert(planner@.planned =~= Seq::empty());
    }
    planner.settle();
    planner
}

impl<'a> Planner<'a> {
    /// Settles inputs up to the first that needs a look at a file.
    fn settle(&mut self)
        ensures
            final(self)@ == settled(old(self)@),
    {
        while self.search.is_none() && self.planned.len() < self.paths.len()
            invariant
                settled(self@) == settled(old(self)@),
            decreases
                self@.paths.len() - self@.planned.len() + if self@.search is None {
                    1int
                } else {
                    0
                },
        {
            let i: usize = self.planned.len();
            let ghost before = self@;
            let step = get_output_path(self.paths[i].as_str(), self.options, &mut self.reserved);
            self.take_step(step);
            proof {
                assert(before.paths[i as int] == texts(self.paths@)[i as int]);
                assert(self@ == start_next(before));
            }
        }
    }

    /// Records what a step came to.
    fn take_step(&mut self, step: PathStep)
        ensures
            final(self)@ == with_choice(old(self)@, (choice_of(step), old(self)@.reserved)),
    {
        match step {
            PathStep::Settled(result) => {
                self.planned.push(result);
                self.search = None;
                assert(self@.planned =~= old(self)@.planned.push(outcome(result)));
            },
            PathStep::Probe(search) => {
                self.search = Some(search);
            },
        }
    }

    /// The path that the caller is to look at, or nothing once every input is settled.
    pub fn probe(&self) -> (r: Option<String>)
        ensures
            optional(r) == (match self@.search {
                Some(search) => Some(candidate(search)),
                None => None,
            }),
    {
        match &self.search {
            Some(search) => Some(search.candidate()),
            None => None,
        }
    }

    /// Whether another answer can be taken.
    pub fn can_go_on(&self) -> (r: bool)
        ensures
            r == (self@.search matches Some(search) ==> search.attempt < MAX_ATTEMPTS),
    {
        match &self.search {
            Some(search) => search.can_go_on(),
            None => true,
        }
    }

    /// Takes the answer whether a file stands at the path that `probe` gave.
    pub fn answer(&mut self, occupied: bool)
        requires
            old(self)@.search matches Some(search) ==> (occupied || old(self)@.reserved.contains(
                path_key(candidate(search)),
            ) ==> search.attempt < MAX_ATTEMPTS),
        ensures
            final(self)@ == answered(old(self)@, occupied),
    {
        match self.search.take() {
            Some(search) => {
                let step = resume_output_path(search, occupied, &mut self.reserved);
                self.take_step(step);
                self.settle();
            },
            None => {},
        }
    }

    /// The destinations, one for each input, once every input is settled.
    pub fn finish(self) -> (r: Vec<Result<String, String>>)
        ensures
            outcomes(r@) == self@.planned,
    {
        self.planned
    }
}

} // verus!
