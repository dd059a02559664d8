//! Turning what the user wrote for a model into a model file: an existing
//! path, a file of the local model directory, or an alias for an entry of the
//! catalog that is downloaded where it is missing.

use vstd::prelude::*;
use vstd::string::{StrSliceExecFns, StringExecFns};
use crate::constants::HF_RESOLVE_URL;
use crate::hf::{
    folded_name, has_quantized_marker, is_quantized_name, key_ranks_before,
    lemma_rank_asymmetric, lemma_rank_strict_chain, ranks_before, with_keys, HfFile, KeyedFile,
};
use crate::text::{
    chars_of, concat3, contains, decimal, decimal_digits, digit, digit_char, has_substring,
    lowercase_of, str_view, string_of, to_lowercase,
};

verus! {

/// Among the keyed entries, `i` is the one that the lower-cased alias
/// `needle` stands for: its key holds the alias, no entry whose key holds the
/// alias ranks before it, and it ranks before every such entry in front of it.
pub open spec fn is_best_match(
    entries: Seq<KeyedFile>,
    needle: Seq<char>,
    prefer_quantized: bool,
    i: int,
) -> bool {
    &&& 0 <= i < entries.len()
    &&& has_substring(entries[i].key@, needle)
    &&& forall|j: int|
        0 <= j < entries.len() && has_substring((#[trigger] entries[j]).key@, needle) ==> {
            &&& !ranks_before(entries[j].key@, entries[i].key@, prefer_quantized)
            &&& j < i ==> ranks_before(entries[i].key@, entries[j].key@, prefer_quantized)
        }
}

/// No key among the entries holds the lower-cased alias `needle`.
pub open spec fn no_match(entries: Seq<KeyedFile>, needle: Seq<char>) -> bool {
    forall|j: int| 0 <= j < entries.len() ==> !has_substring((#[trigger] entries[j]).key@, needle)
}

/// Among the files of the catalog, `i` is the one that `alias` stands for,
/// both compared in lower case.
pub open spec fn is_alias_match(
    files: Seq<HfFile>,
    alias: Seq<char>,
    prefer_quantized: bool,
    i: int,
) -> bool {
    &&& 0 <= i < files.len()
    &&& has_substring(folded_name(files[i]), lowercase_of(alias))
    &&& forall|j: int|
        0 <= j < files.len() && has_substring(folded_name(#[trigger] files[j]), lowercase_of(alias))
            ==> {
            &&& !ranks_before(folded_name(files[j]), folded_name(files[i]), prefer_quantized)
            &&& j < i ==> ranks_before(
                folded_name(files[i]),
                folded_name(files[j]),
                prefer_quantized,
            )
        }
}

/// No file of the catalog has `alias` in its name, both compared in lower
/// case.
pub open spec fn no_alias_match(files: Seq<HfFile>, alias: Seq<char>) -> bool {
    forall|j: int|
        0 <= j < files.len() ==> !has_substring(
            folded_name(#[trigger] files[j]),
            lowercase_of(alias),
        )
}

/// An alias stands for at most one file of a catalog.
pub proof fn lemma_alias_match_is_unique(
    files: Seq<HfFile>,
    alias: Seq<char>,
    prefer_quantized: bool,
    i: int,
    j: int,
)
    requires
        is_alias_match(files, alias, prefer_quantized, i),
        is_alias_match(files, alias, prefer_quantized, j),
    ensures
        i == j,
{
    if i < j {
        assert(ranks_before(folded_name(files[j]), folded_name(files[i]), prefer_quantized));
    }
    if j < i {
        assert(ranks_before(folded_name(files[i]), folded_name(files[j]), prefer_quantized));
    }
}

/// Finds the entry that a lower-cased alias stands for.
///
/// Of the entries whose key holds `needle`, the one that ranks first is
/// taken: an entry of the preferred kind before any other, then the smallest
/// key; of entries with equal keys, the first.
pub fn best_match(entries: &Vec<KeyedFile>, needle: &str, prefer_quantized: bool) -> (r: Option<
    usize,
>)
    ensures
        match r {
            Some(i) => is_best_match(entries@, needle@, prefer_quantized, i as int),
            None => no_match(entries@, needle@),
        },
{
    let pattern = chars_of(needle);
    let mut best: Option<usize> = None;
    let mut i: usize = 0;
    while i < entries.len()
        invariant
            i <= entries.len(),
            pattern@ == needle@,
            match best {
                Some(b) => b < i && is_best_match(
                    entries@.take(i as int),
                    needle@,
                    prefer_quantized,
                    b as int,
                ),
                None => no_match(entries@.take(i as int), needle@),
            },
        decreases entries.len() - i,
    {
        let ghost seen = entries@.take(i as int);
        let ghost next = entries@.take(i + 1);
        let ghost cand = entries@[i as int].key@;
        assert(forall|j: int| 0 <= j < i ==> next[j] == seen[j]);
        assert(next[i as int] == entries@[i as int]);
        if contains(&chars_of(entries[i].key.as_str()), &pattern) {
            match best {
                None => {
                    proof {
                        lemma_rank_asymmetric(cand, cand, prefer_quantized);
                    }
                    best = Some(i);
                },
                Some(b) => {
                    let ghost held = entries@[b as int].key@;
                    assert(seen[b as int] == entries@[b as int]);
                    if key_ranks_before(
                        entries[i].key.as_str(),
                        entries[b].key.as_str(),
                        prefer_quantized,
                    ) {
                        proof {
                            lemma_rank_asymmetric(cand, held, prefer_quantized);
                            lemma_rank_asymmetric(cand, cand, prefer_quantized);
                            assert forall|j: int|
                                0 <= j < next.len() && has_substring(
                                    (#[trigger] next[j]).key@,
                                    needle@,
                                ) implies !ranks_before(next[j].key@, cand, prefer_quantized) && (j
                                < i ==> ranks_before(cand, next[j].key@, prefer_quantized)) by {
                                if j < i {
                                    assert(has_substring(seen[j].key@, needle@));
                                    lemma_rank_strict_chain(
                                        cand,
                                        held,
                                        next[j].key@,
                                        prefer_quantized,
                                    );
                                    lemma_rank_asymmetric(cand, next[j].key@, prefer_quantized);
                                }
                            }
                        }
                        best = Some(i);
                    } else {
                        proof {
                            assert forall|j: int|
                                0 <= j < next.len() && has_substring(
                                    (#[trigger] next[j]).key@,
                                    needle@,
                                ) implies !ranks_before(next[j].key@, held, prefer_quantized) && (j
                                < b ==> ranks_before(held, next[j].key@, prefer_quantized)) by {
                                if j < i {
                                    assert(has_substring(seen[j].key@, needle@));
                                }
                            }
                        }
                    }
                },
            }
        } else {
            proof {
                match best {
                    Some(b) => {
                        assert(seen[b as int] == entries@[b as int]);
                        assert forall|j: int|
                            0 <= j < next.len() && has_substring(
                                (#[trigger] next[j]).key@,
                                needle@,
                            ) implies !ranks_before(
                            next[j].key@,
                            next[b as int].key@,
                            prefer_quantized,
                        ) && (j < b ==> ranks_before(
                            next[b as int].key@,
                            next[j].key@,
                            prefer_quantized,
                        )) by {
                            assert(has_substring(seen[j].key@, needle@));
                        }
                    },
                    None => {
                        assert forall|j: int| 0 <= j < next.len() implies !has_substring(
                            (#[trigger] next[j]).key@,
                            needle@,
                        ) by {
                            if j < i {
                                assert(!has_substring(seen[j].key@, needle@));
                            }
                        }
                    },
                }
            }
        }
        i += 1;
    }
    assert(entries@.take(entries.len() as int) =~= entries@);
    best
}

/// Finds the file of the catalog that `alias` stands for.
///
/// The alias and the file names are compared in lower case. Of the files
/// whose name holds the alias, the one that ranks first is taken: a file of
/// the preferred kind before any other, then the smallest lower-cased name;
/// of files with equal lower-cased names, the first.
pub fn find_model(files: &Vec<HfFile>, alias: &str, prefer_quantized: bool) -> (r: Option<usize>)
    ensures
        match r {
            Some(i) => is_alias_match(files@, alias@, prefer_quantized, i as int),
            None => no_alias_match(files@, alias@),
        },
{
    let entries = with_keys(files);
    let needle = to_lowercase(alias);
    let r = best_match(&entries, needle.as_str(), prefer_quantized);
    proof {
        assert forall|j: int| 0 <= j < files.len() implies (#[trigger] entries@[j]).key@
            == folded_name(files@[j]) by {}
        match r {
            Some(i) => {
                assert forall|j: int|
                    0 <= j < files.len() && has_substring(
                        folded_name(#[trigger] files@[j]),
                        lowercase_of(alias@),
                    ) implies !ranks_before(
                    folded_name(files@[j]),
                    folded_name(files@[i as int]),
                    prefer_quantized,
                ) && (j < i ==> ranks_before(
                    folded_name(files@[i as int]),
                    folded_name(files@[j]),
                    prefer_quantized,
                )) by {
                    assert(has_substring(entries@[j].key@, needle@));
                }
            },
            None => {
                assert forall|j: int| 0 <= j < files.len() implies !has_substring(
                    folded_name(#[trigger] files@[j]),
                    lowercase_of(alias@),
                ) by {
                    assert(!has_substring(entries@[j].key@, needle@));
                }
            },
        }
    }
    r
}

/// The address from which the bytes of the model file `name` are fetched.
pub open spec fn download_address(name: Seq<char>) -> Seq<char> {
    HF_RESOLVE_URL@ + name + "?download=true"@
}

/// Computes [`download_address`].
pub fn download_url(filename: &str) -> (url: String)
    ensures
        url@ == download_address(filename@),
{
    concat3(HF_RESOLVE_URL, filename, "?download=true")
}

/// What is to be done about a model file of the catalog.
#[derive(Debug, PartialEq, Eq)]
pub enum DownloadPlan {
    /// The file is in the local model directory already: take it as it is.
    UseExisting,
    /// Make sure the local model directory exists, then stream the bytes at
    /// `url` into the file of that name in it.
    Fetch { url: String },
}

/// Decides whether the model file `filename` has to be downloaded.
///
/// A file that is in the local model directory already is never fetched
/// again. A missing one is fetched from the repository's address for it.
pub fn download_model_if_missing(filename: &str, dest_exists: bool) -> (plan: DownloadPlan)
    ensures
        dest_exists ==> plan is UseExisting,
        !dest_exists ==> (plan matches DownloadPlan::Fetch { url } && url@ == download_address(
            filename@,
        )),
{
    if dest_exists {
        DownloadPlan::UseExisting
    } else {
        DownloadPlan::Fetch { url: download_url(filename) }
    }
}

/// Why no model file could be had.
#[derive(Clone, Copy, Debug, PartialEq, Eq, Structural)]
pub enum ModelError {
    /// What the user wrote is no existing path, no file of the local model
    /// directory, and part of no name in the catalog.
    ModelNotFound,
    /// The transport or the storage failed while the model was downloaded.
    DownloadError,
}

/// What a model resolution waits for.
#[derive(Clone, Copy, Debug, PartialEq, Eq, Structural)]
pub enum ResolveState {
    /// Whether what the user wrote is an existing path.
    AwaitInputPath,
    /// Whether what the user wrote names a file of the local model directory.
    AwaitLocalFile,
    /// Whether the chosen catalog entry is in the local model directory.
    AwaitDestination,
    /// The outcome of downloading the chosen catalog entry.
    AwaitDownload,
    /// Nothing: the resolution has ended.
    Finished,
}

/// An answer from the outside world to the last action of a resolution.
#[derive(Clone, Copy, Debug, PartialEq, Eq, Structural)]
pub enum ResolveEvent {
    /// The answer to [`ResolveAction::ProbePath`] and
    /// [`ResolveAction::ProbeModel`]: whether the path exists.
    Exists(bool),
    /// The answer to [`ResolveAction::Download`]: whether all bytes were
    /// fetched and stored.
    Downloaded(bool),
}

/// What the caller of a model resolution is to do next.
#[derive(Debug, PartialEq, Eq)]
pub enum ResolveAction {
    /// Find out whether this path exists, taken as it is written.
    ProbePath(String),
    /// Find out whether a file of this name exists in the local model
    /// directory.
    ProbeModel(String),
    /// Make sure the local model directory exists, then stream the bytes at
    /// `url` into the file `name` in it.
    Download { url: String, name: String },
    /// The resolution has ended: the model is at this path, as written.
    UsePath(String),
    /// The resolution has ended: the model is the file of this name in the
    /// local model directory.
    UseModel(String),
    /// The resolution has ended without a model.
    Fail(ModelError),
    /// The event answered no action of this resolution; nothing has changed.
    Nothing,
}

/// A model resolution in progress.
#[derive(Debug, PartialEq, Eq)]
pub struct ModelResolution {
    /// What the user wrote.
    pub input: String,
    /// The name of the catalog entry that the input stands for as an alias,
    /// if there is one.
    pub chosen: Option<String>,
    /// What the resolution waits for.
    pub state: ResolveState,
}

/// The name held in `chosen`, as characters.
pub open spec fn chosen_name(chosen: Option<String>) -> Option<Seq<char>> {
    match chosen {
        Some(name) => Some(name@),
        None => None,
    }
}

/// `chosen` is the name of the file of the catalog that `alias` stands for,
/// or nothing where it stands for none.
pub open spec fn is_choice_for(
    chosen: Option<String>,
    alias: Seq<char>,
    files: Seq<HfFile>,
    prefer_quantized: bool,
) -> bool {
    match chosen {
        Some(name) => exists|i: int| #[trigger]
            is_alias_match(files, alias, prefer_quantized, i) && files[i].rfilename@ == name@,
        None => no_alias_match(files, alias),
    }
}

/// Whether a resolution of `user_input` against the catalog `files` starts
/// as `start`, with `first` to do.
pub open spec fn is_resolution_start(
    user_input: Seq<char>,
    files: Seq<HfFile>,
    prefer_quantized: bool,
    start: ModelResolution,
    first: ResolveAction,
) -> bool {
    &&& start.input@ == user_input
    &&& is_choice_for(start.chosen, user_input, files, prefer_quantized)
    &&& start.state == ResolveState::AwaitInputPath
    &&& first matches ResolveAction::ProbePath(path)
    &&& path@ == user_input
}

/// Whether `event` takes the resolution `before` to `after` with `action` to
/// do.
pub open spec fn is_resolution_step(
    before: ModelResolution,
    event: ResolveEvent,
    after: ModelResolution,
    action: ResolveAction,
) -> bool {
    &&& after.input@ == before.input@
    &&& chosen_name(after.chosen) == chosen_name(before.chosen)
    &&& match (before.state, event) {
        (ResolveState::AwaitInputPath, ResolveEvent::Exists(true)) => {
            &&& after.state == ResolveState::Finished
            &&& action matches ResolveAction::UsePath(path)
            &&& path@ == before.input@
        },
        (ResolveState::AwaitInputPath, ResolveEvent::Exists(false)) => {
            &&& after.state == ResolveState::AwaitLocalFile
            &&& action matches ResolveAction::ProbeModel(name)
            &&& name@ == before.input@
        },
        (ResolveState::AwaitLocalFile, ResolveEvent::Exists(true)) => {
            &&& after.state == ResolveState::Finished
            &&& action matches ResolveAction::UseModel(name)
            &&& name@ == before.input@
        },
        (ResolveState::AwaitLocalFile, ResolveEvent::Exists(false)) => match before.chosen {
            Some(chosen) => {
                &&& after.state == ResolveState::AwaitDestination
                &&& action matches ResolveAction::ProbeModel(name)
                &&& name@ == chosen@
            },
            None => {
                &&& after.state == ResolveState::Finished
                &&& action == ResolveAction::Fail(ModelError::ModelNotFound)
            },
        },
        (ResolveState::AwaitDestination, ResolveEvent::Exists(exists)) => match before.chosen {
            Some(chosen) => if exists {
                &&& after.state == ResolveState::Finished
                &&& action matches ResolveAction::UseModel(name)
                &&& name@ == chosen@
            } else {
                &&& after.state == ResolveState::AwaitDownload
                &&& action matches ResolveAction::Download { url, name }
                &&& name@ == chosen@
                &&& url@ == download_address(chosen@)
            },
            None => {
                &&& after.state == ResolveState::Finished
                &&& action == ResolveAction::Fail(ModelError::ModelNotFound)
            },
        },
        (ResolveState::AwaitDownload, ResolveEvent::Downloaded(done)) => match before.chosen {
            Some(chosen) => if done {
                &&& after.state == ResolveState::Finished
                &&& action matches ResolveAction::UseModel(name)
                &&& name@ == chosen@
            } else {
                &&& after.state == ResolveState::Finished
                &&& action == ResolveAction::Fail(ModelError::DownloadError)
            },
            None => {
                &&& after.state == ResolveState::Finished
                &&& action == ResolveAction::Fail(ModelError::ModelNotFound)
            },
        },
        _ => after.state == before.state && action is Nothing,
    }
}

/// Resolving the same input a second time, after the first resolution has
/// downloaded a model, downloads nothing and ends with the same model file.
///
/// `local` stands for the names of the files that the local model directory
/// holds before the first resolution; after it the directory holds the
/// downloaded file as well. `first` and `second` are the two resolutions,
/// each as the machine and the action after the start and after every answer
/// (the second has a last answer only where its second action asks again).
/// Both find that the input is no existing path. The first finds neither the
/// input nor the chosen entry in the directory and downloads the entry. The
/// second is answered from the directory as the first has left it.
pub proof fn lemma_resolving_again_skips_download(
    user_input: Seq<char>,
    files: Seq<HfFile>,
    prefer_quantized: bool,
    local: Set<Seq<char>>,
    first: Seq<(ModelResolution, ResolveAction)>,
    second: Seq<(ModelResolution, ResolveAction)>,
)
    requires
        first.len() == 5,
        second.len() == 4,
        !local.contains(user_input),
        is_resolution_start(user_input, files, prefer_quantized, first[0].0, first[0].1),
        is_resolution_step(first[0].0, ResolveEvent::Exists(false), first[1].0, first[1].1),
        is_resolution_step(first[1].0, ResolveEvent::Exists(false), first[2].0, first[2].1),
        first[2].1 matches ResolveAction::ProbeModel(name) && !local.contains(name@),
        is_resolution_step(first[2].0, ResolveEvent::Exists(false), first[3].0, first[3].1),
        first[3].1 is Download,
        is_resolution_step(first[3].0, ResolveEvent::Downloaded(true), first[4].0, first[4].1),
        is_resolution_start(user_input, files, prefer_quantized, second[0].0, second[0].1),
        is_resolution_step(second[0].0, ResolveEvent::Exists(false), second[1].0, second[1].1),
        second[1].1 matches ResolveAction::ProbeModel(name) && is_resolution_step(
            second[1].0,
            ResolveEvent::Exists(local.insert(first[3].1->Download_name@).contains(name@)),
            second[2].0,
            second[2].1,
        ),
        second[2].1 matches ResolveAction::ProbeModel(name) ==> is_resolution_step(
            second[2].0,
            ResolveEvent::Exists(local.insert(first[3].1->Download_name@).contains(name@)),
            second[3].0,
            second[3].1,
        ),
    ensures
        first[4].1 is UseModel,
        forall|k: int| 0 <= k < 3 ==> !((#[trigger] second[k]).1 is Download),
        second[2].1 is ProbeModel ==> !(second[3].1 is Download),
        ({
            let last = if second[2].1 is ProbeModel {
                second[3]
            } else {
                second[2]
            };
            &&& last.0.state == ResolveState::Finished
            &&& last.1 matches ResolveAction::UseModel(name)
            &&& name@ == first[4].1->UseModel_0@
        }),
{
    let a = first[0].0.chosen;
    let b = second[0].0.chosen;
    assert(a is Some);
    let i = choose|i: int| #[trigger]
        is_alias_match(files, user_input, prefer_quantized, i) && files[i].rfilename@ == a->0@;
    assert(b is Some) by {
        if b is None {
            assert(has_substring(folded_name(files[i]), lowercase_of(user_input)));
        }
    }
    let j = choose|j: int| #[trigger]
        is_alias_match(files, user_input, prefer_quantized, j) && files[j].rfilename@ == b->0@;
    lemma_alias_match_is_unique(files, user_input, prefer_quantized, i, j);
    assert(chosen_name(first[3].0.chosen) == chosen_name(a));
    assert(chosen_name(second[1].0.chosen) == chosen_name(b));
    assert(chosen_name(second[2].0.chosen) == chosen_name(b));
}

/// Starts to resolve what the user wrote for a model.
///
/// The first question is whether the input is an existing path. The catalog
/// entry that the input stands for as an alias is found here, and is used
/// only if the input turns out to be neither an existing path nor a file of
/// the local model directory.
pub fn resolve_or_download_model(
    user_input: &str,
    files: &Vec<HfFile>,
    prefer_quantized: bool,
) -> (r: (ModelResolution, ResolveAction))
    ensures
        is_resolution_start(user_input@, files@, prefer_quantized, r.0, r.1),
{
    let chosen = match find_model(files, user_input, prefer_quantized) {
        Some(i) => Some(files[i].rfilename.clone()),
        None => None,
    };
    (
        ModelResolution {
            input: user_input.to_owned(),
            chosen,
            state: ResolveState::AwaitInputPath,
        },
        ResolveAction::ProbePath(user_input.to_owned()),
    )
}

impl ModelResolution {
    /// Takes the answer to the last action and says what to do next.
    ///
    /// The first success wins: an existing path is used as it is written; else
    /// a file of that name in the local model directory; else the catalog
    /// entry that the input stands for, which is downloaded only if the local
    /// model directory does not hold it yet. Without such an entry the
    /// resolution fails with [`ModelError::ModelNotFound`], after a failed
    /// download with [`ModelError::DownloadError`].
    pub fn step(self, event: ResolveEvent) -> (r: (ModelResolution, ResolveAction))
        ensures
            is_resolution_step(self, event, r.0, r.1),
    {
        let ModelResolution { input, chosen, state } = self;
        match (state, event) {
            (ResolveState::AwaitInputPath, ResolveEvent::Exists(true)) => {
                let path = input.clone();
                (
                    ModelResolution { input, chosen, state: ResolveState::Finished },
                    ResolveAction::UsePath(path),
                )
            },
            (ResolveState::AwaitInputPath, ResolveEvent::Exists(false)) => {
                let name = input.clone();
                (
                    ModelResolution { input, chosen, state: ResolveState::AwaitLocalFile },
                    ResolveAction::ProbeModel(name),
                )
            },
            (ResolveState::AwaitLocalFile, ResolveEvent::Exists(true)) => {
                let name = input.clone();
                (
                    ModelResolution { input, chosen, state: ResolveState::Finished },
                    ResolveAction::UseModel(name),
                )
            },
            (ResolveState::AwaitLocalFile, ResolveEvent::Exists(false)) => match chosen {
                Some(name) => {
                    let probe = name.clone();
                    (
                        ModelResolution {
                            input,
                            chosen: Some(name),
                            state: ResolveState::AwaitDestination,
                        },
                        ResolveAction::ProbeModel(probe),
                    )
                },
                None => (
                    ModelResolution { input, chosen: None, state: ResolveState::Finished },
                    ResolveAction::Fail(ModelError::ModelNotFound),
                ),
            },
            (ResolveState::AwaitDestination, ResolveEvent::Exists(exists)) => match chosen {
                Some(name) => match download_model_if_missing(name.as_str(), exists) {
                    DownloadPlan::UseExisting => {
                        let found = name.clone();
                        (
                            ModelResolution {
                                input,
                                chosen: Some(name),
                                state: ResolveState::Finished,
                            },
                            ResolveAction::UseModel(found),
                        )
                    },
                    DownloadPlan::Fetch { url } => {
                        let dest = name.clone();
                        (
                            ModelResolution {
                                input,
                                chosen: Some(name),
                                state: ResolveState::AwaitDownload,
                            },
                            ResolveAction::Download { url, name: dest },
                        )
                    },
                },
                None => (
                    ModelResolution { input, chosen: None, state: ResolveState::Finished },
                    ResolveAction::Fail(ModelError::ModelNotFound),
                ),
            },
            (ResolveState::AwaitDownload, ResolveEvent::Downloaded(done)) => match chosen {
                Some(name) => if done {
                    let stored = name.clone();
                    (
                        ModelResolution {
                            input,
                            chosen: Some(name),
                            state: ResolveState::Finished,
                        },
                        ResolveAction::UseModel(stored),
                    )
                } else {
                    (
                        ModelResolution {
                            input,
                            chosen: Some(name),
                            state: ResolveState::Finished,
                        },
                        ResolveAction::Fail(ModelError::DownloadError),
                    )
                },
                None => (
                    ModelResolution { input, chosen: None, state: ResolveState::Finished },
                    ResolveAction::Fail(ModelError::ModelNotFound),
                ),
            },
            (state, _) => (ModelResolution { input, chosen, state }, ResolveAction::Nothing),
        }
    }
}

/// The name that `sanitize_filename::sanitize_with_options` makes of `name`
/// under the given options.
pub uninterp spec fn sanitized_name(
    name: Seq<char>,
    windows: bool,
    truncate: bool,
    replacement: Seq<char>,
) -> Seq<char>;

/// Calls `sanitize_filename::sanitize_with_options`. The result depends on
/// the name and the three options alone: characters that file systems refuse
/// give way to the replacement, names that are reserved are replaced, and with
/// `truncate` the result is cut to at most 255 bytes.
#[verifier::external_body]
fn sanitize_with(name: &str, windows: bool, truncate: bool, replacement: &str) -> (r: String)
    ensures
        r@ == sanitized_name(name@, windows, truncate, replacement@),
{
    sanitize_filename::sanitize_with_options(
        name,
        sanitize_filename::Options { windows, truncate, replacement },
    )
}

/// The stem to go by: the one given, or `audio` where there is none.
pub open spec fn stem_or_audio(stem: Option<Seq<char>>) -> Seq<char> {
    match stem {
        Some(s) => s,
        None => "audio"@,
    }
}

/// The stem to go by: the one given, or `audio` where there is none or it is
/// empty.
pub open spec fn filled_stem_or_audio(stem: Option<Seq<char>>) -> Seq<char> {
    match stem {
        Some(s) => if s.len() > 0 {
            s
        } else {
            "audio"@
        },
        None => "audio"@,
    }
}

/// The base name for the outputs of a downloaded recording, made from the
/// stem of the WAV file that the download tool wrote.
///
/// The stem, or `audio` where the file has none, is made safe for file
/// systems: with the rules for Windows where `windows` is set, cut to 255
/// bytes, and with nothing put in the place of what is taken out.
pub fn build_basename_from_wav(stem: Option<&str>, windows: bool) -> (base: String)
    ensures
        base@ == sanitized_name(stem_or_audio(str_view(stem)), windows, true, ""@),
{
    let stem = match stem {
        Some(s) => s,
        None => "audio",
    };
    sanitize_with(stem, windows, true, "")
}

/// The base name for the outputs of a local recording: the stem of its file
/// name, or `audio` where it has none or an empty one.
pub fn local_basename(stem: Option<&str>) -> (base: String)
    ensures
        base@ == filled_stem_or_audio(str_view(stem)),
{
    match stem {
        Some(s) => {
            if s.unicode_len() > 0 {
                s.to_owned()
            } else {
                "audio".to_owned()
            }
        },
        None => "audio".to_owned(),
    }
}

/// The power of two by which a count has to be scaled down to fit in the 53
/// significant bits of a binary64 floating-point number.
pub open spec fn float_scale(n: nat) -> nat
    decreases n,
{
    if n < 0x20_0000_0000_0000 {
        1
    } else {
        2 * float_scale(n / 2)
    }
}

/// The whole number nearest to `num / den`; of two that are equally near,
/// the even one.
pub open spec fn round_half_even(num: nat, den: nat) -> nat {
    let q = num / den;
    let r = num % den;
    if 2 * r > den || (2 * r == den && q % 2 == 1) {
        q + 1
    } else {
        q
    }
}

/// The value that the count `n` has as a binary64 floating-point number:
/// the nearest one with 53 significant bits.
pub open spec fn as_float(n: nat) -> nat {
    round_half_even(n, float_scale(n)) * float_scale(n)
}

/// The unit in which a size is shown: 0 for bytes, then KB, MB, GB and TB,
/// the largest that the size reaches.
pub open spec fn size_unit(bytes: nat) -> nat {
    if bytes < 0x400 {
        0
    } else if bytes < 0x10_0000 {
        1
    } else if bytes < 0x4000_0000 {
        2
    } else if bytes < 0x100_0000_0000 {
        3
    } else {
        4
    }
}

/// How many bytes make one of a unit.
pub open spec fn unit_bytes(unit: nat) -> nat {
    if unit == 0 {
        1
    } else if unit == 1 {
        0x400
    } else if unit == 2 {
        0x10_0000
    } else if unit == 3 {
        0x4000_0000
    } else {
        0x100_0000_0000
    }
}

/// The name of a unit.
pub open spec fn unit_name(unit: nat) -> Seq<char> {
    if unit == 0 {
        "B"@
    } else if unit == 1 {
        "KB"@
    } else if unit == 2 {
        "MB"@
    } else if unit == 3 {
        "GB"@
    } else {
        "TB"@
    }
}

/// A size in tenths of its unit, rounded to the nearest tenth.
pub open spec fn size_tenths(bytes: nat) -> nat {
    round_half_even(as_float(bytes) * 10, unit_bytes(size_unit(bytes)))
}

/// A size as text: the number in its unit with one decimal, a space, and the
/// unit's name.
pub open spec fn size_text(bytes: nat) -> Seq<char> {
    let tenths = size_tenths(bytes);
    decimal_digits(tenths / 10) + "."@ + seq![digit_char(tenths % 10)] + " "@ + unit_name(
        size_unit(bytes),
    )
}

/// Computes [`round_half_even`].
fn rounded_quotient(num: u128, den: u128) -> (r: u128)
    requires
        0 < den <= 0x1_0000_0000_0000_0000,
        num <= 0x1_0000_0000_0000_0000_0000,
    ensures
        r == round_half_even(num as nat, den as nat),
        r <= num / den + 1,
        r * den <= num + den,
{
    let q = num / den;
    let r = num % den;
    assert(q <= num && q * den <= num && (q + 1) * den == q * den + den) by (nonlinear_arith)
        requires
            q == num / den,
            den > 0,
    ;
    if 2 * r > den || (2 * r == den && q % 2 == 1) {
        q + 1
    } else {
        q
    }
}

/// Computes [`float_scale`].
fn scale_of(n: u64) -> (p: u64)
    ensures
        p == float_scale(n as nat),
        1 <= p < 0x1000,
        n < 0x20_0000_0000_0000 ==> p == 1,
{
    let mut p: u64 = 1;
    let mut m: u64 = n;
    while m >= 0x20_0000_0000_0000
        invariant
            1 <= p < 0x1000,
            float_scale(n as nat) == p * float_scale(m as nat),
            m * p <= n,
            n < 0x20_0000_0000_0000 ==> p == 1 && m == n,
        decreases m,
    {
        assert(p < 0x800 && p * (2 * float_scale((m / 2) as nat)) == (p * 2) * float_scale(
            (m / 2) as nat,
        ) && (m / 2) * (p * 2) <= n) by (nonlinear_arith)
            requires
                m >= 0x20_0000_0000_0000,
                m * p <= n,
                n < 0x1_0000_0000_0000_0000,
                p >= 1,
        ;
        m = m / 2;
        p = p * 2;
    }
    assert(p * float_scale(m as nat) == p) by (nonlinear_arith)
        requires
            float_scale(m as nat) == 1,
    ;
    p
}

/// The name of the unit of a size, and how many bytes make one of it.
fn unit_of(bytes: u64) -> (r: (&'static str, u64))
    ensures
        r.0@ == unit_name(size_unit(bytes as nat)),
        r.1 == unit_bytes(size_unit(bytes as nat)),
{
    if bytes < 0x400 {
        ("B", 1)
    } else if bytes < 0x10_0000 {
        ("KB", 0x400)
    } else if bytes < 0x4000_0000 {
        ("MB", 0x10_0000)
    } else if bytes < 0x100_0000_0000 {
        ("GB", 0x4000_0000)
    } else {
        ("TB", 0x100_0000_0000)
    }
}

/// A size in bytes as text for people: in the largest unit up to TB that it
/// reaches, each unit 1024 of the one before, with one decimal.
///
/// The number is the one that binary64 floating-point arithmetic gives: the
/// count is held with 53 significant bits, and the quotient is rounded to the
/// nearest tenth, to the even one of two that are equally near.
pub fn format_size(bytes: u64) -> (r: String)
    ensures
        r@ == size_text(bytes as nat),
{
    let p = scale_of(bytes);
    let kept = rounded_quotient(bytes as u128, p as u128);
    assert(kept * p <= 0x1_0000_0000_0000_1000);
    let held: u128 = kept * (p as u128);
    let (name, per_unit) = unit_of(bytes);
    let tenths: u128 = rounded_quotient(held * 10, per_unit as u128);
    assert(tenths <= 0x200_0000_0000_0000) by {
        if bytes < 0x20_0000_0000_0000 {
            assert(kept == bytes) by (nonlinear_arith)
                requires
                    p == 1,
                    kept * p <= bytes + p,
                    kept == round_half_even(bytes as nat, p as nat),
                    kept <= (bytes as int) / (p as int) + 1,
            ;
            assert(tenths <= held * 10 + 1) by (nonlinear_arith)
                requires
                    tenths <= (held * 10) / (per_unit as int) + 1,
                    per_unit >= 1,
            ;
        } else {
            assert(per_unit == 0x100_0000_0000);
        }
    }
    let whole = decimal((tenths / 10) as u64);
    let mut text = chars_of(whole.as_str());
    text.push('.');
    text.push(digit((tenths % 10) as u8));
    text.push(' ');
    let unit = chars_of(name);
    let mut i: usize = 0;
    let ghost head = text@;
    while i < unit.len()
        invariant
            i <= unit.len(),
            text@ == head + unit@.take(i as int),
        decreases unit.len() - i,
    {
        text.push(unit[i]);
        i += 1;
        assert(head + unit@.take(i as int) =~= (head + unit@.take(i - 1)).push(unit@[i - 1]));
    }
    proof {
        reveal_strlit(".");
        reveal_strlit(" ");
        assert(unit@.take(unit.len() as int) =~= unit@);
        let t = tenths as nat;
        assert(head =~= decimal_digits(t / 10) + "."@ + seq![digit_char(t % 10)] + " "@);
    }
    string_of(&text)
}

/// The size of a file as it is shown, or `?` where it is not known.
pub open spec fn shown_size(size: Option<u64>) -> Seq<char> {
    match size {
        Some(n) => size_text(n as nat),
        None => "?"@,
    }
}

/// The line that offers a model for picking: its name, its kind, its size,
/// and a mark where the local model directory holds it.
pub open spec fn label_text(
    name: Seq<char>,
    quantized: bool,
    size: Option<u64>,
    is_local: bool,
) -> Seq<char> {
    name + "  ["@ + (if quantized {
        "quant"@
    } else {
        "full-precision"@
    }) + " | "@ + shown_size(size) + "]"@ + (if is_local {
        " (local)"@
    } else {
        ""@
    })
}

/// Computes [`label_text`].
pub fn label_for(name: &str, quantized: bool, size: Option<u64>, is_local: bool) -> (r: String)
    ensures
        r@ == label_text(name@, quantized, size, is_local),
{
    let mut r = name.to_owned();
    r.append("  [");
    r.append(if quantized {
        "quant"
    } else {
        "full-precision"
    });
    r.append(" | ");
    match size {
        Some(n) => {
            let text = format_size(n);
            r.append(text.as_str());
        },
        None => {
            r.append("?");
        },
    }
    r.append("]");
    r.append(if is_local {
        " (local)"
    } else {
        ""
    });
    r
}

/// The line that offers the entry `file` for picking.
pub fn model_label(file: &HfFile, is_local: bool) -> (r: String)
    ensures
        r@ == label_text(
            file.rfilename@,
            has_quantized_marker(folded_name(*file)),
            file.size,
            is_local,
        ),
{
    let lower = to_lowercase(file.rfilename.as_str());
    label_for(file.rfilename.as_str(), is_quantized_name(lower.as_str()), file.size, is_local)
}

/// The question that is put when a model is to be picked.
pub open spec fn prompt_text(prefer_quantized: bool) -> Seq<char> {
    if prefer_quantized {
        "Pick a Whisper model (quantized preferred)"@
    } else {
        "Pick a Whisper model (full-precision preferred)"@
    }
}

/// Whether the `i`-th file is known to be in the local model directory.
pub open spec fn is_local_at(local: Seq<bool>, i: int) -> bool {
    0 <= i < local.len() && local[i]
}

/// What is shown when a model is to be picked.
#[derive(Debug, PartialEq, Eq)]
pub struct PickPrompt {
    /// The question.
    pub prompt: String,
    /// One line for each model, in the order of the catalog.
    pub items: Vec<String>,
    /// The index of the line that is marked at first.
    pub default: usize,
}

/// `shown` is what is shown for picking among `files`.
pub open spec fn is_prompt_for(
    shown: PickPrompt,
    files: Seq<HfFile>,
    prefer_quantized: bool,
    local: Seq<bool>,
) -> bool {
    &&& shown.prompt@ == prompt_text(prefer_quantized)
    &&& shown.default == 0
    &&& shown.items.len() == files.len()
    &&& forall|i: int|
        0 <= i < files.len() ==> (#[trigger] shown.items[i])@ == label_text(
            files[i].rfilename@,
            has_quantized_marker(folded_name(files[i])),
            files[i].size,
            is_local_at(local, i),
        )
}

/// Prepares the choice of a model among the files of the catalog.
///
/// An empty catalog offers no choice. `local[i]` tells whether the local
/// model directory holds the `i`-th file; answers that are missing count as
/// `false`.
pub fn pick_model_interactive(files: &Vec<HfFile>, prefer_quantized: bool, local: &Vec<bool>) -> (r:
    Option<PickPrompt>)
    ensures
        files.len() == 0 <==> r is None,
        r matches Some(shown) ==> is_prompt_for(shown, files@, prefer_quantized, local@),
{
    if files.len() == 0 {
        return None;
    }
    let mut items: Vec<String> = Vec::new();
    let mut i: usize = 0;
    while i < files.len()
        invariant
            i <= files.len(),
            items.len() == i,
            forall|k: int|
                0 <= k < i ==> (#[trigger] items@[k])@ == label_text(
                    files@[k].rfilename@,
                    has_quantized_marker(folded_name(files@[k])),
                    files@[k].size,
                    is_local_at(local@, k),
                ),
        decreases files.len() - i,
    {
        let is_local = i < local.len() && local[i];
        items.push(model_label(&files[i], is_local));
        i += 1;
    }
    let prompt = if prefer_quantized {
        "Pick a Whisper model (quantized preferred)"
    } else {
        "Pick a Whisper model (full-precision preferred)"
    };
    Some(PickPrompt { prompt: prompt.to_owned(), items, default: 0 })
}

/// The line that shows a model in the list of the catalog.
pub open spec fn list_line(name: Seq<char>, size: Option<u64>) -> Seq<char> {
    match size {
        Some(n) => "- "@ + name + " ("@ + size_text(n as nat) + ")"@,
        None => "- "@ + name,
    }
}

/// The line that shows `file` in the list of the catalog: its name, and its
/// size where it is known.
pub fn model_list_line(file: &HfFile) -> (r: String)
    ensures
        r@ == list_line(file.rfilename@, file.size),
{
    let mut r = "- ".to_owned();
    r.append(file.rfilename.as_str());
    match file.size {
        Some(n) => {
            let text = format_size(n);
            r.append(" (");
            r.append(text.as_str());
            r.append(")");
        },
        None => {},
    }
    r
}

/// The line above the list of the catalog: how many models it has.
pub fn model_list_header(count: usize) -> (r: String)
    ensures
        r@ == "Available models ("@ + decimal_digits(count as nat) + "):"@,
{
    let number = decimal(count as u64);
    concat3("Available models (", number.as_str(), "):")
}

} // verus!
