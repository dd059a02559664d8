//! The order of the steps of one run, from the command line to the
//! transcript.
//!
//! The pipeline decides; it touches nothing. Each decision names an action
//! for the caller to perform, and the caller hands the outcome back as an
//! event.

use vstd::prelude::*;
use crate::cli::Args;
use crate::cmd::{
    arg_views, downloader_args, downloader_command, extractor_args, extractor_command,
    tool_name, transcriber_args, transcriber_command, Arg, Tool,
};
use crate::fs_utils::{is_inference, try_infer_with_exts, Inferred};
use crate::hf::{copy_files, HfFile};
use crate::locator::{
    classification, classify, has_remote_scheme, lemma_local_shape_is_local_path,
    lemma_scheme_is_remote_locator, looks_local, PipelineInput,
};
use crate::models::{
    build_basename_from_wav, filled_stem_or_audio, local_basename, sanitized_name, stem_or_audio,
    ModelError,
};
use crate::text::{as_str_option, concat, concat3, string_view};

verus! {

/// Why a run ended without a transcript.
#[derive(Clone, Copy, Debug, PartialEq, Eq, Structural)]
pub enum PipelineError {
    /// A tool that the run needs is not installed.
    MissingDependency(Tool),
    /// A directory that the run needs could not be made.
    Storage,
    /// No fresh listing could be fetched and no usable cache was at hand.
    CatalogUnavailable,
    /// The catalog holds no model.
    NoModels,
    /// No model was picked.
    SelectionFailed,
    /// What the user wrote for the model stands for no model.
    ModelNotFound,
    /// The transport or the storage failed while a model or a recording was
    /// downloaded.
    DownloadError,
    /// No recording was named.
    NoInput,
    /// The recording exists neither as named nor with a media extension.
    InputNotFound,
    /// The recording is no regular file.
    InputNotAFile,
    /// A tool ended with a failure.
    ExternalToolFailure(Tool),
}

/// What the pipeline waits for.
#[derive(Clone, Copy, Debug, PartialEq, Eq, Structural)]
pub enum Phase {
    /// Whether the audio extraction tool is installed.
    CheckFfmpeg,
    /// Whether the transcription tool is installed.
    CheckWhisper,
    /// The local model directory.
    ModelsDir,
    /// The catalog.
    Catalog,
    /// The user's pick among the models of the catalog.
    Picking,
    /// The model file.
    Resolving,
    /// The output directory.
    OutDir,
    /// Whether the download tool is installed.
    CheckYtDlp,
    /// The end of the download tool.
    Downloading,
    /// The WAV file that the download tool wrote.
    FindingWav,
    /// The WAV file's move to the output directory.
    Moving,
    /// The local recording's place in the file system.
    Locating,
    /// The kind and name of the local recording.
    Inspecting,
    /// The end of the audio extraction tool.
    Extracting,
    /// The end of the transcription tool.
    Transcribing,
    /// Whether the transcript is there.
    CheckingTranscript,
    /// Nothing: the run has ended.
    Finished,
}

/// An answer from the outside world to the last action of the pipeline.
#[derive(Debug, PartialEq, Eq)]
pub enum PipelineEvent {
    /// The answer to [`PipelineAction::RequireTool`].
    ToolFound(bool),
    /// The answer to [`PipelineAction::PrepareModelsDir`] and
    /// [`PipelineAction::PrepareOutDir`]: whether the directory is there.
    Prepared(bool),
    /// The answer to [`PipelineAction::LookupCatalog`]: the catalog, or
    /// `None` where the lookup failed.
    Catalog(Option<Vec<HfFile>>),
    /// The answer to [`PipelineAction::PickModel`]: the index of the entry
    /// that was picked, or `None` where none was.
    Picked(Option<usize>),
    /// The answer to [`PipelineAction::ResolveModel`]: `None` where the model
    /// file is at hand, else why it is not.
    Resolved(Option<ModelError>),
    /// The answer to [`PipelineAction::LocateInput`]: whether the path exists
    /// as named, its file name, and for each of the names that
    /// `extension_candidates` gives for it whether it exists beside it.
    Located { exists: bool, file_name: Option<String>, siblings: Vec<bool> },
    /// The answer to [`PipelineAction::InspectInput`]: whether the recording
    /// is a regular file, and the stem of its file name.
    Inspected { is_file: bool, stem: Option<String> },
    /// The answer to [`PipelineAction::Run`]: whether the tool ran and ended
    /// with success.
    ToolExit(bool),
    /// The answer to [`PipelineAction::FindWav`]: whether the scratch
    /// directory holds a WAV file, and the stem of the first one's name.
    WavFound { found: bool, stem: Option<String> },
    /// The answer to [`PipelineAction::MoveWav`]: whether the file was moved.
    Moved(bool),
    /// The answer to [`PipelineAction::CheckTranscript`].
    TranscriptExists(bool),
}

/// What the caller of the pipeline is to do next.
#[derive(Debug, PartialEq, Eq)]
pub enum PipelineAction {
    /// Find out whether the tool is installed.
    RequireTool(Tool),
    /// Find the local model directory beside the transcription tool and make
    /// sure that it exists.
    PrepareModelsDir,
    /// Look the catalog up.
    LookupCatalog { refresh: bool, prefer_quantized: bool },
    /// The run has ended: show these models.
    ListModels(Vec<HfFile>),
    /// Let the user pick one of these models.
    PickModel { files: Vec<HfFile>, prefer_quantized: bool },
    /// Resolve `input` to a model file, against this catalog.
    ResolveModel { input: String, files: Vec<HfFile>, prefer_quantized: bool },
    /// Make sure that the output directory exists.
    PrepareOutDir,
    /// Find out where the local recording of this name is.
    LocateInput(String),
    /// Find out what kind of file the recording is.
    InspectInput(Inferred),
    /// Run the tool with these arguments.
    Run { tool: Tool, args: Vec<Arg> },
    /// Find the WAV file in the scratch directory.
    FindWav,
    /// Move the WAV file to this name in the output directory.
    MoveWav { name: String },
    /// Find out whether the file of this name is in the output directory.
    CheckTranscript { name: String },
    /// The run has ended: the tools have done their work. `transcript` and
    /// `wav` are the names of the outputs in the output directory.
    Report { transcript_found: bool, transcript: String, wav: String },
    /// The run has ended without a transcript.
    Fail(PipelineError),
    /// The event answered no action of this run; nothing has changed.
    Nothing,
}

/// A run in progress.
#[derive(Debug, PartialEq, Eq)]
pub struct Pipeline {
    /// What the user asked for.
    pub args: Args,
    /// Whether file names follow the rules of Windows.
    pub windows: bool,
    /// What the run waits for.
    pub phase: Phase,
    /// The catalog, once it is known.
    pub files: Vec<HfFile>,
    /// The base name of the outputs, once it is known.
    pub base_name: String,
}

/// The run ends here with `error`.
pub open spec fn fails_with(after: Pipeline, action: PipelineAction, error: PipelineError) -> bool {
    after.phase == Phase::Finished && action == PipelineAction::Fail(error)
}

/// The transcription tool is to run next, on the outputs named `base`.
pub open spec fn transcribes(
    before: Pipeline,
    after: Pipeline,
    action: PipelineAction,
    base: Seq<char>,
) -> bool {
    &&& after.phase == Phase::Transcribing
    &&& after.base_name@ == base
    &&& action matches PipelineAction::Run { tool, args }
    &&& tool == Tool::WhisperCli
    &&& arg_views(args@) == transcriber_command(base, before.args.language@, before.args.threads)
}

/// What follows the catalog: the list, the resolution of the model that the
/// user named, or the user's pick.
pub open spec fn is_step_after_catalog(
    before: Pipeline,
    files: Vec<HfFile>,
    after: Pipeline,
    action: PipelineAction,
) -> bool {
    &&& after.files@ == files@
    &&& if before.args.list_models {
        if files.len() == 0 {
            fails_with(after, action, PipelineError::NoModels)
        } else {
            &&& after.phase == Phase::Finished
            &&& action matches PipelineAction::ListModels(list)
            &&& list@ == files@
        }
    } else {
        match before.args.model {
            Some(model) => {
                &&& after.phase == Phase::Resolving
                &&& action matches PipelineAction::ResolveModel {
                    input,
                    files: catalog,
                    prefer_quantized,
                }
                &&& input@ == model@
                &&& catalog@ == files@
                &&& prefer_quantized == before.args.prefer_quantized
            },
            None => if files.len() == 0 {
                fails_with(after, action, PipelineError::NoModels)
            } else {
                &&& after.phase == Phase::Picking
                &&& action matches PipelineAction::PickModel { files: catalog, prefer_quantized }
                &&& catalog@ == files@
                &&& prefer_quantized == before.args.prefer_quantized
            },
        }
    }
}

/// What follows once the output directory is there: the branch for a remote
/// locator or the branch for a local path, as the input is classified.
pub open spec fn is_step_to_branch(before: Pipeline, after: Pipeline, action: PipelineAction) -> bool {
    match before.args.url {
        None => fails_with(after, action, PipelineError::NoInput),
        Some(input) => if classification(input@) == PipelineInput::RemoteLocator {
            after.phase == Phase::CheckYtDlp && action == PipelineAction::RequireTool(Tool::YtDlp)
        } else {
            &&& after.phase == Phase::Locating
            &&& action matches PipelineAction::LocateInput(path)
            &&& path@ == input@
        },
    }
}

/// Whether `event` takes the run `before` to `after` with `action` to do.
pub open spec fn is_pipeline_step(
    before: Pipeline,
    event: PipelineEvent,
    after: Pipeline,
    action: PipelineAction,
) -> bool {
    &&& after.args == before.args
    &&& after.windows == before.windows
    &&& match (before.phase, event) {
        (Phase::CheckFfmpeg, PipelineEvent::ToolFound(found)) => if found {
            after.phase == Phase::CheckWhisper && action == PipelineAction::RequireTool(
                Tool::WhisperCli,
            )
        } else {
            fails_with(after, action, PipelineError::MissingDependency(Tool::Ffmpeg))
        },
        (Phase::CheckWhisper, PipelineEvent::ToolFound(found)) => if found {
            after.phase == Phase::ModelsDir && action is PrepareModelsDir
        } else {
            fails_with(after, action, PipelineError::MissingDependency(Tool::WhisperCli))
        },
        (Phase::ModelsDir, PipelineEvent::Prepared(ready)) => if ready {
            &&& after.phase == Phase::Catalog
            &&& action matches PipelineAction::LookupCatalog { refresh, prefer_quantized }
            &&& refresh == before.args.refresh_models
            &&& prefer_quantized == before.args.prefer_quantized
        } else {
            fails_with(after, action, PipelineError::Storage)
        },
        (Phase::Catalog, PipelineEvent::Catalog(None)) => fails_with(
            after,
            action,
            PipelineError::CatalogUnavailable,
        ),
        (Phase::Catalog, PipelineEvent::Catalog(Some(files))) => is_step_after_catalog(
            before,
            files,
            after,
            action,
        ),
        (Phase::Picking, PipelineEvent::Picked(picked)) => match picked {
            Some(i) => if i < before.files.len() {
                &&& after.phase == Phase::Resolving
                &&& after.files@ == before.files@
                &&& action matches PipelineAction::ResolveModel {
                    input,
                    files: catalog,
                    prefer_quantized,
                }
                &&& input@ == before.files[i as int].rfilename@
                &&& catalog@ == before.files@
                &&& prefer_quantized == before.args.prefer_quantized
            } else {
                fails_with(after, action, PipelineError::SelectionFailed)
            },
            None => fails_with(after, action, PipelineError::SelectionFailed),
        },
        (Phase::Resolving, PipelineEvent::Resolved(outcome)) => match outcome {
            None => after.phase == Phase::OutDir && action is PrepareOutDir,
            Some(ModelError::ModelNotFound) => fails_with(
                after,
                action,
                PipelineError::ModelNotFound,
            ),
            Some(ModelError::DownloadError) => fails_with(
                after,
                action,
                PipelineError::DownloadError,
            ),
        },
        (Phase::OutDir, PipelineEvent::Prepared(ready)) => if ready {
            is_step_to_branch(before, after, action)
        } else {
            fails_with(after, action, PipelineError::Storage)
        },
        (Phase::CheckYtDlp, PipelineEvent::ToolFound(found)) => if found {
            match before.args.url {
                Some(input) => {
                    &&& after.phase == Phase::Downloading
                    &&& action matches PipelineAction::Run { tool, args }
                    &&& tool == Tool::YtDlp
                    &&& arg_views(args@) == downloader_command(input@)
                },
                None => fails_with(after, action, PipelineError::NoInput),
            }
        } else {
            fails_with(after, action, PipelineError::MissingDependency(Tool::YtDlp))
        },
        (Phase::Downloading, PipelineEvent::ToolExit(done)) => if done {
            after.phase == Phase::FindingWav && action is FindWav
        } else {
            fails_with(after, action, PipelineError::ExternalToolFailure(Tool::YtDlp))
        },
        (Phase::FindingWav, PipelineEvent::WavFound { found, stem }) => if found {
            &&& after.phase == Phase::Moving
            &&& after.base_name@ == sanitized_name(
                stem_or_audio(string_view(stem)),
                before.windows,
                true,
                ""@,
            )
            &&& action matches PipelineAction::MoveWav { name }
            &&& name@ == after.base_name@ + ".wav"@
        } else {
            fails_with(after, action, PipelineError::DownloadError)
        },
        (Phase::Moving, PipelineEvent::Moved(moved)) => if moved {
            transcribes(before, after, action, before.base_name@)
        } else {
            fails_with(after, action, PipelineError::DownloadError)
        },
        (Phase::Locating, PipelineEvent::Located { exists, file_name, siblings }) => {
            if is_inference(exists, string_view(file_name), siblings@, None) {
                fails_with(after, action, PipelineError::InputNotFound)
            } else {
                &&& after.phase == Phase::Inspecting
                &&& action matches PipelineAction::InspectInput(inferred)
                &&& is_inference(exists, string_view(file_name), siblings@, Some(inferred))
            }
        },
        (Phase::Inspecting, PipelineEvent::Inspected { is_file, stem }) => if is_file {
            &&& after.phase == Phase::Extracting
            &&& after.base_name@ == filled_stem_or_audio(string_view(stem))
            &&& action matches PipelineAction::Run { tool, args }
            &&& tool == Tool::Ffmpeg
            &&& arg_views(args@) == extractor_command(after.base_name@ + ".wav"@)
        } else {
            fails_with(after, action, PipelineError::InputNotAFile)
        },
        (Phase::Extracting, PipelineEvent::ToolExit(done)) => if done {
            transcribes(before, after, action, before.base_name@)
        } else {
            fails_with(after, action, PipelineError::ExternalToolFailure(Tool::Ffmpeg))
        },
        (Phase::Transcribing, PipelineEvent::ToolExit(done)) => if done {
            &&& after.phase == Phase::CheckingTranscript
            &&& after.base_name@ == before.base_name@
            &&& action matches PipelineAction::CheckTranscript { name }
            &&& name@ == before.base_name@ + ".txt"@
        } else {
            fails_with(after, action, PipelineError::ExternalToolFailure(Tool::WhisperCli))
        },
        (Phase::CheckingTranscript, PipelineEvent::TranscriptExists(exists)) => {
            &&& after.phase == Phase::Finished
            &&& action matches PipelineAction::Report { transcript_found, transcript, wav }
            &&& transcript_found == exists
            &&& transcript@ == before.base_name@ + ".txt"@
            &&& wav@ == before.base_name@ + ".wav"@
        },
        _ => after.phase == before.phase && action is Nothing,
    }
}

/// Once the output directory is there, an input with the shape of a local
/// path is looked for in the file system, and an input with a known scheme
/// is handed to the download tool, which is asked for first.
pub proof fn lemma_branch_follows_the_shape(
    before: Pipeline,
    after: Pipeline,
    action: PipelineAction,
    input: String,
)
    requires
        before.phase == Phase::OutDir,
        before.args.url == Some(input),
        is_pipeline_step(before, PipelineEvent::Prepared(true), after, action),
    ensures
        looks_local(input@) ==> after.phase == Phase::Locating && (
        action matches PipelineAction::LocateInput(path) && path@ == input@),
        has_remote_scheme(input@) ==> after.phase == Phase::CheckYtDlp && action
            == PipelineAction::RequireTool(Tool::YtDlp),
{
    if looks_local(input@) {
        lemma_local_shape_is_local_path(input@);
    }
    if has_remote_scheme(input@) {
        lemma_scheme_is_remote_locator(input@);
    }
}

/// Whether a run for `args` starts as `start`, with `first` to do.
pub open spec fn is_pipeline_start(
    args: Args,
    windows: bool,
    start: Pipeline,
    first: PipelineAction,
) -> bool {
    &&& start.args == args
    &&& start.windows == windows
    &&& start.phase == Phase::CheckFfmpeg
    &&& first == PipelineAction::RequireTool(Tool::Ffmpeg)
}

/// Starts a run.
///
/// The audio extraction tool and the transcription tool are asked for first,
/// whatever the input; the download tool only once the input has turned out
/// to be a remote locator.
pub fn run(args: Args, windows: bool) -> (r: (Pipeline, PipelineAction))
    ensures
        is_pipeline_start(args, windows, r.0, r.1),
{
    (
        Pipeline {
            args,
            windows,
            phase: Phase::CheckFfmpeg,
            files: Vec::new(),
            base_name: String::new(),
        },
        PipelineAction::RequireTool(Tool::Ffmpeg),
    )
}

impl Pipeline {
    /// The run with nothing left to wait for, and the error to report.
    fn fail(self, error: PipelineError) -> (r: (Pipeline, PipelineAction))
        ensures
            r.0.args == self.args,
            r.0.windows == self.windows,
            fails_with(r.0, r.1, error),
    {
        let Pipeline { args, windows, phase: _, files, base_name } = self;
        (
            Pipeline { args, windows, phase: Phase::Finished, files, base_name },
            PipelineAction::Fail(error),
        )
    }

    /// The run as it is, waiting for `phase`.
    fn at(self, phase: Phase) -> (r: Pipeline)
        ensures
            r.args == self.args,
            r.windows == self.windows,
            r.files == self.files,
            r.base_name == self.base_name,
            r.phase == phase,
    {
        let Pipeline { args, windows, phase: _, files, base_name } = self;
        Pipeline { args, windows, phase, files, base_name }
    }

    /// The run with the transcription tool to run next.
    fn transcribe(self) -> (r: (Pipeline, PipelineAction))
        ensures
            r.0.args == self.args,
            r.0.windows == self.windows,
            transcribes(self, r.0, r.1, self.base_name@),
    {
        let args = transcriber_args(
            self.base_name.as_str(),
            self.args.language.as_str(),
            self.args.threads,
        );
        (self.at(Phase::Transcribing), PipelineAction::Run { tool: Tool::WhisperCli, args })
    }

    /// The run once the catalog is known.
    fn after_catalog(self, files: Vec<HfFile>) -> (r: (Pipeline, PipelineAction))
        ensures
            r.0.args == self.args,
            r.0.windows == self.windows,
            is_step_after_catalog(self, files, r.0, r.1),
    {
        let Pipeline { args, windows, phase: _, files: _, base_name } = self;
        let prefer_quantized = args.prefer_quantized;
        if args.list_models {
            if files.len() == 0 {
                (
                    Pipeline { args, windows, phase: Phase::Finished, files, base_name },
                    PipelineAction::Fail(PipelineError::NoModels),
                )
            } else {
                let list = copy_files(&files);
                (
                    Pipeline { args, windows, phase: Phase::Finished, files, base_name },
                    PipelineAction::ListModels(list),
                )
            }
        } else {
            let wanted = match &args.model {
                Some(model) => Some(model.clone()),
                None => None,
            };
            match wanted {
                Some(input) => {
                    let catalog = copy_files(&files);
                    (
                        Pipeline { args, windows, phase: Phase::Resolving, files, base_name },
                        PipelineAction::ResolveModel { input, files: catalog, prefer_quantized },
                    )
                },
                None => {
                    if files.len() == 0 {
                        (
                            Pipeline { args, windows, phase: Phase::Finished, files, base_name },
                            PipelineAction::Fail(PipelineError::NoModels),
                        )
                    } else {
                        let catalog = copy_files(&files);
                        (
                            Pipeline { args, windows, phase: Phase::Picking, files, base_name },
                            PipelineAction::PickModel { files: catalog, prefer_quantized },
                        )
                    }
                },
            }
        }
    }

    /// The run once the output directory is there.
    fn branch(self) -> (r: (Pipeline, PipelineAction))
        ensures
            r.0.args == self.args,
            r.0.windows == self.windows,
            is_step_to_branch(self, r.0, r.1),
    {
        let input = match &self.args.url {
            Some(input) => Some(input.clone()),
            None => None,
        };
        match input {
            None => self.fail(PipelineError::NoInput),
            Some(input) => match classify(input.as_str()) {
                PipelineInput::RemoteLocator => (
                    self.at(Phase::CheckYtDlp),
                    PipelineAction::RequireTool(Tool::YtDlp),
                ),
                PipelineInput::LocalPath => (
                    self.at(Phase::Locating),
                    PipelineAction::LocateInput(input),
                ),
            },
        }
    }

    /// Takes the answer to the last action and says what to do next.
    ///
    /// The steps follow one another in a fixed order: the tools, the local
    /// model directory, the catalog, the model, the output directory, then
    /// the download of a remote recording or the audio extraction of a local
    /// one, the transcription, and a look for the transcript. The first
    /// failure ends the run; nothing is tried twice.
    pub fn step(self, event: PipelineEvent) -> (r: (Pipeline, PipelineAction))
        ensures
            is_pipeline_step(self, event, r.0, r.1),
    {
        match (self.phase, event) {
            (Phase::CheckFfmpeg, PipelineEvent::ToolFound(found)) => {
                if found {
                    (self.at(Phase::CheckWhisper), PipelineAction::RequireTool(Tool::WhisperCli))
                } else {
                    self.fail(PipelineError::MissingDependency(Tool::Ffmpeg))
                }
            },
            (Phase::CheckWhisper, PipelineEvent::ToolFound(found)) => {
                if found {
                    (self.at(Phase::ModelsDir), PipelineAction::PrepareModelsDir)
                } else {
                    self.fail(PipelineError::MissingDependency(Tool::WhisperCli))
                }
            },
            (Phase::ModelsDir, PipelineEvent::Prepared(ready)) => {
                if ready {
                    let refresh = self.args.refresh_models;
                    let prefer_quantized = self.args.prefer_quantized;
                    (
                        self.at(Phase::Catalog),
                        PipelineAction::LookupCatalog { refresh, prefer_quantized },
                    )
                } else {
                    self.fail(PipelineError::Storage)
                }
            },
            (Phase::Catalog, PipelineEvent::Catalog(None)) => {
                self.fail(PipelineError::CatalogUnavailable)
            },
            (Phase::Catalog, PipelineEvent::Catalog(Some(files))) => self.after_catalog(files),
            (Phase::Picking, PipelineEvent::Picked(picked)) => {
                match picked {
                    Some(i) => {
                        if i < self.files.len() {
                            let input = self.files[i].rfilename.clone();
                            let catalog = copy_files(&self.files);
                            let prefer_quantized = self.args.prefer_quantized;
                            (
                                self.at(Phase::Resolving),
                                PipelineAction::ResolveModel {
                                    input,
                                    files: catalog,
                                    prefer_quantized,
                                },
                            )
                        } else {
                            self.fail(PipelineError::SelectionFailed)
                        }
                    },
                    None => self.fail(PipelineError::SelectionFailed),
                }
            },
            (Phase::Resolving, PipelineEvent::Resolved(outcome)) => {
                match outcome {
                    None => (self.at(Phase::OutDir), PipelineAction::PrepareOutDir),
                    Some(ModelError::ModelNotFound) => self.fail(PipelineError::ModelNotFound),
                    Some(ModelError::DownloadError) => self.fail(PipelineError::DownloadError),
                }
            },
            (Phase::OutDir, PipelineEvent::Prepared(ready)) => {
                if ready {
                    self.branch()
                } else {
                    self.fail(PipelineError::Storage)
                }
            },
            (Phase::CheckYtDlp, PipelineEvent::ToolFound(found)) => {
                if found {
                    let args = match &self.args.url {
                        Some(input) => Some(downloader_args(input.as_str())),
                        None => None,
                    };
                    match args {
                        Some(args) => (
                            self.at(Phase::Downloading),
                            PipelineAction::Run { tool: Tool::YtDlp, args },
                        ),
                        None => self.fail(PipelineError::NoInput),
                    }
                } else {
                    self.fail(PipelineError::MissingDependency(Tool::YtDlp))
                }
            },
            (Phase::Downloading, PipelineEvent::ToolExit(done)) => {
                if done {
                    (self.at(Phase::FindingWav), PipelineAction::FindWav)
                } else {
                    self.fail(PipelineError::ExternalToolFailure(Tool::YtDlp))
                }
            },
            (Phase::FindingWav, PipelineEvent::WavFound { found, stem }) => {
                if found {
                    let base = build_basename_from_wav(as_str_option(&stem), self.windows);
                    let name = concat(base.as_str(), ".wav");
                    let Pipeline { args, windows, phase: _, files, base_name: _ } = self;
                    (
                        Pipeline { args, windows, phase: Phase::Moving, files, base_name: base },
                        PipelineAction::MoveWav { name },
                    )
                } else {
                    self.fail(PipelineError::DownloadError)
                }
            },
            (Phase::Moving, PipelineEvent::Moved(moved)) => {
                if moved {
                    self.transcribe()
                } else {
                    self.fail(PipelineError::DownloadError)
                }
            },
            (Phase::Locating, PipelineEvent::Located { exists, file_name, siblings }) => {
                match try_infer_with_exts(exists, as_str_option(&file_name), &siblings) {
                    Some(inferred) => (
                        self.at(Phase::Inspecting),
                        PipelineAction::InspectInput(inferred),
                    ),
                    None => self.fail(PipelineError::InputNotFound),
                }
            },
            (Phase::Inspecting, PipelineEvent::Inspected { is_file, stem }) => {
                if is_file {
                    let base = local_basename(as_str_option(&stem));
                    let wav = concat(base.as_str(), ".wav");
                    let args = extractor_args(wav.as_str());
                    let Pipeline { args: given, windows, phase: _, files, base_name: _ } = self;
                    (
                        Pipeline {
                            args: given,
                            windows,
                            phase: Phase::Extracting,
                            files,
                            base_name: base,
                        },
                        PipelineAction::Run { tool: Tool::Ffmpeg, args },
                    )
                } else {
                    self.fail(PipelineError::InputNotAFile)
                }
            },
            (Phase::Extracting, PipelineEvent::ToolExit(done)) => {
                if done {
                    self.transcribe()
                } else {
                    self.fail(PipelineError::ExternalToolFailure(Tool::Ffmpeg))
                }
            },
            (Phase::Transcribing, PipelineEvent::ToolExit(done)) => {
                if done {
                    let name = concat(self.base_name.as_str(), ".txt");
                    (self.at(Phase::CheckingTranscript), PipelineAction::CheckTranscript { name })
                } else {
                    self.fail(PipelineError::ExternalToolFailure(Tool::WhisperCli))
                }
            },
            (Phase::CheckingTranscript, PipelineEvent::TranscriptExists(exists)) => {
                let transcript = concat(self.base_name.as_str(), ".txt");
                let wav = concat(self.base_name.as_str(), ".wav");
                (
                    self.at(Phase::Finished),
                    PipelineAction::Report { transcript_found: exists, transcript, wav },
                )
            },
            (phase, _) => (self.at(phase), PipelineAction::Nothing),
        }
    }
}

/// The text of an optional string, or nothing where there is none.
pub open spec fn text_or_empty(s: Option<String>) -> Seq<char> {
    match s {
        Some(s) => s@,
        None => Seq::empty(),
    }
}

/// What the user is told when a run ends with `error`.
pub open spec fn error_text(error: PipelineError, args: Args) -> Seq<char> {
    match error {
        PipelineError::MissingDependency(tool) => "Required tool '"@ + tool_name(tool)
            + "' not found in PATH"@,
        PipelineError::Storage => "Failed to create dir"@,
        PipelineError::CatalogUnavailable => "Could not get the list of models"@,
        PipelineError::NoModels => "No models found in Hugging Face API response"@,
        PipelineError::SelectionFailed => "No model was picked"@,
        PipelineError::ModelNotFound => "Could not find a model matching '"@ + text_or_empty(
            args.model,
        ) + "' in HF repo"@,
        PipelineError::DownloadError => "Download failed"@,
        PipelineError::NoInput => "No input provided. Pass a URL or a local video path."@,
        PipelineError::InputNotFound => "Input file not found. Tried: "@ + text_or_empty(args.url)
            + "\nHint: include the extension or use one of: .mp4 .mkv .webm .mov .m4a .mp3 .wav .flac .avi .m4v .aac .opus"@,
        PipelineError::InputNotAFile => "Input is not a file: "@ + text_or_empty(args.url),
        PipelineError::ExternalToolFailure(tool) => match tool {
            Tool::Ffmpeg => "ffmpeg failed to extract audio from "@ + text_or_empty(args.url),
            _ => tool_name(tool) + " failed"@,
        },
    }
}

/// The text of an optional string, or the empty text.
fn or_empty(s: &Option<String>) -> (r: &str)
    ensures
        r@ == text_or_empty(*s),
{
    match s {
        Some(s) => s.as_str(),
        None => {
            proof {
                reveal_strlit("");
                assert(""@ =~= Seq::<char>::empty());
            }
            ""
        },
    }
}

/// Says in words why a run ended without a transcript, with the name of the
/// tool, model or input in question.
pub fn describe(error: PipelineError, args: &Args) -> (r: String)
    ensures
        r@ == error_text(error, *args),
{
    match error {
        PipelineError::MissingDependency(tool) => concat3(
            "Required tool '",
            tool.name(),
            "' not found in PATH",
        ),
        PipelineError::Storage => "Failed to create dir".to_owned(),
        PipelineError::CatalogUnavailable => "Could not get the list of models".to_owned(),
        PipelineError::NoModels => "No models found in Hugging Face API response".to_owned(),
        PipelineError::SelectionFailed => "No model was picked".to_owned(),
        PipelineError::ModelNotFound => concat3(
            "Could not find a model matching '",
            or_empty(&args.model),
            "' in HF repo",
        ),
        PipelineError::DownloadError => "Download failed".to_owned(),
        PipelineError::NoInput => "No input provided. Pass a URL or a local video path.".to_owned(),
        PipelineError::InputNotFound => concat3(
            "Input file not found. Tried: ",
            or_empty(&args.url),
            "\nHint: include the extension or use one of: .mp4 .mkv .webm .mov .m4a .mp3 .wav .flac .avi .m4v .aac .opus",
        ),
        PipelineError::InputNotAFile => concat("Input is not a file: ", or_empty(&args.url)),
        PipelineError::ExternalToolFailure(tool) => match tool {
            Tool::Ffmpeg => concat("ffmpeg failed to extract audio from ", or_empty(&args.url)),
            _ => concat(tool.name(), " failed"),
        },
    }
}

} // verus!
