use vid2txt::cli::Args;
use vid2txt::cmd::{downloader_args, extractor_args, transcriber_args, Arg, Tool};
use vid2txt::fs_utils::Inferred;
use vid2txt::hf::HfFile;
use vid2txt::models::ModelError;
use vid2txt::pipeline::{describe, run, Phase, Pipeline, PipelineAction, PipelineError, PipelineEvent};

fn args(url: Option<&str>, model: Option<&str>) -> Args {
    Args {
        url: url.map(|s| s.to_string()),
        out: None,
        model: model.map(|s| s.to_string()),
        language: "auto".to_string(),
        threads: None,
        verbose: false,
        list_models: false,
        prefer_quantized: false,
        refresh_models: false,
    }
}

fn file(name: &str) -> HfFile {
    HfFile { rfilename: name.to_string(), size: None }
}

fn catalog() -> Vec<HfFile> {
    vec![file("ggml-base.bin"), file("ggml-tiny.bin")]
}

fn text(s: &str) -> Arg {
    Arg::Text(s.to_string())
}

fn feed(mut p: Pipeline, events: Vec<PipelineEvent>) -> (Pipeline, PipelineAction) {
    let mut last = PipelineAction::Nothing;
    for e in events {
        let (next, action) = p.step(e);
        p = next;
        last = action;
    }
    (p, last)
}

fn up_to_the_branch(a: Args) -> (Pipeline, PipelineAction) {
    let (p, _) = run(a, false);
    feed(
        p,
        vec![
            PipelineEvent::ToolFound(true),
            PipelineEvent::ToolFound(true),
            PipelineEvent::Prepared(true),
            PipelineEvent::Catalog(Some(catalog())),
            PipelineEvent::Resolved(None),
            PipelineEvent::Prepared(true),
        ],
    )
}

#[test]
fn a_run_asks_for_its_tools_first() {
    let (p, first) = run(args(Some("clip.mp4"), Some("base")), true);
    assert_eq!(first, PipelineAction::RequireTool(Tool::Ffmpeg));
    assert_eq!(p.phase, Phase::CheckFfmpeg);
    assert!(p.windows);
    let (p, action) = p.step(PipelineEvent::ToolFound(true));
    assert_eq!(action, PipelineAction::RequireTool(Tool::WhisperCli));
    let (p, action) = p.step(PipelineEvent::ToolFound(true));
    assert_eq!(action, PipelineAction::PrepareModelsDir);
    let (p, action) = p.step(PipelineEvent::Prepared(true));
    assert_eq!(action, PipelineAction::LookupCatalog { refresh: false, prefer_quantized: false });
    assert_eq!(p.phase, Phase::Catalog);
}

#[test]
fn a_missing_tool_ends_the_run() {
    let (p, _) = run(args(Some("clip.mp4"), None), false);
    let (p, action) = p.step(PipelineEvent::ToolFound(false));
    assert_eq!(action, PipelineAction::Fail(PipelineError::MissingDependency(Tool::Ffmpeg)));
    assert_eq!(p.phase, Phase::Finished);
    let (p, _) = run(args(Some("clip.mp4"), None), false);
    let (_, action) = feed(p, vec![PipelineEvent::ToolFound(true), PipelineEvent::ToolFound(false)]);
    assert_eq!(action, PipelineAction::Fail(PipelineError::MissingDependency(Tool::WhisperCli)));
    let (p, action) = up_to_the_branch(args(Some("https://example.com/v"), Some("base")));
    assert_eq!(action, PipelineAction::RequireTool(Tool::YtDlp));
    let (_, action) = p.step(PipelineEvent::ToolFound(false));
    assert_eq!(action, PipelineAction::Fail(PipelineError::MissingDependency(Tool::YtDlp)));
}

#[test]
fn a_directory_that_cannot_be_made_ends_the_run() {
    let (p, _) = run(args(Some("clip.mp4"), None), false);
    let (_, action) = feed(
        p,
        vec![PipelineEvent::ToolFound(true), PipelineEvent::ToolFound(true), PipelineEvent::Prepared(false)],
    );
    assert_eq!(action, PipelineAction::Fail(PipelineError::Storage));
    let (p, _) = run(args(Some("clip.mp4"), Some("base")), false);
    let (_, action) = feed(
        p,
        vec![
            PipelineEvent::ToolFound(true),
            PipelineEvent::ToolFound(true),
            PipelineEvent::Prepared(true),
            PipelineEvent::Catalog(Some(catalog())),
            PipelineEvent::Resolved(None),
            PipelineEvent::Prepared(false),
        ],
    );
    assert_eq!(action, PipelineAction::Fail(PipelineError::Storage));
}

#[test]
fn the_catalog_decides_what_comes_next() {
    let start = |a: Args| {
        let (p, _) = run(a, false);
        feed(p, vec![PipelineEvent::ToolFound(true), PipelineEvent::ToolFound(true), PipelineEvent::Prepared(true)]).0
    };
    let (_, action) = start(args(None, None)).step(PipelineEvent::Catalog(None));
    assert_eq!(action, PipelineAction::Fail(PipelineError::CatalogUnavailable));

    let mut listing = args(None, None);
    listing.list_models = true;
    let (p, action) = start(listing).step(PipelineEvent::Catalog(Some(catalog())));
    assert_eq!(action, PipelineAction::ListModels(catalog()));
    assert_eq!(p.phase, Phase::Finished);

    let mut listing = args(None, None);
    listing.list_models = true;
    let (_, action) = start(listing).step(PipelineEvent::Catalog(Some(Vec::new())));
    assert_eq!(action, PipelineAction::Fail(PipelineError::NoModels));

    let mut named = args(None, Some("tiny"));
    named.prefer_quantized = true;
    let (p, action) = start(named).step(PipelineEvent::Catalog(Some(Vec::new())));
    assert_eq!(
        action,
        PipelineAction::ResolveModel { input: "tiny".to_string(), files: Vec::new(), prefer_quantized: true }
    );
    assert_eq!(p.phase, Phase::Resolving);

    let (_, action) = start(args(None, None)).step(PipelineEvent::Catalog(Some(Vec::new())));
    assert_eq!(action, PipelineAction::Fail(PipelineError::NoModels));

    let (p, action) = start(args(None, None)).step(PipelineEvent::Catalog(Some(catalog())));
    assert_eq!(action, PipelineAction::PickModel { files: catalog(), prefer_quantized: false });
    assert_eq!(p.phase, Phase::Picking);
    assert_eq!(p.files, catalog());
}

#[test]
fn a_picked_model_is_resolved_by_its_name() {
    let picking = || {
        let (p, _) = run(args(Some("clip.mp4"), None), false);
        feed(
            p,
            vec![
                PipelineEvent::ToolFound(true),
                PipelineEvent::ToolFound(true),
                PipelineEvent::Prepared(true),
                PipelineEvent::Catalog(Some(catalog())),
            ],
        )
        .0
    };
    let (_, action) = picking().step(PipelineEvent::Picked(Some(1)));
    assert_eq!(
        action,
        PipelineAction::ResolveModel { input: "ggml-tiny.bin".to_string(), files: catalog(), prefer_quantized: false }
    );
    let (_, action) = picking().step(PipelineEvent::Picked(Some(2)));
    assert_eq!(action, PipelineAction::Fail(PipelineError::SelectionFailed));
    let (_, action) = picking().step(PipelineEvent::Picked(None));
    assert_eq!(action, PipelineAction::Fail(PipelineError::SelectionFailed));
}

#[test]
fn a_model_that_cannot_be_had_ends_the_run() {
    let resolving = || {
        let (p, _) = run(args(Some("clip.mp4"), Some("nope")), false);
        feed(
            p,
            vec![
                PipelineEvent::ToolFound(true),
                PipelineEvent::ToolFound(true),
                PipelineEvent::Prepared(true),
                PipelineEvent::Catalog(Some(catalog())),
            ],
        )
        .0
    };
    let (_, action) = resolving().step(PipelineEvent::Resolved(Some(ModelError::ModelNotFound)));
    assert_eq!(action, PipelineAction::Fail(PipelineError::ModelNotFound));
    let (_, action) = resolving().step(PipelineEvent::Resolved(Some(ModelError::DownloadError)));
    assert_eq!(action, PipelineAction::Fail(PipelineError::DownloadError));
    let (p, action) = resolving().step(PipelineEvent::Resolved(None));
    assert_eq!(action, PipelineAction::PrepareOutDir);
    assert_eq!(p.phase, Phase::OutDir);
}

#[test]
fn a_run_without_input_ends_before_the_branch() {
    let (p, action) = up_to_the_branch(args(None, Some("base")));
    assert_eq!(action, PipelineAction::Fail(PipelineError::NoInput));
    assert_eq!(p.phase, Phase::Finished);
}

#[test]
fn a_remote_recording_is_downloaded_moved_and_transcribed() {
    let mut a = args(Some("https://example.com/watch?v=1"), Some("base"));
    a.language = "en".to_string();
    a.threads = Some(8);
    let (p, action) = up_to_the_branch(a);
    assert_eq!(action, PipelineAction::RequireTool(Tool::YtDlp));
    let (p, action) = p.step(PipelineEvent::ToolFound(true));
    assert_eq!(
        action,
        PipelineAction::Run {
            tool: Tool::YtDlp,
            args: vec![
                text("https://example.com/watch?v=1"), text("-f"), text("bestaudio/best"),
                text("--extract-audio"), text("--audio-format"), text("wav"), text("--audio-quality"),
                text("0"), text("--restrict-filenames"), text("--windows-filenames"), text("-o"),
                Arg::InScratch("%(title)s.%(ext)s".to_string()),
            ],
        }
    );
    let (p, action) = p.step(PipelineEvent::ToolExit(true));
    assert_eq!(action, PipelineAction::FindWav);
    let (p, action) = p.step(PipelineEvent::WavFound { found: true, stem: Some("My: Talk".to_string()) });
    assert_eq!(action, PipelineAction::MoveWav { name: "My Talk.wav".to_string() });
    assert_eq!(p.base_name, "My Talk");
    let (p, action) = p.step(PipelineEvent::Moved(true));
    assert_eq!(
        action,
        PipelineAction::Run {
            tool: Tool::WhisperCli,
            args: vec![
                text("-m"), Arg::ModelFile, text("-f"), Arg::InOutDir("My Talk.wav".to_string()),
                text("-otxt"), text("-of"), Arg::InOutDir("My Talk".to_string()), text("-l"), text("en"),
                text("-t"), text("8"),
            ],
        }
    );
    let (p, action) = p.step(PipelineEvent::ToolExit(true));
    assert_eq!(action, PipelineAction::CheckTranscript { name: "My Talk.txt".to_string() });
    let (p, action) = p.step(PipelineEvent::TranscriptExists(true));
    assert_eq!(
        action,
        PipelineAction::Report {
            transcript_found: true,
            transcript: "My Talk.txt".to_string(),
            wav: "My Talk.wav".to_string(),
        }
    );
    assert_eq!(p.phase, Phase::Finished);
}

#[test]
fn a_failed_download_ends_the_run() {
    let downloading = || {
        let (p, _) = up_to_the_branch(args(Some("example.com/v"), Some("base")));
        p.step(PipelineEvent::ToolFound(true)).0
    };
    let (_, action) = downloading().step(PipelineEvent::ToolExit(false));
    assert_eq!(action, PipelineAction::Fail(PipelineError::ExternalToolFailure(Tool::YtDlp)));
    let (p, _) = downloading().step(PipelineEvent::ToolExit(true));
    let (_, action) = p.step(PipelineEvent::WavFound { found: false, stem: None });
    assert_eq!(action, PipelineAction::Fail(PipelineError::DownloadError));
    let (p, _) = downloading().step(PipelineEvent::ToolExit(true));
    let (p, action) = p.step(PipelineEvent::WavFound { found: true, stem: None });
    assert_eq!(action, PipelineAction::MoveWav { name: "audio.wav".to_string() });
    let (_, action) = p.step(PipelineEvent::Moved(false));
    assert_eq!(action, PipelineAction::Fail(PipelineError::DownloadError));
}

#[test]
fn a_local_recording_is_extracted_and_transcribed() {
    let (p, action) = up_to_the_branch(args(Some("talks/clip"), Some("base")));
    assert_eq!(action, PipelineAction::LocateInput("talks/clip".to_string()));
    let mut siblings = vec![false; 12];
    siblings[1] = true;
    let (p, action) = p.step(PipelineEvent::Located {
        exists: false,
        file_name: Some("clip".to_string()),
        siblings,
    });
    assert_eq!(action, PipelineAction::InspectInput(Inferred::Sibling("clip.mkv".to_string())));
    let (p, action) = p.step(PipelineEvent::Inspected { is_file: true, stem: Some("clip".to_string()) });
    assert_eq!(
        action,
        PipelineAction::Run {
            tool: Tool::Ffmpeg,
            args: vec![
                text("-y"), text("-i"), Arg::InputFile, text("-vn"), text("-acodec"), text("pcm_s16le"),
                text("-ar"), text("16000"), text("-ac"), text("1"), Arg::InOutDir("clip.wav".to_string()),
            ],
        }
    );
    assert_eq!(p.base_name, "clip");
    let (p, action) = p.step(PipelineEvent::ToolExit(true));
    assert_eq!(
        action,
        PipelineAction::Run {
            tool: Tool::WhisperCli,
            args: vec![
                text("-m"), Arg::ModelFile, text("-f"), Arg::InOutDir("clip.wav".to_string()),
                text("-otxt"), text("-of"), Arg::InOutDir("clip".to_string()), text("-l"), text("auto"),
            ],
        }
    );
    let (p, action) = p.step(PipelineEvent::ToolExit(true));
    assert_eq!(action, PipelineAction::CheckTranscript { name: "clip.txt".to_string() });
    let (_, action) = p.step(PipelineEvent::TranscriptExists(false));
    assert_eq!(
        action,
        PipelineAction::Report {
            transcript_found: false,
            transcript: "clip.txt".to_string(),
            wav: "clip.wav".to_string(),
        }
    );
}

#[test]
fn a_local_recording_that_is_not_there_ends_the_run() {
    let locating = || up_to_the_branch(args(Some("./clip.mp4"), Some("base"))).0;
    let (_, action) = locating().step(PipelineEvent::Located {
        exists: false,
        file_name: Some("clip.mp4".to_string()),
        siblings: vec![true; 12],
    });
    assert_eq!(action, PipelineAction::Fail(PipelineError::InputNotFound));
    let (_, action) = locating().step(PipelineEvent::Located { exists: false, file_name: None, siblings: Vec::new() });
    assert_eq!(action, PipelineAction::Fail(PipelineError::InputNotFound));
    let (p, action) = locating().step(PipelineEvent::Located {
        exists: true,
        file_name: Some("clip.mp4".to_string()),
        siblings: Vec::new(),
    });
    assert_eq!(action, PipelineAction::InspectInput(Inferred::AsGiven));
    let (_, action) = p.step(PipelineEvent::Inspected { is_file: false, stem: Some("clip".to_string()) });
    assert_eq!(action, PipelineAction::Fail(PipelineError::InputNotAFile));
}

#[test]
fn a_tool_that_fails_ends_the_run() {
    let inspecting = || {
        let (p, _) = up_to_the_branch(args(Some("clip.mp4"), Some("base")));
        p.step(PipelineEvent::Located { exists: true, file_name: Some("clip.mp4".to_string()), siblings: Vec::new() }).0
    };
    let (p, _) = inspecting().step(PipelineEvent::Inspected { is_file: true, stem: None });
    assert_eq!(p.base_name, "audio");
    let (_, action) = p.step(PipelineEvent::ToolExit(false));
    assert_eq!(action, PipelineAction::Fail(PipelineError::ExternalToolFailure(Tool::Ffmpeg)));
    let (p, _) = inspecting().step(PipelineEvent::Inspected { is_file: true, stem: Some(String::new()) });
    assert_eq!(p.base_name, "audio");
    let (p, _) = p.step(PipelineEvent::ToolExit(true));
    let (p, action) = p.step(PipelineEvent::ToolExit(false));
    assert_eq!(action, PipelineAction::Fail(PipelineError::ExternalToolFailure(Tool::WhisperCli)));
    assert_eq!(p.phase, Phase::Finished);
    let (p, action) = p.step(PipelineEvent::ToolExit(true));
    assert_eq!(action, PipelineAction::Nothing);
    assert_eq!(p.phase, Phase::Finished);
}

#[test]
fn an_event_that_answers_nothing_leaves_the_run_as_it_is() {
    let (p, _) = run(args(Some("clip.mp4"), Some("base")), false);
    let (p, action) = p.step(PipelineEvent::Prepared(true));
    assert_eq!(action, PipelineAction::Nothing);
    assert_eq!(p.phase, Phase::CheckFfmpeg);
    assert_eq!(p.args, args(Some("clip.mp4"), Some("base")));
}

#[test]
fn the_branch_follows_the_classification() {
    for (input, remote) in [
        ("example.com", true), ("HTTPS://x", true), ("youtu.be/xyz", true), ("report.v1", false),
        ("./example.com", false), ("C:\\clip", false), ("", false), ("my talk", false),
    ] {
        let (_, action) = up_to_the_branch(args(Some(input), Some("base")));
        if remote {
            assert_eq!(action, PipelineAction::RequireTool(Tool::YtDlp), "input {:?}", input);
        } else {
            assert_eq!(action, PipelineAction::LocateInput(input.to_string()), "input {:?}", input);
        }
    }
}

#[test]
fn tools_have_their_names_and_arguments() {
    assert_eq!(Tool::Ffmpeg.name(), "ffmpeg");
    assert_eq!(Tool::WhisperCli.name(), "whisper-cli");
    assert_eq!(Tool::YtDlp.name(), "yt-dlp");
    assert_eq!(downloader_args("u").len(), 12);
    assert_eq!(downloader_args("u")[0], text("u"));
    assert_eq!(extractor_args("a.wav")[10], Arg::InOutDir("a.wav".to_string()));
    assert_eq!(transcriber_args("b", "pt", None).len(), 9);
    let with_threads = transcriber_args("b", "pt", Some(4294967295));
    assert_eq!(with_threads.len(), 11);
    assert_eq!(with_threads[8], text("pt"));
    assert_eq!(with_threads[10], text("4294967295"));
    assert_eq!(transcriber_args("b", "pt", Some(0))[10], text("0"));
}

#[test]
fn errors_are_said_in_words() {
    let a = args(Some("talks/clip"), Some("large-v9"));
    assert_eq!(describe(PipelineError::MissingDependency(Tool::YtDlp), &a), "Required tool 'yt-dlp' not found in PATH");
    assert_eq!(describe(PipelineError::Storage, &a), "Failed to create dir");
    assert_eq!(describe(PipelineError::CatalogUnavailable, &a), "Could not get the list of models");
    assert_eq!(describe(PipelineError::NoModels, &a), "No models found in Hugging Face API response");
    assert_eq!(describe(PipelineError::SelectionFailed, &a), "No model was picked");
    assert_eq!(describe(PipelineError::ModelNotFound, &a), "Could not find a model matching 'large-v9' in HF repo");
    assert_eq!(describe(PipelineError::DownloadError, &a), "Download failed");
    assert_eq!(describe(PipelineError::NoInput, &a), "No input provided. Pass a URL or a local video path.");
    assert_eq!(
        describe(PipelineError::InputNotFound, &a),
        "Input file not found. Tried: talks/clip\nHint: include the extension or use one of: .mp4 .mkv .webm .mov .m4a .mp3 .wav .flac .avi .m4v .aac .opus"
    );
    assert_eq!(describe(PipelineError::InputNotAFile, &a), "Input is not a file: talks/clip");
    assert_eq!(describe(PipelineError::ExternalToolFailure(Tool::Ffmpeg), &a), "ffmpeg failed to extract audio from talks/clip");
    assert_eq!(describe(PipelineError::ExternalToolFailure(Tool::YtDlp), &a), "yt-dlp failed");
    assert_eq!(describe(PipelineError::ExternalToolFailure(Tool::WhisperCli), &args(None, None)), "whisper-cli failed");
    assert_eq!(describe(PipelineError::ModelNotFound, &args(None, None)), "Could not find a model matching '' in HF repo");
}
