//! The external tools and the arguments with which each is run.

use vstd::prelude::*;
use crate::text::{concat, decimal, decimal_digits};

verus! {

/// An external tool that the pipeline runs.
#[derive(Clone, Copy, Debug, PartialEq, Eq, Structural)]
pub enum Tool {
    /// Extracts the audio of a local recording.
    Ffmpeg,
    /// Transcribes a WAV file.
    WhisperCli,
    /// Downloads a remote recording as a WAV file.
    YtDlp,
}

/// The name under which a tool is looked up and run.
pub open spec fn tool_name(tool: Tool) -> Seq<char> {
    match tool {
        Tool::Ffmpeg => "ffmpeg"@,
        Tool::WhisperCli => "whisper-cli"@,
        Tool::YtDlp => "yt-dlp"@,
    }
}

impl Tool {
    /// The name under which the tool is looked up and run.
    pub fn name(self) -> (r: &'static str)
        ensures
            r@ == tool_name(self),
    {
        match self {
            Tool::Ffmpeg => "ffmpeg",
            Tool::WhisperCli => "whisper-cli",
            Tool::YtDlp => "yt-dlp",
        }
    }
}

/// One argument of a tool. Paths are named by their place, and are put
/// together by whoever runs the tool.
#[derive(Debug, PartialEq, Eq)]
pub enum Arg {
    /// The text as it stands.
    Text(String),
    /// The path of this name in the scratch directory of the download.
    InScratch(String),
    /// The path of this name in the output directory.
    InOutDir(String),
    /// The path of the local recording.
    InputFile,
    /// The path of the model file.
    ModelFile,
}

/// An argument, with its text as characters.
pub enum ArgView {
    /// The text as it stands.
    Text(Seq<char>),
    /// The path of this name in the scratch directory of the download.
    InScratch(Seq<char>),
    /// The path of this name in the output directory.
    InOutDir(Seq<char>),
    /// The path of the local recording.
    InputFile,
    /// The path of the model file.
    ModelFile,
}

impl View for Arg {
    type V = ArgView;

    open spec fn view(&self) -> ArgView {
        match *self {
            Arg::Text(s) => ArgView::Text(s@),
            Arg::InScratch(s) => ArgView::InScratch(s@),
            Arg::InOutDir(s) => ArgView::InOutDir(s@),
            Arg::InputFile => ArgView::InputFile,
            Arg::ModelFile => ArgView::ModelFile,
        }
    }
}

/// The arguments `args`, each with its text as characters.
pub open spec fn arg_views(args: Seq<Arg>) -> Seq<ArgView> {
    args.map_values(|a: Arg| a@)
}

/// The arguments of the download tool for the remote locator `input`: the
/// best audio, extracted as WAV of the highest quality, under a file name
/// that every file system takes, in the scratch directory.
pub open spec fn downloader_command(input: Seq<char>) -> Seq<ArgView> {
    seq![
        ArgView::Text(input),
        ArgView::Text("-f"@),
        ArgView::Text("bestaudio/best"@),
        ArgView::Text("--extract-audio"@),
        ArgView::Text("--audio-format"@),
        ArgView::Text("wav"@),
        ArgView::Text("--audio-quality"@),
        ArgView::Text("0"@),
        ArgView::Text("--restrict-filenames"@),
        ArgView::Text("--windows-filenames"@),
        ArgView::Text("-o"@),
        ArgView::InScratch("%(title)s.%(ext)s"@),
    ]
}

/// The arguments of the audio extraction tool: the local recording, without
/// video, as 16-bit PCM at 16 kHz in one channel, written over any older file
/// of the name `wav_name` in the output directory.
pub open spec fn extractor_command(wav_name: Seq<char>) -> Seq<ArgView> {
    seq![
        ArgView::Text("-y"@),
        ArgView::Text("-i"@),
        ArgView::InputFile,
        ArgView::Text("-vn"@),
        ArgView::Text("-acodec"@),
        ArgView::Text("pcm_s16le"@),
        ArgView::Text("-ar"@),
        ArgView::Text("16000"@),
        ArgView::Text("-ac"@),
        ArgView::Text("1"@),
        ArgView::InOutDir(wav_name),
    ]
}

/// The arguments of the transcription tool: the model, the WAV file
/// `base.wav`, plain text as output under the name `base`, the language, and
/// the number of threads where one is given.
pub open spec fn transcriber_command(
    base: Seq<char>,
    language: Seq<char>,
    threads: Option<u32>,
) -> Seq<ArgView> {
    let fixed = seq![
        ArgView::Text("-m"@),
        ArgView::ModelFile,
        ArgView::Text("-f"@),
        ArgView::InOutDir(base + ".wav"@),
        ArgView::Text("-otxt"@),
        ArgView::Text("-of"@),
        ArgView::InOutDir(base),
        ArgView::Text("-l"@),
        ArgView::Text(language),
    ];
    match threads {
        Some(t) => fixed + seq![ArgView::Text("-t"@), ArgView::Text(decimal_digits(t as nat))],
        None => fixed,
    }
}

/// The argument that is the text `s`.
fn text(s: &str) -> (a: Arg)
    ensures
        a@ == ArgView::Text(s@),
{
    Arg::Text(s.to_owned())
}

/// Builds [`downloader_command`].
pub fn downloader_args(input: &str) -> (args: Vec<Arg>)
    ensures
        arg_views(args@) == downloader_command(input@),
{
    let mut args: Vec<Arg> = Vec::new();
    args.push(text(input));
    args.push(text("-f"));
    args.push(text("bestaudio/best"));
    args.push(text("--extract-audio"));
    args.push(text("--audio-format"));
    args.push(text("wav"));
    args.push(text("--audio-quality"));
    args.push(text("0"));
    args.push(text("--restrict-filenames"));
    args.push(text("--windows-filenames"));
    args.push(text("-o"));
    args.push(Arg::InScratch("%(title)s.%(ext)s".to_owned()));
    assert(arg_views(args@) =~= downloader_command(input@));
    args
}

/// Builds [`extractor_command`].
pub fn extractor_args(wav_name: &str) -> (args: Vec<Arg>)
    ensures
        arg_views(args@) == extractor_command(wav_name@),
{
    let mut args: Vec<Arg> = Vec::new();
    args.push(text("-y"));
    args.push(text("-i"));
    args.push(Arg::InputFile);
    args.push(text("-vn"));
    args.push(text("-acodec"));
    args.push(text("pcm_s16le"));
    args.push(text("-ar"));
    args.push(text("16000"));
    args.push(text("-ac"));
    args.push(text("1"));
    args.push(Arg::InOutDir(wav_name.to_owned()));
    assert(arg_views(args@) =~= extractor_command(wav_name@));
    args
}

/// Builds [`transcriber_command`].
pub fn transcriber_args(base: &str, language: &str, threads: Option<u32>) -> (args: Vec<Arg>)
    ensures
        arg_views(args@) == transcriber_command(base@, language@, threads),
{
    let mut args: Vec<Arg> = Vec::new();
    args.push(text("-m"));
    args.push(Arg::ModelFile);
    args.push(text("-f"));
    args.push(Arg::InOutDir(concat(base, ".wav")));
    args.push(text("-otxt"));
    args.push(text("-of"));
    args.push(Arg::InOutDir(base.to_owned()));
    args.push(text("-l"));
    args.push(text(language));
    match threads {
        Some(t) => {
            args.push(text("-t"));
            args.push(Arg::Text(decimal(t as u64)));
        },
        None => {},
    }
    assert(arg_views(args@) =~= transcriber_command(base@, language@, threads));
    args
}

} // verus!
