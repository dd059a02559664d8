//! What the user asks for on the command line.

use vstd::prelude::*;

verus! {

/// The arguments of one run.
#[derive(Debug, PartialEq, Eq)]
pub struct Args {
    /// The recording to transcribe: a remote locator or a local path.
    pub url: Option<String>,
    /// The directory for the WAV file and the transcript; the current
    /// directory where it is not given.
    pub out: Option<String>,
    /// The model: an alias such as `large-v3`, a file name or a path.
    pub model: Option<String>,
    /// The language code for the transcription, or `auto`.
    pub language: String,
    /// The number of threads for the transcription tool.
    pub threads: Option<u32>,
    /// Whether the tools' own output is shown.
    pub verbose: bool,
    /// Whether to list the models of the catalog and stop.
    pub list_models: bool,
    /// Whether quantized models come first when listing and picking.
    pub prefer_quantized: bool,
    /// Whether to fetch the listing anew, whatever the cache holds.
    pub refresh_models: bool,
}

} // verus!
