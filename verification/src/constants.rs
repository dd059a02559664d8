//! Fixed addresses and limits.

use vstd::prelude::*;

verus! {

/// Where the listing of the model repository is fetched from.
pub const HF_REPO_API: &'static str =
    "https://huggingface.co/api/models/ggerganov/whisper.cpp?expand=siblings";

/// What a model file's name is appended to, to give the address of its bytes.
pub const HF_RESOLVE_URL: &'static str = "https://huggingface.co/ggerganov/whisper.cpp/resolve/main/";

/// How many seconds a cached listing is trusted for: 24 hours.
pub const CACHE_TTL_SECS: u64 = 86400;

} // verus!
