//! The decisions of a tool that turns a video, remote or local, into a text
//! transcript with the help of a download tool, an audio extraction tool and
//! a transcription tool.
//!
//! The library decides and touches nothing: it reads no file, opens no
//! connection and starts no process. Where a decision depends on the outside
//! world, the caller looks and hands the answer in; where several decisions
//! follow one another, a small state machine names the next action and takes
//! its outcome as an event.
//!
//! - [`locator`] classifies the input as a remote locator or a local path.
//! - [`fs_utils`] finds the file that an input without extension stands for.
//! - [`hf`] filters and orders the catalog of models, and decides when a
//!   cached listing is served and when it is fetched anew.
//! - [`models`] resolves what the user wrote for a model to a model file.
//! - [`cmd`] holds the tools and their arguments, [`cli`] the arguments of a
//!   run, [`pipeline`] the order of its steps.
//! - [`text`] and [`constants`] hold what the others share.

pub mod cli;
pub mod cmd;
pub mod constants;
pub mod fs_utils;
pub mod hf;
pub mod locator;
pub mod models;
pub mod pipeline;
pub mod text;
