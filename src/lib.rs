//! Supervision of an external media downloader and a uniform client for
//! text-summarization backends.
//!
//! The downloader's line output is classified into progress, playlist and
//! destination markers (`progress`); a supervisor turns the process's events
//! into progress events and one outcome, with cooperative cancellation
//! (`download`); caption files are reduced to plain text (`captions`) and
//! chosen among (`transcript`); information probes are framed and read
//! (`probe`); summarization requests are built and answers read for each
//! backend (`summary`, `catalog`). Processes, files and the network are left
//! to the caller: every function here computes on plain values.
pub mod captions;
pub mod catalog;
pub mod download;
pub mod media;
pub mod probe;
pub mod progress;
pub mod summary;
pub mod text;
pub mod transcript;

pub use catalog::{get_ai_models, get_summary_languages, LanguageOption, ModelOption};
pub use download::build_format_string;
pub use progress::parse_progress;
pub use summary::{build_prompt, AIConfig, AIError, AIProvider, SummaryResult, SummaryStyle};
