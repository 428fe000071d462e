//! Detection and cleanup rules for development-project build artifacts.
//!
//! The crate classifies a directory as the root of a development project by
//! matching well-known marker file names against the directory's entries,
//! knows which subdirectories of each project kind hold regenerable build
//! output, sums their sizes, summarises a best-effort deletion pass, and
//! renders byte counts and elapsed times as short human-readable strings.
//!
//! Everything here is pure: callers list directories, stat files and remove
//! trees, and hand the resulting plain values to these functions.

pub mod format;
pub mod options;
pub mod project;
pub mod project_type;
pub mod prompt;
pub mod text;

pub use crate::format::format_elapsed_time;
pub use crate::format::format_size;
pub use crate::options::is_hidden_name;
pub use crate::options::parse_age_filter;
pub use crate::options::ScanOptions;
pub use crate::project::clean_outcome;
pub use crate::project::latest_time;
pub use crate::project::sort_projects_by_size;
pub use crate::project::sum_sizes;
pub use crate::project::CleanError;
pub use crate::project::DeleteAttempt;
pub use crate::project::Project;
pub use crate::project_type::ProjectType;
pub use crate::prompt::interpret_prompt_answer;
pub use crate::prompt::PromptAnswer;
