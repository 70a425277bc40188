//! Runs `wasm-pack test` for every testable crate of a workspace or directory
//! tree: partitions the command line, discovers the crates in a listing of the
//! tree, keeps those with a test marker, plans one runner call per crate and
//! folds the runners' outcomes into one status.
pub mod discovery;
pub mod dispatch;
pub mod options;
pub mod plan;
pub mod report;
pub mod text;
pub mod tree;
pub mod workspace;

pub use discovery::{filter_testable_crates, gather_crates_paths_in_dir_or_subdirs, is_testable_crate};
pub use dispatch::{plan_run, spawn_failure_report, Dispatch, Plan};
pub use options::{parse_options, Invocation, Stop};
pub use report::{check_root, stop_report, ExitCode, Report, RootStatus};
pub use tree::{Entry, EntryKind};
