use vstd::prelude::*;
use crate::options::{Stop, StopView};
use crate::text::{concat, concat3};

verus! {

/// The process exit status of a run.
#[derive(Clone, Copy, Debug, PartialEq, Eq, Structural)]
pub enum ExitCode {
    Success,
    Help,
    PathNotFound,
    NotADirectory,
    NoCratesFound,
    NoTestsFound,
    TestsFailed,
    ExternalError,
}

pub open spec fn code_spec(c: ExitCode) -> u8 {
    match c {
        ExitCode::Success => 0,
        ExitCode::Help => 1,
        ExitCode::PathNotFound => 2,
        ExitCode::NotADirectory => 3,
        ExitCode::NoCratesFound => 4,
        ExitCode::NoTestsFound => 5,
        ExitCode::TestsFailed => 6,
        ExitCode::ExternalError => 7,
    }
}

impl ExitCode {
    /// The numeric status handed to the operating system.
    pub fn code(self) -> (r: u8)
        ensures
            r == code_spec(self),
    {
        match self {
            ExitCode::Success => 0,
            ExitCode::Help => 1,
            ExitCode::PathNotFound => 2,
            ExitCode::NotADirectory => 3,
            ExitCode::NoCratesFound => 4,
            ExitCode::NoTestsFound => 5,
            ExitCode::TestsFailed => 6,
            ExitCode::ExternalError => 7,
        }
    }
}

/// What a finished step of the run prints and the status it ends with.
#[derive(Clone, Debug)]
pub struct Report {
    pub code: ExitCode,
    /// Lines for standard output, in order.
    pub stdout: Vec<String>,
    /// Lines for standard error, in order.
    pub stderr: Vec<String>,
}

pub struct ReportView {
    pub code: ExitCode,
    pub stdout: Seq<Seq<char>>,
    pub stderr: Seq<Seq<char>>,
}

impl View for Report {
    type V = ReportView;

    open spec fn view(&self) -> ReportView {
        ReportView {
            code: self.code,
            stdout: self.stdout.deep_view(),
            stderr: self.stderr.deep_view(),
        }
    }
}

pub open spec fn report_spec(code: ExitCode, stdout: Seq<Seq<char>>, stderr: Seq<Seq<char>>) -> ReportView {
    ReportView { code, stdout, stderr }
}

/// Prefix of every status line of the tool.
pub const LINE_PREFIX: &'static str = "[wasm-pack-test-all] ";

/// The version of this tool.
pub const VERSION: &'static str = "0.1.0";

/// Usage text, printed for `--help`.
pub const HELP_TEXT: &'static str = "Wrapper for `wasm-pack test` that runs tests for all crates in a workspace or directory.

wasm-pack-test-all [-h/--help] [-V/--version] [PATH] [WASM_PACK_TEST_OPTIONS] [-- EXTRA_OPTIONS]

Arguments:
  [PATH]
          Path to the workspace or directory where all crates to test reside and extra options to pass to `wasm-pack`.

  [WASM_PACK_TEST_OPTIONS]...
          Options to pass to `wasm-pack`.

          Passing a path as the first argument of EXTRA_OPTIONS will trigger an error.

  [EXTRA_OPTIONS]...
          Options to pass to `wasm-bindgen-test-runner` and `cargo test`. Use subsecuent `--` separators to separate them from `wasm-pack test` options.

Options:
  -h, --help
          Print help.

  -V, --version
          Print version.
";

pub const USAGE_BEFORE: &'static str = "Don't pass a path to `wasm-pack test` options (found ";

pub const USAGE_AFTER: &'static str = "). If you want to test a crate individually, use `wasm-pack test` directly.";

/// A status line: the tool's prefix, then `text`.
pub open spec fn status_line(text: Seq<char>) -> Seq<char> {
    LINE_PREFIX@ + text
}

/// A status line made of `before`, `value` and `after`.
pub fn status_line_with(before: &str, value: &str, after: &str) -> (r: String)
    ensures
        r@ == status_line(before@ + value@ + after@),
{
    let inner = concat3(before, value, after);
    let r = concat(LINE_PREFIX, inner.as_str());
    assert(r@ =~= status_line(before@ + value@ + after@));
    r
}

/// What the run prints and returns when the partitioner stopped.
pub open spec fn stop_report_spec(stop: StopView) -> ReportView {
    match stop {
        StopView::Help => report_spec(ExitCode::Help, seq![], seq![HELP_TEXT@]),
        StopView::Version => report_spec(
            ExitCode::Success,
            seq!["wasm-pack-test-all "@ + VERSION@],
            seq![],
        ),
        StopView::PathInOptions(token) => report_spec(
            ExitCode::Help,
            seq![],
            seq![status_line(USAGE_BEFORE@ + token + USAGE_AFTER@)],
        ),
    }
}

/// The report for a stop of the partitioner: the usage text for help, the
/// version for `--version`, and a usage error naming the offending token,
/// which exits with status 1 as help does.
pub fn stop_report(stop: &Stop) -> (r: Report)
    ensures
        r@ == stop_report_spec(stop@),
{
    match stop {
        Stop::Help => {
            let lines = vec![HELP_TEXT.to_owned()];
            let r = Report { code: ExitCode::Help, stdout: Vec::new(), stderr: lines };
            assert(r@.stderr =~= seq![HELP_TEXT@]);
            assert(r@.stdout =~= Seq::<Seq<char>>::empty());
            r
        },
        Stop::Version => {
            let lines = vec![concat("wasm-pack-test-all ", VERSION)];
            let r = Report { code: ExitCode::Success, stdout: lines, stderr: Vec::new() };
            assert(r@.stdout =~= seq!["wasm-pack-test-all "@ + VERSION@]);
            assert(r@.stderr =~= Seq::<Seq<char>>::empty());
            r
        },
        Stop::PathInOptions(token) => {
            let lines = vec![status_line_with(USAGE_BEFORE, token.as_str(), USAGE_AFTER)];
            let r = Report { code: ExitCode::Help, stdout: Vec::new(), stderr: lines };
            assert(r@.stderr =~= seq![status_line(USAGE_BEFORE@ + stop@->PathInOptions_0 + USAGE_AFTER@)]);
            assert(r@.stdout =~= Seq::<Seq<char>>::empty());
            r
        },
    }
}

/// A report with one line on standard error.
pub fn error_report(code: ExitCode, line: String) -> (r: Report)
    ensures
        r@ == report_spec(code, seq![], seq![line@]),
{
    let r = Report { code, stdout: Vec::new(), stderr: vec![line] };
    assert(r@.stderr =~= seq![line@]);
    assert(r@.stdout =~= Seq::<Seq<char>>::empty());
    r
}

/// What the given root path turned out to be on disk.
#[derive(Clone, Copy, Debug, PartialEq, Eq, Structural)]
pub enum RootStatus {
    Missing,
    NotADirectory,
    Directory,
}

pub open spec fn check_root_spec(path: Seq<char>, status: RootStatus) -> Option<ReportView> {
    match status {
        RootStatus::Missing => Some(
            report_spec(
                ExitCode::PathNotFound,
                seq![],
                seq![status_line("The path "@ + path + " does not exists."@)],
            ),
        ),
        RootStatus::NotADirectory => Some(
            report_spec(
                ExitCode::NotADirectory,
                seq![],
                seq![status_line("The path "@ + path + " is not a directory."@)],
            ),
        ),
        RootStatus::Directory => None,
    }
}

/// Rejects a root path that does not exist or is not a directory.
pub fn check_root(path: &str, status: RootStatus) -> (r: Option<Report>)
    ensures
        match check_root_spec(path@, status) {
            Some(v) => r matches Some(rep) && rep@ == v,
            None => r is None,
        },
{
    match status {
        RootStatus::Missing => Some(
            error_report(
                ExitCode::PathNotFound,
                status_line_with("The path ", path, " does not exists."),
            ),
        ),
        RootStatus::NotADirectory => Some(
            error_report(
                ExitCode::NotADirectory,
                status_line_with("The path ", path, " is not a directory."),
            ),
        ),
        RootStatus::Directory => None,
    }
}

} // verus!
