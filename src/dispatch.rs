use vstd::prelude::*;
use crate::discovery::{filter_testable_crates, testable_crates};
use crate::options::{Invocation, InvocationView};
use crate::plan::{candidates_spec, crate_candidates, decimal, decimal_text, path_under_root, under_root};
use crate::report::{
    error_report, report_spec, status_line, status_line_with, ExitCode, Report, ReportView,
};
use crate::text::{concat, join, join_spec};
use crate::tree::{listing, Entry};
use crate::workspace::path_text;

verus! {

/// The test runner that is started once per testable crate.
pub const RUNNER: &'static str = "wasm-pack";

/// How a crate directory is passed to the runner.
pub open spec fn crate_text(root: Seq<char>, dir: Seq<Seq<char>>) -> Seq<char> {
    under_root(root, path_text(dir))
}

/// The runner's arguments for one crate: the test subcommand, the wrapped
/// options, the crate directory, then the downstream options.
pub open spec fn command_spec(inv: InvocationView, crate_path: Seq<char>) -> Seq<Seq<char>> {
    seq!["test"@] + inv.wrapped + seq![crate_path] + inv.downstream
}

pub open spec fn commands_spec(
    root: Seq<char>,
    inv: InvocationView,
    dirs: Seq<Seq<Seq<char>>>,
) -> Seq<Seq<Seq<char>>> {
    dirs.map_values(|d: Seq<Seq<char>>| command_spec(inv, crate_text(root, d)))
}

pub const NO_TESTABLE_BEFORE: &'static str = "No testable crates found in the directory ";

pub const NO_TESTABLE_AFTER: &'static str = ". Make sure that at least one of the files in the subdirectories contains a function marked with the test #[wasm_bindgen_test].";

/// The status lines printed before the first crate runs, and the runner's
/// argument lists, one per testable crate; or the report that ends the run.
pub open spec fn plan_spec(root: Seq<char>, tree: Seq<crate::tree::EntryView>, inv: InvocationView) -> Result<
    (Seq<Seq<char>>, Seq<Seq<Seq<char>>>),
    ReportView,
> {
    match candidates_spec(root, tree) {
        Err(v) => Err(v),
        Ok((crates, lines)) => {
            let testable = testable_crates(tree, crates);
            if testable.len() == 0 {
                Err(
                    report_spec(
                        ExitCode::NoTestsFound,
                        lines,
                        seq![status_line(NO_TESTABLE_BEFORE@ + root + NO_TESTABLE_AFTER@)],
                    ),
                )
            } else {
                Ok(
                    (
                        lines + seq![
                            status_line("Found "@ + decimal(testable.len()) + " testable crates."@),
                            status_line("Running tests..."@),
                        ],
                        commands_spec(root, inv, testable),
                    ),
                )
            }
        },
    }
}

/// What to run: status lines for standard output, then one runner call per
/// testable crate.
#[derive(Clone, Debug)]
pub struct Plan {
    pub stdout: Vec<String>,
    pub commands: Vec<Vec<String>>,
}

/// The runner's arguments for one crate directory.
pub fn command_for(inv: &Invocation, crate_path: String) -> (r: Vec<String>)
    ensures
        r.deep_view() == command_spec(inv@, crate_path@),
{
    let mut args: Vec<String> = vec!["test".to_owned()];
    let ghost start = args.deep_view();
    assert(start =~= seq!["test"@]);
    let mut i: usize = 0;
    while i < inv.wasm_pack_test_options.len()
        invariant
            0 <= i <= inv.wasm_pack_test_options.len(),
            args.deep_view() == seq!["test"@] + inv@.wrapped.take(i as int),
        decreases inv.wasm_pack_test_options.len() - i,
    {
        let ghost before = args.deep_view();
        args.push(inv.wasm_pack_test_options[i].clone());
        assert(args.deep_view() =~= before.push(inv@.wrapped[i as int]));
        assert(inv@.wrapped.take(i + 1) =~= inv@.wrapped.take(i as int).push(inv@.wrapped[i as int]));
        i = i + 1;
    }
    let ghost middle = args.deep_view();
    args.push(crate_path);
    assert(args.deep_view() =~= middle.push(crate_path@));
    assert(inv@.wrapped.take(inv@.wrapped.len() as int) =~= inv@.wrapped);
    let ghost head = args.deep_view();
    let mut j: usize = 0;
    while j < inv.cargo_test_options.len()
        invariant
            0 <= j <= inv.cargo_test_options.len(),
            args.deep_view() == head + inv@.downstream.take(j as int),
        decreases inv.cargo_test_options.len() - j,
    {
        let ghost before = args.deep_view();
        args.push(inv.cargo_test_options[j].clone());
        assert(args.deep_view() =~= before.push(inv@.downstream[j as int]));
        assert(inv@.downstream.take(j + 1) =~= inv@.downstream.take(j as int).push(inv@.downstream[j as int]));
        j = j + 1;
    }
    assert(inv@.downstream.take(inv@.downstream.len() as int) =~= inv@.downstream);
    assert(args.deep_view() =~= command_spec(inv@, crate_path@));
    args
}

/// Discovers the testable crates under `root` from the tree listing and
/// builds the runner call for each, in order.
pub fn plan_run(root: &str, entries: &Vec<Entry>, inv: &Invocation) -> (r: Result<Plan, Report>)
    ensures
        match plan_spec(root@, listing(entries@), inv@) {
            Ok((lines, commands)) => r matches Ok(p) && p.stdout.deep_view() == lines
                && p.commands.deep_view() == commands,
            Err(v) => r matches Err(rep) && rep@ == v,
        },
{
    let (crates, mut lines) = match crate_candidates(root, entries) {
        Ok(found) => found,
        Err(report) => {
            return Err(report);
        },
    };
    let testable = filter_testable_crates(&crates, entries);
    if testable.len() == 0 {
        let line = status_line_with(NO_TESTABLE_BEFORE, root, NO_TESTABLE_AFTER);
        let r = Report { code: ExitCode::NoTestsFound, stdout: lines, stderr: vec![line] };
        assert(r@.stderr =~= seq![line@]);
        return Err(r);
    }
    let ghost found_lines = lines.deep_view();
    let count = decimal_text(testable.len());
    let first = status_line_with("Found ", count.as_str(), " testable crates.");
    let second = concat(crate::report::LINE_PREFIX, "Running tests...");
    lines.push(first);
    lines.push(second);
    assert(lines.deep_view() =~= found_lines + seq![
        status_line("Found "@ + decimal(testable.deep_view().len()) + " testable crates."@),
        status_line("Running tests..."@),
    ]);
    let ghost dirs = testable.deep_view();
    let mut commands: Vec<Vec<String>> = Vec::new();
    let mut i: usize = 0;
    while i < testable.len()
        invariant
            0 <= i <= testable.len(),
            dirs == testable.deep_view(),
            commands.deep_view() == commands_spec(root@, inv@, dirs.take(i as int)),
        decreases testable.len() - i,
    {
        let rel = join(&testable[i], "/");
        let shown = path_under_root(root, rel.as_str());
        assert(dirs[i as int] == testable[i as int].deep_view());
        let command = command_for(inv, shown);
        let ghost before = commands.deep_view();
        commands.push(command);
        assert(commands.deep_view() =~= before.push(command.deep_view()));
        assert(commands_spec(root@, inv@, dirs.take(i + 1)) =~= commands_spec(
            root@,
            inv@,
            dirs.take(i as int),
        ).push(command_spec(inv@, crate_text(root@, dirs[i as int]))));
        i = i + 1;
    }
    assert(dirs.take(dirs.len() as int) =~= dirs);
    Ok(Plan { stdout: lines, commands })
}

} // verus!

verus! {

/// Every crate's runner exited with success.
pub open spec fn all_passed(outcomes: Seq<bool>) -> bool {
    forall|i: int| 0 <= i < outcomes.len() ==> #[trigger] outcomes[i]
}

/// The report once every crate has run.
pub open spec fn aggregate_spec(outcomes: Seq<bool>) -> ReportView {
    if all_passed(outcomes) {
        report_spec(ExitCode::Success, seq![status_line("All tests passed!"@)], seq![])
    } else {
        report_spec(ExitCode::TestsFailed, seq![], seq![status_line("Some tests failed."@)])
    }
}

/// The runner calls of a plan, run one after the other, with the outcome of
/// each call made so far.
#[derive(Clone, Debug)]
pub struct Dispatch {
    commands: Vec<Vec<String>>,
    outcomes: Vec<bool>,
}

impl Dispatch {
    pub closed spec fn commands_view(&self) -> Seq<Seq<Seq<char>>> {
        self.commands.deep_view()
    }

    pub closed spec fn outcomes_view(&self) -> Seq<bool> {
        self.outcomes@
    }

    /// No more outcomes than calls.
    pub open spec fn wf(&self) -> bool {
        self.outcomes_view().len() <= self.commands_view().len()
    }

    /// The call that comes next, if any is left.
    pub open spec fn next_spec(&self) -> Option<Seq<Seq<char>>> {
        if self.outcomes_view().len() < self.commands_view().len() {
            Some(self.commands_view()[self.outcomes_view().len() as int])
        } else {
            None
        }
    }

    /// A dispatch of `commands` before any of them has run.
    pub fn new(commands: Vec<Vec<String>>) -> (r: Dispatch)
        ensures
            r.wf(),
            r.commands_view() == commands.deep_view(),
            r.outcomes_view() == Seq::<bool>::empty(),
    {
        Dispatch { commands, outcomes: Vec::new() }
    }

    /// The runner's arguments for the next crate, if one is left.
    pub fn next_command(&self) -> (r: Option<&Vec<String>>)
        requires
            self.wf(),
        ensures
            match self.next_spec() {
                Some(c) => r matches Some(v) && v.deep_view() == c,
                None => r is None,
            },
    {
        if self.outcomes.len() < self.commands.len() {
            Some(&self.commands[self.outcomes.len()])
        } else {
            None
        }
    }

    /// Records whether the runner exited with success for the current crate.
    /// A failure does not stop the dispatch: the next crate still comes.
    pub fn record(&mut self, success: bool)
        requires
            old(self).wf(),
            old(self).outcomes_view().len() < old(self).commands_view().len(),
        ensures
            final(self).wf(),
            final(self).commands_view() == old(self).commands_view(),
            final(self).outcomes_view() == old(self).outcomes_view().push(success),
    {
        self.outcomes.push(success);
    }

    /// The final report: success exactly when every crate's runner succeeded.
    pub fn finish(&self) -> (r: Report)
        requires
            self.wf(),
            self.outcomes_view().len() == self.commands_view().len(),
        ensures
            r@ == aggregate_spec(self.outcomes_view()),
    {
        let mut i: usize = 0;
        let mut passed = true;
        while i < self.outcomes.len()
            invariant
                0 <= i <= self.outcomes.len(),
                passed == all_passed(self.outcomes@.take(i as int)),
            decreases self.outcomes.len() - i,
        {
            let ghost t = self.outcomes@.take(i as int);
            let ghost x = self.outcomes@[i as int];
            assert(self.outcomes@.take(i + 1) =~= t.push(x));
            proof {
                if all_passed(t) && x {
                    assert forall|j: int| 0 <= j < t.len() + 1 implies #[trigger] t.push(x)[j] by {
                        if j < t.len() {
                            assert(t.push(x)[j] == t[j]);
                        }
                    }
                }
                if !all_passed(t) {
                    let j = choose|j: int| 0 <= j < t.len() && !#[trigger] t[j];
                    assert(!t.push(x)[j]);
                }
                if !x {
                    assert(!t.push(x)[t.len() as int]);
                }
            }
            passed = passed && self.outcomes[i];
            i = i + 1;
        }
        assert(self.outcomes@.take(self.outcomes.len() as int) =~= self.outcomes@);
        if passed {
            let line = concat(crate::report::LINE_PREFIX, "All tests passed!");
            let r = Report { code: ExitCode::Success, stdout: vec![line], stderr: Vec::new() };
            assert(r@.stdout =~= seq![status_line("All tests passed!"@)]);
            assert(r@.stderr =~= Seq::<Seq<char>>::empty());
            r
        } else {
            error_report(ExitCode::TestsFailed, concat(crate::report::LINE_PREFIX, "Some tests failed."))
        }
    }
}

/// The line echoed before a crate runs: the command as a shell would show it.
pub fn echo_line(args: &Vec<String>) -> (r: String)
    ensures
        r@ == status_line("+ "@ + RUNNER@ + " "@ + join_spec(args.deep_view(), " "@)),
{
    let joined = join(args, " ");
    let r = status_line_with("+ wasm-pack ", joined.as_str(), "");
    proof {
        reveal_strlit("");
        reveal_strlit("+ wasm-pack ");
        reveal_strlit("+ ");
        reveal_strlit("wasm-pack");
        reveal_strlit(" ");
        assert(r@ =~= status_line("+ "@ + RUNNER@ + " "@ + join_spec(args.deep_view(), " "@)));
    }
    r
}

pub open spec fn spawn_failure_spec(not_found: bool, error: Seq<char>) -> ReportView {
    if not_found {
        report_spec(
            ExitCode::ExternalError,
            seq![],
            seq![status_line("Binary wasm-pack not found. Make sure it is installed and in your PATH."@)],
        )
    } else {
        report_spec(
            ExitCode::ExternalError,
            seq![],
            seq![status_line("`wasm-pack test` command failed with error: "@ + error)],
        )
    }
}

/// The report when the runner could not be started at all; the dispatch stops
/// there.
pub fn spawn_failure_report(not_found: bool, error: &str) -> (r: Report)
    ensures
        r@ == spawn_failure_spec(not_found, error@),
{
    proof {
        reveal_strlit("");
    }
    if not_found {
        error_report(
            ExitCode::ExternalError,
            concat(crate::report::LINE_PREFIX, "Binary wasm-pack not found. Make sure it is installed and in your PATH."),
        )
    } else {
        error_report(
            ExitCode::ExternalError,
            status_line_with("`wasm-pack test` command failed with error: ", error, ""),
        )
    }
}

/// The final status is success exactly when every crate's runner exited with
/// success; one failing crate makes it a test failure wherever it stands.
pub proof fn lemma_aggregate_success(outcomes: Seq<bool>, k: int)
    ensures
        aggregate_spec(outcomes).code == ExitCode::Success <==> all_passed(outcomes),
        0 <= k < outcomes.len() && !outcomes[k] ==> aggregate_spec(outcomes).code == ExitCode::TestsFailed,
{
}

/// A failing crate does not stop the dispatch: after any outcomes, failures
/// included, the next call is the next crate's while crates are left.
pub proof fn lemma_failure_does_not_stop(d: Dispatch, e: Dispatch, success: bool)
    requires
        d.wf(),
        d.outcomes_view().len() + 1 < d.commands_view().len(),
        e.commands_view() == d.commands_view(),
        e.outcomes_view() == d.outcomes_view().push(success),
    ensures
        e.wf(),
        e.next_spec() == Some(d.commands_view()[d.outcomes_view().len() + 1int]),
{
}

} // verus!

verus! {

proof fn lemma_no_manifest_no_root_manifest(tree: Seq<crate::tree::EntryView>, i: int)
    requires
        forall|k: int| 0 <= k < tree.len() ==> !crate::discovery::is_manifest(#[trigger] tree[k]),
    ensures
        crate::plan::root_manifest_from(tree, i) is None,
    decreases tree.len() - i,
{
    if 0 <= i < tree.len() {
        assert(!crate::discovery::is_manifest(tree[i]));
        if tree[i].0 == seq![crate::discovery::MANIFEST_FILE@] {
            assert(tree[i].0.last() == crate::discovery::MANIFEST_FILE@);
        }
        lemma_no_manifest_no_root_manifest(tree, i + 1);
    }
}

/// A tree without any manifest yields no crate, and the run ends with the
/// no-crates-found status, whatever the options.
pub proof fn lemma_no_manifest_ends_run(root: Seq<char>, tree: Seq<crate::tree::EntryView>, inv: InvocationView)
    requires
        forall|k: int| 0 <= k < tree.len() ==> !crate::discovery::is_manifest(#[trigger] tree[k]),
    ensures
        crate::discovery::located_crates(tree) == Seq::<Seq<Seq<char>>>::empty(),
        plan_spec(root, tree, inv) matches Err(v) && v.code == ExitCode::NoCratesFound,
{
    crate::discovery::lemma_no_manifest_no_crates(tree);
    lemma_no_manifest_no_root_manifest(tree, 0);
}

} // verus!
