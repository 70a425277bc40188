use vstd::prelude::*;
use crate::text::{is_literal, starts_with_char};

verus! {

/// Where the partitioner stands while it walks the argument list.
#[derive(Clone, Copy, Debug, PartialEq, Eq, Structural)]
pub enum Phase {
    /// Before any option: the root path, `--help` or `--version` may come.
    Leading,
    /// Collecting options for `wasm-pack test`.
    WrappedOptions,
    /// Collecting options past the `--` separator.
    DownstreamOptions,
}

/// Why the partitioner stopped before the end of the arguments.
#[derive(Clone, Debug)]
pub enum Stop {
    Help,
    Version,
    /// A path-like token stood first among the `wasm-pack test` options.
    PathInOptions(String),
}

/// Spec counterpart of `Stop`.
pub enum StopView {
    Help,
    Version,
    PathInOptions(Seq<char>),
}

impl View for Stop {
    type V = StopView;

    open spec fn view(&self) -> StopView {
        match self {
            Stop::Help => StopView::Help,
            Stop::Version => StopView::Version,
            Stop::PathInOptions(t) => StopView::PathInOptions(t@),
        }
    }
}

/// The command line split into its three destinations.
#[derive(Clone, Debug)]
pub struct Invocation {
    /// Root directory to search; the current directory when absent.
    pub path: Option<String>,
    /// Options placed before the crate directory in each `wasm-pack test` call.
    pub wasm_pack_test_options: Vec<String>,
    /// Options placed after the crate directory, separator included.
    pub cargo_test_options: Vec<String>,
}

/// Spec counterpart of `Invocation`.
pub struct InvocationView {
    pub path: Option<Seq<char>>,
    pub wrapped: Seq<Seq<char>>,
    pub downstream: Seq<Seq<char>>,
}

pub open spec fn opt_view(o: Option<String>) -> Option<Seq<char>> {
    match o {
        Some(s) => Some(s@),
        None => None,
    }
}

impl View for Invocation {
    type V = InvocationView;

    open spec fn view(&self) -> InvocationView {
        InvocationView {
            path: opt_view(self.path),
            wrapped: self.wasm_pack_test_options.deep_view(),
            downstream: self.cargo_test_options.deep_view(),
        }
    }
}

/// The state of the partitioner after a prefix of the arguments.
pub enum Scan {
    Stopped(StopView),
    Going(Phase, InvocationView),
}

pub open spec fn is_flag(a: Seq<char>) -> bool {
    a.len() > 0 && a[0] == '-'
}

pub open spec fn is_separator(a: Seq<char>) -> bool {
    a == "--"@
}

pub open spec fn is_help(a: Seq<char>) -> bool {
    a == "--help"@ || a == "-h"@
}

pub open spec fn is_version(a: Seq<char>) -> bool {
    a == "--version"@ || a == "-V"@
}

pub open spec fn empty_invocation() -> InvocationView {
    InvocationView { path: None, wrapped: Seq::empty(), downstream: Seq::empty() }
}

/// One token of the partitioner.
pub open spec fn step(s: Scan, a: Seq<char>) -> Scan {
    match s {
        Scan::Stopped(e) => Scan::Stopped(e),
        Scan::Going(phase, v) => match phase {
            Phase::Leading => if is_separator(a) {
                Scan::Going(
                    Phase::DownstreamOptions,
                    InvocationView { downstream: v.downstream.push(a), ..v },
                )
            } else if is_version(a) {
                Scan::Stopped(StopView::Version)
            } else if is_help(a) {
                Scan::Stopped(StopView::Help)
            } else if is_flag(a) {
                Scan::Going(
                    Phase::WrappedOptions,
                    InvocationView { wrapped: v.wrapped.push(a), ..v },
                )
            } else {
                Scan::Going(Phase::WrappedOptions, InvocationView { path: Some(a), ..v })
            },
            Phase::WrappedOptions => if is_separator(a) {
                Scan::Going(
                    Phase::DownstreamOptions,
                    InvocationView { downstream: v.downstream.push(a), ..v },
                )
            } else if v.wrapped.len() == 0 && !is_flag(a) {
                Scan::Stopped(StopView::PathInOptions(a))
            } else {
                Scan::Going(
                    Phase::WrappedOptions,
                    InvocationView { wrapped: v.wrapped.push(a), ..v },
                )
            },
            Phase::DownstreamOptions => Scan::Going(
                Phase::DownstreamOptions,
                InvocationView { downstream: v.downstream.push(a), ..v },
            ),
        },
    }
}

/// The partitioner run over `args` from the leading phase.
pub open spec fn scan(args: Seq<Seq<char>>) -> Scan
    decreases args.len(),
{
    if args.len() == 0 {
        Scan::Going(Phase::Leading, empty_invocation())
    } else {
        step(scan(args.drop_last()), args.last())
    }
}

/// Once stopped, the partitioner stays stopped with the same reason.
pub proof fn lemma_stop_persists(args: Seq<Seq<char>>, k: int)
    requires
        0 <= k <= args.len(),
        scan(args.take(k)) is Stopped,
    ensures
        scan(args) == scan(args.take(k)),
    decreases args.len() - k,
{
    if k < args.len() {
        assert(args.take(k + 1).drop_last() =~= args.take(k));
        lemma_stop_persists(args, k + 1);
    } else {
        assert(args.take(k) =~= args);
    }
}

/// Splits the command line into the root path, the options for
/// `wasm-pack test` and the options past the `--` separator, in one pass.
pub fn parse_options(args: &Vec<String>) -> (r: Result<Invocation, Stop>)
    ensures
        match scan(args.deep_view()) {
            Scan::Stopped(s) => r is Err && r->Err_0@ == s,
            Scan::Going(_, v) => r is Ok && r->Ok_0@ == v,
        },
{
    let mut path: Option<String> = None;
    let mut wrapped: Vec<String> = Vec::new();
    let mut downstream: Vec<String> = Vec::new();
    let mut phase = Phase::Leading;
    let mut i: usize = 0;
    proof {
        assert(args.deep_view().take(0) =~= Seq::<Seq<char>>::empty());
        assert(wrapped.deep_view() =~= Seq::<Seq<char>>::empty());
        assert(downstream.deep_view() =~= Seq::<Seq<char>>::empty());
    }
    while i < args.len()
        invariant
            0 <= i <= args.len(),
            scan(args.deep_view().take(i as int)) == Scan::Going(
                phase,
                InvocationView {
                    path: opt_view(path),
                    wrapped: wrapped.deep_view(),
                    downstream: downstream.deep_view(),
                },
            ),
        decreases args.len() - i,
    {
        let arg = &args[i];
        proof {
            assert(args.deep_view().take(i + 1).drop_last() =~= args.deep_view().take(i as int));
        }
        let ghost dw = downstream.deep_view();
        let ghost ww = wrapped.deep_view();
        match phase {
            Phase::Leading => {
                if is_literal(arg, "--") {
                    downstream.push(arg.clone());
                    assert(downstream.deep_view() =~= dw.push(arg@));
                    phase = Phase::DownstreamOptions;
                } else if is_literal(arg, "--version") || is_literal(arg, "-V") {
                    proof {
                        lemma_stop_persists(args.deep_view(), i + 1);
                    }
                    return Err(Stop::Version);
                } else if is_literal(arg, "--help") || is_literal(arg, "-h") {
                    proof {
                        lemma_stop_persists(args.deep_view(), i + 1);
                    }
                    return Err(Stop::Help);
                } else if starts_with_char(arg.as_str(), '-') {
                    wrapped.push(arg.clone());
                    assert(wrapped.deep_view() =~= ww.push(arg@));
                    phase = Phase::WrappedOptions;
                } else {
                    path = Some(arg.clone());
                    phase = Phase::WrappedOptions;
                }
            },
            Phase::WrappedOptions => {
                if is_literal(arg, "--") {
                    downstream.push(arg.clone());
                    assert(downstream.deep_view() =~= dw.push(arg@));
                    phase = Phase::DownstreamOptions;
                } else if wrapped.len() == 0 && !starts_with_char(arg.as_str(), '-') {
                    proof {
                        lemma_stop_persists(args.deep_view(), i + 1);
                    }
                    return Err(Stop::PathInOptions(arg.clone()));
                } else {
                    wrapped.push(arg.clone());
                    assert(wrapped.deep_view() =~= ww.push(arg@));
                }
            },
            Phase::DownstreamOptions => {
                downstream.push(arg.clone());
                assert(downstream.deep_view() =~= dw.push(arg@));
            },
        }
        i = i + 1;
    }
    proof {
        assert(args.deep_view().take(args.len() as int) =~= args.deep_view());
    }
    Ok(Invocation { path, wasm_pack_test_options: wrapped, cargo_test_options: downstream })
}

} // verus!

verus! {

/// The separator, help and version tokens all start with the flag prefix.
pub proof fn lemma_special_tokens_are_flags(a: Seq<char>)
    ensures
        is_separator(a) ==> is_flag(a),
        is_help(a) ==> is_flag(a),
        is_version(a) ==> is_flag(a),
{
    reveal_strlit("--");
    reveal_strlit("--help");
    reveal_strlit("-h");
    reveal_strlit("--version");
    reveal_strlit("-V");
}

spec fn consumed_as_path(args: Seq<Seq<char>>, s: Scan) -> bool {
    match s {
        Scan::Stopped(e) => e is PathInOptions,
        Scan::Going(phase, v) => {
            &&& phase != Phase::Leading
            &&& v.path == Some(args[0])
            &&& v.wrapped + v.downstream == args.drop_first()
            &&& phase == Phase::WrappedOptions ==> v.downstream.len() == 0
        },
    }
}

proof fn lemma_consumed_as_path_prefix(args: Seq<Seq<char>>, k: int)
    requires
        1 <= k <= args.len(),
        !is_flag(args[0]),
    ensures
        consumed_as_path(args.take(k), scan(args.take(k))),
    decreases k,
{
    let p = args.take(k);
    assert(p.drop_last() =~= args.take(k - 1));
    lemma_special_tokens_are_flags(p.last());
    if k == 1 {
        assert(args.take(0) =~= Seq::<Seq<char>>::empty());
        assert(p.drop_first() =~= Seq::<Seq<char>>::empty());
    } else {
        lemma_consumed_as_path_prefix(args, k - 1);
        let q = args.take(k - 1);
        assert(p.drop_first() =~= q.drop_first().push(p.last()));
        match scan(q) {
            Scan::Stopped(e) => {},
            Scan::Going(phase, v) => {
                if phase == Phase::WrappedOptions {
                    assert(v.downstream =~= Seq::<Seq<char>>::empty());
                    assert(v.wrapped.push(p.last()) + v.downstream =~= (v.wrapped
                        + v.downstream).push(p.last()));
                }
                assert(v.wrapped + v.downstream.push(p.last()) =~= (v.wrapped
                    + v.downstream).push(p.last()));
            },
        }
    }
}

/// A first argument that does not start with the flag prefix is taken as the
/// root path: it lands in neither option bucket, every later argument lands
/// in exactly one of them in the order given, and the only way the
/// partition can still fail is a usage error.
pub proof fn lemma_first_path_like_token_is_root(args: Seq<Seq<char>>)
    requires
        args.len() > 0,
        !is_flag(args[0]),
    ensures
        match scan(args) {
            Scan::Stopped(e) => e is PathInOptions,
            Scan::Going(_, v) => v.path == Some(args[0]) && v.wrapped + v.downstream
                == args.drop_first(),
        },
{
    lemma_consumed_as_path_prefix(args, args.len() as int);
    assert(args.take(args.len() as int) =~= args);
}

/// When a path-like token comes while the `wasm-pack test` option bucket is
/// still empty, the partition fails with a usage error naming that token,
/// whatever follows it.
pub proof fn lemma_path_in_options_is_usage_error(args: Seq<Seq<char>>, k: int)
    requires
        0 <= k < args.len(),
        scan(args.take(k)) matches Scan::Going(phase, v) && phase == Phase::WrappedOptions
            && v.wrapped.len() == 0,
        !is_flag(args[k]),
    ensures
        scan(args) == Scan::Stopped(StopView::PathInOptions(args[k])),
{
    lemma_special_tokens_are_flags(args[k]);
    assert(args.take(k + 1).drop_last() =~= args.take(k));
    lemma_stop_persists(args, k + 1);
}

} // verus!
