use vstd::prelude::*;
use crate::discovery::{gather_crates_paths_in_dir_or_subdirs, located_crates, MANIFEST_FILE};
use crate::report::{
    error_report, report_spec, status_line, status_line_with, ExitCode, Report, ReportView,
};
use crate::text::{concat3, is_literal};
use crate::tree::{listing, Entry, EntryKind, EntryView};
use crate::workspace::{
    declares_workspace, first_bad_member, is_workspace_manifest, member_dirs, member_exists,
    member_list, resolve_members, workspace_members, MemberProblem,
};

verus! {

/// The decimal digits of `n`, most significant first.
pub open spec fn decimal(n: nat) -> Seq<char>
    decreases n,
{
    let digit = seq!['0', '1', '2', '3', '4', '5', '6', '7', '8', '9'][(n % 10) as int];
    if n < 10 {
        seq![digit]
    } else {
        decimal(n / 10).push(digit)
    }
}

/// Relies on `ToString` through the `Display` impl of `usize`, which writes the
/// number in decimal digits with no sign, padding or separators.
#[verifier::external_body]
pub(crate) fn decimal_text(n: usize) -> (r: String)
    ensures
        r@ == decimal(n as nat),
{
    n.to_string()
}

/// `rel` taken relative to `root`, as the tool prints it.
pub open spec fn under_root(root: Seq<char>, rel: Seq<char>) -> Seq<char> {
    if rel.len() == 0 {
        root
    } else {
        root + "/"@ + rel
    }
}

/// `rel` taken relative to `root`.
pub fn path_under_root(root: &str, rel: &str) -> (r: String)
    ensures
        r@ == under_root(root@, rel@),
{
    if rel.is_empty() {
        root.to_owned()
    } else {
        concat3(root, "/", rel)
    }
}

/// The text of the root's own manifest: the first file at or after position
/// `i` whose path is the manifest's name alone.
pub open spec fn root_manifest_from(tree: Seq<EntryView>, i: int) -> Option<Seq<char>>
    decreases tree.len() - i,
{
    if i < 0 || i >= tree.len() {
        None
    } else if tree[i].0 == seq![MANIFEST_FILE@] && tree[i].1 is Some {
        tree[i].1
    } else {
        root_manifest_from(tree, i + 1)
    }
}

pub open spec fn root_manifest(tree: Seq<EntryView>) -> Option<Seq<char>> {
    root_manifest_from(tree, 0)
}

/// The text of the root manifest, when the tree has one.
pub fn find_root_manifest(entries: &Vec<Entry>) -> (r: Option<&String>)
    ensures
        match root_manifest(listing(entries@)) {
            Some(t) => r matches Some(s) && s@ == t,
            None => r is None,
        },
{
    let ghost tree = listing(entries@);
    let mut i: usize = 0;
    while i < entries.len()
        invariant
            0 <= i <= entries.len(),
            tree == listing(entries@),
            root_manifest(tree) == root_manifest_from(tree, i as int),
        decreases entries.len() - i,
    {
        let entry = &entries[i];
        assert(tree[i as int] == entry@);
        if let EntryKind::File(text) = &entry.kind {
            let is_root_manifest = entry.path.len() == 1 && is_literal(
                &entry.path[0],
                MANIFEST_FILE,
            );
            proof {
                assert(entry.path.deep_view().len() == entry.path.len());
                if entry.path.len() == 1 {
                    assert(entry.path.deep_view()[0] == entry.path[0]@);
                    if is_root_manifest {
                        assert(entry@.0 =~= seq![MANIFEST_FILE@]);
                    } else {
                        assert(entry@.0[0] != seq![MANIFEST_FILE@][0]);
                    }
                }
            }
            if is_root_manifest {
                return Some(text);
            }
        }
        i = i + 1;
    }
    None
}

/// The crates to consider before filtering, and the status lines printed on
/// the way; or the report that ends the run. A root manifest that declares a
/// workspace decides by its member list, else every directory holding a
/// manifest is a candidate.
pub open spec fn candidates_spec(root: Seq<char>, tree: Seq<EntryView>) -> Result<
    (Seq<Seq<Seq<char>>>, Seq<Seq<char>>),
    ReportView,
> {
    let manifest = root_manifest(tree);
    if manifest is Some && declares_workspace(manifest->Some_0) {
        let members = member_list(manifest->Some_0);
        if members.len() == 0 {
            Err(
                report_spec(
                    ExitCode::NoCratesFound,
                    seq![],
                    seq![status_line("No crates found in the workspace "@ + root + "."@)],
                ),
            )
        } else if exists|j: int| first_bad_member(tree, members, j) {
            let j = choose|j: int| first_bad_member(tree, members, j);
            let shown = under_root(root, members[j]);
            if member_exists(tree, members[j]) {
                Err(
                    report_spec(
                        ExitCode::NotADirectory,
                        seq![],
                        seq![status_line("The workspace member "@ + shown + " is not a directory."@)],
                    ),
                )
            } else {
                Err(
                    report_spec(
                        ExitCode::PathNotFound,
                        seq![],
                        seq![status_line("The workspace member "@ + shown + " does not exists."@)],
                    ),
                )
            }
        } else {
            Ok(
                (
                    member_dirs(tree, members),
                    seq![
                        status_line(
                            "Found "@ + decimal(members.len()) + " crates in the workspace "@
                                + root,
                        ),
                    ],
                ),
            )
        }
    } else {
        let crates = located_crates(tree);
        if crates.len() == 0 {
            Err(
                report_spec(
                    ExitCode::NoCratesFound,
                    seq![],
                    seq![status_line("No crates found in the directory "@ + root + "."@)],
                ),
            )
        } else {
            Ok(
                (
                    crates,
                    seq![
                        status_line(
                            "Found "@ + decimal(crates.len()) + " crates in the directory "@ + root
                                + "."@,
                        ),
                    ],
                ),
            )
        }
    }
}

proof fn lemma_first_bad_member_unique(
    tree: Seq<EntryView>,
    members: Seq<Seq<char>>,
    a: int,
    b: int,
)
    requires
        first_bad_member(tree, members, a),
        first_bad_member(tree, members, b),
    ensures
        a == b,
{
    if a < b {
        assert(crate::workspace::member_dir(tree, members[a]) is Some);
    } else if b < a {
        assert(crate::workspace::member_dir(tree, members[b]) is Some);
    }
}

proof fn lemma_reported_member_is_first(tree: Seq<EntryView>, members: Seq<Seq<char>>, m: Seq<char>)
    requires
        exists|k: int| first_bad_member(tree, members, k) && members[k] == m,
    ensures
        exists|j: int| first_bad_member(tree, members, j),
        members[choose|j: int| first_bad_member(tree, members, j)] == m,
{
    let k = choose|k: int| first_bad_member(tree, members, k) && members[k] == m;
    let j = choose|j: int| first_bad_member(tree, members, j);
    lemma_first_bad_member_unique(tree, members, j, k);
}

/// Finds the candidate crates of the tree rooted at `root`.
pub fn crate_candidates(root: &str, entries: &Vec<Entry>) -> (r: Result<
    (Vec<Vec<String>>, Vec<String>),
    Report,
>)
    ensures
        match candidates_spec(root@, listing(entries@)) {
            Ok((crates, lines)) => r matches Ok((c, l)) && c.deep_view() == crates && l.deep_view()
                == lines,
            Err(v) => r matches Err(rep) && rep@ == v,
        },
{
    let ghost tree = listing(entries@);
    if let Some(manifest) = find_root_manifest(entries) {
        if is_workspace_manifest(manifest) {
            let members = workspace_members(manifest.as_str());
            if members.len() == 0 {
                return Err(
                    error_report(
                        ExitCode::NoCratesFound,
                        status_line_with("No crates found in the workspace ", root, "."),
                    ),
                );
            }
            match resolve_members(&members, entries) {
                Ok(dirs) => {
                    let count = decimal_text(members.len());
                    let found = concat3("Found ", count.as_str(), " crates in the workspace ");
                    let line = status_line_with(found.as_str(), root, "");
                    let lines = vec![line];
                    proof {
                        reveal_strlit("");
                        assert(line@ =~= status_line(
                                "Found "@ + decimal(members.deep_view().len()) + " crates in the workspace "@
                                    + root@));
                        assert(!exists|j: int| first_bad_member(tree, members.deep_view(), j));
                        assert(lines.deep_view() =~= seq![
                            status_line(
                                "Found "@ + decimal(members.deep_view().len()) + " crates in the workspace "@
                                    + root@,
                            ),
                        ]);
                    }
                    return Ok((dirs, lines));
                },
                Err(problem) => {
                    match problem {
                        MemberProblem::NotFound(m) => {
                            proof {
                                lemma_reported_member_is_first(tree, members.deep_view(), m@);
                            }
                            let shown = path_under_root(root, m.as_str());
                            return Err(
                                error_report(
                                    ExitCode::PathNotFound,
                                    status_line_with(
                                        "The workspace member ",
                                        shown.as_str(),
                                        " does not exists.",
                                    ),
                                ),
                            );
                        },
                        MemberProblem::NotADirectory(m) => {
                            proof {
                                lemma_reported_member_is_first(tree, members.deep_view(), m@);
                            }
                            let shown = path_under_root(root, m.as_str());
                            return Err(
                                error_report(
                                    ExitCode::NotADirectory,
                                    status_line_with(
                                        "The workspace member ",
                                        shown.as_str(),
                                        " is not a directory.",
                                    ),
                                ),
                            );
                        },
                    }
                },
            }
        }
    }
    let crates = gather_crates_paths_in_dir_or_subdirs(entries);
    if crates.len() == 0 {
        return Err(
            error_report(
                ExitCode::NoCratesFound,
                status_line_with("No crates found in the directory ", root, "."),
            ),
        );
    }
    let count = decimal_text(crates.len());
    let found = concat3("Found ", count.as_str(), " crates in the directory ");
    let line = status_line_with(found.as_str(), root, ".");
    let lines = vec![line];
    proof {
        assert(line@ =~= status_line(
                "Found "@ + decimal(crates.deep_view().len()) + " crates in the directory "@ + root@ + "."@));
        assert(lines.deep_view() =~= seq![
            status_line(
                "Found "@ + decimal(crates.deep_view().len()) + " crates in the directory "@ + root@ + "."@,
            ),
        ]);
    }
    Ok((crates, lines))
}

} // verus!
