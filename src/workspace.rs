use vstd::prelude::*;
use vstd::utf8::encode_utf8;
use crate::discovery::{contains_bytes, find_bytes};
use crate::text::{join, join_spec};
use crate::tree::{listing, Entry, EntryKind, EntryView};

verus! {

/// What the `toml` crate reads from the document `doc` at `[table].key`:
/// `None` when `doc` is not valid TOML, has no such key, or the value there is
/// not an array; otherwise each array item, as its text when it is a string
/// and `None` when it is of another kind.
pub uninterp spec fn toml_array_at(doc: Seq<char>, table: Seq<char>, key: Seq<char>) -> Option<
    Seq<Option<Seq<char>>>,
>;

/// Relies on `toml::de::from_str` into a `toml::Value`, then `Value::get`
/// (twice), `Value::as_array` and `Value::as_str` on each item: the array at
/// `[table].key` of the parsed document, as described at `toml_array_at`.
#[verifier::external_body]
fn toml_array_entries(doc: &str, table: &str, key: &str) -> (r: Option<Vec<Option<String>>>)
    ensures
        r.deep_view() == toml_array_at(doc@, table@, key@),
{
    let value = toml::de::from_str::<toml::Value>(doc).ok()?;
    let items = value.get(table)?.get(key)?.as_array()?;
    Some(items.iter().map(|item| item.as_str().map(|s| s.to_string())).collect())
}

/// Text whose presence in the root manifest marks it as a workspace manifest.
pub const WORKSPACE_HEADER: &'static str = "[workspace]";

/// The root manifest declares a workspace.
pub open spec fn declares_workspace(manifest: Seq<char>) -> bool {
    contains_bytes(encode_utf8(manifest), encode_utf8(WORKSPACE_HEADER@))
}

/// The workspace members that the manifest lists: the strings of
/// `workspace.members`, in order; none when the manifest does not parse or
/// has no such array.
pub open spec fn member_list(manifest: Seq<char>) -> Seq<Seq<char>> {
    match toml_array_at(manifest, "workspace"@, "members"@) {
        Some(items) => items.filter_map(|item: Option<Seq<char>>| item),
        None => Seq::empty(),
    }
}

/// Whether the manifest text declares a workspace.
pub fn is_workspace_manifest(manifest: &String) -> (r: bool)
    ensures
        r == declares_workspace(manifest@),
{
    find_bytes(manifest.as_str().as_bytes(), WORKSPACE_HEADER.as_bytes())
}

/// The members listed in the manifest's `workspace.members`.
pub fn workspace_members(manifest: &str) -> (r: Vec<String>)
    ensures
        r.deep_view() == member_list(manifest@),
{
    let entries = toml_array_entries(manifest, "workspace", "members");
    let mut members: Vec<String> = Vec::new();
    match entries {
        None => {
            assert(members.deep_view() =~= Seq::<Seq<char>>::empty());
        },
        Some(items) => {
            let ghost f = |item: Option<Seq<char>>| item;
            let mut i: usize = 0;
            proof {
                assert(items.deep_view().take(0) =~= Seq::<Option<Seq<char>>>::empty());
                assert(members.deep_view() =~= Seq::<Seq<char>>::empty());
            }
            while i < items.len()
                invariant
                    0 <= i <= items.len(),
                    f == (|item: Option<Seq<char>>| item),
                    members.deep_view() == items.deep_view().take(i as int).filter_map(f),
                decreases items.len() - i,
            {
                let ghost before = members.deep_view();
                proof {
                    assert(items.deep_view().take(i + 1).drop_last() =~= items.deep_view().take(
                        i as int,
                    ));
                }
                match &items[i] {
                    Some(s) => {
                        members.push(s.clone());
                        assert(members.deep_view() =~= before.push(s@));
                    },
                    None => {},
                }
                i = i + 1;
            }
            assert(items.deep_view().take(items.len() as int) =~= items.deep_view());
        },
    }
    members
}

/// The path of an entry as text, components separated by `/`.
pub open spec fn path_text(path: Seq<Seq<char>>) -> Seq<char> {
    join_spec(path, "/"@)
}

/// Some entry of the tree has the path `member`.
pub open spec fn member_exists(tree: Seq<EntryView>, member: Seq<char>) -> bool {
    exists|i: int| 0 <= i < tree.len() && path_text(#[trigger] tree[i].0) == member
}

/// The entry is a directory whose path is `member`.
pub open spec fn is_member_dir_entry(e: EntryView, member: Seq<char>) -> bool {
    path_text(e.0) == member && e.1 is None
}

/// The path of the first directory at or after position `i` whose path is
/// `member`.
pub open spec fn member_dir_from(tree: Seq<EntryView>, member: Seq<char>, i: int) -> Option<
    Seq<Seq<char>>,
>
    decreases tree.len() - i,
{
    if i < 0 || i >= tree.len() {
        None
    } else if is_member_dir_entry(tree[i], member) {
        Some(tree[i].0)
    } else {
        member_dir_from(tree, member, i + 1)
    }
}

/// The directory of the tree that the member names, if any.
pub open spec fn member_dir(tree: Seq<EntryView>, member: Seq<char>) -> Option<Seq<Seq<char>>> {
    member_dir_from(tree, member, 0)
}

/// The directories that the members name, in member order; meaningful when
/// each member names one.
pub open spec fn member_dirs(tree: Seq<EntryView>, members: Seq<Seq<char>>) -> Seq<Seq<Seq<char>>> {
    members.map_values(|m: Seq<char>| member_dir(tree, m)->Some_0)
}

/// A workspace member that cannot be used as a crate directory.
#[derive(Clone, Debug)]
pub enum MemberProblem {
    NotFound(String),
    NotADirectory(String),
}

/// The first member, in order, that is not a directory of the tree.
pub open spec fn first_bad_member(tree: Seq<EntryView>, members: Seq<Seq<char>>, j: int) -> bool {
    0 <= j < members.len() && member_dir(tree, members[j]) is None && forall|k: int|
        0 <= k < j ==> member_dir(tree, #[trigger] members[k]) is Some
}

/// Looks up a member path in the tree: the first directory with that path,
/// else whether some file has it.
fn find_member(member: &String, entries: &Vec<Entry>) -> (r: Result<Vec<String>, bool>)
    ensures
        match r {
            Ok(dir) => member_dir(listing(entries@), member@) == Some(dir.deep_view()),
            Err(seen) => member_dir(listing(entries@), member@) is None && seen == member_exists(
                listing(entries@),
                member@,
            ),
        },
{
    let ghost tree = listing(entries@);
    let mut seen = false;
    let mut i: usize = 0;
    while i < entries.len()
        invariant
            0 <= i <= entries.len(),
            tree == listing(entries@),
            member_dir(tree, member@) == member_dir_from(tree, member@, i as int),
            seen <==> exists|k: int| 0 <= k < i && path_text(#[trigger] tree[k].0) == member@,
        decreases entries.len() - i,
    {
        let entry = &entries[i];
        assert(tree[i as int] == entry@);
        let text = join(&entry.path, "/");
        assert(path_text(tree[i as int].0) == text@);
        if text == *member {
            match &entry.kind {
                EntryKind::Directory => {
                    return Ok(entry.path.clone());
                },
                EntryKind::File(_) => {
                    assert(path_text(tree[i as int].0) == member@);
                    seen = true;
                },
            }
        }
        i = i + 1;
    }
    Err(seen)
}

/// Resolves each member to a directory of the tree, or names the first member
/// that is missing or is not a directory.
pub fn resolve_members(members: &Vec<String>, entries: &Vec<Entry>) -> (r: Result<
    Vec<Vec<String>>,
    MemberProblem,
>)
    ensures
        match r {
            Ok(dirs) => dirs.deep_view() == member_dirs(listing(entries@), members.deep_view()),
            Err(MemberProblem::NotFound(m)) => exists|j: int|
                first_bad_member(listing(entries@), members.deep_view(), j) && members.deep_view()[j]
                    == m@ && !member_exists(listing(entries@), m@),
            Err(MemberProblem::NotADirectory(m)) => exists|j: int|
                first_bad_member(listing(entries@), members.deep_view(), j) && members.deep_view()[j]
                    == m@ && member_exists(listing(entries@), m@),
        },
        r is Ok <==> forall|j: int|
            0 <= j < members.len() ==> member_dir(listing(entries@), #[trigger] members.deep_view()[j]) is Some,
{
    let ghost tree = listing(entries@);
    let mut dirs: Vec<Vec<String>> = Vec::new();
    let mut i: usize = 0;
    while i < members.len()
        invariant
            0 <= i <= members.len(),
            tree == listing(entries@),
            dirs.deep_view() == member_dirs(tree, members.deep_view().take(i as int)),
            forall|j: int| 0 <= j < i ==> member_dir(tree, #[trigger] members.deep_view()[j]) is Some,
        decreases members.len() - i,
    {
        assert(members.deep_view()[i as int] == members[i as int]@);
        match find_member(&members[i], entries) {
            Ok(dir) => {
                let ghost before = dirs.deep_view();
                dirs.push(dir);
                assert(dirs.deep_view() =~= before.push(dir.deep_view()));
                assert(member_dirs(tree, members.deep_view().take(i + 1)) =~= member_dirs(tree, members.deep_view().take(i as int)).push(dir.deep_view()));
            },
            Err(seen) => {
                assert(first_bad_member(tree, members.deep_view(), i as int));
                if seen {
                    return Err(MemberProblem::NotADirectory(members[i].clone()));
                } else {
                    return Err(MemberProblem::NotFound(members[i].clone()));
                }
            },
        }
        i = i + 1;
    }
    assert(members.deep_view().take(members.len() as int) =~= members.deep_view());
    Ok(dirs)
}

} // verus!
