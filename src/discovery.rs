use vstd::prelude::*;
use vstd::utf8::encode_utf8;
use crate::text::is_literal;
use crate::tree::{is_under, listing, path_is_under, Entry, EntryKind, EntryView};

verus! {

/// File name of a crate manifest.
pub const MANIFEST_FILE: &'static str = "Cargo.toml";

/// Text whose presence in a file marks its crate as testable.
pub const TEST_MARKER: &'static str = "#[wasm_bindgen_test]";

/// `needle` occurs in `hay` as a contiguous run.
pub open spec fn contains_bytes(hay: Seq<u8>, needle: Seq<u8>) -> bool {
    exists|i: int|
        0 <= i && i + needle.len() <= hay.len() && #[trigger] hay.subrange(i, i + needle.len())
            == needle
}

/// A file's text holds the test marker (compared on its UTF-8 bytes).
pub open spec fn has_marker(text: Seq<char>) -> bool {
    contains_bytes(encode_utf8(text), encode_utf8(TEST_MARKER@))
}

/// The entry is a file whose text holds the test marker.
pub open spec fn is_marked_file(e: EntryView) -> bool {
    match e.1 {
        Some(text) => has_marker(text),
        None => false,
    }
}

/// Some file at or below `dir` holds the test marker.
pub open spec fn is_testable(tree: Seq<EntryView>, dir: Seq<Seq<char>>) -> bool {
    exists|i: int| 0 <= i < tree.len() && is_under(dir, #[trigger] tree[i].0) && is_marked_file(tree[i])
}

/// The entry is a file named like a crate manifest.
pub open spec fn is_manifest(e: EntryView) -> bool {
    e.1 is Some && e.0.len() > 0 && e.0.last() == MANIFEST_FILE@
}

/// The directories that directly hold a manifest, in listing order.
pub open spec fn located_crates(tree: Seq<EntryView>) -> Seq<Seq<Seq<char>>>
    decreases tree.len(),
{
    if tree.len() == 0 {
        Seq::empty()
    } else {
        let before = located_crates(tree.drop_last());
        if is_manifest(tree.last()) {
            before.push(tree.last().0.drop_last())
        } else {
            before
        }
    }
}

/// The crates of `crates` that are testable, in their order.
pub open spec fn testable_crates(tree: Seq<EntryView>, crates: Seq<Seq<Seq<char>>>) -> Seq<
    Seq<Seq<char>>,
> {
    crates.filter(|d: Seq<Seq<char>>| is_testable(tree, d))
}

/// What discovery with filtering yields on a tree.
pub open spec fn discovered(tree: Seq<EntryView>) -> Seq<Seq<Seq<char>>> {
    testable_crates(tree, located_crates(tree))
}

fn matches_at(hay: &[u8], needle: &[u8], i: usize) -> (r: bool)
    requires
        i + needle@.len() <= hay@.len(),
    ensures
        r == (hay@.subrange(i as int, i + needle@.len()) == needle@),
{
    let hay_len: usize = hay.len();
    let mut j: usize = 0;
    while j < needle.len()
        invariant
            hay_len == hay@.len(),
            i + needle@.len() <= hay@.len(),
            0 <= j <= needle@.len(),
            forall|k: int| 0 <= k < j ==> hay@[i + k] == needle@[k],
        decreases needle@.len() - j,
    {
        if hay[i + j] != needle[j] {
            assert(hay@.subrange(i as int, i + needle@.len())[j as int] != needle@[j as int]);
            return false;
        }
        j = j + 1;
    }
    assert(hay@.subrange(i as int, i + needle@.len()) =~= needle@);
    true
}

/// Whether `needle` occurs in `hay`.
pub fn find_bytes(hay: &[u8], needle: &[u8]) -> (r: bool)
    ensures
        r == contains_bytes(hay@, needle@),
{
    if needle.len() > hay.len() {
        return false;
    }
    let last: usize = hay.len() - needle.len();
    let mut i: usize = 0;
    loop
        invariant
            last + needle@.len() == hay@.len(),
            0 <= i <= last,
            forall|k: int|
                0 <= k < i ==> #[trigger] hay@.subrange(k, k + needle@.len()) != needle@,
        decreases last - i,
    {
        if matches_at(hay, needle, i) {
            return true;
        }
        if i == last {
            return false;
        }
        i = i + 1;
    }
}

/// Whether a file's text holds the test marker.
pub fn text_has_marker(text: &String) -> (r: bool)
    ensures
        r == has_marker(text@),
{
    find_bytes(text.as_str().as_bytes(), TEST_MARKER.as_bytes())
}

/// Whether some file at or below `crate_path` holds the test marker. The scan
/// stops at the first such file.
pub fn is_testable_crate(crate_path: &Vec<String>, entries: &Vec<Entry>) -> (r: bool)
    ensures
        r == is_testable(listing(entries@), crate_path.deep_view()),
{
    let ghost tree = listing(entries@);
    let mut i: usize = 0;
    while i < entries.len()
        invariant
            0 <= i <= entries.len(),
            tree == listing(entries@),
            forall|k: int|
                0 <= k < i ==> !(is_under(crate_path.deep_view(), #[trigger] tree[k].0)
                    && is_marked_file(tree[k])),
        decreases entries.len() - i,
    {
        let entry = &entries[i];
        assert(tree[i as int] == entry@);
        match &entry.kind {
            EntryKind::File(text) => {
                if path_is_under(crate_path, &entry.path) && text_has_marker(text) {
                    assert(is_under(crate_path.deep_view(), tree[i as int].0));
                    assert(is_marked_file(tree[i as int]));
                    return true;
                }
            },
            EntryKind::Directory => {},
        }
        assert(tree[i as int] == entry@);
        i = i + 1;
    }
    false
}

/// Keeps the crates that hold at least one file with the test marker, in
/// their order. Each crate is judged on its own.
pub fn filter_testable_crates(crates_paths: &Vec<Vec<String>>, entries: &Vec<Entry>) -> (r: Vec<
    Vec<String>,
>)
    ensures
        r.deep_view() == testable_crates(listing(entries@), crates_paths.deep_view()),
{
    let ghost tree = listing(entries@);
    let ghost pred = |d: Seq<Seq<char>>| is_testable(tree, d);
    let mut kept: Vec<Vec<String>> = Vec::new();
    let mut i: usize = 0;
    proof {
        reveal(Seq::filter);
        assert(crates_paths.deep_view().take(0) =~= Seq::<Seq<Seq<char>>>::empty());
        assert(kept.deep_view() =~= Seq::<Seq<Seq<char>>>::empty());
    }
    while i < crates_paths.len()
        invariant
            0 <= i <= crates_paths.len(),
            tree == listing(entries@),
            pred == (|d: Seq<Seq<char>>| is_testable(tree, d)),
            kept.deep_view() == crates_paths.deep_view().take(i as int).filter(pred),
        decreases crates_paths.len() - i,
    {
        let ghost before = kept.deep_view();
        proof {
            reveal(Seq::filter);
            assert(crates_paths.deep_view().take(i + 1).drop_last() =~= crates_paths.deep_view().take(
                i as int,
            ));
        }
        if is_testable_crate(&crates_paths[i], entries) {
            kept.push(crates_paths[i].clone());
            assert(kept.deep_view() =~= before.push(crates_paths.deep_view()[i as int]));
        }
        i = i + 1;
    }
    assert(crates_paths.deep_view().take(crates_paths.len() as int) =~= crates_paths.deep_view());
    kept
}

} // verus!

verus! {

/// The directories of the tree that directly hold a `Cargo.toml` file, in
/// listing order; the root itself when it holds one.
pub fn gather_crates_paths_in_dir_or_subdirs(entries: &Vec<Entry>) -> (r: Vec<Vec<String>>)
    ensures
        r.deep_view() == located_crates(listing(entries@)),
{
    let ghost tree = listing(entries@);
    let mut found: Vec<Vec<String>> = Vec::new();
    let mut i: usize = 0;
    proof {
        assert(tree.take(0) =~= Seq::<EntryView>::empty());
        assert(found.deep_view() =~= Seq::<Seq<Seq<char>>>::empty());
    }
    while i < entries.len()
        invariant
            0 <= i <= entries.len(),
            tree == listing(entries@),
            found.deep_view() == located_crates(tree.take(i as int)),
        decreases entries.len() - i,
    {
        let entry = &entries[i];
        let ghost before = found.deep_view();
        proof {
            assert(tree.take(i + 1).drop_last() =~= tree.take(i as int));
            assert(tree.take(i + 1).last() == entry@);
        }
        match &entry.kind {
            EntryKind::File(_) => {
                let n: usize = entry.path.len();
                if n > 0 && is_literal(&entry.path[n - 1], MANIFEST_FILE) {
                    let mut dir = entry.path.clone();
                    assert(dir.deep_view() =~= entry.path.deep_view());
                    dir.pop();
                    assert(dir.deep_view() =~= entry@.0.drop_last());
                    found.push(dir);
                    assert(found.deep_view() =~= before.push(entry@.0.drop_last()));
                }
            },
            EntryKind::Directory => {},
        }
        i = i + 1;
    }
    assert(tree.take(entries.len() as int) =~= tree);
    found
}

/// A tree without any manifest holds no crate.
pub proof fn lemma_no_manifest_no_crates(tree: Seq<EntryView>)
    requires
        forall|i: int| 0 <= i < tree.len() ==> !is_manifest(#[trigger] tree[i]),
    ensures
        located_crates(tree) == Seq::<Seq<Seq<char>>>::empty(),
    decreases tree.len(),
{
    if tree.len() > 0 {
        let rest = tree.drop_last();
        assert forall|i: int| 0 <= i < rest.len() implies !is_manifest(#[trigger] rest[i]) by {
            assert(rest[i] == tree[i]);
        }
        assert(!is_manifest(tree[tree.len() - 1]));
        lemma_no_manifest_no_crates(rest);
    }
}

/// A crate stays after filtering exactly when it was a candidate and some file
/// at or below it holds the marker; one crate's files never decide for
/// another.
pub proof fn lemma_filter_keeps_exactly_testable(
    tree: Seq<EntryView>,
    crates: Seq<Seq<Seq<char>>>,
    dir: Seq<Seq<char>>,
)
    ensures
        testable_crates(tree, crates).contains(dir) <==> (crates.contains(dir) && is_testable(
            tree,
            dir,
        )),
{
    let pred = |d: Seq<Seq<char>>| is_testable(tree, d);
    let kept = crates.filter(pred);
    if kept.contains(dir) {
        crates.lemma_filter_contains_rev(pred, dir);
        let j = choose|j: int| 0 <= j < kept.len() && kept[j] == dir;
        crates.lemma_filter_pred(pred, j);
    }
    if crates.contains(dir) && is_testable(tree, dir) {
        let j = choose|j: int| 0 <= j < crates.len() && crates[j] == dir;
        crates.lemma_filter_contains(pred, j);
    }
}

/// Filtering an already filtered list changes nothing.
pub proof fn lemma_filter_idempotent(tree: Seq<EntryView>, crates: Seq<Seq<Seq<char>>>)
    ensures
        testable_crates(tree, testable_crates(tree, crates)) == testable_crates(tree, crates),
    decreases crates.len(),
{
    reveal(Seq::filter);
    let pred = |d: Seq<Seq<char>>| is_testable(tree, d);
    if crates.len() > 0 {
        lemma_filter_idempotent(tree, crates.drop_last());
        let inner = crates.drop_last().filter(pred);
        if pred(crates.last()) {
            let once = inner.push(crates.last());
            assert(once.drop_last() =~= inner);
            assert(once.last() == crates.last());
        }
    }
}

/// Discovery with filtering depends on the tree alone: over the same listing
/// it yields the same crates in the same order, and filtering its result
/// again keeps all of it.
pub proof fn lemma_discovery_idempotent(a: Seq<Entry>, b: Seq<Entry>)
    requires
        listing(a) == listing(b),
    ensures
        discovered(listing(a)) == discovered(listing(b)),
        testable_crates(listing(a), discovered(listing(a))) == discovered(listing(a)),
{
    lemma_filter_idempotent(listing(a), located_crates(listing(a)));
}

} // verus!
