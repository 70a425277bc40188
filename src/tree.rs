use vstd::prelude::*;

verus! {

/// What a directory tree entry is.
#[derive(Clone, Debug)]
pub enum EntryKind {
    Directory,
    /// A file, with its text.
    File(String),
}

/// One entry of a directory tree listing: its path, as components relative
/// to the listed root, and its kind. The root itself has the empty path.
#[derive(Clone, Debug)]
pub struct Entry {
    pub path: Vec<String>,
    pub kind: EntryKind,
}

/// An entry as its path and, for a file, its text (`None` for a directory).
pub type EntryView = (Seq<Seq<char>>, Option<Seq<char>>);

impl View for Entry {
    type V = EntryView;

    open spec fn view(&self) -> EntryView {
        (
            self.path.deep_view(),
            match self.kind {
                EntryKind::Directory => None,
                EntryKind::File(text) => Some(text@),
            },
        )
    }
}

/// The listing of a tree as the views of its entries, in listing order.
pub open spec fn listing(entries: Seq<Entry>) -> Seq<EntryView> {
    entries.map_values(|e: Entry| e@)
}

/// `path` is `dir` itself or lies below it.
pub open spec fn is_under(dir: Seq<Seq<char>>, path: Seq<Seq<char>>) -> bool {
    dir.len() <= path.len() && path.take(dir.len() as int) == dir
}

/// Whether `path` lies at or below `dir`.
pub fn path_is_under(dir: &Vec<String>, path: &Vec<String>) -> (r: bool)
    ensures
        r == is_under(dir.deep_view(), path.deep_view()),
{
    if dir.len() > path.len() {
        return false;
    }
    let mut i: usize = 0;
    while i < dir.len()
        invariant
            dir.len() <= path.len(),
            0 <= i <= dir.len(),
            forall|k: int| 0 <= k < i ==> path.deep_view()[k] == dir.deep_view()[k],
        decreases dir.len() - i,
    {
        if path[i] != dir[i] {
            assert(path.deep_view().take(dir.len() as int)[i as int] != dir.deep_view()[i as int]);
            return false;
        }
        i = i + 1;
    }
    assert(path.deep_view().take(dir.len() as int) =~= dir.deep_view());
    true
}

/// Whether two paths are the same.
pub fn same_path(a: &Vec<String>, b: &Vec<String>) -> (r: bool)
    ensures
        r == (a.deep_view() == b.deep_view()),
{
    if a.len() != b.len() {
        return false;
    }
    let r = path_is_under(a, b);
    assert(b.deep_view().take(a.len() as int) =~= b.deep_view());
    r
}

} // verus!
