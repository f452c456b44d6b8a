//! The walk over a directory tree, without the file system: the caller lists
//! one directory at a time, and the scan decides what is a file of the batch
//! and which directory comes next.

use crate::paths::join;
use crate::paths::joined;
use crate::text::text_of;
use crate::text::texts_of;
use vstd::prelude::*;
use vstd::string::StringExecFns;

verus! {

/// What a directory entry is. A symbolic link is `Other`, whatever it points
/// to: the scan follows none.
#[derive(Clone, Copy, Debug, PartialEq, Eq, Structural)]
pub enum EntryKind {
    File,
    Directory,
    Other,
}

/// One entry of a directory listing.
pub struct Entry {
    pub name: String,
    pub kind: EntryKind,
}

/// A scan in progress: the directories still to list, the files found, and
/// whether a directory could not be listed.
pub struct TreeScan {
    pending: Vec<String>,
    files: Vec<String>,
    failed: bool,
}

/// A scan, as the paths it holds.
pub struct TreeScanView {
    pub pending: Seq<Seq<char>>,
    pub files: Seq<Seq<char>>,
    pub failed: bool,
}

/// Whether the scan waits for the listing of a directory.
pub open spec fn is_waiting(scan: TreeScanView) -> bool {
    !scan.failed && scan.pending.len() > 0
}

/// Whether the scan has listed every directory, and none has failed.
pub open spec fn is_complete(scan: TreeScanView) -> bool {
    !scan.failed && scan.pending.len() == 0
}

/// The paths of the entries of `dir` that are of `kind`, in listing order.
pub open spec fn listed(dir: Seq<char>, entries: Seq<Entry>, kind: EntryKind) -> Seq<Seq<char>>
    decreases entries.len(),
{
    if entries.len() == 0 {
        Seq::empty()
    } else if entries.last().kind == kind {
        listed(dir, entries.drop_last(), kind).push(joined(dir, entries.last().name@))
    } else {
        listed(dir, entries.drop_last(), kind)
    }
}

/// The scan after the listing of its next directory: the directory is done,
/// its subdirectories wait, its regular files are found. Entries of any other
/// kind are passed over. A scan that waits for no listing stays as it is.
pub open spec fn visited(scan: TreeScanView, entries: Seq<Entry>) -> TreeScanView {
    if is_waiting(scan) {
        let dir = scan.pending.last();
        TreeScanView {
            pending: scan.pending.drop_last() + listed(dir, entries, EntryKind::Directory),
            files: scan.files + listed(dir, entries, EntryKind::File),
            failed: false,
        }
    } else {
        scan
    }
}

impl View for TreeScan {
    type V = TreeScanView;

    closed spec fn view(&self) -> TreeScanView {
        TreeScanView {
            pending: texts_of(self.pending@),
            files: texts_of(self.files@),
            failed: self.failed,
        }
    }
}

impl TreeScan {
    /// A scan that has `root` to list and has found nothing yet.
    pub fn new(root: &str) -> (scan: TreeScan)
        ensures
            scan@.pending == seq![root@],
            scan@.files == Seq::<Seq<char>>::empty(),
            !scan@.failed,
    {
        let mut pending: Vec<String> = Vec::new();
        pending.push(String::from_str(root));
        TreeScan { pending, files: Vec::new(), failed: false }
    }

    /// The directory to list next; `None` once the scan is complete or has
    /// failed.
    pub fn next_directory(&self) -> (dir: Option<String>)
        ensures
            text_of(dir) == if is_waiting(self@) {
                Some(self@.pending.last())
            } else {
                None
            },
    {
        let n = self.pending.len();
        if self.failed || n == 0 {
            None
        } else {
            Some(self.pending[n - 1].clone())
        }
    }

    /// Records that the directory which `next_directory` named could not be
    /// listed. That ends the scan: it asks for no further directory, and
    /// hands out no files.
    pub fn fail(&mut self)
        ensures
            final(self)@ == (TreeScanView { failed: true, ..old(self)@ }),
    {
        self.failed = true;
    }

    /// Takes the listing of the directory that `next_directory` named.
    /// Without such a directory the listing is ignored.
    pub fn visit(&mut self, entries: &Vec<Entry>)
        ensures
            final(self)@ == visited(old(self)@, entries@),
    {
        if self.failed {
            return ;
        }
        let dir = match self.pending.pop() {
            Some(dir) => dir,
            None => {
                return ;
            },
        };
        let mut i: usize = 0;
        while i < entries.len()
            invariant
                i <= entries@.len(),
                dir@ == old(self)@.pending.last(),
                is_waiting(old(self)@),
                !self.failed,
                texts_of(self.pending@) == old(self)@.pending.drop_last() + listed(
                    dir@,
                    entries@.take(i as int),
                    EntryKind::Directory,
                ),
                texts_of(self.files@) == old(self)@.files + listed(
                    dir@,
                    entries@.take(i as int),
                    EntryKind::File,
                ),
            decreases entries@.len() - i,
        {
            let entry = &entries[i];
            assert(entries@.take(i + 1).drop_last() =~= entries@.take(i as int));
            match entry.kind {
                EntryKind::File => {
                    let path = join(dir.as_str(), entry.name.as_str());
                    assert(texts_of(self.files@.push(path)) =~= texts_of(self.files@).push(path@));
                    self.files.push(path);
                },
                EntryKind::Directory => {
                    let path = join(dir.as_str(), entry.name.as_str());
                    assert(texts_of(self.pending@.push(path)) =~= texts_of(self.pending@).push(
                        path@,
                    ));
                    self.pending.push(path);
                },
                EntryKind::Other => {},
            }
            i += 1;
        }
        assert(entries@.take(i as int) =~= entries@);
    }

    /// Whether every directory has been listed, and none has failed.
    pub fn is_complete(&self) -> (complete: bool)
        ensures
            complete == is_complete(self@),
    {
        !self.failed && self.pending.len() == 0
    }

    /// The files of the tree, in the order in which they were found. A scan
    /// that has failed, or has not listed every directory, hands out none:
    /// no part of a tree stands for the tree.
    pub fn finish(self) -> (files: Option<Vec<String>>)
        ensures
            match files {
                Some(files) => is_complete(self@) && texts_of(files@) == self@.files,
                None => !is_complete(self@),
            },
    {
        if !self.failed && self.pending.len() == 0 {
            Some(self.files)
        } else {
            None
        }
    }
}

/// Whether the entry at `i` of a listing of `dir` is of `kind` and has the
/// path `path`.
pub open spec fn lists_at(
    dir: Seq<char>,
    entries: Seq<Entry>,
    kind: EntryKind,
    path: Seq<char>,
    i: int,
) -> bool {
    0 <= i < entries.len() && entries[i].kind == kind && joined(dir, entries[i].name@) == path
}

/// A listing yields the path of each of its entries of the kind asked for,
/// and no other path. What is found does not depend on the order in which a
/// directory lists its entries.
pub proof fn lemma_listed_holds_exactly(
    dir: Seq<char>,
    entries: Seq<Entry>,
    kind: EntryKind,
    path: Seq<char>,
)
    ensures
        listed(dir, entries, kind).contains(path) <==> exists|i: int|
            lists_at(dir, entries, kind, path, i),
    decreases entries.len(),
{
    if entries.len() > 0 {
        let rest = entries.drop_last();
        let last = entries.last();
        let before = listed(dir, rest, kind);
        let all = listed(dir, entries, kind);
        lemma_listed_holds_exactly(dir, rest, kind, path);
        if all.contains(path) {
            let at = choose|at: int| 0 <= at < all.len() && all[at] == path;
            if last.kind == kind && at == before.len() {
                assert(lists_at(dir, entries, kind, path, entries.len() - 1));
            } else {
                let i = choose|i: int| lists_at(dir, rest, kind, path, i);
                assert(lists_at(dir, entries, kind, path, i));
            }
        }
        if exists|i: int| lists_at(dir, entries, kind, path, i) {
            let i = choose|i: int| lists_at(dir, entries, kind, path, i);
            if i < rest.len() {
                assert(lists_at(dir, rest, kind, path, i));
                let at = choose|at: int| 0 <= at < before.len() && before[at] == path;
                assert(all[at] == path);
            } else {
                assert(all[before.len() as int] == path);
            }
        }
    }
}

/// A visit keeps every file that was found before it, and adds the regular
/// files of the directory that was listed, and nothing else.
pub proof fn lemma_visited_files(scan: TreeScanView, entries: Seq<Entry>, path: Seq<char>)
    ensures
        visited(scan, entries).files.contains(path) <==> scan.files.contains(path) || (
        is_waiting(scan) && exists|i: int|
            lists_at(scan.pending.last(), entries, EntryKind::File, path, i)),
{
    if is_waiting(scan) {
        let dir = scan.pending.last();
        let added = listed(dir, entries, EntryKind::File);
        let after = scan.files + added;
        lemma_listed_holds_exactly(dir, entries, EntryKind::File, path);
        if scan.files.contains(path) {
            let at = choose|at: int| 0 <= at < scan.files.len() && scan.files[at] == path;
            assert(after[at] == path);
        }
        if added.contains(path) {
            let at = choose|at: int| 0 <= at < added.len() && added[at] == path;
            assert(after[at + scan.files.len()] == path);
        }
    }
}

} // verus!
