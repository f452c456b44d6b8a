//! What a scan finds of a tree: the regular files of the directories that
//! can be reached from the root, all of them and nothing else.

use crate::scanner::is_complete;
use crate::scanner::is_waiting;
use crate::scanner::lemma_listed_holds_exactly;
use crate::scanner::lemma_visited_files;
use crate::scanner::listed;
use crate::scanner::lists_at;
use crate::scanner::visited;
use crate::scanner::Entry;
use crate::scanner::EntryKind;
use crate::scanner::TreeScanView;
use vstd::prelude::*;

verus! {

/// Whether `dir` is a directory of the tree, `depth` levels below `root`. The
/// tree is given by what each of its directories lists.
pub open spec fn is_directory_at(
    tree: spec_fn(Seq<char>) -> Seq<Entry>,
    root: Seq<char>,
    dir: Seq<char>,
    depth: nat,
) -> bool
    decreases depth,
{
    if depth == 0 {
        dir == root
    } else {
        exists|parent: Seq<char>, i: int|
            is_directory_at(tree, root, parent, (depth - 1) as nat) && #[trigger] lists_at(
                parent,
                tree(parent),
                EntryKind::Directory,
                dir,
                i,
            )
    }
}

/// Whether `dir` is the root or a directory below it.
pub open spec fn is_directory_of(
    tree: spec_fn(Seq<char>) -> Seq<Entry>,
    root: Seq<char>,
    dir: Seq<char>,
) -> bool {
    exists|depth: nat| is_directory_at(tree, root, dir, depth)
}

/// Whether `file` is a regular file in a directory of the tree.
pub open spec fn is_file_of(
    tree: spec_fn(Seq<char>) -> Seq<Entry>,
    root: Seq<char>,
    file: Seq<char>,
) -> bool {
    exists|dir: Seq<char>, i: int|
        is_directory_of(tree, root, dir) && #[trigger] lists_at(
            dir,
            tree(dir),
            EntryKind::File,
            file,
            i,
        )
}

/// A scan that has `root` to list and has found nothing yet.
pub open spec fn scan_of(root: Seq<char>) -> TreeScanView {
    TreeScanView { pending: seq![root], files: Seq::empty(), failed: false }
}

/// The scan after it was given the listing of each directory it asked for,
/// until it asked for none or `fuel` listings were given.
pub open spec fn scanned(
    scan: TreeScanView,
    tree: spec_fn(Seq<char>) -> Seq<Entry>,
    fuel: nat,
) -> TreeScanView
    decreases fuel,
{
    if fuel == 0 || !is_waiting(scan) {
        scan
    } else {
        scanned(visited(scan, tree(scan.pending.last())), tree, (fuel - 1) as nat)
    }
}

/// What a scan in progress has covered of the tree, `seen` being the
/// directories that were listed: the root is seen or waits; what waits and
/// what was seen are directories of the tree; the subdirectories of a seen
/// directory are seen or wait, and its files are found; and every file found
/// is a file of the tree.
pub open spec fn covers(
    scan: TreeScanView,
    tree: spec_fn(Seq<char>) -> Seq<Entry>,
    root: Seq<char>,
    seen: Set<Seq<char>>,
) -> bool {
    &&& !scan.failed
    &&& seen.contains(root) || scan.pending.contains(root)
    &&& forall|dir: Seq<char>| #[trigger]
        scan.pending.contains(dir) ==> is_directory_of(tree, root, dir)
    &&& forall|dir: Seq<char>| #[trigger] seen.contains(dir) ==> is_directory_of(tree, root, dir)
    &&& forall|dir: Seq<char>, sub: Seq<char>, i: int|
        seen.contains(dir) && #[trigger] lists_at(dir, tree(dir), EntryKind::Directory, sub, i)
            ==> seen.contains(sub) || scan.pending.contains(sub)
    &&& forall|dir: Seq<char>, file: Seq<char>, i: int|
        seen.contains(dir) && #[trigger] lists_at(dir, tree(dir), EntryKind::File, file, i)
            ==> scan.files.contains(file)
    &&& forall|file: Seq<char>| #[trigger]
        scan.files.contains(file) ==> is_file_of(tree, root, file)
}

/// What a directory of the tree lists as a directory is a directory of the
/// tree.
pub proof fn lemma_subdirectory(
    tree: spec_fn(Seq<char>) -> Seq<Entry>,
    root: Seq<char>,
    dir: Seq<char>,
    sub: Seq<char>,
    i: int,
)
    requires
        is_directory_of(tree, root, dir),
        lists_at(dir, tree(dir), EntryKind::Directory, sub, i),
    ensures
        is_directory_of(tree, root, sub),
{
    let depth = choose|depth: nat| is_directory_at(tree, root, dir, depth);
    assert(is_directory_at(tree, root, sub, depth + 1));
}

/// What the scan waits for, apart from the last, still waits after a visit;
/// so does what the visit found as a directory.
proof fn lemma_visited_pending(scan: TreeScanView, entries: Seq<Entry>, dir: Seq<char>)
    requires
        is_waiting(scan),
    ensures
        visited(scan, entries).pending.contains(dir) <==> scan.pending.drop_last().contains(dir)
            || listed(scan.pending.last(), entries, EntryKind::Directory).contains(dir),
        scan.pending.contains(dir) <==> scan.pending.drop_last().contains(dir) || dir
            == scan.pending.last(),
{
    let kept = scan.pending.drop_last();
    let added = listed(scan.pending.last(), entries, EntryKind::Directory);
    let after = kept + added;
    if after.contains(dir) {
        let at = choose|at: int| 0 <= at < after.len() && after[at] == dir;
        if at < kept.len() {
            assert(kept[at] == dir);
        } else {
            assert(added[at - kept.len()] == dir);
        }
    }
    if kept.contains(dir) {
        let at = choose|at: int| 0 <= at < kept.len() && kept[at] == dir;
        assert(after[at] == dir);
    }
    if added.contains(dir) {
        let at = choose|at: int| 0 <= at < added.len() && added[at] == dir;
        assert(after[at + kept.len()] == dir);
    }
    if scan.pending.contains(dir) {
        let at = choose|at: int| 0 <= at < scan.pending.len() && scan.pending[at] == dir;
        if at < kept.len() {
            assert(kept[at] == dir);
        }
    }
}

/// A visit adds the directory that was listed to what the scan has covered.
pub proof fn lemma_visit_covers(
    scan: TreeScanView,
    tree: spec_fn(Seq<char>) -> Seq<Entry>,
    root: Seq<char>,
    seen: Set<Seq<char>>,
)
    requires
        covers(scan, tree, root, seen),
        is_waiting(scan),
    ensures
        covers(
            visited(scan, tree(scan.pending.last())),
            tree,
            root,
            seen.insert(scan.pending.last()),
        ),
{
    let here = scan.pending.last();
    let entries = tree(here);
    let after = visited(scan, entries);
    let seen_after = seen.insert(here);
    lemma_visited_pending(scan, entries, here);
    lemma_visited_pending(scan, entries, root);
    assert forall|dir: Seq<char>| #[trigger] after.pending.contains(dir) implies is_directory_of(
        tree,
        root,
        dir,
    ) by {
        lemma_visited_pending(scan, entries, dir);
        if !scan.pending.drop_last().contains(dir) {
            lemma_listed_holds_exactly(here, entries, EntryKind::Directory, dir);
            let i = choose|i: int| lists_at(here, entries, EntryKind::Directory, dir, i);
            lemma_subdirectory(tree, root, here, dir, i);
        }
    }
    assert forall|dir: Seq<char>, sub: Seq<char>, i: int|
        seen_after.contains(dir) && #[trigger] lists_at(
            dir,
            tree(dir),
            EntryKind::Directory,
            sub,
            i,
        ) implies seen_after.contains(sub) || after.pending.contains(sub) by {
        lemma_visited_pending(scan, entries, sub);
        if dir == here {
            lemma_listed_holds_exactly(here, entries, EntryKind::Directory, sub);
        }
    }
    assert forall|dir: Seq<char>, file: Seq<char>, i: int|
        seen_after.contains(dir) && #[trigger] lists_at(
            dir,
            tree(dir),
            EntryKind::File,
            file,
            i,
        ) implies after.files.contains(file) by {
        lemma_visited_files(scan, entries, file);
    }
    assert forall|file: Seq<char>| #[trigger] after.files.contains(file) implies is_file_of(
        tree,
        root,
        file,
    ) by {
        lemma_visited_files(scan, entries, file);
    }
}

/// A scan that is given the listings of the tree covers, at each point, the
/// directories it has listed. The directories that were listed in the end
/// are returned.
pub proof fn lemma_scanned_covers(
    scan: TreeScanView,
    tree: spec_fn(Seq<char>) -> Seq<Entry>,
    root: Seq<char>,
    seen: Set<Seq<char>>,
    fuel: nat,
) -> (seen_after: Set<Seq<char>>)
    requires
        covers(scan, tree, root, seen),
    ensures
        covers(scanned(scan, tree, fuel), tree, root, seen_after),
    decreases fuel,
{
    if fuel == 0 || !is_waiting(scan) {
        seen
    } else {
        lemma_visit_covers(scan, tree, root, seen);
        lemma_scanned_covers(
            visited(scan, tree(scan.pending.last())),
            tree,
            root,
            seen.insert(scan.pending.last()),
            (fuel - 1) as nat,
        )
    }
}

/// Once the scan waits for nothing, it has seen every directory of the tree.
pub proof fn lemma_complete_scan_has_seen(
    scan: TreeScanView,
    tree: spec_fn(Seq<char>) -> Seq<Entry>,
    root: Seq<char>,
    seen: Set<Seq<char>>,
    dir: Seq<char>,
    depth: nat,
)
    requires
        covers(scan, tree, root, seen),
        is_complete(scan),
        is_directory_at(tree, root, dir, depth),
    ensures
        seen.contains(dir),
    decreases depth,
{
    if depth > 0 {
        let (parent, i) = choose|parent: Seq<char>, i: int|
            is_directory_at(tree, root, parent, (depth - 1) as nat) && #[trigger] lists_at(
                parent,
                tree(parent),
                EntryKind::Directory,
                dir,
                i,
            );
        lemma_complete_scan_has_seen(scan, tree, root, seen, parent, (depth - 1) as nat);
    }
}

/// A complete scan has found the files of the tree, all of them and nothing
/// else: a path is among the files found exactly when a directory that can
/// be reached from the root lists it as a regular file. This holds whatever
/// the order in which each directory lists its entries.
pub proof fn lemma_scan_finds_the_files_of_the_tree(
    tree: spec_fn(Seq<char>) -> Seq<Entry>,
    root: Seq<char>,
    fuel: nat,
    file: Seq<char>,
)
    requires
        is_complete(scanned(scan_of(root), tree, fuel)),
    ensures
        scanned(scan_of(root), tree, fuel).files.contains(file) <==> is_file_of(tree, root, file),
{
    let start = scan_of(root);
    let end = scanned(start, tree, fuel);
    assert(is_directory_at(tree, root, root, 0));
    assert forall|dir: Seq<char>| #[trigger] start.pending.contains(dir) implies is_directory_of(
        tree,
        root,
        dir,
    ) by {
        assert(dir == root);
    }
    let seen = lemma_scanned_covers(start, tree, root, Set::empty(), fuel);
    if is_file_of(tree, root, file) {
        let (dir, i) = choose|dir: Seq<char>, i: int|
            is_directory_of(tree, root, dir) && #[trigger] lists_at(
                dir,
                tree(dir),
                EntryKind::File,
                file,
                i,
            );
        let depth = choose|depth: nat| is_directory_at(tree, root, dir, depth);
        lemma_complete_scan_has_seen(end, tree, root, seen, dir, depth);
    }
}

} // verus!
