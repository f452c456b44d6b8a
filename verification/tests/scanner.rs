use dbfc::batch_job::BatchJob;
use dbfc::batch_job::SourceFile;
use dbfc::scanner::Entry;
use dbfc::scanner::EntryKind;
use dbfc::scanner::TreeScan;

fn strings(texts: &[&str]) -> Vec<String> {
    texts.iter().map(|text| String::from(*text)).collect()
}

fn entry(name: &str, kind: EntryKind) -> Entry {
    Entry { name: String::from(name), kind }
}

/// Lists the directories of a small tree, the way a driver lists those of
/// the file system. With `reversed`, each listing comes in the other order.
fn listing(dir: &str, reversed: bool) -> Vec<Entry> {
    let mut entries = match dir {
        "/r" => vec![entry("a", EntryKind::Directory), entry("d.mp4", EntryKind::File)],
        "/r/a" => vec![entry("b.txt", EntryKind::File), entry("c.avi", EntryKind::File)],
        other => panic!("not a directory of the tree: {other}"),
    };
    if reversed {
        entries.reverse();
    }
    entries
}

fn scan_tree(reversed: bool) -> Vec<String> {
    let mut scan = TreeScan::new("/r");
    while let Some(dir) = scan.next_directory() {
        scan.visit(&listing(&dir, reversed));
    }
    assert!(scan.is_complete());
    scan.finish().unwrap()
}

#[test]
fn scan_completeness() {
    for reversed in [false, true] {
        let mut found = scan_tree(reversed);
        let files: Vec<SourceFile> = found
            .iter()
            .map(|path| SourceFile { path: path.clone(), content: path.clone().into_bytes() })
            .collect();
        let mut batch = BatchJob::new("job", "/r", "/out");
        assert!(batch.init(false, &files).is_ok());
        let mut sources: Vec<String> =
            batch.jobs().iter().map(|job| String::from(job.source_path())).collect();
        sources.sort();
        assert_eq!(sources, vec!["/r/a/b.txt", "/r/a/c.avi", "/r/d.mp4"]);
        found.sort();
        assert_eq!(found, sources);
    }
}

#[test]
fn scan_starts_with_the_root() {
    let scan = TreeScan::new("/r");
    assert_eq!(scan.next_directory(), Some(String::from("/r")));
    assert!(!scan.is_complete());
}

#[test]
fn scan_that_is_not_complete_hands_out_nothing() {
    assert_eq!(TreeScan::new("/r").finish(), None);
    let mut scan = TreeScan::new("/r");
    scan.visit(&vec![entry("f", EntryKind::File), entry("sub", EntryKind::Directory)]);
    assert!(!scan.is_complete());
    assert_eq!(scan.finish(), None);
}

#[test]
fn scan_of_an_empty_directory_finds_nothing() {
    let mut scan = TreeScan::new("/r");
    scan.visit(&vec![]);
    assert!(scan.is_complete());
    assert_eq!(scan.next_directory(), None);
    assert_eq!(scan.finish(), Some(vec![]));
}

#[test]
fn scan_that_failed_hands_out_nothing() {
    let mut scan = TreeScan::new("/r");
    scan.visit(&vec![entry("f", EntryKind::File), entry("sub", EntryKind::Directory)]);
    assert_eq!(scan.next_directory(), Some(String::from("/r/sub")));
    scan.fail();
    assert_eq!(scan.next_directory(), None);
    assert!(!scan.is_complete());
    scan.visit(&vec![entry("late", EntryKind::File)]);
    assert_eq!(scan.next_directory(), None);
    assert_eq!(scan.finish(), None);
}

#[test]
fn scan_whose_root_cannot_be_listed_fails() {
    let mut scan = TreeScan::new("/nowhere");
    scan.fail();
    assert!(!scan.is_complete());
    assert_eq!(scan.finish(), None);
}

#[test]
fn scan_that_failed_after_its_end_hands_out_nothing() {
    let mut scan = TreeScan::new("/r");
    scan.visit(&vec![entry("f", EntryKind::File)]);
    assert!(scan.is_complete());
    scan.fail();
    assert!(!scan.is_complete());
    assert_eq!(scan.finish(), None);
}

#[test]
fn scan_keeps_files_in_listing_order() {
    let mut scan = TreeScan::new("/r");
    scan.visit(&vec![
        entry("z", EntryKind::File),
        entry("a", EntryKind::File),
        entry("m", EntryKind::File),
    ]);
    assert_eq!(scan.finish(), Some(strings(&["/r/z", "/r/a", "/r/m"])));
}

#[test]
fn scan_passes_over_what_is_no_regular_file() {
    let mut scan = TreeScan::new("/r");
    scan.visit(&vec![
        entry("link", EntryKind::Other),
        entry("file", EntryKind::File),
        entry("device", EntryKind::Other),
    ]);
    assert!(scan.is_complete());
    assert_eq!(scan.finish(), Some(strings(&["/r/file"])));
}

#[test]
fn scan_lists_subdirectories_and_not_as_files() {
    let mut scan = TreeScan::new("/r");
    scan.visit(&vec![entry("sub", EntryKind::Directory), entry("f", EntryKind::File)]);
    assert_eq!(scan.next_directory(), Some(String::from("/r/sub")));
    scan.visit(&vec![entry("deep", EntryKind::Directory)]);
    assert_eq!(scan.next_directory(), Some(String::from("/r/sub/deep")));
    scan.visit(&vec![entry("g", EntryKind::File)]);
    assert!(scan.is_complete());
    assert_eq!(scan.finish(), Some(strings(&["/r/f", "/r/sub/deep/g"])));
}

#[test]
fn scan_ignores_a_listing_that_nothing_asked_for() {
    let mut scan = TreeScan::new("/r");
    scan.visit(&vec![entry("f", EntryKind::File)]);
    scan.visit(&vec![entry("late", EntryKind::File), entry("d", EntryKind::Directory)]);
    assert!(scan.is_complete());
    assert_eq!(scan.finish(), Some(strings(&["/r/f"])));
}

#[test]
fn scan_under_a_root_with_a_slash() {
    let mut scan = TreeScan::new("/r/");
    scan.visit(&vec![entry("f", EntryKind::File)]);
    assert_eq!(scan.finish(), Some(strings(&["/r/f"])));
}
