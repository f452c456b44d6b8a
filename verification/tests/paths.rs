use dbfc::paths::extension;
use dbfc::paths::join;
use dbfc::paths::parent;
use dbfc::paths::relative_to;

fn some(text: &str) -> Option<String> {
    Some(String::from(text))
}

#[test]
fn join_puts_one_slash_between() {
    assert_eq!(join("/a", "b"), "/a/b");
    assert_eq!(join("/a", "b/c.txt"), "/a/b/c.txt");
    assert_eq!(join("a", "b"), "a/b");
}

#[test]
fn join_keeps_the_slash_of_the_base() {
    assert_eq!(join("/a/", "b"), "/a/b");
    assert_eq!(join("/", "b"), "/b");
}

#[test]
fn join_under_the_empty_base() {
    assert_eq!(join("", "b"), "b");
    assert_eq!(join("", ""), "");
}

#[test]
fn join_with_an_absolute_path_takes_it() {
    assert_eq!(join("/a", "/b"), "/b");
    assert_eq!(join("", "/b"), "/b");
}

#[test]
fn join_with_nothing_ends_in_a_slash() {
    assert_eq!(join("/a", ""), "/a/");
    assert_eq!(join("/a/", ""), "/a/");
}

#[test]
fn join_agrees_with_std() {
    let bases = ["", "/", "/a", "/a/", "a", "a/b", "a/b/", "."];
    let rels = ["", "b", "b/c", "/b", "b/", ".", "..", "b.txt"];
    for base in bases {
        for rel in rels {
            let expected = std::path::Path::new(base).join(rel);
            assert_eq!(join(base, rel), expected.to_str().unwrap(), "{base:?} {rel:?}");
        }
    }
}

#[test]
fn relative_to_gives_the_part_below() {
    assert_eq!(relative_to("/src/a/b.txt", "/src"), some("a/b.txt"));
    assert_eq!(relative_to("/src/a/b.txt", "/src/"), some("a/b.txt"));
    assert_eq!(relative_to("/src/a/b.txt", "/src/a"), some("b.txt"));
    assert_eq!(relative_to("src/a", "src"), some("a"));
}

#[test]
fn relative_to_refuses_what_is_elsewhere() {
    assert_eq!(relative_to("/other/a", "/src"), None);
    assert_eq!(relative_to("/srcx/a", "/src"), None);
    assert_eq!(relative_to("/sr", "/src"), None);
    assert_eq!(relative_to("a", "/"), None);
    assert_eq!(relative_to("src/a", "/src"), None);
}

#[test]
fn relative_to_the_path_itself_is_empty() {
    assert_eq!(relative_to("/src", "/src"), some(""));
    assert_eq!(relative_to("/src/", "/src"), some(""));
    assert_eq!(relative_to("/src", "/src/"), some(""));
}

#[test]
fn relative_to_the_empty_base_is_the_whole_path() {
    assert_eq!(relative_to("a/b", ""), some("a/b"));
    assert_eq!(relative_to("/a/b", ""), some("/a/b"));
    assert_eq!(relative_to("", ""), some(""));
}

#[test]
fn relative_to_the_root() {
    assert_eq!(relative_to("/a", "/"), some("a"));
    assert_eq!(relative_to("/a/b", "/"), some("a/b"));
}

#[test]
fn relative_to_passes_over_repeated_slashes() {
    assert_eq!(relative_to("/src//a", "/src"), some("a"));
    assert_eq!(relative_to("/src/a", "/src///"), some("a"));
}

#[test]
fn relative_to_drops_the_slashes_at_the_end() {
    assert_eq!(relative_to("/src/a/", "/src"), some("a"));
    assert_eq!(relative_to("/src/a//", "/src/"), some("a"));
    assert_eq!(relative_to("a/b/", ""), some("a/b"));
    assert_eq!(relative_to("//", ""), some("/"));
}

#[test]
fn relative_to_takes_components_as_they_are_written() {
    assert_eq!(relative_to("/src/./a", "/src"), some("./a"));
    assert_eq!(relative_to("/src/../a", "/src"), some("../a"));
    assert_eq!(relative_to("/src/a", "/src/."), None);
    assert_eq!(relative_to("./a", "."), some("a"));
    assert_eq!(relative_to("/src//a", "/src/a"), None);
}

#[test]
fn relative_to_agrees_with_std() {
    let paths = [
        "/src/a/b.txt", "/src", "/src/", "/srcx/a", "/a", "a/b", "a", "", "/src/a/",
        "a/b/", "//", "/", "/src/a//", "./a", "../a",
    ];
    let bases = ["/src", "/src/", "/", "", "a", "a/", "/a", "/src/a", "//", "/src//", ".", ".."];
    for path in paths {
        for base in bases {
            let expected = std::path::Path::new(path)
                .strip_prefix(base)
                .ok()
                .map(|rest| String::from(rest.to_str().unwrap()));
            assert_eq!(relative_to(path, base), expected, "{path:?} {base:?}");
        }
    }
}

#[test]
fn extension_follows_the_last_dot() {
    assert_eq!(extension("/a/in.avi"), some("avi"));
    assert_eq!(extension("in.avi"), some("avi"));
    assert_eq!(extension("/a/archive.tar.gz"), some("gz"));
    assert_eq!(extension("/a/.hidden.txt"), some("txt"));
}

#[test]
fn extension_keeps_its_case() {
    assert_eq!(extension("/a/IN.AVI"), some("AVI"));
    assert_eq!(extension("/a/in.Avi"), some("Avi"));
}

#[test]
fn extension_is_absent_without_a_dot_in_the_name() {
    assert_eq!(extension("/a/noext"), None);
    assert_eq!(extension("/a.d/file"), None);
    assert_eq!(extension(""), None);
    assert_eq!(extension("/"), None);
}

#[test]
fn extension_is_absent_for_a_leading_dot() {
    assert_eq!(extension("/a/.hidden"), None);
    assert_eq!(extension(".hidden"), None);
    assert_eq!(extension("/a/.."), None);
    assert_eq!(extension(".."), None);
}

#[test]
fn extension_may_be_empty() {
    assert_eq!(extension("/a/file."), some(""));
}

#[test]
fn extension_sets_trailing_slashes_aside() {
    assert_eq!(extension("/a/b.txt/"), some("txt"));
}

#[test]
fn extension_agrees_with_std() {
    let paths = [
        "/a/in.avi", "in.avi", "/a/archive.tar.gz", "/a/noext", "/a/.hidden", "/a/.hidden.txt",
        "/a.d/file", "/a/file.", "/a/..", "..", "", "/", "/a/b.txt/", "a.b.c.d", "...", "a..b",
    ];
    for path in paths {
        let expected = std::path::Path::new(path)
            .extension()
            .map(|ext| String::from(ext.to_str().unwrap()));
        assert_eq!(extension(path), expected, "{path:?}");
    }
}

#[test]
fn parent_is_the_directory_of_the_last_component() {
    assert_eq!(parent("/b/out.mp4"), some("/b"));
    assert_eq!(parent("/b/c/out.mp4"), some("/b/c"));
    assert_eq!(parent("b/out.mp4"), some("b"));
    assert_eq!(parent("/b/c/"), some("/b"));
    assert_eq!(parent("a//b"), some("a"));
}

#[test]
fn parent_of_a_single_component() {
    assert_eq!(parent("out.mp4"), some(""));
    assert_eq!(parent("/out"), some("/"));
}

#[test]
fn parent_is_absent_for_the_root_and_the_empty_path() {
    assert_eq!(parent("/"), None);
    assert_eq!(parent("//"), None);
    assert_eq!(parent(""), None);
}

#[test]
fn parent_agrees_with_std() {
    let paths = ["/b/out.mp4", "/b/c/out.mp4", "b/out.mp4", "out.mp4", "/out", "/", "", "/b/c/", "a//b"];
    for path in paths {
        let expected = std::path::Path::new(path)
            .parent()
            .map(|dir| String::from(dir.to_str().unwrap()));
        assert_eq!(parent(path), expected, "{path:?}");
    }
}
