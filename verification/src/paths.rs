//! Paths as text. A path is a string whose components are separated by `/`;
//! nothing here looks at the file system.

use crate::text::chars_of;
use crate::text::text_of;
use vstd::prelude::*;
use vstd::string::StrSliceExecFns;
use vstd::string::StringExecFns;

verus! {

/// `s` without the slashes at its end.
pub open spec fn trim_end_slashes(s: Seq<char>) -> Seq<char>
    decreases s.len(),
{
    if s.len() > 0 && s.last() == '/' {
        trim_end_slashes(s.drop_last())
    } else {
        s
    }
}

/// `s` without the slashes at its start.
pub open spec fn trim_start_slashes(s: Seq<char>) -> Seq<char>
    decreases s.len(),
{
    if s.len() > 0 && s[0] == '/' {
        trim_start_slashes(s.drop_first())
    } else {
        s
    }
}

/// The position of the last `c` in `s`, or -1 where `s` holds none.
pub open spec fn last_index_of(s: Seq<char>, c: char) -> int
    decreases s.len(),
{
    if s.len() == 0 {
        -1
    } else if s.last() == c {
        s.len() - 1
    } else {
        last_index_of(s.drop_last(), c)
    }
}

/// `rel` placed under `base`. An absolute `rel` stands for itself; otherwise
/// the two are joined by one slash, unless `base` is empty or brings its own.
pub open spec fn joined(base: Seq<char>, rel: Seq<char>) -> Seq<char> {
    if rel.len() > 0 && rel[0] == '/' {
        rel
    } else if base.len() == 0 || base.last() == '/' {
        base + rel
    } else {
        base + seq!['/'] + rel
    }
}

/// Whether `path` lies under the directory `stem`, which has no slash at its
/// end: `path` starts with `stem`, and a component ends where `stem` ends.
/// The empty `stem` is the root, which holds the absolute paths.
pub open spec fn lies_under(path: Seq<char>, stem: Seq<char>) -> bool {
    &&& stem.is_prefix_of(path)
    &&& if path.len() == stem.len() {
        stem.len() > 0
    } else {
        path[stem.len() as int] == '/'
    }
}

/// `path` without the slashes at its end; the root stays the root.
pub open spec fn without_end_slashes(path: Seq<char>) -> Seq<char> {
    if path.len() > 0 && trim_end_slashes(path).len() == 0 {
        seq!['/']
    } else {
        trim_end_slashes(path)
    }
}

/// The part of `path` below the directory `base`, without slashes at its
/// start or end, or `None` where `path` is not under `base`. Every path is
/// under the empty base, whole. The two are compared as they are written:
/// `.` and `..` are names like any other, and a doubled slash inside `path`
/// is matched only by one inside `base`.
pub open spec fn relative_part(path: Seq<char>, base: Seq<char>) -> Option<Seq<char>> {
    let stem = trim_end_slashes(base);
    if base.len() == 0 {
        Some(without_end_slashes(path))
    } else if lies_under(path, stem) {
        Some(trim_end_slashes(trim_start_slashes(path.skip(stem.len() as int))))
    } else {
        None
    }
}

/// The last component of `path`: what follows the last slash, slashes at the
/// end of `path` set aside.
pub open spec fn file_name_of(path: Seq<char>) -> Seq<char> {
    let trimmed = trim_end_slashes(path);
    trimmed.skip(last_index_of(trimmed, '/') + 1)
}

/// The extension of a file name: what follows its last dot. A name without a
/// dot has none, nor has one whose only dot is its first character, nor `..`.
pub open spec fn extension_of_name(name: Seq<char>) -> Option<Seq<char>> {
    let dot = last_index_of(name, '.');
    if dot <= 0 || name == seq!['.', '.'] {
        None
    } else {
        Some(name.skip(dot + 1))
    }
}

/// The extension of the file that `path` names.
pub open spec fn extension_of(path: Seq<char>) -> Option<Seq<char>> {
    extension_of_name(file_name_of(path))
}

/// The directory that holds the last component of `path`: `None` for the
/// empty path and for the root, the empty path for a single relative
/// component.
pub open spec fn parent_of(path: Seq<char>) -> Option<Seq<char>> {
    let trimmed = trim_end_slashes(path);
    let slash = last_index_of(trimmed, '/');
    let dir = trim_end_slashes(trimmed.take(slash + 1));
    if trimmed.len() == 0 {
        None
    } else if slash >= 0 && dir.len() == 0 {
        Some(seq!['/'])
    } else {
        Some(dir)
    }
}

/// `last_index_of` finds an occurrence of the character, and none follows it.
pub proof fn lemma_last_index_of(s: Seq<char>, c: char)
    ensures
        -1 <= last_index_of(s, c) < s.len(),
        last_index_of(s, c) >= 0 ==> s[last_index_of(s, c)] == c,
        forall|k: int| last_index_of(s, c) < k < s.len() ==> s[k] != c,
    decreases s.len(),
{
    if s.len() > 0 && s.last() != c {
        let rest = s.drop_last();
        lemma_last_index_of(rest, c);
        assert forall|k: int| last_index_of(s, c) < k < s.len() implies s[k] != c by {
            if k < rest.len() {
                assert(rest[k] == s[k]);
            }
        }
    }
}

/// The last `c` of `s.skip(from)` is the last `c` of `s`, where that one
/// lies at or after `from`; otherwise `s.skip(from)` holds no `c`.
pub proof fn lemma_last_index_of_skip(s: Seq<char>, from: int, c: char)
    requires
        0 <= from <= s.len(),
    ensures
        last_index_of(s.skip(from), c) == if last_index_of(s, c) >= from {
            last_index_of(s, c) - from
        } else {
            -1
        },
    decreases s.len(),
{
    if s.len() == from {
        lemma_last_index_of(s, c);
    } else if s.last() != c {
        assert(s.skip(from).drop_last() =~= s.drop_last().skip(from));
        lemma_last_index_of_skip(s.drop_last(), from, c);
    }
}

/// What `trim_end_slashes` returns is a prefix that does not end in a slash,
/// and only slashes were taken away.
pub proof fn lemma_trim_end_slashes(s: Seq<char>)
    ensures
        trim_end_slashes(s).is_prefix_of(s),
        trim_end_slashes(s).len() > 0 ==> trim_end_slashes(s).last() != '/',
        forall|k: int| trim_end_slashes(s).len() <= k < s.len() ==> s[k] == '/',
    decreases s.len(),
{
    if s.len() > 0 && s.last() == '/' {
        let rest = s.drop_last();
        lemma_trim_end_slashes(rest);
        assert forall|k: int| trim_end_slashes(s).len() <= k < s.len() implies s[k] == '/' by {
            if k < rest.len() {
                assert(rest[k] == s[k]);
            }
        }
    }
}

/// The position at which `chars[start..end]` ends once the slashes at its
/// end are taken away.
fn end_without_slashes(chars: &[char], start: usize, end: usize) -> (n: usize)
    requires
        start <= end <= chars@.len(),
    ensures
        start <= n <= end,
        chars@.subrange(start as int, n as int) == trim_end_slashes(
            chars@.subrange(start as int, end as int),
        ),
{
    let mut n = end;
    while n > start && chars[n - 1] == '/'
        invariant
            start <= n <= end <= chars@.len(),
            trim_end_slashes(chars@.subrange(start as int, n as int)) == trim_end_slashes(
                chars@.subrange(start as int, end as int),
            ),
        decreases n,
    {
        assert(chars@.subrange(start as int, n as int).drop_last() =~= chars@.subrange(
            start as int,
            n - 1,
        ));
        n -= 1;
    }
    n
}

/// The position in `chars` at which what follows `start` begins, the slashes
/// at its start taken away.
fn start_without_slashes(chars: &[char], start: usize) -> (n: usize)
    requires
        start <= chars@.len(),
    ensures
        start <= n <= chars@.len(),
        chars@.skip(n as int) == trim_start_slashes(chars@.skip(start as int)),
{
    let mut n = start;
    while n < chars.len() && chars[n] == '/'
        invariant
            start <= n <= chars@.len(),
            trim_start_slashes(chars@.skip(n as int)) == trim_start_slashes(
                chars@.skip(start as int),
            ),
        decreases chars@.len() - n,
    {
        assert(chars@.skip(n as int).drop_first() =~= chars@.skip(n + 1));
        n += 1;
    }
    n
}

/// One more than the position of the last `c` in `chars[..end]`; 0 where
/// there is none.
fn after_last(chars: &[char], end: usize, c: char) -> (n: usize)
    requires
        end <= chars@.len(),
    ensures
        n == last_index_of(chars@.take(end as int), c) + 1,
        n <= end,
{
    let mut n = end;
    while n > 0 && chars[n - 1] != c
        invariant
            n <= end <= chars@.len(),
            last_index_of(chars@.take(n as int), c) == last_index_of(chars@.take(end as int), c),
        decreases n,
    {
        assert(chars@.take(n as int).drop_last() =~= chars@.take(n - 1));
        n -= 1;
    }
    n
}

/// Tells whether `chars` starts with the first `n` characters of `stem`.
fn starts_with(chars: &[char], stem: &[char], n: usize) -> (starts: bool)
    requires
        n <= stem@.len(),
    ensures
        starts == stem@.take(n as int).is_prefix_of(chars@),
{
    if chars.len() < n {
        return false;
    }
    let mut i: usize = 0;
    while i < n
        invariant
            i <= n <= stem@.len(),
            n <= chars@.len(),
            forall|k: int| 0 <= k < i ==> chars@[k] == stem@[k],
        decreases n - i,
    {
        if chars[i] != stem[i] {
            assert(stem@.take(n as int)[i as int] != chars@[i as int]);
            return false;
        }
        i += 1;
    }
    true
}

/// Places `rel` under `base`.
pub fn join(base: &str, rel: &str) -> (path: String)
    ensures
        path@ == joined(base@, rel@),
{
    let base_chars = chars_of(base);
    let rel_chars = chars_of(rel);
    if rel_chars.len() > 0 && rel_chars[0] == '/' {
        String::from_str(rel)
    } else if base_chars.len() == 0 || base_chars[base_chars.len() - 1] == '/' {
        String::from_str(base).concat(rel)
    } else {
        proof {
            reveal_strlit("/");
        }
        String::from_str(base).concat("/").concat(rel)
    }
}

/// The part of `path` below the directory `base`, if `path` lies under it.
pub fn relative_to(path: &str, base: &str) -> (rel: Option<String>)
    ensures
        text_of(rel) == relative_part(path@, base@),
{
    let path_chars = chars_of(path);
    let base_chars = chars_of(base);
    assert(path@.subrange(0, path@.len() as int) =~= path@);
    assert(base@.subrange(0, base@.len() as int) =~= base@);
    if base_chars.len() == 0 {
        let end = end_without_slashes(path_chars.as_slice(), 0, path_chars.len());
        if end == 0 && path_chars.len() > 0 {
            proof {
                reveal_strlit("/");
            }
            return Some(String::from_str("/"));
        }
        return Some(String::from_str(path.substring_char(0, end)));
    }
    let stem = end_without_slashes(base_chars.as_slice(), 0, base_chars.len());
    if !starts_with(path_chars.as_slice(), base_chars.as_slice(), stem) {
        return None;
    }
    if path_chars.len() == stem {
        if stem == 0 {
            return None;
        }
    } else if path_chars[stem] != '/' {
        return None;
    }
    let start = start_without_slashes(path_chars.as_slice(), stem);
    let end = end_without_slashes(path_chars.as_slice(), start, path_chars.len());
    Some(String::from_str(path.substring_char(start, end)))
}

/// The extension of the file that `path` names, if it has one.
pub fn extension(path: &str) -> (ext: Option<String>)
    ensures
        text_of(ext) == extension_of(path@),
{
    let chars = chars_of(path);
    assert(path@.subrange(0, path@.len() as int) =~= path@);
    let end = end_without_slashes(chars.as_slice(), 0, chars.len());
    let start = after_last(chars.as_slice(), end, '/');
    let dot = after_last(chars.as_slice(), end, '.');
    let ghost trimmed = trim_end_slashes(path@);
    let ghost name = file_name_of(path@);
    proof {
        lemma_last_index_of_skip(trimmed, start as int, '.');
    }
    if dot <= start || dot - start == 1 {
        return None;
    }
    if end - start == 2 && chars[start] == '.' && chars[start + 1] == '.' {
        assert(name =~= seq!['.', '.']);
        return None;
    }
    Some(String::from_str(path.substring_char(dot, end)))
}

/// The directory that holds the last component of `path`, if there is one.
pub fn parent(path: &str) -> (dir: Option<String>)
    ensures
        text_of(dir) == parent_of(path@),
{
    let chars = chars_of(path);
    assert(path@.subrange(0, path@.len() as int) =~= path@);
    let end = end_without_slashes(chars.as_slice(), 0, chars.len());
    if end == 0 {
        return None;
    }
    let slash = after_last(chars.as_slice(), end, '/');
    let dir_end = end_without_slashes(chars.as_slice(), 0, slash);
    proof {
        let trimmed = trim_end_slashes(path@);
        assert(trimmed.take(slash as int) =~= path@.take(slash as int));
    }
    if slash > 0 && dir_end == 0 {
        proof {
            reveal_strlit("/");
        }
        return Some(String::from_str("/"));
    }
    Some(String::from_str(path.substring_char(0, dir_end)))
}

/// Where `s` starts with `n` slashes and no more, `trim_start_slashes` takes
/// those away.
pub proof fn lemma_trim_start_skips(s: Seq<char>, n: int)
    requires
        0 <= n <= s.len(),
        forall|k: int| 0 <= k < n ==> s[k] == '/',
        n == s.len() || s[n] != '/',
    ensures
        trim_start_slashes(s) == s.skip(n),
    decreases n,
{
    if n > 0 {
        lemma_trim_start_skips(s.drop_first(), n - 1);
    }
}

/// What `trim_start_slashes` returns does not start with a slash.
pub proof fn lemma_trim_start_slashes(s: Seq<char>)
    ensures
        trim_start_slashes(s).len() > 0 ==> trim_start_slashes(s)[0] != '/',
    decreases s.len(),
{
    if s.len() > 0 && s[0] == '/' {
        lemma_trim_start_slashes(s.drop_first());
    }
}

/// The part of a path below a base neither starts nor ends with a slash.
pub proof fn lemma_relative_part_is_trimmed(path: Seq<char>, base: Seq<char>)
    requires
        base.len() > 0,
        relative_part(path, base) is Some,
    ensures
        relative_part(path, base)->0.len() > 0 ==> relative_part(path, base)->0[0] != '/'
            && relative_part(path, base)->0.last() != '/',
{
    let below = path.skip(trim_end_slashes(base).len() as int);
    lemma_trim_start_slashes(below);
    lemma_trim_end_slashes(trim_start_slashes(below));
}

/// What is placed under a directory is found under it again: the part of
/// `joined(base, rel)` below `base` is `rel`, for every `rel` that neither
/// starts nor ends with a slash.
pub proof fn lemma_relative_part_of_joined(base: Seq<char>, rel: Seq<char>)
    requires
        rel.len() > 0,
        rel[0] != '/',
        rel.last() != '/',
    ensures
        relative_part(joined(base, rel), base) == Some(rel),
{
    if base.len() > 0 {
        let path = joined(base, rel);
        let stem_end = trim_end_slashes(base).len() as int;
        let rel_start = path.len() - rel.len();
        lemma_trim_end_slashes(base);
        lemma_trim_start_skips(path.skip(stem_end), rel_start - stem_end);
    }
}

} // verus!
