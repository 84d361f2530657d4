//! Relative paths as sequences of characters: base name, parent directory,
//! joining, and stripping of the workspace root.

use vstd::prelude::*;
use vstd::string::*;

verus! {

/// Position of the last `/` of `s`, or `-1` where it has none.
pub open spec fn last_separator(s: Seq<char>) -> int
    decreases s.len(),
{
    if s.len() == 0 {
        -1
    } else if s.last() == '/' {
        s.len() - 1
    } else {
        last_separator(s.drop_last())
    }
}

/// What `last_separator` finds is a `/`, and no `/` stands behind it.
pub proof fn lemma_last_separator(s: Seq<char>)
    ensures
        -1 <= last_separator(s) < s.len(),
        last_separator(s) >= 0 ==> s[last_separator(s)] == '/',
        forall|j: int| last_separator(s) < j < s.len() ==> s[j] != '/',
    decreases s.len(),
{
    if s.len() > 0 && s.last() != '/' {
        let t = s.drop_last();
        lemma_last_separator(t);
        assert forall|j: int| last_separator(s) < j < s.len() implies s[j] != '/' by {
            if j < t.len() {
                assert(t[j] == s[j]);
            }
        }
    }
}

/// A position that holds a `/` with none behind it is the last separator.
pub proof fn lemma_last_separator_is(s: Seq<char>, k: int)
    requires
        -1 <= k < s.len(),
        k >= 0 ==> s[k] == '/',
        forall|j: int| k < j < s.len() ==> s[j] != '/',
    ensures
        last_separator(s) == k,
{
    lemma_last_separator(s);
}

/// The last component of a path: what follows its last `/`.
pub open spec fn file_name_of(s: Seq<char>) -> Seq<char> {
    s.subrange(last_separator(s) + 1, s.len() as int)
}

/// The directory that holds a path: what precedes its last `/`, or `None`
/// for an entry that sits directly under the workspace root.
pub open spec fn parent_of(s: Seq<char>) -> Option<Seq<char>> {
    if last_separator(s) < 0 {
        None
    } else {
        Some(s.subrange(0, last_separator(s)))
    }
}

/// `name` placed in the directory `parent`, or at the root for `None`.
pub open spec fn child_of(parent: Option<Seq<char>>, name: Seq<char>) -> Seq<char> {
    match parent {
        None => name,
        Some(p) => p + seq!['/'] + name,
    }
}

/// The path of `absolute` below `root`: `root` must be a proper prefix that
/// ends at a component boundary.
pub open spec fn strip_root(root: Seq<char>, absolute: Seq<char>) -> Option<Seq<char>> {
    if root.len() > 0 && root.last() == '/' {
        if root.len() < absolute.len() && absolute.subrange(0, root.len() as int) == root {
            Some(absolute.subrange(root.len() as int, absolute.len() as int))
        } else {
            None
        }
    } else if root.len() + 1 < absolute.len() && absolute.subrange(0, root.len() as int) == root
        && absolute[root.len() as int] == '/' {
        Some(absolute.subrange(root.len() as int + 1, absolute.len() as int))
    } else {
        None
    }
}

/// Names that the handler never synchronises: hidden files and backups.
pub open spec fn is_filtered_name(name: Seq<char>) -> bool {
    name.len() > 0 && (name[0] == '.' || name.last() == '~')
}

/// The characters that mark a name as one that the startup walk skips.
pub open spec fn is_skip_mark(c: char) -> bool {
    c == '.' || c == '~' || c == '#'
}

/// Names that the startup walk skips, together with what lies below them.
pub open spec fn is_skipped_name(name: Seq<char>) -> bool {
    name.len() > 0 && is_skip_mark(name[0])
}

/// Whether the path, or a directory above it, has a name that the startup
/// walk skips: some component starts with a skip mark.
pub open spec fn under_skipped(path: Seq<char>) -> bool {
    exists|i: int| 0 <= i < path.len() && #[trigger] starts_skipped(path, i)
}

/// Whether a component with a skipped name starts at position `i`.
pub open spec fn starts_skipped(path: Seq<char>, i: int) -> bool {
    (i == 0 || path[i - 1] == '/') && is_skip_mark(path[i])
}

/// Whether a component starts at position `i` that a relative path
/// cannot have: an empty one, or `..`.
pub open spec fn starts_bad_component(path: Seq<char>, i: int) -> bool {
    &&& i == 0 || path[i - 1] == '/'
    &&& {
        ||| i == path.len()
        ||| path[i] == '/'
        ||| (i + 2 <= path.len() && path[i] == '.' && path[i + 1] == '.' && (i + 2 == path.len()
            || path[i + 2] == '/'))
    }
}

/// Whether `path` names something below the workspace root: it is made
/// of components with `/` between them, none of them empty and none of
/// them `..`. So it is not empty and does not start or end with `/`.
pub open spec fn is_relative(path: Seq<char>) -> bool {
    forall|i: int| 0 <= i <= path.len() ==> !#[trigger] starts_bad_component(path, i)
}

/// Whether `name` is the name of one file or directory: a relative path
/// of a single component.
pub open spec fn is_name(name: Seq<char>) -> bool {
    is_relative(name) && last_separator(name) < 0
}

/// What a list of strings holds, string by string.
pub open spec fn texts_of(list: Seq<String>) -> Seq<Seq<char>> {
    list.map_values(|s: String| s@)
}

/// Joining a path's parent and base name gives the path back.
pub proof fn lemma_split_join(s: Seq<char>)
    ensures
        child_of(parent_of(s), file_name_of(s)) == s,
        last_separator(file_name_of(s)) == -1,
{
    lemma_last_separator(s);
    let k = last_separator(s);
    let name = file_name_of(s);
    lemma_last_separator_is(name, -1);
    if k >= 0 {
        assert(s.subrange(0, k) + seq!['/'] + name =~= s);
    } else {
        assert(name =~= s);
    }
}

/// A name without `/` placed in a directory has that directory as parent
/// and that name as base name.
pub proof fn lemma_join_split(parent: Option<Seq<char>>, name: Seq<char>)
    requires
        last_separator(name) == -1,
    ensures
        parent_of(child_of(parent, name)) == parent,
        file_name_of(child_of(parent, name)) == name,
{
    lemma_last_separator(name);
    let s = child_of(parent, name);
    match parent {
        None => {
            assert(name.subrange(0, name.len() as int) =~= name);
        },
        Some(p) => {
            let k = p.len() as int;
            assert forall|j: int| k < j < s.len() implies s[j] != '/' by {
                assert(s[j] == name[j - k - 1]);
            }
            lemma_last_separator_is(s, k);
            assert(s.subrange(0, k) =~= p);
            assert(s.subrange(k + 1, s.len() as int) =~= name);
        },
    }
}

/// Finds the last `/` of `path`; the result is the number of characters up
/// to and including it, so `0` where there is none.
fn after_last_separator(path: &str) -> (cut: usize)
    ensures
        cut as int == last_separator(path@) + 1,
{
    let n: usize = path.unicode_len();
    let mut i: usize = n;
    while i > 0
        invariant
            i <= n,
            n == path@.len(),
            forall|j: int| i <= j < n ==> path@[j] != '/',
        decreases i,
    {
        if path.get_char(i - 1) == '/' {
            proof {
                lemma_last_separator_is(path@, i - 1);
            }
            return i;
        }
        i -= 1;
    }
    proof {
        lemma_last_separator_is(path@, -1);
    }
    0
}

/// The last component of `path`.
pub fn file_name(path: &str) -> (name: String)
    ensures
        name@ == file_name_of(path@),
{
    let n: usize = path.unicode_len();
    let cut: usize = after_last_separator(path);
    proof {
        lemma_last_separator(path@);
    }
    path.substring_char(cut, n).to_owned()
}

/// The directory that holds `path`, or `None` for a top-level entry.
pub fn parent(path: &str) -> (dir: Option<String>)
    ensures
        match dir {
            Some(d) => parent_of(path@) == Some(d@),
            None => parent_of(path@).is_none(),
        },
{
    let cut: usize = after_last_separator(path);
    proof {
        lemma_last_separator(path@);
    }
    if cut == 0 {
        None
    } else {
        Some(path.substring_char(0, cut - 1).to_owned())
    }
}

/// `name` placed in `dir`, or at the root for `None`.
pub fn join(dir: &Option<String>, name: &str) -> (path: String)
    ensures
        path@ == child_of(
            match dir {
                Some(d) => Some(d@),
                None => None,
            },
            name@,
        ),
{
    match dir {
        None => name.to_owned(),
        Some(d) => {
            let mut path: String = d.clone();
            path.append("/");
            path.append(name);
            proof {
                reveal_strlit("/");
                assert("/"@ =~= seq!['/']);
            }
            path
        },
    }
}

/// Whether the handler drops messages about `path`: its base name starts
/// with `.` or ends with `~`.
pub fn is_filtered(path: &str) -> (b: bool)
    ensures
        b == is_filtered_name(file_name_of(path@)),
{
    let n: usize = path.unicode_len();
    let cut: usize = after_last_separator(path);
    proof {
        lemma_last_separator(path@);
    }
    if cut == n {
        false
    } else {
        path.get_char(cut) == '.' || path.get_char(n - 1) == '~'
    }
}

/// Whether the startup walk skips an entry with this base name: one that
/// starts with `.`, `~` or `#`.
pub fn is_skipped(name: &str) -> (b: bool)
    ensures
        b == is_skipped_name(name@),
{
    if name.unicode_len() == 0 {
        false
    } else {
        let c: char = name.get_char(0);
        c == '.' || c == '~' || c == '#'
    }
}

/// Whether the path, or a directory above it, has a name that the startup
/// walk skips.
pub fn is_under_skipped(path: &str) -> (b: bool)
    ensures
        b == under_skipped(path@),
{
    let n: usize = path.unicode_len();
    let mut i: usize = 0;
    let mut at_start: bool = true;
    while i < n
        invariant
            i <= n,
            n == path@.len(),
            at_start == (i == 0 || path@[i - 1] == '/'),
            forall|j: int| 0 <= j < i ==> !#[trigger] starts_skipped(path@, j),
        decreases n - i,
    {
        let c: char = path.get_char(i);
        if at_start && (c == '.' || c == '~' || c == '#') {
            assert(starts_skipped(path@, i as int));
            return true;
        }
        at_start = c == '/';
        i += 1;
    }
    false
}

/// Whether `path` names something below the workspace root.
pub fn is_relative_path(path: &str) -> (b: bool)
    ensures
        b == is_relative(path@),
{
    let n: usize = path.unicode_len();
    let mut i: usize = 0;
    let mut at_start: bool = true;
    while i < n
        invariant
            i <= n,
            n == path@.len(),
            at_start == (i == 0 || path@[i - 1] == '/'),
            forall|j: int| 0 <= j < i ==> !#[trigger] starts_bad_component(path@, j),
        decreases n - i,
    {
        let c: char = path.get_char(i);
        if at_start {
            if c == '/' {
                assert(starts_bad_component(path@, i as int));
                return false;
            }
            if c == '.' && n - i >= 2 && path.get_char(i + 1) == '.' {
                if n - i == 2 || path.get_char(i + 2) == '/' {
                    assert(starts_bad_component(path@, i as int));
                    return false;
                }
            }
        }
        at_start = c == '/';
        i += 1;
    }
    if at_start {
        assert(starts_bad_component(path@, n as int));
        return false;
    }
    true
}

/// Whether `name` is the name of one file or directory.
pub fn is_file_name(name: &str) -> (b: bool)
    ensures
        b == is_name(name@),
{
    is_relative_path(name) && after_last_separator(name) == 0
}

/// Whether the first `n` characters of `whole` are those of `prefix`.
fn has_prefix(whole: &str, prefix: &str, n: usize) -> (b: bool)
    requires
        n == prefix@.len(),
        n <= whole@.len(),
    ensures
        b == (whole@.subrange(0, n as int) == prefix@),
{
    let mut i: usize = 0;
    while i < n
        invariant
            i <= n,
            n == prefix@.len(),
            n <= whole@.len(),
            forall|j: int| 0 <= j < i ==> whole@[j] == prefix@[j],
        decreases n - i,
    {
        if whole.get_char(i) != prefix.get_char(i) {
            assert(whole@.subrange(0, n as int)[i as int] != prefix@[i as int]);
            return false;
        }
        i += 1;
    }
    assert(whole@.subrange(0, n as int) =~= prefix@);
    true
}

/// The path of `absolute` relative to `root`, or `None` where `absolute`
/// is not strictly below `root`.
pub fn strip_prefix(root: &str, absolute: &str) -> (rel: Option<String>)
    ensures
        match rel {
            Some(r) => strip_root(root@, absolute@) == Some(r@),
            None => strip_root(root@, absolute@).is_none(),
        },
{
    let r: usize = root.unicode_len();
    let a: usize = absolute.unicode_len();
    if r >= a {
        return None;
    }
    if !has_prefix(absolute, root, r) {
        return None;
    }
    if r > 0 && root.get_char(r - 1) == '/' {
        Some(absolute.substring_char(r, a).to_owned())
    } else if a - r > 1 && absolute.get_char(r) == '/' {
        Some(absolute.substring_char(r + 1, a).to_owned())
    } else {
        None
    }
}

} // verus!
