use vstd::prelude::*;
use vstd::string::*;

verus! {

/// Where the file name of `path` starts: behind its last `/`, or at 0.
pub open spec fn name_start(path: Seq<char>) -> int
    decreases path.len(),
{
    if path.len() == 0 {
        0
    } else if path.last() == '/' {
        path.len() as int
    } else {
        name_start(path.drop_last())
    }
}

/// The file name of `path`: what follows its last `/`.
pub open spec fn file_name(path: Seq<char>) -> Seq<char> {
    path.skip(name_start(path))
}

/// `path` ends in a name that can be a file's: not empty, not `.` or `..`.
pub open spec fn names_file(path: Seq<char>) -> bool {
    let name = file_name(path);
    name.len() > 0 && name != seq!['.'] && name != seq!['.', '.']
}

/// Where the extension's dot stands: the last `.` of `path` behind index
/// `start`. A dot at `start` itself opens a hidden file's name, no extension.
pub open spec fn dot_at(path: Seq<char>, start: int) -> Option<int>
    decreases path.len(),
{
    if path.len() <= start + 1 || path.len() == 0 {
        None
    } else if path.last() == '.' {
        Some(path.len() - 1)
    } else {
        dot_at(path.drop_last(), start)
    }
}

/// Where the stem of `path` ends: at the extension's dot, or at the end.
pub open spec fn stem_len(path: Seq<char>) -> int {
    match dot_at(path, name_start(path)) {
        Some(dot) => dot,
        None => path.len() as int,
    }
}

/// `path` without the extension of its file name.
pub open spec fn stem(path: Seq<char>) -> Seq<char> {
    path.take(stem_len(path))
}

/// The dot and the extension that `stem` leaves off; empty when there is none.
pub open spec fn extension(path: Seq<char>) -> Seq<char> {
    path.skip(stem_len(path))
}

/// `path` with the extension of its file name replaced by `ext`; with an
/// empty `ext` the extension is taken off. A path that names no file stays.
pub open spec fn with_ext(path: Seq<char>, ext: Seq<char>) -> Seq<char> {
    if !names_file(path) {
        path
    } else if ext.len() == 0 {
        stem(path)
    } else {
        stem(path) + seq!['.'] + ext
    }
}

/// A rest that does not begin with `/`: it can stand below a directory.
pub open spec fn hangs(rest: Seq<char>) -> bool {
    rest.len() == 0 || rest[0] != '/'
}

/// What is left of `path` below the directory `base`, if it lies there:
/// `path` begins with `base` and a single `/`, and the rest follows. Every
/// path lies below the empty directory.
pub open spec fn below(path: Seq<char>, base: Seq<char>) -> Option<Seq<char>> {
    if base.len() == 0 {
        Some(path)
    } else if path == base {
        Some(Seq::empty())
    } else if path.len() > base.len() && path.take(base.len() as int) == base {
        if base.last() == '/' && hangs(path.skip(base.len() as int)) {
            Some(path.skip(base.len() as int))
        } else if base.last() != '/' && path[base.len() as int] == '/' && hangs(
            path.skip(base.len() as int + 1),
        ) {
            Some(path.skip(base.len() as int + 1))
        } else {
            None
        }
    } else {
        None
    }
}

/// `tail` below the directory `base`; an absolute `tail` stands alone.
pub open spec fn joined(base: Seq<char>, tail: Seq<char>) -> Seq<char> {
    if tail.len() > 0 && tail[0] == '/' {
        tail
    } else if base.len() == 0 || base.last() == '/' {
        base + tail
    } else {
        base + seq!['/'] + tail
    }
}

pub proof fn lemma_name_start(path: Seq<char>)
    ensures
        0 <= name_start(path) <= path.len(),
        name_start(path) > 0 ==> path[name_start(path) - 1] == '/',
        forall|j: int| name_start(path) <= j < path.len() ==> path[j] != '/',
    decreases path.len(),
{
    if path.len() > 0 && path.last() != '/' {
        let front = path.drop_last();
        lemma_name_start(front);
        assert forall|j: int| name_start(path) <= j < path.len() implies path[j] != '/' by {
            if j < front.len() {
                assert(front[j] == path[j]);
            }
        }
    }
}

pub proof fn lemma_dot_at(path: Seq<char>, start: int)
    requires
        0 <= start,
    ensures
        match dot_at(path, start) {
            Some(dot) => start < dot < path.len() && path[dot] == '.' && forall|j: int|
                dot < j < path.len() ==> path[j] != '.',
            None => forall|j: int| start < j < path.len() ==> path[j] != '.',
        },
    decreases path.len(),
{
    if path.len() > start + 1 && path.last() != '.' {
        let front = path.drop_last();
        lemma_dot_at(front, start);
        assert forall|j: int| start < j < path.len() && j != path.len() - 1 implies path[j]
            == front[j] by {}
    }
}

/// `path` is relative and ends in a name that can be a file's.
pub open spec fn relative_file(path: Seq<char>) -> bool {
    names_file(path) && path.len() > 0 && path[0] != '/'
}

/// Behind a directory that ends in `/`, the file name starts where it
/// starts in the path that was put there.
pub proof fn lemma_name_start_behind(dir: Seq<char>, rel: Seq<char>)
    requires
        dir.len() > 0,
        dir.last() == '/',
    ensures
        name_start(dir + rel) == dir.len() + name_start(rel),
    decreases rel.len(),
{
    if rel.len() == 0 {
        assert(dir + rel =~= dir);
    } else {
        assert((dir + rel).last() == rel.last());
        assert((dir + rel).drop_last() =~= dir + rel.drop_last());
        if rel.last() != '/' {
            lemma_name_start_behind(dir, rel.drop_last());
        }
    }
}

/// Behind a directory, the extension's dot moves by the directory's length.
pub proof fn lemma_dot_at_behind(dir: Seq<char>, rel: Seq<char>, start: int)
    requires
        0 <= start,
    ensures
        dot_at(dir + rel, dir.len() + start) == match dot_at(rel, start) {
            Some(dot) => Some(dir.len() + dot),
            None => None,
        },
    decreases rel.len(),
{
    if rel.len() > start + 1 {
        assert((dir + rel).last() == rel.last());
        assert((dir + rel).drop_last() =~= dir + rel.drop_last());
        if rel.last() != '.' {
            lemma_dot_at_behind(dir, rel.drop_last(), start);
        }
    }
}

/// Replacing the extension of a path behind a directory that ends in `/`
/// leaves the directory alone.
pub proof fn lemma_with_ext_behind(dir: Seq<char>, rel: Seq<char>, ext: Seq<char>)
    requires
        dir.len() > 0,
        dir.last() == '/',
    ensures
        names_file(dir + rel) == names_file(rel),
        stem(dir + rel) == dir + stem(rel),
        with_ext(dir + rel, ext) == dir + with_ext(rel, ext),
{
    lemma_name_start(rel);
    lemma_name_start_behind(dir, rel);
    lemma_dot_at(rel, name_start(rel));
    lemma_dot_at_behind(dir, rel, name_start(rel));
    assert(file_name(dir + rel) =~= file_name(rel));
    assert(stem_len(dir + rel) == dir.len() + stem_len(rel));
    assert(stem(dir + rel) =~= dir + stem(rel));
    assert(with_ext(dir + rel, ext) =~= dir + with_ext(rel, ext));
}

/// What stands between equal ends of equal texts is equal.
pub proof fn lemma_middle(front: Seq<char>, x: Seq<char>, y: Seq<char>, back: Seq<char>)
    requires
        front + x + back == front + y + back,
    ensures
        x == y,
{
    assert((front + x + back).len() == front.len() + x.len() + back.len());
    assert((front + y + back).len() == front.len() + y.len() + back.len());
    assert(x.len() == y.len());
    assert forall|i: int| 0 <= i < x.len() implies x[i] == y[i] by {
        assert((front + x + back)[front.len() + i] == x[i]);
        assert((front + y + back)[front.len() + i] == y[i]);
    }
    assert(x =~= y);
}

/// Two paths with the same non-empty rest below one directory are the
/// same path.
pub proof fn lemma_below_decides(p: Seq<char>, q: Seq<char>, base: Seq<char>)
    requires
        below(p, base) is Some,
        below(p, base) == below(q, base),
        below(p, base)->Some_0.len() > 0,
    ensures
        p == q,
{
    if base.len() > 0 {
        let n = base.len() as int;
        let rest = below(p, base)->Some_0;
        if base.last() == '/' {
            assert(p =~= p.take(n) + rest);
            assert(q =~= q.take(n) + rest);
        } else {
            assert(p =~= p.take(n) + seq!['/'] + rest);
            assert(q =~= q.take(n) + seq!['/'] + rest);
        }
    }
}

/// The index at which the file name of `path` starts.
pub fn file_name_start(path: &str) -> (start: usize)
    ensures
        start == name_start(path@),
        start <= path@.len(),
{
    let mut i: usize = path.unicode_len();
    proof {
        assert(path@.take(i as int) =~= path@);
        lemma_name_start(path@);
    }
    while i > 0
        invariant
            i <= path@.len(),
            name_start(path@.take(i as int)) == name_start(path@),
            0 <= name_start(path@) <= path@.len(),
        decreases i,
    {
        if path.get_char(i - 1) == '/' {
            return i;
        }
        assert(path@.take(i as int).drop_last() =~= path@.take(i - 1));
        i -= 1;
    }
    i
}

/// Whether `path` ends in a name that can be a file's.
pub fn has_file_name(path: &str) -> (yes: bool)
    ensures
        yes == names_file(path@),
{
    let start = file_name_start(path);
    let n = path.unicode_len();
    let ghost name = file_name(path@);
    if n == start {
        false
    } else if n - start == 1 {
        let only = path.get_char(start);
        assert(name =~= seq![only]);
        assert(seq![only][0] == only);
        only != '.'
    } else if n - start == 2 {
        let first = path.get_char(start);
        let second = path.get_char(start + 1);
        assert(name =~= seq![first, second]);
        assert(seq![first, second][0] == first && seq![first, second][1] == second);
        first != '.' || second != '.'
    } else {
        assert(name.len() > 2);
        true
    }
}

/// The length of `path` without the extension of its file name.
pub fn stem_length(path: &str) -> (len: usize)
    ensures
        len == stem_len(path@),
        len <= path@.len(),
{
    let start = file_name_start(path);
    let n = path.unicode_len();
    let mut i: usize = n;
    proof {
        assert(path@.take(i as int) =~= path@);
        lemma_dot_at(path@, start as int);
    }
    while i > start && i - start > 1
        invariant
            start == name_start(path@),
            start <= path@.len(),
            i <= path@.len(),
            n == path@.len(),
            dot_at(path@.take(i as int), start as int) == dot_at(path@, start as int),
        decreases i,
    {
        if path.get_char(i - 1) == '.' {
            assert(path@.take(i as int).last() == '.');
            return i - 1;
        }
        assert(path@.take(i as int).drop_last() =~= path@.take(i - 1));
        i -= 1;
    }
    n
}

/// Replaces the extension of the file that `path` names.
pub fn with_extension(path: &str, ext: &str) -> (out: String)
    ensures
        out@ == with_ext(path@, ext@),
{
    if !has_file_name(path) {
        return String::from_str(path);
    }
    let cut = stem_length(path);
    let mut out = String::from_str(path.substring_char(0, cut));
    if ext.unicode_len() > 0 {
        out.append(".");
        out.append(ext);
        proof {
            reveal_strlit(".");
            assert("."@ =~= seq!['.']);
        }
    }
    out
}

/// Whether the first `n` characters of `path` are those of `base`.
fn starts_with(path: &str, base: &str, n: usize) -> (yes: bool)
    requires
        n == base@.len(),
        n <= path@.len(),
    ensures
        yes == (path@.take(n as int) == base@),
{
    let mut i: usize = 0;
    while i < n
        invariant
            i <= n,
            n == base@.len(),
            n <= path@.len(),
            forall|j: int| 0 <= j < i ==> path@[j] == base@[j],
        decreases n - i,
    {
        if path.get_char(i) != base.get_char(i) {
            assert(path@.take(n as int)[i as int] != base@[i as int]);
            return false;
        }
        i += 1;
    }
    assert(path@.take(n as int) =~= base@);
    true
}

/// The part of `path` below the directory `base`; `None` when `path` does
/// not lie there.
pub fn strip_prefix(path: &str, base: &str) -> (rest: Option<String>)
    ensures
        match below(path@, base@) {
            Some(text) => rest is Some && rest->Some_0@ == text,
            None => rest is None,
        },
{
    let n = path.unicode_len();
    let m = base.unicode_len();
    if m == 0 {
        return Some(String::from_str(path));
    }
    if n < m {
        assert(path@ != base@);
        return None;
    }
    if !starts_with(path, base, m) {
        assert(path@ == base@ ==> path@.take(m as int) =~= base@);
        return None;
    }
    if n == m {
        assert(path@.take(m as int) =~= path@);
        return Some(String::new());
    }
    assert(path@ != base@);
    let from = if base.get_char(m - 1) == '/' {
        m
    } else if path.get_char(m) == '/' {
        m + 1
    } else {
        return None;
    };
    if from < n && path.get_char(from) == '/' {
        assert(path@.skip(from as int)[0] == '/');
        return None;
    }
    if from < n {
        assert(path@.skip(from as int)[0] == path@[from as int]);
    }
    assert(path@.subrange(from as int, n as int) =~= path@.skip(from as int));
    Some(String::from_str(path.substring_char(from, n)))
}

/// The path of `tail` below the directory `base`.
pub fn join(base: &str, tail: &str) -> (out: String)
    ensures
        out@ == joined(base@, tail@),
{
    if tail.unicode_len() > 0 && tail.get_char(0) == '/' {
        return String::from_str(tail);
    }
    let n = base.unicode_len();
    let mut out = String::from_str(base);
    if n > 0 && base.get_char(n - 1) != '/' {
        out.append("/");
        proof {
            reveal_strlit("/");
            assert("/"@ =~= seq!['/']);
        }
    }
    out.append(tail);
    out
}

} // verus!
