//! Paths as text, with `/` between their components. Nothing here touches a file system.

use crate::text::{
    is_str, joined, pieces, rows, slice, split, strs, to_chars,
    to_string,
};
use vstd::prelude::*;

verus! {

/// Whether `p` starts at the root.
pub open spec fn is_absolute(p: Seq<char>) -> bool {
    p.len() > 0 && p[0] == '/'
}

/// The index after the last `c` in `s`: the length of the shortest prefix of `s` after which
/// no `c` follows. It is 0 where `s` holds no `c`.
pub open spec fn after_last(s: Seq<char>, c: char) -> int
    decreases s.len(),
{
    if s.len() == 0 || s.last() == c {
        s.len() as int
    } else {
        after_last(s.drop_last(), c)
    }
}

/// Where `k` is 0 or follows a `c`, and no `c` stands from `k` on, `k` is the index after
/// the last `c`.
pub proof fn lemma_after_last(s: Seq<char>, c: char, k: int)
    requires
        0 <= k <= s.len(),
        k == 0 || s[k - 1] == c,
        forall|j: int| k <= j < s.len() ==> #[trigger] s[j] != c,
    ensures
        after_last(s, c) == k,
    decreases s.len() - k,
{
    if k < s.len() {
        let t = s.drop_last();
        assert(s.last() == s[s.len() - 1]);
        if k > 0 {
            assert(t[k - 1] == s[k - 1]);
        }
        assert forall|j: int| k <= j < t.len() implies #[trigger] t[j] != c by {
            assert(t[j] == s[j]);
        }
        lemma_after_last(t, c, k);
    }
}

/// The index after the last `c` in `v`.
pub fn rfind_end(v: &Vec<char>, c: char) -> (k: usize)
    ensures
        k == after_last(v@, c),
        k <= v.len(),
        k == 0 || v@[k - 1] == c,
        forall|j: int| k <= j < v.len() ==> #[trigger] v@[j] != c,
{
    let mut k: usize = v.len();
    while k > 0 && v[k - 1] != c
        invariant
            k <= v.len(),
            forall|j: int| k <= j < v.len() ==> #[trigger] v@[j] != c,
        decreases k,
    {
        k -= 1;
    }
    proof {
        lemma_after_last(v@, c, k as int);
    }
    k
}

/// The last component of `p`: what follows its last separator, all of `p` where it has none.
pub open spec fn base_name(p: Seq<char>) -> Seq<char> {
    p.skip(after_last(p, '/'))
}

/// The directory part of `p`: what stands before its last separator. It is the root for a
/// path directly under the root, and empty for a path without a separator.
pub open spec fn parent_dir(p: Seq<char>) -> Seq<char> {
    let k = after_last(p, '/');
    if k == 0 {
        Seq::empty()
    } else if k == 1 {
        seq!['/']
    } else {
        p.take(k - 1)
    }
}

/// `p` appended to the directory `base`. An absolute `p` replaces `base`; otherwise one
/// separator stands between the two, unless `base` is empty or ends with one already.
pub open spec fn joined_path(base: Seq<char>, p: Seq<char>) -> Seq<char> {
    if is_absolute(p) {
        p
    } else if base.len() == 0 || base.last() == '/' {
        base + p
    } else {
        base.push('/') + p
    }
}

/// The extension of the file name `name`: what follows its last dot. A name without a dot,
/// a name whose only dot is its first character, and the name `..` have none.
pub open spec fn extension(name: Seq<char>) -> Option<Seq<char>> {
    let k = after_last(name, '.');
    if k <= 1 || name == seq!['.', '.'] {
        None
    } else {
        Some(name.skip(k))
    }
}

/// `name` without its extension and the dot before it; `name` itself where it has no
/// extension.
pub open spec fn stem(name: Seq<char>) -> Seq<char> {
    if extension(name) is Some {
        name.take(after_last(name, '.') - 1)
    } else {
        name
    }
}

/// What is left of the first `n` components after the empty ones and the `.` are dropped
/// and each `..` has removed the component before it, if there is one.
pub open spec fn resolved(parts: Seq<Seq<char>>, n: int) -> Seq<Seq<char>>
    decreases n,
{
    if n <= 0 {
        Seq::empty()
    } else {
        let prev = resolved(parts, n - 1);
        let c = parts[n - 1];
        if c.len() == 0 || c == seq!['.'] {
            prev
        } else if c == seq!['.', '.'] {
            if prev.len() > 0 {
                prev.drop_last()
            } else {
                prev
            }
        } else {
            prev.push(c)
        }
    }
}

/// `p` with its `.` components, empty components and trailing separators dropped and each
/// `..` resolved against the component before it. An absolute path stays absolute; a `..`
/// with nothing before it is dropped.
pub open spec fn normalized(p: Seq<char>) -> Seq<char> {
    let parts = pieces(p, '/');
    let kept = joined(resolved(parts, parts.len() as int), seq!['/']);
    if is_absolute(p) {
        seq!['/'] + kept
    } else {
        kept
    }
}

/// Appends `more` to `out`.
pub fn extend(out: &mut Vec<char>, more: &Vec<char>)
    ensures
        final(out)@ == old(out)@ + more@,
{
    let mut k: usize = 0;
    while k < more.len()
        invariant
            k <= more.len(),
            out@ == old(out)@ + more@.take(k as int),
        decreases more.len() - k,
    {
        out.push(more[k]);
        k += 1;
        assert(more@.take(k as int) =~= more@.take(k - 1).push(more@[k - 1]));
    }
    assert(more@.take(more.len() as int) =~= more@);
}

/// The sequences of `parts` in order, with `sep` between each two neighbours.
pub fn join_rows(parts: &Vec<Vec<char>>, sep: char) -> (out: Vec<char>)
    ensures
        out@ == joined(rows(parts@), seq![sep]),
{
    let mut out: Vec<char> = Vec::new();
    let mut i: usize = 0;
    while i < parts.len()
        invariant
            i <= parts.len(),
            out@ == joined(rows(parts@).take(i as int), seq![sep]),
        decreases parts.len() - i,
    {
        proof {
            let next = rows(parts@).take(i + 1);
            assert(next.drop_last() =~= rows(parts@).take(i as int));
            assert(next.last() == parts@[i as int]@);
        }
        if i > 0 {
            out.push(sep);
            assert(out@ =~= joined(rows(parts@).take(i as int), seq![sep]) + seq![sep]);
        }
        extend(&mut out, &parts[i]);
        i += 1;
    }
    assert(rows(parts@).take(parts.len() as int) =~= rows(parts@));
    out
}

/// `p` appended to the directory `base`.
pub fn join_path(base: &Vec<char>, p: &Vec<char>) -> (out: Vec<char>)
    ensures
        out@ == joined_path(base@, p@),
{
    if p.len() > 0 && p[0] == '/' {
        return slice(p, 0, p.len());
    }
    let mut out = slice(base, 0, base.len());
    if base.len() > 0 && base[base.len() - 1] != '/' {
        out.push('/');
    }
    extend(&mut out, p);
    assert(base@.subrange(0, base.len() as int) =~= base@);
    out
}

/// The directory part of `p`.
pub fn parent(p: &Vec<char>) -> (out: Vec<char>)
    ensures
        out@ == parent_dir(p@),
{
    let k = rfind_end(p, '/');
    if k == 0 {
        Vec::new()
    } else if k == 1 {
        let out: Vec<char> = vec!['/'];
        assert(out@ =~= seq!['/']);
        out
    } else {
        slice(p, 0, k - 1)
    }
}

/// `p` in normal form.
pub fn normalize(p: &Vec<char>) -> (out: Vec<char>)
    ensures
        out@ == normalized(p@),
{
    let parts = split(p, '/');
    let ghost ps = rows(parts@);
    let mut stack: Vec<Vec<char>> = Vec::new();
    let mut i: usize = 0;
    while i < parts.len()
        invariant
            i <= parts.len(),
            ps == rows(parts@),
            rows(stack@) == resolved(ps, i as int),
        decreases parts.len() - i,
    {
        let c = &parts[i];
        assert(ps[i as int] == c@);
        let is_dot = c.len() == 1 && c[0] == '.';
        let is_dots = c.len() == 2 && c[0] == '.' && c[1] == '.';
        assert(is_dot == (c@ == seq!['.'])) by {
            if is_dot {
                assert(c@ =~= seq!['.']);
            }
        }
        assert(is_dots == (c@ == seq!['.', '.'])) by {
            if is_dots {
                assert(c@ =~= seq!['.', '.']);
            }
        }
        if c.len() == 0 || is_dot {
        } else if is_dots {
            if stack.len() > 0 {
                assert(rows(stack@.drop_last()) =~= rows(stack@).drop_last());
                stack.pop();
            }
        } else {
            let copy = slice(c, 0, c.len());
            assert(copy@ =~= c@);
            assert(rows(stack@.push(copy)) =~= rows(stack@).push(copy@));
            stack.push(copy);
        }
        i += 1;
    }
    let kept = join_rows(&stack, '/');
    if p.len() > 0 && p[0] == '/' {
        let mut out: Vec<char> = vec!['/'];
        assert(out@ =~= seq!['/']);
        extend(&mut out, &kept);
        out
    } else {
        kept
    }
}

/// Normalises a path without looking at the file system: `.` components, empty components
/// and trailing separators are dropped, and each `..` removes the component before it.
pub fn normalize_path(path: &str) -> (out: String)
    ensures
        out@ == normalized(path@),
{
    let p = to_chars(path);
    let n = normalize(&p);
    to_string(&n)
}

/// Whether one of `list` holds the characters of `x`.
pub fn contains_str(list: &Vec<String>, x: &Vec<char>) -> (r: bool)
    ensures
        r == strs(list@).contains(x@),
{
    let mut i: usize = 0;
    while i < list.len()
        invariant
            i <= list.len(),
            forall|j: int| 0 <= j < i ==> strs(list@)[j] != x@,
        decreases list.len() - i,
    {
        if is_str(x, list[i].as_str()) {
            assert(strs(list@)[i as int] == x@);
            return true;
        }
        i += 1;
    }
    false
}

/// The name under which an entry of a template directory is written out.
///
/// A directory keeps its last component. A file keeps it too, unless its extension is one
/// of `needles`: then the name loses that extension and the dot before it.
pub open spec fn output_name(path: Seq<char>, is_dir: bool, needles: Seq<Seq<char>>) -> Seq<
    char,
> {
    let name = base_name(path);
    if !is_dir && extension(name) is Some && needles.contains(extension(name)->0) {
        stem(name)
    } else {
        name
    }
}

/// The name under which the entry at `haystack` is written out, given whether the entry is
/// a directory and the extensions `needles` that mark template files.
pub fn remove_template_ext_or_dir(haystack: &str, is_dir: bool, needles: &Vec<String>) -> (out:
    String)
    ensures
        out@ == output_name(haystack@, is_dir, strs(needles@)),
{
    let p = to_chars(haystack);
    let start = rfind_end(&p, '/');
    let name = slice(&p, start, p.len());
    assert(name@ =~= base_name(p@));
    if is_dir {
        return to_string(&name);
    }
    let k = rfind_end(&name, '.');
    let is_dots = name.len() == 2 && name[0] == '.' && name[1] == '.';
    assert(is_dots == (name@ == seq!['.', '.'])) by {
        if is_dots {
            assert(name@ =~= seq!['.', '.']);
        }
    }
    if k <= 1 || is_dots {
        return to_string(&name);
    }
    let ext = slice(&name, k, name.len());
    assert(ext@ =~= name@.skip(k as int));
    if contains_str(needles, &ext) {
        let short = slice(&name, 0, k - 1);
        to_string(&short)
    } else {
        to_string(&name)
    }
}

/// The index after the last `c` lies within `s`, and behind a `c` where it is not 0.
pub proof fn lemma_after_last_bounds(s: Seq<char>, c: char)
    ensures
        0 <= after_last(s, c) <= s.len(),
        after_last(s, c) > 0 ==> s[after_last(s, c) - 1] == c,
        s.len() > 0 && s[0] == c ==> after_last(s, c) >= 1,
    decreases s.len(),
{
    if s.len() > 0 && s.last() != c {
        lemma_after_last_bounds(s.drop_last(), c);
    }
}

/// The directory part of an absolute path is absolute.
pub proof fn lemma_parent_of_absolute(p: Seq<char>)
    requires
        is_absolute(p),
    ensures
        is_absolute(parent_dir(p)),
{
    lemma_after_last_bounds(p, '/');
}

} // verus!
