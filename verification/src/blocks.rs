//! Host-conditional blocks inside the text of a template file.
//!
//! A line that holds the start marker opens a block and lists, after the marker, the hosts
//! for which the block is meant. The next marker line closes the block and has to hold the
//! end marker. Marker lines are never part of the output; the lines of a block are part of
//! it only for the hosts listed.

use crate::error::Error;
use crate::text::{
    contains_sub, find_sub, first_occurrence, lines, lines_of, occurs, occurs_at, pieces, rows, same, slice,
    split_trimmed, trimmed_each,
};
use vstd::prelude::*;

verus! {

/// The marker that opens a block.
pub open spec fn start_marker() -> Seq<char> {
    seq!['@', '@']
}

/// The marker that closes a block.
pub open spec fn end_marker() -> Seq<char> {
    seq!['@', '!']
}

/// Whether `line` holds the start marker.
pub open spec fn opens(line: Seq<char>) -> bool {
    occurs(line, start_marker())
}

/// Whether `line` holds the end marker.
pub open spec fn closes(line: Seq<char>) -> bool {
    occurs(line, end_marker())
}

/// Whether `line` holds one of the two markers.
pub open spec fn is_marker(line: Seq<char>) -> bool {
    opens(line) || closes(line)
}

/// Whether one of `lines` is a marker line.
pub open spec fn has_markers(lines: Seq<Seq<char>>) -> bool {
    exists|i: int| 0 <= i < lines.len() && is_marker(#[trigger] lines[i])
}

/// The hosts that an opening line lists: the text after its first start marker, split at
/// commas, each part without the whitespace around it.
pub open spec fn allowlist(line: Seq<char>) -> Seq<Seq<char>> {
    trimmed_each(pieces(line.skip(first_occurrence(line, start_marker()) + 2), ','))
}

/// How many of the first `n` lines hold the start marker.
pub open spec fn count_opening(lines: Seq<Seq<char>>, n: int) -> nat
    decreases n,
{
    if n <= 0 {
        0
    } else {
        count_opening(lines, n - 1) + if opens(lines[n - 1]) {
            1nat
        } else {
            0nat
        }
    }
}

/// How many of the first `n` lines hold the end marker.
pub open spec fn count_closing(lines: Seq<Seq<char>>, n: int) -> nat
    decreases n,
{
    if n <= 0 {
        0
    } else {
        count_closing(lines, n - 1) + if closes(lines[n - 1]) {
            1nat
        } else {
            0nat
        }
    }
}

/// Whether position `i` lies inside a block: an odd number of marker lines stands before it.
pub open spec fn inside(lines: Seq<Seq<char>>, i: int) -> bool
    decreases i,
{
    if i <= 0 {
        false
    } else {
        inside(lines, i - 1) != is_marker(lines[i - 1])
    }
}

/// The index of the last marker line before position `i`; -1 where there is none.
pub open spec fn opener(lines: Seq<Seq<char>>, i: int) -> int
    decreases i,
{
    if i <= 0 {
        -1
    } else if is_marker(lines[i - 1]) {
        i - 1
    } else {
        opener(lines, i - 1)
    }
}

/// Whether each of the first `n` lines that is a marker line has the marker of its place:
/// the start marker outside a block, the end marker inside one.
pub open spec fn paired(lines: Seq<Seq<char>>, n: int) -> bool {
    forall|i: int|
        0 <= i < n && is_marker(#[trigger] lines[i]) ==> if inside(lines, i) {
            closes(lines[i])
        } else {
            opens(lines[i])
        }
}

/// Whether the markers of `lines` pair up: as many lines hold the start marker as hold the
/// end marker, every block is opened by a start marker and closed by an end marker, and no
/// block is left open.
pub open spec fn balanced(lines: Seq<Seq<char>>) -> bool {
    &&& count_opening(lines, lines.len() as int) == count_closing(lines, lines.len() as int)
    &&& paired(lines, lines.len() as int)
    &&& !inside(lines, lines.len() as int)
}

/// Whether line `i` is part of the output for `host`: it is no marker line, and it lies
/// outside every block or in a block that lists `host`.
pub open spec fn kept(lines: Seq<Seq<char>>, host: Seq<char>, i: int) -> bool {
    !is_marker(lines[i]) && (inside(lines, i) ==> allowlist(lines[opener(lines, i)]).contains(
        host,
    ))
}

/// The output for the first `n` lines: each line kept, followed by a line feed.
pub open spec fn rendered_upto(lines: Seq<Seq<char>>, host: Seq<char>, n: int) -> Seq<char>
    decreases n,
{
    if n <= 0 {
        Seq::empty()
    } else if kept(lines, host, n - 1) {
        rendered_upto(lines, host, n - 1) + lines[n - 1].push('\n')
    } else {
        rendered_upto(lines, host, n - 1)
    }
}

/// The output of a balanced `content` for `host`. Content without markers is the output as
/// it stands; otherwise the output is the lines kept, each followed by a line feed.
pub open spec fn rendered(content: Seq<char>, host: Seq<char>) -> Seq<char> {
    let lines = lines_of(content);
    if has_markers(lines) {
        rendered_upto(lines, host, lines.len() as int)
    } else {
        content
    }
}

/// Whether one of `list` holds the characters of `x`.
pub fn contains_row(list: &Vec<Vec<char>>, x: &Vec<char>) -> (r: bool)
    ensures
        r == rows(list@).contains(x@),
{
    let mut i: usize = 0;
    while i < list.len()
        invariant
            i <= list.len(),
            forall|j: int| 0 <= j < i ==> rows(list@)[j] != x@,
        decreases list.len() - i,
    {
        if same(&list[i], x) {
            assert(rows(list@)[i as int] == x@);
            return true;
        }
        i += 1;
    }
    false
}

/// Whether the opening line `line` lists `host`.
pub fn lists_host(line: &Vec<char>, host: &Vec<char>) -> (r: bool)
    requires
        opens(line@),
    ensures
        r == allowlist(line@).contains(host@),
{
    let start: Vec<char> = vec!['@', '@'];
    assert(start@ =~= start_marker());
    match find_sub(line, &start) {
        Some(k) => {
            let n = line.len();
            assert(occurs_at(line@, start@, k as int));
            let rest = slice(line, k + 2, n);
            assert(rest@ =~= line@.skip(k + 2));
            let hosts = split_trimmed(&rest, ',');
            contains_row(&hosts, host)
        },
        None => false,
    }
}

/// Renders `content` for `host`.
///
/// Fails exactly when the markers of the content's lines do not pair up.
pub fn render(content: &Vec<char>, host: &Vec<char>) -> (r: Result<Vec<char>, Error>)
    ensures
        match r {
            Ok(out) => balanced(lines_of(content@)) && out@ == rendered(content@, host@),
            Err(e) => !balanced(lines_of(content@)) && e == Error::UnbalancedBlocks,
        },
{
    let start: Vec<char> = vec!['@', '@'];
    let end: Vec<char> = vec!['@', '!'];
    assert(start@ =~= start_marker());
    assert(end@ =~= end_marker());
    let all = lines(content);
    let ghost ls = rows(all@);
    let mut out: Vec<char> = Vec::new();
    let mut n_open: usize = 0;
    let mut n_close: usize = 0;
    let mut within: bool = false;
    let mut allowed: bool = false;
    let mut i: usize = 0;
    while i < all.len()
        invariant
            i <= all.len(),
            ls == rows(all@),
            ls == lines_of(content@),
            ls.len() == all.len(),
            start@ == start_marker(),
            end@ == end_marker(),
            n_open == count_opening(ls, i as int),
            n_close == count_closing(ls, i as int),
            n_open <= i,
            n_close <= i,
            within == inside(ls, i as int),
            within ==> allowed == allowlist(ls[opener(ls, i as int)]).contains(host@),
            paired(ls, i as int),
            out@ == rendered_upto(ls, host@, i as int),
            (n_open == 0 && n_close == 0) <==> !has_markers(ls.take(i as int)),
        decreases all.len() - i,
    {
        let line = &all[i];
        assert(ls[i as int] == line@);
        let is_open = contains_sub(line, &start);
        let is_close = contains_sub(line, &end);
        proof {
            let before = ls.take(i as int);
            let after = ls.take(i + 1);
            assert(after[i as int] == ls[i as int]);
            if has_markers(before) {
                let j = choose|j: int| 0 <= j < before.len() && is_marker(#[trigger] before[j]);
                assert(after[j] == before[j]);
            }
            if has_markers(after) && !has_markers(before) {
                let j = choose|j: int| 0 <= j < after.len() && is_marker(#[trigger] after[j]);
                if j < i {
                    assert(before[j] == after[j]);
                }
            }
        }
        if is_open || is_close {
            if (within && !is_close) || (!within && !is_open) {
                assert(is_marker(ls[i as int]));
                assert(!paired(ls, ls.len() as int));
                return Err(Error::UnbalancedBlocks);
            }
            if within {
                within = false;
            } else {
                allowed = lists_host(line, host);
                within = true;
            }
            if is_open {
                n_open += 1;
            }
            if is_close {
                n_close += 1;
            }
        } else if !within || allowed {
            let mut k: usize = 0;
            while k < line.len()
                invariant
                    k <= line.len(),
                    out@ == rendered_upto(ls, host@, i as int) + line@.take(k as int),
                decreases line.len() - k,
            {
                out.push(line[k]);
                k += 1;
                assert(line@.take(k as int) =~= line@.take(k - 1).push(line@[k - 1]));
            }
            out.push('\n');
            assert(line@.take(line.len() as int) =~= line@);
            assert(out@ =~= rendered_upto(ls, host@, i as int) + line@.push('\n'));
        }
        i += 1;
    }
    proof {
        assert(ls.take(all.len() as int) =~= ls);
    }
    if within || n_open != n_close {
        return Err(Error::UnbalancedBlocks);
    }
    if n_open == 0 {
        return Ok(slice(content, 0, content.len()));
    }
    Ok(out)
}

/// Without a marker line among the first `n` lines there is nothing to count, and no
/// position up to `n` lies inside a block.
pub proof fn lemma_no_markers(lines: Seq<Seq<char>>, n: int)
    requires
        0 <= n <= lines.len(),
        !has_markers(lines),
    ensures
        count_opening(lines, n) == 0,
        count_closing(lines, n) == 0,
        !inside(lines, n),
    decreases n,
{
    if n > 0 {
        lemma_no_markers(lines, n - 1);
        assert(!is_marker(lines[n - 1]));
    }
}

/// Content without a marker line is balanced, and its output for any host is the content
/// itself, character for character.
pub proof fn lemma_plain_content_is_unchanged(content: Seq<char>, host: Seq<char>)
    requires
        !has_markers(lines_of(content)),
    ensures
        balanced(lines_of(content)),
        rendered(content, host) == content,
{
    let lines = lines_of(content);
    lemma_no_markers(lines, lines.len() as int);
    assert forall|i: int| 0 <= i < lines.len() implies !is_marker(#[trigger] lines[i]) by {}
}

/// A line with the start marker among the first `n` is counted.
pub proof fn lemma_opening_is_counted(lines: Seq<Seq<char>>, n: int, i: int)
    requires
        0 <= i < n <= lines.len(),
        opens(lines[i]),
    ensures
        count_opening(lines, n) > 0,
    decreases n,
{
    if i < n - 1 {
        lemma_opening_is_counted(lines, n - 1, i);
    }
}

/// Where none of the first `n` lines holds the end marker, none is counted.
pub proof fn lemma_no_closing(lines: Seq<Seq<char>>, n: int)
    requires
        0 <= n <= lines.len(),
        forall|i: int| 0 <= i < n ==> !closes(#[trigger] lines[i]),
    ensures
        count_closing(lines, n) == 0,
    decreases n,
{
    if n > 0 {
        lemma_no_closing(lines, n - 1);
    }
}

/// Lines of which one holds the start marker and none the end marker are not balanced: a
/// block that is never closed is always found.
pub proof fn lemma_unclosed_block_is_unbalanced(lines: Seq<Seq<char>>, i: int)
    requires
        0 <= i < lines.len(),
        opens(lines[i]),
        forall|j: int| 0 <= j < lines.len() ==> !closes(#[trigger] lines[j]),
    ensures
        !balanced(lines),
{
    lemma_opening_is_counted(lines, lines.len() as int, i);
    lemma_no_closing(lines, lines.len() as int);
}

/// A marker line is never part of the output, and a line outside every block always is.
pub proof fn lemma_kept_lines(lines: Seq<Seq<char>>, host: Seq<char>, i: int)
    requires
        0 <= i < lines.len(),
    ensures
        is_marker(lines[i]) ==> !kept(lines, host, i),
        !is_marker(lines[i]) && !inside(lines, i) ==> kept(lines, host, i),
{
}

} // verus!
