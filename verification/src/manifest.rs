//! The line-oriented text of a manifest.
//!
//! A line whose trimmed form is `[name]` opens the block of a template. Inside a block, a
//! line `key = value` sets a field of that template. A line `$name = value` declares a
//! variable, wherever it stands.

use crate::answers::{
    answer_views, answered, find_answer, lookup_views, Answer, AnswerView, Lookup, LookupView,
    Source,
};
use crate::derfile::{
    inserted, keys, names, template_entries, Derfile, DerfileView, Given, Template, TemplateView,
    VariableView,
};
use crate::paths::{join_path, joined_path, parent, parent_dir};
use crate::text::{
    after, before, find, first_index, is_str, lemma_first_index_is_first, lemma_pieces_len, lines,
    lines_of, pieces, rows, slice, split_trimmed, strs, to_chars, to_string, to_strings, trim,
    trimmed, trimmed_each,
};
use vstd::prelude::*;
use vstd::string::StringExecFns;

verus! {

/// Whether `s` is a text between two backticks.
pub open spec fn is_quoted(s: Seq<char>) -> bool {
    s.len() >= 2 && s[0] == '`' && s.last() == '`'
}

/// Whether `s` is the word `env` followed at once by a text between two backticks.
pub open spec fn is_env(s: Seq<char>) -> bool {
    s.len() >= 5 && s.take(4) == seq!['e', 'n', 'v', '`'] && s.last() == '`'
}

/// The lookup that the right side `right` of a declaration asks for, if it asks for one: the
/// command between its backticks, or the environment variable named between the backticks
/// after `env`.
pub open spec fn needed(right: Seq<char>) -> Option<LookupView> {
    if is_quoted(right) {
        Some(LookupView { source: Source::Command, text: right.subrange(1, right.len() - 1) })
    } else if is_env(right) {
        Some(LookupView { source: Source::Env, text: right.subrange(4, right.len() - 1) })
    } else {
        None
    }
}

/// The values that a right side without a lookup stands for. With `lists`, a right side that
/// holds a comma is a list, split at the commas, each item trimmed; any other is one value.
pub open spec fn plain_values(right: Seq<char>, lists: bool) -> Seq<Seq<char>> {
    if lists && right.contains(',') {
        trimmed_each(pieces(right, ','))
    } else {
        seq![right]
    }
}

/// The values of a variable declared with the right side `right`; `None` where the right
/// side asks for a lookup that has no value, so that no variable comes of it.
pub open spec fn declared_values(right: Seq<char>, answers: Seq<AnswerView>, lists: bool) -> Option<
    Seq<Seq<char>>,
> {
    match needed(right) {
        Some(l) => match answered(answers, l.source, l.text) {
            Some(v) => Some(seq![v]),
            None => None,
        },
        None => Some(plain_values(right, lists)),
    }
}

/// The lookup that `right` asks for, if it asks for one.
pub fn needed_lookup(right: &Vec<char>) -> (r: Option<(Source, Vec<char>)>)
    ensures
        match r {
            Some(l) => needed(right@) == Some(LookupView { source: l.0, text: l.1@ }),
            None => needed(right@) is None,
        },
{
    let n = right.len();
    if n >= 2 && right[0] == '`' && right[n - 1] == '`' {
        return Some((Source::Command, slice(right, 1, n - 1)));
    }
    if n >= 5 && right[0] == 'e' && right[1] == 'n' && right[2] == 'v' && right[3] == '`'
        && right[n - 1] == '`' {
        assert(right@.take(4) =~= seq!['e', 'n', 'v', '`']);
        return Some((Source::Env, slice(right, 4, n - 1)));
    }
    proof {
        if n >= 5 && right@.take(4) == seq!['e', 'n', 'v', '`'] {
            assert(right@.take(4)[0] == 'e');
            assert(right@.take(4)[1] == 'n');
            assert(right@.take(4)[2] == 'v');
            assert(right@.take(4)[3] == '`');
        }
    }
    None
}

/// The values of a variable declared with the right side `right`.
pub fn values_of(right: &Vec<char>, answers: &Vec<Answer>, lists: bool) -> (r: Option<
    Vec<Vec<char>>,
>)
    ensures
        match r {
            Some(v) => declared_values(right@, answer_views(answers@), lists) == Some(rows(v@)),
            None => declared_values(right@, answer_views(answers@), lists) is None,
        },
{
    match needed_lookup(right) {
        Some(l) => match find_answer(answers, l.0, &l.1) {
            Some(v) => {
                let out: Vec<Vec<char>> = vec![v];
                assert(rows(out@) =~= seq![v@]);
                Some(out)
            },
            None => None,
        },
        None => {
            if lists && find(right, ',').is_some() {
                Some(split_trimmed(right, ','))
            } else {
                let out: Vec<Vec<char>> = vec![slice(right, 0, right.len())];
                assert(right@.subrange(0, right.len() as int) =~= right@);
                assert(rows(out@) =~= seq![right@]);
                Some(out)
            }
        },
    }
}

/// The name and the right side of the declaration that `line` holds, if it holds one: a
/// line with a `=` before which, trimmed, stands a text that begins with `$`. The name is
/// what follows the `$` there, the right side what follows the `=`, trimmed.
pub open spec fn declaration(line: Seq<char>) -> Option<(Seq<char>, Seq<char>)> {
    let left = trimmed(before(line, '='));
    if line.contains('=') && left.len() > 0 && left[0] == '$' {
        Some((left.skip(1), trimmed(after(line, '='))))
    } else {
        None
    }
}

/// The name and the right side of the declaration that `line` holds, if it holds one.
pub fn declaration_of(line: &Vec<char>) -> (r: Option<(Vec<char>, Vec<char>)>)
    ensures
        match r {
            Some(d) => declaration(line@) == Some((d.0@, d.1@)),
            None => declaration(line@) is None,
        },
{
    match find(line, '=') {
        Some(k) => {
            let left = trim(&slice(line, 0, k));
            proof {
                assert(line@.subrange(0, k as int) =~= before(line@, '='));
                assert(line@.subrange(k + 1, line.len() as int) =~= after(line@, '='));
            }
            if left.len() == 0 || left[0] != '$' {
                return None;
            }
            let right = trim(&slice(line, k + 1, line.len()));
            let name = slice(&left, 1, left.len());
            assert(name@ =~= left@.skip(1));
            Some((name, right))
        },
        None => None,
    }
}

/// The variables that the first `n` of `lines` declare, in the order in which their names
/// first came. A later declaration of a name takes the place of an earlier one.
pub open spec fn declared(lines: Seq<Seq<char>>, answers: Seq<AnswerView>, n: int) -> Seq<
    (Seq<char>, VariableView),
>
    decreases n,
{
    if n <= 0 {
        Seq::empty()
    } else {
        let prev = declared(lines, answers, n - 1);
        match declaration(lines[n - 1]) {
            Some((name, right)) => match declared_values(right, answers, true) {
                Some(values) => inserted(prev, name, VariableView { name: name, value: values }),
                None => prev,
            },
            None => prev,
        }
    }
}

/// The lookups that the first `n` of `lines` ask for, one for each declaration that asks
/// for one, in the order of the lines.
pub open spec fn wanted(lines: Seq<Seq<char>>, n: int) -> Seq<LookupView>
    decreases n,
{
    if n <= 0 {
        Seq::empty()
    } else {
        let prev = wanted(lines, n - 1);
        match declaration(lines[n - 1]) {
            Some((name, right)) => match needed(right) {
                Some(l) => prev.push(l),
                None => prev,
            },
            None => prev,
        }
    }
}

/// The name between the brackets of the header that `line` holds, if it holds one: a line
/// whose trimmed form begins with `[` and ends with `]`.
pub open spec fn header_name(line: Seq<char>) -> Option<Seq<char>> {
    let t = trimmed(line);
    if t.len() >= 2 && t[0] == '[' && t.last() == ']' {
        Some(t.subrange(1, t.len() - 1))
    } else {
        None
    }
}

/// The name between the brackets of the header that `line` holds, if it holds one.
pub fn header_of(line: &Vec<char>) -> (r: Option<Vec<char>>)
    ensures
        match r {
            Some(name) => header_name(line@) == Some(name@),
            None => header_name(line@) is None,
        },
{
    let t = trim(line);
    let n = t.len();
    if n >= 2 && t[0] == '[' && t[n - 1] == ']' {
        Some(slice(&t, 1, n - 1))
    } else {
        None
    }
}

/// The template `t` after the line `key = raw` of its block. The keys `final_name` and
/// `apply_path` set a text, `recursive` and `parse_files` a flag that is true for the value
/// `true` alone, `hostnames` and `extensions` add the items of a comma-separated list. Each
/// records that its field was set. Any other key leaves the template as it is.
pub open spec fn assigned(t: TemplateView, key: Seq<char>, raw: Seq<char>) -> TemplateView {
    if key == "final_name"@ {
        TemplateView {
            final_name: trimmed(raw),
            given: Given { final_name: true, ..t.given },
            ..t
        }
    } else if key == "hostnames"@ {
        TemplateView {
            hostnames: t.hostnames + trimmed_each(pieces(raw, ',')),
            given: Given { hostnames: true, ..t.given },
            ..t
        }
    } else if key == "apply_path"@ {
        TemplateView {
            apply_path: trimmed(raw),
            given: Given { apply_path: true, ..t.given },
            ..t
        }
    } else if key == "recursive"@ {
        TemplateView {
            recursive: trimmed(raw) == "true"@,
            given: Given { recursive: true, ..t.given },
            ..t
        }
    } else if key == "parse_files"@ {
        TemplateView {
            parse_files: trimmed(raw) == "true"@,
            given: Given { parse_files: true, ..t.given },
            ..t
        }
    } else if key == "extensions"@ {
        TemplateView {
            extensions: t.extensions + trimmed_each(pieces(raw, ',')),
            given: Given { extensions: true, ..t.given },
            ..t
        }
    } else {
        t
    }
}

/// Whether `key` is one of the six keys that set a field of a template.
pub open spec fn is_field(key: Seq<char>) -> bool {
    key == "final_name"@ || key == "hostnames"@ || key == "apply_path"@ || key == "recursive"@
        || key == "parse_files"@ || key == "extensions"@
}

/// Where the scan of a manifest stands: the templates found so far, and the key of the
/// template whose block is open.
pub struct Scan {
    pub templates: Seq<(Seq<char>, TemplateView)>,
    pub current: Option<Seq<char>>,
}

/// The scan after `line`. A header opens the block of the template whose key is the
/// header's name, taken relative to the directory `dir`: the template is put in with nothing
/// set but its name. In an open block, a line with a `=` sets a field of the block's
/// template, as `assigned` says. Any other line changes nothing.
pub open spec fn scan_line(st: Scan, dir: Seq<char>, line: Seq<char>) -> Scan {
    match header_name(line) {
        Some(name) => {
            let key = joined_path(dir, name);
            Scan {
                templates: inserted(
                    st.templates,
                    key,
                    TemplateView { name: key, ..TemplateView::empty() },
                ),
                current: Some(key),
            }
        },
        None => match st.current {
            Some(key) => {
                let i = first_index(keys(st.templates), key);
                if line.contains('=') && 0 <= i < st.templates.len() {
                    Scan {
                        templates: st.templates.update(
                            i,
                            (
                                key,
                                assigned(
                                    st.templates[i].1,
                                    trimmed(before(line, '=')),
                                    after(line, '='),
                                ),
                            ),
                        ),
                        ..st
                    }
                } else {
                    st
                }
            },
            None => st,
        },
    }
}

/// The scan after the first `n` of `lines`.
pub open spec fn scanned(lines: Seq<Seq<char>>, dir: Seq<char>, n: int) -> Scan
    decreases n,
{
    if n <= 0 {
        Scan { templates: Seq::empty(), current: None }
    } else {
        scan_line(scanned(lines, dir, n - 1), dir, lines[n - 1])
    }
}

/// Adds the hosts `items` to `t`.
pub fn add_hostnames(t: &mut Template, items: &Vec<Vec<char>>)
    requires
        items.len() > 0,
    ensures
        final(t)@ == (TemplateView {
            hostnames: old(t)@.hostnames + rows(items@),
            given: Given { hostnames: true, ..old(t)@.given },
            ..old(t)@
        }),
{
    let ghost start = t@;
    let mut i: usize = 0;
    assert(start.hostnames + rows(items@).take(0) =~= start.hostnames);
    while i < items.len()
        invariant
            i <= items.len(),
            t@ == (TemplateView {
                hostnames: start.hostnames + rows(items@).take(i as int),
                given: if i > 0 {
                    Given { hostnames: true, ..start.given }
                } else {
                    start.given
                },
                ..start
            }),
        decreases items.len() - i,
    {
        let s = to_string(&items[i]);
        assert((start.hostnames + rows(items@).take(i as int)).push(s@) =~= start.hostnames + rows(
            items@,
        ).take(i + 1));
        t.add_hostname(s);
        i += 1;
    }
    assert(rows(items@).take(items.len() as int) =~= rows(items@));
}

/// Adds the extensions `items` to `t`.
pub fn add_extensions(t: &mut Template, items: &Vec<Vec<char>>)
    requires
        items.len() > 0,
    ensures
        final(t)@ == (TemplateView {
            extensions: old(t)@.extensions + rows(items@),
            given: Given { extensions: true, ..old(t)@.given },
            ..old(t)@
        }),
{
    let ghost start = t@;
    let mut i: usize = 0;
    assert(start.extensions + rows(items@).take(0) =~= start.extensions);
    while i < items.len()
        invariant
            i <= items.len(),
            t@ == (TemplateView {
                extensions: start.extensions + rows(items@).take(i as int),
                given: if i > 0 {
                    Given { extensions: true, ..start.given }
                } else {
                    start.given
                },
                ..start
            }),
        decreases items.len() - i,
    {
        let s = to_string(&items[i]);
        assert((start.extensions + rows(items@).take(i as int)).push(s@) =~= start.extensions
            + rows(items@).take(i + 1));
        t.add_extension(s);
        i += 1;
    }
    assert(rows(items@).take(items.len() as int) =~= rows(items@));
}

/// Applies the line `key = raw` to `t`.
pub fn assign(t: &mut Template, key: &Vec<char>, raw: &Vec<char>)
    ensures
        final(t)@ == assigned(old(t)@, key@, raw@),
{
    if is_str(key, "final_name") {
        let v = trim(raw);
        t.set_final_name(to_string(&v));
    } else if is_str(key, "hostnames") {
        let items = split_trimmed(raw, ',');
        proof {
            lemma_pieces_len(raw@, ',');
            assert(rows(items@).len() == items@.len());
            assert(trimmed_each(pieces(raw@, ',')).len() == pieces(raw@, ',').len());
        }
        add_hostnames(t, &items);
    } else if is_str(key, "apply_path") {
        let v = trim(raw);
        t.set_apply_path(to_string(&v));
    } else if is_str(key, "recursive") {
        let v = trim(raw);
        t.set_recursive(is_str(&v, "true"));
    } else if is_str(key, "parse_files") {
        let v = trim(raw);
        t.set_parse_files(is_str(&v, "true"));
    } else if is_str(key, "extensions") {
        let items = split_trimmed(raw, ',');
        proof {
            lemma_pieces_len(raw@, ',');
            assert(rows(items@).len() == items@.len());
            assert(trimmed_each(pieces(raw@, ',')).len() == pieces(raw@, ',').len());
        }
        add_extensions(t, &items);
    }
}

/// What the manifest `buffer` at `path` holds before anything is resolved: the templates
/// of its blocks under their keys, each header's name taken relative to the directory of
/// `path`; the variables that it declares, with the values that `answers` give to those
/// that are looked up; and `path` itself.
pub open spec fn raw_derfile(buffer: Seq<char>, path: Seq<char>, answers: Seq<AnswerView>) -> DerfileView {
    let ls = lines_of(buffer);
    DerfileView {
        templates: scanned(ls, parent_dir(path), ls.len() as int).templates,
        vars: declared(ls, answers, ls.len() as int),
        path: path,
    }
}

impl Derfile {
    /// The lookups that the declarations of the manifest `buffer` ask for, in the order of
    /// its lines.
    pub fn lookups(buffer: &str) -> (out: Vec<Lookup>)
        ensures
            lookup_views(out@) == wanted(lines_of(buffer@), lines_of(buffer@).len() as int),
    {
        let text = to_chars(buffer);
        let all = lines(&text);
        let ghost ls = rows(all@);
        let mut out: Vec<Lookup> = Vec::new();
        let mut i: usize = 0;
        assert(lookup_views(out@) =~= Seq::empty());
        while i < all.len()
            invariant
                i <= all.len(),
                ls == rows(all@),
                lookup_views(out@) == wanted(ls, i as int),
            decreases all.len() - i,
        {
            assert(ls[i as int] == all@[i as int]@);
            match declaration_of(&all[i]) {
                Some(d) => match needed_lookup(&d.1) {
                    Some(l) => {
                        let item = Lookup { source: l.0, text: to_string(&l.1) };
                        assert(lookup_views(out@.push(item)) =~= lookup_views(out@).push(item@));
                        out.push(item);
                    },
                    None => {},
                },
                None => {},
            }
            i += 1;
        }
        out
    }

    /// Reads the manifest `buffer` that stands at `path`, without resolving anything.
    pub fn scan(buffer: &str, path: &str, answers: &Vec<Answer>) -> (out: Derfile)
        ensures
            out@ == raw_derfile(buffer@, path@, answer_views(answers@)),
    {
        let text = to_chars(buffer);
        let all = lines(&text);
        let ghost ls = rows(all@);
        let p = to_chars(path);
        let dir = parent(&p);
        let mut d = Derfile::default();
        d.path = String::from_str(path);
        let mut i: usize = 0;
        while i < all.len()
            invariant
                i <= all.len(),
                ls == rows(all@),
                d@ == (DerfileView {
                    templates: Seq::empty(),
                    vars: declared(ls, answer_views(answers@), i as int),
                    path: path@,
                }),
            decreases all.len() - i,
        {
            assert(ls[i as int] == all@[i as int]@);
            match declaration_of(&all[i]) {
                Some(decl) => match values_of(&decl.1, answers, true) {
                    Some(values) => {
                        d.add_var(to_string(&decl.0), to_strings(&values));
                    },
                    None => {},
                },
                None => {},
            }
            i += 1;
        }
        let mut current: Option<usize> = None;
        let mut k: usize = 0;
        while k < all.len()
            invariant
                k <= all.len(),
                ls == rows(all@),
                dir@ == parent_dir(path@),
                d@ == (DerfileView {
                    templates: scanned(ls, dir@, k as int).templates,
                    vars: declared(ls, answer_views(answers@), all.len() as int),
                    path: path@,
                }),
                match current {
                    Some(c) => {
                        let st = scanned(ls, dir@, k as int);
                        &&& st.current is Some
                        &&& c < d.templates.len()
                        &&& c == first_index(keys(st.templates), st.current->0)
                    },
                    None => scanned(ls, dir@, k as int).current is None,
                },
            decreases all.len() - k,
        {
            let line = &all[k];
            assert(ls[k as int] == line@);
            let ghost st = scanned(ls, dir@, k as int);
            match header_of(line) {
                Some(name) => {
                    let key = to_string(&join_path(&dir, &name));
                    let mut t = Template::default();
                    t.set_name(key.clone());
                    let at = d.insert_template(key, t);
                    current = Some(at);
                },
                None => match current {
                    Some(c) => match find(line, '=') {
                        Some(eq) => {
                            let key = trim(&slice(line, 0, eq));
                            let raw = slice(line, eq + 1, line.len());
                            proof {
                                assert(line@.subrange(0, eq as int) =~= before(line@, '='));
                                assert(raw@ =~= after(line@, '='));
                                lemma_first_index_is_first(keys(st.templates), st.current->0);
                                assert(keys(st.templates)[c as int] == st.templates[c as int].0);
                            }
                            let ghost old_entries = d.templates@;
                            assign(&mut d.templates[c].1, &key, &raw);
                            proof {
                                let new_t = d.templates@[c as int].1;
                                assert(d.templates@ == old_entries.update(
                                    c as int,
                                    (old_entries[c as int].0, new_t),
                                ));
                                assert(template_entries(d.templates@) =~= template_entries(
                                    old_entries,
                                ).update(c as int, (st.current->0, new_t@)));
                                assert(keys(template_entries(d.templates@)) =~= keys(st.templates));
                            }
                        },
                        None => {},
                    },
                    None => {},
                },
            }
            k += 1;
        }
        d
    }
}

/// Scanning is a function of the text, the path and the answers: two scans of the same
/// manifest hold the same.
pub proof fn lemma_scan_is_repeatable(
    first: Derfile,
    second: Derfile,
    buffer: Seq<char>,
    path: Seq<char>,
    answers: Seq<AnswerView>,
)
    requires
        first@ == raw_derfile(buffer, path, answers),
        second@ == raw_derfile(buffer, path, answers),
    ensures
        first@ == second@,
        first@.templates =~= second@.templates,
        first@.vars =~= second@.vars,
{
}

/// Whether a block is open after the first `n` of `lines`: one of them is a header.
pub open spec fn in_block(lines: Seq<Seq<char>>, n: int) -> bool
    decreases n,
{
    if n <= 0 {
        false
    } else {
        header_name(lines[n - 1]) is Some || in_block(lines, n - 1)
    }
}

/// Whether `line`, standing in an open block, sets nothing though it has a `=`: it is no
/// header, and its key is neither a field of a template nor the name of a variable.
pub open spec fn is_ignored(line: Seq<char>) -> bool {
    let key = trimmed(before(line, '='));
    &&& header_name(line) is None
    &&& line.contains('=')
    &&& !is_field(key)
    &&& !(key.len() > 0 && key[0] == '$')
}

/// The keys of the lines among the first `n` that stand in a block and set nothing though
/// they have a `=`, in the order of the lines.
pub open spec fn ignored(lines: Seq<Seq<char>>, n: int) -> Seq<Seq<char>>
    decreases n,
{
    if n <= 0 {
        Seq::empty()
    } else if in_block(lines, n - 1) && is_ignored(lines[n - 1]) {
        ignored(lines, n - 1).push(trimmed(before(lines[n - 1], '=')))
    } else {
        ignored(lines, n - 1)
    }
}

/// Whether `key` is one of the six keys that set a field of a template.
pub fn is_field_key(key: &Vec<char>) -> (r: bool)
    ensures
        r == is_field(key@),
{
    is_str(key, "final_name") || is_str(key, "hostnames") || is_str(key, "apply_path") || is_str(
        key,
        "recursive",
    ) || is_str(key, "parse_files") || is_str(key, "extensions")
}

impl Derfile {
    /// The keys that the manifest `buffer` writes inside its blocks and that set nothing:
    /// what a reader of the manifest is to be warned of.
    pub fn ignored_keys(buffer: &str) -> (out: Vec<String>)
        ensures
            strs(out@) == ignored(lines_of(buffer@), lines_of(buffer@).len() as int),
    {
        let text = to_chars(buffer);
        let all = lines(&text);
        let ghost ls = rows(all@);
        let mut out: Vec<String> = Vec::new();
        let mut open = false;
        let mut i: usize = 0;
        assert(strs(out@) =~= Seq::empty());
        while i < all.len()
            invariant
                i <= all.len(),
                ls == rows(all@),
                open == in_block(ls, i as int),
                strs(out@) == ignored(ls, i as int),
            decreases all.len() - i,
        {
            let line = &all[i];
            assert(ls[i as int] == line@);
            match header_of(line) {
                Some(_) => {
                    open = true;
                },
                None => match find(line, '=') {
                    Some(eq) => {
                        let key = trim(&slice(line, 0, eq));
                        assert(line@.subrange(0, eq as int) =~= before(line@, '='));
                        let named = key.len() > 0 && key[0] == '$';
                        if open && !is_field_key(&key) && !named {
                            let s = to_string(&key);
                            assert(strs(out@.push(s)) =~= strs(out@).push(s@));
                            out.push(s);
                        }
                    },
                    None => {},
                },
            }
            i += 1;
        }
        out
    }
}

} // verus!
