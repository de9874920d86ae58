//! Resolution: variable references are replaced by values, fields that a template leaves
//! open are taken from the default template, and output directories are made absolute.

use crate::derfile::{
    find_entry, inserted, keys, lookup, names, template_entries, variable_entries, Derfile,
    DerfileView, Template, TemplateView, Variable, VariableView,
};
use crate::paths::{
    contains_str, extend, is_absolute, join_path, joined_path, normalize, normalized, parent,
    parent_dir,
};
use crate::text::{
    after, before, find, slice, strs, to_chars,
    to_string,
};
use vstd::prelude::*;
use vstd::string::StringExecFns;

verus! {

/// The key under which a derfile holds the default template.
pub open spec fn default_key() -> Seq<char> {
    "[default-template]"@
}

/// The variable name and the suffix of a reference: a text that begins with `$`. The name
/// is what follows the `$` up to the first `:`, the suffix what follows that `:`. A text
/// that does not begin with `$` is no reference.
pub open spec fn reference(raw: Seq<char>) -> Option<(Seq<char>, Seq<char>)> {
    if raw.len() > 0 && raw[0] == '$' {
        Some((before(raw.skip(1), ':'), after(raw.skip(1), ':')))
    } else {
        None
    }
}

/// Whether the reference `raw` has a suffix, that is a `:` after its `$`.
pub open spec fn has_suffix(raw: Seq<char>) -> bool {
    raw.skip(1).contains(':')
}

/// What a field of one value resolves to. A text that is no reference stays as it is. A
/// reference becomes the first value of its variable followed by the suffix; where the
/// variable does not exist or has no value, the result is empty.
pub open spec fn resolved_text(vars: Seq<(Seq<char>, VariableView)>, raw: Seq<char>) -> Seq<char> {
    match reference(raw) {
        Some((name, suffix)) => match lookup(vars, name) {
            Some(v) => if v.value.len() > 0 {
                v.value[0] + suffix
            } else {
                Seq::empty()
            },
            None => Seq::empty(),
        },
        None => raw,
    }
}

/// What one item of a list resolves to. An item that is no reference stays as it is. A
/// reference becomes all values of its variable, followed by the suffix as one more item
/// where the reference has one; where the variable does not exist, nothing comes of it.
pub open spec fn resolved_item(vars: Seq<(Seq<char>, VariableView)>, item: Seq<char>) -> Seq<
    Seq<char>,
> {
    match reference(item) {
        Some((name, suffix)) => match lookup(vars, name) {
            Some(v) => if has_suffix(item) {
                v.value.push(suffix)
            } else {
                v.value
            },
            None => Seq::empty(),
        },
        None => seq![item],
    }
}

/// What the first `n` items of a list resolve to: what each item resolves to, in order.
pub open spec fn resolved_list(
    vars: Seq<(Seq<char>, VariableView)>,
    items: Seq<Seq<char>>,
    n: int,
) -> Seq<Seq<char>>
    decreases n,
{
    if n <= 0 {
        Seq::empty()
    } else {
        resolved_list(vars, items, n - 1) + resolved_item(vars, items[n - 1])
    }
}

/// What an output directory resolves to. The text is resolved as a field of one value. An
/// absolute result stands. Any other is taken relative to the directory `dir` and
/// normalised, and ends with a separator where the template is a directory.
pub open spec fn resolved_path(
    vars: Seq<(Seq<char>, VariableView)>,
    dir: Seq<char>,
    raw: Seq<char>,
    is_dir: bool,
) -> Seq<char> {
    let value = resolved_text(vars, raw);
    if is_absolute(value) {
        value
    } else if is_dir {
        normalized(joined_path(dir, value)).push('/')
    } else {
        normalized(joined_path(dir, value))
    }
}

/// The template `t` under `key`, resolved with the variables and the path of `d`. The
/// hosts, the extensions and the two flags are those of `fallback` where `t` has not set
/// them.
pub open spec fn resolved_template(
    d: DerfileView,
    key: Seq<char>,
    t: TemplateView,
    fallback: TemplateView,
    directories: Seq<Seq<char>>,
) -> TemplateView {
    TemplateView {
        name: key,
        final_name: resolved_text(d.vars, t.final_name),
        hostnames: if t.given.hostnames {
            resolved_list(d.vars, t.hostnames, t.hostnames.len() as int)
        } else {
            fallback.hostnames
        },
        apply_path: resolved_path(
            d.vars,
            parent_dir(d.path),
            t.apply_path,
            directories.contains(key),
        ),
        parse_files: if t.given.parse_files {
            t.parse_files
        } else {
            fallback.parse_files
        },
        extensions: if t.given.extensions {
            resolved_list(d.vars, t.extensions, t.extensions.len() as int)
        } else {
            fallback.extensions
        },
        recursive: if t.given.recursive {
            t.recursive
        } else {
            fallback.recursive
        },
        given: t.given,
    }
}

/// The default template of `d`: the one under the default key, or the template in which
/// nothing is set where `d` has none there.
pub open spec fn fallback_of(d: DerfileView) -> TemplateView {
    match lookup(d.templates, default_key()) {
        Some(t) => t,
        None => TemplateView::empty(),
    }
}

/// The first `n` templates of `d`, resolved, without the default template.
pub open spec fn resolved_templates(d: DerfileView, directories: Seq<Seq<char>>, n: int) -> Seq<
    (Seq<char>, TemplateView),
>
    decreases n,
{
    if n <= 0 {
        Seq::empty()
    } else {
        let prev = resolved_templates(d, directories, n - 1);
        let e = d.templates[n - 1];
        if e.0 == default_key() {
            prev
        } else {
            inserted(prev, e.0, resolved_template(d, e.0, e.1, fallback_of(d), directories))
        }
    }
}

/// The derfile `d` resolved: its templates resolved, the default template left out, its
/// variables and its path as they were. `directories` names the templates that are
/// directories.
pub open spec fn resolved_derfile(d: DerfileView, directories: Seq<Seq<char>>) -> DerfileView {
    DerfileView {
        templates: resolved_templates(d, directories, d.templates.len() as int),
        vars: d.vars,
        path: d.path,
    }
}

/// The name, the suffix and the presence of a suffix of the reference `raw`.
pub fn reference_of(raw: &Vec<char>) -> (r: Option<(Vec<char>, Vec<char>, bool)>)
    ensures
        match r {
            Some(x) => reference(raw@) == Some((x.0@, x.1@)) && x.2 == has_suffix(raw@),
            None => reference(raw@) is None,
        },
{
    if raw.len() == 0 || raw[0] != '$' {
        return None;
    }
    let rest = slice(raw, 1, raw.len());
    assert(rest@ =~= raw@.skip(1));
    match find(&rest, ':') {
        Some(k) => {
            let name = slice(&rest, 0, k);
            let suffix = slice(&rest, k + 1, rest.len());
            assert(name@ =~= before(rest@, ':'));
            assert(suffix@ =~= after(rest@, ':'));
            Some((name, suffix, true))
        },
        None => {
            let name = slice(&rest, 0, rest.len());
            assert(name@ =~= before(rest@, ':'));
            Some((name, Vec::new(), false))
        },
    }
}

/// The variable under `name`, if there is one.
pub fn find_var<'a>(vars: &'a Vec<(String, Variable)>, name: &Vec<char>) -> (r: Option<
    &'a Variable,
>)
    ensures
        match r {
            Some(v) => lookup(variable_entries(vars@), name@) == Some(v@),
            None => lookup(variable_entries(vars@), name@) is None,
        },
{
    let key = to_string(name);
    proof {
        assert(keys(variable_entries(vars@)) =~= names(vars@));
    }
    match find_entry(vars, key.as_str()) {
        Some(i) => Some(&vars[i].1),
        None => None,
    }
}

/// What the field `raw` of one value resolves to.
pub fn resolve_text(vars: &Vec<(String, Variable)>, raw: &str) -> (out: Vec<char>)
    ensures
        out@ == resolved_text(variable_entries(vars@), raw@),
{
    let r = to_chars(raw);
    match reference_of(&r) {
        Some(x) => match find_var(vars, &x.0) {
            Some(v) => {
                if v.value.len() > 0 {
                    let mut out = to_chars(v.value[0].as_str());
                    extend(&mut out, &x.1);
                    assert(strs(v.value@)[0] == v.value@[0]@);
                    out
                } else {
                    assert(strs(v.value@).len() == 0);
                    Vec::new()
                }
            },
            None => Vec::new(),
        },
        None => r,
    }
}

/// What the list `items` resolves to.
pub fn resolve_list(vars: &Vec<(String, Variable)>, items: &Vec<String>) -> (out: Vec<String>)
    ensures
        strs(out@) == resolved_list(variable_entries(vars@), strs(items@), items.len() as int),
{
    let ghost vs = variable_entries(vars@);
    let mut out: Vec<String> = Vec::new();
    let mut i: usize = 0;
    assert(strs(out@) =~= Seq::empty());
    while i < items.len()
        invariant
            i <= items.len(),
            vs == variable_entries(vars@),
            strs(out@) == resolved_list(vs, strs(items@), i as int),
        decreases items.len() - i,
    {
        let item = to_chars(items[i].as_str());
        assert(strs(items@)[i as int] == item@);
        let ghost start = strs(out@);
        match reference_of(&item) {
            Some(x) => match find_var(vars, &x.0) {
                Some(v) => {
                    let mut k: usize = 0;
                    assert(start + strs(v.value@).take(0) =~= start);
                    while k < v.value.len()
                        invariant
                            k <= v.value.len(),
                            strs(out@) == start + strs(v.value@).take(k as int),
                        decreases v.value.len() - k,
                    {
                        let s = v.value[k].clone();
                        proof {
                            assert(strs(out@.push(s)) =~= strs(out@).push(s@));
                            assert((start + strs(v.value@).take(k as int)).push(s@) =~= start
                                + strs(v.value@).take(k + 1));
                        }
                        out.push(s);
                        k += 1;
                    }
                    assert(strs(v.value@).take(v.value.len() as int) =~= strs(v.value@));
                    if x.2 {
                        let s = to_string(&x.1);
                        proof {
                            assert(strs(out@.push(s)) =~= strs(out@).push(s@));
                            assert((start + strs(v.value@)).push(s@) =~= start + strs(
                                v.value@,
                            ).push(s@));
                        }
                        out.push(s);
                    }
                },
                None => {
                    assert(start + Seq::<Seq<char>>::empty() =~= start);
                },
            },
            None => {
                let s = items[i].clone();
                proof {
                    assert(strs(out@.push(s)) =~= strs(out@).push(s@));
                    assert(start.push(s@) =~= start + seq![item@]);
                }
                out.push(s);
            },
        }
        i += 1;
    }
    out
}

/// What the output directory `raw` resolves to.
pub fn resolve_path(vars: &Vec<(String, Variable)>, dir: &Vec<char>, raw: &str, is_dir: bool) -> (out:
    Vec<char>)
    ensures
        out@ == resolved_path(variable_entries(vars@), dir@, raw@, is_dir),
{
    let value = resolve_text(vars, raw);
    if value.len() > 0 && value[0] == '/' {
        return value;
    }
    let mut out = normalize(&join_path(dir, &value));
    if is_dir {
        out.push('/');
    }
    out
}

impl Derfile {
    /// Resolves the derfile: every template but the default one, with the fields it leaves
    /// open taken from the default template. `directories` names the templates that are
    /// directories.
    pub fn parse(self, directories: &Vec<String>) -> (out: Derfile)
        ensures
            out@ == resolved_derfile(self@, strs(directories@)),
    {
        let ghost d = self@;
        let ghost dirs = strs(directories@);
        let Derfile { templates, vars, path } = self;
        let dir = parent(&to_chars(path.as_str()));
        let default_name = String::from_str("[default-template]");
        proof {
            assert(keys(template_entries(templates@)) =~= names(templates@));
        }
        let fallback = match find_entry(&templates, "[default-template]") {
            Some(i) => templates[i].1.clone(),
            None => Template::default(),
        };
        assert(fallback@ == fallback_of(d));
        let mut out = Derfile::default();
        let mut i: usize = 0;
        while i < templates.len()
            invariant
                i <= templates.len(),
                d.templates == template_entries(templates@),
                d.vars == variable_entries(vars@),
                d.path == path@,
                dirs == strs(directories@),
                dir@ == parent_dir(path@),
                default_name@ == default_key(),
                fallback@ == fallback_of(d),
                out@ == (DerfileView {
                    templates: resolved_templates(d, dirs, i as int),
                    vars: Seq::empty(),
                    path: Seq::empty(),
                }),
            decreases templates.len() - i,
        {
            let key = &templates[i].0;
            let t = &templates[i].1;
            assert(d.templates[i as int] == (key@, t@));
            if *key != default_name {
                let name = to_chars(key.as_str());
                let is_dir = contains_str(directories, &name);
                let resolved = Template {
                    name: key.clone(),
                    final_name: to_string(&resolve_text(&vars, t.final_name.as_str())),
                    hostnames: if t.given.hostnames {
                        resolve_list(&vars, &t.hostnames)
                    } else {
                        crate::derfile::clone_strings(&fallback.hostnames)
                    },
                    apply_path: to_string(
                        &resolve_path(&vars, &dir, t.apply_path.as_str(), is_dir),
                    ),
                    parse_files: if t.given.parse_files {
                        t.parse_files
                    } else {
                        fallback.parse_files
                    },
                    extensions: if t.given.extensions {
                        resolve_list(&vars, &t.extensions)
                    } else {
                        crate::derfile::clone_strings(&fallback.extensions)
                    },
                    recursive: if t.given.recursive {
                        t.recursive
                    } else {
                        fallback.recursive
                    },
                    given: t.given,
                };
                assert(resolved@ == resolved_template(d, key@, t@, fallback@, dirs));
                out.insert_template(key.clone(), resolved);
            }
            i += 1;
        }
        out.vars = vars;
        out.path = path;
        out
    }
}

/// A text that does not begin with `$` resolves to itself, as a field of one value and as an
/// item of a list.
pub proof fn lemma_literal_resolves_to_itself(vars: Seq<(Seq<char>, VariableView)>, raw: Seq<char>)
    requires
        raw.len() == 0 || raw[0] != '$',
    ensures
        resolved_text(vars, raw) == raw,
        resolved_item(vars, raw) == seq![raw],
{
}

/// A list of which no item begins with `$` resolves to itself.
pub proof fn lemma_literal_list_resolves_to_itself(
    vars: Seq<(Seq<char>, VariableView)>,
    items: Seq<Seq<char>>,
    n: int,
)
    requires
        0 <= n <= items.len(),
        forall|i: int| 0 <= i < n ==> (#[trigger] items[i]).len() == 0 || items[i][0] != '$',
    ensures
        resolved_list(vars, items, n) == items.take(n),
    decreases n,
{
    if n > 0 {
        lemma_literal_list_resolves_to_itself(vars, items, n - 1);
        lemma_literal_resolves_to_itself(vars, items[n - 1]);
        assert(items.take(n - 1) + seq![items[n - 1]] =~= items.take(n));
    } else {
        assert(items.take(0) =~= Seq::<Seq<char>>::empty());
    }
}

/// A field that a template has not set is the default template's; one that it has set is
/// its own, however little it holds.
pub proof fn lemma_inheritance(
    d: DerfileView,
    key: Seq<char>,
    t: TemplateView,
    fallback: TemplateView,
    directories: Seq<Seq<char>>,
)
    ensures
        ({
            let r = resolved_template(d, key, t, fallback, directories);
            &&& !t.given.extensions ==> r.extensions == fallback.extensions
            &&& !t.given.hostnames ==> r.hostnames == fallback.hostnames
            &&& !t.given.recursive ==> r.recursive == fallback.recursive
            &&& !t.given.parse_files ==> r.parse_files == fallback.parse_files
            &&& t.given.extensions ==> r.extensions == resolved_list(
                d.vars,
                t.extensions,
                t.extensions.len() as int,
            )
            &&& t.given.hostnames ==> r.hostnames == resolved_list(
                d.vars,
                t.hostnames,
                t.hostnames.len() as int,
            )
            &&& t.given.recursive ==> r.recursive == t.recursive
            &&& t.given.parse_files ==> r.parse_files == t.parse_files
        }),
{
}

/// A template whose block has a line for its extensions does not take the default
/// template's, even where the line's value is empty.
pub proof fn lemma_written_extensions_are_kept(
    d: DerfileView,
    key: Seq<char>,
    t: TemplateView,
    raw: Seq<char>,
    fallback: TemplateView,
    directories: Seq<Seq<char>>,
)
    ensures
        ({
            let written = crate::manifest::assigned(t, "extensions"@, raw);
            let r = resolved_template(d, key, written, fallback, directories);
            &&& written.given.extensions
            &&& written.extensions == t.extensions + crate::text::trimmed_each(
                crate::text::pieces(raw, ','),
            )
            &&& r.extensions == resolved_list(
                d.vars,
                written.extensions,
                written.extensions.len() as int,
            )
        }),
{
    reveal_strlit("extensions");
    reveal_strlit("final_name");
    reveal_strlit("hostnames");
    reveal_strlit("apply_path");
    reveal_strlit("recursive");
    reveal_strlit("parse_files");
    assert("extensions"@[0] != "final_name"@[0]);
    assert("extensions"@[0] != "apply_path"@[0]);
    assert("extensions"@.len() != "hostnames"@.len());
    assert("extensions"@.len() != "recursive"@.len());
    assert("extensions"@.len() != "parse_files"@.len());
}

/// An output directory that is resolved against an absolute directory is absolute.
pub proof fn lemma_resolved_path_is_absolute(
    vars: Seq<(Seq<char>, VariableView)>,
    dir: Seq<char>,
    raw: Seq<char>,
    is_dir: bool,
)
    requires
        is_absolute(dir),
    ensures
        is_absolute(resolved_path(vars, dir, raw, is_dir)),
{
    let value = resolved_text(vars, raw);
    if !is_absolute(value) {
        assert(is_absolute(joined_path(dir, value)));
    }
}

/// After resolution the output directory of every template of a derfile that stands at an
/// absolute path is absolute.
pub proof fn lemma_resolved_template_is_absolute(
    d: DerfileView,
    key: Seq<char>,
    t: TemplateView,
    fallback: TemplateView,
    directories: Seq<Seq<char>>,
)
    requires
        is_absolute(d.path),
    ensures
        is_absolute(resolved_template(d, key, t, fallback, directories).apply_path),
{
    crate::paths::lemma_parent_of_absolute(d.path);
    lemma_resolved_path_is_absolute(
        d.vars,
        parent_dir(d.path),
        t.apply_path,
        directories.contains(key),
    );
}

} // verus!
