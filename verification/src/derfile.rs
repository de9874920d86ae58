//! The manifest's data: templates, variables and the derfile that holds both.

use crate::text::{first_index, lemma_first_index, lemma_first_index_is_first, strs};
use vstd::prelude::*;
use vstd::string::StringExecFns;

verus! {

/// Which fields of a template have been set, as opposed to left for the default template.
#[derive(Debug, Clone, Copy, PartialEq, Eq, Structural)]
pub struct Given {
    pub final_name: bool,
    pub hostnames: bool,
    pub apply_path: bool,
    pub recursive: bool,
    pub parse_files: bool,
    pub extensions: bool,
}

impl Given {
    /// No field set.
    pub open spec fn nothing() -> Given {
        Given {
            final_name: false,
            hostnames: false,
            apply_path: false,
            recursive: false,
            parse_files: false,
            extensions: false,
        }
    }
}

/// A template section of a derfile.
#[derive(Debug)]
pub struct Template {
    /// The template's name, which is its path.
    pub name: String,
    /// Name of the output file.
    pub final_name: String,
    /// The hosts for which this template is meant.
    pub hostnames: Vec<String>,
    /// The directory in which the output is placed.
    pub apply_path: String,
    /// For a directory: whether the files found in it are rendered.
    pub parse_files: bool,
    /// For a directory: the extensions that mark template files.
    pub extensions: Vec<String>,
    /// For a directory: whether its subdirectories are visited too.
    pub recursive: bool,
    /// Which of the fields above have been set.
    pub given: Given,
}

/// What a template holds.
pub struct TemplateView {
    pub name: Seq<char>,
    pub final_name: Seq<char>,
    pub hostnames: Seq<Seq<char>>,
    pub apply_path: Seq<char>,
    pub parse_files: bool,
    pub extensions: Seq<Seq<char>>,
    pub recursive: bool,
    pub given: Given,
}

impl TemplateView {
    /// The template in which nothing is set.
    pub open spec fn empty() -> TemplateView {
        TemplateView {
            name: Seq::empty(),
            final_name: Seq::empty(),
            hostnames: Seq::empty(),
            apply_path: Seq::empty(),
            parse_files: false,
            extensions: Seq::empty(),
            recursive: false,
            given: Given::nothing(),
        }
    }
}

impl View for Template {
    type V = TemplateView;

    open spec fn view(&self) -> TemplateView {
        TemplateView {
            name: self.name@,
            final_name: self.final_name@,
            hostnames: strs(self.hostnames@),
            apply_path: self.apply_path@,
            parse_files: self.parse_files,
            extensions: strs(self.extensions@),
            recursive: self.recursive,
            given: self.given,
        }
    }
}

/// A copy of `v`.
pub fn clone_strings(v: &Vec<String>) -> (out: Vec<String>)
    ensures
        strs(out@) == strs(v@),
{
    let mut out: Vec<String> = Vec::new();
    let mut i: usize = 0;
    while i < v.len()
        invariant
            i <= v.len(),
            strs(out@) == strs(v@).take(i as int),
        decreases v.len() - i,
    {
        let s = v[i].clone();
        proof {
            assert(strs(out@.push(s)) =~= strs(out@).push(s@));
            assert(strs(v@).take(i + 1) =~= strs(v@).take(i as int).push(v@[i as int]@));
        }
        out.push(s);
        i += 1;
    }
    assert(strs(v@).take(v.len() as int) =~= strs(v@));
    out
}

impl Clone for Template {
    fn clone(&self) -> (out: Self)
        ensures
            out@ == self@,
    {
        Template {
            name: self.name.clone(),
            final_name: self.final_name.clone(),
            hostnames: clone_strings(&self.hostnames),
            apply_path: self.apply_path.clone(),
            parse_files: self.parse_files,
            extensions: clone_strings(&self.extensions),
            recursive: self.recursive,
            given: self.given,
        }
    }
}

impl Default for Template {
    fn default() -> (out: Self)
        ensures
            out@ == TemplateView::empty(),
    {
        let out = Template {
            name: String::new(),
            final_name: String::new(),
            hostnames: Vec::new(),
            apply_path: String::new(),
            parse_files: false,
            extensions: Vec::new(),
            recursive: false,
            given: Given {
                final_name: false,
                hostnames: false,
                apply_path: false,
                recursive: false,
                parse_files: false,
                extensions: false,
            },
        };
        assert(strs(out.hostnames@) =~= Seq::empty());
        assert(strs(out.extensions@) =~= Seq::empty());
        out
    }
}

impl Template {
    /// Sets the name.
    pub fn set_name(&mut self, name: String)
        ensures
            final(self)@ == (TemplateView { name: name@, ..old(self)@ }),
    {
        self.name = name
    }

    /// Sets the name of the output file and records that it was set.
    pub fn set_final_name(&mut self, final_name: String)
        ensures
            final(self)@ == (TemplateView {
                final_name: final_name@,
                given: Given { final_name: true, ..old(self)@.given },
                ..old(self)@
            }),
    {
        self.final_name = final_name;
        self.given.final_name = true;
    }

    /// Adds a host and records that the hosts were set.
    pub fn add_hostname(&mut self, hostname: String)
        ensures
            final(self)@ == (TemplateView {
                hostnames: old(self)@.hostnames.push(hostname@),
                given: Given { hostnames: true, ..old(self)@.given },
                ..old(self)@
            }),
    {
        assert(strs(self.hostnames@.push(hostname)) =~= strs(self.hostnames@).push(hostname@));
        self.hostnames.push(hostname);
        self.given.hostnames = true;
    }

    /// Sets the output directory and records that it was set.
    pub fn set_apply_path(&mut self, apply_path: String)
        ensures
            final(self)@ == (TemplateView {
                apply_path: apply_path@,
                given: Given { apply_path: true, ..old(self)@.given },
                ..old(self)@
            }),
    {
        self.apply_path = apply_path;
        self.given.apply_path = true;
    }

    /// Sets whether subdirectories are visited and records that this was set.
    pub fn set_recursive(&mut self, arg: bool)
        ensures
            final(self)@ == (TemplateView {
                recursive: arg,
                given: Given { recursive: true, ..old(self)@.given },
                ..old(self)@
            }),
    {
        self.recursive = arg;
        self.given.recursive = true;
    }

    /// Sets whether files are rendered and records that this was set.
    pub fn set_parse_files(&mut self, arg: bool)
        ensures
            final(self)@ == (TemplateView {
                parse_files: arg,
                given: Given { parse_files: true, ..old(self)@.given },
                ..old(self)@
            }),
    {
        self.parse_files = arg;
        self.given.parse_files = true;
    }

    /// Adds an extension and records that the extensions were set.
    pub fn add_extension(&mut self, ext: String)
        ensures
            final(self)@ == (TemplateView {
                extensions: old(self)@.extensions.push(ext@),
                given: Given { extensions: true, ..old(self)@.given },
                ..old(self)@
            }),
    {
        assert(strs(self.extensions@.push(ext)) =~= strs(self.extensions@).push(ext@));
        self.extensions.push(ext);
        self.given.extensions = true;
    }

    /// The hosts, with a comma between each two.
    pub fn serialize_hostnames(&self) -> (out: String)
        ensures
            out@ == crate::text::joined(self@.hostnames, seq![',']),
    {
        proof {
            reveal_strlit(",");
            assert(","@ =~= seq![',']);
        }
        crate::text::join(&self.hostnames, ",")
    }

    /// The extensions, with a comma between each two.
    pub fn serialize_extensions(&self) -> (out: String)
        ensures
            out@ == crate::text::joined(self@.extensions, seq![',']),
    {
        proof {
            reveal_strlit(",");
            assert(","@ =~= seq![',']);
        }
        crate::text::join(&self.extensions, ",")
    }
}

/// A single derfile variable.
#[derive(Debug)]
pub struct Variable {
    pub _name: String,
    /// The values of the variable, in order.
    pub value: Vec<String>,
}

/// What a variable holds.
pub struct VariableView {
    pub name: Seq<char>,
    pub value: Seq<Seq<char>>,
}

impl View for Variable {
    type V = VariableView;

    open spec fn view(&self) -> VariableView {
        VariableView { name: self._name@, value: strs(self.value@) }
    }
}

impl Clone for Variable {
    fn clone(&self) -> (out: Self)
        ensures
            out@ == self@,
    {
        Variable { _name: self._name.clone(), value: clone_strings(&self.value) }
    }
}

impl Default for Variable {
    fn default() -> (out: Self)
        ensures
            out@ == (VariableView { name: Seq::empty(), value: Seq::empty() }),
    {
        let out = Variable { _name: String::new(), value: Vec::new() };
        assert(strs(out.value@) =~= Seq::empty());
        out
    }
}

impl Variable {
    /// A variable with the name and values given.
    pub fn new(_name: String, value: Vec<String>) -> (out: Self)
        ensures
            out@ == (VariableView { name: _name@, value: strs(value@) }),
    {
        Self { _name, value }
    }

    /// The values, with a comma and a space between each two.
    pub fn serialize(&self) -> (out: String)
        ensures
            out@ == crate::text::joined(self@.value, seq![',', ' ']),
    {
        proof {
            reveal_strlit(", ");
            assert(", "@ =~= seq![',', ' ']);
        }
        crate::text::join(&self.value, ", ")
    }
}

/// The keys of `entries`, in order.
pub open spec fn keys<V>(entries: Seq<(Seq<char>, V)>) -> Seq<Seq<char>> {
    entries.map_values(|e: (Seq<char>, V)| e.0)
}

/// The value that `entries` holds under `key`: that of the first entry with this key.
pub open spec fn lookup<V>(entries: Seq<(Seq<char>, V)>, key: Seq<char>) -> Option<V> {
    let i = first_index(keys(entries), key);
    if 0 <= i < entries.len() {
        Some(entries[i].1)
    } else {
        None
    }
}

/// `entries` with `value` under `key`: in the place of the entry that had this key, or at
/// the end where there was none.
pub open spec fn inserted<V>(entries: Seq<(Seq<char>, V)>, key: Seq<char>, value: V) -> Seq<
    (Seq<char>, V),
> {
    let i = first_index(keys(entries), key);
    if 0 <= i < entries.len() {
        entries.update(i, (key, value))
    } else {
        entries.push((key, value))
    }
}

/// After an insertion the key is found, at the place of the entry that had it before or at
/// the end, and holds the value inserted.
pub proof fn lemma_inserted<V>(entries: Seq<(Seq<char>, V)>, key: Seq<char>, value: V)
    ensures
        ({
            let out = inserted(entries, key, value);
            let before = first_index(keys(entries), key);
            let i = first_index(keys(out), key);
            &&& 0 <= i < out.len()
            &&& out[i] == (key, value)
            &&& i == if before < entries.len() {
                before
            } else {
                entries.len() as int
            }
            &&& lookup(out, key) == Some(value)
        }),
{
    let out = inserted(entries, key, value);
    let before = first_index(keys(entries), key);
    lemma_first_index_is_first(keys(entries), key);
    if before < entries.len() {
        assert(keys(out) =~= keys(entries).update(before, key));
        lemma_first_index(keys(out), key, before);
    } else {
        assert(keys(out) =~= keys(entries).push(key));
        lemma_first_index(keys(out), key, entries.len() as int);
    }
}

/// The keys of `entries`, in order.
pub open spec fn names<V>(entries: Seq<(String, V)>) -> Seq<Seq<char>> {
    entries.map_values(|e: (String, V)| e.0@)
}

/// What the template entries `v` hold.
pub open spec fn template_entries(v: Seq<(String, Template)>) -> Seq<(Seq<char>, TemplateView)> {
    v.map_values(|e: (String, Template)| (e.0@, e.1@))
}

/// What the variable entries `v` hold.
pub open spec fn variable_entries(v: Seq<(String, Variable)>) -> Seq<(Seq<char>, VariableView)> {
    v.map_values(|e: (String, Variable)| (e.0@, e.1@))
}

/// The index of the first entry with the key `key`, if there is one.
pub fn find_entry<V>(entries: &Vec<(String, V)>, key: &str) -> (r: Option<usize>)
    ensures
        match r {
            Some(i) => i < entries.len() && i == first_index(names(entries@), key@),
            None => first_index(names(entries@), key@) == entries.len(),
        },
{
    let wanted = String::from_str(key);
    let mut i: usize = 0;
    while i < entries.len()
        invariant
            i <= entries.len(),
            wanted@ == key@,
            forall|j: int| 0 <= j < i ==> #[trigger] names(entries@)[j] != key@,
        decreases entries.len() - i,
    {
        if entries[i].0 == wanted {
            proof {
                lemma_first_index(names(entries@), key@, i as int);
            }
            return Some(i);
        }
        i += 1;
    }
    proof {
        lemma_first_index(names(entries@), key@, i as int);
    }
    None
}

/// Representation of a derfile.
#[derive(Debug)]
pub struct Derfile {
    /// The templates under their names, which are their paths, in the order in which the
    /// names first came.
    pub templates: Vec<(String, Template)>,
    /// The variables under their names, in the order in which the names first came.
    pub vars: Vec<(String, Variable)>,
    /// The path of the derfile itself.
    pub path: String,
}

/// What a derfile holds.
pub struct DerfileView {
    pub templates: Seq<(Seq<char>, TemplateView)>,
    pub vars: Seq<(Seq<char>, VariableView)>,
    pub path: Seq<char>,
}

impl View for Derfile {
    type V = DerfileView;

    open spec fn view(&self) -> DerfileView {
        DerfileView {
            templates: template_entries(self.templates@),
            vars: variable_entries(self.vars@),
            path: self.path@,
        }
    }
}

impl Default for Derfile {
    fn default() -> (out: Self)
        ensures
            out@ == (DerfileView {
                templates: Seq::empty(),
                vars: Seq::empty(),
                path: Seq::empty(),
            }),
    {
        let out = Derfile { templates: Vec::new(), vars: Vec::new(), path: String::new() };
        assert(template_entries(out.templates@) =~= Seq::empty());
        assert(variable_entries(out.vars@) =~= Seq::empty());
        out
    }
}

impl Clone for Derfile {
    fn clone(&self) -> (out: Self)
        ensures
            out@ == self@,
    {
        let mut templates: Vec<(String, Template)> = Vec::new();
        let mut i: usize = 0;
        while i < self.templates.len()
            invariant
                i <= self.templates.len(),
                template_entries(templates@) == template_entries(self.templates@).take(i as int),
            decreases self.templates.len() - i,
        {
            let e = (self.templates[i].0.clone(), self.templates[i].1.clone());
            proof {
                assert(template_entries(templates@.push(e)) =~= template_entries(
                    templates@,
                ).push((e.0@, e.1@)));
                assert(template_entries(self.templates@).take(i + 1) =~= template_entries(
                    self.templates@,
                ).take(i as int).push((self.templates@[i as int].0@, self.templates@[i as int].1@)));
            }
            templates.push(e);
            i += 1;
        }
        let mut vars: Vec<(String, Variable)> = Vec::new();
        let mut k: usize = 0;
        while k < self.vars.len()
            invariant
                k <= self.vars.len(),
                variable_entries(vars@) == variable_entries(self.vars@).take(k as int),
            decreases self.vars.len() - k,
        {
            let e = (self.vars[k].0.clone(), self.vars[k].1.clone());
            proof {
                assert(variable_entries(vars@.push(e)) =~= variable_entries(vars@).push(
                    (e.0@, e.1@),
                ));
                assert(variable_entries(self.vars@).take(k + 1) =~= variable_entries(
                    self.vars@,
                ).take(k as int).push((self.vars@[k as int].0@, self.vars@[k as int].1@)));
            }
            vars.push(e);
            k += 1;
        }
        assert(template_entries(self.templates@).take(self.templates.len() as int)
            =~= template_entries(self.templates@));
        assert(variable_entries(self.vars@).take(self.vars.len() as int) =~= variable_entries(
            self.vars@,
        ));
        Derfile { templates, vars, path: self.path.clone() }
    }
}

impl Derfile {
    /// Puts `template` under `key`, in the place of the template that had this key or, where
    /// there was none, behind all others. Returns the index of its entry.
    pub fn insert_template(&mut self, key: String, template: Template) -> (i: usize)
        ensures
            final(self)@ == (DerfileView {
                templates: inserted(old(self)@.templates, key@, template@),
                ..old(self)@
            }),
            i < final(self).templates.len(),
            i == first_index(keys(final(self)@.templates), key@),
            final(self).templates@[i as int].1@ == template@,
    {
        let found = find_entry(&self.templates, key.as_str());
        proof {
            assert(keys(template_entries(self.templates@)) =~= names(self.templates@));
            lemma_inserted(template_entries(self.templates@), key@, template@);
        }
        match found {
            Some(i) => {
                assert(template_entries(self.templates@.update(i as int, (key, template)))
                    =~= template_entries(self.templates@).update(i as int, (key@, template@)));
                self.templates[i] = (key, template);
                i
            },
            None => {
                assert(template_entries(self.templates@.push((key, template)))
                    =~= template_entries(self.templates@).push((key@, template@)));
                self.templates.push((key, template));
                self.templates.len() - 1
            },
        }
    }

    /// Puts `var` under `key`, in the place of the variable that had this key or, where
    /// there was none, behind all others.
    pub fn insert_var(&mut self, key: String, var: Variable)
        ensures
            final(self)@ == (DerfileView {
                vars: inserted(old(self)@.vars, key@, var@),
                ..old(self)@
            }),
    {
        let found = find_entry(&self.vars, key.as_str());
        proof {
            assert(keys(variable_entries(self.vars@)) =~= names(self.vars@));
        }
        match found {
            Some(i) => {
                assert(variable_entries(self.vars@.update(i as int, (key, var)))
                    =~= variable_entries(self.vars@).update(i as int, (key@, var@)));
                self.vars[i] = (key, var);
            },
            None => {
                assert(variable_entries(self.vars@.push((key, var))) =~= variable_entries(
                    self.vars@,
                ).push((key@, var@)));
                self.vars.push((key, var));
            },
        }
    }

    /// Puts a template in which nothing is set under `name`, in the place of the template
    /// that had this name or, where there was none, behind all others.
    pub fn add_template(&mut self, name: String)
        ensures
            final(self)@ == (DerfileView {
                templates: inserted(old(self)@.templates, name@, TemplateView::empty()),
                ..old(self)@
            }),
    {
        self.insert_template(name, Template::default());
    }

    /// The template under `name`, to read and to change, if there is one.
    pub fn get_template(&mut self, name: &str) -> (r: Option<&mut Template>)
        ensures
            match r {
                Some(t) => {
                    let i = first_index(keys(old(self)@.templates), name@);
                    &&& 0 <= i < old(self)@.templates.len()
                    &&& t@ == old(self)@.templates[i].1
                    &&& final(self)@ == (DerfileView {
                        templates: old(self)@.templates.update(i, (name@, final(t)@)),
                        ..old(self)@
                    })
                },
                None => lookup(old(self)@.templates, name@) is None && final(self)@ == old(self)@,
            },
    {
        let found = find_entry(&self.templates, name);
        proof {
            assert(keys(template_entries(self.templates@)) =~= names(self.templates@));
        }
        match found {
            Some(i) => {
                let ghost before = self.templates@;
                let t = &mut self.templates[i].1;
                proof {
                    lemma_first_index_is_first(names(before), name@);
                    assert(names(before)[i as int] == before[i as int].0@);
                    assert(template_entries(before.update(i as int, (before[i as int].0, *final(t))))
                        =~= template_entries(before).update(i as int, (name@, final(t)@)));
                }
                Some(t)
            },
            None => None,
        }
    }

    /// Puts a variable with the values `value` under `name`, in the place of the variable
    /// that had this name or, where there was none, behind all others.
    pub fn add_var(&mut self, name: String, value: Vec<String>)
        ensures
            final(self)@ == (DerfileView {
                vars: inserted(
                    old(self)@.vars,
                    name@,
                    VariableView { name: name@, value: strs(value@) },
                ),
                ..old(self)@
            }),
    {
        let var = Variable::new(name.clone(), value);
        self.insert_var(name, var);
    }

    /// The variable under `name`, to read and to change, if there is one.
    pub fn get_var(&mut self, name: &str) -> (r: Option<&mut Variable>)
        ensures
            match r {
                Some(v) => {
                    let i = first_index(keys(old(self)@.vars), name@);
                    &&& 0 <= i < old(self)@.vars.len()
                    &&& v@ == old(self)@.vars[i].1
                    &&& final(self)@ == (DerfileView {
                        vars: old(self)@.vars.update(i, (name@, final(v)@)),
                        ..old(self)@
                    })
                },
                None => lookup(old(self)@.vars, name@) is None && final(self)@ == old(self)@,
            },
    {
        let found = find_entry(&self.vars, name);
        proof {
            assert(keys(variable_entries(self.vars@)) =~= names(self.vars@));
        }
        match found {
            Some(i) => {
                let ghost before = self.vars@;
                let v = &mut self.vars[i].1;
                proof {
                    lemma_first_index_is_first(names(before), name@);
                    assert(names(before)[i as int] == before[i as int].0@);
                    assert(variable_entries(before.update(i as int, (before[i as int].0, *final(v))))
                        =~= variable_entries(before).update(i as int, (name@, final(v)@)));
                }
                Some(v)
            },
            None => None,
        }
    }
}

} // verus!
