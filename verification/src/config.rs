//! The configuration: the default template and the variables that every derfile gets.
//!
//! Its text has one `key = value` per line. A key that begins with `$` declares a variable;
//! the keys `hostnames`, `extensions`, `recursive` and `parse_files` set the default
//! template.

use crate::answers::{answer_views, lookup_views, Answer, AnswerView, Lookup};
use crate::derfile::{Derfile, Given, Template, TemplateView, Variable, VariableView};
use crate::error::Error;
use crate::manifest::{
    add_extensions, add_hostnames, declaration, declaration_of, declared_values, values_of, wanted,
};
use crate::text::{
    after, before, find, is_str, joined, lemma_pieces_len, lines, lines_of, pieces, rows, slice,
    split, to_chars, to_string, to_strings, trim, trimmed,
};
use vstd::prelude::*;
use vstd::string::StringExecFns;

verus! {

/// The default template and the variables of a configuration.
#[derive(Debug)]
pub struct Config {
    pub template: Template,
    pub vars: Vec<Variable>,
}

/// What a configuration holds.
pub struct ConfigView {
    pub template: TemplateView,
    pub vars: Seq<VariableView>,
}

/// What the variables `v` hold.
pub open spec fn variable_views(v: Seq<Variable>) -> Seq<VariableView> {
    v.map_values(|x: Variable| x@)
}

impl View for Config {
    type V = ConfigView;

    open spec fn view(&self) -> ConfigView {
        ConfigView { template: self.template@, vars: variable_views(self.vars@) }
    }
}

impl Default for Config {
    fn default() -> (out: Self)
        ensures
            out@ == (ConfigView { template: TemplateView::empty(), vars: Seq::empty() }),
    {
        let out = Config { template: Template::default(), vars: Vec::new() };
        assert(variable_views(out.vars@) =~= Seq::empty());
        out
    }
}

impl Clone for Config {
    fn clone(&self) -> (out: Self)
        ensures
            out@ == self@,
    {
        let mut vars: Vec<Variable> = Vec::new();
        let mut i: usize = 0;
        while i < self.vars.len()
            invariant
                i <= self.vars.len(),
                variable_views(vars@) == variable_views(self.vars@).take(i as int),
            decreases self.vars.len() - i,
        {
            let v = self.vars[i].clone();
            proof {
                assert(variable_views(vars@.push(v)) =~= variable_views(vars@).push(v@));
                assert(variable_views(self.vars@).take(i + 1) =~= variable_views(self.vars@).take(
                    i as int,
                ).push(self.vars@[i as int]@));
            }
            vars.push(v);
            i += 1;
        }
        assert(variable_views(self.vars@).take(self.vars.len() as int) =~= variable_views(
            self.vars@,
        ));
        Config { template: self.template.clone(), vars }
    }
}

/// The default template `t` after the line `key = value`. The keys `hostnames` and
/// `extensions` add the items of a comma-separated list as they stand, `recursive` and
/// `parse_files` set a flag that is true for the value `true` alone. Any other key leaves
/// the template as it is.
pub open spec fn default_assigned(t: TemplateView, key: Seq<char>, value: Seq<char>) -> TemplateView {
    if key == "extensions"@ {
        TemplateView {
            extensions: t.extensions + pieces(value, ','),
            given: Given { extensions: true, ..t.given },
            ..t
        }
    } else if key == "hostnames"@ {
        TemplateView {
            hostnames: t.hostnames + pieces(value, ','),
            given: Given { hostnames: true, ..t.given },
            ..t
        }
    } else if key == "recursive"@ {
        TemplateView {
            recursive: value == "true"@,
            given: Given { recursive: true, ..t.given },
            ..t
        }
    } else if key == "parse_files"@ {
        TemplateView {
            parse_files: value == "true"@,
            given: Given { parse_files: true, ..t.given },
            ..t
        }
    } else {
        t
    }
}

/// The configuration `c` after `line`. A declaration adds a variable with one value: what
/// its lookup gave, or its right side as it stands; a lookup without a value adds nothing.
/// Any other line with a `=` sets the default template, the key and the value trimmed. A
/// line without a `=` changes nothing.
pub open spec fn configured_line(c: ConfigView, line: Seq<char>, answers: Seq<AnswerView>) -> ConfigView {
    match declaration(line) {
        Some((name, right)) => match declared_values(right, answers, false) {
            Some(values) => ConfigView {
                vars: c.vars.push(VariableView { name: name, value: values }),
                ..c
            },
            None => c,
        },
        None => if line.contains('=') {
            ConfigView {
                template: default_assigned(
                    c.template,
                    trimmed(before(line, '=')),
                    trimmed(after(line, '=')),
                ),
                ..c
            }
        } else {
            c
        },
    }
}

/// The configuration that the first `n` of `lines` give.
pub open spec fn configured(lines: Seq<Seq<char>>, answers: Seq<AnswerView>, n: int) -> ConfigView
    decreases n,
{
    if n <= 0 {
        ConfigView { template: TemplateView::empty(), vars: Seq::empty() }
    } else {
        configured_line(configured(lines, answers, n - 1), lines[n - 1], answers)
    }
}

/// The lines with which `vars` are written, one declaration each.
pub open spec fn variable_lines(vars: Seq<VariableView>, n: int) -> Seq<char>
    decreases n,
{
    if n <= 0 {
        Seq::empty()
    } else {
        variable_lines(vars, n - 1) + seq!['$'] + vars[n - 1].name + " = "@ + joined(
            vars[n - 1].value,
            seq![',', ' '],
        ) + seq!['\n']
    }
}

/// The text with which the configuration `c` is written.
pub open spec fn config_text(c: ConfigView) -> Seq<char> {
    "hostnames = "@ + joined(c.template.hostnames, seq![',']) + seq!['\n'] + "extensions = "@
        + joined(c.template.extensions, seq![',']) + seq!['\n'] + "recursive = "@ + flag_text(
        c.template.recursive,
    ) + seq!['\n'] + "parse_files = "@ + flag_text(c.template.parse_files) + seq!['\n']
        + variable_lines(c.vars, c.vars.len() as int)
}

/// The word for a flag.
pub open spec fn flag_text(b: bool) -> Seq<char> {
    if b {
        "true"@
    } else {
        "false"@
    }
}

/// Applies the line `key = value` of a configuration to its default template.
pub fn assign_default(t: &mut Template, key: &Vec<char>, value: &Vec<char>)
    ensures
        final(t)@ == default_assigned(old(t)@, key@, value@),
{
    if is_str(key, "extensions") {
        let items = split(value, ',');
        proof {
            lemma_pieces_len(value@, ',');
            assert(rows(items@).len() == items@.len());
        }
        add_extensions(t, &items);
    } else if is_str(key, "hostnames") {
        let items = split(value, ',');
        proof {
            lemma_pieces_len(value@, ',');
            assert(rows(items@).len() == items@.len());
        }
        add_hostnames(t, &items);
    } else if is_str(key, "recursive") {
        t.set_recursive(is_str(value, "true"));
    } else if is_str(key, "parse_files") {
        t.set_parse_files(is_str(value, "true"));
    }
}

impl Config {
    /// The lookups that the declarations of the configuration text `input` ask for, in the
    /// order of its lines.
    pub fn lookups(input: &str) -> (out: Vec<Lookup>)
        ensures
            lookup_views(out@) == wanted(lines_of(input@), lines_of(input@).len() as int),
    {
        Derfile::lookups(input)
    }

    /// Reads a configuration from its text. It never fails.
    pub fn parse(input: &str, answers: &Vec<Answer>) -> (r: Result<Config, Error>)
        ensures
            r is Ok,
            r->Ok_0@ == configured(
                lines_of(input@),
                answer_views(answers@),
                lines_of(input@).len() as int,
            ),
    {
        let text = to_chars(input);
        let all = lines(&text);
        let ghost ls = rows(all@);
        let mut config = Config::default();
        let mut i: usize = 0;
        while i < all.len()
            invariant
                i <= all.len(),
                ls == rows(all@),
                config@ == configured(ls, answer_views(answers@), i as int),
            decreases all.len() - i,
        {
            let line = &all[i];
            assert(ls[i as int] == line@);
            match declaration_of(line) {
                Some(decl) => match values_of(&decl.1, answers, false) {
                    Some(values) => {
                        let v = Variable::new(to_string(&decl.0), to_strings(&values));
                        assert(variable_views(config.vars@.push(v)) =~= variable_views(
                            config.vars@,
                        ).push(v@));
                        config.vars.push(v);
                    },
                    None => {},
                },
                None => match find(line, '=') {
                    Some(k) => {
                        let left = trim(&slice(line, 0, k));
                        let right = trim(&slice(line, k + 1, line.len()));
                        proof {
                            assert(line@.subrange(0, k as int) =~= before(line@, '='));
                            assert(line@.subrange(k + 1, line.len() as int) =~= after(line@, '='));
                        }
                        assign_default(&mut config.template, &left, &right);
                    },
                    None => {},
                },
            }
            i += 1;
        }
        Ok(config)
    }

    /// The text with which the configuration is written: the four fields of the default
    /// template, then one declaration for each variable.
    pub fn to_text(&self) -> (out: String)
        ensures
            out@ == config_text(self@),
    {
        proof {
            reveal_strlit("\n");
            assert("\n"@ =~= seq!['\n']);
            reveal_strlit("$");
            assert("$"@ =~= seq!['$']);
        }
        let mut out = String::from_str("hostnames = ");
        out.append(self.template.serialize_hostnames().as_str());
        out.append("\n");
        out.append("extensions = ");
        out.append(self.template.serialize_extensions().as_str());
        out.append("\n");
        out.append("recursive = ");
        out.append(if self.template.recursive {
            "true"
        } else {
            "false"
        });
        out.append("\n");
        out.append("parse_files = ");
        out.append(if self.template.parse_files {
            "true"
        } else {
            "false"
        });
        out.append("\n");
        let ghost head = out@;
        let mut i: usize = 0;
        assert(head + variable_lines(self@.vars, 0) =~= head);
        while i < self.vars.len()
            invariant
                i <= self.vars.len(),
                "\n"@ == seq!['\n'],
                "$"@ == seq!['$'],
                out@ == head + variable_lines(self@.vars, i as int),
            decreases self.vars.len() - i,
        {
            let v = &self.vars[i];
            assert(self@.vars[i as int] == v@);
            let ghost before_line = out@;
            out.append("$");
            out.append(v._name.as_str());
            out.append(" = ");
            out.append(v.serialize().as_str());
            out.append("\n");
            assert(out@ =~= head + (variable_lines(self@.vars, i as int) + seq!['$'] + v@.name
                + " = "@ + joined(v@.value, seq![',', ' ']) + seq!['\n']));
            i += 1;
        }
        out
    }
}

} // verus!
