//! Loading a derfile: its text is scanned, the configuration is merged in, and the
//! templates are resolved.

use crate::answers::{answer_views, Answer, AnswerView};
use crate::config::{Config, ConfigView};
use crate::derfile::{inserted, Derfile, DerfileView, VariableView};
use crate::error::Error;
use crate::manifest::raw_derfile;
use crate::resolve::{default_key, resolved_derfile};
use crate::text::strs;
use vstd::prelude::*;
use vstd::string::StringExecFns;

verus! {

/// `vars` with the first `n` of `more` put in, each under its own name, in order: a
/// variable of `more` takes the place of one with the same name.
pub open spec fn merged_vars(
    vars: Seq<(Seq<char>, VariableView)>,
    more: Seq<VariableView>,
    n: int,
) -> Seq<(Seq<char>, VariableView)>
    decreases n,
{
    if n <= 0 {
        vars
    } else {
        inserted(merged_vars(vars, more, n - 1), more[n - 1].name, more[n - 1])
    }
}

/// The derfile `d` with the configuration `c` merged in: the variables of `c` are put in,
/// and the template of `c` stands under the default key.
pub open spec fn configured_derfile(d: DerfileView, c: ConfigView) -> DerfileView {
    DerfileView {
        templates: inserted(d.templates, default_key(), c.template),
        vars: merged_vars(d.vars, c.vars, c.vars.len() as int),
        path: d.path,
    }
}

/// What loading the manifest `buffer` at `path` gives: the manifest as it was scanned, with
/// the configuration merged in, resolved.
pub open spec fn loaded_derfile(
    buffer: Seq<char>,
    path: Seq<char>,
    c: ConfigView,
    answers: Seq<AnswerView>,
    directories: Seq<Seq<char>>,
) -> DerfileView {
    resolved_derfile(configured_derfile(raw_derfile(buffer, path, answers), c), directories)
}

impl Derfile {
    /// Merges the configuration in: its variables are put in under their names, and its
    /// template under the default key.
    pub fn with_config(&mut self, config: &Config)
        ensures
            final(self)@ == configured_derfile(old(self)@, config@),
    {
        let ghost start = self@;
        let mut i: usize = 0;
        while i < config.vars.len()
            invariant
                i <= config.vars.len(),
                self@ == (DerfileView { vars: merged_vars(start.vars, config@.vars, i as int), ..start }),
            decreases config.vars.len() - i,
        {
            let v = &config.vars[i];
            assert(config@.vars[i as int] == v@);
            self.insert_var(v._name.clone(), v.clone());
            i += 1;
        }
        self.insert_template(String::from_str("[default-template]"), config.template.clone());
    }

    /// Loads the derfile whose text is `buffer` and which stands at `path`. The answers give
    /// the values of the variables that are looked up; `directories` names the templates
    /// that are directories. It never fails.
    pub fn load_derfile(
        buffer: String,
        path: &str,
        config: &Config,
        answers: &Vec<Answer>,
        directories: &Vec<String>,
    ) -> (r: Result<Derfile, Error>)
        ensures
            r is Ok,
            r->Ok_0@ == loaded_derfile(
                buffer@,
                path@,
                config@,
                answer_views(answers@),
                strs(directories@),
            ),
    {
        let mut d = Derfile::scan(buffer.as_str(), path, answers);
        d.with_config(config);
        Ok(d.parse(directories))
    }
}

} // verus!
