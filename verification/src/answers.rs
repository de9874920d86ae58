//! What the surroundings were asked and what they answered.
//!
//! A manifest may take the value of a variable from the output of a shell command or from an
//! environment variable. The library runs no command and reads no environment: it names the
//! lookups that a text needs, and is handed their answers as values.

use crate::text::{is_str, to_chars};
use vstd::prelude::*;

verus! {

/// Where a looked-up value comes from.
#[derive(Debug, Clone, Copy, PartialEq, Eq, Structural)]
pub enum Source {
    /// The trimmed output of a shell command.
    Command,
    /// The value of an environment variable.
    Env,
}

/// A question for the surroundings: the command to run or the environment variable to read.
#[derive(Debug)]
pub struct Lookup {
    pub source: Source,
    pub text: String,
}

/// What a lookup holds.
pub struct LookupView {
    pub source: Source,
    pub text: Seq<char>,
}

impl View for Lookup {
    type V = LookupView;

    open spec fn view(&self) -> LookupView {
        LookupView { source: self.source, text: self.text@ }
    }
}

/// The answer to a lookup. The value is `None` where the command could not be run or the
/// environment variable is not set.
#[derive(Debug)]
pub struct Answer {
    pub source: Source,
    pub text: String,
    pub value: Option<String>,
}

/// What an answer holds.
pub struct AnswerView {
    pub source: Source,
    pub text: Seq<char>,
    pub value: Option<Seq<char>>,
}

impl View for Answer {
    type V = AnswerView;

    open spec fn view(&self) -> AnswerView {
        AnswerView {
            source: self.source,
            text: self.text@,
            value: match self.value {
                Some(s) => Some(s@),
                None => None,
            },
        }
    }
}

/// What the answers `v` hold.
pub open spec fn answer_views(v: Seq<Answer>) -> Seq<AnswerView> {
    v.map_values(|a: Answer| a@)
}

/// What the lookups `v` hold.
pub open spec fn lookup_views(v: Seq<Lookup>) -> Seq<LookupView> {
    v.map_values(|l: Lookup| l@)
}

/// The value that `answers` give for a lookup: that of the first answer to this lookup, and
/// none where no answer is to this lookup.
pub open spec fn answered(answers: Seq<AnswerView>, source: Source, text: Seq<char>) -> Option<
    Seq<char>,
>
    decreases answers.len(),
{
    if answers.len() == 0 {
        None
    } else if answers[0].source == source && answers[0].text == text {
        answers[0].value
    } else {
        answered(answers.drop_first(), source, text)
    }
}

/// The value that `answers` give for a lookup.
pub fn find_answer(answers: &Vec<Answer>, source: Source, text: &Vec<char>) -> (r: Option<
    Vec<char>,
>)
    ensures
        match r {
            Some(v) => answered(answer_views(answers@), source, text@) == Some(v@),
            None => answered(answer_views(answers@), source, text@) is None,
        },
{
    let ghost all = answer_views(answers@);
    let mut i: usize = 0;
    assert(all.skip(0) =~= all);
    while i < answers.len()
        invariant
            i <= answers.len(),
            all == answer_views(answers@),
            answered(all, source, text@) == answered(all.skip(i as int), source, text@),
        decreases answers.len() - i,
    {
        let a = &answers[i];
        proof {
            let rest = all.skip(i as int);
            assert(rest[0] == a@);
            assert(rest.drop_first() =~= all.skip(i + 1));
        }
        if a.source == source && is_str(text, a.text.as_str()) {
            return match &a.value {
                Some(s) => Some(to_chars(s.as_str())),
                None => None,
            };
        }
        i += 1;
    }
    None
}

} // verus!
