//! The prefix classifier: which variables are handed on untouched, and which
//! are looked at for a directive.
//!
//! A name on the pass list is handed on, whatever the prefix says. Where a
//! prefix is set, a name that does not begin with it is handed on too. Every
//! other variable is a candidate.

use vstd::prelude::*;
use crate::config::{Configuration, ConfigurationView};
use crate::environment::{
    binds,
    lemma_with_binding_inserts,
    map_of,
    names_distinct,
    Environment,
    Variable,
    VariableView,
};
use crate::text::starts_with;
use crate::warning::{Warning, WarningView};

verus! {

/// What becomes of a variable, by its name alone.
#[derive(Clone, Copy, Debug, PartialEq, Eq, Structural)]
pub enum Class {
    /// The name is on the pass list.
    ExplicitPass,
    /// A prefix is set and the name does not begin with it.
    PrefixPass,
    /// The value is looked at for a directive.
    Candidate,
}

/// The class of `name` under `config`. The pass list is asked first.
pub open spec fn class_of(name: Seq<char>, config: ConfigurationView) -> Class {
    if config.pass.contains(name) {
        Class::ExplicitPass
    } else {
        match config.env_prefix {
            Some(prefix) => if prefix.is_prefix_of(name) {
                Class::Candidate
            } else {
                Class::PrefixPass
            },
            None => Class::Candidate,
        }
    }
}

/// The test that picks the candidates among the variables.
pub open spec fn is_candidate(config: ConfigurationView) -> spec_fn(VariableView) -> bool {
    |entry: VariableView| class_of(entry.name, config) == Class::Candidate
}

/// The names that are handed on untouched.
pub open spec fn forwarded_names(config: ConfigurationView) -> Set<Seq<char>> {
    Set::new(|name: Seq<char>| class_of(name, config) != Class::Candidate)
}

/// The variables of `entries` that are handed on untouched, as a mapping.
pub open spec fn forwarded_of(entries: Seq<VariableView>, config: ConfigurationView) -> Map<
    Seq<char>,
    Seq<char>,
> {
    map_of(entries).restrict(forwarded_names(config))
}

/// The candidates among `entries`, in the order of `entries`.
pub open spec fn candidates_of(entries: Seq<VariableView>, config: ConfigurationView) -> Seq<
    VariableView,
> {
    entries.filter(is_candidate(config))
}

/// The test that picks, among names, those that `entries` does not bind.
pub open spec fn is_missing(entries: Seq<VariableView>) -> spec_fn(Seq<char>) -> bool {
    |name: Seq<char>| !binds(entries, name)
}

/// The warning that a missing name gets.
pub open spec fn missing_warning() -> spec_fn(Seq<char>) -> WarningView {
    |name: Seq<char>| (WarningView::MissingPassVariable { variable: name })
}

/// One warning for each name of the pass list that `entries` does not bind,
/// in the order of the pass list.
pub open spec fn missing_of(entries: Seq<VariableView>, config: ConfigurationView) -> Seq<
    WarningView,
> {
    config.pass.filter(is_missing(entries)).map_values(missing_warning())
}

/// The variables of an environment, sorted by class.
#[derive(Debug)]
pub struct Classification {
    /// The variables handed on untouched.
    pub forwarded: Environment,
    /// The variables to look at for a directive, in the environment's order.
    pub candidates: Vec<Variable>,
    /// One warning for each pass name that the environment lacks.
    pub warnings: Vec<Warning>,
}

/// What one more element at the end adds to a filtered sequence.
proof fn lemma_filter_push<A>(s: Seq<A>, last: A, pred: spec_fn(A) -> bool)
    ensures
        s.push(last).filter(pred) == if pred(last) {
            s.filter(pred).push(last)
        } else {
            s.filter(pred)
        },
{
    reveal(Seq::filter);
    assert(s.push(last).drop_last() =~= s);
}

/// What one more variable adds to the variables that are handed on.
proof fn lemma_forwarded_step(entries: Seq<VariableView>, config: ConfigurationView, i: int)
    requires
        names_distinct(entries),
        0 <= i < entries.len(),
    ensures
        forwarded_of(entries.take(i + 1), config) == if class_of(entries[i].name, config)
            == Class::Candidate {
            forwarded_of(entries.take(i), config)
        } else {
            forwarded_of(entries.take(i), config).insert(entries[i].name, entries[i].value)
        },
{
    let before = entries.take(i);
    let entry = entries[i];
    assert(entries.take(i + 1) =~= before.push(entry));
    lemma_with_binding_inserts(before, entry.name, entry.value);
}

/// The class of `name` under `config`.
pub fn classify_name(name: &str, config: &Configuration) -> (class: Class)
    ensures
        class == class_of(name@, config@),
{
    let wanted = name.to_owned();
    let mut k: usize = 0;
    while k < config.pass.len()
        invariant
            k <= config.pass.len(),
            wanted@ == name@,
            forall|j: int| 0 <= j < k ==> config@.pass[j] != name@,
        decreases config.pass.len() - k,
    {
        if config.pass[k] == wanted {
            assert(config@.pass[k as int] == name@);
            return Class::ExplicitPass;
        }
        k += 1;
    }
    match &config.env_prefix {
        Some(prefix) => {
            if starts_with(name, prefix.as_str()) {
                Class::Candidate
            } else {
                Class::PrefixPass
            }
        },
        None => Class::Candidate,
    }
}

/// The warnings for the pass names that `raw` lacks.
fn missing_pass_names(raw: &Environment, config: &Configuration) -> (warnings: Vec<Warning>)
    ensures
        warnings.deep_view() == missing_of(raw.entries(), config@),
{
    let ghost missing = is_missing(raw.entries());
    let ghost warn = missing_warning();
    let mut warnings: Vec<Warning> = Vec::new();
    let mut k: usize = 0;
    while k < config.pass.len()
        invariant
            k <= config.pass.len(),
            missing == is_missing(raw.entries()),
            warn == missing_warning(),
            warnings.deep_view() == config@.pass.take(k as int).filter(missing).map_values(warn),
        decreases config.pass.len() - k,
    {
        let ghost before = warnings.deep_view();
        let ghost name = config@.pass[k as int];
        proof {
            assert(config@.pass.take(k + 1) =~= config@.pass.take(k as int).push(name));
            lemma_filter_push(config@.pass.take(k as int), name, missing);
        }
        if !raw.contains(config.pass[k].as_str()) {
            warnings.push(Warning::MissingPassVariable { variable: config.pass[k].clone() });
            assert(config@.pass.take(k as int).filter(missing).push(name).map_values(warn)
                =~= before.push(warn(name)));
        }
        k += 1;
    }
    assert(config@.pass.take(k as int) =~= config@.pass);
    warnings
}

/// Sorts the variables of `raw` by class.
pub fn classify(raw: &Environment, config: &Configuration) -> (sorted: Classification)
    ensures
        sorted.forwarded@ == forwarded_of(raw.entries(), config@),
        sorted.candidates.deep_view() == candidates_of(raw.entries(), config@),
        sorted.warnings.deep_view() == missing_of(raw.entries(), config@),
{
    let warnings = missing_pass_names(raw, config);
    let variables = raw.variables();
    let mut forwarded = Environment::new();
    let mut candidates: Vec<Variable> = Vec::new();
    let mut i: usize = 0;
    while i < variables.len()
        invariant
            i <= variables.len(),
            variables.deep_view() == raw.entries(),
            names_distinct(raw.entries()),
            forwarded@ == forwarded_of(raw.entries().take(i as int), config@),
            candidates.deep_view() == candidates_of(raw.entries().take(i as int), config@),
        decreases variables.len() - i,
    {
        let variable = &variables[i];
        let ghost entry = raw.entries()[i as int];
        proof {
            assert(raw.entries().take(i + 1) =~= raw.entries().take(i as int).push(entry));
            lemma_filter_push(raw.entries().take(i as int), entry, is_candidate(config@));
            lemma_forwarded_step(raw.entries(), config@, i as int);
        }
        match classify_name(variable.name.as_str(), config) {
            Class::Candidate => {
                candidates.push(
                    Variable { name: variable.name.clone(), value: variable.value.clone() },
                );
            },
            _ => {
                forwarded.insert(variable.name.clone(), variable.value.clone());
            },
        }
        i += 1;
    }
    assert(raw.entries().take(i as int) =~= raw.entries());
    Classification { forwarded, candidates, warnings }
}

} // verus!
