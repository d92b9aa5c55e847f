//! The resolution engine.
//!
//! The engine takes the candidates one by one, in order. A value without a
//! directive is kept as it is. A `value` directive gives its payload. An
//! `aws_sm` directive needs the secret store, which the engine cannot reach:
//! it hands out [`Action::Lookup`] and takes the answer as the next
//! [`Event`]. A secret that cannot be had, and a method that does not exist,
//! end the run unless the configuration says to ignore them, in which case
//! the variable is dropped.
//!
//! [`step_of`] says what one call of [`Engine::step`] does, [`verdict_of`]
//! what becomes of a single candidate.

use vstd::prelude::*;
use crate::classifier::{candidates_of, classify, forwarded_of, missing_of};
use crate::config::{Configuration, ConfigurationView};
use crate::directive::{directive_of, load_method_of, parse, Directive, DirectiveView, LoadMethod};
use crate::environment::{Environment, Variable, VariableView};
use crate::text::strip_prefix;
use crate::warning::{Warning, WarningView};

verus! {

/// The exit status of a run that gave up.
pub const FAILURE_STATUS: i32 = 1;

/// What the engine is told.
#[derive(Clone, Debug, PartialEq, Eq)]
pub enum Event {
    /// The run starts, or goes on with no news from outside.
    Start,
    /// The secret store answered the last lookup: the secret, or nothing.
    Secret(Option<String>),
}

/// The mathematical content of an [`Event`].
pub enum EventView {
    Start,
    Secret(Option<Seq<char>>),
}

impl View for Event {
    type V = EventView;

    open spec fn view(&self) -> EventView {
        match self {
            Event::Start => EventView::Start,
            Event::Secret(reply) => EventView::Secret(reply.deep_view()),
        }
    }
}

/// What the engine asks its caller to do.
#[derive(Clone, Debug, PartialEq, Eq)]
pub enum Action {
    /// Ask the secret store for `secret_id` and come back with the answer.
    Lookup { secret_id: String },
    /// Every candidate is dealt with: launch the command.
    Launch,
    /// Give up: leave with `status`, and launch nothing.
    Exit { status: i32 },
}

/// The mathematical content of an [`Action`].
pub enum ActionView {
    Lookup { secret_id: Seq<char> },
    Launch,
    Exit { status: i32 },
}

impl View for Action {
    type V = ActionView;

    open spec fn view(&self) -> ActionView {
        match self {
            Action::Lookup { secret_id } => ActionView::Lookup { secret_id: secret_id@ },
            Action::Launch => ActionView::Launch,
            Action::Exit { status } => ActionView::Exit { status: *status },
        }
    }
}

/// What becomes of one candidate.
#[derive(Clone, Debug, PartialEq, Eq)]
pub enum Verdict {
    /// It enters the resolved environment as `name`, bound to `value`.
    Insert { name: String, value: String },
    /// It is dropped, and the run goes on.
    Skip { warning: Warning },
    /// It ends the run.
    Abort { warning: Warning },
}

/// The mathematical content of a [`Verdict`].
pub enum VerdictView {
    Insert { name: Seq<char>, value: Seq<char> },
    Skip { warning: WarningView },
    Abort { warning: WarningView },
}

impl View for Verdict {
    type V = VerdictView;

    open spec fn view(&self) -> VerdictView {
        match self {
            Verdict::Insert { name, value } => VerdictView::Insert { name: name@, value: value@ },
            Verdict::Skip { warning } => VerdictView::Skip { warning: warning@ },
            Verdict::Abort { warning } => VerdictView::Abort { warning: warning@ },
        }
    }
}

/// The name under which a resolved directive enters the environment: `name`
/// without the prefix where a prefix is set and `name` begins with it, else
/// `name` itself.
pub open spec fn output_name(name: Seq<char>, prefix: Option<Seq<char>>) -> Seq<char> {
    match prefix {
        Some(prefix) => if prefix.is_prefix_of(name) {
            name.skip(prefix.len() as int)
        } else {
            name
        },
        None => name,
    }
}

/// The secret that `directive` asks the secret store for, if it asks for one.
pub open spec fn secret_of(directive: Option<DirectiveView>) -> Option<Seq<char>> {
    match directive {
        Some(directive) => if load_method_of(directive.method) == LoadMethod::AwsSm {
            Some(directive.payload)
        } else {
            None
        },
        None => None,
    }
}

/// The secret that `value` asks the secret store for, if it asks for one.
pub open spec fn secret_wanted(value: Seq<char>) -> Option<Seq<char>> {
    secret_of(directive_of(value))
}

/// What a failure comes to: the variable is dropped where failures are
/// ignored, the run ends where they are not.
pub open spec fn failure(ignore_missing: bool, warning: WarningView) -> VerdictView {
    if ignore_missing {
        VerdictView::Skip { warning }
    } else {
        VerdictView::Abort { warning }
    }
}

/// What becomes of `variable`, given the directive that its value holds and,
/// for a secret, what the secret store answered.
pub open spec fn verdict_for(
    variable: VariableView,
    directive: Option<DirectiveView>,
    prefix: Option<Seq<char>>,
    ignore_missing: bool,
    reply: Option<Seq<char>>,
) -> VerdictView {
    match directive {
        None => VerdictView::Insert { name: variable.name, value: variable.value },
        Some(directive) => match load_method_of(directive.method) {
            LoadMethod::Value => VerdictView::Insert {
                name: output_name(variable.name, prefix),
                value: directive.payload,
            },
            LoadMethod::AwsSm => match reply {
                Some(secret) => VerdictView::Insert {
                    name: output_name(variable.name, prefix),
                    value: secret,
                },
                None => failure(
                    ignore_missing,
                    WarningView::SecretResolutionFailed {
                        secret_id: directive.payload,
                        variable: variable.name,
                    },
                ),
            },
            LoadMethod::Unknown => failure(
                ignore_missing,
                WarningView::UnknownLoadMethod {
                    method: directive.method,
                    variable: variable.name,
                },
            ),
        },
    }
}

/// What becomes of `variable`. `reply` is what the secret store answered; it
/// counts only where the value asks for a secret.
pub open spec fn verdict_of(
    variable: VariableView,
    prefix: Option<Seq<char>>,
    ignore_missing: bool,
    reply: Option<Seq<char>>,
) -> VerdictView {
    verdict_for(variable, directive_of(variable.value), prefix, ignore_missing, reply)
}

/// The state of a run.
pub struct EngineView {
    pub env_prefix: Option<Seq<char>>,
    pub ignore_missing: bool,
    /// The candidates, in the order in which they are taken.
    pub candidates: Seq<VariableView>,
    /// How many candidates are dealt with.
    pub cursor: nat,
    /// A lookup for the candidate at `cursor` was handed out and is not
    /// answered yet.
    pub awaiting: bool,
    /// The run gave up.
    pub aborted: bool,
    /// The resolved environment so far.
    pub resolved: Map<Seq<char>, Seq<char>>,
    /// The warnings that nobody took yet, oldest first.
    pub warnings: Seq<WarningView>,
}

/// The state in which a run on `entries` under `config` begins.
pub open spec fn initial(entries: Seq<VariableView>, config: ConfigurationView) -> EngineView {
    EngineView {
        env_prefix: config.env_prefix,
        ignore_missing: config.ignore_missing,
        candidates: candidates_of(entries, config),
        cursor: 0,
        awaiting: false,
        aborted: false,
        resolved: forwarded_of(entries, config),
        warnings: missing_of(entries, config),
    }
}

/// The candidate that is next.
pub open spec fn current(state: EngineView) -> VariableView {
    state.candidates[state.cursor as int]
}

/// `state` after its next candidate came to `verdict`.
pub open spec fn settled(state: EngineView, verdict: VerdictView) -> EngineView {
    match verdict {
        VerdictView::Insert { name, value } => EngineView {
            resolved: state.resolved.insert(name, value),
            cursor: state.cursor + 1,
            awaiting: false,
            ..state
        },
        VerdictView::Skip { warning } => EngineView {
            warnings: state.warnings.push(warning),
            cursor: state.cursor + 1,
            awaiting: false,
            ..state
        },
        VerdictView::Abort { warning } => EngineView {
            warnings: state.warnings.push(warning),
            cursor: state.cursor + 1,
            awaiting: false,
            aborted: true,
            ..state
        },
    }
}

/// Goes through the candidates from `state` on until something is left for
/// the caller to do: a lookup, the launch, or the exit.
pub open spec fn run(state: EngineView) -> (EngineView, ActionView)
    decreases state.candidates.len() - state.cursor,
{
    if state.aborted {
        (state, ActionView::Exit { status: FAILURE_STATUS })
    } else if state.cursor >= state.candidates.len() {
        (state, ActionView::Launch)
    } else {
        match secret_wanted(current(state).value) {
            Some(secret_id) => (
                EngineView { awaiting: true, ..state },
                ActionView::Lookup { secret_id },
            ),
            None => run(
                settled(
                    state,
                    verdict_of(current(state), state.env_prefix, state.ignore_missing, None),
                ),
            ),
        }
    }
}

/// `state` has handed out a lookup and waits for the answer.
pub open spec fn pending(state: EngineView) -> bool {
    &&& !state.aborted
    &&& state.awaiting
    &&& state.cursor < state.candidates.len()
    &&& secret_wanted(current(state).value) is Some
}

/// One step: the state after `event` and what the caller is to do next. An
/// answer from the secret store counts only while a lookup is pending; at any
/// other time it is passed over.
pub open spec fn step_of(state: EngineView, event: EventView) -> (EngineView, ActionView) {
    match event {
        EventView::Secret(reply) => if pending(state) {
            run(
                settled(
                    state,
                    verdict_of(current(state), state.env_prefix, state.ignore_missing, reply),
                ),
            )
        } else {
            run(state)
        },
        EventView::Start => run(state),
    }
}

/// The state after a run of steps, one for each of `events`, in order.
pub open spec fn after(state: EngineView, events: Seq<EventView>) -> EngineView
    decreases events.len(),
{
    if events.len() == 0 {
        state
    } else {
        step_of(after(state, events.drop_last()), events.last()).0
    }
}

/// The name under which a resolved directive of the variable `name` enters
/// the environment.
pub fn rewrite_name(name: &str, env_prefix: &Option<String>) -> (rewritten: String)
    ensures
        rewritten@ == output_name(name@, env_prefix.deep_view()),
{
    match env_prefix {
        Some(prefix) => match strip_prefix(name, prefix.as_str()) {
            Some(rest) => rest,
            None => name.to_owned(),
        },
        None => name.to_owned(),
    }
}

/// The secret that `directive` asks the secret store for, if it asks for one.
pub fn wanted_secret(directive: &Option<Directive>) -> (secret_id: Option<String>)
    ensures
        secret_id.deep_view() == secret_of(directive.deep_view()),
{
    match directive {
        Some(directive) => match directive.load_method() {
            LoadMethod::AwsSm => Some(directive.payload.clone()),
            _ => None,
        },
        None => None,
    }
}

/// What a failure comes to.
fn fail(ignore_missing: bool, warning: Warning) -> (verdict: Verdict)
    ensures
        verdict@ == failure(ignore_missing, warning@),
{
    if ignore_missing {
        Verdict::Skip { warning }
    } else {
        Verdict::Abort { warning }
    }
}

/// Decides what becomes of `variable`, whose value holds `directive`. `reply`
/// is what the secret store answered.
pub fn decide(
    variable: &Variable,
    directive: Option<Directive>,
    env_prefix: &Option<String>,
    ignore_missing: bool,
    reply: Option<String>,
) -> (verdict: Verdict)
    ensures
        verdict@ == verdict_for(
            variable@,
            directive.deep_view(),
            env_prefix.deep_view(),
            ignore_missing,
            reply.deep_view(),
        ),
{
    match directive {
        None => Verdict::Insert { name: variable.name.clone(), value: variable.value.clone() },
        Some(directive) => match directive.load_method() {
            LoadMethod::Value => Verdict::Insert {
                name: rewrite_name(variable.name.as_str(), env_prefix),
                value: directive.payload,
            },
            LoadMethod::AwsSm => match reply {
                Some(secret) => Verdict::Insert {
                    name: rewrite_name(variable.name.as_str(), env_prefix),
                    value: secret,
                },
                None => fail(
                    ignore_missing,
                    Warning::SecretResolutionFailed {
                        secret_id: directive.payload,
                        variable: variable.name.clone(),
                    },
                ),
            },
            LoadMethod::Unknown => fail(
                ignore_missing,
                Warning::UnknownLoadMethod {
                    method: directive.method,
                    variable: variable.name.clone(),
                },
            ),
        },
    }
}

/// Decides what becomes of `variable`. `reply` is what the secret store
/// answered; it counts only where the value asks for a secret.
pub fn settle(
    variable: &Variable,
    env_prefix: &Option<String>,
    ignore_missing: bool,
    reply: Option<String>,
) -> (verdict: Verdict)
    ensures
        verdict@ == verdict_of(
            variable@,
            env_prefix.deep_view(),
            ignore_missing,
            reply.deep_view(),
        ),
{
    let directive = parse(variable.value.as_str());
    decide(variable, directive, env_prefix, ignore_missing, reply)
}

/// One run of the resolution, from the sorted environment to the launch or
/// the exit.
///
/// The caller begins with [`Event::Start`] and does what each step asks for:
/// on [`Action::Lookup`] it asks the secret store, once, and steps again with
/// the answer as [`Event::Secret`]; on [`Action::Launch`] it launches the
/// command in the resolved environment; on [`Action::Exit`] it leaves.
#[derive(Debug)]
pub struct Engine {
    env_prefix: Option<String>,
    ignore_missing: bool,
    candidates: Vec<Variable>,
    cursor: usize,
    awaiting: bool,
    aborted: bool,
    resolved: Environment,
    warnings: Vec<Warning>,
}

impl View for Engine {
    type V = EngineView;

    closed spec fn view(&self) -> EngineView {
        EngineView {
            env_prefix: self.env_prefix.deep_view(),
            ignore_missing: self.ignore_missing,
            candidates: self.candidates.deep_view(),
            cursor: self.cursor as nat,
            awaiting: self.awaiting,
            aborted: self.aborted,
            resolved: self.resolved@,
            warnings: self.warnings.deep_view(),
        }
    }
}

impl Engine {
    /// Sorts the variables of `raw` and makes the engine that resolves the
    /// candidates among them.
    pub fn new(raw: &Environment, config: &Configuration) -> (engine: Engine)
        ensures
            engine@ == initial(raw.entries(), config@),
    {
        let sorted = classify(raw, config);
        Engine {
            env_prefix: config.env_prefix.clone(),
            ignore_missing: config.ignore_missing,
            candidates: sorted.candidates,
            cursor: 0,
            awaiting: false,
            aborted: false,
            resolved: sorted.forwarded,
            warnings: sorted.warnings,
        }
    }

    /// The resolved environment so far.
    pub fn resolved(&self) -> (resolved: &Environment)
        ensures
            resolved@ == self@.resolved,
    {
        &self.resolved
    }

    /// Hands out the warnings that came up since the last call, oldest first.
    pub fn take_warnings(&mut self) -> (warnings: Vec<Warning>)
        ensures
            warnings.deep_view() == old(self)@.warnings,
            final(self)@ == (EngineView { warnings: Seq::empty(), ..old(self)@ }),
    {
        let mut warnings: Vec<Warning> = Vec::new();
        core::mem::swap(&mut self.warnings, &mut warnings);
        assert(self.warnings.deep_view() =~= Seq::<WarningView>::empty());
        warnings
    }

    /// Records what the next candidate came to.
    fn apply(&mut self, verdict: Verdict)
        requires
            old(self).cursor < old(self).candidates.len(),
        ensures
            final(self)@ == settled(old(self)@, verdict@),
    {
        let ghost before = self.warnings.deep_view();
        match verdict {
            Verdict::Insert { name, value } => {
                self.resolved.insert(name, value);
            },
            Verdict::Skip { warning } => {
                self.warnings.push(warning);
                assert(self.warnings.deep_view() =~= before.push(warning@));
            },
            Verdict::Abort { warning } => {
                self.warnings.push(warning);
                assert(self.warnings.deep_view() =~= before.push(warning@));
                self.aborted = true;
            },
        }
        self.cursor = self.cursor + 1;
        self.awaiting = false;
    }

    /// Takes `event` and goes on until something is left for the caller to
    /// do, which it returns.
    pub fn step(&mut self, event: Event) -> (action: Action)
        ensures
            (final(self)@, action@) == step_of(old(self)@, event@),
    {
        if !self.aborted && self.awaiting && self.cursor < self.candidates.len() {
            if let Event::Secret(reply) = event {
                let directive = parse(self.candidates[self.cursor].value.as_str());
                if wanted_secret(&directive).is_some() {
                    let verdict = decide(
                        &self.candidates[self.cursor],
                        directive,
                        &self.env_prefix,
                        self.ignore_missing,
                        reply,
                    );
                    self.apply(verdict);
                }
            }
        }
        loop
            invariant
                run(self@) == step_of(old(self)@, event@),
            decreases self.candidates.len() - self.cursor,
        {
            if self.aborted {
                return Action::Exit { status: FAILURE_STATUS };
            }
            if self.cursor >= self.candidates.len() {
                return Action::Launch;
            }
            let directive = parse(self.candidates[self.cursor].value.as_str());
            match wanted_secret(&directive) {
                Some(secret_id) => {
                    self.awaiting = true;
                    return Action::Lookup { secret_id };
                },
                None => {
                    let verdict = decide(
                        &self.candidates[self.cursor],
                        directive,
                        &self.env_prefix,
                        self.ignore_missing,
                        None,
                    );
                    self.apply(verdict);
                },
            }
        }
    }
}

} // verus!
