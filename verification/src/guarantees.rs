//! What holds of every run, proved from the definitions of the engine.
//!
//! The statements speak of the spec functions that the contracts of
//! [`crate::directive::parse`], [`crate::engine::settle`],
//! [`crate::engine::Engine::new`] and [`crate::engine::Engine::step`] use, so
//! each of them is a statement about what those functions do.

use vstd::prelude::*;
use crate::classifier::candidates_of;
use crate::config::ConfigurationView;
use crate::directive::{
    aws_sm_tag,
    directive_of,
    has_separator,
    lemma_first_separator_is,
    load_method_of,
    separator,
    value_tag,
    DirectiveView,
    LoadMethod,
};
use crate::engine::{
    after,
    current,
    initial,
    output_name,
    pending,
    run,
    secret_wanted,
    settled,
    step_of,
    verdict_of,
    ActionView,
    EngineView,
    EventView,
    VerdictView,
    FAILURE_STATUS,
};
use crate::environment::{binds, map_of, names_distinct, VariableView};

verus! {

/// The name under which `variable` enters the resolved environment, if it
/// ever does: its own name where the value holds no directive, the rewritten
/// name where the directive can be resolved, none where the method does not
/// exist.
pub open spec fn target_name(variable: VariableView, prefix: Option<Seq<char>>) -> Option<
    Seq<char>,
> {
    match directive_of(variable.value) {
        None => Some(variable.name),
        Some(directive) => match load_method_of(directive.method) {
            LoadMethod::Unknown => None,
            _ => Some(output_name(variable.name, prefix)),
        },
    }
}

/// None of `candidates` at the positions from `from` up to, not including,
/// `to` can enter the resolved environment as `name`.
pub open spec fn unclaimed(
    candidates: Seq<VariableView>,
    from: int,
    to: int,
    prefix: Option<Seq<char>>,
    name: Seq<char>,
) -> bool {
    forall|i: int|
        from <= i < to && i < candidates.len() ==> target_name(
            #[trigger] candidates[i],
            prefix,
        ) != Some(name)
}

/// `later` continues the run of `earlier`: the same candidates under the same
/// settings, and no candidate taken back.
pub open spec fn continues(earlier: EngineView, later: EngineView) -> bool {
    &&& later.candidates == earlier.candidates
    &&& later.env_prefix == earlier.env_prefix
    &&& later.ignore_missing == earlier.ignore_missing
    &&& later.cursor >= earlier.cursor
}

/// `name` is bound in `later` exactly as it is in `earlier`.
pub open spec fn bound_alike(
    earlier: Map<Seq<char>, Seq<char>>,
    later: Map<Seq<char>, Seq<char>>,
    name: Seq<char>,
) -> bool {
    &&& later.contains_key(name) == earlier.contains_key(name)
    &&& earlier.contains_key(name) ==> later[name] == earlier[name]
}

/// A value without the separator holds no directive and asks for no secret,
/// and the variable enters the resolved environment with its name and its
/// value as they are, whatever the prefix and whatever the secret store says.
pub proof fn lemma_plain_value_is_kept(
    variable: VariableView,
    prefix: Option<Seq<char>>,
    ignore_missing: bool,
    reply: Option<Seq<char>>,
)
    requires
        !has_separator(variable.value),
    ensures
        directive_of(variable.value) is None,
        secret_wanted(variable.value) is None,
        verdict_of(variable, prefix, ignore_missing, reply) == (VerdictView::Insert {
            name: variable.name,
            value: variable.value,
        }),
{
}

/// The engine takes a candidate whose value has no separator without asking
/// anybody: the candidate is bound in the resolved environment under its own
/// name to its own value, and the run goes on behind it.
pub proof fn lemma_plain_candidate_is_inserted(state: EngineView)
    requires
        !state.aborted,
        state.cursor < state.candidates.len(),
        !has_separator(current(state).value),
    ensures
        run(state) == run(
            EngineView {
                resolved: state.resolved.insert(current(state).name, current(state).value),
                cursor: state.cursor + 1,
                awaiting: false,
                ..state
            },
        ),
{
}

/// The two tags hold no colon, and differ.
proof fn lemma_tags()
    ensures
        value_tag().len() == 5,
        aws_sm_tag().len() == 6,
        forall|i: int| 0 <= i < 5 ==> value_tag()[i] != ':',
        forall|i: int| 0 <= i < 6 ==> aws_sm_tag()[i] != ':',
        value_tag() != aws_sm_tag(),
{
    reveal_strlit("value");
    reveal_strlit("aws_sm");
}

/// A value made of a tag without a colon, the separator and a payload splits
/// into that tag and that payload.
proof fn lemma_tagged_value_splits(tag: Seq<char>, payload: Seq<char>)
    requires
        forall|i: int| 0 <= i < tag.len() ==> tag[i] != ':',
    ensures
        directive_of(tag + separator() + payload) == Some(DirectiveView { method: tag, payload }),
{
    let value = tag + separator() + payload;
    let at = tag.len() as int;
    lemma_first_separator_is(value, at);
    assert(value.take(at) =~= tag);
    assert(value.skip(at + 2) =~= payload);
}

/// A value of the form `value::X` resolves to exactly `X`: the directive is
/// the literal method with payload `X`, no secret is asked for, and the
/// variable enters the resolved environment bound to `X`, whatever the secret
/// store would say.
pub proof fn lemma_literal_directive_gives_payload(
    name: Seq<char>,
    payload: Seq<char>,
    prefix: Option<Seq<char>>,
    ignore_missing: bool,
    reply: Option<Seq<char>>,
)
    ensures
        directive_of(value_tag() + separator() + payload) == Some(
            DirectiveView { method: value_tag(), payload },
        ),
        secret_wanted(value_tag() + separator() + payload) is None,
        verdict_of(
            VariableView { name, value: value_tag() + separator() + payload },
            prefix,
            ignore_missing,
            reply,
        ) == (VerdictView::Insert { name: output_name(name, prefix), value: payload }),
{
    lemma_tags();
    lemma_tagged_value_splits(value_tag(), payload);
}

/// The engine takes a candidate of the form `value::X` without handing out a
/// lookup: it binds the rewritten name to `X` and goes on behind it.
pub proof fn lemma_literal_candidate_needs_no_lookup(state: EngineView, payload: Seq<char>)
    requires
        !state.aborted,
        state.cursor < state.candidates.len(),
        current(state).value == value_tag() + separator() + payload,
    ensures
        run(state) == run(
            EngineView {
                resolved: state.resolved.insert(
                    output_name(current(state).name, state.env_prefix),
                    payload,
                ),
                cursor: state.cursor + 1,
                awaiting: false,
                ..state
            },
        ),
{
    lemma_literal_directive_gives_payload(
        current(state).name,
        payload,
        state.env_prefix,
        state.ignore_missing,
        None,
    );
}

/// Where a prefix is set and a name begins with it, the rewritten name is
/// what follows the prefix: the prefix is taken off once, and a second
/// occurrence behind it stays.
pub proof fn lemma_prefix_is_stripped_once(prefix: Seq<char>, rest: Seq<char>)
    ensures
        output_name(prefix + rest, Some(prefix)) == rest,
{
}

/// A variable whose name begins with the set prefix and whose directive is
/// resolved, a literal or a secret that the store gave, enters the resolved
/// environment under the rest of its name.
pub proof fn lemma_resolved_directive_loses_prefix(
    prefix: Seq<char>,
    rest: Seq<char>,
    value: Seq<char>,
    ignore_missing: bool,
    reply: Option<Seq<char>>,
)
    requires
        directive_of(value) matches Some(directive) && (load_method_of(directive.method)
            == LoadMethod::Value || (load_method_of(directive.method) == LoadMethod::AwsSm
            && reply is Some)),
    ensures
        verdict_of(VariableView { name: prefix + rest, value }, Some(prefix), ignore_missing, reply)
            matches VerdictView::Insert { name, .. } && name == rest,
{
}

/// Going through the candidates continues the run, and keeps the binding of a
/// name that none of the candidates taken on the way can enter as.
proof fn lemma_run_keeps(state: EngineView, name: Seq<char>)
    ensures
        continues(state, run(state).0),
        unclaimed(
            state.candidates,
            state.cursor as int,
            run(state).0.cursor as int,
            state.env_prefix,
            name,
        ) ==> bound_alike(state.resolved, run(state).0.resolved, name),
    decreases state.candidates.len() - state.cursor,
{
    if !state.aborted && state.cursor < state.candidates.len() && secret_wanted(
        current(state).value,
    ) is None {
        let next = settled(
            state,
            verdict_of(current(state), state.env_prefix, state.ignore_missing, None),
        );
        lemma_run_keeps(next, name);
    }
}

/// The same of one step.
proof fn lemma_step_keeps(state: EngineView, event: EventView, name: Seq<char>)
    ensures
        continues(state, step_of(state, event).0),
        unclaimed(
            state.candidates,
            state.cursor as int,
            step_of(state, event).0.cursor as int,
            state.env_prefix,
            name,
        ) ==> bound_alike(state.resolved, step_of(state, event).0.resolved, name),
{
    match event {
        EventView::Secret(reply) => {
            if pending(state) {
                let next = settled(
                    state,
                    verdict_of(current(state), state.env_prefix, state.ignore_missing, reply),
                );
                lemma_run_keeps(next, name);
            } else {
                lemma_run_keeps(state, name);
            }
        },
        EventView::Start => {
            lemma_run_keeps(state, name);
        },
    }
}

/// Every run of steps continues the run it starts from. A name that none of
/// the candidates taken on the way can enter the resolved environment as, is
/// bound at the end exactly as it was at the start.
pub proof fn lemma_unclaimed_name_is_kept(
    state: EngineView,
    events: Seq<EventView>,
    name: Seq<char>,
)
    ensures
        continues(state, after(state, events)),
        unclaimed(
            state.candidates,
            state.cursor as int,
            after(state, events).cursor as int,
            state.env_prefix,
            name,
        ) ==> bound_alike(state.resolved, after(state, events).resolved, name),
    decreases events.len(),
{
    if events.len() > 0 {
        lemma_unclaimed_name_is_kept(state, events.drop_last(), name);
        lemma_step_keeps(after(state, events.drop_last()), events.last(), name);
    }
}

/// A variable named on the pass list keeps its name and its value: after any
/// run of steps it is bound in the resolved environment as it was in the
/// environment that came in, whatever the prefix is. This holds as long as
/// none of the candidates taken so far can enter the resolved environment
/// under the same name, where the last write would win.
pub proof fn lemma_passed_variable_is_kept(
    entries: Seq<VariableView>,
    config: ConfigurationView,
    events: Seq<EventView>,
    name: Seq<char>,
)
    requires
        names_distinct(entries),
        binds(entries, name),
        config.pass.contains(name),
        unclaimed(
            candidates_of(entries, config),
            0,
            after(initial(entries, config), events).cursor as int,
            config.env_prefix,
            name,
        ),
    ensures
        after(initial(entries, config), events).resolved.contains_key(name),
        after(initial(entries, config), events).resolved[name] == map_of(entries)[name],
{
    lemma_unclaimed_name_is_kept(initial(entries, config), events, name);
}

/// Where a prefix is set, a variable whose name does not begin with it keeps
/// its name and its value: after any run of steps it is bound in the resolved
/// environment as it was in the environment that came in. This holds as long
/// as none of the candidates taken so far can enter the resolved environment
/// under the same name, where the last write would win.
pub proof fn lemma_unprefixed_variable_is_kept(
    entries: Seq<VariableView>,
    config: ConfigurationView,
    events: Seq<EventView>,
    name: Seq<char>,
)
    requires
        names_distinct(entries),
        binds(entries, name),
        config.env_prefix matches Some(prefix) && !prefix.is_prefix_of(name),
        unclaimed(
            candidates_of(entries, config),
            0,
            after(initial(entries, config), events).cursor as int,
            config.env_prefix,
            name,
        ),
    ensures
        after(initial(entries, config), events).resolved.contains_key(name),
        after(initial(entries, config), events).resolved[name] == map_of(entries)[name],
{
    lemma_unclaimed_name_is_kept(initial(entries, config), events, name);
}

/// Where going through the candidates ends in a lookup, the state waits for
/// the answer, and the lookup is for the secret of the candidate that is next.
proof fn lemma_run_lookup_is_pending(state: EngineView)
    ensures
        run(state).1 is Lookup ==> pending(run(state).0) && secret_wanted(
            current(run(state).0).value,
        ) == Some(run(state).1->secret_id),
    decreases state.candidates.len() - state.cursor,
{
    if !state.aborted && state.cursor < state.candidates.len() && secret_wanted(
        current(state).value,
    ) is None {
        lemma_run_lookup_is_pending(
            settled(
                state,
                verdict_of(current(state), state.env_prefix, state.ignore_missing, None),
            ),
        );
    }
}

/// A step that asks for a lookup leaves the engine waiting for the answer:
/// the candidate that is next asks for exactly that secret, and the answer,
/// when it comes with the next step, is taken for it.
pub proof fn lemma_lookup_is_pending(state: EngineView, event: EventView)
    requires
        step_of(state, event).1 is Lookup,
    ensures
        pending(step_of(state, event).0),
        secret_wanted(current(step_of(state, event).0).value) == Some(
            step_of(state, event).1->secret_id,
        ),
{
    match event {
        EventView::Secret(reply) => {
            if pending(state) {
                lemma_run_lookup_is_pending(
                    settled(
                        state,
                        verdict_of(current(state), state.env_prefix, state.ignore_missing, reply),
                    ),
                );
            } else {
                lemma_run_lookup_is_pending(state);
            }
        },
        EventView::Start => {
            lemma_run_lookup_is_pending(state);
        },
    }
}

/// Where failures are ignored, a secret that the store does not give drops
/// its variable and nothing else: the resolved environment stays as it is,
/// the failure is noted, the run is not given up, and the engine goes on with
/// the candidate behind.
pub proof fn lemma_ignored_failure_drops_variable(state: EngineView)
    requires
        state.ignore_missing,
        pending(state),
    ensures
        verdict_of(current(state), state.env_prefix, true, None) is Skip,
        step_of(state, EventView::Secret(None)) == run(
            EngineView {
                warnings: state.warnings.push(
                    verdict_of(current(state), state.env_prefix, true, None)->Skip_warning,
                ),
                cursor: state.cursor + 1,
                awaiting: false,
                ..state
            },
        ),
        !(step_of(state, EventView::Secret(None)).1 is Exit),
{
    let next = settled(state, verdict_of(current(state), state.env_prefix, true, None));
    lemma_run_goes_on(next);
}

/// Where failures are ignored, going through the candidates never gives up.
proof fn lemma_run_goes_on(state: EngineView)
    requires
        state.ignore_missing,
        !state.aborted,
    ensures
        run(state).0.ignore_missing,
        !run(state).0.aborted,
        !(run(state).1 is Exit),
    decreases state.candidates.len() - state.cursor,
{
    if state.cursor < state.candidates.len() && secret_wanted(current(state).value) is None {
        lemma_run_goes_on(
            settled(state, verdict_of(current(state), state.env_prefix, true, None)),
        );
    }
}

/// Where failures are ignored, no step gives the run up, whatever the secret
/// store says and whatever the values hold.
pub proof fn lemma_ignoring_never_gives_up(state: EngineView, event: EventView)
    requires
        state.ignore_missing,
        !state.aborted,
    ensures
        step_of(state, event).0.ignore_missing,
        !step_of(state, event).0.aborted,
        !(step_of(state, event).1 is Exit),
{
    match event {
        EventView::Secret(reply) => {
            if pending(state) {
                lemma_run_goes_on(
                    settled(state, verdict_of(current(state), state.env_prefix, true, reply)),
                );
            } else {
                lemma_run_goes_on(state);
            }
        },
        EventView::Start => {
            lemma_run_goes_on(state);
        },
    }
}

/// Where failures are ignored, a run that was not given up is not given up
/// after any run of steps.
pub proof fn lemma_ignoring_run_completes(state: EngineView, events: Seq<EventView>)
    requires
        state.ignore_missing,
        !state.aborted,
    ensures
        after(state, events).ignore_missing,
        !after(state, events).aborted,
    decreases events.len(),
{
    if events.len() > 0 {
        lemma_ignoring_run_completes(state, events.drop_last());
        lemma_ignoring_never_gives_up(after(state, events.drop_last()), events.last());
    }
}

/// Where failures are not ignored, a secret that the store does not give ends
/// the run: the step asks for the exit, with a status that is not zero.
pub proof fn lemma_missing_secret_ends_run(state: EngineView)
    requires
        !state.ignore_missing,
        pending(state),
    ensures
        step_of(state, EventView::Secret(None)).0.aborted,
        step_of(state, EventView::Secret(None)).1 == (ActionView::Exit { status: FAILURE_STATUS }),
        FAILURE_STATUS != 0,
{
}

/// A run that was given up stays given up: every later step asks for the exit
/// again, changes nothing, and never asks for the launch.
pub proof fn lemma_given_up_never_launches(state: EngineView, events: Seq<EventView>)
    requires
        state.aborted,
    ensures
        after(state, events) == state,
        forall|event: EventView| #[trigger]
            step_of(after(state, events), event) == (
                state,
                ActionView::Exit { status: FAILURE_STATUS },
            ),
    decreases events.len(),
{
    if events.len() > 0 {
        lemma_given_up_never_launches(state, events.drop_last());
    }
}

} // verus!
