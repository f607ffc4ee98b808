//! How a command opens: with the active pane that the environment names, or the
//! one that Herdr lists as focused. The laws speak of the steps of courses.

use vstd::prelude::*;

use crate::json::JsonView;
use crate::laws::{answered, is_course, Answer};
use crate::listings::{
    first_focused_pane_is_active, focuses_first, focuses_none, internal_ids_are_marked, is_marked,
    listing_without_panes,
};
use crate::navigator::{begins, starts};
use crate::paths::{cache_path_of, Environment};
use crate::requests::result_of;
use crate::steps::{CommandView, Step};
use crate::wording::{
    direction_request_says, environment_names_the_pane, holds, is_set, is_unset, list_request_says,
};

verus! {

/// Whether the environment names a pane: `HERDR_ACTIVE_PANE_ID` does, or else
/// `HERDR_PANE_ID`.
pub open spec fn names_pane(env: Environment, pane: Seq<char>) -> bool {
    ||| is_set(env.active_pane_id, pane)
    ||| is_unset(env.active_pane_id) && is_set(env.pane_id, pane)
}

/// Whether the environment names no pane.
pub open spec fn names_no_pane(env: Environment) -> bool {
    is_unset(env.active_pane_id) && is_unset(env.pane_id)
}

/// Whether an answer is a reply with a result.
pub open spec fn gives(answer: Answer, result: JsonView) -> bool {
    answer matches Answer::Reply(reply) && result_of(reply) == Ok::<JsonView, Seq<char>>(result)
}

/// Whether an answer is a reply that comes to an error.
pub open spec fn refuses(answer: Answer, message: Seq<char>) -> bool {
    answer matches Answer::Reply(reply) && result_of(reply) == Err::<JsonView, Seq<char>>(message)
}

/// Whether a step reports a message and ends the command.
pub open spec fn ends_in(step: Step, message: Seq<char>) -> bool {
    step matches Step::Fail(text) && text@ == message
}

/// Whether a step asks Herdr for its panes.
pub open spec fn asks_for_panes(step: Step) -> bool {
    &&& step matches Step::Send(request, _)
    &&& request@.method == "pane.list"@
    &&& request@.params.dom() == Set::<Seq<char>>::empty()
}

/// Whether a step asks Herdr to move the focus from a pane in a direction.
pub open spec fn asks_to_move(step: Step, pane: Seq<char>, direction: Seq<char>) -> bool {
    &&& step matches Step::Send(request, _)
    &&& request@.method == "pane.focus_direction"@
    &&& request@.params.dom() == set!["pane_id"@, "direction"@]
    &&& request@.params["pane_id"@] == JsonView::Text(pane)
    &&& request@.params["direction"@] == JsonView::Text(direction)
}

/// Whether a step asks for the layout cache, at its path where it has one.
pub open spec fn asks_for_cache(step: Step, env: Environment) -> bool {
    &&& step matches Step::LoadCache(path, _)
    &&& cache_path_of(env) matches Ok(p) ==> path matches Some(q) && q@ == p
    &&& cache_path_of(env) is Err ==> path is None
}

/// Whether a step opens a command with its pane.
pub open spec fn is_opening(
    command: CommandView,
    env: Environment,
    pane: Seq<char>,
    step: Step,
) -> bool {
    match command {
        CommandView::Focus(direction) => asks_to_move(step, pane, direction),
        CommandView::Split(_) => if is_marked(pane) {
            ends_in(step, "split requires Herdr's active public pane id"@)
        } else {
            asks_for_cache(step, env)
        },
        _ => asks_for_cache(step, env),
    }
}

/// Whether the pane of a command is known at a place of its course: at once where
/// the environment names it, and behind Herdr's list of panes where it does not.
pub open spec fn knows_pane(env: Environment, answers: Seq<Answer>, pane: Seq<char>, t: int) -> bool {
    ||| t == 0 && names_pane(env, pane)
    ||| t == 1 && names_no_pane(env) && exists|listing: JsonView| #[trigger]
        gives(answers[0], listing) && focuses_first(listing, pane)
}

/// A command opens with the pane that the environment names, and then asks Herdr
/// for no focused pane.
pub proof fn command_opens_with_the_named_pane(
    command: CommandView,
    env: Environment,
    pane: Seq<char>,
    step: Step,
)
    requires
        begins(command, env, step),
    ensures
        is_set(env.active_pane_id, pane) ==> is_opening(command, env, pane, step),
        is_unset(env.active_pane_id) && is_set(env.pane_id, pane) ==> is_opening(
            command,
            env,
            pane,
            step,
        ),
        names_pane(env, pane) ==> !asks_for_panes(step),
        names_no_pane(env) ==> asks_for_panes(step),
{
    environment_names_the_pane(env, pane);
    list_request_says();
    internal_ids_are_marked(pane);
    reveal_strlit("pane.list");
    reveal_strlit("pane.focus_direction");
    assert("pane.list"@.len() == 9);
    assert("pane.focus_direction"@.len() == 20);
    if let CommandView::Focus(direction) = command {
        direction_request_says(pane, direction);
    }
}

pub(crate) proof fn goes_on(env: Environment, steps: Seq<Step>, answers: Seq<Answer>, k: int)
    requires
        is_course(env, steps, answers),
        0 <= k < steps.len() - 1,
    ensures
        answered(env, steps[k], answers[k], steps[k + 1]),
{
}

pub(crate) proof fn pane_is_known(
    command: CommandView,
    env: Environment,
    steps: Seq<Step>,
    answers: Seq<Answer>,
    pane: Seq<char>,
    t: int,
)
    requires
        begins(command, env, steps[0]),
        is_course(env, steps, answers),
        knows_pane(env, answers, pane, t),
        t < steps.len(),
    ensures
        starts(command, env, Some(pane), steps[t]),
{
    environment_names_the_pane(env, pane);
    if t == 1 {
        let listing = choose|listing: JsonView| #[trigger]
            gives(answers[0], listing) && focuses_first(listing, pane);
        first_focused_pane_is_active(listing, pane);
        goes_on(env, steps, answers, 0);
        reveal(answered);
    }
}

/// Where the environment names no pane, Herdr is asked for its panes, and the
/// command opens with the first focused one. Where none is focused, it ends with
/// code 1; where Herdr gives no list, with what is wrong.
pub proof fn command_opens_with_the_focused_pane(
    command: CommandView,
    env: Environment,
    steps: Seq<Step>,
    answers: Seq<Answer>,
    listing: JsonView,
    pane: Seq<char>,
    message: Seq<char>,
)
    requires
        begins(command, env, steps[0]),
        is_course(env, steps, answers),
        names_no_pane(env),
        steps.len() > 1,
    ensures
        asks_for_panes(steps[0]),
        gives(answers[0], listing) && focuses_first(listing, pane) ==> is_opening(
            command,
            env,
            pane,
            steps[1],
        ),
        gives(answers[0], listing) && focuses_none(listing) ==> steps[1] == Step::Exit(1),
        gives(answers[0], listing) && (forall|panes: Seq<JsonView>|
            !#[trigger] holds(listing, "panes"@, JsonView::Array(panes))) ==> ends_in(
            steps[1],
            "Herdr pane.list returned no panes array"@,
        ),
        refuses(answers[0], message) ==> ends_in(steps[1], message),
{
    environment_names_the_pane(env, pane);
    list_request_says();
    goes_on(env, steps, answers, 0);
    reveal(answered);
    first_focused_pane_is_active(listing, pane);
    internal_ids_are_marked(pane);
    if forall|panes: Seq<JsonView>| !#[trigger] holds(listing, "panes"@, JsonView::Array(panes)) {
        listing_without_panes(listing);
    }
    if let CommandView::Focus(direction) = command {
        direction_request_says(pane, direction);
    }
}

} // verus!
