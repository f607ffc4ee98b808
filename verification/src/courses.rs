//! The courses of `focus` and `dispatch`: every request and every search keeps the
//! direction that the command names and the pane that it opened with, and the
//! focus goes to the nearest pane there.

use vstd::prelude::*;

use crate::adjacent::{
    is_pick, nearest_or_none, number_order, pick_is_nearest, searches, Measuring,
};
use crate::answers::reads_fallback;
use crate::cache::{public_id, CacheView};
use crate::direction::{ctrl_key_of, Direction};
use crate::json::JsonView;
use crate::laws::{answered, is_course, Answer};
use crate::layout::{
    computed_in_turn, cuts_in_turn_give_the_layout, layout_rects, next_cut_of, placed_rects,
    plan_of, tab_layout, Cutting,
};
use crate::listings::{internal_ids_are_marked, is_marked};
use crate::navigator::begins;
use crate::openings::{
    asks_for_cache, asks_for_panes, asks_to_move, ends_in, gives, goes_on, knows_pane,
    pane_is_known, refuses,
};
use crate::order::{text_order, texts};
use crate::panes::{cached_tab, listed_panes};
use crate::paths::{socket_path_of, Environment};
use crate::requests::{
    agent_request, direction_request, focus_label, key_request, list_request, release_request,
    report_request, result_of,
};
use crate::session::{internal_of, pane_mapping};
use crate::steps::{
    AfterCache, AfterCheck, AfterCuts, AfterMeasures, AfterRemoval, AfterReply, AfterSession,
    CommandView, GoalView, PurposeView, Step,
};
use crate::wording::{
    direction_request_says, directions_are_named, key_request_says, list_request_says, sends_key,
};

verus! {

/// Whether a command moves the focus, or sends the key, in a direction.
pub open spec fn goes_towards(command: CommandView, direction: Seq<char>) -> bool {
    command == CommandView::Focus(direction) || command == CommandView::Dispatch(direction)
}

/// Whether steps are the course of a command towards a direction, with a pane that
/// is known at a place of it.
pub open spec fn is_way(
    env: Environment,
    command: CommandView,
    direction: Seq<char>,
    pane: Seq<char>,
    steps: Seq<Step>,
    answers: Seq<Answer>,
    t: int,
) -> bool {
    &&& goes_towards(command, direction)
    &&& steps.len() > 0
    &&& begins(command, env, steps[0])
    &&& is_course(env, steps, answers)
    &&& knows_pane(env, answers, pane, t)
}

/// Whether a step and what it goes on with keep a direction and a pane.
spec fn carries(step: Step, direction: Seq<char>, pane: Seq<char>) -> bool {
    let purpose = PurposeView::Resolve { goal: GoalView::Dispatch(direction), pane };
    match step {
        Step::Exit(_) => true,
        Step::Fail(_) => true,
        Step::Send(request, after) => match after {
            AfterReply::Again { direction: d, pane: p } => d@ == direction && p@ == pane && request@
                == list_request(),
            AfterReply::Live { direction: d, pane: p, .. } => d@ == direction && p@ == pane
                && request@ == list_request(),
            AfterReply::Listed { direction: d, pane: p, .. } => d@ == direction && p@ == pane
                && request@ == list_request(),
            AfterReply::Directed { direction: d, pane: p } => d@ == direction && p@ == pane
                && request@ == direction_request(pane, direction),
            AfterReply::Key => ctrl_key_of(direction) matches Some(key) && request@ == key_request(
                pane,
                key,
            ),
            AfterReply::Reported { .. } => request@.method == "pane.report_agent"@,
            AfterReply::Focused { .. } => request@.method == "agent.focus"@,
            AfterReply::Released => request@.method == "pane.release_agent"@,
            _ => false,
        },
        Step::LoadCache(_, AfterCache::Resolve { goal, pane: p }) => goal@ == GoalView::Dispatch(
            direction,
        ) && p@ == pane,
        Step::LoadCache(_, AfterCache::Focus { direction: d, pane: p }) => d@ == direction && p@
            == pane,
        Step::ReadSession(_, AfterSession::Seed { purpose: p, .. }) => p@ == purpose,
        Step::ReadSession(_, AfterSession::Fallback { direction: d, pane: p }) => d@ == direction
            && p@ == pane,
        Step::ComputeCuts(AfterCuts::Seed { purpose: p, .. }) => p@ == purpose,
        Step::ComputeCuts(AfterCuts::Fallback { direction: d, .. }) => d@ == direction,
        Step::Measure(AfterMeasures::Cached { direction: d, pane: p, .. }) => d@ == direction && p@
            == pane,
        Step::Measure(AfterMeasures::Fallback { .. }) => true,
        Step::Focus(_) => true,
        Step::CheckMarker(_, AfterCheck::Marked { direction: d, pane: p, .. }) => d@ == direction
            && p@ == pane,
        Step::CheckMarker(_, AfterCheck::Still { direction: d, pane: p }) => d@ == direction && p@
            == pane,
        Step::ListMarkers(_, after) => after.direction@ == direction && after.pane@ == pane,
        Step::RemoveMarkers(_, AfterRemoval::Pruned { direction: d, pane: p, .. }) => d@
            == direction && p@ == pane,
        _ => false,
    }
}

#[verifier::rlimit(50)]
proof fn carried_on(
    env: Environment,
    direction: Seq<char>,
    pane: Seq<char>,
    step: Step,
    answer: Answer,
    next: Step,
)
    requires
        carries(step, direction, pane),
        answered(env, step, answer, next),
    ensures
        carries(next, direction, pane),
{
    reveal(answered);
}

proof fn carried(
    env: Environment,
    command: CommandView,
    direction: Seq<char>,
    pane: Seq<char>,
    steps: Seq<Step>,
    answers: Seq<Answer>,
    t: int,
    k: int,
)
    requires
        is_way(env, command, direction, pane, steps, answers, t),
        t <= k < steps.len(),
    ensures
        carries(steps[k], direction, pane),
    decreases k,
{
    if k == t {
        pane_is_known(command, env, steps, answers, pane, t);
    } else {
        carried(env, command, direction, pane, steps, answers, t, k - 1);
        goes_on(env, steps, answers, k - 1);
        carried_on(env, direction, pane, steps[k - 1], answers[k - 1], steps[k]);
    }
}

proof fn methods_differ()
    ensures
        "pane.focus_direction"@ != "pane.list"@,
        "pane.focus_direction"@ != "pane.send_text"@,
        "pane.focus_direction"@ != "pane.report_agent"@,
        "pane.focus_direction"@ != "agent.focus"@,
        "pane.focus_direction"@ != "pane.release_agent"@,
        "pane.send_text"@ != "pane.list"@,
        "pane.send_text"@ != "pane.report_agent"@,
        "pane.send_text"@ != "agent.focus"@,
        "pane.send_text"@ != "pane.release_agent"@,
{
    reveal_strlit("pane.focus_direction");
    reveal_strlit("pane.list");
    reveal_strlit("pane.send_text");
    reveal_strlit("pane.report_agent");
    reveal_strlit("agent.focus");
    reveal_strlit("pane.release_agent");
    assert("pane.focus_direction"@.len() == 20);
    assert("pane.list"@.len() == 9);
    assert("pane.send_text"@.len() == 14);
    assert("pane.report_agent"@.len() == 17);
    assert("agent.focus"@.len() == 11);
    assert("pane.release_agent"@.len() == 18);
}

/// The key of a direction: the letter that Neovim moves with, and control.
pub open spec fn is_key_of(direction: Seq<char>, key: Seq<char>) -> bool {
    ||| direction == "left"@ && key == "ctrl+h"@
    ||| direction == "down"@ && key == "ctrl+j"@
    ||| direction == "up"@ && key == "ctrl+k"@
    ||| direction == "right"@ && key == "ctrl+l"@
}

/// On every course towards a direction, a request to move the focus names that
/// direction and the pane that the command opened with, and a request that sends
/// a key sends the one key of that direction to that pane. What else is sent lists
/// panes or carries the focus to one.
pub proof fn requests_keep_pane_and_direction(
    env: Environment,
    command: CommandView,
    direction: Seq<char>,
    pane: Seq<char>,
    steps: Seq<Step>,
    answers: Seq<Answer>,
    t: int,
    k: int,
)
    requires
        is_way(env, command, direction, pane, steps, answers, t),
        t <= k < steps.len(),
    ensures
        steps[k] matches Step::Send(request, _) ==> {
            ||| asks_for_panes(steps[k])
            ||| asks_to_move(steps[k], pane, direction)
            ||| exists|key: Seq<char>| #[trigger]
                is_key_of(direction, key) && sends_key(request@, pane, key)
            ||| request@.method == "pane.report_agent"@
            ||| request@.method == "agent.focus"@
            ||| request@.method == "pane.release_agent"@
        },
{
    carried(env, command, direction, pane, steps, answers, t, k);
    list_request_says();
    direction_request_says(pane, direction);
    directions_are_named(direction);
    if let Step::Send(request, AfterReply::Key) = steps[k] {
        let key = ctrl_key_of(direction)->0;
        key_request_says(pane, key);
        assert(is_key_of(direction, key));
    }
}

/// The request that sends a key goes to the pane that the command opened with, and
/// has under `keys` just the one text of the direction.
pub proof fn the_key_is_that_of_the_direction(
    env: Environment,
    command: CommandView,
    direction: Seq<char>,
    pane: Seq<char>,
    steps: Seq<Step>,
    answers: Seq<Answer>,
    t: int,
    k: int,
)
    requires
        is_way(env, command, direction, pane, steps, answers, t),
        t <= k < steps.len(),
        steps[k] matches Step::Send(request, _) && request@.method == "pane.send_text"@,
    ensures
        ({
            let params = steps[k]->Send_0@.params;
            &&& params["pane_id"@] == JsonView::Text(pane)
            &&& direction == "left"@ ==> params["keys"@] == JsonView::Array(
                seq![JsonView::Text("ctrl+h"@)],
            )
            &&& direction == "down"@ ==> params["keys"@] == JsonView::Array(
                seq![JsonView::Text("ctrl+j"@)],
            )
            &&& direction == "up"@ ==> params["keys"@] == JsonView::Array(
                seq![JsonView::Text("ctrl+k"@)],
            )
            &&& direction == "right"@ ==> params["keys"@] == JsonView::Array(
                seq![JsonView::Text("ctrl+l"@)],
            )
        }),
{
    carried(env, command, direction, pane, steps, answers, t, k);
    methods_differ();
    directions_are_named(direction);
    if let Step::Send(request, AfterReply::Key) = steps[k] {
        key_request_says(pane, ctrl_key_of(direction)->0);
    }
}

/// Whether a step asks for Herdr's session to search it for a neighbour, at its
/// socket's path; where there is no such path, the step says why.
pub open spec fn asks_for_session(step: Step, env: Environment) -> bool {
    match socket_path_of(env) {
        Ok(socket) => step matches Step::ReadSession(path, AfterSession::Fallback { .. }) && path@
            == socket,
        Err(message) => ends_in(step, message),
    }
}

/// Whether a step searches the cached panes of a tab for a neighbour of a pane: by
/// the cache that was loaded two steps before, and the panes that were listed
/// after it.
pub open spec fn searches_cache_at(
    env: Environment,
    direction: Seq<char>,
    pane: Seq<char>,
    steps: Seq<Step>,
    answers: Seq<Answer>,
    k: int,
) -> bool {
    &&& 2 <= k < steps.len()
    &&& asks_for_cache(steps[k - 2], env)
    &&& answers[k - 2] matches Answer::Cache(cache)
    &&& asks_for_panes(steps[k - 1])
    &&& answers[k - 1] matches Answer::Reply(reply)
    &&& result_of(reply) matches Ok(listing)
    &&& cached_tab(pane, cache, listed_panes(listing)) matches Some((public, tab))
    &&& steps[k] matches Step::Measure(AfterMeasures::Cached { search, .. })
    &&& searches(texts(search.panes@), search.probes@, direction, public, tab.panes)
}

/// Whether a step searches the session's panes for a neighbour of a pane: in the
/// layout of the active tab that was read two steps before.
pub open spec fn searches_session_at(
    direction: Seq<char>,
    pane: Seq<char>,
    steps: Seq<Step>,
    answers: Seq<Answer>,
    k: int,
) -> bool {
    &&& 2 <= k < steps.len()
    &&& steps[k - 2] is ReadSession
    &&& answers[k - 2] matches Answer::Session(Ok((workspace, tab)))
    &&& pane_mapping(workspace, tab) matches Ok(mapping)
    &&& internal_of(pane, mapping) matches Some(current)
    &&& steps[k - 1] matches Step::ComputeCuts(after)
    &&& answers[k - 1] matches Answer::Cuts(values, _)
    &&& plan_of(after.plan_view(), tab_layout(tab))
    &&& steps[k] matches Step::Measure(AfterMeasures::Fallback { internal, mapping: m })
    &&& m@ == mapping
    &&& searches(
        internal.panes@,
        internal.probes@,
        direction,
        current,
        placed_rects(after.plan_view().panes@, values),
    )
}

proof fn before_a_search(env: Environment, step: Step, answer: Answer, next: Step)
    requires
        answered(env, step, answer, next),
    ensures
        next matches Step::Measure(AfterMeasures::Cached { .. }) ==> step matches Step::Send(
            _,
            AfterReply::Listed { .. },
        ),
        next matches Step::Send(_, AfterReply::Listed { cache, .. }) ==> {
            &&& step matches Step::LoadCache(_, AfterCache::Focus { .. })
            &&& answer matches Answer::Cache(loaded)
            &&& cache@ == loaded
        },
        next matches Step::LoadCache(_, AfterCache::Focus { .. }) ==> asks_for_cache(next, env),
        next matches Step::Measure(AfterMeasures::Fallback { .. }) ==> step matches Step::ComputeCuts(
            AfterCuts::Fallback { .. },
        ),
        next matches Step::ComputeCuts(AfterCuts::Fallback { .. }) ==> step matches Step::ReadSession(
            _,
            AfterSession::Fallback { .. },
        ),
{
    reveal(answered);
}

/// On every course towards a direction, each search for a neighbour is one in that
/// direction, from the pane that the command opened with: among the cached panes of
/// its tab, or among the panes of the session's active tab.
pub proof fn searches_keep_pane_and_direction(
    env: Environment,
    command: CommandView,
    direction: Seq<char>,
    pane: Seq<char>,
    steps: Seq<Step>,
    answers: Seq<Answer>,
    t: int,
    k: int,
)
    requires
        is_way(env, command, direction, pane, steps, answers, t),
        t <= k < steps.len(),
        steps[k] is Measure,
    ensures
        searches_cache_at(env, direction, pane, steps, answers, k) || searches_session_at(
            direction,
            pane,
            steps,
            answers,
            k,
        ),
{
    pane_is_known(command, env, steps, answers, pane, t);
    goes_on(env, steps, answers, k - 1);
    before_a_search(env, steps[k - 1], answers[k - 1], steps[k]);
    carried(env, command, direction, pane, steps, answers, t, k - 1);
    goes_on(env, steps, answers, k - 2);
    before_a_search(env, steps[k - 2], answers[k - 2], steps[k - 1]);
    carried(env, command, direction, pane, steps, answers, t, k - 2);
    list_request_says();
    if steps[k] matches Step::Measure(AfterMeasures::Cached { .. }) {
        if k - 2 > t {
            goes_on(env, steps, answers, k - 3);
            before_a_search(env, steps[k - 3], answers[k - 3], steps[k - 2]);
        }
    }
    reveal(answered);
}

/// Where the focus moves to a pane, a search found it in the step before.
pub proof fn focus_comes_from_a_search(
    env: Environment,
    command: CommandView,
    direction: Seq<char>,
    pane: Seq<char>,
    steps: Seq<Step>,
    answers: Seq<Answer>,
    t: int,
    k: int,
)
    requires
        is_way(env, command, direction, pane, steps, answers, t),
        t <= k < steps.len(),
        steps[k] is Focus,
    ensures
        t <= k - 1,
        steps[k - 1] is Measure,
        answers[k - 1] is Measures,
{
    pane_is_known(command, env, steps, answers, pane, t);
    goes_on(env, steps, answers, k - 1);
    reveal(answered);
}

/// Whether a text is the name of a direction.
pub open spec fn is_named(direction: Seq<char>, d: Direction) -> bool {
    ||| direction == "left"@ && d == Direction::Left
    ||| direction == "down"@ && d == Direction::Down
    ||| direction == "up"@ && d == Direction::Up
    ||| direction == "right"@ && d == Direction::Right
}

/// By the cache, the focus goes to the nearest of the tab's panes that lie in the
/// direction of the command beside the pane that it opened with. Where none does,
/// the session is asked for.
pub proof fn focus_goes_to_the_nearest_cached_pane(
    env: Environment,
    command: CommandView,
    direction: Seq<char>,
    d: Direction,
    pane: Seq<char>,
    steps: Seq<Step>,
    answers: Seq<Answer>,
    t: int,
    k: int,
    measuring: Measuring,
)
    requires
        is_way(env, command, direction, pane, steps, answers, t),
        is_named(direction, d),
        t <= k < steps.len() - 1,
        searches_cache_at(env, direction, pane, steps, answers, k),
        answers[k] == Answer::Measures(
            steps[k]->Measure_0.probe_list().map_values(measuring),
        ),
    ensures
        ({
            let listing = result_of(answers[k - 1]->Reply_0)->Ok_0;
            let (public, tab) = cached_tab(
                pane,
                answers[k - 2]->Cache_0,
                listed_panes(listing),
            )->0;
            exists|pick: Option<Seq<char>>| #[trigger]
                nearest_or_none(d, public, tab.panes, measuring, text_order(), pick) && match pick {
                    Some(target) => steps[k + 1] matches Step::Focus(p) && p@ == target,
                    None => asks_for_session(steps[k + 1], env),
                }
        }),
{
    carried(env, command, direction, pane, steps, answers, t, k);
    goes_on(env, steps, answers, k);
    directions_are_named(direction);
    reveal(answered);
    let listing = result_of(answers[k - 1]->Reply_0)->Ok_0;
    let (public, tab) = cached_tab(pane, answers[k - 2]->Cache_0, listed_panes(listing))->0;
    if let Step::Measure(AfterMeasures::Cached { search, .. }) = steps[k] {
        let measures = search.probes@.map_values(measuring);
        let pick = choose|pick: Option<Seq<char>>| #[trigger]
            is_pick(texts(search.panes@), search.probes@, measures, text_order(), pick)
                && match pick {
                Some(target) => steps[k + 1] matches Step::Focus(p) && p@ == target,
                None => reads_fallback(env, direction, pane, steps[k + 1]),
            };
        pick_is_nearest(
            texts(search.panes@),
            search.probes@,
            direction,
            public,
            tab.panes,
            measuring,
            text_order(),
            pick,
        );
        assert(nearest_or_none(d, public, tab.panes, measuring, text_order(), pick));
    }
}

/// By the session, the focus goes to the nearest of the panes that lie, in the
/// layout of the active tab, in the direction of the command beside the pane that
/// it opened with. Where none does, or the nearest has no public id, the command
/// ends with code 1.
pub proof fn focus_goes_to_the_nearest_session_pane(
    env: Environment,
    command: CommandView,
    direction: Seq<char>,
    d: Direction,
    pane: Seq<char>,
    steps: Seq<Step>,
    answers: Seq<Answer>,
    t: int,
    k: int,
    cut: Cutting,
    measuring: Measuring,
)
    requires
        is_way(env, command, direction, pane, steps, answers, t),
        is_named(direction, d),
        t <= k < steps.len() - 1,
        searches_session_at(direction, pane, steps, answers, k),
        computed_in_turn(
            steps[k - 1]->ComputeCuts_0.plan_view(),
            answers[k - 1]->Cuts_0,
            cut,
        ),
        next_cut_of(steps[k - 1]->ComputeCuts_0.plan_view(), answers[k - 1]->Cuts_0) is None,
        answers[k] == Answer::Measures(
            steps[k]->Measure_0.probe_list().map_values(measuring),
        ),
    ensures
        ({
            let (workspace, tab) = answers[k - 2]->Session_0->Ok_0;
            let mapping = pane_mapping(workspace, tab)->Ok_0;
            let current = internal_of(pane, mapping)->0;
            let rects = layout_rects(tab_layout(tab), cut);
            exists|pick: Option<i64>| #[trigger]
                nearest_or_none(d, current, rects, measuring, number_order(), pick) && match pick {
                    Some(n) if mapping.contains_key(n) => steps[k + 1] matches Step::Focus(p) && p@
                        == mapping[n],
                    _ => steps[k + 1] == Step::Exit(1),
                }
        }),
{
    goes_on(env, steps, answers, k);
    directions_are_named(direction);
    reveal(answered);
    let (workspace, tab) = answers[k - 2]->Session_0->Ok_0;
    let mapping = pane_mapping(workspace, tab)->Ok_0;
    let current = internal_of(pane, mapping)->0;
    let rects = layout_rects(tab_layout(tab), cut);
    let plan = steps[k - 1]->ComputeCuts_0.plan_view();
    cuts_in_turn_give_the_layout(plan, tab_layout(tab), answers[k - 1]->Cuts_0, cut);
    if let Step::Measure(AfterMeasures::Fallback { internal, .. }) = steps[k] {
        let measures = internal.probes@.map_values(measuring);
        let pick = choose|pick: Option<i64>| #[trigger]
            is_pick(internal.panes@, internal.probes@, measures, number_order(), pick)
                && match pick {
                Some(n) if mapping.contains_key(n) => steps[k + 1] matches Step::Focus(p) && p@
                    == mapping[n],
                _ => steps[k + 1] == Step::Exit(1),
            };
        pick_is_nearest(
            internal.panes@,
            internal.probes@,
            direction,
            current,
            rects,
            measuring,
            number_order(),
            pick,
        );
        assert(nearest_or_none(d, current, rects, measuring, number_order(), pick));
    }
}

/// Herdr is asked to move the focus before anything else is tried. Where it does,
/// the command ends with code 0; where it does not, the layout cache is asked for.
/// Where the cache knows the pane's public id, Herdr is asked for its panes, and
/// the tab's cached panes are searched where they are up to date with them. In all
/// other cases the session is asked for.
pub proof fn refused_move_goes_by_the_cache(
    env: Environment,
    command: CommandView,
    direction: Seq<char>,
    pane: Seq<char>,
    steps: Seq<Step>,
    answers: Seq<Answer>,
    t: int,
    q: int,
    result: JsonView,
    message: Seq<char>,
    cache: CacheView,
    listing: JsonView,
    trouble: Seq<char>,
)
    requires
        is_way(env, command, direction, pane, steps, answers, t),
        t <= q < steps.len() - 1,
        asks_to_move(steps[q], pane, direction),
    ensures
        gives(answers[q], result) ==> steps[q + 1] == Step::Exit(0),
        refuses(answers[q], message) ==> {
            &&& asks_for_cache(steps[q + 1], env)
            &&& q + 2 < steps.len() && answers[q + 1] == Answer::Cache(cache) ==> {
                &&& is_marked(public_id(pane, cache)) ==> asks_for_session(steps[q + 2], env)
                &&& !is_marked(public_id(pane, cache)) ==> {
                    &&& asks_for_panes(steps[q + 2])
                    &&& q + 3 < steps.len() && refuses(answers[q + 2], trouble) ==> ends_in(
                        steps[q + 3],
                        trouble,
                    )
                    &&& q + 3 < steps.len() && gives(answers[q + 2], listing) ==> {
                        if cached_tab(pane, cache, listed_panes(listing)) is Some {
                            searches_cache_at(env, direction, pane, steps, answers, q + 3)
                        } else {
                            asks_for_session(steps[q + 3], env)
                        }
                    }
                }
            }
        },
{
    carried(env, command, direction, pane, steps, answers, t, q);
    methods_differ();
    goes_on(env, steps, answers, q);
    if q + 2 < steps.len() {
        goes_on(env, steps, answers, q + 1);
    }
    if q + 3 < steps.len() {
        goes_on(env, steps, answers, q + 2);
    }
    list_request_says();
    internal_ids_are_marked(public_id(pane, cache));
    reveal(answered);
}

/// Once the session is asked for, the panes of its active tab are searched from the
/// pane that the command opened with. Where the session cannot be read, the command
/// ends with what is wrong; where the pane is none of them, with code 1.
pub proof fn session_search_follows(
    env: Environment,
    command: CommandView,
    direction: Seq<char>,
    pane: Seq<char>,
    steps: Seq<Step>,
    answers: Seq<Answer>,
    t: int,
    f: int,
    workspace: JsonView,
    tab: JsonView,
    message: Seq<char>,
)
    requires
        is_way(env, command, direction, pane, steps, answers, t),
        t <= f < steps.len() - 1,
        steps[f] matches Step::ReadSession(_, AfterSession::Fallback { .. }),
    ensures
        answers[f] == Answer::Session(Err(message)) ==> ends_in(steps[f + 1], message),
        answers[f] == Answer::Session(Ok((workspace, tab))) ==> match pane_mapping(workspace, tab) {
            Err(trouble) => ends_in(steps[f + 1], trouble),
            Ok(mapping) => if internal_of(pane, mapping) is None {
                steps[f + 1] == Step::Exit(1)
            } else {
                &&& steps[f + 1] matches Step::ComputeCuts(after)
                &&& plan_of(after.plan_view(), tab_layout(tab))
                &&& f + 2 < steps.len() && answers[f + 1] is Cuts ==> searches_session_at(
                    direction,
                    pane,
                    steps,
                    answers,
                    f + 2,
                )
            },
        },
{
    carried(env, command, direction, pane, steps, answers, t, f);
    goes_on(env, steps, answers, f);
    if f + 2 < steps.len() {
        goes_on(env, steps, answers, f + 1);
    }
    reveal(answered);
}

/// The focus is carried to a pane by an agent of the helper: it is reported in the
/// pane under a label of the pane and the time, focused, and taken back under the
/// next number. Then the command ends with code 0; where Herdr refuses one of these,
/// with its message.
pub proof fn focus_is_carried_to_the_pane(
    env: Environment,
    steps: Seq<Step>,
    answers: Seq<Answer>,
    k: int,
    target: Seq<char>,
    now: u64,
    message: Seq<char>,
    reported: JsonView,
    focused: JsonView,
    released: JsonView,
)
    requires
        is_course(env, steps, answers),
        0 <= k < steps.len() - 1,
        steps[k] matches Step::Focus(p) && p@ == target,
        answers[k] == Answer::Time(now),
        now < u64::MAX,
    ensures
        ({
            let label = focus_label(target, now as u128);
            &&& steps[k + 1] matches Step::Send(request, _) && request@ == report_request(
                target,
                label,
                now,
            )
            &&& k + 2 < steps.len() && refuses(answers[k + 1], message) ==> ends_in(
                steps[k + 2],
                message,
            )
            &&& k + 2 < steps.len() && gives(answers[k + 1], reported) ==> {
                &&& steps[k + 2] matches Step::Send(request, _) && request@ == agent_request(label)
                &&& k + 3 < steps.len() && refuses(answers[k + 2], message) ==> ends_in(
                    steps[k + 3],
                    message,
                )
                &&& k + 3 < steps.len() && gives(answers[k + 2], focused) ==> {
                    &&& steps[k + 3] matches Step::Send(request, _) && request@ == release_request(
                        target,
                        label,
                        (now + 1) as u64,
                    )
                    &&& k + 4 < steps.len() && refuses(answers[k + 3], message) ==> ends_in(
                        steps[k + 4],
                        message,
                    )
                    &&& k + 4 < steps.len() && gives(answers[k + 3], released) ==> steps[k + 4]
                        == Step::Exit(0)
                }
            }
        }),
{
    goes_on(env, steps, answers, k);
    if k + 2 < steps.len() {
        goes_on(env, steps, answers, k + 1);
    }
    if k + 3 < steps.len() {
        goes_on(env, steps, answers, k + 2);
    }
    if k + 4 < steps.len() {
        goes_on(env, steps, answers, k + 3);
    }
    reveal(answered);
}

} // verus!
