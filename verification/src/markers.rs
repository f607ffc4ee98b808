//! The courses that go by markers: how a pane's public id is found, and what
//! `register`, `release` and `dispatch` then do with the marker of that name.

use vstd::prelude::*;

use crate::answers::{
    after_seeding, paths_view, seeded_tab, session_of, stale_paths, SessionText,
};
use crate::cache::{known_public_id, CacheView};
use crate::courses::is_key_of;
use crate::json::JsonView;
use crate::laws::{answered, is_course, pruning_spares_the_living, Answer};
use crate::layout::{placed_rects, plan_of, tab_layout};
use crate::listings::{
    first_focused_pane_is_active, focuses_first, focuses_none, live_panes_are_listed,
};
use crate::navigator::{begins, resolved, unmarked};
use crate::openings::{
    asks_for_cache, asks_for_panes, asks_to_move, ends_in, gives, goes_on, knows_pane,
    names_no_pane, pane_is_known, refuses,
};
use crate::panes::{listed_ids, listed_panes, unless_empty};
use crate::paths::{
    cache_path_of, joined_name, nvim_panes_dir_of, session_cache_dir_of, socket_path_of,
    Environment,
};
use crate::recordings::{marked_id, seeding_records_the_ids};
use crate::seed::{is_seeded, seed_error};
use crate::session::{pane_mapping, seeded_tab_id, session_parts};
use crate::steps::{CommandView, GoalView, PurposeView, Step};
use crate::wording::{
    direction_request_says, directions_are_named, environment_names_the_pane, holds,
    key_request_says, list_request_says, sends_key,
};

verus! {

/// Whether a command goes by a marker, towards a goal.
pub open spec fn is_goal(command: CommandView, goal: GoalView) -> bool {
    match goal {
        GoalView::Register => command == CommandView::Register,
        GoalView::Release => command == CommandView::Release,
        GoalView::Dispatch(direction) => command == CommandView::Dispatch(direction),
    }
}

/// Whether steps are the course of a command that goes by a marker, with a pane that
/// is known at a place of it.
pub open spec fn is_marker_course(
    env: Environment,
    goal: GoalView,
    pane: Seq<char>,
    steps: Seq<Step>,
    answers: Seq<Answer>,
    t: int,
) -> bool {
    &&& steps.len() > 0
    &&& exists|command: CommandView| #[trigger]
        is_goal(command, goal) && begins(command, env, steps[0])
    &&& is_course(env, steps, answers)
    &&& knows_pane(env, answers, pane, t)
}

/// Whether the pane's public id is found in the cache, which is then asked for at
/// `t` and gives it.
pub open spec fn is_cached_name(
    pane: Seq<char>,
    answers: Seq<Answer>,
    t: int,
    name: Seq<char>,
    cache: CacheView,
) -> bool {
    answers[t] == Answer::Cache(cache) && known_public_id(pane, cache) == Some(name)
}

/// Whether the pane is not in the cache, so that the session is read and its active
/// tab is put into the cache.
pub open spec fn is_seeding(
    env: Environment,
    pane: Seq<char>,
    steps: Seq<Step>,
    answers: Seq<Answer>,
    t: int,
    workspace: JsonView,
    tab: JsonView,
    cache: CacheView,
) -> bool {
    let given = unless_empty(env.active_tab_id);
    &&& answers[t] matches Answer::Cache(before)
    &&& known_public_id(pane, before) is None
    &&& answers[t + 1] == Answer::Session(Ok((workspace, tab)))
    &&& seeded_tab_id(given, workspace, tab) matches Ok(tab_id)
    &&& pane_mapping(workspace, tab) matches Ok(mapping)
    &&& steps[t + 2] matches Step::ComputeCuts(after)
    &&& plan_of(after.plan_view(), tab_layout(tab))
    &&& answers[t + 2] matches Answer::Cuts(values, now)
    &&& is_seeded(
        before,
        tab_id,
        mapping,
        placed_rects(after.plan_view().panes@, values),
        now,
        cache,
    )
}

/// Whether a pane has a public id in a session: that of the mapped pane whose number
/// stands behind the mark in its id.
pub open spec fn is_session_name(
    pane: Seq<char>,
    workspace: JsonView,
    tab: JsonView,
    name: Option<Seq<char>>,
) -> bool {
    &&& pane_mapping(workspace, tab) matches Ok(mapping)
    &&& match name {
        Some(public) => exists|n: i64| #[trigger]
            mapping.contains_key(n) && marked_id(n as int) == pane && mapping[n] == public,
        None => forall|n: i64| #[trigger] mapping.contains_key(n) ==> marked_id(n as int) != pane,
    }
}

proof fn name_is_resolved_by_the_cache(
    env: Environment,
    goal: GoalView,
    pane: Seq<char>,
    steps: Seq<Step>,
    answers: Seq<Answer>,
    t: int,
    name: Seq<char>,
    cache: CacheView,
)
    requires
        is_marker_course(env, goal, pane, steps, answers, t),
        t + 1 < steps.len(),
        is_cached_name(pane, answers, t, name, cache),
    ensures
        resolved(env, goal, pane, Some(name), cache, steps[t + 1]),
{
    let command = choose|command: CommandView| #[trigger]
        is_goal(command, goal) && begins(command, env, steps[0]);
    pane_is_known(command, env, steps, answers, pane, t);
    goes_on(env, steps, answers, t);
    reveal(answered);
}

/// A pane that is not in the cache is looked up in the session. Where the session
/// cannot be read or lacks what is needed, the command ends with what is wrong.
pub proof fn unknown_pane_is_looked_up_in_the_session(
    env: Environment,
    goal: GoalView,
    pane: Seq<char>,
    steps: Seq<Step>,
    answers: Seq<Answer>,
    t: int,
    cache: CacheView,
    workspace: JsonView,
    tab: JsonView,
    message: Seq<char>,
)
    requires
        is_marker_course(env, goal, pane, steps, answers, t),
        t + 1 < steps.len(),
        answers[t] == Answer::Cache(cache),
        known_public_id(pane, cache) is None,
    ensures
        asks_for_cache(steps[t], env),
        socket_path_of(env) matches Ok(socket) ==> steps[t + 1] matches Step::ReadSession(path, _)
            && path@ == socket,
        socket_path_of(env) matches Err(trouble) ==> ends_in(steps[t + 1], trouble),
        t + 2 < steps.len() && answers[t + 1] == Answer::Session(Err(message)) ==> ends_in(
            steps[t + 2],
            message,
        ),
        t + 2 < steps.len() && answers[t + 1] == Answer::Session(Ok((workspace, tab))) ==> match (
            seeded_tab_id(unless_empty(env.active_tab_id), workspace, tab),
            pane_mapping(workspace, tab),
        ) {
            (Err(trouble), _) => ends_in(steps[t + 2], trouble),
            (_, Err(trouble)) => ends_in(steps[t + 2], trouble),
            _ => {
                &&& steps[t + 2] matches Step::ComputeCuts(after)
                &&& plan_of(after.plan_view(), tab_layout(tab))
                &&& t + 3 < steps.len() ==> exists|updated: CacheView| #[trigger]
                    is_seeding(env, pane, steps, answers, t, workspace, tab, updated)
            },
        },
{
    let command = choose|command: CommandView| #[trigger]
        is_goal(command, goal) && begins(command, env, steps[0]);
    pane_is_known(command, env, steps, answers, pane, t);
    goes_on(env, steps, answers, t);
    reveal(answered);
    if t + 2 < steps.len() {
        goes_on(env, steps, answers, t + 1);
    }
    if t + 3 < steps.len() && answers[t + 1] == Answer::Session(Ok((workspace, tab)))
        && seed_error(unless_empty(env.active_tab_id), workspace, tab) is None {
        goes_on(env, steps, answers, t + 2);
        let updated = seeded_into(env, pane, goal, steps, answers, t, workspace, tab);
    }
}

proof fn seeded_into(
    env: Environment,
    pane: Seq<char>,
    goal: GoalView,
    steps: Seq<Step>,
    answers: Seq<Answer>,
    t: int,
    workspace: JsonView,
    tab: JsonView,
) -> (updated: CacheView)
    requires
        is_marker_course(env, goal, pane, steps, answers, t),
        t + 3 < steps.len(),
        answers[t] matches Answer::Cache(cache) && known_public_id(pane, cache) is None,
        answers[t + 1] == Answer::Session(Ok((workspace, tab))),
        seeded_tab_id(unless_empty(env.active_tab_id), workspace, tab) is Ok,
        pane_mapping(workspace, tab) is Ok,
    ensures
        is_seeding(env, pane, steps, answers, t, workspace, tab, updated),
        resolved(
            env,
            goal,
            pane,
            if updated.aliases.contains_key(pane) {
                Some(updated.aliases[pane])
            } else {
                None
            },
            updated,
            steps[t + 3],
        ),
{
    let command = choose|command: CommandView| #[trigger]
        is_goal(command, goal) && begins(command, env, steps[0]);
    pane_is_known(command, env, steps, answers, pane, t);
    goes_on(env, steps, answers, t);
    goes_on(env, steps, answers, t + 1);
    goes_on(env, steps, answers, t + 2);
    reveal(answered);
    let after = steps[t + 2]->ComputeCuts_0;
    let values = answers[t + 2]->Cuts_0;
    let now: u128 = answers[t + 2]->Cuts_1;
    let before = answers[t]->Cache_0;
    let purpose = PurposeView::Resolve { goal, pane };
    let tab_id = seeded_tab_id(unless_empty(env.active_tab_id), workspace, tab)->Ok_0;
    let mapping = pane_mapping(workspace, tab)->Ok_0;
    let rects = placed_rects(after.plan_view().panes@, values);
    let seed = after->Seed_seed;
    let updated = choose|updated: CacheView| #[trigger]
        is_seeded(before, tab_id, mapping, rects, now, updated) && after_seeding(
            env,
            purpose,
            seeded_tab(seed, values),
            updated,
            steps[t + 3],
        );
    updated
}

/// Whether a pane has a name, or none, once a place of the course is reached: the
/// public id that the cache knows, or else the one in the session.
pub open spec fn has_name_at(
    env: Environment,
    pane: Seq<char>,
    steps: Seq<Step>,
    answers: Seq<Answer>,
    t: int,
    r: int,
    name: Option<Seq<char>>,
    cache: CacheView,
) -> bool {
    ||| r == t + 1 && name is Some && is_cached_name(pane, answers, t, name->0, cache)
    ||| r == t + 3 && exists|workspace: JsonView, tab: JsonView| #[trigger]
        is_seeding(env, pane, steps, answers, t, workspace, tab, cache) && is_session_name(
            pane,
            workspace,
            tab,
            name,
        )
}

proof fn name_is_resolved(
    env: Environment,
    goal: GoalView,
    pane: Seq<char>,
    steps: Seq<Step>,
    answers: Seq<Answer>,
    t: int,
    r: int,
    name: Option<Seq<char>>,
    cache: CacheView,
) -> (updated: CacheView)
    requires
        is_marker_course(env, goal, pane, steps, answers, t),
        has_name_at(env, pane, steps, answers, t, r, name, cache),
        r < steps.len(),
    ensures
        has_name_at(env, pane, steps, answers, t, r, name, updated),
        resolved(env, goal, pane, name, updated, steps[r]),
{
    if r == t + 1 {
        name_is_resolved_by_the_cache(env, goal, pane, steps, answers, t, name->0, cache);
        cache
    } else {
        let (workspace, tab) = choose|workspace: JsonView, tab: JsonView| #[trigger]
            is_seeding(env, pane, steps, answers, t, workspace, tab, cache) && is_session_name(
                pane,
                workspace,
                tab,
                name,
            );
        let updated = seeded_into(env, pane, goal, steps, answers, t, workspace, tab);
        let before = answers[t]->Cache_0;
        let tab_id = seeded_tab_id(unless_empty(env.active_tab_id), workspace, tab)->Ok_0;
        let mapping = pane_mapping(workspace, tab)->Ok_0;
        let rects = placed_rects(
            steps[t + 2]->ComputeCuts_0.plan_view().panes@,
            answers[t + 2]->Cuts_0,
        );
        let now: u128 = answers[t + 2]->Cuts_1;
        let n: i64 = choose|n: i64| #[trigger]
            mapping.contains_key(n) && marked_id(n as int) == pane && mapping[n] == name->0;
        seeding_records_the_ids(before, tab_id, mapping, rects, now, updated, n, pane);
        updated
    }
}

/// `register` writes the marker of the pane's public id, then saves the cache, and
/// ends with code 0. Where the pane has no public id, it ends with code 1; where
/// something cannot be written, with what is wrong.
pub proof fn register_writes_the_marker(
    env: Environment,
    pane: Seq<char>,
    steps: Seq<Step>,
    answers: Seq<Answer>,
    t: int,
    r: int,
    name: Option<Seq<char>>,
    cache: CacheView,
    message: Seq<char>,
)
    requires
        is_marker_course(env, GoalView::Register, pane, steps, answers, t),
        has_name_at(env, pane, steps, answers, t, r, name, cache),
        r < steps.len(),
    ensures
        name is None ==> steps[r] == Step::Exit(1),
        name is Some ==> match nvim_panes_dir_of(env) {
            Err(trouble) => ends_in(steps[r], trouble),
            Ok(markers) => {
                &&& steps[r] matches Step::WriteMarker { dir, path, pane: p, cache: c }
                &&& dir@ == markers
                &&& path@ == joined_name(markers, name->0)
                &&& p@ == name->0
                &&& has_name_at(env, pane, steps, answers, t, r, name, c@)
                &&& r + 1 < steps.len() && answers[r] == Answer::Done(Err(message)) ==> ends_in(
                    steps[r + 1],
                    message,
                )
                &&& r + 1 < steps.len() && answers[r] == Answer::Done(Ok(())) ==> {
                    &&& steps[r + 1] matches Step::SaveCache { dir: d, path: q, cache: saved }
                    &&& session_cache_dir_of(env) == Ok::<Seq<u8>, Seq<char>>(d@)
                    &&& cache_path_of(env) == Ok::<Seq<u8>, Seq<char>>(q@)
                    &&& saved@ == c@
                    &&& r + 2 < steps.len() && answers[r + 1] == Answer::Done(Err(message))
                        ==> ends_in(steps[r + 2], message)
                    &&& r + 2 < steps.len() && answers[r + 1] == Answer::Done(Ok(())) ==> steps[r
                        + 2] == Step::Exit(0)
                }
            },
        },
{
    let updated = name_is_resolved(
        env,
        GoalView::Register,
        pane,
        steps,
        answers,
        t,
        r,
        name,
        cache,
    );
    reveal(answered);
    if r + 1 < steps.len() {
        goes_on(env, steps, answers, r);
    }
    if r + 2 < steps.len() {
        goes_on(env, steps, answers, r + 1);
    }
}

/// `release` looks for the marker of the pane's public id, removes just that one
/// where it is there, and ends with code 0. Where the pane has no public id, it ends
/// with code 1.
pub proof fn release_removes_just_the_marker(
    env: Environment,
    pane: Seq<char>,
    steps: Seq<Step>,
    answers: Seq<Answer>,
    t: int,
    r: int,
    name: Option<Seq<char>>,
    cache: CacheView,
)
    requires
        is_marker_course(env, GoalView::Release, pane, steps, answers, t),
        has_name_at(env, pane, steps, answers, t, r, name, cache),
        r < steps.len(),
    ensures
        name is None ==> steps[r] == Step::Exit(1),
        name is Some ==> match nvim_panes_dir_of(env) {
            Err(trouble) => ends_in(steps[r], trouble),
            Ok(markers) => {
                &&& steps[r] matches Step::CheckMarker(path, _)
                &&& path@ == joined_name(markers, name->0)
                &&& r + 1 < steps.len() && answers[r] == Answer::Found(false) ==> steps[r + 1]
                    == Step::Exit(0)
                &&& r + 1 < steps.len() && answers[r] == Answer::Found(true) ==> {
                    &&& steps[r + 1] matches Step::RemoveMarkers(paths, _)
                    &&& paths@.len() == 1
                    &&& paths@[0]@ == joined_name(markers, name->0)
                    &&& r + 2 < steps.len() ==> steps[r + 2] == Step::Exit(0)
                }
            },
        },
{
    let updated = name_is_resolved(
        env,
        GoalView::Release,
        pane,
        steps,
        answers,
        t,
        r,
        name,
        cache,
    );
    reveal(answered);
    if r + 1 < steps.len() {
        goes_on(env, steps, answers, r);
    }
    if r + 2 < steps.len() {
        goes_on(env, steps, answers, r + 1);
    }
}

/// Whether the focus is moved from a pane in a direction at a place of a course:
/// Herdr is asked for that at once where the environment names the active pane, and
/// behind its list of panes where it does not.
pub open spec fn moves_at(
    env: Environment,
    direction: Seq<char>,
    pane: Seq<char>,
    steps: Seq<Step>,
    answers: Seq<Answer>,
    u: int,
) -> bool {
    if names_no_pane(env) {
        &&& asks_for_panes(steps[u])
        &&& u + 1 < steps.len() ==> {
            &&& forall|listing: JsonView, other: Seq<char>|
                gives(answers[u], listing) && #[trigger] focuses_first(listing, other)
                    ==> asks_to_move(steps[u + 1], pane, direction)
            &&& forall|listing: JsonView| #[trigger]
                gives(answers[u], listing) && focuses_none(listing) ==> asks_to_move(
                    steps[u + 1],
                    pane,
                    direction,
                )
            &&& forall|message: Seq<char>| #[trigger]
                refuses(answers[u], message) ==> ends_in(steps[u + 1], message)
        }
    } else {
        asks_to_move(steps[u], pane, direction)
    }
}

proof fn unmarked_moves(
    env: Environment,
    direction: Seq<char>,
    pane: Seq<char>,
    steps: Seq<Step>,
    answers: Seq<Answer>,
    u: int,
)
    requires
        is_course(env, steps, answers),
        0 <= u < steps.len(),
        unmarked(env, direction, pane, steps[u]),
    ensures
        moves_at(env, direction, pane, steps, answers, u),
{
    list_request_says();
    direction_request_says(pane, direction);
    environment_names_the_pane(env, pane);
    if !names_no_pane(env) {
        let named = match env.active_pane_id {
            Some(id) if id@.len() > 0 => id@,
            _ => env.pane_id->0@,
        };
        environment_names_the_pane(env, named);
    } else if u + 1 < steps.len() {
        goes_on(env, steps, answers, u);
        reveal(answered);
        assert forall|listing: JsonView, other: Seq<char>|
            gives(answers[u], listing) && #[trigger] focuses_first(
                listing,
                other,
            ) implies asks_to_move(steps[u + 1], pane, direction) by {
            first_focused_pane_is_active(listing, other);
        }
        assert forall|listing: JsonView| #[trigger]
            gives(answers[u], listing) && focuses_none(listing) implies asks_to_move(
            steps[u + 1],
            pane,
            direction,
        ) by {
            first_focused_pane_is_active(listing, pane);
        }
    }
}

/// Whether a step removes the markers in a directory that are named after none of
/// the listed panes.
pub open spec fn removes_stale(
    step: Step,
    dir: Seq<u8>,
    names: Seq<Seq<char>>,
    listing: JsonView,
) -> bool {
    &&& step matches Step::RemoveMarkers(paths, _)
    &&& forall|path: Seq<u8>| #[trigger]
        paths_view(paths@).contains(path) <==> exists|name: Seq<char>| #[trigger]
            names.contains(name) && joined_name(dir, name) == path && !is_listed(listing, name)
}

/// Whether a listing has a pane with an id.
pub open spec fn is_listed(listing: JsonView, id: Seq<char>) -> bool {
    exists|panes: Seq<JsonView>, i: int|
        {
            &&& 0 <= i < panes.len()
            &&& #[trigger] holds(listing, "panes"@, JsonView::Array(panes))
            &&& holds(#[trigger] panes[i], "pane_id"@, JsonView::Text(id))
        }
}

proof fn stale_are_removed(
    step: Step,
    dir: Seq<u8>,
    names: Seq<Seq<char>>,
    listing: JsonView,
)
    requires
        step matches Step::RemoveMarkers(paths, _) && paths_view(paths@) == stale_paths(
            dir,
            names,
            listed_ids(listed_panes(listing)),
        ),
    ensures
        removes_stale(step, dir, names, listing),
{
    let live = listed_ids(listed_panes(listing));
    let paths = paths_view(step->RemoveMarkers_0@);
    assert forall|name: Seq<char>| #[trigger] live.contains(name) <==> is_listed(
        listing,
        name,
    ) by {
        live_panes_are_listed(listed_panes(listing), name);
        if is_listed(listing, name) {
            let (panes, i) = choose|panes: Seq<JsonView>, i: int|
                {
                    &&& 0 <= i < panes.len()
                    &&& #[trigger] holds(listing, "panes"@, JsonView::Array(panes))
                    &&& holds(#[trigger] panes[i], "pane_id"@, JsonView::Text(name))
                };
            assert(listed_panes(listing) == panes);
            assert(holds(listed_panes(listing)[i], "pane_id"@, JsonView::Text(name)));
        }
        if live.contains(name) {
            let panes = listed_panes(listing);
            let i: int = choose|i: int|
                0 <= i < panes.len() && #[trigger] holds(panes[i], "pane_id"@, JsonView::Text(name));
            assert(holds(listing, "panes"@, JsonView::Array(panes)));
            assert(holds(panes[i], "pane_id"@, JsonView::Text(name)));
        }
    }
    assert forall|path: Seq<u8>| #[trigger] paths.contains(path) <==> exists|name: Seq<char>|
        #[trigger] names.contains(name) && joined_name(dir, name) == path && !is_listed(
            listing,
            name,
        ) by {
        pruning_spares_the_living(dir, names, live, path);
        if paths.contains(path) {
            let name = choose|name: Seq<char>| #[trigger]
                names.contains(name) && !live.contains(name) && joined_name(dir, name) == path;
            assert(names.contains(name) && !is_listed(listing, name));
        }
        if exists|name: Seq<char>| #[trigger]
            names.contains(name) && joined_name(dir, name) == path && !is_listed(listing, name) {
            let name = choose|name: Seq<char>| #[trigger]
                names.contains(name) && joined_name(dir, name) == path && !is_listed(listing, name);
            assert(names.contains(name) && !live.contains(name));
        }
    }
}

/// `dispatch` looks for the marker of the pane's public id, then asks Herdr for its
/// panes, removes the stale markers, and looks again. Where the marker is still
/// there, the pane gets the one key of the direction, and the command ends with
/// code 0. Where it is not, the focus moves from the pane in the direction.
pub proof fn dispatch_goes_by_the_marker(
    env: Environment,
    direction: Seq<char>,
    key: Seq<char>,
    pane: Seq<char>,
    steps: Seq<Step>,
    answers: Seq<Answer>,
    t: int,
    r: int,
    name: Seq<char>,
    cache: CacheView,
    dir: Seq<u8>,
    listing: JsonView,
    names: Seq<Seq<char>>,
    result: JsonView,
    message: Seq<char>,
)
    requires
        is_marker_course(env, GoalView::Dispatch(direction), pane, steps, answers, t),
        is_key_of(direction, key),
        has_name_at(env, pane, steps, answers, t, r, Some(name), cache),
        nvim_panes_dir_of(env) == Ok::<Seq<u8>, Seq<char>>(dir),
        r < steps.len(),
    ensures
        steps[r] matches Step::CheckMarker(path, _) && path@ == joined_name(dir, name),
        r + 1 < steps.len() ==> answers[r] is Found && asks_for_panes(steps[r + 1]),
        r + 2 < steps.len() && refuses(answers[r + 1], message) && answers[r] == Answer::Found(true)
            ==> ends_in(steps[r + 2], message),
        r + 2 < steps.len() && refuses(answers[r + 1], message) && answers[r] == Answer::Found(
            false,
        ) ==> moves_at(env, direction, pane, steps, answers, r + 2),
        r + 2 < steps.len() && gives(answers[r + 1], listing) ==> {
            &&& steps[r + 2] matches Step::ListMarkers(d, _) && d@ == dir
            &&& r + 3 < steps.len() && answers[r + 2] == Answer::Names(names) ==> removes_stale(
                steps[r + 3],
                dir,
                names,
                listing,
            )
            &&& r + 4 < steps.len() ==> {
                &&& steps[r + 4] matches Step::CheckMarker(path, _)
                &&& path@ == joined_name(dir, name)
            }
            &&& r + 5 < steps.len() && answers[r + 4] == Answer::Found(true) ==> {
                &&& steps[r + 5] matches Step::Send(request, _) && sends_key(request@, pane, key)
                &&& r + 6 < steps.len() && gives(answers[r + 5], result) ==> steps[r + 6]
                    == Step::Exit(0)
                &&& r + 6 < steps.len() && refuses(answers[r + 5], message) ==> ends_in(
                    steps[r + 6],
                    message,
                )
            }
            &&& r + 5 < steps.len() && answers[r + 4] == Answer::Found(false) ==> moves_at(
                env,
                direction,
                pane,
                steps,
                answers,
                r + 5,
            )
        },
{
    let updated = name_is_resolved(
        env,
        GoalView::Dispatch(direction),
        pane,
        steps,
        answers,
        t,
        r,
        Some(name),
        cache,
    );
    list_request_says();
    directions_are_named(direction);
    key_request_says(pane, key);
    reveal(answered);
    if r + 1 < steps.len() {
        goes_on(env, steps, answers, r);
    }
    if r + 2 < steps.len() {
        goes_on(env, steps, answers, r + 1);
        if refuses(answers[r + 1], message) && answers[r] == Answer::Found(false) {
            unmarked_moves(env, direction, pane, steps, answers, r + 2);
        }
    }
    if r + 2 < steps.len() && gives(answers[r + 1], listing) {
        if r + 3 < steps.len() {
            goes_on(env, steps, answers, r + 2);
            stale_are_removed(steps[r + 3], dir, answers[r + 2]->Names_0, listing);
        }
        if r + 4 < steps.len() {
            goes_on(env, steps, answers, r + 3);
        }
        if r + 5 < steps.len() {
            goes_on(env, steps, answers, r + 4);
            if answers[r + 4] == Answer::Found(false) {
                unmarked_moves(env, direction, pane, steps, answers, r + 5);
            }
        }
        if r + 6 < steps.len() {
            goes_on(env, steps, answers, r + 5);
        }
    }
}

/// Where a dispatched pane has no public id, there is no marker to look for: the
/// stale ones are removed, and the focus moves from the pane in the direction. Where
/// there is no directory for markers, a pane with a public id ends the command with
/// the reason, and one without moves the focus at once.
pub proof fn dispatch_without_a_name_moves_the_focus(
    env: Environment,
    direction: Seq<char>,
    pane: Seq<char>,
    steps: Seq<Step>,
    answers: Seq<Answer>,
    t: int,
    r: int,
    name: Option<Seq<char>>,
    cache: CacheView,
    dir: Seq<u8>,
    listing: JsonView,
    names: Seq<Seq<char>>,
    message: Seq<char>,
)
    requires
        is_marker_course(env, GoalView::Dispatch(direction), pane, steps, answers, t),
        has_name_at(env, pane, steps, answers, t, r, name, cache),
        r < steps.len(),
    ensures
        nvim_panes_dir_of(env) == Err::<Seq<u8>, Seq<char>>(message) && name is Some ==> ends_in(
            steps[r],
            message,
        ),
        nvim_panes_dir_of(env) is Err && name is None ==> moves_at(
            env,
            direction,
            pane,
            steps,
            answers,
            r,
        ),
        nvim_panes_dir_of(env) == Ok::<Seq<u8>, Seq<char>>(dir) && name is None ==> {
            &&& asks_for_panes(steps[r])
            &&& r + 1 < steps.len() && refuses(answers[r], message) ==> moves_at(
                env,
                direction,
                pane,
                steps,
                answers,
                r + 1,
            )
            &&& r + 1 < steps.len() && gives(answers[r], listing) ==> {
                &&& steps[r + 1] matches Step::ListMarkers(d, _) && d@ == dir
                &&& r + 2 < steps.len() && answers[r + 1] == Answer::Names(names) ==> removes_stale(
                    steps[r + 2],
                    dir,
                    names,
                    listing,
                )
                &&& r + 3 < steps.len() ==> moves_at(env, direction, pane, steps, answers, r + 3)
            }
        },
{
    let updated = name_is_resolved(
        env,
        GoalView::Dispatch(direction),
        pane,
        steps,
        answers,
        t,
        r,
        name,
        cache,
    );
    list_request_says();
    reveal(answered);
    if nvim_panes_dir_of(env) is Err && name is None {
        unmarked_moves(env, direction, pane, steps, answers, r);
    }
    if nvim_panes_dir_of(env) == Ok::<Seq<u8>, Seq<char>>(dir) && name is None && r + 1
        < steps.len() {
        goes_on(env, steps, answers, r);
        if refuses(answers[r], message) {
            unmarked_moves(env, direction, pane, steps, answers, r + 1);
        }
        if gives(answers[r], listing) {
            if r + 2 < steps.len() {
                goes_on(env, steps, answers, r + 1);
                stale_are_removed(steps[r + 2], dir, answers[r + 1]->Names_0, listing);
            }
            if r + 3 < steps.len() {
                goes_on(env, steps, answers, r + 2);
                unmarked_moves(env, direction, pane, steps, answers, r + 3);
            }
        }
    }
}

/// The session that a caller hands over is read as its text; where it has none, the
/// reason stands for it.
pub proof fn handed_session_is_read(text: SessionText, message: String)
    ensures
        session_of(Ok(text)) == session_parts(text.file@, text.content@),
        session_of(Err(message)) == Err::<(JsonView, JsonView), Seq<char>>(message@),
{
}

} // verus!
