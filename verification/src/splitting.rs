//! The course of `split`: which tab and cache it goes by, what it asks of Herdr, and
//! what the cache holds that it saves.

use vstd::prelude::*;

use crate::answers::{after_seeding, seeded_tab, splits};
use crate::cache::CacheView;
use crate::json::JsonView;
use crate::laws::{answered, is_course, Answer};
use crate::layout::{placed_rects, plan_of, tab_layout, Rect};
use crate::listings::{internal_ids_are_marked, is_marked};
use crate::navigator::begins;
use crate::openings::{asks_for_cache, ends_in, gives, goes_on, knows_pane, pane_is_known, refuses};
use crate::panes::unless_empty;
use crate::paths::{cache_path_of, session_cache_dir_of, socket_path_of, Environment};
use crate::recordings::{
    is_above, is_cut_in_two, is_left_of, is_right_of, is_under, marked_id, new_pane_is_recorded,
    split_cuts_the_pane,
};
use crate::requests::{new_pane, result_of};
use crate::seed::{is_seeded, places, places_none, with_new_pane, with_split};
use crate::session::{pane_mapping, seeded_tab_id};
use crate::steps::{
    AfterCache, AfterCuts, AfterReply, AfterSession, CommandView, PurposeView, Step,
};
use crate::wording::{
    directions_are_named, empty_variables_do_not_count, holds, is_set, is_unset, new_pane_is_read,
    split_request_says,
};

verus! {

/// Whether steps are the course of a split of a pane that is known at a place of it.
pub open spec fn is_split_course(
    env: Environment,
    direction: Seq<char>,
    target: Seq<char>,
    steps: Seq<Step>,
    answers: Seq<Answer>,
    t: int,
) -> bool {
    &&& steps.len() > 0
    &&& begins(CommandView::Split(direction), env, steps[0])
    &&& is_course(env, steps, answers)
    &&& knows_pane(env, answers, target, t)
    &&& !is_marked(target)
}

/// Whether the split goes by a cache that was loaded and knows the tab that
/// `HERDR_ACTIVE_TAB_ID` names.
pub open spec fn knows_tab(
    env: Environment,
    answers: Seq<Answer>,
    t: int,
    tab_id: Seq<char>,
    cache: CacheView,
) -> bool {
    &&& answers[t] == Answer::Cache(cache)
    &&& is_set(env.active_tab_id, tab_id)
    &&& cache.tabs.contains_key(tab_id)
}

/// Whether the split goes by a cache into which the session's active tab was put:
/// under the id that `HERDR_ACTIVE_TAB_ID` names, where the cache did not know that
/// tab; or under the id that the session gives, where the variable names none and
/// some pane of the tab has a place.
pub open spec fn learns_tab(
    env: Environment,
    steps: Seq<Step>,
    answers: Seq<Answer>,
    t: int,
    tab_id: Seq<char>,
    cache: CacheView,
) -> bool {
    &&& answers[t] matches Answer::Cache(before)
    &&& answers[t + 1] matches Answer::Session(Ok((workspace, tab)))
    &&& pane_mapping(workspace, tab) matches Ok(mapping)
    &&& steps[t + 2] matches Step::ComputeCuts(after)
    &&& plan_of(after.plan_view(), tab_layout(tab))
    &&& answers[t + 2] matches Answer::Cuts(values, now)
    &&& is_seeded(
        before,
        tab_id,
        mapping,
        placed_rects(after.plan_view().panes@, values),
        now,
        cache,
    )
    &&& is_set(env.active_tab_id, tab_id) ==> !before.tabs.contains_key(tab_id)
    &&& !is_set(env.active_tab_id, tab_id) ==> {
        &&& is_unset(env.active_tab_id)
        &&& seeded_tab_id(None, workspace, tab) == Ok::<Seq<char>, Seq<char>>(tab_id)
        &&& exists|n: i64| #[trigger]
            mapping.contains_key(n) && placed_rects(
                after.plan_view().panes@,
                values,
            ).contains_key(n)
    }
}

/// Whether the split's tab and cache are known at a place of its course.
pub open spec fn has_tab_at(
    env: Environment,
    steps: Seq<Step>,
    answers: Seq<Answer>,
    t: int,
    s: int,
    tab_id: Seq<char>,
    cache: CacheView,
) -> bool {
    ||| s == t + 1 && knows_tab(env, answers, t, tab_id, cache)
    ||| s == t + 3 && learns_tab(env, steps, answers, t, tab_id, cache)
}

/// Whether a step asks Herdr to split a pane towards a direction, in the directory
/// that `HERDR_ACTIVE_PANE_CWD` names, and to focus the new pane.
pub open spec fn asks_to_split(
    step: Step,
    env: Environment,
    target: Seq<char>,
    direction: Seq<char>,
) -> bool {
    &&& step matches Step::Send(request, _)
    &&& request@.method == "pane.split"@
    &&& request@.params.dom() == set!["target_pane_id"@, "direction"@, "cwd"@, "focus"@]
    &&& request@.params["target_pane_id"@] == JsonView::Text(target)
    &&& request@.params["direction"@] == JsonView::Text(direction)
    &&& forall|cwd: Seq<char>| #[trigger]
        is_set(env.active_pane_cwd, cwd) ==> request@.params["cwd"@] == JsonView::Text(cwd)
    &&& is_unset(env.active_pane_cwd) ==> request@.params["cwd"@] == JsonView::Null
    &&& request@.params["focus"@] == JsonView::Bool(true)
}

/// Whether a step saves a cache where the session's files lie; where they lie
/// nowhere, the step says why.
pub open spec fn saves(step: Step, env: Environment, cache: CacheView) -> bool {
    match (session_cache_dir_of(env), cache_path_of(env)) {
        (Ok(d), Ok(p)) => {
            &&& step matches Step::SaveCache { dir, path, cache: c }
            &&& dir@ == d
            &&& path@ == p
            &&& c@ == cache
        },
        (Err(message), _) => ends_in(step, message),
        (_, Err(message)) => ends_in(step, message),
    }
}

/// Whether a cache is another one with a new pane recorded under the internal id
/// behind the largest one.
pub open spec fn records_pane(before: CacheView, new_public: Seq<char>, after: CacheView) -> bool {
    &&& after.tabs == before.tabs
    &&& before.max_internal < i64::MAX ==> after.aliases == before.aliases.insert(
        marked_id(before.max_internal + 1),
        new_public,
    ) && after.max_internal == before.max_internal + 1
    &&& before.max_internal == i64::MAX ==> after.aliases == before.aliases.insert(
        marked_id(i64::MIN as int),
        new_public,
    ) && after.max_internal == i64::MAX
}

/// Whether a document names the new pane of a split.
pub open spec fn names_new_pane(result: JsonView, new_public: Seq<char>) -> bool {
    exists|pane: JsonView| #[trigger]
        holds(result, "pane"@, pane) && holds(pane, "pane_id"@, JsonView::Text(new_public))
}

/// Whether a split that Herdr is asked for at a place goes on as it should, by a tab
/// and a cache: the new pane is recorded, and where the cache knows the rectangle of
/// the pane that is split, the middle of the side that is cut is computed and the
/// two panes share the rectangle there. The cache is saved, and the command ends.
pub open spec fn split_goes_on(
    env: Environment,
    direction: Seq<char>,
    target: Seq<char>,
    steps: Seq<Step>,
    answers: Seq<Answer>,
    s: int,
    tab_id: Seq<char>,
    cache: CacheView,
    result: JsonView,
    new_public: Seq<char>,
) -> bool {
    let whole = cache.tabs[tab_id].panes[target];
    &&& s + 1 < steps.len() && gives(answers[s], result) && (forall|id: Seq<char>|
        !#[trigger] names_new_pane(result, id)) ==> steps[s + 1] == Step::Exit(1)
    &&& s + 1 < steps.len() && gives(answers[s], result) && names_new_pane(result, new_public)
        ==> if cache.tabs.contains_key(tab_id) && cache.tabs[tab_id].panes.contains_key(target) {
        &&& steps[s + 1] matches Step::ComputeMiddle(low, high, _)
        &&& direction == "right"@ ==> low == whole.x0 && high == whole.x1
        &&& direction == "down"@ ==> low == whole.y0 && high == whole.y1
        &&& s + 2 < steps.len() ==> {
            &&& answers[s + 1] matches Answer::Middle(middle, now)
            &&& exists|recorded: CacheView, saved: CacheView|
                {
                    &&& #[trigger] records_pane(cache, new_public, recorded)
                    &&& #[trigger] saves(steps[s + 2], env, saved)
                    &&& direction == "right"@ ==> is_cut_in_two(
                        recorded,
                        tab_id,
                        target,
                        new_public,
                        true,
                        middle,
                        now,
                        saved,
                    )
                    &&& direction == "down"@ ==> is_cut_in_two(
                        recorded,
                        tab_id,
                        target,
                        new_public,
                        false,
                        middle,
                        now,
                        saved,
                    )
                }
        }
    } else {
        exists|saved: CacheView| #[trigger]
            records_pane(cache, new_public, saved) && saves(steps[s + 1], env, saved)
    }
}

/// Whether a step goes on with a split by a tab and a cache.
spec fn is_splitting(
    step: Step,
    direction: Seq<char>,
    target: Seq<char>,
    tab_id: Seq<char>,
    cache: CacheView,
) -> bool {
    &&& step matches Step::Send(_, AfterReply::Split { direction: d, target: p, tab_id: i, cache: c })
    &&& d@ == direction
    &&& p@ == target
    &&& i@ == tab_id
    &&& c@ == cache
}

proof fn splitting_goes_on(
    env: Environment,
    direction: Seq<char>,
    target: Seq<char>,
    steps: Seq<Step>,
    answers: Seq<Answer>,
    s: int,
    tab_id: Seq<char>,
    cache: CacheView,
    result: JsonView,
    new_public: Seq<char>,
)
    requires
        is_course(env, steps, answers),
        0 <= s < steps.len(),
        is_splitting(steps[s], direction, target, tab_id, cache),
    ensures
        split_goes_on(
            env,
            direction,
            target,
            steps,
            answers,
            s,
            tab_id,
            cache,
            result,
            new_public,
        ),
{
    directions_are_named("down"@);
    directions_are_named("right"@);
    new_pane_is_read(result, new_public);
    if let Some(id) = new_pane(result) {
        new_pane_is_read(result, id);
        assert(names_new_pane(result, id));
    }
    new_pane_is_recorded(cache, new_public);
    let recorded = with_new_pane(cache, new_public);
    assert(records_pane(cache, new_public, recorded));
    reveal(answered);
    if s + 1 < steps.len() {
        goes_on(env, steps, answers, s);
        if gives(answers[s], result) && names_new_pane(result, new_public) {
            if cache.tabs.contains_key(tab_id) && cache.tabs[tab_id].panes.contains_key(target) {
                if s + 2 < steps.len() {
                    goes_on(env, steps, answers, s + 1);
                    let middle: u64 = answers[s + 1]->Middle_0;
                    let now: u128 = answers[s + 1]->Middle_1;
                    split_cuts_the_pane(
                        recorded,
                        tab_id,
                        target,
                        new_public,
                        direction == "right"@,
                        middle,
                        now,
                    );
                    let saved = with_split(
                        recorded,
                        tab_id,
                        target,
                        new_public,
                        direction == "right"@,
                        middle,
                        now,
                    );
                    assert(saves(steps[s + 2], env, saved));
                }
            } else {
                assert(saves(steps[s + 1], env, recorded));
            }
        }
    }
}

proof fn split_is_asked(
    env: Environment,
    direction: Seq<char>,
    target: Seq<char>,
    step: Step,
    tab_id: Seq<char>,
    cache: CacheView,
)
    requires
        splits(env, direction, target, tab_id, cache, step),
    ensures
        is_splitting(step, direction, target, tab_id, cache),
        asks_to_split(step, env, target, direction),
{
    split_request_says(target, direction, unless_empty(env.active_pane_cwd));
    assert forall|cwd: Seq<char>| #[trigger] is_set(env.active_pane_cwd, cwd) implies step->Send_0@.params[
    "cwd"@] == JsonView::Text(cwd) by {
        empty_variables_do_not_count(env.active_pane_cwd, cwd);
    }
    empty_variables_do_not_count(env.active_pane_cwd, target);
}

/// A split goes by the tab that `HERDR_ACTIVE_TAB_ID` names, where the cache knows
/// it: Herdr is asked to split the pane right after the cache is loaded.
pub proof fn known_tab_is_split_at_once(
    env: Environment,
    direction: Seq<char>,
    target: Seq<char>,
    steps: Seq<Step>,
    answers: Seq<Answer>,
    t: int,
    tab_id: Seq<char>,
    cache: CacheView,
    result: JsonView,
    new_public: Seq<char>,
    message: Seq<char>,
)
    requires
        is_split_course(env, direction, target, steps, answers, t),
        t + 1 < steps.len(),
        knows_tab(env, answers, t, tab_id, cache),
    ensures
        asks_for_cache(steps[t], env),
        asks_to_split(steps[t + 1], env, target, direction),
        t + 2 < steps.len() && refuses(answers[t + 1], message) ==> ends_in(steps[t + 2], message),
        split_goes_on(
            env,
            direction,
            target,
            steps,
            answers,
            t + 1,
            tab_id,
            cache,
            result,
            new_public,
        ),
{
    internal_ids_are_marked(target);
    pane_is_known(CommandView::Split(direction), env, steps, answers, target, t);
    goes_on(env, steps, answers, t);
    empty_variables_do_not_count(env.active_tab_id, tab_id);
    reveal(answered);
    split_is_asked(env, direction, target, steps[t + 1], tab_id, cache);
    splitting_goes_on(
        env,
        direction,
        target,
        steps,
        answers,
        t + 1,
        tab_id,
        cache,
        result,
        new_public,
    );
    if t + 2 < steps.len() {
        goes_on(env, steps, answers, t + 1);
    }
}

/// Whether the cache does not know the tab to split: the one that the variable
/// names, where it names one.
pub open spec fn lacks_tab(env: Environment, cache: CacheView) -> bool {
    forall|tab_id: Seq<char>| #[trigger]
        is_set(env.active_tab_id, tab_id) ==> !cache.tabs.contains_key(tab_id)
}

/// Where the cache does not know the tab, it is learned from the session, and then
/// Herdr is asked to split the pane. Where the session cannot be read, the command
/// ends with what is wrong; where no tab is named and the session gives none, it
/// says that the tab's id is not to be had.
pub proof fn unknown_tab_is_learned_first(
    env: Environment,
    direction: Seq<char>,
    target: Seq<char>,
    steps: Seq<Step>,
    answers: Seq<Answer>,
    t: int,
    before: CacheView,
    message: Seq<char>,
    workspace: JsonView,
    tab: JsonView,
    result: JsonView,
    new_public: Seq<char>,
)
    requires
        is_split_course(env, direction, target, steps, answers, t),
        t + 1 < steps.len(),
        answers[t] == Answer::Cache(before),
        lacks_tab(env, before),
    ensures
        asks_for_cache(steps[t], env),
        socket_path_of(env) matches Ok(socket) ==> steps[t + 1] matches Step::ReadSession(path, _)
            && path@ == socket,
        socket_path_of(env) == Err::<Seq<u8>, Seq<char>>(message) ==> learning_fails(
            env,
            steps[t + 1],
            message,
        ),
        t + 2 < steps.len() && answers[t + 1] == Answer::Session(Err(message)) ==> learning_fails(
            env,
            steps[t + 2],
            message,
        ),
        t + 2 < steps.len() && answers[t + 1] == Answer::Session(Ok((workspace, tab))) ==> match (
            seeded_tab_id(unless_empty(env.active_tab_id), workspace, tab),
            pane_mapping(workspace, tab),
        ) {
            (Err(trouble), _) => learning_fails(env, steps[t + 2], trouble),
            (_, Err(trouble)) => learning_fails(env, steps[t + 2], trouble),
            (Ok(tab_id), Ok(mapping)) => {
                &&& steps[t + 2] matches Step::ComputeCuts(after)
                &&& plan_of(after.plan_view(), tab_layout(tab))
                &&& t + 3 < steps.len() ==> {
                    &&& answers[t + 2] matches Answer::Cuts(values, _)
                    &&& if is_unset(env.active_tab_id) && (forall|n: i64| #[trigger]
                        mapping.contains_key(n) ==> !placed_rects(
                            after.plan_view().panes@,
                            values,
                        ).contains_key(n)) {
                        ends_in(steps[t + 3], "active Herdr tab id is unavailable"@)
                    } else {
                        &&& asks_to_split(steps[t + 3], env, target, direction)
                        &&& t + 4 < steps.len() && refuses(answers[t + 3], message) ==> ends_in(
                            steps[t + 4],
                            message,
                        )
                        &&& exists|cache: CacheView| #[trigger]
                            learns_tab(env, steps, answers, t, tab_id, cache) && split_goes_on(
                                env,
                                direction,
                                target,
                                steps,
                                answers,
                                t + 3,
                                tab_id,
                                cache,
                                result,
                                new_public,
                            )
                    }
                }
            },
        },
{
    internal_ids_are_marked(target);
    pane_is_known(CommandView::Split(direction), env, steps, answers, target, t);
    goes_on(env, steps, answers, t);
    empty_variables_do_not_count(env.active_tab_id, target);
    if let Some(id) = env.active_tab_id {
        empty_variables_do_not_count(env.active_tab_id, id@);
        if id@.len() > 0 {
            assert(is_set(env.active_tab_id, id@));
        }
    }
    reveal(answered);
    if t + 2 < steps.len() {
        goes_on(env, steps, answers, t + 1);
    }
    let given = unless_empty(env.active_tab_id);
    if t + 3 < steps.len() && answers[t + 1] == Answer::Session(Ok((workspace, tab)))
        && seeded_tab_id(given, workspace, tab) is Ok && pane_mapping(workspace, tab) is Ok {
        goes_on(env, steps, answers, t + 2);
        let after = steps[t + 2]->ComputeCuts_0;
        let values = answers[t + 2]->Cuts_0;
        let now: u128 = answers[t + 2]->Cuts_1;
        let tab_id = seeded_tab_id(given, workspace, tab)->Ok_0;
        let mapping = pane_mapping(workspace, tab)->Ok_0;
        let rects = placed_rects(after.plan_view().panes@, values);
        let seed = after->Seed_seed;
        let purpose = match given {
            Some(id) => PurposeView::SplitFill { direction, target, tab_id: id },
            None => PurposeView::SplitTab { direction, target },
        };
        let cache = choose|cache: CacheView| #[trigger]
            is_seeded(before, tab_id, mapping, rects, now, cache) && after_seeding(
                env,
                purpose,
                seeded_tab(seed, values),
                cache,
                steps[t + 3],
            );
        assert(is_seeded(before, tab_id, mapping, rects, now, cache));
        if given is None && (forall|n: i64| #[trigger]
            mapping.contains_key(n) ==> !rects.contains_key(n)) {
            assert(places_none(rects, mapping));
        } else {
            if given is None {
                let n: i64 = choose|n: i64| #[trigger]
                    mapping.contains_key(n) && rects.contains_key(n);
                assert(places(rects, mapping, n, mapping[n]));
            }
            split_is_asked(env, direction, target, steps[t + 3], tab_id, cache);
            assert(learns_tab(env, steps, answers, t, tab_id, cache));
            splitting_goes_on(
                env,
                direction,
                target,
                steps,
                answers,
                t + 3,
                tab_id,
                cache,
                result,
                new_public,
            );
            if t + 4 < steps.len() {
                goes_on(env, steps, answers, t + 3);
            }
        }
    }
}

/// Whether a split ends because its tab could not be learned: with the reason where
/// the tab is named, and with its absence where it is not.
pub open spec fn learning_fails(env: Environment, step: Step, message: Seq<char>) -> bool {
    if is_unset(env.active_tab_id) {
        ends_in(step, "active Herdr tab id is unavailable"@)
    } else {
        ends_in(step, message)
    }
}

proof fn before_the_middle(env: Environment, step: Step, answer: Answer, next: Step)
    requires
        answered(env, step, answer, next),
    ensures
        next is ComputeMiddle ==> (step matches Step::Send(_, AfterReply::Split { .. })),
        (next matches Step::Send(_, AfterReply::Split { .. })) ==> {
            ||| step matches Step::LoadCache(_, AfterCache::Split { .. })
            ||| step matches Step::ComputeCuts(AfterCuts::Seed { .. })
        },
        (next matches Step::ComputeCuts(AfterCuts::Seed { .. })) ==> (
        step matches Step::ReadSession(_, AfterSession::Seed { .. })),
        (next matches Step::ReadSession(_, AfterSession::Seed { .. })) ==> step is LoadCache,
        (next matches Step::LoadCache(_, AfterCache::Split { .. })) ==> (step matches Step::Send(
            _,
            AfterReply::Active { .. },
        )),
        !(next matches Step::Send(_, AfterReply::Active { .. })),
{
    reveal(answered);
}

/// Whether the rectangles that a cache has of a pane that was split and of the new
/// one share the old one's at a line: side by side where the split went right, one
/// below the other where it went down.
pub open spec fn share_at(
    direction: Seq<char>,
    whole: Rect,
    line: u64,
    old_part: Rect,
    new_part: Rect,
) -> bool {
    &&& direction == "right"@ ==> is_left_of(old_part, whole, line) && is_right_of(
        new_part,
        whole,
        line,
    )
    &&& direction == "down"@ ==> is_above(old_part, whole, line) && is_under(new_part, whole, line)
}

/// The cache that ends a split with a computed middle: in the tab, the pane that was
/// split keeps the part of its rectangle left of the middle, or above it, and the
/// new pane has the other part. It is the cache that the split was to be recorded
/// in, with both the new pane and the two rectangles recorded.
pub proof fn saved_split_shares_the_rectangle(
    env: Environment,
    direction: Seq<char>,
    target: Seq<char>,
    steps: Seq<Step>,
    answers: Seq<Answer>,
    t: int,
    k: int,
)
    requires
        is_split_course(env, direction, target, steps, answers, t),
        t < k < steps.len(),
        steps[k] is SaveCache,
        steps[k - 1] is ComputeMiddle,
    ensures
        ({
            let saved = steps[k]->SaveCache_cache@;
            let middle = answers[k - 1]->Middle_0;
            let now = answers[k - 1]->Middle_1;
            &&& answers[k - 1] is Middle
            &&& asks_to_split(steps[k - 2], env, target, direction)
            &&& exists|tab_id: Seq<char>, cache: CacheView, result: JsonView, new_public: Seq<char>|
                {
                    let old_panes = cache.tabs[tab_id].panes;
                    let new_panes = saved.tabs[tab_id].panes;
                    &&& #[trigger] has_tab_at(env, steps, answers, t, k - 2, tab_id, cache)
                    &&& #[trigger] gives(answers[k - 2], result)
                    &&& #[trigger] names_new_pane(result, new_public)
                    &&& cache.tabs.contains_key(tab_id) && old_panes.contains_key(target)
                    &&& saved.tabs.contains_key(tab_id) && saved.tabs[tab_id].updated_ns == now
                    &&& new_panes.dom() == old_panes.dom().insert(new_public)
                    &&& new_public != target ==> share_at(
                        direction,
                        old_panes[target],
                        middle,
                        new_panes[target],
                        new_panes[new_public],
                    )
                    &&& saved == with_split(
                        with_new_pane(cache, new_public),
                        tab_id,
                        target,
                        new_public,
                        direction == "right"@,
                        middle,
                        now,
                    )
                }
        }),
{
    directions_are_named("down"@);
    directions_are_named("right"@);
    internal_ids_are_marked(target);
    pane_is_known(CommandView::Split(direction), env, steps, answers, target, t);
    goes_on(env, steps, answers, k - 1);
    goes_on(env, steps, answers, k - 2);
    before_the_middle(env, steps[k - 2], answers[k - 2], steps[k - 1]);
    let s = k - 2;
    let (tab_id, cache) = split_stands_where_it_should(
        env,
        direction,
        target,
        steps,
        answers,
        t,
        s,
    );
    reveal(answered);
    let reply = answers[s]->Reply_0;
    let result = result_of(reply)->Ok_0;
    let new_public = new_pane(result)->0;
    new_pane_is_read(result, new_public);
    assert(gives(answers[s], result));
    assert(names_new_pane(result, new_public));
    let middle: u64 = answers[k - 1]->Middle_0;
    let now: u128 = answers[k - 1]->Middle_1;
    let recorded = with_new_pane(cache, new_public);
    split_cuts_the_pane(
        recorded,
        tab_id,
        target,
        new_public,
        direction == "right"@,
        middle,
        now,
    );
    assert(has_tab_at(env, steps, answers, t, s, tab_id, cache));
}

/// Once the cache is saved, the command ends with code 0; where it cannot be saved,
/// with what is wrong.
pub proof fn saved_cache_ends_the_command(
    env: Environment,
    steps: Seq<Step>,
    answers: Seq<Answer>,
    k: int,
    message: Seq<char>,
)
    requires
        is_course(env, steps, answers),
        0 <= k < steps.len() - 1,
        steps[k] is SaveCache,
    ensures
        answers[k] == Answer::Done(Ok(())) ==> steps[k + 1] == Step::Exit(0),
        answers[k] == Answer::Done(Err(message)) ==> ends_in(steps[k + 1], message),
{
    goes_on(env, steps, answers, k);
    reveal(answered);
}

proof fn split_stands_behind_its_tab(
    env: Environment,
    direction: Seq<char>,
    target: Seq<char>,
    steps: Seq<Step>,
    answers: Seq<Answer>,
    t: int,
    s: int,
)
    requires
        is_split_course(env, direction, target, steps, answers, t),
        t <= s < steps.len(),
        steps[s] matches Step::Send(_, AfterReply::Split { .. }),
    ensures
        s == t + 1 || s == t + 3 && steps[t + 1] is ReadSession && steps[t + 2] is ComputeCuts,
        steps[t] matches Step::LoadCache(_, AfterCache::Split { direction: d, target: p }) && d@
            == direction && p@ == target,
{
    internal_ids_are_marked(target);
    pane_is_known(CommandView::Split(direction), env, steps, answers, target, t);
    goes_on(env, steps, answers, s - 1);
    before_the_middle(env, steps[s - 1], answers[s - 1], steps[s]);
    if steps[s - 1] is LoadCache {
        if s - 1 > t {
            goes_on(env, steps, answers, s - 2);
            before_the_middle(env, steps[s - 2], answers[s - 2], steps[s - 1]);
            if s - 2 > t {
                goes_on(env, steps, answers, s - 3);
                before_the_middle(env, steps[s - 3], answers[s - 3], steps[s - 2]);
            }
        }
    } else {
        goes_on(env, steps, answers, s - 2);
        before_the_middle(env, steps[s - 2], answers[s - 2], steps[s - 1]);
        goes_on(env, steps, answers, s - 3);
        before_the_middle(env, steps[s - 3], answers[s - 3], steps[s - 2]);
        if s - 3 > t {
            goes_on(env, steps, answers, s - 4);
            before_the_middle(env, steps[s - 4], answers[s - 4], steps[s - 3]);
            only_one_cache_is_loaded(env, direction, target, steps, answers, t, s - 3);
        }
    }
}

proof fn only_one_cache_is_loaded(
    env: Environment,
    direction: Seq<char>,
    target: Seq<char>,
    steps: Seq<Step>,
    answers: Seq<Answer>,
    t: int,
    k: int,
)
    requires
        is_split_course(env, direction, target, steps, answers, t),
        t < k < steps.len(),
    ensures
        !(steps[k] is LoadCache),
        !(steps[k] matches Step::Send(_, AfterReply::Active { .. })),
        !(steps[k] matches Step::Send(_, AfterReply::Directed { .. })),
        is_split_kind(steps[k]),
    decreases k,
{
    internal_ids_are_marked(target);
    pane_is_known(CommandView::Split(direction), env, steps, answers, target, t);
    if k > t + 1 {
        only_one_cache_is_loaded(env, direction, target, steps, answers, t, k - 1);
    }
    goes_on(env, steps, answers, k - 1);
    split_kinds_follow(env, steps[k - 1], answers[k - 1], steps[k]);
}

/// Whether a step is one of those behind the cache on the course of a split.
spec fn is_split_kind(step: Step) -> bool {
    match step {
        Step::Exit(_) => true,
        Step::Fail(_) => true,
        Step::Send(_, AfterReply::Split { .. }) => true,
        Step::SaveCache { .. } => true,
        Step::ReadSession(_, AfterSession::Seed { purpose, .. }) => !(purpose@ is Resolve),
        Step::ComputeCuts(AfterCuts::Seed { purpose, .. }) => !(purpose@ is Resolve),
        Step::ComputeMiddle(_, _, _) => true,
        _ => false,
    }
}

proof fn split_kinds_follow(env: Environment, step: Step, answer: Answer, next: Step)
    requires
        is_split_kind(step) || (step matches Step::LoadCache(_, AfterCache::Split { .. })),
        answered(env, step, answer, next),
    ensures
        is_split_kind(next),
{
    reveal(answered);
}

proof fn tab_is_known(
    env: Environment,
    direction: Seq<char>,
    target: Seq<char>,
    step: Step,
    answer: Answer,
    next: Step,
) -> (found: (Seq<char>, CacheView))
    requires
        step matches Step::LoadCache(_, AfterCache::Split { direction: d, target: p }) && d@
            == direction && p@ == target,
        answered(env, step, answer, next),
        next is Send,
    ensures
        answer == Answer::Cache(found.1),
        is_set(env.active_tab_id, found.0),
        found.1.tabs.contains_key(found.0),
        is_splitting(next, direction, target, found.0, found.1),
        asks_to_split(next, env, target, direction),
{
    reveal(answered);
    let cache = answer->Cache_0;
    let tab_id = unless_empty(env.active_tab_id)->0;
    split_is_asked(env, direction, target, next, tab_id, cache);
    (tab_id, cache)
}

spec fn split_purpose(
    env: Environment,
    direction: Seq<char>,
    target: Seq<char>,
) -> PurposeView {
    match unless_empty(env.active_tab_id) {
        Some(id) => PurposeView::SplitFill { direction, target, tab_id: id },
        None => PurposeView::SplitTab { direction, target },
    }
}

proof fn session_is_read(
    env: Environment,
    direction: Seq<char>,
    target: Seq<char>,
    step: Step,
    answer: Answer,
    next: Step,
)
    requires
        step matches Step::LoadCache(_, AfterCache::Split { direction: d, target: p }) && d@
            == direction && p@ == target,
        answered(env, step, answer, next),
        next is ReadSession,
    ensures
        answer matches Answer::Cache(before) && lacks_tab(env, before) && (
        next matches Step::ReadSession(_, AfterSession::Seed { cache, purpose }) && cache@ == before
            && purpose@ == split_purpose(env, direction, target)),
{
    reveal(answered);
}

proof fn tab_is_learned(
    env: Environment,
    direction: Seq<char>,
    target: Seq<char>,
    steps: Seq<Step>,
    answers: Seq<Answer>,
    t: int,
) -> (found: (Seq<char>, CacheView))
    requires
        is_course(env, steps, answers),
        0 <= t,
        t + 3 < steps.len(),
        steps[t] matches Step::LoadCache(_, AfterCache::Split { direction: d, target: p }) && d@
            == direction && p@ == target,
        steps[t + 1] is ReadSession,
        steps[t + 2] is ComputeCuts,
        steps[t + 3] is Send,
    ensures
        learns_tab(env, steps, answers, t, found.0, found.1),
        is_splitting(steps[t + 3], direction, target, found.0, found.1),
        asks_to_split(steps[t + 3], env, target, direction),
{
    goes_on(env, steps, answers, t);
    session_is_read(env, direction, target, steps[t], answers[t], steps[t + 1]);
    goes_on(env, steps, answers, t + 1);
    goes_on(env, steps, answers, t + 2);
    reveal(answered);
    let before = answers[t]->Cache_0;
    let (workspace, tab) = answers[t + 1]->Session_0->Ok_0;
    let given = unless_empty(env.active_tab_id);
    let values = answers[t + 2]->Cuts_0;
    let now: u128 = answers[t + 2]->Cuts_1;
    let after = steps[t + 2]->ComputeCuts_0;
    let seed = after->Seed_seed;
    let tab_id = seeded_tab_id(given, workspace, tab)->Ok_0;
    let mapping = pane_mapping(workspace, tab)->Ok_0;
    let rects = placed_rects(after.plan_view().panes@, values);
    let purpose = split_purpose(env, direction, target);
    let cache = choose|cache: CacheView| #[trigger]
        is_seeded(before, tab_id, mapping, rects, now, cache) && after_seeding(
            env,
            purpose,
            seeded_tab(seed, values),
            cache,
            steps[t + 3],
        );
    empty_variables_do_not_count(env.active_tab_id, tab_id);
    if given is None {
        let (n, public) = choose|n: i64, public: Seq<char>| #[trigger]
            places(rects, mapping, n, public);
        assert(mapping.contains_key(n) && rects.contains_key(n));
    }
    split_is_asked(env, direction, target, steps[t + 3], tab_id, cache);
    (tab_id, cache)
}

proof fn split_stands_where_it_should(
    env: Environment,
    direction: Seq<char>,
    target: Seq<char>,
    steps: Seq<Step>,
    answers: Seq<Answer>,
    t: int,
    s: int,
) -> (found: (Seq<char>, CacheView))
    requires
        is_split_course(env, direction, target, steps, answers, t),
        t <= s < steps.len(),
        steps[s] matches Step::Send(_, AfterReply::Split { .. }),
    ensures
        has_tab_at(env, steps, answers, t, s, found.0, found.1),
        is_splitting(steps[s], direction, target, found.0, found.1),
        asks_to_split(steps[s], env, target, direction),
{
    split_stands_behind_its_tab(env, direction, target, steps, answers, t, s);
    if s == t + 1 {
        goes_on(env, steps, answers, t);
        tab_is_known(env, direction, target, steps[t], answers[t], steps[s])
    } else {
        tab_is_learned(env, direction, target, steps, answers, t)
    }
}

} // verus!
