//! What holds of commands as a whole.

use vstd::prelude::*;

use crate::adjacent::{
    beside, best_is_nearest, is_best, is_pick, nearest_beside, no_candidate,
    no_candidate_means_none_beside, number_order, pick_is_nearest, pick_is_unique, Measure,
    Measuring,
};
use crate::answers::{
    after_cache, after_check, after_cuts, after_fallback_session, after_listed, after_markers,
    after_measures, after_middle, after_removal, after_reply, after_saved, after_seeding,
    after_session, after_split, after_written, focuses_pane, marker_in, paths_view, seeded_tab,
    stale_paths,
};
use crate::cache::{
    alias_of, alias_reads_back, known_public_id, public_id, CacheView, LayoutCache, TabView,
};
use crate::direction::{ctrl_key_of, direction_named, directions_have_names, Direction};
use crate::geometry::{
    backward, forward, halves_are_neighbours, keeps_order, split_rects, splits_cleanly,
};
use crate::json::JsonView;
use crate::layout::{
    computed_in_turn, cuts_in_turn_give_the_layout, layout_rects, next_cut_of, placed_rects,
    tab_layout, Cutting, Rect,
};
use crate::navigator::{begins, resolved, sends};
use crate::order::{text_order, text_order_is_total, texts};
use crate::panes::{
    active_in_listing, cached_tab, given_pane, is_stale, listed_ids, listed_panes, live_ids,
    tab_is_live, tab_of_pane,
};
use crate::paths::{
    is_relative, joined_name, names_have_their_own_paths, nvim_panes_dir_of, Environment,
};
use crate::requests::{
    agent_request, direction_request, focus_label, key_request, list_request, new_pane,
    release_request, report_request, result_of,
};
use crate::seed::{
    cached_rect, is_seeded, next_internal, seeded_panes_are_known, split_is_known_at_once,
    split_tab, with_new_pane, with_split, Seed,
};
use crate::session::{internal_of, pane_mapping};
use crate::steps::{
    AfterCache, AfterCheck, AfterCuts, AfterMeasures, AfterRemoval, AfterReply, AfterSession,
    CommandView, Goal, GoalView, Purpose, PurposeView, Step,
};
use crate::text::is_internal;

verus! {

/// What a caller answers to a step.
pub enum Answer {
    Reply(Result<Seq<char>, Seq<char>>),
    Cache(CacheView),
    Done(Result<(), Seq<char>>),
    Session(Result<(JsonView, JsonView), Seq<char>>),
    Cuts(Seq<u64>, u128),
    Middle(u64, u128),
    Measures(Seq<Measure>),
    Time(u64),
    Found(bool),
    Names(Seq<Seq<char>>),
    Removed,
}

/// Whether a step follows another for an answer.
#[verifier::opaque]
pub open spec fn answered(env: Environment, step: Step, answer: Answer, next: Step) -> bool {
    match (step, answer) {
        (Step::Send(_, after), Answer::Reply(reply)) => after_reply(env, after, reply, next),
        (Step::LoadCache(_, after), Answer::Cache(cache)) => after_cache(env, after, cache, next),
        (Step::SaveCache { .. }, Answer::Done(saved)) => after_saved(saved, next),
        (Step::ReadSession(_, after), Answer::Session(session)) => after_session(
            env,
            after,
            session,
            next,
        ),
        (Step::ComputeCuts(after), Answer::Cuts(values, now)) => after_cuts(
            env,
            after,
            values,
            now,
            next,
        ),
        (Step::ComputeMiddle(_, _, after), Answer::Middle(middle, now)) => after_middle(
            env,
            after,
            middle,
            now,
            next,
        ),
        (Step::Measure(after), Answer::Measures(measures)) => after_measures(
            env,
            after,
            measures,
            next,
        ),
        (Step::Focus(pane), Answer::Time(now)) => focuses_pane(pane@, now, next),
        (Step::CheckMarker(path, after), Answer::Found(found)) => after_check(
            env,
            path@,
            after,
            found,
            next,
        ),
        (Step::ListMarkers(dir, after), Answer::Names(names)) => after_markers(
            dir@,
            after,
            names,
            next,
        ),
        (Step::RemoveMarkers(_, after), Answer::Removed) => after_removal(env, after, next),
        (Step::WriteMarker { cache, .. }, Answer::Done(written)) => after_written(
            env,
            cache@,
            written,
            next,
        ),
        _ => false,
    }
}

/// Whatever the answer, each step leads closer to the end of a command.
pub proof fn each_step_leads_closer_to_the_end(
    env: Environment,
    step: Step,
    answer: Answer,
    next: Step,
)
    requires
        answered(env, step, answer, next),
    ensures
        next.rank() < step.rank(),
{
    reveal(answered);
}

/// Whether steps follow each other for answers.
pub open spec fn is_course(env: Environment, steps: Seq<Step>, answers: Seq<Answer>) -> bool {
    forall|i: int|
        0 <= i < steps.len() - 1 ==> answered(env, steps[i], #[trigger] answers[i], steps[i + 1])
}

/// Whatever the answers, a command ends: it has at most twenty-two steps.
pub proof fn every_command_ends(
    env: Environment,
    command: CommandView,
    steps: Seq<Step>,
    answers: Seq<Answer>,
)
    requires
        steps.len() > 0,
        begins(command, env, steps[0]),
        is_course(env, steps, answers),
    ensures
        steps.len() <= 22,
{
    course_is_bounded(env, steps, answers);
}

proof fn course_is_bounded(env: Environment, steps: Seq<Step>, answers: Seq<Answer>)
    requires
        steps.len() > 0,
        is_course(env, steps, answers),
    ensures
        steps.last().rank() + steps.len() <= steps[0].rank() + 1,
    decreases steps.len(),
{
    if steps.len() > 1 {
        let fewer = steps.drop_last();
        let n = steps.len() as int;
        assert forall|i: int| 0 <= i < fewer.len() - 1 implies answered(
            env,
            fewer[i],
            #[trigger] answers[i],
            fewer[i + 1],
        ) by {
            assert(answered(env, steps[i], answers[i], steps[i + 1]));
        }
        course_is_bounded(env, fewer, answers);
        assert(answered(env, steps[n - 2], answers[n - 2], steps[n - 2 + 1]));
        each_step_leads_closer_to_the_end(env, steps[n - 2], answers[n - 2], steps[n - 1]);
    }
}

/// Whether a step asks for the live panes to remove stale markers.
pub open spec fn asks_for_the_living(step: Step) -> bool {
    step matches Step::Send(_, AfterReply::Live { .. })
}

/// Whether a caller's answer is the result of a request.
pub open spec fn has_result(answer: Answer) -> bool {
    answer matches Answer::Reply(reply) && result_of(reply) is Ok
}

/// Whether the markers in the directory of the session that are named after no
/// pane in the answer to `pane.list` are removed at a place of a course: the live
/// panes and the markers are listed before.
pub open spec fn prunes_at(
    env: Environment,
    steps: Seq<Step>,
    answers: Seq<Answer>,
    i: int,
) -> bool {
    &&& 2 <= i < steps.len()
    &&& asks_for_the_living(steps[i - 2])
    &&& steps[i - 1] is ListMarkers
    &&& nvim_panes_dir_of(env) matches Ok(dir)
    &&& answers[i - 2] matches Answer::Reply(reply)
    &&& result_of(reply) matches Ok(listing)
    &&& answers[i - 1] matches Answer::Names(names)
    &&& steps[i - 1]->ListMarkers_0@ == dir
    &&& steps[i] matches Step::RemoveMarkers(paths, _)
    &&& paths_view(paths@) == stale_paths(dir, names, listed_ids(listed_panes(listing)))
}

/// Whether a step of a dispatch comes before the markers are listed.
spec fn before_listing(env: Environment, step: Step) -> bool {
    match step {
        Step::Exit(_) => true,
        Step::Fail(_) => true,
        Step::Send(request, after) => request@ == list_request() && match after {
            AfterReply::Active { command } => command@ is Dispatch,
            AfterReply::Live { dir, .. } => nvim_panes_dir_of(env) == Ok::<Seq<u8>, Seq<char>>(
                dir@,
            ),
            _ => false,
        },
        Step::LoadCache(_, AfterCache::Resolve { goal, .. }) => goal@ is Dispatch,
        Step::ReadSession(_, AfterSession::Seed { purpose, .. }) => resolves_for_dispatch(purpose@),
        Step::ComputeCuts(AfterCuts::Seed { purpose, .. }) => resolves_for_dispatch(purpose@),
        Step::CheckMarker(_, AfterCheck::Marked { dir, .. }) => nvim_panes_dir_of(env) == Ok::<
            Seq<u8>,
            Seq<char>,
        >(dir@),
        _ => false,
    }
}

spec fn resolves_for_dispatch(purpose: PurposeView) -> bool {
    purpose matches PurposeView::Resolve { goal, .. } && goal is Dispatch
}

/// Whether the markers are listed at a place of a course, right after the live
/// panes.
spec fn lists_at(env: Environment, steps: Seq<Step>, answers: Seq<Answer>, i: int) -> bool {
    &&& 1 <= i < steps.len()
    &&& asks_for_the_living(steps[i - 1])
    &&& nvim_panes_dir_of(env) is Ok
    &&& answers[i - 1] matches Answer::Reply(reply)
    &&& result_of(reply) matches Ok(listing)
    &&& steps[i] matches Step::ListMarkers(d, after)
    &&& d@ == nvim_panes_dir_of(env)->Ok_0
    &&& texts(after.live@) == listed_ids(listed_panes(listing))
}

proof fn step_before_listing(env: Environment, step: Step, answer: Answer, next: Step)
    requires
        nvim_panes_dir_of(env) is Ok,
        before_listing(env, step),
        asks_for_the_living(step) ==> has_result(answer),
        answered(env, step, answer, next),
    ensures
        if asks_for_the_living(step) {
            &&& next matches Step::ListMarkers(d, after)
            &&& d@ == nvim_panes_dir_of(env)->Ok_0
            &&& texts(after.live@) == listed_ids(listed_panes(result_of(answer->Reply_0)->Ok_0))
        } else {
            before_listing(env, next)
        },
{
    reveal(answered);
}

proof fn pruned_or_not_yet(
    env: Environment,
    direction: Seq<char>,
    steps: Seq<Step>,
    answers: Seq<Answer>,
    k: int,
)
    requires
        0 <= k < steps.len(),
        nvim_panes_dir_of(env) is Ok,
        begins(CommandView::Dispatch(direction), env, steps[0]),
        is_course(env, steps, answers),
        forall|i: int|
            0 <= i < steps.len() - 1 && asks_for_the_living(steps[i]) ==> has_result(
                #[trigger] answers[i],
            ),
    ensures
        before_listing(env, steps[k]) || lists_at(env, steps, answers, k) || exists|i: int|
            i <= k && #[trigger] prunes_at(env, steps, answers, i),
    decreases k,
{
    if k > 0 {
        pruned_or_not_yet(env, direction, steps, answers, k - 1);
        assert(answered(env, steps[k - 1], answers[k - 1], steps[k - 1 + 1]));
        if before_listing(env, steps[k - 1]) {
            step_before_listing(env, steps[k - 1], answers[k - 1], steps[k]);
        } else if lists_at(env, steps, answers, k - 1) {
            reveal(answered);
            assert(prunes_at(env, steps, answers, k));
        }
    }
}

/// On every course of a dispatch on which Herdr lists the live panes when asked
/// for them, the stale markers are removed before anything is asked of Herdr but
/// its list of panes: before the key is sent, and before the focus moves.
pub proof fn dispatch_prunes_first(
    env: Environment,
    direction: Seq<char>,
    steps: Seq<Step>,
    answers: Seq<Answer>,
    k: int,
)
    requires
        0 <= k < steps.len(),
        nvim_panes_dir_of(env) is Ok,
        begins(CommandView::Dispatch(direction), env, steps[0]),
        is_course(env, steps, answers),
        forall|i: int|
            0 <= i < steps.len() - 1 && asks_for_the_living(steps[i]) ==> has_result(
                #[trigger] answers[i],
            ),
        steps[k] matches Step::Send(request, _) && request@ != list_request(),
    ensures
        exists|i: int| i < k && #[trigger] prunes_at(env, steps, answers, i),
{
    pruned_or_not_yet(env, direction, steps, answers, k);
    let i = choose|i: int| i <= k && #[trigger] prunes_at(env, steps, answers, i);
    assert(i < k);
}

/// The marker of a pane is one file: the one that `register` writes, `release`
/// removes and `dispatch` looks for, in the directory of the session's markers,
/// with the public id of the pane as its name.
pub proof fn commands_agree_on_the_marker(
    env: Environment,
    pane: Seq<char>,
    public: Seq<char>,
    direction: Seq<char>,
    cache: CacheView,
    written: Step,
    released: Step,
    looked_for: Step,
)
    requires
        nvim_panes_dir_of(env) is Ok,
        resolved(env, GoalView::Register, pane, Some(public), cache, written),
        resolved(env, GoalView::Release, pane, Some(public), cache, released),
        resolved(env, GoalView::Dispatch(direction), pane, Some(public), cache, looked_for),
    ensures
        ({
            let marker = joined_name(nvim_panes_dir_of(env)->Ok_0, public);
            &&& written matches Step::WriteMarker { path, .. } && path@ == marker
            &&& released matches Step::CheckMarker(path, _) && path@ == marker
            &&& looked_for matches Step::CheckMarker(path, _) && path@ == marker
        }),
{
}

/// A pane that is released has its marker removed where there is one.
pub proof fn release_removes_the_marker(
    env: Environment,
    pane: Seq<char>,
    public: Seq<char>,
    cache: CacheView,
    released: Step,
    found: bool,
    next: Step,
)
    requires
        nvim_panes_dir_of(env) is Ok,
        resolved(env, GoalView::Release, pane, Some(public), cache, released),
        after_check(env, released->CheckMarker_0@, released->CheckMarker_1, found, next),
    ensures
        if found {
            next matches Step::RemoveMarkers(paths, _) && paths@.len() == 1 && paths@[0]@
                == joined_name(nvim_panes_dir_of(env)->Ok_0, public)
        } else {
            next == Step::Exit(0)
        },
{
}

/// The paths of markers in a directory.
pub open spec fn marker_files(dir: Seq<u8>, names: Set<Seq<char>>) -> Set<Seq<u8>> {
    names.map(marker_in(dir))
}

/// The files that there are once a step is performed, where markers can be
/// written and removed.
pub open spec fn files_after(step: Step, files: Set<Seq<u8>>) -> Set<Seq<u8>> {
    match step {
        Step::WriteMarker { path, .. } => files.insert(path@),
        Step::RemoveMarkers(paths, _) => files.difference(paths_view(paths@).to_set()),
        _ => files,
    }
}

/// Whether a step follows the look for a marker among files.
pub open spec fn looks_among(
    env: Environment,
    step: Step,
    files: Set<Seq<u8>>,
    next: Step,
) -> bool {
    step matches Step::CheckMarker(path, after) && after_check(
        env,
        path@,
        after,
        files.contains(path@),
        next,
    )
}

/// `release` undoes `register` and touches no other pane's marker. Where a pane is
/// registered beside the markers that there are, and then released, the markers
/// are those that there were but the pane's own, and the command is done with
/// success. To release it once more changes nothing, and is done with success too.
pub proof fn release_undoes_register(
    env: Environment,
    pane: Seq<char>,
    public: Seq<char>,
    cache: CacheView,
    later: CacheView,
    names: Set<Seq<char>>,
    written: Step,
    released: Step,
    removed: Step,
    done: Step,
    released_again: Step,
    done_again: Step,
)
    requires
        nvim_panes_dir_of(env) is Ok,
        is_relative(public),
        forall|name: Seq<char>| #[trigger] names.contains(name) ==> is_relative(name),
        resolved(env, GoalView::Register, pane, Some(public), cache, written),
        resolved(env, GoalView::Release, pane, Some(public), later, released),
        ({
            let dir = nvim_panes_dir_of(env)->Ok_0;
            let registered = files_after(written, marker_files(dir, names));
            &&& looks_among(env, released, registered, removed)
            &&& after_removal(env, removed->RemoveMarkers_1, done)
            &&& looks_among(env, released_again, files_after(removed, registered), done_again)
        }),
        resolved(env, GoalView::Release, pane, Some(public), later, released_again),
    ensures
        ({
            let dir = nvim_panes_dir_of(env)->Ok_0;
            let registered = files_after(written, marker_files(dir, names));
            &&& registered == marker_files(dir, names.insert(public))
            &&& removed is RemoveMarkers
            &&& files_after(removed, registered) == marker_files(dir, names.remove(public))
            &&& forall|name: Seq<char>| #[trigger]
                names.contains(name) && name != public ==> files_after(
                    removed,
                    registered,
                ).contains(joined_name(dir, name))
            &&& done == Step::Exit(0)
            &&& done_again == Step::Exit(0)
        }),
{
    let dir = nvim_panes_dir_of(env)->Ok_0;
    let own = joined_name(dir, public);
    let files = marker_files(dir, names);
    let registered = files_after(written, files);
    let wanted = marker_files(dir, names.insert(public));
    assert forall|path: Seq<u8>| registered.contains(path) <==> wanted.contains(path) by {
        if files.contains(path) {
            let name = choose|name: Seq<char>| names.contains(name) && path == marker_in(dir)(name);
            assert(names.insert(public).contains(name) && path == marker_in(dir)(name));
        }
        assert(names.insert(public).contains(public) && own == marker_in(dir)(public));
        if wanted.contains(path) {
            let name = choose|name: Seq<char>|
                names.insert(public).contains(name) && path == marker_in(dir)(name);
            if name != public {
                assert(names.contains(name) && path == marker_in(dir)(name));
            }
        }
    }
    assert(registered =~= wanted);
    let paths = removed->RemoveMarkers_0;
    assert(paths_view(paths@) =~= seq![own]);
    assert forall|path: Seq<u8>| #[trigger] paths_view(paths@).to_set().contains(path) <==> path
        == own by {
        if path == own {
            assert(paths_view(paths@)[0] == own);
        }
    }
    let left = files_after(removed, registered);
    let others = marker_files(dir, names.remove(public));
    assert forall|path: Seq<u8>| left.contains(path) <==> others.contains(path) by {
        if left.contains(path) {
            let name = choose|name: Seq<char>| names.contains(name) && path == marker_in(dir)(name);
            assert(names.remove(public).contains(name) && path == marker_in(dir)(name));
        }
        if others.contains(path) {
            let name = choose|name: Seq<char>|
                names.remove(public).contains(name) && path == marker_in(dir)(name);
            assert(names.contains(name) && path == marker_in(dir)(name));
            if path == own {
                names_have_their_own_paths(dir, name, public);
            }
        }
    }
    assert(left =~= others);
    assert forall|name: Seq<char>| #[trigger] names.contains(name) && name != public implies
        left.contains(joined_name(dir, name)) by {
        assert(names.remove(public).contains(name) && joined_name(dir, name) == marker_in(dir)(
            name,
        ));
    }
}

/// The public id of a pane that the cache knows, or that is not internal, is
/// found without a look at the session.
pub proof fn known_pane_is_resolved(
    env: Environment,
    goal: Goal,
    pane: String,
    public: Seq<char>,
    cache: CacheView,
    next: Step,
)
    requires
        known_public_id(pane@, cache) == Some(public),
        after_cache(env, AfterCache::Resolve { goal, pane }, cache, next),
    ensures
        resolved(env, goal@, pane@, Some(public), cache, next),
{
}

/// The public id behind the internal id of a pane of the session is found in the
/// session.
pub proof fn session_pane_is_resolved(
    env: Environment,
    goal: Goal,
    pane: String,
    internal: i64,
    seed: Seed,
    cache: LayoutCache,
    values: Seq<u64>,
    now: u128,
    next: Step,
)
    requires
        pane@ == alias_of(internal),
        seed.mapping@.contains_key(internal),
        after_cuts(
            env,
            AfterCuts::Seed { seed, cache, purpose: Purpose::Resolve { goal, pane } },
            values,
            now,
            next,
        ),
    ensures
        exists|updated: CacheView| #[trigger]
            resolved(env, goal@, pane@, Some(seed.mapping@[internal]), updated, next),
{
    let rects = placed_rects(seed.plan.panes@, values);
    let purpose = Purpose::Resolve { goal, pane };
    let updated = choose|updated: CacheView| #[trigger]
        is_seeded(cache@, seed.tab_id@, seed.mapping@, rects, now, updated) && after_seeding(
            env,
            purpose@,
            seeded_tab(seed, values),
            updated,
            next,
        );
    seeded_panes_are_known(cache@, seed.tab_id@, seed.mapping@, rects, now, updated, internal);
    alias_reads_back(internal);
    assert(resolved(env, goal@, pane@, Some(seed.mapping@[internal]), updated, next));
}

/// A pane that has a marker gets the key of the direction: the marker is found,
/// the stale ones are removed, the marker is found again, and the key is sent to
/// the pane.
pub proof fn marked_pane_gets_the_key(
    env: Environment,
    direction: Seq<char>,
    pane: Seq<char>,
    public: Seq<char>,
    cache: CacheView,
    first_look: Step,
    asked: Step,
    reply: Result<Seq<char>, Seq<char>>,
    listed: Step,
    names: Seq<Seq<char>>,
    pruned: Step,
    second_look: Step,
    last: Step,
)
    requires
        ctrl_key_of(direction) is Some,
        nvim_panes_dir_of(env) is Ok,
        result_of(reply) is Ok,
        resolved(env, GoalView::Dispatch(direction), pane, Some(public), cache, first_look),
        after_check(env, first_look->CheckMarker_0@, first_look->CheckMarker_1, true, asked),
        after_reply(env, asked->Send_1, reply, listed),
        after_markers(listed->ListMarkers_0@, listed->ListMarkers_1, names, pruned),
        after_removal(env, pruned->RemoveMarkers_1, second_look),
        after_check(env, second_look->CheckMarker_0@, second_look->CheckMarker_1, true, last),
    ensures
        ({
            let dir = nvim_panes_dir_of(env)->Ok_0;
            let marker = joined_name(dir, public);
            let live = listed_ids(listed_panes(result_of(reply)->Ok_0));
            &&& first_look matches Step::CheckMarker(path, _) && path@ == marker
            &&& sends(asked, list_request())
            &&& listed matches Step::ListMarkers(d, _) && d@ == dir
            &&& pruned matches Step::RemoveMarkers(paths, _) && paths_view(paths@)
                == stale_paths(dir, names, live)
            &&& second_look matches Step::CheckMarker(path, _) && path@ == marker
            &&& sends(last, key_request(pane, ctrl_key_of(direction)->0))
        }),
{
}

/// Whether a dispatch finds that a pane has no marker: the stale ones are removed,
/// and there is none of the pane then or its public id is not known; or the live
/// panes could not be listed, and there was none before.
pub open spec fn finds_no_marker(
    env: Environment,
    direction: Seq<char>,
    pane: Seq<char>,
    step: Step,
    answer: Answer,
    next: Step,
) -> bool {
    &&& answered(env, step, answer, next)
    &&& match step {
        Step::CheckMarker(_, AfterCheck::Still { direction: d, pane: p }) => {
            d@ == direction && p@ == pane && answer == Answer::Found(false)
        },
        Step::RemoveMarkers(_, AfterRemoval::Pruned { direction: d, pane: p, path }) => {
            d@ == direction && p@ == pane && path is None
        },
        Step::Send(_, AfterReply::Live { direction: d, pane: p, marked, .. }) => {
            d@ == direction && p@ == pane && !marked && !has_result(answer)
        },
        _ => false,
    }
}

/// A pane that has no marker gets no key: the focus moves from it in the
/// direction. Where the environment does not name the active pane, Herdr is asked
/// for it in between.
pub proof fn unmarked_pane_moves_the_focus(
    env: Environment,
    direction: Seq<char>,
    pane: Seq<char>,
    step: Step,
    answer: Answer,
    next: Step,
    reply: Result<Seq<char>, Seq<char>>,
    last: Step,
)
    requires
        finds_no_marker(env, direction, pane, step, answer, next),
        given_pane(env) is None ==> {
            &&& result_of(reply) matches Ok(listing)
            &&& active_in_listing(listing) is Ok
            &&& after_reply(env, next->Send_1, reply, last)
        },
    ensures
        if given_pane(env) is Some {
            sends(next, direction_request(pane, direction))
        } else {
            sends(next, list_request()) && sends(last, direction_request(pane, direction))
        },
{
    reveal(answered);
}

/// The markers that are removed are those in the directory that are named after
/// no live pane: the markers of live panes stay.
pub proof fn pruning_spares_the_living(
    dir: Seq<u8>,
    names: Seq<Seq<char>>,
    live: Seq<Seq<char>>,
    path: Seq<u8>,
)
    ensures
        stale_paths(dir, names, live).contains(path) <==> exists|name: Seq<char>| #[trigger]
            names.contains(name) && !live.contains(name) && joined_name(dir, name) == path,
{
    let stale = names.filter(is_stale(live));
    if stale_paths(dir, names, live).contains(path) {
        let i = choose|i: int|
            0 <= i < stale_paths(dir, names, live).len() && stale_paths(dir, names, live)[i] == path;
        assert(stale.contains(stale[i]));
        names.lemma_filter_contains_rev(is_stale(live), stale[i]);
        names.lemma_filter_pred(is_stale(live), i);
        assert(names.contains(stale[i]) && !live.contains(stale[i]));
    }
    if exists|name: Seq<char>| #[trigger]
        names.contains(name) && !live.contains(name) && joined_name(dir, name) == path {
        let name = choose|name: Seq<char>| #[trigger]
            names.contains(name) && !live.contains(name) && joined_name(dir, name) == path;
        let k = choose|k: int| 0 <= k < names.len() && names[k] == name;
        names.lemma_filter_contains(is_stale(live), k);
        assert(stale.contains(name));
        let i = choose|i: int| 0 <= i < stale.len() && stale[i] == name;
        assert(stale_paths(dir, names, live)[i] == path);
    }
}

/// The marker of a live pane is never removed as stale.
pub proof fn markers_of_live_panes_stay(
    dir: Seq<u8>,
    names: Seq<Seq<char>>,
    live: Seq<Seq<char>>,
    name: Seq<char>,
)
    requires
        live.contains(name),
        is_relative(name),
        forall|other: Seq<char>| #[trigger] names.contains(other) ==> is_relative(other),
    ensures
        !stale_paths(dir, names, live).contains(joined_name(dir, name)),
{
    let path = joined_name(dir, name);
    if stale_paths(dir, names, live).contains(path) {
        pruning_spares_the_living(dir, names, live, path);
        let other = choose|other: Seq<char>| #[trigger]
            names.contains(other) && !live.contains(other) && joined_name(dir, other) == path;
        names_have_their_own_paths(dir, name, other);
    }
}

/// The agent that carries the focus to a pane does not stay: it is reported in
/// the pane, focused, and taken back under the next number, and then the command
/// is done.
pub proof fn focus_takes_its_agent_back(
    env: Environment,
    target: Seq<char>,
    now: u64,
    reported: Step,
    reply1: Result<Seq<char>, Seq<char>>,
    focused: Step,
    reply2: Result<Seq<char>, Seq<char>>,
    released: Step,
    reply3: Result<Seq<char>, Seq<char>>,
    done: Step,
)
    requires
        now < u64::MAX,
        focuses_pane(target, now, reported),
        after_reply(env, reported->Send_1, reply1, focused),
        result_of(reply1) is Ok,
        after_reply(env, focused->Send_1, reply2, released),
        result_of(reply2) is Ok,
        after_reply(env, released->Send_1, reply3, done),
        result_of(reply3) is Ok,
    ensures
        ({
            let label = focus_label(target, now as u128);
            &&& sends(reported, report_request(target, label, now))
            &&& sends(focused, agent_request(label))
            &&& sends(released, release_request(target, label, (now + 1) as u64))
            &&& done == Step::Exit(0)
        }),
{
}

/// The pane that is focused from the cache is another live pane of the tab in
/// which the current pane lives.
pub proof fn cached_neighbour_is_live(
    env: Environment,
    direction: Seq<char>,
    pane: Seq<char>,
    cache: CacheView,
    reply: Result<Seq<char>, Seq<char>>,
    search: Step,
    measures: Seq<Measure>,
    found: Step,
)
    requires
        after_listed(env, direction, pane, cache, reply, search),
        search is Measure,
        after_measures(env, search->Measure_0, measures, found),
        found is Focus,
    ensures
        ({
            let panes = listed_panes(result_of(reply)->Ok_0);
            let current = public_id(pane, cache);
            &&& result_of(reply) is Ok
            &&& tab_of_pane(current, panes) matches Some(tab)
            &&& live_ids(tab, panes).contains(found->Focus_0@)
            &&& found->Focus_0@ != current
        }),
{
    let panes = listed_panes(result_of(reply)->Ok_0);
    let current = public_id(pane, cache);
    let tab = tab_of_pane(current, panes)->0;
    if let AfterMeasures::Cached { search: s, .. } = search->Measure_0 {
        let best = choose|best: int|
            #![trigger s.panes@[best]]
            is_best(texts(s.panes@), s.probes@, measures, text_order(), best)
                && found->Focus_0@ == s.panes@[best]@;
        let target = texts(s.panes@)[best];
        assert(texts(s.panes@).contains(target));
        assert(cache.tabs[tab].panes.contains_key(target));
    }
}

/// The pane that is focused from the cache is the nearest of the cached panes
/// beside the current one, by the arithmetic that measured them.
pub proof fn cached_neighbour_is_nearest(
    env: Environment,
    direction: Seq<char>,
    pane: Seq<char>,
    cache: CacheView,
    reply: Result<Seq<char>, Seq<char>>,
    search: Step,
    measuring: Measuring,
    found: Step,
)
    requires
        after_listed(env, direction, pane, cache, reply, search),
        search is Measure,
        after_measures(
            env,
            search->Measure_0,
            search->Measure_0.probe_list().map_values(measuring),
            found,
        ),
        found is Focus,
    ensures
        ({
            let cached = cached_tab(pane, cache, listed_panes(result_of(reply)->Ok_0));
            &&& direction_named(direction) matches Some(d)
            &&& cached matches Some((current, tab))
            &&& nearest_beside(
                d,
                current,
                tab.panes,
                measuring,
                text_order(),
                found->Focus_0@,
            )
        }),
{
    let cached = cached_tab(pane, cache, listed_panes(result_of(reply)->Ok_0));
    let (current, tab) = cached->0;
    let measures = search->Measure_0.probe_list().map_values(measuring);
    if let AfterMeasures::Cached { search: s, .. } = search->Measure_0 {
        let best = choose|best: int|
            #![trigger s.panes@[best]]
            is_best(texts(s.panes@), s.probes@, measures, text_order(), best)
                && found->Focus_0@ == s.panes@[best]@;
        best_is_nearest(
            texts(s.panes@),
            s.probes@,
            measures,
            direction,
            current,
            tab.panes,
            measuring,
            text_order(),
            best,
        );
    }
}

/// By the session, the focus moves to the nearest of the panes beside the current
/// one in the layout of the active tab. Where there is none, or the nearest has no
/// public id, the command is done without success.
pub proof fn session_neighbour_is_nearest(
    env: Environment,
    direction: Seq<char>,
    pane: Seq<char>,
    workspace: JsonView,
    tab: JsonView,
    cut: Cutting,
    measuring: Measuring,
    planned: Step,
    values: Seq<u64>,
    now: u128,
    search: Step,
    found: Step,
)
    requires
        direction_named(direction) is Some,
        after_fallback_session(direction, pane, Ok((workspace, tab)), planned),
        planned is ComputeCuts,
        computed_in_turn(planned->ComputeCuts_0.plan_view(), values, cut),
        next_cut_of(planned->ComputeCuts_0.plan_view(), values) is None,
        after_cuts(env, planned->ComputeCuts_0, values, now, search),
        after_measures(
            env,
            search->Measure_0,
            search->Measure_0.probe_list().map_values(measuring),
            found,
        ),
    ensures
        ({
            let d = direction_named(direction)->0;
            let rects = layout_rects(tab_layout(tab), cut);
            let mapping = pane_mapping(workspace, tab)->Ok_0;
            let current = internal_of(pane, mapping)->0;
            if exists|n: i64| #[trigger] beside(d, current, rects, measuring, n) {
                exists|n: i64|
                    #![trigger mapping[n]]
                    nearest_beside(d, current, rects, measuring, number_order(), n) && (
                    if mapping.contains_key(n) {
                        found matches Step::Focus(target) && target@ == mapping[n]
                    } else {
                        found == Step::Exit(1)
                    })
            } else {
                found == Step::Exit(1)
            }
        }),
{
    let d = direction_named(direction)->0;
    let rects = layout_rects(tab_layout(tab), cut);
    let mapping = pane_mapping(workspace, tab)->Ok_0;
    let current = internal_of(pane, mapping)->0;
    let plan = planned->ComputeCuts_0.plan_view();
    cuts_in_turn_give_the_layout(plan, tab_layout(tab), values, cut);
    let measures = search->Measure_0.probe_list().map_values(measuring);
    if let AfterMeasures::Fallback { internal, .. } = search->Measure_0 {
        if no_candidate(internal.probes@, measures) {
            no_candidate_means_none_beside(
                internal.panes@,
                internal.probes@,
                measures,
                direction,
                current,
                rects,
                measuring,
            );
        } else {
            let best = choose|best: int|
                #![trigger internal.panes@[best]]
                is_best(internal.panes@, internal.probes@, measures, number_order(), best) && (
                if mapping.contains_key(internal.panes@[best]) {
                    found matches Step::Focus(target) && target@ == mapping[internal.panes@[best]]
                } else {
                    found == Step::Exit(1)
                });
            best_is_nearest(
                internal.panes@,
                internal.probes@,
                measures,
                direction,
                current,
                rects,
                measuring,
                number_order(),
                best,
            );
            let n = internal.panes@[best];
            assert(beside(d, current, rects, measuring, n));
            assert(nearest_beside(d, current, rects, measuring, number_order(), n));
            assert(mapping[n] == mapping[n]);
        }
    }
}

/// A split is visible to navigation at once: where the cache knows the rectangle
/// of the pane that is split, the cache that is saved knows a rectangle of that
/// pane and of the new one in the same tab, and the internal id of the new one.
pub proof fn split_is_saved_at_once(
    env: Environment,
    direction: Seq<char>,
    target: Seq<char>,
    tab_id: Seq<char>,
    cache: CacheView,
    reply: Result<Seq<char>, Seq<char>>,
    next: Step,
    middle: u64,
    now: u128,
    last: Step,
)
    requires
        after_split(env, direction, target, tab_id, cache, reply, next),
        result_of(reply) is Ok,
        new_pane(result_of(reply)->Ok_0) is Some,
        cached_rect(cache, tab_id, target) is Some,
        after_middle(env, next->ComputeMiddle_2, middle, now, last),
        last is SaveCache,
    ensures
        ({
            let new_public = new_pane(result_of(reply)->Ok_0)->0;
            let saved = last->SaveCache_cache@;
            &&& cached_rect(saved, tab_id, target) is Some
            &&& cached_rect(saved, tab_id, new_public) is Some
            &&& public_id(alias_of(next_internal(cache.max_internal)), saved) == new_public
        }),
{
    let new_public = new_pane(result_of(reply)->Ok_0)->0;
    split_is_known_at_once(
        cache,
        tab_id,
        target,
        new_public,
        direction == "right"@,
        middle,
        now,
    );
}

/// The direction that leads back from the pane that a split towards a direction
/// made.
pub open spec fn way_back(direction: Seq<char>) -> Seq<char> {
    if direction == "right"@ {
        "left"@
    } else {
        "up"@
    }
}

/// Whether `pane.list` answers with a tab's cached panes and a new one.
pub open spec fn lists_new_pane(
    panes: Seq<JsonView>,
    tab_id: Seq<char>,
    tab: TabView,
    target: Seq<char>,
    new_public: Seq<char>,
) -> bool {
    &&& tab_of_pane(target, panes) == Some(tab_id)
    &&& tab_of_pane(new_public, panes) == Some(tab_id)
    &&& live_ids(tab_id, panes).no_duplicates()
    &&& forall|id: Seq<char>| #[trigger]
        live_ids(tab_id, panes).contains(id) <==> tab.panes.contains_key(id) || id == new_public
}

proof fn split_tab_is_used(
    cache: CacheView,
    tab_id: Seq<char>,
    target: Seq<char>,
    new_public: Seq<char>,
    horizontal: bool,
    middle: u64,
    now: u128,
    panes: Seq<JsonView>,
)
    requires
        cached_rect(cache, tab_id, target) is Some,
        !is_internal(target),
        !is_internal(new_public),
        lists_new_pane(panes, tab_id, cache.tabs[tab_id], target, new_public),
    ensures
        ({
            let after = with_split(
                with_new_pane(cache, new_public),
                tab_id,
                target,
                new_public,
                horizontal,
                middle,
                now,
            );
            let tab = split_tab(cache.tabs[tab_id], target, new_public, horizontal, middle, now);
            &&& tab.panes == split_rects(
                cache.tabs[tab_id].panes,
                target,
                new_public,
                horizontal,
                middle,
            )
            &&& cached_tab(target, after, panes) == Some((target, tab))
            &&& cached_tab(new_public, after, panes) == Some((new_public, tab))
        }),
{
    let tab = split_tab(cache.tabs[tab_id], target, new_public, horizontal, middle, now);
    assert forall|id: Seq<char>| #[trigger] tab.panes.contains_key(id) <==> live_ids(
        tab_id,
        panes,
    ).contains(id) by {}
    assert(tab_is_live(tab, tab_id, panes));
}

proof fn nearest_cached_pane_is_focused(
    env: Environment,
    direction: Seq<char>,
    pane: Seq<char>,
    cache: CacheView,
    reply: Result<Seq<char>, Seq<char>>,
    search: Step,
    measuring: Measuring,
    found: Step,
    d: Direction,
    rects: Map<Seq<char>, Rect>,
    target: Seq<char>,
)
    requires
        after_listed(env, direction, pane, cache, reply, search),
        after_measures(
            env,
            search->Measure_0,
            search->Measure_0.probe_list().map_values(measuring),
            found,
        ),
        result_of(reply) is Ok,
        cached_tab(pane, cache, listed_panes(result_of(reply)->Ok_0)) matches Some((current, tab))
            && current == pane && tab.panes == rects,
        direction_named(direction) == Some(d),
        nearest_beside(d, pane, rects, measuring, text_order(), target),
    ensures
        found matches Step::Focus(p) && p@ == target,
{
    text_order_is_total();
    if let AfterMeasures::Cached { search: s, .. } = search->Measure_0 {
        let names = texts(s.panes@);
        let measures = s.probes@.map_values(measuring);
        assert forall|pick: Option<Seq<char>>| #[trigger]
            is_pick(names, s.probes@, measures, text_order(), pick) implies pick
            == Some(target) by {
            pick_is_nearest(
                names,
                s.probes@,
                direction,
                pane,
                rects,
                measuring,
                text_order(),
                pick,
            );
            pick_is_unique(d, pane, rects, measuring, text_order(), pick, Some(target));
        }
    }
}

/// A split is visible to navigation at once, without a look at the session. Once
/// the split is in the cache and Herdr lists the new pane beside the cached ones
/// of the tab, the cache leads from the pane that was split to the new one in the
/// direction of the split, and back again: by every arithmetic that agrees with
/// the order of coordinates, for a pane that overlaps no other one and whose
/// halves are larger than the tolerance.
pub proof fn split_is_navigable_at_once(
    env: Environment,
    direction: Seq<char>,
    target: Seq<char>,
    new_public: Seq<char>,
    tab_id: Seq<char>,
    cache: CacheView,
    middle: u64,
    now: u128,
    measuring: Measuring,
    reply: Result<Seq<char>, Seq<char>>,
    search: Step,
    found: Step,
    search_back: Step,
    found_back: Step,
)
    requires
        direction == "right"@ || direction == "down"@,
        cached_rect(cache, tab_id, target) is Some,
        !is_internal(target),
        !is_internal(new_public),
        keeps_order(measuring),
        splits_cleanly(
            cache.tabs[tab_id].panes,
            target,
            new_public,
            direction == "right"@,
            middle,
            measuring,
        ),
        result_of(reply) is Ok,
        lists_new_pane(
            listed_panes(result_of(reply)->Ok_0),
            tab_id,
            cache.tabs[tab_id],
            target,
            new_public,
        ),
        ({
            let after = with_split(
                with_new_pane(cache, new_public),
                tab_id,
                target,
                new_public,
                direction == "right"@,
                middle,
                now,
            );
            &&& after_listed(env, direction, target, after, reply, search)
            &&& after_listed(env, way_back(direction), new_public, after, reply, search_back)
        }),
        after_measures(
            env,
            search->Measure_0,
            search->Measure_0.probe_list().map_values(measuring),
            found,
        ),
        after_measures(
            env,
            search_back->Measure_0,
            search_back->Measure_0.probe_list().map_values(measuring),
            found_back,
        ),
    ensures
        found matches Step::Focus(pane) && pane@ == new_public,
        found_back matches Step::Focus(pane) && pane@ == target,
{
    let horizontal = direction == "right"@;
    let panes = listed_panes(result_of(reply)->Ok_0);
    let rects = split_rects(cache.tabs[tab_id].panes, target, new_public, horizontal, middle);
    let after = with_split(
        with_new_pane(cache, new_public),
        tab_id,
        target,
        new_public,
        horizontal,
        middle,
        now,
    );
    directions_have_names();
    text_order_is_total();
    split_tab_is_used(cache, tab_id, target, new_public, horizontal, middle, now, panes);
    halves_are_neighbours(
        cache.tabs[tab_id].panes,
        target,
        new_public,
        horizontal,
        middle,
        measuring,
        text_order(),
    );
    nearest_cached_pane_is_focused(
        env,
        direction,
        target,
        after,
        reply,
        search,
        measuring,
        found,
        forward(horizontal),
        rects,
        new_public,
    );
    nearest_cached_pane_is_focused(
        env,
        way_back(direction),
        new_public,
        after,
        reply,
        search_back,
        measuring,
        found_back,
        backward(horizontal),
        rects,
        target,
    );
}

} // verus!
