//! The step of a command that follows each answer.

use vstd::prelude::*;

use crate::adjacent::{
    adjacent_internal, adjacent_public, is_pick, number_order, search_internal, searches, Measure,
};
use crate::cache::{
    known_public_id, lookup_public_pane_id, public_id, public_id_from_cache, CacheView, LayoutCache,
};
use crate::direction::ctrl_key_of;
use crate::json::JsonView;
use crate::layout::{place_panes, placed_rects, plan_layout, plan_of, side_of, split_side, tab_layout};
use crate::navigator::{
    after_active, after_again, fails, load_cache, loads_cache, on_active, on_again, on_resolved,
    on_unmarked, opt_path, resolved, save_cache, saves_cache, sends, starts_pruning, unmarked,
};
use crate::order::{text_order, texts};
use crate::panes::{
    cached_adjacent, cached_tab, is_stale, listed_ids, listed_panes, live_pane_ids, non_empty,
    opt_text, pane_list, prune_nvim_markers, unless_empty,
};
use crate::paths::{join_name, joined_name, socket_path, socket_path_of, Environment};
use crate::requests::{
    agent_request, focus_agent, focus_label, focus_on_agent, key_request, list_request, new_pane,
    new_pane_id, pane_list_request, release_agent, release_request, reply_view, report_agent,
    report_request, result, result_of, send_ctrl_to_pane, split_pane_request, split_request,
};
use crate::seed::{
    cached_rect, find_rect, is_seeded, places_none, prepare_seed, record_new_pane, record_split,
    seed_active_tab_cache, seed_error, seed_of, with_new_pane, with_split, Seed,
};
use crate::session::{
    active_workspace_and_tab, internal_id_from_pane_id, internal_of, pane_mapping,
    pane_public_mapping, session_parts,
};
use crate::steps::{
    AfterCache, AfterCheck, AfterCuts, AfterListing, AfterMeasures, AfterMiddle, AfterRemoval,
    AfterReply, AfterSession, Purpose, PurposeView, Step,
};
use crate::text::{is_internal, is_internal_id};

verus! {

/// Whether a step fails because the session could not be used. A split that
/// does not know its tab only says that.
pub open spec fn seed_fails(purpose: PurposeView, message: Seq<char>, step: Step) -> bool {
    fails(
        step,
        if purpose is SplitTab {
            "active Herdr tab id is unavailable"@
        } else {
            message
        },
    )
}

fn fail_seed(purpose: &Purpose, message: String) -> (r: Step)
    ensures
        seed_fails(purpose@, message@, r),
        r.rank() == 0,
        r.well_formed(),
{
    match purpose {
        Purpose::SplitTab { .. } => Step::Fail("active Herdr tab id is unavailable".to_owned()),
        _ => Step::Fail(message),
    }
}

/// Whether a step reads the session to bring a cache up to date with it.
pub open spec fn reads_seed(
    env: Environment,
    cache: CacheView,
    purpose: PurposeView,
    step: Step,
) -> bool {
    match socket_path_of(env) {
        Ok(socket) => {
            &&& step matches Step::ReadSession(s, AfterSession::Seed { cache: c, purpose: p })
            &&& s@ == socket
            &&& c@ == cache
            &&& p@ == purpose
        },
        Err(message) => seed_fails(purpose, message, step),
    }
}

fn read_seed(env: &Environment, cache: LayoutCache, purpose: Purpose) -> (r: Step)
    ensures
        reads_seed(*env, cache@, purpose@, r),
        r.rank() <= 19,
        r.well_formed(),
{
    match socket_path(env) {
        Ok(socket) => Step::ReadSession(socket, AfterSession::Seed { cache, purpose }),
        Err(message) => fail_seed(&purpose, message),
    }
}

/// Whether a step reads the session for the pane beside the current one.
pub open spec fn reads_fallback(
    env: Environment,
    direction: Seq<char>,
    pane: Seq<char>,
    step: Step,
) -> bool {
    match socket_path_of(env) {
        Ok(socket) => {
            &&& step matches Step::ReadSession(
                s,
                AfterSession::Fallback { direction: d, pane: p },
            )
            &&& s@ == socket
            &&& d@ == direction
            &&& p@ == pane
        },
        Err(message) => fails(step, message),
    }
}

fn read_fallback(env: &Environment, direction: String, pane: String) -> (r: Step)
    ensures
        reads_fallback(*env, direction@, pane@, r),
        r.rank() <= 7,
        r.well_formed(),
{
    match socket_path(env) {
        Ok(socket) => Step::ReadSession(socket, AfterSession::Fallback { direction, pane }),
        Err(message) => Step::Fail(message),
    }
}

/// Whether a step sends the request for a split.
pub open spec fn splits(
    env: Environment,
    direction: Seq<char>,
    target: Seq<char>,
    tab_id: Seq<char>,
    cache: CacheView,
    step: Step,
) -> bool {
    &&& sends(step, split_request(target, direction, unless_empty(env.active_pane_cwd)))
    &&& step->Send_1 matches AfterReply::Split { direction: d, target: p, tab_id: t, cache: c }
    &&& d@ == direction
    &&& p@ == target
    &&& t@ == tab_id
    &&& c@ == cache
}

fn send_split(
    env: &Environment,
    direction: String,
    target: String,
    tab_id: String,
    cache: LayoutCache,
) -> (r: Step)
    ensures
        splits(*env, direction@, target@, tab_id@, cache@, r),
        r.rank() <= 3,
        r.well_formed(),
{
    let cwd = non_empty(&env.active_pane_cwd);
    Step::Send(
        split_pane_request(target.as_str(), direction.as_str(), cwd),
        AfterReply::Split { direction, target, tab_id, cache },
    )
}

/// Whether a step is the one after the layout cache was loaded.
///
/// The public id of the active pane is looked up, in the session where the cache
/// does not know it. For the pane beside the current one the live panes are
/// listed, unless the current pane has only an internal id. A split needs the
/// tab in the cache, and takes it from the session where it is not.
pub open spec fn after_cache(
    env: Environment,
    after: AfterCache,
    cache: CacheView,
    step: Step,
) -> bool {
    match after {
        AfterCache::Resolve { goal, pane } => match known_public_id(pane@, cache) {
            Some(public) => resolved(env, goal@, pane@, Some(public), cache, step),
            None => reads_seed(
                env,
                cache,
                PurposeView::Resolve { goal: goal@, pane: pane@ },
                step,
            ),
        },
        AfterCache::Focus { direction, pane } => if is_internal(public_id(pane@, cache)) {
            reads_fallback(env, direction@, pane@, step)
        } else {
            &&& sends(step, list_request())
            &&& step->Send_1 matches AfterReply::Listed { direction: d, pane: p, cache: c }
            &&& d@ == direction@
            &&& p@ == pane@
            &&& c@ == cache
        },
        AfterCache::Split { direction, target } => match unless_empty(env.active_tab_id) {
            Some(tab_id) => if cache.tabs.contains_key(tab_id) {
                splits(env, direction@, target@, tab_id, cache, step)
            } else {
                reads_seed(
                    env,
                    cache,
                    PurposeView::SplitFill { direction: direction@, target: target@, tab_id },
                    step,
                )
            },
            None => reads_seed(
                env,
                cache,
                PurposeView::SplitTab { direction: direction@, target: target@ },
                step,
            ),
        },
    }
}

/// Goes on once the layout cache is loaded.
pub fn on_cache(env: &Environment, after: AfterCache, cache: LayoutCache) -> (r: Step)
    ensures
        after_cache(*env, after, cache@, r),
        r.rank() < after.rank(),
        r.well_formed(),
{
    match after {
        AfterCache::Resolve { goal, pane } => match lookup_public_pane_id(pane.as_str(), &cache) {
            Some(public) => on_resolved(env, goal, pane, Some(public), cache),
            None => read_seed(env, cache, Purpose::Resolve { goal, pane }),
        },
        AfterCache::Focus { direction, pane } => {
            let public = public_id_from_cache(pane.as_str(), &cache);
            if is_internal_id(public.as_str()) {
                return read_fallback(env, direction, pane);
            }
            Step::Send(pane_list_request(), AfterReply::Listed { direction, pane, cache })
        },
        AfterCache::Split { direction, target } => match non_empty(&env.active_tab_id) {
            Some(tab_id) => {
                if cache.tabs.contains_key(tab_id.as_str()) {
                    return send_split(env, direction, target, tab_id, cache);
                }
                read_seed(env, cache, Purpose::SplitFill { direction, target, tab_id })
            },
            None => read_seed(env, cache, Purpose::SplitTab { direction, target }),
        },
    }
}

/// The text of a session file, and the file's name.
#[derive(Debug)]
pub struct SessionText {
    pub file: String,
    pub content: String,
}

/// The active workspace and tab of a session, or what went wrong with its file
/// or its text.
pub open spec fn session_of(session: Result<SessionText, String>) -> Result<
    (JsonView, JsonView),
    Seq<char>,
> {
    match session {
        Ok(text) => session_parts(text.file@, text.content@),
        Err(message) => Err(message@),
    }
}

/// Whether a step is the one after the session was read to bring a cache up to
/// date with it: the cuts of the active tab's layout are to be computed.
pub open spec fn after_seed_session(
    env: Environment,
    cache: CacheView,
    purpose: PurposeView,
    session: Result<(JsonView, JsonView), Seq<char>>,
    step: Step,
) -> bool {
    let given = unless_empty(env.active_tab_id);
    match session {
        Err(message) => seed_fails(purpose, message, step),
        Ok((workspace, tab)) => match seed_error(given, workspace, tab) {
            Some(message) => seed_fails(purpose, message, step),
            None => {
                &&& step matches Step::ComputeCuts(
                    AfterCuts::Seed { seed, cache: c, purpose: p },
                )
                &&& seed_of(seed, given, workspace, tab)
                &&& c@ == cache
                &&& p@ == purpose
            },
        },
    }
}

/// Whether a step is the one after the session was read for the pane beside the
/// current one.
pub open spec fn after_fallback_session(
    direction: Seq<char>,
    pane: Seq<char>,
    session: Result<(JsonView, JsonView), Seq<char>>,
    step: Step,
) -> bool {
    match session {
        Err(message) => fails(step, message),
        Ok((workspace, tab)) => match pane_mapping(workspace, tab) {
            Err(message) => fails(step, message),
            Ok(mapping) => match internal_of(pane, mapping) {
                None => step == Step::Exit(1),
                Some(internal) => {
                    &&& step matches Step::ComputeCuts(
                        AfterCuts::Fallback { direction: d, current, mapping: m, plan },
                    )
                    &&& d@ == direction
                    &&& current == internal
                    &&& m@ == mapping
                    &&& plan_of(plan, tab_layout(tab))
                },
            },
        },
    }
}

/// Whether a step is the one after the session was read.
pub open spec fn after_session(
    env: Environment,
    after: AfterSession,
    session: Result<(JsonView, JsonView), Seq<char>>,
    step: Step,
) -> bool {
    match after {
        AfterSession::Seed { cache, purpose } => after_seed_session(
            env,
            cache@,
            purpose@,
            session,
            step,
        ),
        AfterSession::Fallback { direction, pane } => after_fallback_session(
            direction@,
            pane@,
            session,
            step,
        ),
    }
}

/// Goes on once the session file is read.
pub fn on_session(
    env: &Environment,
    after: AfterSession,
    session: Result<SessionText, String>,
) -> (r: Step)
    ensures
        after_session(*env, after, session_of(session), r),
        r.rank() < after.rank(),
        r.well_formed(),
{
    let parts = match session {
        Ok(text) => active_workspace_and_tab(text.file.as_str(), text.content.as_str()),
        Err(message) => Err(message),
    };
    match after {
        AfterSession::Seed { cache, purpose } => match parts {
            Ok((workspace, tab)) => {
                let given = non_empty(&env.active_tab_id);
                match prepare_seed(given, &workspace, &tab) {
                    Ok(seed) => Step::ComputeCuts(AfterCuts::Seed { seed, cache, purpose }),
                    Err(message) => fail_seed(&purpose, message),
                }
            },
            Err(message) => fail_seed(&purpose, message),
        },
        AfterSession::Fallback { direction, pane } => {
            let (workspace, tab) = match parts {
                Ok(parts) => parts,
                Err(message) => return Step::Fail(message),
            };
            let mapping = match pane_public_mapping(&workspace, &tab) {
                Ok(mapping) => mapping,
                Err(message) => return Step::Fail(message),
            };
            let current = match internal_id_from_pane_id(pane.as_str(), &mapping) {
                Some(current) => current,
                None => return Step::Exit(1),
            };
            let plan = plan_layout(&tab);
            Step::ComputeCuts(AfterCuts::Fallback { direction, current, mapping, plan })
        },
    }
}

/// The tab that was put into the cache from a session, where one was.
pub open spec fn seeded_tab(seed: Seed, values: Seq<u64>) -> Option<Seq<char>> {
    if places_none(placed_rects(seed.plan.panes@, values), seed.mapping@) {
        None
    } else {
        Some(seed.tab_id@)
    }
}

/// The public id that a cache holds for an internal one.
pub open spec fn alias_in(cache: CacheView, pane: Seq<char>) -> Option<Seq<char>> {
    if cache.aliases.contains_key(pane) {
        Some(cache.aliases[pane])
    } else {
        None
    }
}

/// Whether a step is the one once a cache is up to date with the session.
pub open spec fn after_seeding(
    env: Environment,
    purpose: PurposeView,
    tab: Option<Seq<char>>,
    cache: CacheView,
    step: Step,
) -> bool {
    match purpose {
        PurposeView::Resolve { goal, pane } => resolved(
            env,
            goal,
            pane,
            alias_in(cache, pane),
            cache,
            step,
        ),
        PurposeView::SplitTab { direction, target } => match tab {
            Some(tab_id) => splits(env, direction, target, tab_id, cache, step),
            None => fails(step, "active Herdr tab id is unavailable"@),
        },
        PurposeView::SplitFill { direction, target, tab_id } => splits(
            env,
            direction,
            target,
            tab_id,
            cache,
            step,
        ),
    }
}

/// Whether a step is the one after the cuts of a layout were computed.
pub open spec fn after_cuts(
    env: Environment,
    after: AfterCuts,
    values: Seq<u64>,
    now: u128,
    step: Step,
) -> bool {
    match after {
        AfterCuts::Seed { seed, cache, purpose } => exists|updated: CacheView|
            #[trigger] is_seeded(
                cache@,
                seed.tab_id@,
                seed.mapping@,
                placed_rects(seed.plan.panes@, values),
                now,
                updated,
            ) && after_seeding(env, purpose@, seeded_tab(seed, values), updated, step),
        AfterCuts::Fallback { direction, current, mapping, plan } => {
            &&& step matches Step::Measure(AfterMeasures::Fallback { internal, mapping: m })
            &&& searches(
                internal.panes@,
                internal.probes@,
                direction@,
                current,
                placed_rects(plan.panes@, values),
            )
            &&& m@ == mapping@
        },
    }
}

/// Goes on once the cuts of a layout are computed, at a time in nanoseconds.
pub fn on_cuts(env: &Environment, after: AfterCuts, values: &Vec<u64>, now: u128) -> (r: Step)
    requires
        after.plan_view().well_formed(),
        values@.len() == after.plan_view().cuts@.len(),
    ensures
        after_cuts(*env, after, values@, now, r),
        r.rank() < after.rank(),
        r.well_formed(),
{
    match after {
        AfterCuts::Seed { seed, cache, purpose } => {
            let mut updated = cache;
            let tab = seed_active_tab_cache(&mut updated, &seed, values, now);
            let ghost whole = updated@;
            match purpose {
                Purpose::Resolve { goal, pane } => {
                    let public = match updated.internal_aliases.get(pane.as_str()) {
                        Some(public) => Some(public.clone()),
                        None => None,
                    };
                    assert(opt_text(public) == alias_in(whole, pane@));
                    on_resolved(env, goal, pane, public, updated)
                },
                Purpose::SplitTab { direction, target } => match tab {
                    Some(tab_id) => send_split(env, direction, target, tab_id, updated),
                    None => Step::Fail("active Herdr tab id is unavailable".to_owned()),
                },
                Purpose::SplitFill { direction, target, tab_id } => send_split(
                    env,
                    direction,
                    target,
                    tab_id,
                    updated,
                ),
            }
        },
        AfterCuts::Fallback { direction, current, mapping, plan } => {
            let rects = place_panes(&plan, values);
            let internal = search_internal(direction.as_str(), current, &rects);
            Step::Measure(AfterMeasures::Fallback { internal, mapping })
        },
    }
}

/// Whether a step is the one after the panes beside the current one were
/// measured: the best of them is focused. Where none is beside the current pane
/// in the cache, the session is read.
pub open spec fn after_measures(
    env: Environment,
    after: AfterMeasures,
    measures: Seq<Measure>,
    step: Step,
) -> bool {
    match after {
        AfterMeasures::Cached { direction, pane, search } => exists|pick: Option<Seq<char>>|
            #[trigger] is_pick(
                texts(search.panes@),
                search.probes@,
                measures,
                text_order(),
                pick,
            ) && match pick {
                Some(target) => step matches Step::Focus(p) && p@ == target,
                None => reads_fallback(env, direction@, pane@, step),
            },
        AfterMeasures::Fallback { internal, mapping } => exists|pick: Option<i64>|
            #[trigger] is_pick(
                internal.panes@,
                internal.probes@,
                measures,
                number_order(),
                pick,
            ) && match pick {
                Some(n) => if mapping@.contains_key(n) {
                    step matches Step::Focus(p) && p@ == mapping@[n]
                } else {
                    step == Step::Exit(1)
                },
                None => step == Step::Exit(1),
            },
    }
}

/// Goes on once the panes beside the current one are measured.
pub fn on_measures(env: &Environment, after: AfterMeasures, measures: &Vec<Measure>) -> (r: Step)
    requires
        after.well_formed(),
        measures@.len() == after.probe_list().len(),
    ensures
        after_measures(*env, after, measures@, r),
        r.rank() < after.rank(),
        r.well_formed(),
{
    match after {
        AfterMeasures::Cached { direction, pane, search } => match adjacent_public(
            &search,
            measures,
        ) {
            Some(target) => Step::Focus(target),
            None => read_fallback(env, direction, pane),
        },
        AfterMeasures::Fallback { internal, mapping } => match adjacent_internal(
            &internal,
            measures,
        ) {
            Some(target) => match mapping.get(target) {
                Some(public) => Step::Focus(public.clone()),
                None => Step::Exit(1),
            },
            None => Step::Exit(1),
        },
    }
}

/// Whether a step is the first to the focus of a pane: it reports an agent in
/// the pane that can be focused.
pub open spec fn focuses_pane(target: Seq<char>, now: u64, step: Step) -> bool {
    let name = focus_label(target, now as u128);
    &&& sends(step, report_request(target, name, now))
    &&& step->Send_1 matches AfterReply::Reported { pane, label, seq }
    &&& pane@ == target
    &&& label@ == name
    &&& seq == now
}

/// Focuses a pane, at a time in nanoseconds. The time and the one after it must
/// fit into a number of a request.
pub fn focus_pane(pane_id: String, now: u128) -> (r: Step)
    requires
        now < u64::MAX,
    ensures
        focuses_pane(pane_id@, now as u64, r),
        r.rank() < Step::Focus(pane_id).rank(),
        r.well_formed(),
{
    let seq: u64 = now as u64;
    let label = focus_agent(pane_id.as_str(), seq);
    let request = report_agent(pane_id.as_str(), label.as_str(), seq);
    Step::Send(request, AfterReply::Reported { pane: pane_id, label, seq })
}

/// Whether a step is the one after the look for a marker. A dispatch removes the
/// stale markers whether the active pane has one or not.
pub open spec fn after_check(
    env: Environment,
    path: Seq<u8>,
    after: AfterCheck,
    exists_now: bool,
    step: Step,
) -> bool {
    match after {
        AfterCheck::Release => if exists_now {
            &&& step matches Step::RemoveMarkers(paths, AfterRemoval::Released)
            &&& paths@.len() == 1
            &&& paths@[0]@ == path
        } else {
            step == Step::Exit(0)
        },
        AfterCheck::Marked { direction, pane, dir } => starts_pruning(
            direction@,
            pane@,
            dir@,
            Some(path),
            exists_now,
            step,
        ),
        AfterCheck::Still { direction, pane } => if exists_now {
            match ctrl_key_of(direction@) {
                Some(key) => sends(step, key_request(pane@, key)) && step->Send_1 is Key,
                None => fails(step, "unsupported direction "@ + direction@),
            }
        } else {
            unmarked(env, direction@, pane@, step)
        },
    }
}

/// Goes on once it is known whether a marker exists.
pub fn on_check(env: &Environment, path: Vec<u8>, after: AfterCheck, exists_now: bool) -> (r: Step)
    ensures
        after_check(*env, path@, after, exists_now, r),
        r.rank() < after.rank(),
        r.well_formed(),
{
    match after {
        AfterCheck::Release => {
            if !exists_now {
                return Step::Exit(0);
            }
            let mut paths: Vec<Vec<u8>> = Vec::new();
            paths.push(path);
            Step::RemoveMarkers(paths, AfterRemoval::Released)
        },
        AfterCheck::Marked { direction, pane, dir } => Step::Send(
            pane_list_request(),
            AfterReply::Live { direction, pane, dir, path: Some(path), marked: exists_now },
        ),
        AfterCheck::Still { direction, pane } => {
            if !exists_now {
                return on_unmarked(env, direction, pane);
            }
            match send_ctrl_to_pane(pane.as_str(), direction.as_str()) {
                Ok(request) => Step::Send(request, AfterReply::Key),
                Err(message) => Step::Fail(message),
            }
        },
    }
}

/// The path of a marker in a directory.
pub open spec fn marker_in(dir: Seq<u8>) -> spec_fn(Seq<char>) -> Seq<u8> {
    |name: Seq<char>| joined_name(dir, name)
}

/// The bytes of paths.
pub open spec fn paths_view(paths: Seq<Vec<u8>>) -> Seq<Seq<u8>> {
    paths.map_values(|path: Vec<u8>| path@)
}

/// The paths of the markers whose panes do not live any more.
pub open spec fn stale_paths(
    dir: Seq<u8>,
    names: Seq<Seq<char>>,
    live: Seq<Seq<char>>,
) -> Seq<Seq<u8>> {
    names.filter(is_stale(live)).map_values(marker_in(dir))
}

/// Whether a step is the one after the markers in a directory were listed: those
/// whose panes do not live any more are removed.
pub open spec fn after_markers(
    dir: Seq<u8>,
    after: AfterListing,
    names: Seq<Seq<char>>,
    step: Step,
) -> bool {
    &&& step matches Step::RemoveMarkers(
        paths,
        AfterRemoval::Pruned { direction, pane, path },
    )
    &&& paths_view(paths@) == stale_paths(dir, names, texts(after.live@))
    &&& direction@ == after.direction@
    &&& pane@ == after.pane@
    &&& opt_path(path) == opt_path(after.path)
}

/// Goes on once the markers in a directory are listed.
pub fn on_markers(dir: &Vec<u8>, after: AfterListing, names: &Vec<String>) -> (r: Step)
    ensures
        after_markers(dir@, after, texts(names@), r),
        r.rank() < Step::ListMarkers(*dir, after).rank(),
        r.well_formed(),
{
    let stale = prune_nvim_markers(names, &after.live);
    let mut paths: Vec<Vec<u8>> = Vec::new();
    let mut i: usize = 0;
    while i < stale.len()
        invariant
            i <= stale.len(),
            paths@.len() == i,
            forall|k: int| 0 <= k < i ==> (#[trigger] paths@[k])@ == joined_name(dir@, stale@[k]@),
        decreases stale.len() - i,
    {
        paths.push(join_name(dir.as_slice(), stale[i].as_str()));
        i = i + 1;
    }
    proof {
        assert(paths_view(paths@) =~= texts(stale@).map_values(marker_in(dir@)));
    }
    Step::RemoveMarkers(
        paths,
        AfterRemoval::Pruned { direction: after.direction, pane: after.pane, path: after.path },
    )
}

/// Whether a step is the one after markers were removed: once stale ones are,
/// the marker of the active pane is looked for again, where its path is known.
pub open spec fn after_removal(env: Environment, after: AfterRemoval, step: Step) -> bool {
    match after {
        AfterRemoval::Released => step == Step::Exit(0),
        AfterRemoval::Pruned { direction, pane, path } => match path {
            Some(path) => {
                &&& step matches Step::CheckMarker(p, AfterCheck::Still { direction: d, pane: q })
                &&& p@ == path@
                &&& d@ == direction@
                &&& q@ == pane@
            },
            None => unmarked(env, direction@, pane@, step),
        },
    }
}

/// Goes on once markers are removed, as far as they could be.
pub fn on_removed(env: &Environment, after: AfterRemoval) -> (r: Step)
    ensures
        after_removal(*env, after, r),
        r.rank() < after.rank(),
        r.well_formed(),
{
    match after {
        AfterRemoval::Released => Step::Exit(0),
        AfterRemoval::Pruned { direction, pane, path } => match path {
            Some(path) => Step::CheckMarker(path, AfterCheck::Still { direction, pane }),
            None => on_unmarked(env, direction, pane),
        },
    }
}

/// Whether something was done, or why it was not.
pub open spec fn done_view(done: Result<(), String>) -> Result<(), Seq<char>> {
    match done {
        Ok(_) => Ok(()),
        Err(message) => Err(message@),
    }
}

/// Whether a step is the one after the marker of a pane was to be written: the
/// cache is saved.
pub open spec fn after_written(
    env: Environment,
    cache: CacheView,
    written: Result<(), Seq<char>>,
    step: Step,
) -> bool {
    match written {
        Ok(_) => saves_cache(step, env, cache),
        Err(message) => fails(step, message),
    }
}

/// Goes on once the marker of a pane is written.
pub fn on_written(env: &Environment, cache: LayoutCache, written: Result<(), String>) -> (r: Step)
    ensures
        after_written(*env, cache@, done_view(written), r),
        r.rank() <= 1,
        r.well_formed(),
{
    match written {
        Ok(_) => save_cache(env, cache),
        Err(message) => Step::Fail(message),
    }
}

/// Whether a step is the one after the cache was to be saved: the command is
/// done.
pub open spec fn after_saved(saved: Result<(), Seq<char>>, step: Step) -> bool {
    match saved {
        Ok(_) => step == Step::Exit(0),
        Err(message) => fails(step, message),
    }
}

/// Goes on once the cache is saved.
pub fn on_saved(saved: Result<(), String>) -> (r: Step)
    ensures
        after_saved(done_view(saved), r),
        r.rank() == 0,
        r.well_formed(),
{
    match saved {
        Ok(_) => Step::Exit(0),
        Err(message) => Step::Fail(message),
    }
}

/// Whether a step is the one after the middle of the divided side was computed:
/// the split is recorded and the cache saved.
pub open spec fn after_middle(
    env: Environment,
    after: AfterMiddle,
    middle: u64,
    now: u128,
    step: Step,
) -> bool {
    saves_cache(
        step,
        env,
        with_split(
            after.cache@,
            after.tab_id@,
            after.target@,
            after.new_public@,
            after.direction@ == "right"@,
            middle,
            now,
        ),
    )
}

/// Goes on once the middle of the divided side is computed, at a time in
/// nanoseconds.
pub fn on_middle(env: &Environment, after: AfterMiddle, middle: u64, now: u128) -> (r: Step)
    ensures
        after_middle(*env, after, middle, now, r),
        r.rank() <= 1,
        r.well_formed(),
{
    let mut cache = after.cache;
    record_split(
        &mut cache,
        after.tab_id.as_str(),
        after.target.as_str(),
        after.new_public.as_str(),
        after.direction.as_str(),
        middle,
        now,
    );
    save_cache(env, cache)
}

/// Whether a step is the one after the live panes were listed for the stale
/// markers: the markers are listed too. Where the live panes are not known, a
/// dispatch in a marked pane fails, and in another one the focus moves.
pub open spec fn after_live(
    env: Environment,
    direction: Seq<char>,
    pane: Seq<char>,
    dir: Seq<u8>,
    path: Option<Seq<u8>>,
    marked: bool,
    reply: Result<Seq<char>, Seq<char>>,
    step: Step,
) -> bool {
    match result_of(reply) {
        Err(message) => if marked {
            fails(step, message)
        } else {
            unmarked(env, direction, pane, step)
        },
        Ok(listing) => {
            &&& step matches Step::ListMarkers(d, after)
            &&& d@ == dir
            &&& after.direction@ == direction
            &&& after.pane@ == pane
            &&& opt_path(after.path) == path
            &&& texts(after.live@) == listed_ids(listed_panes(listing))
        },
    }
}

fn on_live(
    env: &Environment,
    direction: String,
    pane: String,
    dir: Vec<u8>,
    path: Option<Vec<u8>>,
    marked: bool,
    reply: Result<String, String>,
) -> (r: Step)
    ensures
        after_live(*env, direction@, pane@, dir@, opt_path(path), marked, reply_view(reply), r),
        r.rank() <= 15,
        r.well_formed(),
{
    match result(reply) {
        Ok(listing) => {
            let panes = pane_list(&listing);
            let live = live_pane_ids(&panes);
            Step::ListMarkers(dir, AfterListing { direction, pane, path, live })
        },
        Err(message) => if marked {
            Step::Fail(message)
        } else {
            on_unmarked(env, direction, pane)
        },
    }
}

/// Whether a step is the one after Herdr was asked to move the focus: where it
/// did not, the cache is loaded to find the pane.
pub open spec fn after_directed(
    env: Environment,
    direction: Seq<char>,
    pane: Seq<char>,
    reply: Result<Seq<char>, Seq<char>>,
    step: Step,
) -> bool {
    match result_of(reply) {
        Ok(_) => step == Step::Exit(0),
        Err(_) => {
            &&& loads_cache(step, env)
            &&& step->LoadCache_1 matches AfterCache::Focus { direction: d, pane: p }
            &&& d@ == direction
            &&& p@ == pane
        },
    }
}

/// Whether a step is the one after the live panes were listed for the tab of the
/// current pane: the cached panes of the tab are measured where the cache is up
/// to date, else the session is read.
pub open spec fn after_listed(
    env: Environment,
    direction: Seq<char>,
    pane: Seq<char>,
    cache: CacheView,
    reply: Result<Seq<char>, Seq<char>>,
    step: Step,
) -> bool {
    match result_of(reply) {
        Err(message) => fails(step, message),
        Ok(listing) => match cached_tab(pane, cache, listed_panes(listing)) {
            None => reads_fallback(env, direction, pane, step),
            Some((public, tab)) => {
                &&& step matches Step::Measure(
                    AfterMeasures::Cached { direction: d, pane: p, search },
                )
                &&& d@ == direction
                &&& p@ == pane
                &&& searches(
                    texts(search.panes@),
                    search.probes@,
                    direction,
                    public,
                    tab.panes,
                )
            },
        },
    }
}

fn on_listed(
    env: &Environment,
    direction: String,
    pane: String,
    cache: LayoutCache,
    reply: Result<String, String>,
) -> (r: Step)
    ensures
        after_listed(*env, direction@, pane@, cache@, reply_view(reply), r),
        r.rank() <= 8,
        r.well_formed(),
{
    match result(reply) {
        Ok(listing) => {
            let panes = pane_list(&listing);
            match cached_adjacent(direction.as_str(), pane.as_str(), &cache, &panes) {
                Some(search) => Step::Measure(
                    AfterMeasures::Cached { direction, pane, search },
                ),
                None => read_fallback(env, direction, pane),
            }
        },
        Err(message) => Step::Fail(message),
    }
}

/// Whether a step is the one after an agent was reported: the agent is focused.
pub open spec fn after_reported(
    pane: Seq<char>,
    label: Seq<char>,
    seq: u64,
    reply: Result<Seq<char>, Seq<char>>,
    step: Step,
) -> bool {
    match result_of(reply) {
        Err(message) => fails(step, message),
        Ok(_) => {
            &&& sends(step, agent_request(label))
            &&& step->Send_1 matches AfterReply::Focused { pane: p, label: l, seq: n }
            &&& p@ == pane
            &&& l@ == label
            &&& n == seq
        },
    }
}

/// Whether a step is the one after an agent was focused: the agent is taken
/// back.
pub open spec fn after_focused(
    pane: Seq<char>,
    label: Seq<char>,
    seq: u64,
    reply: Result<Seq<char>, Seq<char>>,
    step: Step,
) -> bool {
    match result_of(reply) {
        Err(message) => fails(step, message),
        Ok(_) => sends(step, release_request(pane, label, (seq + 1) as u64)) && step->Send_1 is Released,
    }
}

/// Whether a step is the one after a pane was split: the new pane is recorded.
/// Where the cache knows the rectangle of the split pane, the middle of its
/// divided side is computed; else the cache is saved.
pub open spec fn after_split(
    env: Environment,
    direction: Seq<char>,
    target: Seq<char>,
    tab_id: Seq<char>,
    cache: CacheView,
    reply: Result<Seq<char>, Seq<char>>,
    step: Step,
) -> bool {
    match result_of(reply) {
        Err(message) => fails(step, message),
        Ok(split_result) => match new_pane(split_result) {
            None => step == Step::Exit(1),
            Some(new_public) => match cached_rect(cache, tab_id, target) {
                None => saves_cache(step, env, with_new_pane(cache, new_public)),
                Some(rect) => {
                    &&& step matches Step::ComputeMiddle(low, high, after)
                    &&& (low, high) == side_of(rect, direction == "right"@)
                    &&& after.direction@ == direction
                    &&& after.target@ == target
                    &&& after.tab_id@ == tab_id
                    &&& after.new_public@ == new_public
                    &&& after.cache@ == with_new_pane(cache, new_public)
                },
            },
        },
    }
}

fn on_split(
    env: &Environment,
    direction: String,
    target: String,
    tab_id: String,
    cache: LayoutCache,
    reply: Result<String, String>,
) -> (r: Step)
    ensures
        after_split(*env, direction@, target@, tab_id@, cache@, reply_view(reply), r),
        r.rank() <= 2,
        r.well_formed(),
{
    let split_result = match result(reply) {
        Ok(split_result) => split_result,
        Err(message) => return Step::Fail(message),
    };
    let new_public = match new_pane_id(&split_result) {
        Some(new_public) => new_public,
        None => return Step::Exit(1),
    };
    let mut updated = cache;
    record_new_pane(&mut updated, new_public.as_str());
    match find_rect(&updated, tab_id.as_str(), target.as_str()) {
        Some(rect) => {
            let (low, high) = split_side(rect, direction.as_str());
            Step::ComputeMiddle(
                low,
                high,
                AfterMiddle { direction, target, tab_id, new_public, cache: updated },
            )
        },
        None => save_cache(env, updated),
    }
}

/// Whether a step ends a command, with success where a request had a result.
pub open spec fn ends_with(reply: Result<Seq<char>, Seq<char>>, step: Step) -> bool {
    match result_of(reply) {
        Ok(_) => step == Step::Exit(0),
        Err(message) => fails(step, message),
    }
}

/// Whether a step is the one after a reply of Herdr.
pub open spec fn after_reply(
    env: Environment,
    after: AfterReply,
    reply: Result<Seq<char>, Seq<char>>,
    step: Step,
) -> bool {
    match after {
        AfterReply::Active { command } => after_active(command@, env, reply, step),
        AfterReply::Again { direction, pane } => after_again(direction@, pane@, reply, step),
        AfterReply::Live { direction, pane, dir, path, marked } => after_live(
            env,
            direction@,
            pane@,
            dir@,
            opt_path(path),
            marked,
            reply,
            step,
        ),
        AfterReply::Key => ends_with(reply, step),
        AfterReply::Directed { direction, pane } => after_directed(
            env,
            direction@,
            pane@,
            reply,
            step,
        ),
        AfterReply::Listed { direction, pane, cache } => after_listed(
            env,
            direction@,
            pane@,
            cache@,
            reply,
            step,
        ),
        AfterReply::Reported { pane, label, seq } => after_reported(
            pane@,
            label@,
            seq,
            reply,
            step,
        ),
        AfterReply::Focused { pane, label, seq } => after_focused(pane@, label@, seq, reply, step),
        AfterReply::Released => ends_with(reply, step),
        AfterReply::Split { direction, target, tab_id, cache } => after_split(
            env,
            direction@,
            target@,
            tab_id@,
            cache@,
            reply,
            step,
        ),
    }
}

/// Goes on once Herdr has replied: with the line that it answered, or with why
/// there is none.
pub fn on_reply(env: &Environment, after: AfterReply, reply: Result<String, String>) -> (r: Step)
    requires
        after.well_formed(),
    ensures
        after_reply(*env, after, reply_view(reply), r),
        r.rank() < after.rank(),
        r.well_formed(),
{
    match after {
        AfterReply::Active { command } => on_active(command, env, reply),
        AfterReply::Again { direction, pane } => on_again(direction, pane, reply),
        AfterReply::Live { direction, pane, dir, path, marked } => on_live(
            env,
            direction,
            pane,
            dir,
            path,
            marked,
            reply,
        ),
        AfterReply::Key => match result(reply) {
            Ok(_) => Step::Exit(0),
            Err(message) => Step::Fail(message),
        },
        AfterReply::Directed { direction, pane } => match result(reply) {
            Ok(_) => Step::Exit(0),
            Err(_) => load_cache(env, AfterCache::Focus { direction, pane }),
        },
        AfterReply::Listed { direction, pane, cache } => on_listed(
            env,
            direction,
            pane,
            cache,
            reply,
        ),
        AfterReply::Reported { pane, label, seq } => match result(reply) {
            Ok(_) => Step::Send(
                focus_on_agent(label.as_str()),
                AfterReply::Focused { pane, label, seq },
            ),
            Err(message) => Step::Fail(message),
        },
        AfterReply::Focused { pane, label, seq } => match result(reply) {
            Ok(_) => Step::Send(
                release_agent(pane.as_str(), label.as_str(), seq + 1),
                AfterReply::Released,
            ),
            Err(message) => Step::Fail(message),
        },
        AfterReply::Released => match result(reply) {
            Ok(_) => Step::Exit(0),
            Err(message) => Step::Fail(message),
        },
        AfterReply::Split { direction, target, tab_id, cache } => on_split(
            env,
            direction,
            target,
            tab_id,
            cache,
            reply,
        ),
    }
}

} // verus!
