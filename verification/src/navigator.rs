//! The course of a command: its first step, and the step that follows each
//! answer.

use vstd::prelude::*;

use crate::cache::{CacheView, LayoutCache};
use crate::direction::{ctrl_key, ctrl_key_of};
use crate::order::texts;
use crate::panes::{active_in_listing, active_pane_in, given_pane, given_pane_id, opt_text};
use crate::paths::{
    cache_path, cache_path_of, join_name, joined_name, nvim_panes_dir, nvim_panes_dir_of,
    session_cache_dir, session_cache_dir_of, Environment,
};
use crate::requests::{
    direction_request, focus_pane_direction, list_request, pane_list_request, reply_view, result,
    result_of, RequestView,
};
use crate::steps::{
    AfterCache, AfterCheck, AfterReply, Command, CommandView, Goal, GoalView, Step,
};
use crate::text::{is_internal, is_internal_id, same_text};

verus! {

/// Whether a step fails with a message.
pub open spec fn fails(step: Step, message: Seq<char>) -> bool {
    step matches Step::Fail(m) && m@ == message
}

/// Whether a step sends a request.
pub open spec fn sends(step: Step, request: RequestView) -> bool {
    step matches Step::Send(r, _) && r@ == request
}

/// Whether a step loads the layout cache of the session. Where its path is not
/// known, there is no path to load it from.
pub open spec fn loads_cache(step: Step, env: Environment) -> bool {
    step matches Step::LoadCache(path, _) && match path {
        Some(p) => cache_path_of(env) == Ok::<Seq<u8>, Seq<char>>(p@),
        None => cache_path_of(env) is Err,
    }
}

/// Loads the layout cache of the session.
pub fn load_cache(env: &Environment, after: AfterCache) -> (r: Step)
    ensures
        loads_cache(r, *env),
        r->LoadCache_1 == after,
{
    match cache_path(env) {
        Ok(path) => Step::LoadCache(Some(path), after),
        Err(_) => Step::LoadCache(None, after),
    }
}

/// Whether a step saves a layout cache as that of the session, or fails where
/// its path is not known.
pub open spec fn saves_cache(step: Step, env: Environment, cache: CacheView) -> bool {
    match (session_cache_dir_of(env), cache_path_of(env)) {
        (Ok(d), Ok(p)) => step matches Step::SaveCache { dir, path, cache: c } && dir@ == d && path@
            == p && c@ == cache,
        (Err(message), _) => fails(step, message),
        (Ok(_), Err(message)) => fails(step, message),
    }
}

/// Saves a layout cache as that of the session.
pub fn save_cache(env: &Environment, cache: LayoutCache) -> (r: Step)
    ensures
        saves_cache(r, *env, cache@),
        r.rank() <= 1,
        r.well_formed(),
{
    match session_cache_dir(env) {
        Ok(dir) => match cache_path(env) {
            Ok(path) => Step::SaveCache { dir, path, cache },
            Err(message) => Step::Fail(message),
        },
        Err(message) => Step::Fail(message),
    }
}

/// Whether a step is the first to the pane beside another: it asks Herdr to move
/// the focus.
pub open spec fn focuses_adjacent(
    direction: Seq<char>,
    pane: Option<Seq<char>>,
    step: Step,
) -> bool {
    match pane {
        None => step == Step::Exit(1),
        Some(p) => {
            &&& sends(step, direction_request(p, direction))
            &&& step->Send_1 matches AfterReply::Directed { direction: d, pane: q }
            &&& d@ == direction
            &&& q@ == p
        },
    }
}

/// Moves the focus to the pane beside the current one.
pub fn focus_adjacent(direction: String, current_pane_id: Option<String>) -> (r: Step)
    ensures
        focuses_adjacent(direction@, opt_text(current_pane_id), r),
        r.rank() <= 11,
        r.well_formed(),
{
    match current_pane_id {
        None => Step::Exit(1),
        Some(pane) => Step::Send(
            focus_pane_direction(pane.as_str(), direction.as_str()),
            AfterReply::Directed { direction, pane },
        ),
    }
}

/// Whether a step is the first to the public id of the active pane: it loads the
/// cache.
pub open spec fn seeks_public_id(
    env: Environment,
    goal: GoalView,
    pane: Option<Seq<char>>,
    step: Step,
) -> bool {
    match pane {
        None => step == Step::Exit(1),
        Some(p) => {
            &&& loads_cache(step, env)
            &&& step->LoadCache_1 matches AfterCache::Resolve { goal: g, pane: q }
            &&& g@ == goal
            &&& q@ == p
        },
    }
}

/// Marks the active pane as one in which Neovim runs.
pub fn register(env: &Environment, pane_id: Option<String>) -> (r: Step)
    ensures
        seeks_public_id(*env, GoalView::Register, opt_text(pane_id), r),
        r.rank() <= 20,
        r.well_formed(),
{
    match pane_id {
        None => Step::Exit(1),
        Some(pane) => load_cache(env, AfterCache::Resolve { goal: Goal::Register, pane }),
    }
}

/// Removes the mark of the active pane.
pub fn release(env: &Environment, pane_id: Option<String>) -> (r: Step)
    ensures
        seeks_public_id(*env, GoalView::Release, opt_text(pane_id), r),
        r.rank() <= 20,
        r.well_formed(),
{
    match pane_id {
        None => Step::Exit(1),
        Some(pane) => load_cache(env, AfterCache::Resolve { goal: Goal::Release, pane }),
    }
}

/// Removes stale markers, and then forwards the key of a direction into Neovim
/// where it runs in the active pane, else moves the focus.
pub fn dispatch(env: &Environment, direction: String, pane_id: Option<String>) -> (r: Step)
    ensures
        seeks_public_id(*env, GoalView::Dispatch(direction@), opt_text(pane_id), r),
        r.rank() <= 20,
        r.well_formed(),
{
    match pane_id {
        None => Step::Exit(1),
        Some(pane) => load_cache(
            env,
            AfterCache::Resolve { goal: Goal::Dispatch(direction), pane },
        ),
    }
}

/// Whether a step is the first of a split: the active pane's id must be public,
/// and the cache is loaded.
pub open spec fn starts_split(
    env: Environment,
    direction: Seq<char>,
    pane: Option<Seq<char>>,
    step: Step,
) -> bool {
    match pane {
        None => step == Step::Exit(1),
        Some(p) => if is_internal(p) {
            fails(step, "split requires Herdr's active public pane id"@)
        } else {
            &&& loads_cache(step, env)
            &&& step->LoadCache_1 matches AfterCache::Split { direction: d, target: q }
            &&& d@ == direction
            &&& q@ == p
        },
    }
}

/// Splits the active pane.
pub fn split_pane(env: &Environment, direction: String, pane_id: Option<String>) -> (r: Step)
    ensures
        starts_split(*env, direction@, opt_text(pane_id), r),
        r.rank() <= 20,
        r.well_formed(),
{
    match pane_id {
        None => Step::Exit(1),
        Some(target) => {
            if is_internal_id(target.as_str()) {
                return Step::Fail("split requires Herdr's active public pane id".to_owned());
            }
            load_cache(env, AfterCache::Split { direction, target })
        },
    }
}

/// The command that arguments name, the program's own name first.
pub open spec fn command_of(args: Seq<Seq<char>>) -> Option<CommandView> {
    if args.len() < 2 {
        None
    } else if args[1] == "register"@ {
        Some(CommandView::Register)
    } else if args[1] == "release"@ {
        Some(CommandView::Release)
    } else if args.len() < 3 {
        None
    } else if args[1] == "focus"@ && ctrl_key_of(args[2]) is Some {
        Some(CommandView::Focus(args[2]))
    } else if args[1] == "split"@ && (args[2] == "right"@ || args[2] == "down"@) {
        Some(CommandView::Split(args[2]))
    } else if args[1] == "dispatch"@ && ctrl_key_of(args[2]) is Some {
        Some(CommandView::Dispatch(args[2]))
    } else {
        None
    }
}

/// The command that arguments name, the program's own name first.
pub fn read_command(args: &Vec<String>) -> (r: Option<Command>)
    ensures
        match r {
            Some(command) => command_of(texts(args@)) == Some(command@),
            None => command_of(texts(args@)) is None,
        },
{
    if args.len() < 2 {
        return None;
    }
    proof {
        assert(texts(args@)[1] == args@[1]@);
    }
    let command = args[1].as_str();
    if same_text(command, "register") {
        return Some(Command::Register);
    }
    if same_text(command, "release") {
        return Some(Command::Release);
    }
    if args.len() < 3 {
        return None;
    }
    proof {
        assert(texts(args@)[2] == args@[2]@);
    }
    let direction = args[2].as_str();
    if same_text(command, "focus") && ctrl_key(direction).is_some() {
        return Some(Command::Focus(args[2].clone()));
    }
    if same_text(command, "split") && (same_text(direction, "right") || same_text(
        direction,
        "down",
    )) {
        return Some(Command::Split(args[2].clone()));
    }
    if same_text(command, "dispatch") && ctrl_key(direction).is_some() {
        return Some(Command::Dispatch(args[2].clone()));
    }
    None
}

/// Whether a step is that of a command once the active pane is known.
pub open spec fn starts(
    command: CommandView,
    env: Environment,
    pane: Option<Seq<char>>,
    step: Step,
) -> bool {
    match command {
        CommandView::Register => seeks_public_id(env, GoalView::Register, pane, step),
        CommandView::Release => seeks_public_id(env, GoalView::Release, pane, step),
        CommandView::Focus(direction) => focuses_adjacent(direction, pane, step),
        CommandView::Split(direction) => starts_split(env, direction, pane, step),
        CommandView::Dispatch(direction) => seeks_public_id(
            env,
            GoalView::Dispatch(direction),
            pane,
            step,
        ),
    }
}

fn start(command: Command, env: &Environment, pane_id: Option<String>) -> (r: Step)
    ensures
        starts(command@, *env, opt_text(pane_id), r),
        r.rank() <= 20,
        r.well_formed(),
{
    match command {
        Command::Register => register(env, pane_id),
        Command::Release => release(env, pane_id),
        Command::Focus(direction) => focus_adjacent(direction, pane_id),
        Command::Split(direction) => split_pane(env, direction, pane_id),
        Command::Dispatch(direction) => dispatch(env, direction, pane_id),
    }
}

/// Whether a step is the first of a command: it asks Herdr for the active pane
/// where the environment does not name it.
pub open spec fn begins(command: CommandView, env: Environment, step: Step) -> bool {
    match given_pane(env) {
        Some(pane) => starts(command, env, Some(pane), step),
        None => {
            &&& sends(step, list_request())
            &&& step->Send_1 matches AfterReply::Active { command: c }
            &&& c@ == command
        },
    }
}

/// The first step of the command that the arguments name.
pub fn run(args: &Vec<String>, env: &Environment) -> (r: Step)
    ensures
        match command_of(texts(args@)) {
            Some(command) => begins(command, *env, r),
            None => r == Step::Usage,
        },
        r.rank() <= 21,
        r.well_formed(),
{
    match read_command(args) {
        Some(command) => match given_pane_id(env) {
            Some(pane) => start(command, env, Some(pane)),
            None => Step::Send(pane_list_request(), AfterReply::Active { command }),
        },
        None => Step::Usage,
    }
}

/// Whether a step is the one after Herdr was asked for the active pane.
pub open spec fn after_active(
    command: CommandView,
    env: Environment,
    reply: Result<Seq<char>, Seq<char>>,
    step: Step,
) -> bool {
    match result_of(reply) {
        Err(message) => fails(step, message),
        Ok(listing) => match active_in_listing(listing) {
            Err(message) => fails(step, message),
            Ok(pane) => starts(command, env, pane, step),
        },
    }
}

pub(crate) fn on_active(command: Command, env: &Environment, reply: Result<String, String>) -> (r: Step)
    ensures
        after_active(command@, *env, reply_view(reply), r),
        r.rank() <= 20,
        r.well_formed(),
{
    match result(reply) {
        Ok(listing) => match active_pane_in(&listing) {
            Ok(pane) => start(command, env, pane),
            Err(message) => Step::Fail(message),
        },
        Err(message) => Step::Fail(message),
    }
}

/// Whether a step is the one of a dispatch in a pane without a marker: the focus
/// moves. The active pane is asked for once more where the environment does not
/// name it.
pub open spec fn unmarked(env: Environment, direction: Seq<char>, pane: Seq<char>, step: Step) -> bool {
    match given_pane(env) {
        Some(_) => focuses_adjacent(direction, Some(pane), step),
        None => {
            &&& sends(step, list_request())
            &&& step->Send_1 matches AfterReply::Again { direction: d, pane: q }
            &&& d@ == direction
            &&& q@ == pane
        },
    }
}

pub(crate) fn on_unmarked(env: &Environment, direction: String, pane: String) -> (r: Step)
    ensures
        unmarked(*env, direction@, pane@, r),
        r.rank() <= 12,
        r.well_formed(),
{
    match given_pane_id(env) {
        Some(_) => focus_adjacent(direction, Some(pane)),
        None => Step::Send(pane_list_request(), AfterReply::Again { direction, pane }),
    }
}

/// Whether a step is the one after the active pane was asked for once more: the
/// focus moves from the pane that was active first.
pub open spec fn after_again(
    direction: Seq<char>,
    pane: Seq<char>,
    reply: Result<Seq<char>, Seq<char>>,
    step: Step,
) -> bool {
    match result_of(reply) {
        Err(message) => fails(step, message),
        Ok(listing) => match active_in_listing(listing) {
            Err(message) => fails(step, message),
            Ok(_) => focuses_adjacent(direction, Some(pane), step),
        },
    }
}

pub(crate) fn on_again(direction: String, pane: String, reply: Result<String, String>) -> (r: Step)
    ensures
        after_again(direction@, pane@, reply_view(reply), r),
        r.rank() <= 11,
        r.well_formed(),
{
    match result(reply) {
        Ok(listing) => match active_pane_in(&listing) {
            Ok(_) => focus_adjacent(direction, Some(pane)),
            Err(message) => Step::Fail(message),
        },
        Err(message) => Step::Fail(message),
    }
}

/// The bytes of a path that may be absent.
pub open spec fn opt_path(path: Option<Vec<u8>>) -> Option<Seq<u8>> {
    match path {
        Some(path) => Some(path@),
        None => None,
    }
}

/// Whether a step is the first to the removal of stale markers in a dispatch: it
/// lists the live panes.
pub open spec fn starts_pruning(
    direction: Seq<char>,
    pane: Seq<char>,
    dir: Seq<u8>,
    path: Option<Seq<u8>>,
    marked: bool,
    step: Step,
) -> bool {
    &&& sends(step, list_request())
    &&& step->Send_1 matches AfterReply::Live { direction: d, pane: p, dir: e, path: f, marked: m }
    &&& d@ == direction
    &&& p@ == pane
    &&& e@ == dir
    &&& opt_path(f) == path
    &&& m == marked
}

/// Whether a step is the one once the public id of the active pane is known, or
/// known not to be known. A dispatch removes stale markers either way, as long as
/// their directory is known.
pub open spec fn resolved(
    env: Environment,
    goal: GoalView,
    pane: Seq<char>,
    public: Option<Seq<char>>,
    cache: CacheView,
    step: Step,
) -> bool {
    match (public, nvim_panes_dir_of(env)) {
        (None, dir) => match (goal, dir) {
            (GoalView::Dispatch(direction), Ok(d)) => starts_pruning(
                direction,
                pane,
                d,
                None,
                false,
                step,
            ),
            (GoalView::Dispatch(direction), Err(_)) => unmarked(env, direction, pane, step),
            _ => step == Step::Exit(1),
        },
        (Some(_), Err(message)) => fails(step, message),
        (Some(name), Ok(dir)) => match goal {
            GoalView::Register => {
                &&& step matches Step::WriteMarker { dir: d, path, pane: p, cache: c }
                &&& d@ == dir
                &&& path@ == joined_name(dir, name)
                &&& p@ == name
                &&& c@ == cache
            },
            GoalView::Release => {
                &&& step matches Step::CheckMarker(path, AfterCheck::Release)
                &&& path@ == joined_name(dir, name)
            },
            GoalView::Dispatch(direction) => {
                &&& step matches Step::CheckMarker(
                    path,
                    AfterCheck::Marked { direction: a, pane: p, dir: d },
                )
                &&& path@ == joined_name(dir, name)
                &&& a@ == direction
                &&& p@ == pane
                &&& d@ == dir
            },
        },
    }
}

pub(crate) fn on_resolved(
    env: &Environment,
    goal: Goal,
    pane: String,
    public: Option<String>,
    cache: LayoutCache,
) -> (r: Step)
    ensures
        resolved(*env, goal@, pane@, opt_text(public), cache@, r),
        r.rank() <= 17,
        r.well_formed(),
{
    let name = match public {
        Some(name) => name,
        None => return match goal {
            Goal::Dispatch(direction) => match nvim_panes_dir(env) {
                Ok(dir) => Step::Send(
                    pane_list_request(),
                    AfterReply::Live { direction, pane, dir, path: None, marked: false },
                ),
                Err(_) => on_unmarked(env, direction, pane),
            },
            _ => Step::Exit(1),
        },
    };
    let dir = match nvim_panes_dir(env) {
        Ok(dir) => dir,
        Err(message) => return Step::Fail(message),
    };
    let path = join_name(dir.as_slice(), name.as_str());
    match goal {
        Goal::Register => Step::WriteMarker { dir, path, pane: name, cache },
        Goal::Release => Step::CheckMarker(path, AfterCheck::Release),
        Goal::Dispatch(direction) => Step::CheckMarker(
            path,
            AfterCheck::Marked { direction, pane, dir },
        ),
    }
}

} // verus!
