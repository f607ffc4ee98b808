//! The steps of a command. Each step asks the caller for one thing and carries
//! what is needed to go on with the answer.

use vstd::prelude::*;

use crate::adjacent::{InternalSearch, Probe, PublicSearch};
use crate::cache::LayoutCache;
use crate::layout::Plan;
use crate::requests::Request;
use crate::seed::Seed;
use crate::tables::NumberMap;
use crate::text::concat3;

verus! {

/// A command of the helper.
#[derive(Debug)]
pub enum Command {
    Register,
    Release,
    Focus(String),
    Split(String),
    Dispatch(String),
}

/// What a command asks.
pub enum CommandView {
    Register,
    Release,
    Focus(Seq<char>),
    Split(Seq<char>),
    Dispatch(Seq<char>),
}

impl View for Command {
    type V = CommandView;

    open spec fn view(&self) -> CommandView {
        match self {
            Command::Register => CommandView::Register,
            Command::Release => CommandView::Release,
            Command::Focus(direction) => CommandView::Focus(direction@),
            Command::Split(direction) => CommandView::Split(direction@),
            Command::Dispatch(direction) => CommandView::Dispatch(direction@),
        }
    }
}

/// What the public id of the active pane is needed for.
#[derive(Debug)]
pub enum Goal {
    Register,
    Release,
    Dispatch(String),
}

/// What the public id of the active pane is needed for.
pub enum GoalView {
    Register,
    Release,
    Dispatch(Seq<char>),
}

impl View for Goal {
    type V = GoalView;

    open spec fn view(&self) -> GoalView {
        match self {
            Goal::Register => GoalView::Register,
            Goal::Release => GoalView::Release,
            Goal::Dispatch(direction) => GoalView::Dispatch(direction@),
        }
    }
}

/// What the cache is brought up to date with the session for.
#[derive(Debug)]
pub enum Purpose {
    /// To find the public id of a pane.
    Resolve { goal: Goal, pane: String },
    /// To find the tab of a pane that is to be split.
    SplitTab { direction: String, target: String },
    /// To have the tab of a pane that is to be split in the cache.
    SplitFill { direction: String, target: String, tab_id: String },
}

/// What the cache is brought up to date with the session for.
pub enum PurposeView {
    Resolve { goal: GoalView, pane: Seq<char> },
    SplitTab { direction: Seq<char>, target: Seq<char> },
    SplitFill { direction: Seq<char>, target: Seq<char>, tab_id: Seq<char> },
}

impl View for Purpose {
    type V = PurposeView;

    open spec fn view(&self) -> PurposeView {
        match self {
            Purpose::Resolve { goal, pane } => PurposeView::Resolve { goal: goal@, pane: pane@ },
            Purpose::SplitTab { direction, target } => PurposeView::SplitTab {
                direction: direction@,
                target: target@,
            },
            Purpose::SplitFill { direction, target, tab_id } => PurposeView::SplitFill {
                direction: direction@,
                target: target@,
                tab_id: tab_id@,
            },
        }
    }
}

/// What a reply of Herdr is for.
pub enum AfterReply {
    /// `pane.list`, for the active pane.
    Active { command: Command },
    /// `pane.list`, for the active pane once more, before the focus moves.
    Again { direction: String, pane: String },
    /// `pane.list`, for the markers that are stale. The path is that of the
    /// active pane's marker where its public id is known, and the pane is marked
    /// where that marker was found.
    Live { direction: String, pane: String, dir: Vec<u8>, path: Option<Vec<u8>>, marked: bool },
    /// The key that was sent to a pane.
    Key,
    /// `pane.focus_direction`.
    Directed { direction: String, pane: String },
    /// `pane.list`, for the tab of the current pane.
    Listed { direction: String, pane: String, cache: LayoutCache },
    /// The agent that was reported.
    Reported { pane: String, label: String, seq: u64 },
    /// The agent that was focused.
    Focused { pane: String, label: String, seq: u64 },
    /// The agent that was taken back.
    Released,
    /// `pane.split`.
    Split { direction: String, target: String, tab_id: String, cache: LayoutCache },
}

/// What the layout cache is loaded for.
#[derive(Debug)]
pub enum AfterCache {
    Resolve { goal: Goal, pane: String },
    Focus { direction: String, pane: String },
    Split { direction: String, target: String },
}

/// What the session file is read for.
pub enum AfterSession {
    Seed { cache: LayoutCache, purpose: Purpose },
    Fallback { direction: String, pane: String },
}

/// What the cuts of a layout are computed for.
pub enum AfterCuts {
    Seed { seed: Seed, cache: LayoutCache, purpose: Purpose },
    Fallback { direction: String, current: i64, mapping: NumberMap<String>, plan: Plan },
}

/// What the panes beside the current one are measured for.
pub enum AfterMeasures {
    Cached { direction: String, pane: String, search: PublicSearch },
    Fallback { internal: InternalSearch, mapping: NumberMap<String> },
}

/// A split that only waits for the middle of the divided side.
pub struct AfterMiddle {
    pub direction: String,
    pub target: String,
    pub tab_id: String,
    pub new_public: String,
    pub cache: LayoutCache,
}

/// What a marker is looked for.
#[derive(Debug)]
pub enum AfterCheck {
    /// Whether the active pane is marked.
    Marked { direction: String, pane: String, dir: Vec<u8> },
    /// Whether it still is, once the stale markers are removed.
    Still { direction: String, pane: String },
    /// Whether there is a marker to remove.
    Release,
}

/// What the markers are listed for: the removal of those of other than the live
/// panes.
#[derive(Debug)]
pub struct AfterListing {
    pub direction: String,
    pub pane: String,
    pub path: Option<Vec<u8>>,
    pub live: Vec<String>,
}

/// What markers are removed for.
#[derive(Debug)]
pub enum AfterRemoval {
    Pruned { direction: String, pane: String, path: Option<Vec<u8>> },
    Released,
}

/// A step of a command.
pub enum Step {
    /// Done, with an exit code.
    Exit(i32),
    /// The arguments are no command: tell how to use the helper.
    Usage,
    /// Failed, with a message.
    Fail(String),
    /// Send a request and read the reply.
    Send(Request, AfterReply),
    /// Load the layout cache from a path; an empty one where there is no path or
    /// no valid cache.
    LoadCache(Option<Vec<u8>>, AfterCache),
    /// Save the layout cache to a path in a directory.
    SaveCache { dir: Vec<u8>, path: Vec<u8>, cache: LayoutCache },
    /// Read the session file beside the socket.
    ReadSession(Vec<u8>, AfterSession),
    /// Compute the cuts of a layout.
    ComputeCuts(AfterCuts),
    /// Compute the middle between two coordinates.
    ComputeMiddle(u64, u64, AfterMiddle),
    /// Measure the probes of a search.
    Measure(AfterMeasures),
    /// Focus a pane.
    Focus(String),
    /// See whether a marker exists.
    CheckMarker(Vec<u8>, AfterCheck),
    /// List the names of the markers in a directory.
    ListMarkers(Vec<u8>, AfterListing),
    /// Remove markers, as far as they can be removed.
    RemoveMarkers(Vec<Vec<u8>>, AfterRemoval),
    /// Write an empty marker for a pane to a path in a directory.
    WriteMarker { dir: Vec<u8>, path: Vec<u8>, pane: String, cache: LayoutCache },
}

impl AfterReply {
    /// How many steps come after the reply at most.
    pub open spec fn rank(self) -> nat {
        match self {
            AfterReply::Active { .. } => 21,
            AfterReply::Live { .. } => 16,
            AfterReply::Again { .. } => 12,
            AfterReply::Directed { .. } => 11,
            AfterReply::Listed { .. } => 9,
            AfterReply::Reported { .. } => 3,
            AfterReply::Split { .. } => 3,
            AfterReply::Focused { .. } => 2,
            AfterReply::Released => 1,
            AfterReply::Key => 1,
        }
    }

    /// Whether the number after that of a reported agent can be sent, too.
    pub open spec fn well_formed(self) -> bool {
        match self {
            AfterReply::Reported { seq, .. } => seq < u64::MAX,
            AfterReply::Focused { seq, .. } => seq < u64::MAX,
            _ => true,
        }
    }
}

impl AfterCache {
    /// How many steps come after the cache is loaded at most.
    pub open spec fn rank(self) -> nat {
        match self {
            AfterCache::Resolve { .. } => 20,
            AfterCache::Split { .. } => 20,
            AfterCache::Focus { .. } => 10,
        }
    }
}

impl AfterSession {
    /// How many steps come after the session is read at most.
    pub open spec fn rank(self) -> nat {
        match self {
            AfterSession::Seed { .. } => 19,
            AfterSession::Fallback { .. } => 7,
        }
    }
}

impl AfterCuts {
    /// How many steps come after the cuts are computed at most.
    pub open spec fn rank(self) -> nat {
        match self {
            AfterCuts::Seed { .. } => 18,
            AfterCuts::Fallback { .. } => 6,
        }
    }

    /// The plan of the layout.
    pub open spec fn plan_view(self) -> Plan {
        match self {
            AfterCuts::Seed { seed, .. } => seed.plan,
            AfterCuts::Fallback { plan, .. } => plan,
        }
    }

    /// The plan of the layout.
    pub fn plan(&self) -> (r: &Plan)
        ensures
            *r == self.plan_view(),
    {
        match self {
            AfterCuts::Seed { seed, .. } => &seed.plan,
            AfterCuts::Fallback { plan, .. } => plan,
        }
    }
}

impl AfterMeasures {
    /// How many steps come after the panes are measured at most.
    pub open spec fn rank(self) -> nat {
        match self {
            AfterMeasures::Cached { .. } => 8,
            AfterMeasures::Fallback { .. } => 5,
        }
    }

    /// Whether every pane of the search has a probe.
    pub open spec fn well_formed(self) -> bool {
        match self {
            AfterMeasures::Cached { search, .. } => search.well_formed(),
            AfterMeasures::Fallback { internal, .. } => internal.well_formed(),
        }
    }

    /// The probes of the search.
    pub open spec fn probe_list(self) -> Seq<Probe> {
        match self {
            AfterMeasures::Cached { search, .. } => search.probes@,
            AfterMeasures::Fallback { internal, .. } => internal.probes@,
        }
    }

    /// The probes of the search.
    pub fn probes(&self) -> (r: &Vec<Probe>)
        ensures
            r@ == self.probe_list(),
    {
        match self {
            AfterMeasures::Cached { search, .. } => &search.probes,
            AfterMeasures::Fallback { internal, .. } => &internal.probes,
        }
    }
}

impl AfterCheck {
    /// How many steps come after the look for a marker at most.
    pub open spec fn rank(self) -> nat {
        match self {
            AfterCheck::Marked { .. } => 17,
            AfterCheck::Still { .. } => 13,
            AfterCheck::Release => 2,
        }
    }
}

impl AfterRemoval {
    /// How many steps come after the removal of markers at most.
    pub open spec fn rank(self) -> nat {
        match self {
            AfterRemoval::Pruned { .. } => 14,
            AfterRemoval::Released => 1,
        }
    }
}

impl Step {
    /// How many steps come after this one at most.
    pub open spec fn rank(self) -> nat {
        match self {
            Step::Exit(_) => 0,
            Step::Usage => 0,
            Step::Fail(_) => 0,
            Step::Send(_, after) => after.rank(),
            Step::LoadCache(_, after) => after.rank(),
            Step::SaveCache { .. } => 1,
            Step::ReadSession(_, after) => after.rank(),
            Step::ComputeCuts(after) => after.rank(),
            Step::ComputeMiddle(_, _, _) => 2,
            Step::Measure(after) => after.rank(),
            Step::Focus(_) => 4,
            Step::CheckMarker(_, after) => after.rank(),
            Step::ListMarkers(_, _) => 15,
            Step::RemoveMarkers(_, after) => after.rank(),
            Step::WriteMarker { .. } => 2,
        }
    }

    /// Whether what a step carries is complete, and an exit code says success or
    /// failure.
    pub open spec fn well_formed(self) -> bool {
        match self {
            Step::Exit(code) => code == 0 || code == 1,
            Step::Send(_, after) => after.well_formed(),
            Step::ComputeCuts(after) => after.plan_view().well_formed(),
            Step::Measure(after) => after.well_formed(),
            _ => true,
        }
    }
}

/// What the helper prints at the end of a command, and its exit code.
pub open spec fn outcome_of(step: Step) -> Option<(Option<Seq<char>>, i32)> {
    match step {
        Step::Exit(code) => Some((None, code)),
        Step::Usage => Some(
            (
                Some(
                    "usage: herdr-navigator dispatch|focus|register|release|split [left|down|up|right]"@,
                ),
                2,
            ),
        ),
        Step::Fail(message) => Some((Some("herdr-navigator: "@ + message@), 1)),
        _ => None,
    }
}

/// What the helper prints at the end of a command, and its exit code; none where
/// the command goes on.
pub fn outcome(step: &Step) -> (r: Option<(Option<String>, i32)>)
    ensures
        match r {
            Some((Some(line), code)) => outcome_of(*step) == Some((Some(line@), code)),
            Some((None, code)) => outcome_of(*step) == Some((None::<Seq<char>>, code)),
            None => outcome_of(*step) is None,
        },
{
    match step {
        Step::Exit(code) => Some((None, *code)),
        Step::Usage => Some(
            (
                Some(
                    "usage: herdr-navigator dispatch|focus|register|release|split [left|down|up|right]".to_owned(),
                ),
                2,
            ),
        ),
        Step::Fail(message) => {
            let line = concat3("herdr-navigator: ", message.as_str(), "");
            proof {
                reveal_strlit("");
                assert(line@ =~= "herdr-navigator: "@ + message@);
            }
            Some((Some(line), 1))
        },
        _ => None,
    }
}

/// A command ends just where no step comes after: with success, with a failure,
/// or with an explanation of its use.
pub proof fn a_command_ends_with_an_outcome(step: Step)
    requires
        step.well_formed(),
    ensures
        outcome_of(step) is Some <==> step.rank() == 0,
        outcome_of(step) matches Some((_, code)) ==> 0 <= code <= 2,
{
}

} // verus!
