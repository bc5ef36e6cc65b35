//! The order of a Hugging Face resolve, as a step function: the caller
//! performs each action (a disk check, a request, a download) and hands
//! back what came of it; the step decides what comes next. The id is
//! checked before any disk work, a single-file id `org/repo/file`
//! fetches that one file without asking for the repository listing, files already on disk are not fetched
//! again, the `.complete` marker is written only once every file is
//! downloaded and the SHA-256 sidecars hold, and `.partial` debris is
//! swept only after the marker.
use vstd::prelude::*;

use crate::asr::{clone_strings, texts};
use crate::hf::api::{
    model_id_problem, revision_problem, single_file_split, split_single_file, validate_model_id, validate_revision,
};
use crate::hf::error::HfError;
use crate::hf::plan::{missing_files, names_of, pending_files, pick_required_files, plan, Sibling};
use crate::hf::resolver::{index_name, index_url, lists_shard, needs_index, shard_files, weight_map_of};
use crate::order::{has_text, strictly_sorted};
use crate::text::owned;

verus! {

/// Where a resolve stands.
#[derive(Debug, Clone, PartialEq, Eq)]
pub enum DownloadState {
    /// Nothing done yet.
    Start,
    /// Waiting to learn whether the `.complete` marker is there.
    CheckingMarker,
    /// Waiting for the model directory to be created.
    Preparing,
    /// Waiting for a stale marker to be removed.
    Clearing,
    /// Waiting for the repository listing.
    Listing,
    /// Waiting for the shard index; `plan` is the download plan.
    Indexing { plan: Vec<String> },
    /// Waiting to learn which of `files`, files of repository `repo`,
    /// are already on disk.
    Checking { repo: String, files: Vec<String> },
    /// Waiting for the downloads.
    Downloading,
    /// Waiting for the SHA-256 sidecar check.
    Verifying,
    /// Waiting for the `.complete` marker to be written.
    Marking,
    /// Waiting for the `.partial` sweep.
    Sweeping,
    /// Finished; nothing more to do.
    Done,
}

/// What came of the last action.
#[derive(Debug, Clone, PartialEq, Eq)]
pub enum DownloadEvent {
    /// Start the resolve.
    Begin,
    /// Whether the `.complete` marker is present.
    MarkerPresent(bool),
    /// The action succeeded.
    Succeeded,
    /// The repository listing.
    Metadata(Vec<Sibling>),
    /// The text of `model.safetensors.index.json`.
    IndexText(String),
    /// For each file asked about, whether it is already on disk.
    Present(Vec<bool>),
    /// The action failed.
    Failed(HfError),
}

/// What to do next.
#[derive(Debug, PartialEq, Eq)]
pub enum DownloadAction {
    /// Check for the `.complete` marker.
    CheckMarker,
    /// Create the model directory.
    PrepareDir,
    /// Remove a stale `.complete` marker.
    ClearMarker,
    /// Fetch the repository listing.
    FetchMetadata,
    /// Fetch `model.safetensors.index.json`.
    FetchIndex,
    /// Report which of these files are already on disk.
    CheckPresent(Vec<String>),
    /// Download these files of repository `repo`.
    Download { repo: String, files: Vec<String> },
    /// Check the SHA-256 sidecars of the directory.
    VerifySidecars,
    /// Write the `.complete` marker.
    WriteMarker,
    /// Remove the `.partial` leftovers of the directory.
    SweepPartials,
    /// Stop with this outcome.
    Finish(Result<(), HfError>),
}

/// The message of an event that does not fit the state.
pub open spec fn out_of_order_message() -> Seq<char> {
    "download step out of order"@
}

/// The step ends the resolve with `InvalidInput(m)` where `m` is `msg`.
pub open spec fn ends_invalid(s2: DownloadState, a: DownloadAction, msg: Seq<char>) -> bool {
    s2 is Done && (a matches DownloadAction::Finish(Err(HfError::InvalidInput(m))) && m@ == msg)
}

/// `files` is the shard list of a parsed weight map (sorted, each shard
/// once) followed by the download plan.
pub open spec fn shards_then_plan(files: Seq<Seq<char>>, values: Seq<Option<Seq<char>>>, plan: Seq<Seq<char>>) -> bool {
    let n = files.len() - plan.len();
    &&& n >= 0
    &&& files.skip(n) == plan
    &&& strictly_sorted(files.take(n))
    &&& forall|x: Seq<char>| #![trigger has_text(files.take(n), x)] has_text(files.take(n), x) <==> lists_shard(values, x)
}

/// One step of a resolve of `model_id` at `revision`: from state `s` and
/// event `e`, the next state `s2` and the action `a` to perform.
pub open spec fn step_rel(
    model_id: Seq<char>,
    revision: Seq<char>,
    s: DownloadState,
    e: DownloadEvent,
    s2: DownloadState,
    a: DownloadAction,
) -> bool {
    match e {
        DownloadEvent::Failed(err) => s2 is Done && a == DownloadAction::Finish(Err(err)),
        _ => match s {
            DownloadState::Start => if e is Begin {
                match model_id_problem(model_id) {
                    Some(m) => ends_invalid(s2, a, m),
                    None => match revision_problem(revision) {
                        Some(m) => ends_invalid(s2, a, m),
                        None => s2 is CheckingMarker && a is CheckMarker,
                    },
                }
            } else {
                ends_invalid(s2, a, out_of_order_message())
            },
            DownloadState::CheckingMarker => match e {
                DownloadEvent::MarkerPresent(true) => s2 is Done && a == DownloadAction::Finish(Ok(())),
                DownloadEvent::MarkerPresent(false) => s2 is Preparing && a is PrepareDir,
                _ => ends_invalid(s2, a, out_of_order_message()),
            },
            DownloadState::Preparing => if e is Succeeded {
                s2 is Clearing && a is ClearMarker
            } else {
                ends_invalid(s2, a, out_of_order_message())
            },
            DownloadState::Clearing => if e is Succeeded {
                match single_file_split(model_id) {
                    Some((repo, file)) => (s2 matches DownloadState::Checking { repo: r, files }
                        && r@ == repo && texts(files@) == seq![file])
                        && (a matches DownloadAction::CheckPresent(f) && texts(f@) == seq![file]),
                    None => s2 is Listing && a is FetchMetadata,
                }
            } else {
                ends_invalid(s2, a, out_of_order_message())
            },
            DownloadState::Listing => match e {
                DownloadEvent::Metadata(sib) => {
                    let p = plan(names_of(sib@));
                    if p.contains(index_name()) {
                        (s2 matches DownloadState::Indexing { plan } && texts(plan@) == p) && a is FetchIndex
                    } else {
                        (s2 matches DownloadState::Checking { repo, files } && repo@ == model_id && texts(files@) == p)
                            && (a matches DownloadAction::CheckPresent(f) && texts(f@) == p)
                    }
                },
                _ => ends_invalid(s2, a, out_of_order_message()),
            },
            DownloadState::Indexing { plan } => match e {
                DownloadEvent::IndexText(t) => match weight_map_of(t@) {
                    Err(msg) => s2 is Done && (a matches DownloadAction::Finish(Err(HfError::Json { context, source }))
                        && context@ == index_name() && source@ == msg),
                    Ok(None) => s2 is Done && (a matches DownloadAction::Finish(Err(HfError::Protocol { url, message }))
                        && url@ == index_url(model_id, revision) && message@ == "missing weight_map"@),
                    Ok(Some(values)) => (s2 matches DownloadState::Checking { repo, files } && repo@ == model_id
                        && shards_then_plan(texts(files@), values, texts(plan@))
                        && (a matches DownloadAction::CheckPresent(f) && texts(f@) == texts(files@))),
                },
                _ => ends_invalid(s2, a, out_of_order_message()),
            },
            DownloadState::Checking { repo, files } => match e {
                DownloadEvent::Present(p) => s2 is Downloading && (a matches DownloadAction::Download { repo: r, files: names }
                    && r == repo && texts(names@) == missing_files(texts(files@), p@)),
                _ => ends_invalid(s2, a, out_of_order_message()),
            },
            DownloadState::Downloading => if e is Succeeded {
                s2 is Verifying && a is VerifySidecars
            } else {
                ends_invalid(s2, a, out_of_order_message())
            },
            DownloadState::Verifying => if e is Succeeded {
                s2 is Marking && a is WriteMarker
            } else {
                ends_invalid(s2, a, out_of_order_message())
            },
            DownloadState::Marking => if e is Succeeded {
                s2 is Sweeping && a is SweepPartials
            } else {
                ends_invalid(s2, a, out_of_order_message())
            },
            DownloadState::Sweeping => if e is Succeeded {
                s2 is Done && a == DownloadAction::Finish(Ok(()))
            } else {
                ends_invalid(s2, a, out_of_order_message())
            },
            DownloadState::Done => ends_invalid(s2, a, out_of_order_message()),
        },
    }
}

fn out_of_order() -> (r: (DownloadState, DownloadAction))
    ensures
        ends_invalid(r.0, r.1, out_of_order_message()),
{
    (DownloadState::Done, DownloadAction::Finish(Err(HfError::InvalidInput(owned("download step out of order")))))
}

/// The next state and action of a resolve of `model_id` at `revision`
/// (see [`step_rel`]): a failure ends it with that failure; an event
/// that does not fit the state ends it with `InvalidInput`.
pub fn download_step(model_id: &str, revision: &str, state: DownloadState, event: DownloadEvent) -> (r: (
    DownloadState,
    DownloadAction,
))
    ensures
        step_rel(model_id@, revision@, state, event, r.0, r.1),
{
    match event {
        DownloadEvent::Failed(err) => (DownloadState::Done, DownloadAction::Finish(Err(err))),
        other => step_on(model_id, revision, state, other),
    }
}

fn step_on(model_id: &str, revision: &str, state: DownloadState, event: DownloadEvent) -> (r: (
    DownloadState,
    DownloadAction,
))
    requires
        !(event is Failed),
    ensures
        step_rel(model_id@, revision@, state, event, r.0, r.1),
{
    match state {
        DownloadState::Start => {
            if !matches!(event, DownloadEvent::Begin) {
                return out_of_order();
            }
            if let Err(e) = validate_model_id(model_id) {
                return (DownloadState::Done, DownloadAction::Finish(Err(e)));
            }
            if let Err(e) = validate_revision(revision) {
                return (DownloadState::Done, DownloadAction::Finish(Err(e)));
            }
            (DownloadState::CheckingMarker, DownloadAction::CheckMarker)
        },
        DownloadState::CheckingMarker => match event {
            DownloadEvent::MarkerPresent(true) => (DownloadState::Done, DownloadAction::Finish(Ok(()))),
            DownloadEvent::MarkerPresent(false) => (DownloadState::Preparing, DownloadAction::PrepareDir),
            _ => out_of_order(),
        },
        DownloadState::Preparing => if matches!(event, DownloadEvent::Succeeded) {
            (DownloadState::Clearing, DownloadAction::ClearMarker)
        } else {
            out_of_order()
        },
        DownloadState::Clearing => if matches!(event, DownloadEvent::Succeeded) {
            match split_single_file(model_id) {
                Some((repo, file)) => {
                    let files = vec![file];
                    let ask = clone_strings(&files);
                    proof {
                        assert(texts(files@) =~= seq![files@[0]@]);
                    }
                    (DownloadState::Checking { repo, files }, DownloadAction::CheckPresent(ask))
                },
                None => (DownloadState::Listing, DownloadAction::FetchMetadata),
            }
        } else {
            out_of_order()
        },
        DownloadState::Listing => match event {
            DownloadEvent::Metadata(sib) => {
                let plan = pick_required_files(sib.as_slice());
                if needs_index(&plan) {
                    (DownloadState::Indexing { plan }, DownloadAction::FetchIndex)
                } else {
                    let ask = clone_strings(&plan);
                    (DownloadState::Checking { repo: owned(model_id), files: plan }, DownloadAction::CheckPresent(ask))
                }
            },
            _ => out_of_order(),
        },
        DownloadState::Indexing { plan } => match event {
            DownloadEvent::IndexText(t) => match shard_files(model_id, revision, t.as_str()) {
                Err(e) => (DownloadState::Done, DownloadAction::Finish(Err(e))),
                Ok(shards) => {
                    let mut files = shards;
                    let ghost sh = texts(files@);
                    let mut rest = plan;
                    let ghost pl = texts(rest@);
                    files.append(&mut rest);
                    proof {
                        let n = sh.len() as int;
                        assert(texts(files@) =~= sh + pl);
                        assert(texts(files@).skip(n) =~= pl);
                        assert(texts(files@).take(n) =~= sh);
                    }
                    let ask = clone_strings(&files);
                    (DownloadState::Checking { repo: owned(model_id), files }, DownloadAction::CheckPresent(ask))
                },
            },
            _ => out_of_order(),
        },
        DownloadState::Checking { repo, files } => match event {
            DownloadEvent::Present(p) => (
                DownloadState::Downloading,
                DownloadAction::Download { repo, files: pending_files(&files, &p) },
            ),
            _ => out_of_order(),
        },
        DownloadState::Downloading => if matches!(event, DownloadEvent::Succeeded) {
            (DownloadState::Verifying, DownloadAction::VerifySidecars)
        } else {
            out_of_order()
        },
        DownloadState::Verifying => if matches!(event, DownloadEvent::Succeeded) {
            (DownloadState::Marking, DownloadAction::WriteMarker)
        } else {
            out_of_order()
        },
        DownloadState::Marking => if matches!(event, DownloadEvent::Succeeded) {
            (DownloadState::Sweeping, DownloadAction::SweepPartials)
        } else {
            out_of_order()
        },
        DownloadState::Sweeping => if matches!(event, DownloadEvent::Succeeded) {
            (DownloadState::Done, DownloadAction::Finish(Ok(())))
        } else {
            out_of_order()
        },
        DownloadState::Done => out_of_order(),
    }
}

/// Step `i` of a run: `states[i]` and `events[i]` give `states[i + 1]`
/// and `actions[i]`.
pub open spec fn run_step(
    model_id: Seq<char>,
    revision: Seq<char>,
    states: Seq<DownloadState>,
    events: Seq<DownloadEvent>,
    actions: Seq<DownloadAction>,
    i: int,
) -> bool {
    step_rel(model_id, revision, states[i], events[i], states[i + 1], actions[i])
}

/// A run of a resolve from its start: every step is one of
/// [`download_step`], and `events[i + 1]` is what came of `actions[i]`.
pub open spec fn is_run(
    model_id: Seq<char>,
    revision: Seq<char>,
    states: Seq<DownloadState>,
    events: Seq<DownloadEvent>,
    actions: Seq<DownloadAction>,
) -> bool {
    &&& states.len() == events.len() + 1
    &&& actions.len() == events.len()
    &&& states[0] is Start
    &&& forall|i: int| 0 <= i < events.len() ==> #[trigger] run_step(model_id, revision, states, events, actions, i)
}

/// In every run of a resolve, the `.complete` marker is written only
/// right after the SHA-256 sidecar check succeeded, which came right
/// after the downloads succeeded, and those downloads were the files of
/// the plan and its shards that were not already on disk. The
/// `.partial` sweep comes only right after the marker was written.
pub proof fn lemma_marker_written_last(
    model_id: Seq<char>,
    revision: Seq<char>,
    states: Seq<DownloadState>,
    events: Seq<DownloadEvent>,
    actions: Seq<DownloadAction>,
    k: int,
)
    requires
        is_run(model_id, revision, states, events, actions),
        0 <= k < actions.len(),
    ensures
        actions[k] is WriteMarker ==> {
            &&& k >= 2
            &&& actions[k - 1] is VerifySidecars && events[k] is Succeeded
            &&& events[k - 1] is Succeeded
            &&& states[k - 2] matches DownloadState::Checking { files, .. }
            &&& events[k - 2] matches DownloadEvent::Present(p)
            &&& actions[k - 2] matches DownloadAction::Download { files: names, .. }
            &&& texts(names@) == missing_files(texts(files@), p@)
        },
        actions[k] is SweepPartials ==> k >= 1 && actions[k - 1] is WriteMarker && events[k] is Succeeded,
{
    assert(run_step(model_id, revision, states, events, actions, k));
    if actions[k] is WriteMarker {
        assert(states[k] is Verifying);
        assert(k >= 1);
        assert(run_step(model_id, revision, states, events, actions, k - 1));
        assert(states[k - 1] is Downloading);
        assert(k >= 2);
        assert(run_step(model_id, revision, states, events, actions, k - 2));
    }
    if actions[k] is SweepPartials {
        assert(states[k] is Marking);
        assert(k >= 1);
        assert(run_step(model_id, revision, states, events, actions, k - 1));
    }
}

/// In every run of a resolve, once a step finishes (with success or a
/// failure) no later step performs any work: each only finishes again.
pub proof fn lemma_nothing_after_finish(
    model_id: Seq<char>,
    revision: Seq<char>,
    states: Seq<DownloadState>,
    events: Seq<DownloadEvent>,
    actions: Seq<DownloadAction>,
    k: int,
    j: int,
)
    requires
        is_run(model_id, revision, states, events, actions),
        0 <= k < j < actions.len(),
        actions[k] is Finish,
    ensures
        actions[j] is Finish,
        states[j + 1] is Done,
    decreases j - k,
{
    assert(run_step(model_id, revision, states, events, actions, k));
    assert(states[k + 1] is Done);
    if j > k + 1 {
        lemma_nothing_after_finish(model_id, revision, states, events, actions, k, j - 1);
    }
    assert(run_step(model_id, revision, states, events, actions, j));
}

/// In every run of a resolve, a failure reported for any action ends the
/// resolve with that very error, and the marker is never written after
/// it.
pub proof fn lemma_failure_ends_run(
    model_id: Seq<char>,
    revision: Seq<char>,
    states: Seq<DownloadState>,
    events: Seq<DownloadEvent>,
    actions: Seq<DownloadAction>,
    k: int,
    j: int,
)
    requires
        is_run(model_id, revision, states, events, actions),
        0 <= k <= j < actions.len(),
        events[k] is Failed,
    ensures
        actions[k] == DownloadAction::Finish(Err(events[k]->Failed_0)),
        !(actions[j] is WriteMarker),
{
    assert(run_step(model_id, revision, states, events, actions, k));
    if j > k {
        lemma_nothing_after_finish(model_id, revision, states, events, actions, k, j);
    }
}

} // verus!
