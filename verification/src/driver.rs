//! The decisions of one run, as a state machine.
//!
//! The caller performs each action (load the configuration, fetch and
//! decode the payload, read the snapshot, send the notification, write the
//! snapshot) and reports what happened as an event; `step` decides what
//! comes next. Nothing here touches the outside world.

use vstd::prelude::*;
use crate::diff::{render_diff, rendered, unified_diff_lines};
use crate::model::{Failure, FeatureCollection, TableView};
use crate::summary::{generate_summary, summary_of};

verus! {

/// Where a run stands.
#[derive(Clone, Debug, PartialEq, Eq)]
pub enum Phase {
    /// Nothing has happened yet.
    Idle,
    /// The configuration is being loaded.
    LoadingConfig,
    /// The payload is being fetched and decoded.
    Fetching { address: String },
    /// The new summary is known; the snapshot is being read.
    ReadingSnapshot { summary: String },
    /// The notification is being sent.
    Notifying { summary: String },
    /// The snapshot is being written.
    Persisting,
    /// The run ended well.
    Finished,
    /// The run ended with a failure.
    Aborted(Failure),
}

/// What the caller reports.
#[derive(Clone, Debug, PartialEq, Eq)]
pub enum Event {
    Started,
    ConfigLoaded { address: String },
    ConfigRejected,
    PayloadDecoded(FeatureCollection),
    FetchFailed,
    DecodeFailed,
    /// The snapshot of the last run was read.
    SnapshotFound(String),
    /// There is no snapshot, or it cannot be read.
    SnapshotAbsent,
    Notified,
    NotifyFailed,
    Persisted,
    PersistFailed,
}

/// What the caller does next.
#[derive(Clone, Debug, PartialEq, Eq)]
pub enum Action {
    LoadConfig,
    Fetch,
    ReadSnapshot,
    Notify { markup: String },
    Persist { summary: String },
    Succeed,
    Fail(Failure),
}

/// The model of a [`Phase`].
pub enum PhaseView {
    Idle,
    LoadingConfig,
    Fetching { address: Seq<char> },
    ReadingSnapshot { summary: Seq<char> },
    Notifying { summary: Seq<char> },
    Persisting,
    Finished,
    Aborted(Failure),
}

/// The model of an [`Event`].
pub enum EventView {
    Started,
    ConfigLoaded { address: Seq<char> },
    ConfigRejected,
    PayloadDecoded(Option<TableView>),
    FetchFailed,
    DecodeFailed,
    SnapshotFound(Seq<char>),
    SnapshotAbsent,
    Notified,
    NotifyFailed,
    Persisted,
    PersistFailed,
}

/// The model of an [`Action`].
pub enum ActionView {
    LoadConfig,
    Fetch,
    ReadSnapshot,
    Notify { markup: Seq<char> },
    Persist { summary: Seq<char> },
    Succeed,
    Fail(Failure),
}

impl View for Phase {
    type V = PhaseView;

    open spec fn view(&self) -> PhaseView {
        match *self {
            Phase::Idle => PhaseView::Idle,
            Phase::LoadingConfig => PhaseView::LoadingConfig,
            Phase::Fetching { address } => PhaseView::Fetching { address: address@ },
            Phase::ReadingSnapshot { summary } => PhaseView::ReadingSnapshot { summary: summary@ },
            Phase::Notifying { summary } => PhaseView::Notifying { summary: summary@ },
            Phase::Persisting => PhaseView::Persisting,
            Phase::Finished => PhaseView::Finished,
            Phase::Aborted(e) => PhaseView::Aborted(e),
        }
    }
}

impl View for Event {
    type V = EventView;

    open spec fn view(&self) -> EventView {
        match *self {
            Event::Started => EventView::Started,
            Event::ConfigLoaded { address } => EventView::ConfigLoaded { address: address@ },
            Event::ConfigRejected => EventView::ConfigRejected,
            Event::PayloadDecoded(collection) => EventView::PayloadDecoded(collection@),
            Event::FetchFailed => EventView::FetchFailed,
            Event::DecodeFailed => EventView::DecodeFailed,
            Event::SnapshotFound(old) => EventView::SnapshotFound(old@),
            Event::SnapshotAbsent => EventView::SnapshotAbsent,
            Event::Notified => EventView::Notified,
            Event::NotifyFailed => EventView::NotifyFailed,
            Event::Persisted => EventView::Persisted,
            Event::PersistFailed => EventView::PersistFailed,
        }
    }
}

impl View for Action {
    type V = ActionView;

    open spec fn view(&self) -> ActionView {
        match *self {
            Action::LoadConfig => ActionView::LoadConfig,
            Action::Fetch => ActionView::Fetch,
            Action::ReadSnapshot => ActionView::ReadSnapshot,
            Action::Notify { markup } => ActionView::Notify { markup: markup@ },
            Action::Persist { summary } => ActionView::Persist { summary: summary@ },
            Action::Succeed => ActionView::Succeed,
            Action::Fail(e) => ActionView::Fail(e),
        }
    }
}

/// The run stops with `e`.
pub open spec fn abort(e: Failure) -> Option<(PhaseView, ActionView)> {
    Some((PhaseView::Aborted(e), ActionView::Fail(e)))
}

/// What follows a decoded payload: a payload whose rows do not line up
/// with its columns counts as undecodable; a summary that cannot be made
/// stops the run with its failure; else the snapshot is read next.
pub open spec fn after_payload(address: Seq<char>, collection: Option<TableView>) -> Option<
    (PhaseView, ActionView),
> {
    if collection matches Some(table) && !table.aligned() {
        abort(Failure::DecodeError)
    } else {
        match summary_of(collection, address) {
            Ok(summary) => Some((PhaseView::ReadingSnapshot { summary }, ActionView::ReadSnapshot)),
            Err(e) => abort(e),
        }
    }
}

/// What follows a snapshot that was read: equal summaries, or any two with
/// an empty diff, go straight to the write; else the diff is sent first.
pub open spec fn after_snapshot(summary: Seq<char>, old: Seq<char>) -> Option<
    (PhaseView, ActionView),
> {
    let markup = rendered(unified_diff_lines(old, summary));
    if markup.len() == 0 {
        Some((PhaseView::Persisting, ActionView::Persist { summary }))
    } else {
        Some((PhaseView::Notifying { summary }, ActionView::Notify { markup }))
    }
}

/// The next phase and the action to perform, for an event that answers
/// what the phase waits for; `None` for any other event.
pub open spec fn transition(phase: PhaseView, event: EventView) -> Option<(PhaseView, ActionView)> {
    match phase {
        PhaseView::Idle => match event {
            EventView::Started => Some((PhaseView::LoadingConfig, ActionView::LoadConfig)),
            _ => None,
        },
        PhaseView::LoadingConfig => match event {
            EventView::ConfigLoaded { address } => Some(
                (PhaseView::Fetching { address }, ActionView::Fetch),
            ),
            EventView::ConfigRejected => abort(Failure::ConfigError),
            _ => None,
        },
        PhaseView::Fetching { address } => match event {
            EventView::PayloadDecoded(collection) => after_payload(address, collection),
            EventView::FetchFailed => abort(Failure::FetchError),
            EventView::DecodeFailed => abort(Failure::DecodeError),
            _ => None,
        },
        PhaseView::ReadingSnapshot { summary } => match event {
            EventView::SnapshotFound(old) => after_snapshot(summary, old),
            EventView::SnapshotAbsent => Some(
                (PhaseView::Persisting, ActionView::Persist { summary }),
            ),
            _ => None,
        },
        PhaseView::Notifying { summary } => match event {
            EventView::Notified => Some((PhaseView::Persisting, ActionView::Persist { summary })),
            EventView::NotifyFailed => abort(Failure::NotifyError),
            _ => None,
        },
        PhaseView::Persisting => match event {
            EventView::Persisted => Some((PhaseView::Finished, ActionView::Succeed)),
            EventView::PersistFailed => abort(Failure::PersistenceError),
            _ => None,
        },
        PhaseView::Finished => None,
        PhaseView::Aborted(_) => None,
    }
}

/// The model of what `step` returns.
pub open spec fn decision_view(decision: Option<(Phase, Action)>) -> Option<
    (PhaseView, ActionView),
> {
    match decision {
        Some((phase, action)) => Some((phase@, action@)),
        None => None,
    }
}

fn stop(e: Failure) -> (decision: Option<(Phase, Action)>)
    ensures
        decision_view(decision) == abort(e),
{
    Some((Phase::Aborted(e), Action::Fail(e)))
}

/// Decides what follows `event` in `phase`.
///
/// The first event of a run is `Started`, in phase `Idle`. `None` means
/// that the event does not answer what the phase waits for; the phase then
/// stands as it was.
pub fn step(phase: &Phase, event: Event) -> (decision: Option<(Phase, Action)>)
    ensures
        decision_view(decision) == transition(phase@, event@),
{
    match phase {
        Phase::Idle => match event {
            Event::Started => Some((Phase::LoadingConfig, Action::LoadConfig)),
            _ => None,
        },
        Phase::LoadingConfig => match event {
            Event::ConfigLoaded { address } => Some((Phase::Fetching { address }, Action::Fetch)),
            Event::ConfigRejected => stop(Failure::ConfigError),
            _ => None,
        },
        Phase::Fetching { address } => match event {
            Event::PayloadDecoded(collection) => {
                if !collection.is_well_formed() {
                    stop(Failure::DecodeError)
                } else {
                    match generate_summary(collection, address.as_str()) {
                        Ok(summary) => Some(
                            (Phase::ReadingSnapshot { summary }, Action::ReadSnapshot),
                        ),
                        Err(e) => stop(e),
                    }
                }
            },
            Event::FetchFailed => stop(Failure::FetchError),
            Event::DecodeFailed => stop(Failure::DecodeError),
            _ => None,
        },
        Phase::ReadingSnapshot { summary } => match event {
            Event::SnapshotFound(old) => {
                let markup = render_diff(old.as_str(), summary.as_str());
                if markup.as_str().is_empty() {
                    Some((Phase::Persisting, Action::Persist { summary: summary.clone() }))
                } else {
                    Some((Phase::Notifying { summary: summary.clone() }, Action::Notify { markup }))
                }
            },
            Event::SnapshotAbsent => Some(
                (Phase::Persisting, Action::Persist { summary: summary.clone() }),
            ),
            _ => None,
        },
        Phase::Notifying { summary } => match event {
            Event::Notified => Some(
                (Phase::Persisting, Action::Persist { summary: summary.clone() }),
            ),
            Event::NotifyFailed => stop(Failure::NotifyError),
            _ => None,
        },
        Phase::Persisting => match event {
            Event::Persisted => Some((Phase::Finished, Action::Succeed)),
            Event::PersistFailed => stop(Failure::PersistenceError),
            _ => None,
        },
        Phase::Finished => None,
        Phase::Aborted(_) => None,
    }
}

/// The snapshot is written only after everything before it went well: a
/// write is decided either when the snapshot was read (none there, or no
/// difference to it) or when the notification was sent, and what is written
/// is the summary of this run.
pub proof fn lemma_persist_follows_success(phase: PhaseView, event: EventView, summary: Seq<char>)
    requires
        transition(phase, event) matches Some((_, action)) && action == (ActionView::Persist {
            summary,
        }),
    ensures
        transition(phase, event) matches Some((next, _)) && next is Persisting,
        (phase == (PhaseView::ReadingSnapshot { summary }) && (event is SnapshotAbsent || (
        event matches EventView::SnapshotFound(old) && rendered(
            unified_diff_lines(old, summary),
        ).len() == 0))) || (phase == (PhaseView::Notifying { summary }) && event is Notified),
{
}

/// A failure ends the run: the phase that follows is `Aborted` with the
/// same failure, and neither it nor `Finished` accepts another event, so
/// nothing is written after a failure.
pub proof fn lemma_failure_is_final(phase: PhaseView, event: EventView, later: EventView)
    ensures
        transition(phase, event) matches Some((next, ActionView::Fail(e))) ==> next
            == PhaseView::Aborted(e) && transition(next, later) is None,
        transition(phase, event) matches Some((next, ActionView::Succeed)) ==> next
            == PhaseView::Finished && transition(next, later) is None,
        transition(PhaseView::Finished, later) is None,
        forall|e: Failure| transition(PhaseView::Aborted(e), later) is None,
{
}

} // verus!
