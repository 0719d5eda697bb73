//! The change listener: what to do on each thing a subscription reports.
//!
//! One subscription runs per kind of record. The caller owns the stream; it
//! hands each report to `handle_live_changes` and carries out the command it
//! gets back. A faulty report is skipped. A stream that ends, or that could
//! not be opened, ends the listener for good: nothing subscribes again.

use crate::hub::{event_message, format_event, Action, VoteEvent};
use crate::model::Vote;
use vstd::prelude::*;

verus! {

/// The kinds of record that are subscribed to.
#[derive(Debug, Clone, Copy, PartialEq, Eq, Structural)]
pub enum EntityKind {
    Voter,
    Admin,
    Vote,
}

/// Where a listener stands.
#[derive(Debug, Clone, Copy, PartialEq, Eq, Structural)]
pub enum ListenerState {
    /// The subscription is being opened.
    Subscribing,
    /// The subscription is open.
    Listening,
    /// The subscription is lost. Nothing leads out of this state.
    Failed,
}

/// What a subscription reports.
#[derive(Debug, PartialEq, Eq)]
pub enum StreamEvent {
    /// The subscription is open.
    Subscribed,
    /// The subscription could not be opened.
    SubscribeFailed,
    /// A record changed. `vote` holds the record where it is a vote.
    Changed { action: Action, vote: Option<Vote> },
    /// A notification came that could not be read.
    Faulty,
    /// The stream is over.
    Ended,
}

/// What the caller is to do next.
#[derive(Debug, PartialEq, Eq)]
pub enum Command {
    /// Nothing; wait for the next report.
    Idle,
    /// Rebuild the snapshot of this kind.
    Refresh(EntityKind),
    /// Rebuild the vote snapshot, then send this message to every observer.
    RefreshAndBroadcast(String),
    /// Stop listening.
    Stop,
}

/// `Command` with its message as plain value.
pub enum CommandView {
    Idle,
    Refresh(EntityKind),
    RefreshAndBroadcast(Seq<char>),
    Stop,
}

impl View for Command {
    type V = CommandView;

    open spec fn view(&self) -> CommandView {
        match self {
            Command::Idle => CommandView::Idle,
            Command::Refresh(kind) => CommandView::Refresh(*kind),
            Command::RefreshAndBroadcast(message) => CommandView::RefreshAndBroadcast(message@),
            Command::Stop => CommandView::Stop,
        }
    }
}

/// The state after `event`.
pub open spec fn next_state(state: ListenerState, event: StreamEvent) -> ListenerState {
    match state {
        ListenerState::Failed => ListenerState::Failed,
        ListenerState::Subscribing => match event {
            StreamEvent::Subscribed => ListenerState::Listening,
            StreamEvent::SubscribeFailed => ListenerState::Failed,
            StreamEvent::Ended => ListenerState::Failed,
            _ => ListenerState::Subscribing,
        },
        ListenerState::Listening => match event {
            StreamEvent::Ended => ListenerState::Failed,
            _ => ListenerState::Listening,
        },
    }
}

/// The command that `event` calls for. Only an open subscription refreshes
/// anything, and only a changed vote is broadcast.
pub open spec fn command_for(
    kind: EntityKind,
    state: ListenerState,
    event: StreamEvent,
) -> CommandView {
    if next_state(state, event) == ListenerState::Failed {
        CommandView::Stop
    } else if state == ListenerState::Listening {
        match event {
            StreamEvent::Changed { action, vote } => match vote {
                Some(vote) => if kind == EntityKind::Vote {
                    CommandView::RefreshAndBroadcast(
                        event_message(action, vote.voter_name@, vote.candidate_name@),
                    )
                } else {
                    CommandView::Refresh(kind)
                },
                None => CommandView::Refresh(kind),
            },
            _ => CommandView::Idle,
        }
    } else {
        CommandView::Idle
    }
}

/// One step of the listener of `kind`: the next state, and what to do.
pub fn handle_live_changes(
    kind: EntityKind,
    state: ListenerState,
    event: StreamEvent,
) -> (step: (ListenerState, Command))
    ensures
        step.0 == next_state(state, event),
        step.1@ == command_for(kind, state, event),
{
    match state {
        ListenerState::Failed => (ListenerState::Failed, Command::Stop),
        ListenerState::Subscribing => match event {
            StreamEvent::Subscribed => (ListenerState::Listening, Command::Idle),
            StreamEvent::SubscribeFailed => (ListenerState::Failed, Command::Stop),
            StreamEvent::Ended => (ListenerState::Failed, Command::Stop),
            _ => (ListenerState::Subscribing, Command::Idle),
        },
        ListenerState::Listening => match event {
            StreamEvent::Ended => (ListenerState::Failed, Command::Stop),
            StreamEvent::Changed { action, vote } => match vote {
                Some(vote) => match kind {
                    EntityKind::Vote => {
                        let message = format_event(&VoteEvent { action, vote });
                        (ListenerState::Listening, Command::RefreshAndBroadcast(message))
                    },
                    _ => (ListenerState::Listening, Command::Refresh(kind)),
                },
                None => (ListenerState::Listening, Command::Refresh(kind)),
            },
            _ => (ListenerState::Listening, Command::Idle),
        },
    }
}

} // verus!
