//! The control protocol of a tick stream: the commands a running backtest takes,
//! the states it passes through, and what it does in each.

use vstd::prelude::*;

use std::sync::mpsc::{SyncSender, TrySendError};

verus! {

#[verifier::external_type_specification]
#[verifier::external_body]
#[verifier::reject_recursive_types(T)]
pub struct ExSyncSender<T>(SyncSender<T>);

/// A command sent to a running backtest.
#[derive(Clone, Copy, Debug, PartialEq, Eq, Structural)]
pub enum TickstreamCommand {
    Pause,
    Resume,
    Stop,
}

/// Where a tick stream stands.
#[derive(Clone, Copy, Debug, PartialEq, Eq, Structural)]
pub enum StreamState {
    Paused,
    Running,
    Ended,
}

/// What the stream's thread does next.
#[derive(Clone, Copy, Debug, PartialEq, Eq, Structural)]
pub enum PolicyAction {
    /// Block until a command arrives.
    WaitForCommand,
    /// Take the next tick from the source and send it on.
    Deliver,
    /// Leave the stream: it has ended.
    Finish,
}

/// The state after a command: Stop ends the stream for good, Pause and Resume
/// switch between Paused and Running, and repeating one is harmless.
pub open spec fn next_state(s: StreamState, c: TickstreamCommand) -> StreamState {
    match (s, c) {
        (StreamState::Ended, _) => StreamState::Ended,
        (_, TickstreamCommand::Stop) => StreamState::Ended,
        (_, TickstreamCommand::Pause) => StreamState::Paused,
        (_, TickstreamCommand::Resume) => StreamState::Running,
    }
}

/// The state after a run of commands, taken in order.
pub open spec fn state_after(s: StreamState, cmds: Seq<TickstreamCommand>) -> StreamState
    decreases cmds.len(),
{
    if cmds.len() == 0 {
        s
    } else {
        state_after(next_state(s, cmds[0]), cmds.drop_first())
    }
}

/// What a stream in state `s` does.
pub open spec fn action_of(s: StreamState) -> PolicyAction {
    match s {
        StreamState::Paused => PolicyAction::WaitForCommand,
        StreamState::Running => PolicyAction::Deliver,
        StreamState::Ended => PolicyAction::Finish,
    }
}

impl StreamState {
    /// The state after the command `c`.
    pub fn apply(self, c: TickstreamCommand) -> (r: StreamState)
        ensures
            r == next_state(self, c),
    {
        match (self, c) {
            (StreamState::Ended, _) => StreamState::Ended,
            (_, TickstreamCommand::Stop) => StreamState::Ended,
            (_, TickstreamCommand::Pause) => StreamState::Paused,
            (_, TickstreamCommand::Resume) => StreamState::Running,
        }
    }

    /// What a stream in this state does.
    pub fn action(self) -> (r: PolicyAction)
        ensures
            r == action_of(self),
    {
        match self {
            StreamState::Paused => PolicyAction::WaitForCommand,
            StreamState::Running => PolicyAction::Deliver,
            StreamState::Ended => PolicyAction::Finish,
        }
    }
}

/// Why a command could not be handed to a backtest.
#[derive(Clone, Copy, Debug, PartialEq, Eq, Structural)]
pub enum CommandError {
    /// No backtest is registered under that identifier.
    NoSuchBacktest,
    /// The backtest's thread is gone: its channel has no receiver any more.
    ChannelClosed,
    /// The backtest's channel holds as many commands as it can: its thread is stuck.
    ChannelFull,
}

/// The commands queued on a control channel through this sender so far, oldest
/// first. The channel hands them to its receiver in this order.
pub uninterp spec fn sent_on(tx: SyncSender<TickstreamCommand>) -> Seq<TickstreamCommand>;

/// Relies on `std::sync::mpsc::SyncSender::try_send`: without blocking, it queues
/// the command behind those queued before, or fails, queuing nothing, where the
/// channel is full or its receiver is gone.
#[verifier::external_body]
pub(crate) fn send_command(tx: &mut SyncSender<TickstreamCommand>, cmd: TickstreamCommand) -> (r: Result<(), CommandError>)
    ensures
        !(r matches Err(CommandError::NoSuchBacktest)),
        r is Ok ==> sent_on(*final(tx)) == sent_on(*old(tx)).push(cmd),
        r is Err ==> *final(tx) == *old(tx),
{
    match tx.try_send(cmd) {
        Ok(()) => Ok(()),
        Err(TrySendError::Full(_)) => Err(CommandError::ChannelFull),
        Err(TrySendError::Disconnected(_)) => Err(CommandError::ChannelClosed),
    }
}

} // verus!
