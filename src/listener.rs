use vstd::prelude::*;

verus! {

/// The key that stops the listener.
pub const QUIT_KEY: char = 'q';

/// What the listener observed since its last step.
#[derive(PartialEq, Eq, Structural, Clone, Copy, Debug)]
pub enum ListenerEvent {
    /// A connection was accepted.
    Accepted,
    /// Accepting a connection failed.
    AcceptFailed,
    /// A key was pressed.
    Key(char),
    /// Nothing happened.
    Idle,
}

/// What the listener does next.
#[derive(PartialEq, Eq, Structural, Clone, Copy, Debug)]
pub enum ListenerAction {
    /// Hand the connection to a handler of its own and keep accepting.
    Dispatch,
    /// Report the failure and keep accepting.
    Report,
    /// Stop accepting; handlers already running are left to finish.
    Stop,
    /// Keep accepting.
    Continue,
}

/// One step of the accept loop.
pub fn listener_step(event: ListenerEvent) -> (r: ListenerAction)
    ensures
        r == match event {
            ListenerEvent::Accepted => ListenerAction::Dispatch,
            ListenerEvent::AcceptFailed => ListenerAction::Report,
            ListenerEvent::Key(c) => if c == QUIT_KEY {
                ListenerAction::Stop
            } else {
                ListenerAction::Continue
            },
            ListenerEvent::Idle => ListenerAction::Continue,
        },
{
    match event {
        ListenerEvent::Accepted => ListenerAction::Dispatch,
        ListenerEvent::AcceptFailed => ListenerAction::Report,
        ListenerEvent::Key(c) => if c == QUIT_KEY {
            ListenerAction::Stop
        } else {
            ListenerAction::Continue
        },
        ListenerEvent::Idle => ListenerAction::Continue,
    }
}

} // verus!
