//! The hotkey listener's state machine and the session reentrancy guard
//! that the consumer holds: one hotkey press opens at most one session, and
//! presses that arrive while a session is open are coalesced into no-ops.
use vstd::prelude::*;

verus! {

/// The identifier under which the global hotkey is registered.
pub const HOTKEY_ID: i32 = 1;

/// The message code the platform posts when a registered hotkey fires.
pub const WM_HOTKEY: u32 = 0x0312;

/// The modifier mask of the hotkey binding: Control and Alt together.
pub const HOTKEY_MODIFIERS: u32 = 0x0003;

/// The virtual key of the hotkey binding: the space bar.
pub const HOTKEY_KEY: u32 = 0x20;

/// Whether a queued message is a press of the registered hotkey. Only such
/// messages make the listener emit a signal.
pub fn is_hotkey_message(message: u32, w_param: usize) -> (r: bool)
    ensures
        r == (message == WM_HOTKEY && w_param == HOTKEY_ID as usize),
{
    message == WM_HOTKEY && w_param == HOTKEY_ID as usize
}

/// The listener's lifecycle states.
#[derive(Clone, Copy, Debug, PartialEq, Eq, Structural)]
pub enum ListenerState {
    /// Before the global hotkey binding is registered.
    Unregistered,
    /// Registered and blocking on the message queue.
    Listening,
    /// Terminated: either registration failed (fatal to this component) or
    /// the process is shutting down.
    Stopped,
}

/// What the listener reacts to.
#[derive(Clone, Copy, Debug, PartialEq, Eq, Structural)]
pub enum ListenerEvent {
    /// The outcome of registering the global hotkey binding.
    RegistrationResult(bool),
    /// A message taken from the queue: its code and its parameter word.
    MessageReceived(u32, usize),
    /// The process is shutting down.
    Shutdown,
}

/// The listener's transition relation. The second component says whether a
/// signal is emitted to the consumer in this step.
pub open spec fn spec_listener_step(state: ListenerState, event: ListenerEvent) -> (
    ListenerState,
    bool,
) {
    match (state, event) {
        (ListenerState::Unregistered, ListenerEvent::RegistrationResult(ok)) => (
            if ok {
                ListenerState::Listening
            } else {
                ListenerState::Stopped
            },
            false,
        ),
        (ListenerState::Listening, ListenerEvent::MessageReceived(message, w_param)) => (
            ListenerState::Listening,
            message == WM_HOTKEY && w_param == HOTKEY_ID as usize,
        ),
        (ListenerState::Listening, ListenerEvent::Shutdown) => (ListenerState::Stopped, false),
        (_, _) => (state, false),
    }
}

/// One step of the listener: registration moves it to `Listening` (or stops
/// it for good on failure), a hotkey press emits exactly one signal and
/// returns to `Listening`, and shutdown stops it. Any other combination
/// changes nothing.
pub fn listener_step(state: ListenerState, event: ListenerEvent) -> (r: (ListenerState, bool))
    ensures
        r == spec_listener_step(state, event),
{
    match (state, event) {
        (ListenerState::Unregistered, ListenerEvent::RegistrationResult(ok)) => {
            if ok {
                (ListenerState::Listening, false)
            } else {
                (ListenerState::Stopped, false)
            }
        },
        (ListenerState::Listening, ListenerEvent::MessageReceived(message, w_param)) => {
            let emit = is_hotkey_message(message, w_param);
            (ListenerState::Listening, emit)
        },
        (ListenerState::Listening, ListenerEvent::Shutdown) => (ListenerState::Stopped, false),
        (_, _) => (state, false),
    }
}

/// The consumer's session states.
#[derive(Clone, Copy, Debug, PartialEq, Eq, Structural)]
pub enum SessionState {
    /// No launcher session is open; the next signal starts one.
    Idle,
    /// A session (inventory plus launcher window) is open.
    SessionActive,
}

/// The reentrancy guard owned by the consumer thread. It is the only
/// mutable state shared between signal handling and session teardown, and
/// it gates session creation: while a session is open, further signals are
/// no-ops.
pub struct SessionGuard {
    pub state: SessionState,
}

impl SessionGuard {
    /// A fresh guard: no session open.
    pub fn new() -> (r: SessionGuard)
        ensures
            r.state == SessionState::Idle,
    {
        SessionGuard { state: SessionState::Idle }
    }

    /// Handles one hotkey signal. Returns whether a new session (and with
    /// it a fresh inventory) must be started: true exactly when no session
    /// was open. Afterwards a session is open either way.
    pub fn on_signal(&mut self) -> (start: bool)
        ensures
            start == (old(self).state == SessionState::Idle),
            final(self).state == SessionState::SessionActive,
    {
        match self.state {
            SessionState::Idle => {
                self.state = SessionState::SessionActive;
                true
            },
            SessionState::SessionActive => false,
        }
    }

    /// Ends the current session (selection made, escape pressed, or focus
    /// lost): the guard returns to idle and the next signal starts a new
    /// session.
    pub fn on_close(&mut self)
        ensures
            final(self).state == SessionState::Idle,
    {
        self.state = SessionState::Idle;
    }
}

} // verus!
