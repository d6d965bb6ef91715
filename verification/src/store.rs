//! The store's decision core: what each user action or connection outcome
//! does to the state, and which effect the surrounding event loop must then
//! perform. The loop itself (channels, the TLS socket, the select) lives
//! outside; it owns a `Store`, feeds it one input at a time, and publishes a
//! snapshot whenever a method reports a change.

use vstd::prelude::*;

use crate::action::Action;
use crate::command::{RegisterCommand, UserCommand, UserCommandView};
use crate::event::Event;
use crate::state::{init_state, step_event, ConnectionStatus, State, StateView, StatusView};

verus! {

/// What the event loop must do after handing an action to the store.
#[derive(Debug, Clone, Copy, PartialEq, Eq, Structural)]
pub enum Effect {
    /// The state changed: publish a snapshot.
    Publish,
    /// The state moved to `Connecting`: publish a snapshot, then attempt a
    /// connection and report the outcome back.
    Connect,
    /// Signal the terminator and end the loop.
    Exit,
    /// Nothing to do.
    Silent,
}

/// How an action changes the state. Toggles flip their flag; a register or
/// login request moves the status to `Connecting` unless a connection is
/// already held; everything else leaves the state alone.
pub open spec fn step_action(s: StateView, connected: bool, a: Action) -> StateView {
    match a {
        Action::ShowRegister => StateView { is_registering: true, ..s },
        Action::PreExit => StateView { show_exit_confirmation: true, ..s },
        Action::CancelExit => StateView { show_exit_confirmation: false, ..s },
        Action::Register | Action::Login => if connected {
            s
        } else {
            StateView { connection_status: StatusView::Connecting, ..s }
        },
        Action::Noop | Action::Exit => s,
    }
}

/// Which effect an action asks of the event loop.
pub open spec fn action_effect(connected: bool, a: Action) -> Effect {
    match a {
        Action::ShowRegister | Action::PreExit | Action::CancelExit => Effect::Publish,
        Action::Register | Action::Login => if connected {
            Effect::Silent
        } else {
            Effect::Connect
        },
        Action::Exit => Effect::Exit,
        Action::Noop => Effect::Silent,
    }
}

/// `s` with its connection status replaced.
pub open spec fn with_status(s: StateView, status: StatusView) -> StateView {
    StateView { connection_status: status, ..s }
}

/// Why a connection attempt failed. Either no address could be resolved for
/// the host, or the transport or secure-channel handshake failed; both are
/// surfaced to the user as an `Errored` status and are retryable.
#[derive(Debug, Clone)]
pub enum ConnectError {
    ResolutionFailed,
    HandshakeFailed { message: String },
}

impl ConnectError {
    /// The human-readable cause carried into the `Errored` status.
    pub open spec fn message_view(&self) -> Seq<char> {
        match self {
            ConnectError::ResolutionFailed => "address resolution failed"@,
            ConnectError::HandshakeFailed { message } => message@,
        }
    }

    /// The human-readable cause, as text.
    pub fn message(&self) -> (r: String)
        ensures
            r@ == self.message_view(),
    {
        match self {
            ConnectError::ResolutionFailed => String::from_str("address resolution failed"),
            ConnectError::HandshakeFailed { message } => message.clone(),
        }
    }
}

/// Owns the current state and remembers whether a connection handle is held.
/// The store is the sole mutator of both.
pub struct Store {
    pub state: State,
    pub connected: bool,
}

impl Store {
    /// A store starts from the all-default state with no connection.
    pub fn new() -> (r: Store)
        ensures
            r.state@ == init_state(),
            !r.connected,
    {
        Store { state: State::new(), connected: false }
    }

    /// Handles one user action: updates the state as `step_action` says and
    /// reports the effect the event loop must perform.
    pub fn on_action(&mut self, action: Action) -> (e: Effect)
        ensures
            final(self).connected == old(self).connected,
            final(self).state@ == step_action(old(self).state@, old(self).connected, action),
            e == action_effect(old(self).connected, action),
    {
        match action {
            Action::ShowRegister => {
                self.state.is_registering = true;
                Effect::Publish
            },
            Action::PreExit => {
                self.state.show_exit_confirmation = true;
                Effect::Publish
            },
            Action::CancelExit => {
                self.state.show_exit_confirmation = false;
                Effect::Publish
            },
            Action::Register | Action::Login => {
                if self.connected {
                    Effect::Silent
                } else {
                    self.state.connection_status = ConnectionStatus::Connecting;
                    Effect::Connect
                }
            },
            Action::Exit => Effect::Exit,
            Action::Noop => Effect::Silent,
        }
    }

    /// The handshake succeeded: keep the handle and move to `Connected`.
    /// Only a pending attempt can succeed, so the status must be
    /// `Connecting`; `Connected` is never entered from any other status.
    pub fn on_connect_ok(&mut self)
        requires
            old(self).state@.connection_status is Connecting,
            !old(self).connected,
        ensures
            final(self).connected,
            final(self).state@ == with_status(old(self).state@, StatusView::Connected),
    {
        self.state.connection_status = ConnectionStatus::Connected;
        self.connected = true;
    }

    /// The connection attempt failed: the status always resolves to
    /// `Errored` carrying the cause, never stays `Connecting`, and no
    /// handle is held. The attempt is retryable by a later action.
    pub fn on_connect_failed(&mut self, message: String)
        requires
            old(self).state@.connection_status is Connecting,
            !old(self).connected,
        ensures
            !final(self).connected,
            final(self).state@ == with_status(
                old(self).state@,
                StatusView::Errored { message: message@ },
            ),
    {
        self.state.connection_status = ConnectionStatus::Errored { message };
    }

    /// Applies one decoded server event to the state.
    pub fn on_server_event(&mut self, event: &Event)
        requires
            old(self).connected,
        ensures
            final(self).connected == old(self).connected,
            final(self).state@ == step_event(old(self).state@, event@),
    {
        self.state.handle_server_event(event);
    }

    /// The inbound stream ended or failed mid-session: drop the handle and
    /// reset the whole state to its all-default value, so no stale form
    /// data outlives the session.
    pub fn on_stream_end(&mut self)
        ensures
            !final(self).connected,
            final(self).state@ == init_state(),
    {
        self.state = State::new();
        self.connected = false;
    }

    /// The registration command to send once connected, built from the
    /// register form in the current state.
    pub fn register_command(&self) -> (c: UserCommand)
        ensures
            c@ == (UserCommandView::Register {
                login: self.state@.register_login,
                password: self.state@.register_password,
            }),
    {
        UserCommand::Register(
            RegisterCommand {
                login: self.state.register_login.clone(),
                password: self.state.register_password.clone(),
            },
        )
    }
}

/// Folds a sequence of actions over the state, with no connection held.
pub open spec fn run_actions(s: StateView, actions: Seq<Action>) -> StateView
    decreases actions.len(),
{
    if actions.len() == 0 {
        s
    } else {
        run_actions(step_action(s, false, actions[0]), actions.drop_first())
    }
}

/// True of actions that only toggle page flags.
pub open spec fn is_toggle(a: Action) -> bool {
    a is ShowRegister || a is CancelExit || a is PreExit
}

/// Law: any sequence of `ShowRegister` / `CancelExit` / `PreExit` actions,
/// with no connection attempted, leaves the connection status `Idle`, and
/// none of the actions ever asks the loop to connect.
pub proof fn lemma_toggles_keep_idle(s: StateView, actions: Seq<Action>)
    requires
        s.connection_status is Idle,
        forall|i: int| 0 <= i < actions.len() ==> is_toggle(#[trigger] actions[i]),
    ensures
        run_actions(s, actions).connection_status is Idle,
        forall|i: int| 0 <= i < actions.len() ==> #[trigger] action_effect(false, actions[i])
            != Effect::Connect,
    decreases actions.len(),
{
    if actions.len() > 0 {
        assert(is_toggle(actions[0]));
        let s1 = step_action(s, false, actions[0]);
        assert(s1.connection_status is Idle);
        assert(forall|i: int|
            0 <= i < actions.drop_first().len() ==> is_toggle(
                #[trigger] actions.drop_first()[i],
            ));
        lemma_toggles_keep_idle(s1, actions.drop_first());
    }
}

/// Law: a successful connection followed by a successful register response
/// settles the status back to `Idle`, surfaces the message, and returns to
/// the login page.
pub proof fn lemma_success_response_returns_to_login(s: StateView, m: Seq<char>)
    ensures
        ({
            let after = step_event(
                with_status(s, StatusView::Connected),
                crate::event::EventView::RegisterResponse { success: true, message: m },
            );
            &&& after.connection_status is Idle
            &&& after.error_message == m
            &&& !after.is_registering
        }),
{
}

/// Law: a successful connection followed by a failed register response
/// surfaces the message and leaves the register page as it was.
pub proof fn lemma_failure_response_keeps_page(s: StateView, m: Seq<char>)
    ensures
        ({
            let after = step_event(
                with_status(s, StatusView::Connected),
                crate::event::EventView::RegisterResponse { success: false, message: m },
            );
            &&& after.connection_status is Idle
            &&& after.error_message == m
            &&& after.is_registering == s.is_registering
        }),
{
}

/// Law: re-applying the same register response is idempotent.
pub proof fn lemma_event_idempotent(s: StateView, e: crate::event::EventView)
    ensures
        step_event(step_event(s, e), e) == step_event(s, e),
{
    assert(step_event(step_event(s, e), e) =~= step_event(s, e));
}

} // verus!
