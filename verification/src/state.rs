//! The application state snapshot and the connection lifecycle status, with
//! their mathematical views and the server-event update rule.

use vstd::prelude::*;

use crate::event::{Event, EventView, RegisterResponseEvent};

verus! {

/// Where the single connection currently stands.
#[derive(Debug, Clone)]
pub enum ConnectionStatus {
    Idle,
    Connecting,
    Connected,
    Errored { message: String },
}

/// Mathematical view of a `ConnectionStatus`.
#[verifier::ext_equal]
pub enum StatusView {
    Idle,
    Connecting,
    Connected,
    Errored { message: Seq<char> },
}

impl View for ConnectionStatus {
    type V = StatusView;

    open spec fn view(&self) -> StatusView {
        match self {
            ConnectionStatus::Idle => StatusView::Idle,
            ConnectionStatus::Connecting => StatusView::Connecting,
            ConnectionStatus::Connected => StatusView::Connected,
            ConnectionStatus::Errored { message } => StatusView::Errored { message: message@ },
        }
    }
}

/// Everything the user can see: form contents, page flags, the last error
/// text and the connection status. Published as a whole after every change.
#[derive(Debug, Clone)]
pub struct State {
    pub is_logged: bool,
    pub is_registering: bool,
    pub login: String,
    pub password: String,
    pub register_login: String,
    pub register_confirm_login: String,
    pub register_password: String,
    pub register_confirm_password: String,
    pub error_message: String,
    pub show_exit_confirmation: bool,
    pub connection_status: ConnectionStatus,
}

/// Mathematical view of a `State`.
#[verifier::ext_equal]
pub struct StateView {
    pub is_logged: bool,
    pub is_registering: bool,
    pub login: Seq<char>,
    pub password: Seq<char>,
    pub register_login: Seq<char>,
    pub register_confirm_login: Seq<char>,
    pub register_password: Seq<char>,
    pub register_confirm_password: Seq<char>,
    pub error_message: Seq<char>,
    pub show_exit_confirmation: bool,
    pub connection_status: StatusView,
}

impl View for State {
    type V = StateView;

    open spec fn view(&self) -> StateView {
        StateView {
            is_logged: self.is_logged,
            is_registering: self.is_registering,
            login: self.login@,
            password: self.password@,
            register_login: self.register_login@,
            register_confirm_login: self.register_confirm_login@,
            register_password: self.register_password@,
            register_confirm_password: self.register_confirm_password@,
            error_message: self.error_message@,
            show_exit_confirmation: self.show_exit_confirmation,
            connection_status: self.connection_status@,
        }
    }
}

/// The all-default state the store starts from and returns to after a
/// dropped session: every flag cleared, every string empty, status idle.
pub open spec fn init_state() -> StateView {
    StateView {
        is_logged: false,
        is_registering: false,
        login: Seq::<char>::empty(),
        password: Seq::<char>::empty(),
        register_login: Seq::<char>::empty(),
        register_confirm_login: Seq::<char>::empty(),
        register_password: Seq::<char>::empty(),
        register_confirm_password: Seq::<char>::empty(),
        error_message: Seq::<char>::empty(),
        show_exit_confirmation: false,
        connection_status: StatusView::Idle,
    }
}

/// The server-event update rule: a register response settles the connection
/// back to idle and surfaces the message; on success the register page is
/// left for the login page. Everything else is kept.
pub open spec fn step_event(s: StateView, e: EventView) -> StateView {
    match e {
        EventView::RegisterResponse { success, message } => StateView {
            connection_status: StatusView::Idle,
            error_message: message,
            is_registering: if success {
                false
            } else {
                s.is_registering
            },
            ..s
        },
    }
}

impl Default for ConnectionStatus {
    /// A fresh status is idle.
    fn default() -> (r: Self)
        ensures
            r@ is Idle,
    {
        ConnectionStatus::Idle
    }
}

impl Default for State {
    /// A fresh state is the all-default snapshot.
    fn default() -> (r: Self)
        ensures
            r@ == init_state(),
    {
        State::new()
    }
}

impl State {
    /// Builds the all-default state.
    pub fn new() -> (r: State)
        ensures
            r@ == init_state(),
    {
        let r = State {
            is_logged: false,
            is_registering: false,
            login: String::new(),
            password: String::new(),
            register_login: String::new(),
            register_confirm_login: String::new(),
            register_password: String::new(),
            register_confirm_password: String::new(),
            error_message: String::new(),
            show_exit_confirmation: false,
            connection_status: ConnectionStatus::Idle,
        };
        assert(r@ =~= init_state());
        r
    }

    /// Applies the server-event update rule in place.
    pub fn handle_server_event(&mut self, event: &Event)
        ensures
            final(self)@ == step_event(old(self)@, event@),
    {
        match event {
            Event::RegisterResponse(RegisterResponseEvent { success, message }) => {
                self.connection_status = ConnectionStatus::Idle;
                self.error_message = message.clone();
                if *success {
                    self.is_registering = false;
                }
            },
        }
        assert(self@ =~= step_event(old(self)@, event@));
    }
}

} // verus!
