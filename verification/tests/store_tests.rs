use termplay::action::Action;
use termplay::event::{Event, RegisterResponseEvent};
use termplay::state::{ConnectionStatus, State};
use termplay::store::{ConnectError, Effect, Store};

fn assert_default(state: &State) {
    assert!(!state.is_logged);
    assert!(!state.is_registering);
    assert_eq!(state.login, "");
    assert_eq!(state.password, "");
    assert_eq!(state.register_login, "");
    assert_eq!(state.register_confirm_login, "");
    assert_eq!(state.register_password, "");
    assert_eq!(state.register_confirm_password, "");
    assert_eq!(state.error_message, "");
    assert!(!state.show_exit_confirmation);
    assert!(matches!(state.connection_status, ConnectionStatus::Idle));
}

fn response(success: bool, message: &str) -> Event {
    Event::RegisterResponse(RegisterResponseEvent {
        success,
        message: message.to_string(),
    })
}

#[test]
fn store_starts_from_the_all_default_state() {
    let store = Store::new();
    assert_default(&store.state);
    assert!(!store.connected);
}

#[test]
fn toggles_keep_the_connection_idle() {
    let mut store = Store::new();
    let actions = [
        Action::ShowRegister,
        Action::PreExit,
        Action::CancelExit,
        Action::PreExit,
        Action::ShowRegister,
        Action::CancelExit,
    ];
    for action in actions {
        let effect = store.on_action(action);
        assert_eq!(effect, Effect::Publish);
        assert!(matches!(
            store.state.connection_status,
            ConnectionStatus::Idle
        ));
    }
    assert!(store.state.is_registering);
    assert!(!store.state.show_exit_confirmation);
    assert!(!store.connected);
}

#[test]
fn register_connects_and_success_returns_to_login_page() {
    let mut store = Store::new();
    store.on_action(Action::ShowRegister);
    let effect = store.on_action(Action::Register);
    assert_eq!(effect, Effect::Connect);
    assert!(matches!(
        store.state.connection_status,
        ConnectionStatus::Connecting
    ));
    store.on_connect_ok();
    assert!(store.connected);
    assert!(matches!(
        store.state.connection_status,
        ConnectionStatus::Connected
    ));
    store.on_server_event(&response(true, "m"));
    assert!(matches!(
        store.state.connection_status,
        ConnectionStatus::Idle
    ));
    assert_eq!(store.state.error_message, "m");
    assert!(!store.state.is_registering);
}

#[test]
fn failed_response_keeps_the_register_page() {
    let mut store = Store::new();
    store.on_action(Action::ShowRegister);
    store.on_action(Action::Register);
    store.on_connect_ok();
    store.on_server_event(&response(false, "m"));
    assert!(matches!(
        store.state.connection_status,
        ConnectionStatus::Idle
    ));
    assert_eq!(store.state.error_message, "m");
    assert!(store.state.is_registering);
}

#[test]
fn reapplying_a_response_is_idempotent() {
    let mut store = Store::new();
    store.on_action(Action::Register);
    store.on_connect_ok();
    store.on_server_event(&response(true, "done"));
    let first_message = store.state.error_message.clone();
    let first_registering = store.state.is_registering;
    store.on_server_event(&response(true, "done"));
    assert_eq!(store.state.error_message, first_message);
    assert_eq!(store.state.is_registering, first_registering);
    assert!(matches!(
        store.state.connection_status,
        ConnectionStatus::Idle
    ));
}

#[test]
fn connect_failure_resolves_to_errored_with_the_cause() {
    let mut store = Store::new();

    let mut snapshots: Vec<State> = Vec::new();
    let effect = store.on_action(Action::Register);
    assert_eq!(effect, Effect::Connect);
    snapshots.push(store.state.clone());
    store.on_connect_failed("connection refused".to_string());
    snapshots.push(store.state.clone());

    assert_eq!(snapshots.len(), 2);
    assert!(matches!(
        snapshots[0].connection_status,
        ConnectionStatus::Connecting
    ));
    match &snapshots[1].connection_status {
        ConnectionStatus::Errored { message } => assert_eq!(message, "connection refused"),
        other => panic!("expected an errored status, got {:?}", other),
    }
    assert!(!store.connected);
}

#[test]
fn a_failed_attempt_is_retryable() {
    let mut store = Store::new();
    store.on_action(Action::Register);
    store.on_connect_failed("connection refused".to_string());
    let effect = store.on_action(Action::Register);
    assert_eq!(effect, Effect::Connect);
    assert!(matches!(
        store.state.connection_status,
        ConnectionStatus::Connecting
    ));
    store.on_connect_ok();
    assert!(matches!(
        store.state.connection_status,
        ConnectionStatus::Connected
    ));
}

#[test]
fn stream_end_resets_everything_to_default() {
    let mut store = Store::new();
    store.state.register_login = "alice".to_string();
    store.state.register_password = "secret".to_string();
    store.on_action(Action::ShowRegister);
    store.on_action(Action::Register);
    store.on_connect_ok();
    store.on_stream_end();
    assert!(!store.connected);
    assert_default(&store.state);
}

#[test]
fn actions_while_connected_do_not_reconnect() {
    let mut store = Store::new();
    store.on_action(Action::Register);
    store.on_connect_ok();
    assert_eq!(store.on_action(Action::Register), Effect::Silent);
    assert_eq!(store.on_action(Action::Login), Effect::Silent);
    assert!(matches!(
        store.state.connection_status,
        ConnectionStatus::Connected
    ));
    assert_eq!(store.on_action(Action::PreExit), Effect::Publish);
    assert!(store.state.show_exit_confirmation);
}

#[test]
fn exit_and_noop_effects() {
    let mut store = Store::new();
    assert_eq!(store.on_action(Action::Exit), Effect::Exit);
    assert_eq!(store.on_action(Action::Noop), Effect::Silent);
    assert_default(&store.state);
}

#[test]
fn login_also_attempts_a_connection() {
    let mut store = Store::new();
    assert_eq!(store.on_action(Action::Login), Effect::Connect);
    assert!(matches!(
        store.state.connection_status,
        ConnectionStatus::Connecting
    ));
}

#[test]
fn register_command_is_built_from_the_register_form() {
    let mut store = Store::new();
    store.state.register_login = "alice".to_string();
    store.state.register_password = "secret".to_string();
    let cmd = store.register_command();
    let termplay::command::UserCommand::Register(payload) = cmd;
    assert_eq!(payload.login, "alice");
    assert_eq!(payload.password, "secret");
}

#[test]
fn connect_error_messages() {
    assert_eq!(
        ConnectError::ResolutionFailed.message(),
        "address resolution failed"
    );
    assert_eq!(
        ConnectError::HandshakeFailed {
            message: "certificate rejected".to_string(),
        }
        .message(),
        "certificate rejected"
    );
}

#[test]
fn state_default_and_event_rule_directly() {
    let mut state = State::default();
    assert_default(&state);
    state.is_registering = true;
    state.handle_server_event(&response(false, "taken"));
    assert!(state.is_registering);
    assert_eq!(state.error_message, "taken");
    state.handle_server_event(&response(true, "ok"));
    assert!(!state.is_registering);
    assert_eq!(state.error_message, "ok");
}
