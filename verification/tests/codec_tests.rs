use termplay::codec::DecodeError;
use termplay::command::{
    RegisterCommand, RegisterResponseCommand, ServerCommand, UserCommand,
};
use termplay::event::{Event, RegisterResponseEvent};

fn register(login: &str, password: &str) -> UserCommand {
    UserCommand::Register(RegisterCommand {
        login: login.to_string(),
        password: password.to_string(),
    })
}

#[test]
fn user_command_encodes_to_one_terminated_json_line() {
    let encoded = register("alice", "secret").encode();
    assert_eq!(
        encoded,
        "{\"_ct\":\"register\",\"login\":\"alice\",\"password\":\"secret\"}\r\n"
    );
}

#[test]
fn server_command_encodes_to_one_terminated_json_line() {
    let cmd = ServerCommand::RegisterResponse(RegisterResponseCommand { email_sent: true });
    assert_eq!(
        cmd.encode(),
        "{\"_st\":\"register_response\",\"email_sent\":true}\r\n"
    );
}

#[test]
fn event_encodes_to_one_terminated_json_line() {
    let event = Event::RegisterResponse(RegisterResponseEvent {
        success: false,
        message: "taken".to_string(),
    });
    assert_eq!(
        event.encode(),
        "{\"_et\":\"register_response\",\"success\":false,\"message\":\"taken\"}\r\n"
    );
}

#[test]
fn user_command_round_trips() {
    let cmd = register("alice", "secret");
    assert_eq!(UserCommand::decode(&cmd.encode()), Ok(cmd));
}

#[test]
fn user_command_round_trips_with_escapes() {
    let cmd = register("a\"b\\c", "line\nbreak\tand\rreturn");
    let encoded = cmd.encode();
    assert_eq!(UserCommand::decode(&encoded), Ok(cmd));
}

#[test]
fn user_command_round_trips_with_unicode() {
    let cmd = register("ren\u{e9}e", "p\u{e2}t\u{e9} \u{1f512}");
    assert_eq!(UserCommand::decode(&cmd.encode()), Ok(cmd));
}

#[test]
fn server_command_round_trips_both_variants() {
    for email_sent in [false, true] {
        let cmd = ServerCommand::RegisterResponse(RegisterResponseCommand { email_sent });
        assert_eq!(ServerCommand::decode(&cmd.encode()), Ok(cmd));
    }
}

#[test]
fn event_round_trips_both_outcomes() {
    for success in [false, true] {
        let event = Event::RegisterResponse(RegisterResponseEvent {
            success,
            message: "Welcome".to_string(),
        });
        assert_eq!(Event::decode(&event.encode()), Ok(event));
    }
}

#[test]
fn event_round_trips_empty_message() {
    let event = Event::RegisterResponse(RegisterResponseEvent {
        success: true,
        message: String::new(),
    });
    assert_eq!(Event::decode(&event.encode()), Ok(event));
}

#[test]
fn decode_accepts_known_lines_written_by_hand() {
    let decoded =
        UserCommand::decode("{\"_ct\":\"register\",\"login\":\"bob\",\"password\":\"pw\"}\r\n");
    assert_eq!(decoded, Ok(register("bob", "pw")));

    let decoded = Event::decode(
        "{\"_et\":\"register_response\",\"success\":true,\"message\":\"Welcome\"}\r\n",
    );
    assert_eq!(
        decoded,
        Ok(Event::RegisterResponse(RegisterResponseEvent {
            success: true,
            message: "Welcome".to_string(),
        }))
    );
}

#[test]
fn decode_accepts_reordered_members_and_missing_terminator() {
    let decoded =
        UserCommand::decode("{\"login\":\"bob\",\"password\":\"pw\",\"_ct\":\"register\"}");
    assert_eq!(decoded, Ok(register("bob", "pw")));

    let decoded = UserCommand::decode("{\"_ct\":\"register\",\"login\":\"b\",\"password\":\"p\"}\n");
    assert_eq!(decoded, Ok(register("b", "p")));
}

#[test]
fn decode_unescapes_string_values() {
    let decoded = Event::decode(
        "{\"_et\":\"register_response\",\"success\":false,\"message\":\"a\\\"b\\\\c\\nd\"}\r\n",
    );
    assert_eq!(
        decoded,
        Ok(Event::RegisterResponse(RegisterResponseEvent {
            success: false,
            message: "a\"b\\c\nd".to_string(),
        }))
    );
}

#[test]
fn unknown_discriminator_yields_unknown_tag() {
    assert_eq!(
        UserCommand::decode("{\"_ct\":\"frobnicate\"}\r\n"),
        Err(DecodeError::UnknownTag)
    );
    assert_eq!(
        ServerCommand::decode("{\"_st\":\"shutdown\"}\r\n"),
        Err(DecodeError::UnknownTag)
    );
    assert_eq!(
        Event::decode("{\"_et\":\"pong\",\"success\":true}\r\n"),
        Err(DecodeError::UnknownTag)
    );
}

#[test]
fn malformed_lines_yield_malformed() {
    assert_eq!(UserCommand::decode(""), Err(DecodeError::Malformed));
    assert_eq!(UserCommand::decode("not json"), Err(DecodeError::Malformed));
    assert_eq!(UserCommand::decode("{}"), Err(DecodeError::Malformed));
    assert_eq!(
        UserCommand::decode("{\"_ct\":\"register\",\"login\":\"a\""),
        Err(DecodeError::Malformed)
    );
    assert_eq!(
        UserCommand::decode("{\"_ct\":true}\r\n"),
        Err(DecodeError::Malformed)
    );
    assert_eq!(
        UserCommand::decode("{\"login\":\"a\",\"password\":\"b\"}\r\n"),
        Err(DecodeError::Malformed)
    );
}

#[test]
fn missing_payload_members_yield_malformed() {
    assert_eq!(
        UserCommand::decode("{\"_ct\":\"register\",\"login\":\"a\"}\r\n"),
        Err(DecodeError::Malformed)
    );
    assert_eq!(
        ServerCommand::decode("{\"_st\":\"register_response\"}\r\n"),
        Err(DecodeError::Malformed)
    );
    assert_eq!(
        Event::decode("{\"_et\":\"register_response\",\"success\":\"yes\",\"message\":\"m\"}\r\n"),
        Err(DecodeError::Malformed)
    );
}

#[test]
fn trailing_garbage_after_object_yields_malformed() {
    assert_eq!(
        UserCommand::decode("{\"_ct\":\"register\",\"login\":\"a\",\"password\":\"b\"}x\r\n"),
        Err(DecodeError::Malformed)
    );
}

#[test]
fn encoded_lines_are_genuine_json() {
    let cmd = register("a\"b\\c\nd", "p\tw");
    let encoded = cmd.encode();
    let trimmed = encoded.strip_suffix("\r\n").expect("terminator");
    let value: serde_json::Value = serde_json::from_str(trimmed).expect("valid JSON");
    assert_eq!(value.get("_ct").and_then(|v| v.as_str()), Some("register"));
    assert_eq!(value.get("login").and_then(|v| v.as_str()), Some("a\"b\\c\nd"));
    assert_eq!(value.get("password").and_then(|v| v.as_str()), Some("p\tw"));

    let event = Event::RegisterResponse(RegisterResponseEvent {
        success: true,
        message: "All \u{2713} fine".to_string(),
    });
    let encoded = event.encode();
    let trimmed = encoded.strip_suffix("\r\n").expect("terminator");
    let value: serde_json::Value = serde_json::from_str(trimmed).expect("valid JSON");
    assert_eq!(
        value.get("_et").and_then(|v| v.as_str()),
        Some("register_response")
    );
    assert_eq!(value.get("success").and_then(|v| v.as_bool()), Some(true));
    assert_eq!(
        value.get("message").and_then(|v| v.as_str()),
        Some("All \u{2713} fine")
    );
}

#[test]
fn decode_accepts_serde_json_output() {
    let mut map = serde_json::Map::new();
    map.insert(
        "_ct".to_string(),
        serde_json::Value::String("register".to_string()),
    );
    map.insert(
        "login".to_string(),
        serde_json::Value::String("a\"b\\c".to_string()),
    );
    map.insert(
        "password".to_string(),
        serde_json::Value::String("pw\n".to_string()),
    );
    let line = serde_json::Value::Object(map).to_string();
    assert_eq!(UserCommand::decode(&line), Ok(register("a\"b\\c", "pw\n")));
}
