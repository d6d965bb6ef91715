use termplay::focus::{calculate_show_cursor, Focus, FOCUS_COUNT};
use termplay::text_input::{InitProperties, TextInput};
use termplay::utils::cycle;

fn input(limit: usize, is_password: bool) -> TextInput {
    TextInput::new(InitProperties {
        cursor_limit: limit,
        is_password,
    })
}

fn type_str(field: &mut TextInput, text: &str) {
    for c in text.chars() {
        field.enter_char(c);
    }
}

#[test]
fn cycle_steps_forward_and_wraps() {
    let mut val: u16 = 0;
    assert!(!cycle(&mut val, 1, 3));
    assert_eq!(val, 1);
    assert!(!cycle(&mut val, 1, 3));
    assert_eq!(val, 2);
    assert!(cycle(&mut val, 1, 3));
    assert_eq!(val, 0);
}

#[test]
fn cycle_steps_backward_and_wraps() {
    let mut val: u16 = 2;
    assert!(!cycle(&mut val, -1, 3));
    assert_eq!(val, 1);
    assert!(!cycle(&mut val, -1, 3));
    assert_eq!(val, 0);
    assert!(cycle(&mut val, -1, 3));
    assert_eq!(val, 2);
}

#[test]
fn cycle_on_a_single_slot_always_wraps() {
    let mut val: u16 = 0;
    assert!(cycle(&mut val, 1, 1));
    assert_eq!(val, 0);
    assert!(cycle(&mut val, -1, 1));
    assert_eq!(val, 0);
}

#[test]
fn typing_moves_the_cursor_and_stores_the_text() {
    let mut field = input(40, false);
    type_str(&mut field, "alice");
    assert_eq!(field.text(), "alice");
    assert_eq!(field.cursor_position(), 5);
}

#[test]
fn typing_in_the_middle_inserts_at_the_cursor() {
    let mut field = input(40, false);
    type_str(&mut field, "ace");
    field.move_cursor_left();
    field.move_cursor_left();
    field.enter_char('l');
    field.enter_char('i');
    assert_eq!(field.text(), "alice");
    assert_eq!(field.cursor_position(), 3);
}

#[test]
fn the_limit_stops_further_input() {
    let mut field = input(3, false);
    type_str(&mut field, "abcdef");
    assert_eq!(field.text(), "abc");
    assert_eq!(field.cursor_position(), 3);
}

#[test]
fn deleting_removes_the_character_left_of_the_cursor() {
    let mut field = input(40, false);
    type_str(&mut field, "alice");
    field.delete_char();
    assert_eq!(field.text(), "alic");
    field.move_cursor_left();
    field.move_cursor_left();
    field.delete_char();
    assert_eq!(field.text(), "aic");
    assert_eq!(field.cursor_position(), 1);
}

#[test]
fn deleting_at_the_start_does_nothing() {
    let mut field = input(40, false);
    type_str(&mut field, "ab");
    field.move_cursor_left();
    field.move_cursor_left();
    field.delete_char();
    assert_eq!(field.text(), "ab");
    assert_eq!(field.cursor_position(), 0);
}

#[test]
fn the_cursor_stays_inside_the_text() {
    let mut field = input(40, false);
    type_str(&mut field, "ab");
    field.move_cursor_right();
    field.move_cursor_right();
    assert_eq!(field.cursor_position(), 2);
    field.move_cursor_left();
    field.move_cursor_left();
    field.move_cursor_left();
    assert_eq!(field.cursor_position(), 0);
}

#[test]
fn editing_is_character_based_for_any_text() {
    let mut field = input(40, false);
    type_str(&mut field, "p\u{e2}t\u{e9}");
    assert_eq!(field.cursor_position(), 4);
    field.delete_char();
    assert_eq!(field.text(), "p\u{e2}t");
    field.move_cursor_left();
    field.move_cursor_left();
    field.enter_char('\u{1f512}');
    assert_eq!(field.text(), "p\u{1f512}\u{e2}t");
}

#[test]
fn password_fields_mask_their_display_text() {
    let mut field = input(40, true);
    type_str(&mut field, "secret");
    assert_eq!(field.display_text(), "******");
    assert_eq!(field.text(), "secret");

    let mut plain = input(40, false);
    type_str(&mut plain, "secret");
    assert_eq!(plain.display_text(), "secret");
}

#[test]
fn focus_indices_round_trip() {
    let sections = [
        Focus::LoginField,
        Focus::PasswordField,
        Focus::LoginButton,
        Focus::RegisterButton,
    ];
    for (i, section) in sections.iter().enumerate() {
        assert_eq!(section.to_usize(), i);
        assert_eq!(Focus::try_from(i), Ok(*section));
    }
    assert_eq!(Focus::try_from(FOCUS_COUNT), Err(()));
}

#[test]
fn focus_hovering_cycles_through_all_sections() {
    let mut focus = Focus::LoginField;
    for _ in 0..FOCUS_COUNT {
        focus = focus.hover_next();
    }
    assert_eq!(focus, Focus::LoginField);
    assert_eq!(Focus::LoginField.hover_previous(), Focus::RegisterButton);
    assert_eq!(Focus::RegisterButton.hover_next(), Focus::LoginField);
    assert_eq!(Focus::PasswordField.hover_previous(), Focus::LoginField);
}

#[test]
fn the_cursor_shows_only_on_the_hovered_inactive_section() {
    assert!(calculate_show_cursor(
        None,
        Focus::LoginField,
        Focus::LoginField
    ));
    assert!(!calculate_show_cursor(
        None,
        Focus::LoginField,
        Focus::PasswordField
    ));
    assert!(!calculate_show_cursor(
        Some(Focus::LoginField),
        Focus::LoginField,
        Focus::LoginField
    ));
    assert!(calculate_show_cursor(
        Some(Focus::LoginButton),
        Focus::LoginField,
        Focus::LoginField
    ));
}
