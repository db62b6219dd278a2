//! Client shell-frontend behaviour: the menu trigger, the split of keystroke
//! chunks around it, menu keystrokes, and the strings painted at the end of a
//! session.

use autobahn::frontend::{
    decimal_string, exit_message, find_menu_trigger, menu_choice, menu_inputs_after,
    menu_inputs_before, move_cursor_string, MenuChoice, ABNORMAL_EXIT, MENU_CHAR,
};
use autobahn::router::Input;

#[test]
fn menu_trigger_is_first_control_z() {
    assert_eq!(find_menu_trigger(&[b'a', b'b', MENU_CHAR, b'c']), Some(2));
    assert_eq!(find_menu_trigger(&[MENU_CHAR, MENU_CHAR]), Some(0));
    assert_eq!(find_menu_trigger(b"plain keys"), None);
    assert_eq!(find_menu_trigger(&[]), None);
}

#[test]
fn chunk_splits_around_menu_trigger() {
    let chunk = [b'a', b'b', MENU_CHAR, b'c'];
    assert_eq!(
        menu_inputs_before(&chunk, 2),
        vec![Input::Data(vec![b'a', b'b']), Input::Stop]
    );
    assert_eq!(
        menu_inputs_after(&chunk, 2),
        vec![Input::Continue, Input::Data(vec![b'c'])]
    );
}

#[test]
fn leading_trigger_sends_no_empty_data() {
    let chunk = [MENU_CHAR, b'x'];
    assert_eq!(menu_inputs_before(&chunk, 0), vec![Input::Stop]);
    assert_eq!(
        menu_inputs_after(&chunk, 0),
        vec![Input::Continue, Input::Data(vec![b'x'])]
    );
}

#[test]
fn trailing_trigger_sends_no_empty_data() {
    let chunk = [b'x', MENU_CHAR];
    assert_eq!(menu_inputs_before(&chunk, 1), vec![Input::Data(vec![b'x']), Input::Stop]);
    assert_eq!(menu_inputs_after(&chunk, 1), vec![Input::Continue]);
}

#[test]
fn lone_trigger_sends_only_stop_and_continue() {
    let chunk = [MENU_CHAR];
    assert_eq!(menu_inputs_before(&chunk, 0), vec![Input::Stop]);
    assert_eq!(menu_inputs_after(&chunk, 0), vec![Input::Continue]);
}

#[test]
fn menu_keystrokes() {
    assert_eq!(menu_choice(b'q'), MenuChoice::Quit);
    assert_eq!(menu_choice(0x1b), MenuChoice::Cancel);
    assert_eq!(menu_choice(b'x'), MenuChoice::Cancel);
    assert_eq!(menu_choice(b'z'), MenuChoice::Unknown);
    assert_eq!(menu_choice(b'Q'), MenuChoice::Unknown);
}

#[test]
fn exit_messages() {
    assert_eq!(exit_message(0), "Process exited with code 0");
    assert_eq!(exit_message(42), "Process exited with code 42");
    assert_eq!(exit_message(254), "Process exited with code 254");
    assert_eq!(exit_message(ABNORMAL_EXIT), "Process died unusually");
}

#[test]
fn decimal_rendering() {
    assert_eq!(decimal_string(0), "0");
    assert_eq!(decimal_string(7), "7");
    assert_eq!(decimal_string(100), "100");
    assert_eq!(decimal_string(65535), "65535");
}

#[test]
fn cursor_addressing() {
    assert_eq!(move_cursor_string(5, 17), "\x1b[5;17H");
    assert_eq!(move_cursor_string(1, 1), "\x1b[1;1H");
}
