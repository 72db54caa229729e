use cove::pane::PaneInfo;
use cove::small_message::as_me;
use cove::textline::{EventHandler, KeyCode, TextLineReaction, TextLineState};
use cove::util::{caesar, is_room_char, posix_zone_of, time_zone_choice, TzChoice};

#[test]
fn caesar_rotates_letters_only() {
    assert_eq!(caesar("Hello, World!", 3), "Khoor, Zruog!");
    assert_eq!(caesar("xyz XYZ", 3), "abc ABC");
    assert_eq!(caesar("abc", -1), "zab");
    assert_eq!(caesar("äbc", 26), "äbc");
}

#[test]
fn caesar_is_undone_by_the_opposite_shift() {
    let text = "The quick brown fox, 123!";
    for by in [-127i8, -27, -1, 0, 1, 13, 25, 127] {
        assert_eq!(caesar(&caesar(text, by), by.wrapping_neg()), text, "by {}", by);
    }
}

#[test]
fn room_chars() {
    assert!(is_room_char('a'));
    assert!(is_room_char('Z'));
    assert!(is_room_char('7'));
    assert!(is_room_char('_'));
    assert!(!is_room_char('-'));
    assert!(!is_room_char('é'));
}

#[test]
fn text_line_edits_multibyte_text() {
    let mut line = TextLineState::default();
    for c in "añb".chars() {
        assert_eq!(line.handle_key(KeyCode::Char(c)), Some(TextLineReaction::Handled));
    }
    assert_eq!(line.content(), "añb");
    assert_eq!(line.handle_key(KeyCode::Left), Some(TextLineReaction::Handled));
    assert_eq!(line.handle_key(KeyCode::Backspace), Some(TextLineReaction::Handled));
    assert_eq!(line.content(), "ab");
    assert_eq!(line.handle_key(KeyCode::Char('ü')), Some(TextLineReaction::Handled));
    assert_eq!(line.content(), "aüb");
    assert_eq!(line.handle_key(KeyCode::Home), Some(TextLineReaction::Handled));
    assert_eq!(line.handle_key(KeyCode::Delete), Some(TextLineReaction::Handled));
    assert_eq!(line.content(), "üb");
    assert_eq!(line.handle_key(KeyCode::Backspace), None);
    assert_eq!(line.handle_key(KeyCode::End), Some(TextLineReaction::Handled));
    assert_eq!(line.handle_key(KeyCode::Delete), None);
    assert_eq!(line.handle_key(KeyCode::Esc), Some(TextLineReaction::Close));
    assert_eq!(line.handle_key(KeyCode::Enter), None);
}

#[test]
fn text_line_cursor_position_goes_by_width() {
    let mut line = TextLineState::default();
    for c in "日本x".chars() {
        line.handle_key(KeyCode::Char(c));
    }
    line.update_cursor_pos(3, 1, 20);
    assert_eq!(line.last_cursor_pos(), (8, 1));
    line.update_cursor_pos(3, 1, 4);
    assert_eq!(line.last_cursor_pos(), (7, 1));
    line.handle_key(KeyCode::Home);
    line.update_cursor_pos(3, 1, 20);
    assert_eq!(line.last_cursor_pos(), (3, 1));
}

#[test]
fn pane_width_follows_dragging() {
    let mut pane = PaneInfo::default();
    assert_eq!(pane.width(), 24);
    pane.drag_to(30);
    assert_eq!(pane.width(), 24);
    pane.drag(true);
    pane.drag_to(30);
    assert_eq!(pane.width(), 30);
    pane.restrict_width(20);
    assert_eq!(pane.width(), 20);
    pane.restrict_width(40);
    assert_eq!(pane.width(), 20);
    pane.hover(true);
    assert!(pane.hovering());
}

#[test]
fn me_messages() {
    assert_eq!(as_me("/me waves"), Some(" waves"));
    assert_eq!(as_me("/me"), Some(""));
    assert_eq!(as_me("/m"), None);
    assert_eq!(as_me("hi /me"), None);
}

#[test]
fn time_zone_choices() {
    let s = |x: &str| Some(String::from(x));
    assert!(matches!(time_zone_choice(None, None), TzChoice::System));
    assert!(matches!(time_zone_choice(None, s("localtime")), TzChoice::System));
    assert!(matches!(time_zone_choice(s(":UTC"), s("localtime")), TzChoice::Get(n) if n == "UTC"));
    assert!(matches!(time_zone_choice(None, s("Europe/Berlin")), TzChoice::PosixOrGet(n) if n == "Europe/Berlin"));
    assert!(matches!(time_zone_choice(s("localtime"), s(":UTC")), TzChoice::System));
    let posix = TzChoice::PosixOrGet(String::from("EST5EDT,M3.2.0,M11.1.0"));
    assert!(posix_zone_of(&posix).is_some());
    assert!(posix_zone_of(&TzChoice::PosixOrGet(String::from("Europe/Berlin"))).is_none());
    assert!(posix_zone_of(&TzChoice::Get(String::from("EST5EDT"))).is_none());
}
