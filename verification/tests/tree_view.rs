use cove::chat::{ChatState, Reaction};
use cove::cursor::Cursor;
use cove::logger::{Level, Logger, LogMsg};
use cove::keys::KeyMatches;
use cove::tree_view::{handle_editor_input_event, movement_of, Movement, TreeReaction, TreeViewState};

fn log_of(n: i128) -> Logger {
    let mut log = Logger::new();
    for i in 0..n {
        assert!(log.log(Level::Info, "cove", "x", i));
    }
    log
}

#[test]
fn first_matching_binding_wins() {
    let mut keys = KeyMatches::default();
    assert_eq!(movement_of(&keys), None);
    keys.scroll_center_cursor = true;
    assert_eq!(movement_of(&keys), Some(Movement::CenterCursor));
    keys.to_root = true;
    assert_eq!(movement_of(&keys), Some(Movement::ToRoot));
    keys.cursor_up = true;
    assert_eq!(movement_of(&keys), Some(Movement::Up));
}

#[test]
fn scrolling_amounts() {
    let view = TreeViewState::new(log_of(2));
    let mut cursor = Cursor::Bottom;
    let cases: Vec<(fn(&mut KeyMatches), i32)> = vec![
        (|k| k.scroll_up_line = true, 1),
        (|k| k.scroll_down_line = true, -1),
        (|k| k.scroll_up_half = true, 10),
        (|k| k.scroll_down_half = true, -10),
        (|k| k.scroll_up_full = true, 20),
        (|k| k.scroll_down_full = true, -20),
    ];
    for (set, delta) in cases {
        let mut keys = KeyMatches::default();
        set(&mut keys);
        // A frame of 24 lines leaves 21 for the chat.
        match view.handle_movement_input_event::<LogMsg>(&keys, 24, &mut cursor).unwrap() {
            TreeReaction::ScrollBy(d) => assert_eq!(d, delta),
            _ => panic!("expected scrolling"),
        }
    }
    let mut keys = KeyMatches::default();
    keys.scroll_up_full = true;
    // A frame of 3 lines leaves none for the chat: a page is -1 lines.
    match view.handle_movement_input_event::<LogMsg>(&keys, 3, &mut cursor).unwrap() {
        TreeReaction::ScrollBy(d) => assert_eq!(d, -1),
        _ => panic!("expected scrolling"),
    }
    let mut keys = KeyMatches::default();
    keys.scroll_center_cursor = true;
    assert!(matches!(
        view.handle_movement_input_event::<LogMsg>(&keys, 24, &mut cursor).unwrap(),
        TreeReaction::CenterCursor
    ));
    assert_eq!(cursor, Cursor::Bottom);
}

#[test]
fn movement_keys_move_the_cursor() {
    let view = TreeViewState::new(log_of(3));
    let mut cursor = Cursor::Bottom;
    let mut keys = KeyMatches::default();
    keys.cursor_up = true;
    assert!(matches!(
        view.handle_movement_input_event::<LogMsg>(&keys, 10, &mut cursor).unwrap(),
        TreeReaction::Handled
    ));
    assert_eq!(cursor, Cursor::Msg(2));
    let mut keys = KeyMatches::default();
    keys.cursor_to_top = true;
    view.handle_movement_input_event::<LogMsg>(&keys, 10, &mut cursor).unwrap();
    assert_eq!(cursor, Cursor::Msg(0));
    let keys = KeyMatches::default();
    assert!(matches!(
        view.handle_movement_input_event::<LogMsg>(&keys, 10, &mut cursor).unwrap(),
        TreeReaction::NotHandled
    ));
    assert_eq!(cursor, Cursor::Msg(0));
}

#[test]
fn folding_toggles() {
    let mut view = TreeViewState::new(log_of(1));
    let mut keys = KeyMatches::default();
    keys.fold_tree = true;
    assert!(view.handle_action_input_event::<LogMsg>(&keys, Some(0)).unwrap());
    assert!(view.is_folded(0));
    assert!(view.handle_action_input_event::<LogMsg>(&keys, Some(0)).unwrap());
    assert!(!view.is_folded(0));
    assert!(view.handle_action_input_event::<LogMsg>(&keys, None).unwrap());
    let mut keys = KeyMatches::default();
    keys.mark_older_seen = true;
    assert!(view.handle_action_input_event::<LogMsg>(&keys, None).unwrap());
    assert!(!view.handle_action_input_event::<LogMsg>(&KeyMatches::default(), None).unwrap());
}

#[test]
fn starting_to_compose() {
    let view = TreeViewState::new(log_of(2));
    let mut cursor = Cursor::Msg(1);
    let mut keys = KeyMatches::default();
    keys.reply = true;
    assert!(view.handle_edit_initiating_input_event::<LogMsg>(&keys, &mut cursor, Some(1)).unwrap());
    assert_eq!(cursor, Cursor::Editor { coming_from: Some(1), parent: Some(1) });
    let mut cursor = Cursor::Bottom;
    let mut keys = KeyMatches::default();
    keys.new_thread = true;
    assert!(view.handle_edit_initiating_input_event::<LogMsg>(&keys, &mut cursor, None).unwrap());
    assert_eq!(cursor, Cursor::Editor { coming_from: None, parent: None });
}

#[test]
fn editor_keys() {
    let mut keys = KeyMatches::default();
    keys.abort = true;
    let mut cursor = Cursor::Editor { coming_from: Some(4), parent: Some(2) };
    assert!(matches!(
        handle_editor_input_event(&keys, &mut cursor, "text", Some(4), Some(2)),
        TreeReaction::Handled
    ));
    assert_eq!(cursor, Cursor::Msg(4));

    let mut keys = KeyMatches::default();
    keys.confirm = true;
    let mut cursor = Cursor::Editor { coming_from: None, parent: Some(2) };
    assert!(matches!(
        handle_editor_input_event(&keys, &mut cursor, "  \n ", None, Some(2)),
        TreeReaction::Handled
    ));
    assert_eq!(cursor, Cursor::Editor { coming_from: None, parent: Some(2) });
    match handle_editor_input_event(&keys, &mut cursor, " hello ", None, Some(2)) {
        TreeReaction::Composed { parent, content } => {
            assert_eq!(parent, Some(2));
            assert_eq!(content, " hello ");
        }
        _ => panic!("expected a composed message"),
    }
    assert_eq!(cursor, Cursor::Pseudo { coming_from: None, parent: Some(2) });

    let keys = KeyMatches::default();
    assert!(matches!(
        handle_editor_input_event(&keys, &mut cursor, "x", None, None),
        TreeReaction::ToEditor
    ));
}

#[test]
fn chat_caesar_and_emoji() {
    let mut chat = ChatState::new(log_of(1));
    assert!(!chat.nick_emoji());
    let mut keys = KeyMatches::default();
    keys.decrease_caesar = true;
    assert!(matches!(chat.finish_reaction(&keys, Reaction::NotHandled), Reaction::Handled));
    // Rotating back from 0 wraps around to 25.
    match chat.finish_reaction(&keys, Reaction::Composed { parent: None, content: "abc".to_string() }) {
        Reaction::Composed { content, .. } => assert_eq!(content, "zab"),
        _ => panic!("expected a composed message"),
    }
    let mut keys = KeyMatches::default();
    keys.increase_caesar = true;
    chat.finish_reaction(&keys, Reaction::NotHandled);
    match chat.finish_reaction(&keys, Reaction::Composed { parent: Some(3), content: "abc".to_string() }) {
        Reaction::Composed { parent, content } => {
            assert_eq!(parent, Some(3));
            assert_eq!(content, "abc");
        }
        _ => panic!("expected a composed message"),
    }
    let mut keys = KeyMatches::default();
    keys.toggle_nick_emoji = true;
    assert!(chat.finish_reaction(&keys, Reaction::NotHandled).handled());
    assert!(chat.nick_emoji());
    assert!(!chat.finish_reaction(&KeyMatches::default(), Reaction::NotHandled).handled());
}

#[test]
fn chat_sending() {
    let mut chat = ChatState::new(log_of(2));
    assert_eq!(chat.cursor(), None);
    let mut keys = KeyMatches::default();
    keys.new_thread = true;
    assert!(matches!(chat.handle_input_event::<LogMsg>(&keys, 24, "", true).unwrap(), TreeReaction::Handled));
    let mut keys = KeyMatches::default();
    keys.confirm = true;
    match chat.handle_input_event::<LogMsg>(&keys, 24, "hi", true).unwrap() {
        TreeReaction::Composed { parent, content } => {
            assert_eq!(parent, None);
            assert_eq!(content, "hi");
        }
        _ => panic!("expected a composed message"),
    }
    assert!(chat.send_successful(7));
    assert_eq!(chat.cursor(), Some(&7));
    assert!(!chat.send_successful(8));

    let mut keys = KeyMatches::default();
    keys.reply = true;
    chat.handle_input_event::<LogMsg>(&keys, 24, "", true).unwrap();
    let mut keys = KeyMatches::default();
    keys.confirm = true;
    chat.handle_input_event::<LogMsg>(&keys, 24, "again", true).unwrap();
    chat.send_failed();
    assert_eq!(chat.cursor(), Some(&7));

    // Without composing, reply keys are not handled.
    let mut keys = KeyMatches::default();
    keys.reply = true;
    assert!(matches!(chat.handle_input_event::<LogMsg>(&keys, 24, "", false).unwrap(), TreeReaction::NotHandled));
}
