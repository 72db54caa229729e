use std::collections::HashSet;

use cove::cursor::Cursor;
use cove::logger::{Level, Logger};
use cove::small_message::SmallMessage;
use cove::store::{Path, Tree};

fn msg(id: u64, parent: Option<u64>) -> SmallMessage {
    SmallMessage {
        id,
        parent,
        time: 0,
        user_id: "agent:a".to_string(),
        nick: "a".to_string(),
        content: "hi".to_string(),
        seen: true,
    }
}

/// 1
/// ├─ 2
/// └─ 3
///    └─ 4
fn tree() -> Tree<SmallMessage> {
    Tree::new(1, vec![msg(3, Some(1)), msg(1, None), msg(4, Some(3)), msg(2, Some(1))])
}

#[test]
fn tree_structure() {
    let t = tree();
    assert_eq!(t.len(), 4);
    assert_eq!(*t.root(), 1);
    assert_eq!(t.children(&1).unwrap(), &[2, 3]);
    assert_eq!(t.children(&3).unwrap(), &[4]);
    assert_eq!(t.children(&4).unwrap().len(), 0);
    assert!(t.children(&9).is_none());
    assert_eq!(t.parent(&4), Some(3));
    assert_eq!(t.parent(&1), None);
    assert_eq!(t.siblings(&2).unwrap(), &[2, 3]);
    assert!(t.siblings(&1).is_none());
    assert_eq!(t.prev_sibling(&3), Some(2));
    assert_eq!(t.prev_sibling(&2), None);
    assert_eq!(t.next_sibling(&2), Some(3));
    assert_eq!(t.next_sibling(&3), None);
    assert_eq!(t.next_sibling(&1), None);
    assert_eq!(t.msg(&4).unwrap().parent, Some(3));
    assert!(t.msg(&5).is_none());
}

#[test]
fn later_duplicates_win() {
    let mut changed = msg(2, Some(1));
    changed.content = "edited".to_string();
    let t = Tree::new(1, vec![msg(1, None), msg(2, Some(1)), changed]);
    assert_eq!(t.len(), 2);
    assert_eq!(t.msg(&2).unwrap().content, "edited");
}

#[test]
fn children_of_missing_parent() {
    // A reply whose parent is not in the tree still lists it as a child.
    let t = Tree::new(7, vec![msg(8, Some(7))]);
    assert_eq!(t.children(&7).unwrap(), &[8]);
    assert_eq!(t.siblings(&8).unwrap(), &[8]);
}

#[test]
fn paths() {
    let p = Path::new(vec![1, 3, 4]);
    assert_eq!(*p.first(), 1);
    assert_eq!(p.parent_segments(), &[1, 3]);
    assert_eq!(p.into_first(), 1);
}

#[test]
fn reply_parents_in_log() {
    let mut log = Logger::new();
    assert!(log.log(Level::Info, "cove", "a", 0));
    assert!(log.log(Level::Info, "cove", "b", 1));
    // Log messages are roots: replies to them stay at the message.
    assert_eq!(Cursor::Msg(1).parent_for_normal_tree_reply(&log).unwrap(), Some(Some(1)));
    assert_eq!(Cursor::Msg(1).parent_for_alternate_tree_reply(&log).unwrap(), Some(Some(1)));
    assert_eq!(Cursor::<u64>::Bottom.parent_for_normal_tree_reply(&log).unwrap(), Some(None));
    let editing = Cursor::Editor { coming_from: None, parent: None };
    assert_eq!(editing.parent_for_normal_tree_reply(&log).unwrap(), None);
}

fn log_of(n: i128) -> Logger {
    let mut log = Logger::new();
    for i in 0..n {
        assert!(log.log(Level::Info, "cove", "x", i));
    }
    log
}

#[test]
fn up_and_down_in_log() {
    let log = log_of(3);
    let folded = HashSet::new();
    let mut cursor = Cursor::Bottom;
    cursor.move_up_in_tree(&log, &folded).unwrap();
    assert_eq!(cursor, Cursor::Msg(2));
    cursor.move_up_in_tree(&log, &folded).unwrap();
    assert_eq!(cursor, Cursor::Msg(1));
    cursor.move_up_in_tree(&log, &folded).unwrap();
    assert_eq!(cursor, Cursor::Msg(0));
    cursor.move_up_in_tree(&log, &folded).unwrap();
    assert_eq!(cursor, Cursor::Msg(0));
    cursor.move_down_in_tree(&log, &folded).unwrap();
    assert_eq!(cursor, Cursor::Msg(1));
    cursor.move_down_in_tree(&log, &folded).unwrap();
    cursor.move_down_in_tree(&log, &folded).unwrap();
    assert_eq!(cursor, Cursor::Bottom);
}

#[test]
fn pending_message_moves() {
    let log = log_of(2);
    let folded = HashSet::new();
    let mut cursor = Cursor::Pseudo { coming_from: None, parent: None };
    cursor.move_up_in_tree(&log, &folded).unwrap();
    assert_eq!(cursor, Cursor::Msg(1));
    let mut cursor = Cursor::Pseudo { coming_from: Some(0), parent: Some(0) };
    cursor.move_down_in_tree(&log, &folded).unwrap();
    assert_eq!(cursor, Cursor::Msg(1));
    let mut cursor = Cursor::Pseudo { coming_from: None, parent: None };
    cursor.move_down_in_tree(&log, &folded).unwrap();
    assert_eq!(cursor, Cursor::Bottom);
    let mut cursor = Cursor::Editor { coming_from: None, parent: None };
    cursor.move_up_in_tree(&log, &folded).unwrap();
    assert_eq!(cursor, Cursor::Editor { coming_from: None, parent: None });
}

#[test]
fn siblings_in_log() {
    let log = log_of(3);
    let mut cursor = Cursor::Msg(0);
    cursor.move_to_next_sibling(&log).unwrap();
    assert_eq!(cursor, Cursor::Msg(1));
    cursor.move_to_prev_sibling(&log).unwrap();
    assert_eq!(cursor, Cursor::Msg(0));
    cursor.move_to_prev_sibling(&log).unwrap();
    assert_eq!(cursor, Cursor::Msg(0));
    let mut cursor = Cursor::Msg(2);
    cursor.move_to_next_sibling(&log).unwrap();
    assert_eq!(cursor, Cursor::Bottom);
    cursor.move_to_prev_sibling(&log).unwrap();
    assert_eq!(cursor, Cursor::Msg(2));
}

#[test]
fn parents_and_roots_in_log() {
    let log = log_of(3);
    let mut cursor = Cursor::Msg(2);
    cursor.move_to_parent(&log).unwrap();
    assert_eq!(cursor, Cursor::Msg(2));
    cursor.move_to_root(&log).unwrap();
    assert_eq!(cursor, Cursor::Msg(2));
    let mut cursor = Cursor::Editor { coming_from: None, parent: Some(1) };
    cursor.move_to_parent(&log).unwrap();
    assert_eq!(cursor, Cursor::Msg(1));
    let mut cursor = Cursor::Pseudo { coming_from: None, parent: Some(1) };
    cursor.move_to_root(&log).unwrap();
    assert_eq!(cursor, Cursor::Msg(1));
}

#[test]
fn top_older_newer_in_log() {
    let log = log_of(3);
    let mut cursor = Cursor::Bottom;
    cursor.move_to_top(&log).unwrap();
    assert_eq!(cursor, Cursor::Msg(0));
    cursor.move_to_newer_msg(&log).unwrap();
    assert_eq!(cursor, Cursor::Msg(1));
    cursor.move_to_older_msg(&log).unwrap();
    assert_eq!(cursor, Cursor::Msg(0));
    cursor.move_to_older_msg(&log).unwrap();
    assert_eq!(cursor, Cursor::Msg(0));
    let mut cursor = Cursor::Msg(2);
    cursor.move_to_newer_msg(&log).unwrap();
    assert_eq!(cursor, Cursor::Bottom);
    cursor.move_to_older_msg(&log).unwrap();
    assert_eq!(cursor, Cursor::Msg(2));
    // Everything in the log counts as seen.
    cursor.move_to_older_unseen_msg(&log).unwrap();
    assert_eq!(cursor, Cursor::Msg(2));
    cursor.move_to_newer_unseen_msg(&log).unwrap();
    assert_eq!(cursor, Cursor::Bottom);
    let mut cursor = Cursor::Msg(1);
    cursor.move_to_bottom();
    assert_eq!(cursor, Cursor::Bottom);
    let empty = Logger::new();
    let mut cursor = Cursor::Bottom;
    cursor.move_to_top(&empty).unwrap();
    assert_eq!(cursor, Cursor::Bottom);
}
