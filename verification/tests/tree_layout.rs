use std::collections::HashSet;

use cove::cursor::{Cursor, TreeBlockId};
use cove::small_message::SmallMessage;
use cove::store::Tree;
use cove::tree_layout::{layout_bottom, layout_tree, BlockKind};

fn msg(id: u64, parent: Option<u64>) -> SmallMessage {
    SmallMessage {
        id,
        parent,
        time: 0,
        user_id: String::from("agent:x"),
        nick: String::from("x"),
        content: String::from("hello"),
        seen: true,
    }
}

fn tree() -> Tree<SmallMessage> {
    Tree::new(1, vec![msg(1, None), msg(4, Some(1)), msg(3, Some(2)), msg(2, Some(1))])
}

fn message(indent: usize, highlighted: bool, folded_info: Option<usize>) -> BlockKind {
    BlockKind::Message { indent, highlighted, folded_info }
}

#[test]
fn folded_messages_hide_their_replies() {
    let folded: HashSet<u64> = [2].into_iter().collect();
    let blocks = layout_tree(&tree(), &folded, &Cursor::Msg(4), true);
    assert_eq!(
        blocks,
        vec![
            (TreeBlockId::Msg(1), message(0, false, None)),
            (TreeBlockId::Msg(2), message(1, false, Some(1))),
            (TreeBlockId::After(2), BlockKind::Empty),
            (TreeBlockId::Msg(4), message(1, true, None)),
            (TreeBlockId::After(4), BlockKind::Empty),
            (TreeBlockId::After(1), BlockKind::Empty),
        ]
    );
}

#[test]
fn unfolded_tree_with_editor() {
    let folded = HashSet::new();
    let cursor = Cursor::Editor { coming_from: Some(3), parent: Some(3) };
    let blocks = layout_tree(&tree(), &folded, &cursor, false);
    assert_eq!(
        blocks,
        vec![
            (TreeBlockId::Msg(1), message(0, false, None)),
            (TreeBlockId::Msg(2), message(1, false, None)),
            (TreeBlockId::Msg(3), message(2, false, None)),
            (TreeBlockId::After(3), BlockKind::Editor { indent: 3 }),
            (TreeBlockId::After(2), BlockKind::Empty),
            (TreeBlockId::Msg(4), message(1, false, None)),
            (TreeBlockId::After(4), BlockKind::Empty),
            (TreeBlockId::After(1), BlockKind::Empty),
        ]
    );
    // Unfocused: the cursor is not highlighted.
    let blocks = layout_tree(&tree(), &folded, &Cursor::Msg(1), false);
    assert_eq!(blocks[0], (TreeBlockId::Msg(1), message(0, false, None)));
}

#[test]
fn missing_root_and_bottom() {
    let t = Tree::new(7, vec![msg(9, Some(7))]);
    let folded: HashSet<u64> = [7].into_iter().collect();
    let blocks = layout_tree(&t, &folded, &Cursor::Pseudo { coming_from: None, parent: Some(7) }, true);
    assert_eq!(
        blocks,
        vec![
            (TreeBlockId::Msg(7), BlockKind::Placeholder { indent: 0, highlighted: false, folded_info: Some(1) }),
            (TreeBlockId::After(7), BlockKind::Pseudo { indent: 1 }),
        ]
    );
    assert_eq!(
        layout_bottom(&Cursor::Pseudo { coming_from: None, parent: None }),
        (TreeBlockId::Bottom, BlockKind::Pseudo { indent: 0 })
    );
    assert_eq!(
        layout_bottom(&Cursor::Editor { coming_from: Some(1), parent: None }),
        (TreeBlockId::Bottom, BlockKind::Editor { indent: 0 })
    );
    assert_eq!(layout_bottom(&Cursor::Bottom), (TreeBlockId::Bottom, BlockKind::Empty));
}
