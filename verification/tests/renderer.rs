use cove::blocks::{Block, Blocks, Range};
use cove::cursor::TreeBlockId;
use cove::renderer::{
    find_cursor_starting_at, scroll_so_block_focus_fully_overlaps_scroll_area,
    scroll_so_block_focus_overlaps_scroll_area, scroll_so_block_is_centered,
    scroll_to_set_block_top,
};

type Id = TreeBlockId<u64>;

/// A: message 1 (3 lines), the zero-height block after it, C: message 2 (2
/// lines), D: message 3 (5 lines), and the bottom.
fn stack(top: i32) -> Blocks<Id, ()> {
    let mut b = Blocks::new(top);
    b.push_bottom(Block::new(TreeBlockId::Msg(1), (), 3, true));
    b.push_bottom(Block::new(TreeBlockId::After(1), (), 0, false));
    b.push_bottom(Block::new(TreeBlockId::Msg(2), (), 2, true));
    b.push_bottom(Block::new(TreeBlockId::Msg(3), (), 5, true));
    b.push_bottom(Block::new(TreeBlockId::Bottom, (), 0, false));
    b
}

fn top_of(b: &Blocks<Id, ()>, id: Id) -> i32 {
    b.find_block(&id).unwrap().0.top
}

#[test]
fn set_block_top_moves_everything() {
    let mut b = stack(0);
    assert!(scroll_to_set_block_top(&mut b, &TreeBlockId::Msg(2), 10));
    assert_eq!(top_of(&b, TreeBlockId::Msg(2)), 10);
    assert_eq!(b.range(), Range::new(7, 17));
    assert!(!scroll_to_set_block_top(&mut b, &TreeBlockId::Msg(9), 0));
    assert_eq!(b.range(), Range::new(7, 17));
}

#[test]
fn centering_goes_by_focus_height() {
    let mut b = stack(0);
    scroll_so_block_is_centered(&mut b, &TreeBlockId::Msg(2), 10);
    assert_eq!(top_of(&b, TreeBlockId::Msg(2)), 4);
    // A focus higher than the screen: (10 - 5) / 2 rounds toward zero.
    let mut b = stack(0);
    scroll_so_block_is_centered(&mut b, &TreeBlockId::Msg(3), 3);
    assert_eq!(top_of(&b, TreeBlockId::Msg(3)), -1);
}

#[test]
fn overlapping_the_scroll_area() {
    // Scroll area of a 10-line screen with a scrolloff of 2: lines 2..8.
    let mut b = stack(15);
    assert_eq!(top_of(&b, TreeBlockId::Msg(2)), 18);
    assert!(scroll_so_block_focus_overlaps_scroll_area(&mut b, &TreeBlockId::Msg(2), 10, 2));
    assert_eq!(top_of(&b, TreeBlockId::Msg(2)), 7);
    let mut b = stack(15);
    assert!(scroll_so_block_focus_fully_overlaps_scroll_area(&mut b, &TreeBlockId::Msg(2), 10, 2));
    assert_eq!(top_of(&b, TreeBlockId::Msg(2)), 6);
    let mut b = stack(15);
    assert!(!scroll_so_block_focus_overlaps_scroll_area(&mut b, &TreeBlockId::Msg(7), 10, 2));
    assert_eq!(b.range(), Range::new(15, 25));
    // Already within the area: nothing moves.
    let mut b = stack(0);
    assert!(scroll_so_block_focus_fully_overlaps_scroll_area(&mut b, &TreeBlockId::Msg(2), 10, 2));
    assert_eq!(b.range(), Range::new(0, 10));
}

#[test]
fn cursor_is_found_where_visible() {
    // A: -6..-3, C: -3..-1, D: -1..4, bottom at 4.
    let b = stack(-6);
    assert_eq!(find_cursor_starting_at(&b, &TreeBlockId::Bottom, 10, 2), Some(&TreeBlockId::Bottom));
    assert_eq!(find_cursor_starting_at(&b, &TreeBlockId::Msg(1), 10, 2), Some(&TreeBlockId::Msg(3)));
    assert_eq!(find_cursor_starting_at(&b, &TreeBlockId::Msg(8), 10, 2), None);
    // A: 5..8, C: 8..10, D: 10..15, bottom at 15.
    let b = stack(5);
    assert_eq!(find_cursor_starting_at(&b, &TreeBlockId::Bottom, 10, 2), Some(&TreeBlockId::Msg(1)));
    // Nothing visible that can hold the cursor.
    let b = stack(40);
    assert_eq!(find_cursor_starting_at(&b, &TreeBlockId::Msg(3), 10, 2), None);
}
