use std::collections::HashSet;

use cove::blocks::Range;
use cove::cursor::{Cursor, TreeBlockId};
use cove::logger::{Level, LogMsg, Logger};
use cove::tree_layout::BlockKind;
use cove::tree_renderer::{predraw_blocks, Predraw, TreeContext, TreeRenderer};
use cove::tree_view::TreeViewState;

/// Messages take two lines, placeholders and replies being sent one, an
/// editor three with its cursor on the middle line, and markers none.
struct Lines;

impl Predraw<LogMsg, String> for Lines {
    fn predraw(&mut self, kind: &BlockKind, msg: Option<&LogMsg>) -> (String, u16, u16) {
        match kind {
            BlockKind::Message { .. } => (msg.map(|m| m.content.clone()).unwrap_or_default(), 2, 0),
            BlockKind::Placeholder { .. } => (String::from("?"), 1, 0),
            BlockKind::Editor { .. } => (String::from("editor"), 3, 1),
            BlockKind::Pseudo { .. } => (String::from("sending"), 1, 0),
            BlockKind::Empty => (String::new(), 0, 0),
        }
    }
}

/// Draws every block with the given height.
struct Tall(u16);

impl Predraw<LogMsg, ()> for Tall {
    fn predraw(&mut self, _kind: &BlockKind, _msg: Option<&LogMsg>) -> ((), u16, u16) {
        ((), self.0, 0)
    }
}

fn log_of(n: usize) -> Logger {
    let mut log = Logger::new();
    for i in 0..n {
        assert!(log.log(Level::Info, "cove", &format!("m{i}"), i as i128));
    }
    log
}

fn context(height: u16, last_cursor: Cursor<u64>, last_cursor_top: i32) -> TreeContext {
    TreeContext { height, focused: true, last_cursor, last_cursor_top }
}

fn ids(blocks: &[(Range<i32>, cove::blocks::Block<TreeBlockId<u64>, String>)]) -> Vec<(i32, i32, String)> {
    blocks
        .iter()
        .map(|(range, block)| {
            let id = match block.id() {
                TreeBlockId::Bottom => String::from("bottom"),
                TreeBlockId::Msg(k) => format!("msg {k}"),
                TreeBlockId::After(k) => format!("after {k}"),
            };
            (range.top, range.bottom, id)
        })
        .collect()
}

#[test]
fn bottom_cursor_fills_screen_from_the_newest_messages() {
    let log = log_of(10);
    let mut folded = HashSet::new();
    let cursor = Cursor::Bottom;
    let mut renderer = TreeRenderer::new(context(6, Cursor::Bottom, 0));
    renderer.prepare_blocks_for_drawing(&log, &mut folded, &cursor, &mut Lines).unwrap();
    let (last, top, visible) = renderer.update_render_info(&cursor);
    assert_eq!(last, Cursor::Bottom);
    assert_eq!(top, 6);
    assert_eq!(visible, vec![7, 8, 9]);
    let shown = ids(&renderer.into_visible_blocks());
    assert_eq!(
        shown,
        vec![
            (0, 2, String::from("msg 7")),
            (2, 2, String::from("after 7")),
            (2, 4, String::from("msg 8")),
            (4, 4, String::from("after 8")),
            (4, 6, String::from("msg 9")),
            (6, 6, String::from("after 9")),
            (6, 6, String::from("bottom")),
        ]
    );
}

#[test]
fn scrolling_up_moves_the_cursor_onto_the_screen() {
    let log = log_of(10);
    let mut folded = HashSet::new();
    let mut cursor = Cursor::Bottom;
    let mut renderer = TreeRenderer::new(context(6, Cursor::Bottom, 0));
    renderer.prepare_blocks_for_drawing(&log, &mut folded, &cursor, &mut Lines).unwrap();
    renderer.scroll_by(2, &log, &folded, &mut cursor, &mut Lines).unwrap();
    assert_eq!(cursor, Cursor::Msg(7));
    let (last, top, visible) = renderer.update_render_info(&cursor);
    assert_eq!(last, Cursor::Msg(7));
    assert_eq!(top, 2);
    assert_eq!(visible, vec![6, 7, 8]);
}

#[test]
fn an_empty_chat_sits_at_the_bottom_of_the_screen() {
    let log = Logger::new();
    let mut folded = HashSet::new();
    let cursor = Cursor::Bottom;
    let mut renderer = TreeRenderer::new(context(6, Cursor::Bottom, 0));
    renderer.prepare_blocks_for_drawing(&log, &mut folded, &cursor, &mut Lines).unwrap();
    let (_, top, visible) = renderer.update_render_info(&cursor);
    assert_eq!(top, 6);
    assert!(visible.is_empty());
}

#[test]
fn the_cursor_returns_to_where_it_was_drawn() {
    let log = log_of(10);
    let mut folded = HashSet::new();
    let cursor = Cursor::Msg(5);
    let mut renderer = TreeRenderer::new(context(10, Cursor::Msg(5), 4));
    renderer.prepare_blocks_for_drawing(&log, &mut folded, &cursor, &mut Lines).unwrap();
    let (_, top, visible) = renderer.update_render_info(&cursor);
    assert_eq!(top, 4);
    assert_eq!(visible, vec![3, 4, 5, 6, 7]);
}

#[test]
fn centering_puts_the_cursor_in_the_middle() {
    let log = log_of(10);
    let mut folded = HashSet::new();
    let cursor = Cursor::Msg(5);
    let mut renderer = TreeRenderer::new(context(10, Cursor::Msg(5), 0));
    renderer.prepare_blocks_for_drawing(&log, &mut folded, &cursor, &mut Lines).unwrap();
    renderer.center_cursor(&cursor);
    let (_, top, _) = renderer.update_render_info(&cursor);
    assert_eq!(top, 4);
}

#[test]
fn a_new_thread_editor_is_focused_on_its_cursor_line() {
    let layout = vec![(TreeBlockId::Bottom, BlockKind::Editor { indent: 0 })];
    let blocks = predraw_blocks::<LogMsg, String, Lines>(&layout, None, &mut Lines).unwrap();
    assert_eq!(blocks.range(), Range::new(0, 3));
    let block = blocks.get(0);
    assert!(!block.can_be_cursor());
    assert_eq!(block.focus(Range::new(10, 13)), Range::new(11, 12));
}

#[test]
fn layouts_too_tall_are_not_drawn() {
    let layout: Vec<(TreeBlockId<u64>, BlockKind)> =
        (0..5000).map(|_| (TreeBlockId::Bottom, BlockKind::Empty)).collect();
    assert!(predraw_blocks::<LogMsg, (), Tall>(&layout, None, &mut Tall(65535)).is_none());
    assert!(predraw_blocks::<LogMsg, (), Tall>(&layout, None, &mut Tall(2)).is_some());
}

#[test]
fn the_view_remembers_its_drawing_for_scrolling() {
    let mut view = TreeViewState::new(log_of(10));
    let mut cursor = Cursor::Bottom;
    let shown = view.draw(&cursor, &mut Lines, 6, String::from("me"), true).unwrap();
    assert_eq!(shown.len(), 7);
    view.scroll_by(&mut cursor, &mut Lines, 6, 2).unwrap();
    assert_eq!(cursor, Cursor::Msg(7));
    view.center_cursor(&cursor, &mut Lines, 6).unwrap();
    let shown = ids(&view.draw(&cursor, &mut Lines, 6, String::from("me"), true).unwrap());
    assert!(shown.contains(&(2, 4, String::from("msg 7"))));
}

#[test]
fn any_few_enough_blocks_are_drawn_however_tall() {
    let layout: Vec<(TreeBlockId<u64>, BlockKind)> =
        (0..4096).map(|_| (TreeBlockId::Bottom, BlockKind::Empty)).collect();
    let blocks = predraw_blocks::<LogMsg, (), Tall>(&layout, None, &mut Tall(65535)).unwrap();
    assert_eq!(blocks.range(), Range::new(0, 4096 * 65535));
}
