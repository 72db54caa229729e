//! Drawing a chat as full message trees: which trees are laid out around the
//! cursor, and how the blocks they become are scrolled so that the cursor
//! stays visible and the screen stays filled.
//!
//! Turning a block into lines of the terminal is left to a [`Predraw`]; the
//! renderer only needs the heights of the blocks it gets back.

use std::collections::HashSet;

use vstd::prelude::*;

use crate::blocks::{
    first_block_with_id, lemma_block_within, lemma_first_block_in, lemma_heights_nonneg, lemma_wf_extent,
    Block, Blocks, Range,
};
use crate::cursor::{root_id_is_above_root_id, Cursor, TreeBlockId};
use crate::renderer::{
    clamp_scroll_biased_downwards, delta_fits, find_cursor_starting_at, focus_range, is_visible_cursor, overlap,
    overlaps,
    scroll_blocks_fully_above_screen, scroll_blocks_fully_below_screen, scroll_so_block_focus_fully_overlaps_scroll_area,
    scroll_so_block_focus_overlaps_scroll_area, scroll_so_block_is_centered, scroll_to_set_block_top,
    spec_full_overlap_delta, spec_overlap_delta, spec_scroll_area, touches, visible_area, within,
};
use crate::store::{parents_precede, Msg, MsgStore, Tree};
use crate::tree_layout::{layout_bottom, layout_tree, BlockKind};

verus! {

broadcast use vstd::std_specs::hash::group_hash_axioms;

/// The most lines the laid out blocks may span. Trees are laid out until the
/// screen is filled; laying out more than this stops, as if the chat ended.
pub const MAX_EXTENT: i32 = 268435456;

/// How far from the top of the screen the last cursor may have been drawn,
/// and how far the chat may be scrolled at once.
pub const MAX_OFFSET: i32 = 268500992;

/// How far from the top of the screen blocks are ever placed.
pub const MAX_POSITION: i32 = 537001984;

/// So many blocks always fit into [`MAX_EXTENT`] lines, however high each
/// is drawn.
pub const MAX_BLOCKS: usize = 4096;

/// Lines kept between the cursor and the top or bottom of the screen where
/// possible.
pub const SCROLLOFF: i32 = 2;

/// Draws the blocks of laid out trees ahead of time, so that their heights
/// are known. For a block of kind `kind` (showing `msg`, for a message that
/// is in the store) it gives the widget, its height in lines, and, for an
/// editor, the line its cursor is on.
pub trait Predraw<M, W> {
    fn predraw(&mut self, kind: &BlockKind, msg: Option<&M>) -> (W, u16, u16);
}

/// What a renderer knows of the chat it draws: the height of the screen,
/// whether the chat has the focus, and where the cursor was when it was last
/// drawn.
pub struct TreeContext {
    pub height: u16,
    pub focused: bool,
    pub last_cursor: Cursor<u64>,
    pub last_cursor_top: i32,
}

/// The focus of the block lies within it, and only a message's block can
/// hold the cursor.
pub open spec fn block_ok<W>(block: Block<TreeBlockId<u64>, W>) -> bool {
    &&& block.focus_ok()
    &&& block.spec_can_be_cursor() ==> block.spec_id() is Msg
}

/// The blocks are sound, span at most [`MAX_EXTENT`] lines placed within
/// [`MAX_POSITION`] lines of the screen, and the focus of each lies within
/// it.
pub open spec fn blocks_ok<W>(b: Blocks<TreeBlockId<u64>, W>) -> bool {
    &&& b.wf()
    &&& b.spec_range().top <= b.spec_range().bottom
    &&& -MAX_POSITION <= b.spec_range().top
    &&& b.spec_range().bottom <= MAX_POSITION
    &&& b.spec_range().bottom - b.spec_range().top <= MAX_EXTENT
    &&& forall|i: int| 0 <= i < b.spec_blocks().len() ==> #[trigger] block_ok(b.spec_blocks()[i])
}

/// Whether a block with this id and kind shows a message (or its
/// placeholder), which the cursor can be on.
pub open spec fn holds_message(id: TreeBlockId<u64>, kind: BlockKind) -> bool {
    (kind is Message || kind is Placeholder) && id is Msg
}

/// The blocks hold, in order, the ids of `layout`, and exactly those showing
/// a message can hold the cursor.
pub open spec fn blocks_follow<W>(b: Blocks<TreeBlockId<u64>, W>, layout: Seq<(TreeBlockId<u64>, BlockKind)>) -> bool {
    &&& b.spec_blocks().len() == layout.len()
    &&& forall|i: int|
        0 <= i < layout.len() ==> (#[trigger] b.spec_blocks()[i]).spec_id() == layout[i].0
            && b.spec_blocks()[i].spec_can_be_cursor() == holds_message(layout[i].0, layout[i].1)
}

fn copy_id(id: &TreeBlockId<u64>) -> (r: TreeBlockId<u64>)
    ensures
        r == *id,
{
    match id {
        TreeBlockId::Bottom => TreeBlockId::Bottom,
        TreeBlockId::Msg(x) => TreeBlockId::Msg(*x),
        TreeBlockId::After(x) => TreeBlockId::After(*x),
    }
}

/// Draws the blocks of `layout` one below the other, starting at line 0;
/// `None` where together they would span more than [`MAX_EXTENT`] lines,
/// which takes more than [`MAX_BLOCKS`] blocks.
/// Message blocks show their message from `tree`. The focus of an editor is
/// the line of its cursor (where that line is part of it).
pub fn predraw_blocks<M: Msg, W, P: Predraw<M, W>>(
    layout: &Vec<(TreeBlockId<u64>, BlockKind)>,
    tree: Option<&Tree<M>>,
    painter: &mut P,
) -> (r: Option<Blocks<TreeBlockId<u64>, W>>)
    ensures
        layout@.len() <= MAX_BLOCKS ==> r is Some,
        r matches Some(b) ==> {
            &&& blocks_ok(b)
            &&& b.spec_range().top == 0
            &&& b.spec_end() == (Range::<bool> { top: false, bottom: false })
            &&& blocks_follow(b, layout@)
        },
{
    let mut blocks: Blocks<TreeBlockId<u64>, W> = Blocks::new(0);
    let mut i: usize = 0;
    while i < layout.len()
        invariant
            i <= layout@.len(),
            blocks.wf(),
            blocks.spec_range().top == 0,
            0 <= blocks.spec_range().bottom <= MAX_EXTENT,
            layout@.len() <= MAX_BLOCKS ==> blocks.spec_range().bottom <= i * 65535,
            blocks.spec_end() == (Range::<bool> { top: false, bottom: false }),
            blocks.spec_blocks().len() == i,
            forall|j: int| 0 <= j < i ==> #[trigger] block_ok(blocks.spec_blocks()[j]),
            forall|j: int|
                0 <= j < i ==> (#[trigger] blocks.spec_blocks()[j]).spec_id() == layout@[j].0
                    && blocks.spec_blocks()[j].spec_can_be_cursor() == holds_message(layout@[j].0, layout@[j].1),
        decreases layout@.len() - i,
    {
        let id = &layout[i].0;
        let kind = &layout[i].1;
        let msg: Option<&M> = match (kind, id, tree) {
            (BlockKind::Message { .. }, TreeBlockId::Msg(x), Some(t)) => t.msg(x),
            _ => None,
        };
        let (widget, height, cursor_line) = painter.predraw(kind, msg);
        let range = blocks.range();
        if range.bottom as i64 + height as i64 > MAX_EXTENT as i64 {
            return None;
        }
        let can_be_cursor = match (kind, id) {
            (BlockKind::Message { .. }, TreeBlockId::Msg(_)) => true,
            (BlockKind::Placeholder { .. }, TreeBlockId::Msg(_)) => true,
            _ => false,
        };
        let mut block = Block::new(copy_id(id), widget, height, can_be_cursor);
        if let BlockKind::Editor { .. } = kind {
            if cursor_line < height {
                block.set_focus(Range::new(cursor_line as i32, cursor_line as i32 + 1));
            }
        }
        let ghost before = blocks.spec_blocks();
        blocks.push_bottom(block);
        assert(forall|j: int| 0 <= j < i ==> blocks.spec_blocks()[j] == before[j]);
        i += 1;
    }
    Some(blocks)
}

/// `after` holds the blocks of `before` at the same lines, with more blocks
/// (possibly none) above them, and the bottom of the chat reached alike.
pub open spec fn grown_above<W>(before: Blocks<TreeBlockId<u64>, W>, after: Blocks<TreeBlockId<u64>, W>) -> bool {
    let n = after.spec_blocks().len() - before.spec_blocks().len();
    &&& n >= 0
    &&& after.spec_blocks().skip(n) == before.spec_blocks()
    &&& after.spec_range().bottom == before.spec_range().bottom
    &&& after.spec_end().bottom == before.spec_end().bottom
    &&& before.spec_end().top ==> after.spec_end().top
}

/// `after` holds the blocks of `before` at the same lines, with more blocks
/// (possibly none) below them, and the top of the chat reached alike.
pub open spec fn grown_below<W>(before: Blocks<TreeBlockId<u64>, W>, after: Blocks<TreeBlockId<u64>, W>) -> bool {
    &&& after.spec_blocks().len() >= before.spec_blocks().len()
    &&& after.spec_blocks().take(before.spec_blocks().len() as int) == before.spec_blocks()
    &&& after.spec_range().top == before.spec_range().top
    &&& after.spec_end().top == before.spec_end().top
    &&& before.spec_end().bottom ==> after.spec_end().bottom
}

/// How far the trees above the blocks reach: the root of the topmost tree
/// laid out, or past every root where only the bottom of the chat is.
pub open spec fn above_measure(top_root_id: Option<u64>) -> int {
    match top_root_id {
        Some(r) => r as int,
        None => u64::MAX + 1,
    }
}

/// How far the trees below the blocks reach: none once the bottom of the
/// chat is laid out.
pub open spec fn below_measure(bottom_root_id: Option<u64>) -> int {
    match bottom_root_id {
        Some(r) => u64::MAX - r + 1,
        None => 0,
    }
}

/// Lays out the trees of a chat around its cursor and scrolls them. Its
/// blocks hold the trees from the one with root `top_root_id` down to the
/// one with root `bottom_root_id` (the bottom of the chat where that is
/// `None`).
pub struct TreeRenderer<W> {
    context: TreeContext,
    top_root_id: Option<u64>,
    bottom_root_id: Option<u64>,
    blocks: Blocks<TreeBlockId<u64>, W>,
}

/// Blocks have always grown from themselves.
pub proof fn lemma_grown_refl<W>(b: Blocks<TreeBlockId<u64>, W>)
    ensures
        grown_above(b, b),
        grown_below(b, b),
{
    assert(b.spec_blocks().skip(0) =~= b.spec_blocks());
    assert(b.spec_blocks().take(b.spec_blocks().len() as int) =~= b.spec_blocks());
}

/// Growing above twice is growing above.
pub proof fn lemma_grown_above_trans<W>(
    a: Blocks<TreeBlockId<u64>, W>,
    b: Blocks<TreeBlockId<u64>, W>,
    c: Blocks<TreeBlockId<u64>, W>,
)
    requires
        grown_above(a, b),
        grown_above(b, c),
    ensures
        grown_above(a, c),
{
    let na = a.spec_blocks().len() as int;
    let nb = b.spec_blocks().len() as int;
    let nc = c.spec_blocks().len() as int;
    assert forall|i: int| 0 <= i < na implies c.spec_blocks().skip(nc - na)[i] == a.spec_blocks()[i] by {
        assert(c.spec_blocks().skip(nc - nb)[nb - na + i] == b.spec_blocks()[nb - na + i]);
        assert(b.spec_blocks().skip(nb - na)[i] == a.spec_blocks()[i]);
    }
    assert(c.spec_blocks().skip(nc - na) =~= a.spec_blocks());
}

/// Growing below twice is growing below.
pub proof fn lemma_grown_below_trans<W>(
    a: Blocks<TreeBlockId<u64>, W>,
    b: Blocks<TreeBlockId<u64>, W>,
    c: Blocks<TreeBlockId<u64>, W>,
)
    requires
        grown_below(a, b),
        grown_below(b, c),
    ensures
        grown_below(a, c),
{
    let na = a.spec_blocks().len() as int;
    let nb = b.spec_blocks().len() as int;
    assert forall|i: int| 0 <= i < na implies c.spec_blocks().take(na)[i] == a.spec_blocks()[i] by {
        assert(c.spec_blocks().take(nb)[i] == b.spec_blocks()[i]);
        assert(b.spec_blocks().take(na)[i] == a.spec_blocks()[i]);
    }
    assert(c.spec_blocks().take(na) =~= a.spec_blocks());
}

/// `after` holds the blocks of `before` at the same lines, with more blocks
/// (possibly none) above and below them.
pub open spec fn grown<W>(before: Blocks<TreeBlockId<u64>, W>, after: Blocks<TreeBlockId<u64>, W>) -> bool {
    exists|mid: Blocks<TreeBlockId<u64>, W>| grown_above(before, mid) && grown_below(mid, after)
}

/// The lines block `i` takes up.
pub open spec fn block_lines<W>(b: Blocks<TreeBlockId<u64>, W>, i: int) -> Range<i32> {
    Range { top: b.block_range(i).0 as i32, bottom: b.block_range(i).1 as i32 }
}

/// The highest line a screen of height `h` reaches while the block taking
/// up `b` is still visible on it.
pub open spec fn screen_top_around(b: Range<i32>, h: u16) -> int {
    let above = Range::<i32> { top: (b.top - h) as i32, bottom: b.top };
    above.top + spec_overlap_delta(b, above)
}

/// The lowest line a screen of height `h` reaches while the block taking up
/// `b` is still visible on it.
pub open spec fn screen_bottom_around(b: Range<i32>, h: u16) -> int {
    let below = Range::<i32> { top: b.bottom, bottom: (b.bottom + h) as i32 };
    below.bottom + spec_overlap_delta(b, below)
}

/// The messages that message `k` replies to, directly or not, as far as
/// `msgs` holds them (replies being younger than what they reply to).
pub open spec fn ancestors<M: Msg>(msgs: Map<u64, M>, k: u64) -> Set<u64>
    decreases k,
{
    if msgs.contains_key(k) {
        match msgs[k].spec_parent() {
            Some(p) => if p < k {
                ancestors(msgs, p).insert(p)
            } else {
                Set::empty()
            },
            None => Set::empty(),
        }
    } else {
        Set::empty()
    }
}

/// Every ancestor of `k` is older than it.
pub proof fn lemma_ancestors_older<M: Msg>(msgs: Map<u64, M>, k: u64)
    ensures
        forall|x: u64| #[trigger] ancestors(msgs, k).contains(x) ==> x < k,
    decreases k,
{
    if msgs.contains_key(k) {
        if let Some(p) = msgs[k].spec_parent() {
            if p < k {
                lemma_ancestors_older(msgs, p);
                assert(ancestors(msgs, k) == ancestors(msgs, p).insert(p));
            }
        }
    }
}

/// The ancestors of the message a block id belongs to (none for the bottom).
pub open spec fn block_ancestors<M: Msg>(msgs: Map<u64, M>, id: TreeBlockId<u64>) -> Set<u64> {
    match id {
        TreeBlockId::Bottom => Set::empty(),
        TreeBlockId::Msg(k) => ancestors(msgs, k),
        TreeBlockId::After(k) => ancestors(msgs, k),
    }
}

/// The block a cursor is drawn at.
pub open spec fn spec_block_id(cursor: Cursor<u64>) -> TreeBlockId<u64> {
    match cursor {
        Cursor::Bottom => TreeBlockId::Bottom,
        Cursor::Msg(id) => TreeBlockId::Msg(id),
        Cursor::Editor { parent: None, .. } => TreeBlockId::Bottom,
        Cursor::Pseudo { parent: None, .. } => TreeBlockId::Bottom,
        Cursor::Editor { parent: Some(id), .. } => TreeBlockId::After(id),
        Cursor::Pseudo { parent: Some(id), .. } => TreeBlockId::After(id),
    }
}

/// `after` is `before` scrolled so that the block of `cursor` is visible:
/// where the cursor is where it was last drawn, its focus touches the scroll
/// area; elsewhere it lies within it (or starts at its top, where it is
/// higher). Where the cursor has no block, nothing moved.
pub open spec fn cursor_made_visible<W>(
    before: Blocks<TreeBlockId<u64>, W>,
    after: Blocks<TreeBlockId<u64>, W>,
    cursor: Cursor<u64>,
    context: TreeContext,
) -> bool {
    let area = spec_scroll_area(context.height, SCROLLOFF);
    match first_block_with_id(before.spec_blocks(), spec_block_id(cursor), 0) {
        Some(i) => {
            let f = focus_range(before, i);
            let g = focus_range(after, i);
            if cursor == context.last_cursor {
                &&& after.spec_range().top == before.spec_range().top + spec_overlap_delta(area, f)
                &&& touches((area.top as int, area.bottom as int), (g.top as int, g.bottom as int))
            } else {
                &&& after.spec_range().top == before.spec_range().top + spec_full_overlap_delta(area, f)
                &&& f.bottom - f.top <= area.bottom - area.top ==> within(
                    (area.top as int, area.bottom as int),
                    (g.top as int, g.bottom as int),
                )
                &&& f.bottom - f.top > area.bottom - area.top ==> g.top == area.top
            }
        },
        None => after.spec_range() == before.spec_range(),
    }
}

/// The messages above the cursor's message in its tree, which drawing the
/// cursor unfolds.
pub open spec fn cursor_ancestors<M: Msg, S: MsgStore<M>>(store: S, cursor: Cursor<u64>) -> Set<u64> {
    match spec_block_id(cursor) {
        TreeBlockId::Bottom => Set::empty(),
        TreeBlockId::Msg(k) => ancestors(store.spec_tree(store.spec_path(k)[0]).spec_msgs(), k),
        TreeBlockId::After(k) => ancestors(store.spec_tree(store.spec_path(k)[0]).spec_msgs(), k),
    }
}

/// The ids of the messages whose blocks, among the first `n`, touch a screen
/// of height `h`, from the top down.
pub open spec fn visible_msg_ids<W>(b: Blocks<TreeBlockId<u64>, W>, h: u16, n: int) -> Seq<u64>
    decreases n,
{
    if n <= 0 {
        Seq::empty()
    } else {
        let rest = visible_msg_ids(b, h, n - 1);
        let i = n - 1;
        match b.spec_blocks()[i].spec_id() {
            TreeBlockId::Msg(id) => if touches((0, h as int), b.block_range(i)) {
                rest.push(id)
            } else {
                rest
            },
            _ => rest,
        }
    }
}

/// The blocks among the first `n` whose focus touches a screen of height
/// `h`, each with the lines it takes up, from the top down.
pub open spec fn visible_blocks<W>(b: Blocks<TreeBlockId<u64>, W>, h: u16, n: int) -> Seq<
    (Range<i32>, Block<TreeBlockId<u64>, W>),
>
    decreases n,
{
    if n <= 0 {
        Seq::empty()
    } else {
        let rest = visible_blocks(b, h, n - 1);
        let i = n - 1;
        let f = focus_range(b, i);
        if touches((0, h as int), (f.top as int, f.bottom as int)) {
            rest.push((block_lines(b, i), b.spec_blocks()[i]))
        } else {
            rest
        }
    }
}

/// The cursor a block holds, where it can hold one: the bottom of the chat,
/// or a message.
pub open spec fn cursor_on(id: TreeBlockId<u64>) -> Option<Cursor<u64>> {
    match id {
        TreeBlockId::Bottom => Some(Cursor::Bottom),
        TreeBlockId::Msg(k) => Some(Cursor::Msg(k)),
        TreeBlockId::After(_) => None,
    }
}

/// Block `j` and its focus lie within reach of the screen.
pub open spec fn within_reach<W>(b: Blocks<TreeBlockId<u64>, W>, j: int) -> bool {
    let f = focus_range(b, j);
    &&& -MAX_POSITION <= b.block_range(j).0
    &&& b.block_range(j).0 <= f.top
    &&& f.top <= f.bottom
    &&& f.bottom <= b.block_range(j).1
    &&& b.block_range(j).1 <= MAX_POSITION
}

/// The root of the tree the message of block `id` is in, as the store's
/// paths say (none for the bottom of the chat).
pub open spec fn spec_root_of<M: Msg, S: MsgStore<M>>(store: S, id: TreeBlockId<u64>) -> Option<u64> {
    match id {
        TreeBlockId::Bottom => None,
        TreeBlockId::Msg(k) => Some(store.spec_path(k)[0]),
        TreeBlockId::After(k) => Some(store.spec_path(k)[0]),
    }
}

/// The tree with root `first` lies above the tree with root `second`, where
/// `None` stands for the bottom of the chat.
pub open spec fn root_above(first: Option<u64>, second: Option<u64>) -> bool {
    match (first, second) {
        (Some(_), None) => true,
        (Some(a), Some(b)) => a < b,
        _ => false,
    }
}

/// Where the cursor `old` goes so that it is visible on `blocks` with the
/// scroll area `area`: where it is drawn at the bottom of the chat or at a
/// message whose block is there, it goes to what that block holds where its
/// focus touches the area; otherwise, coming from above the area, to the
/// topmost message whose block can hold it and touches the area, and coming
/// from below, to the bottommost one. Where there is no such message, or
/// the cursor is elsewhere, it stays.
pub open spec fn cursor_kept_visible<W>(
    blocks: Blocks<TreeBlockId<u64>, W>,
    area: Range<i32>,
    old: Cursor<u64>,
    new: Cursor<u64>,
) -> bool {
    let id = spec_block_id(old);
    let found = first_block_with_id(blocks.spec_blocks(), id, 0);
    if cursor_on(id) is None || found is None {
        new == old
    } else {
        let d = spec_overlap_delta(area, focus_range(blocks, found->0));
        if d == 0 {
            cursor_on(id) == Some(new)
        } else if exists|j: int| is_visible_cursor(blocks, area, j) {
            exists|j: int|
                #[trigger] is_visible_cursor(blocks, area, j) && cursor_on(blocks.spec_blocks()[j].spec_id())
                    == Some(new) && (d > 0 ==> forall|k: int| 0 <= k < j ==> !is_visible_cursor(blocks, area, k))
                    && (d < 0 ==> forall|k: int|
                    j < k < blocks.spec_blocks().len() ==> !is_visible_cursor(blocks, area, k))
        } else {
            new == old
        }
    }
}

/// The blocks spanning `r` cover a screen of height `h`; where they are too
/// few, they end at its bottom.
pub open spec fn covers(r: Range<i32>, h: u16) -> bool {
    &&& r.bottom - r.top >= h ==> r.top <= 0 && h <= r.bottom
    &&& r.bottom - r.top < h ==> r.bottom == h
}

/// `after` is `before` scrolled by `delta` lines: moved down by `delta`,
/// with trees laid out above and below until a screen of height `h` is
/// filled or the chat ends, and then only moved; and the cursor went from
/// `old` to `new` so that it is visible once the filled blocks were made to
/// cover the screen.
pub open spec fn scrolled<W>(
    before: Blocks<TreeBlockId<u64>, W>,
    after: Blocks<TreeBlockId<u64>, W>,
    delta: int,
    h: u16,
    old: Cursor<u64>,
    new: Cursor<u64>,
) -> bool {
    exists|moved: Blocks<TreeBlockId<u64>, W>, filled: Blocks<TreeBlockId<u64>, W>, covering: Blocks<TreeBlockId<u64>, W>|
        {
            &&& moved.spec_blocks() == before.spec_blocks()
            &&& moved.spec_end() == before.spec_end()
            &&& moved.spec_range().top == before.spec_range().top + delta
            &&& moved.spec_range().bottom == before.spec_range().bottom + delta
            &&& grown(moved, filled)
            &&& filled.spec_end().top || filled.spec_range().top <= 0
            &&& filled.spec_end().bottom || filled.spec_range().bottom >= h
            &&& covering.spec_blocks() == filled.spec_blocks()
            &&& covering.spec_end() == filled.spec_end()
            &&& covers(covering.spec_range(), h)
            &&& cursor_kept_visible(covering, spec_scroll_area(h, SCROLLOFF), old, new)
            &&& after.spec_blocks() == filled.spec_blocks()
            &&& after.spec_end() == filled.spec_end()
        }
}

/// The block of `cursor` in `b`, where there is one, is shown as making the
/// cursor visible leaves it: where the cursor is where it was last drawn,
/// its focus touches the scroll area; elsewhere it lies within it (or starts
/// at its top, where it is higher).
pub open spec fn cursor_shown<W>(b: Blocks<TreeBlockId<u64>, W>, cursor: Cursor<u64>, context: TreeContext) -> bool {
    let area = spec_scroll_area(context.height, SCROLLOFF);
    match first_block_with_id(b.spec_blocks(), spec_block_id(cursor), 0) {
        Some(i) => {
            let g = focus_range(b, i);
            if cursor == context.last_cursor {
                touches((area.top as int, area.bottom as int), (g.top as int, g.bottom as int))
            } else {
                &&& g.bottom - g.top <= area.bottom - area.top ==> within(
                    (area.top as int, area.bottom as int),
                    (g.top as int, g.bottom as int),
                )
                &&& g.bottom - g.top > area.bottom - area.top ==> g.top == area.top
            }
        },
        None => true,
    }
}

/// The line the blocks spanning `r` start at once they are moved as little
/// as possible to cover a screen of height `h` (to its bottom, where they
/// are too few).
pub open spec fn clamped_top(r: Range<i32>, h: u16) -> int {
    let move_to_top = 0 - r.top;
    let move_to_bottom = h - r.bottom;
    let m = if 0 < move_to_top {
        0
    } else {
        move_to_top
    };
    let delta = if m < move_to_bottom {
        move_to_bottom
    } else {
        m
    };
    r.top + delta
}

/// Where the top of the chat is reached, nothing more is laid out above.
pub open spec fn ended(reached: bool) -> int {
    if reached {
        0
    } else {
        1
    }
}

impl<W> TreeRenderer<W> {
    pub closed spec fn spec_context(&self) -> TreeContext {
        self.context
    }

    pub closed spec fn spec_top_root_id(&self) -> Option<u64> {
        self.top_root_id
    }

    pub closed spec fn spec_bottom_root_id(&self) -> Option<u64> {
        self.bottom_root_id
    }

    pub closed spec fn spec_blocks(&self) -> Blocks<TreeBlockId<u64>, W> {
        self.blocks
    }

    /// The blocks are sound and the last cursor was drawn within reach.
    pub open spec fn wf(&self) -> bool {
        &&& blocks_ok(self.spec_blocks())
        &&& -MAX_OFFSET <= self.spec_context().last_cursor_top <= MAX_OFFSET
    }

    /// Nothing is laid out yet.
    pub open spec fn fresh(&self) -> bool {
        &&& self.wf()
        &&& self.spec_blocks().spec_blocks().len() == 0
        &&& self.spec_blocks().spec_range() == (Range::<i32> { top: 0, bottom: 0 })
        &&& self.spec_blocks().spec_end() == (Range::<bool> { top: false, bottom: false })
    }

    /// The blocks cover the screen; where they are too few, they end at its
    /// bottom.
    pub open spec fn settled(&self) -> bool {
        let r = self.spec_blocks().spec_range();
        let h = self.spec_context().height;
        &&& r.bottom - r.top >= h ==> r.top <= 0 && h <= r.bottom
        &&& r.bottom - r.top < h ==> r.bottom == h
    }

    /// A renderer for the chat described by `context`, with nothing laid
    /// out yet.
    pub fn new(context: TreeContext) -> (r: Self)
        requires
            -MAX_OFFSET <= context.last_cursor_top <= MAX_OFFSET,
        ensures
            r.fresh(),
            r.spec_context() == context,
            r.spec_top_root_id() is None,
            r.spec_bottom_root_id() is None,
    {
        TreeRenderer { context, top_root_id: None, bottom_root_id: None, blocks: Blocks::new(0) }
    }

    /// The height of the screen.
    pub fn height(&self) -> (r: u16)
        ensures
            r == self.spec_context().height,
    {
        self.context.height
    }

    /// Lays out the tree before the topmost one (the last tree, where only
    /// the bottom of the chat is laid out) above the blocks; where there is
    /// none, or it would not fit, the top of the chat is reached.
    fn expand_top<M: Msg, S: MsgStore<M>, P: Predraw<M, W>>(
        &mut self,
        store: &S,
        folded: &HashSet<u64>,
        cursor: &Cursor<u64>,
        painter: &mut P,
    ) -> (r: Result<(), S::Error>)
        requires
            old(self).wf(),
            !old(self).spec_blocks().spec_end().top,
        ensures
            S::spec_never_fails() ==> r is Ok,
            final(self).wf(),
            final(self).spec_context() == old(self).spec_context(),
            final(self).spec_bottom_root_id() == old(self).spec_bottom_root_id(),
            grown_above(old(self).spec_blocks(), final(self).spec_blocks()),
            r is Ok ==> final(self).spec_blocks().spec_end().top || above_measure(
                final(self).spec_top_root_id(),
            ) < above_measure(old(self).spec_top_root_id()),
    {
        proof {
            assert(self.blocks.spec_blocks().skip(0) =~= self.blocks.spec_blocks());
        }
        let prev = match self.top_root_id {
            Some(top) => store.prev_root_id(&top)?,
            None => store.last_root_id()?,
        };
        match prev {
            Some(prev_root_id) => {
                let tree = store.tree(&prev_root_id)?;
                let layout = layout_tree(&tree, folded, cursor, self.context.focused);
                match predraw_blocks(&layout, Some(&tree), painter) {
                    Some(blocks) => {
                        let range = self.blocks.range();
                        let h = blocks.range();
                        proof {
                            lemma_heights_nonneg(blocks.spec_blocks());
                        }
                        if range.top as i64 - h.bottom as i64 >= -(MAX_POSITION as i64)
                            && range.bottom as i64 - range.top as i64 + h.bottom as i64 <= MAX_EXTENT as i64 {
                            let ghost ours = self.blocks.spec_blocks();
                            let ghost theirs = blocks.spec_blocks();
                            self.blocks.append_top(blocks);
                            assert forall|i: int| 0 <= i < self.blocks.spec_blocks().len() implies #[trigger] block_ok(self.blocks.spec_blocks()[i]) by {
                                if i < theirs.len() {
                                    assert(self.blocks.spec_blocks()[i] == theirs[i]);
                                } else {
                                    assert(self.blocks.spec_blocks()[i] == ours[i - theirs.len()]);
                                }
                            }
                            assert(self.blocks.spec_blocks().skip(theirs.len() as int) =~= ours);
                            self.top_root_id = Some(prev_root_id);
                        } else {
                            self.blocks.end_top();
                        }
                    },
                    None => self.blocks.end_top(),
                }
            },
            None => self.blocks.end_top(),
        }
        Ok(())
    }

    /// Lays out the tree after the bottommost one below the blocks; after
    /// the last tree comes the bottom of the chat, below which there is
    /// nothing. Where a tree would not fit, the bottom is reached.
    fn expand_bottom<M: Msg, S: MsgStore<M>, P: Predraw<M, W>>(
        &mut self,
        store: &S,
        folded: &HashSet<u64>,
        cursor: &Cursor<u64>,
        painter: &mut P,
    ) -> (r: Result<(), S::Error>)
        requires
            old(self).wf(),
            !old(self).spec_blocks().spec_end().bottom,
        ensures
            S::spec_never_fails() ==> r is Ok,
            final(self).wf(),
            final(self).spec_context() == old(self).spec_context(),
            final(self).spec_top_root_id() == old(self).spec_top_root_id(),
            grown_below(old(self).spec_blocks(), final(self).spec_blocks()),
            r is Ok ==> final(self).spec_blocks().spec_end().bottom || below_measure(
                final(self).spec_bottom_root_id(),
            ) < below_measure(old(self).spec_bottom_root_id()),
    {
        proof {
            let b = self.blocks.spec_blocks();
            assert(b.take(b.len() as int) =~= b);
        }
        let bottom_root_id = match self.bottom_root_id {
            Some(b) => b,
            None => {
                self.blocks.end_bottom();
                return Ok(());
            },
        };
        let next = store.next_root_id(&bottom_root_id)?;
        let (drawn, next_root_id) = match next {
            Some(next_root_id) => {
                let tree = store.tree(&next_root_id)?;
                let layout = layout_tree(&tree, folded, cursor, self.context.focused);
                (predraw_blocks(&layout, Some(&tree), painter), Some(next_root_id))
            },
            None => {
                let layout = vec![layout_bottom(cursor)];
                let no_tree: Option<&Tree<M>> = None;
                (predraw_blocks(&layout, no_tree, painter), None)
            },
        };
        match drawn {
            Some(blocks) => {
                let range = self.blocks.range();
                let h = blocks.range();
                proof {
                    lemma_heights_nonneg(blocks.spec_blocks());
                }
                if range.bottom as i64 + h.bottom as i64 <= MAX_POSITION as i64
                    && range.bottom as i64 - range.top as i64 + h.bottom as i64 <= MAX_EXTENT as i64 {
                    let ghost ours = self.blocks.spec_blocks();
                    let ghost theirs = blocks.spec_blocks();
                    self.blocks.append_bottom(blocks);
                    assert forall|i: int| 0 <= i < self.blocks.spec_blocks().len() implies #[trigger] block_ok(self.blocks.spec_blocks()[i]) by {
                        if i < ours.len() {
                            assert(self.blocks.spec_blocks()[i] == ours[i]);
                        } else {
                            assert(self.blocks.spec_blocks()[i] == theirs[i - ours.len()]);
                        }
                    }
                    assert(self.blocks.spec_blocks().take(ours.len() as int) =~= ours);
                    self.bottom_root_id = next_root_id;
                    if next_root_id.is_none() {
                        self.blocks.end_bottom();
                    }
                } else {
                    self.blocks.end_bottom();
                }
            },
            None => self.blocks.end_bottom(),
        }
        Ok(())
    }

    /// Lays out trees above the blocks until they reach up to line `top`,
    /// or the top of the chat is reached.
    pub fn expand_upwards_until<M: Msg, S: MsgStore<M>, P: Predraw<M, W>>(
        &mut self,
        top: i32,
        store: &S,
        folded: &HashSet<u64>,
        cursor: &Cursor<u64>,
        painter: &mut P,
    ) -> (r: Result<(), S::Error>)
        requires
            old(self).wf(),
        ensures
            S::spec_never_fails() ==> r is Ok,
            final(self).wf(),
            final(self).spec_context() == old(self).spec_context(),
            final(self).spec_bottom_root_id() == old(self).spec_bottom_root_id(),
            grown_above(old(self).spec_blocks(), final(self).spec_blocks()),
            r is Ok ==> final(self).spec_blocks().spec_end().top || final(self).spec_blocks().spec_range().top
                <= top,
    {
        let ghost start = self.blocks;
        proof {
            lemma_grown_refl(self.blocks);
        }
        while !(self.blocks.end().top || self.blocks.range().top <= top)
            invariant
                self.wf(),
                self.context == old(self).context,
                self.bottom_root_id == old(self).bottom_root_id,
                start == old(self).blocks,
                grown_above(start, self.blocks),
            decreases ended(self.blocks.spec_end().top), above_measure(self.top_root_id),
        {
            let ghost mid = self.blocks;
            let res = self.expand_top(store, folded, cursor, painter);
            proof {
                lemma_grown_above_trans(start, mid, self.blocks);
            }
            if let Err(e) = res {
                return Err(e);
            }
        }
        Ok(())
    }

    /// Lays out trees below the blocks until they reach down to line
    /// `bottom`, or the bottom of the chat is reached.
    pub fn expand_downwards_until<M: Msg, S: MsgStore<M>, P: Predraw<M, W>>(
        &mut self,
        bottom: i32,
        store: &S,
        folded: &HashSet<u64>,
        cursor: &Cursor<u64>,
        painter: &mut P,
    ) -> (r: Result<(), S::Error>)
        requires
            old(self).wf(),
        ensures
            S::spec_never_fails() ==> r is Ok,
            final(self).wf(),
            final(self).spec_context() == old(self).spec_context(),
            final(self).spec_top_root_id() == old(self).spec_top_root_id(),
            grown_below(old(self).spec_blocks(), final(self).spec_blocks()),
            r is Ok ==> final(self).spec_blocks().spec_end().bottom || final(self).spec_blocks().spec_range().bottom
                >= bottom,
    {
        let ghost start = self.blocks;
        proof {
            lemma_grown_refl(self.blocks);
        }
        while !(self.blocks.end().bottom || self.blocks.range().bottom >= bottom)
            invariant
                self.wf(),
                self.context == old(self).context,
                self.top_root_id == old(self).top_root_id,
                start == old(self).blocks,
                grown_below(start, self.blocks),
            decreases ended(self.blocks.spec_end().bottom), below_measure(self.bottom_root_id),
        {
            let ghost mid = self.blocks;
            let res = self.expand_bottom(store, folded, cursor, painter);
            proof {
                lemma_grown_below_trans(start, mid, self.blocks);
            }
            if let Err(e) = res {
                return Err(e);
            }
        }
        Ok(())
    }

    /// Lays out trees above and below the blocks until they fill the screen
    /// or the chat ends.
    pub fn expand_to_fill_visible_area<M: Msg, S: MsgStore<M>, P: Predraw<M, W>>(
        &mut self,
        store: &S,
        folded: &HashSet<u64>,
        cursor: &Cursor<u64>,
        painter: &mut P,
    ) -> (r: Result<(), S::Error>)
        requires
            old(self).wf(),
        ensures
            S::spec_never_fails() ==> r is Ok,
            final(self).wf(),
            final(self).spec_context() == old(self).spec_context(),
            grown(old(self).spec_blocks(), final(self).spec_blocks()),
            r is Ok ==> final(self).spec_blocks().spec_end().top || final(self).spec_blocks().spec_range().top <= 0,
            r is Ok ==> final(self).spec_blocks().spec_end().bottom || final(self).spec_blocks().spec_range().bottom
                >= final(self).spec_context().height,
    {
        let area = visible_area(self.context.height);
        let res = self.expand_upwards_until(area.top, store, folded, cursor, painter);
        let ghost mid = self.blocks;
        if let Err(e) = res {
            proof {
                lemma_grown_refl(self.blocks);
            }
            return Err(e);
        }
        let res = self.expand_downwards_until(area.bottom, store, folded, cursor, painter);
        assert(grown_above(old(self).blocks, mid) && grown_below(mid, self.blocks));
        res
    }

    /// Lays out trees above and below the block with id `id` until the
    /// screen is filled (or the chat ends) wherever it is scrolled while the
    /// block is visible. Nothing is laid out where there is no such block.
    #[verifier::spinoff_prover]
    pub fn expand_to_fill_screen_around_block<M: Msg, S: MsgStore<M>, P: Predraw<M, W>>(
        &mut self,
        id: &TreeBlockId<u64>,
        store: &S,
        folded: &HashSet<u64>,
        cursor: &Cursor<u64>,
        painter: &mut P,
    ) -> (r: Result<(), S::Error>)
        requires
            old(self).wf(),
        ensures
            S::spec_never_fails() ==> r is Ok,
            final(self).wf(),
            final(self).spec_context() == old(self).spec_context(),
            grown(old(self).spec_blocks(), final(self).spec_blocks()),
            r is Ok ==> match first_block_with_id(old(self).spec_blocks().spec_blocks(), *id, 0) {
                Some(i) => {
                    let b = block_lines(old(self).spec_blocks(), i);
                    let h = old(self).spec_context().height;
                    &&& final(self).spec_blocks().spec_end().top || final(self).spec_blocks().spec_range().top
                        <= screen_top_around(b, h)
                    &&& final(self).spec_blocks().spec_end().bottom
                        || final(self).spec_blocks().spec_range().bottom >= screen_bottom_around(b, h)
                },
                None => final(self).spec_blocks() == old(self).spec_blocks(),
            },
    {
        proof {
            lemma_grown_refl(self.blocks);
            lemma_first_block_in(self.blocks.spec_blocks(), *id, 0);
        }
        let ghost start = self.blocks;
        let ghost i = first_block_with_id(self.blocks.spec_blocks(), *id, 0)->0;
        let h = self.context.height;
        let screen = visible_area(h);
        let found = match self.blocks.find_block(id) {
            Some((range, _)) => Some(range),
            None => None,
        };
        let block = match found {
            Some(b) => b,
            None => {
                assert(grown_above(start, self.blocks) && grown_below(self.blocks, self.blocks));
                return Ok(());
            },
        };
        proof {
            lemma_block_within(self.blocks, i);
            lemma_heights_nonneg(self.blocks.spec_blocks());
        }
        assert(block == block_lines(start, i));
        let top = overlap(block, screen.with_bottom(block.top)).top;
        let bottom = overlap(block, screen.with_top(block.bottom)).bottom;
        let res = self.expand_upwards_until(top, store, folded, cursor, painter);
        let ghost mid = self.blocks;
        if let Err(e) = res {
            proof {
                lemma_grown_refl(self.blocks);
            }
            return Err(e);
        }
        let res = self.expand_downwards_until(bottom, store, folded, cursor, painter);
        assert(grown_above(start, mid) && grown_below(mid, self.blocks));
        res
    }

    /// The root of the tree the message of block `id` is in (none for the
    /// bottom of the chat).
    fn root_id<M: Msg, S: MsgStore<M>>(store: &S, id: &TreeBlockId<u64>) -> (r: Result<Option<u64>, S::Error>)
        ensures
            S::spec_never_fails() ==> r is Ok,
            r matches Ok(x) ==> x == match *id {
                TreeBlockId::Bottom => None,
                TreeBlockId::Msg(k) => Some(store.spec_path(k)[0]),
                TreeBlockId::After(k) => Some(store.spec_path(k)[0]),
            },
    {
        let k = match id.any_id() {
            Some(k) => k,
            None => return Ok(None),
        };
        let path = store.path(k)?;
        Ok(Some(path.into_first()))
    }

    /// Lays out the tree with root `root_id` (the bottom of the chat where
    /// that is `None`) as the only blocks, with every message above the one
    /// of block `cursor_id` unfolded so that the block is drawn. Nothing is
    /// laid out where the tree would not fit.
    fn prepare_initial_tree<M: Msg, S: MsgStore<M>, P: Predraw<M, W>>(
        &mut self,
        store: &S,
        folded: &mut HashSet<u64>,
        cursor: &Cursor<u64>,
        painter: &mut P,
        cursor_id: &TreeBlockId<u64>,
        root_id: Option<u64>,
    ) -> (r: Result<(), S::Error>)
        requires
            old(self).fresh(),
        ensures
            S::spec_never_fails() ==> r is Ok,
            final(self).wf(),
            final(self).spec_context() == old(self).spec_context(),
            final(self).spec_blocks().spec_range().top == 0,
            final(self).spec_blocks().spec_end() == (Range::<bool> { top: false, bottom: false }),
            r is Ok ==> final(self).spec_top_root_id() == root_id && final(self).spec_bottom_root_id() == root_id,
            r is Ok ==> match root_id {
                Some(root) => final(folded)@ == old(folded)@.difference(
                    block_ancestors(store.spec_tree(root).spec_msgs(), *cursor_id),
                ),
                None => final(folded)@ == old(folded)@,
            },
            r is Err ==> final(folded)@ == old(folded)@ && final(self).spec_blocks() == old(self).spec_blocks(),
    {
        self.top_root_id = root_id;
        self.bottom_root_id = root_id;
        let drawn = match root_id {
            Some(root) => {
                let tree = match store.tree(&root) {
                    Ok(t) => t,
                    Err(e) => {
                        self.top_root_id = None;
                        self.bottom_root_id = None;
                        return Err(e);
                    },
                };
                let ghost msgs = tree.spec_msgs();
                let start: Option<u64> = match cursor_id {
                    TreeBlockId::Msg(k) => Some(*k),
                    TreeBlockId::After(k) => Some(*k),
                    TreeBlockId::Bottom => None,
                };
                if let Some(s) = start {
                    let ghost original = folded@;
                    let mut id = s;
                    loop
                        invariant
                            self.blocks == old(self).blocks,
                            self.context == old(self).context,
                            self.top_root_id == root_id,
                            self.bottom_root_id == root_id,
                            parents_precede(msgs),
                            msgs == tree.spec_msgs(),
                            id == s || ancestors(msgs, s).contains(id),
                            ancestors(msgs, id).subset_of(ancestors(msgs, s)),
                            folded@ == original.difference(ancestors(msgs, s).difference(ancestors(msgs, id))),
                        ensures
                            folded@ == original.difference(ancestors(msgs, s)),
                        decreases id,
                    {
                        match tree.parent(&id) {
                            Some(parent_id) => {
                                proof {
                                    lemma_ancestors_older(msgs, parent_id);
                                    assert(ancestors(msgs, id) == ancestors(msgs, parent_id).insert(parent_id));
                                }
                                folded.remove(&parent_id);
                                assert(folded@ =~= original.difference(
                                    ancestors(msgs, s).difference(ancestors(msgs, parent_id)),
                                ));
                                id = parent_id;
                            },
                            None => {
                                assert(ancestors(msgs, id) =~= Set::<u64>::empty());
                                assert(folded@ =~= original.difference(ancestors(msgs, s)));
                                break;
                            },
                        }
                    }
                }
                let layout = layout_tree(&tree, folded, cursor, self.context.focused);
                predraw_blocks(&layout, Some(&tree), painter)
            },
            None => {
                let layout = vec![layout_bottom(cursor)];
                let no_tree: Option<&Tree<M>> = None;
                predraw_blocks(&layout, no_tree, painter)
            },
        };
        if let Some(blocks) = drawn {
            let ghost theirs = blocks.spec_blocks();
            let _ = blocks.range();
            self.blocks.append_bottom(blocks);
            assert(self.blocks.spec_blocks() =~= theirs);
        }
        Ok(())
    }

    /// Scrolls so that the cursor is visible: where it has not moved since
    /// the chat was last drawn, as little as possible so that the focus of
    /// its block touches the scroll area; where it has moved, so that the
    /// focus lies within the scroll area (or starts at its top, where it is
    /// higher). Nothing moves where the cursor has no block.
    fn make_cursor_visible(&mut self, cursor: &Cursor<u64>)
        requires
            old(self).wf(),
        ensures
            final(self).wf(),
            final(self).spec_context() == old(self).spec_context(),
            final(self).spec_top_root_id() == old(self).spec_top_root_id(),
            final(self).spec_bottom_root_id() == old(self).spec_bottom_root_id(),
            final(self).spec_blocks().spec_blocks() == old(self).spec_blocks().spec_blocks(),
            final(self).spec_blocks().spec_end() == old(self).spec_blocks().spec_end(),
            cursor_made_visible(old(self).spec_blocks(), final(self).spec_blocks(), *cursor, old(self).spec_context()),
    {
        let ghost before = self.blocks;
        let cursor_id = TreeBlockId::from_cursor(cursor);
        assert(cursor_id == spec_block_id(*cursor));
        let h = self.context.height;
        proof {
            lemma_first_block_in(self.blocks.spec_blocks(), cursor_id, 0);
            if let Some(i) = first_block_with_id(self.blocks.spec_blocks(), cursor_id, 0) {
                lemma_block_within(self.blocks, i);
                assert(block_ok(self.blocks.spec_blocks()[i]));
            }
        }
        if *cursor == self.context.last_cursor {
            scroll_so_block_focus_overlaps_scroll_area(&mut self.blocks, &cursor_id, h, SCROLLOFF);
        } else {
            scroll_so_block_focus_fully_overlaps_scroll_area(&mut self.blocks, &cursor_id, h, SCROLLOFF);
        }
        proof {
            lemma_wf_extent(before);
            lemma_wf_extent(self.blocks);
            if let Some(i) = first_block_with_id(self.blocks.spec_blocks(), cursor_id, 0) {
                lemma_block_within(self.blocks, i);
                let b = self.blocks.spec_blocks()[i];
                assert(block_ok(b));
                let g = focus_range(self.blocks, i);
                let bt = self.blocks.block_range(i).0;
                assert(g.top == bt + b.spec_focus().top);
                assert(g.bottom == bt + b.spec_focus().bottom);
            }
        }
    }

    /// Blocks spanning at most [`MAX_EXTENT`] lines stay within reach where
    /// block `i` starts within [`MAX_OFFSET`] lines of the screen.
    proof fn lemma_scrolled_within(&self, i: int)
        requires
            self.spec_blocks().wf(),
            self.spec_blocks().spec_range().bottom - self.spec_blocks().spec_range().top <= MAX_EXTENT,
            0 <= i < self.spec_blocks().spec_blocks().len(),
            -MAX_OFFSET <= self.spec_blocks().block_range(i).0 <= MAX_OFFSET,
        ensures
            -MAX_POSITION <= self.spec_blocks().spec_range().top,
            self.spec_blocks().spec_range().bottom <= MAX_POSITION,
    {
        lemma_block_within(self.blocks, i);
    }

    /// Scrolls so that the block of the last cursor is where it was last
    /// drawn; where there is no such block, the blocks are moved below the
    /// screen where the last cursor's tree lies above the tree with root
    /// `cursor_root_id` (the cursor's), and above the screen otherwise.
    #[verifier::spinoff_prover]
    fn scroll_to_last_cursor<M: Msg, S: MsgStore<M>>(&mut self, store: &S, cursor_root_id: Option<u64>) -> (r: Result<(), S::Error>)
        requires
            old(self).wf(),
        ensures
            S::spec_never_fails() ==> r is Ok,
            final(self).wf(),
            final(self).spec_context() == old(self).spec_context(),
            final(self).spec_blocks().spec_blocks() == old(self).spec_blocks().spec_blocks(),
            final(self).spec_blocks().spec_end() == old(self).spec_blocks().spec_end(),
            r is Ok ==> {
                let last = spec_block_id(old(self).spec_context().last_cursor);
                match first_block_with_id(old(self).spec_blocks().spec_blocks(), last, 0) {
                    Some(i) => final(self).spec_blocks().block_range(i).0 == old(self).spec_context().last_cursor_top,
                    None => if root_above(spec_root_of(*store, last), cursor_root_id) {
                        final(self).spec_blocks().spec_range().top == old(self).spec_context().height
                    } else {
                        final(self).spec_blocks().spec_range().bottom == 0
                    },
                }
            },
    {
        let h = self.context.height;
        let last_cursor_id = TreeBlockId::from_cursor(&self.context.last_cursor);
        assert(last_cursor_id == spec_block_id(self.context.last_cursor));
        let top = self.context.last_cursor_top;
        proof {
            lemma_wf_extent(self.blocks);
            lemma_first_block_in(self.blocks.spec_blocks(), last_cursor_id, 0);
            if let Some(i) = first_block_with_id(self.blocks.spec_blocks(), last_cursor_id, 0) {
                lemma_block_within(self.blocks, i);
            }
        }
        let ghost before = self.blocks;
        if scroll_to_set_block_top(&mut self.blocks, &last_cursor_id, top) {
            proof {
                let i = first_block_with_id(before.spec_blocks(), last_cursor_id, 0)->0;
                lemma_wf_extent(self.blocks);
                self.lemma_scrolled_within(i);
            }
        } else {
            let last_cursor_root_id = Self::root_id(store, &last_cursor_id)?;
            proof {
                lemma_heights_nonneg(self.blocks.spec_blocks());
            }
            if root_id_is_above_root_id(last_cursor_root_id, cursor_root_id) {
                scroll_blocks_fully_below_screen(&mut self.blocks, h);
            } else {
                scroll_blocks_fully_above_screen(&mut self.blocks, h);
            }
        }
        Ok(())
    }

    /// Lays out the tree with the cursor, and enough trees around it that
    /// the screen is filled wherever it is scrolled while the cursor is
    /// visible, unfolding the messages above the cursor's. Then scrolls so
    /// that the block of the last cursor is where it was last drawn; where
    /// there is no such block, the blocks are moved below the screen where
    /// the last cursor's tree lies above the cursor's, and above it
    /// otherwise. Finally the cursor is made visible and the screen covered.
    #[verifier::spinoff_prover]
    #[verifier::rlimit(80)]
    pub fn prepare_blocks_for_drawing<M: Msg, S: MsgStore<M>, P: Predraw<M, W>>(
        &mut self,
        store: &S,
        folded: &mut HashSet<u64>,
        cursor: &Cursor<u64>,
        painter: &mut P,
    ) -> (r: Result<(), S::Error>)
        requires
            old(self).fresh(),
        ensures
            S::spec_never_fails() ==> r is Ok,
            final(self).wf(),
            final(self).spec_context() == old(self).spec_context(),
            r is Ok ==> final(self).settled(),
            r is Ok ==> final(folded)@ == old(folded)@.difference(cursor_ancestors(*store, *cursor)),
            r is Ok ==> exists|shown: Blocks<TreeBlockId<u64>, W>|
                {
                    &&& shown.spec_blocks() == final(self).spec_blocks().spec_blocks()
                    &&& shown.spec_end() == final(self).spec_blocks().spec_end()
                    &&& cursor_shown(shown, *cursor, old(self).spec_context())
                    &&& final(self).spec_blocks().spec_range().top == clamped_top(
                        shown.spec_range(),
                        old(self).spec_context().height,
                    )
                },
    {
        let h = self.context.height;
        let cursor_id = TreeBlockId::from_cursor(cursor);
        assert(cursor_id == spec_block_id(*cursor));
        let cursor_root_id = Self::root_id(store, &cursor_id)?;
        let ghost before = folded@;
        self.prepare_initial_tree(store, folded, cursor, painter, &cursor_id, cursor_root_id)?;
        proof {
            if cursor_root_id is None {
                assert(cursor_ancestors(*store, *cursor) =~= Set::<u64>::empty());
                assert(folded@ =~= before.difference(cursor_ancestors(*store, *cursor)));
            } else {
                assert(cursor_ancestors(*store, *cursor) == block_ancestors(
                    store.spec_tree(cursor_root_id->0).spec_msgs(),
                    cursor_id,
                ));
            }
        }
        self.expand_to_fill_screen_around_block(&cursor_id, store, folded, cursor, painter)?;
        self.scroll_to_last_cursor(store, cursor_root_id)?;
        self.make_cursor_visible(cursor);
        let ghost shown = self.blocks;
        assert(cursor_shown(shown, *cursor, self.context));
        proof {
            lemma_wf_extent(self.blocks);
            lemma_heights_nonneg(self.blocks.spec_blocks());
        }
        clamp_scroll_biased_downwards(&mut self.blocks, h);
        assert(shown.spec_blocks() == self.blocks.spec_blocks() && shown.spec_end() == self.blocks.spec_end()
            && self.blocks.spec_range().top == clamped_top(shown.spec_range(), h));
        Ok(())
    }

    /// Every block lies within reach, and so does its focus.
    proof fn lemma_all_within(&self)
        requires
            self.wf(),
        ensures
            forall|j: int|
                0 <= j < self.spec_blocks().spec_blocks().len() ==> #[trigger] within_reach(self.spec_blocks(), j),
    {
        assert forall|j: int| 0 <= j < self.spec_blocks().spec_blocks().len() implies #[trigger] within_reach(
            self.spec_blocks(),
            j,
        ) by {
            lemma_block_within(self.blocks, j);
            let b = self.blocks.spec_blocks()[j];
            assert(block_ok(b));
            let bt = self.blocks.block_range(j).0;
            assert(self.blocks.block_range(j).1 == bt + b.spec_height());
            assert(-MAX_POSITION <= bt + b.spec_focus().top <= MAX_POSITION);
            assert(-MAX_POSITION <= bt + b.spec_focus().bottom <= MAX_POSITION);
            assert(focus_range(self.blocks, j).top == bt + b.spec_focus().top);
            assert(focus_range(self.blocks, j).bottom == bt + b.spec_focus().bottom);
        }
    }

    /// Where the cursor is on the bottom of the chat or on a message whose
    /// block is out of the scroll area, moves it to the block nearest to it
    /// that can hold it and touches the area.
    fn move_cursor_so_it_is_visible(&self, cursor: &mut Cursor<u64>)
        requires
            self.wf(),
        ensures
            cursor_kept_visible(
                self.spec_blocks(),
                spec_scroll_area(self.spec_context().height, SCROLLOFF),
                *old(cursor),
                *final(cursor),
            ),
            *final(cursor) == *old(cursor) || (cursor_on(spec_block_id(*old(cursor))) is Some && cursor_on(
                spec_block_id(*final(cursor)),
            ) == Some(*final(cursor))),
    {
        let h = self.context.height;
        let cursor_id = TreeBlockId::from_cursor(cursor);
        assert(cursor_id == spec_block_id(*old(cursor)));
        let movable = match cursor_id {
            TreeBlockId::Bottom => true,
            TreeBlockId::Msg(_) => true,
            TreeBlockId::After(_) => false,
        };
        if movable {
            proof {
                self.lemma_all_within();
                let area = spec_scroll_area(h, SCROLLOFF);
                assert forall|j: int| 0 <= j < self.blocks.spec_blocks().len() implies delta_fits(
                    area,
                    #[trigger] focus_range(self.blocks, j),
                ) by {
                    assert(within_reach(self.blocks, j));
                }
                assert forall|j: int| #[trigger] is_visible_cursor(self.blocks, area, j) implies self.blocks.spec_blocks()[j].spec_id() is Msg by {
                    assert(block_ok(self.blocks.spec_blocks()[j]));
                }
                lemma_first_block_in(self.blocks.spec_blocks(), cursor_id, 0);
            }
            let found = find_cursor_starting_at(&self.blocks, &cursor_id, h, SCROLLOFF);
            match found {
                Some(TreeBlockId::Bottom) => {
                    *cursor = Cursor::Bottom;
                },
                Some(TreeBlockId::Msg(id)) => {
                    *cursor = Cursor::Msg(*id);
                },
                _ => {},
            }
        }
    }

    /// Scrolls by `delta` lines (up where positive), lays out what comes
    /// into view, and keeps the screen covered; the cursor moves along where
    /// it would leave the scroll area, and is made visible.
    #[verifier::spinoff_prover]
    pub fn scroll_by<M: Msg, S: MsgStore<M>, P: Predraw<M, W>>(
        &mut self,
        delta: i32,
        store: &S,
        folded: &HashSet<u64>,
        cursor: &mut Cursor<u64>,
        painter: &mut P,
    ) -> (r: Result<(), S::Error>)
        requires
            old(self).wf(),
            old(self).settled(),
            -MAX_OFFSET <= delta <= MAX_OFFSET,
        ensures
            S::spec_never_fails() ==> r is Ok,
            final(self).wf(),
            final(self).spec_context() == old(self).spec_context(),
            r is Ok ==> final(self).settled(),
            r is Ok ==> scrolled(
                old(self).spec_blocks(),
                final(self).spec_blocks(),
                delta as int,
                old(self).spec_context().height,
                *old(cursor),
                *final(cursor),
            ),
            *final(cursor) == *old(cursor) || (cursor_on(spec_block_id(*old(cursor))) is Some && cursor_on(
                spec_block_id(*final(cursor)),
            ) == Some(*final(cursor))),
    {
        let h = self.context.height;
        let ghost before = self.blocks;
        let ghost old_cursor = *cursor;
        proof {
            lemma_wf_extent(self.blocks);
            lemma_heights_nonneg(self.blocks.spec_blocks());
        }
        self.blocks.shift(delta);
        let ghost moved = self.blocks;
        self.expand_to_fill_visible_area(store, folded, cursor, painter)?;
        let ghost filled = self.blocks;
        proof {
            lemma_wf_extent(self.blocks);
            lemma_heights_nonneg(self.blocks.spec_blocks());
        }
        clamp_scroll_biased_downwards(&mut self.blocks, h);
        let ghost covering = self.blocks;
        self.move_cursor_so_it_is_visible(cursor);
        self.make_cursor_visible(cursor);
        proof {
            lemma_wf_extent(self.blocks);
            lemma_heights_nonneg(self.blocks.spec_blocks());
        }
        clamp_scroll_biased_downwards(&mut self.blocks, h);
        assert({
            &&& moved.spec_blocks() == before.spec_blocks()
            &&& moved.spec_end() == before.spec_end()
            &&& moved.spec_range().top == before.spec_range().top + delta
            &&& moved.spec_range().bottom == before.spec_range().bottom + delta
            &&& grown(moved, filled)
            &&& filled.spec_end().top || filled.spec_range().top <= 0
            &&& filled.spec_end().bottom || filled.spec_range().bottom >= h
            &&& covering.spec_blocks() == filled.spec_blocks()
            &&& covering.spec_end() == filled.spec_end()
            &&& covers(covering.spec_range(), h)
            &&& cursor_kept_visible(covering, spec_scroll_area(h, SCROLLOFF), old_cursor, *cursor)
            &&& self.blocks.spec_blocks() == filled.spec_blocks()
            &&& self.blocks.spec_end() == filled.spec_end()
        });
        Ok(())
    }

    /// Scrolls so that the cursor's block is in the middle of the screen
    /// (where it has one), then makes the cursor visible and keeps the
    /// screen covered.
    pub fn center_cursor(&mut self, cursor: &Cursor<u64>)
        requires
            old(self).wf(),
        ensures
            final(self).wf(),
            final(self).spec_context() == old(self).spec_context(),
            final(self).settled(),
            final(self).spec_blocks().spec_blocks() == old(self).spec_blocks().spec_blocks(),
    {
        let h = self.context.height;
        let cursor_id = TreeBlockId::from_cursor(cursor);
        proof {
            lemma_first_block_in(self.blocks.spec_blocks(), cursor_id, 0);
            lemma_wf_extent(self.blocks);
        }
        let present = self.blocks.find_block(&cursor_id).is_some();
        if present {
            let ghost i = first_block_with_id(self.blocks.spec_blocks(), cursor_id, 0)->0;
            proof {
                lemma_block_within(self.blocks, i);
                assert(block_ok(self.blocks.spec_blocks()[i]));
            }
            scroll_so_block_is_centered(&mut self.blocks, &cursor_id, h);
            proof {
                lemma_wf_extent(self.blocks);
                self.lemma_scrolled_within(i);
            }
        }
        self.make_cursor_visible(cursor);
        proof {
            lemma_wf_extent(self.blocks);
            lemma_heights_nonneg(self.blocks.spec_blocks());
        }
        clamp_scroll_biased_downwards(&mut self.blocks, h);
    }

    /// What is kept of this drawing for the next: the cursor, the line its
    /// block starts at (where it has none, the line the last cursor was
    /// drawn at), and the messages visible on the screen.
    pub fn update_render_info(&self, cursor: &Cursor<u64>) -> (r: (Cursor<u64>, i32, Vec<u64>))
        requires
            self.wf(),
        ensures
            r.0 == *cursor,
            r.1 == match first_block_with_id(self.spec_blocks().spec_blocks(), spec_block_id(*cursor), 0) {
                Some(i) => self.spec_blocks().block_range(i).0,
                None => self.spec_context().last_cursor_top as int,
            },
            self.settled() ==> -MAX_OFFSET <= r.1 <= MAX_OFFSET,
            r.2@ == visible_msg_ids(
                self.spec_blocks(),
                self.spec_context().height,
                self.spec_blocks().spec_blocks().len() as int,
            ),
    {
        let h = self.context.height;
        let cursor_id = TreeBlockId::from_cursor(cursor);
        assert(cursor_id == spec_block_id(*cursor));
        proof {
            lemma_first_block_in(self.blocks.spec_blocks(), cursor_id, 0);
            lemma_wf_extent(self.blocks);
            self.lemma_all_within();
            if let Some(k) = first_block_with_id(self.blocks.spec_blocks(), cursor_id, 0) {
                lemma_block_within(self.blocks, k);
            }
        }
        let top = match self.blocks.find_block(&cursor_id) {
            Some((range, _)) => range.top,
            None => self.context.last_cursor_top,
        };
        let area = visible_area(h);
        let ranges = self.blocks.ranges();
        let n = self.blocks.len();
        let mut visible: Vec<u64> = Vec::new();
        let mut i: usize = 0;
        while i < n
            invariant
                self.wf(),
                n == self.blocks.spec_blocks().len(),
                ranges@.len() == n,
                forall|k: int|
                    0 <= k < n ==> (#[trigger] ranges@[k]).top == self.blocks.block_range(k).0
                        && ranges@[k].bottom == self.blocks.block_range(k).1,
                forall|j: int| 0 <= j < n ==> #[trigger] within_reach(self.spec_blocks(), j),
                area.top == 0,
                area.bottom == h,
                h == self.context.height,
                i <= n,
                visible@ == visible_msg_ids(self.blocks, h, i as int),
            decreases n - i,
        {
            let range = ranges[i];
            assert(within_reach(self.spec_blocks(), i as int));
            if let TreeBlockId::Msg(id) = self.blocks.get(i).id() {
                if overlaps(area, range) {
                    visible.push(*id);
                }
            }
            i += 1;
        }
        (*cursor, top, visible)
    }
}

impl<W> TreeRenderer<W> {
    /// The blocks whose focus is visible on the screen, each with the lines
    /// it takes up, from the top down.
    pub fn into_visible_blocks(self) -> (r: Vec<(Range<i32>, Block<TreeBlockId<u64>, W>)>)
        requires
            self.wf(),
        ensures
            r@ == visible_blocks(
                self.spec_blocks(),
                self.spec_context().height,
                self.spec_blocks().spec_blocks().len() as int,
            ),
    {
        proof {
            self.lemma_all_within();
        }
        let h = self.context.height;
        let area = visible_area(h);
        let ghost b = self.blocks;
        let all = self.blocks.into_iter();
        let mut out: Vec<(Range<i32>, Block<TreeBlockId<u64>, W>)> = Vec::new();
        let mut rest = all;
        let ghost items = rest@;
        let mut i: usize = 0;
        let n = rest.len();
        assert(items.skip(0) =~= items);
        while i < n
            invariant
                n == items.len(),
                n == b.spec_blocks().len(),
                i <= n,
                rest@ == items.skip(i as int),
                forall|k: int|
                    0 <= k < n ==> (#[trigger] items[k]).1 == b.spec_blocks()[k] && items[k].0.top
                        == b.block_range(k).0 && items[k].0.bottom == b.block_range(k).1,
                forall|j: int| 0 <= j < n ==> #[trigger] within_reach(b, j),
                area.top == 0,
                area.bottom == h,
                out@ == visible_blocks(b, h, i as int),
            decreases n - i,
        {
            proof {
                assert(rest@[0] == items[i as int]);
            }
            let (range, block) = rest.remove(0);
            assert(rest@ =~= items.skip(i + 1));
            assert(within_reach(b, i as int));
            let focus = block.focus(range);
            if overlaps(area, focus) {
                out.push((range, block));
            }
            i += 1;
        }
        out
    }
}

} // verus!
