//! Blocks of lines stacked on top of each other, as the chat lays them out.

use std::collections::VecDeque;

use vstd::prelude::*;
use vstd::std_specs::cmp::PartialEqSpec;

verus! {

/// A vertical range of lines: `top` is the first line, `bottom` the line
/// after the last.
#[derive(Debug, Clone, Copy, PartialEq, Eq, Structural, PartialOrd, Ord)]
pub struct Range<T> {
    pub top: T,
    pub bottom: T,
}

impl<T> Range<T> {
    pub fn new(top: T, bottom: T) -> (r: Self)
        ensures
            r.top == top,
            r.bottom == bottom,
    {
        Self { top, bottom }
    }
}

/// `x` fits into an `i32`.
pub open spec fn fits_i32(x: int) -> bool {
    i32::MIN <= x <= i32::MAX
}

impl Range<i32> {
    /// The range moved down by `delta` lines.
    pub fn shifted(self, delta: i32) -> (r: Self)
        requires
            fits_i32(self.top + delta),
            fits_i32(self.bottom + delta),
        ensures
            r.top == self.top + delta,
            r.bottom == self.bottom + delta,
    {
        Self::new(self.top + delta, self.bottom + delta)
    }

    /// The range moved so that it starts at `top`.
    pub fn with_top(self, top: i32) -> (r: Self)
        requires
            fits_i32(top - self.top),
            fits_i32(self.bottom + (top - self.top)),
        ensures
            r.top == top,
            r.bottom == self.bottom + (top - self.top),
    {
        self.shifted(top - self.top)
    }

    /// The range moved so that it ends at `bottom`.
    pub fn with_bottom(self, bottom: i32) -> (r: Self)
        requires
            fits_i32(bottom - self.bottom),
            fits_i32(self.top + (bottom - self.bottom)),
        ensures
            r.bottom == bottom,
            r.top == self.top + (bottom - self.bottom),
    {
        self.shifted(bottom - self.bottom)
    }
}

/// A drawn widget with an id, the lines it takes up, and the part of it
/// (its focus) that should be visible when it is the cursor.
pub struct Block<Id, W> {
    id: Id,
    widget: W,
    height: u16,
    focus: Range<i32>,
    can_be_cursor: bool,
}

impl<Id, W> Block<Id, W> {
    #[verifier::type_invariant]
    spec fn focus_within(&self) -> bool {
        0 <= self.focus.top <= self.focus.bottom <= self.height
    }

    pub closed spec fn spec_id(&self) -> Id {
        self.id
    }

    pub closed spec fn spec_height(&self) -> int {
        self.height as int
    }

    /// The focus, relative to the top of the block.
    pub closed spec fn spec_focus(&self) -> Range<i32> {
        self.focus
    }

    pub closed spec fn spec_can_be_cursor(&self) -> bool {
        self.can_be_cursor
    }

    pub closed spec fn spec_widget(&self) -> W {
        self.widget
    }

    /// The focus lies within the block.
    pub open spec fn focus_ok(&self) -> bool {
        0 <= self.spec_focus().top <= self.spec_focus().bottom <= self.spec_height()
    }

    /// A block of `height` lines whose focus is all of it.
    pub fn new(id: Id, widget: W, height: u16, can_be_cursor: bool) -> (r: Self)
        ensures
            r.spec_id() == id,
            r.spec_widget() == widget,
            r.spec_height() == height,
            r.spec_focus() == (Range::<i32> { top: 0, bottom: height as i32 }),
            r.spec_can_be_cursor() == can_be_cursor,
    {
        Self { id, widget, height, focus: Range::new(0, height as i32), can_be_cursor }
    }

    pub fn id(&self) -> (r: &Id)
        ensures
            *r == self.spec_id(),
    {
        &self.id
    }

    pub fn into_widget(self) -> (r: W)
        ensures
            r == self.spec_widget(),
    {
        self.widget
    }

    fn height(&self) -> (r: i32)
        ensures
            r == self.spec_height(),
    {
        self.height as i32
    }

    pub fn set_focus(&mut self, focus: Range<i32>)
        requires
            0 <= focus.top <= focus.bottom <= old(self).spec_height(),
        ensures
            final(self).spec_focus() == focus,
            final(self).spec_id() == old(self).spec_id(),
            final(self).spec_widget() == old(self).spec_widget(),
            final(self).spec_height() == old(self).spec_height(),
            final(self).spec_can_be_cursor() == old(self).spec_can_be_cursor(),
    {
        self.focus = focus;
    }

    /// The focus of the block when the block takes up `range`.
    pub fn focus(&self, range: Range<i32>) -> (r: Range<i32>)
        requires
            fits_i32(range.top + self.spec_height()),
        ensures
            self.focus_ok(),
            r.top == range.top + self.spec_focus().top,
            r.bottom == range.top + self.spec_focus().bottom,
    {
        proof {
            use_type_invariant(self);
        }
        Range::new(range.top + self.focus.top, range.top + self.focus.bottom)
    }

    pub fn can_be_cursor(&self) -> (r: bool)
        ensures
            r == self.spec_can_be_cursor(),
    {
        self.can_be_cursor
    }
}

/// The combined height of `blocks`.
pub open spec fn heights<Id, W>(blocks: Seq<Block<Id, W>>) -> int
    decreases blocks.len(),
{
    if blocks.len() == 0 {
        0
    } else {
        heights(blocks.drop_last()) + blocks.last().spec_height()
    }
}

/// The height of a single block.
pub proof fn lemma_heights_single<Id, W>(b: Block<Id, W>)
    ensures
        heights(seq![b]) == b.spec_height(),
{
    assert(seq![b].drop_last() =~= Seq::<Block<Id, W>>::empty());
    assert(heights(Seq::<Block<Id, W>>::empty()) == 0);
}

/// The height of a concatenation is the sum of the heights.
pub proof fn lemma_heights_concat<Id, W>(a: Seq<Block<Id, W>>, b: Seq<Block<Id, W>>)
    ensures
        heights(a + b) == heights(a) + heights(b),
    decreases b.len(),
{
    if b.len() == 0 {
        assert(a + b =~= a);
    } else {
        lemma_heights_concat(a, b.drop_last());
        assert((a + b).drop_last() =~= a + b.drop_last());
    }
}

/// Heights are never negative.
pub proof fn lemma_heights_nonneg<Id, W>(a: Seq<Block<Id, W>>)
    ensures
        heights(a) >= 0,
    decreases a.len(),
{
    if a.len() > 0 {
        lemma_heights_nonneg(a.drop_last());
    }
}

/// The heights of the first `i + 1` blocks are those of the first `i` plus block `i`.
pub proof fn lemma_heights_take<Id, W>(a: Seq<Block<Id, W>>, i: int)
    requires
        0 <= i < a.len(),
    ensures
        heights(a.take(i + 1)) == heights(a.take(i)) + a[i].spec_height(),
{
    assert(a.take(i + 1).drop_last() =~= a.take(i));
}

/// The heights of a prefix never exceed the heights of the whole.
pub proof fn lemma_heights_prefix<Id, W>(a: Seq<Block<Id, W>>, i: int)
    requires
        0 <= i <= a.len(),
    ensures
        0 <= heights(a.take(i)) <= heights(a),
{
    assert(a =~= a.take(i) + a.skip(i));
    lemma_heights_concat(a.take(i), a.skip(i));
    lemma_heights_nonneg(a.take(i));
    lemma_heights_nonneg(a.skip(i));
}

/// A stack of blocks spanning `range`; `end` records whether the top or bottom
/// of everything there is to show has been reached.
pub struct Blocks<Id, W> {
    blocks: VecDeque<Block<Id, W>>,
    range: Range<i32>,
    end: Range<bool>,
}

impl<Id, W> Blocks<Id, W> {
    /// The range spans exactly the blocks.
    pub closed spec fn wf(&self) -> bool {
        self.range.bottom - self.range.top == heights(self.blocks@)
    }

    pub closed spec fn spec_blocks(&self) -> Seq<Block<Id, W>> {
        self.blocks@
    }

    pub closed spec fn spec_range(&self) -> Range<i32> {
        self.range
    }

    pub closed spec fn spec_end(&self) -> Range<bool> {
        self.end
    }

    /// The lines taken up by block `i`.
    pub open spec fn block_range(&self, i: int) -> (int, int) {
        let top = self.spec_range().top + heights(self.spec_blocks().take(i));
        (top, top + self.spec_blocks()[i].spec_height())
    }

    /// No blocks, at line `at`.
    pub fn new(at: i32) -> (r: Self)
        ensures
            r.wf(),
            r.spec_blocks() == Seq::<Block<Id, W>>::empty(),
            r.spec_range() == (Range::<i32> { top: at, bottom: at }),
            r.spec_end() == (Range::<bool> { top: false, bottom: false }),
    {
        Self { blocks: VecDeque::new(), range: Range::new(at, at), end: Range::new(false, false) }
    }

    /// The lines the blocks take up; they span exactly the blocks.
    pub fn range(&self) -> (r: Range<i32>)
        requires
            self.wf(),
        ensures
            r == self.spec_range(),
            r.bottom - r.top == heights(self.spec_blocks()),
    {
        self.range
    }

    /// The number of blocks.
    pub fn len(&self) -> (r: usize)
        ensures
            r == self.spec_blocks().len(),
    {
        self.blocks.len()
    }

    /// Block `i`, counted from the top.
    pub fn get(&self, i: usize) -> (r: &Block<Id, W>)
        requires
            i < self.spec_blocks().len(),
        ensures
            *r == self.spec_blocks()[i as int],
    {
        &self.blocks[i]
    }

    pub fn end(&self) -> (r: Range<bool>)
        ensures
            r == self.spec_end(),
    {
        self.end
    }

    /// The lines each block takes up, from the top down.
    pub fn ranges(&self) -> (r: Vec<Range<i32>>)
        requires
            self.wf(),
        ensures
            r@.len() == self.spec_blocks().len(),
            forall|i: int|
                0 <= i < r@.len() ==> (#[trigger] r@[i]).top == self.block_range(i).0
                    && r@[i].bottom == self.block_range(i).1,
    {
        let mut out: Vec<Range<i32>> = Vec::new();
        let mut top = self.range.top;
        let mut i: usize = 0;
        while i < self.blocks.len()
            invariant
                i <= self.blocks@.len(),
                self.range.bottom - self.range.top == heights(self.blocks@),
                top == self.range.top + heights(self.blocks@.take(i as int)),
                out@.len() == i,
                forall|j: int|
                    0 <= j < i ==> (#[trigger] out@[j]).top == self.block_range(j).0
                        && out@[j].bottom == self.block_range(j).1,
            decreases self.blocks@.len() - i,
        {
            proof {
                lemma_heights_take(self.blocks@, i as int);
                lemma_heights_prefix(self.blocks@, i + 1);
            }
            let bottom = top + self.blocks[i].height();
            out.push(Range::new(top, bottom));
            top = bottom;
            i += 1;
        }
        out
    }

    pub fn push_top(&mut self, block: Block<Id, W>)
        requires
            old(self).wf(),
            !old(self).spec_end().top,
            fits_i32(old(self).spec_range().top - block.spec_height()),
        ensures
            final(self).wf(),
            final(self).spec_blocks() == seq![block] + old(self).spec_blocks(),
            final(self).spec_range() == (Range::<i32> {
                top: (old(self).spec_range().top - block.spec_height()) as i32,
                bottom: old(self).spec_range().bottom,
            }),
            final(self).spec_end() == old(self).spec_end(),
    {
        proof {
            lemma_heights_concat(seq![block], self.blocks@);
            lemma_heights_single(block);
        }
        self.range.top = self.range.top - block.height();
        self.blocks.push_front(block);
    }

    pub fn push_bottom(&mut self, block: Block<Id, W>)
        requires
            old(self).wf(),
            !old(self).spec_end().bottom,
            fits_i32(old(self).spec_range().bottom + block.spec_height()),
        ensures
            final(self).wf(),
            final(self).spec_blocks() == old(self).spec_blocks().push(block),
            final(self).spec_range() == (Range::<i32> {
                top: old(self).spec_range().top,
                bottom: (old(self).spec_range().bottom + block.spec_height()) as i32,
            }),
            final(self).spec_end() == old(self).spec_end(),
    {
        proof {
            assert(self.blocks@.push(block).drop_last() =~= self.blocks@);
        }
        self.range.bottom = self.range.bottom + block.height();
        self.blocks.push_back(block);
    }

    /// Puts the blocks of `other` on top of these.
    pub fn append_top(&mut self, other: Self)
        requires
            old(self).wf(),
            other.wf(),
            !old(self).spec_end().top,
            !other.spec_end().bottom,
            fits_i32(old(self).spec_range().top - heights(other.spec_blocks())),
        ensures
            final(self).wf(),
            final(self).spec_blocks() == other.spec_blocks() + old(self).spec_blocks(),
            final(self).spec_range() == (Range::<i32> {
                top: (old(self).spec_range().top - heights(other.spec_blocks())) as i32,
                bottom: old(self).spec_range().bottom,
            }),
            final(self).spec_end() == (Range::<bool> {
                top: other.spec_end().top,
                bottom: old(self).spec_end().bottom,
            }),
    {
        let ghost theirs = other.blocks@;
        let ghost ours = self.blocks@;
        let mut rest = other.blocks;
        proof {
            lemma_heights_nonneg(theirs);
            assert(theirs.take(theirs.len() as int) =~= theirs);
            assert(theirs.skip(theirs.len() as int) + ours =~= ours);
        }
        while rest.len() > 0
            invariant
                rest@ == theirs.take(rest@.len() as int),
                rest@.len() <= theirs.len(),
                self.blocks@ == theirs.skip(rest@.len() as int) + ours,
                self.range.top == old(self).range.top - heights(theirs.skip(rest@.len() as int)),
                self.range.bottom == old(self).range.bottom,
                self.end == old(self).end,
                !self.end.top,
                self.wf(),
                fits_i32(old(self).range.top - heights(theirs)),
                heights(theirs) >= 0,
            decreases rest@.len(),
        {
            let ghost k = rest@.len() as int;
            let block = rest.pop_back().unwrap();
            proof {
                assert(theirs.skip(k - 1) =~= seq![theirs[k - 1]] + theirs.skip(k));
                lemma_heights_concat(seq![theirs[k - 1]], theirs.skip(k));
                lemma_heights_single(theirs[k - 1]);
                assert(theirs =~= theirs.take(k - 1) + theirs.skip(k - 1));
                lemma_heights_concat(theirs.take(k - 1), theirs.skip(k - 1));
                lemma_heights_nonneg(theirs.take(k - 1));
                assert(rest@ =~= theirs.take(k - 1));
            }
            self.push_top(block);
            proof {
                assert(self.blocks@ =~= theirs.skip(k - 1) + ours);
            }
        }
        proof {
            assert(theirs.skip(0) =~= theirs);
        }
        self.end.top = other.end.top;
    }

    /// Puts the blocks of `other` below these.
    pub fn append_bottom(&mut self, other: Self)
        requires
            old(self).wf(),
            other.wf(),
            !old(self).spec_end().bottom,
            !other.spec_end().top,
            fits_i32(old(self).spec_range().bottom + heights(other.spec_blocks())),
        ensures
            final(self).wf(),
            final(self).spec_blocks() == old(self).spec_blocks() + other.spec_blocks(),
            final(self).spec_range() == (Range::<i32> {
                top: old(self).spec_range().top,
                bottom: (old(self).spec_range().bottom + heights(other.spec_blocks())) as i32,
            }),
            final(self).spec_end() == (Range::<bool> {
                top: old(self).spec_end().top,
                bottom: other.spec_end().bottom,
            }),
    {
        let ghost theirs = other.blocks@;
        let ghost ours = self.blocks@;
        let mut rest = other.blocks;
        proof {
            lemma_heights_nonneg(theirs);
            assert(theirs.skip(0) =~= theirs);
            assert(ours + theirs.take(0) =~= ours);
        }
        while rest.len() > 0
            invariant
                rest@ == theirs.skip(theirs.len() - rest@.len()),
                rest@.len() <= theirs.len(),
                self.blocks@ == ours + theirs.take(theirs.len() - rest@.len()),
                self.range.bottom == old(self).range.bottom + heights(
                    theirs.take(theirs.len() - rest@.len()),
                ),
                self.range.top == old(self).range.top,
                self.end == old(self).end,
                !self.end.bottom,
                self.wf(),
                fits_i32(old(self).range.bottom + heights(theirs)),
                heights(theirs) >= 0,
            decreases rest@.len(),
        {
            let ghost k = theirs.len() - rest@.len();
            let block = rest.pop_front().unwrap();
            proof {
                lemma_heights_take(theirs, k);
                lemma_heights_prefix(theirs, k + 1);
                assert(rest@ =~= theirs.skip(k + 1));
            }
            self.push_bottom(block);
            proof {
                assert(self.blocks@ =~= ours + theirs.take(k + 1));
            }
        }
        proof {
            assert(theirs.take(theirs.len() as int) =~= theirs);
        }
        self.end.bottom = other.end.bottom;
    }

    /// The blocks, from the top down, each with the lines it takes up.
    pub fn into_iter(self) -> (r: Vec<(Range<i32>, Block<Id, W>)>)
        requires
            self.wf(),
        ensures
            r@.len() == self.spec_blocks().len(),
            forall|i: int|
                0 <= i < r@.len() ==> (#[trigger] r@[i]).1 == self.spec_blocks()[i] && r@[i].0.top
                    == self.block_range(i).0 && r@[i].0.bottom == self.block_range(i).1,
    {
        let ghost all = self.blocks@;
        let ghost start = self.range.top;
        let ghost range = self.range;
        let mut rest = self.blocks;
        let mut top = self.range.top;
        let mut out: Vec<(Range<i32>, Block<Id, W>)> = Vec::new();
        assert(all.skip(0) =~= all);
        while rest.len() > 0
            invariant
                out@.len() <= all.len(),
                rest@ == all.skip(out@.len() as int),
                range.bottom - range.top == heights(all),
                start == range.top,
                top == start + heights(all.take(out@.len() as int)),
                forall|i: int|
                    0 <= i < out@.len() ==> (#[trigger] out@[i]).1 == all[i] && out@[i].0.top == start
                        + heights(all.take(i)) && out@[i].0.bottom == start + heights(all.take(i)) + all[i].spec_height(),
            decreases rest@.len(),
        {
            let ghost k = out@.len() as int;
            proof {
                lemma_heights_take(all, k);
                lemma_heights_prefix(all, k + 1);
                assert(rest@[0] == all[k]);
            }
            let block = rest.pop_front().unwrap();
            assert(rest@ =~= all.skip(k + 1));
            let bottom = top + block.height();
            out.push((Range::new(top, bottom), block));
            top = bottom;
        }
        out
    }

    pub fn end_top(&mut self)
        requires
            old(self).wf(),
        ensures
            final(self).wf(),
            final(self).spec_blocks() == old(self).spec_blocks(),
            final(self).spec_range() == old(self).spec_range(),
            final(self).spec_end() == (Range::<bool> { top: true, bottom: old(self).spec_end().bottom }),
    {
        self.end.top = true;
    }

    pub fn end_bottom(&mut self)
        requires
            old(self).wf(),
        ensures
            final(self).wf(),
            final(self).spec_blocks() == old(self).spec_blocks(),
            final(self).spec_range() == old(self).spec_range(),
            final(self).spec_end() == (Range::<bool> { top: old(self).spec_end().top, bottom: true }),
    {
        self.end.bottom = true;
    }

    /// Moves all blocks down by `delta` lines.
    pub fn shift(&mut self, delta: i32)
        requires
            old(self).wf(),
            fits_i32(old(self).spec_range().top + delta),
            fits_i32(old(self).spec_range().bottom + delta),
        ensures
            final(self).wf(),
            final(self).spec_blocks() == old(self).spec_blocks(),
            final(self).spec_end() == old(self).spec_end(),
            final(self).spec_range().top == old(self).spec_range().top + delta,
            final(self).spec_range().bottom == old(self).spec_range().bottom + delta,
    {
        self.range = self.range.shifted(delta);
    }

    /// Moves all blocks so that they start at line `top`.
    pub fn set_top(&mut self, top: i32)
        requires
            old(self).wf(),
            fits_i32(top - old(self).spec_range().top),
            fits_i32(old(self).spec_range().bottom + (top - old(self).spec_range().top)),
        ensures
            final(self).wf(),
            final(self).spec_blocks() == old(self).spec_blocks(),
            final(self).spec_end() == old(self).spec_end(),
            final(self).spec_range().top == top,
            final(self).spec_range().bottom == old(self).spec_range().bottom + (top - old(
                self,
            ).spec_range().top),
    {
        self.shift(top - self.range.top);
    }

    /// Moves all blocks so that they end at line `bottom`.
    pub fn set_bottom(&mut self, bottom: i32)
        requires
            old(self).wf(),
            fits_i32(bottom - old(self).spec_range().bottom),
            fits_i32(old(self).spec_range().top + (bottom - old(self).spec_range().bottom)),
        ensures
            final(self).wf(),
            final(self).spec_blocks() == old(self).spec_blocks(),
            final(self).spec_end() == old(self).spec_end(),
            final(self).spec_range().bottom == bottom,
            final(self).spec_range().top == old(self).spec_range().top + (bottom - old(
                self,
            ).spec_range().bottom),
    {
        self.shift(bottom - self.range.bottom);
    }
}

/// Sound blocks span exactly their heights.
pub proof fn lemma_wf_extent<Id, W>(blocks: Blocks<Id, W>)
    requires
        blocks.wf(),
    ensures
        blocks.spec_range().bottom - blocks.spec_range().top == heights(blocks.spec_blocks()),
{
}

/// The first block among `blocks` whose id equals `id`.
pub open spec fn first_block_with_id<Id: PartialEq, W>(blocks: Seq<Block<Id, W>>, id: Id, lo: int) -> Option<int>
    decreases blocks.len() - lo,
{
    if lo < 0 || lo >= blocks.len() {
        None
    } else if blocks[lo].spec_id().eq_spec(&id) {
        Some(lo)
    } else {
        first_block_with_id(blocks, id, lo + 1)
    }
}

/// Block `i` lies within the lines of the stack.
pub proof fn lemma_block_within<Id, W>(blocks: Blocks<Id, W>, i: int)
    requires
        blocks.wf(),
        0 <= i < blocks.spec_blocks().len(),
    ensures
        blocks.spec_range().top <= blocks.block_range(i).0 <= blocks.block_range(i).1
            <= blocks.spec_range().bottom,
{
    lemma_heights_take(blocks.spec_blocks(), i);
    lemma_heights_prefix(blocks.spec_blocks(), i);
    lemma_heights_prefix(blocks.spec_blocks(), i + 1);
    lemma_heights_nonneg(blocks.spec_blocks().take(i));
}

/// The first block with a given id, if any, lies at or after `lo` and has
/// that id.
pub proof fn lemma_first_block_in<Id: PartialEq, W>(blocks: Seq<Block<Id, W>>, id: Id, lo: int)
    ensures
        first_block_with_id(blocks, id, lo) matches Some(i) ==> lo <= i < blocks.len()
            && blocks[i].spec_id().eq_spec(&id),
    decreases blocks.len() - lo,
{
    if 0 <= lo < blocks.len() && !blocks[lo].spec_id().eq_spec(&id) {
        lemma_first_block_in(blocks, id, lo + 1);
    }
}

impl<Id: PartialEq, W> Blocks<Id, W> {
    /// The first block with id `id` and the lines it takes up.
    pub fn find_block(&self, id: &Id) -> (r: Option<(Range<i32>, &Block<Id, W>)>)
        requires
            self.wf(),
        ensures
            Id::obeys_eq_spec() ==> match first_block_with_id(self.spec_blocks(), *id, 0) {
                Some(i) => r matches Some((range, block)) && *block == self.spec_blocks()[i]
                    && range.top == self.block_range(i).0 && range.bottom == self.block_range(i).1,
                None => r is None,
            },
            r matches Some((range, block)) ==> exists|i: int|
                0 <= i < self.spec_blocks().len() && *block == #[trigger] self.spec_blocks()[i]
                    && range.top == self.block_range(i).0 && range.bottom == self.block_range(i).1,
    {
        let mut top = self.range.top;
        let mut i: usize = 0;
        while i < self.blocks.len()
            invariant
                i <= self.blocks@.len(),
                self.range.bottom - self.range.top == heights(self.blocks@),
                top == self.range.top + heights(self.blocks@.take(i as int)),
                Id::obeys_eq_spec() ==> first_block_with_id(self.blocks@, *id, 0) == first_block_with_id(
                    self.blocks@,
                    *id,
                    i as int,
                ),
            decreases self.blocks@.len() - i,
        {
            proof {
                lemma_heights_take(self.blocks@, i as int);
                lemma_heights_prefix(self.blocks@, i + 1);
            }
            let block = &self.blocks[i];
            let bottom = top + block.height();
            if block.id.eq(id) {
                return Some((Range::new(top, bottom), block));
            }
            top = bottom;
            i += 1;
        }
        None
    }
}

} // verus!
