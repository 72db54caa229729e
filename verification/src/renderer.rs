//! Scrolling arithmetic for stacks of blocks shown in an area of the screen.

use vstd::prelude::*;

use crate::blocks::{
    first_block_with_id, fits_i32, heights, lemma_block_within, lemma_first_block_in, Blocks, Range,
};
use vstd::std_specs::cmp::PartialEqSpec;

verus! {

/// `x` restricted to `[lo, hi]` (for `lo <= hi`), as `x.clamp(lo, hi)`.
pub open spec fn clamp_to(x: int, lo: int, hi: int) -> int {
    if x < lo {
        lo
    } else if x > hi {
        hi
    } else {
        x
    }
}

/// The range is not upside down.
pub open spec fn range_ok(r: Range<i32>) -> bool {
    r.top <= r.bottom
}

/// The object touches the area: an empty object (or an object meeting an
/// empty area) must lie within it or on its border; otherwise at least one
/// line of the object must lie within the area.
pub open spec fn touches(area: (int, int), object: (int, int)) -> bool {
    if object.0 == object.1 || area.0 == area.1 {
        area.0 <= object.1 && object.0 <= area.1
    } else {
        area.0 < object.1 && object.0 < area.1
    }
}

/// The object lies fully within the area.
pub open spec fn within(area: (int, int), object: (int, int)) -> bool {
    area.0 <= object.0 && object.1 <= area.1
}

/// `r` as a pair of integers, moved down by `d`.
pub open spec fn moved(r: Range<i32>, d: int) -> (int, int) {
    (r.top + d, r.bottom + d)
}

/// The smallest and largest shifts after which the object touches the area.
pub open spec fn touch_bounds(area: Range<i32>, object: Range<i32>) -> (int, int) {
    if object.top == object.bottom || area.top == area.bottom {
        (area.top - object.bottom, area.bottom - object.top)
    } else {
        ((area.top + 1) - object.bottom, (area.bottom - 1) - object.top)
    }
}

/// The shift, as close to zero as possible, after which the object touches the area.
pub open spec fn spec_overlap_delta(area: Range<i32>, object: Range<i32>) -> int {
    clamp_to(0, touch_bounds(area, object).0, touch_bounds(area, object).1)
}

/// The shift, as close to zero as possible, after which the object lies within
/// the area; an object higher than the area is moved to its top.
pub open spec fn spec_full_overlap_delta(area: Range<i32>, object: Range<i32>) -> int {
    let move_to_top = area.top - object.top;
    let move_to_bottom = area.bottom - object.bottom;
    let m = if 0 < move_to_bottom {
        0
    } else {
        move_to_bottom
    };
    if m < move_to_top {
        move_to_top
    } else {
        m
    }
}

/// The shifts of the object fit into `i32` arithmetic.
pub open spec fn delta_fits(area: Range<i32>, object: Range<i32>) -> bool {
    &&& fits_i32(area.top - object.bottom)
    &&& fits_i32(area.bottom - object.top)
    &&& fits_i32((area.top + 1) - object.bottom)
    &&& fits_i32((area.bottom - 1) - object.top)
}

/// All lines a renderer of the given height shows.
pub fn visible_area(height: u16) -> (r: Range<i32>)
    ensures
        r.top == 0,
        r.bottom == height,
{
    Range::new(0, height as i32)
}

/// The visible area reduced by `scrolloff` lines at the top and bottom (but
/// never upside down).
pub fn scroll_area(height: u16, scrolloff: i32) -> (r: Range<i32>)
    requires
        fits_i32(height - scrolloff),
    ensures
        r.top == scrolloff,
        r.bottom == if scrolloff > height - scrolloff {
            scrolloff as int
        } else {
            height - scrolloff
        },
{
    let range = visible_area(height);
    let top = range.top + scrolloff;
    let rest = range.bottom - scrolloff;
    let bottom = if top > rest {
        top
    } else {
        rest
    };
    Range::new(top, bottom)
}

/// Compute a delta that makes the object partially or fully overlap the area
/// when added to the object. This delta is as close to zero as possible.
///
/// If the object has a height of zero, it must be within the area or exactly on
/// its border to be considered overlapping.
///
/// If the object has a nonzero height, at least one line of the object must be
/// within the area for the object to be considered overlapping.
pub fn overlap_delta(area: Range<i32>, object: Range<i32>) -> (r: i32)
    requires
        range_ok(object),
        range_ok(area),
        delta_fits(area, object),
    ensures
        r == spec_overlap_delta(area, object),
        touches((area.top as int, area.bottom as int), moved(object, r as int)),
        forall|d: int|
            #[trigger] touches((area.top as int, area.bottom as int), moved(object, d)) ==> (if r
                >= 0 {
                r as int
            } else {
                -r
            }) <= (if d >= 0 {
                d
            } else {
                -d
            }),
{
    if object.top == object.bottom || area.top == area.bottom {
        // Delta that moves the object.bottom to area.top. If this is positive,
        // we need to move the object because it is too high.
        let move_to_top = area.top - object.bottom;

        // Delta that moves the object.top to area.bottom. If this is negative,
        // we need to move the object because it is too low.
        let move_to_bottom = area.bottom - object.top;

        if 0 < move_to_top {
            move_to_top
        } else if 0 > move_to_bottom {
            move_to_bottom
        } else {
            0
        }
    } else {
        // Delta that moves object.bottom one line below area.top. If this is
        // positive, we need to move the object because it is too high.
        let move_to_top = (area.top + 1) - object.bottom;

        // Delta that moves object.top one line above area.bottom. If this is
        // negative, we need to move the object because it is too low.
        let move_to_bottom = (area.bottom - 1) - object.top;

        if 0 < move_to_top {
            move_to_top
        } else if 0 > move_to_bottom {
            move_to_bottom
        } else {
            0
        }
    }
}

/// Whether the object overlaps the area in the sense of [`overlap_delta`].
pub fn overlaps(area: Range<i32>, object: Range<i32>) -> (r: bool)
    requires
        range_ok(object),
        range_ok(area),
        delta_fits(area, object),
    ensures
        r == touches((area.top as int, area.bottom as int), (object.top as int, object.bottom as int)),
{
    let d = overlap_delta(area, object);
    assert(moved(object, 0) == (object.top as int, object.bottom as int));
    d == 0
}

/// Move the object such that it overlaps the area.
pub fn overlap(area: Range<i32>, object: Range<i32>) -> (r: Range<i32>)
    requires
        range_ok(object),
        range_ok(area),
        delta_fits(area, object),
        fits_i32(object.top + spec_overlap_delta(area, object)),
        fits_i32(object.bottom + spec_overlap_delta(area, object)),
    ensures
        r.top == object.top + spec_overlap_delta(area, object),
        r.bottom == object.bottom + spec_overlap_delta(area, object),
        touches((area.top as int, area.bottom as int), (r.top as int, r.bottom as int)),
{
    object.shifted(overlap_delta(area, object))
}

/// Compute a delta that makes the object fully overlap the area when added to
/// the object. This delta is as close to zero as possible.
///
/// If the object is higher than the area, it is moved such that
/// object.top == area.top.
pub fn full_overlap_delta(area: Range<i32>, object: Range<i32>) -> (r: i32)
    requires
        range_ok(object),
        range_ok(area),
        fits_i32(area.top - object.top),
        fits_i32(area.bottom - object.bottom),
    ensures
        r == spec_full_overlap_delta(area, object),
        object.bottom - object.top <= area.bottom - area.top ==> within(
            (area.top as int, area.bottom as int),
            moved(object, r as int),
        ),
        object.bottom - object.top > area.bottom - area.top ==> object.top + r == area.top,
        object.bottom - object.top <= area.bottom - area.top ==> forall|d: int|
            #[trigger] within((area.top as int, area.bottom as int), moved(object, d)) ==> (if r
                >= 0 {
                r as int
            } else {
                -r
            }) <= (if d >= 0 {
                d
            } else {
                -d
            }),
{
    // Delta that moves object.top to area.top. If this is positive, we need to
    // move the object because it is too high.
    let move_to_top = area.top - object.top;

    // Delta that moves object.bottom to area.bottom. If this is negative, we
    // need to move the object because it is too low.
    let move_to_bottom = area.bottom - object.bottom;

    // If the object is higher than the area, move_to_top becomes larger than
    // move_to_bottom. In that case, this function returns move_to_top.
    let m = if 0 < move_to_bottom {
        0
    } else {
        move_to_bottom
    };
    if m < move_to_top {
        move_to_top
    } else {
        m
    }
}

/// Scrolls the blocks so that they end at the top of the visible area.
pub fn scroll_blocks_fully_above_screen<Id, W>(blocks: &mut Blocks<Id, W>, height: u16)
    requires
        old(blocks).wf(),
        fits_i32(old(blocks).spec_range().top - old(blocks).spec_range().bottom),
        fits_i32(-old(blocks).spec_range().bottom),
    ensures
        final(blocks).wf(),
        final(blocks).spec_blocks() == old(blocks).spec_blocks(),
        final(blocks).spec_end() == old(blocks).spec_end(),
        final(blocks).spec_range().bottom == 0,
        final(blocks).spec_range().top == old(blocks).spec_range().top - old(blocks).spec_range().bottom,
{
    let area = visible_area(height);
    let range = blocks.range();
    let delta = area.top - range.bottom;
    blocks.shift(delta);
}

/// Scrolls the blocks so that they start at the bottom of the visible area.
pub fn scroll_blocks_fully_below_screen<Id, W>(blocks: &mut Blocks<Id, W>, height: u16)
    requires
        old(blocks).wf(),
        fits_i32(height + old(blocks).spec_range().bottom - old(blocks).spec_range().top),
        fits_i32(height - old(blocks).spec_range().top),
    ensures
        final(blocks).wf(),
        final(blocks).spec_blocks() == old(blocks).spec_blocks(),
        final(blocks).spec_end() == old(blocks).spec_end(),
        final(blocks).spec_range().top == height,
        final(blocks).spec_range().bottom == height + old(blocks).spec_range().bottom - old(blocks).spec_range().top,
{
    let area = visible_area(height);
    let range = blocks.range();
    proof {
        crate::blocks::lemma_heights_nonneg(blocks.spec_blocks());
    }
    let delta = area.bottom - range.top;
    blocks.shift(delta);
}

/// Scrolls the blocks as little as possible so that they cover the visible
/// area; if they are shorter than it, they are moved to its bottom.
pub fn clamp_scroll_biased_downwards<Id, W>(blocks: &mut Blocks<Id, W>, height: u16)
    requires
        old(blocks).wf(),
        fits_i32(-old(blocks).spec_range().top),
        fits_i32(height - old(blocks).spec_range().bottom),
        fits_i32(height + old(blocks).spec_range().bottom - old(blocks).spec_range().top),
        fits_i32(old(blocks).spec_range().bottom - old(blocks).spec_range().top),
    ensures
        final(blocks).wf(),
        final(blocks).spec_blocks() == old(blocks).spec_blocks(),
        final(blocks).spec_end() == old(blocks).spec_end(),
        final(blocks).spec_range().bottom - final(blocks).spec_range().top == old(blocks).spec_range().bottom - old(blocks).spec_range().top,
        ({
            let r = old(blocks).spec_range();
            let move_to_top = 0 - r.top;
            let move_to_bottom = height - r.bottom;
            let m = if 0 < move_to_top {
                0
            } else {
                move_to_top
            };
            let delta = if m < move_to_bottom {
                move_to_bottom
            } else {
                m
            };
            final(blocks).spec_range().top == r.top + delta
        }),
        old(blocks).spec_range().bottom - old(blocks).spec_range().top >= height ==> final(blocks).spec_range().top <= 0 && height <= final(blocks).spec_range().bottom,
        old(blocks).spec_range().bottom - old(blocks).spec_range().top < height ==> final(blocks).spec_range().bottom == height,
{
    let area = visible_area(height);
    let range = blocks.range();

    // Delta that moves blocks.top to the top of the screen. If this is
    // negative, we need to move the blocks because they're too low.
    let move_to_top = area.top - range.top;

    // Delta that moves blocks.bottom to the bottom of the screen. If this is
    // positive, we need to move the blocks because they're too high.
    let move_to_bottom = area.bottom - range.bottom;

    // If the screen is higher, the blocks should rather be moved to the bottom
    // than the top because of the downwards bias.
    let m = if 0 < move_to_top {
        0
    } else {
        move_to_top
    };
    let delta = if m < move_to_bottom {
        move_to_bottom
    } else {
        m
    };
    proof {
        crate::blocks::lemma_heights_nonneg(blocks.spec_blocks());
    }
    blocks.shift(delta);
}


/// Moving the blocks spanning `range` by `d` lines keeps them within `i32`.
pub open spec fn shift_fits(range: Range<i32>, d: int) -> bool {
    &&& fits_i32(d)
    &&& fits_i32(range.top + d)
    &&& fits_i32(range.bottom + d)
}

/// The lines the focus of block `i` takes up.
pub open spec fn focus_range<Id, W>(blocks: Blocks<Id, W>, i: int) -> Range<i32> {
    let top = blocks.block_range(i).0;
    let b = blocks.spec_blocks()[i];
    Range { top: (top + b.spec_focus().top) as i32, bottom: (top + b.spec_focus().bottom) as i32 }
}

/// The scroll area of a renderer of the given height and scrolloff.
pub open spec fn spec_scroll_area(height: u16, scrolloff: i32) -> Range<i32> {
    Range {
        top: scrolloff,
        bottom: if scrolloff > height - scrolloff {
            scrolloff
        } else {
            (height - scrolloff) as i32
        },
    }
}

/// Half of `n`, rounded toward zero (as `/ 2` on integers).
pub open spec fn half_toward_zero(n: int) -> int {
    if n >= 0 {
        n / 2
    } else {
        -((-n) / 2)
    }
}

/// Scrolls so that the top of the block with id `id` is at line `top`; false
/// (and nothing moves) if there is no such block.
pub fn scroll_to_set_block_top<Id: PartialEq, W>(blocks: &mut Blocks<Id, W>, id: &Id, top: i32) -> (r: bool)
    requires
        old(blocks).wf(),
        Id::obeys_eq_spec(),
        match first_block_with_id(old(blocks).spec_blocks(), *id, 0) {
            Some(i) => shift_fits(old(blocks).spec_range(), top - old(blocks).block_range(i).0),
            None => true,
        },
    ensures
        final(blocks).wf(),
        final(blocks).spec_blocks() == old(blocks).spec_blocks(),
        final(blocks).spec_end() == old(blocks).spec_end(),
        match first_block_with_id(old(blocks).spec_blocks(), *id, 0) {
            Some(i) => r && final(blocks).block_range(i).0 == top,
            None => !r && final(blocks).spec_range() == old(blocks).spec_range(),
        },
{
    let found = match blocks.find_block(id) {
        Some((range, _)) => Some(range.top),
        None => None,
    };
    match found {
        Some(block_top) => {
            blocks.shift(top - block_top);
            true
        },
        None => false,
    }
}

/// Scrolls so that the block with id `id` is centered in the visible area,
/// going by the height of its focus.
pub fn scroll_so_block_is_centered<Id: PartialEq, W>(blocks: &mut Blocks<Id, W>, id: &Id, height: u16)
    requires
        old(blocks).wf(),
        Id::obeys_eq_spec(),
        first_block_with_id(old(blocks).spec_blocks(), *id, 0) is Some,
        ({
            let i = first_block_with_id(old(blocks).spec_blocks(), *id, 0)->0;
            let f = focus_range(*old(blocks), i);
            shift_fits(
                old(blocks).spec_range(),
                half_toward_zero(height - (f.bottom - f.top)) - old(blocks).block_range(i).0,
            )
        }),
    ensures
        final(blocks).wf(),
        final(blocks).spec_blocks() == old(blocks).spec_blocks(),
        final(blocks).spec_end() == old(blocks).spec_end(),
        ({
            let i = first_block_with_id(old(blocks).spec_blocks(), *id, 0)->0;
            let f = focus_range(*old(blocks), i);
            final(blocks).block_range(i).0 == half_toward_zero(height - (f.bottom - f.top))
        }),
{
    let ghost i = first_block_with_id(blocks.spec_blocks(), *id, 0)->0;
    proof {
        lemma_first_block_in(blocks.spec_blocks(), *id, 0);
    }
    let area = visible_area(height);
    let found = match blocks.find_block(id) {
        Some((range, block)) => {
            proof {
                lemma_block_within(*blocks, i);
            }
            let focus = block.focus(range);
            Some((range.top, focus.bottom - focus.top))
        },
        None => None,
    };
    if let Some((block_top, focus_height)) = found {
        let n = area.top + area.bottom - focus_height;
        let top = if n >= 0 {
            n / 2
        } else {
            -((-n) / 2)
        };
        blocks.shift(top - block_top);
    }
}

/// Scrolls as little as possible so that the focus of the block with id `id`
/// touches the scroll area; false (and nothing moves) if there is no such
/// block.
pub fn scroll_so_block_focus_overlaps_scroll_area<Id: PartialEq, W>(
    blocks: &mut Blocks<Id, W>,
    id: &Id,
    height: u16,
    scrolloff: i32,
) -> (r: bool)
    requires
        old(blocks).wf(),
        Id::obeys_eq_spec(),
        fits_i32(height - scrolloff),
        match first_block_with_id(old(blocks).spec_blocks(), *id, 0) {
            Some(i) => {
                let area = spec_scroll_area(height, scrolloff);
                let f = focus_range(*old(blocks), i);
                &&& delta_fits(area, f)
                &&& shift_fits(old(blocks).spec_range(), spec_overlap_delta(area, f))
            },
            None => true,
        },
    ensures
        final(blocks).wf(),
        final(blocks).spec_blocks() == old(blocks).spec_blocks(),
        final(blocks).spec_end() == old(blocks).spec_end(),
        match first_block_with_id(old(blocks).spec_blocks(), *id, 0) {
            Some(i) => {
                let area = spec_scroll_area(height, scrolloff);
                let d = spec_overlap_delta(area, focus_range(*old(blocks), i));
                &&& r
                &&& final(blocks).spec_range().top == old(blocks).spec_range().top + d
                &&& touches(
                    (area.top as int, area.bottom as int),
                    (focus_range(*final(blocks), i).top as int, focus_range(*final(blocks), i).bottom as int),
                )
            },
            None => !r && final(blocks).spec_range() == old(blocks).spec_range(),
        },
{
    let ghost i = first_block_with_id(blocks.spec_blocks(), *id, 0)->0;
    proof {
        lemma_first_block_in(blocks.spec_blocks(), *id, 0);
    }
    let area = scroll_area(height, scrolloff);
    let found = match blocks.find_block(id) {
        Some((range, block)) => {
            proof {
                lemma_block_within(*blocks, i);
            }
            let focus = block.focus(range);
            Some(overlap_delta(area, focus))
        },
        None => None,
    };
    match found {
        Some(delta) => {
            blocks.shift(delta);
            proof {
                lemma_block_within(*blocks, i);
            }
            true
        },
        None => false,
    }
}

/// Scrolls as little as possible so that the focus of the block with id `id`
/// lies within the scroll area (a focus higher than the area starts at its
/// top); false (and nothing moves) if there is no such block.
pub fn scroll_so_block_focus_fully_overlaps_scroll_area<Id: PartialEq, W>(
    blocks: &mut Blocks<Id, W>,
    id: &Id,
    height: u16,
    scrolloff: i32,
) -> (r: bool)
    requires
        old(blocks).wf(),
        Id::obeys_eq_spec(),
        fits_i32(height - scrolloff),
        match first_block_with_id(old(blocks).spec_blocks(), *id, 0) {
            Some(i) => {
                let area = spec_scroll_area(height, scrolloff);
                let f = focus_range(*old(blocks), i);
                &&& fits_i32(area.top - f.top)
                &&& fits_i32(area.bottom - f.bottom)
                &&& shift_fits(old(blocks).spec_range(), spec_full_overlap_delta(area, f))
            },
            None => true,
        },
    ensures
        final(blocks).wf(),
        final(blocks).spec_blocks() == old(blocks).spec_blocks(),
        final(blocks).spec_end() == old(blocks).spec_end(),
        match first_block_with_id(old(blocks).spec_blocks(), *id, 0) {
            Some(i) => {
                let area = spec_scroll_area(height, scrolloff);
                let f = focus_range(*old(blocks), i);
                let g = focus_range(*final(blocks), i);
                &&& r
                &&& final(blocks).spec_range().top == old(blocks).spec_range().top
                    + spec_full_overlap_delta(area, f)
                &&& f.bottom - f.top <= area.bottom - area.top ==> within(
                    (area.top as int, area.bottom as int),
                    (g.top as int, g.bottom as int),
                )
                &&& f.bottom - f.top > area.bottom - area.top ==> g.top == area.top
            },
            None => !r && final(blocks).spec_range() == old(blocks).spec_range(),
        },
{
    let ghost i = first_block_with_id(blocks.spec_blocks(), *id, 0)->0;
    proof {
        lemma_first_block_in(blocks.spec_blocks(), *id, 0);
    }
    let area = scroll_area(height, scrolloff);
    let found = match blocks.find_block(id) {
        Some((range, block)) => {
            proof {
                lemma_block_within(*blocks, i);
            }
            let focus = block.focus(range);
            Some(full_overlap_delta(area, focus))
        },
        None => None,
    };
    match found {
        Some(delta) => {
            blocks.shift(delta);
            proof {
                lemma_block_within(*blocks, i);
            }
            true
        },
        None => false,
    }
}


/// Block `j` can hold the cursor and its focus touches the area.
pub open spec fn is_visible_cursor<Id, W>(blocks: Blocks<Id, W>, area: Range<i32>, j: int) -> bool {
    &&& 0 <= j < blocks.spec_blocks().len()
    &&& blocks.spec_blocks()[j].spec_can_be_cursor()
    &&& touches(
        (area.top as int, area.bottom as int),
        (focus_range(blocks, j).top as int, focus_range(blocks, j).bottom as int),
    )
}

/// Where the cursor at the block with id `id` should go so that it is
/// visible: it stays where its focus touches the scroll area; a cursor above
/// the area moves to the topmost block that can hold it and touches the area,
/// a cursor below to the bottommost one. `None` if there is no block with
/// that id, or no block to move to.
pub fn find_cursor_starting_at<'a, Id: PartialEq, W>(
    blocks: &'a Blocks<Id, W>,
    id: &Id,
    height: u16,
    scrolloff: i32,
) -> (r: Option<&'a Id>)
    requires
        blocks.wf(),
        Id::obeys_eq_spec(),
        fits_i32(height - scrolloff),
        forall|j: int|
            0 <= j < blocks.spec_blocks().len() ==> delta_fits(
                spec_scroll_area(height, scrolloff),
                #[trigger] focus_range(*blocks, j),
            ),
    ensures
        match first_block_with_id(blocks.spec_blocks(), *id, 0) {
            None => r is None,
            Some(i) => {
                let area = spec_scroll_area(height, scrolloff);
                let d = spec_overlap_delta(area, focus_range(*blocks, i));
                if d == 0 {
                    r == Some(&blocks.spec_blocks()[i].spec_id())
                } else if d > 0 {
                    &&& (exists|j: int| is_visible_cursor(*blocks, area, j)) ==> exists|j: int|
                        #[trigger] is_visible_cursor(*blocks, area, j) && (forall|k: int|
                            0 <= k < j ==> !is_visible_cursor(*blocks, area, k)) && r == Some(
                            &blocks.spec_blocks()[j].spec_id(),
                        )
                    &&& !(exists|j: int| is_visible_cursor(*blocks, area, j)) ==> r is None
                } else {
                    &&& (exists|j: int| is_visible_cursor(*blocks, area, j)) ==> exists|j: int|
                        #[trigger] is_visible_cursor(*blocks, area, j) && (forall|k: int|
                            j < k < blocks.spec_blocks().len() ==> !is_visible_cursor(*blocks, area, k))
                            && r == Some(&blocks.spec_blocks()[j].spec_id())
                    &&& !(exists|j: int| is_visible_cursor(*blocks, area, j)) ==> r is None
                }
            },
        },
{
    proof {
        lemma_first_block_in(blocks.spec_blocks(), *id, 0);
    }
    let ghost i = first_block_with_id(blocks.spec_blocks(), *id, 0)->0;
    let area = scroll_area(height, scrolloff);
    let (range, block) = match blocks.find_block(id) {
        Some(found) => found,
        None => {
            return None;
        },
    };
    proof {
        lemma_block_within(*blocks, i);
    }
    let focus = block.focus(range);
    assert(focus == focus_range(*blocks, i));
    let delta = overlap_delta(area, focus);
    if delta == 0 {
        return Some(block.id());
    }
    let ranges = blocks.ranges();
    let n = blocks.len();
    if delta > 0 {
        let mut j: usize = 0;
        while j < n
            invariant
                blocks.wf(),
                n == blocks.spec_blocks().len(),
                ranges@.len() == n,
                forall|k: int|
                    0 <= k < n ==> (#[trigger] ranges@[k]).top == blocks.block_range(k).0
                        && ranges@[k].bottom == blocks.block_range(k).1,
                forall|k: int|
                    0 <= k < n ==> delta_fits(area, #[trigger] focus_range(*blocks, k)),
                area == spec_scroll_area(height, scrolloff),
                range_ok(area),
                first_block_with_id(blocks.spec_blocks(), *id, 0) == Some(i),
                delta == spec_overlap_delta(area, focus_range(*blocks, i)),
                delta > 0,
                j <= n,
                forall|k: int| 0 <= k < j ==> !is_visible_cursor(*blocks, area, k),
            decreases n - j,
        {
            let b = blocks.get(j);
            proof {
                lemma_block_within(*blocks, j as int);
            }
            let f = b.focus(ranges[j]);
            assert(f == focus_range(*blocks, j as int));
            if b.can_be_cursor() && overlaps(area, f) {
                assert(is_visible_cursor(*blocks, area, j as int));
                return Some(b.id());
            }
            j += 1;
        }
        None
    } else {
        let mut j: usize = n;
        while j > 0
            invariant
                blocks.wf(),
                n == blocks.spec_blocks().len(),
                ranges@.len() == n,
                forall|k: int|
                    0 <= k < n ==> (#[trigger] ranges@[k]).top == blocks.block_range(k).0
                        && ranges@[k].bottom == blocks.block_range(k).1,
                forall|k: int|
                    0 <= k < n ==> delta_fits(area, #[trigger] focus_range(*blocks, k)),
                area == spec_scroll_area(height, scrolloff),
                range_ok(area),
                first_block_with_id(blocks.spec_blocks(), *id, 0) == Some(i),
                delta == spec_overlap_delta(area, focus_range(*blocks, i)),
                delta < 0,
                j <= n,
                forall|k: int| j <= k < n ==> !is_visible_cursor(*blocks, area, k),
            decreases j,
        {
            let b = blocks.get(j - 1);
            proof {
                lemma_block_within(*blocks, j - 1);
            }
            let f = b.focus(ranges[j - 1]);
            assert(f == focus_range(*blocks, j - 1));
            if b.can_be_cursor() && overlaps(area, f) {
                assert(is_visible_cursor(*blocks, area, j - 1));
                return Some(b.id());
            }
            j -= 1;
        }
        None
    }
}

} // verus!
