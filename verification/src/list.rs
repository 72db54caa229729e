//! State of a scrollable list whose rows may or may not be selectable.

use vstd::prelude::*;
use vstd::std_specs::cmp::PartialEqSpec;

use crate::keys::KeyMatches;

verus! {

/// Row `i` of `rows` exists and can hold the cursor.
pub open spec fn selectable<Id>(rows: Seq<Option<Id>>, i: int) -> bool {
    0 <= i < rows.len() && rows[i] is Some
}

/// No row in `[lo, hi)` is selectable.
pub open spec fn none_selectable_in<Id>(rows: Seq<Option<Id>>, lo: int, hi: int) -> bool {
    forall|j: int| lo <= j < hi ==> !#[trigger] selectable(rows, j)
}

/// `found` is the first selectable row in `[lo, hi)`, or `None` if there is none.
pub open spec fn is_first_selectable_in<Id>(
    rows: Seq<Option<Id>>,
    lo: int,
    hi: int,
    found: Option<int>,
) -> bool {
    match found {
        Some(i) => lo <= i < hi && selectable(rows, i) && none_selectable_in(rows, lo, i),
        None => none_selectable_in(rows, lo, hi),
    }
}

/// `found` is the last selectable row in `[lo, hi)`, or `None` if there is none.
pub open spec fn is_last_selectable_in<Id>(
    rows: Seq<Option<Id>>,
    lo: int,
    hi: int,
    found: Option<int>,
) -> bool {
    match found {
        Some(i) => lo <= i < hi && selectable(rows, i) && none_selectable_in(rows, i + 1, hi),
        None => none_selectable_in(rows, lo, hi),
    }
}

/// The first selectable row in `[lo, hi)`.
pub open spec fn first_selectable_in<Id>(rows: Seq<Option<Id>>, lo: int, hi: int) -> Option<int>
    decreases hi - lo,
{
    if lo >= hi {
        None
    } else if selectable(rows, lo) {
        Some(lo)
    } else {
        first_selectable_in(rows, lo + 1, hi)
    }
}

/// The last selectable row in `[lo, hi)`.
pub open spec fn last_selectable_in<Id>(rows: Seq<Option<Id>>, lo: int, hi: int) -> Option<int>
    decreases hi - lo,
{
    if lo >= hi {
        None
    } else if selectable(rows, hi - 1) {
        Some(hi - 1)
    } else {
        last_selectable_in(rows, lo, hi - 1)
    }
}

/// `first_selectable_in` is the one row characterized by `is_first_selectable_in`.
pub proof fn lemma_first_selectable_in<Id>(rows: Seq<Option<Id>>, lo: int, hi: int)
    ensures
        is_first_selectable_in(rows, lo, hi, first_selectable_in(rows, lo, hi)),
        forall|found: Option<int>|
            #[trigger] is_first_selectable_in(rows, lo, hi, found) ==> found
                == first_selectable_in(rows, lo, hi),
    decreases hi - lo,
{
    if lo < hi {
        lemma_first_selectable_in(rows, lo + 1, hi);
    }
    assert forall|found: Option<int>| #[trigger]
        is_first_selectable_in(rows, lo, hi, found) implies found == first_selectable_in(
        rows,
        lo,
        hi,
    ) by {
        let f = first_selectable_in(rows, lo, hi);
        if let (Some(i), Some(j)) = (found, f) {
            if i < j {
                assert(!selectable(rows, i));
            } else if j < i {
                assert(!selectable(rows, j));
            }
        } else if let Some(i) = found {
            assert(!selectable(rows, i));
        } else if let Some(j) = f {
            assert(!selectable(rows, j));
        }
    }
}

/// `last_selectable_in` is the one row characterized by `is_last_selectable_in`.
pub proof fn lemma_last_selectable_in<Id>(rows: Seq<Option<Id>>, lo: int, hi: int)
    ensures
        is_last_selectable_in(rows, lo, hi, last_selectable_in(rows, lo, hi)),
        forall|found: Option<int>|
            #[trigger] is_last_selectable_in(rows, lo, hi, found) ==> found
                == last_selectable_in(rows, lo, hi),
    decreases hi - lo,
{
    if lo < hi {
        lemma_last_selectable_in(rows, lo, hi - 1);
    }
    assert forall|found: Option<int>| #[trigger]
        is_last_selectable_in(rows, lo, hi, found) implies found == last_selectable_in(
        rows,
        lo,
        hi,
    ) by {
        let f = last_selectable_in(rows, lo, hi);
        if let (Some(i), Some(j)) = (found, f) {
            if i < j {
                assert(!selectable(rows, j));
            } else if j < i {
                assert(!selectable(rows, i));
            }
        } else if let Some(i) = found {
            assert(!selectable(rows, i));
        } else if let Some(j) = f {
            assert(!selectable(rows, j));
        }
    }
}

/// `usize` addition that stops at the largest value.
pub open spec fn sat_add(a: int, b: int) -> int {
    if a + b > usize::MAX {
        usize::MAX as int
    } else {
        a + b
    }
}

/// `usize` subtraction that stops at zero.
pub open spec fn sat_sub(a: int, b: int) -> int {
    if a - b < 0 {
        0
    } else {
        a - b
    }
}

/// `x` restricted to `[lo, hi]` (assuming `lo <= hi`).
pub open spec fn clamp(x: int, lo: int, hi: int) -> int {
    if x < lo {
        lo
    } else if x > hi {
        hi
    } else {
        x
    }
}

/// The largest offset at which the list still fills its height.
pub open spec fn max_offset(len: int, height: int) -> int {
    sat_sub(len, height)
}

/// The offset after scrolling so that row `idx` is visible (unchanged when
/// nothing is visible).
pub open spec fn offset_showing(offset: int, idx: int, height: int) -> int {
    if height == 0 {
        offset
    } else {
        clamp(offset, sat_sub(idx + 1, height), idx)
    }
}

/// The offset after moving the cursor to row `idx`: the row is scrolled into
/// view, then the scrolling is clamped to the list.
pub open spec fn offset_after_move(offset: int, idx: int, height: int, len: int) -> int {
    clamp(offset_showing(offset, idx, height), 0, max_offset(len, height))
}

/// Where the cursor points to: an id and the index of its row.
#[derive(Debug)]
struct Cursor<Id> {
    id: Id,
    idx: usize,
}

impl<Id> Cursor<Id> {
    fn new(id: Id, idx: usize) -> (r: Self)
        ensures
            r.id == id,
            r.idx == idx,
    {
        Self { id, idx }
    }
}

/// `c` is a cursor at row `found`, holding a clone of that row's id, or both are `None`.
spec fn cursor_at<Id: Clone>(rows: Seq<Option<Id>>, c: Option<Cursor<Id>>, found: Option<int>) -> bool {
    match (c, found) {
        (Some(c), Some(i)) => c.idx == i && 0 <= i < rows.len() && rows[i] is Some && cloned(
            rows[i]->0,
            c.id,
        ),
        (None, None) => true,
        _ => false,
    }
}

/// Index of the row a cursor points to.
spec fn idx_of<Id>(c: Option<Cursor<Id>>) -> Option<int> {
    match c {
        Some(c) => Some(c.idx as int),
        None => None,
    }
}

/// State of a list widget: scroll offset, cursor, and the rows and height from
/// the last time it was drawn.
#[derive(Debug)]
pub struct ListState<Id> {
    offset: usize,
    cursor: Option<Cursor<Id>>,
    last_height: u16,
    last_rows: Vec<Option<Id>>,
}

impl<Id> ListState<Id> {
    /// Amount of lines the list is scrolled down by.
    pub closed spec fn spec_offset(&self) -> int {
        self.offset as int
    }

    /// Index of the cursor's row, if there is a cursor.
    pub closed spec fn spec_cursor_idx(&self) -> Option<int> {
        match self.cursor {
            Some(c) => Some(c.idx as int),
            None => None,
        }
    }

    /// Id held by the cursor, if there is a cursor.
    pub closed spec fn spec_cursor_id(&self) -> Option<Id> {
        match self.cursor {
            Some(c) => Some(c.id),
            None => None,
        }
    }

    /// Height of the list when it was last drawn.
    pub closed spec fn spec_height(&self) -> int {
        self.last_height as int
    }

    /// Rows of the list when it was last drawn (`None` for rows that cannot be selected).
    pub closed spec fn spec_rows(&self) -> Seq<Option<Id>> {
        self.last_rows@
    }

    /// The cursor, if any, sits on a selectable row.
    pub open spec fn cursor_on_selectable(&self) -> bool {
        match self.spec_cursor_idx() {
            Some(i) => selectable(self.spec_rows(), i),
            None => true,
        }
    }

    /// The scroll offset does not scroll past the end of the list.
    pub open spec fn scroll_clamped(&self) -> bool {
        0 <= self.spec_offset() <= max_offset(self.spec_rows().len() as int, self.spec_height())
    }

    /// The cursor's row lies within the visible lines.
    pub open spec fn cursor_visible(&self) -> bool {
        match self.spec_cursor_idx() {
            Some(i) => self.spec_offset() <= i < self.spec_offset() + self.spec_height(),
            None => true,
        }
    }

    #[verifier::type_invariant]
    spec fn cursor_idx_bounded(&self) -> bool {
        self.cursor matches Some(c) ==> c.idx < usize::MAX
    }

    /// `new` has the same rows and height as `self`.
    pub open spec fn same_rows(self, new: Self) -> bool {
        &&& new.spec_rows() == self.spec_rows()
        &&& new.spec_height() == self.spec_height()
    }

    /// `new` is `self` after the cursor moved to row `found`, if that is
    /// `Some`: the cursor holds that row's id and the row is scrolled into view.
    /// With `None`, nothing changes.
    pub open spec fn moved_cursor_to(self, new: Self, found: Option<int>) -> bool
        where Id: Clone,
    {
        self.same_rows(new) && self.moved_cursor_among(self.spec_rows(), new, found)
    }

    /// `new` is `self` with its rows replaced by `rows` and its cursor moved to
    /// row `found` of them, if that is `Some`; with `None`, the cursor and
    /// offset stay.
    pub open spec fn moved_cursor_among(self, rows: Seq<Option<Id>>, new: Self, found: Option<int>) -> bool
        where Id: Clone,
    {
        &&& new.spec_rows() == rows
        &&& new.spec_height() == self.spec_height()
        &&& match found {
            Some(i) => {
                &&& new.spec_cursor_idx() == Some(i)
                &&& 0 <= i < rows.len()
                &&& rows[i] is Some
                &&& new.spec_cursor_id() is Some
                &&& cloned(rows[i]->0, new.spec_cursor_id()->0)
                &&& new.spec_offset() == offset_after_move(
                    self.spec_offset(),
                    i,
                    self.spec_height(),
                    rows.len() as int,
                )
            },
            None => {
                &&& new.spec_cursor_idx() == self.spec_cursor_idx()
                &&& new.spec_cursor_id() == self.spec_cursor_id()
                &&& new.spec_offset() == self.spec_offset()
            },
        }
    }

    /// `new` is `self` scrolled to `target` lines (clamped to the list), with
    /// the cursor moved to the nearest selectable visible row if it left the
    /// visible lines.
    pub open spec fn scrolled_to(self, new: Self, target: int) -> bool
        where Id: Clone,
    {
        let rows = self.spec_rows();
        let len = rows.len() as int;
        let h = self.spec_height();
        let offset = clamp(target, 0, max_offset(len, h));
        let last = sat_sub(sat_add(offset, h), 1);
        let found = match self.spec_cursor_idx() {
            Some(i) => if i < offset {
                first_selectable_in(rows, offset, len)
            } else if i > last {
                last_selectable_in(rows, 0, last + 1)
            } else {
                None
            },
            None => None,
        };
        &&& self.same_rows(new)
        &&& new.spec_offset() == offset
        &&& match found {
            Some(j) => new.spec_cursor_idx() == Some(j) && new.spec_cursor_id() is Some && cloned(
                rows[j]->0,
                new.spec_cursor_id()->0,
            ),
            None => new.spec_cursor_idx() == self.spec_cursor_idx() && new.spec_cursor_id()
                == self.spec_cursor_id(),
        }
    }

    /// The cursor holds an id exactly when it sits at a row.
    pub open spec fn cursor_holds_id(&self) -> bool {
        self.spec_cursor_id() is Some <==> self.spec_cursor_idx() is Some
    }

    /// Every list's cursor holds an id exactly when it sits at a row.
    pub proof fn lemma_cursor_holds_id(&self)
        ensures
            self.cursor_holds_id(),
    {
    }

    pub fn new() -> (r: Self)
        ensures
            r.spec_offset() == 0,
            r.spec_cursor_idx() is None,
            r.spec_cursor_id() is None,
            r.spec_height() == 0,
            r.spec_rows() == Seq::<Option<Id>>::empty(),
    {
        Self { offset: 0, cursor: None, last_height: 0, last_rows: Vec::new() }
    }

    /// The id the cursor points to.
    /// The rows the list was last built with.
    pub fn rows(&self) -> (r: &Vec<Option<Id>>)
        ensures
            r@ == self.spec_rows(),
    {
        &self.last_rows
    }

    pub fn selected(&self) -> (r: Option<&Id>)
        ensures
            match r {
                Some(id) => self.spec_cursor_id() == Some(*id),
                None => self.spec_cursor_id() is None,
            },
    {
        match &self.cursor {
            Some(cursor) => Some(&cursor.id),
            None => None,
        }
    }

    /// Records the height the list is drawn with and returns the indices of
    /// the rows that are drawn, from the top of the widget down.
    pub fn draw_range(&mut self, height: u16) -> (r: core::ops::Range<usize>)
        ensures
            final(self).spec_height() == height,
            final(self).spec_offset() == old(self).spec_offset(),
            final(self).spec_cursor_idx() == old(self).spec_cursor_idx(),
            final(self).spec_cursor_id() == old(self).spec_cursor_id(),
            final(self).spec_rows() == old(self).spec_rows(),
            r.start == (if old(self).spec_offset() < old(self).spec_rows().len() {
                old(self).spec_offset()
            } else {
                old(self).spec_rows().len() as int
            }),
            r.end == (if old(self).spec_offset() + height < old(self).spec_rows().len() {
                old(self).spec_offset() + height
            } else {
                old(self).spec_rows().len() as int
            }),
    {
        proof {
            use_type_invariant(&*self);
        }
        self.last_height = height;
        let len = self.last_rows.len();
        let start = if self.offset < len {
            self.offset
        } else {
            len
        };
        let end = if (height as usize) < len - start {
            start + height as usize
        } else {
            len
        };
        start..end
    }
}

impl<Id: Clone> ListState<Id> {
    fn first_selectable(&self) -> (r: Option<Cursor<Id>>)
        ensures
            idx_of(r) == first_selectable_in(self.last_rows@, 0, self.last_rows@.len() as int),
            cursor_at(self.last_rows@, r, idx_of(r)),
    {
        self.find_first_in(0, self.last_rows.len())
    }

    fn last_selectable(&self) -> (r: Option<Cursor<Id>>)
        ensures
            idx_of(r) == last_selectable_in(self.last_rows@, 0, self.last_rows@.len() as int),
            cursor_at(self.last_rows@, r, idx_of(r)),
    {
        self.find_last_in(0, self.last_rows.len())
    }

    fn selectable_at_or_before_index(&self, i: usize) -> (r: Option<Cursor<Id>>)
        requires
            i < usize::MAX,
        ensures
            idx_of(r) == last_selectable_in(self.last_rows@, 0, i + 1),
            cursor_at(self.last_rows@, r, idx_of(r)),
    {
        self.find_last_in(0, i + 1)
    }

    fn selectable_at_or_after_index(&self, i: usize) -> (r: Option<Cursor<Id>>)
        ensures
            idx_of(r) == first_selectable_in(self.last_rows@, i as int, self.last_rows@.len() as int),
            cursor_at(self.last_rows@, r, idx_of(r)),
    {
        self.find_first_in(i, self.last_rows.len())
    }

    fn selectable_before_index(&self, i: usize) -> (r: Option<Cursor<Id>>)
        ensures
            idx_of(r) == last_selectable_in(self.last_rows@, 0, i as int),
            cursor_at(self.last_rows@, r, idx_of(r)),
    {
        self.find_last_in(0, i)
    }

    fn selectable_after_index(&self, i: usize) -> (r: Option<Cursor<Id>>)
        requires
            i < usize::MAX,
        ensures
idx_of(r) == first_selectable_in(self.last_rows@, i + 1, self.last_rows@.len() as int),
            cursor_at(self.last_rows@, r, idx_of(r)),
    {
        self.find_first_in(i + 1, self.last_rows.len())
    }

    fn move_cursor_to_make_it_visible(&mut self)
        ensures
            final(self).same_rows(*old(self)),
            final(self).spec_offset() == old(self).spec_offset(),
            old(self).scroll_clamped() ==> old(self).scrolled_to(*final(self), old(self).spec_offset()),
    {
        proof {
            use_type_invariant(&*self);
        }
        if let Some(cursor) = &self.cursor {
            let first_visible_line_idx = self.offset;
            let last_visible_line_idx = self.offset.saturating_add(
                self.last_height as usize,
            ).saturating_sub(1);

            let new_cursor = if cursor.idx < first_visible_line_idx {
                self.selectable_at_or_after_index(first_visible_line_idx)
            } else if cursor.idx > last_visible_line_idx {
                self.selectable_at_or_before_index(last_visible_line_idx)
            } else {
                return ;
            };

            if let Some(new_cursor) = new_cursor {
                assert(new_cursor.idx < self.last_rows.len());
                self.cursor = Some(new_cursor);
            }
        }
    }

    fn scroll_so_cursor_is_visible(&mut self)
        ensures
            final(self).same_rows(*old(self)),
            final(self).spec_cursor_idx() == old(self).spec_cursor_idx(),
            final(self).spec_cursor_id() == old(self).spec_cursor_id(),
            final(self).spec_offset() == match old(self).spec_cursor_idx() {
                Some(i) => offset_showing(old(self).spec_offset(), i, old(self).spec_height()),
                None => old(self).spec_offset(),
            },
    {
        proof {
            use_type_invariant(&*self);
        }
        if self.last_height == 0 {
            return ;
        }
        if let Some(cursor) = &self.cursor {
            let min = (cursor.idx + 1).saturating_sub(self.last_height as usize);
            let max = cursor.idx;
            self.offset = if self.offset < min {
                min
            } else if self.offset > max {
                max
            } else {
                self.offset
            };
        }
    }

    fn clamp_scrolling(&mut self)
        ensures
            final(self).same_rows(*old(self)),
            final(self).spec_cursor_idx() == old(self).spec_cursor_idx(),
            final(self).spec_cursor_id() == old(self).spec_cursor_id(),
            final(self).spec_offset() == clamp(
                old(self).spec_offset(),
                0,
                max_offset(old(self).spec_rows().len() as int, old(self).spec_height()),
            ),
    {
        proof {
            use_type_invariant(&*self);
        }
        let max = self.last_rows.len().saturating_sub(self.last_height as usize);
        if self.offset > max {
            self.offset = max;
        }
    }

    fn scroll_to(&mut self, new_offset: usize)
        ensures
            old(self).scrolled_to(*final(self), new_offset as int),
    {
        proof {
            use_type_invariant(&*self);
        }
        self.offset = new_offset;
        self.clamp_scrolling();
        self.move_cursor_to_make_it_visible();
    }

    fn move_cursor_to(&mut self, new_cursor: Cursor<Id>)
        requires
            new_cursor.idx < old(self).last_rows.len(),
            old(self).last_rows@[new_cursor.idx as int] is Some,
            cloned(old(self).last_rows@[new_cursor.idx as int]->0, new_cursor.id),
        ensures
            old(self).moved_cursor_to(*final(self), Some(new_cursor.idx as int)),
    {
        proof {
            use_type_invariant(&*self);
        }
        self.cursor = Some(new_cursor);
        self.scroll_so_cursor_is_visible();
        self.clamp_scrolling();
    }

    /// Scroll the list up by an amount of lines.
    pub fn scroll_up(&mut self, lines: usize)
        ensures
            old(self).scrolled_to(*final(self), sat_sub(old(self).spec_offset(), lines as int)),
    {
        self.scroll_to(self.offset.saturating_sub(lines));
    }

    /// Scroll the list down by an amount of lines.
    pub fn scroll_down(&mut self, lines: usize)
        ensures
            old(self).scrolled_to(*final(self), sat_add(old(self).spec_offset(), lines as int)),
    {
        self.scroll_to(self.offset.saturating_add(lines));
    }

    /// Scroll so that the cursor is in the center of the widget, or at least as
    /// close as possible.
    pub fn center_cursor(&mut self)
        ensures
            match old(self).spec_cursor_idx() {
                Some(i) => old(self).scrolled_to(
                    *final(self),
                    sat_sub(i, old(self).spec_height() / 2),
                ),
                None => *final(self) == *old(self),
            },
    {
        if let Some(cursor) = &self.cursor {
            let height: usize = self.last_height as usize;
            self.scroll_to(cursor.idx.saturating_sub(height / 2));
        }
    }

    /// Move the cursor up to the next selectable row.
    pub fn move_cursor_up(&mut self)
        ensures
            final(self).cursor_holds_id(),
            match old(self).spec_cursor_idx() {
                Some(i) => old(self).moved_cursor_to(
                    *final(self),
                    last_selectable_in(old(self).spec_rows(), 0, i),
                ),
                None => *final(self) == *old(self),
            },
    {
        if let Some(cursor) = &self.cursor {
            let found = self.selectable_before_index(cursor.idx);
            if let Some(new_cursor) = found {
                self.move_cursor_to(new_cursor);
            }
        }
    }

    /// Move the cursor down to the next selectable row.
    pub fn move_cursor_down(&mut self)
        ensures
            final(self).cursor_holds_id(),
            match old(self).spec_cursor_idx() {
                Some(i) => old(self).moved_cursor_to(
                    *final(self),
                    first_selectable_in(old(self).spec_rows(), i + 1, old(self).spec_rows().len() as int),
                ),
                None => *final(self) == *old(self),
            },
    {
        proof {
            use_type_invariant(&*self);
        }
        if let Some(cursor) = &self.cursor {
            let found = self.selectable_after_index(cursor.idx);
            if let Some(new_cursor) = found {
                self.move_cursor_to(new_cursor);
            }
        }
    }

    /// Move the cursor to the first selectable row.
    pub fn move_cursor_to_top(&mut self)
        ensures
            final(self).cursor_holds_id(),
            old(self).moved_cursor_to(
                *final(self),
                first_selectable_in(old(self).spec_rows(), 0, old(self).spec_rows().len() as int),
            ),
    {
        let found = self.first_selectable();
        if let Some(new_cursor) = found {
            self.move_cursor_to(new_cursor);
        }
    }

    /// Move the cursor to the last selectable row.
    pub fn move_cursor_to_bottom(&mut self)
        ensures
            final(self).cursor_holds_id(),
            old(self).moved_cursor_to(
                *final(self),
                last_selectable_in(old(self).spec_rows(), 0, old(self).spec_rows().len() as int),
            ),
    {
        let found = self.last_selectable();
        if let Some(new_cursor) = found {
            self.move_cursor_to(new_cursor);
        }
    }

    /// First selectable row in `[lo, hi)`.
    fn find_first_in(&self, lo: usize, hi: usize) -> (r: Option<Cursor<Id>>)
        ensures
            is_first_selectable_in(self.last_rows@, lo as int, hi as int, idx_of(r)),
            idx_of(r) == first_selectable_in(self.last_rows@, lo as int, hi as int),
            cursor_at(self.last_rows@, r, idx_of(r)),
    {
        proof {
            lemma_first_selectable_in(self.last_rows@, lo as int, hi as int);
            lemma_last_selectable_in(self.last_rows@, lo as int, hi as int);
        }
        let end = if hi < self.last_rows.len() {
            hi
        } else {
            self.last_rows.len()
        };
        let mut i = lo;
        while i < end
            invariant
                lo <= i,
                end <= self.last_rows.len(),
                end <= hi,
                end == hi || end == self.last_rows.len(),
                none_selectable_in(self.last_rows@, lo as int, i as int),
            decreases end - i,
        {
            if let Some(id) = &self.last_rows[i] {
                assert(is_first_selectable_in(self.last_rows@, lo as int, hi as int, Some(i as int)));
                proof {
                    lemma_first_selectable_in(self.last_rows@, lo as int, hi as int);
                }
                return Some(Cursor::new(id.clone(), i));
            }
            i += 1;
        }
        None
    }

    /// Last selectable row in `[lo, hi)`.
    fn find_last_in(&self, lo: usize, hi: usize) -> (r: Option<Cursor<Id>>)
        ensures
            is_last_selectable_in(self.last_rows@, lo as int, hi as int, idx_of(r)),
            idx_of(r) == last_selectable_in(self.last_rows@, lo as int, hi as int),
            cursor_at(self.last_rows@, r, idx_of(r)),
    {
        proof {
            lemma_first_selectable_in(self.last_rows@, lo as int, hi as int);
            lemma_last_selectable_in(self.last_rows@, lo as int, hi as int);
        }
        let end = if hi < self.last_rows.len() {
            hi
        } else {
            self.last_rows.len()
        };
        let mut i = end;
        while i > lo
            invariant
                end <= self.last_rows.len(),
                i <= end,
                end <= hi,
                none_selectable_in(self.last_rows@, i as int, hi as int),
            decreases i,
        {
            if let Some(id) = &self.last_rows[i - 1] {
                assert(is_last_selectable_in(self.last_rows@, lo as int, hi as int, Some(i - 1)));
                proof {
                    lemma_last_selectable_in(self.last_rows@, lo as int, hi as int);
                }
                return Some(Cursor::new(id.clone(), i - 1));
            }
            i -= 1;
        }
        None
    }
}

/// The first row in `[lo, rows.len())` that holds an id equal to `id`.
pub open spec fn first_with_id<Id: PartialEq>(rows: Seq<Option<Id>>, id: Id, lo: int) -> Option<int>
    decreases rows.len() - lo,
{
    if lo >= rows.len() || lo < 0 {
        None
    } else if rows[lo] is Some && rows[lo]->0.eq_spec(&id) {
        Some(lo)
    } else {
        first_with_id(rows, id, lo + 1)
    }
}

impl<Id: Clone + PartialEq> ListState<Id> {
    /// Where the cursor goes when the rows change: to the first row with the
    /// cursor's id, else to the nearest selectable row at or above its old
    /// index, else to the nearest one below; without a cursor, to the first
    /// selectable row.
    pub open spec fn fixed_cursor_row(self, rows: Seq<Option<Id>>) -> Option<int> {
        let len = rows.len() as int;
        match self.spec_cursor_idx() {
            Some(i) => match first_with_id(rows, self.spec_cursor_id()->0, 0) {
                Some(j) => Some(j),
                None => match last_selectable_in(rows, 0, i + 1) {
                    Some(j) => Some(j),
                    None => first_selectable_in(rows, i, len),
                },
            },
            None => first_selectable_in(rows, 0, len),
        }
    }

    fn selectable_of_id(&self, id: &Id) -> (r: Option<Cursor<Id>>)
        ensures
            cursor_at(self.last_rows@, r, idx_of(r)),
            Id::obeys_eq_spec() ==> idx_of(r) == first_with_id(self.last_rows@, *id, 0),
    {
        let mut i: usize = 0;
        while i < self.last_rows.len()
            invariant
                i <= self.last_rows.len(),
                Id::obeys_eq_spec() ==> first_with_id(self.last_rows@, *id, 0) == first_with_id(
                    self.last_rows@,
                    *id,
                    i as int,
                ),
            decreases self.last_rows.len() - i,
        {
            if let Some(rid) = &self.last_rows[i] {
                if rid.eq(id) {
                    return Some(Cursor::new(rid.clone(), i));
                }
            }
            i += 1;
        }
        None
    }

    fn set_rows(&mut self, rows: Vec<Option<Id>>)
        ensures
            final(self).spec_rows() == rows@,
            final(self).spec_height() == old(self).spec_height(),
            final(self).spec_offset() == old(self).spec_offset(),
            final(self).spec_cursor_idx() == old(self).spec_cursor_idx(),
            final(self).spec_cursor_id() == old(self).spec_cursor_id(),
    {
        proof {
            use_type_invariant(&*self);
        }
        self.last_rows = rows;
    }

    #[verifier::spinoff_prover]
    fn fix_cursor(&mut self)
        ensures
            final(self).same_rows(*old(self)),
            Id::obeys_eq_spec() ==> match old(self).fixed_cursor_row(old(self).spec_rows()) {
                Some(j) => old(self).moved_cursor_to(*final(self), Some(j)),
                None => final(self).spec_cursor_idx() is None && final(self).spec_offset() == old(
                    self,
                ).spec_offset(),
            },
            final(self).cursor_on_selectable(),
            final(self).spec_cursor_idx() is None <==> none_selectable_in(
                old(self).spec_rows(),
                0,
                old(self).spec_rows().len() as int,
            ),
    {
        proof {
            use_type_invariant(&*self);
            lemma_first_selectable_in(self.last_rows@, 0, self.last_rows@.len() as int);
        }
        let new_cursor = match &self.cursor {
            Some(cursor) => match self.selectable_of_id(&cursor.id) {
                Some(c) => Some(c),
                None => match self.selectable_at_or_before_index(cursor.idx) {
                    Some(c) => Some(c),
                    None => {
                        let r = self.selectable_at_or_after_index(cursor.idx);
                        proof {
                            lemma_last_selectable_in(self.last_rows@, 0, cursor.idx + 1);
                            lemma_first_selectable_in(
                                self.last_rows@,
                                cursor.idx as int,
                                self.last_rows@.len() as int,
                            );
                            if r is None {
                                let rows = self.last_rows@;
                                assert(none_selectable_in(rows, 0, cursor.idx + 1));
                                assert(none_selectable_in(rows, cursor.idx as int, rows.len() as int));
                                assert forall|j: int| 0 <= j < rows.len() implies !#[trigger] selectable(rows, j) by {
                                    if j <= cursor.idx {
                                        assert(0 <= j < cursor.idx + 1);
                                    } else {
                                        assert(cursor.idx <= j < rows.len());
                                    }
                                }
                            }
                        }
                        r
                    },
                },
            },
            None => self.first_selectable(),
        };
        assert(new_cursor is Some ==> selectable(self.last_rows@, new_cursor->0.idx as int));
        assert(new_cursor is None ==> none_selectable_in(self.last_rows@, 0, self.last_rows@.len() as int));

        if let Some(new_cursor) = new_cursor {
            self.move_cursor_to(new_cursor);
        } else {
            self.cursor = None;
        }
    }
}

impl<Id: Clone> ListState<Id> {
    /// Scroll the list up by half its height.
    pub fn scroll_up_half(&mut self)
        ensures
            old(self).scrolled_to(*final(self), sat_sub(old(self).spec_offset(), old(self).spec_height() / 2)),
    {
        let lines: usize = (self.last_height / 2) as usize;
        self.scroll_up(lines);
    }

    /// Scroll the list down by half its height.
    pub fn scroll_down_half(&mut self)
        ensures
            old(self).scrolled_to(*final(self), sat_add(old(self).spec_offset(), old(self).spec_height() / 2)),
    {
        let lines: usize = (self.last_height / 2) as usize;
        self.scroll_down(lines);
    }

    /// Scroll the list up by its height but one line.
    pub fn scroll_up_full(&mut self)
        ensures
            old(self).scrolled_to(*final(self), sat_sub(old(self).spec_offset(), sat_sub(old(self).spec_height(), 1))),
    {
        let lines: usize = self.last_height.saturating_sub(1) as usize;
        self.scroll_up(lines);
    }

    /// Scroll the list down by its height but one line.
    pub fn scroll_down_full(&mut self)
        ensures
            old(self).scrolled_to(*final(self), sat_add(old(self).spec_offset(), sat_sub(old(self).spec_height(), 1))),
    {
        let lines: usize = self.last_height.saturating_sub(1) as usize;
        self.scroll_down(lines);
    }
}

/// The cursor and scroll bindings of the list.
pub open spec fn is_list_key(keys: KeyMatches) -> bool {
    keys.cursor_up || keys.cursor_down || keys.cursor_to_top || keys.cursor_to_bottom || keys.scroll_up_line
        || keys.scroll_down_line || keys.scroll_up_half || keys.scroll_down_half || keys.scroll_up_full
        || keys.scroll_down_full || keys.scroll_center_cursor
}

/// `new` is `old` after the first of the cursor and scroll bindings that
/// `keys` matches: the cursor moved up, down, to the top or the bottom, or
/// the list scrolled by a line, half its height or its height but one line,
/// or so the cursor is centered.
pub open spec fn list_key_effect<Id: Clone>(keys: KeyMatches, old: ListState<Id>, new: ListState<Id>) -> bool {
    &&& !is_list_key(keys) ==> new == old
    &&& keys.cursor_up ==> match old.spec_cursor_idx() {
        Some(i) => old.moved_cursor_to(new, last_selectable_in(old.spec_rows(), 0, i)),
        None => new == old,
    }
    &&& !keys.cursor_up && keys.cursor_down ==> match old.spec_cursor_idx() {
        Some(i) => old.moved_cursor_to(new, first_selectable_in(old.spec_rows(), i + 1, old.spec_rows().len() as int)),
        None => new == old,
    }
    &&& !keys.cursor_up && !keys.cursor_down && keys.cursor_to_top ==> old.moved_cursor_to(
        new,
        first_selectable_in(old.spec_rows(), 0, old.spec_rows().len() as int),
    )
    &&& !keys.cursor_up && !keys.cursor_down && !keys.cursor_to_top && keys.cursor_to_bottom ==> old.moved_cursor_to(
        new,
        last_selectable_in(old.spec_rows(), 0, old.spec_rows().len() as int),
    )
    &&& ({
        let no_cursor_key = !keys.cursor_up && !keys.cursor_down && !keys.cursor_to_top && !keys.cursor_to_bottom;
        let off = old.spec_offset();
        let h = old.spec_height();
        &&& no_cursor_key && keys.scroll_up_line ==> old.scrolled_to(new, sat_sub(off, 1))
        &&& no_cursor_key && !keys.scroll_up_line && keys.scroll_down_line ==> old.scrolled_to(new, sat_add(off, 1))
        &&& no_cursor_key && !keys.scroll_up_line && !keys.scroll_down_line && keys.scroll_up_half
            ==> old.scrolled_to(new, sat_sub(off, h / 2))
        &&& no_cursor_key && !keys.scroll_up_line && !keys.scroll_down_line && !keys.scroll_up_half
            && keys.scroll_down_half ==> old.scrolled_to(new, sat_add(off, h / 2))
        &&& no_cursor_key && !keys.scroll_up_line && !keys.scroll_down_line && !keys.scroll_up_half
            && !keys.scroll_down_half && keys.scroll_up_full ==> old.scrolled_to(new, sat_sub(off, sat_sub(h, 1)))
        &&& no_cursor_key && !keys.scroll_up_line && !keys.scroll_down_line && !keys.scroll_up_half
            && !keys.scroll_down_half && !keys.scroll_up_full && keys.scroll_down_full
            ==> old.scrolled_to(new, sat_add(off, sat_sub(h, 1)))
        &&& no_cursor_key && !keys.scroll_up_line && !keys.scroll_down_line && !keys.scroll_up_half
            && !keys.scroll_down_half && !keys.scroll_up_full && !keys.scroll_down_full
            && keys.scroll_center_cursor ==> match old.spec_cursor_idx() {
            Some(i) => old.scrolled_to(new, sat_sub(i, h / 2)),
            None => new == old,
        }
    })
}

/// Moves the cursor or scrolls `list` for the first of the cursor and scroll
/// bindings that `keys` matches. Returns whether there was one.
pub fn handle_list_input_event<Id: Clone>(list: &mut ListState<Id>, keys: &KeyMatches) -> (r: bool)
    ensures
        r == is_list_key(*keys),
        list_key_effect(*keys, *old(list), *final(list)),
{
    if keys.cursor_up {
        list.move_cursor_up();
        return true;
    }
    if keys.cursor_down {
        list.move_cursor_down();
        return true;
    }
    if keys.cursor_to_top {
        list.move_cursor_to_top();
        return true;
    }
    if keys.cursor_to_bottom {
        list.move_cursor_to_bottom();
        return true;
    }
    if keys.scroll_up_line {
        list.scroll_up(1);
        return true;
    }
    if keys.scroll_down_line {
        list.scroll_down(1);
        return true;
    }
    if keys.scroll_up_half {
        list.scroll_up_half();
        return true;
    }
    if keys.scroll_down_half {
        list.scroll_down_half();
        return true;
    }
    if keys.scroll_up_full {
        list.scroll_up_full();
        return true;
    }
    if keys.scroll_down_full {
        list.scroll_down_full();
        return true;
    }
    if keys.scroll_center_cursor {
        list.center_cursor();
        return true;
    }
    false
}

/// Collects the rows of a list before it is drawn.
pub struct ListBuilder<Id> {
    rows: Vec<Option<Id>>,
}

impl<Id> ListBuilder<Id> {
    /// The rows added so far (`None` for rows that cannot be selected).
    pub closed spec fn spec_rows(&self) -> Seq<Option<Id>> {
        self.rows@
    }

    pub fn new() -> (r: Self)
        ensures
            r.spec_rows() == Seq::<Option<Id>>::empty(),
    {
        Self { rows: Vec::new() }
    }

    pub fn is_empty(&self) -> (r: bool)
        ensures
            r == (self.spec_rows().len() == 0),
    {
        self.rows.len() == 0
    }

    /// Adds a row that cannot be selected.
    pub fn add_unsel(&mut self)
        ensures
            final(self).spec_rows() == old(self).spec_rows().push(None),
    {
        self.rows.push(None);
    }

    /// Adds a row that can be selected and is identified by `id`.
    pub fn add_sel(&mut self, id: Id)
        ensures
            final(self).spec_rows() == old(self).spec_rows().push(Some(id)),
    {
        self.rows.push(Some(id));
    }
}

/// Whether a row is drawn as selected: its id equals the selected id, where
/// a row without id matches the absence of a cursor.
pub open spec fn row_selected<Id: PartialEq>(row: Option<Id>, selected: Option<Id>) -> bool {
    match (row, selected) {
        (Some(a), Some(b)) => a.eq_spec(&b),
        (None, None) => true,
        _ => false,
    }
}

impl<Id: Clone + PartialEq> ListBuilder<Id> {
    /// Replaces the rows of `state` with the rows built here, moves its cursor
    /// to a fitting row and returns, for each row, whether it is drawn as
    /// selected.
    pub fn build(self, state: &mut ListState<Id>) -> (r: Vec<bool>)
        ensures
            final(state).spec_rows() == self.spec_rows(),
            final(state).spec_height() == old(state).spec_height(),
            Id::obeys_eq_spec() ==> match old(state).fixed_cursor_row(self.spec_rows()) {
                Some(j) => old(state).moved_cursor_among(self.spec_rows(), *final(state), Some(j)),
                None => final(state).spec_cursor_idx() is None && final(state).spec_offset() == old(
                    state,
                ).spec_offset(),
            },
            final(state).cursor_on_selectable(),
            final(state).cursor_holds_id(),
            final(state).spec_cursor_idx() is None <==> none_selectable_in(
                self.spec_rows(),
                0,
                self.spec_rows().len() as int,
            ),
            r@.len() == self.spec_rows().len(),
            Id::obeys_eq_spec() ==> forall|i: int|
                0 <= i < r@.len() ==> #[trigger] r@[i] == row_selected(
                    self.spec_rows()[i],
                    final(state).spec_cursor_id(),
                ),
    {
        state.set_rows(self.rows);
        state.fix_cursor();
        let selected = state.selected();
        let rows = &state.last_rows;
        let mut flags: Vec<bool> = Vec::new();
        let mut i: usize = 0;
        while i < rows.len()
            invariant
                i <= rows.len(),
                flags@.len() == i,
                Id::obeys_eq_spec() ==> forall|k: int|
                    0 <= k < i ==> #[trigger] flags@[k] == row_selected(
                        rows@[k],
                        match selected {
                            Some(s) => Some(*s),
                            None => None,
                        },
                    ),
            decreases rows.len() - i,
        {
            let flag = match (&rows[i], selected) {
                (Some(a), Some(b)) => a.eq(b),
                (None, None) => true,
                _ => false,
            };
            flags.push(flag);
            i += 1;
        }
        flags
    }
}

/// A built list, ready to be drawn: one widget per row.
pub struct List<W> {
    rows: Vec<W>,
}

impl<W> List<W> {
    /// The widgets of the rows, from the top.
    pub closed spec fn spec_rows(&self) -> Seq<W> {
        self.rows@
    }

    /// A list with the widgets `rows`, one per row.
    pub fn new(rows: Vec<W>) -> (r: Self)
        ensures
            r.spec_rows() == rows@,
    {
        List { rows }
    }

    /// The height the list asks for: a line per row, at most `u16::MAX`.
    pub fn height(&self) -> (r: u16)
        ensures
            r == if self.spec_rows().len() < u16::MAX {
                self.spec_rows().len() as int
            } else {
                u16::MAX as int
            },
    {
        if self.rows.len() < 65535 {
            self.rows.len() as u16
        } else {
            u16::MAX
        }
    }

    /// Draws the list into `height` lines: the state learns the height, and
    /// the rows from the state's offset on go on the lines from the top; the
    /// widgets for the lines are returned, the topmost first.
    pub fn draw<Id>(self, state: &mut ListState<Id>, height: u16) -> (r: Vec<W>)
        requires
            self.spec_rows().len() == old(state).spec_rows().len(),
        ensures
            final(state).spec_height() == height,
            final(state).spec_offset() == old(state).spec_offset(),
            final(state).spec_cursor_idx() == old(state).spec_cursor_idx(),
            final(state).spec_cursor_id() == old(state).spec_cursor_id(),
            final(state).spec_rows() == old(state).spec_rows(),
            ({
                let len = self.spec_rows().len() as int;
                let start = if old(state).spec_offset() < len {
                    old(state).spec_offset()
                } else {
                    len
                };
                let end = if old(state).spec_offset() + height < len {
                    old(state).spec_offset() + height
                } else {
                    len
                };
                r@ == self.spec_rows().subrange(start, end)
            }),
    {
        let range = state.draw_range(height);
        let mut rows = self.rows;
        rows.truncate(range.end);
        let shown = rows.split_off(range.start);
        shown
    }
}

/// Moving the cursor to a selectable row leaves that row visible and the
/// scrolling within the list (whenever the list has a height).
pub proof fn lemma_moved_cursor_is_visible<Id: Clone>(
    old: ListState<Id>,
    new: ListState<Id>,
    i: int,
)
    requires
        selectable(old.spec_rows(), i),
        old.spec_height() > 0,
        old.moved_cursor_to(new, Some(i)),
    ensures
        new.cursor_visible(),
        new.scroll_clamped(),
        new.cursor_on_selectable(),
{
}

/// Scrolling keeps the offset within the list and a cursor on a selectable
/// row stays on a selectable row.
pub proof fn lemma_scrolled_is_clamped<Id: Clone>(
    old: ListState<Id>,
    new: ListState<Id>,
    target: int,
)
    requires
        old.scrolled_to(new, target),
        old.cursor_on_selectable(),
    ensures
        new.scroll_clamped(),
        new.cursor_on_selectable(),
{
    let rows = old.spec_rows();
    let len = rows.len() as int;
    let h = old.spec_height();
    let offset = clamp(target, 0, max_offset(len, h));
    let last = sat_sub(sat_add(offset, h), 1);
    lemma_first_selectable_in(rows, offset, len);
    lemma_last_selectable_in(rows, 0, last + 1);
}

/// Moving the cursor down undoes moving it up: from a selectable row with a
/// selectable row above it, the row below the one moved up to is the start row.
pub proof fn lemma_up_then_down<Id>(rows: Seq<Option<Id>>, i: int)
    requires
        selectable(rows, i),
        last_selectable_in(rows, 0, i) is Some,
    ensures
        first_selectable_in(rows, last_selectable_in(rows, 0, i)->0 + 1, rows.len() as int) == Some(i),
{
    let j = last_selectable_in(rows, 0, i)->0;
    lemma_last_selectable_in(rows, 0, i);
    lemma_first_selectable_in(rows, j + 1, rows.len() as int);
    assert(is_first_selectable_in(rows, j + 1, rows.len() as int, Some(i)));
}

/// Moving the cursor up undoes moving it down.
pub proof fn lemma_down_then_up<Id>(rows: Seq<Option<Id>>, i: int)
    requires
        selectable(rows, i),
        first_selectable_in(rows, i + 1, rows.len() as int) is Some,
    ensures
        last_selectable_in(rows, 0, first_selectable_in(rows, i + 1, rows.len() as int)->0) == Some(i),
{
    let j = first_selectable_in(rows, i + 1, rows.len() as int)->0;
    lemma_first_selectable_in(rows, i + 1, rows.len() as int);
    lemma_last_selectable_in(rows, 0, j);
    assert(is_last_selectable_in(rows, 0, j, Some(i)));
}

} // verus!
