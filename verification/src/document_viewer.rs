use vstd::prelude::*;

use crate::action::Action;
use crate::dimensions::Dimensions;
use crate::document::{CursorRange, Document};

verus! {

// =============================================================================
// The visibility arithmetic, as spec functions
//
// The engine's algorithms reduce to arithmetic over row indexes; these spec
// functions are the exact statement of that arithmetic, and the executable
// methods are proved to compute them.
// =============================================================================
/// The margin actually enforced: the configured setting, capped at half the
/// screen so the acceptable range never becomes empty or inverted.
pub open spec fn eff_margin(setting: int, h: int) -> int {
    vstd::math::min(setting, (h - 1) / 2)
}

/// Steps 1-4 of the visibility algorithm: the inclusive range of screen
/// indexes at which the focused node may appear.  `before` and `after` are the
/// (bounded) number of document rows before the node's start and after its
/// end; `ch` is the node's height in rows.
pub open spec fn band_after_edges(h: int, m: int, before: int, after: int) -> (int, int) {
    (vstd::math::min(m, before), vstd::math::max(h - 1 - m, h - 1 - after))
}

/// Step 4: grow the band to fit a node taller than it, reclaiming slack from
/// the wider side first, then splitting the rest evenly (remainder to both).
pub open spec fn band_after_expansion(h: int, m: int, ch: int, before: int, after: int) -> (
    int,
    int,
) {
    let fl = band_after_edges(h, m, before, after);
    let f1 = fl.0;
    let l1 = fl.1;
    if ch >= h {
        (0, h - 1)
    } else if ch > l1 - f1 + 1 {
        let need0 = ch - (l1 - f1 + 1);
        let s_start = f1;
        let s_end = h - 1 - l1;
        let d = vstd::math::abs(s_start - s_end) as int;
        let take1 = vstd::math::min(d, need0);
        let need1 = need0 - take1;
        let f2 = if s_start > s_end {
            f1 - take1
        } else {
            f1
        };
        let l2 = if s_end > s_start {
            l1 + take1
        } else {
            l1
        };
        let t = (need1 + 1) / 2;
        (f2 - t, l2 + t)
    } else {
        (f1, l1)
    }
}

/// Step 5: acceptable screen indexes for the *start* of the focused node.
pub open spec fn acceptable_starts(h: int, m: int, ch: int, before: int, after: int) -> (int, int) {
    let fl = band_after_expansion(h, m, ch, before, after);
    (fl.0, vstd::math::max(fl.0, fl.1 - (ch - 1)))
}

/// Where the top row lands when the node starting at row `cs` is snapped into
/// the acceptable start range `[lo, hi]` of screen indexes (`n` document rows
/// exist; a start position past the end of the document counts as before the
/// acceptable window).
pub open spec fn snapped_top(top: int, cs: int, lo: int, hi: int, n: int) -> int {
    let start_before_first = top + lo > n - 1 || cs < top + lo;
    let start_at_or_before_last = top + hi > n - 1 || cs <= top + hi;
    if start_before_first {
        cs - lo
    } else if start_at_or_before_last {
        top
    } else {
        cs - hi
    }
}

/// The whole cursor-move repositioning: bounded distances, band, snap.
pub open spec fn visibility_top(top: int, h: int, m: int, n: int, cs: int, ch: int) -> int {
    let before = vstd::math::min(h - 1, cs);
    let after = vstd::math::min(h - 1, n - cs - ch);
    let lohi = acceptable_starts(h, m, ch, before, after);
    snapped_top(top, cs, lohi.0, lohi.1, n)
}

/// The percentile map used by height resizes: `round(i / (ho-1) * (hn-1))`,
/// in exact integer arithmetic, so index 0 and the last row map to themselves.
pub open spec fn pmap(i: int, ho: int, hn: int) -> int {
    if ho <= 1 {
        0
    } else {
        (2 * i * (hn - 1) + (ho - 1)) / (2 * (ho - 1))
    }
}

/// The post-scroll / post-resize focus band edges: screen indexes clamped to
/// rows that exist ("last row at or before index" semantics).
pub open spec fn band_edge(top: int, idx: int, n: int) -> int {
    vstd::math::min(top + idx, n - 1)
}

// =============================================================================
// Band membership: the scroll-margin guarantee
// =============================================================================
/// The focused range `[cs, ce]` overlaps the scroll-margin band of the screen
/// `[top, top+h-1]`, relaxed at the document edges: near the start the margin
/// is not enforced (showing rows before the document would be needed), and
/// near the end it is relaxed so the last line can park at the bottom.
pub open spec fn in_relaxed_band(top: int, h: int, m: int, n: int, cs: int, ce: int) -> bool {
    &&& (top == 0 || ce >= vstd::math::min(top + m, n - 1) || cs < m)
    &&& (cs <= vstd::math::min(top + h - 1 - m, n - 1) || top + h >= n || n - 1 - ce < m)
}

/// After a cursor move, the snapped position satisfies the relaxed band, and
/// part of the focused node is on screen.
pub proof fn lemma_visibility_top_in_band(top: int, h: int, m: int, n: int, cs: int, ch: int)
    requires
        h >= 1,
        0 <= m <= (h - 1) / 2,
        1 <= ch,
        0 <= cs,
        cs + ch <= n,
        0 <= top <= n - 1,
    ensures
        ({
            let top2 = visibility_top(top, h, m, n, cs, ch);
            &&& 0 <= top2 <= n - 1
            &&& in_relaxed_band(top2, h, m, n, cs, cs + ch - 1)
            &&& cs + ch - 1 >= top2
            &&& cs <= top2 + h - 1
        }),
{
    let before = vstd::math::min(h - 1, cs);
    let after = vstd::math::min(h - 1, n - cs - ch);
    let lohi = acceptable_starts(h, m, ch, before, after);
    let lo = lohi.0;
    let hi = lohi.1;
    let top2 = snapped_top(top, cs, lo, hi, n);
    let ce = cs + ch - 1;
    lemma_starts_bounds(h, m, ch, before, after);
    lemma_lo_coverage(h, m, ch, before, after);
    lemma_hi_bound(h, m, ch, before, after);
    if before == h - 1 && before + ch - 1 < m {
        assert(false);
    }
    if top + lo > n - 1 || cs < top + lo {
        // snap the start to the first acceptable index
        assert(top2 == cs - lo);
        if top2 != 0 {
            if lo + ch - 1 >= m {
                assert(ce >= top2 + m);
            } else {
                assert(before + ch - 1 < m);
                assert(cs < m);
            }
        }
        assert(cs - top2 == lo <= m <= h - 1 - m);
    } else if top + hi > n - 1 || cs <= top + hi {
        // already acceptable: the top row stays
        assert(top2 == top);
        assert(cs >= top + lo);
        assert(cs <= top + hi || n - 1 < top + hi);
        assert(cs - top <= hi);
        if top2 != 0 {
            if lo + ch - 1 >= m {
                assert(ce >= top2 + m);
            } else {
                assert(cs < m);
            }
        }
        if hi <= h - 1 - m {
            assert(cs <= top2 + h - 1 - m && cs <= n - 1);
        } else if before < m {
            assert(cs < m);
            assert(cs <= top2 + h - 1 - m && cs <= n - 1);
        } else {
            assert(after < m);
            assert(n - 1 - ce < m);
        }
    } else {
        // snap the start to the last acceptable index
        assert(top2 == cs - hi);
        assert(cs > top + hi);
        if top2 != 0 {
            if lo + ch - 1 >= m {
                assert(ce == top2 + hi + ch - 1 >= top2 + lo + ch - 1 >= top2 + m);
            } else {
                assert(cs < m);
            }
        }
        if hi <= h - 1 - m {
            assert(cs <= top2 + h - 1 - m && cs <= n - 1);
        } else if before < m {
            assert(cs < m && cs - hi > top + hi - hi >= 0);
            assert(cs <= top2 + h - 1 - m && cs <= n - 1);
        } else {
            assert(after < m);
            assert(n - 1 - ce < m);
        }
    }
}

/// Bounds of the acceptable start range: it sits on the screen, never starts
/// below the margin, and never past the node's own start.
pub proof fn lemma_starts_bounds(h: int, m: int, ch: int, before: int, after: int)
    requires
        h >= 1,
        0 <= m <= (h - 1) / 2,
        1 <= ch,
        0 <= before <= h - 1,
        0 <= after <= h - 1,
    ensures
        ({
            let lohi = acceptable_starts(h, m, ch, before, after);
            &&& 0 <= lohi.0 <= lohi.1 <= h - 1
            &&& lohi.0 <= before
            &&& lohi.0 <= m
        }),
{
}

/// Wherever the acceptable range lets the node start, its end stays at or
/// below the margin, except when the node starts within the margin of the
/// document start.
proof fn lemma_lo_coverage(h: int, m: int, ch: int, before: int, after: int)
    requires
        h >= 1,
        0 <= m <= (h - 1) / 2,
        1 <= ch,
        0 <= before <= h - 1,
        0 <= after <= h - 1,
    ensures
        ({
            let lohi = acceptable_starts(h, m, ch, before, after);
            lohi.0 + ch - 1 >= m || before + ch - 1 < m
        }),
{
}

/// The last acceptable start exceeds the bottom margin only near a document
/// edge.
proof fn lemma_hi_bound(h: int, m: int, ch: int, before: int, after: int)
    requires
        h >= 1,
        0 <= m <= (h - 1) / 2,
        1 <= ch,
        0 <= before <= h - 1,
        0 <= after <= h - 1,
    ensures
        ({
            let lohi = acceptable_starts(h, m, ch, before, after);
            lohi.1 <= h - 1 - m || before < m || after < m
        }),
{
}


// =============================================================================
// The viewer
// =============================================================================
/// The heights a terminal can report (its rows are a u16); also keeps the
/// percentile arithmetic used by resizes within machine bounds.
pub const MAX_VIEWPORT_HEIGHT: usize = 65535;

/// The `DocumentViewer` manages what part of a document is displayed on screen
/// as the user takes actions to move the cursor or manipulate the document. Much
/// of the behavior here matches or is inspired by vim behavior. A type that
/// implements `Document` is responsible for deciding the actual content that goes
/// on each line, and when and where line wrapping should occur.
///
/// The basic objective here is to keep whatever part of the document is focused
/// (i.e., where the `Cursor` is) visible within the viewport, and for certain
/// scrolling actions that manipulate the viewport, the cursor should be updated
/// to a position in the document that is within the viewport.
pub struct DocumentViewer<D: Document> {
    pub doc: D,
    // Soon: Make this private again; contracts would then speak through
    // accessor spec functions alone.
    pub top_line: D::ScreenLine,
    pub current_focus: D::Cursor,
    pub dimensions: Dimensions,
    // We call this scrolloff_setting, to differentiate between
    // what it's set to, and what the scrolloff functionally is
    // if it's set to value >= height / 2.
    //
    // Access the functional value via .effective_scrolloff().
    pub scrolloff_setting: usize,
}

/// The acceptable range of start positions for the focused node, together
/// with the intermediate steps of its computation, kept for introspection.
#[derive(Debug)]
pub struct AcceptableStartScreenIndexesToShowCursorNode {
    pub cursor_height: usize,
    pub last_screen_index: usize,
    pub range_after_considering_scrolloff: (usize, usize),
    pub range_after_considering_start_and_end_of_document: (usize, usize),
    pub range_after_expanding_due_to_cursor_height: (usize, usize),
    // The actual fields
    pub start: usize,
    pub end: usize,
}

/// Where a row stands relative to the visible screen.
#[derive(Debug, Copy, Clone)]
pub enum PositionOfScreenLine {
    AboveTopLine,
    AtScreenIndex(usize),
    BelowBottomLine,
}

impl<D: Document> DocumentViewer<D> {
    /// Structural well-formedness: the document is sound, the anchors are
    /// valid positions in it, and the dimensions match the document's width.
    pub open spec fn wf(&self) -> bool {
        &&& self.doc.inv()
        &&& self.doc.row_valid(&self.top_line)
        &&& self.doc.cursor_valid(&self.current_focus)
        &&& 1 <= self.dimensions.height <= MAX_VIEWPORT_HEIGHT
        &&& self.dimensions.width >= 1
        &&& self.dimensions.width as int == self.doc.spec_width()
        &&& self.doc.num_rows() >= 1
    }

    pub open spec fn top_idx(&self) -> int {
        self.doc.row_idx(&self.top_line)
    }

    pub open spec fn spec_dimensions(&self) -> Dimensions {
        self.dimensions
    }

    pub open spec fn spec_scrolloff_setting(&self) -> int {
        self.scrolloff_setting as int
    }

    pub open spec fn focus_start(&self) -> int {
        self.doc.cursor_start(&self.current_focus)
    }

    pub open spec fn focus_height(&self) -> int {
        self.doc.cursor_height(&self.current_focus)
    }

    pub open spec fn focus_end(&self) -> int {
        self.focus_start() + self.focus_height() - 1
    }

    pub open spec fn spec_height(&self) -> int {
        self.dimensions.height as int
    }

    pub open spec fn spec_margin(&self) -> int {
        eff_margin(self.scrolloff_setting as int, self.spec_height())
    }

    /// Part of the focused node is within the visible rows.
    pub open spec fn focus_on_screen(&self) -> bool {
        &&& self.focus_end() >= self.top_idx()
        &&& self.focus_start() <= self.top_idx() + self.spec_height() - 1
    }

    pub open spec fn inv(&self) -> bool {
        &&& self.wf()
        &&& self.focus_on_screen()
    }

    /// The scroll-margin guarantee, relaxed at the document edges.
    pub open spec fn in_band(&self) -> bool {
        in_relaxed_band(
            self.top_idx(),
            self.spec_height(),
            self.spec_margin(),
            self.doc.num_rows(),
            self.focus_start(),
            self.focus_end(),
        )
    }

    /// Everything but the anchors is unchanged.
    pub open spec fn same_config(&self, other: &Self) -> bool {
        &&& self.doc == other.doc
        &&& self.dimensions == other.dimensions
        &&& self.scrolloff_setting == other.scrolloff_setting
    }

    pub fn new(
        doc: D,
        first_line: D::ScreenLine,
        initial_cursor: D::Cursor,
        dimensions: Dimensions,
        scrolloff: usize,
    ) -> (r: Self)
        requires
            doc.inv(),
            doc.num_rows() >= 1,
            doc.row_valid(&first_line),
            doc.row_idx(&first_line) == 0,
            doc.cursor_valid(&initial_cursor),
            doc.cursor_start(&initial_cursor) == 0,
            1 <= dimensions.height <= MAX_VIEWPORT_HEIGHT,
            dimensions.width >= 1,
            dimensions.width as int == doc.spec_width(),
        ensures
            r.inv(),
            r.in_band(),
            r.doc == doc,
            r.top_line == first_line,
            r.current_focus == initial_cursor,
            r.top_idx() == 0,
            r.spec_dimensions() == dimensions,
            r.spec_scrolloff_setting() == scrolloff,
    {
        proof {
            doc.lemma_cursor(&initial_cursor);
        }
        DocumentViewer {
            doc,
            top_line: first_line,
            current_focus: initial_cursor,
            dimensions,
            scrolloff_setting: scrolloff,
        }
    }

    pub fn set_scrolloff(&mut self, scrolloff: usize)
        requires
            old(self).inv(),
        ensures
            final(self).inv(),
            final(self).doc == old(self).doc,
            final(self).spec_dimensions() == old(self).spec_dimensions(),
            final(self).top_line == old(self).top_line,
            final(self).current_focus == old(self).current_focus,
            final(self).spec_scrolloff_setting() == scrolloff,
    {
        self.scrolloff_setting = scrolloff;
    }

    // Cap scrolloff at half the size of the screen.
    //
    // Height | Scrolloff | Min between edge of screen and cursor
    //   15   |     3     |                  3
    //   15   |     7     |                  7
    //   15   |     8     |                  7
    //   16   |     7     |                  7
    //   16   |     8     |                  7
    //   17   |     8     |                  8
    fn effective_scrolloff(&self) -> (r: usize)
        requires
            self.dimensions.height >= 1,
        ensures
            r as int == self.spec_margin(),
    {
        let cap = (self.dimensions.height - 1) / 2;
        if self.scrolloff_setting <= cap {
            self.scrolloff_setting
        } else {
            cap
        }
    }

    // If the last line of the file appears before `screen_index`, this will return `None`.
    fn screen_line_at_screen_index(&self, screen_index: usize) -> (r: Option<D::ScreenLine>)
        requires
            self.wf(),
        ensures
            match r {
                None => self.top_idx() + screen_index > self.doc.num_rows() - 1,
                Some(line) => self.doc.row_valid(&line) && self.doc.row_idx(&line) == self.top_idx()
                    + screen_index,
            },
    {
        let mut curr_line = self.doc.clone_row(&self.top_line);
        let mut remaining: usize = screen_index;
        loop
            invariant
                self.wf(),
                self.doc.row_valid(&curr_line),
                remaining <= screen_index,
                self.doc.row_idx(&curr_line) == self.top_idx() + screen_index - remaining,
            ensures
                self.doc.row_valid(&curr_line),
                remaining == 0,
                self.doc.row_idx(&curr_line) == self.top_idx() + screen_index,
            decreases remaining,
        {
            if remaining == 0 {
                break ;
            }
            match self.doc.next_screen_line(&curr_line) {
                None => {
                    proof {
                        self.doc.lemma_row(&curr_line);
                    }
                    return None;
                },
                Some(line) => {
                    curr_line = line;
                    remaining = remaining - 1;
                },
            }
        }
        Some(curr_line)
    }

    // If the last line of the file appears before `screen_index`, this will return the
    // last line of the file.
    fn last_screen_line_at_or_before_screen_index(&self, screen_index: usize) -> (r: D::ScreenLine)
        requires
            self.wf(),
        ensures
            self.doc.row_valid(&r),
            self.doc.row_idx(&r) == band_edge(
                self.top_idx(),
                screen_index as int,
                self.doc.num_rows(),
            ),
    {
        let mut curr_line = self.doc.clone_row(&self.top_line);
        let mut remaining: usize = screen_index;
        loop
            invariant
                self.wf(),
                self.doc.row_valid(&curr_line),
                remaining <= screen_index,
                self.doc.row_idx(&curr_line) == self.top_idx() + screen_index - remaining,
            ensures
                self.doc.row_valid(&curr_line),
                self.doc.row_idx(&curr_line) == band_edge(
                    self.top_idx(),
                    screen_index as int,
                    self.doc.num_rows(),
                ),
            decreases remaining,
        {
            if remaining == 0 {
                proof {
                    self.doc.lemma_row(&curr_line);
                }
                break ;
            }
            match self.doc.next_screen_line(&curr_line) {
                None => {
                    proof {
                        self.doc.lemma_row(&curr_line);
                    }
                    break ;
                },
                Some(line) => {
                    curr_line = line;
                    remaining = remaining - 1;
                },
            }
        }
        curr_line
    }

    fn position_of_screen_line(&self, screen_line: &D::ScreenLine) -> (r: PositionOfScreenLine)
        requires
            self.wf(),
            self.doc.row_valid(screen_line),
        ensures
            match r {
                PositionOfScreenLine::AboveTopLine => self.doc.row_idx(screen_line)
                    < self.top_idx(),
                PositionOfScreenLine::AtScreenIndex(i) => self.doc.row_idx(screen_line)
                    == self.top_idx() + i && i < self.dimensions.height,
                PositionOfScreenLine::BelowBottomLine => self.doc.row_idx(screen_line)
                    >= self.top_idx() + self.spec_height(),
            },
    {
        if !self.doc.row_le(&self.top_line, screen_line) {
            return PositionOfScreenLine::AboveTopLine;
        }
        let mut screen_index: usize = 0;
        let mut curr_screen_line = self.doc.clone_row(&self.top_line);
        while screen_index < self.dimensions.height
            invariant
                self.wf(),
                self.doc.row_valid(&curr_screen_line),
                self.doc.row_valid(screen_line),
                screen_index <= self.dimensions.height,
                self.doc.row_idx(&curr_screen_line) == self.top_idx() + screen_index,
                self.doc.row_idx(screen_line) >= self.top_idx() + screen_index,
            decreases self.dimensions.height - screen_index,
        {
            if self.doc.row_eq(screen_line, &curr_screen_line) {
                return PositionOfScreenLine::AtScreenIndex(screen_index);
            }
            proof {
                self.doc.lemma_row(screen_line);
            }
            screen_index = screen_index + 1;
            let next = self.doc.next_screen_line(&curr_screen_line);
            if screen_index < self.dimensions.height {
                curr_screen_line = next.unwrap();
            } else {
                return PositionOfScreenLine::BelowBottomLine;
            }
        }
        PositionOfScreenLine::BelowBottomLine
    }

    // Assumes that this will always exist.
    fn n_screen_lines_before(&self, screen_line: D::ScreenLine, n: usize) -> (r: D::ScreenLine)
        requires
            self.doc.inv(),
            self.doc.row_valid(&screen_line),
            n <= self.doc.row_idx(&screen_line),
        ensures
            self.doc.row_valid(&r),
            self.doc.row_idx(&r) == self.doc.row_idx(&screen_line) - n,
    {
        let mut screen_line = screen_line;
        let mut n = n;
        let ghost idx0 = self.doc.row_idx(&screen_line);
        let ghost n0 = n as int;
        while n > 0
            invariant
                self.doc.inv(),
                self.doc.row_valid(&screen_line),
                n <= n0,
                self.doc.row_idx(&screen_line) == idx0 - n0 + n,
                n0 <= idx0,
            decreases n,
        {
            let prev = self.doc.prev_screen_line(&screen_line);
            screen_line = prev.unwrap();
            n = n - 1;
        }
        screen_line
    }

    fn n_screen_lines_before_or_top_of_doc(&self, screen_line: D::ScreenLine, n: usize) -> (r:
        D::ScreenLine)
        requires
            self.doc.inv(),
            self.doc.row_valid(&screen_line),
        ensures
            self.doc.row_valid(&r),
            self.doc.row_idx(&r) == vstd::math::max(0, self.doc.row_idx(&screen_line) - n),
    {
        let mut screen_line = screen_line;
        let mut n = n;
        let ghost idx0 = self.doc.row_idx(&screen_line);
        let ghost n0 = n as int;
        loop
            invariant
                self.doc.inv(),
                self.doc.row_valid(&screen_line),
                n <= n0,
                self.doc.row_idx(&screen_line) == idx0 - n0 + n,
            ensures
                self.doc.row_valid(&screen_line),
                self.doc.row_idx(&screen_line) == vstd::math::max(0, idx0 - n0),
            decreases n,
        {
            if n == 0 {
                proof {
                    self.doc.lemma_row(&screen_line);
                }
                break ;
            }
            match self.doc.prev_screen_line(&screen_line) {
                None => {
                    break ;
                },
                Some(prev_screen_line) => {
                    proof {
                        self.doc.lemma_row(&prev_screen_line);
                    }
                    screen_line = prev_screen_line;
                    n = n - 1;
                },
            }
        }
        screen_line
    }

    // Assumes that this will always exist
    fn n_screen_lines_after(&self, screen_line: D::ScreenLine, n: usize) -> (r: D::ScreenLine)
        requires
            self.doc.inv(),
            self.doc.row_valid(&screen_line),
            self.doc.row_idx(&screen_line) + n <= self.doc.num_rows() - 1,
        ensures
            self.doc.row_valid(&r),
            self.doc.row_idx(&r) == self.doc.row_idx(&screen_line) + n,
    {
        let mut screen_line = screen_line;
        let mut n = n;
        let ghost idx0 = self.doc.row_idx(&screen_line);
        let ghost n0 = n as int;
        while n > 0
            invariant
                self.doc.inv(),
                self.doc.row_valid(&screen_line),
                n <= n0,
                self.doc.row_idx(&screen_line) == idx0 + n0 - n,
                idx0 + n0 <= self.doc.num_rows() - 1,
            decreases n,
        {
            let next = self.doc.next_screen_line(&screen_line);
            screen_line = next.unwrap();
            n = n - 1;
        }
        screen_line
    }

    /// Like `n_screen_lines_after`, but stops at the last row of the document.
    fn n_screen_lines_after_or_end_of_doc(&self, screen_line: D::ScreenLine, n: usize) -> (r:
        D::ScreenLine)
        requires
            self.doc.inv(),
            self.doc.row_valid(&screen_line),
        ensures
            self.doc.row_valid(&r),
            self.doc.row_idx(&r) == vstd::math::min(
                self.doc.row_idx(&screen_line) + n,
                self.doc.num_rows() - 1,
            ),
    {
        let mut screen_line = screen_line;
        let mut n = n;
        let ghost idx0 = self.doc.row_idx(&screen_line);
        let ghost n0 = n as int;
        loop
            invariant
                self.doc.inv(),
                self.doc.row_valid(&screen_line),
                n <= n0,
                self.doc.row_idx(&screen_line) == idx0 + n0 - n,
            ensures
                self.doc.row_valid(&screen_line),
                self.doc.row_idx(&screen_line) == vstd::math::min(
                    idx0 + n0,
                    self.doc.num_rows() - 1,
                ),
            decreases n,
        {
            if n == 0 {
                proof {
                    self.doc.lemma_row(&screen_line);
                }
                break ;
            }
            match self.doc.next_screen_line(&screen_line) {
                None => {
                    break ;
                },
                Some(next_screen_line) => {
                    proof {
                        self.doc.lemma_row(&next_screen_line);
                    }
                    screen_line = next_screen_line;
                    n = n - 1;
                },
            }
        }
        screen_line
    }
}


impl<D: Document> DocumentViewer<D> {
    /// The state after the viewport has re-anchored so the node under `c2` is
    /// visible: the focus adopted `c2` and the top row moved per the
    /// visibility algorithm.
    pub open spec fn repositioned_on(pre: Self, post: Self, c2: D::Cursor) -> bool {
        &&& post.same_config(&pre)
        &&& post.current_focus == c2
        &&& post.top_idx() == visibility_top(
            pre.top_idx(),
            pre.spec_height(),
            pre.spec_margin(),
            pre.doc.num_rows(),
            pre.doc.cursor_start(&c2),
            pre.doc.cursor_height(&c2),
        )
    }

    // Someday: We should compute the `CursorRange` outside of this function, pass it in,
    // and then get rid of `cursor_layout_details` in lieu of functions to directly
    // count `bounded_screen_lines_{before,after}_screen_line`.
    #[verifier::rlimit(60)]
    pub fn calculate_acceptable_start_screen_indexes_to_show_cursor_node(
        &self,
        cursor: &D::Cursor,
    ) -> (r: (CursorRange<D::ScreenLine>, AcceptableStartScreenIndexesToShowCursorNode))
        requires
            self.wf(),
            self.doc.cursor_valid(cursor),
        ensures
            ({
                let h = self.spec_height();
                let m = self.spec_margin();
                let cs = self.doc.cursor_start(cursor);
                let ch = self.doc.cursor_height(cursor);
                let before = vstd::math::min(h - 1, cs);
                let after = vstd::math::min(h - 1, self.doc.num_rows() - cs - ch);
                let edges = band_after_edges(h, m, before, after);
                let expanded = band_after_expansion(h, m, ch, before, after);
                let starts = acceptable_starts(h, m, ch, before, after);
                &&& self.doc.row_valid(&r.0.start)
                &&& self.doc.row_idx(&r.0.start) == cs
                &&& self.doc.row_valid(&r.0.end)
                &&& self.doc.row_idx(&r.0.end) == cs + ch - 1
                &&& r.0.num_screen_lines as int == ch
                &&& r.1.cursor_height as int == ch
                &&& r.1.last_screen_index as int == h - 1
                &&& r.1.range_after_considering_scrolloff.0 as int == m
                &&& r.1.range_after_considering_scrolloff.1 as int == h - 1 - m
                &&& r.1.range_after_considering_start_and_end_of_document.0 as int == edges.0
                &&& r.1.range_after_considering_start_and_end_of_document.1 as int == edges.1
                &&& r.1.range_after_expanding_due_to_cursor_height.0 as int == expanded.0
                &&& r.1.range_after_expanding_due_to_cursor_height.1 as int == expanded.1
                &&& r.1.start as int == starts.0
                &&& r.1.end as int == starts.1
            }),
    {
        // We want to make sure that as much of the newly focused node is visible. The high level
        // logic here is to first determine the range of "acceptable" places for the cursor to be.
        // This is by default the entire screen, but then it gets shrunk based on the `scrolloff`
        // setting, and then increased again based on the height of the focused node, or proximity
        // to the start/end of the document.
        //
        // Once we have this range, we will snap the position of the cursor into that range.
        proof {
            self.doc.lemma_cursor(cursor);
            self.doc.lemma_inv();
        }
        let ghost h = self.spec_height();
        let ghost m_g = self.spec_margin();
        let ghost cs = self.doc.cursor_start(cursor);
        let ghost chg = self.doc.cursor_height(cursor);
        let ghost before_g = vstd::math::min(h - 1, cs);
        let ghost after_g = vstd::math::min(h - 1, self.doc.num_rows() - cs - chg);

        let cursor_layout_details = self.doc.cursor_layout_details(
            cursor,
            self.dimensions.height - 1,
        );

        // Initial acceptable range is the whole screen.
        let mut first_acceptable_screen_index: usize = 0;
        let last_screen_index = self.dimensions.height - 1;
        let mut last_acceptable_screen_index = last_screen_index;

        let min_screenlines_between_edge_of_screen_and_cursor = self.effective_scrolloff();

        // Shrink the acceptable range based on the scrolloff setting. (Because we capped
        // scrolloff at half the height of the screen, that ensures this doesn't cause
        // the values to cross.)
        first_acceptable_screen_index = first_acceptable_screen_index
            + min_screenlines_between_edge_of_screen_and_cursor;
        last_acceptable_screen_index = last_acceptable_screen_index
            - min_screenlines_between_edge_of_screen_and_cursor;

        let range_after_considering_scrolloff = (
            first_acceptable_screen_index,
            last_acceptable_screen_index,
        );

        // Now we take into account the start/end of the document, where we don't enforce the
        // scrolloff setting. If we enforce scrolloff at the top of the file, then we'd have
        // to show empty lines before the start of the file, which would be silly. At the bottom
        // of the file, we won't enforce scrolloff, so that if you just hold the down arrow,
        // eventually you'll focus the last line of the file on the bottom of the screen.
        // (We do allow scrolling past the end of the file, but that decreases the start index,
        // and this operation relaxes the constraint by increasing the allowable start index,
        // so it is not relevant here.)
        if let Some(lines_before_start) = cursor_layout_details.bounded_doc_screen_lines_before_start {
            if lines_before_start < first_acceptable_screen_index {
                first_acceptable_screen_index = lines_before_start;
            }
        }
        if let Some(lines_after_end) = cursor_layout_details.bounded_doc_screen_lines_after_end {
            // The bound is approximate, to prevent us from having to look at the whole
            // document, not exact.
            if last_screen_index - lines_after_end > last_acceptable_screen_index {
                last_acceptable_screen_index = last_screen_index - lines_after_end;
            }
        }

        let range_after_considering_start_and_end_of_document = (
            first_acceptable_screen_index,
            last_acceptable_screen_index,
        );
        proof {
            assert(first_acceptable_screen_index as int == band_after_edges(
                h,
                m_g,
                before_g,
                after_g,
            ).0);
            assert(last_acceptable_screen_index as int == band_after_edges(
                h,
                m_g,
                before_g,
                after_g,
            ).1);
        }

        // Now we need to expand the acceptable range based on the height of the cursor, up
        // to the whole size of the screen again.
        let height_of_acceptable_range = last_acceptable_screen_index
            - first_acceptable_screen_index + 1;
        let cursor_height = cursor_layout_details.range.num_screen_lines;

        if cursor_height >= self.dimensions.height {
            // Simple case, the cursor is as big or bigger than the screen, so the whole screen
            // is available.
            first_acceptable_screen_index = 0;
            last_acceptable_screen_index = self.dimensions.height - 1;
        } else if cursor_height > height_of_acceptable_range {
            let mut additional_space_needed = cursor_height - height_of_acceptable_range;
            let space_to_reclaim_at_start = first_acceptable_screen_index;
            let space_to_reclaim_at_end = last_screen_index - last_acceptable_screen_index;

            // If we have more space to reclaim on one end (because of the start/end of the file)
            // we'll push that side back first. Imagine the second line of a file is 8 lines tall
            // (first line is 1 line tall), the height of the window is 10, and scrolloff is 4.
            // Then we have:
            //
            // Screen index range:            [0, 9]
            // Acceptable range w/ scrolloff: [4, 5]
            // After start/end of file:       [1, 5]
            // Height of acceptable range:    5
            //
            // If we subtracted evenly from both sides, we'd expand it to [0, 6], and then [0, 7],
            // which would be weird. If you loaded the file, and hit the down arrow, even though
            // the line is perfectly centered (it takes up [1, 8]), we would move it up to the top
            // of the screen.
            //
            // (I originally just thought "oh, we should try to keep it centered", and then while
            // trying to explain why this was better, I found this example that clearly shows the
            // other behavior is wrong.)
            let diff_between_sides = if space_to_reclaim_at_start >= space_to_reclaim_at_end {
                space_to_reclaim_at_start - space_to_reclaim_at_end
            } else {
                space_to_reclaim_at_end - space_to_reclaim_at_start
            };
            let space_to_reclaim_from_one_side = if diff_between_sides
                <= additional_space_needed {
                diff_between_sides
            } else {
                additional_space_needed
            };

            additional_space_needed = additional_space_needed - space_to_reclaim_from_one_side;
            if space_to_reclaim_at_start > space_to_reclaim_at_end {
                first_acceptable_screen_index = first_acceptable_screen_index
                    - space_to_reclaim_from_one_side;
            } else if space_to_reclaim_at_end > space_to_reclaim_at_start {
                last_acceptable_screen_index = last_acceptable_screen_index
                    + space_to_reclaim_from_one_side;
            }

            // Now both sides are equal; let's chop off equally from both sides now.
            // If we have an odd amount of additional space needed, we'll round up and
            // take that amount from both sides so that we don't always have the bigger
            // half of the cursor on top.
            let to_reclaim = (additional_space_needed + 1) / 2;
            proof {
                assert(to_reclaim as int <= first_acceptable_screen_index as int
                    && last_acceptable_screen_index as int + to_reclaim as int <= h - 1);
            }
            first_acceptable_screen_index = first_acceptable_screen_index - to_reclaim;
            last_acceptable_screen_index = last_acceptable_screen_index + to_reclaim;
        } else {
            // Cursor height <= height of acceptable range, so we don't need to
            // make any updates.
        }

        let range_after_expanding_due_to_cursor_height = (
            first_acceptable_screen_index,
            last_acceptable_screen_index,
        );
        proof {
            assert(first_acceptable_screen_index as int == band_after_expansion(
                h,
                m_g,
                chg,
                before_g,
                after_g,
            ).0);
            assert(last_acceptable_screen_index as int == band_after_expansion(
                h,
                m_g,
                chg,
                before_g,
                after_g,
            ).1);
        }

        // Final step: convert the acceptable screen index range into an acceptable
        // range for the start of the cursor.
        let first_acceptable_screen_index_for_start_of_cursor = first_acceptable_screen_index;
        // Subtract (size - 1); for example, if the cursor takes up two lines, then
        // the last acceptable start is one line before the last acceptable screen index.
        let shifted = if last_acceptable_screen_index >= cursor_height - 1 {
            last_acceptable_screen_index - (cursor_height - 1)
        } else {
            0
        };
        let last_acceptable_screen_index_for_start_of_cursor = if shifted
            >= first_acceptable_screen_index_for_start_of_cursor {
            shifted
        } else {
            first_acceptable_screen_index_for_start_of_cursor
        };

        let acceptable_start_indexes = AcceptableStartScreenIndexesToShowCursorNode {
            cursor_height,
            last_screen_index,
            range_after_considering_scrolloff,
            range_after_considering_start_and_end_of_document,
            range_after_expanding_due_to_cursor_height,
            // The actual fields
            start: first_acceptable_screen_index_for_start_of_cursor,
            end: last_acceptable_screen_index_for_start_of_cursor,
        };

        (cursor_layout_details.range, acceptable_start_indexes)
    }

    fn update_so_new_cursor_is_visible(&mut self, new_cursor: Option<D::Cursor>)
        requires
            old(self).inv(),
            new_cursor matches Some(c2) ==> old(self).doc.cursor_valid(&c2),
        ensures
            final(self).inv(),
            match new_cursor {
                None => *final(self) == *old(self),
                Some(c2) => Self::repositioned_on(*old(self), *final(self), c2) && final(self).in_band(),
            },
    {
        // If an operation doesn't move the cursor, it will return `None`, so there's
        // nothing to do.
        let new_cursor = match new_cursor {
            None => {
                return ;
            },
            Some(new_cursor) => new_cursor,
        };
        self.current_focus = new_cursor;

        proof {
            self.doc.lemma_cursor(&self.current_focus);
            self.doc.lemma_row(&self.top_line);
            lemma_starts_bounds(
                self.spec_height(),
                self.spec_margin(),
                self.focus_height(),
                vstd::math::min(self.spec_height() - 1, self.focus_start()),
                vstd::math::min(
                    self.spec_height() - 1,
                    self.doc.num_rows() - self.focus_start() - self.focus_height(),
                ),
            );
        }

        let (cursor_range, acceptable_start_index_range) = self
            .calculate_acceptable_start_screen_indexes_to_show_cursor_node(&self.current_focus);

        let start_index = acceptable_start_index_range.start;
        let end_index = acceptable_start_index_range.end;

        let screen_line_at_first_acceptable_start = self.screen_line_at_screen_index(start_index);
        let screen_line_at_last_acceptable_start = self.screen_line_at_screen_index(end_index);

        let cursor_start_is_before_first_acceptable_start =
            match &screen_line_at_first_acceptable_start {
            // If there's no screen line at the first acceptable start, then it must be after
            // the end of the file, so the cursor start is definitely before then.
            None => true,
            Some(acceptable_start) => !self.doc.row_le(acceptable_start, &cursor_range.start),
        };

        let cursor_start_is_at_or_before_last_acceptable_start =
            match &screen_line_at_last_acceptable_start {
            None => true,  // Same logic as above
            Some(acceptable_start) => self.doc.row_le(&cursor_range.start, acceptable_start),
        };

        if cursor_start_is_before_first_acceptable_start {
            // Cursor is too close to the top of the screen (or past it); move the viewport so
            // the cursor is at the start of the acceptable range.
            self.top_line = self.n_screen_lines_before(cursor_range.start, start_index);
        } else if cursor_start_is_at_or_before_last_acceptable_start {
            // Nothing to do, the cursor is in an acceptable range!
        } else {
            // Cursor is too close to the bottom of the screen (or past it); move the viewport
            // so the cursor is at the end of the acceptable range.
            self.top_line = self.n_screen_lines_before(cursor_range.start, end_index);
        }
        proof {
            let pre = *old(self);
            lemma_visibility_top_in_band(
                pre.top_idx(),
                pre.spec_height(),
                pre.spec_margin(),
                pre.doc.num_rows(),
                pre.doc.cursor_start(&self.current_focus),
                pre.doc.cursor_height(&self.current_focus),
            );
        }
    }

    pub fn move_cursor_down(&mut self, lines: usize)
        requires
            old(self).inv(),
        ensures
            final(self).inv(),
            Self::move_down_post(*old(self), *final(self), lines as int),
    {
        proof {
            self.doc.lemma_cursor_moves(lines as int, &self.current_focus);
        }
        let mv = self.doc.move_cursor_down(lines, &self.current_focus);
        self.update_so_new_cursor_is_visible(mv);
    }

    pub fn move_cursor_up(&mut self, lines: usize)
        requires
            old(self).inv(),
        ensures
            final(self).inv(),
            Self::move_up_post(*old(self), *final(self), lines as int),
    {
        proof {
            self.doc.lemma_cursor_moves(lines as int, &self.current_focus);
        }
        let mv = self.doc.move_cursor_up(lines, &self.current_focus);
        self.update_so_new_cursor_is_visible(mv);
    }
}


impl<D: Document> DocumentViewer<D> {
    /// What a focus-move by `n` does: nothing at the boundary, else adopt the
    /// clamped target and re-anchor the viewport around it.
    pub open spec fn move_down_post(pre: Self, post: Self, n: int) -> bool {
        &&& (pre.doc.cursor_at_bottom(&pre.current_focus) ==> post == pre)
        &&& (!pre.doc.cursor_at_bottom(&pre.current_focus) ==> Self::repositioned_on(
            pre,
            post,
            pre.doc.cursor_down_tgt(n, &pre.current_focus),
        ) && post.in_band())
    }

    pub open spec fn move_up_post(pre: Self, post: Self, n: int) -> bool {
        &&& (pre.doc.cursor_at_top(&pre.current_focus) ==> post == pre)
        &&& (!pre.doc.cursor_at_top(&pre.current_focus) ==> Self::repositioned_on(
            pre,
            post,
            pre.doc.cursor_up_tgt(n, &pre.current_focus),
        ) && post.in_band())
    }

    /// How the focus is re-anchored after the viewport moved under it: if no
    /// part of the focused range remains within the (edge-clamped) margin
    /// band `[fe, le]`, the focus becomes the cursor of the nearest band edge
    /// row; otherwise it is untouched.
    pub open spec fn focus_corrected(
        pre_focus: D::Cursor,
        post: Self,
        doc: D,
        top: int,
        h: int,
        m: int,
    ) -> bool {
        let n = doc.num_rows();
        let first_rel = if top == 0 {
            0int
        } else {
            m
        };
        let fe = band_edge(top, first_rel, n);
        let le = band_edge(top, h - 1 - m, n);
        let pcs = doc.cursor_start(&pre_focus);
        let pce = pcs + doc.cursor_height(&pre_focus) - 1;
        if pce < fe {
            &&& doc.cursor_valid(&post.current_focus)
            &&& doc.cursor_start(&post.current_focus) <= fe
            &&& fe <= doc.cursor_start(&post.current_focus) + doc.cursor_height(
                &post.current_focus,
            ) - 1
            &&& exists|r: D::ScreenLine|
                doc.row_valid(&r) && doc.row_idx(&r) == fe && post.current_focus
                    == doc.cursor_of_row(&r, &pre_focus)
        } else if le < pcs {
            &&& doc.cursor_valid(&post.current_focus)
            &&& doc.cursor_start(&post.current_focus) <= le
            &&& le <= doc.cursor_start(&post.current_focus) + doc.cursor_height(
                &post.current_focus,
            ) - 1
            &&& exists|r: D::ScreenLine|
                doc.row_valid(&r) && doc.row_idx(&r) == le && post.current_focus
                    == doc.cursor_of_row(&r, &pre_focus)
        } else {
            post.current_focus == pre_focus
        }
    }

    /// What a viewport scroll by `n` does: the top row walks as far as the
    /// document allows; if it moved, the focus is pulled back into the band.
    pub open spec fn scroll_down_post(pre: Self, post: Self, n: int) -> bool {
        let top2 = vstd::math::min(pre.top_idx() + n, pre.doc.num_rows() - 1);
        if top2 == pre.top_idx() {
            post == pre
        } else {
            &&& post.same_config(&pre)
            &&& post.top_idx() == top2
            &&& Self::focus_corrected(
                pre.current_focus,
                post,
                pre.doc,
                top2,
                pre.spec_height(),
                pre.spec_margin(),
            )
            &&& post.in_band()
        }
    }

    pub open spec fn scroll_up_post(pre: Self, post: Self, n: int) -> bool {
        let top2 = vstd::math::max(pre.top_idx() - n, 0);
        if top2 == pre.top_idx() {
            post == pre
        } else {
            &&& post.same_config(&pre)
            &&& post.top_idx() == top2
            &&& Self::focus_corrected(
                pre.current_focus,
                post,
                pre.doc,
                top2,
                pre.spec_height(),
                pre.spec_margin(),
            )
            &&& post.in_band()
        }
    }

    fn screen_indexes_within_scrolloff(&self) -> (r: (usize, usize))
        requires
            self.wf(),
        ensures
            r.0 as int == (if self.top_idx() == 0 {
                0int
            } else {
                self.spec_margin()
            }),
            r.1 as int == self.spec_height() - 1 - self.spec_margin(),
    {
        let min_screenlines_between_edge_of_screen_and_cursor = self.effective_scrolloff();

        // If the top of the screen is the top of the document, we don't enforce scrolloff.
        let first_acceptable_screen_index = if self.doc.is_first_screen_line_of_document(
            &self.top_line,
        ) {
            0
        } else {
            min_screenlines_between_edge_of_screen_and_cursor
        };

        let last_screen_index = self.dimensions.height - 1;
        let last_acceptable_screen_index = last_screen_index
            - min_screenlines_between_edge_of_screen_and_cursor;

        (first_acceptable_screen_index, last_acceptable_screen_index)
    }

    fn maybe_update_focused_node_after_scroll(&mut self)
        requires
            old(self).wf(),
        ensures
            final(self).inv(),
            final(self).in_band(),
            final(self).doc == old(self).doc,
            final(self).top_line == old(self).top_line,
            final(self).dimensions == old(self).dimensions,
            final(self).scrolloff_setting == old(self).scrolloff_setting,
            Self::focus_corrected(
                old(self).current_focus,
                *final(self),
                old(self).doc,
                old(self).top_idx(),
                old(self).spec_height(),
                old(self).spec_margin(),
            ),
    {
        // When scrolling, we'll allow scrolling wrapped lines partly off the screen as long
        // as any part of the focused node still obeys the scrolloff setting.
        let acceptable_screen_indexes = self.screen_indexes_within_scrolloff();

        // Using `last_screen_line_at_or_before_screen_index` handles the case when the end
        // of the file is on screen. In the extreme example, consider if the last line of the
        // document is at the top of the screen. If the screen is 10 lines tall, and scrolloff
        // is 3, then the first/last acceptable screen indexes will be 3 and 6, but the first
        // and last acceptable screen line will both be the current top line, which is the last
        // line of the document.
        let first_acceptable_screen_line = self.last_screen_line_at_or_before_screen_index(
            acceptable_screen_indexes.0,
        );
        let last_acceptable_screen_line = self.last_screen_line_at_or_before_screen_index(
            acceptable_screen_indexes.1,
        );

        proof {
            self.doc.lemma_cursor(&self.current_focus);
            self.doc.lemma_row(&self.top_line);
        }
        let focused_range = self.doc.cursor_range(&self.current_focus);

        if !self.doc.row_le(&first_acceptable_screen_line, &focused_range.end) {
            proof {
                self.doc.lemma_cursor_of_row(&first_acceptable_screen_line, &self.current_focus);
            }
            let ghost witness = first_acceptable_screen_line;
            self.current_focus = self.doc.convert_screen_line_to_cursor(
                first_acceptable_screen_line,
                &self.current_focus,
            );
            proof {
                assert(self.doc.row_valid(&witness) && self.doc.row_idx(&witness) == band_edge(
                    old(self).top_idx(),
                    if old(self).top_idx() == 0 {
                        0int
                    } else {
                        old(self).spec_margin()
                    },
                    self.doc.num_rows(),
                ) && self.current_focus == self.doc.cursor_of_row(&witness, &old(self).current_focus));
            }
        } else if !self.doc.row_le(&focused_range.start, &last_acceptable_screen_line) {
            proof {
                self.doc.lemma_cursor_of_row(&last_acceptable_screen_line, &self.current_focus);
            }
            let ghost witness = last_acceptable_screen_line;
            self.current_focus = self.doc.convert_screen_line_to_cursor(
                last_acceptable_screen_line,
                &self.current_focus,
            );
            proof {
                assert(self.doc.row_valid(&witness) && self.doc.row_idx(&witness) == band_edge(
                    old(self).top_idx(),
                    old(self).spec_height() - 1 - old(self).spec_margin(),
                    self.doc.num_rows(),
                ) && self.current_focus == self.doc.cursor_of_row(&witness, &old(self).current_focus));
            }
        } else {
            // Current focused range overlaps with acceptable screen line ranges;
            // nothing to do!
        }
    }

    pub fn scroll_viewport_down(&mut self, lines: usize)
        requires
            old(self).inv(),
        ensures
            final(self).inv(),
            Self::scroll_down_post(*old(self), *final(self), lines as int),
    {
        let mut lines = lines;
        let ghost n0 = lines as int;
        let mut lines_scrolled: usize = 0;
        let mut next_top_line = self.doc.clone_row(&self.top_line);
        loop
            invariant
                self.wf(),
                *self == *old(self),
                self.doc.row_valid(&next_top_line),
                lines_scrolled + lines == n0,
                n0 <= usize::MAX,
                self.doc.row_idx(&next_top_line) == self.top_idx() + lines_scrolled,
            ensures
                self.doc.row_valid(&next_top_line),
                lines_scrolled as int == self.doc.row_idx(&next_top_line) - self.top_idx(),
                self.doc.row_idx(&next_top_line) == vstd::math::min(
                    self.top_idx() + n0,
                    self.doc.num_rows() - 1,
                ),
            decreases lines,
        {
            if lines == 0 {
                proof {
                    self.doc.lemma_row(&next_top_line);
                }
                break ;
            }
            match self.doc.next_screen_line(&next_top_line) {
                None => {
                    break ;
                },
                Some(line) => {
                    proof {
                        self.doc.lemma_row(&line);
                    }
                    lines = lines - 1;
                    lines_scrolled = lines_scrolled + 1;
                    next_top_line = line;
                },
            }
        }

        if lines_scrolled > 0 {
            self.top_line = next_top_line;
            self.maybe_update_focused_node_after_scroll();
        }
    }

    pub fn scroll_viewport_up(&mut self, lines: usize)
        requires
            old(self).inv(),
        ensures
            final(self).inv(),
            Self::scroll_up_post(*old(self), *final(self), lines as int),
    {
        let mut lines = lines;
        let ghost n0 = lines as int;
        let mut lines_scrolled: usize = 0;
        let mut next_top_line = self.doc.clone_row(&self.top_line);
        loop
            invariant
                self.wf(),
                *self == *old(self),
                self.doc.row_valid(&next_top_line),
                lines_scrolled + lines == n0,
                n0 <= usize::MAX,
                self.doc.row_idx(&next_top_line) == self.top_idx() - lines_scrolled,
            ensures
                self.doc.row_valid(&next_top_line),
                lines_scrolled as int == self.top_idx() - self.doc.row_idx(&next_top_line),
                self.doc.row_idx(&next_top_line) == vstd::math::max(self.top_idx() - n0, 0),
            decreases lines,
        {
            if lines == 0 {
                proof {
                    self.doc.lemma_row(&next_top_line);
                }
                break ;
            }
            match self.doc.prev_screen_line(&next_top_line) {
                None => {
                    break ;
                },
                Some(line) => {
                    proof {
                        self.doc.lemma_row(&line);
                    }
                    lines = lines - 1;
                    lines_scrolled = lines_scrolled + 1;
                    next_top_line = line;
                },
            }
        }

        if lines_scrolled > 0 {
            self.top_line = next_top_line;
            self.maybe_update_focused_node_after_scroll();
        }
    }

    pub fn document_eof(&mut self)
        requires
            old(self).inv(),
            !old(self).doc.at_eof(),
        ensures
            final(self).inv(),
            final(self).doc.at_eof(),
            final(self).doc.spec_width() == old(self).doc.spec_width(),
            final(self).doc.num_rows() >= old(self).doc.num_rows(),
            final(self).top_line == old(self).top_line,
            final(self).top_idx() == old(self).top_idx(),
            final(self).current_focus == old(self).current_focus,
            final(self).focus_start() == old(self).focus_start(),
            final(self).focus_height() == old(self).focus_height(),
            final(self).spec_dimensions() == old(self).spec_dimensions(),
            final(self).spec_scrolloff_setting() == old(self).spec_scrolloff_setting(),
    {
        self.doc.eof();
    }

    pub fn append_document_data(&mut self, data: &[u8])
        requires
            old(self).inv(),
            !old(self).doc.at_eof(),
            old(self).doc.content().len() + data@.len() <= usize::MAX,
        ensures
            final(self).inv(),
            !final(self).doc.at_eof(),
            final(self).doc.spec_width() == old(self).doc.spec_width(),
            final(self).doc.content() == old(self).doc.content() + data@,
            final(self).doc.num_rows() >= old(self).doc.num_rows(),
            final(self).top_line == old(self).top_line,
            final(self).top_idx() == old(self).top_idx(),
            final(self).current_focus == old(self).current_focus,
            final(self).focus_start() == old(self).focus_start(),
            final(self).focus_height() == old(self).focus_height(),
            final(self).spec_dimensions() == old(self).spec_dimensions(),
            final(self).spec_scrolloff_setting() == old(self).spec_scrolloff_setting(),
    {
        self.doc.append(data);
    }

    pub fn do_action(&mut self, action: Action)
        requires
            old(self).inv(),
        ensures
            final(self).inv(),
            match action {
                Action::MoveCursorDown(n) => Self::move_down_post(
                    *old(self),
                    *final(self),
                    n as int,
                ),
                Action::MoveCursorUp(n) => Self::move_up_post(*old(self), *final(self), n as int),
                Action::ScrollViewportDown(n) => Self::scroll_down_post(
                    *old(self),
                    *final(self),
                    n as int,
                ),
                Action::ScrollViewportUp(n) => Self::scroll_up_post(
                    *old(self),
                    *final(self),
                    n as int,
                ),
                _ => *final(self) == *old(self),
            },
    {
        match action {
            Action::NoOp => (),
            Action::MoveCursorDown(n) => self.move_cursor_down(n),
            Action::MoveCursorUp(n) => self.move_cursor_up(n),
            Action::ScrollViewportDown(n) => self.scroll_viewport_down(n),
            Action::ScrollViewportUp(n) => self.scroll_viewport_up(n),
            // The fuller vocabulary composes from the same primitives; these
            // commands are an unwired extension point here, and leave the
            // state untouched.
            Action::JumpDown(_) => (),
            Action::JumpUp(_) => (),
            Action::FocusTop => (),
            Action::FocusBottom => (),
            Action::MoveFocusedElemToCenter => (),
            Action::MoveFocusedElemToTop => (),
            Action::MoveFocusedElemToBottom => (),
        }
    }

    /// The visible rows, top to bottom: exactly `height` entries, each either
    /// a displayed row or an explicit past-end-of-document marker.
    pub fn viewport_lines(&self) -> (r: Vec<Option<D::ScreenLine>>)
        requires
            self.wf(),
        ensures
            r@.len() == self.spec_height(),
            forall|i: int|
                0 <= i < r@.len() ==> match #[trigger] r@[i] {
                    Some(line) => self.doc.row_valid(&line) && self.doc.row_idx(&line)
                        == self.top_idx() + i,
                    None => self.top_idx() + i >= self.doc.num_rows(),
                },
    {
        let mut rows: Vec<Option<D::ScreenLine>> = Vec::new();
        let mut next_line: Option<D::ScreenLine> = Some(self.doc.clone_row(&self.top_line));
        let mut remaining_height = self.dimensions.height;
        proof {
            self.doc.lemma_row(&self.top_line);
        }
        while remaining_height > 0
            invariant
                self.wf(),
                rows@.len() + remaining_height == self.spec_height(),
                match next_line {
                    Some(line) => self.doc.row_valid(&line) && self.doc.row_idx(&line)
                        == self.top_idx() + rows@.len(),
                    None => self.top_idx() + rows@.len() >= self.doc.num_rows(),
                },
                forall|i: int|
                    0 <= i < rows@.len() ==> match #[trigger] rows@[i] {
                        Some(line) => self.doc.row_valid(&line) && self.doc.row_idx(&line)
                            == self.top_idx() + i,
                        None => self.top_idx() + i >= self.doc.num_rows(),
                    },
            decreases remaining_height,
        {
            remaining_height = remaining_height - 1;
            match next_line {
                None => {
                    rows.push(None);
                    next_line = None;
                },
                Some(curr_line) => {
                    next_line = self.doc.next_screen_line(&curr_line);
                    proof {
                        if next_line is None {
                            self.doc.lemma_row(&curr_line);
                        }
                    }
                    rows.push(Some(curr_line));
                },
            }
        }
        rows
    }
}


// =============================================================================
// Resize
// =============================================================================
/// Where the top row lands after a width change, anchored by where the focused
/// node's range stood on the old screen: start on screen re-anchors the start;
/// end on screen re-anchors the end; a range spanning the whole screen keeps
/// its rows-above count when its height is unchanged, else re-centers by
/// percentile.
pub open spec fn width_anchor_top(
    top: int,
    h: int,
    cs: int,
    ce: int,
    ch: int,
    cs2: int,
    ce2: int,
    ch2: int,
    n2: int,
) -> int {
    if cs >= top {
        vstd::math::max(0, cs2 - (cs - top))
    } else if ce < top + h {
        vstd::math::max(0, ce2 - (ce - top))
    } else if ch2 == ch {
        cs2 + (top - cs)
    } else {
        let q = vstd::math::min((2 * (top - cs) + h) * ch2 / (2 * ch), ch2 - 1);
        let mid = vstd::math::min(cs2 + q, n2 - 1);
        vstd::math::max(0, mid - h / 2)
    }
}

/// Where the top row lands after a height change: an anchor row (range end,
/// midpoint, start, or screen center, by classification) keeps its percentile
/// position on the screen.
pub open spec fn height_anchor_top(top: int, ho: int, hn: int, cs: int, ce: int) -> int {
    if cs >= top {
        if ce < top + ho {
            let mi = ((cs - top) + (ce - top)) / 2;
            vstd::math::max(0, top + mi - pmap(mi, ho, hn))
        } else {
            vstd::math::max(0, cs - pmap(cs - top, ho, hn))
        }
    } else if ce < top + ho {
        vstd::math::max(0, ce - pmap(ce - top, ho, hn))
    } else {
        vstd::math::max(0, top + ho / 2 - hn / 2)
    }
}

/// The final focus-correction pass: if no part of the focused range remains
/// within the (edge-clamped) margin band, the viewport shifts the least
/// amount that brings the nearer range edge back to the band edge, clamping
/// at the document start.
pub open spec fn corrected_top(top: int, h: int, m: int, n: int, cs: int, ce: int) -> int {
    let first_rel = if top == 0 {
        0int
    } else {
        m
    };
    let fe = band_edge(top, first_rel, n);
    let le = band_edge(top, h - 1 - m, n);
    if ce < fe {
        vstd::math::max(0, ce - first_rel)
    } else if le < cs {
        vstd::math::max(0, cs - (h - 1 - m))
    } else {
        top
    }
}

impl<D: Document> DocumentViewer<D> {
    /// The whole effect of a resize on the viewer state.
    pub open spec fn resize_post(pre: Self, post: Self, nd: Dimensions) -> bool {
        let w2 = nd.width as int;
        let same_w = w2 == pre.doc.spec_width();
        let d2 = if same_w {
            pre.doc
        } else {
            pre.doc.with_width(w2)
        };
        let cs2 = d2.cursor_start(&pre.current_focus);
        let ch2 = d2.cursor_height(&pre.current_focus);
        let ce2 = cs2 + ch2 - 1;
        let n2 = d2.num_rows();
        let ho = pre.spec_height();
        let hn = nd.height as int;
        let t1 = if same_w {
            pre.top_idx()
        } else {
            width_anchor_top(
                pre.top_idx(),
                ho,
                pre.focus_start(),
                pre.focus_end(),
                pre.focus_height(),
                cs2,
                ce2,
                ch2,
                n2,
            )
        };
        let t2 = if hn == ho {
            t1
        } else {
            height_anchor_top(t1, ho, hn, cs2, ce2)
        };
        let m2 = eff_margin(pre.spec_scrolloff_setting(), hn);
        let t3 = corrected_top(t2, hn, m2, n2, cs2, ce2);
        &&& post.doc == d2
        &&& post.spec_dimensions() == nd
        &&& post.current_focus == pre.current_focus
        &&& post.spec_scrolloff_setting() == pre.spec_scrolloff_setting()
        &&& post.top_idx() == t3
    }

    pub fn resize(&mut self, new_dimensions: Dimensions)
        requires
            old(self).inv(),
            new_dimensions.width >= 1,
            1 <= new_dimensions.height <= MAX_VIEWPORT_HEIGHT,
            old(self).doc.content().len() <= 0x1000_0000_0000_0000,
        ensures
            final(self).inv(),
            final(self).in_band(),
            Self::resize_post(*old(self), *final(self), new_dimensions),
    {
        // Handle resizes in two parts: first resize the width, then the height.
        self.resize_width(new_dimensions.width);
        self.resize_height(new_dimensions.height);
        self.move_current_focus_within_scrolloff_after_resize();
    }

    fn update_dimensions_and_resize_doc(&mut self, dimensions: Dimensions)
        requires
            old(self).doc.inv(),
            dimensions.width >= 1,
        ensures
            final(self).doc == old(self).doc.with_width(dimensions.width as int),
            final(self).dimensions == dimensions,
            final(self).top_line == old(self).top_line,
            final(self).current_focus == old(self).current_focus,
            final(self).scrolloff_setting == old(self).scrolloff_setting,
    {
        self.dimensions = dimensions;
        self.doc.resize(dimensions.width);
    }

    pub fn resize_width(&mut self, new_width: usize)
        requires
            old(self).inv(),
            new_width >= 1,
            old(self).doc.content().len() <= 0x1000_0000_0000_0000,
        ensures
            final(self).inv(),
            new_width as int == old(self).doc.spec_width() ==> *final(self) == *old(self),
            new_width as int != old(self).doc.spec_width() ==> ({
                let d2 = old(self).doc.with_width(new_width as int);
                let cs2 = d2.cursor_start(&old(self).current_focus);
                let ch2 = d2.cursor_height(&old(self).current_focus);
                &&& final(self).doc == d2
                &&& final(self).dimensions == (Dimensions {
                    width: new_width,
                    height: old(self).dimensions.height,
                })
                &&& final(self).current_focus == old(self).current_focus
                &&& final(self).scrolloff_setting == old(self).scrolloff_setting
                &&& final(self).top_idx() == width_anchor_top(
                    old(self).top_idx(),
                    old(self).spec_height(),
                    old(self).focus_start(),
                    old(self).focus_end(),
                    old(self).focus_height(),
                    cs2,
                    cs2 + ch2 - 1,
                    ch2,
                    d2.num_rows(),
                )
            }),
    {
        if new_width == self.dimensions.width {
            return ;
        }
        let new_dimensions = Dimensions { width: new_width, height: self.dimensions.height };

        proof {
            self.doc.lemma_inv();
            self.doc.lemma_cursor(&self.current_focus);
            self.doc.lemma_row(&self.top_line);
            self.doc.lemma_with_width(new_width as int);
            let d2 = self.doc.with_width(new_width as int);
            d2.lemma_inv();
            d2.lemma_cursor(&self.current_focus);
        }

        let old_cursor_range = self.doc.cursor_range(&self.current_focus);
        let start_position = self.position_of_screen_line(&old_cursor_range.start);
        let end_position = self.position_of_screen_line(&old_cursor_range.end);

        match (start_position, end_position) {
            (PositionOfScreenLine::AboveTopLine, PositionOfScreenLine::AboveTopLine) => {
                // the focused node always overlaps the screen
                vstd::pervasive::unreached()
            },
            (PositionOfScreenLine::AboveTopLine, PositionOfScreenLine::AtScreenIndex(index)) => {
                // Keep the end of the node anchored at the same screen index.
                self.update_dimensions_and_resize_doc(new_dimensions);
                let new_cursor_range = self.doc.cursor_range(&self.current_focus);
                self.top_line = self.n_screen_lines_before_or_top_of_doc(
                    new_cursor_range.end,
                    index,
                );
            },
            (PositionOfScreenLine::AboveTopLine, PositionOfScreenLine::BelowBottomLine) => {
                let lines_above_top_of_screen = self.doc.diff_screen_lines(
                    &self.top_line,
                    &old_cursor_range.start,
                );
                self.update_dimensions_and_resize_doc(new_dimensions);
                let new_cursor_range = self.doc.cursor_range(&self.current_focus);
                proof {
                    self.doc.lemma_cursor(&self.current_focus);
                    self.doc.lemma_inv();
                }
                if old_cursor_range.num_screen_lines == new_cursor_range.num_screen_lines {
                    // If the cursor is the same number of lines long, then we'll keep the lines in
                    // the same spot.
                    self.top_line = self.n_screen_lines_after(
                        new_cursor_range.start,
                        lines_above_top_of_screen,
                    );
                } else {
                    // If the size of the cursor changed, we'll try to keep the content
                    // near the center of the screen in approximately the same place.
                    //
                    // For example, if the focused node took up 100 screen lines before,
                    // and lines 70-90 were on screen, that means the 80% percentile of
                    // the node was in the middle of the screen. If, after the resize, it
                    // takes up 60 screen lines, then we want screen line 48 in the middle
                    // of the screen, so the screen will show lines 38-58. This is all
                    // very approximate (the anchor is capped inside the node), so exact
                    // rounding is not important.
                    let h = self.dimensions.height;
                    let ch_old = old_cursor_range.num_screen_lines;
                    let ch_new = new_cursor_range.num_screen_lines;
                    proof {
                        let bound: int = 0x1000_0000_0000_0000;
                        assert(2 * (lines_above_top_of_screen as int) + (h as int) <= 2 * bound
                            + 65535);
                        assert((2 * (lines_above_top_of_screen as int) + (h as int)) * (
                        ch_new as int) <= (2 * bound + 32767) * bound) by (nonlinear_arith)
                            requires
                                0 <= 2 * (lines_above_top_of_screen as int) + (h as int) <= 2
                                    * bound + 32767,
                                0 <= (ch_new as int) <= bound,
                        ;
                    }
                    let numer: u128 = (2 * (lines_above_top_of_screen as u128) + (h as u128)) * (
                    ch_new as u128);
                    let denom: u128 = 2 * (ch_old as u128);
                    let q128 = numer / denom;
                    let q = if q128 >= (ch_new as u128) - 1 {
                        ch_new - 1
                    } else {
                        q128 as usize
                    };
                    proof {
                        assert(q as int == vstd::math::min(
                            (2 * (lines_above_top_of_screen as int) + h) * (ch_new as int) / (2 * (
                            ch_old as int)),
                            ch_new as int - 1,
                        ));
                    }
                    let screen_line_in_middle_of_screen = self.n_screen_lines_after_or_end_of_doc(
                        new_cursor_range.start,
                        q,
                    );
                    self.top_line = self.n_screen_lines_before_or_top_of_doc(
                        screen_line_in_middle_of_screen,
                        h / 2,
                    );
                }
            },
            (PositionOfScreenLine::AtScreenIndex(index), _) => {
                self.update_dimensions_and_resize_doc(new_dimensions);
                let new_cursor_range = self.doc.cursor_range(&self.current_focus);
                self.top_line = self.n_screen_lines_before_or_top_of_doc(
                    new_cursor_range.start,
                    index,
                );
            },
            (PositionOfScreenLine::BelowBottomLine, _) => {
                // the focused node always overlaps the screen
                vstd::pervasive::unreached()
            },
        }
    }

    fn pmap_index(&self, i: usize, ho: usize, hn: usize) -> (r: usize)
        requires
            1 <= ho <= MAX_VIEWPORT_HEIGHT,
            1 <= hn <= MAX_VIEWPORT_HEIGHT,
            i < ho,
        ensures
            r as int == pmap(i as int, ho as int, hn as int),
            r < hn,
    {
        if ho <= 1 {
            0
        } else {
            proof {
                assert(2 * (i as int) * ((hn as int) - 1) <= 2 * 65534 * 65534) by (nonlinear_arith)
                    requires
                        0 <= i as int <= 65534,
                        1 <= hn as int <= 65535,
                ;
            }
            let numer: u64 = 2 * (i as u64) * ((hn as u64) - 1) + ((ho as u64) - 1);
            let denom: u64 = 2 * ((ho as u64) - 1);
            proof {
                assert(2 * (i as int) * ((hn as int) - 1) <= 2 * ((ho as int) - 1) * ((
                hn as int) - 1)) by (nonlinear_arith)
                    requires
                        i as int <= (ho as int) - 1,
                        hn as int >= 1,
                ;
                assert(((ho as int) - 1) * (2 * (hn as int) - 1) == 2 * ((ho as int) - 1) * ((
                hn as int) - 1) + ((ho as int) - 1)) by (nonlinear_arith);
                assert(((ho as int) - 1) * (2 * (hn as int) - 1) < 2 * ((ho as int) - 1) * (
                hn as int)) by (nonlinear_arith)
                    requires
                        ho as int >= 2,
                        hn as int >= 1,
                ;
                assert((numer as int) < (denom as int) * (hn as int));
                assert((numer as int) / (denom as int) < hn as int) by (nonlinear_arith)
                    requires
                        (numer as int) < (denom as int) * (hn as int),
                        denom as int >= 1,
                        numer as int >= 0,
                ;
            }
            (numer / denom) as usize
        }
    }

    pub fn resize_height(&mut self, new_height: usize)
        requires
            old(self).inv(),
            1 <= new_height <= MAX_VIEWPORT_HEIGHT,
        ensures
            final(self).inv(),
            new_height == old(self).dimensions.height ==> *final(self) == *old(self),
            new_height != old(self).dimensions.height ==> ({
                &&& final(self).doc == old(self).doc
                &&& final(self).dimensions == (Dimensions {
                    width: old(self).dimensions.width,
                    height: new_height,
                })
                &&& final(self).current_focus == old(self).current_focus
                &&& final(self).scrolloff_setting == old(self).scrolloff_setting
                &&& final(self).top_idx() == height_anchor_top(
                    old(self).top_idx(),
                    old(self).spec_height(),
                    new_height as int,
                    old(self).focus_start(),
                    old(self).focus_end(),
                )
            }),
    {
        let old_height = self.dimensions.height;
        if new_height == old_height {
            return ;
        }

        proof {
            self.doc.lemma_cursor(&self.current_focus);
            self.doc.lemma_row(&self.top_line);
        }

        // We'll go with vim's approach of keeping the focused node in the same
        // percentile of the screen.
        let cursor_range = self.doc.cursor_range(&self.current_focus);
        let start_position = self.position_of_screen_line(&cursor_range.start);
        let end_position = self.position_of_screen_line(&cursor_range.end);

        let anchor: (D::ScreenLine, usize) = match (start_position, end_position) {
            (PositionOfScreenLine::AboveTopLine, PositionOfScreenLine::AboveTopLine) => {
                // the focused node always overlaps the screen
                vstd::pervasive::unreached()
            },
            (PositionOfScreenLine::AboveTopLine, PositionOfScreenLine::AtScreenIndex(index)) => {
                // Keep the end of the focused node in the same percentile.
                (cursor_range.end, self.pmap_index(index, old_height, new_height))
            },
            (PositionOfScreenLine::AboveTopLine, PositionOfScreenLine::BelowBottomLine) => {
                // Keep the middle of what's visible on screen in the middle.
                let half_old_height = old_height / 2;
                let line = self.screen_line_at_screen_index(half_old_height);
                (line.unwrap(), new_height / 2)
            },
            (
                PositionOfScreenLine::AtScreenIndex(start_index),
                PositionOfScreenLine::AboveTopLine,
            ) => {
                // the range's end never precedes its start
                vstd::pervasive::unreached()
            },
            (
                PositionOfScreenLine::AtScreenIndex(start_index),
                PositionOfScreenLine::AtScreenIndex(end_index),
            ) => {
                // Keep the middle of the focused node in the same percentile.
                let middle_index = (start_index + end_index) / 2;
                let line = self.screen_line_at_screen_index(middle_index);
                (line.unwrap(), self.pmap_index(middle_index, old_height, new_height))
            },
            (
                PositionOfScreenLine::AtScreenIndex(index),
                PositionOfScreenLine::BelowBottomLine,
            ) => {
                // Keep the start of the focused node in the same percentile.
                (cursor_range.start, self.pmap_index(index, old_height, new_height))
            },
            (PositionOfScreenLine::BelowBottomLine, _) => {
                // the focused node always overlaps the screen
                vstd::pervasive::unreached()
            },
        };
        let anchor_screen_line = anchor.0;
        let new_index = anchor.1;

        self.top_line = self.n_screen_lines_before_or_top_of_doc(anchor_screen_line, new_index);
        self.dimensions = Dimensions { width: self.dimensions.width, height: new_height };
    }

    fn move_current_focus_within_scrolloff_after_resize(&mut self)
        requires
            old(self).wf(),
        ensures
            final(self).inv(),
            final(self).in_band(),
            final(self).doc == old(self).doc,
            final(self).dimensions == old(self).dimensions,
            final(self).current_focus == old(self).current_focus,
            final(self).scrolloff_setting == old(self).scrolloff_setting,
            final(self).top_idx() == corrected_top(
                old(self).top_idx(),
                old(self).spec_height(),
                old(self).spec_margin(),
                old(self).doc.num_rows(),
                old(self).focus_start(),
                old(self).focus_end(),
            ),
    {
        // After a resize, we'll allow part of the focused node to be outside of scrolloff,
        // but if that's not the case we'll move the screen slightly to make it so.
        let acceptable_screen_indexes = self.screen_indexes_within_scrolloff();

        // We use `last_screen_line_at_or_before_screen_index` in
        // `maybe_update_focused_node_after_scroll` to allow scrolling the end of the file to
        // the very top of the screen. We'll use the same relaxation here, so that if you do
        // that, and then resize the screen, the cursor won't "jump" into the scrolloff zone.
        let first_acceptable_screen_line = self.last_screen_line_at_or_before_screen_index(
            acceptable_screen_indexes.0,
        );
        let last_acceptable_screen_line = self.last_screen_line_at_or_before_screen_index(
            acceptable_screen_indexes.1,
        );

        proof {
            self.doc.lemma_cursor(&self.current_focus);
            self.doc.lemma_row(&self.top_line);
        }
        let focused_range = self.doc.cursor_range(&self.current_focus);

        if !self.doc.row_le(&first_acceptable_screen_line, &focused_range.end) {
            // Put the end of the focused range at the first acceptable screen index,
            // clamping at the top of the document.
            self.top_line = self.n_screen_lines_before_or_top_of_doc(
                focused_range.end,
                acceptable_screen_indexes.0,
            );
        } else if !self.doc.row_le(&focused_range.start, &last_acceptable_screen_line) {
            // Put the start of the focused range at the last acceptable screen index,
            // clamping at the top of the document.
            self.top_line = self.n_screen_lines_before_or_top_of_doc(
                focused_range.start,
                acceptable_screen_indexes.1,
            );
        } else {
            // Current focused range overlaps with acceptable screen line ranges;
            // nothing to do!
        }
    }
}


/// Resizing the width and then resizing back, with no intervening cursor or
/// scroll action, restores the top row exactly, and with it the set of
/// visible logical lines.  This is stated for the round trips where the
/// focused node's start sits on screen, the intermediate width leaves at
/// least as many rows before the node as its screen offset (no clamping at
/// the document start), and the node sits inside the scroll-margin band at
/// both widths (the focus-correction pass leaves the anchor alone).  When the
/// intermediate width leaves fewer rows above the node, the viewport clamps
/// to the document start and the round trip may land elsewhere.
pub proof fn lemma_resize_width_round_trip(
    top: int,
    h: int,
    m: int,
    n: int,
    n2: int,
    cs: int,
    ce: int,
    ch: int,
    cs2: int,
    ce2: int,
    ch2: int,
)
    requires
        0 <= top <= cs,
        cs2 >= cs - top,
        corrected_top(cs2 - (cs - top), h, m, n2, cs2, ce2) == cs2 - (cs - top),
        corrected_top(top, h, m, n, cs, ce) == top,
    ensures
        ({
            let t1 = width_anchor_top(top, h, cs, ce, ch, cs2, ce2, ch2, n2);
            let t2 = corrected_top(t1, h, m, n2, cs2, ce2);
            let t3 = width_anchor_top(t2, h, cs2, ce2, ch2, cs, ce, ch, n);
            corrected_top(t3, h, m, n, cs, ce) == top
        }),
{
}

} // verus!
