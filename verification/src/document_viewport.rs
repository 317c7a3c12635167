use vstd::prelude::*;

use crate::document::{CursorRange, Document};
use crate::document_viewer::{
    band_edge, eff_margin, in_relaxed_band, lemma_starts_bounds, lemma_visibility_top_in_band,
    visibility_top, AcceptableStartScreenIndexesToShowCursorNode,
};

verus! {

/// The `DocumentViewport` manages what part of a document is displayed on screen
/// as the user takes actions to move the cursor or manipulate the document. Much
/// of the behavior here matches or is inspired by vim behavior. A type that
/// implements `Document` is responsible for deciding the actual content that goes
/// on each line, and when and where line wrapping should occur.
///
/// Unlike `DocumentViewer`, this engine does not own the document: every
/// operation borrows it, and the caller is responsible for passing the same
/// document that the stored anchors were computed against.
pub struct DocumentViewport<D: Document> {
    pub top_line: D::ScreenLine,
    pub current_focus: D::Cursor,
    // Someday: This needs to be a struct; right now it's (width, height).
    pub dimensions: (usize, usize),
    // We call this scrolloff_setting, to differentiate between
    // what it's set to, and what the scrolloff functionally is
    // if it's set to value >= height / 2.
    //
    // Access the functional value via .effective_scrolloff().
    pub scrolloff_setting: usize,
}

impl<D: Document> DocumentViewport<D> {
    /// The anchors designate positions of `doc`, and the dimensions match it.
    pub open spec fn wf(&self, doc: &D) -> bool {
        &&& doc.inv()
        &&& doc.row_valid(&self.top_line)
        &&& doc.cursor_valid(&self.current_focus)
        &&& self.dimensions.1 >= 1
        &&& self.dimensions.0 >= 1
        &&& self.dimensions.0 as int == doc.spec_width()
        &&& doc.num_rows() >= 1
    }

    pub open spec fn top_idx(&self, doc: &D) -> int {
        doc.row_idx(&self.top_line)
    }

    pub open spec fn focus_start(&self, doc: &D) -> int {
        doc.cursor_start(&self.current_focus)
    }

    pub open spec fn focus_height(&self, doc: &D) -> int {
        doc.cursor_height(&self.current_focus)
    }

    pub open spec fn focus_end(&self, doc: &D) -> int {
        self.focus_start(doc) + self.focus_height(doc) - 1
    }

    pub open spec fn spec_height(&self) -> int {
        self.dimensions.1 as int
    }

    pub open spec fn spec_margin(&self) -> int {
        eff_margin(self.scrolloff_setting as int, self.spec_height())
    }

    /// Part of the focused node is within the visible rows.
    pub open spec fn focus_on_screen(&self, doc: &D) -> bool {
        &&& self.focus_end(doc) >= self.top_idx(doc)
        &&& self.focus_start(doc) <= self.top_idx(doc) + self.spec_height() - 1
    }

    pub open spec fn inv(&self, doc: &D) -> bool {
        &&& self.wf(doc)
        &&& self.focus_on_screen(doc)
    }

    /// The scroll-margin guarantee, relaxed at the document edges.
    pub open spec fn in_band(&self, doc: &D) -> bool {
        in_relaxed_band(
            self.top_idx(doc),
            self.spec_height(),
            self.spec_margin(),
            doc.num_rows(),
            self.focus_start(doc),
            self.focus_end(doc),
        )
    }

    /// The state after the viewport has re-anchored so the node under `c2` is
    /// visible.
    pub open spec fn repositioned_on(pre: Self, post: Self, doc: &D, c2: D::Cursor) -> bool {
        &&& post.dimensions == pre.dimensions
        &&& post.scrolloff_setting == pre.scrolloff_setting
        &&& post.current_focus == c2
        &&& post.top_idx(doc) == visibility_top(
            pre.top_idx(doc),
            pre.spec_height(),
            pre.spec_margin(),
            doc.num_rows(),
            doc.cursor_start(&c2),
            doc.cursor_height(&c2),
        )
    }

    pub open spec fn move_down_post(pre: Self, post: Self, doc: &D, n: int) -> bool {
        &&& (doc.cursor_at_bottom(&pre.current_focus) ==> post == pre)
        &&& (!doc.cursor_at_bottom(&pre.current_focus) ==> Self::repositioned_on(
            pre,
            post,
            doc,
            doc.cursor_down_tgt(n, &pre.current_focus),
        ) && post.in_band(doc))
    }

    pub open spec fn move_up_post(pre: Self, post: Self, doc: &D, n: int) -> bool {
        &&& (doc.cursor_at_top(&pre.current_focus) ==> post == pre)
        &&& (!doc.cursor_at_top(&pre.current_focus) ==> Self::repositioned_on(
            pre,
            post,
            doc,
            doc.cursor_up_tgt(n, &pre.current_focus),
        ) && post.in_band(doc))
    }

    /// How the focus is re-anchored after the viewport moved under it.
    pub open spec fn focus_corrected(
        pre_focus: D::Cursor,
        post: Self,
        doc: &D,
        top: int,
        h: int,
        m: int,
    ) -> bool {
        let n = doc.num_rows();
        let first_rel = if top == 0 {
            0int
        } else {
            m
        };
        let fe = band_edge(top, first_rel, n);
        let le = band_edge(top, h - 1 - m, n);
        let pcs = doc.cursor_start(&pre_focus);
        let pce = pcs + doc.cursor_height(&pre_focus) - 1;
        if pce < fe {
            &&& doc.cursor_valid(&post.current_focus)
            &&& doc.cursor_start(&post.current_focus) <= fe
            &&& fe <= doc.cursor_start(&post.current_focus) + doc.cursor_height(
                &post.current_focus,
            ) - 1
            &&& exists|r: D::ScreenLine|
                doc.row_valid(&r) && doc.row_idx(&r) == fe && post.current_focus
                    == doc.cursor_of_row(&r, &pre_focus)
        } else if le < pcs {
            &&& doc.cursor_valid(&post.current_focus)
            &&& doc.cursor_start(&post.current_focus) <= le
            &&& le <= doc.cursor_start(&post.current_focus) + doc.cursor_height(
                &post.current_focus,
            ) - 1
            &&& exists|r: D::ScreenLine|
                doc.row_valid(&r) && doc.row_idx(&r) == le && post.current_focus
                    == doc.cursor_of_row(&r, &pre_focus)
        } else {
            post.current_focus == pre_focus
        }
    }

    pub open spec fn scroll_down_post(pre: Self, post: Self, doc: &D, n: int) -> bool {
        let top2 = vstd::math::min(pre.top_idx(doc) + n, doc.num_rows() - 1);
        if top2 == pre.top_idx(doc) {
            post == pre
        } else {
            &&& post.dimensions == pre.dimensions
            &&& post.scrolloff_setting == pre.scrolloff_setting
            &&& post.top_idx(doc) == top2
            &&& Self::focus_corrected(
                pre.current_focus,
                post,
                doc,
                top2,
                pre.spec_height(),
                pre.spec_margin(),
            )
            &&& post.in_band(doc)
        }
    }

    pub open spec fn scroll_up_post(pre: Self, post: Self, doc: &D, n: int) -> bool {
        let top2 = vstd::math::max(pre.top_idx(doc) - n, 0);
        if top2 == pre.top_idx(doc) {
            post == pre
        } else {
            &&& post.dimensions == pre.dimensions
            &&& post.scrolloff_setting == pre.scrolloff_setting
            &&& post.top_idx(doc) == top2
            &&& Self::focus_corrected(
                pre.current_focus,
                post,
                doc,
                top2,
                pre.spec_height(),
                pre.spec_margin(),
            )
            &&& post.in_band(doc)
        }
    }

    pub fn new(
        first_line: D::ScreenLine,
        initial_cursor: D::Cursor,
        dimensions: (usize, usize),
        scrolloff: usize,
    ) -> (r: Self)
        ensures
            r.top_line == first_line,
            r.current_focus == initial_cursor,
            r.dimensions == dimensions,
            r.scrolloff_setting == scrolloff,
    {
        DocumentViewport {
            top_line: first_line,
            current_focus: initial_cursor,
            dimensions,
            scrolloff_setting: scrolloff,
        }
    }

    pub fn set_scrolloff(&mut self, scrolloff: usize)
        ensures
            final(self).top_line == old(self).top_line,
            final(self).current_focus == old(self).current_focus,
            final(self).dimensions == old(self).dimensions,
            final(self).scrolloff_setting == scrolloff,
    {
        self.scrolloff_setting = scrolloff;
    }

    // Cap scrolloff at half the size of the screen.
    fn effective_scrolloff(&self) -> (r: usize)
        requires
            self.dimensions.1 >= 1,
        ensures
            r as int == self.spec_margin(),
    {
        let cap = (self.dimensions.1 - 1) / 2;
        if self.scrolloff_setting <= cap {
            self.scrolloff_setting
        } else {
            cap
        }
    }

    // If the last line of the file appears before `screen_index`, this will return `None`.
    fn screen_line_at_screen_index(&self, doc: &D, screen_index: usize) -> (r: Option<
        D::ScreenLine,
    >)
        requires
            self.wf(doc),
        ensures
            match r {
                None => self.top_idx(doc) + screen_index > doc.num_rows() - 1,
                Some(line) => doc.row_valid(&line) && doc.row_idx(&line) == self.top_idx(doc)
                    + screen_index,
            },
    {
        let mut curr_line = doc.clone_row(&self.top_line);
        let mut remaining: usize = screen_index;
        loop
            invariant
                self.wf(doc),
                doc.row_valid(&curr_line),
                remaining <= screen_index,
                doc.row_idx(&curr_line) == self.top_idx(doc) + screen_index - remaining,
            ensures
                doc.row_valid(&curr_line),
                remaining == 0,
                doc.row_idx(&curr_line) == self.top_idx(doc) + screen_index,
            decreases remaining,
        {
            if remaining == 0 {
                break ;
            }
            match doc.next_screen_line(&curr_line) {
                None => {
                    proof {
                        doc.lemma_row(&curr_line);
                    }
                    return None;
                },
                Some(line) => {
                    curr_line = line;
                    remaining = remaining - 1;
                },
            }
        }
        Some(curr_line)
    }

    // If the last line of the file appears before `screen_index`, this will return the
    // last line of the file.
    fn last_screen_line_at_or_before_screen_index(&self, doc: &D, screen_index: usize) -> (r:
        D::ScreenLine)
        requires
            self.wf(doc),
        ensures
            doc.row_valid(&r),
            doc.row_idx(&r) == band_edge(self.top_idx(doc), screen_index as int, doc.num_rows()),
    {
        let mut curr_line = doc.clone_row(&self.top_line);
        let mut remaining: usize = screen_index;
        loop
            invariant
                self.wf(doc),
                doc.row_valid(&curr_line),
                remaining <= screen_index,
                doc.row_idx(&curr_line) == self.top_idx(doc) + screen_index - remaining,
            ensures
                doc.row_valid(&curr_line),
                doc.row_idx(&curr_line) == band_edge(
                    self.top_idx(doc),
                    screen_index as int,
                    doc.num_rows(),
                ),
            decreases remaining,
        {
            if remaining == 0 {
                proof {
                    doc.lemma_row(&curr_line);
                }
                break ;
            }
            match doc.next_screen_line(&curr_line) {
                None => {
                    proof {
                        doc.lemma_row(&curr_line);
                    }
                    break ;
                },
                Some(line) => {
                    curr_line = line;
                    remaining = remaining - 1;
                },
            }
        }
        curr_line
    }

    // Assumes that this will always exist.
    fn n_screen_lines_before(&self, doc: &D, screen_line: D::ScreenLine, n: usize) -> (r:
        D::ScreenLine)
        requires
            doc.inv(),
            doc.row_valid(&screen_line),
            n <= doc.row_idx(&screen_line),
        ensures
            doc.row_valid(&r),
            doc.row_idx(&r) == doc.row_idx(&screen_line) - n,
    {
        let mut screen_line = screen_line;
        let mut n = n;
        let ghost idx0 = doc.row_idx(&screen_line);
        let ghost n0 = n as int;
        while n > 0
            invariant
                doc.inv(),
                doc.row_valid(&screen_line),
                n <= n0,
                doc.row_idx(&screen_line) == idx0 - n0 + n,
                n0 <= idx0,
            decreases n,
        {
            let prev = doc.prev_screen_line(&screen_line);
            screen_line = prev.unwrap();
            n = n - 1;
        }
        screen_line
    }

    pub fn move_cursor_down(&mut self, doc: &D, lines: usize)
        requires
            old(self).inv(doc),
        ensures
            final(self).inv(doc),
            Self::move_down_post(*old(self), *final(self), doc, lines as int),
    {
        proof {
            doc.lemma_cursor_moves(lines as int, &self.current_focus);
        }
        let mv = doc.move_cursor_down(lines, &self.current_focus);
        self.update_so_new_cursor_is_visible(doc, mv);
    }

    pub fn move_cursor_up(&mut self, doc: &D, lines: usize)
        requires
            old(self).inv(doc),
        ensures
            final(self).inv(doc),
            Self::move_up_post(*old(self), *final(self), doc, lines as int),
    {
        proof {
            doc.lemma_cursor_moves(lines as int, &self.current_focus);
        }
        let mv = doc.move_cursor_up(lines, &self.current_focus);
        self.update_so_new_cursor_is_visible(doc, mv);
    }

    pub fn scroll_viewport_down(&mut self, doc: &D, lines: usize)
        requires
            old(self).inv(doc),
        ensures
            final(self).inv(doc),
            Self::scroll_down_post(*old(self), *final(self), doc, lines as int),
    {
        let mut lines = lines;
        let ghost n0 = lines as int;
        let mut lines_scrolled: usize = 0;
        let mut next_top_line = doc.clone_row(&self.top_line);
        loop
            invariant
                *self == *old(self),
                self.inv(doc),
                doc.row_valid(&next_top_line),
                lines_scrolled + lines == n0,
                n0 <= usize::MAX,
                doc.row_idx(&next_top_line) == self.top_idx(doc) + lines_scrolled,
            ensures
                doc.row_valid(&next_top_line),
                lines_scrolled as int == doc.row_idx(&next_top_line) - self.top_idx(doc),
                doc.row_idx(&next_top_line) == vstd::math::min(
                    self.top_idx(doc) + n0,
                    doc.num_rows() - 1,
                ),
            decreases lines,
        {
            if lines == 0 {
                proof {
                    doc.lemma_row(&next_top_line);
                }
                break ;
            }
            match doc.next_screen_line(&next_top_line) {
                None => {
                    break ;
                },
                Some(line) => {
                    proof {
                        doc.lemma_row(&line);
                    }
                    lines = lines - 1;
                    lines_scrolled = lines_scrolled + 1;
                    next_top_line = line;
                },
            }
        }

        if lines_scrolled > 0 {
            self.top_line = next_top_line;
            self.maybe_update_focused_node_after_scroll(doc);
        }
    }

    pub fn scroll_viewport_up(&mut self, doc: &D, lines: usize)
        requires
            old(self).inv(doc),
        ensures
            final(self).inv(doc),
            Self::scroll_up_post(*old(self), *final(self), doc, lines as int),
    {
        let mut lines = lines;
        let ghost n0 = lines as int;
        let mut lines_scrolled: usize = 0;
        let mut next_top_line = doc.clone_row(&self.top_line);
        loop
            invariant
                *self == *old(self),
                self.inv(doc),
                doc.row_valid(&next_top_line),
                lines_scrolled + lines == n0,
                n0 <= usize::MAX,
                doc.row_idx(&next_top_line) == self.top_idx(doc) - lines_scrolled,
            ensures
                doc.row_valid(&next_top_line),
                lines_scrolled as int == self.top_idx(doc) - doc.row_idx(&next_top_line),
                doc.row_idx(&next_top_line) == vstd::math::max(self.top_idx(doc) - n0, 0),
            decreases lines,
        {
            if lines == 0 {
                proof {
                    doc.lemma_row(&next_top_line);
                }
                break ;
            }
            match doc.prev_screen_line(&next_top_line) {
                None => {
                    break ;
                },
                Some(line) => {
                    proof {
                        doc.lemma_row(&line);
                    }
                    lines = lines - 1;
                    lines_scrolled = lines_scrolled + 1;
                    next_top_line = line;
                },
            }
        }

        if lines_scrolled > 0 {
            self.top_line = next_top_line;
            self.maybe_update_focused_node_after_scroll(doc);
        }
    }

    fn update_so_new_cursor_is_visible(&mut self, doc: &D, new_cursor: Option<D::Cursor>)
        requires
            old(self).inv(doc),
            new_cursor matches Some(c2) ==> doc.cursor_valid(&c2),
        ensures
            final(self).inv(doc),
            match new_cursor {
                None => *final(self) == *old(self),
                Some(c2) => Self::repositioned_on(*old(self), *final(self), doc, c2) && final(self).in_band(doc),
            },
    {
        // If an operation doesn't move the cursor, it will return `None`, so there's
        // nothing to do.
        let new_cursor = match new_cursor {
            None => {
                return ;
            },
            Some(new_cursor) => new_cursor,
        };
        self.current_focus = new_cursor;

        proof {
            doc.lemma_cursor(&self.current_focus);
            doc.lemma_row(&self.top_line);
            lemma_starts_bounds(
                self.spec_height(),
                self.spec_margin(),
                self.focus_height(doc),
                vstd::math::min(self.spec_height() - 1, self.focus_start(doc)),
                vstd::math::min(
                    self.spec_height() - 1,
                    doc.num_rows() - self.focus_start(doc) - self.focus_height(doc),
                ),
            );
        }

        let (cursor_range, acceptable_start_index_range) = self
            .calculate_acceptable_start_screen_indexes_to_show_cursor_node(
            doc,
            &self.current_focus,
        );

        let start_index = acceptable_start_index_range.start;
        let end_index = acceptable_start_index_range.end;

        let screen_line_at_first_acceptable_start = self.screen_line_at_screen_index(
            doc,
            start_index,
        );
        let screen_line_at_last_acceptable_start = self.screen_line_at_screen_index(
            doc,
            end_index,
        );

        let cursor_start_is_before_first_acceptable_start =
            match &screen_line_at_first_acceptable_start {
            // If there's no screen line at the first acceptable start, then it must be after
            // the end of the file, so the cursor start is definitely before then.
            None => true,
            Some(acceptable_start) => !doc.row_le(acceptable_start, &cursor_range.start),
        };

        let cursor_start_is_at_or_before_last_acceptable_start =
            match &screen_line_at_last_acceptable_start {
            None => true,  // Same logic as above
            Some(acceptable_start) => doc.row_le(&cursor_range.start, acceptable_start),
        };

        if cursor_start_is_before_first_acceptable_start {
            // Cursor is too close to the top of the screen (or past it); move the viewport so
            // the cursor is at the start of the acceptable range.
            self.top_line = self.n_screen_lines_before(doc, cursor_range.start, start_index);
        } else if cursor_start_is_at_or_before_last_acceptable_start {
            // Nothing to do, the cursor is in an acceptable range!
        } else {
            // Cursor is too close to the bottom of the screen (or past it); move the viewport
            // so the cursor is at the end of the acceptable range.
            self.top_line = self.n_screen_lines_before(doc, cursor_range.start, end_index);
        }
        proof {
            let pre = *old(self);
            lemma_visibility_top_in_band(
                pre.top_idx(doc),
                pre.spec_height(),
                pre.spec_margin(),
                doc.num_rows(),
                doc.cursor_start(&self.current_focus),
                doc.cursor_height(&self.current_focus),
            );
        }
    }

    // Someday: We should compute the `CursorRange` outside of this function, pass it in,
    // and then get rid of `cursor_layout_details` in lieu of functions to directly
    // count `bounded_screen_lines_{before,after}_screen_line`.
    #[verifier::rlimit(60)]
    pub fn calculate_acceptable_start_screen_indexes_to_show_cursor_node(
        &self,
        doc: &D,
        cursor: &D::Cursor,
    ) -> (r: (CursorRange<D::ScreenLine>, AcceptableStartScreenIndexesToShowCursorNode))
        requires
            self.wf(doc),
            doc.cursor_valid(cursor),
        ensures
            ({
                let h = self.spec_height();
                let m = self.spec_margin();
                let cs = doc.cursor_start(cursor);
                let ch = doc.cursor_height(cursor);
                let before = vstd::math::min(h - 1, cs);
                let after = vstd::math::min(h - 1, doc.num_rows() - cs - ch);
                let edges = crate::document_viewer::band_after_edges(h, m, before, after);
                let expanded = crate::document_viewer::band_after_expansion(
                    h,
                    m,
                    ch,
                    before,
                    after,
                );
                let starts = crate::document_viewer::acceptable_starts(h, m, ch, before, after);
                &&& doc.row_valid(&r.0.start)
                &&& doc.row_idx(&r.0.start) == cs
                &&& doc.row_valid(&r.0.end)
                &&& doc.row_idx(&r.0.end) == cs + ch - 1
                &&& r.0.num_screen_lines as int == ch
                &&& r.1.cursor_height as int == ch
                &&& r.1.last_screen_index as int == h - 1
                &&& r.1.range_after_considering_scrolloff.0 as int == m
                &&& r.1.range_after_considering_scrolloff.1 as int == h - 1 - m
                &&& r.1.range_after_considering_start_and_end_of_document.0 as int == edges.0
                &&& r.1.range_after_considering_start_and_end_of_document.1 as int == edges.1
                &&& r.1.range_after_expanding_due_to_cursor_height.0 as int == expanded.0
                &&& r.1.range_after_expanding_due_to_cursor_height.1 as int == expanded.1
                &&& r.1.start as int == starts.0
                &&& r.1.end as int == starts.1
            }),
    {
        proof {
            doc.lemma_cursor(cursor);
            doc.lemma_inv();
        }
        let ghost h = self.spec_height();
        let ghost m_g = self.spec_margin();
        let ghost cs = doc.cursor_start(cursor);
        let ghost chg = doc.cursor_height(cursor);
        let ghost before_g = vstd::math::min(h - 1, cs);
        let ghost after_g = vstd::math::min(h - 1, doc.num_rows() - cs - chg);

        let cursor_layout_details = doc.cursor_layout_details(cursor, self.dimensions.1 - 1);

        // Initial acceptable range is the whole screen.
        let mut first_acceptable_screen_index: usize = 0;
        let last_screen_index = self.dimensions.1 - 1;
        let mut last_acceptable_screen_index = last_screen_index;

        let min_screenlines_between_edge_of_screen_and_cursor = self.effective_scrolloff();

        // Shrink the acceptable range based on the scrolloff setting.
        first_acceptable_screen_index = first_acceptable_screen_index
            + min_screenlines_between_edge_of_screen_and_cursor;
        last_acceptable_screen_index = last_acceptable_screen_index
            - min_screenlines_between_edge_of_screen_and_cursor;

        let range_after_considering_scrolloff = (
            first_acceptable_screen_index,
            last_acceptable_screen_index,
        );

        // Relax at the start/end of the document, where scrolloff is not enforced.
        if let Some(lines_before_start) = cursor_layout_details.bounded_doc_screen_lines_before_start {
            if lines_before_start < first_acceptable_screen_index {
                first_acceptable_screen_index = lines_before_start;
            }
        }
        if let Some(lines_after_end) = cursor_layout_details.bounded_doc_screen_lines_after_end {
            if last_screen_index - lines_after_end > last_acceptable_screen_index {
                last_acceptable_screen_index = last_screen_index - lines_after_end;
            }
        }

        let range_after_considering_start_and_end_of_document = (
            first_acceptable_screen_index,
            last_acceptable_screen_index,
        );
        proof {
            assert(first_acceptable_screen_index as int == crate::document_viewer::band_after_edges(
                h,
                m_g,
                before_g,
                after_g,
            ).0);
            assert(last_acceptable_screen_index as int == crate::document_viewer::band_after_edges(
                h,
                m_g,
                before_g,
                after_g,
            ).1);
        }

        // Expand based on the height of the cursor, up to the whole screen.
        let height_of_acceptable_range = last_acceptable_screen_index
            - first_acceptable_screen_index + 1;
        let cursor_height = cursor_layout_details.range.num_screen_lines;

        if cursor_height >= self.dimensions.1 {
            first_acceptable_screen_index = 0;
            last_acceptable_screen_index = self.dimensions.1 - 1;
        } else if cursor_height > height_of_acceptable_range {
            let mut additional_space_needed = cursor_height - height_of_acceptable_range;
            let space_to_reclaim_at_start = first_acceptable_screen_index;
            let space_to_reclaim_at_end = last_screen_index - last_acceptable_screen_index;

            // Reclaim from the side with more slack first, to avoid snapping a
            // well-positioned tall node toward one edge.
            let diff_between_sides = if space_to_reclaim_at_start >= space_to_reclaim_at_end {
                space_to_reclaim_at_start - space_to_reclaim_at_end
            } else {
                space_to_reclaim_at_end - space_to_reclaim_at_start
            };
            let space_to_reclaim_from_one_side = if diff_between_sides
                <= additional_space_needed {
                diff_between_sides
            } else {
                additional_space_needed
            };

            additional_space_needed = additional_space_needed - space_to_reclaim_from_one_side;
            if space_to_reclaim_at_start > space_to_reclaim_at_end {
                first_acceptable_screen_index = first_acceptable_screen_index
                    - space_to_reclaim_from_one_side;
            } else if space_to_reclaim_at_end > space_to_reclaim_at_start {
                last_acceptable_screen_index = last_acceptable_screen_index
                    + space_to_reclaim_from_one_side;
            }

            // Both sides are now equal; chop off equally from both, rounding up.
            let to_reclaim = (additional_space_needed + 1) / 2;
            proof {
                assert(to_reclaim as int <= first_acceptable_screen_index as int
                    && last_acceptable_screen_index as int + to_reclaim as int <= h - 1);
            }
            first_acceptable_screen_index = first_acceptable_screen_index - to_reclaim;
            last_acceptable_screen_index = last_acceptable_screen_index + to_reclaim;
        } else {
            // Cursor fits in the acceptable range; nothing to update.
        }

        let range_after_expanding_due_to_cursor_height = (
            first_acceptable_screen_index,
            last_acceptable_screen_index,
        );
        proof {
            assert(first_acceptable_screen_index as int
                == crate::document_viewer::band_after_expansion(h, m_g, chg, before_g, after_g).0);
            assert(last_acceptable_screen_index as int
                == crate::document_viewer::band_after_expansion(h, m_g, chg, before_g, after_g).1);
        }

        // Final step: convert the acceptable screen index range into an acceptable
        // range for the start of the cursor.
        let first_acceptable_screen_index_for_start_of_cursor = first_acceptable_screen_index;
        let shifted = if last_acceptable_screen_index >= cursor_height - 1 {
            last_acceptable_screen_index - (cursor_height - 1)
        } else {
            0
        };
        let last_acceptable_screen_index_for_start_of_cursor = if shifted
            >= first_acceptable_screen_index_for_start_of_cursor {
            shifted
        } else {
            first_acceptable_screen_index_for_start_of_cursor
        };

        let acceptable_start_indexes = AcceptableStartScreenIndexesToShowCursorNode {
            cursor_height,
            last_screen_index,
            range_after_considering_scrolloff,
            range_after_considering_start_and_end_of_document,
            range_after_expanding_due_to_cursor_height,
            // The actual fields
            start: first_acceptable_screen_index_for_start_of_cursor,
            end: last_acceptable_screen_index_for_start_of_cursor,
        };

        (cursor_layout_details.range, acceptable_start_indexes)
    }

    fn maybe_update_focused_node_after_scroll(&mut self, doc: &D)
        requires
            old(self).wf(doc),
        ensures
            final(self).inv(doc),
            final(self).in_band(doc),
            final(self).top_line == old(self).top_line,
            final(self).dimensions == old(self).dimensions,
            final(self).scrolloff_setting == old(self).scrolloff_setting,
            Self::focus_corrected(
                old(self).current_focus,
                *final(self),
                doc,
                old(self).top_idx(doc),
                old(self).spec_height(),
                old(self).spec_margin(),
            ),
    {
        // When scrolling, we'll allow scrolling wrapped lines partly off the screen as long
        // as any part of the focused node still obeys the scrolloff setting.
        let min_screenlines_between_edge_of_screen_and_cursor = self.effective_scrolloff();

        let first_acceptable_screen_index = if doc.is_first_screen_line_of_document(
            &self.top_line,
        ) {
            0
        } else {
            min_screenlines_between_edge_of_screen_and_cursor
        };

        let last_screen_index = self.dimensions.1 - 1;
        let last_acceptable_screen_index = last_screen_index
            - min_screenlines_between_edge_of_screen_and_cursor;

        // Using `last_screen_line_at_or_before_screen_index` handles the case when the end
        // of the file is on screen.
        let first_acceptable_screen_line = self.last_screen_line_at_or_before_screen_index(
            doc,
            first_acceptable_screen_index,
        );
        let last_acceptable_screen_line = self.last_screen_line_at_or_before_screen_index(
            doc,
            last_acceptable_screen_index,
        );

        proof {
            doc.lemma_cursor(&self.current_focus);
            doc.lemma_row(&self.top_line);
        }
        let focused_range = doc.cursor_range(&self.current_focus);

        if !doc.row_le(&first_acceptable_screen_line, &focused_range.end) {
            proof {
                doc.lemma_cursor_of_row(&first_acceptable_screen_line, &self.current_focus);
            }
            let ghost witness = first_acceptable_screen_line;
            self.current_focus = doc.convert_screen_line_to_cursor(
                first_acceptable_screen_line,
                &self.current_focus,
            );
            proof {
                assert(doc.row_valid(&witness) && doc.row_idx(&witness) == band_edge(
                    old(self).top_idx(doc),
                    if old(self).top_idx(doc) == 0 {
                        0int
                    } else {
                        old(self).spec_margin()
                    },
                    doc.num_rows(),
                ) && self.current_focus == doc.cursor_of_row(&witness, &old(self).current_focus));
            }
        } else if !doc.row_le(&focused_range.start, &last_acceptable_screen_line) {
            proof {
                doc.lemma_cursor_of_row(&last_acceptable_screen_line, &self.current_focus);
            }
            let ghost witness = last_acceptable_screen_line;
            self.current_focus = doc.convert_screen_line_to_cursor(
                last_acceptable_screen_line,
                &self.current_focus,
            );
            proof {
                assert(doc.row_valid(&witness) && doc.row_idx(&witness) == band_edge(
                    old(self).top_idx(doc),
                    old(self).spec_height() - 1 - old(self).spec_margin(),
                    doc.num_rows(),
                ) && self.current_focus == doc.cursor_of_row(&witness, &old(self).current_focus));
            }
        } else {
            // Current focused range overlaps with acceptable screen line ranges;
            // nothing to do!
        }
    }

    /// The visible rows, top to bottom: exactly `height` entries, each either
    /// a displayed row or an explicit past-end-of-document marker.
    pub fn viewport_lines(&self, doc: &D) -> (r: Vec<Option<D::ScreenLine>>)
        requires
            self.wf(doc),
        ensures
            r@.len() == self.spec_height(),
            forall|i: int|
                0 <= i < r@.len() ==> match #[trigger] r@[i] {
                    Some(line) => doc.row_valid(&line) && doc.row_idx(&line) == self.top_idx(doc)
                        + i,
                    None => self.top_idx(doc) + i >= doc.num_rows(),
                },
    {
        let mut rows: Vec<Option<D::ScreenLine>> = Vec::new();
        let mut next_line: Option<D::ScreenLine> = Some(doc.clone_row(&self.top_line));
        let mut remaining_height = self.dimensions.1;
        proof {
            doc.lemma_row(&self.top_line);
        }
        while remaining_height > 0
            invariant
                self.wf(doc),
                rows@.len() + remaining_height == self.spec_height(),
                match next_line {
                    Some(line) => doc.row_valid(&line) && doc.row_idx(&line) == self.top_idx(doc)
                        + rows@.len(),
                    None => self.top_idx(doc) + rows@.len() >= doc.num_rows(),
                },
                forall|i: int|
                    0 <= i < rows@.len() ==> match #[trigger] rows@[i] {
                        Some(line) => doc.row_valid(&line) && doc.row_idx(&line) == self.top_idx(
                            doc,
                        ) + i,
                        None => self.top_idx(doc) + i >= doc.num_rows(),
                    },
            decreases remaining_height,
        {
            remaining_height = remaining_height - 1;
            match next_line {
                None => {
                    rows.push(None);
                    next_line = None;
                },
                Some(curr_line) => {
                    next_line = doc.next_screen_line(&curr_line);
                    proof {
                        if next_line is None {
                            doc.lemma_row(&curr_line);
                        }
                    }
                    rows.push(Some(curr_line));
                },
            }
        }
        rows
    }
}

} // verus!
