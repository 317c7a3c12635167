use vstd::prelude::*;

verus! {

/// Representation of a `Cursor` in "Screen" space, as a start and end `ScreenLine`, along with how
/// many `ScreenLine`s the `Cursor` takes up. In the vast majority of cases, when no wrapping is
/// necessary, `start` will equal `end`, and `num_screen_lines` will be 1.
pub struct CursorRange<SL> {
    pub start: SL,
    pub end: SL,
    pub num_screen_lines: usize,
}

/// Computed details used to help reposition the viewport on a specific node pointed to by a
/// `Cursor`. In addition to containing the actual range of the `Cursor`, it also checks to see if
/// the focused node is within a certain distance of the start or end of the document, capped
/// at a supplied bound so the caller never has to scan the whole document.
pub struct CursorLayoutDetails<SL> {
    pub range: CursorRange<SL>,
    pub bounded_doc_screen_lines_before_start: Option<usize>,
    pub bounded_doc_screen_lines_after_end: Option<usize>,
}

/// The capability set any backing content store must implement to be viewed.
///
/// The mathematical model: a well-formed document lays out a finite sequence of
/// displayed rows, numbered `0 .. num_rows()`.  A `ScreenLine` value designates
/// one such row; `row_idx` gives its position.  A `Cursor` designates the focused
/// node, which occupies the contiguous row range
/// `[cursor_start(c), cursor_start(c) + cursor_height(c) - 1]`.
///
/// Rows computed under different widths must never be compared: validity of a
/// `ScreenLine` is tied to the document's current width, and every comparison
/// operation requires both rows to be valid, so a stale row cannot reach one.
pub trait Document: Sized {
    type ScreenLine;

    type Cursor;

    /// The document's internal invariant.
    spec fn inv(&self) -> bool;

    /// Current display width used for wrap segmentation.
    spec fn spec_width(&self) -> int;

    /// Total number of displayed rows the document currently lays out.
    spec fn num_rows(&self) -> int;

    /// Whether the end-of-stream marker has been received.
    spec fn at_eof(&self) -> bool;

    /// The bytes appended so far, in order.
    spec fn content(&self) -> Seq<u8>;

    /// Whether `row` designates a row of the current layout (current width included).
    spec fn row_valid(&self, row: &Self::ScreenLine) -> bool;

    /// Position of `row` in the row sequence.
    spec fn row_idx(&self, row: &Self::ScreenLine) -> int;

    /// 1-based logical line number of `row`.
    spec fn row_line_number(&self, row: &Self::ScreenLine) -> int;

    /// Whether `row` is a wrap segment of an over-wide logical line.
    spec fn row_wrapped(&self, row: &Self::ScreenLine) -> bool;

    /// Whether `row` is the first wrap segment of its line (false if unwrapped).
    spec fn row_first_seg(&self, row: &Self::ScreenLine) -> bool;

    /// Whether `row` is the last wrap segment of its line (false if unwrapped).
    spec fn row_last_seg(&self, row: &Self::ScreenLine) -> bool;

    /// The bytes displayed on `row`.
    spec fn row_content(&self, row: &Self::ScreenLine) -> Seq<u8>;

    /// Whether `c` designates a node of the current document.
    spec fn cursor_valid(&self, c: &Self::Cursor) -> bool;

    /// Row index of the first row of the focused node.
    spec fn cursor_start(&self, c: &Self::Cursor) -> int;

    /// Number of rows the focused node occupies (at least 1).
    spec fn cursor_height(&self, c: &Self::Cursor) -> int;

    /// The cursor a given row is converted to when the viewport re-anchors focus,
    /// keeping horizontal intent similar to `prev`.
    spec fn cursor_of_row(&self, row: &Self::ScreenLine, prev: &Self::Cursor) -> Self::Cursor;

    /// Where the cursor lands when moved down by `n` logical steps (clamped).
    spec fn cursor_down_tgt(&self, n: int, c: &Self::Cursor) -> Self::Cursor;

    /// Where the cursor lands when moved up by `n` logical steps (clamped).
    spec fn cursor_up_tgt(&self, n: int, c: &Self::Cursor) -> Self::Cursor;

    /// Whether moving down is impossible (already at the last node).
    spec fn cursor_at_bottom(&self, c: &Self::Cursor) -> bool;

    /// Whether moving up is impossible (already at the first node).
    spec fn cursor_at_top(&self, c: &Self::Cursor) -> bool;

    /// The same document re-laid-out at width `w`; resizing is exactly this and
    /// nothing else, so resizing back restores the original layout.
    spec fn with_width(&self, w: int) -> Self;

    proof fn lemma_inv(&self)
        requires
            self.inv(),
        ensures
            self.spec_width() >= 1,
            0 <= self.num_rows() <= usize::MAX,
            self.content().len() <= usize::MAX,
            self.num_rows() <= self.content().len(),
    ;

    proof fn lemma_row(&self, row: &Self::ScreenLine)
        requires
            self.inv(),
            self.row_valid(row),
        ensures
            0 <= self.row_idx(row) < self.num_rows(),
            (self.row_line_number(row) == 1 && (!self.row_wrapped(row) || self.row_first_seg(
                row,
            ))) <==> self.row_idx(row) == 0,
    ;

    proof fn lemma_cursor(&self, c: &Self::Cursor)
        requires
            self.inv(),
            self.cursor_valid(c),
        ensures
            1 <= self.cursor_height(c),
            0 <= self.cursor_start(c),
            self.cursor_start(c) + self.cursor_height(c) <= self.num_rows(),
    ;

    proof fn lemma_cursor_of_row(&self, row: &Self::ScreenLine, prev: &Self::Cursor)
        requires
            self.inv(),
            self.row_valid(row),
            self.cursor_valid(prev),
        ensures
            self.cursor_valid(&self.cursor_of_row(row, prev)),
            self.cursor_start(&self.cursor_of_row(row, prev)) <= self.row_idx(row),
            self.row_idx(row) <= self.cursor_start(&self.cursor_of_row(row, prev))
                + self.cursor_height(&self.cursor_of_row(row, prev)) - 1,
    ;

    proof fn lemma_cursor_moves(&self, n: int, c: &Self::Cursor)
        requires
            self.inv(),
            self.cursor_valid(c),
            n >= 0,
        ensures
            self.cursor_valid(&self.cursor_down_tgt(n, c)),
            self.cursor_valid(&self.cursor_up_tgt(n, c)),
    ;

    proof fn lemma_with_width(&self, w: int)
        requires
            self.inv(),
            1 <= w <= usize::MAX,
        ensures
            self.with_width(w).inv(),
            self.with_width(w).spec_width() == w,
            self.with_width(w).content() == self.content(),
            self.with_width(w).num_rows() >= 1 <==> self.num_rows() >= 1,
            self.with_width(w).at_eof() == self.at_eof(),
            forall|c: Self::Cursor| #[trigger]
                self.cursor_valid(&c) ==> self.with_width(w).cursor_valid(&c),
            self.with_width(w).with_width(self.spec_width()) == *self,
            self.spec_width() == w ==> self.with_width(w) == *self,
    ;

    /// The layout is a function of the content, the width, and whether the
    /// end-of-stream marker has arrived: two well-formed documents that agree
    /// on those three agree on every row and cursor.  Together with the exact
    /// `append`/`eof` postconditions this pins the laid-out rows of any
    /// sequence of appends, and rules out a store that buffers different
    /// bytes than it was handed.
    proof fn lemma_layout_determined(&self, other: &Self)
        requires
            self.inv(),
            other.inv(),
            self.content() == other.content(),
            self.spec_width() == other.spec_width(),
            self.at_eof() == other.at_eof(),
        ensures
            self.num_rows() == other.num_rows(),
            forall|r: Self::ScreenLine| #[trigger]
                self.row_valid(&r) ==> other.row_valid(&r) && other.row_idx(&r) == self.row_idx(
                    &r,
                ) && other.row_line_number(&r) == self.row_line_number(&r) && other.row_wrapped(&r)
                    == self.row_wrapped(&r) && other.row_first_seg(&r) == self.row_first_seg(&r)
                    && other.row_last_seg(&r) == self.row_last_seg(&r) && other.row_content(&r)
                    == self.row_content(&r),
            forall|c: Self::Cursor| #[trigger]
                self.cursor_valid(&c) ==> other.cursor_valid(&c) && other.cursor_start(&c)
                    == self.cursor_start(&c) && other.cursor_height(&c) == self.cursor_height(&c),
    ;

    fn new(width: usize) -> (d: Self)
        requires
            width >= 1,
        ensures
            d.inv(),
            d.spec_width() == width,
            d.num_rows() == 0,
            d.content() == Seq::<u8>::empty(),
            !d.at_eof(),
    ;

    fn width(&self) -> (w: usize)
        requires
            self.inv(),
        ensures
            w as int == self.spec_width(),
    ;

    fn resize(&mut self, new_width: usize)
        requires
            old(self).inv(),
            new_width >= 1,
        ensures
            *final(self) == old(self).with_width(new_width as int),
    ;

    fn append(&mut self, data: &[u8])
        requires
            old(self).inv(),
            !old(self).at_eof(),
            old(self).content().len() + data@.len() <= usize::MAX,
        ensures
            final(self).inv(),
            !final(self).at_eof(),
            final(self).spec_width() == old(self).spec_width(),
            final(self).content() == old(self).content() + data@,
            final(self).num_rows() >= old(self).num_rows(),
            forall|r: Self::ScreenLine| #[trigger]
                old(self).row_valid(&r) ==> final(self).row_valid(&r) && final(self).row_idx(&r)
                    == old(self).row_idx(&r) && final(self).row_line_number(&r) == old(self).row_line_number(&r) && final(self).row_wrapped(&r) == old(self).row_wrapped(&r)
                    && final(self).row_first_seg(&r) == old(self).row_first_seg(&r) && final(self).row_last_seg(&r) == old(self).row_last_seg(&r) && final(self).row_content(&r)
                    == old(self).row_content(&r),
            forall|c: Self::Cursor| #[trigger]
                old(self).cursor_valid(&c) ==> final(self).cursor_valid(&c) && final(self).cursor_start(&c) == old(self).cursor_start(&c) && final(self).cursor_height(&c)
                    == old(self).cursor_height(&c),
    ;

    fn eof(&mut self)
        requires
            old(self).inv(),
            !old(self).at_eof(),
        ensures
            final(self).inv(),
            final(self).at_eof(),
            final(self).spec_width() == old(self).spec_width(),
            final(self).content() == old(self).content(),
            final(self).num_rows() >= old(self).num_rows(),
            forall|r: Self::ScreenLine| #[trigger]
                old(self).row_valid(&r) ==> final(self).row_valid(&r) && final(self).row_idx(&r)
                    == old(self).row_idx(&r) && final(self).row_line_number(&r) == old(self).row_line_number(&r) && final(self).row_wrapped(&r) == old(self).row_wrapped(&r)
                    && final(self).row_first_seg(&r) == old(self).row_first_seg(&r) && final(self).row_last_seg(&r) == old(self).row_last_seg(&r) && final(self).row_content(&r)
                    == old(self).row_content(&r),
            forall|c: Self::Cursor| #[trigger]
                old(self).cursor_valid(&c) ==> final(self).cursor_valid(&c) && final(self).cursor_start(&c) == old(self).cursor_start(&c) && final(self).cursor_height(&c)
                    == old(self).cursor_height(&c),
    ;

    /// The first displayed row and initial cursor, once content exists.
    fn top_screen_line_and_cursor(&self) -> (r: Option<(Self::ScreenLine, Self::Cursor)>)
        requires
            self.inv(),
        ensures
            match r {
                None => self.num_rows() == 0,
                Some((row, c)) => self.num_rows() > 0 && self.row_valid(&row) && self.row_idx(&row)
                    == 0 && self.cursor_valid(&c) && self.cursor_start(&c) == 0,
            },
    ;

    fn next_screen_line(&self, row: &Self::ScreenLine) -> (r: Option<Self::ScreenLine>)
        requires
            self.inv(),
            self.row_valid(row),
        ensures
            match r {
                None => self.row_idx(row) == self.num_rows() - 1,
                Some(r2) => self.row_valid(&r2) && self.row_idx(&r2) == self.row_idx(row) + 1,
            },
    ;

    fn prev_screen_line(&self, row: &Self::ScreenLine) -> (r: Option<Self::ScreenLine>)
        requires
            self.inv(),
            self.row_valid(row),
        ensures
            match r {
                None => self.row_idx(row) == 0,
                Some(r2) => self.row_valid(&r2) && self.row_idx(&r2) == self.row_idx(row) - 1,
            },
    ;

    // 1-indexed
    fn line_number(&self, row: &Self::ScreenLine) -> (n: usize)
        requires
            self.inv(),
            self.row_valid(row),
        ensures
            n as int == self.row_line_number(row),
    ;

    fn is_wrapped_line(&self, row: &Self::ScreenLine) -> (r: bool)
        requires
            self.inv(),
            self.row_valid(row),
        ensures
            r == self.row_wrapped(row),
    ;

    fn is_start_of_wrapped_line(&self, row: &Self::ScreenLine) -> (r: bool)
        requires
            self.inv(),
            self.row_valid(row),
        ensures
            r == self.row_first_seg(row),
    ;

    fn is_end_of_wrapped_line(&self, row: &Self::ScreenLine) -> (r: bool)
        requires
            self.inv(),
            self.row_valid(row),
        ensures
            r == self.row_last_seg(row),
    ;

    fn is_after_start_of_wrapped_line(&self, row: &Self::ScreenLine) -> (r: bool)
        requires
            self.inv(),
            self.row_valid(row),
        ensures
            r == (self.row_wrapped(row) && !self.row_first_seg(row)),
    ;

    fn is_before_end_of_wrapped_line(&self, row: &Self::ScreenLine) -> (r: bool)
        requires
            self.inv(),
            self.row_valid(row),
        ensures
            r == (self.row_wrapped(row) && !self.row_last_seg(row)),
    ;

    /// Duplicate a row value; tables shared by wrap segments make this cheap.
    fn clone_row(&self, row: &Self::ScreenLine) -> (r: Self::ScreenLine)
        ensures
            r == *row,
    ;

    /// Total order on rows of one layout, by row position.
    fn row_le(&self, a: &Self::ScreenLine, b: &Self::ScreenLine) -> (r: bool)
        requires
            self.inv(),
            self.row_valid(a),
            self.row_valid(b),
        ensures
            r == (self.row_idx(a) <= self.row_idx(b)),
    ;

    fn row_eq(&self, a: &Self::ScreenLine, b: &Self::ScreenLine) -> (r: bool)
        requires
            self.inv(),
            self.row_valid(a),
            self.row_valid(b),
        ensures
            r == (self.row_idx(a) == self.row_idx(b)),
    ;

    fn cursor_range(&self, c: &Self::Cursor) -> (r: CursorRange<Self::ScreenLine>)
        requires
            self.inv(),
            self.cursor_valid(c),
        ensures
            self.row_valid(&r.start),
            self.row_idx(&r.start) == self.cursor_start(c),
            self.row_valid(&r.end),
            self.row_idx(&r.end) == self.cursor_start(c) + self.cursor_height(c) - 1,
            r.num_screen_lines as int == self.cursor_height(c),
    ;

    /// If a `Document` supports multiple focused positions within a single `ScreenLine`, then it
    /// should return a new cursor with similar horizontal positioning as `prev_cursor`.
    fn convert_screen_line_to_cursor(&self, row: Self::ScreenLine, prev_cursor: &Self::Cursor) -> (c:
        Self::Cursor)
        requires
            self.inv(),
            self.row_valid(&row),
            self.cursor_valid(prev_cursor),
        ensures
            c == self.cursor_of_row(&row, prev_cursor),
    ;

    // Actions
    fn move_cursor_down(&self, lines: usize, cursor: &Self::Cursor) -> (r: Option<Self::Cursor>)
        requires
            self.inv(),
            self.cursor_valid(cursor),
        ensures
            match r {
                None => self.cursor_at_bottom(cursor),
                Some(c2) => !self.cursor_at_bottom(cursor) && c2 == self.cursor_down_tgt(
                    lines as int,
                    cursor,
                ),
            },
    ;

    fn move_cursor_up(&self, lines: usize, cursor: &Self::Cursor) -> (r: Option<Self::Cursor>)
        requires
            self.inv(),
            self.cursor_valid(cursor),
        ensures
            match r {
                None => self.cursor_at_top(cursor),
                Some(c2) => !self.cursor_at_top(cursor) && c2 == self.cursor_up_tgt(
                    lines as int,
                    cursor,
                ),
            },
    ;

    fn debug_text_content(&self, row: &Self::ScreenLine) -> (r: &[u8])
        requires
            self.inv(),
            self.row_valid(row),
        ensures
            r@ == self.row_content(row),
    ;

    /// A derived default: "is this row the very first row of the document".
    fn is_first_screen_line_of_document(&self, row: &Self::ScreenLine) -> (r: bool)
        requires
            self.inv(),
            self.row_valid(row),
        ensures
            r == (self.row_idx(row) == 0),
    {
        proof {
            self.lemma_row(row);
        }
        self.line_number(row) == 1 && (!self.is_wrapped_line(row) || self.is_start_of_wrapped_line(
            row,
        ))
    }

    fn does_screen_line_intersect_cursor(&self, row: &Self::ScreenLine, cursor: &Self::Cursor) -> (r:
        bool)
        requires
            self.inv(),
            self.row_valid(row),
            self.cursor_valid(cursor),
        ensures
            r == (self.cursor_start(cursor) <= self.row_idx(row) <= self.cursor_start(cursor)
                + self.cursor_height(cursor) - 1),
    {
        let range = self.cursor_range(cursor);
        self.row_le(&range.start, row) && self.row_le(row, &range.end)
    }

    fn cursor_layout_details(&self, cursor: &Self::Cursor, bound: usize) -> (r: CursorLayoutDetails<
        Self::ScreenLine,
    >)
        requires
            self.inv(),
            self.cursor_valid(cursor),
        ensures
            self.row_valid(&r.range.start),
            self.row_idx(&r.range.start) == self.cursor_start(cursor),
            self.row_valid(&r.range.end),
            self.row_idx(&r.range.end) == self.cursor_start(cursor) + self.cursor_height(cursor)
                - 1,
            r.range.num_screen_lines as int == self.cursor_height(cursor),
            r.bounded_doc_screen_lines_before_start matches Some(b) && b as int == vstd::math::min(
                bound as int,
                self.cursor_start(cursor),
            ),
            r.bounded_doc_screen_lines_after_end matches Some(a) && a as int == vstd::math::min(
                bound as int,
                self.num_rows() - (self.cursor_start(cursor) + self.cursor_height(cursor)),
            ),
    {
        let range = self.cursor_range(cursor);
        proof {
            self.lemma_cursor(cursor);
        }
        let ghost cs = self.cursor_start(cursor);
        let ghost ce = self.cursor_start(cursor) + self.cursor_height(cursor) - 1;

        let mut screen_lines_before: usize = 0;
        let mut prev_screen_line = self.clone_row(&range.start);
        loop
            invariant
                self.inv(),
                self.row_valid(&prev_screen_line),
                screen_lines_before <= bound,
                screen_lines_before as int <= cs,
                self.row_idx(&prev_screen_line) == cs - screen_lines_before,
            ensures
                screen_lines_before as int == vstd::math::min(bound as int, cs),
            decreases bound - screen_lines_before,
        {
            if screen_lines_before >= bound {
                break ;
            }
            let next = self.prev_screen_line(&prev_screen_line);
            match next {
                None => {
                    break ;
                },
                Some(screen_line) => {
                    proof {
                        self.lemma_row(&screen_line);
                    }
                    screen_lines_before = screen_lines_before + 1;
                    prev_screen_line = screen_line;
                },
            }
        }
        let bounded_doc_screen_lines_before_start = if screen_lines_before <= bound {
            Some(screen_lines_before)
        } else {
            None
        };

        let mut screen_lines_after: usize = 0;
        let mut next_screen_line = self.clone_row(&range.end);
        loop
            invariant
                self.inv(),
                self.row_valid(&next_screen_line),
                screen_lines_after <= bound,
                screen_lines_after as int <= self.num_rows() - 1 - ce,
                self.row_idx(&next_screen_line) == ce + screen_lines_after,
            ensures
                screen_lines_after as int == vstd::math::min(
                    bound as int,
                    self.num_rows() - 1 - ce,
                ),
            decreases bound - screen_lines_after,
        {
            if screen_lines_after >= bound {
                break ;
            }
            let next = self.next_screen_line(&next_screen_line);
            match next {
                None => {
                    break ;
                },
                Some(screen_line) => {
                    proof {
                        self.lemma_row(&screen_line);
                    }
                    screen_lines_after = screen_lines_after + 1;
                    next_screen_line = screen_line;
                },
            }
        }
        let bounded_doc_screen_lines_after_end = if screen_lines_after <= bound {
            Some(screen_lines_after)
        } else {
            None
        };

        CursorLayoutDetails {
            range,
            bounded_doc_screen_lines_before_start,
            bounded_doc_screen_lines_after_end,
        }
    }

    /// Number of rows separating two rows of one layout; `b` must not come after `a`.
    fn diff_screen_lines(&self, a: &Self::ScreenLine, b: &Self::ScreenLine) -> (r: usize)
        requires
            self.inv(),
            self.row_valid(a),
            self.row_valid(b),
            self.row_idx(b) <= self.row_idx(a),
        ensures
            r as int == self.row_idx(a) - self.row_idx(b),
    {
        let mut diff: usize = 0;
        let mut t = self.clone_row(a);
        while !self.row_eq(&t, b)
            invariant
                self.inv(),
                self.row_valid(a),
                self.row_valid(b),
                self.row_valid(&t),
                self.row_idx(b) <= self.row_idx(&t),
                self.row_idx(&t) + diff == self.row_idx(a),
            decreases self.row_idx(&t) - self.row_idx(b),
        {
            let p = self.prev_screen_line(&t);
            proof {
                self.lemma_row(b);
                self.lemma_row(a);
                self.lemma_inv();
            }
            t = p.unwrap();
            diff = diff + 1;
        }
        diff
    }
}

} // verus!
