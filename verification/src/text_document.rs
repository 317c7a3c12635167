use std::rc::Rc;

use vstd::prelude::*;

use crate::document::{CursorRange, Document};

verus! {

// =============================================================================
// Wrap segmentation model
//
// A logical line of `len` bytes displayed at width `w` occupies
// `nseg_of(len, w)` rows: over-wide lines are split into fixed-size byte
// chunks of `w` bytes (the last chunk may be shorter).
// =============================================================================
/// Number of displayed rows a line of `len` bytes occupies at width `w`.
pub open spec fn nseg_of(len: int, w: int) -> int
    decreases len,
{
    if w <= 0 {
        1
    } else if len <= w {
        1
    } else {
        1 + nseg_of(len - w, w)
    }
}

pub proof fn lemma_nseg_ge1(len: int, w: int)
    ensures
        nseg_of(len, w) >= 1,
    decreases len,
{
    if w >= 1 && len > w {
        lemma_nseg_ge1(len - w, w);
    }
}

/// A line never occupies more rows than it has bytes (one byte per row at worst).
pub proof fn lemma_nseg_le_len(len: int, w: int)
    requires
        w >= 1,
    ensures
        nseg_of(len, w) <= if len >= 1 {
            len
        } else {
            1
        },
    decreases len,
{
    if len > w {
        lemma_nseg_le_len(len - w, w);
    }
}

/// The segments of a wrapped line exactly cover it: the last segment starts
/// before the end, and all segments together reach the end.
pub proof fn lemma_nseg_cover(len: int, w: int)
    requires
        w >= 1,
        len >= 1,
    ensures
        (nseg_of(len, w) - 1) * w < len,
        len <= nseg_of(len, w) * w,
    decreases len,
{
    if len <= w {
        assert((nseg_of(len, w) - 1) * w == 0) by (nonlinear_arith)
            requires
                nseg_of(len, w) == 1,
        ;
    } else {
        lemma_nseg_cover(len - w, w);
        let m = nseg_of(len - w, w);
        assert((m + 1 - 1) * w == (m - 1) * w + w) by (nonlinear_arith);
        assert((m + 1) * w == m * w + w) by (nonlinear_arith);
    }
}

/// Multiplication by a positive width is monotone in the segment index.
pub proof fn lemma_mul_mono(a: int, b: int, w: int)
    requires
        a <= b,
        w >= 0,
    ensures
        a * w <= b * w,
{
    assert(a * w <= b * w) by (nonlinear_arith)
        requires
            a <= b,
            w >= 0,
    ;
}

// =============================================================================
// Break-point tables
// =============================================================================
// Precalculated break points when displaying a long line. Each value represents
// the starting byte offset of one row.
// Someday: Maybe save info about whether the range contains non-ASCII, or
// escaped characters.
#[derive(Debug)]
pub struct BreakPoints(Vec<usize>);

/// What a break-point table for a line of `len` bytes at width `w` holds:
/// one entry per segment, the `k`-th starting at byte `k * w`.
pub open spec fn bp_wf(bp: Seq<usize>, len: int, w: int) -> bool {
    &&& bp.len() == nseg_of(len, w)
    &&& forall|k: int| 0 <= k < bp.len() ==> #[trigger] bp[k] as int == k * w
}

/// The `j`-th displayed slice of a line at width `w`.
pub open spec fn seg_slice(line: Seq<u8>, j: int, w: int) -> Seq<u8> {
    line.subrange(j * w, vstd::math::min((j + 1) * w, line.len() as int))
}

impl BreakPoints {
    pub closed spec fn offsets(&self) -> Seq<usize> {
        self.0@
    }

    // Someday: Handle control characters, UTF-8, etc.
    pub fn calculate(bytes: &[u8], width: usize) -> (r: Option<BreakPoints>)
        requires
            width >= 1,
        ensures
            match r {
                None => bytes@.len() <= width,
                Some(bp) => bytes@.len() > width && bp_wf(
                    bp.offsets(),
                    bytes@.len() as int,
                    width as int,
                ),
            },
    {
        let len = bytes.len();
        if len <= width {
            return None;
        }
        let mut offsets: Vec<usize> = Vec::new();
        let mut curr_offset: usize = 0;
        proof {
            assert(0int * width == 0) by (nonlinear_arith);
        }
        loop
            invariant_except_break
                curr_offset as int == offsets@.len() * width,
            invariant
                width >= 1,
                len == bytes@.len(),
                len > width,
                (curr_offset as int) < len,
                forall|k: int|
                    0 <= k < offsets@.len() ==> #[trigger] offsets@[k] as int == k * width,
            ensures
                offsets@.len() >= 1,
                (offsets@.len() - 1) * width < len <= offsets@.len() * width,
                forall|k: int|
                    0 <= k < offsets@.len() ==> #[trigger] offsets@[k] as int == k * width,
            decreases len - curr_offset,
        {
            offsets.push(curr_offset);
            proof {
                assert(offsets@.len() * width == (offsets@.len() - 1) * width + width)
                    by (nonlinear_arith);
            }
            if len - curr_offset <= width {
                break ;
            }
            curr_offset = curr_offset + width;
        }
        proof {
            lemma_nseg_unique(len as int, width as int, offsets@.len() as int);
        }
        Some(BreakPoints(offsets))
    }

    pub fn len(&self) -> (r: usize)
        ensures
            r == self.offsets().len(),
    {
        self.0.len()
    }

    pub fn nth_segment<'a, 'b>(
        &'a self,
        bytes: &'b [u8],
        n: usize,
        Ghost(w): Ghost<int>,
    ) -> (r: &'b [u8])
        requires
            w >= 1,
            bytes@.len() as int > w,
            bp_wf(self.offsets(), bytes@.len() as int, w),
            (n as int) < nseg_of(bytes@.len() as int, w),
        ensures
            r@ == seg_slice(bytes@, n as int, w),
    {
        proof {
            lemma_nseg_cover(bytes@.len() as int, w);
            lemma_mul_mono(n as int, nseg_of(bytes@.len() as int, w) - 1, w);
            lemma_mul_mono(n as int, n as int + 1, w);
            lemma_mul_mono(n as int + 1, nseg_of(bytes@.len() as int, w), w);
        }
        let m = self.0.len();
        let start = self.0[n];
        if n + 1 < m {
            proof {
                lemma_mul_mono(n as int + 1, nseg_of(bytes@.len() as int, w) - 1, w);
            }
            let end = self.0[n + 1];
            vstd::slice::slice_subrange(bytes, start, end)
        } else {
            vstd::slice::slice_subrange(bytes, start, bytes.len())
        }
    }
}

// =============================================================================
// Wrap segments
// =============================================================================
/// Relies on std's Rc::clone: the clone is a new handle to the same shared value.
#[verifier::external_body]
fn rc_dup<T>(x: &Rc<T>) -> (r: Rc<T>)
    ensures
        r == *x,
{
    Rc::clone(x)
}

/// One displayed row of a wrapped logical line: the shared, immutable table of
/// wrap boundaries for that line at one specific width, plus which segment of
/// that table this row is.
#[derive(Debug)]
pub struct SegmentOfWrappedLine {
    break_points: Rc<BreakPoints>,
    index: usize,
    width: usize,
}

/// A segment is well-formed for a line of `len` bytes at width `w` when its
/// shared table is the break-point table of that line and its index picks one
/// of the table's rows.
pub open spec fn seg_wf(seg: SegmentOfWrappedLine, len: int, w: int) -> bool {
    &&& seg.spec_width() == w
    &&& len > w
    &&& bp_wf(seg.spec_offsets(), len, w)
    &&& seg.spec_index() < nseg_of(len, w)
}

impl SegmentOfWrappedLine {
    pub closed spec fn spec_index(&self) -> int {
        self.index as int
    }

    pub closed spec fn spec_width(&self) -> int {
        self.width as int
    }

    pub closed spec fn spec_offsets(&self) -> Seq<usize> {
        self.break_points.offsets()
    }

    fn is_start(&self) -> (r: bool)
        ensures
            r == (self.spec_index() == 0),
    {
        self.index == 0
    }

    fn is_end(&self) -> (r: bool)
        requires
            self.spec_offsets().len() >= 1,
        ensures
            r == (self.spec_index() == self.spec_offsets().len() - 1),
    {
        self.index == self.break_points.len() - 1
    }

    fn is_after_start(&self) -> (r: bool)
        ensures
            r == (self.spec_index() > 0),
    {
        self.index > 0
    }

    fn is_before_end(&self) -> (r: bool)
        requires
            self.spec_offsets().len() >= 1,
        ensures
            r == (self.spec_index() < self.spec_offsets().len() - 1),
    {
        self.index < self.break_points.len() - 1
    }

    fn dup(&self) -> (r: SegmentOfWrappedLine)
        ensures
            r == *self,
    {
        SegmentOfWrappedLine {
            break_points: rc_dup(&self.break_points),
            index: self.index,
            width: self.width,
        }
    }

    fn next_segment(&self) -> (r: Option<SegmentOfWrappedLine>)
        requires
            self.spec_offsets().len() >= 1,
            self.spec_index() < self.spec_offsets().len(),
        ensures
            match r {
                None => self.spec_index() == self.spec_offsets().len() - 1,
                Some(s) => self.spec_index() < self.spec_offsets().len() - 1 && s.spec_index()
                    == self.spec_index() + 1 && s.spec_width() == self.spec_width()
                    && s.spec_offsets() == self.spec_offsets(),
            },
    {
        let m = self.break_points.len();
        if self.index < m - 1 {
            Some(SegmentOfWrappedLine { index: self.index + 1, ..self.dup() })
        } else {
            None
        }
    }

    fn prev_segment(&self) -> (r: Option<SegmentOfWrappedLine>)
        ensures
            match r {
                None => self.spec_index() == 0,
                Some(s) => self.spec_index() > 0 && s.spec_index() == self.spec_index() - 1
                    && s.spec_width() == self.spec_width() && s.spec_offsets()
                    == self.spec_offsets(),
            },
    {
        if self.is_after_start() {
            Some(SegmentOfWrappedLine { index: self.index - 1, ..self.dup() })
        } else {
            None
        }
    }

    fn into_last(self) -> (r: SegmentOfWrappedLine)
        requires
            self.spec_offsets().len() >= 1,
        ensures
            r.spec_index() == self.spec_offsets().len() - 1,
            r.spec_width() == self.spec_width(),
            r.spec_offsets() == self.spec_offsets(),
    {
        let last = self.break_points.len() - 1;
        SegmentOfWrappedLine { index: last, ..self }
    }

    fn make_last(&self) -> (r: SegmentOfWrappedLine)
        requires
            self.spec_offsets().len() >= 1,
        ensures
            r.spec_index() == self.spec_offsets().len() - 1,
            r.spec_width() == self.spec_width(),
            r.spec_offsets() == self.spec_offsets(),
    {
        self.dup().into_last()
    }
}

/// One row that can occupy a screen line: a logical-line index, plus the wrap
/// segment of that line this row shows (absent when the line fits the width).
#[derive(Debug)]
pub struct ScreenLine {
    line_index: usize,
    // If we have to wrap the line, precalculated line breaks, and the specific line wrap
    // we're showing.
    segment_of_wrapped_line: Option<SegmentOfWrappedLine>,
}

impl ScreenLine {
    pub closed spec fn spec_line_index(&self) -> int {
        self.line_index as int
    }

    pub closed spec fn spec_segment(&self) -> Option<SegmentOfWrappedLine> {
        self.segment_of_wrapped_line
    }

    /// Index of the wrap segment this row shows; 0 for an unwrapped row.
    pub open spec fn spec_seg_index(&self) -> int {
        match self.spec_segment() {
            None => 0,
            Some(s) => s.spec_index(),
        }
    }
}

impl PartialEq for ScreenLine {
    fn eq(&self, other: &Self) -> (r: bool) {
        if self.line_index != other.line_index {
            return false;
        }
        match (&self.segment_of_wrapped_line, &other.segment_of_wrapped_line) {
            (None, None) => true,
            (None, Some(_)) => false,
            (Some(_), None) => false,
            (Some(segment1), Some(segment2)) => {
                segment1.width == segment2.width && segment1.index == segment2.index
            },
        }
    }
}

impl vstd::std_specs::cmp::PartialEqSpecImpl for ScreenLine {
    open spec fn obeys_eq_spec() -> bool {
        true
    }

    open spec fn eq_spec(&self, other: &Self) -> bool {
        &&& self.spec_line_index() == other.spec_line_index()
        &&& match (self.spec_segment(), other.spec_segment()) {
            (None, None) => true,
            (Some(s1), Some(s2)) => s1.spec_width() == s2.spec_width() && s1.spec_index()
                == s2.spec_index(),
            _ => false,
        }
    }
}

// =============================================================================
// Logical line structure
//
// The buffered bytes are split into logical lines at `\n` bytes, scanning only
// newly appended bytes.  A line ending in `\r\n` has the `\r` stripped from its
// stored range.  On end-of-stream, trailing unterminated bytes become one
// final logical line.
// =============================================================================
/// Byte range of one logical line's content within the data buffer.
#[derive(Debug, Clone, Copy)]
pub struct LineSpan {
    start: usize,
    end: usize,
}

/// How many bytes the line terminator at content-end position `e` occupies.
pub open spec fn term_len(data: Seq<u8>, e: int) -> int {
    if data[e] == 10 {
        1
    } else {
        2
    }
}

/// A line whose content ends at `e` is properly terminated: either a bare
/// `\n` sits at `e` (and the byte before it is not a stripped `\r`), or a
/// stripped `\r\n` pair starts at `e`.
pub open spec fn term_ok(data: Seq<u8>, e: int) -> bool {
    ||| (0 <= e < data.len() && data[e] == 10 && (e == 0 || data[e - 1] != 13))
    ||| (0 <= e && e + 1 < data.len() && data[e] == 13 && data[e + 1] == 10)
}

/// No newline byte occurs in `data[s..e)`.
pub open spec fn no_nl(data: Seq<u8>, s: int, e: int) -> bool {
    forall|j: int| s <= j < e ==> data[j] != 10
}

/// Where the line after span `s` starts.
pub open spec fn span_next(data: Seq<u8>, s: LineSpan) -> int {
    s.spec_end() + term_len(data, s.spec_end())
}

/// Line `i` of `spans` is correctly chained: it starts right after line
/// `i-1`'s terminator, holds no newline, and is terminated unless it is the
/// final unterminated tail (only lines `>= tc` are unterminated).
pub open spec fn span_ok(data: Seq<u8>, spans: Seq<LineSpan>, i: int, tc: int) -> bool {
    let s = spans[i];
    &&& s.spec_start() == (if i == 0 {
        0int
    } else {
        span_next(data, spans[i - 1])
    })
    &&& s.spec_start() <= s.spec_end()
    &&& s.spec_end() <= data.len()
    &&& no_nl(data, s.spec_start(), s.spec_end())
    &&& (i < tc ==> term_ok(data, s.spec_end()))
    &&& (i >= tc ==> s.spec_end() == data.len() && s.spec_start() < s.spec_end())
}

impl LineSpan {
    pub closed spec fn spec_start(&self) -> int {
        self.start as int
    }

    pub closed spec fn spec_end(&self) -> int {
        self.end as int
    }
}

// =============================================================================
// Trusted byte scanning
// =============================================================================
/// Relies on memchr::memchr_iter: an iterator over all occurrences of the
/// needle byte in the haystack, in ascending order.
#[verifier::external_body]
fn newline_offsets(data: &[u8]) -> (r: Vec<usize>)
    ensures
        forall|k: int|
            0 <= k < r@.len() ==> (#[trigger] r@[k] as int) < data@.len() && data@[r@[k] as int]
                == 10,
        forall|k1: int, k2: int| 0 <= k1 < k2 < r@.len() ==> r@[k1] < r@[k2],
        forall|i: int|
            0 <= i < data@.len() && data@[i] == 10 ==> exists|k: int|
                0 <= k < r@.len() && #[trigger] r@[k] as int == i,
{
    memchr::memchr_iter(b'\n', data).collect()
}

// =============================================================================
// The document
// =============================================================================
/// Cursor for a line-oriented document: just a plain (0-based) line number.
pub type Cursor = usize;

/// A concrete content store: buffers appended bytes, splits them into logical
/// lines on newlines, and lazily computes wrap segmentation per line per width.
pub struct TextDocument {
    data: Vec<u8>,
    complete_line_ranges: Vec<LineSpan>,
    next_start: usize,
    trailing_newline: Option<bool>,
    width: usize,
}

impl TextDocument {
    pub closed spec fn bytes(&self) -> Seq<u8> {
        self.data@
    }

    pub closed spec fn spans(&self) -> Seq<LineSpan> {
        self.complete_line_ranges@
    }

    pub open spec fn spec_num_lines(&self) -> int {
        self.spans().len() as int
    }

    pub closed spec fn spec_trailing(&self) -> Option<bool> {
        self.trailing_newline
    }

    /// Whether the document ends in an unterminated tail line.
    pub open spec fn has_tail(&self) -> bool {
        self.spec_trailing() == Some(false)
    }

    /// Number of newline-terminated lines (all but a possible tail line).
    pub open spec fn term_count(&self) -> int {
        self.spec_num_lines() - if self.has_tail() {
            1int
        } else {
            0int
        }
    }

    pub closed spec fn spec_next_start(&self) -> int {
        self.next_start as int
    }

    pub closed spec fn doc_width(&self) -> int {
        self.width as int
    }

    /// The line-splitting invariant: spans chain across the scanned prefix,
    /// and no newline is left unscanned.
    pub open spec fn lines_ok(&self) -> bool {
        &&& forall|i: int|
            0 <= i < self.spans().len() ==> span_ok(
                self.bytes(),
                self.spans(),
                i,
                self.term_count(),
            )
        &&& (self.has_tail() ==> self.spec_num_lines() >= 1)
        &&& self.spec_next_start() == (if self.term_count() == 0 {
            0int
        } else {
            span_next(self.bytes(), self.spans()[self.term_count() - 1])
        })
        &&& self.spec_next_start() <= self.bytes().len()
        &&& no_nl(self.bytes(), self.spec_next_start(), self.bytes().len() as int)
        &&& (self.spec_next_start() == 0 || self.bytes()[self.spec_next_start() - 1] == 10)
        &&& (self.spec_trailing() == Some(true) ==> self.spec_next_start() == self.bytes().len())
        &&& (self.has_tail() ==> self.spec_next_start() < self.bytes().len())
    }

    pub open spec fn wf(&self) -> bool {
        &&& self.doc_width() >= 1
        &&& self.bytes().len() <= usize::MAX
        &&& self.lines_ok()
    }

    // --- the row model ---
    pub closed spec fn line_len(&self, i: int) -> int {
        self.spans()[i].spec_end() - self.spans()[i].spec_start()
    }

    pub closed spec fn line_bytes(&self, i: int) -> Seq<u8> {
        self.bytes().subrange(self.spans()[i].spec_start(), self.spans()[i].spec_end())
    }

    /// How many displayed rows line `i` occupies at the current width.
    pub open spec fn line_rows(&self, i: int) -> int {
        nseg_of(self.line_len(i), self.doc_width())
    }

    /// Total displayed rows of all lines before line `i`.
    pub open spec fn rows_before(&self, i: int) -> int
        decreases i,
    {
        if i <= 0 {
            0
        } else {
            self.rows_before(i - 1) + self.line_rows(i - 1)
        }
    }

    pub open spec fn spec_num_rows(&self) -> int {
        self.rows_before(self.spec_num_lines())
    }

    pub open spec fn row_ok(&self, row: ScreenLine) -> bool {
        &&& 0 <= row.spec_line_index() < self.spec_num_lines()
        &&& match row.spec_segment() {
            None => self.line_len(row.spec_line_index()) <= self.doc_width(),
            Some(seg) => seg_wf(seg, self.line_len(row.spec_line_index()), self.doc_width()),
        }
    }

    pub open spec fn row_index(&self, row: ScreenLine) -> int {
        self.rows_before(row.spec_line_index()) + row.spec_seg_index()
    }

    pub open spec fn row_bytes(&self, row: ScreenLine) -> Seq<u8> {
        match row.spec_segment() {
            None => self.line_bytes(row.spec_line_index()),
            Some(seg) => seg_slice(
                self.line_bytes(row.spec_line_index()),
                seg.spec_index(),
                self.doc_width(),
            ),
        }
    }

    // --- counting lemmas ---
    /// Rows accumulate at least one per line and never shrink.
    pub proof fn lemma_rows_before_mono(&self, i: int, j: int)
        requires
            0 <= i <= j,
        ensures
            self.rows_before(i) + (j - i) <= self.rows_before(j),
        decreases j - i,
    {
        if i < j {
            lemma_nseg_ge1(self.line_len(j - 1), self.doc_width());
            self.lemma_rows_before_mono(i, j - 1);
        }
    }

    /// Rows of the lines before line `i` never outnumber the bytes before it.
    proof fn lemma_rows_le_start(&self, i: int)
        requires
            self.wf(),
            0 <= i <= self.term_count(),
        ensures
            self.rows_before(i) <= (if i == 0 {
                0int
            } else {
                span_next(self.bytes(), self.spans()[i - 1])
            }),
        decreases i,
    {
        if i > 0 {
            self.lemma_rows_le_start(i - 1);
            assert(span_ok(self.bytes(), self.spans(), i - 1, self.term_count()));
            lemma_nseg_le_len(self.line_len(i - 1), self.doc_width());
        }
    }

    /// A document never lays out more rows than it holds bytes.
    pub proof fn lemma_num_rows_le_bytes(&self)
        requires
            self.wf(),
        ensures
            self.spec_num_rows() <= self.bytes().len(),
    {
        self.lemma_rows_le_start(self.term_count());
        if self.has_tail() {
            let t = self.term_count();
            assert(span_ok(self.bytes(), self.spans(), t, t));
            lemma_nseg_le_len(self.line_len(t), self.doc_width());
        }
    }

    /// A valid row's index falls within its line's row block.
    pub proof fn lemma_row_block(&self, row: ScreenLine)
        requires
            self.wf(),
            self.row_ok(row),
        ensures
            0 <= row.spec_seg_index() < self.line_rows(row.spec_line_index()),
            self.rows_before(row.spec_line_index()) <= self.row_index(row) < self.rows_before(
                row.spec_line_index() + 1,
            ),
            0 <= self.row_index(row) < self.spec_num_rows(),
    {
        let li = row.spec_line_index();
        match row.spec_segment() {
            None => {
                lemma_nseg_ge1(self.line_len(li), self.doc_width());
            },
            Some(seg) => {},
        }
        self.lemma_rows_before_mono(0, li);
        self.lemma_rows_before_mono(li + 1, self.spec_num_lines());
    }

    /// Row order is the lexicographic order on (line, segment).
    pub proof fn lemma_row_order(&self, a: ScreenLine, b: ScreenLine)
        requires
            self.wf(),
            self.row_ok(a),
            self.row_ok(b),
        ensures
            (self.row_index(a) <= self.row_index(b)) <==> (a.spec_line_index()
                < b.spec_line_index() || (a.spec_line_index() == b.spec_line_index()
                && a.spec_seg_index() <= b.spec_seg_index())),
            (self.row_index(a) == self.row_index(b)) <==> (a.spec_line_index()
                == b.spec_line_index() && a.spec_seg_index() == b.spec_seg_index()),
    {
        self.lemma_row_block(a);
        self.lemma_row_block(b);
        if a.spec_line_index() < b.spec_line_index() {
            self.lemma_rows_before_mono(a.spec_line_index() + 1, b.spec_line_index());
        }
        if b.spec_line_index() < a.spec_line_index() {
            self.lemma_rows_before_mono(b.spec_line_index() + 1, a.spec_line_index());
        }
    }

    // --- executable helpers ---
    fn num_lines(&self) -> (n: usize)
        ensures
            n as int == self.spec_num_lines(),
    {
        self.complete_line_ranges.len()
    }

    fn line_zero_indexed(&self, n: usize) -> (r: &[u8])
        requires
            self.wf(),
            (n as int) < self.spec_num_lines(),
        ensures
            r@ == self.line_bytes(n as int),
            r@.len() == self.line_len(n as int),
    {
        proof {
            assert(span_ok(self.bytes(), self.spans(), n as int, self.term_count()));
        }
        let span = self.complete_line_ranges[n];
        vstd::slice::slice_subrange(self.data.as_slice(), span.start, span.end)
    }

    pub fn trailing_newline(&self) -> (r: Option<bool>)
        ensures
            r == self.spec_trailing(),
    {
        self.trailing_newline
    }

    /// Cursor focused on the (1-based) line number `n`.
    pub fn cursor_to_line_n(&self, n: usize) -> (c: Cursor)
        requires
            n >= 1,
        ensures
            c as int == n - 1,
    {
        n - 1
    }

    fn create_ref_to_start_of_line(&self, line_index: usize) -> (r: ScreenLine)
        requires
            self.wf(),
            (line_index as int) < self.spec_num_lines(),
        ensures
            self.row_ok(r),
            r.spec_line_index() == line_index as int,
            r.spec_seg_index() == 0,
            self.row_index(r) == self.rows_before(line_index as int),
    {
        let line = self.line_zero_indexed(line_index);
        let segment_of_wrapped_line = match BreakPoints::calculate(line, self.width) {
            None => None,
            Some(break_points) => Some(
                SegmentOfWrappedLine {
                    break_points: Rc::new(break_points),
                    index: 0,
                    width: self.width,
                },
            ),
        };
        proof {
            lemma_nseg_ge1(self.line_len(line_index as int), self.doc_width());
        }
        ScreenLine { line_index, segment_of_wrapped_line }
    }

    fn create_ref_to_end_of_line(&self, line_index: usize) -> (r: ScreenLine)
        requires
            self.wf(),
            (line_index as int) < self.spec_num_lines(),
        ensures
            self.row_ok(r),
            r.spec_line_index() == line_index as int,
            r.spec_seg_index() == self.line_rows(line_index as int) - 1,
            self.row_index(r) == self.rows_before(line_index as int + 1) - 1,
    {
        let start_of_line = self.create_ref_to_start_of_line(line_index);
        proof {
            assert(self.row_ok(start_of_line));
        }
        match start_of_line.segment_of_wrapped_line {
            None => {
                proof {
                    assert(self.line_len(line_index as int) <= self.doc_width());
                    assert(self.line_rows(line_index as int) == 1);
                }
                ScreenLine { line_index, segment_of_wrapped_line: None }
            },
            Some(start_segment) => {
                ScreenLine {
                    line_index,
                    segment_of_wrapped_line: Some(start_segment.into_last()),
                }
            },
        }
    }

    fn screen_line_contents(&self, screen_line: &ScreenLine) -> (r: &[u8])
        requires
            self.wf(),
            self.row_ok(*screen_line),
        ensures
            r@ == self.row_bytes(*screen_line),
    {
        let full_line = self.line_zero_indexed(screen_line.line_index);
        match &screen_line.segment_of_wrapped_line {
            None => full_line,
            Some(seg) => seg.break_points.nth_segment(
                full_line,
                seg.index,
                Ghost(self.doc_width()),
            ),
        }
    }
}

/// `nseg_of` is the unique segment count whose chunks of `w` bytes cover `len`.
pub proof fn lemma_nseg_unique(len: int, w: int, n: int)
    requires
        w >= 1,
        n >= 1,
        (n - 1) * w < len,
        len <= n * w,
    ensures
        nseg_of(len, w) == n,
    decreases n,
{
    if n == 1 {
        assert((1 - 1) * w == 0) by (nonlinear_arith);
        assert(1 * w == w) by (nonlinear_arith);
    } else {
        assert((n - 1) * w == (n - 2) * w + w) by (nonlinear_arith);
        assert(n * w == (n - 1) * w + w) by (nonlinear_arith);
        assert(len - w > 0);
        lemma_nseg_unique(len - w, w, n - 1);
        assert(len > w) by {
            assert((n - 1) * w >= w) by (nonlinear_arith)
                requires
                    n >= 2,
                    w >= 1,
            ;
        }
    }
}


// =============================================================================
// Incremental scan: specification and lemmas
// =============================================================================
/// The facts the newline scan yields: `offs` lists exactly the newline
/// positions of `chunk`, in ascending order.
pub open spec fn nl_facts(chunk: Seq<u8>, offs: Seq<usize>) -> bool {
    &&& forall|k: int|
        0 <= k < offs.len() ==> (#[trigger] offs[k] as int) < chunk.len() && chunk[offs[k] as int]
            == 10
    &&& forall|k1: int, k2: int| 0 <= k1 < k2 < offs.len() ==> offs[k1] < offs[k2]
    &&& forall|i: int|
        0 <= i < chunk.len() && #[trigger] chunk[i] == 10 ==> exists|k: int|
            0 <= k < offs.len() && #[trigger] offs[k] as int == i
}

/// How far the scan has advanced after `k` processed newline offsets.
pub open spec fn append_boundary(len: int, chunk: Seq<u8>, offs: Seq<usize>, k: int) -> int {
    if k < offs.len() {
        len + offs[k]
    } else {
        len + chunk.len()
    }
}

impl TextDocument {
    /// Mid-append invariant: the spans chain correctly and every byte up to
    /// `upto` has been split; bytes past `upto` are not yet scanned.
    pub closed spec fn scan_ok(&self, upto: int) -> bool {
        &&& forall|i: int|
            0 <= i < self.spans().len() ==> span_ok(
                self.bytes(),
                self.spans(),
                i,
                self.spans().len() as int,
            )
        &&& self.spec_next_start() == (if self.spans().len() == 0 {
            0int
        } else {
            span_next(self.bytes(), self.spans()[self.spans().len() - 1])
        })
        &&& self.spec_next_start() <= upto <= self.bytes().len()
        &&& no_nl(self.bytes(), self.spec_next_start(), upto)
        &&& (self.spec_next_start() == 0 || self.bytes()[self.spec_next_start() - 1] == 10)
    }

    /// With no end-of-stream marker, the document invariant is exactly a
    /// finished scan.
    proof fn lemma_scan_is_lines_ok(&self)
        requires
            self.spec_trailing() is None,
        ensures
            self.lines_ok() <==> self.scan_ok(self.bytes().len() as int),
    {
    }

    proof fn lemma_append_setup(&self, pre: TextDocument, chunk: Seq<u8>, offs: Seq<usize>)
        requires
            pre.wf(),
            pre.spec_trailing() is None,
            nl_facts(chunk, offs),
            self.bytes() == pre.bytes() + chunk,
            self.bytes().len() <= usize::MAX,
            self.spans() == pre.spans(),
            self.spec_next_start() == pre.spec_next_start(),
            self.spec_trailing() == pre.spec_trailing(),
            self.doc_width() == pre.doc_width(),
        ensures
            self.scan_ok(append_boundary(pre.bytes().len() as int, chunk, offs, 0)),
    {
        let len = pre.bytes().len() as int;
        pre.lemma_scan_is_lines_ok();
        assert(pre.scan_ok(len));
        assert forall|i: int| 0 <= i < self.spans().len() implies span_ok(
            self.bytes(),
            self.spans(),
            i,
            self.spans().len() as int,
        ) by {
            assert(span_ok(pre.bytes(), pre.spans(), i, pre.spans().len() as int));
        }
        let b0 = append_boundary(len, chunk, offs, 0);
        assert forall|j: int| self.spec_next_start() <= j < b0 implies self.bytes()[j] != 10 by {
            if j < len {
                assert(pre.bytes()[j] != 10);
            } else {
                lemma_nl_gap(chunk, offs, j - len, 0);
            }
        }
    }

    proof fn lemma_append_step(
        &self,
        mid: TextDocument,
        pre: TextDocument,
        chunk: Seq<u8>,
        offs: Seq<usize>,
        k: int,
    )
        requires
            nl_facts(chunk, offs),
            0 <= k < offs.len(),
            pre.bytes().len() + chunk.len() <= usize::MAX,
            mid.bytes() == pre.bytes() + chunk,
            mid.scan_ok(append_boundary(pre.bytes().len() as int, chunk, offs, k)),
            self.bytes() == mid.bytes(),
            self.doc_width() == mid.doc_width(),
            self.spec_trailing() == mid.spec_trailing(),
            self.spans().len() == mid.spans().len() + 1,
            forall|i: int| 0 <= i < mid.spans().len() ==> self.spans()[i] == mid.spans()[i],
            ({
                let e_abs = pre.bytes().len() + offs[k];
                let sp = self.spans()[self.spans().len() - 1];
                &&& sp.spec_start() == mid.spec_next_start()
                &&& (if e_abs > 0 && mid.bytes()[e_abs - 1] == 13 {
                    sp.spec_end() == e_abs - 1
                } else {
                    sp.spec_end() == e_abs
                })
                &&& self.spec_next_start() == e_abs + 1
            }),
        ensures
            self.scan_ok(append_boundary(pre.bytes().len() as int, chunk, offs, k + 1)),
    {
        let len = pre.bytes().len() as int;
        let e_abs = len + offs[k];
        let ns = mid.spec_next_start();
        let n2 = self.spans().len() as int;
        let sp = self.spans()[n2 - 1];
        assert(self.bytes()[e_abs] == chunk[offs[k] as int]);
        assert(self.bytes()[e_abs] == 10);
        // the fresh span is chained, newline-free and terminated
        if e_abs > 0 && mid.bytes()[e_abs - 1] == 13 {
            // `\r` stripped from the stored range
            if ns == e_abs {
                // impossible: the byte before a line start is a newline
                assert(ns > 0 && self.bytes()[ns - 1] == 10);
                assert(false);
            }
            assert(term_ok(self.bytes(), sp.spec_end()));
        } else {
            assert(term_ok(self.bytes(), sp.spec_end()));
        }
        assert(span_ok(self.bytes(), self.spans(), n2 - 1, n2)) by {
            if n2 - 1 > 0 {
                assert(span_ok(mid.bytes(), mid.spans(), n2 - 2, n2 - 1));
            }
        }
        assert forall|i: int| 0 <= i < n2 implies span_ok(
            self.bytes(),
            self.spans(),
            i,
            n2,
        ) by {
            if i < n2 - 1 {
                assert(span_ok(mid.bytes(), mid.spans(), i, n2 - 1));
            }
        }
        // next_start points right past the newline
        assert(span_next(self.bytes(), sp) == e_abs + 1);
        // nothing up to the next boundary holds a newline
        let b2 = append_boundary(len, chunk, offs, k + 1);
        assert(self.spec_next_start() <= b2) by {
            if k + 1 < offs.len() {
                assert(offs[k] < offs[k + 1]);
            }
        }
        assert forall|j: int| self.spec_next_start() <= j < b2 implies self.bytes()[j] != 10 by {
            assert((offs[k] as int) < j - len);
            assert forall|k2: int| 0 <= k2 < k + 1 implies (#[trigger] offs[k2] as int) < j
                - len by {
                if k2 < k {
                    assert(offs[k2] < offs[k]);
                }
            }
            lemma_nl_gap(chunk, offs, j - len, k + 1);
        }
    }

    proof fn lemma_append_done(&self, pre: TextDocument, chunk: Seq<u8>, offs: Seq<usize>)
        requires
            pre.wf(),
            pre.spec_trailing() is None,
            nl_facts(chunk, offs),
            self.bytes() == pre.bytes() + chunk,
            self.bytes().len() <= usize::MAX,
            self.spec_trailing() is None,
            self.doc_width() == pre.doc_width(),
            self.width >= 1,
            pre.spans().is_prefix_of(self.spans()),
            self.scan_ok(append_boundary(pre.bytes().len() as int, chunk, offs, offs.len() as int)),
        ensures
            self.wf(),
            self.spec_num_rows() >= pre.spec_num_rows(),
            forall|r: ScreenLine| #[trigger]
                pre.row_ok(r) ==> self.row_ok(r) && self.row_index(r) == pre.row_index(r)
                    && self.row_bytes(r) == pre.row_bytes(r),
            forall|c: Cursor|
                #![trigger pre.rows_before(c as int)]
                ((c as int) < pre.spec_num_lines()) ==> (c as int) < self.spec_num_lines()
                    && self.rows_before(c as int) == pre.rows_before(c as int) && self.line_rows(
                    c as int,
                ) == pre.line_rows(c as int),
    {
        self.lemma_scan_is_lines_ok();
        self.lemma_preserves(pre);
    }

    /// Shared preservation argument: a document extended with more lines keeps
    /// every old row and cursor at the same place with the same content.
    proof fn lemma_preserves(&self, pre: TextDocument)
        requires
            pre.wf(),
            self.wf(),
            self.doc_width() == pre.doc_width(),
            pre.spans().is_prefix_of(self.spans()),
            pre.bytes().is_prefix_of(self.bytes()),
        ensures
            self.spec_num_rows() >= pre.spec_num_rows(),
            forall|r: ScreenLine| #[trigger]
                pre.row_ok(r) ==> self.row_ok(r) && self.row_index(r) == pre.row_index(r)
                    && self.row_bytes(r) == pre.row_bytes(r),
            forall|c: Cursor|
                #![trigger pre.rows_before(c as int)]
                ((c as int) < pre.spec_num_lines()) ==> (c as int) < self.spec_num_lines()
                    && self.rows_before(c as int) == pre.rows_before(c as int) && self.line_rows(
                    c as int,
                ) == pre.line_rows(c as int),
    {
        let n0 = pre.spec_num_lines();
        lemma_rows_before_congruent(*self, pre, n0);
        self.lemma_rows_before_mono(n0, self.spec_num_lines());
        assert forall|c: Cursor|
            #![trigger pre.rows_before(c as int)]
            ((c as int) < pre.spec_num_lines()) implies (c as int) < self.spec_num_lines()
            && self.rows_before(c as int) == pre.rows_before(c as int) && self.line_rows(c as int)
            == pre.line_rows(c as int) by {
            lemma_rows_before_congruent(*self, pre, c as int);
        }
        assert forall|r: ScreenLine| #[trigger] pre.row_ok(r) implies self.row_ok(r)
            && self.row_index(r) == pre.row_index(r) && self.row_bytes(r) == pre.row_bytes(r) by {
            let li = r.spec_line_index();
            lemma_rows_before_congruent(*self, pre, li);
            assert(span_ok(pre.bytes(), pre.spans(), li, pre.term_count()));
            assert(pre.spans()[li] == self.spans()[li]);
            let plen = pre.bytes().len() as int;
            assert(pre.bytes() =~= self.bytes().subrange(0, plen));
            assert(self.line_bytes(li) =~= pre.line_bytes(li));
            assert(self.row_bytes(r) == pre.row_bytes(r));
        }
    }

    proof fn lemma_eof_tail(&self, pre: TextDocument, span: LineSpan)
        requires
            pre.wf(),
            pre.spec_trailing() is None,
            pre.spec_next_start() < pre.bytes().len(),
            self.bytes() == pre.bytes(),
            self.doc_width() == pre.doc_width(),
            self.spans() == pre.spans().push(span),
            self.spec_next_start() == pre.spec_next_start(),
            self.spec_trailing() == Some(false),
            span.spec_start() == pre.spec_next_start(),
            span.spec_end() == pre.bytes().len(),
        ensures
            self.wf(),
            self.spec_num_rows() >= pre.spec_num_rows(),
            forall|r: ScreenLine| #[trigger]
                pre.row_ok(r) ==> self.row_ok(r) && self.row_index(r) == pre.row_index(r)
                    && self.row_bytes(r) == pre.row_bytes(r),
            forall|c: Cursor|
                #![trigger pre.rows_before(c as int)]
                ((c as int) < pre.spec_num_lines()) ==> (c as int) < self.spec_num_lines()
                    && self.rows_before(c as int) == pre.rows_before(c as int) && self.line_rows(
                    c as int,
                ) == pre.line_rows(c as int),
    {
        let n2 = self.spans().len() as int;
        assert(self.term_count() == n2 - 1);
        assert forall|i: int| 0 <= i < n2 implies span_ok(
            self.bytes(),
            self.spans(),
            i,
            self.term_count(),
        ) by {
            if i < n2 - 1 {
                assert(span_ok(pre.bytes(), pre.spans(), i, pre.term_count()));
            }
        }
        self.lemma_preserves(pre);
    }

    proof fn lemma_eof_clean(&self, pre: TextDocument)
        requires
            pre.wf(),
            pre.spec_trailing() is None,
            pre.spec_next_start() >= pre.bytes().len(),
            self.bytes() == pre.bytes(),
            self.doc_width() == pre.doc_width(),
            self.spans() == pre.spans(),
            self.spec_next_start() == pre.spec_next_start(),
            self.spec_trailing() == Some(true),
        ensures
            self.wf(),
            self.spec_num_rows() >= pre.spec_num_rows(),
            forall|r: ScreenLine| #[trigger]
                pre.row_ok(r) ==> self.row_ok(r) && self.row_index(r) == pre.row_index(r)
                    && self.row_bytes(r) == pre.row_bytes(r),
            forall|c: Cursor|
                #![trigger pre.rows_before(c as int)]
                ((c as int) < pre.spec_num_lines()) ==> (c as int) < self.spec_num_lines()
                    && self.rows_before(c as int) == pre.rows_before(c as int) && self.line_rows(
                    c as int,
                ) == pre.line_rows(c as int),
    {
        assert forall|i: int| 0 <= i < self.spans().len() implies span_ok(
            self.bytes(),
            self.spans(),
            i,
            self.term_count(),
        ) by {
            assert(span_ok(pre.bytes(), pre.spans(), i, pre.term_count()));
        }
        self.lemma_preserves(pre);
    }

    /// Each line starts no earlier than its index: lines consume bytes.
    proof fn lemma_line_start_ge(&self, i: int)
        requires
            self.wf(),
            0 <= i < self.spans().len(),
        ensures
            self.spans()[i].spec_start() >= i,
        decreases i,
    {
        assert(span_ok(self.bytes(), self.spans(), i, self.term_count()));
        if i > 0 {
            self.lemma_line_start_ge(i - 1);
            assert(span_ok(self.bytes(), self.spans(), i - 1, self.term_count()));
        }
    }

    /// A document holds at most one more line than it holds bytes.
    pub proof fn lemma_num_lines_le_bytes(&self)
        requires
            self.wf(),
        ensures
            self.spec_num_lines() <= self.bytes().len() + 1,
    {
        let n = self.spec_num_lines();
        if n >= 1 {
            self.lemma_line_start_ge(n - 1);
            assert(span_ok(self.bytes(), self.spans(), n - 1, self.term_count()));
        }
    }
}

/// `rows_before` depends only on the spans prefix and the width.
proof fn lemma_rows_before_congruent(d1: TextDocument, d2: TextDocument, i: int)
    requires
        0 <= i,
        i <= d1.spans().len(),
        i <= d2.spans().len(),
        d1.doc_width() == d2.doc_width(),
        forall|j: int| 0 <= j < i ==> d1.spans()[j] == d2.spans()[j],
    ensures
        d1.rows_before(i) == d2.rows_before(i),
    decreases i,
{
    if i > 0 {
        lemma_rows_before_congruent(d1, d2, i - 1);
    }
}

/// A chunk position strictly between the listed newline offsets holds no
/// newline: the scan is complete.
proof fn lemma_nl_gap(chunk: Seq<u8>, offs: Seq<usize>, p: int, k: int)
    requires
        nl_facts(chunk, offs),
        0 <= p < chunk.len(),
        0 <= k,
        k < offs.len() ==> p < offs[k],
        forall|k2: int| 0 <= k2 < k ==> (#[trigger] offs[k2] as int) < p,
    ensures
        chunk[p] != 10,
{
    if chunk[p] == 10 {
        let k2 = choose|k2: int| 0 <= k2 < offs.len() && offs[k2] as int == p;
        if k2 < k {
            assert((offs[k2] as int) < p);
        } else {
            assert(k < offs.len());
            if k < k2 {
                assert(offs[k] < offs[k2]);
            }
            assert(offs[k] as int <= p);
        }
        assert(false);
    }
}


// =============================================================================
// The layout is determined by the bytes
// =============================================================================
/// Two valid terminators of one newline-free span coincide: an earlier one
/// would put a newline strictly inside the later span, or clash with the
/// later terminator's own shape.
proof fn lemma_term_unique(data: Seq<u8>, s: int, e1: int, e2: int)
    requires
        s <= e1,
        s <= e2,
        no_nl(data, s, e1),
        no_nl(data, s, e2),
        term_ok(data, e1),
        term_ok(data, e2),
    ensures
        e1 == e2,
{
    if e1 < e2 {
        if data[e1] == 10 {
            assert(data[e1] != 10);
        } else {
            // a stripped `\r\n` pair starts at the earlier position
            assert(data[e1] == 13 && data[e1 + 1] == 10);
            if e1 + 1 < e2 {
                assert(data[e1 + 1] != 10);
            } else {
                assert(e2 == e1 + 1);
                assert(data[e2] == 10);
                assert(data[e2 - 1] == 13);
            }
        }
    } else if e2 < e1 {
        if data[e2] == 10 {
            assert(data[e2] != 10);
        } else {
            assert(data[e2] == 13 && data[e2 + 1] == 10);
            if e2 + 1 < e1 {
                assert(data[e2 + 1] != 10);
            } else {
                assert(e1 == e2 + 1);
                assert(data[e1] == 10);
                assert(data[e1 - 1] == 13);
            }
        }
    }
}

/// The terminated lines of two well-formed documents over the same bytes
/// agree, prefix by prefix.
proof fn lemma_spans_prefix_eq(d1: &TextDocument, d2: &TextDocument, i: int)
    requires
        d1.wf(),
        d2.wf(),
        d1.bytes() == d2.bytes(),
        0 <= i <= d1.term_count(),
        i <= d2.term_count(),
    ensures
        forall|j: int| 0 <= j < i ==> d1.spans()[j] == d2.spans()[j],
    decreases i,
{
    if i > 0 {
        lemma_spans_prefix_eq(d1, d2, i - 1);
        assert(span_ok(d1.bytes(), d1.spans(), i - 1, d1.term_count()));
        assert(span_ok(d2.bytes(), d2.spans(), i - 1, d2.term_count()));
        let s1 = d1.spans()[i - 1];
        let s2 = d2.spans()[i - 1];
        if i - 1 > 0 {
            assert(d1.spans()[i - 2] == d2.spans()[i - 2]);
        }
        assert(s1.spec_start() == s2.spec_start());
        lemma_term_unique(d1.bytes(), s1.spec_start(), s1.spec_end(), s2.spec_end());
        assert(s1 == s2);
    }
}

/// Same bytes, same number of terminated lines: an extra terminated line on
/// one side would put its terminator's newline into the other side's
/// newline-free unscanned tail.
proof fn lemma_term_count_le(d1: &TextDocument, d2: &TextDocument)
    requires
        d1.wf(),
        d2.wf(),
        d1.bytes() == d2.bytes(),
    ensures
        d1.term_count() >= d2.term_count(),
{
    if d1.term_count() < d2.term_count() {
        let tc1 = d1.term_count();
        lemma_spans_prefix_eq(d1, d2, tc1);
        assert(span_ok(d2.bytes(), d2.spans(), tc1, d2.term_count()));
        let sp2 = d2.spans()[tc1];
        if tc1 > 0 {
            assert(d1.spans()[tc1 - 1] == d2.spans()[tc1 - 1]);
        }
        assert(sp2.spec_start() == d1.spec_next_start());
        let e = sp2.spec_end();
        assert(no_nl(d1.bytes(), d1.spec_next_start(), d1.bytes().len() as int));
        if d1.bytes()[e] == 10 {
            assert(d1.bytes()[e] != 10);
        } else {
            assert(d1.bytes()[e] == 13 && d1.bytes()[e + 1] == 10);
            assert(d1.bytes()[e + 1] != 10);
        }
    }
}

/// After the end-of-stream marker the trailing-newline answer is determined:
/// `Some(true)` exactly when the scan consumed every byte (the buffer ended
/// at a newline), `Some(false)` exactly when an unterminated tail line was
/// added; `Document::eof` itself only promises the marker and preservation,
/// so this lemma carries the tri-state outcome.
pub proof fn lemma_trailing_after_eof(d: &TextDocument)
    requires
        d.wf(),
        d.spec_trailing() is Some,
    ensures
        d.spec_trailing() == Some(d.spec_next_start() == d.bytes().len()),
        d.has_tail() ==> d.spec_num_lines() >= 1 && d.spans().last().spec_start()
            == d.spec_next_start() && d.spans().last().spec_end() == d.bytes().len(),
{
    let t = d.spec_trailing();
    assert(t == Some(true) || t == Some(false));
    if d.has_tail() {
        assert(span_ok(d.bytes(), d.spans(), d.spec_num_lines() - 1, d.term_count()));
    }
}

/// Same bytes and the same end-of-stream state give the same logical lines
/// and the same trailing-newline answer.
pub proof fn lemma_lines_determined(d1: &TextDocument, d2: &TextDocument)
    requires
        d1.wf(),
        d2.wf(),
        d1.bytes() == d2.bytes(),
        (d1.spec_trailing() is Some) == (d2.spec_trailing() is Some),
    ensures
        d1.spans() == d2.spans(),
        d1.spec_trailing() == d2.spec_trailing(),
        d1.spec_next_start() == d2.spec_next_start(),
{
    lemma_term_count_le(d1, d2);
    lemma_term_count_le(d2, d1);
    let tc = d1.term_count();
    lemma_spans_prefix_eq(d1, d2, tc);
    if tc > 0 {
        assert(d1.spans()[tc - 1] == d2.spans()[tc - 1]);
    }
    assert(d1.spec_next_start() == d2.spec_next_start());
    match d1.spec_trailing() {
        None => {
            assert(d2.spec_trailing() is None);
            assert(d1.spans() =~= d2.spans());
        },
        Some(_) => {
            // with the scan position shared, exactly one of the tri-state
            // outcomes is consistent with the buffered bytes
            if d1.has_tail() != d2.has_tail() {
                let t1 = d1.spec_trailing();
                let t2 = d2.spec_trailing();
                assert(t1 == Some(true) || t1 == Some(false));
                assert(t2 == Some(true) || t2 == Some(false));
                assert(false);
            }
            if d1.has_tail() {
                assert(span_ok(d1.bytes(), d1.spans(), tc, tc));
                assert(span_ok(d2.bytes(), d2.spans(), tc, tc));
                assert(d1.spans()[tc] == d2.spans()[tc]);
            }
            assert(d1.spans() =~= d2.spans());
            assert(d1.spec_trailing() == d2.spec_trailing());
        },
    }
}


/// Number of newline bytes in `s`.
pub open spec fn nl_bytes(s: Seq<u8>) -> int
    decreases s.len(),
{
    if s.len() == 0 {
        0
    } else {
        nl_bytes(s.drop_last()) + if s.last() == 10 {
            1int
        } else {
            0int
        }
    }
}

proof fn lemma_nl_bytes_concat(a: Seq<u8>, b: Seq<u8>)
    ensures
        nl_bytes(a + b) == nl_bytes(a) + nl_bytes(b),
    decreases b.len(),
{
    if b.len() == 0 {
        assert(a + b =~= a);
    } else {
        lemma_nl_bytes_concat(a, b.drop_last());
        assert((a + b).drop_last() =~= a + b.drop_last());
        assert((a + b).last() == b.last());
    }
}

proof fn lemma_nl_bytes_none(s: Seq<u8>)
    requires
        forall|j: int| 0 <= j < s.len() ==> s[j] != 10,
    ensures
        nl_bytes(s) == 0,
    decreases s.len(),
{
    if s.len() > 0 {
        lemma_nl_bytes_none(s.drop_last());
    }
}

impl TextDocument {
    /// Where line `i` starts (the scan position, for `i` past the last
    /// terminated line).
    pub open spec fn line_start_of(&self, i: int) -> int {
        if i == 0 {
            0int
        } else {
            span_next(self.bytes(), self.spans()[i - 1])
        }
    }

    /// Every complete line consumed exactly one newline byte.
    proof fn lemma_prefix_nl(&self, i: int)
        requires
            self.wf(),
            0 <= i <= self.term_count(),
        ensures
            nl_bytes(self.bytes().subrange(0, self.line_start_of(i))) == i,
        decreases i,
    {
        let bytes = self.bytes();
        if i == 0 {
            assert(bytes.subrange(0, 0) =~= Seq::<u8>::empty());
        } else {
            self.lemma_prefix_nl(i - 1);
            assert(span_ok(bytes, self.spans(), i - 1, self.term_count()));
            let sp = self.spans()[i - 1];
            let st = sp.spec_start();
            let e = sp.spec_end();
            let nxt = self.line_start_of(i);
            assert(st == self.line_start_of(i - 1));
            let p0 = bytes.subrange(0, st);
            let pl = bytes.subrange(st, e);
            let pt = bytes.subrange(e, nxt);
            assert(bytes.subrange(0, nxt) =~= p0 + (pl + pt));
            lemma_nl_bytes_concat(p0, pl + pt);
            lemma_nl_bytes_concat(pl, pt);
            assert forall|j: int| 0 <= j < pl.len() implies pl[j] != 10 by {
                assert(bytes[st + j] != 10);
            }
            lemma_nl_bytes_none(pl);
            assert(nl_bytes(Seq::<u8>::empty()) == 0);
            if bytes[e] == 10 {
                assert(pt.len() == 1);
                assert(pt.last() == 10);
                assert(nl_bytes(pt) == nl_bytes(pt.drop_last()) + 1);
                assert(pt.drop_last() =~= Seq::<u8>::empty());
                assert(nl_bytes(pt.drop_last()) == 0);
            } else {
                assert(bytes[e] == 13 && bytes[e + 1] == 10);
                assert(pt.len() == 2);
                assert(pt.last() == 10);
                assert(nl_bytes(pt) == nl_bytes(pt.drop_last()) + 1);
                let mid = pt.drop_last();
                assert(mid.len() == 1);
                assert(mid.last() == 13);
                assert(nl_bytes(mid) == nl_bytes(mid.drop_last()));
                assert(mid.drop_last() =~= Seq::<u8>::empty());
                assert(nl_bytes(mid.drop_last()) == 0);
            }
        }
    }

    /// Exactly one complete logical line exists per buffered newline byte:
    /// the split consumes every newline and invents none.
    pub proof fn lemma_one_line_per_newline(&self)
        requires
            self.wf(),
        ensures
            self.term_count() == nl_bytes(self.bytes()),
    {
        self.lemma_prefix_nl(self.term_count());
        let bytes = self.bytes();
        let ns = self.spec_next_start();
        assert(self.line_start_of(self.term_count()) == ns);
        let prefix = bytes.subrange(0, ns);
        let tail = bytes.subrange(ns, bytes.len() as int);
        assert forall|j: int| 0 <= j < tail.len() implies tail[j] != 10 by {
            assert(bytes[ns + j] != 10);
        }
        lemma_nl_bytes_none(tail);
        lemma_nl_bytes_concat(prefix, tail);
        assert(bytes =~= prefix + tail);
    }
}

impl Document for TextDocument {
    type ScreenLine = ScreenLine;

    type Cursor = Cursor;

    open spec fn inv(&self) -> bool {
        self.wf()
    }

    open spec fn spec_width(&self) -> int {
        self.doc_width()
    }

    open spec fn num_rows(&self) -> int {
        self.spec_num_rows()
    }

    open spec fn at_eof(&self) -> bool {
        self.spec_trailing() is Some
    }

    open spec fn content(&self) -> Seq<u8> {
        self.bytes()
    }

    open spec fn row_valid(&self, row: &ScreenLine) -> bool {
        self.row_ok(*row)
    }

    open spec fn row_idx(&self, row: &ScreenLine) -> int {
        self.row_index(*row)
    }

    open spec fn row_line_number(&self, row: &ScreenLine) -> int {
        row.spec_line_index() + 1
    }

    open spec fn row_wrapped(&self, row: &ScreenLine) -> bool {
        row.spec_segment() is Some
    }

    open spec fn row_first_seg(&self, row: &ScreenLine) -> bool {
        row.spec_segment() is Some && row.spec_seg_index() == 0
    }

    open spec fn row_last_seg(&self, row: &ScreenLine) -> bool {
        row.spec_segment() is Some && row.spec_seg_index() == self.line_rows(
            row.spec_line_index(),
        ) - 1
    }

    open spec fn row_content(&self, row: &ScreenLine) -> Seq<u8> {
        self.row_bytes(*row)
    }

    open spec fn cursor_valid(&self, c: &Cursor) -> bool {
        (*c as int) < self.spec_num_lines()
    }

    open spec fn cursor_start(&self, c: &Cursor) -> int {
        self.rows_before(*c as int)
    }

    open spec fn cursor_height(&self, c: &Cursor) -> int {
        self.line_rows(*c as int)
    }

    open spec fn cursor_of_row(&self, row: &ScreenLine, prev: &Cursor) -> Cursor {
        row.spec_line_index() as usize
    }

    open spec fn cursor_down_tgt(&self, n: int, c: &Cursor) -> Cursor {
        if *c + n >= self.spec_num_lines() - 1 {
            (self.spec_num_lines() - 1) as usize
        } else {
            (*c + n) as usize
        }
    }

    open spec fn cursor_up_tgt(&self, n: int, c: &Cursor) -> Cursor {
        if *c <= n {
            0usize
        } else {
            (*c - n) as usize
        }
    }

    open spec fn cursor_at_bottom(&self, c: &Cursor) -> bool {
        *c as int == self.spec_num_lines() - 1
    }

    open spec fn cursor_at_top(&self, c: &Cursor) -> bool {
        *c == 0
    }

    closed spec fn with_width(&self, w: int) -> Self {
        TextDocument { width: w as usize, ..*self }
    }

    proof fn lemma_inv(&self) {
        assert(self.spec_width() == self.doc_width());
        assert(self.content() == self.bytes());
        assert(self.num_rows() == self.spec_num_rows());
        self.lemma_rows_before_mono(0, self.spec_num_lines());
        self.lemma_num_rows_le_bytes();
    }

    proof fn lemma_row(&self, row: &ScreenLine) {
        assert(self.row_idx(row) == self.row_index(*row));
        assert(self.num_rows() == self.spec_num_rows());
        assert(self.row_line_number(row) == row.spec_line_index() + 1);
        assert(self.row_wrapped(row) == (row.spec_segment() is Some));
        assert(self.row_first_seg(row) == (row.spec_segment() is Some && row.spec_seg_index()
            == 0));
        assert(self.row_valid(row) == self.row_ok(*row));
        self.lemma_row_block(*row);
        let li = row.spec_line_index();
        if li >= 1 {
            self.lemma_rows_before_mono(1, li);
            lemma_nseg_ge1(self.line_len(0), self.doc_width());
            assert(self.rows_before(0) == 0);
            assert(self.rows_before(1) == self.rows_before(0) + self.line_rows(0));
            assert(self.rows_before(li) >= 1);
        }
    }

    proof fn lemma_cursor(&self, c: &Cursor) {
        lemma_nseg_ge1(self.line_len(*c as int), self.doc_width());
        self.lemma_rows_before_mono(0, *c as int);
        self.lemma_rows_before_mono(*c as int + 1, self.spec_num_lines());
    }

    proof fn lemma_cursor_of_row(&self, row: &ScreenLine, prev: &Cursor) {
        self.lemma_row_block(*row);
    }

    proof fn lemma_cursor_moves(&self, n: int, c: &Cursor) {
        self.lemma_num_lines_le_bytes();
    }

    proof fn lemma_with_width(&self, w: int) {
        let d2 = self.with_width(w);
        assert(d2.lines_ok()) by {
            assert forall|i: int| 0 <= i < d2.spans().len() implies span_ok(
                d2.bytes(),
                d2.spans(),
                i,
                d2.term_count(),
            ) by {
                assert(span_ok(self.bytes(), self.spans(), i, self.term_count()));
            }
        }
        self.lemma_rows_before_mono(0, self.spec_num_lines());
        d2.lemma_rows_before_mono(0, d2.spec_num_lines());
        if self.spec_num_lines() >= 1 {
            self.lemma_rows_before_mono(1, self.spec_num_lines());
            d2.lemma_rows_before_mono(1, d2.spec_num_lines());
            lemma_nseg_ge1(self.line_len(0), self.doc_width());
            lemma_nseg_ge1(d2.line_len(0), d2.doc_width());
        }
        assert(d2.with_width(self.spec_width()) == *self);
    }

    proof fn lemma_layout_determined(&self, other: &TextDocument) {
        lemma_lines_determined(self, other);
        lemma_rows_before_congruent(*self, *other, self.spec_num_lines());
        assert(self.num_rows() == self.spec_num_rows());
        assert(other.num_rows() == other.spec_num_rows());
        assert forall|r: ScreenLine| #[trigger] self.row_valid(&r) implies other.row_valid(&r)
            && other.row_idx(&r) == self.row_idx(&r) && other.row_line_number(&r)
            == self.row_line_number(&r) && other.row_wrapped(&r) == self.row_wrapped(&r)
            && other.row_first_seg(&r) == self.row_first_seg(&r) && other.row_last_seg(&r)
            == self.row_last_seg(&r) && other.row_content(&r) == self.row_content(&r) by {
            let li = r.spec_line_index();
            lemma_rows_before_congruent(*self, *other, li);
            assert(other.line_bytes(li) == self.line_bytes(li));
            assert(other.row_bytes(r) == self.row_bytes(r));
        }
        assert forall|c: Cursor| #[trigger] self.cursor_valid(&c) implies other.cursor_valid(&c)
            && other.cursor_start(&c) == self.cursor_start(&c) && other.cursor_height(&c)
            == self.cursor_height(&c) by {
            lemma_rows_before_congruent(*self, *other, c as int);
        }
    }

    fn new(width: usize) -> (d: Self) {
        let d = TextDocument {
            data: Vec::new(),
            complete_line_ranges: Vec::new(),
            next_start: 0,
            trailing_newline: None,
            width,
        };
        d
    }

    fn width(&self) -> (w: usize) {
        self.width
    }

    fn resize(&mut self, new_width: usize) {
        self.width = new_width;
    }

    fn append(&mut self, data: &[u8]) {
        let len = self.data.len();
        self.data.extend_from_slice(data);
        proof {
            assert forall|i: int| 0 <= i < self.data@.len() implies self.data@[i] == (old(
                self,
            ).data@ + data@)[i] by {}
            assert(self.data@ =~= old(self).data@ + data@);
        }
        let total = self.data.len();
        let offsets = newline_offsets(data);
        let num_offsets = offsets.len();
        proof {
            self.lemma_append_setup(*old(self), data@, offsets@);
        }
        let mut k: usize = 0;
        while k < num_offsets
            invariant
                num_offsets == offsets@.len(),
                k <= num_offsets,
                len == old(self).bytes().len(),
                total == self.bytes().len(),
                total == len + data@.len(),
                total <= usize::MAX,
                self.bytes() == old(self).bytes() + data@,
                self.width == old(self).width,
                old(self).wf(),
                !old(self).at_eof(),
                self.trailing_newline is None,
                old(self).spans().is_prefix_of(self.spans()),
                self.spans().len() == old(self).spans().len() + k,
                nl_facts(data@, offsets@),
                self.scan_ok(append_boundary(len as int, data@, offsets@, k as int)),
            decreases num_offsets - k,
        {
            let newline_offset = offsets[k];
            let end = len + newline_offset;
            let strip = end > 0 && self.data[end - 1] == 13u8;
            let line_range = if strip {
                LineSpan { start: self.next_start, end: end - 1 }
            } else {
                LineSpan { start: self.next_start, end }
            };
            let ghost mid = *self;
            self.complete_line_ranges.push(line_range);
            self.next_start = end + 1;
            proof {
                self.lemma_append_step(mid, *old(self), data@, offsets@, k as int);
            }
            k = k + 1;
        }
        proof {
            self.lemma_append_done(*old(self), data@, offsets@);
        }
    }

    fn eof(&mut self) {
        let end = self.data.len();
        if end > self.next_start {
            self.trailing_newline = Some(false);
            let span = LineSpan { start: self.next_start, end };
            self.complete_line_ranges.push(span);
            proof {
                self.lemma_eof_tail(*old(self), span);
            }
        } else {
            self.trailing_newline = Some(true);
            proof {
                self.lemma_eof_clean(*old(self));
            }
        }
    }

    fn top_screen_line_and_cursor(&self) -> (r: Option<(ScreenLine, Cursor)>) {
        proof {
            self.lemma_rows_before_mono(0, self.spec_num_lines());
        }
        if self.complete_line_ranges.len() == 0 {
            return None;
        }
        let screen_line = self.create_ref_to_start_of_line(0);
        proof {
            self.lemma_rows_before_mono(1, self.spec_num_lines());
            lemma_nseg_ge1(self.line_len(0), self.doc_width());
        }
        let cursor: Cursor = 0;
        Some((screen_line, cursor))
    }

    fn next_screen_line(&self, screen_line: &ScreenLine) -> (r: Option<ScreenLine>) {
        proof {
            self.lemma_row_block(*screen_line);
        }
        let num_lines = self.num_lines();
        let next_line_index = screen_line.line_index + 1;
        match &screen_line.segment_of_wrapped_line {
            None => {
                if next_line_index == num_lines {
                    None
                } else {
                    Some(self.create_ref_to_start_of_line(next_line_index))
                }
            },
            Some(segment_of_wrapped_line) => {
                match segment_of_wrapped_line.next_segment() {
                    Some(next_segment) => Some(
                        ScreenLine {
                            line_index: screen_line.line_index,
                            segment_of_wrapped_line: Some(next_segment),
                        },
                    ),
                    None => {
                        if next_line_index == num_lines {
                            None
                        } else {
                            Some(self.create_ref_to_start_of_line(next_line_index))
                        }
                    },
                }
            },
        }
    }

    fn prev_screen_line(&self, screen_line: &ScreenLine) -> (r: Option<ScreenLine>) {
        proof {
            self.lemma_row_block(*screen_line);
            if screen_line.spec_line_index() >= 1 {
                self.lemma_rows_before_mono(0, screen_line.spec_line_index() - 1);
            }
        }
        let prev_line_index = if screen_line.line_index >= 1 {
            screen_line.line_index - 1
        } else {
            0
        };
        match &screen_line.segment_of_wrapped_line {
            None => {
                if screen_line.line_index == 0 {
                    None
                } else {
                    Some(self.create_ref_to_end_of_line(prev_line_index))
                }
            },
            Some(segment_of_wrapped_line) => {
                match segment_of_wrapped_line.prev_segment() {
                    Some(prev_segment) => Some(
                        ScreenLine {
                            line_index: screen_line.line_index,
                            segment_of_wrapped_line: Some(prev_segment),
                        },
                    ),
                    None => {
                        if screen_line.line_index == 0 {
                            None
                        } else {
                            Some(self.create_ref_to_end_of_line(prev_line_index))
                        }
                    },
                }
            },
        }
    }

    fn line_number(&self, screen_line: &ScreenLine) -> (n: usize) {
        proof {
            assert(self.row_line_number(screen_line) == screen_line.spec_line_index() + 1);
        }
        let num_lines = self.num_lines();
        screen_line.line_index + 1
    }

    fn is_wrapped_line(&self, screen_line: &ScreenLine) -> (r: bool) {
        proof {
            assert(self.row_wrapped(screen_line) == (screen_line.spec_segment() is Some));
        }
        screen_line.segment_of_wrapped_line.is_some()
    }

    fn is_start_of_wrapped_line(&self, screen_line: &ScreenLine) -> (r: bool) {
        proof {
            assert(self.row_first_seg(screen_line) == (screen_line.spec_segment() is Some
                && screen_line.spec_seg_index() == 0));
        }
        match &screen_line.segment_of_wrapped_line {
            None => false,
            Some(seg) => seg.is_start(),
        }
    }

    fn is_end_of_wrapped_line(&self, screen_line: &ScreenLine) -> (r: bool) {
        match &screen_line.segment_of_wrapped_line {
            None => false,
            Some(seg) => seg.is_end(),
        }
    }

    fn is_after_start_of_wrapped_line(&self, screen_line: &ScreenLine) -> (r: bool) {
        match &screen_line.segment_of_wrapped_line {
            None => false,
            Some(seg) => seg.is_after_start(),
        }
    }

    fn is_before_end_of_wrapped_line(&self, screen_line: &ScreenLine) -> (r: bool) {
        match &screen_line.segment_of_wrapped_line {
            None => false,
            Some(seg) => seg.is_before_end(),
        }
    }

    fn clone_row(&self, row: &ScreenLine) -> (r: ScreenLine) {
        let segment_of_wrapped_line = match &row.segment_of_wrapped_line {
            None => None,
            Some(seg) => Some(seg.dup()),
        };
        ScreenLine { line_index: row.line_index, segment_of_wrapped_line }
    }

    fn row_le(&self, a: &ScreenLine, b: &ScreenLine) -> (r: bool) {
        proof {
            self.lemma_row_order(*a, *b);
        }
        if a.line_index != b.line_index {
            a.line_index < b.line_index
        } else {
            let ja = match &a.segment_of_wrapped_line {
                None => 0,
                Some(seg) => seg.index,
            };
            let jb = match &b.segment_of_wrapped_line {
                None => 0,
                Some(seg) => seg.index,
            };
            ja <= jb
        }
    }

    fn row_eq(&self, a: &ScreenLine, b: &ScreenLine) -> (r: bool) {
        proof {
            self.lemma_row_order(*a, *b);
        }
        if a.line_index != b.line_index {
            false
        } else {
            let ja = match &a.segment_of_wrapped_line {
                None => 0,
                Some(seg) => seg.index,
            };
            let jb = match &b.segment_of_wrapped_line {
                None => 0,
                Some(seg) => seg.index,
            };
            ja == jb
        }
    }

    fn cursor_range(&self, cursor: &Cursor) -> (r: CursorRange<ScreenLine>) {
        proof {
            lemma_nseg_ge1(self.line_len(*cursor as int), self.doc_width());
        }
        let start = self.create_ref_to_start_of_line(*cursor);
        let end = match &start.segment_of_wrapped_line {
            None => self.clone_row(&start),
            Some(segment_of_wrapped_line) => ScreenLine {
                line_index: start.line_index,
                segment_of_wrapped_line: Some(segment_of_wrapped_line.make_last()),
            },
        };
        let num_screen_lines = match &start.segment_of_wrapped_line {
            None => 1,
            Some(seg) => seg.break_points.len(),
        };
        CursorRange { start, end, num_screen_lines }
    }

    fn convert_screen_line_to_cursor(&self, screen_line: ScreenLine, _prev_cursor: &Cursor) -> (c:
        Cursor) {
        screen_line.line_index
    }

    fn move_cursor_down(&self, lines: usize, cursor: &Cursor) -> (r: Option<Cursor>) {
        let max_line = self.num_lines() - 1;
        if *cursor == max_line {
            None
        } else {
            if lines >= max_line - *cursor {
                Some(max_line)
            } else {
                Some(*cursor + lines)
            }
        }
    }

    fn move_cursor_up(&self, lines: usize, cursor: &Cursor) -> (r: Option<Cursor>) {
        if *cursor == 0 {
            None
        } else {
            if lines > *cursor {
                Some(0)
            } else {
                Some(*cursor - lines)
            }
        }
    }

    fn debug_text_content(&self, screen_line: &ScreenLine) -> (r: &[u8]) {
        self.screen_line_contents(screen_line)
    }
}



} // verus!
