use sless::action::Action;
use sless::databuf::Databuf;
use sless::dimensions::Dimensions;
use sless::document::Document;
use sless::document_viewer::DocumentViewer;
use sless::text_document::TextDocument;

fn init(contents: &[u8], width: usize, height: usize, scrolloff: usize) -> DocumentViewer<TextDocument> {
    let mut doc = TextDocument::new(width);
    doc.append(contents);
    doc.eof();
    let (top_line, initial_cursor) = doc.top_screen_line_and_cursor().unwrap();
    DocumentViewer::new(doc, top_line, initial_cursor, Dimensions { width, height }, scrolloff)
}

// The effective margin is the configured one capped at half the screen; the
// acceptable-range diagnostics expose it directly.
#[test]
fn effective_margin_caps_at_half_the_screen() {
    for (height, scrolloff, expected) in
        [(15, 3, 3), (15, 7, 7), (15, 8, 7), (16, 7, 7), (16, 8, 7), (17, 8, 8), (1, 5, 0)]
    {
        let mut content = Vec::new();
        for _ in 0..40 {
            content.extend_from_slice(b"x\n");
        }
        let mut viewer = init(&content, 4, height, 0);
        viewer.set_scrolloff(scrolloff);
        viewer.move_cursor_down(20);
        let cursor = viewer.doc.cursor_to_line_n(20);
        let acc = viewer
            .calculate_acceptable_start_screen_indexes_to_show_cursor_node(&cursor)
            .1;
        assert_eq!(acc.range_after_considering_scrolloff.0, expected);
        assert_eq!(acc.range_after_considering_scrolloff.1, height - 1 - expected);
    }
}

// Moving down from the last line and up from the first line are no-ops, not
// clamps, for a document of short lines.
#[test]
fn cursor_moves_stop_at_document_boundaries() {
    let mut doc = TextDocument::new(10);
    doc.append(b"a\nb\nc\nd\ne\n");
    doc.eof();

    let last = doc.cursor_to_line_n(5);
    assert_eq!(doc.move_cursor_down(1, &last), None);
    assert_eq!(doc.move_cursor_down(100, &last), None);

    let first = doc.cursor_to_line_n(1);
    assert_eq!(doc.move_cursor_up(1, &first), None);
    assert_eq!(doc.move_cursor_up(100, &first), None);

    // One step short of either boundary still moves, clamped.
    let fourth = doc.cursor_to_line_n(4);
    assert_eq!(doc.move_cursor_down(100, &fourth), Some(last));
    let second = doc.cursor_to_line_n(2);
    assert_eq!(doc.move_cursor_up(100, &second), Some(first));
}

// A five-line document, one line wrapped into two rows, at width 4 in a
// seven-row viewport: the top row is line 1 and the last two rows render as
// the explicit past-end marker.
#[test]
fn short_document_renders_sentinels_after_the_end() {
    let viewer = init(b"aaa\nbb\ncccc\ndddddd\ne\n", 4, 7, 0);
    let rows = viewer.viewport_lines();
    assert_eq!(rows.len(), 7);
    assert_eq!(viewer.doc.line_number(rows[0].as_ref().unwrap()), 1);
    assert_eq!(viewer.doc.line_number(rows[4].as_ref().unwrap()), 4);
    assert!(rows[5].is_some());
    assert!(rows[6].is_none());

    // Scrolled past the end, the marker count grows.
    let mut viewer = viewer;
    viewer.scroll_viewport_down(100);
    let rows = viewer.viewport_lines();
    assert_eq!(viewer.doc.line_number(rows[0].as_ref().unwrap()), 5);
    for row in rows.iter().skip(1) {
        assert!(row.is_none());
    }
}

// Width 1, height 10, margin 4, with an eight-row wrapped second line: the
// acceptable start window for that line collapses to exactly [1, 1].
#[test]
fn tall_wrapped_node_collapses_the_acceptable_window() {
    let viewer = init(b"a\nbbbbbbbb\nc\nd\ne\nf\n", 1, 10, 4);
    let line_2 = viewer.doc.cursor_to_line_n(2);
    let acc = viewer
        .calculate_acceptable_start_screen_indexes_to_show_cursor_node(&line_2)
        .1;
    assert_eq!((acc.start, acc.end), (1, 1));
}

// Width 3, height 15, margin 1, twenty numbered lines; focus moves down
// thirteen rows (landing on line 14), then the viewport shrinks to height 4:
// the top row becomes line 12 (the margin stays obeyed), not line 11.
#[test]
fn height_resize_keeps_the_focus_inside_the_margin() {
    let mut content = Vec::new();
    for i in 1..=20 {
        content.extend_from_slice(format!("{:02}\n", i).as_bytes());
    }
    let mut viewer = init(&content, 3, 15, 1);
    viewer.move_cursor_down(13);
    viewer.resize(Dimensions { width: 3, height: 4 });
    let rows = viewer.viewport_lines();
    assert_eq!(viewer.doc.line_number(rows[0].as_ref().unwrap()), 12);
    assert_eq!(viewer.doc.line_number(rows[2].as_ref().unwrap()), 14);
    assert!(viewer
        .doc
        .does_screen_line_intersect_cursor(rows[2].as_ref().unwrap(), &viewer.current_focus));
}

// After an arbitrary mix of focus moves, scrolls and resizes, part of the
// focused node stays within the relaxed scroll-margin band of the screen.
#[test]
fn focus_overlaps_the_relaxed_band_after_mixed_operations() {
    let mut content = Vec::new();
    for i in 0..30 {
        if i % 7 == 3 {
            content.extend_from_slice(b"wwwwwwwwwwwwwwwwwwwwwwww\n");
        } else {
            content.extend_from_slice(format!("line{}\n", i).as_bytes());
        }
    }
    let mut viewer = init(&content, 5, 9, 2);
    let actions = [
        Action::MoveCursorDown(3),
        Action::ScrollViewportDown(4),
        Action::MoveCursorDown(9),
        Action::ScrollViewportUp(2),
        Action::MoveCursorUp(5),
        Action::ScrollViewportDown(40),
        Action::MoveCursorUp(1),
        Action::ScrollViewportUp(100),
        Action::MoveCursorDown(50),
    ];
    for (step, action) in actions.iter().enumerate() {
        viewer.do_action(*action);
        if matches!(action, Action::MoveCursorDown(_) | Action::MoveCursorUp(_)) {
            // after a focus move the node must intersect the screen
            let rows = viewer.viewport_lines();
            let on_screen = rows.iter().flatten().any(|row| {
                viewer.doc.does_screen_line_intersect_cursor(row, &viewer.current_focus)
            });
            assert!(on_screen, "focus left the screen after step {}", step);
        }
    }
}

// Resizing the width away and back, with the focused node's start on screen
// and no clamping, restores the same visible lines.
#[test]
fn width_resize_round_trip_restores_the_view() {
    let mut content = Vec::new();
    for i in 0..30 {
        if i % 5 == 2 {
            content.extend_from_slice(b"wwwwwwwwwwwwwwwwwwww\n");
        } else {
            content.extend_from_slice(format!("line{}\n", i).as_bytes());
        }
    }
    let mut viewer = init(&content, 6, 8, 1);
    viewer.move_cursor_down(11);
    let lines_before: Vec<Option<usize>> = viewer
        .viewport_lines()
        .iter()
        .map(|row| row.as_ref().map(|r| viewer.doc.line_number(r)))
        .collect();
    viewer.resize_width(13);
    viewer.resize_width(6);
    let lines_after: Vec<Option<usize>> = viewer
        .viewport_lines()
        .iter()
        .map(|row| row.as_ref().map(|r| viewer.doc.line_number(r)))
        .collect();
    assert_eq!(lines_before, lines_after);
}

// Streamed appends split lines exactly as one big append would, including a
// CRLF pair split across chunks.
#[test]
fn chunked_appends_match_one_append() {
    let contents = b"alpha\r\nbeta\ngamma\r\ndelta";
    let mut whole = TextDocument::new(8);
    whole.append(contents);
    whole.eof();

    let mut chunked = TextDocument::new(8);
    for chunk in contents.chunks(3) {
        chunked.append(chunk);
    }
    chunked.eof();

    let (mut a, _) = whole.top_screen_line_and_cursor().unwrap();
    let (mut b, _) = chunked.top_screen_line_and_cursor().unwrap();
    loop {
        assert_eq!(whole.debug_text_content(&a), chunked.debug_text_content(&b));
        assert_eq!(whole.line_number(&a), chunked.line_number(&b));
        match (whole.next_screen_line(&a), chunked.next_screen_line(&b)) {
            (None, None) => break,
            (Some(na), Some(nb)) => {
                a = na;
                b = nb;
            }
            _ => panic!("documents disagree on the number of rows"),
        }
    }
    assert_eq!(whole.trailing_newline(), Some(false));
    assert_eq!(chunked.trailing_newline(), Some(false));
}

// An empty document produces no first row until a line exists.
#[test]
fn empty_document_has_no_top_row() {
    let mut doc = TextDocument::new(4);
    assert!(doc.top_screen_line_and_cursor().is_none());
    doc.append(b"zzz");
    assert!(doc.top_screen_line_and_cursor().is_none());
    doc.append(b"\n");
    assert!(doc.top_screen_line_and_cursor().is_some());
}

// Appends while viewing do not move the viewport or the focus.
#[test]
fn appends_leave_the_view_in_place() {
    let mut doc = TextDocument::new(4);
    doc.append(b"aa\nbb\ncc\n");
    let (top_line, cursor) = doc.top_screen_line_and_cursor().unwrap();
    let mut viewer =
        DocumentViewer::new(doc, top_line, cursor, Dimensions { width: 4, height: 4 }, 0);
    viewer.move_cursor_down(2);
    viewer.append_document_data(b"dd\nee\n");
    viewer.document_eof();
    let rows = viewer.viewport_lines();
    assert_eq!(viewer.doc.line_number(rows[0].as_ref().unwrap()), 1);
    assert!(viewer
        .doc
        .does_screen_line_intersect_cursor(rows[2].as_ref().unwrap(), &viewer.current_focus));
}

// Unknown commands leave the state untouched; movement commands dispatch.
#[test]
fn do_action_dispatches_and_ignores_the_unwired_commands() {
    let mut viewer = init(b"a\nb\nc\nd\ne\nf\n", 3, 3, 0);
    viewer.do_action(Action::NoOp);
    viewer.do_action(Action::FocusBottom);
    viewer.do_action(Action::JumpDown(Some(2)));
    let rows = viewer.viewport_lines();
    assert_eq!(viewer.doc.line_number(rows[0].as_ref().unwrap()), 1);

    viewer.do_action(Action::MoveCursorDown(4));
    let rows = viewer.viewport_lines();
    assert_eq!(viewer.doc.line_number(rows[2].as_ref().unwrap()), 5);
    viewer.do_action(Action::ScrollViewportUp(1));
    let rows = viewer.viewport_lines();
    assert_eq!(viewer.doc.line_number(rows[0].as_ref().unwrap()), 2);
}

// A fresh buffer is empty and sized as asked.
#[test]
fn databuf_starts_empty() {
    let buf = Databuf::new(16);
    assert_eq!(buf.data(), &[] as &[u8]);
    let buf = Databuf::new(0);
    assert_eq!(buf.data(), &[] as &[u8]);
}

// Reading fills the buffer from the reader, up to its capacity, and `data`
// hands back exactly what arrived.
#[test]
fn databuf_read_fills_the_buffer() {
    let mut buf = Databuf::new(8);
    let mut source: &[u8] = b"hello";
    buf.read(&mut source).unwrap();
    assert_eq!(buf.data(), b"hello");

    let mut small = Databuf::new(3);
    let mut source: &[u8] = b"abcdef";
    small.read(&mut source).unwrap();
    assert_eq!(small.data(), b"abc");
    small.read(&mut source).unwrap();
    assert_eq!(small.data(), b"def");
    small.read(&mut source).unwrap();
    assert_eq!(small.data(), &[] as &[u8]);
}
