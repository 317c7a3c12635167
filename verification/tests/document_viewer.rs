use sless::dimensions::Dimensions;
use sless::document::Document;
use sless::document_viewer::DocumentViewer;
use sless::text_document::{Cursor, TextDocument};

fn init(contents: &[u8], width: usize, height: usize, scrolloff: usize) -> DocumentViewer<TextDocument> {
    let mut doc = TextDocument::new(width);
    doc.append(contents);
    doc.eof();

    let (top_line, initial_cursor) = doc.top_screen_line_and_cursor().unwrap();
    let dimensions = Dimensions { width, height };
    DocumentViewer::new(doc, top_line, initial_cursor, dimensions, scrolloff)
}

fn render(viewer: &DocumentViewer<TextDocument>) -> String {
    let content_width = viewer.dimensions.width;
    let mut s = String::new();
    s.push_str(&format!("┌SI┬─L#┬─{:─<content_width$}─┐\n", ""));
    for (screen_index, screen_line) in viewer.viewport_lines().into_iter().enumerate() {
        let Some(screen_line) = screen_line else {
            s.push_str(&format!("│{:>2}│ ~ │ {: <content_width$} │\n", screen_index, ""));
            continue;
        };

        let is_focused = viewer
            .doc
            .does_screen_line_intersect_cursor(&screen_line, &viewer.current_focus);
        let line_number = viewer.doc.line_number(&screen_line);
        let wraps_from_prev_line = viewer.doc.is_after_start_of_wrapped_line(&screen_line);
        let wraps_onto_next_line = viewer.doc.is_before_end_of_wrapped_line(&screen_line);
        let contents =
            String::from_utf8(viewer.doc.debug_text_content(&screen_line).to_vec()).unwrap();

        s.push_str(&format!(
            "│{:>2}│{}{:<2}│{}{: <content_width$}{}│\n",
            screen_index,
            if is_focused { '*' } else { ' ' },
            line_number,
            if wraps_from_prev_line { '↪' } else { ' ' },
            contents,
            if wraps_onto_next_line { '↩' } else { ' ' },
        ));
    }
    s.push_str(&format!("└──┴───┴─{:─<content_width$}─┘\n", ""));
    s
}

fn frame(lines: &[&str]) -> String {
    let mut s = String::new();
    for line in lines {
        s.push_str(line);
        s.push('\n');
    }
    s
}

#[test]
fn document_viewer_test_render() {
    let viewer = init(b"aaa\nbb\ncccc\ndddddd\ne\n", 4, 7, 0);
    assert_eq!(
        render(&viewer),
        frame(&[
            "┌SI┬─L#┬──────┐",
            "│ 0│*1 │ aaa  │",
            "│ 1│ 2 │ bb   │",
            "│ 2│ 3 │ cccc │",
            "│ 3│ 4 │ dddd↩│",
            "│ 4│ 4 │↪dd   │",
            "│ 5│ 5 │ e    │",
            "│ 6│ ~ │      │",
            "└──┴───┴──────┘",
        ])
    );
}

struct Acceptable {
    cursor_height: usize,
    last_screen_index: usize,
    range_after_considering_scrolloff: (usize, usize),
    range_after_considering_start_and_end_of_document: (usize, usize),
    range_after_expanding_due_to_cursor_height: (usize, usize),
    start: usize,
    end: usize,
}

fn acceptable_screen_indexes(viewer: &DocumentViewer<TextDocument>, cursor: &Cursor) -> Acceptable {
    let acc = viewer
        .calculate_acceptable_start_screen_indexes_to_show_cursor_node(cursor)
        .1;
    Acceptable {
        cursor_height: acc.cursor_height,
        last_screen_index: acc.last_screen_index,
        range_after_considering_scrolloff: acc.range_after_considering_scrolloff,
        range_after_considering_start_and_end_of_document: acc
            .range_after_considering_start_and_end_of_document,
        range_after_expanding_due_to_cursor_height: acc.range_after_expanding_due_to_cursor_height,
        start: acc.start,
        end: acc.end,
    }
}

#[test]
fn document_viewer_test_acceptable_start_screen_indexes() {
    let mut viewer = init(b"a\nbbbb\nc\nd\ne\nf\ng\n", 1, 10, 0);
    assert_eq!(
        render(&viewer),
        frame(&[
            "┌SI┬─L#┬───┐",
            "│ 0│*1 │ a │",
            "│ 1│ 2 │ b↩│",
            "│ 2│ 2 │↪b↩│",
            "│ 3│ 2 │↪b↩│",
            "│ 4│ 2 │↪b │",
            "│ 5│ 3 │ c │",
            "│ 6│ 4 │ d │",
            "│ 7│ 5 │ e │",
            "│ 8│ 6 │ f │",
            "│ 9│ 7 │ g │",
            "└──┴───┴───┘",
        ])
    );

    let line_2 = viewer.doc.cursor_to_line_n(2);
    let acc = acceptable_screen_indexes(&viewer, &line_2);
    assert_eq!(acc.cursor_height, 4);
    assert_eq!(acc.last_screen_index, 9);
    assert_eq!(acc.range_after_considering_scrolloff, (0, 9));
    assert_eq!(acc.range_after_considering_start_and_end_of_document, (0, 9));
    assert_eq!(acc.range_after_expanding_due_to_cursor_height, (0, 9));
    assert_eq!(acc.start, 0);
    assert_eq!(acc.end, 6);

    viewer.set_scrolloff(3);
    let acc = acceptable_screen_indexes(&viewer, &line_2);
    assert_eq!(acc.cursor_height, 4);
    assert_eq!(acc.last_screen_index, 9);
    assert_eq!(acc.range_after_considering_scrolloff, (3, 6));
    assert_eq!(acc.range_after_considering_start_and_end_of_document, (1, 6));
    assert_eq!(acc.range_after_expanding_due_to_cursor_height, (1, 6));
    assert_eq!(acc.start, 1);
    assert_eq!(acc.end, 3);

    // A file whose second line is 8 rows tall, with scrolloff 4.
    let viewer = init(b"a\nbbbbbbbb\nc\nd\ne\nf\n", 1, 10, 4);
    assert_eq!(
        render(&viewer),
        frame(&[
            "┌SI┬─L#┬───┐",
            "│ 0│*1 │ a │",
            "│ 1│ 2 │ b↩│",
            "│ 2│ 2 │↪b↩│",
            "│ 3│ 2 │↪b↩│",
            "│ 4│ 2 │↪b↩│",
            "│ 5│ 2 │↪b↩│",
            "│ 6│ 2 │↪b↩│",
            "│ 7│ 2 │↪b↩│",
            "│ 8│ 2 │↪b │",
            "│ 9│ 3 │ c │",
            "└──┴───┴───┘",
        ])
    );

    let line_2 = viewer.doc.cursor_to_line_n(2);
    let acc = acceptable_screen_indexes(&viewer, &line_2);
    assert_eq!(acc.cursor_height, 8);
    assert_eq!(acc.last_screen_index, 9);
    assert_eq!(acc.range_after_considering_scrolloff, (4, 5));
    assert_eq!(acc.range_after_considering_start_and_end_of_document, (1, 5));
    assert_eq!(acc.range_after_expanding_due_to_cursor_height, (1, 8));
    assert_eq!(acc.start, 1);
    assert_eq!(acc.end, 1);
}

#[test]
fn document_viewer_test_acceptable_start_screen_indexes_when_focused_node_bigger_than_viewport() {
    // Odd height
    for (input, height) in [("a\nb\nc\nddd\nc\nd\ne", 3), ("a\nb\nc\ndddd\nc\nd\ne", 4)].iter() {
        let viewer = init(input.as_bytes(), 1, 3, 0);
        assert_eq!(
            render(&viewer),
            frame(&[
                "┌SI┬─L#┬───┐",
                "│ 0│*1 │ a │",
                "│ 1│ 2 │ b │",
                "│ 2│ 3 │ c │",
                "└──┴───┴───┘",
            ])
        );

        let line_4 = viewer.doc.cursor_to_line_n(4);
        let acc = acceptable_screen_indexes(&viewer, &line_4);
        assert_eq!(acc.cursor_height, *height);
        assert_eq!(acc.last_screen_index, 2);
        assert_eq!(acc.range_after_considering_scrolloff, (0, 2));
        assert_eq!(acc.range_after_considering_start_and_end_of_document, (0, 2));
        assert_eq!(acc.range_after_expanding_due_to_cursor_height, (0, 2));
        assert_eq!(acc.start, 0);
        assert_eq!(acc.end, 0);
    }

    // Even height
    for (input, height) in [("a\nb\nc\nddddd\nc\nd\ne", 5), ("a\nb\nc\ndddd\nc\nd\ne", 4)].iter() {
        let viewer = init(input.as_bytes(), 1, 4, 0);
        assert_eq!(
            render(&viewer),
            frame(&[
                "┌SI┬─L#┬───┐",
                "│ 0│*1 │ a │",
                "│ 1│ 2 │ b │",
                "│ 2│ 3 │ c │",
                "│ 3│ 4 │ d↩│",
                "└──┴───┴───┘",
            ])
        );

        let line_4 = viewer.doc.cursor_to_line_n(4);
        let acc = acceptable_screen_indexes(&viewer, &line_4);
        assert_eq!(acc.cursor_height, *height);
        assert_eq!(acc.last_screen_index, 3);
        assert_eq!(acc.range_after_considering_scrolloff, (0, 3));
        assert_eq!(acc.range_after_considering_start_and_end_of_document, (0, 3));
        assert_eq!(acc.range_after_expanding_due_to_cursor_height, (0, 3));
        assert_eq!(acc.start, 0);
        assert_eq!(acc.end, 0);
    }
}

#[test]
fn document_viewer_test_move_cursor_up_and_down() {
    let mut viewer = init(b"aaa\nbb\ncccc\ndddddd\ne\n", 4, 7, 0);
    assert_eq!(
        render(&viewer),
        frame(&[
            "┌SI┬─L#┬──────┐",
            "│ 0│*1 │ aaa  │",
            "│ 1│ 2 │ bb   │",
            "│ 2│ 3 │ cccc │",
            "│ 3│ 4 │ dddd↩│",
            "│ 4│ 4 │↪dd   │",
            "│ 5│ 5 │ e    │",
            "│ 6│ ~ │      │",
            "└──┴───┴──────┘",
        ])
    );

    viewer.move_cursor_down(1);
    assert_eq!(
        render(&viewer),
        frame(&[
            "┌SI┬─L#┬──────┐",
            "│ 0│ 1 │ aaa  │",
            "│ 1│*2 │ bb   │",
            "│ 2│ 3 │ cccc │",
            "│ 3│ 4 │ dddd↩│",
            "│ 4│ 4 │↪dd   │",
            "│ 5│ 5 │ e    │",
            "│ 6│ ~ │      │",
            "└──┴───┴──────┘",
        ])
    );

    viewer.move_cursor_down(3);
    assert_eq!(
        render(&viewer),
        frame(&[
            "┌SI┬─L#┬──────┐",
            "│ 0│ 1 │ aaa  │",
            "│ 1│ 2 │ bb   │",
            "│ 2│ 3 │ cccc │",
            "│ 3│ 4 │ dddd↩│",
            "│ 4│ 4 │↪dd   │",
            "│ 5│*5 │ e    │",
            "│ 6│ ~ │      │",
            "└──┴───┴──────┘",
        ])
    );

    viewer.move_cursor_up(1);
    assert_eq!(
        render(&viewer),
        frame(&[
            "┌SI┬─L#┬──────┐",
            "│ 0│ 1 │ aaa  │",
            "│ 1│ 2 │ bb   │",
            "│ 2│ 3 │ cccc │",
            "│ 3│*4 │ dddd↩│",
            "│ 4│*4 │↪dd   │",
            "│ 5│ 5 │ e    │",
            "│ 6│ ~ │      │",
            "└──┴───┴──────┘",
        ])
    );

    viewer.move_cursor_up(10);
    assert_eq!(
        render(&viewer),
        frame(&[
            "┌SI┬─L#┬──────┐",
            "│ 0│*1 │ aaa  │",
            "│ 1│ 2 │ bb   │",
            "│ 2│ 3 │ cccc │",
            "│ 3│ 4 │ dddd↩│",
            "│ 4│ 4 │↪dd   │",
            "│ 5│ 5 │ e    │",
            "│ 6│ ~ │      │",
            "└──┴───┴──────┘",
        ])
    );
}

#[test]
fn document_viewer_test_move_cursor_up_and_down_and_move_viewport() {
    let mut viewer = init(b"aaa\nbb\ncccc\ndddddd\neeeeeee\nff\nggggg\nhh\ni\n", 4, 5, 1);
    assert_eq!(
        render(&viewer),
        frame(&[
            "┌SI┬─L#┬──────┐",
            "│ 0│*1 │ aaa  │",
            "│ 1│ 2 │ bb   │",
            "│ 2│ 3 │ cccc │",
            "│ 3│ 4 │ dddd↩│",
            "│ 4│ 4 │↪dd   │",
            "└──┴───┴──────┘",
        ])
    );

    viewer.move_cursor_down(1);
    assert_eq!(
        render(&viewer),
        frame(&[
            "┌SI┬─L#┬──────┐",
            "│ 0│ 1 │ aaa  │",
            "│ 1│*2 │ bb   │",
            "│ 2│ 3 │ cccc │",
            "│ 3│ 4 │ dddd↩│",
            "│ 4│ 4 │↪dd   │",
            "└──┴───┴──────┘",
        ])
    );

    viewer.move_cursor_down(2);
    assert_eq!(
        render(&viewer),
        frame(&[
            "┌SI┬─L#┬──────┐",
            "│ 0│ 2 │ bb   │",
            "│ 1│ 3 │ cccc │",
            "│ 2│*4 │ dddd↩│",
            "│ 3│*4 │↪dd   │",
            "│ 4│ 5 │ eeee↩│",
            "└──┴───┴──────┘",
        ])
    );

    viewer.move_cursor_down(1);
    assert_eq!(
        render(&viewer),
        frame(&[
            "┌SI┬─L#┬──────┐",
            "│ 0│ 4 │ dddd↩│",
            "│ 1│ 4 │↪dd   │",
            "│ 2│*5 │ eeee↩│",
            "│ 3│*5 │↪eee  │",
            "│ 4│ 6 │ ff   │",
            "└──┴───┴──────┘",
        ])
    );

    viewer.move_cursor_up(1);
    assert_eq!(
        render(&viewer),
        frame(&[
            "┌SI┬─L#┬──────┐",
            "│ 0│ 3 │ cccc │",
            "│ 1│*4 │ dddd↩│",
            "│ 2│*4 │↪dd   │",
            "│ 3│ 5 │ eeee↩│",
            "│ 4│ 5 │↪eee  │",
            "└──┴───┴──────┘",
        ])
    );

    viewer.move_cursor_down(100);
    assert_eq!(
        render(&viewer),
        frame(&[
            "┌SI┬─L#┬──────┐",
            "│ 0│ 6 │ ff   │",
            "│ 1│ 7 │ gggg↩│",
            "│ 2│ 7 │↪g    │",
            "│ 3│ 8 │ hh   │",
            "│ 4│*9 │ i    │",
            "└──┴───┴──────┘",
        ])
    );
}

#[test]
fn document_viewer_test_scroll_up_and_down() {
    let mut viewer = init(b"aaa\nbb\ncccc\ndddddd\neeeeeee\nff\nggggg\nhh\ni\n", 4, 5, 1);
    assert_eq!(
        render(&viewer),
        frame(&[
            "┌SI┬─L#┬──────┐",
            "│ 0│*1 │ aaa  │",
            "│ 1│ 2 │ bb   │",
            "│ 2│ 3 │ cccc │",
            "│ 3│ 4 │ dddd↩│",
            "│ 4│ 4 │↪dd   │",
            "└──┴───┴──────┘",
        ])
    );

    viewer.scroll_viewport_down(1);
    assert_eq!(
        render(&viewer),
        frame(&[
            "┌SI┬─L#┬──────┐",
            "│ 0│ 2 │ bb   │",
            "│ 1│*3 │ cccc │",
            "│ 2│ 4 │ dddd↩│",
            "│ 3│ 4 │↪dd   │",
            "│ 4│ 5 │ eeee↩│",
            "└──┴───┴──────┘",
        ])
    );

    viewer.scroll_viewport_down(1);
    assert_eq!(
        render(&viewer),
        frame(&[
            "┌SI┬─L#┬──────┐",
            "│ 0│ 3 │ cccc │",
            "│ 1│*4 │ dddd↩│",
            "│ 2│*4 │↪dd   │",
            "│ 3│ 5 │ eeee↩│",
            "│ 4│ 5 │↪eee  │",
            "└──┴───┴──────┘",
        ])
    );

    viewer.scroll_viewport_down(1);
    assert_eq!(
        render(&viewer),
        frame(&[
            "┌SI┬─L#┬──────┐",
            "│ 0│*4 │ dddd↩│",
            "│ 1│*4 │↪dd   │",
            "│ 2│ 5 │ eeee↩│",
            "│ 3│ 5 │↪eee  │",
            "│ 4│ 6 │ ff   │",
            "└──┴───┴──────┘",
        ])
    );

    viewer.scroll_viewport_down(1);
    assert_eq!(
        render(&viewer),
        frame(&[
            "┌SI┬─L#┬──────┐",
            "│ 0│ 4 │↪dd   │",
            "│ 1│*5 │ eeee↩│",
            "│ 2│*5 │↪eee  │",
            "│ 3│ 6 │ ff   │",
            "│ 4│ 7 │ gggg↩│",
            "└──┴───┴──────┘",
        ])
    );

    viewer.scroll_viewport_down(10);
    assert_eq!(
        render(&viewer),
        frame(&[
            "┌SI┬─L#┬──────┐",
            "│ 0│*9 │ i    │",
            "│ 1│ ~ │      │",
            "│ 2│ ~ │      │",
            "│ 3│ ~ │      │",
            "│ 4│ ~ │      │",
            "└──┴───┴──────┘",
        ])
    );

    viewer.scroll_viewport_up(4);
    assert_eq!(
        render(&viewer),
        frame(&[
            "┌SI┬─L#┬──────┐",
            "│ 0│ 6 │ ff   │",
            "│ 1│ 7 │ gggg↩│",
            "│ 2│ 7 │↪g    │",
            "│ 3│*8 │ hh   │",
            "│ 4│ 9 │ i    │",
            "└──┴───┴──────┘",
        ])
    );

    viewer.scroll_viewport_up(1);
    assert_eq!(
        render(&viewer),
        frame(&[
            "┌SI┬─L#┬──────┐",
            "│ 0│ 5 │↪eee  │",
            "│ 1│ 6 │ ff   │",
            "│ 2│*7 │ gggg↩│",
            "│ 3│*7 │↪g    │",
            "│ 4│ 8 │ hh   │",
            "└──┴───┴──────┘",
        ])
    );

    viewer.scroll_viewport_up(1);
    assert_eq!(
        render(&viewer),
        frame(&[
            "┌SI┬─L#┬──────┐",
            "│ 0│ 5 │ eeee↩│",
            "│ 1│ 5 │↪eee  │",
            "│ 2│ 6 │ ff   │",
            "│ 3│*7 │ gggg↩│",
            "│ 4│*7 │↪g    │",
            "└──┴───┴──────┘",
        ])
    );

    viewer.scroll_viewport_up(1);
    assert_eq!(
        render(&viewer),
        frame(&[
            "┌SI┬─L#┬──────┐",
            "│ 0│ 4 │↪dd   │",
            "│ 1│ 5 │ eeee↩│",
            "│ 2│ 5 │↪eee  │",
            "│ 3│*6 │ ff   │",
            "│ 4│ 7 │ gggg↩│",
            "└──┴───┴──────┘",
        ])
    );

    viewer.scroll_viewport_up(10);
    assert_eq!(
        render(&viewer),
        frame(&[
            "┌SI┬─L#┬──────┐",
            "│ 0│ 1 │ aaa  │",
            "│ 1│ 2 │ bb   │",
            "│ 2│ 3 │ cccc │",
            "│ 3│*4 │ dddd↩│",
            "│ 4│*4 │↪dd   │",
            "└──┴───┴──────┘",
        ])
    );
}

#[test]
fn document_viewer_test_scrolling_with_very_long_line() {
    let mut viewer = init(b"a\nb\nc1c2c3c4c5c6c7c8\nd\ne\n", 2, 4, 1);
    assert_eq!(
        render(&viewer),
        frame(&[
            "┌SI┬─L#┬────┐",
            "│ 0│*1 │ a  │",
            "│ 1│ 2 │ b  │",
            "│ 2│ 3 │ c1↩│",
            "│ 3│ 3 │↪c2↩│",
            "└──┴───┴────┘",
        ])
    );

    viewer.scroll_viewport_down(2);
    assert_eq!(
        render(&viewer),
        frame(&[
            "┌SI┬─L#┬────┐",
            "│ 0│*3 │ c1↩│",
            "│ 1│*3 │↪c2↩│",
            "│ 2│*3 │↪c3↩│",
            "│ 3│*3 │↪c4↩│",
            "└──┴───┴────┘",
        ])
    );

    viewer.scroll_viewport_down(4);
    assert_eq!(
        render(&viewer),
        frame(&[
            "┌SI┬─L#┬────┐",
            "│ 0│*3 │↪c5↩│",
            "│ 1│*3 │↪c6↩│",
            "│ 2│*3 │↪c7↩│",
            "│ 3│*3 │↪c8 │",
            "└──┴───┴────┘",
        ])
    );

    viewer.scroll_viewport_down(2);
    assert_eq!(
        render(&viewer),
        frame(&[
            "┌SI┬─L#┬────┐",
            "│ 0│*3 │↪c7↩│",
            "│ 1│*3 │↪c8 │",
            "│ 2│ 4 │ d  │",
            "│ 3│ 5 │ e  │",
            "└──┴───┴────┘",
        ])
    );

    viewer.scroll_viewport_down(1);
    assert_eq!(
        render(&viewer),
        frame(&[
            "┌SI┬─L#┬────┐",
            "│ 0│ 3 │↪c8 │",
            "│ 1│*4 │ d  │",
            "│ 2│ 5 │ e  │",
            "│ 3│ ~ │    │",
            "└──┴───┴────┘",
        ])
    );

    viewer.scroll_viewport_up(2);
    assert_eq!(
        render(&viewer),
        frame(&[
            "┌SI┬─L#┬────┐",
            "│ 0│*3 │↪c6↩│",
            "│ 1│*3 │↪c7↩│",
            "│ 2│*3 │↪c8 │",
            "│ 3│ 4 │ d  │",
            "└──┴───┴────┘",
        ])
    );

    viewer.scroll_viewport_up(7);
    assert_eq!(
        render(&viewer),
        frame(&[
            "┌SI┬─L#┬────┐",
            "│ 0│ 1 │ a  │",
            "│ 1│ 2 │ b  │",
            "│ 2│*3 │ c1↩│",
            "│ 3│*3 │↪c2↩│",
            "└──┴───┴────┘",
        ])
    );
}

#[test]
fn test_resize_width() {
    let text =
        b"a\nb\nc\nd\n1eeee2eeee3eeee4e!ee5eeee6eeee7eeee8eeee9eeee0eeee\nf\ng\nh\ni\n";
    let mut viewer = init(text, 5, 5, 0);
    viewer.move_cursor_down(4);
    assert_eq!(
        render(&viewer),
        frame(&[
            "┌SI┬─L#┬───────┐",
            "│ 0│*5 │ 1eeee↩│",
            "│ 1│*5 │↪2eeee↩│",
            "│ 2│*5 │↪3eeee↩│",
            "│ 3│*5 │↪4e!ee↩│",
            "│ 4│*5 │↪5eeee↩│",
            "└──┴───┴───────┘",
        ])
    );
    viewer.scroll_viewport_down(6);
    assert_eq!(
        render(&viewer),
        frame(&[
            "┌SI┬─L#┬───────┐",
            "│ 0│*5 │↪7eeee↩│",
            "│ 1│*5 │↪8eeee↩│",
            "│ 2│*5 │↪9eeee↩│",
            "│ 3│*5 │↪0eeee │",
            "│ 4│ 6 │ f     │",
            "└──┴───┴───────┘",
        ])
    );

    // start AboveTopLine, end AtScreenIndex case, keep end of cursor in same spot
    viewer.resize_width(25);
    assert_eq!(
        render(&viewer),
        frame(&[
            "┌SI┬─L#┬───────────────────────────┐",
            "│ 0│ 3 │ c                         │",
            "│ 1│ 4 │ d                         │",
            "│ 2│*5 │ 1eeee2eeee3eeee4e!ee5eeee↩│",
            "│ 3│*5 │↪6eeee7eeee8eeee9eeee0eeee │",
            "│ 4│ 6 │ f                         │",
            "└──┴───┴───────────────────────────┘",
        ])
    );

    // start AtScreenIndex case, keep start of cursor in same spot
    viewer.resize_width(5);
    assert_eq!(
        render(&viewer),
        frame(&[
            "┌SI┬─L#┬───────┐",
            "│ 0│ 3 │ c     │",
            "│ 1│ 4 │ d     │",
            "│ 2│*5 │ 1eeee↩│",
            "│ 3│*5 │↪2eeee↩│",
            "│ 4│*5 │↪3eeee↩│",
            "└──┴───┴───────┘",
        ])
    );

    viewer.scroll_viewport_down(3);
    assert_eq!(
        render(&viewer),
        frame(&[
            "┌SI┬─L#┬───────┐",
            "│ 0│*5 │↪2eeee↩│",
            "│ 1│*5 │↪3eeee↩│",
            "│ 2│*5 │↪4e!ee↩│",
            "│ 3│*5 │↪5eeee↩│",
            "│ 4│*5 │↪6eeee↩│",
            "└──┴───┴───────┘",
        ])
    );

    // Now we're showing chars 6-30 on screen, so char 18 out of 50 is in the middle, aka 36th
    // percentile. If we make the screen 2 chars wide, we should see that in the middle of the
    // screen.
    viewer.resize_width(2);
    assert_eq!(
        render(&viewer),
        frame(&[
            "┌SI┬─L#┬────┐",
            "│ 0│*5 │↪ee↩│",
            "│ 1│*5 │↪e4↩│",
            "│ 2│*5 │↪e!↩│",
            "│ 3│*5 │↪ee↩│",
            "│ 4│*5 │↪5e↩│",
            "└──┴───┴────┘",
        ])
    );

    viewer.resize_width(3);
    assert_eq!(
        render(&viewer),
        frame(&[
            "┌SI┬─L#┬─────┐",
            "│ 0│*5 │↪e3e↩│",
            "│ 1│*5 │↪eee↩│",
            "│ 2│*5 │↪4e!↩│",
            "│ 3│*5 │↪ee5↩│",
            "│ 4│*5 │↪eee↩│",
            "└──┴───┴─────┘",
        ])
    );

    viewer.resize_width(4);
    assert_eq!(
        render(&viewer),
        frame(&[
            "┌SI┬─L#┬──────┐",
            "│ 0│*5 │↪ee3e↩│",
            "│ 1│*5 │↪eee4↩│",
            "│ 2│*5 │↪e!ee↩│",
            "│ 3│*5 │↪5eee↩│",
            "│ 4│*5 │↪e6ee↩│",
            "└──┴───┴──────┘",
        ])
    );

    viewer.resize_width(5);
    assert_eq!(
        render(&viewer),
        frame(&[
            "┌SI┬─L#┬───────┐",
            "│ 0│*5 │↪2eeee↩│",
            "│ 1│*5 │↪3eeee↩│",
            "│ 2│*5 │↪4e!ee↩│",
            "│ 3│*5 │↪5eeee↩│",
            "│ 4│*5 │↪6eeee↩│",
            "└──┴───┴───────┘",
        ])
    );

    // Guess there's a slight off-by-one here, but seems fine.
    viewer.resize_width(6);
    assert_eq!(
        render(&viewer),
        frame(&[
            "┌SI┬─L#┬────────┐",
            "│ 0│*5 │↪eeee3e↩│",
            "│ 1│*5 │↪eee4e!↩│",
            "│ 2│*5 │↪ee5eee↩│",
            "│ 3│*5 │↪e6eeee↩│",
            "│ 4│*5 │↪7eeee8↩│",
            "└──┴───┴────────┘",
        ])
    );
}

#[test]
fn test_resize_height() {
    let text = b"a\nb\nc\nd\n1ee2ee3ee4ee5ee6ee7ee8ee9ee0ee\nf\ng\nh\ni\n";
    let mut viewer = init(text, 3, 5, 0);
    viewer.move_cursor_down(4);
    viewer.scroll_viewport_up(1);
    assert_eq!(
        render(&viewer),
        frame(&[
            "┌SI┬─L#┬─────┐",
            "│ 0│ 4 │ d   │",
            "│ 1│*5 │ 1ee↩│",
            "│ 2│*5 │↪2ee↩│",
            "│ 3│*5 │↪3ee↩│",
            "│ 4│*5 │↪4ee↩│",
            "└──┴───┴─────┘",
        ])
    );

    viewer.resize_height(10);
    assert_eq!(
        render(&viewer),
        frame(&[
            "┌SI┬─L#┬─────┐",
            "│ 0│ 3 │ c   │",
            "│ 1│ 4 │ d   │",
            "│ 2│*5 │ 1ee↩│",
            "│ 3│*5 │↪2ee↩│",
            "│ 4│*5 │↪3ee↩│",
            "│ 5│*5 │↪4ee↩│",
            "│ 6│*5 │↪5ee↩│",
            "│ 7│*5 │↪6ee↩│",
            "│ 8│*5 │↪7ee↩│",
            "│ 9│*5 │↪8ee↩│",
            "└──┴───┴─────┘",
        ])
    );

    let mut viewer = init(text, 3, 5, 0);
    viewer.move_cursor_down(4);
    viewer.scroll_viewport_down(8);
    assert_eq!(
        render(&viewer),
        frame(&[
            "┌SI┬─L#┬─────┐",
            "│ 0│*5 │↪9ee↩│",
            "│ 1│*5 │↪0ee │",
            "│ 2│ 6 │ f   │",
            "│ 3│ 7 │ g   │",
            "│ 4│ 8 │ h   │",
            "└──┴───┴─────┘",
        ])
    );

    viewer.resize_height(10);
    assert_eq!(
        render(&viewer),
        frame(&[
            "┌SI┬─L#┬─────┐",
            "│ 0│*5 │↪8ee↩│",
            "│ 1│*5 │↪9ee↩│",
            "│ 2│*5 │↪0ee │",
            "│ 3│ 6 │ f   │",
            "│ 4│ 7 │ g   │",
            "│ 5│ 8 │ h   │",
            "│ 6│ 9 │ i   │",
            "│ 7│ ~ │     │",
            "│ 8│ ~ │     │",
            "│ 9│ ~ │     │",
            "└──┴───┴─────┘",
        ])
    );

    let mut viewer = init(text, 3, 5, 0);
    viewer.move_cursor_down(4);
    viewer.scroll_viewport_down(1);
    assert_eq!(
        render(&viewer),
        frame(&[
            "┌SI┬─L#┬─────┐",
            "│ 0│*5 │↪2ee↩│",
            "│ 1│*5 │↪3ee↩│",
            "│ 2│*5 │↪4ee↩│",
            "│ 3│*5 │↪5ee↩│",
            "│ 4│*5 │↪6ee↩│",
            "└──┴───┴─────┘",
        ])
    );
    viewer.resize_height(3);
    assert_eq!(
        render(&viewer),
        frame(&[
            "┌SI┬─L#┬─────┐",
            "│ 0│*5 │↪3ee↩│",
            "│ 1│*5 │↪4ee↩│",
            "│ 2│*5 │↪5ee↩│",
            "└──┴───┴─────┘",
        ])
    );

    let mut viewer = init(text, 10, 5, 0);
    viewer.move_cursor_down(4);
    viewer.scroll_viewport_down(1);
    assert_eq!(
        render(&viewer),
        frame(&[
            "┌SI┬─L#┬────────────┐",
            "│ 0│ 4 │ d          │",
            "│ 1│*5 │ 1ee2ee3ee4↩│",
            "│ 2│*5 │↪ee5ee6ee7e↩│",
            "│ 3│*5 │↪e8ee9ee0ee │",
            "│ 4│ 6 │ f          │",
            "└──┴───┴────────────┘",
        ])
    );
    viewer.resize_height(7);
    assert_eq!(
        render(&viewer),
        frame(&[
            "┌SI┬─L#┬────────────┐",
            "│ 0│ 3 │ c          │",
            "│ 1│ 4 │ d          │",
            "│ 2│*5 │ 1ee2ee3ee4↩│",
            "│ 3│*5 │↪ee5ee6ee7e↩│",
            "│ 4│*5 │↪e8ee9ee0ee │",
            "│ 5│ 6 │ f          │",
            "│ 6│ 7 │ g          │",
            "└──┴───┴────────────┘",
        ])
    );
}

#[test]
fn test_resize() {
    let text = b"01\n02\n03\n04\n55\n06\n07\n08\n09\n10\n11\n12\n13\n14\n15\n16\n17\n18\n19\n20\n";
    let mut viewer = init(text, 3, 15, 0);
    viewer.move_cursor_down(13);
    assert_eq!(
        render(&viewer),
        frame(&[
            "┌SI┬─L#┬─────┐",
            "│ 0│ 1 │ 01  │",
            "│ 1│ 2 │ 02  │",
            "│ 2│ 3 │ 03  │",
            "│ 3│ 4 │ 04  │",
            "│ 4│ 5 │ 55  │",
            "│ 5│ 6 │ 06  │",
            "│ 6│ 7 │ 07  │",
            "│ 7│ 8 │ 08  │",
            "│ 8│ 9 │ 09  │",
            "│ 9│ 10│ 10  │",
            "│10│ 11│ 11  │",
            "│11│ 12│ 12  │",
            "│12│ 13│ 13  │",
            "│13│*14│ 14  │",
            "│14│ 15│ 15  │",
            "└──┴───┴─────┘",
        ])
    );

    let new_dimensions = Dimensions { width: 3, height: 4 };
    viewer.resize(new_dimensions);
    assert_eq!(
        render(&viewer),
        frame(&[
            "┌SI┬─L#┬─────┐",
            "│ 0│ 11│ 11  │",
            "│ 1│ 12│ 12  │",
            "│ 2│ 13│ 13  │",
            "│ 3│*14│ 14  │",
            "└──┴───┴─────┘",
        ])
    );

    // Same as above, but now with scrolloff = 1; the new cursor position obeys scrolloff.
    let mut viewer = init(text, 3, 15, 1);
    viewer.move_cursor_down(13);
    viewer.resize(new_dimensions);
    assert_eq!(
        render(&viewer),
        frame(&[
            "┌SI┬─L#┬─────┐",
            "│ 0│ 12│ 12  │",
            "│ 1│ 13│ 13  │",
            "│ 2│*14│ 14  │",
            "│ 3│ 15│ 15  │",
            "└──┴───┴─────┘",
        ])
    );

    let text = b"a\nb\nc\nd\nxxxxxxxxxxxxxxxxxxxx\ne\nf\ng\n";
    let mut viewer = init(text, 3, 5, 2);
    viewer.move_cursor_down(3);
    viewer.scroll_viewport_down(2);
    assert_eq!(
        render(&viewer),
        frame(&[
            "┌SI┬─L#┬─────┐",
            "│ 0│ 4 │ d   │",
            "│ 1│*5 │ xxx↩│",
            "│ 2│*5 │↪xxx↩│",
            "│ 3│*5 │↪xxx↩│",
            "│ 4│*5 │↪xxx↩│",
            "└──┴───┴─────┘",
        ])
    );

    // Anchor point is second line, but snaps into viewport.
    viewer.resize(Dimensions { width: 30, height: 5 });
    assert_eq!(
        render(&viewer),
        frame(&[
            "┌SI┬─L#┬────────────────────────────────┐",
            "│ 0│ 3 │ c                              │",
            "│ 1│ 4 │ d                              │",
            "│ 2│*5 │ xxxxxxxxxxxxxxxxxxxx           │",
            "│ 3│ 6 │ e                              │",
            "│ 4│ 7 │ f                              │",
            "└──┴───┴────────────────────────────────┘",
        ])
    );
}
