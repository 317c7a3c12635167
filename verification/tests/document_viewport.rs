use sless::document::Document;
use sless::document_viewport::DocumentViewport;
use sless::text_document::{Cursor, TextDocument};

fn init(
    contents: &[u8],
    width: usize,
    height: usize,
    scrolloff: usize,
) -> (TextDocument, DocumentViewport<TextDocument>) {
    let mut doc = TextDocument::new(width);
    doc.append(contents);
    doc.eof();

    let (top_line, initial_cursor) = doc.top_screen_line_and_cursor().unwrap();
    let viewport = DocumentViewport::new(top_line, initial_cursor, (width, height), scrolloff);

    (doc, viewport)
}

fn render(viewport: &DocumentViewport<TextDocument>, doc: &TextDocument) -> String {
    let content_width = viewport.dimensions.0;
    let mut s = String::new();
    s.push_str(&format!("┌SI┬─L#┬─{:─<content_width$}─┐\n", ""));
    for (screen_index, screen_line) in viewport.viewport_lines(doc).into_iter().enumerate() {
        let Some(screen_line) = screen_line else {
            s.push_str(&format!("│{:>2}│ ~ │ {: <content_width$} │\n", screen_index, ""));
            continue;
        };

        let is_focused = doc.does_screen_line_intersect_cursor(&screen_line, &viewport.current_focus);
        let line_number = doc.line_number(&screen_line);
        let wraps_from_prev_line = doc.is_after_start_of_wrapped_line(&screen_line);
        let wraps_onto_next_line = doc.is_before_end_of_wrapped_line(&screen_line);
        let contents = String::from_utf8(doc.debug_text_content(&screen_line).to_vec()).unwrap();

        s.push_str(&format!(
            "│{:>2}│{}{:<2}│{}{: <content_width$}{}│\n",
            screen_index,
            if is_focused { '*' } else { ' ' },
            line_number,
            if wraps_from_prev_line { '↪' } else { ' ' },
            contents,
            if wraps_onto_next_line { '↩' } else { ' ' },
        ));
    }
    s.push_str(&format!("└──┴───┴─{:─<content_width$}─┘\n", ""));
    s
}

fn frame(lines: &[&str]) -> String {
    let mut s = String::new();
    for line in lines {
        s.push_str(line);
        s.push('\n');
    }
    s
}

#[test]
fn document_viewport_test_render() {
    let (doc, viewport) = init(b"aaa\nbb\ncccc\ndddddd\ne\n", 4, 7, 0);
    assert_eq!(
        render(&viewport, &doc),
        frame(&[
            "┌SI┬─L#┬──────┐",
            "│ 0│*1 │ aaa  │",
            "│ 1│ 2 │ bb   │",
            "│ 2│ 3 │ cccc │",
            "│ 3│ 4 │ dddd↩│",
            "│ 4│ 4 │↪dd   │",
            "│ 5│ 5 │ e    │",
            "│ 6│ ~ │      │",
            "└──┴───┴──────┘",
        ])
    );
}

fn acceptable_screen_indexes(
    viewport: &DocumentViewport<TextDocument>,
    doc: &TextDocument,
    cursor: &Cursor,
) -> sless::document_viewer::AcceptableStartScreenIndexesToShowCursorNode {
    viewport
        .calculate_acceptable_start_screen_indexes_to_show_cursor_node(doc, cursor)
        .1
}

#[test]
fn document_viewport_test_acceptable_start_screen_indexes() {
    let (doc, mut viewport) = init(b"a\nbbbb\nc\nd\ne\nf\ng\n", 1, 10, 0);
    assert_eq!(
        render(&viewport, &doc),
        frame(&[
            "┌SI┬─L#┬───┐",
            "│ 0│*1 │ a │",
            "│ 1│ 2 │ b↩│",
            "│ 2│ 2 │↪b↩│",
            "│ 3│ 2 │↪b↩│",
            "│ 4│ 2 │↪b │",
            "│ 5│ 3 │ c │",
            "│ 6│ 4 │ d │",
            "│ 7│ 5 │ e │",
            "│ 8│ 6 │ f │",
            "│ 9│ 7 │ g │",
            "└──┴───┴───┘",
        ])
    );

    let line_2 = doc.cursor_to_line_n(2);
    let acc = acceptable_screen_indexes(&viewport, &doc, &line_2);
    assert_eq!(acc.cursor_height, 4);
    assert_eq!(acc.last_screen_index, 9);
    assert_eq!(acc.range_after_considering_scrolloff, (0, 9));
    assert_eq!(acc.range_after_considering_start_and_end_of_document, (0, 9));
    assert_eq!(acc.range_after_expanding_due_to_cursor_height, (0, 9));
    assert_eq!(acc.start, 0);
    assert_eq!(acc.end, 6);

    viewport.set_scrolloff(3);
    let acc = acceptable_screen_indexes(&viewport, &doc, &line_2);
    assert_eq!(acc.cursor_height, 4);
    assert_eq!(acc.last_screen_index, 9);
    assert_eq!(acc.range_after_considering_scrolloff, (3, 6));
    assert_eq!(acc.range_after_considering_start_and_end_of_document, (1, 6));
    assert_eq!(acc.range_after_expanding_due_to_cursor_height, (1, 6));
    assert_eq!(acc.start, 1);
    assert_eq!(acc.end, 3);

    // A file whose second line is 8 rows tall, with scrolloff 4.
    let (doc, viewport) = init(b"a\nbbbbbbbb\nc\nd\ne\nf\n", 1, 10, 4);
    assert_eq!(
        render(&viewport, &doc),
        frame(&[
            "┌SI┬─L#┬───┐",
            "│ 0│*1 │ a │",
            "│ 1│ 2 │ b↩│",
            "│ 2│ 2 │↪b↩│",
            "│ 3│ 2 │↪b↩│",
            "│ 4│ 2 │↪b↩│",
            "│ 5│ 2 │↪b↩│",
            "│ 6│ 2 │↪b↩│",
            "│ 7│ 2 │↪b↩│",
            "│ 8│ 2 │↪b │",
            "│ 9│ 3 │ c │",
            "└──┴───┴───┘",
        ])
    );

    let line_2 = doc.cursor_to_line_n(2);
    let acc = acceptable_screen_indexes(&viewport, &doc, &line_2);
    assert_eq!(acc.cursor_height, 8);
    assert_eq!(acc.last_screen_index, 9);
    assert_eq!(acc.range_after_considering_scrolloff, (4, 5));
    assert_eq!(acc.range_after_considering_start_and_end_of_document, (1, 5));
    assert_eq!(acc.range_after_expanding_due_to_cursor_height, (1, 8));
    assert_eq!(acc.start, 1);
    assert_eq!(acc.end, 1);
}

#[test]
fn document_viewport_test_acceptable_start_screen_indexes_when_focused_node_bigger_than_viewport() {
    // Odd height
    for (input, height) in [("a\nb\nc\nddd\nc\nd\ne", 3), ("a\nb\nc\ndddd\nc\nd\ne", 4)].iter() {
        let (doc, viewport) = init(input.as_bytes(), 1, 3, 0);
        assert_eq!(
            render(&viewport, &doc),
            frame(&[
                "┌SI┬─L#┬───┐",
                "│ 0│*1 │ a │",
                "│ 1│ 2 │ b │",
                "│ 2│ 3 │ c │",
                "└──┴───┴───┘",
            ])
        );

        let line_4 = doc.cursor_to_line_n(4);
        let acc = acceptable_screen_indexes(&viewport, &doc, &line_4);
        assert_eq!(acc.cursor_height, *height);
        assert_eq!(acc.last_screen_index, 2);
        assert_eq!(acc.range_after_considering_scrolloff, (0, 2));
        assert_eq!(acc.range_after_considering_start_and_end_of_document, (0, 2));
        assert_eq!(acc.range_after_expanding_due_to_cursor_height, (0, 2));
        assert_eq!(acc.start, 0);
        assert_eq!(acc.end, 0);
    }

    // Even height
    for (input, height) in [("a\nb\nc\nddddd\nc\nd\ne", 5), ("a\nb\nc\ndddd\nc\nd\ne", 4)].iter() {
        let (doc, viewport) = init(input.as_bytes(), 1, 4, 0);
        assert_eq!(
            render(&viewport, &doc),
            frame(&[
                "┌SI┬─L#┬───┐",
                "│ 0│*1 │ a │",
                "│ 1│ 2 │ b │",
                "│ 2│ 3 │ c │",
                "│ 3│ 4 │ d↩│",
                "└──┴───┴───┘",
            ])
        );

        let line_4 = doc.cursor_to_line_n(4);
        let acc = acceptable_screen_indexes(&viewport, &doc, &line_4);
        assert_eq!(acc.cursor_height, *height);
        assert_eq!(acc.last_screen_index, 3);
        assert_eq!(acc.range_after_considering_scrolloff, (0, 3));
        assert_eq!(acc.range_after_considering_start_and_end_of_document, (0, 3));
        assert_eq!(acc.range_after_expanding_due_to_cursor_height, (0, 3));
        assert_eq!(acc.start, 0);
        assert_eq!(acc.end, 0);
    }
}

#[test]
fn document_viewport_test_move_cursor_up_and_down() {
    let (doc, mut viewport) = init(b"aaa\nbb\ncccc\ndddddd\ne\n", 4, 7, 0);
    assert_eq!(
        render(&viewport, &doc),
        frame(&[
            "┌SI┬─L#┬──────┐",
            "│ 0│*1 │ aaa  │",
            "│ 1│ 2 │ bb   │",
            "│ 2│ 3 │ cccc │",
            "│ 3│ 4 │ dddd↩│",
            "│ 4│ 4 │↪dd   │",
            "│ 5│ 5 │ e    │",
            "│ 6│ ~ │      │",
            "└──┴───┴──────┘",
        ])
    );

    viewport.move_cursor_down(&doc, 1);
    assert_eq!(
        render(&viewport, &doc),
        frame(&[
            "┌SI┬─L#┬──────┐",
            "│ 0│ 1 │ aaa  │",
            "│ 1│*2 │ bb   │",
            "│ 2│ 3 │ cccc │",
            "│ 3│ 4 │ dddd↩│",
            "│ 4│ 4 │↪dd   │",
            "│ 5│ 5 │ e    │",
            "│ 6│ ~ │      │",
            "└──┴───┴──────┘",
        ])
    );

    viewport.move_cursor_down(&doc, 3);
    assert_eq!(
        render(&viewport, &doc),
        frame(&[
            "┌SI┬─L#┬──────┐",
            "│ 0│ 1 │ aaa  │",
            "│ 1│ 2 │ bb   │",
            "│ 2│ 3 │ cccc │",
            "│ 3│ 4 │ dddd↩│",
            "│ 4│ 4 │↪dd   │",
            "│ 5│*5 │ e    │",
            "│ 6│ ~ │      │",
            "└──┴───┴──────┘",
        ])
    );

    viewport.move_cursor_up(&doc, 1);
    assert_eq!(
        render(&viewport, &doc),
        frame(&[
            "┌SI┬─L#┬──────┐",
            "│ 0│ 1 │ aaa  │",
            "│ 1│ 2 │ bb   │",
            "│ 2│ 3 │ cccc │",
            "│ 3│*4 │ dddd↩│",
            "│ 4│*4 │↪dd   │",
            "│ 5│ 5 │ e    │",
            "│ 6│ ~ │      │",
            "└──┴───┴──────┘",
        ])
    );

    viewport.move_cursor_up(&doc, 10);
    assert_eq!(
        render(&viewport, &doc),
        frame(&[
            "┌SI┬─L#┬──────┐",
            "│ 0│*1 │ aaa  │",
            "│ 1│ 2 │ bb   │",
            "│ 2│ 3 │ cccc │",
            "│ 3│ 4 │ dddd↩│",
            "│ 4│ 4 │↪dd   │",
            "│ 5│ 5 │ e    │",
            "│ 6│ ~ │      │",
            "└──┴───┴──────┘",
        ])
    );
}

#[test]
fn document_viewport_test_move_cursor_up_and_down_and_move_viewport() {
    let (doc, mut viewport) = init(b"aaa\nbb\ncccc\ndddddd\neeeeeee\nff\nggggg\nhh\ni\n", 4, 5, 1);
    assert_eq!(
        render(&viewport, &doc),
        frame(&[
            "┌SI┬─L#┬──────┐",
            "│ 0│*1 │ aaa  │",
            "│ 1│ 2 │ bb   │",
            "│ 2│ 3 │ cccc │",
            "│ 3│ 4 │ dddd↩│",
            "│ 4│ 4 │↪dd   │",
            "└──┴───┴──────┘",
        ])
    );

    viewport.move_cursor_down(&doc, 1);
    assert_eq!(
        render(&viewport, &doc),
        frame(&[
            "┌SI┬─L#┬──────┐",
            "│ 0│ 1 │ aaa  │",
            "│ 1│*2 │ bb   │",
            "│ 2│ 3 │ cccc │",
            "│ 3│ 4 │ dddd↩│",
            "│ 4│ 4 │↪dd   │",
            "└──┴───┴──────┘",
        ])
    );

    viewport.move_cursor_down(&doc, 2);
    assert_eq!(
        render(&viewport, &doc),
        frame(&[
            "┌SI┬─L#┬──────┐",
            "│ 0│ 2 │ bb   │",
            "│ 1│ 3 │ cccc │",
            "│ 2│*4 │ dddd↩│",
            "│ 3│*4 │↪dd   │",
            "│ 4│ 5 │ eeee↩│",
            "└──┴───┴──────┘",
        ])
    );

    viewport.move_cursor_down(&doc, 1);
    assert_eq!(
        render(&viewport, &doc),
        frame(&[
            "┌SI┬─L#┬──────┐",
            "│ 0│ 4 │ dddd↩│",
            "│ 1│ 4 │↪dd   │",
            "│ 2│*5 │ eeee↩│",
            "│ 3│*5 │↪eee  │",
            "│ 4│ 6 │ ff   │",
            "└──┴───┴──────┘",
        ])
    );

    viewport.move_cursor_up(&doc, 1);
    assert_eq!(
        render(&viewport, &doc),
        frame(&[
            "┌SI┬─L#┬──────┐",
            "│ 0│ 3 │ cccc │",
            "│ 1│*4 │ dddd↩│",
            "│ 2│*4 │↪dd   │",
            "│ 3│ 5 │ eeee↩│",
            "│ 4│ 5 │↪eee  │",
            "└──┴───┴──────┘",
        ])
    );

    viewport.move_cursor_down(&doc, 100);
    assert_eq!(
        render(&viewport, &doc),
        frame(&[
            "┌SI┬─L#┬──────┐",
            "│ 0│ 6 │ ff   │",
            "│ 1│ 7 │ gggg↩│",
            "│ 2│ 7 │↪g    │",
            "│ 3│ 8 │ hh   │",
            "│ 4│*9 │ i    │",
            "└──┴───┴──────┘",
        ])
    );
}

#[test]
fn document_viewport_test_scroll_up_and_down() {
    let (doc, mut viewport) = init(b"aaa\nbb\ncccc\ndddddd\neeeeeee\nff\nggggg\nhh\ni\n", 4, 5, 1);
    assert_eq!(
        render(&viewport, &doc),
        frame(&[
            "┌SI┬─L#┬──────┐",
            "│ 0│*1 │ aaa  │",
            "│ 1│ 2 │ bb   │",
            "│ 2│ 3 │ cccc │",
            "│ 3│ 4 │ dddd↩│",
            "│ 4│ 4 │↪dd   │",
            "└──┴───┴──────┘",
        ])
    );

    viewport.scroll_viewport_down(&doc, 1);
    assert_eq!(
        render(&viewport, &doc),
        frame(&[
            "┌SI┬─L#┬──────┐",
            "│ 0│ 2 │ bb   │",
            "│ 1│*3 │ cccc │",
            "│ 2│ 4 │ dddd↩│",
            "│ 3│ 4 │↪dd   │",
            "│ 4│ 5 │ eeee↩│",
            "└──┴───┴──────┘",
        ])
    );

    viewport.scroll_viewport_down(&doc, 1);
    assert_eq!(
        render(&viewport, &doc),
        frame(&[
            "┌SI┬─L#┬──────┐",
            "│ 0│ 3 │ cccc │",
            "│ 1│*4 │ dddd↩│",
            "│ 2│*4 │↪dd   │",
            "│ 3│ 5 │ eeee↩│",
            "│ 4│ 5 │↪eee  │",
            "└──┴───┴──────┘",
        ])
    );

    viewport.scroll_viewport_down(&doc, 1);
    assert_eq!(
        render(&viewport, &doc),
        frame(&[
            "┌SI┬─L#┬──────┐",
            "│ 0│*4 │ dddd↩│",
            "│ 1│*4 │↪dd   │",
            "│ 2│ 5 │ eeee↩│",
            "│ 3│ 5 │↪eee  │",
            "│ 4│ 6 │ ff   │",
            "└──┴───┴──────┘",
        ])
    );

    viewport.scroll_viewport_down(&doc, 1);
    assert_eq!(
        render(&viewport, &doc),
        frame(&[
            "┌SI┬─L#┬──────┐",
            "│ 0│ 4 │↪dd   │",
            "│ 1│*5 │ eeee↩│",
            "│ 2│*5 │↪eee  │",
            "│ 3│ 6 │ ff   │",
            "│ 4│ 7 │ gggg↩│",
            "└──┴───┴──────┘",
        ])
    );

    viewport.scroll_viewport_down(&doc, 10);
    assert_eq!(
        render(&viewport, &doc),
        frame(&[
            "┌SI┬─L#┬──────┐",
            "│ 0│*9 │ i    │",
            "│ 1│ ~ │      │",
            "│ 2│ ~ │      │",
            "│ 3│ ~ │      │",
            "│ 4│ ~ │      │",
            "└──┴───┴──────┘",
        ])
    );

    viewport.scroll_viewport_up(&doc, 4);
    assert_eq!(
        render(&viewport, &doc),
        frame(&[
            "┌SI┬─L#┬──────┐",
            "│ 0│ 6 │ ff   │",
            "│ 1│ 7 │ gggg↩│",
            "│ 2│ 7 │↪g    │",
            "│ 3│*8 │ hh   │",
            "│ 4│ 9 │ i    │",
            "└──┴───┴──────┘",
        ])
    );

    viewport.scroll_viewport_up(&doc, 1);
    assert_eq!(
        render(&viewport, &doc),
        frame(&[
            "┌SI┬─L#┬──────┐",
            "│ 0│ 5 │↪eee  │",
            "│ 1│ 6 │ ff   │",
            "│ 2│*7 │ gggg↩│",
            "│ 3│*7 │↪g    │",
            "│ 4│ 8 │ hh   │",
            "└──┴───┴──────┘",
        ])
    );

    viewport.scroll_viewport_up(&doc, 1);
    assert_eq!(
        render(&viewport, &doc),
        frame(&[
            "┌SI┬─L#┬──────┐",
            "│ 0│ 5 │ eeee↩│",
            "│ 1│ 5 │↪eee  │",
            "│ 2│ 6 │ ff   │",
            "│ 3│*7 │ gggg↩│",
            "│ 4│*7 │↪g    │",
            "└──┴───┴──────┘",
        ])
    );

    viewport.scroll_viewport_up(&doc, 1);
    assert_eq!(
        render(&viewport, &doc),
        frame(&[
            "┌SI┬─L#┬──────┐",
            "│ 0│ 4 │↪dd   │",
            "│ 1│ 5 │ eeee↩│",
            "│ 2│ 5 │↪eee  │",
            "│ 3│*6 │ ff   │",
            "│ 4│ 7 │ gggg↩│",
            "└──┴───┴──────┘",
        ])
    );

    viewport.scroll_viewport_up(&doc, 10);
    assert_eq!(
        render(&viewport, &doc),
        frame(&[
            "┌SI┬─L#┬──────┐",
            "│ 0│ 1 │ aaa  │",
            "│ 1│ 2 │ bb   │",
            "│ 2│ 3 │ cccc │",
            "│ 3│*4 │ dddd↩│",
            "│ 4│*4 │↪dd   │",
            "└──┴───┴──────┘",
        ])
    );
}

#[test]
fn document_viewport_test_scrolling_with_very_long_line() {
    let (doc, mut viewport) = init(b"a\nb\nc1c2c3c4c5c6c7c8\nd\ne\n", 2, 4, 1);
    assert_eq!(
        render(&viewport, &doc),
        frame(&[
            "┌SI┬─L#┬────┐",
            "│ 0│*1 │ a  │",
            "│ 1│ 2 │ b  │",
            "│ 2│ 3 │ c1↩│",
            "│ 3│ 3 │↪c2↩│",
            "└──┴───┴────┘",
        ])
    );

    viewport.scroll_viewport_down(&doc, 2);
    assert_eq!(
        render(&viewport, &doc),
        frame(&[
            "┌SI┬─L#┬────┐",
            "│ 0│*3 │ c1↩│",
            "│ 1│*3 │↪c2↩│",
            "│ 2│*3 │↪c3↩│",
            "│ 3│*3 │↪c4↩│",
            "└──┴───┴────┘",
        ])
    );

    viewport.scroll_viewport_down(&doc, 4);
    assert_eq!(
        render(&viewport, &doc),
        frame(&[
            "┌SI┬─L#┬────┐",
            "│ 0│*3 │↪c5↩│",
            "│ 1│*3 │↪c6↩│",
            "│ 2│*3 │↪c7↩│",
            "│ 3│*3 │↪c8 │",
            "└──┴───┴────┘",
        ])
    );

    viewport.scroll_viewport_down(&doc, 2);
    assert_eq!(
        render(&viewport, &doc),
        frame(&[
            "┌SI┬─L#┬────┐",
            "│ 0│*3 │↪c7↩│",
            "│ 1│*3 │↪c8 │",
            "│ 2│ 4 │ d  │",
            "│ 3│ 5 │ e  │",
            "└──┴───┴────┘",
        ])
    );

    viewport.scroll_viewport_down(&doc, 1);
    assert_eq!(
        render(&viewport, &doc),
        frame(&[
            "┌SI┬─L#┬────┐",
            "│ 0│ 3 │↪c8 │",
            "│ 1│*4 │ d  │",
            "│ 2│ 5 │ e  │",
            "│ 3│ ~ │    │",
            "└──┴───┴────┘",
        ])
    );

    viewport.scroll_viewport_up(&doc, 2);
    assert_eq!(
        render(&viewport, &doc),
        frame(&[
            "┌SI┬─L#┬────┐",
            "│ 0│*3 │↪c6↩│",
            "│ 1│*3 │↪c7↩│",
            "│ 2│*3 │↪c8 │",
            "│ 3│ 4 │ d  │",
            "└──┴───┴────┘",
        ])
    );

    viewport.scroll_viewport_up(&doc, 7);
    assert_eq!(
        render(&viewport, &doc),
        frame(&[
            "┌SI┬─L#┬────┐",
            "│ 0│ 1 │ a  │",
            "│ 1│ 2 │ b  │",
            "│ 2│*3 │ c1↩│",
            "│ 3│*3 │↪c2↩│",
            "└──┴───┴────┘",
        ])
    );
}
