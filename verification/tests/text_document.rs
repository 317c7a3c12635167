use sless::document::Document;
use sless::text_document::TextDocument;

fn escape_bytes(bytes: &[u8]) -> String {
    let mut s = String::new();
    for &b in bytes {
        match b {
            b'\n' => s.push_str("\\n"),
            b'\r' => s.push_str("\\r"),
            b'\t' => s.push_str("\\t"),
            b'"' => s.push_str("\\\""),
            b'\\' => s.push_str("\\\\"),
            _ => s.push(b as char),
        }
    }
    s
}

fn print_lines(doc: &TextDocument) -> String {
    // All content in these tests fits the width, so every screen line is one
    // logical line.
    let mut s = String::new();
    let Some((first, _cursor)) = doc.top_screen_line_and_cursor() else {
        return s;
    };
    let mut screen_line = Some(first);
    while let Some(line) = screen_line {
        s.push_str(&format!(
            "{}: \"{}\"\n",
            doc.line_number(&line),
            escape_bytes(doc.debug_text_content(&line))
        ));
        screen_line = doc.next_screen_line(&line);
    }
    s
}

#[test]
fn test_text_document() {
    let mut doc = TextDocument::new(10);
    assert_eq!(print_lines(&doc), "");

    doc.append(b"abc");
    assert_eq!(print_lines(&doc), "");

    doc.append(b"def\n");
    assert_eq!(print_lines(&doc), "1: \"abcdef\"\n");

    doc.append(b"ghi\n\njkl");
    assert_eq!(print_lines(&doc), "1: \"abcdef\"\n2: \"ghi\"\n3: \"\"\n");
    assert_eq!(None, doc.trailing_newline());

    doc.eof();
    assert_eq!(
        print_lines(&doc),
        "1: \"abcdef\"\n2: \"ghi\"\n3: \"\"\n4: \"jkl\"\n"
    );
    assert_eq!(Some(false), doc.trailing_newline());
}

#[test]
fn test_leading_and_trailing_newline() {
    let mut doc = TextDocument::new(10);
    doc.append(b"\nabc\n");
    assert_eq!(print_lines(&doc), "1: \"\"\n2: \"abc\"\n");

    doc.eof();
    assert_eq!(print_lines(&doc), "1: \"\"\n2: \"abc\"\n");
    assert_eq!(Some(true), doc.trailing_newline());
}

#[test]
fn test_crlf_line_endings() {
    let mut doc = TextDocument::new(10);
    doc.append(b"abc\r\n");
    doc.append(b"def\r");
    doc.append(b"\nghi\r");
    doc.eof();
    assert_eq!(
        print_lines(&doc),
        "1: \"abc\"\n2: \"def\"\n3: \"ghi\\r\"\n"
    );
    assert_eq!(Some(false), doc.trailing_newline());
}

fn print_screen_lines(doc: &TextDocument) -> String {
    let mut s = String::new();
    let mut screen_line = Some(doc.top_screen_line_and_cursor().unwrap().0);
    let width = doc.width();

    while let Some(line) = &screen_line {
        let contents = String::from_utf8(doc.debug_text_content(line).to_vec()).unwrap();
        s.push_str(&format!("|{: <width$}", contents, width = width));
        s.push_str("|\n");
        let next_screen_line = doc.next_screen_line(line);
        if let Some(next_screen_line) = &next_screen_line {
            assert_eq!(*screen_line.as_ref().unwrap(), doc.prev_screen_line(next_screen_line).unwrap());
        }
        screen_line = next_screen_line;
    }

    s
}

#[test]
fn test_next_and_prev_line() {
    let mut doc = TextDocument::new(20);
    doc.append(b"line.1\n");
    //           0123456789012345
    doc.append(b"long.long.line.2\n");
    doc.append(b"line.3\n");

    assert_eq!(
        print_screen_lines(&doc),
        "|line.1              |\n\
         |long.long.line.2    |\n\
         |line.3              |\n"
    );

    doc.resize(16);
    assert_eq!(
        print_screen_lines(&doc),
        "|line.1          |\n\
         |long.long.line.2|\n\
         |line.3          |\n"
    );

    doc.resize(15);
    assert_eq!(
        print_screen_lines(&doc),
        "|line.1         |\n\
         |long.long.line.|\n\
         |2              |\n\
         |line.3         |\n"
    );

    doc.resize(4);
    assert_eq!(
        print_screen_lines(&doc),
        "|line|\n\
         |.1  |\n\
         |long|\n\
         |.lon|\n\
         |g.li|\n\
         |ne.2|\n\
         |line|\n\
         |.3  |\n"
    );
}
