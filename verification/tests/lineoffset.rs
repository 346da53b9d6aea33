use grammarsmith::{BytePos, LineOffsets};

#[test]
fn test_empty_string() {
    let offsets = LineOffsets::new("");
    assert_eq!(offsets.line(BytePos(0)), 1);
}

#[test]
fn test_single_line() {
    let offsets = LineOffsets::new("hello world");
    assert_eq!(offsets.line(BytePos(0)), 1);
    assert_eq!(offsets.line(BytePos(5)), 1);
    assert_eq!(offsets.line(BytePos(10)), 1);
}

#[test]
fn test_multiple_lines() {
    let offsets = LineOffsets::new("line1\nline2\nline3");
    assert_eq!(offsets.line(BytePos(0)), 1); // start of line1
    assert_eq!(offsets.line(BytePos(5)), 1); // end of line1
    assert_eq!(offsets.line(BytePos(6)), 2); // start of line2
    assert_eq!(offsets.line(BytePos(11)), 2); // end of line2
    assert_eq!(offsets.line(BytePos(12)), 3); // start of line3
    assert_eq!(offsets.line(BytePos(16)), 3); // end of line3
}

#[test]
fn test_trailing_newline() {
    let offsets = LineOffsets::new("hello\n");
    assert_eq!(offsets.line(BytePos(0)), 1);
    assert_eq!(offsets.line(BytePos(5)), 1);
    assert_eq!(offsets.line(BytePos(6)), 2);
}

#[test]
fn test_multiple_consecutive_newlines() {
    let offsets = LineOffsets::new("a\n\n\nb");
    assert_eq!(offsets.line(BytePos(0)), 1); // 'a'
    assert_eq!(offsets.line(BytePos(2)), 2); // empty line
    assert_eq!(offsets.line(BytePos(3)), 3); // empty line
    assert_eq!(offsets.line(BytePos(4)), 4); // 'b'
}

#[test]
fn test_different_line_endings() {
    let offsets = LineOffsets::new("line1\r\nline2\nline3");
    assert_eq!(offsets.line(BytePos(0)), 1); // start of line1
    assert_eq!(offsets.line(BytePos(6)), 1); // end of line1
    assert_eq!(offsets.line(BytePos(7)), 2); // start of line2
    assert_eq!(offsets.line(BytePos(12)), 2); // end of line2
    assert_eq!(offsets.line(BytePos(13)), 3); // start of line3
}

fn count_newlines_before(text: &str, pos: usize) -> usize {
    let mut n = 0;
    for b in &text.as_bytes()[..pos] {
        if *b == b'\n' {
            n += 1;
        }
    }
    n
}

#[test]
fn line_agrees_with_counting_newlines() {
    let texts = ["", "\n", "\n\n", "a\nbc\n\nd", "no newline", "tail\n", "\r\n\r\n", "é\n🦀\n€"];
    for text in texts {
        let offsets = LineOffsets::new(text);
        for pos in 0..=text.len() {
            assert_eq!(offsets.line(BytePos(pos)), 1 + count_newlines_before(text, pos));
        }
    }
}

#[test]
fn line_at_end_of_buffer() {
    let offsets = LineOffsets::new("a\nb\n");
    assert_eq!(offsets.line(BytePos(4)), 3);
    assert_eq!(offsets.line(BytePos(3)), 2);
    assert_eq!(offsets.line(BytePos(2)), 2);
    assert_eq!(offsets.line(BytePos(1)), 1);
}

#[test]
fn checked_line_is_none_behind_the_buffer() {
    let offsets = LineOffsets::new("hello");
    assert_eq!(offsets.checked_line(BytePos(10)), None);
    assert_eq!(offsets.checked_line(BytePos(6)), None);
    assert_eq!(offsets.checked_line(BytePos(5)), Some(1));
    let two = LineOffsets::new("a\nb");
    assert_eq!(two.checked_line(BytePos(2)), Some(2));
    assert_eq!(two.checked_line(BytePos(3)), Some(2));
    assert_eq!(two.checked_line(BytePos(4)), None);
}
