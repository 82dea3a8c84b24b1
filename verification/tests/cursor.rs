use scheme_engine::cursor::{utf8_len, Cursor, EOF_CHAR};

#[test]
fn test_peek() {
    let mut cursor = Cursor::new("abcd");
    assert_eq!(cursor.peek_char(), Some('a'));

    assert_eq!(cursor.bump(), Some((0, 'a')));
    assert_eq!(cursor.bump(), Some((1, 'b')));

    assert_eq!(cursor.peek_char(), Some('c'));

    assert_eq!(cursor.bump(), Some((2, 'c')));

    assert_eq!(cursor.peek_char(), Some('d'));

    assert_eq!(cursor.bump(), Some((3, 'd')));

    assert_eq!(cursor.peek_char(), None);
}

#[test]
fn test_eof() {
    assert_eq!(Cursor::new("").at_end(), false);
    assert_eq!(Cursor::new("abc").at_end(), false);

    // Exhausted cursor must return EOF
    let mut cursor = Cursor::new("a");
    // Initial state
    assert_eq!(cursor.char(), EOF_CHAR);
    assert_eq!(cursor.pos(), 0);
    cursor.bump();
    assert_eq!(cursor.char(), 'a');
    assert_eq!(cursor.pos(), 0);
    cursor.bump();
    assert_eq!(cursor.try_char(), None);
    assert_eq!(cursor.try_pos(), None);

    // Test case where string has explicit EOF sentinal.
    let mut cursor = Cursor::new("abc\0");
    assert_eq!(cursor.bump(), Some((0, 'a')));
    assert_eq!(cursor.char(), 'a');
    assert_eq!(cursor.pos(), 0);

    assert_eq!(cursor.bump(), Some((1, 'b')));
    assert_eq!(cursor.char(), 'b');
    assert_eq!(cursor.pos(), 1);

    assert_eq!(cursor.bump(), Some((2, 'c')));
    assert_eq!(cursor.char(), 'c');
    assert_eq!(cursor.pos(), 2);

    assert_eq!(cursor.bump(), Some((3, EOF_CHAR)));
    assert_eq!(cursor.char(), EOF_CHAR); // explicit
    assert_eq!(cursor.pos(), 3);

    assert_eq!(cursor.bump(), None);
    assert_eq!(cursor.try_char(), None); // implicit
    assert_eq!(cursor.try_pos(), None);
}

#[test]
fn cursor_positions_are_byte_offsets() {
    // 'é' takes two bytes, '€' three, '𝄞' four.
    let source = "aé€𝄞b";
    let mut cursor = Cursor::new(source);
    let expected: Vec<(usize, char)> = source.char_indices().collect();
    for item in expected.iter() {
        assert_eq!(cursor.peek_offset(), item.0);
        assert_eq!(cursor.bump(), Some(*item));
        assert_eq!(cursor.try_current(), Some(*item));
    }
    assert_eq!(cursor.peek_offset(), source.len());
    assert_eq!(cursor.bump(), None);
    assert!(cursor.at_end());
    assert_eq!(cursor.peek_offset(), source.len());
    // Further steps change nothing.
    assert_eq!(cursor.bump(), None);
    assert!(cursor.at_end());
}

#[test]
fn cursor_rest_starts_at_the_current_character() {
    let mut cursor = Cursor::new("xé z");
    assert_eq!(cursor.source(), "xé z");
    assert_eq!(cursor.rest(), "xé z");
    cursor.bump();
    assert_eq!(cursor.rest(), "xé z");
    cursor.bump();
    assert_eq!(cursor.rest(), "é z");
    cursor.bump();
    assert_eq!(cursor.rest(), " z");
    cursor.bump();
    cursor.bump();
    assert_eq!(cursor.rest(), "");
}

#[test]
fn utf8_len_is_the_width_of_the_encoding() {
    for c in ['\0', 'a', '\u{7f}', '\u{80}', 'é', '\u{7ff}', '\u{800}', '€', '\u{ffff}', '\u{10000}', '𝄞', '\u{10ffff}'] {
        assert_eq!(utf8_len(c), c.len_utf8());
    }
}
