use ws_core::header::{
    contains, find_field_end, find_header, header_value_of, is_space_byte, matches_at, trimmed,
};

#[test]
fn a_needle_is_found_where_it_stands() {
    assert!(matches_at(b"hello world", b"world", 6));
    assert!(!matches_at(b"hello world", b"world", 5));
    assert!(!matches_at(b"hello world", b"world", 7));
    assert!(matches_at(b"abc", b"", 0));
    assert!(matches_at(b"abc", b"", 3));
    assert!(!matches_at(b"abc", b"", 4));
    assert!(!matches_at(b"abc", b"abcd", 0));
    assert!(!matches_at(b"abc", b"c", usize::MAX));
}

#[test]
fn a_needle_is_found_anywhere() {
    assert!(contains(b"hello world", b"hello"));
    assert!(contains(b"hello world", b"o w"));
    assert!(contains(b"hello world", b"world"));
    assert!(contains(b"hello world", b""));
    assert!(contains(b"", b""));
    assert!(!contains(b"", b"a"));
    assert!(!contains(b"hello world", b"worlds"));
    assert!(!contains(b"hello world", b"World"));
    assert!(contains(b"aaab", b"aab"));
}

#[test]
fn the_last_line_with_the_name_is_found() {
    assert_eq!(find_header(b"A: 1\r\nB: 2\r\nA: 3\r\n", b"A:"), Some(12));
    assert_eq!(find_header(b"A: 1\r\nB: 2\r\n", b"A:"), Some(0));
    assert_eq!(find_header(b"A: 1\r\nB: 2\r\n", b"B:"), Some(6));
    assert_eq!(find_header(b"A: 1\r\nB: 2\r\n", b"C:"), None);
    // only at the start of a line
    assert_eq!(find_header(b"xA: 1\r\n B: 2", b"A:"), None);
    assert_eq!(find_header(b"xA: 1\r\n B: 2", b"B:"), None);
    assert_eq!(find_header(b"", b"A:"), None);
    // a bare carriage return does not end a line
    assert_eq!(find_header(b"x\rA: 1", b"A:"), None);
}

#[test]
fn a_field_ends_at_colon_line_feed_or_end() {
    assert_eq!(find_field_end(b"abc:def", 0), 3);
    assert_eq!(find_field_end(b"abc:def", 3), 3);
    assert_eq!(find_field_end(b"abc:def", 4), 7);
    assert_eq!(find_field_end(b"abc\ndef", 1), 3);
    assert_eq!(find_field_end(b"abc\r\ndef", 0), 4);
    assert_eq!(find_field_end(b"abc", 3), 3);
    assert_eq!(find_field_end(b"", 0), 0);
}

#[test]
fn white_space_bytes() {
    for byte in [b' ', b'\t', b'\n', 0x0B, 0x0C, b'\r'] {
        assert!(is_space_byte(byte));
    }
    for byte in [0x00u8, 0x08, 0x0E, 0x1F, 0x21, b'a', 0x85, 0xA0, 0xFF] {
        assert!(!is_space_byte(byte));
    }
}

#[test]
fn trimming_takes_white_space_off_both_ends() {
    assert_eq!(trimmed(b"  abc  "), b"abc");
    assert_eq!(trimmed(b"\t\r\n abc"), b"abc");
    assert_eq!(trimmed(b"abc\r"), b"abc");
    assert_eq!(trimmed(b"a b\tc"), b"a b\tc");
    assert_eq!(trimmed(b" a  b "), b"a  b");
    assert_eq!(trimmed(b"   "), b"");
    assert_eq!(trimmed(b""), b"");
    assert_eq!(trimmed(b"x"), b"x");
}

#[test]
fn a_header_value_is_cut_out_and_trimmed() {
    let text = b"GET / HTTP/1.1\r\nHost: example.org:8080\r\nKey:  abc \r\n\r\n";
    assert_eq!(header_value_of(text, b"Key:"), Some(b"abc".to_vec()));
    // up to the next colon
    assert_eq!(header_value_of(text, b"Host:"), Some(b"example.org".to_vec()));
    assert_eq!(header_value_of(text, b"Other:"), None);
    // the last line wins
    assert_eq!(header_value_of(b"K: 1\nK: 2\nK: 3", b"K:"), Some(b"3".to_vec()));
    // an empty value is a value
    assert_eq!(header_value_of(b"K:\r\n", b"K:"), Some(Vec::new()));
    assert_eq!(header_value_of(b"K:", b"K:"), Some(Vec::new()));
    // a carriage return inside the value stays
    assert_eq!(header_value_of(b"K: a\rb\r\n", b"K:"), Some(b"a\rb".to_vec()));
}
