use mofish::text::{book_lines, book_lines_from_bytes, decode_book_bytes};

#[test]
fn utf8_bytes_decode_as_utf8() {
    let bytes = "héllo 世界".as_bytes();
    assert_eq!(decode_book_bytes(bytes), "héllo 世界");
}

#[test]
fn gbk_bytes_decode_as_gbk() {
    // "中文" in GBK.
    let bytes = [0xD6u8, 0xD0, 0xCE, 0xC4];
    assert_eq!(decode_book_bytes(&bytes), "中文");
}

#[test]
fn malformed_gbk_falls_back_to_windows_1252() {
    // 0xFF starts no GBK sequence; in Windows-1252 it is 'ÿ', and 0x80 is '€'.
    let bytes = [0x41u8, 0xFF, 0x80];
    assert_eq!(decode_book_bytes(&bytes), "Aÿ€");
}

#[test]
fn line_endings_are_normalized() {
    assert_eq!(book_lines("a\r\nb\rc\nd"), vec!["a", "b", "c", "d"]);
    assert_eq!(book_lines("a\r\r\nb"), vec!["a", "", "b"]);
}

#[test]
fn final_newline_ends_last_line() {
    assert_eq!(book_lines("a\nb\n"), vec!["a", "b"]);
    assert_eq!(book_lines("a\n\n"), vec!["a", ""]);
    assert_eq!(book_lines("\n"), vec![""]);
    assert!(book_lines("").is_empty());
}

#[test]
fn byte_order_mark_is_dropped() {
    assert_eq!(book_lines("\u{feff}第一章\n正文"), vec!["第一章", "正文"]);
    // Only a leading one.
    assert_eq!(book_lines("x\u{feff}"), vec!["x\u{feff}"]);
}

#[test]
fn lines_from_bytes_match_str_lines_after_normalizing() {
    let text = "\u{feff}one\r\ntwo\r\n\r\nthree";
    let expected: Vec<String> = text
        .replace("\r\n", "\n")
        .replace('\r', "\n")
        .trim_start_matches('\u{feff}')
        .lines()
        .map(|l| l.to_string())
        .collect();
    assert_eq!(book_lines_from_bytes(text.as_bytes()), expected);
    assert_eq!(expected, vec!["one", "two", "", "three"]);
}

#[test]
fn lines_rejoin_to_normalized_text() {
    let text = "a\r\nb\r\rc\n";
    let lines = book_lines(text);
    assert_eq!(lines.join("\n") + "\n", "a\nb\n\nc\n");
    for line in &lines {
        assert!(!line.contains('\n') && !line.contains('\r'));
    }
    // Splitting the normalized text again gives the same lines.
    assert_eq!(book_lines(&(lines.join("\n") + "\n")), lines);
}
