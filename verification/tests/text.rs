use rooq::text::{blank, decode_text, TextProviderError};

#[test]
fn reads_utf8_bom_file() {
    let mut bytes = vec![0xEF, 0xBB, 0xBF];
    bytes.extend_from_slice("hello world".as_bytes());
    let result = decode_text(&bytes).unwrap();
    assert_eq!(result, "hello world");
}

#[test]
fn reads_plain_utf8_without_bom() {
    let result = decode_text("hello world".as_bytes()).unwrap();
    assert_eq!(result, "hello world");
}

#[test]
fn reads_utf16le_bom_file() {
    let bytes = [0xFF, 0xFE, b'h', 0x00, b'i', 0x00];
    assert_eq!(decode_text(&bytes).unwrap(), "hi");
}

#[test]
fn reads_utf16be_bom_file() {
    let bytes = [0xFE, 0xFF, 0x00, b'o', 0x00, b'k'];
    assert_eq!(decode_text(&bytes).unwrap(), "ok");
}

#[test]
fn empty_file_is_empty_text() {
    assert_eq!(decode_text(&[]).unwrap(), "");
}

#[test]
fn blank_is_white_space_only() {
    assert!(blank(""));
    assert!(blank(" \t\r\n\u{3000}\u{a0}"));
    assert!(!blank(" x "));
    assert!(!blank("\u{fffd}"));
}

#[test]
fn bom_text_is_returned_even_when_malformed() {
    let result = decode_text(&[0xEF, 0xBB, 0xBF, 0xFF]).unwrap();
    assert_eq!(result, "\u{fffd}");
}

#[test]
fn whitespace_only_text_is_text() {
    assert!(!matches!(decode_text(b"   \n"), Err(TextProviderError::NotText)));
}
