//! Tests of output normalization.

use lazyqmk::normalize_output;
use lazyqmk::normalize_firmware_output;

#[test]
fn test_normalize_timestamp() {
    let input = "// Generated at: 2025-01-16T10:30:45Z";
    let expected = "// Generated at: <TIMESTAMP>";
    assert_eq!(normalize_output(input), expected);
}

#[test]
fn test_normalize_uuid() {
    let input = "layer_id: 12345678-1234-1234-1234-123456789abc";
    let expected = "layer_id: <UUID>";
    assert_eq!(normalize_output(input), expected);
}

#[test]
fn test_normalize_unix_path() {
    let input = "path: /Users/user/dev/qmk_firmware";
    let expected = "path: <PATH>";
    assert_eq!(normalize_output(input), expected);
}

#[test]
fn test_normalize_windows_path() {
    let input = r"path: C:\Users\user\dev\qmk_firmware";
    let expected = "path: <PATH>";
    assert_eq!(normalize_output(input), expected);
}

#[test]
fn test_normalize_preserves_code() {
    let input = "const uint16_t PROGMEM keymaps[][MATRIX_ROWS][MATRIX_COLS] = {";
    assert_eq!(normalize_output(input), input);
}

#[test]
fn test_normalize_trailing_whitespace() {
    let input = "line with spaces   \n";
    let expected = "line with spaces";
    assert_eq!(normalize_output(input), expected);
}

#[test]
fn test_normalize_firmware_drops_version_lines() {
    let input = "keep this\n// QMK version: 0.22\nand this";
    let expected = "keep this\nand this";
    assert_eq!(normalize_firmware_output(input), expected);
}

#[test]
fn test_normalize_multiline() {
    let input = "first  \nsecond\nthird";
    assert_eq!(normalize_output(input), "first\nsecond\nthird");
}
