use tmj_app::decimal::{decimal_u64, parse_digits_u32};
use tmj_app::preparse::{preparse_line, preparse_script_lines};

fn lines(src: &[&str]) -> Vec<Vec<u8>> {
    src.iter().map(|l| l.as_bytes().to_vec()).collect()
}

fn text(out: &[Vec<u8>]) -> Vec<String> {
    out.iter().map(|l| String::from_utf8(l.clone()).unwrap()).collect()
}

#[test]
fn plain_markers_get_numbers() {
    let src = lines(&["intro", "#", "text", "# title", "more", "#"]);
    let out = preparse_script_lines(&src, None);
    assert_eq!(text(&out), vec!["intro", "#1", "text", "#2 title", "more", "#3"]);
}

#[test]
fn numbered_marker_sets_the_counter() {
    let src = lines(&["#", "#10 chapter", "#", "#x", "#7", "#"]);
    let out = preparse_script_lines(&src, None);
    assert_eq!(text(&out), vec!["#1", "#10 chapter", "#10", "#11x", "#7", "#7"]);
}

#[test]
fn origin_number_is_the_first_number() {
    let src = lines(&["#", "#"]);
    let out = preparse_script_lines(&src, Some(42));
    assert_eq!(text(&out), vec!["#42", "#43"]);
}

#[test]
fn number_too_large_keeps_the_counter() {
    let src = lines(&["#99999999999", "#"]);
    let out = preparse_script_lines(&src, Some(5));
    assert_eq!(text(&out), vec!["#99999999999", "#5"]);
}

#[test]
fn preparse_twice_changes_nothing() {
    let src = lines(&["a", "#", "b", "#", "#5", "#"]);
    let once = preparse_script_lines(&src, None);
    let twice = preparse_script_lines(&once, None);
    assert_eq!(once, twice);
}

#[test]
fn preparse_line_counter() {
    assert_eq!(preparse_line(b"#abc", 9), (b"#9abc".to_vec(), 10));
    assert_eq!(preparse_line(b"#12abc", 9), (b"#12abc".to_vec(), 12));
    assert_eq!(preparse_line(b"abc", 9), (b"abc".to_vec(), 9));
    assert_eq!(preparse_line(b"", 9), (b"".to_vec(), 9));
}

#[test]
fn decimal_digits() {
    assert_eq!(decimal_u64(0), b"0".to_vec());
    assert_eq!(decimal_u64(1203), b"1203".to_vec());
    assert_eq!(decimal_u64(u64::MAX), u64::MAX.to_string().into_bytes());
    assert_eq!(parse_digits_u32(b"4294967295"), Some(u32::MAX));
    assert_eq!(parse_digits_u32(b"4294967296"), None);
    assert_eq!(parse_digits_u32(b"007"), Some(7));
}
