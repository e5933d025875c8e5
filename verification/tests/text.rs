use ichor::diag::Diag;
use ichor::text::{char_index, push_decimal, slice_between, str_eq, trim_newlines};

#[test]
fn char_index_counts_characters_before_a_byte_offset() {
    assert_eq!(char_index("Greek: αβγδ", 7), 7);
    assert_eq!(char_index("Greek: αβγδ", 9), 8);
    assert_eq!(char_index("Greek: αβγδ", 15), 11);
    assert_eq!(char_index("", 0), 0);
    assert_eq!(char_index("😀x", 4), 1);
}

#[test]
fn slice_between_takes_the_bytes_range() {
    assert_eq!(slice_between("Greek: αβγδ", 9, 13), "βγ");
    assert_eq!(slice_between("abc", 1, 1), "");
}

#[test]
fn str_eq_compares_characters() {
    assert!(str_eq("héllo", "héllo"));
    assert!(!str_eq("héllo", "hello"));
    assert!(!str_eq("a", "ab"));
}

#[test]
fn trim_newlines_strips_only_trailing_terminators() {
    assert_eq!(trim_newlines("x\r\n\r"), "x");
    assert_eq!(trim_newlines("\nx"), "\nx");
    assert_eq!(trim_newlines(""), "");
}

#[test]
fn decimal_digits() {
    let mut s = String::from("n=");
    push_decimal(&mut s, 0);
    assert_eq!(s, "n=0");
    let mut s = String::new();
    push_decimal(&mut s, 4294967295);
    assert_eq!(s, "4294967295");
    let mut s = String::new();
    push_decimal(&mut s, 1030);
    assert_eq!(s, "1030");
}

#[test]
fn diag_renders_position_and_message() {
    let d = Diag { msg: "unexpected token".to_string(), line: 12, col: 7, file: Some("main.ich".to_string()) };
    assert_eq!(d.to_string(), "main.ich:12:7: unexpected token");
    let d = Diag { msg: "oops".to_string(), line: 1, col: 10, file: None };
    assert_eq!(d.to_string(), "1:10: oops");
}
