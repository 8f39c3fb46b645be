use convert_nc::text::{split_string, trim_null_bytes};
use convert_nc::unpack::{unpack_fixed_string, unpack_fixed_string_array};

#[test]
fn trim_removes_trailing_nul_and_blanks() {
    assert_eq!(trim_null_bytes("2901237 \0\0".to_string()), "2901237");
    assert_eq!(trim_null_bytes("abc\0 \0".to_string()), "abc");
}

#[test]
fn trim_keeps_leading_and_inner_text() {
    assert_eq!(trim_null_bytes("  a b\0".to_string()), "  a b");
    assert_eq!(trim_null_bytes(String::new()), "");
    assert_eq!(trim_null_bytes("\0\0\0".to_string()), "");
}

#[test]
fn split_trims_each_piece() {
    assert_eq!(
        split_string("Pierre DOE, Jane ROE ,X".to_string(), ','),
        vec!["Pierre DOE".to_string(), "Jane ROE".to_string(), "X".to_string()]
    );
}

#[test]
fn split_keeps_empty_pieces() {
    assert_eq!(split_string(String::new(), ','), vec![String::new()]);
    assert_eq!(
        split_string("a,,b,".to_string(), ','),
        vec!["a".to_string(), String::new(), "b".to_string(), String::new()]
    );
}

#[test]
fn fixed_string_round_trip_with_nul_padding() {
    for s in ["", "R", "2901237", "Argo profile", "température"] {
        let width = 16;
        let mut raw = s.as_bytes().to_vec();
        raw.resize(width, 0);
        assert_eq!(unpack_fixed_string(Some(&raw[..]), width), s);
    }
}

#[test]
fn fixed_string_reads_only_its_width() {
    let raw = b"ABCDEFGH";
    assert_eq!(unpack_fixed_string(Some(&raw[..]), 4), "ABCD");
    assert_eq!(unpack_fixed_string(Some(&raw[..]), 20), "ABCDEFGH");
}

#[test]
fn fixed_string_space_padding_is_stripped() {
    let raw = b"CORIOLIS        ";
    assert_eq!(unpack_fixed_string(Some(&raw[..]), 16), "CORIOLIS");
}

#[test]
fn fixed_string_absent_is_empty() {
    assert_eq!(unpack_fixed_string(None, 8), "");
}

#[test]
fn fixed_string_invalid_utf8_is_replaced() {
    let raw = [0xffu8, b'a', 0, 0];
    assert_eq!(unpack_fixed_string(Some(&raw[..]), 4), "\u{FFFD}a");
}

#[test]
fn string_array_splits_into_chunks() {
    let raw = b"PRES    TEMP    PSAL    ";
    assert_eq!(
        unpack_fixed_string_array(Some(&raw[..]), 8, 3),
        vec!["PRES".to_string(), "TEMP".to_string(), "PSAL".to_string()]
    );
}

#[test]
fn string_array_length_is_count_when_absent() {
    let r = unpack_fixed_string_array(None, 16, 5);
    assert_eq!(r.len(), 5);
    assert!(r.iter().all(|s| s.is_empty()));
}

#[test]
fn string_array_length_is_count_when_short() {
    let raw = b"11";
    let r = unpack_fixed_string_array(Some(&raw[..]), 1, 4);
    assert_eq!(r, vec!["1".to_string(), "1".to_string(), String::new(), String::new()]);
}

#[test]
fn string_array_zero_width() {
    let raw = b"abc";
    let r = unpack_fixed_string_array(Some(&raw[..]), 0, 3);
    assert_eq!(r, vec![String::new(), String::new(), String::new()]);
}

#[test]
fn string_array_partial_last_chunk() {
    let raw = b"ABCDEF";
    let r = unpack_fixed_string_array(Some(&raw[..]), 4, 2);
    assert_eq!(r, vec!["ABCD".to_string(), "EF".to_string()]);
}

#[test]
fn trim_keeps_trailing_tab() {
    assert_eq!(trim_null_bytes("A\t\0".to_string()), "A\t");
    assert_eq!(trim_null_bytes("a\t".to_string()), "a\t");
    assert_eq!(trim_null_bytes("a\n \0".to_string()), "a\n");
}

#[test]
fn fixed_string_keeps_trailing_tab() {
    let raw = [0x41u8, 0x09];
    assert_eq!(unpack_fixed_string(Some(&raw[..]), 2), "A\t");
    assert_eq!(unpack_fixed_string_array(Some(&raw[..]), 2, 1), vec!["A\t".to_string()]);
}

#[test]
fn fixed_string_invalid_bytes_stay_within_width() {
    let raw = [0xffu8, 0xfe, 0xfd, 0xfc];
    let s = unpack_fixed_string(Some(&raw[..]), 4);
    assert!(s.chars().count() <= 4);
    assert!(s.contains('\u{FFFD}'));
}

#[test]
fn single_byte_field_reads_r_only_for_r() {
    assert_eq!(unpack_fixed_string(Some(&b"R"[..]), 1), "R");
    assert_eq!(unpack_fixed_string(Some(&[0xd2u8][..]), 1), "\u{FFFD}");
    assert_eq!(unpack_fixed_string(Some(&b" "[..]), 1), "");
    assert_eq!(unpack_fixed_string(Some(&[0u8][..]), 1), "");
}
