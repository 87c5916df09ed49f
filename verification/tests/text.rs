use rosu_parser::beatmap::text::{
    bytes_eq, find_byte, is_blank_byte, is_name, split_fields, strip_prefix, text_of, trim,
    trim_matches,
};

#[test]
fn trim_takes_blanks_off_both_ends() {
    assert_eq!(trim(b"  audio.mp3 \t"), b"audio.mp3");
    assert_eq!(trim(b"a b"), b"a b");
    assert_eq!(trim(b""), b"");
    assert_eq!(trim(b" \t\r\n"), b"");
    assert_eq!(trim(b"\x0bx\x0c"), b"x");
    assert_eq!(trim(b"\x85x\xa0"), b"x");
    assert_eq!(trim(b"x"), b"x");
}

#[test]
fn blank_bytes() {
    for b in [0x09u8, 0x0A, 0x0B, 0x0C, 0x0D, 0x20, 0x85, 0xA0] {
        assert!(is_blank_byte(b));
    }
    for b in [0x00u8, 0x08, 0x0E, 0x1F, 0x21, 0x41, 0x84, 0x86, 0x9F, 0xA1, 0xFF] {
        assert!(!is_blank_byte(b));
    }
}

#[test]
fn trim_matches_takes_every_quote() {
    assert_eq!(trim_matches(b"\"bg.jpg\"", b'"'), b"bg.jpg");
    assert_eq!(trim_matches(b"\"\"a\"b\"\"\"", b'"'), b"a\"b");
    assert_eq!(trim_matches(b"\"\"", b'"'), b"");
    assert_eq!(trim_matches(b"bg.jpg", b'"'), b"bg.jpg");
    assert_eq!(trim_matches(b" \"x\"", b'"'), b" \"x");
}

#[test]
fn strip_prefix_takes_every_copy() {
    assert_eq!(strip_prefix(b"v14", b"v"), b"14");
    assert_eq!(strip_prefix(b"vvv14", b"v"), b"14");
    assert_eq!(strip_prefix(b"14", b"v"), b"14");
    assert_eq!(strip_prefix(b"Combo1", b"Combo"), b"1");
    assert_eq!(strip_prefix(b"ComboCombo12", b"Combo"), b"12");
    assert_eq!(strip_prefix(b"Comb1", b"Combo"), b"Comb1");
    assert_eq!(strip_prefix(b"Combo", b"Combo"), b"");
    assert_eq!(strip_prefix(b"abc", b""), b"abc");
}

#[test]
fn split_cuts_at_every_separator() {
    assert_eq!(split_fields(b"a,b,c", b','), vec![&b"a"[..], &b"b"[..], &b"c"[..]]);
    assert_eq!(split_fields(b"", b','), vec![&b""[..]]);
    assert_eq!(split_fields(b",", b','), vec![&b""[..], &b""[..]]);
    assert_eq!(split_fields(b"a,,b,", b','), vec![&b"a"[..], &b""[..], &b"b"[..], &b""[..]]);
    assert_eq!(split_fields(b"abc", b','), vec![&b"abc"[..]]);
}

#[test]
fn split_is_blind_to_quotes() {
    assert_eq!(
        split_fields(b"0,0,\"my, file.jpg\",0,0", b','),
        vec![&b"0"[..], &b"0"[..], &b"\"my"[..], &b" file.jpg\""[..], &b"0"[..], &b"0"[..]]
    );
}

#[test]
fn find_byte_gives_the_first_place() {
    assert_eq!(find_byte(b"a,b,c", 0, b','), 1);
    assert_eq!(find_byte(b"a,b,c", 2, b','), 3);
    assert_eq!(find_byte(b"a,b,c", 4, b','), 5);
    assert_eq!(find_byte(b"a,b,c", 5, b','), 5);
    assert_eq!(find_byte(b"", 0, b','), 0);
}

#[test]
fn bytes_are_compared_whole() {
    assert!(bytes_eq(b"abc", b"abc"));
    assert!(bytes_eq(b"", b""));
    assert!(!bytes_eq(b"abc", b"abd"));
    assert!(!bytes_eq(b"abc", b"ab"));
    assert!(is_name(b"General", "General"));
    assert!(!is_name(b"general", "General"));
    assert!(!is_name(b"General ", "General"));
}

#[test]
fn text_reads_each_byte_as_a_character() {
    assert_eq!(text_of(b"audio.mp3"), "audio.mp3");
    assert_eq!(text_of(b""), "");
    assert_eq!(text_of(&[0xE9]), "\u{e9}");
    assert_eq!(text_of(&[0xC3, 0xA9]), "\u{c3}\u{a9}");
    assert_eq!(text_of(b"ab").len(), 2);
}
