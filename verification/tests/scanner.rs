use rosu_parser::beatmap::error::{Error, Token};
use rosu_parser::beatmap::scanner::{is_line_break_byte, is_space_byte, Scanner};

#[test]
fn scanner_starts_at_the_first_byte() {
    let s = Scanner::new(b"ab");
    assert_eq!(s.chr(), Some(b'a'));
    assert_eq!(s.line(), 0);
    assert_eq!(s.col(), 0);
    assert!(!s.eof());
    assert!(s.next_is(b'b'));
    assert!(!s.next_is(b'a'));
    let empty = Scanner::new(b"");
    assert_eq!(empty.chr(), None);
    assert!(empty.eof());
    assert!(!empty.next_is(b'a'));
}

#[test]
fn bump_counts_lines_and_columns() {
    let mut s = Scanner::new(b"ab\ncd\r\ne");
    s.bump();
    assert_eq!((s.chr(), s.line(), s.col()), (Some(b'b'), 0, 1));
    s.bump();
    assert_eq!((s.chr(), s.line(), s.col()), (Some(b'\n'), 0, 2));
    s.bump();
    assert_eq!((s.chr(), s.line(), s.col()), (Some(b'c'), 1, 0));
    s.bump();
    s.bump();
    assert_eq!((s.chr(), s.line(), s.col()), (Some(b'\r'), 1, 2));
    s.bump();
    assert_eq!((s.chr(), s.line(), s.col()), (Some(b'\n'), 1, 3));
    s.bump();
    assert_eq!((s.chr(), s.line(), s.col()), (Some(b'e'), 2, 0));
    s.bump();
    assert_eq!((s.chr(), s.line(), s.col()), (None, 2, 1));
    assert!(s.eof());
    s.bump();
    assert_eq!((s.chr(), s.line(), s.col()), (None, 2, 1));
}

#[test]
fn whitespace_is_skipped() {
    let mut s = Scanner::new(b" \t\r\n\x0c x");
    s.parse_whitespace();
    assert_eq!(s.chr(), Some(b'x'));
    assert_eq!((s.line(), s.col()), (1, 2));
    s.parse_whitespace();
    assert_eq!(s.chr(), Some(b'x'));
    let mut all = Scanner::new(b"  \n ");
    all.parse_whitespace();
    assert!(all.eof());
    let mut vt = Scanner::new(b"\x0bx");
    vt.parse_whitespace();
    assert_eq!(vt.chr(), Some(0x0b));
}

#[test]
fn inline_whitespace_stops_at_the_line_break() {
    let mut s = Scanner::new(b" \t \nx");
    s.parse_whitespace_except_line_break();
    assert_eq!(s.chr(), Some(b'\n'));
    let mut r = Scanner::new(b"  \r\nx");
    r.parse_whitespace_except_line_break();
    assert_eq!(r.chr(), Some(b'\r'));
    let mut x = Scanner::new(b"  x");
    x.parse_whitespace_except_line_break();
    assert_eq!(x.chr(), Some(b'x'));
}

#[test]
fn comment_runs_to_the_line_feed() {
    let mut s = Scanner::new(b"// c\r\nx");
    s.parse_comment();
    assert_eq!(s.chr(), Some(b'x'));
    assert_eq!((s.line(), s.col()), (1, 0));
    let mut open = Scanner::new(b"# no line feed");
    open.parse_comment();
    assert!(open.eof());
}

#[test]
fn token_ends_at_a_terminator() {
    let mut s = Scanner::new(b"key = value");
    let key = s.parse_str_until(&[Some(b'='), Some(b':')], Token::Key);
    assert_eq!(key, Ok(&b"key "[..]));
    assert_eq!(s.chr(), Some(b'='));
    let at_once = s.parse_str_until(&[Some(b'=')], Token::Key);
    assert_eq!(at_once, Ok(&b""[..]));
    assert_eq!(s.chr(), Some(b'='));
}

#[test]
fn token_may_end_with_the_input() {
    let mut s = Scanner::new(b"value");
    let value = s.parse_str_until(&[Some(b'\n'), None], Token::Key);
    assert_eq!(value, Ok(&b"value"[..]));
    assert!(s.eof());
    let again = s.parse_str_until(&[None], Token::Key);
    assert_eq!(again, Ok(&b""[..]));
}

#[test]
fn open_token_is_an_error() {
    let mut s = Scanner::new(b"General");
    let name = s.parse_str_until(&[Some(b']')], Token::SectionName);
    assert_eq!(name, Err(Error::UnexpectedEndOfInput(Token::SectionName)));
    assert!(s.eof());
    let mut empty = Scanner::new(b"");
    assert_eq!(
        empty.parse_str_until(&[Some(b'=')], Token::Key),
        Err(Error::UnexpectedEndOfInput(Token::Key))
    );
    let mut none = Scanner::new(b"abc");
    assert_eq!(none.parse_str_until(&[], Token::Key), Err(Error::UnexpectedEndOfInput(Token::Key)));
}

#[test]
fn line_ends_at_either_line_break() {
    let mut s = Scanner::new(b"one\rtwo\nthree");
    assert_eq!(s.parse_str_until_eol(), b"one");
    assert_eq!(s.chr(), Some(b'\r'));
    s.bump();
    assert_eq!(s.parse_str_until_eol(), b"two");
    s.bump();
    assert_eq!(s.parse_str_until_eol(), b"three");
    assert!(s.eof());
    assert_eq!(s.parse_str_until_eol(), b"");
}

#[test]
fn byte_classes() {
    for b in [b' ', b'\t', b'\n', 0x0c, b'\r'] {
        assert!(is_space_byte(b));
    }
    for b in [0x0bu8, 0x00, b'a', 0x85, 0xa0] {
        assert!(!is_space_byte(b));
    }
    assert!(is_line_break_byte(b'\n'));
    assert!(is_line_break_byte(b'\r'));
    assert!(!is_line_break_byte(b' '));
}
