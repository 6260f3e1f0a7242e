use birb_core::error::{Error, NumberError};
use birb_core::ident::Ident;
use birb_core::lex::get;
use birb_core::token::Token as T;

#[test]
fn empty() {
    assert_eq!(get(b"").unwrap(), vec![]);
}

#[test]
fn number() {
    assert_eq!(get(b"123").unwrap(), vec![T::Number(123)]);
}

#[test]
fn number_leading_zeroes() {
    assert_eq!(get(b"00000123").unwrap(), vec![T::Number(123)]);
}

#[test]
fn number_ok_underscores() {
    assert_eq!(get(b"123_456").unwrap(), vec![T::Number(123_456)]);
}

#[test]
fn number_weird_underscores() {
    assert_eq!(get(b"1__2______3_____").unwrap(), vec![T::Number(123)]);
}

#[test]
fn string() {
    assert_eq!(
        get(b"\"hey hey\"").unwrap(),
        vec![T::String_("hey hey".to_owned())]
    );
}

#[test]
fn complex() {
    assert_eq!(
        get(b"return ( ) match{foo}Bar[123]").unwrap(),
        vec![
            T::Return,
            T::LRound,
            T::RRound,
            T::Match,
            T::LCurly,
            T::Ident(Ident::new("foo")),
            T::RCurly,
            T::BigIdent(Ident::new("Bar")),
            T::LSquare,
            T::Number(123),
            T::RSquare
        ]
    );
}

#[test]
fn too_big_number() {
    assert!(get(b"999999999999999999999999999999999999").is_err());
}

#[test]
fn unterminated_string() {
    assert!(get(b"\"foo bar").is_err());
}

#[test]
fn comment() {
    assert_eq!(get(b"3// hi\n4").unwrap(), vec![T::Number(3), T::Number(4)]);
}

#[test]
fn largest_number() {
    assert_eq!(get(b"18446744073709551615").unwrap(), vec![T::Number(u64::MAX)]);
}

#[test]
fn one_past_largest_number_overflows() {
    assert_eq!(
        get(b"18446744073709551616"),
        Err(Error::InvalidNumber(NumberError::PosOverflow))
    );
}

#[test]
fn letters_in_number() {
    assert_eq!(get(b"12ab"), Err(Error::InvalidNumber(NumberError::InvalidDigit)));
}

#[test]
fn invalid_byte() {
    assert_eq!(get(b"a # b"), Err(Error::InvalidByte(b'#')));
    assert_eq!(get(b"-"), Err(Error::InvalidByte(b'-')));
}

#[test]
fn unclosed_string_error() {
    assert_eq!(get(b"\"abc"), Err(Error::UnclosedString));
}

#[test]
fn invalid_utf8_in_string() {
    assert!(matches!(get(b"\"a\xffb\""), Err(Error::InvalidUTF8(_))));
}

#[test]
fn non_ascii_string_kept() {
    assert_eq!(
        get("\"h\u{e9}llo\"".as_bytes()).unwrap(),
        vec![T::String_("h\u{e9}llo".to_owned())]
    );
}

#[test]
fn longest_punctuation_first() {
    assert_eq!(
        get(b"-> :: : ,.=_;|+").unwrap(),
        vec![
            T::Arrow,
            T::ColonColon,
            T::Colon,
            T::Comma,
            T::Dot,
            T::Equal,
            T::Underscore,
            T::Semi,
            T::Bar,
            T::Plus
        ]
    );
}

#[test]
fn reserved_word_needs_boundary() {
    assert_eq!(
        get(b"returning fn fn_x let1 type").unwrap(),
        vec![
            T::Ident(Ident::new("returning")),
            T::Fn_,
            T::Ident(Ident::new("fn_x")),
            T::Ident(Ident::new("let1")),
            T::Ident(Ident::new("type")),
        ]
    );
}

#[test]
fn all_reserved_words() {
    assert_eq!(
        get(b"fn let match return struct enum requires ensures affects").unwrap(),
        vec![
            T::Fn_,
            T::Let,
            T::Match,
            T::Return,
            T::Struct,
            T::Enum,
            T::Requires,
            T::Ensures,
            T::Affects
        ]
    );
}

#[test]
fn comment_at_end_of_input() {
    assert_eq!(get(b"x // no newline").unwrap(), vec![T::Ident(Ident::new("x"))]);
}

#[test]
fn big_identifier_with_digits() {
    assert_eq!(get(b"Foo2Bar x").unwrap(), vec![T::BigIdent(Ident::new("Foo2Bar")), T::Ident(Ident::new("x"))]);
}

#[test]
fn token_descriptions() {
    assert_eq!(T::Arrow.desc(), "->");
    assert_eq!(T::Requires.desc(), "requires");
    assert_eq!(T::Number(3).desc(), "a number");
    assert_eq!(T::Ident(Ident::new("x")).desc(), "an identifier");
}
