//! Tokens.
use vstd::prelude::*;
use crate::ident::Ident;

verus! {

/// A token.
#[derive(Debug, PartialEq, Eq)]
pub enum Token {
    /// `->`
    Arrow,
    /// `|`
    Bar,
    /// `:`
    Colon,
    /// `::`
    ColonColon,
    /// `,`
    Comma,
    /// `.`
    Dot,
    /// `=`
    Equal,
    /// `{`
    LCurly,
    /// `(`
    LRound,
    /// `[`
    LSquare,
    /// `+`
    Plus,
    /// `}`
    RCurly,
    /// `)`
    RRound,
    /// `]`
    RSquare,
    /// `;`
    Semi,
    /// `_`
    Underscore,
    /// `affects`
    Affects,
    /// `ensures`
    Ensures,
    /// `enum`
    Enum,
    /// `fn`
    Fn_,
    /// `let`
    Let,
    /// `match`
    Match,
    /// `requires`
    Requires,
    /// `return`
    Return,
    /// `struct`
    Struct,
    /// A big identifier, starting with an uppercase letter.
    BigIdent(Ident),
    /// A small identifier, starting with a lowercase letter.
    Ident(Ident),
    /// A number literal.
    Number(u64),
    /// A string literal, without its quotes.
    String_(String),
}

/// The model of a [`Token`].
pub enum TokenV {
    Arrow,
    Bar,
    Colon,
    ColonColon,
    Comma,
    Dot,
    Equal,
    LCurly,
    LRound,
    LSquare,
    Plus,
    RCurly,
    RRound,
    RSquare,
    Semi,
    Underscore,
    Affects,
    Ensures,
    Enum,
    Fn_,
    Let,
    Match,
    Requires,
    Return,
    Struct,
    BigIdent(Seq<char>),
    Ident(Seq<char>),
    Number(u64),
    String_(Seq<char>),
}

/// How a token of this shape is described in a parse error.
pub open spec fn desc_of(t: TokenV) -> Seq<char> {
    match t {
        TokenV::Arrow => "->"@,
        TokenV::Bar => "|"@,
        TokenV::Colon => ":"@,
        TokenV::ColonColon => "::"@,
        TokenV::Comma => ","@,
        TokenV::Dot => "."@,
        TokenV::Equal => "="@,
        TokenV::LCurly => "{"@,
        TokenV::LRound => "("@,
        TokenV::LSquare => "["@,
        TokenV::Plus => "+"@,
        TokenV::RCurly => "}"@,
        TokenV::RRound => ")"@,
        TokenV::RSquare => "]"@,
        TokenV::Semi => ";"@,
        TokenV::Underscore => "_"@,
        TokenV::Affects => "affects"@,
        TokenV::Ensures => "ensures"@,
        TokenV::Enum => "enum"@,
        TokenV::Fn_ => "fn"@,
        TokenV::Let => "let"@,
        TokenV::Match => "match"@,
        TokenV::Requires => "requires"@,
        TokenV::Return => "return"@,
        TokenV::Struct => "struct"@,
        TokenV::BigIdent(_) => "a big identifier"@,
        TokenV::Ident(_) => "an identifier"@,
        TokenV::Number(_) => "a number"@,
        TokenV::String_(_) => "a string"@,
    }
}

impl Token {
    /// The model of this token.
    pub open spec fn v(&self) -> TokenV {
        match self {
            Token::Arrow => TokenV::Arrow,
            Token::Bar => TokenV::Bar,
            Token::Colon => TokenV::Colon,
            Token::ColonColon => TokenV::ColonColon,
            Token::Comma => TokenV::Comma,
            Token::Dot => TokenV::Dot,
            Token::Equal => TokenV::Equal,
            Token::LCurly => TokenV::LCurly,
            Token::LRound => TokenV::LRound,
            Token::LSquare => TokenV::LSquare,
            Token::Plus => TokenV::Plus,
            Token::RCurly => TokenV::RCurly,
            Token::RRound => TokenV::RRound,
            Token::RSquare => TokenV::RSquare,
            Token::Semi => TokenV::Semi,
            Token::Underscore => TokenV::Underscore,
            Token::Affects => TokenV::Affects,
            Token::Ensures => TokenV::Ensures,
            Token::Enum => TokenV::Enum,
            Token::Fn_ => TokenV::Fn_,
            Token::Let => TokenV::Let,
            Token::Match => TokenV::Match,
            Token::Requires => TokenV::Requires,
            Token::Return => TokenV::Return,
            Token::Struct => TokenV::Struct,
            Token::BigIdent(x) => TokenV::BigIdent(x@),
            Token::Ident(x) => TokenV::Ident(x@),
            Token::Number(n) => TokenV::Number(*n),
            Token::String_(s) => TokenV::String_(s@),
        }
    }

    /// A description of a token, as parse errors name what they expected.
    pub fn desc(&self) -> (r: &'static str)
        ensures
            r@ == desc_of(self.v()),
    {
        match self {
            Token::Arrow => "->",
            Token::Bar => "|",
            Token::Colon => ":",
            Token::ColonColon => "::",
            Token::Comma => ",",
            Token::Dot => ".",
            Token::Equal => "=",
            Token::LCurly => "{",
            Token::LRound => "(",
            Token::LSquare => "[",
            Token::Plus => "+",
            Token::RCurly => "}",
            Token::RRound => ")",
            Token::RSquare => "]",
            Token::Semi => ";",
            Token::Underscore => "_",
            Token::Affects => "affects",
            Token::Ensures => "ensures",
            Token::Enum => "enum",
            Token::Fn_ => "fn",
            Token::Let => "let",
            Token::Match => "match",
            Token::Requires => "requires",
            Token::Return => "return",
            Token::Struct => "struct",
            Token::BigIdent(_) => "a big identifier",
            Token::Ident(_) => "an identifier",
            Token::Number(_) => "a number",
            Token::String_(_) => "a string",
        }
    }

    /// A copy of this token.
    pub fn duplicate(&self) -> (r: Token)
        ensures
            r.v() == self.v(),
    {
        match self {
            Token::Arrow => Token::Arrow,
            Token::Bar => Token::Bar,
            Token::Colon => Token::Colon,
            Token::ColonColon => Token::ColonColon,
            Token::Comma => Token::Comma,
            Token::Dot => Token::Dot,
            Token::Equal => Token::Equal,
            Token::LCurly => Token::LCurly,
            Token::LRound => Token::LRound,
            Token::LSquare => Token::LSquare,
            Token::Plus => Token::Plus,
            Token::RCurly => Token::RCurly,
            Token::RRound => Token::RRound,
            Token::RSquare => Token::RSquare,
            Token::Semi => Token::Semi,
            Token::Underscore => Token::Underscore,
            Token::Affects => Token::Affects,
            Token::Ensures => Token::Ensures,
            Token::Enum => Token::Enum,
            Token::Fn_ => Token::Fn_,
            Token::Let => Token::Let,
            Token::Match => Token::Match,
            Token::Requires => Token::Requires,
            Token::Return => Token::Return,
            Token::Struct => Token::Struct,
            Token::BigIdent(x) => Token::BigIdent(x.duplicate()),
            Token::Ident(x) => Token::Ident(x.duplicate()),
            Token::Number(n) => Token::Number(*n),
            Token::String_(s) => Token::String_(s.clone()),
        }
    }
}

/// The models of a sequence of tokens.
pub open spec fn tokens_v(s: Seq<Token>) -> Seq<TokenV> {
    Seq::new(s.len(), |i: int| s[i].v())
}

} // verus!
