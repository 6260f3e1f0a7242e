//! Lexing: bytes to tokens.
use vstd::prelude::*;
use vstd::utf8::{decode_utf8, valid_utf8, partial_valid_utf8, partial_valid_utf8_extend_ascii_block};
use crate::error::{Error, ErrorV, NumberError};
use crate::ident::Ident;
use crate::token::{Token, TokenV, tokens_v};

verus! {

/// A lowercase ASCII letter.
pub open spec fn is_lower(b: u8) -> bool {
    97 <= b <= 122
}

/// An uppercase ASCII letter.
pub open spec fn is_upper(b: u8) -> bool {
    65 <= b <= 90
}

/// An ASCII decimal digit.
pub open spec fn is_digit(b: u8) -> bool {
    48 <= b <= 57
}

/// An ASCII letter or digit.
pub open spec fn is_alnum(b: u8) -> bool {
    is_lower(b) || is_upper(b) || is_digit(b)
}

/// A byte that may continue a small identifier: lowercase letter, digit or `_`.
pub open spec fn is_ident_tl(b: u8) -> bool {
    is_lower(b) || is_digit(b) || b == 95
}

/// ASCII whitespace: space, tab, line feed, form feed, carriage return.
pub open spec fn is_space(b: u8) -> bool {
    b == 32 || b == 9 || b == 10 || b == 12 || b == 13
}

/// The first index from `i` on that holds a line feed, or the length.
pub open spec fn line_end(bs: Seq<u8>, i: int) -> int
    decreases bs.len() - i,
{
    if i < 0 || i >= bs.len() || bs[i] == 10 {
        if i < 0 { 0 } else { i }
    } else {
        line_end(bs, i + 1)
    }
}

/// The byte classes that a token's tail runs over.
#[derive(Clone, Copy, PartialEq, Eq, Structural)]
pub enum Run {
    /// Bytes of a small identifier after its first: lowercase letters, digits, `_`.
    IdentTail,
    /// Bytes of a big identifier after its first: ASCII letters and digits.
    Alnum,
    /// Bytes of a number literal after its first: ASCII letters, digits and `_`.
    NumberTail,
    /// Bytes of a string literal: anything but `"`.
    NotQuote,
}

/// Whether `b` belongs to a run of class `k`.
pub open spec fn in_run(k: Run, b: u8) -> bool {
    match k {
        Run::IdentTail => is_ident_tl(b),
        Run::Alnum => is_alnum(b),
        Run::NumberTail => is_alnum(b) || b == 95,
        Run::NotQuote => b != 34,
    }
}

/// The first index from `i` on whose byte is not of class `k`, or the length.
pub open spec fn run_end(bs: Seq<u8>, i: int, k: Run) -> int
    decreases bs.len() - i,
{
    if i < 0 || i >= bs.len() || !in_run(k, bs[i]) {
        if i < 0 { 0 } else { i }
    } else {
        run_end(bs, i + 1, k)
    }
}

/// The punctuation token at `i` and its length, longest match first.
pub open spec fn punct_at(bs: Seq<u8>, i: int) -> Option<(int, TokenV)> {
    let b = bs[i];
    let two = i + 1 < bs.len();
    if b == 45 && two && bs[i + 1] == 62 {
        Some((2, TokenV::Arrow))
    } else if b == 58 && two && bs[i + 1] == 58 {
        Some((2, TokenV::ColonColon))
    } else if b == 95 {
        Some((1, TokenV::Underscore))
    } else if b == 44 {
        Some((1, TokenV::Comma))
    } else if b == 59 {
        Some((1, TokenV::Semi))
    } else if b == 58 {
        Some((1, TokenV::Colon))
    } else if b == 46 {
        Some((1, TokenV::Dot))
    } else if b == 40 {
        Some((1, TokenV::LRound))
    } else if b == 41 {
        Some((1, TokenV::RRound))
    } else if b == 91 {
        Some((1, TokenV::LSquare))
    } else if b == 93 {
        Some((1, TokenV::RSquare))
    } else if b == 123 {
        Some((1, TokenV::LCurly))
    } else if b == 125 {
        Some((1, TokenV::RCurly))
    } else if b == 43 {
        Some((1, TokenV::Plus))
    } else if b == 61 {
        Some((1, TokenV::Equal))
    } else if b == 124 {
        Some((1, TokenV::Bar))
    } else {
        None
    }
}

/// The reserved word spelled by `w`, if any.
pub open spec fn keyword(w: Seq<u8>) -> Option<TokenV> {
    if w == seq![114u8, 101, 113, 117, 105, 114, 101, 115] {
        Some(TokenV::Requires)
    } else if w == seq![97u8, 102, 102, 101, 99, 116, 115] {
        Some(TokenV::Affects)
    } else if w == seq![101u8, 110, 115, 117, 114, 101, 115] {
        Some(TokenV::Ensures)
    } else if w == seq![114u8, 101, 116, 117, 114, 110] {
        Some(TokenV::Return)
    } else if w == seq![115u8, 116, 114, 117, 99, 116] {
        Some(TokenV::Struct)
    } else if w == seq![109u8, 97, 116, 99, 104] {
        Some(TokenV::Match)
    } else if w == seq![101u8, 110, 117, 109] {
        Some(TokenV::Enum)
    } else if w == seq![108u8, 101, 116] {
        Some(TokenV::Let)
    } else if w == seq![102u8, 110] {
        Some(TokenV::Fn_)
    } else {
        None
    }
}

/// The value of the digits of a number literal, read left to right, `_` skipped, as `u64`
/// parsing reads them.
pub open spec fn number_value(s: Seq<u8>) -> Result<u64, NumberError>
    decreases s.len(),
{
    if s.len() == 0 {
        Ok(0)
    } else {
        match number_value(s.drop_last()) {
            Err(e) => Err(e),
            Ok(a) => {
                let c = s.last();
                if c == 95 {
                    Ok(a)
                } else if !is_digit(c) {
                    Err(NumberError::InvalidDigit)
                } else if a * 10 + (c - 48) > u64::MAX {
                    Err(NumberError::PosOverflow)
                } else {
                    Ok((a * 10 + (c - 48)) as u64)
                }
            },
        }
    }
}

/// One step of lexing at `i < bs.len()`: where the next step starts and the token read, if any.
pub open spec fn lex_step(bs: Seq<u8>, i: int) -> Result<(int, Option<TokenV>), ErrorV> {
    let n = bs.len() as int;
    let b = bs[i];
    if b == 47 && i + 1 < n && bs[i + 1] == 47 {
        let e = line_end(bs, i + 2);
        Ok((if e < n { e + 1 } else { n }, None))
    } else if is_space(b) {
        Ok((i + 1, None))
    } else if punct_at(bs, i) is Some {
        let (len, t) = punct_at(bs, i)->0;
        Ok((i + len, Some(t)))
    } else if is_lower(b) {
        let j = run_end(bs, i + 1, Run::IdentTail);
        let w = bs.subrange(i, j);
        match keyword(w) {
            Some(t) => Ok((j, Some(t))),
            None => Ok((j, Some(TokenV::Ident(decode_utf8(w))))),
        }
    } else if is_upper(b) {
        let j = run_end(bs, i + 1, Run::Alnum);
        Ok((j, Some(TokenV::BigIdent(decode_utf8(bs.subrange(i, j))))))
    } else if is_digit(b) {
        let j = run_end(bs, i + 1, Run::NumberTail);
        match number_value(bs.subrange(i, j)) {
            Ok(v) => Ok((j, Some(TokenV::Number(v)))),
            Err(e) => Err(ErrorV::InvalidNumber(e)),
        }
    } else if b == 34 {
        let j = run_end(bs, i + 1, Run::NotQuote);
        if j >= n {
            Err(ErrorV::UnclosedString)
        } else if !valid_utf8(bs.subrange(i + 1, j)) {
            Err(ErrorV::InvalidUTF8)
        } else {
            Ok((j + 1, Some(TokenV::String_(decode_utf8(bs.subrange(i + 1, j))))))
        }
    } else {
        Err(ErrorV::InvalidByte(b))
    }
}

/// Each step moves forward.
pub proof fn lemma_step_advances(bs: Seq<u8>, i: int)
    requires
        0 <= i < bs.len(),
    ensures
        match lex_step(bs, i) {
            Ok(p) => i < p.0 <= bs.len(),
            Err(_) => true,
        },
{
    lemma_line_end(bs, i + 2);
    lemma_run_end(bs, i + 1, Run::IdentTail);
    lemma_run_end(bs, i + 1, Run::Alnum);
    lemma_run_end(bs, i + 1, Run::NumberTail);
    lemma_run_end(bs, i + 1, Run::NotQuote);
}

/// Where a comment's line ends.
pub proof fn lemma_line_end(bs: Seq<u8>, i: int)
    requires
        0 <= i,
    ensures
        i <= line_end(bs, i) <= bs.len() || (i > bs.len() && line_end(bs, i) == i),
    decreases bs.len() - i,
{
    if i < bs.len() && bs[i] != 10 {
        lemma_line_end(bs, i + 1);
    }
}

/// Where a run ends, and that every byte of it passes.
pub proof fn lemma_run_end(bs: Seq<u8>, i: int, p: Run)
    requires
        0 <= i,
    ensures
        i <= run_end(bs, i, p),
        i <= bs.len() ==> run_end(bs, i, p) <= bs.len(),
        i > bs.len() ==> run_end(bs, i, p) == i,
        forall|k: int| i <= k < run_end(bs, i, p) ==> in_run(p, #[trigger] bs[k]),
        run_end(bs, i, p) < bs.len() ==> !in_run(p, bs[run_end(bs, i, p)]),
    decreases bs.len() - i,
{
    if i < bs.len() && in_run(p, bs[i]) {
        lemma_run_end(bs, i + 1, p);
    }
}

/// The tokens of `bs` from position `i` on.
pub open spec fn lex_from(bs: Seq<u8>, i: int) -> Result<Seq<TokenV>, ErrorV>
    decreases bs.len() - i,
{
    if i < 0 || i >= bs.len() {
        Ok(Seq::empty())
    } else {
        match lex_step(bs, i) {
            Err(e) => Err(e),
            Ok((j, t)) => if j <= i || j > bs.len() {
                Ok(Seq::empty())
            } else {
                match lex_from(bs, j) {
                    Err(e) => Err(e),
                    Ok(ts) => match t {
                        Some(t) => Ok(seq![t] + ts),
                        None => Ok(ts),
                    },
                }
            },
        }
    }
}

/// The tokens of `bs`: whitespace and line comments separate tokens; punctuation matches
/// longest first; a run of identifier bytes that spells a reserved word is that word.
pub open spec fn lex(bs: Seq<u8>) -> Result<Seq<TokenV>, ErrorV> {
    lex_from(bs, 0)
}

/// `pre` followed by the tokens of `r`, or the error of `r`.
pub open spec fn prepend(pre: Seq<TokenV>, r: Result<Seq<TokenV>, ErrorV>) -> Result<Seq<TokenV>, ErrorV> {
    match r {
        Ok(ts) => Ok(pre + ts),
        Err(e) => Err(e),
    }
}

/// Relies on `std::str::from_utf8`: it succeeds exactly on valid UTF-8, and the text is the
/// decoded characters.
#[verifier::external_body]
fn utf8_text(b: &[u8]) -> (r: Result<String, std::str::Utf8Error>)
    ensures
        r is Ok <==> valid_utf8(b@),
        r is Ok ==> r->Ok_0@ == decode_utf8(b@),
{
    match std::str::from_utf8(b) {
        Ok(s) => Ok(s.to_owned()),
        Err(e) => Err(e),
    }
}

fn is_lower_b(b: u8) -> (r: bool)
    ensures
        r == is_lower(b),
{
    97 <= b && b <= 122
}

fn is_upper_b(b: u8) -> (r: bool)
    ensures
        r == is_upper(b),
{
    65 <= b && b <= 90
}

fn is_digit_b(b: u8) -> (r: bool)
    ensures
        r == is_digit(b),
{
    48 <= b && b <= 57
}

fn is_alnum_b(b: u8) -> (r: bool)
    ensures
        r == is_alnum(b),
{
    is_lower_b(b) || is_upper_b(b) || is_digit_b(b)
}

fn is_ident_tl_b(b: u8) -> (r: bool)
    ensures
        r == is_ident_tl(b),
{
    is_lower_b(b) || is_digit_b(b) || b == 95
}

/// The text of an ASCII run `bs[s..e]`.
fn ascii_text(bs: &[u8], s: usize, e: usize) -> (r: String)
    requires
        s <= e <= bs@.len(),
        forall|k: int| s <= k < e ==> #[trigger] bs@[k] < 128,
    ensures
        r@ == decode_utf8(bs@.subrange(s as int, e as int)),
{
    let w = &bs[s..e];
    proof {
        let ws = bs@.subrange(s as int, e as int);
        assert(ws.subrange(0, 0) =~= Seq::<u8>::empty());
        assert(valid_utf8(Seq::<u8>::empty()));
        assert(partial_valid_utf8(ws, 0));
        assert forall|k: int| 0 <= k < ws.len() implies #[trigger] vstd::utf8::is_leading_byte_width_1(ws[k]) by {
            assert(ws[k] == bs@[s + k]);
        }
        partial_valid_utf8_extend_ascii_block(ws, 0, ws.len() as int);
        assert(ws.subrange(0, ws.len() as int) =~= ws);
    }
    match utf8_text(w) {
        Ok(t) => t,
        Err(_) => String::new(),
    }
}

} // verus!

verus! {

/// Whether `bs[s..e]` spells `w`.
fn eq_word(bs: &[u8], s: usize, e: usize, w: &[u8]) -> (r: bool)
    requires
        s <= e <= bs@.len(),
    ensures
        r == (bs@.subrange(s as int, e as int) == w@),
{
    if e - s != w.len() {
        return false;
    }
    let mut k: usize = 0;
    while k < w.len()
        invariant
            e - s == w@.len(),
            s <= e <= bs@.len(),
            k <= w@.len(),
            forall|m: int| 0 <= m < k ==> bs@[s + m] == w@[m],
        decreases w@.len() - k,
    {
        if bs[s + k] != w[k] {
            assert(bs@.subrange(s as int, e as int)[k as int] != w@[k as int]);
            return false;
        }
        k += 1;
    }
    assert(bs@.subrange(s as int, e as int) =~= w@);
    true
}

} // verus!

verus! {

fn in_run_b(k: Run, b: u8) -> (r: bool)
    ensures
        r == in_run(k, b),
{
    match k {
        Run::IdentTail => is_ident_tl_b(b),
        Run::Alnum => is_alnum_b(b),
        Run::NumberTail => is_alnum_b(b) || b == 95,
        Run::NotQuote => b != 34,
    }
}

fn run_end_b(bs: &[u8], i: usize, k: Run) -> (r: usize)
    requires
        i <= bs@.len(),
    ensures
        r == run_end(bs@, i as int, k),
{
    let mut j = i;
    while j < bs.len() && in_run_b(k, bs[j])
        invariant
            i <= j <= bs@.len(),
            run_end(bs@, i as int, k) == run_end(bs@, j as int, k),
        decreases bs@.len() - j,
    {
        j += 1;
    }
    j
}

fn line_end_b(bs: &[u8], i: usize) -> (r: usize)
    requires
        i <= bs@.len(),
    ensures
        r == line_end(bs@, i as int),
{
    let mut j = i;
    while j < bs.len() && bs[j] != 10
        invariant
            i <= j <= bs@.len(),
            line_end(bs@, i as int) == line_end(bs@, j as int),
        decreases bs@.len() - j,
    {
        j += 1;
    }
    j
}

fn punct_b(bs: &[u8], i: usize) -> (r: Option<(usize, Token)>)
    requires
        i < bs@.len(),
    ensures
        match punct_at(bs@, i as int) {
            None => r is None,
            Some(p) => r is Some && (r->0).0 == p.0 && (r->0).1.v() == p.1,
        },
{
    let b = bs[i];
    let two = i + 1 < bs.len();
    if b == 45 && two && bs[i + 1] == 62 {
        Some((2, Token::Arrow))
    } else if b == 58 && two && bs[i + 1] == 58 {
        Some((2, Token::ColonColon))
    } else if b == 95 {
        Some((1, Token::Underscore))
    } else if b == 44 {
        Some((1, Token::Comma))
    } else if b == 59 {
        Some((1, Token::Semi))
    } else if b == 58 {
        Some((1, Token::Colon))
    } else if b == 46 {
        Some((1, Token::Dot))
    } else if b == 40 {
        Some((1, Token::LRound))
    } else if b == 41 {
        Some((1, Token::RRound))
    } else if b == 91 {
        Some((1, Token::LSquare))
    } else if b == 93 {
        Some((1, Token::RSquare))
    } else if b == 123 {
        Some((1, Token::LCurly))
    } else if b == 125 {
        Some((1, Token::RCurly))
    } else if b == 43 {
        Some((1, Token::Plus))
    } else if b == 61 {
        Some((1, Token::Equal))
    } else if b == 124 {
        Some((1, Token::Bar))
    } else {
        None
    }
}

fn keyword_b(bs: &[u8], s: usize, e: usize) -> (r: Option<Token>)
    requires
        s <= e <= bs@.len(),
    ensures
        match keyword(bs@.subrange(s as int, e as int)) {
            None => r is None,
            Some(t) => r is Some && r->0.v() == t,
        },
{
    let w_requires: [u8; 8] = [114, 101, 113, 117, 105, 114, 101, 115];
    let w_affects: [u8; 7] = [97, 102, 102, 101, 99, 116, 115];
    let w_ensures: [u8; 7] = [101, 110, 115, 117, 114, 101, 115];
    let w_return: [u8; 6] = [114, 101, 116, 117, 114, 110];
    let w_struct: [u8; 6] = [115, 116, 114, 117, 99, 116];
    let w_match: [u8; 5] = [109, 97, 116, 99, 104];
    let w_enum: [u8; 4] = [101, 110, 117, 109];
    let w_let: [u8; 3] = [108, 101, 116];
    let w_fn: [u8; 2] = [102, 110];
    assert(w_requires@ =~= seq![114u8, 101, 113, 117, 105, 114, 101, 115]);
    assert(w_affects@ =~= seq![97u8, 102, 102, 101, 99, 116, 115]);
    assert(w_ensures@ =~= seq![101u8, 110, 115, 117, 114, 101, 115]);
    assert(w_return@ =~= seq![114u8, 101, 116, 117, 114, 110]);
    assert(w_struct@ =~= seq![115u8, 116, 114, 117, 99, 116]);
    assert(w_match@ =~= seq![109u8, 97, 116, 99, 104]);
    assert(w_enum@ =~= seq![101u8, 110, 117, 109]);
    assert(w_let@ =~= seq![108u8, 101, 116]);
    assert(w_fn@ =~= seq![102u8, 110]);
    if eq_word(bs, s, e, &w_requires) {
        Some(Token::Requires)
    } else if eq_word(bs, s, e, &w_affects) {
        Some(Token::Affects)
    } else if eq_word(bs, s, e, &w_ensures) {
        Some(Token::Ensures)
    } else if eq_word(bs, s, e, &w_return) {
        Some(Token::Return)
    } else if eq_word(bs, s, e, &w_struct) {
        Some(Token::Struct)
    } else if eq_word(bs, s, e, &w_match) {
        Some(Token::Match)
    } else if eq_word(bs, s, e, &w_enum) {
        Some(Token::Enum)
    } else if eq_word(bs, s, e, &w_let) {
        Some(Token::Let)
    } else if eq_word(bs, s, e, &w_fn) {
        Some(Token::Fn_)
    } else {
        None
    }
}

fn number_b(bs: &[u8], s: usize, e: usize) -> (r: Result<u64, NumberError>)
    requires
        s <= e <= bs@.len(),
    ensures
        r == number_value(bs@.subrange(s as int, e as int)),
{
    let mut st: Result<u64, NumberError> = Ok(0);
    let mut k = s;
    assert(bs@.subrange(s as int, s as int) =~= Seq::<u8>::empty());
    while k < e
        invariant
            s <= k <= e <= bs@.len(),
            st == number_value(bs@.subrange(s as int, k as int)),
        decreases e - k,
    {
        let c = bs[k];
        assert(bs@.subrange(s as int, k + 1).drop_last() =~= bs@.subrange(s as int, k as int));
        st = match st {
            Err(x) => Err(x),
            Ok(a) => {
                if c == 95 {
                    Ok(a)
                } else if !is_digit_b(c) {
                    Err(NumberError::InvalidDigit)
                } else if a > (u64::MAX - (c - 48) as u64) / 10 {
                    assert(a * 10 + (c - 48) > u64::MAX) by (nonlinear_arith)
                        requires a > (u64::MAX - (c - 48) as u64) / 10, 0 <= c - 48 <= 9;
                    Err(NumberError::PosOverflow)
                } else {
                    assert(a * 10 + (c - 48) <= u64::MAX) by (nonlinear_arith)
                        requires a <= (u64::MAX - (c - 48) as u64) / 10, 0 <= c - 48 <= 9;
                    Ok(a * 10 + (c - 48) as u64)
                }
            },
        };
        k += 1;
    }
    st
}

/// One step of lexing at `i`, as [`lex_step`] says.
fn step(bs: &[u8], i: usize) -> (r: Result<(usize, Option<Token>), Error>)
    requires
        i < bs@.len(),
    ensures
        match lex_step(bs@, i as int) {
            Ok(p) => r is Ok && (r->Ok_0).0 == p.0 && match p.1 {
                None => (r->Ok_0).1 is None,
                Some(t) => (r->Ok_0).1 is Some && (r->Ok_0).1->0.v() == t,
            },
            Err(e) => r is Err && r->Err_0.v() == e,
        },
{
    let n = bs.len();
    let b = bs[i];
    proof {
        lemma_run_end(bs@, i + 1, Run::IdentTail);
        lemma_run_end(bs@, i + 1, Run::Alnum);
        lemma_run_end(bs@, i + 1, Run::NumberTail);
        lemma_run_end(bs@, i + 1, Run::NotQuote);
    }
    if b == 47 && i + 1 < n && bs[i + 1] == 47 {
        let e = line_end_b(bs, i + 2);
        return Ok((if e < n { e + 1 } else { n }, None));
    }
    if b == 32 || b == 9 || b == 10 || b == 12 || b == 13 {
        return Ok((i + 1, None));
    }
    if let Some((len, t)) = punct_b(bs, i) {
        return Ok((i + len, Some(t)));
    }
    if is_lower_b(b) {
        let j = run_end_b(bs, i + 1, Run::IdentTail);
        return match keyword_b(bs, i, j) {
            Some(t) => Ok((j, Some(t))),
            None => Ok((j, Some(Token::Ident(Ident(ascii_text(bs, i, j)))))),
        };
    }
    if is_upper_b(b) {
        let j = run_end_b(bs, i + 1, Run::Alnum);
        return Ok((j, Some(Token::BigIdent(Ident(ascii_text(bs, i, j))))));
    }
    if is_digit_b(b) {
        let j = run_end_b(bs, i + 1, Run::NumberTail);
        return match number_b(bs, i, j) {
            Ok(v) => Ok((j, Some(Token::Number(v)))),
            Err(e) => Err(Error::InvalidNumber(e)),
        };
    }
    if b == 34 {
        let j = run_end_b(bs, i + 1, Run::NotQuote);
        if j >= n {
            return Err(Error::UnclosedString);
        }
        return match utf8_text(&bs[i + 1..j]) {
            Ok(t) => Ok((j + 1, Some(Token::String_(t)))),
            Err(e) => Err(Error::InvalidUTF8(e)),
        };
    }
    Err(Error::InvalidByte(b))
}

/// Turns a sequence of bytes into a sequence of tokens, as [`lex`] says.
pub fn get(bs: &[u8]) -> (r: Result<Vec<Token>, Error>)
    ensures
        match r {
            Ok(ts) => lex(bs@) == Ok::<Seq<TokenV>, ErrorV>(tokens_v(ts@)),
            Err(e) => lex(bs@) == Err::<Seq<TokenV>, ErrorV>(e.v()),
        },
{
    let mut ret: Vec<Token> = Vec::new();
    let mut i: usize = 0;
    while i < bs.len()
        invariant
            i <= bs@.len(),
            lex(bs@) == prepend(tokens_v(ret@), lex_from(bs@, i as int)),
        decreases bs@.len() - i,
    {
        proof {
            lemma_step_advances(bs@, i as int);
        }
        match step(bs, i) {
            Err(e) => {
                return Err(e);
            },
            Ok((j, t)) => {
                let ghost old_ret = tokens_v(ret@);
                match t {
                    Some(t) => {
                        ret.push(t);
                        proof {
                            assert(tokens_v(ret@) =~= old_ret.push(ret@.last().v()));
                            match lex_from(bs@, j as int) {
                                Ok(ts) => {
                                    assert(old_ret + (seq![ret@.last().v()] + ts) =~= tokens_v(ret@) + ts);
                                },
                                Err(_) => {},
                            }
                        }
                    },
                    None => {},
                }
                i = j;
            },
        }
    }
    proof {
        assert(tokens_v(ret@) + Seq::<TokenV>::empty() =~= tokens_v(ret@));
    }
    Ok(ret)
}

} // verus!
