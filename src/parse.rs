//! Parsing: tokens to top-level definitions, by recursive descent.
use vstd::prelude::*;
use crate::cst::{
    Arm, Block, EnumDefn, Expr, Field, FnDefn, Kind, Kinded, Param, Pat, Stmt, StructDefn, TopDefn,
    arms_v, exprs_v, fields_v, kind_params_v, kindeds_v, kinds_v, params_v, pats_v, stmts_v,
    top_defns_v, opt_expr_v,
};
use crate::error::{Error, ErrorV, Found};
use crate::ident::Ident;
use crate::parse_spec::{
    at, eat, found, p_arms, p_big_ident, p_big_param, p_big_param_list_opt, p_big_params, p_block,
    p_call_opt, p_clause, p_ctor, p_expr, p_expr_hd, p_expr_tail, p_exprs, p_field, p_fields,
    p_ident, p_kind, p_kind_hd, p_kinded, p_kinded_args_opt, p_kinded_hd, p_kindeds, p_kinds,
    p_param, p_params, p_pat, p_pats, p_stmt, p_stmts, p_top_defn, p_top_defns, p_type_annotation,
    parse,
};
use crate::token::{Token, TokenV, tokens_v};

verus! {

/// The models of the tokens.
pub open spec fn tv(ts: &Vec<Token>) -> Seq<TokenV> {
    tokens_v(ts@)
}

/// `pre` followed by what `r` read, or the error of `r`.
pub open spec fn pre_ok<T>(pre: Seq<T>, r: Result<(int, Seq<T>), ErrorV>) -> Result<(int, Seq<T>), ErrorV> {
    match r {
        Ok((j, xs)) => Ok((j, pre + xs)),
        Err(e) => Err(e),
    }
}

/// Whether two tokens have equal models.
fn token_same(a: &Token, b: &Token) -> (r: bool)
    ensures
        r == (a.v() == b.v()),
{
    match (a, b) {
        (Token::Arrow, Token::Arrow) => true,
        (Token::Bar, Token::Bar) => true,
        (Token::Colon, Token::Colon) => true,
        (Token::ColonColon, Token::ColonColon) => true,
        (Token::Comma, Token::Comma) => true,
        (Token::Dot, Token::Dot) => true,
        (Token::Equal, Token::Equal) => true,
        (Token::LCurly, Token::LCurly) => true,
        (Token::LRound, Token::LRound) => true,
        (Token::LSquare, Token::LSquare) => true,
        (Token::Plus, Token::Plus) => true,
        (Token::RCurly, Token::RCurly) => true,
        (Token::RRound, Token::RRound) => true,
        (Token::RSquare, Token::RSquare) => true,
        (Token::Semi, Token::Semi) => true,
        (Token::Underscore, Token::Underscore) => true,
        (Token::Affects, Token::Affects) => true,
        (Token::Ensures, Token::Ensures) => true,
        (Token::Enum, Token::Enum) => true,
        (Token::Fn_, Token::Fn_) => true,
        (Token::Let, Token::Let) => true,
        (Token::Match, Token::Match) => true,
        (Token::Requires, Token::Requires) => true,
        (Token::Return, Token::Return) => true,
        (Token::Struct, Token::Struct) => true,
        (Token::BigIdent(x), Token::BigIdent(y)) => x.same(y),
        (Token::Ident(x), Token::Ident(y)) => x.same(y),
        (Token::Number(x), Token::Number(y)) => *x == *y,
        (Token::String_(x), Token::String_(y)) => *x == *y,
        _ => false,
    }
}

fn found_b(ts: &Vec<Token>, i: usize) -> (r: Found)
    ensures
        r.v() == found(tv(ts), i as int),
{
    if i < ts.len() {
        Found::Token(ts[i].duplicate())
    } else {
        Found::EOF
    }
}

fn at_b(ts: &Vec<Token>, i: usize, t: &Token) -> (r: bool)
    ensures
        r == at(tv(ts), i as int, t.v()),
        r ==> i < ts.len(),
{
    i < ts.len() && token_same(&ts[i], t)
}

fn eat_b(ts: &Vec<Token>, i: usize, t: Token) -> (r: Result<usize, Error>)
    ensures
        match eat(tv(ts), i as int, t.v()) {
            Ok(j) => r is Ok && r->Ok_0 == j,
            Err(e) => r is Err && r->Err_0.v() == e,
        },
        r is Ok ==> i < r->Ok_0 <= ts@.len(),
{
    if at_b(ts, i, &t) {
        Ok(i + 1)
    } else {
        Err(Error::Parse(t.desc(), found_b(ts, i)))
    }
}

fn ident_b(ts: &Vec<Token>, i: usize) -> (r: Result<(usize, Ident), Error>)
    ensures
        match p_ident(tv(ts), i as int) {
            Ok((j, x)) => r is Ok && (r->Ok_0).0 == j && (r->Ok_0).1@ == x,
            Err(e) => r is Err && r->Err_0.v() == e,
        },
        r is Ok ==> i < (r->Ok_0).0 <= ts@.len(),
{
    if i < ts.len() {
        if let Token::Ident(x) = &ts[i] {
            return Ok((i + 1, x.duplicate()));
        }
    }
    Err(Error::Parse("an identifier", found_b(ts, i)))
}

fn big_ident_b(ts: &Vec<Token>, i: usize) -> (r: Result<(usize, Ident), Error>)
    ensures
        match p_big_ident(tv(ts), i as int) {
            Ok((j, x)) => r is Ok && (r->Ok_0).0 == j && (r->Ok_0).1@ == x,
            Err(e) => r is Err && r->Err_0.v() == e,
        },
        r is Ok ==> i < (r->Ok_0).0 <= ts@.len(),
{
    if i < ts.len() {
        if let Token::BigIdent(x) = &ts[i] {
            return Ok((i + 1, x.duplicate()));
        }
    }
    Err(Error::Parse("a big identifier", found_b(ts, i)))
}

fn kind_b(ts: &Vec<Token>, i: usize) -> (r: Result<(usize, Kind), Error>)
    requires
        i <= ts@.len(),
    ensures
        match p_kind(tv(ts), i as int) {
            Ok((j, k)) => r is Ok && (r->Ok_0).0 == j && (r->Ok_0).1.v() == k,
            Err(e) => r is Err && r->Err_0.v() == e,
        },
        r is Ok ==> i < (r->Ok_0).0 <= ts@.len(),
    decreases ts@.len() - i, 2int,
{
    match kind_hd_b(ts, i) {
        Err(e) => Err(e),
        Ok((j, k)) => {
            if at_b(ts, j, &Token::Arrow) {
                match kind_b(ts, j + 1) {
                    Err(e) => Err(e),
                    Ok((m, k2)) => Ok((m, Kind::Arrow(Box::new(k), Box::new(k2)))),
                }
            } else {
                Ok((j, k))
            }
        },
    }
}

fn kind_hd_b(ts: &Vec<Token>, i: usize) -> (r: Result<(usize, Kind), Error>)
    requires
        i <= ts@.len(),
    ensures
        match p_kind_hd(tv(ts), i as int) {
            Ok((j, k)) => r is Ok && (r->Ok_0).0 == j && (r->Ok_0).1.v() == k,
            Err(e) => r is Err && r->Err_0.v() == e,
        },
        r is Ok ==> i < (r->Ok_0).0 <= ts@.len(),
    decreases ts@.len() - i, 1int,
{
    if i < ts.len() {
        if let Token::BigIdent(x) = &ts[i] {
            if x.same(&Ident::new("Type")) {
                return Ok((i + 1, Kind::Type));
            } else if x.same(&Ident::new("Effect")) {
                return Ok((i + 1, Kind::Effect));
            } else {
                return Err(Error::Parse("a kind", found_b(ts, i)));
            }
        }
    }
    if at_b(ts, i, &Token::LRound) {
        let (j, mut ks) = kinds_b(ts, i + 1);
        match eat_b(ts, j, Token::RRound) {
            Err(e) => Err(e),
            Ok(m) => {
                if ks.len() == 1 {
                    let k = ks.pop().unwrap();
                    Ok((m, k))
                } else {
                    Ok((m, Kind::Tuple(ks)))
                }
            },
        }
    } else {
        Err(Error::Parse("a kind", found_b(ts, i)))
    }
}

fn kinds_b(ts: &Vec<Token>, i: usize) -> (r: (usize, Vec<Kind>))
    requires
        i <= ts@.len(),
    ensures
        r.0 == p_kinds(tv(ts), i as int).0,
        kinds_v(r.1@) == p_kinds(tv(ts), i as int).1,
        i <= r.0 <= ts@.len(),
    decreases ts@.len() - i, 3int,
{
    let mut acc: Vec<Kind> = Vec::new();
    let mut k = i;
    assert(kinds_v(acc@) + p_kinds(tv(ts), i as int).1 =~= p_kinds(tv(ts), i as int).1);
    loop
        invariant
            i <= k <= ts@.len(),
            p_kinds(tv(ts), i as int).0 == p_kinds(tv(ts), k as int).0,
            p_kinds(tv(ts), i as int).1 == kinds_v(acc@) + p_kinds(tv(ts), k as int).1,
        decreases ts@.len() - k,
    {
        match kind_b(ts, k) {
            Err(_) => {
                assert(kinds_v(acc@) + Seq::<crate::cst::KindV>::empty() =~= kinds_v(acc@));
                return (k, acc);
            },
            Ok((j, x)) => {
                let ghost pre = kinds_v(acc@);
                let ghost xv = x.v();
                acc.push(x);
                assert(kinds_v(acc@) =~= pre.push(xv));
                if at_b(ts, j, &Token::Comma) {
                    assert(pre + (seq![xv] + p_kinds(tv(ts), j + 1).1) =~= kinds_v(acc@) + p_kinds(tv(ts), j + 1).1);
                    k = j + 1;
                } else {
                    assert(pre + seq![xv] =~= kinds_v(acc@));
                    return (j, acc);
                }
            },
        }
    }
}

fn kinded_b(ts: &Vec<Token>, i: usize) -> (r: Result<(usize, Kinded), Error>)
    requires
        i <= ts@.len(),
    ensures
        match p_kinded(tv(ts), i as int) {
            Ok((j, k)) => r is Ok && (r->Ok_0).0 == j && (r->Ok_0).1.v() == k,
            Err(e) => r is Err && r->Err_0.v() == e,
        },
        r is Ok ==> i < (r->Ok_0).0 <= ts@.len(),
    decreases ts@.len() - i, 3int,
{
    match kinded_hd_b(ts, i) {
        Err(e) => Err(e),
        Ok((j, t)) => {
            if at_b(ts, j, &Token::Arrow) {
                match kinded_b(ts, j + 1) {
                    Err(e) => Err(e),
                    Ok((m, t2)) => Ok((m, Kinded::Arrow(Box::new(t), Box::new(t2)))),
                }
            } else if at_b(ts, j, &Token::Affects) {
                match kinded_b(ts, j + 1) {
                    Err(e) => Err(e),
                    Ok((m, e)) => Ok((m, Kinded::Effectful(Box::new(t), Box::new(e)))),
                }
            } else {
                Ok((j, t))
            }
        },
    }
}

fn kinded_hd_b(ts: &Vec<Token>, i: usize) -> (r: Result<(usize, Kinded), Error>)
    requires
        i <= ts@.len(),
    ensures
        match p_kinded_hd(tv(ts), i as int) {
            Ok((j, k)) => r is Ok && (r->Ok_0).0 == j && (r->Ok_0).1.v() == k,
            Err(e) => r is Err && r->Err_0.v() == e,
        },
        r is Ok ==> i < (r->Ok_0).0 <= ts@.len(),
    decreases ts@.len() - i, 2int,
{
    if i < ts.len() {
        if let Token::BigIdent(x) = &ts[i] {
            return match kinded_args_opt_b(ts, i + 1) {
                Err(e) => Err(e),
                Ok((j, args, _)) => Ok((j, Kinded::Ident(x.duplicate(), args))),
            };
        }
    }
    if at_b(ts, i, &Token::LRound) {
        let (j, mut xs) = kindeds_b(ts, i + 1);
        match eat_b(ts, j, Token::RRound) {
            Err(e) => Err(e),
            Ok(m) => {
                if xs.len() == 1 {
                    let x = xs.pop().unwrap();
                    Ok((m, x))
                } else {
                    Ok((m, Kinded::Tuple(xs)))
                }
            },
        }
    } else if at_b(ts, i, &Token::LCurly) {
        let (j, mut xs) = kindeds_b(ts, i + 1);
        match eat_b(ts, j, Token::RCurly) {
            Err(e) => Err(e),
            Ok(m) => {
                if xs.len() == 1 {
                    let x = xs.pop().unwrap();
                    Ok((m, x))
                } else {
                    Ok((m, Kinded::Effects(xs)))
                }
            },
        }
    } else {
        Err(Error::Parse("a type or effect", found_b(ts, i)))
    }
}

fn kinded_args_opt_b(ts: &Vec<Token>, i: usize) -> (r: Result<(usize, Vec<Kinded>, bool), Error>)
    requires
        i <= ts@.len(),
    ensures
        match p_kinded_args_opt(tv(ts), i as int) {
            Ok((j, xs, got)) => r is Ok && (r->Ok_0).0 == j && kindeds_v((r->Ok_0).1@) == xs
                && (r->Ok_0).2 == got,
            Err(e) => r is Err && r->Err_0.v() == e,
        },
        r is Ok ==> i <= (r->Ok_0).0 <= ts@.len(),
    decreases ts@.len() - i, 1int,
{
    if !at_b(ts, i, &Token::LSquare) {
        let none: Vec<Kinded> = Vec::new();
        assert(kindeds_v(none@) =~= Seq::empty());
        return Ok((i, none, false));
    }
    let (j, xs) = kindeds_b(ts, i + 1);
    match eat_b(ts, j, Token::RSquare) {
        Err(e) => Err(e),
        Ok(m) => {
            if xs.len() == 0 {
                Err(Error::EmptyKindedArgs)
            } else {
                Ok((m, xs, true))
            }
        },
    }
}

fn kindeds_b(ts: &Vec<Token>, i: usize) -> (r: (usize, Vec<Kinded>))
    requires
        i <= ts@.len(),
    ensures
        r.0 == p_kindeds(tv(ts), i as int).0,
        kindeds_v(r.1@) == p_kindeds(tv(ts), i as int).1,
        i <= r.0 <= ts@.len(),
    decreases ts@.len() - i, 4int,
{
    let mut acc: Vec<Kinded> = Vec::new();
    let mut k = i;
    assert(kindeds_v(acc@) + p_kindeds(tv(ts), i as int).1 =~= p_kindeds(tv(ts), i as int).1);
    loop
        invariant
            i <= k <= ts@.len(),
            p_kindeds(tv(ts), i as int).0 == p_kindeds(tv(ts), k as int).0,
            p_kindeds(tv(ts), i as int).1 == kindeds_v(acc@) + p_kindeds(tv(ts), k as int).1,
        decreases ts@.len() - k,
    {
        match kinded_b(ts, k) {
            Err(_) => {
                assert(kindeds_v(acc@) + Seq::<crate::cst::KindedV>::empty() =~= kindeds_v(acc@));
                return (k, acc);
            },
            Ok((j, x)) => {
                let ghost pre = kindeds_v(acc@);
                let ghost xv = x.v();
                acc.push(x);
                assert(kindeds_v(acc@) =~= pre.push(xv));
                if at_b(ts, j, &Token::Comma) {
                    assert(pre + (seq![xv] + p_kindeds(tv(ts), j + 1).1) =~= kindeds_v(acc@) + p_kindeds(tv(ts), j + 1).1);
                    k = j + 1;
                } else {
                    assert(pre + seq![xv] =~= kindeds_v(acc@));
                    return (j, acc);
                }
            },
        }
    }
}

fn pat_b(ts: &Vec<Token>, i: usize) -> (r: Result<(usize, Pat), Error>)
    requires
        i <= ts@.len(),
    ensures
        match p_pat(tv(ts), i as int) {
            Ok((j, p)) => r is Ok && (r->Ok_0).0 == j && (r->Ok_0).1.v() == p,
            Err(e) => r is Err && r->Err_0.v() == e,
        },
        r is Ok ==> i < (r->Ok_0).0 <= ts@.len(),
    decreases ts@.len() - i, 1int,
{
    if at_b(ts, i, &Token::Underscore) {
        return Ok((i + 1, Pat::Wildcard));
    }
    if i < ts.len() {
        match &ts[i] {
            Token::String_(x) => {
                return Ok((i + 1, Pat::String_(x.clone())));
            },
            Token::Number(n) => {
                return Ok((i + 1, Pat::Number(*n)));
            },
            _ => {},
        }
    }
    if at_b(ts, i, &Token::LRound) {
        let (j, mut ps) = pats_b(ts, i + 1);
        return match eat_b(ts, j, Token::RRound) {
            Err(e) => Err(e),
            Ok(m) => {
                if ps.len() == 1 {
                    let p = ps.pop().unwrap();
                    Ok((m, p))
                } else {
                    Ok((m, Pat::Tuple(ps)))
                }
            },
        };
    }
    if i < ts.len() {
        if let Token::Ident(x) = &ts[i] {
            if at_b(ts, i + 1, &Token::LRound) {
                return match pat_b(ts, i + 2) {
                    Err(e) => Err(e),
                    Ok((j, p)) => match eat_b(ts, j, Token::RRound) {
                        Err(e) => Err(e),
                        Ok(m) => Ok((m, Pat::Ctor(x.duplicate(), Box::new(p)))),
                    },
                };
            } else {
                return Ok((i + 1, Pat::Ident(x.duplicate())));
            }
        }
    }
    Err(Error::Parse("a pattern", found_b(ts, i)))
}

fn pats_b(ts: &Vec<Token>, i: usize) -> (r: (usize, Vec<Pat>))
    requires
        i <= ts@.len(),
    ensures
        r.0 == p_pats(tv(ts), i as int).0,
        pats_v(r.1@) == p_pats(tv(ts), i as int).1,
        i <= r.0 <= ts@.len(),
    decreases ts@.len() - i, 2int,
{
    let mut acc: Vec<Pat> = Vec::new();
    let mut k = i;
    assert(pats_v(acc@) + p_pats(tv(ts), i as int).1 =~= p_pats(tv(ts), i as int).1);
    loop
        invariant
            i <= k <= ts@.len(),
            p_pats(tv(ts), i as int).0 == p_pats(tv(ts), k as int).0,
            p_pats(tv(ts), i as int).1 == pats_v(acc@) + p_pats(tv(ts), k as int).1,
        decreases ts@.len() - k,
    {
        match pat_b(ts, k) {
            Err(_) => {
                assert(pats_v(acc@) + Seq::<crate::cst::PatV>::empty() =~= pats_v(acc@));
                return (k, acc);
            },
            Ok((j, x)) => {
                let ghost pre = pats_v(acc@);
                let ghost xv = x.v();
                acc.push(x);
                assert(pats_v(acc@) =~= pre.push(xv));
                if at_b(ts, j, &Token::Comma) {
                    assert(pre + (seq![xv] + p_pats(tv(ts), j + 1).1) =~= pats_v(acc@) + p_pats(tv(ts), j + 1).1);
                    k = j + 1;
                } else {
                    assert(pre + seq![xv] =~= pats_v(acc@));
                    return (j, acc);
                }
            },
        }
    }
}

fn expr_b(ts: &Vec<Token>, i: usize) -> (r: Result<(usize, Expr), Error>)
    requires
        i <= ts@.len(),
    ensures
        match p_expr(tv(ts), i as int) {
            Ok((j, e)) => r is Ok && (r->Ok_0).0 == j && (r->Ok_0).1.v() == e,
            Err(e) => r is Err && r->Err_0.v() == e,
        },
        r is Ok ==> i < (r->Ok_0).0 <= ts@.len(),
    decreases ts@.len() - i, 3int,
{
    let (mut k, mut e) = match expr_hd_b(ts, i) {
        Err(x) => {
            return Err(x);
        },
        Ok(p) => p,
    };
    loop
        invariant
            i < k <= ts@.len(),
            p_expr(tv(ts), i as int) == p_expr_tail(tv(ts), k as int, e.v()),
        decreases ts@.len() - k,
    {
        if !at_b(ts, k, &Token::Dot) {
            return Ok((k, e));
        }
        match ident_b(ts, k + 1) {
            Err(x) => {
                return Err(x);
            },
            Ok((j, f)) => match call_opt_b(ts, j) {
                Err(x) => {
                    return Err(x);
                },
                Ok((m, None)) => {
                    e = Expr::FieldGet(Box::new(e), f);
                    k = m;
                },
                Ok((m, Some((args, es)))) => {
                    e = Expr::MethodCall(Box::new(e), f, args, es);
                    k = m;
                },
            },
        }
    }
}

fn call_opt_b(ts: &Vec<Token>, i: usize) -> (r: Result<(usize, Option<(Vec<Kinded>, Vec<Expr>)>), Error>)
    requires
        i <= ts@.len(),
    ensures
        match p_call_opt(tv(ts), i as int) {
            Ok((j, None)) => r is Ok && (r->Ok_0).0 == j && (r->Ok_0).1 is None,
            Ok((j, Some((args, es)))) => r is Ok && (r->Ok_0).0 == j && (r->Ok_0).1 is Some
                && kindeds_v(((r->Ok_0).1->0).0@) == args && exprs_v(((r->Ok_0).1->0).1@) == es,
            Err(e) => r is Err && r->Err_0.v() == e,
        },
        r is Ok ==> i <= (r->Ok_0).0 <= ts@.len(),
    decreases ts@.len() - i, 2int,
{
    match kinded_args_opt_b(ts, i) {
        Err(e) => Err(e),
        Ok((j, args, got)) => match eat_b(ts, j, Token::LRound) {
            Err(e) => {
                if got {
                    Err(e)
                } else {
                    Ok((j, None))
                }
            },
            Ok(k) => {
                let (m, es) = exprs_b(ts, k);
                match eat_b(ts, m, Token::RRound) {
                    Err(e) => Err(e),
                    Ok(q) => Ok((q, Some((args, es)))),
                }
            },
        },
    }
}

fn exprs_b(ts: &Vec<Token>, i: usize) -> (r: (usize, Vec<Expr>))
    requires
        i <= ts@.len(),
    ensures
        r.0 == p_exprs(tv(ts), i as int).0,
        exprs_v(r.1@) == p_exprs(tv(ts), i as int).1,
        i <= r.0 <= ts@.len(),
    decreases ts@.len() - i, 4int,
{
    let mut acc: Vec<Expr> = Vec::new();
    let mut k = i;
    assert(exprs_v(acc@) + p_exprs(tv(ts), i as int).1 =~= p_exprs(tv(ts), i as int).1);
    loop
        invariant
            i <= k <= ts@.len(),
            p_exprs(tv(ts), i as int).0 == p_exprs(tv(ts), k as int).0,
            p_exprs(tv(ts), i as int).1 == exprs_v(acc@) + p_exprs(tv(ts), k as int).1,
        decreases ts@.len() - k,
    {
        match expr_b(ts, k) {
            Err(_) => {
                assert(exprs_v(acc@) + Seq::<crate::cst::ExprV>::empty() =~= exprs_v(acc@));
                return (k, acc);
            },
            Ok((j, x)) => {
                let ghost pre = exprs_v(acc@);
                let ghost xv = x.v();
                acc.push(x);
                assert(exprs_v(acc@) =~= pre.push(xv));
                if at_b(ts, j, &Token::Comma) {
                    assert(pre + (seq![xv] + p_exprs(tv(ts), j + 1).1) =~= exprs_v(acc@) + p_exprs(tv(ts), j + 1).1);
                    k = j + 1;
                } else {
                    assert(pre + seq![xv] =~= exprs_v(acc@));
                    return (j, acc);
                }
            },
        }
    }
}

fn field_b(ts: &Vec<Token>, i: usize) -> (r: Result<(usize, Field<Expr>), Error>)
    requires
        i <= ts@.len(),
    ensures
        match p_field(tv(ts), i as int) {
            Ok((j, f)) => r is Ok && (r->Ok_0).0 == j && crate::cst::field_v((r->Ok_0).1) == f,
            Err(e) => r is Err && r->Err_0.v() == e,
        },
        r is Ok ==> i < (r->Ok_0).0 <= ts@.len(),
    decreases ts@.len() - i, 1int,
{
    match ident_b(ts, i) {
        Err(e) => Err(e),
        Ok((j, x)) => {
            if at_b(ts, j, &Token::Colon) {
                match expr_b(ts, j + 1) {
                    Err(e) => Err(e),
                    Ok((m, e)) => Ok((m, Field::IdentAnd(x, e))),
                }
            } else {
                Ok((j, Field::Ident(x)))
            }
        },
    }
}

fn fields_b(ts: &Vec<Token>, i: usize) -> (r: (usize, Vec<Field<Expr>>))
    requires
        i <= ts@.len(),
    ensures
        r.0 == p_fields(tv(ts), i as int).0,
        fields_v(r.1@) == p_fields(tv(ts), i as int).1,
        i <= r.0 <= ts@.len(),
    decreases ts@.len() - i, 2int,
{
    let mut acc: Vec<Field<Expr>> = Vec::new();
    let mut k = i;
    assert(fields_v(acc@) + p_fields(tv(ts), i as int).1 =~= p_fields(tv(ts), i as int).1);
    loop
        invariant
            i <= k <= ts@.len(),
            p_fields(tv(ts), i as int).0 == p_fields(tv(ts), k as int).0,
            p_fields(tv(ts), i as int).1 == fields_v(acc@) + p_fields(tv(ts), k as int).1,
        decreases ts@.len() - k,
    {
        match field_b(ts, k) {
            Err(_) => {
                assert(fields_v(acc@) + Seq::<crate::cst::FieldV<crate::cst::ExprV>>::empty() =~= fields_v(acc@));
                return (k, acc);
            },
            Ok((j, x)) => {
                let ghost pre = fields_v(acc@);
                let ghost xv = crate::cst::field_v(x);
                acc.push(x);
                assert(fields_v(acc@) =~= pre.push(xv));
                if at_b(ts, j, &Token::Comma) {
                    assert(pre + (seq![xv] + p_fields(tv(ts), j + 1).1) =~= fields_v(acc@) + p_fields(tv(ts), j + 1).1);
                    k = j + 1;
                } else {
                    assert(pre + seq![xv] =~= fields_v(acc@));
                    return (j, acc);
                }
            },
        }
    }
}

fn expr_hd_b(ts: &Vec<Token>, i: usize) -> (r: Result<(usize, Expr), Error>)
    requires
        i <= ts@.len(),
    ensures
        match p_expr_hd(tv(ts), i as int) {
            Ok((j, e)) => r is Ok && (r->Ok_0).0 == j && (r->Ok_0).1.v() == e,
            Err(e) => r is Err && r->Err_0.v() == e,
        },
        r is Ok ==> i < (r->Ok_0).0 <= ts@.len(),
    decreases ts@.len() - i, 2int,
{
    if i < ts.len() {
        match &ts[i] {
            Token::String_(x) => {
                return Ok((i + 1, Expr::String_(x.clone())));
            },
            Token::Number(n) => {
                return Ok((i + 1, Expr::Number(*n)));
            },
            _ => {},
        }
    }
    if at_b(ts, i, &Token::LRound) {
        let (j, mut es) = exprs_b(ts, i + 1);
        return match eat_b(ts, j, Token::RRound) {
            Err(e) => Err(e),
            Ok(m) => {
                if es.len() == 1 {
                    let e = es.pop().unwrap();
                    Ok((m, e))
                } else {
                    Ok((m, Expr::Tuple(es)))
                }
            },
        };
    }
    if i < ts.len() {
        match &ts[i] {
            Token::BigIdent(x) => {
                return match kinded_args_opt_b(ts, i + 1) {
                    Err(e) => Err(e),
                    Ok((j, args, _)) => match eat_b(ts, j, Token::LCurly) {
                        Err(e) => Err(e),
                        Ok(k) => {
                            let (m, fs) = fields_b(ts, k);
                            match eat_b(ts, m, Token::RCurly) {
                                Err(e) => Err(e),
                                Ok(q) => Ok((q, Expr::Struct(x.duplicate(), args, fs))),
                            }
                        },
                    },
                };
            },
            Token::Ident(x) => {
                return match call_opt_b(ts, i + 1) {
                    Err(e) => Err(e),
                    Ok((j, None)) => Ok((j, Expr::Ident(x.duplicate()))),
                    Ok((j, Some((args, es)))) => Ok((j, Expr::FnCall(x.duplicate(), args, es))),
                };
            },
            _ => {},
        }
    }
    if at_b(ts, i, &Token::Match) {
        return match expr_b(ts, i + 1) {
            Err(e) => Err(e),
            Ok((j, e)) => match eat_b(ts, j, Token::LCurly) {
                Err(x) => Err(x),
                Ok(k) => match arms_b(ts, k) {
                    Err(x) => Err(x),
                    Ok((m, arms)) => match eat_b(ts, m, Token::RCurly) {
                        Err(x) => Err(x),
                        Ok(q) => Ok((q, Expr::Match(Box::new(e), arms))),
                    },
                },
            },
        };
    }
    match block_b(ts, i) {
        Ok((j, b)) => Ok((j, Expr::Block(Box::new(b)))),
        Err(_) => Err(Error::Parse("an expression", found_b(ts, i))),
    }
}

fn arms_b(ts: &Vec<Token>, i: usize) -> (r: Result<(usize, Vec<Arm>), Error>)
    requires
        i <= ts@.len(),
    ensures
        match p_arms(tv(ts), i as int) {
            Ok((j, arms)) => r is Ok && (r->Ok_0).0 == j && arms_v((r->Ok_0).1@) == arms,
            Err(e) => r is Err && r->Err_0.v() == e,
        },
        r is Ok ==> i <= (r->Ok_0).0 <= ts@.len(),
    decreases ts@.len() - i, 2int,
{
    let mut acc: Vec<Arm> = Vec::new();
    let mut k = i;
    assert(pre_ok(arms_v(acc@), p_arms(tv(ts), i as int)) =~= p_arms(tv(ts), i as int)) by {
        match p_arms(tv(ts), i as int) {
            Ok((j, xs)) => {
                assert(arms_v(acc@) + xs =~= xs);
            },
            Err(_) => {},
        }
    }
    loop
        invariant
            i <= k <= ts@.len(),
            p_arms(tv(ts), i as int) == pre_ok(arms_v(acc@), p_arms(tv(ts), k as int)),
        decreases ts@.len() - k,
    {
        match pat_b(ts, k) {
            Err(_) => {
                assert(arms_v(acc@) + Seq::<crate::cst::ArmV>::empty() =~= arms_v(acc@));
                return Ok((k, acc));
            },
            Ok((j, p)) => match block_b(ts, j) {
                Err(e) => {
                    return Err(e);
                },
                Ok((m, b)) => {
                    let ghost pre = arms_v(acc@);
                    let arm = Arm { pat: p, block: b };
                    let ghost xv = arm.v();
                    acc.push(arm);
                    assert(arms_v(acc@) =~= pre.push(xv));
                    proof {
                        match p_arms(tv(ts), m as int) {
                            Ok((q, xs)) => {
                                assert(pre + (seq![xv] + xs) =~= arms_v(acc@) + xs);
                            },
                            Err(_) => {},
                        }
                    }
                    k = m;
                },
            },
        }
    }
}

fn type_annotation_b(ts: &Vec<Token>, i: usize) -> (r: Result<(usize, Option<Kinded>), Error>)
    requires
        i <= ts@.len(),
    ensures
        match p_type_annotation(tv(ts), i as int) {
            Ok((j, None)) => r is Ok && (r->Ok_0).0 == j && (r->Ok_0).1 is None,
            Ok((j, Some(t))) => r is Ok && (r->Ok_0).0 == j && (r->Ok_0).1 is Some
                && ((r->Ok_0).1->0).v() == t,
            Err(e) => r is Err && r->Err_0.v() == e,
        },
        r is Ok ==> i <= (r->Ok_0).0 <= ts@.len(),
{
    if !at_b(ts, i, &Token::Colon) {
        return Ok((i, None));
    }
    match kinded_b(ts, i + 1) {
        Err(e) => Err(e),
        Ok((j, t)) => Ok((j, Some(t))),
    }
}

fn stmt_b(ts: &Vec<Token>, i: usize) -> (r: Result<(usize, Stmt), Error>)
    requires
        i <= ts@.len(),
    ensures
        match p_stmt(tv(ts), i as int) {
            Ok((j, st)) => r is Ok && (r->Ok_0).0 == j && (r->Ok_0).1.v() == st,
            Err(e) => r is Err && r->Err_0.v() == e,
        },
        r is Ok ==> i < (r->Ok_0).0 <= ts@.len(),
    decreases ts@.len() - i, 1int,
{
    match eat_b(ts, i, Token::Let) {
        Err(e) => Err(e),
        Ok(i1) => match pat_b(ts, i1) {
            Err(e) => Err(e),
            Ok((j, p)) => match type_annotation_b(ts, j) {
                Err(e) => Err(e),
                Ok((k, t)) => match eat_b(ts, k, Token::Equal) {
                    Err(e) => Err(e),
                    Ok(k1) => match expr_b(ts, k1) {
                        Err(x) => Err(x),
                        Ok((m, e)) => match eat_b(ts, m, Token::Semi) {
                            Err(x) => Err(x),
                            Ok(q) => Ok((q, Stmt::Let(p, t, e))),
                        },
                    },
                },
            },
        },
    }
}

fn stmts_b(ts: &Vec<Token>, i: usize) -> (r: (usize, Vec<Stmt>))
    requires
        i <= ts@.len(),
    ensures
        r.0 == p_stmts(tv(ts), i as int).0,
        stmts_v(r.1@) == p_stmts(tv(ts), i as int).1,
        i <= r.0 <= ts@.len(),
    decreases ts@.len() - i, 2int,
{
    let mut acc: Vec<Stmt> = Vec::new();
    let mut k = i;
    assert(stmts_v(acc@) + p_stmts(tv(ts), i as int).1 =~= p_stmts(tv(ts), i as int).1);
    loop
        invariant
            i <= k <= ts@.len(),
            p_stmts(tv(ts), i as int).0 == p_stmts(tv(ts), k as int).0,
            p_stmts(tv(ts), i as int).1 == stmts_v(acc@) + p_stmts(tv(ts), k as int).1,
        decreases ts@.len() - k,
    {
        match stmt_b(ts, k) {
            Err(_) => {
                assert(stmts_v(acc@) + Seq::<crate::cst::StmtV>::empty() =~= stmts_v(acc@));
                return (k, acc);
            },
            Ok((j, x)) => {
                let ghost pre = stmts_v(acc@);
                let ghost xv = x.v();
                acc.push(x);
                assert(stmts_v(acc@) =~= pre.push(xv));
                assert(pre + (seq![xv] + p_stmts(tv(ts), j as int).1) =~= stmts_v(acc@) + p_stmts(tv(ts), j as int).1);
                k = j;
            },
        }
    }
}

fn block_b(ts: &Vec<Token>, i: usize) -> (r: Result<(usize, Block), Error>)
    requires
        i <= ts@.len(),
    ensures
        match p_block(tv(ts), i as int) {
            Ok((j, b)) => r is Ok && (r->Ok_0).0 == j && (r->Ok_0).1.v() == b,
            Err(e) => r is Err && r->Err_0.v() == e,
        },
        r is Ok ==> i < (r->Ok_0).0 <= ts@.len(),
    decreases ts@.len() - i, 1int,
{
    match eat_b(ts, i, Token::LCurly) {
        Err(e) => Err(e),
        Ok(i1) => {
            let (j, stmts) = stmts_b(ts, i1);
            let (k, e) = match expr_b(ts, j) {
                Ok((k, e)) => (k, Some(e)),
                Err(_) => (j, None),
            };
            match eat_b(ts, k, Token::RCurly) {
                Err(x) => Err(x),
                Ok(m) => Ok((m, Block { stmts, expr: e })),
            }
        },
    }
}

fn big_param_b(ts: &Vec<Token>, i: usize) -> (r: Result<(usize, Param<Ident, Kind>), Error>)
    requires
        i <= ts@.len(),
    ensures
        match p_big_param(tv(ts), i as int) {
            Ok((j, p)) => r is Ok && (r->Ok_0).0 == j && (r->Ok_0).1.ident@ == p.ident
                && (r->Ok_0).1.type_.v() == p.type_,
            Err(e) => r is Err && r->Err_0.v() == e,
        },
        r is Ok ==> i < (r->Ok_0).0 <= ts@.len(),
{
    match big_ident_b(ts, i) {
        Err(e) => Err(e),
        Ok((j, x)) => match eat_b(ts, j, Token::Colon) {
            Err(e) => Err(e),
            Ok(k) => match kind_b(ts, k) {
                Err(e) => Err(e),
                Ok((m, kd)) => Ok((m, Param { ident: x, type_: kd })),
            },
        },
    }
}

fn big_params_b(ts: &Vec<Token>, i: usize) -> (r: (usize, Vec<Param<Ident, Kind>>))
    requires
        i <= ts@.len(),
    ensures
        r.0 == p_big_params(tv(ts), i as int).0,
        kind_params_v(r.1@) == p_big_params(tv(ts), i as int).1,
        i <= r.0 <= ts@.len(),
{
    let mut acc: Vec<Param<Ident, Kind>> = Vec::new();
    let mut k = i;
    assert(kind_params_v(acc@) + p_big_params(tv(ts), i as int).1 =~= p_big_params(tv(ts), i as int).1);
    loop
        invariant
            i <= k <= ts@.len(),
            p_big_params(tv(ts), i as int).0 == p_big_params(tv(ts), k as int).0,
            p_big_params(tv(ts), i as int).1 == kind_params_v(acc@) + p_big_params(tv(ts), k as int).1,
        decreases ts@.len() - k,
    {
        match big_param_b(ts, k) {
            Err(_) => {
                assert(kind_params_v(acc@) + Seq::<crate::cst::ParamV<crate::cst::KindV>>::empty() =~= kind_params_v(acc@));
                return (k, acc);
            },
            Ok((j, x)) => {
                let ghost pre = kind_params_v(acc@);
                let ghost xv = crate::cst::ParamV { ident: x.ident@, type_: x.type_.v() };
                acc.push(x);
                assert(kind_params_v(acc@) =~= pre.push(xv));
                if at_b(ts, j, &Token::Comma) {
                    assert(pre + (seq![xv] + p_big_params(tv(ts), j + 1).1) =~= kind_params_v(acc@) + p_big_params(tv(ts), j + 1).1);
                    k = j + 1;
                } else {
                    assert(pre + seq![xv] =~= kind_params_v(acc@));
                    return (j, acc);
                }
            },
        }
    }
}

fn big_param_list_opt_b(ts: &Vec<Token>, i: usize) -> (r: Result<(usize, Vec<Param<Ident, Kind>>), Error>)
    requires
        i <= ts@.len(),
    ensures
        match p_big_param_list_opt(tv(ts), i as int) {
            Ok((j, ps)) => r is Ok && (r->Ok_0).0 == j && kind_params_v((r->Ok_0).1@) == ps,
            Err(e) => r is Err && r->Err_0.v() == e,
        },
        r is Ok ==> i <= (r->Ok_0).0 <= ts@.len(),
{
    if !at_b(ts, i, &Token::LSquare) {
        let none: Vec<Param<Ident, Kind>> = Vec::new();
        assert(kind_params_v(none@) =~= Seq::empty());
        return Ok((i, none));
    }
    let (j, ps) = big_params_b(ts, i + 1);
    match eat_b(ts, j, Token::RSquare) {
        Err(e) => Err(e),
        Ok(m) => {
            if ps.len() == 0 {
                Err(Error::EmptyKindedParams)
            } else {
                Ok((m, ps))
            }
        },
    }
}

fn param_b(ts: &Vec<Token>, i: usize, ctors: bool) -> (r: Result<(usize, Param<Ident, Kinded>), Error>)
    requires
        i <= ts@.len(),
    ensures
        match (if ctors { p_ctor(tv(ts), i as int) } else { p_param(tv(ts), i as int) }) {
            Ok((j, p)) => r is Ok && (r->Ok_0).0 == j && (r->Ok_0).1.ident@ == p.ident
                && (r->Ok_0).1.type_.v() == p.type_,
            Err(e) => r is Err && r->Err_0.v() == e,
        },
        r is Ok ==> i < (r->Ok_0).0 <= ts@.len(),
{
    match ident_b(ts, i) {
        Err(e) => Err(e),
        Ok((j, x)) => match eat_b(ts, j, if ctors { Token::LRound } else { Token::Colon }) {
            Err(e) => Err(e),
            Ok(k) => match kinded_b(ts, k) {
                Err(e) => Err(e),
                Ok((m, t)) => {
                    if ctors {
                        match eat_b(ts, m, Token::RRound) {
                            Err(e) => Err(e),
                            Ok(q) => Ok((q, Param { ident: x, type_: t })),
                        }
                    } else {
                        Ok((m, Param { ident: x, type_: t }))
                    }
                },
            },
        },
    }
}

fn params_b(ts: &Vec<Token>, i: usize, ctors: bool) -> (r: (usize, Vec<Param<Ident, Kinded>>))
    requires
        i <= ts@.len(),
    ensures
        r.0 == p_params(tv(ts), i as int, ctors).0,
        params_v(r.1@) == p_params(tv(ts), i as int, ctors).1,
        i <= r.0 <= ts@.len(),
{
    let mut acc: Vec<Param<Ident, Kinded>> = Vec::new();
    let mut k = i;
    assert(params_v(acc@) + p_params(tv(ts), i as int, ctors).1 =~= p_params(tv(ts), i as int, ctors).1);
    loop
        invariant
            i <= k <= ts@.len(),
            p_params(tv(ts), i as int, ctors).0 == p_params(tv(ts), k as int, ctors).0,
            p_params(tv(ts), i as int, ctors).1 == params_v(acc@) + p_params(tv(ts), k as int, ctors).1,
        decreases ts@.len() - k,
    {
        match param_b(ts, k, ctors) {
            Err(_) => {
                assert(params_v(acc@) + Seq::<crate::cst::ParamV<crate::cst::KindedV>>::empty() =~= params_v(acc@));
                return (k, acc);
            },
            Ok((j, x)) => {
                let ghost pre = params_v(acc@);
                let ghost xv = crate::cst::ParamV { ident: x.ident@, type_: x.type_.v() };
                acc.push(x);
                assert(params_v(acc@) =~= pre.push(xv));
                if at_b(ts, j, &Token::Comma) {
                    assert(pre + (seq![xv] + p_params(tv(ts), j + 1, ctors).1) =~= params_v(acc@) + p_params(tv(ts), j + 1, ctors).1);
                    k = j + 1;
                } else {
                    assert(pre + seq![xv] =~= params_v(acc@));
                    return (j, acc);
                }
            },
        }
    }
}

fn clause_b(ts: &Vec<Token>, i: usize, ens: bool) -> (r: Result<(usize, Option<Expr>), Error>)
    requires
        i <= ts@.len(),
    ensures
        match p_clause(tv(ts), i as int, ens) {
            Ok((j, e)) => r is Ok && (r->Ok_0).0 == j && opt_expr_v((r->Ok_0).1) == e,
            Err(e) => r is Err && r->Err_0.v() == e,
        },
        r is Ok ==> i <= (r->Ok_0).0 <= ts@.len(),
{
    if !at_b(ts, i, &(if ens { Token::Ensures } else { Token::Requires })) {
        return Ok((i, None));
    }
    match expr_b(ts, i + 1) {
        Err(e) => Err(e),
        Ok((j, e)) => Ok((j, Some(e))),
    }
}

fn top_defn_b(ts: &Vec<Token>, i: usize) -> (r: Result<(usize, TopDefn), Error>)
    requires
        i <= ts@.len(),
    ensures
        match p_top_defn(tv(ts), i as int) {
            Ok((j, d)) => r is Ok && (r->Ok_0).0 == j && (r->Ok_0).1.v() == d,
            Err(e) => r is Err && r->Err_0.v() == e,
        },
        r is Ok ==> i < (r->Ok_0).0 <= ts@.len(),
{
    if at_b(ts, i, &Token::Struct) || at_b(ts, i, &Token::Enum) {
        let is_enum = at_b(ts, i, &Token::Enum);
        match big_ident_b(ts, i + 1) {
            Err(e) => Err(e),
            Ok((j, name)) => match big_param_list_opt_b(ts, j) {
                Err(e) => Err(e),
                Ok((k, params)) => match eat_b(ts, k, Token::LCurly) {
                    Err(e) => Err(e),
                    Ok(k1) => {
                        let (m, items) = params_b(ts, k1, is_enum);
                        match eat_b(ts, m, Token::RCurly) {
                            Err(e) => Err(e),
                            Ok(q) => Ok((q, if is_enum {
                                TopDefn::Enum(EnumDefn { name, params, ctors: items })
                            } else {
                                TopDefn::Struct(StructDefn { name, params, fields: items })
                            })),
                        }
                    },
                },
            },
        }
    } else if at_b(ts, i, &Token::Fn_) {
        match ident_b(ts, i + 1) {
            Err(e) => Err(e),
            Ok((j, name)) => match big_param_list_opt_b(ts, j) {
                Err(e) => Err(e),
                Ok((k, big_params)) => match eat_b(ts, k, Token::LRound) {
                    Err(e) => Err(e),
                    Ok(k1) => {
                        let (m, params) = params_b(ts, k1, false);
                        match eat_b(ts, m, Token::RRound) {
                            Err(e) => Err(e),
                            Ok(m1) => match eat_b(ts, m1, Token::Colon) {
                                Err(e) => Err(e),
                                Ok(m2) => match kinded_b(ts, m2) {
                                    Err(e) => Err(e),
                                    Ok((q, ret_type)) => match clause_b(ts, q, false) {
                                        Err(e) => Err(e),
                                        Ok((q1, req)) => match clause_b(ts, q1, true) {
                                            Err(e) => Err(e),
                                            Ok((q2, ens)) => match block_b(ts, q2) {
                                                Err(e) => Err(e),
                                                Ok((q3, body)) => Ok((q3, TopDefn::Fn_(Box::new(FnDefn {
                                                    name,
                                                    big_params,
                                                    params,
                                                    ret_type,
                                                    requires: req,
                                                    ensures: ens,
                                                    body,
                                                })))),
                                            },
                                        },
                                    },
                                },
                            },
                        }
                    },
                },
            },
        }
    } else {
        Err(Error::Parse("a top-level definition", found_b(ts, i)))
    }
}

/// Turns a sequence of tokens into a sequence of top-level definitions, as
/// [`parse`](crate::parse_spec::parse) says.
pub fn get(ts: &Vec<Token>) -> (r: Result<Vec<TopDefn>, Error>)
    ensures
        match r {
            Ok(ds) => parse(tv(ts)) == Ok::<_, ErrorV>(top_defns_v(ds@)),
            Err(e) => parse(tv(ts)) == Err::<Seq<crate::cst::TopDefnV>, _>(e.v()),
        },
{
    let mut ds: Vec<TopDefn> = Vec::new();
    let mut i: usize = 0;
    loop
        invariant
            i <= ts@.len(),
            parse(tv(ts)) == match p_top_defns(tv(ts), i as int) {
                Ok(rest) => Ok(top_defns_v(ds@) + rest),
                Err(e) => Err(e),
            },
        decreases ts@.len() - i,
    {
        if i >= ts.len() {
            assert(top_defns_v(ds@) + Seq::<crate::cst::TopDefnV>::empty() =~= top_defns_v(ds@));
            return Ok(ds);
        }
        match top_defn_b(ts, i) {
            Err(e) => {
                return Err(e);
            },
            Ok((j, d)) => {
                let ghost pre = top_defns_v(ds@);
                let ghost dv = d.v();
                ds.push(d);
                proof {
                    assert(top_defns_v(ds@) =~= pre.push(dv));
                    match p_top_defns(tv(ts), j as int) {
                        Ok(rest) => {
                            assert(pre + (seq![dv] + rest) =~= top_defns_v(ds@) + rest);
                        },
                        Err(_) => {},
                    }
                }
                i = j;
            },
        }
    }
}

} // verus!
