//! The grammar, as spec functions over token models.
//!
//! Each function reads from position `i` and gives the position after what it read, with the
//! model of what it read. Positions after a successful read lie between `i` and the length; the
//! checks of that below keep the definitions total and never fail (see the parser's contracts).
use vstd::prelude::*;
use crate::cst::{ArmV, BlockV, EnumDefnV, ExprV, FieldV, FnDefnV, KindV, KindedV, ParamV, PatV, StmtV, StructDefnV, TopDefnV};
use crate::error::{ErrorV, FoundV};
use crate::token::{TokenV, desc_of};

verus! {

/// What is at position `i`.
pub open spec fn found(ts: Seq<TokenV>, i: int) -> FoundV {
    if 0 <= i < ts.len() {
        FoundV::Token(ts[i])
    } else {
        FoundV::EOF
    }
}

/// A parse error at `i`.
pub open spec fn err_at<T>(ts: Seq<TokenV>, i: int, expected: Seq<char>) -> Result<T, ErrorV> {
    Err(ErrorV::Parse(expected, found(ts, i)))
}

/// Whether token `t` is at `i`.
pub open spec fn at(ts: Seq<TokenV>, i: int, t: TokenV) -> bool {
    0 <= i < ts.len() && ts[i] == t
}

/// Reads token `t`.
pub open spec fn eat(ts: Seq<TokenV>, i: int, t: TokenV) -> Result<int, ErrorV> {
    if at(ts, i, t) {
        Ok(i + 1)
    } else {
        err_at(ts, i, desc_of(t))
    }
}

/// Reads a small identifier.
pub open spec fn p_ident(ts: Seq<TokenV>, i: int) -> Result<(int, Seq<char>), ErrorV> {
    if 0 <= i < ts.len() && ts[i] is Ident {
        Ok((i + 1, ts[i]->Ident_0))
    } else {
        err_at(ts, i, "an identifier"@)
    }
}

/// Reads a big identifier.
pub open spec fn p_big_ident(ts: Seq<TokenV>, i: int) -> Result<(int, Seq<char>), ErrorV> {
    if 0 <= i < ts.len() && ts[i] is BigIdent {
        Ok((i + 1, ts[i]->BigIdent_0))
    } else {
        err_at(ts, i, "a big identifier"@)
    }
}

/// A position `j` read from `i` stays in bounds and does not go back.
pub open spec fn fwd(ts: Seq<TokenV>, i: int, j: int) -> bool {
    i <= j <= ts.len()
}

/// A single element stands for itself; any other number of elements makes a tuple.
pub open spec fn kind_group(ks: Seq<KindV>) -> KindV {
    if ks.len() == 1 {
        ks[0]
    } else {
        KindV::Tuple(ks)
    }
}

/// Reads a kind: `Type`, `Effect`, `(K, ...)`, `K -> K`.
pub open spec fn p_kind(ts: Seq<TokenV>, i: int) -> Result<(int, KindV), ErrorV>
    decreases ts.len() - i, 2int,
{
    match p_kind_hd(ts, i) {
        Err(e) => Err(e),
        Ok((j, k)) => if !fwd(ts, i + 1, j) {
            Err(ErrorV::Internal)
        } else if at(ts, j, TokenV::Arrow) {
            match p_kind(ts, j + 1) {
                Err(e) => Err(e),
                Ok((m, k2)) => Ok((m, KindV::Arrow(Box::new(k), Box::new(k2)))),
            }
        } else {
            Ok((j, k))
        },
    }
}

/// Reads a kind without a top-level arrow.
pub open spec fn p_kind_hd(ts: Seq<TokenV>, i: int) -> Result<(int, KindV), ErrorV>
    decreases ts.len() - i, 1int,
{
    if 0 <= i < ts.len() && ts[i] is BigIdent {
        let x = ts[i]->BigIdent_0;
        if x == "Type"@ {
            Ok((i + 1, KindV::Type))
        } else if x == "Effect"@ {
            Ok((i + 1, KindV::Effect))
        } else {
            err_at(ts, i, "a kind"@)
        }
    } else if at(ts, i, TokenV::LRound) {
        let (j, ks) = p_kinds(ts, i + 1);
        if !fwd(ts, i + 1, j) {
            Err(ErrorV::Internal)
        } else {
            match eat(ts, j, TokenV::RRound) {
                Err(e) => Err(e),
                Ok(m) => Ok((m, kind_group(ks))),
            }
        }
    } else {
        err_at(ts, i, "a kind"@)
    }
}

/// Reads kinds separated by commas, as many as there are.
pub open spec fn p_kinds(ts: Seq<TokenV>, i: int) -> (int, Seq<KindV>)
    decreases ts.len() - i, 3int,
{
    match p_kind(ts, i) {
        Err(_) => (i, Seq::empty()),
        Ok((j, k)) => if !fwd(ts, i + 1, j) {
            (i, Seq::empty())
        } else if at(ts, j, TokenV::Comma) {
            let (m, ks) = p_kinds(ts, j + 1);
            (m, seq![k] + ks)
        } else {
            (j, seq![k])
        },
    }
}

/// A single element stands for itself; any other number of elements makes a tuple.
pub open spec fn kinded_tuple(ts: Seq<KindedV>) -> KindedV {
    if ts.len() == 1 {
        ts[0]
    } else {
        KindedV::Tuple(ts)
    }
}

/// A single element stands for itself; any other number of elements makes an effect set.
pub open spec fn kinded_set(ts: Seq<KindedV>) -> KindedV {
    if ts.len() == 1 {
        ts[0]
    } else {
        KindedV::Effects(ts)
    }
}

/// Reads a type or effect: `N`, `N[K, ...]`, `(T, ...)`, `{E, ...}`, `T -> T`, `T affects E`.
pub open spec fn p_kinded(ts: Seq<TokenV>, i: int) -> Result<(int, KindedV), ErrorV>
    decreases ts.len() - i, 3int,
{
    match p_kinded_hd(ts, i) {
        Err(e) => Err(e),
        Ok((j, t)) => if !fwd(ts, i + 1, j) {
            Err(ErrorV::Internal)
        } else if at(ts, j, TokenV::Arrow) {
            match p_kinded(ts, j + 1) {
                Err(e) => Err(e),
                Ok((m, t2)) => Ok((m, KindedV::Arrow(Box::new(t), Box::new(t2)))),
            }
        } else if at(ts, j, TokenV::Affects) {
            match p_kinded(ts, j + 1) {
                Err(e) => Err(e),
                Ok((m, e)) => Ok((m, KindedV::Effectful(Box::new(t), Box::new(e)))),
            }
        } else {
            Ok((j, t))
        },
    }
}

/// Reads a type or effect without a top-level arrow or `affects`.
pub open spec fn p_kinded_hd(ts: Seq<TokenV>, i: int) -> Result<(int, KindedV), ErrorV>
    decreases ts.len() - i, 2int,
{
    if 0 <= i < ts.len() && ts[i] is BigIdent {
        match p_kinded_args_opt(ts, i + 1) {
            Err(e) => Err(e),
            Ok((j, args, _)) => Ok((j, KindedV::Ident(ts[i]->BigIdent_0, args))),
        }
    } else if at(ts, i, TokenV::LRound) {
        let (j, xs) = p_kindeds(ts, i + 1);
        if !fwd(ts, i + 1, j) {
            Err(ErrorV::Internal)
        } else {
            match eat(ts, j, TokenV::RRound) {
                Err(e) => Err(e),
                Ok(m) => Ok((m, kinded_tuple(xs))),
            }
        }
    } else if at(ts, i, TokenV::LCurly) {
        let (j, xs) = p_kindeds(ts, i + 1);
        if !fwd(ts, i + 1, j) {
            Err(ErrorV::Internal)
        } else {
            match eat(ts, j, TokenV::RCurly) {
                Err(e) => Err(e),
                Ok(m) => Ok((m, kinded_set(xs))),
            }
        }
    } else {
        err_at(ts, i, "a type or effect"@)
    }
}

/// Reads `[T, ...]` if it is there: the arguments, and whether the brackets were written.
pub open spec fn p_kinded_args_opt(ts: Seq<TokenV>, i: int) -> Result<(int, Seq<KindedV>, bool), ErrorV>
    decreases ts.len() - i, 1int,
{
    if !at(ts, i, TokenV::LSquare) {
        Ok((i, Seq::empty(), false))
    } else {
        let (j, xs) = p_kindeds(ts, i + 1);
        if !fwd(ts, i + 1, j) {
            Err(ErrorV::Internal)
        } else {
            match eat(ts, j, TokenV::RSquare) {
                Err(e) => Err(e),
                Ok(m) => if xs.len() == 0 {
                    Err(ErrorV::EmptyKindedArgs)
                } else {
                    Ok((m, xs, true))
                },
            }
        }
    }
}

/// Reads types or effects separated by commas, as many as there are.
pub open spec fn p_kindeds(ts: Seq<TokenV>, i: int) -> (int, Seq<KindedV>)
    decreases ts.len() - i, 4int,
{
    match p_kinded(ts, i) {
        Err(_) => (i, Seq::empty()),
        Ok((j, t)) => if !fwd(ts, i + 1, j) {
            (i, Seq::empty())
        } else if at(ts, j, TokenV::Comma) {
            let (m, xs) = p_kindeds(ts, j + 1);
            (m, seq![t] + xs)
        } else {
            (j, seq![t])
        },
    }
}

/// A single element stands for itself; any other number of elements makes a tuple.
pub open spec fn expr_tuple(es: Seq<ExprV>) -> ExprV {
    if es.len() == 1 {
        es[0]
    } else {
        ExprV::Tuple(es)
    }
}

/// A single element stands for itself; any other number of elements makes a tuple.
pub open spec fn pat_tuple(ps: Seq<PatV>) -> PatV {
    if ps.len() == 1 {
        ps[0]
    } else {
        PatV::Tuple(ps)
    }
}

/// Reads a pattern: `_`, a literal, `(P, ...)`, `c(P)`, `x`.
pub open spec fn p_pat(ts: Seq<TokenV>, i: int) -> Result<(int, PatV), ErrorV>
    decreases ts.len() - i, 1int,
{
    if at(ts, i, TokenV::Underscore) {
        Ok((i + 1, PatV::Wildcard))
    } else if 0 <= i < ts.len() && ts[i] is String_ {
        Ok((i + 1, PatV::String_(ts[i]->String__0)))
    } else if 0 <= i < ts.len() && ts[i] is Number {
        Ok((i + 1, PatV::Number(ts[i]->Number_0)))
    } else if at(ts, i, TokenV::LRound) {
        let (j, ps) = p_pats(ts, i + 1);
        if !fwd(ts, i + 1, j) {
            Err(ErrorV::Internal)
        } else {
            match eat(ts, j, TokenV::RRound) {
                Err(e) => Err(e),
                Ok(m) => Ok((m, pat_tuple(ps))),
            }
        }
    } else if 0 <= i < ts.len() && ts[i] is Ident {
        let x = ts[i]->Ident_0;
        if at(ts, i + 1, TokenV::LRound) {
            match p_pat(ts, i + 2) {
                Err(e) => Err(e),
                Ok((j, p)) => if !fwd(ts, i + 2, j) {
                    Err(ErrorV::Internal)
                } else {
                    match eat(ts, j, TokenV::RRound) {
                        Err(e) => Err(e),
                        Ok(m) => Ok((m, PatV::Ctor(x, Box::new(p)))),
                    }
                },
            }
        } else {
            Ok((i + 1, PatV::Ident(x)))
        }
    } else {
        err_at(ts, i, "a pattern"@)
    }
}

/// Reads patterns separated by commas, as many as there are.
pub open spec fn p_pats(ts: Seq<TokenV>, i: int) -> (int, Seq<PatV>)
    decreases ts.len() - i, 2int,
{
    match p_pat(ts, i) {
        Err(_) => (i, Seq::empty()),
        Ok((j, p)) => if !fwd(ts, i + 1, j) {
            (i, Seq::empty())
        } else if at(ts, j, TokenV::Comma) {
            let (m, ps) = p_pats(ts, j + 1);
            (m, seq![p] + ps)
        } else {
            (j, seq![p])
        },
    }
}

/// Reads an expression: a head, then any number of `.f` and `.f(...)`.
pub open spec fn p_expr(ts: Seq<TokenV>, i: int) -> Result<(int, ExprV), ErrorV>
    decreases ts.len() - i, 3int,
{
    match p_expr_hd(ts, i) {
        Err(e) => Err(e),
        Ok((j, e)) => if !fwd(ts, i + 1, j) {
            Err(ErrorV::Internal)
        } else {
            p_expr_tail(ts, j, e)
        },
    }
}

/// Reads the field gets and method calls that follow `e`.
pub open spec fn p_expr_tail(ts: Seq<TokenV>, i: int, e: ExprV) -> Result<(int, ExprV), ErrorV>
    decreases ts.len() - i, 3int,
{
    if !at(ts, i, TokenV::Dot) {
        Ok((i, e))
    } else {
        match p_ident(ts, i + 1) {
            Err(x) => Err(x),
            Ok((j, f)) => match p_call_opt(ts, j) {
                Err(x) => Err(x),
                Ok((m, None)) => if !fwd(ts, j, m) {
                    Err(ErrorV::Internal)
                } else {
                    p_expr_tail(ts, m, ExprV::FieldGet(Box::new(e), f))
                },
                Ok((m, Some((args, es)))) => if !fwd(ts, j, m) {
                    Err(ErrorV::Internal)
                } else {
                    p_expr_tail(ts, m, ExprV::MethodCall(Box::new(e), f, args, es))
                },
            },
        }
    }
}

/// Reads `[T, ...](e, ...)` or `(e, ...)` if a call follows; brackets without parentheses are
/// an error.
pub open spec fn p_call_opt(ts: Seq<TokenV>, i: int) -> Result<(int, Option<(Seq<KindedV>, Seq<ExprV>)>), ErrorV>
    decreases ts.len() - i, 2int,
{
    match p_kinded_args_opt(ts, i) {
        Err(e) => Err(e),
        Ok((j, args, got)) => if !fwd(ts, i, j) {
            Err(ErrorV::Internal)
        } else {
            match eat(ts, j, TokenV::LRound) {
                Err(e) => if got {
                    Err(e)
                } else {
                    Ok((j, None))
                },
                Ok(k) => {
                    let (m, es) = p_exprs(ts, k);
                    if !fwd(ts, k, m) {
                        Err(ErrorV::Internal)
                    } else {
                        match eat(ts, m, TokenV::RRound) {
                            Err(e) => Err(e),
                            Ok(q) => Ok((q, Some((args, es)))),
                        }
                    }
                },
            }
        },
    }
}

/// Reads expressions separated by commas, as many as there are.
pub open spec fn p_exprs(ts: Seq<TokenV>, i: int) -> (int, Seq<ExprV>)
    decreases ts.len() - i, 4int,
{
    match p_expr(ts, i) {
        Err(_) => (i, Seq::empty()),
        Ok((j, e)) => if !fwd(ts, i + 1, j) {
            (i, Seq::empty())
        } else if at(ts, j, TokenV::Comma) {
            let (m, es) = p_exprs(ts, j + 1);
            (m, seq![e] + es)
        } else {
            (j, seq![e])
        },
    }
}

/// Reads a field of a struct expression: `x` or `x: e`.
pub open spec fn p_field(ts: Seq<TokenV>, i: int) -> Result<(int, FieldV<ExprV>), ErrorV>
    decreases ts.len() - i, 1int,
{
    match p_ident(ts, i) {
        Err(e) => Err(e),
        Ok((j, x)) => if at(ts, j, TokenV::Colon) {
            match p_expr(ts, j + 1) {
                Err(e) => Err(e),
                Ok((m, e)) => Ok((m, FieldV::IdentAnd(x, e))),
            }
        } else {
            Ok((j, FieldV::Ident(x)))
        },
    }
}

/// Reads fields separated by commas, as many as there are.
pub open spec fn p_fields(ts: Seq<TokenV>, i: int) -> (int, Seq<FieldV<ExprV>>)
    decreases ts.len() - i, 2int,
{
    match p_field(ts, i) {
        Err(_) => (i, Seq::empty()),
        Ok((j, f)) => if !fwd(ts, i + 1, j) {
            (i, Seq::empty())
        } else if at(ts, j, TokenV::Comma) {
            let (m, fs) = p_fields(ts, j + 1);
            (m, seq![f] + fs)
        } else {
            (j, seq![f])
        },
    }
}

/// Reads an expression without field gets or method calls after it.
pub open spec fn p_expr_hd(ts: Seq<TokenV>, i: int) -> Result<(int, ExprV), ErrorV>
    decreases ts.len() - i, 2int,
{
    if 0 <= i < ts.len() && ts[i] is String_ {
        Ok((i + 1, ExprV::String_(ts[i]->String__0)))
    } else if 0 <= i < ts.len() && ts[i] is Number {
        Ok((i + 1, ExprV::Number(ts[i]->Number_0)))
    } else if at(ts, i, TokenV::LRound) {
        let (j, es) = p_exprs(ts, i + 1);
        if !fwd(ts, i + 1, j) {
            Err(ErrorV::Internal)
        } else {
            match eat(ts, j, TokenV::RRound) {
                Err(e) => Err(e),
                Ok(m) => Ok((m, expr_tuple(es))),
            }
        }
    } else if 0 <= i < ts.len() && ts[i] is BigIdent {
        match p_kinded_args_opt(ts, i + 1) {
            Err(e) => Err(e),
            Ok((j, args, _)) => if !fwd(ts, i + 1, j) {
                Err(ErrorV::Internal)
            } else {
                match eat(ts, j, TokenV::LCurly) {
                    Err(e) => Err(e),
                    Ok(k) => {
                        let (m, fs) = p_fields(ts, k);
                        if !fwd(ts, k, m) {
                            Err(ErrorV::Internal)
                        } else {
                            match eat(ts, m, TokenV::RCurly) {
                                Err(e) => Err(e),
                                Ok(q) => Ok((q, ExprV::Struct(ts[i]->BigIdent_0, args, fs))),
                            }
                        }
                    },
                }
            },
        }
    } else if 0 <= i < ts.len() && ts[i] is Ident {
        match p_call_opt(ts, i + 1) {
            Err(e) => Err(e),
            Ok((j, None)) => Ok((j, ExprV::Ident(ts[i]->Ident_0))),
            Ok((j, Some((args, es)))) => Ok((j, ExprV::FnCall(ts[i]->Ident_0, args, es))),
        }
    } else if at(ts, i, TokenV::Match) {
        match p_expr(ts, i + 1) {
            Err(e) => Err(e),
            Ok((j, e)) => if !fwd(ts, i + 1, j) {
                Err(ErrorV::Internal)
            } else {
                match eat(ts, j, TokenV::LCurly) {
                    Err(x) => Err(x),
                    Ok(k) => match p_arms(ts, k) {
                        Err(x) => Err(x),
                        Ok((m, arms)) => if !fwd(ts, k, m) {
                            Err(ErrorV::Internal)
                        } else {
                            match eat(ts, m, TokenV::RCurly) {
                                Err(x) => Err(x),
                                Ok(q) => Ok((q, ExprV::Match(Box::new(e), arms))),
                            }
                        },
                    },
                }
            },
        }
    } else {
        match p_block(ts, i) {
            Ok((j, b)) => Ok((j, ExprV::Block(Box::new(b)))),
            Err(_) => err_at(ts, i, "an expression"@),
        }
    }
}

/// Reads match arms, each a pattern and a block, for as long as a pattern comes.
pub open spec fn p_arms(ts: Seq<TokenV>, i: int) -> Result<(int, Seq<ArmV>), ErrorV>
    decreases ts.len() - i, 2int,
{
    match p_pat(ts, i) {
        Err(_) => Ok((i, Seq::empty())),
        Ok((j, p)) => if !fwd(ts, i + 1, j) {
            Err(ErrorV::Internal)
        } else {
            match p_block(ts, j) {
                Err(e) => Err(e),
                Ok((k, b)) => if !fwd(ts, j + 1, k) {
                    Err(ErrorV::Internal)
                } else {
                    match p_arms(ts, k) {
                        Err(e) => Err(e),
                        Ok((m, arms)) => Ok((m, seq![ArmV { pat: p, block: b }] + arms)),
                    }
                },
            }
        },
    }
}

/// Reads `let p: T = e;`, with the annotation optional.
pub open spec fn p_stmt(ts: Seq<TokenV>, i: int) -> Result<(int, StmtV), ErrorV>
    decreases ts.len() - i, 1int,
{
    match eat(ts, i, TokenV::Let) {
        Err(e) => Err(e),
        Ok(i1) => match p_pat(ts, i1) {
            Err(e) => Err(e),
            Ok((j, p)) => if !fwd(ts, i1, j) {
                Err(ErrorV::Internal)
            } else {
                match p_type_annotation(ts, j) {
                    Err(e) => Err(e),
                    Ok((k, t)) => if !fwd(ts, j, k) {
                        Err(ErrorV::Internal)
                    } else {
                        match eat(ts, k, TokenV::Equal) {
                            Err(e) => Err(e),
                            Ok(k1) => match p_expr(ts, k1) {
                                Err(x) => Err(x),
                                Ok((m, e)) => if !fwd(ts, k1, m) {
                                    Err(ErrorV::Internal)
                                } else {
                                    match eat(ts, m, TokenV::Semi) {
                                        Err(x) => Err(x),
                                        Ok(q) => Ok((q, StmtV::Let(p, t, e))),
                                    }
                                },
                            },
                        }
                    },
                }
            },
        },
    }
}

/// Reads `: T` if it is there.
pub open spec fn p_type_annotation(ts: Seq<TokenV>, i: int) -> Result<(int, Option<KindedV>), ErrorV> {
    if !at(ts, i, TokenV::Colon) {
        Ok((i, None))
    } else {
        match p_kinded(ts, i + 1) {
            Err(e) => Err(e),
            Ok((j, t)) => Ok((j, Some(t))),
        }
    }
}

/// Reads statements for as long as one comes.
pub open spec fn p_stmts(ts: Seq<TokenV>, i: int) -> (int, Seq<StmtV>)
    decreases ts.len() - i, 2int,
{
    match p_stmt(ts, i) {
        Err(_) => (i, Seq::empty()),
        Ok((j, st)) => if !fwd(ts, i + 1, j) {
            (i, Seq::empty())
        } else {
            let (m, sts) = p_stmts(ts, j);
            (m, seq![st] + sts)
        },
    }
}

/// Reads a block: `{`, statements, an optional expression, `}`.
pub open spec fn p_block(ts: Seq<TokenV>, i: int) -> Result<(int, BlockV), ErrorV>
    decreases ts.len() - i, 1int,
{
    match eat(ts, i, TokenV::LCurly) {
        Err(e) => Err(e),
        Ok(i1) => {
            let (j, sts) = p_stmts(ts, i1);
            if !fwd(ts, i1, j) {
                Err(ErrorV::Internal)
            } else {
                let (k, e) = match p_expr(ts, j) {
                    Ok((k, e)) => (k, Some(e)),
                    Err(_) => (j, None),
                };
                if !fwd(ts, j, k) {
                    Err(ErrorV::Internal)
                } else {
                    match eat(ts, k, TokenV::RCurly) {
                        Err(x) => Err(x),
                        Ok(m) => Ok((m, BlockV { stmts: sts, expr: e })),
                    }
                }
            }
        },
    }
}

/// Reads a kind parameter `N: K`.
pub open spec fn p_big_param(ts: Seq<TokenV>, i: int) -> Result<(int, ParamV<KindV>), ErrorV> {
    match p_big_ident(ts, i) {
        Err(e) => Err(e),
        Ok((j, x)) => match eat(ts, j, TokenV::Colon) {
            Err(e) => Err(e),
            Ok(k) => match p_kind(ts, k) {
                Err(e) => Err(e),
                Ok((m, kd)) => Ok((m, ParamV { ident: x, type_: kd })),
            },
        },
    }
}

/// Reads kind parameters separated by commas, as many as there are.
pub open spec fn p_big_params(ts: Seq<TokenV>, i: int) -> (int, Seq<ParamV<KindV>>)
    decreases ts.len() - i,
{
    match p_big_param(ts, i) {
        Err(_) => (i, Seq::empty()),
        Ok((j, p)) => if !fwd(ts, i + 1, j) {
            (i, Seq::empty())
        } else if at(ts, j, TokenV::Comma) {
            let (m, ps) = p_big_params(ts, j + 1);
            (m, seq![p] + ps)
        } else {
            (j, seq![p])
        },
    }
}

/// Reads `[N: K, ...]` if it is there; brackets with nothing inside are an error.
pub open spec fn p_big_param_list_opt(ts: Seq<TokenV>, i: int) -> Result<(int, Seq<ParamV<KindV>>), ErrorV> {
    if !at(ts, i, TokenV::LSquare) {
        Ok((i, Seq::empty()))
    } else {
        let (j, ps) = p_big_params(ts, i + 1);
        match eat(ts, j, TokenV::RSquare) {
            Err(e) => Err(e),
            Ok(m) => if ps.len() == 0 {
                Err(ErrorV::EmptyKindedParams)
            } else {
                Ok((m, ps))
            },
        }
    }
}

/// Reads a value parameter or a field `x: T`.
pub open spec fn p_param(ts: Seq<TokenV>, i: int) -> Result<(int, ParamV<KindedV>), ErrorV> {
    match p_ident(ts, i) {
        Err(e) => Err(e),
        Ok((j, x)) => match eat(ts, j, TokenV::Colon) {
            Err(e) => Err(e),
            Ok(k) => match p_kinded(ts, k) {
                Err(e) => Err(e),
                Ok((m, t)) => Ok((m, ParamV { ident: x, type_: t })),
            },
        },
    }
}

/// Reads a constructor `c(T)`.
pub open spec fn p_ctor(ts: Seq<TokenV>, i: int) -> Result<(int, ParamV<KindedV>), ErrorV> {
    match p_ident(ts, i) {
        Err(e) => Err(e),
        Ok((j, x)) => match eat(ts, j, TokenV::LRound) {
            Err(e) => Err(e),
            Ok(k) => match p_kinded(ts, k) {
                Err(e) => Err(e),
                Ok((m, t)) => match eat(ts, m, TokenV::RRound) {
                    Err(e) => Err(e),
                    Ok(q) => Ok((q, ParamV { ident: x, type_: t })),
                },
            },
        },
    }
}

/// Reads value parameters or fields (`ctors == false`) or constructors (`ctors == true`)
/// separated by commas, as many as there are.
pub open spec fn p_params(ts: Seq<TokenV>, i: int, ctors: bool) -> (int, Seq<ParamV<KindedV>>)
    decreases ts.len() - i,
{
    match (if ctors { p_ctor(ts, i) } else { p_param(ts, i) }) {
        Err(_) => (i, Seq::empty()),
        Ok((j, p)) => if !fwd(ts, i + 1, j) {
            (i, Seq::empty())
        } else if at(ts, j, TokenV::Comma) {
            let (m, ps) = p_params(ts, j + 1, ctors);
            (m, seq![p] + ps)
        } else {
            (j, seq![p])
        },
    }
}

/// Reads `requires e` (`ensures == false`) or `ensures e` (`ensures == true`) if it is there.
pub open spec fn p_clause(ts: Seq<TokenV>, i: int, ensures: bool) -> Result<(int, Option<ExprV>), ErrorV> {
    if !at(ts, i, if ensures { TokenV::Ensures } else { TokenV::Requires }) {
        Ok((i, None))
    } else {
        match p_expr(ts, i + 1) {
            Err(e) => Err(e),
            Ok((j, e)) => Ok((j, Some(e))),
        }
    }
}

/// Reads a struct, enum or function definition.
pub open spec fn p_top_defn(ts: Seq<TokenV>, i: int) -> Result<(int, TopDefnV), ErrorV> {
    if at(ts, i, TokenV::Struct) || at(ts, i, TokenV::Enum) {
        let is_enum = at(ts, i, TokenV::Enum);
        match p_big_ident(ts, i + 1) {
            Err(e) => Err(e),
            Ok((j, name)) => match p_big_param_list_opt(ts, j) {
                Err(e) => Err(e),
                Ok((k, params)) => match eat(ts, k, TokenV::LCurly) {
                    Err(e) => Err(e),
                    Ok(k1) => {
                        let (m, items) = p_params(ts, k1, is_enum);
                        match eat(ts, m, TokenV::RCurly) {
                            Err(e) => Err(e),
                            Ok(q) => Ok((q, if is_enum {
                                TopDefnV::Enum(EnumDefnV { name, params, ctors: items })
                            } else {
                                TopDefnV::Struct(StructDefnV { name, params, fields: items })
                            })),
                        }
                    },
                },
            },
        }
    } else if at(ts, i, TokenV::Fn_) {
        match p_ident(ts, i + 1) {
            Err(e) => Err(e),
            Ok((j, name)) => match p_big_param_list_opt(ts, j) {
                Err(e) => Err(e),
                Ok((k, big_params)) => match eat(ts, k, TokenV::LRound) {
                    Err(e) => Err(e),
                    Ok(k1) => {
                        let (m, params) = p_params(ts, k1, false);
                        match eat(ts, m, TokenV::RRound) {
                            Err(e) => Err(e),
                            Ok(m1) => match eat(ts, m1, TokenV::Colon) {
                                Err(e) => Err(e),
                                Ok(m2) => match p_kinded(ts, m2) {
                                    Err(e) => Err(e),
                                    Ok((q, ret_type)) => match p_clause(ts, q, false) {
                                        Err(e) => Err(e),
                                        Ok((q1, req)) => match p_clause(ts, q1, true) {
                                            Err(e) => Err(e),
                                            Ok((q2, ens)) => match p_block(ts, q2) {
                                                Err(e) => Err(e),
                                                Ok((q3, body)) => Ok((q3, TopDefnV::Fn_(FnDefnV {
                                                    name,
                                                    big_params,
                                                    params,
                                                    ret_type,
                                                    requires: req,
                                                    ensures: ens,
                                                    body,
                                                }))),
                                            },
                                        },
                                    },
                                },
                            },
                        }
                    },
                },
            },
        }
    } else {
        err_at(ts, i, "a top-level definition"@)
    }
}

/// The definitions read from `i` to the end.
pub open spec fn p_top_defns(ts: Seq<TokenV>, i: int) -> Result<Seq<TopDefnV>, ErrorV>
    decreases ts.len() - i,
{
    if i < 0 || i >= ts.len() {
        Ok(Seq::empty())
    } else {
        match p_top_defn(ts, i) {
            Err(e) => Err(e),
            Ok((j, d)) => if j <= i {
                Err(ErrorV::Internal)
            } else {
                match p_top_defns(ts, j) {
                    Err(e) => Err(e),
                    Ok(ds) => Ok(seq![d] + ds),
                }
            },
        }
    }
}

/// The definitions that the tokens spell, one after another until the tokens end.
pub open spec fn parse(ts: Seq<TokenV>) -> Result<Seq<TopDefnV>, ErrorV> {
    p_top_defns(ts, 0)
}

} // verus!
