//! The static rules, as spec functions over models: kinding, substitution, effect flattening,
//! patterns against types, typing of expressions, and the checking of definitions.
use vstd::prelude::*;
use crate::cst::{
    ArmV, BlockV, EnumDefnV, ExprV, FieldV, FnDefnV, KindV, KindedV, ParamV, PatV, StmtV,
    StructDefnV, TopDefnV,
};
use crate::error::ErrorV;
use crate::std_lib::{named, prelude_effects};

verus! {

/// Names bound to kinds (kind parameters in scope), later entries shadowing earlier ones.
pub type BigVarsV = Seq<(Seq<char>, KindV)>;

/// Names bound to types (variables in scope), later entries shadowing earlier ones.
pub type VarsV = Seq<(Seq<char>, KindedV)>;

/// A type with the effects that producing a value of it performs.
pub type TypedV = (KindedV, Seq<KindedV>);

/// What is visible while checking: structs and enums among the first `nty` definitions,
/// functions among the first `nfn`.
pub struct CxV {
    pub defns: Seq<TopDefnV>,
    pub nty: int,
    pub nfn: int,
}

/// The signature of a function, or of a constructor seen as a unary function.
pub struct SigV {
    pub big_params: Seq<ParamV<KindV>>,
    pub params: Seq<KindedV>,
    pub ret: KindedV,
}

/// The type `Bool`.
pub open spec fn bool_t() -> KindedV {
    named("Bool"@)
}

/// The last binding of `x` in `s`.
pub open spec fn lookup<T>(s: Seq<(Seq<char>, T)>, x: Seq<char>) -> Option<T>
    decreases s.len(),
{
    if s.len() == 0 {
        None
    } else if s.last().0 == x {
        Some(s.last().1)
    } else {
        lookup(s.drop_last(), x)
    }
}

/// The index of the first struct named `x` among the first `n` definitions, from `j` on.
pub open spec fn find_struct_from(ds: Seq<TopDefnV>, n: int, x: Seq<char>, j: int) -> Option<int>
    decreases n - j,
{
    if j < 0 || j >= n || j >= ds.len() {
        None
    } else if ds[j] is Struct && ds[j]->Struct_0.name == x {
        Some(j)
    } else {
        find_struct_from(ds, n, x, j + 1)
    }
}

/// The index of the first enum named `x` among the first `n` definitions, from `j` on.
pub open spec fn find_enum_from(ds: Seq<TopDefnV>, n: int, x: Seq<char>, j: int) -> Option<int>
    decreases n - j,
{
    if j < 0 || j >= n || j >= ds.len() {
        None
    } else if ds[j] is Enum && ds[j]->Enum_0.name == x {
        Some(j)
    } else {
        find_enum_from(ds, n, x, j + 1)
    }
}

/// The index of the first function named `x` among the first `n` definitions, from `j` on.
pub open spec fn find_fn_from(ds: Seq<TopDefnV>, n: int, x: Seq<char>, j: int) -> Option<int>
    decreases n - j,
{
    if j < 0 || j >= n || j >= ds.len() {
        None
    } else if ds[j] is Fn_ && ds[j]->Fn__0.name == x {
        Some(j)
    } else {
        find_fn_from(ds, n, x, j + 1)
    }
}

/// The index of the first parameter, field or constructor named `x`, from `j` on.
pub open spec fn find_param_from<T>(ps: Seq<ParamV<T>>, x: Seq<char>, j: int) -> Option<int>
    decreases ps.len() - j,
{
    if j < 0 || j >= ps.len() {
        None
    } else if ps[j].ident == x {
        Some(j)
    } else {
        find_param_from(ps, x, j + 1)
    }
}

/// The index of the first enum among the first `n` definitions, from `j` on, with a
/// constructor named `x`.
pub open spec fn find_ctor_from(ds: Seq<TopDefnV>, n: int, x: Seq<char>, j: int) -> Option<int>
    decreases n - j,
{
    if j < 0 || j >= n || j >= ds.len() {
        None
    } else if ds[j] is Enum && find_param_from(ds[j]->Enum_0.ctors, x, 0) is Some {
        Some(j)
    } else {
        find_ctor_from(ds, n, x, j + 1)
    }
}

/// The visible struct named `x`.
pub open spec fn find_struct(cx: CxV, x: Seq<char>) -> Option<StructDefnV> {
    match find_struct_from(cx.defns, cx.nty, x, 0) {
        Some(j) => Some(cx.defns[j]->Struct_0),
        None => None,
    }
}

/// The visible enum named `x`.
pub open spec fn find_enum(cx: CxV, x: Seq<char>) -> Option<EnumDefnV> {
    match find_enum_from(cx.defns, cx.nty, x, 0) {
        Some(j) => Some(cx.defns[j]->Enum_0),
        None => None,
    }
}

/// The visible function named `x`.
pub open spec fn find_fn(cx: CxV, x: Seq<char>) -> Option<FnDefnV> {
    match find_fn_from(cx.defns, cx.nfn, x, 0) {
        Some(j) => Some(cx.defns[j]->Fn__0),
        None => None,
    }
}

/// The visible enum that has a constructor named `x`.
pub open spec fn find_ctor_enum(cx: CxV, x: Seq<char>) -> Option<EnumDefnV> {
    match find_ctor_from(cx.defns, cx.nty, x, 0) {
        Some(j) => Some(cx.defns[j]->Enum_0),
        None => None,
    }
}

/// The type of the field, constructor or parameter named `x`.
pub open spec fn param_type<T>(ps: Seq<ParamV<T>>, x: Seq<char>) -> Option<T> {
    match find_param_from(ps, x, 0) {
        Some(j) => Some(ps[j].type_),
        None => None,
    }
}

/// The kinds of the parameters.
pub open spec fn param_kinds(ps: Seq<ParamV<KindV>>) -> Seq<KindV> {
    Seq::new(ps.len(), |i: int| ps[i].type_)
}

/// The kind of a struct or enum with these kind parameters.
pub open spec fn params_kind(ps: Seq<ParamV<KindV>>) -> KindV {
    if ps.len() == 0 {
        KindV::Type
    } else if ps.len() == 1 {
        KindV::Arrow(Box::new(ps[0].type_), Box::new(KindV::Type))
    } else {
        KindV::Arrow(
            Box::new(KindV::Tuple(param_kinds(ps))),
            Box::new(KindV::Type),
        )
    }
}

/// The kind of the name `x` without arguments: a kind parameter, then a struct, an enum, an
/// effect label.
pub open spec fn name_kind(cx: CxV, bv: BigVarsV, x: Seq<char>) -> Option<KindV> {
    if lookup(bv, x) is Some {
        lookup(bv, x)
    } else if find_struct(cx, x) is Some {
        Some(params_kind(find_struct(cx, x)->0.params))
    } else if find_enum(cx, x) is Some {
        Some(params_kind(find_enum(cx, x)->0.params))
    } else if prelude_effects().contains(x) {
        Some(KindV::Effect)
    } else {
        None
    }
}

/// A single kind stands for itself; any other number makes a tuple kind.
pub open spec fn pack_kinds(ks: Seq<KindV>) -> KindV {
    if ks.len() == 1 {
        ks[0]
    } else {
        KindV::Tuple(ks)
    }
}

/// The kind of a type or effect.
pub open spec fn kind_of(cx: CxV, bv: BigVarsV, t: KindedV) -> Result<KindV, ErrorV>
    decreases t, 0int,
{
    match t {
        KindedV::Ident(x, args) => match name_kind(cx, bv, x) {
            None => Err(ErrorV::UndefinedIdentifier(x)),
            Some(k) => if args.len() == 0 {
                Ok(k)
            } else {
                match k {
                    KindV::Arrow(p, r) => match kinds_of(cx, bv, args, 0) {
                        Err(e) => Err(e),
                        Ok(aks) => if *p == pack_kinds(aks) {
                            Ok(*r)
                        } else {
                            Err(ErrorV::MismatchedKinds(*p, pack_kinds(aks)))
                        },
                    },
                    _ => Err(ErrorV::InvalidKindedApp(x, k)),
                }
            },
        },
        KindedV::Tuple(ts) => match all_have_kind(cx, bv, ts, 0, KindV::Type) {
            Err(e) => Err(e),
            Ok(_) => Ok(KindV::Type),
        },
        KindedV::Effects(es) => match all_have_kind(cx, bv, es, 0, KindV::Effect) {
            Err(e) => Err(e),
            Ok(_) => Ok(KindV::Effect),
        },
        KindedV::Arrow(a, b) => match has_kind(cx, bv, *a, KindV::Type) {
            Err(e) => Err(e),
            Ok(_) => match has_kind(cx, bv, *b, KindV::Type) {
                Err(e) => Err(e),
                Ok(_) => Ok(KindV::Type),
            },
        },
        KindedV::Effectful(a, b) => match has_kind(cx, bv, *a, KindV::Type) {
            Err(e) => Err(e),
            Ok(_) => match has_kind(cx, bv, *b, KindV::Effect) {
                Err(e) => Err(e),
                Ok(_) => Ok(KindV::Type),
            },
        },
    }
}

/// Whether `t` has kind `want`; the error names the kind expected and the kind found.
pub open spec fn has_kind(cx: CxV, bv: BigVarsV, t: KindedV, want: KindV) -> Result<(), ErrorV>
    decreases t, 1int,
{
    match kind_of(cx, bv, t) {
        Err(e) => Err(e),
        Ok(k) => if k == want {
            Ok(())
        } else {
            Err(ErrorV::MismatchedKinds(want, k))
        },
    }
}

/// Whether each of `ts[i..]` has kind `want`, the first failure reported.
pub open spec fn all_have_kind(cx: CxV, bv: BigVarsV, ts: Seq<KindedV>, i: int, want: KindV) -> Result<(), ErrorV>
    decreases ts, ts.len() - i,
{
    if i < 0 || i >= ts.len() {
        Ok(())
    } else {
        match has_kind(cx, bv, ts[i], want) {
            Err(e) => Err(e),
            Ok(_) => all_have_kind(cx, bv, ts, i + 1, want),
        }
    }
}

/// The kinds of `ts[i..]`, the first failure reported.
pub open spec fn kinds_of(cx: CxV, bv: BigVarsV, ts: Seq<KindedV>, i: int) -> Result<Seq<KindV>, ErrorV>
    decreases ts, ts.len() - i,
{
    if i < 0 || i >= ts.len() {
        Ok(Seq::empty())
    } else {
        match kind_of(cx, bv, ts[i]) {
            Err(e) => Err(e),
            Ok(k) => match kinds_of(cx, bv, ts, i + 1) {
                Err(e) => Err(e),
                Ok(ks) => Ok(seq![k] + ks),
            },
        }
    }
}

/// Whether each kind argument `args[i..]` has the kind of the corresponding parameter.
pub open spec fn args_have_kinds(cx: CxV, bv: BigVarsV, ps: Seq<ParamV<KindV>>, args: Seq<KindedV>, i: int) -> Result<(), ErrorV>
    decreases ps.len() - i,
{
    if i < 0 || i >= ps.len() || i >= args.len() {
        Ok(())
    } else {
        match has_kind(cx, bv, args[i], ps[i].type_) {
            Err(e) => Err(e),
            Ok(_) => args_have_kinds(cx, bv, ps, args, i + 1),
        }
    }
}

/// Each kind parameter bound to its argument, pair by pair.
pub open spec fn zip_sub(ps: Seq<ParamV<KindV>>, args: Seq<KindedV>) -> VarsV {
    Seq::new(
        if ps.len() <= args.len() { ps.len() } else { args.len() },
        |i: int| (ps[i].ident, args[i]),
    )
}

/// `t` with the kind parameters of `m` replaced. A bound parameter applied to arguments takes
/// the name of what it is bound to, if that is an unapplied name, and keeps its arguments;
/// otherwise the application is left as written.
pub open spec fn subst(m: VarsV, t: KindedV) -> KindedV
    decreases t,
{
    match t {
        KindedV::Ident(x, args) => {
            let args2 = substs(m, args);
            match lookup(m, x) {
                None => KindedV::Ident(x, args2),
                Some(v) => if args.len() == 0 {
                    v
                } else {
                    match v {
                        KindedV::Ident(y, yargs) => if yargs.len() == 0 {
                            KindedV::Ident(y, args2)
                        } else {
                            KindedV::Ident(x, args2)
                        },
                        _ => KindedV::Ident(x, args2),
                    }
                },
            }
        },
        KindedV::Tuple(ts) => KindedV::Tuple(substs(m, ts)),
        KindedV::Effects(es) => KindedV::Effects(substs(m, es)),
        KindedV::Arrow(a, b) => KindedV::Arrow(Box::new(subst(m, *a)), Box::new(subst(m, *b))),
        KindedV::Effectful(a, b) => KindedV::Effectful(Box::new(subst(m, *a)), Box::new(subst(m, *b))),
    }
}

/// Each of `ts` substituted.
pub open spec fn substs(m: VarsV, ts: Seq<KindedV>) -> Seq<KindedV>
    decreases ts,
{
    Seq::new(ts.len(), |i: int| if 0 <= i < ts.len() { subst(m, ts[i]) } else { KindedV::Tuple(Seq::empty()) })
}

/// The effect labels of an effect: a name is one label, a set the labels of its members in
/// order; other shapes are not effects and have none.
pub open spec fn flatten(e: KindedV) -> Seq<KindedV>
    decreases e, 0int,
{
    match e {
        KindedV::Ident(_, _) => seq![e],
        KindedV::Effects(es) => flatten_from(es, 0),
        _ => Seq::empty(),
    }
}

/// The labels of `es[i..]`, in order.
pub open spec fn flatten_from(es: Seq<KindedV>, i: int) -> Seq<KindedV>
    decreases es, es.len() - i,
{
    if i < 0 || i >= es.len() {
        Seq::empty()
    } else {
        flatten(es[i]) + flatten_from(es, i + 1)
    }
}

/// The first name bound in `b` that `acc` binds already.
pub open spec fn first_dup(acc: VarsV, b: VarsV, i: int) -> Option<Seq<char>>
    decreases b.len() - i,
{
    if i < 0 || i >= b.len() {
        None
    } else if lookup(acc, b[i].0) is Some {
        Some(b[i].0)
    } else {
        first_dup(acc, b, i + 1)
    }
}

/// The variables that pattern `p` binds when it matches a value of type `t`, in order.
pub open spec fn match_pat(cx: CxV, p: PatV, t: KindedV) -> Result<VarsV, ErrorV>
    decreases p, 0int,
{
    match p {
        PatV::Wildcard => Ok(Seq::empty()),
        PatV::String_(_) => if t == named("Str"@) {
            Ok(Seq::empty())
        } else {
            Err(ErrorV::MismatchedTypes(t, named("Str"@)))
        },
        PatV::Number(_) => if t == named("Nat"@) {
            Ok(Seq::empty())
        } else {
            Err(ErrorV::MismatchedTypes(t, named("Nat"@)))
        },
        PatV::Tuple(ps) => match t {
            KindedV::Tuple(ts) => if ts.len() == ps.len() {
                match_pats(cx, ps, ts, 0, Seq::empty())
            } else {
                Err(ErrorV::InvalidPattern(t))
            },
            _ => Err(ErrorV::InvalidPattern(t)),
        },
        PatV::Ctor(c, inner) => match t {
            KindedV::Ident(en, args) => match find_enum(cx, en) {
                None => Err(ErrorV::InvalidPattern(t)),
                Some(ed) => match param_type(ed.ctors, c) {
                    None => Err(ErrorV::InvalidPattern(t)),
                    Some(carrier) => match_pat(cx, *inner, subst(zip_sub(ed.params, args), carrier)),
                },
            },
            _ => Err(ErrorV::InvalidPattern(t)),
        },
        PatV::Ident(x) => Ok(seq![(x, t)]),
    }
}

/// The bindings `acc` extended by those of `ps[i..]` against `ts[i..]`, no name bound twice.
pub open spec fn match_pats(cx: CxV, ps: Seq<PatV>, ts: Seq<KindedV>, i: int, acc: VarsV) -> Result<VarsV, ErrorV>
    decreases ps, ps.len() - i,
{
    if i < 0 || i >= ps.len() || i >= ts.len() {
        Ok(acc)
    } else {
        match match_pat(cx, ps[i], ts[i]) {
            Err(e) => Err(e),
            Ok(b) => match first_dup(acc, b, 0) {
                Some(x) => Err(ErrorV::DuplicateIdentifier(x)),
                None => match_pats(cx, ps, ts, i + 1, acc + b),
            },
        }
    }
}

/// The name of a field of a struct construction.
pub open spec fn field_name(f: FieldV<ExprV>) -> Seq<char> {
    match f {
        FieldV::Ident(x) => x,
        FieldV::IdentAnd(x, _) => x,
    }
}

/// The names of the fields given in a struct construction, in order.
pub open spec fn given_names(fs: Seq<FieldV<ExprV>>) -> Seq<Seq<char>> {
    Seq::new(fs.len(), |i: int| field_name(fs[i]))
}

/// The first declared field of `ps[i..]` whose name `given` lacks.
pub open spec fn first_missing(ps: Seq<ParamV<KindedV>>, given: Seq<Seq<char>>, i: int) -> Option<Seq<char>>
    decreases ps.len() - i,
{
    if i < 0 || i >= ps.len() {
        None
    } else if !given.contains(ps[i].ident) {
        Some(ps[i].ident)
    } else {
        first_missing(ps, given, i + 1)
    }
}

/// The types of the parameters.
pub open spec fn param_types(ps: Seq<ParamV<KindedV>>) -> Seq<KindedV> {
    Seq::new(ps.len(), |i: int| ps[i].type_)
}

/// Each kind parameter as an unapplied name.
pub open spec fn params_as_args(ps: Seq<ParamV<KindV>>) -> Seq<KindedV> {
    Seq::new(ps.len(), |i: int| KindedV::Ident(ps[i].ident, Seq::empty()))
}

/// The signature that a call of `f` resolves to: a visible function, else a constructor of a
/// visible enum, taking its carrier and giving the enum applied to its own parameters.
pub open spec fn sig_of(cx: CxV, f: Seq<char>) -> Option<SigV> {
    match find_fn(cx, f) {
        Some(fd) => Some(SigV {
            big_params: fd.big_params,
            params: param_types(fd.params),
            ret: fd.ret_type,
        }),
        None => match find_ctor_enum(cx, f) {
            Some(ed) => Some(SigV {
                big_params: ed.params,
                params: seq![param_type(ed.ctors, f)->0],
                ret: KindedV::Ident(ed.name, params_as_args(ed.params)),
            }),
            None => None,
        },
    }
}

/// The type and effects of an expression.
pub open spec fn infer(cx: CxV, bv: BigVarsV, vars: VarsV, e: ExprV) -> Result<TypedV, ErrorV>
    decreases e, 0int,
{
    match e {
        ExprV::String_(_) => Ok((named("Str"@), Seq::empty())),
        ExprV::Number(_) => Ok((named("Nat"@), Seq::empty())),
        ExprV::Tuple(es) => match infer_tuple(cx, bv, vars, es, 0) {
            Err(x) => Err(x),
            Ok((ts, effs)) => Ok((KindedV::Tuple(ts), effs)),
        },
        ExprV::Struct(n, args, fs) => match find_struct(cx, n) {
            None => Err(ErrorV::UndefinedIdentifier(n)),
            Some(sd) => if sd.params.len() != args.len() {
                Err(ErrorV::WrongNumArgs(n, sd.params.len(), args.len()))
            } else {
                match args_have_kinds(cx, bv, sd.params, args, 0) {
                    Err(x) => Err(x),
                    Ok(_) => match infer_fields(cx, bv, vars, n, sd, args, fs, 0, Seq::empty()) {
                        Err(x) => Err(x),
                        Ok(effs) => match first_missing(sd.fields, given_names(fs), 0) {
                            Some(x) => Err(ErrorV::MissingField(n, x)),
                            None => Ok((KindedV::Ident(n, args), effs)),
                        },
                    },
                }
            },
        },
        ExprV::Ident(x) => match lookup(vars, x) {
            Some(t) => Ok((t, Seq::empty())),
            None => Err(ErrorV::UndefinedIdentifier(x)),
        },
        ExprV::FnCall(f, ks, es) => match sig_of(cx, f) {
            None => Err(ErrorV::UndefinedIdentifier(f)),
            Some(sig) => if sig.big_params.len() != ks.len() {
                Err(ErrorV::WrongNumArgs(f, sig.big_params.len(), ks.len()))
            } else {
                match args_have_kinds(cx, bv, sig.big_params, ks, 0) {
                    Err(x) => Err(x),
                    Ok(_) => if sig.params.len() != es.len() {
                        Err(ErrorV::WrongNumArgs(f, sig.params.len(), es.len()))
                    } else {
                        let sub = zip_sub(sig.big_params, ks);
                        match infer_args(cx, bv, vars, sig.params, sub, es, 0) {
                            Err(x) => Err(x),
                            Ok(effs) => match subst(sub, sig.ret) {
                                KindedV::Effectful(t, ef) => Ok((*t, effs + flatten(*ef))),
                                other => Ok((other, effs)),
                            },
                        }
                    },
                }
            },
        },
        ExprV::FieldGet(x, f) => match infer(cx, bv, vars, *x) {
            Err(err) => Err(err),
            Ok((t, effs)) => match t {
                KindedV::Ident(n, args) => match find_struct(cx, n) {
                    None => Err(ErrorV::NotStruct(f)),
                    Some(sd) => match param_type(sd.fields, f) {
                        None => Err(ErrorV::NoSuchField(n, f)),
                        Some(ft) => Ok((subst(zip_sub(sd.params, args), ft), effs)),
                    },
                },
                _ => Err(ErrorV::NotStruct(f)),
            },
        },
        ExprV::MethodCall(_, _, _, _) => Err(ErrorV::Internal),
        ExprV::Match(h, arms) => match infer(cx, bv, vars, *h) {
            Err(x) => Err(x),
            Ok((ht, he)) => if arms.len() == 0 {
                Err(ErrorV::EmptyMatch)
            } else {
                match infer_arm(cx, bv, vars, arms[0], ht) {
                    Err(x) => Err(x),
                    Ok((t0, e0)) => match infer_arms(cx, bv, vars, arms, 1, ht, t0) {
                        Err(x) => Err(x),
                        Ok(effs) => Ok((t0, he + e0 + effs)),
                    },
                }
            },
        },
        ExprV::Block(b) => infer_stmts(cx, bv, vars, *b, 0),
    }
}

/// The types and effects of the elements `es[i..]` of a tuple.
pub open spec fn infer_tuple(cx: CxV, bv: BigVarsV, vars: VarsV, es: Seq<ExprV>, i: int) -> Result<(Seq<KindedV>, Seq<KindedV>), ErrorV>
    decreases es, es.len() - i,
{
    if i < 0 || i >= es.len() {
        Ok((Seq::empty(), Seq::empty()))
    } else {
        match infer(cx, bv, vars, es[i]) {
            Err(x) => Err(x),
            Ok((t, ef)) => match infer_tuple(cx, bv, vars, es, i + 1) {
                Err(x) => Err(x),
                Ok((ts, effs)) => Ok((seq![t] + ts, ef + effs)),
            },
        }
    }
}

/// The effects of the fields `fs[i..]` of a construction of struct `n`, each field known, of
/// the type the struct gives it after substituting the kind arguments, and given once.
pub open spec fn infer_fields(cx: CxV, bv: BigVarsV, vars: VarsV, n: Seq<char>, sd: StructDefnV, args: Seq<KindedV>, fs: Seq<FieldV<ExprV>>, i: int, seen: Seq<Seq<char>>) -> Result<Seq<KindedV>, ErrorV>
    decreases fs, fs.len() - i,
{
    if i < 0 || i >= fs.len() {
        Ok(Seq::empty())
    } else {
        let x = match fs[i] {
            FieldV::Ident(x) => x,
            FieldV::IdentAnd(x, _) => x,
        };
        let got = match fs[i] {
            FieldV::Ident(y) => match lookup(vars, y) {
                Some(t) => Ok((t, Seq::empty())),
                None => Err(ErrorV::UndefinedIdentifier(y)),
            },
            FieldV::IdentAnd(_, fe) => infer(cx, bv, vars, fe),
        };
        match got {
            Err(err) => Err(err),
            Ok((gt, ge)) => match param_type(sd.fields, x) {
                None => Err(ErrorV::NoSuchField(n, x)),
                Some(ft) => if subst(zip_sub(sd.params, args), ft) != gt {
                    Err(ErrorV::MismatchedTypes(subst(zip_sub(sd.params, args), ft), gt))
                } else if seen.contains(x) {
                    Err(ErrorV::DuplicateField(n, x))
                } else {
                    match infer_fields(cx, bv, vars, n, sd, args, fs, i + 1, seen.push(x)) {
                        Err(err) => Err(err),
                        Ok(effs) => Ok(ge + effs),
                    }
                },
            },
        }
    }
}

/// The effects of the arguments `es[i..]` of a call, each of its parameter's type after
/// substitution.
pub open spec fn infer_args(cx: CxV, bv: BigVarsV, vars: VarsV, params: Seq<KindedV>, sub: VarsV, es: Seq<ExprV>, i: int) -> Result<Seq<KindedV>, ErrorV>
    decreases es, es.len() - i,
{
    if i < 0 || i >= es.len() || i >= params.len() {
        Ok(Seq::empty())
    } else {
        match infer(cx, bv, vars, es[i]) {
            Err(x) => Err(x),
            Ok((t, ef)) => if subst(sub, params[i]) != t {
                Err(ErrorV::MismatchedTypes(subst(sub, params[i]), t))
            } else {
                match infer_args(cx, bv, vars, params, sub, es, i + 1) {
                    Err(x) => Err(x),
                    Ok(effs) => Ok(ef + effs),
                }
            },
        }
    }
}

/// The type and effects of an arm whose pattern matches values of type `ht`.
pub open spec fn infer_arm(cx: CxV, bv: BigVarsV, vars: VarsV, arm: ArmV, ht: KindedV) -> Result<TypedV, ErrorV>
    decreases arm, 0int,
{
    match match_pat(cx, arm.pat, ht) {
        Err(x) => Err(x),
        Ok(b) => infer_stmts(cx, bv, vars + b, arm.block, 0),
    }
}

/// The effects of the arms `arms[i..]`, each of type `t0`.
pub open spec fn infer_arms(cx: CxV, bv: BigVarsV, vars: VarsV, arms: Seq<ArmV>, i: int, ht: KindedV, t0: KindedV) -> Result<Seq<KindedV>, ErrorV>
    decreases arms, arms.len() - i,
{
    if i < 0 || i >= arms.len() {
        Ok(Seq::empty())
    } else {
        match infer_arm(cx, bv, vars, arms[i], ht) {
            Err(x) => Err(x),
            Ok((t, ef)) => if t != t0 {
                Err(ErrorV::MismatchedTypes(t0, t))
            } else {
                match infer_arms(cx, bv, vars, arms, i + 1, ht, t0) {
                    Err(x) => Err(x),
                    Ok(effs) => Ok(ef + effs),
                }
            },
        }
    }
}

/// The type and effects of a block from its statement `i` on: each `let` binds its pattern
/// against its expression's type (which must equal the annotation, if any); the final
/// expression gives the type.
pub open spec fn infer_stmts(cx: CxV, bv: BigVarsV, vars: VarsV, b: BlockV, i: int) -> Result<TypedV, ErrorV>
    decreases b, b.stmts.len() + 1 - i,
{
    if 0 <= i < b.stmts.len() {
        match b.stmts[i] {
            StmtV::Let(p, ot, x) => match infer(cx, bv, vars, x) {
                Err(err) => Err(err),
                Ok((t, ef)) => if ot is Some && ot->0 != t {
                    Err(ErrorV::MismatchedTypes(ot->0, t))
                } else {
                    match match_pat(cx, p, t) {
                        Err(err) => Err(err),
                        Ok(bs) => match infer_stmts(cx, bv, vars + bs, b, i + 1) {
                            Err(err) => Err(err),
                            Ok((tt, effs)) => Ok((tt, ef + effs)),
                        },
                    }
                },
            },
        }
    } else {
        match b.expr {
            None => Err(ErrorV::NoExprForBlock),
            Some(x) => infer(cx, bv, vars, x),
        }
    }
}

/// Whether a big name is taken: a visible struct or enum, or an effect label.
pub open spec fn big_taken(cx: CxV, x: Seq<char>) -> bool {
    find_struct(cx, x) is Some || find_enum(cx, x) is Some || prelude_effects().contains(x)
}

/// Whether a small name is taken: a visible function or constructor.
pub open spec fn small_taken(cx: CxV, x: Seq<char>) -> bool {
    find_fn(cx, x) is Some || find_ctor_enum(cx, x) is Some
}

/// The kind parameters `ps[i..]` bound after `bv`, none twice.
pub open spec fn bind_kind_params(ps: Seq<ParamV<KindV>>, i: int, bv: BigVarsV) -> Result<BigVarsV, ErrorV>
    decreases ps.len() - i,
{
    if i < 0 || i >= ps.len() {
        Ok(bv)
    } else if lookup(bv, ps[i].ident) is Some {
        Err(ErrorV::DuplicateIdentifier(ps[i].ident))
    } else {
        bind_kind_params(ps, i + 1, bv.push((ps[i].ident, ps[i].type_)))
    }
}

/// Whether the fields `fs[i..]` of struct `n` are types, none named twice.
pub open spec fn check_fields(cx: CxV, bv: BigVarsV, n: Seq<char>, fs: Seq<ParamV<KindedV>>, i: int) -> Result<(), ErrorV>
    decreases fs.len() - i,
{
    if i < 0 || i >= fs.len() {
        Ok(())
    } else {
        match has_kind(cx, bv, fs[i].type_, KindV::Type) {
            Err(e) => Err(e),
            Ok(_) => if find_param_from(fs, fs[i].ident, 0) != Some(i) {
                Err(ErrorV::DuplicateField(n, fs[i].ident))
            } else {
                check_fields(cx, bv, n, fs, i + 1)
            },
        }
    }
}

/// Whether the constructors `cs[i..]` have names not taken elsewhere or earlier, and carry types.
pub open spec fn check_ctors(cx: CxV, bv: BigVarsV, cs: Seq<ParamV<KindedV>>, i: int) -> Result<(), ErrorV>
    decreases cs.len() - i,
{
    if i < 0 || i >= cs.len() {
        Ok(())
    } else if small_taken(cx, cs[i].ident) || find_param_from(cs, cs[i].ident, 0) != Some(i) {
        Err(ErrorV::DuplicateIdentifier(cs[i].ident))
    } else {
        match has_kind(cx, bv, cs[i].type_, KindV::Type) {
            Err(e) => Err(e),
            Ok(_) => check_ctors(cx, bv, cs, i + 1),
        }
    }
}

/// The value parameters `ps[i..]`, each of a type, bound after `vars`, none twice.
pub open spec fn bind_params(cx: CxV, bv: BigVarsV, ps: Seq<ParamV<KindedV>>, i: int, vars: VarsV) -> Result<VarsV, ErrorV>
    decreases ps.len() - i,
{
    if i < 0 || i >= ps.len() {
        Ok(vars)
    } else {
        match has_kind(cx, bv, ps[i].type_, KindV::Type) {
            Err(e) => Err(e),
            Ok(_) => if lookup(vars, ps[i].ident) is Some {
                Err(ErrorV::DuplicateIdentifier(ps[i].ident))
            } else {
                bind_params(cx, bv, ps, i + 1, vars.push((ps[i].ident, ps[i].type_)))
            },
        }
    }
}

/// A return type split into its value type and the effect labels it allows.
pub open spec fn split_ret(t: KindedV) -> (KindedV, Seq<KindedV>) {
    match t {
        KindedV::Effectful(a, e) => (*a, flatten(*e)),
        _ => (t, Seq::empty()),
    }
}

/// Whether a pre- or post-condition is a pure `Bool` expression of function `f`.
pub open spec fn check_pred(cx: CxV, bv: BigVarsV, vars: VarsV, f: Seq<char>, e: ExprV) -> Result<(), ErrorV> {
    match infer(cx, bv, vars, e) {
        Err(x) => Err(x),
        Ok((t, ef)) => if t != bool_t() {
            Err(ErrorV::MismatchedTypes(bool_t(), t))
        } else if ef.len() > 0 {
            Err(ErrorV::InvalidEffectUse(f, ef[0]))
        } else {
            Ok(())
        },
    }
}

/// The first of `effs[i..]` that `allowed` lacks.
pub open spec fn first_disallowed(effs: Seq<KindedV>, allowed: Seq<KindedV>, i: int) -> Option<KindedV>
    decreases effs.len() - i,
{
    if i < 0 || i >= effs.len() {
        None
    } else if !allowed.contains(effs[i]) {
        Some(effs[i])
    } else {
        first_disallowed(effs, allowed, i + 1)
    }
}

/// Whether function `fd`, the definition at `k`, is well formed: name free, parameters bound
/// once and kinded, return type a type, clauses pure `Bool`s (`ret` bound in `ensures`), and
/// a body of the return type performing only declared effects. The function is visible in its
/// own body, so that it may recurse.
#[verifier::opaque]
pub open spec fn check_fn(ds: Seq<TopDefnV>, k: int, fd: FnDefnV) -> Result<(), ErrorV> {
    let cx = CxV { defns: ds, nty: k, nfn: k };
    if small_taken(cx, fd.name) {
        Err(ErrorV::DuplicateIdentifier(fd.name))
    } else {
        match bind_kind_params(fd.big_params, 0, Seq::empty()) {
            Err(e) => Err(e),
            Ok(bv) => match bind_params(cx, bv, fd.params, 0, Seq::empty()) {
                Err(e) => Err(e),
                Ok(vars) => match has_kind(cx, bv, fd.ret_type, KindV::Type) {
                    Err(e) => Err(e),
                    Ok(_) => match (match fd.requires {
                        Some(r) => check_pred(cx, bv, vars, fd.name, r),
                        None => Ok(()),
                    }) {
                        Err(e) => Err(e),
                        Ok(_) => {
                            let (rt, allowed) = split_ret(fd.ret_type);
                            match (match fd.ensures {
                                Some(en) => if lookup(vars, "ret"@) is Some {
                                    Err(ErrorV::DuplicateIdentifier("ret"@))
                                } else {
                                    check_pred(cx, bv, vars.push(("ret"@, rt)), fd.name, en)
                                },
                                None => Ok(()),
                            }) {
                                Err(e) => Err(e),
                                Ok(_) => {
                                    let cx2 = CxV { defns: ds, nty: k, nfn: k + 1 };
                                    match infer_stmts(cx2, bv, vars, fd.body, 0) {
                                        Err(e) => Err(e),
                                        Ok((t, effs)) => if rt != t {
                                            Err(ErrorV::MismatchedTypes(fd.ret_type, t))
                                        } else {
                                            match first_disallowed(effs, allowed, 0) {
                                                Some(e) => Err(ErrorV::InvalidEffectUse(fd.name, e)),
                                                None => Ok(()),
                                            }
                                        },
                                    }
                                },
                            }
                        },
                    },
                },
            },
        }
    }
}

/// Whether the definition at `k` is well formed, given those before it.
#[verifier::opaque]
pub open spec fn check_defn(ds: Seq<TopDefnV>, k: int) -> Result<(), ErrorV> {
    let cx = CxV { defns: ds, nty: k, nfn: k };
    match ds[k] {
        TopDefnV::Struct(sd) => if big_taken(cx, sd.name) {
            Err(ErrorV::DuplicateIdentifier(sd.name))
        } else {
            match bind_kind_params(sd.params, 0, Seq::empty()) {
                Err(e) => Err(e),
                Ok(bv) => check_fields(cx, bv, sd.name, sd.fields, 0),
            }
        },
        TopDefnV::Enum(ed) => if big_taken(cx, ed.name) {
            Err(ErrorV::DuplicateIdentifier(ed.name))
        } else {
            match bind_kind_params(ed.params, 0, Seq::empty()) {
                Err(e) => Err(e),
                Ok(bv) => check_ctors(cx, bv, ed.ctors, 0),
            }
        },
        TopDefnV::Fn_(fd) => check_fn(ds, k, fd),
    }
}

/// Whether the definitions from `k` on are well formed, the first failure reported.
pub open spec fn check_from(ds: Seq<TopDefnV>, k: int) -> Result<(), ErrorV>
    decreases ds.len() - k,
{
    if k < 0 || k >= ds.len() {
        Ok(())
    } else {
        match check_defn(ds, k) {
            Err(e) => Err(e),
            Ok(_) => check_from(ds, k + 1),
        }
    }
}

/// Whether `main` is a function with no kind parameters, parameters, `requires` or `ensures`.
pub open spec fn main_ok(ds: Seq<TopDefnV>) -> Result<(), ErrorV> {
    match find_fn_from(ds, ds.len() as int, "main"@, 0) {
        None => Err(ErrorV::NoMain),
        Some(j) => {
            let m = ds[j]->Fn__0;
            if m.big_params.len() > 0 || m.params.len() > 0 || m.requires is Some
                || m.ensures is Some {
                Err(ErrorV::InvalidMain)
            } else {
                Ok(())
            }
        },
    }
}

/// Whether a program is statically well formed: each definition in order, then `main`.
pub open spec fn check_program(ds: Seq<TopDefnV>) -> Result<(), ErrorV> {
    match check_from(ds, 0) {
        Err(e) => Err(e),
        Ok(_) => main_ok(ds),
    }
}

} // verus!
