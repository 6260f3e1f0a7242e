//! Laws of the static checker and the desugaring pass, proved over the spec functions that the
//! executable stages are proved to compute.
use vstd::prelude::*;
use crate::cst::{ArmV, BlockV, StmtV, ExprV, FieldV, FnDefnV, KindV, KindedV, ParamV, StructDefnV, TopDefnV};
use crate::error::ErrorV;
use crate::elab::{desugar, ds_arms, ds_block, ds_expr, ds_exprs, ds_fields};
use crate::error::Error;
use crate::statics::rel_unit;
use crate::statics_spec::check_program;
use crate::statics_spec::{
    BigVarsV, CxV, VarsV, args_have_kinds, bind_kind_params, bind_params, check_fn, first_disallowed,
    has_kind, infer, infer_arm, infer_arms, infer_fields, infer_stmts, kind_of, sig_of, split_ret,
    find_struct, find_param_from, check_pred, has_kind as has_kind_spec, lookup, small_taken, field_name, given_names, first_missing, param_type, find_fn, find_ctor_enum, infer_args, subst, zip_sub,
};

verus! {

/// The first effect that an empty allowance lacks is the first effect, if any.
proof fn lemma_nothing_allowed(effs: Seq<KindedV>, i: int)
    requires
        0 <= i <= effs.len(),
        first_disallowed(effs, Seq::empty(), i) is None,
    ensures
        i == effs.len(),
    decreases effs.len() - i,
{
    if i < effs.len() {
        assert(!Seq::<KindedV>::empty().contains(effs[i]));
    }
}

/// A function whose declared return type is not `Effectful` passes the checker only if its
/// body performs no effect: the effects inferred for the body, in the scope of its parameters,
/// are none.
pub proof fn lemma_pure_return_type_pure_body(ds: Seq<TopDefnV>, k: int, fd: FnDefnV)
    requires
        check_fn(ds, k, fd) is Ok,
        !(fd.ret_type is Effectful),
    ensures
        ({
            let cx = CxV { defns: ds, nty: k, nfn: k };
            let bv = bind_kind_params(fd.big_params, 0, Seq::empty())->Ok_0;
            let vars = bind_params(cx, bv, fd.params, 0, Seq::empty())->Ok_0;
            match infer_stmts(CxV { defns: ds, nty: k, nfn: k + 1 }, bv, vars, fd.body, 0) {
                Ok((_, effs)) => effs.len() == 0,
                Err(_) => false,
            }
        }),
{
    reveal(check_fn);
    let cx = CxV { defns: ds, nty: k, nfn: k };
    let bv = bind_kind_params(fd.big_params, 0, Seq::empty())->Ok_0;
    let vars = bind_params(cx, bv, fd.params, 0, Seq::empty())->Ok_0;
    assert(split_ret(fd.ret_type).1 == Seq::<KindedV>::empty());
    match infer_stmts(CxV { defns: ds, nty: k, nfn: k + 1 }, bv, vars, fd.body, 0) {
        Ok((_, effs)) => {
            lemma_nothing_allowed(effs, 0);
        },
        Err(_) => {},
    }
}

/// A function whose declared return type is not `Effectful`, whose header checks, and whose
/// body has the declared type but performs some effect, is rejected with `InvalidEffectUse`
/// naming the function and the body's first effect.
pub proof fn lemma_effectful_body_rejected(ds: Seq<TopDefnV>, k: int, fd: FnDefnV)
    requires
        !(fd.ret_type is Effectful),
        ({
            let cx = CxV { defns: ds, nty: k, nfn: k };
            let bv = bind_kind_params(fd.big_params, 0, Seq::empty())->Ok_0;
            let vars = bind_params(cx, bv, fd.params, 0, Seq::empty())->Ok_0;
            let body = infer_stmts(CxV { defns: ds, nty: k, nfn: k + 1 }, bv, vars, fd.body, 0);
            &&& !small_taken(cx, fd.name)
            &&& bind_kind_params(fd.big_params, 0, Seq::empty()) is Ok
            &&& bind_params(cx, bv, fd.params, 0, Seq::empty()) is Ok
            &&& has_kind_spec(cx, bv, fd.ret_type, KindV::Type) is Ok
            &&& (fd.requires is Some ==> check_pred(cx, bv, vars, fd.name, fd.requires->0) is Ok)
            &&& (fd.ensures is Some ==> lookup(vars, "ret"@) is None
                && check_pred(cx, bv, vars.push(("ret"@, fd.ret_type)), fd.name, fd.ensures->0) is Ok)
            &&& body is Ok
            &&& body->Ok_0.0 == fd.ret_type
            &&& body->Ok_0.1.len() > 0
        }),
    ensures
        ({
            let cx = CxV { defns: ds, nty: k, nfn: k };
            let bv = bind_kind_params(fd.big_params, 0, Seq::empty())->Ok_0;
            let vars = bind_params(cx, bv, fd.params, 0, Seq::empty())->Ok_0;
            let effs = infer_stmts(CxV { defns: ds, nty: k, nfn: k + 1 }, bv, vars, fd.body, 0)->Ok_0.1;
            check_fn(ds, k, fd) == Err::<(), ErrorV>(ErrorV::InvalidEffectUse(fd.name, effs[0]))
        }),
{
    reveal(check_fn);
    let cx = CxV { defns: ds, nty: k, nfn: k };
    let bv = bind_kind_params(fd.big_params, 0, Seq::empty())->Ok_0;
    let vars = bind_params(cx, bv, fd.params, 0, Seq::empty())->Ok_0;
    let effs = infer_stmts(CxV { defns: ds, nty: k, nfn: k + 1 }, bv, vars, fd.body, 0)->Ok_0.1;
    assert(split_ret(fd.ret_type) == (fd.ret_type, Seq::<KindedV>::empty()));
    assert(!Seq::<KindedV>::empty().contains(effs[0]));
    assert(first_disallowed(effs, Seq::empty(), 0) == Some(effs[0]));
}

/// Each of `arms[i..]` that [`infer_arms`] accepts has type `t0`.
proof fn lemma_arms_from(cx: CxV, bv: BigVarsV, vars: VarsV, arms: Seq<ArmV>, i: int, ht: KindedV, t0: KindedV)
    requires
        0 <= i,
        infer_arms(cx, bv, vars, arms, i, ht, t0) is Ok,
    ensures
        forall|j: int| i <= j < arms.len() ==> {
            &&& #[trigger] infer_arm(cx, bv, vars, arms[j], ht) is Ok
            &&& infer_arm(cx, bv, vars, arms[j], ht)->Ok_0.0 == t0
        },
    decreases arms.len() - i,
{
    if i < arms.len() {
        lemma_arms_from(cx, bv, vars, arms, i + 1, ht, t0);
    }
}

/// An element of a concatenation is an element of one of its parts.
proof fn lemma_concat_contains(a: Seq<KindedV>, b: Seq<KindedV>, x: KindedV)
    ensures
        (a + b).contains(x) <==> (a.contains(x) || b.contains(x)),
{
    if (a + b).contains(x) {
        let k = choose|k: int| 0 <= k < (a + b).len() && (a + b)[k] == x;
        if k >= a.len() {
            assert(b[k - a.len()] == x);
        }
    }
    if a.contains(x) {
        let k = choose|k: int| 0 <= k < a.len() && a[k] == x;
        assert((a + b)[k] == x);
    }
    if b.contains(x) {
        let k = choose|k: int| 0 <= k < b.len() && b[k] == x;
        assert((a + b)[a.len() + k] == x);
    }
}

/// The effects of the arms `arms[i..]` that [`infer_arms`] gives are those of the arms.
proof fn lemma_arms_effects(cx: CxV, bv: BigVarsV, vars: VarsV, arms: Seq<ArmV>, i: int, ht: KindedV, t0: KindedV)
    requires
        0 <= i,
        infer_arms(cx, bv, vars, arms, i, ht, t0) is Ok,
    ensures
        forall|x: KindedV| infer_arms(cx, bv, vars, arms, i, ht, t0)->Ok_0.contains(x) <==>
            exists|j: int| i <= j < arms.len() && (#[trigger] infer_arm(cx, bv, vars, arms[j], ht))->Ok_0.1.contains(x),
    decreases arms.len() - i,
{
    if i < arms.len() {
        lemma_arms_effects(cx, bv, vars, arms, i + 1, ht, t0);
        let ef = infer_arm(cx, bv, vars, arms[i], ht)->Ok_0.1;
        let rest = infer_arms(cx, bv, vars, arms, i + 1, ht, t0)->Ok_0;
        assert forall|x: KindedV| infer_arms(cx, bv, vars, arms, i, ht, t0)->Ok_0.contains(x) <==>
            exists|j: int| i <= j < arms.len() && (#[trigger] infer_arm(cx, bv, vars, arms[j], ht))->Ok_0.1.contains(x) by {
            lemma_concat_contains(ef, rest, x);
            if exists|j: int| i <= j < arms.len() && (#[trigger] infer_arm(cx, bv, vars, arms[j], ht))->Ok_0.1.contains(x) {
                let j = choose|j: int| i <= j < arms.len() && (#[trigger] infer_arm(cx, bv, vars, arms[j], ht))->Ok_0.1.contains(x);
                if j > i {
                    assert(rest.contains(x));
                }
            }
            if ef.contains(x) {
                assert(infer_arm(cx, bv, vars, arms[i], ht)->Ok_0.1.contains(x));
            }
        }
    } else {
        assert forall|x: KindedV| !infer_arms(cx, bv, vars, arms, i, ht, t0)->Ok_0.contains(x) by {}
    }
}

/// In a match that type-checks, every arm type-checks against the scrutinee's type, all arms
/// have the same type (the type of the match), and the match performs exactly the effects of
/// its scrutinee and of its arms.
pub proof fn lemma_match_arms_same_type(cx: CxV, bv: BigVarsV, vars: VarsV, h: ExprV, arms: Seq<ArmV>)
    requires
        infer(cx, bv, vars, ExprV::Match(Box::new(h), arms)) is Ok,
    ensures
        ({
            let ht = infer(cx, bv, vars, h)->Ok_0.0;
            let r = infer(cx, bv, vars, ExprV::Match(Box::new(h), arms))->Ok_0;
            &&& arms.len() > 0
            &&& forall|i: int| 0 <= i < arms.len() ==> {
                &&& #[trigger] infer_arm(cx, bv, vars, arms[i], ht) is Ok
                &&& infer_arm(cx, bv, vars, arms[i], ht)->Ok_0.0 == r.0
            }
            &&& forall|x: KindedV| r.1.contains(x) <==> (infer(cx, bv, vars, h)->Ok_0.1.contains(x)
                || exists|i: int| 0 <= i < arms.len() && (#[trigger] infer_arm(cx, bv, vars, arms[i], ht))->Ok_0.1.contains(x))
        }),
{
    let ht = infer(cx, bv, vars, h)->Ok_0.0;
    let he = infer(cx, bv, vars, h)->Ok_0.1;
    let (t0, e0) = infer_arm(cx, bv, vars, arms[0], ht)->Ok_0;
    lemma_arms_from(cx, bv, vars, arms, 1, ht, t0);
    lemma_arms_effects(cx, bv, vars, arms, 1, ht, t0);
    let effs = infer_arms(cx, bv, vars, arms, 1, ht, t0)->Ok_0;
    let r = infer(cx, bv, vars, ExprV::Match(Box::new(h), arms))->Ok_0;
    assert(r.1 == he + e0 + effs);
    assert forall|x: KindedV| r.1.contains(x) <==> (he.contains(x)
        || exists|i: int| 0 <= i < arms.len() && (#[trigger] infer_arm(cx, bv, vars, arms[i], ht))->Ok_0.1.contains(x)) by {
        lemma_concat_contains(he + e0, effs, x);
        lemma_concat_contains(he, e0, x);
        if exists|i: int| 0 <= i < arms.len() && (#[trigger] infer_arm(cx, bv, vars, arms[i], ht))->Ok_0.1.contains(x) {
            let i = choose|i: int| 0 <= i < arms.len() && (#[trigger] infer_arm(cx, bv, vars, arms[i], ht))->Ok_0.1.contains(x);
            if i > 0 {
                assert(effs.contains(x));
            }
        }
        if e0.contains(x) {
            assert(infer_arm(cx, bv, vars, arms[0], ht)->Ok_0.1.contains(x));
        }
    }
}

/// Each kind argument of `args[i..]` that [`args_have_kinds`] accepts has its parameter's kind.
proof fn lemma_kind_args_from(cx: CxV, bv: BigVarsV, ps: Seq<ParamV<KindV>>, args: Seq<KindedV>, i: int)
    requires
        0 <= i,
        ps.len() == args.len(),
        args_have_kinds(cx, bv, ps, args, i) is Ok,
    ensures
        forall|j: int| i <= j < args.len() ==> #[trigger] kind_of(cx, bv, args[j]) == Ok::<KindV, ErrorV>(ps[j].type_),
    decreases ps.len() - i,
{
    if i < ps.len() {
        assert(has_kind(cx, bv, args[i], ps[i].type_) is Ok);
        lemma_kind_args_from(cx, bv, ps, args, i + 1);
    }
}

/// At a call that type-checks, the callee resolves, it is given as many kind arguments as it has
/// kind parameters, and each kind argument's kind is the corresponding parameter's kind.
pub proof fn lemma_call_kind_args(cx: CxV, bv: BigVarsV, vars: VarsV, f: Seq<char>, ks: Seq<KindedV>, es: Seq<ExprV>)
    requires
        infer(cx, bv, vars, ExprV::FnCall(f, ks, es)) is Ok,
    ensures
        sig_of(cx, f) is Some,
        ks.len() == sig_of(cx, f)->0.big_params.len(),
        forall|i: int| 0 <= i < ks.len() ==> #[trigger] kind_of(cx, bv, ks[i])
            == Ok::<KindV, ErrorV>(sig_of(cx, f)->0.big_params[i].type_),
{
    lemma_kind_args_from(cx, bv, sig_of(cx, f)->0.big_params, ks, 0);
}

/// The names of the fields of a struct definition, in order.
pub open spec fn field_names(ps: Seq<ParamV<KindedV>>) -> Seq<Seq<char>> {
    Seq::new(ps.len(), |i: int| ps[i].ident)
}

/// Each field of `fs[i..]` that [`infer_fields`] accepts is a field of the struct, is not in
/// `seen`, and is not given twice.
proof fn lemma_fields_from(cx: CxV, bv: BigVarsV, vars: VarsV, n: Seq<char>, sd: StructDefnV, args: Seq<KindedV>, fs: Seq<FieldV<ExprV>>, i: int, seen: Seq<Seq<char>>)
    requires
        0 <= i,
        infer_fields(cx, bv, vars, n, sd, args, fs, i, seen) is Ok,
    ensures
        forall|j: int| i <= j < fs.len() ==> #[trigger] param_type(sd.fields, field_name(fs[j])) is Some
            && !seen.contains(field_name(fs[j])),
        forall|j: int, k: int| i <= j < k < fs.len() ==> field_name(#[trigger] fs[j]) != field_name(#[trigger] fs[k]),
    decreases fs.len() - i,
{
    if i < fs.len() {
        let x = field_name(fs[i]);
        lemma_fields_from(cx, bv, vars, n, sd, args, fs, i + 1, seen.push(x));
        assert forall|j: int| i + 1 <= j < fs.len() implies !seen.contains(field_name(fs[j])) && field_name(fs[j]) != x by {
            assert(param_type(sd.fields, field_name(fs[j])) is Some);
            assert(!seen.push(x).contains(field_name(fs[j])));
            if seen.contains(field_name(fs[j])) {
                let q = choose|q: int| 0 <= q < seen.len() && seen[q] == field_name(fs[j]);
                assert(seen.push(x)[q] == field_name(fs[j]));
            }
            assert(seen.push(x)[seen.len() as int] == x);
        }
    }
}

/// Each declared field of `ps[i..]` is given, when none is missing.
proof fn lemma_none_missing(ps: Seq<ParamV<KindedV>>, given: Seq<Seq<char>>, i: int)
    requires
        0 <= i,
        first_missing(ps, given, i) is None,
    ensures
        forall|j: int| i <= j < ps.len() ==> given.contains(#[trigger] ps[j].ident),
    decreases ps.len() - i,
{
    if i < ps.len() {
        lemma_none_missing(ps, given, i + 1);
    }
}

/// In a struct construction that type-checks, the struct exists, no field is given twice, and
/// the given field names are exactly the struct's field names.
pub proof fn lemma_struct_construction_fields(cx: CxV, bv: BigVarsV, vars: VarsV, n: Seq<char>, args: Seq<KindedV>, fs: Seq<FieldV<ExprV>>)
    requires
        infer(cx, bv, vars, ExprV::Struct(n, args, fs)) is Ok,
    ensures
        find_struct(cx, n) is Some,
        given_names(fs).no_duplicates(),
        given_names(fs).to_set() == field_names(find_struct(cx, n)->0.fields).to_set(),
{
    let sd = find_struct(cx, n)->0;
    lemma_fields_from(cx, bv, vars, n, sd, args, fs, 0, Seq::empty());
    lemma_none_missing(sd.fields, given_names(fs), 0);
    let g = given_names(fs);
    let names = field_names(sd.fields);
    assert forall|i: int, j: int| 0 <= i < g.len() && 0 <= j < g.len() && i != j implies g[i] != g[j] by {
        if i < j {
            assert(field_name(fs[i]) != field_name(fs[j]));
        } else {
            assert(field_name(fs[j]) != field_name(fs[i]));
        }
    }
    assert forall|x: Seq<char>| g.to_set().contains(x) implies names.to_set().contains(x) by {
        let i = choose|i: int| 0 <= i < g.len() && g[i] == x;
        assert(param_type(sd.fields, field_name(fs[i])) is Some);
        lemma_found_param(sd.fields, x, 0);
    }
    assert forall|x: Seq<char>| names.to_set().contains(x) implies g.to_set().contains(x) by {
        let j = choose|j: int| 0 <= j < names.len() && names[j] == x;
        assert(g.contains(sd.fields[j].ident));
    }
    assert(g.to_set() =~= names.to_set());
}

/// A name found among the parameters is one of their names.
proof fn lemma_found_param(ps: Seq<ParamV<KindedV>>, x: Seq<char>, j: int)
    requires
        0 <= j,
        find_param_from(ps, x, j) is Some,
    ensures
        field_names(ps).to_set().contains(x),
    decreases ps.len() - j,
{
    if j < ps.len() {
        if ps[j].ident == x {
            assert(field_names(ps)[j] == x);
        } else {
            lemma_found_param(ps, x, j + 1);
        }
    }
}

/// Desugaring an expression twice gives what desugaring it once gives.
pub proof fn lemma_ds_expr_idempotent(e: ExprV)
    ensures
        ds_expr(ds_expr(e)) == ds_expr(e),
    decreases e,
{
    match e {
        ExprV::Tuple(es) => {
            lemma_ds_exprs_idempotent(e, es);
        },
        ExprV::Struct(n, ks, fs) => {
            assert forall|i: int| 0 <= i < fs.len() implies #[trigger] ds_fields(ds_fields(fs))[i] == ds_fields(fs)[i] by {
                match fs[i] {
                    FieldV::IdentAnd(x, fe) => {
                        lemma_ds_expr_idempotent(fe);
                    },
                    FieldV::Ident(_) => {},
                }
            }
            assert(ds_fields(ds_fields(fs)) =~= ds_fields(fs));
        },
        ExprV::FnCall(f, ks, es) => {
            lemma_ds_exprs_idempotent(e, es);
        },
        ExprV::FieldGet(x, f) => {
            lemma_ds_expr_idempotent(*x);
        },
        ExprV::MethodCall(x, f, ks, es) => {
            lemma_ds_expr_idempotent(*x);
            lemma_ds_exprs_idempotent(e, es);
            let all = seq![ds_expr(*x)] + ds_exprs(es);
            assert forall|i: int| 0 <= i < all.len() implies #[trigger] ds_exprs(all)[i] == all[i] by {
                if i > 0 {
                    assert(all[i] == ds_exprs(es)[i - 1]);
                    assert(ds_exprs(ds_exprs(es))[i - 1] == ds_exprs(es)[i - 1]);
                }
            }
            assert(ds_exprs(all) =~= all);
        },
        ExprV::Match(x, arms) => {
            lemma_ds_expr_idempotent(*x);
            assert forall|i: int| 0 <= i < arms.len() implies #[trigger] ds_arms(ds_arms(arms))[i] == ds_arms(arms)[i] by {
                lemma_ds_block_idempotent(arms[i].block);
            }
            assert(ds_arms(ds_arms(arms)) =~= ds_arms(arms));
        },
        ExprV::Block(b) => {
            lemma_ds_block_idempotent(*b);
        },
        _ => {},
    }
}

/// Desugaring the elements `es` of `e` twice gives what desugaring them once gives.
proof fn lemma_ds_exprs_idempotent(e: ExprV, es: Seq<ExprV>)
    requires
        forall|i: int| 0 <= i < es.len() ==> decreases_to!(e => #[trigger] es[i]),
    ensures
        ds_exprs(ds_exprs(es)) == ds_exprs(es),
    decreases e, 0int,
{
    assert forall|i: int| 0 <= i < es.len() implies #[trigger] ds_exprs(ds_exprs(es))[i] == ds_exprs(es)[i] by {
        lemma_ds_expr_idempotent(es[i]);
    }
    assert(ds_exprs(ds_exprs(es)) =~= ds_exprs(es));
}

/// Desugaring a block twice gives what desugaring it once gives.
pub proof fn lemma_ds_block_idempotent(b: BlockV)
    ensures
        ds_block(ds_block(b)) == ds_block(b),
    decreases b,
{
    assert forall|i: int| 0 <= i < b.stmts.len() implies #[trigger] ds_block(ds_block(b)).stmts[i] == ds_block(b).stmts[i] by {
        match b.stmts[i] {
            StmtV::Let(p, t, x) => {
                lemma_ds_expr_idempotent(x);
            },
        }
    }
    assert(ds_block(ds_block(b)).stmts =~= ds_block(b).stmts);
    match b.expr {
        Some(x) => {
            lemma_ds_expr_idempotent(x);
        },
        None => {},
    }
}

/// Desugaring is idempotent on programs, so checking a desugared program once more after
/// desugaring it again gives the same verdict.
pub proof fn lemma_check_desugared_idempotent(ds: Seq<TopDefnV>)
    ensures
        desugar(desugar(ds)) == desugar(ds),
        check_program(desugar(desugar(ds))) == check_program(desugar(ds)),
{
    assert forall|i: int| 0 <= i < ds.len() implies #[trigger] desugar(desugar(ds))[i] == desugar(ds)[i] by {
        match ds[i] {
            TopDefnV::Fn_(f) => {
                lemma_ds_block_idempotent(f.body);
                match f.requires {
                    Some(r) => {
                        lemma_ds_expr_idempotent(r);
                    },
                    None => {},
                }
                match f.ensures {
                    Some(en) => {
                        lemma_ds_expr_idempotent(en);
                    },
                    None => {},
                }
            },
            _ => {},
        }
    }
    assert(desugar(desugar(ds)) =~= desugar(ds));
}

/// Two runs of the checker, on a desugared program and on that program desugared again, agree:
/// both accept, or both reject with the same error.
pub proof fn lemma_check_twice_agrees(ds: Seq<TopDefnV>, r1: Result<(), Error>, r2: Result<(), Error>)
    requires
        rel_unit(r1, check_program(desugar(ds))),
        rel_unit(r2, check_program(desugar(desugar(ds)))),
    ensures
        r1 is Ok <==> r2 is Ok,
        r1 is Err ==> r1->Err_0.v() == r2->Err_0.v(),
{
    lemma_check_desugared_idempotent(ds);
}

/// At a constructor call that type-checks, the payload is one expression whose type is the
/// constructor's carrier with the kind arguments put for the enum's parameters: the static half
/// of the agreement between constructor values and their carriers.
pub proof fn lemma_ctor_payload_type(cx: CxV, bv: BigVarsV, vars: VarsV, c: Seq<char>, ks: Seq<KindedV>, es: Seq<ExprV>)
    requires
        infer(cx, bv, vars, ExprV::FnCall(c, ks, es)) is Ok,
        find_fn(cx, c) is None,
    ensures
        find_ctor_enum(cx, c) is Some,
        es.len() == 1,
        ({
            let ed = find_ctor_enum(cx, c)->0;
            &&& infer(cx, bv, vars, es[0]) is Ok
            &&& infer(cx, bv, vars, es[0])->Ok_0.0 == subst(zip_sub(ed.params, ks), param_type(ed.ctors, c)->0)
        }),
{
    let ed = find_ctor_enum(cx, c)->0;
    let sig = sig_of(cx, c)->0;
    assert(infer_args(cx, bv, vars, sig.params, zip_sub(sig.big_params, ks), es, 0) is Ok);
}

} // verus!
