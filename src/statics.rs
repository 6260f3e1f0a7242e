//! Static checking: the executable rules, each proved to compute what
//! [`statics_spec`](crate::statics_spec) defines.
use vstd::prelude::*;
use crate::cst::{
    Arm, Block, Expr, Field, FnDefn, Kind, KindV, Kinded, KindedV, Param, Pat, Stmt,
    StructDefn, TopDefn, duplicate_kindeds, kind_params_v, kindeds_v, kinds_v, params_v,
    top_defns_v,
};
use crate::error::{Error, ErrorV};
use crate::ident::Ident;
use crate::statics_spec::{
    BigVarsV, CxV, SigV, TypedV, VarsV, all_have_kind, args_have_kinds, big_taken,
    bind_kind_params, bind_params, check_ctors, check_defn, check_fields, check_fn, check_from,
    check_pred, check_program, find_ctor_from, find_enum_from, find_fn_from, find_param_from,
    find_struct_from, first_disallowed, first_dup, flatten, flatten_from, has_kind, infer, infer_arm,
    infer_arms, infer_args, infer_fields, infer_stmts, infer_tuple, kind_of, kinds_of, lookup,
    match_pat, match_pats, name_kind, pack_kinds, param_type, param_types, params_as_args,
    params_kind, sig_of, small_taken, split_ret, subst, substs, zip_sub, field_name, given_names,
    first_missing,
};
use crate::std_lib::{named, prelude_effects};

verus! {

/// The model of a list of kind bindings.
pub open spec fn bvv(s: Seq<(Ident, Kind)>) -> BigVarsV {
    Seq::new(s.len(), |i: int| (s[i].0@, s[i].1.v()))
}

/// The model of a list of type bindings.
pub open spec fn varsv(s: Seq<(Ident, Kinded)>) -> VarsV {
    Seq::new(s.len(), |i: int| (s[i].0@, s[i].1.v()))
}

/// The checking context over the models of `ds`.
pub open spec fn cxv(ds: &Vec<TopDefn>, nty: usize, nfn: usize) -> CxV {
    CxV { defns: top_defns_v(ds@), nty: nty as int, nfn: nfn as int }
}

/// `r` computes `s`.
pub open spec fn rel_unit(r: Result<(), Error>, s: Result<(), ErrorV>) -> bool {
    match s {
        Ok(_) => r is Ok,
        Err(e) => r is Err && r->Err_0.v() == e,
    }
}

/// `r` computes `s`.
pub open spec fn rel_kind(r: Result<Kind, Error>, s: Result<KindV, ErrorV>) -> bool {
    match s {
        Ok(k) => r is Ok && r->Ok_0.v() == k,
        Err(e) => r is Err && r->Err_0.v() == e,
    }
}

/// Whether two kinds are equal.
pub fn kind_eq(a: &Kind, b: &Kind) -> (r: bool)
    ensures
        r == (a.v() == b.v()),
    decreases a,
{
    match (a, b) {
        (Kind::Type, Kind::Type) => true,
        (Kind::Effect, Kind::Effect) => true,
        (Kind::Tuple(xs), Kind::Tuple(ys)) => kinds_eq(xs, ys),
        (Kind::Arrow(a1, a2), Kind::Arrow(b1, b2)) => kind_eq(a1, b1) && kind_eq(a2, b2),
        _ => false,
    }
}

/// Whether two sequences of kinds are equal.
pub fn kinds_eq(xs: &Vec<Kind>, ys: &Vec<Kind>) -> (r: bool)
    ensures
        r == (kinds_v(xs@) == kinds_v(ys@)),
    decreases xs,
{
    if xs.len() != ys.len() {
        assert(kinds_v(xs@).len() != kinds_v(ys@).len());
        return false;
    }
    let mut k: usize = 0;
    while k < xs.len()
        invariant
            xs@.len() == ys@.len(),
            k <= xs@.len(),
            forall|j: int| 0 <= j < k ==> (#[trigger] xs@[j]).v() == ys@[j].v(),
        decreases xs@.len() - k,
    {
        assert(decreases_to!(xs => xs@[k as int]));
        if !kind_eq(&xs[k], &ys[k]) {
            assert(kinds_v(xs@)[k as int] != kinds_v(ys@)[k as int]);
            return false;
        }
        k += 1;
    }
    assert(kinds_v(xs@) =~= kinds_v(ys@));
    true
}

/// Whether two types or effects are equal.
pub fn kinded_eq(a: &Kinded, b: &Kinded) -> (r: bool)
    ensures
        r == (a.v() == b.v()),
    decreases a,
{
    match (a, b) {
        (Kinded::Ident(x, xs), Kinded::Ident(y, ys)) => x.same(y) && kindeds_eq(xs, ys),
        (Kinded::Tuple(xs), Kinded::Tuple(ys)) => kindeds_eq(xs, ys),
        (Kinded::Effects(xs), Kinded::Effects(ys)) => kindeds_eq(xs, ys),
        (Kinded::Arrow(a1, a2), Kinded::Arrow(b1, b2)) => kinded_eq(a1, b1) && kinded_eq(a2, b2),
        (Kinded::Effectful(a1, a2), Kinded::Effectful(b1, b2)) => kinded_eq(a1, b1) && kinded_eq(a2, b2),
        _ => false,
    }
}

/// Whether two sequences of types or effects are equal.
pub fn kindeds_eq(xs: &Vec<Kinded>, ys: &Vec<Kinded>) -> (r: bool)
    ensures
        r == (kindeds_v(xs@) == kindeds_v(ys@)),
    decreases xs,
{
    if xs.len() != ys.len() {
        assert(kindeds_v(xs@).len() != kindeds_v(ys@).len());
        return false;
    }
    let mut k: usize = 0;
    while k < xs.len()
        invariant
            xs@.len() == ys@.len(),
            k <= xs@.len(),
            forall|j: int| 0 <= j < k ==> (#[trigger] xs@[j]).v() == ys@[j].v(),
        decreases xs@.len() - k,
    {
        assert(decreases_to!(xs => xs@[k as int]));
        if !kinded_eq(&xs[k], &ys[k]) {
            assert(kindeds_v(xs@)[k as int] != kindeds_v(ys@)[k as int]);
            return false;
        }
        k += 1;
    }
    assert(kindeds_v(xs@) =~= kindeds_v(ys@));
    true
}

/// The index of the last binding of `x` among kind bindings.
fn lookup_bv(bv: &Vec<(Ident, Kind)>, x: &Ident) -> (r: Option<usize>)
    ensures
        match lookup(bvv(bv@), x@) {
            None => r is None,
            Some(k) => r is Some && r->0 < bv@.len() && bv@[r->0 as int].1.v() == k,
        },
{
    let mut k = bv.len();
    assert(bvv(bv@).subrange(0, k as int) =~= bvv(bv@));
    while k > 0
        invariant
            k <= bv@.len(),
            lookup(bvv(bv@), x@) == lookup(bvv(bv@).subrange(0, k as int), x@),
        decreases k,
    {
        assert(bvv(bv@).subrange(0, k as int).drop_last() =~= bvv(bv@).subrange(0, k - 1));
        if bv[k - 1].0.same(x) {
            return Some(k - 1);
        }
        k -= 1;
    }
    None
}

/// The index of the last binding of `x` among type bindings.
pub fn lookup_var(vars: &Vec<(Ident, Kinded)>, x: &Ident) -> (r: Option<usize>)
    ensures
        match lookup(varsv(vars@), x@) {
            None => r is None,
            Some(t) => r is Some && r->0 < vars@.len() && vars@[r->0 as int].1.v() == t,
        },
{
    let mut k = vars.len();
    assert(varsv(vars@).subrange(0, k as int) =~= varsv(vars@));
    while k > 0
        invariant
            k <= vars@.len(),
            lookup(varsv(vars@), x@) == lookup(varsv(vars@).subrange(0, k as int), x@),
        decreases k,
    {
        assert(varsv(vars@).subrange(0, k as int).drop_last() =~= varsv(vars@).subrange(0, k - 1));
        if vars[k - 1].0.same(x) {
            return Some(k - 1);
        }
        k -= 1;
    }
    None
}

/// The index of the first struct named `x` among the first `n` definitions.
fn find_struct_b(ds: &Vec<TopDefn>, n: usize, x: &Ident) -> (r: Option<usize>)
    ensures
        match find_struct_from(top_defns_v(ds@), n as int, x@, 0) {
            Some(j) => r is Some && r->0 as int == j,
            None => r is None,
        },
        r is Some ==> r->0 < ds@.len() && ds@[r->0 as int] is Struct,
{
    let mut j: usize = 0;
    while j < n && j < ds.len()
        invariant
            find_struct_from(top_defns_v(ds@), n as int, x@, 0) == find_struct_from(top_defns_v(ds@), n as int, x@, j as int),
        decreases ds@.len() - j,
    {
        if let TopDefn::Struct(sd) = &ds[j] {
            if sd.name.same(x) {
                return Some(j);
            }
        }
        j += 1;
    }
    None
}

/// The index of the first enum named `x` among the first `n` definitions.
fn find_enum_b(ds: &Vec<TopDefn>, n: usize, x: &Ident) -> (r: Option<usize>)
    ensures
        match find_enum_from(top_defns_v(ds@), n as int, x@, 0) {
            Some(j) => r is Some && r->0 as int == j,
            None => r is None,
        },
        r is Some ==> r->0 < ds@.len() && ds@[r->0 as int] is Enum,
{
    let mut j: usize = 0;
    while j < n && j < ds.len()
        invariant
            find_enum_from(top_defns_v(ds@), n as int, x@, 0) == find_enum_from(top_defns_v(ds@), n as int, x@, j as int),
        decreases ds@.len() - j,
    {
        if let TopDefn::Enum(ed) = &ds[j] {
            if ed.name.same(x) {
                return Some(j);
            }
        }
        j += 1;
    }
    None
}

/// The index of the first function named `x` among the first `n` definitions.
fn find_fn_b(ds: &Vec<TopDefn>, n: usize, x: &Ident) -> (r: Option<usize>)
    ensures
        match find_fn_from(top_defns_v(ds@), n as int, x@, 0) {
            Some(j) => r is Some && r->0 as int == j,
            None => r is None,
        },
        r is Some ==> r->0 < ds@.len() && ds@[r->0 as int] is Fn_,
{
    let mut j: usize = 0;
    while j < n && j < ds.len()
        invariant
            find_fn_from(top_defns_v(ds@), n as int, x@, 0) == find_fn_from(top_defns_v(ds@), n as int, x@, j as int),
        decreases ds@.len() - j,
    {
        if let TopDefn::Fn_(fd) = &ds[j] {
            if fd.name.same(x) {
                return Some(j);
            }
        }
        j += 1;
    }
    None
}

/// The index of the first of `ps` named `x`.
fn find_param_b(ps: &Vec<Param<Ident, Kinded>>, x: &Ident) -> (r: Option<usize>)
    ensures
        match find_param_from(params_v(ps@), x@, 0) {
            Some(j) => r is Some && r->0 as int == j,
            None => r is None,
        },
        r is Some ==> r->0 < ps@.len(),
{
    let mut j: usize = 0;
    while j < ps.len()
        invariant
            find_param_from(params_v(ps@), x@, 0) == find_param_from(params_v(ps@), x@, j as int),
        decreases ps@.len() - j,
    {
        if ps[j].ident.same(x) {
            return Some(j);
        }
        j += 1;
    }
    None
}

/// The index of the first enum among the first `n` definitions with a constructor named `x`.
fn find_ctor_b(ds: &Vec<TopDefn>, n: usize, x: &Ident) -> (r: Option<usize>)
    ensures
        match find_ctor_from(top_defns_v(ds@), n as int, x@, 0) {
            Some(j) => r is Some && r->0 as int == j,
            None => r is None,
        },
        r is Some ==> r->0 < ds@.len() && ds@[r->0 as int] is Enum
            && find_param_from(params_v(ds@[r->0 as int]->Enum_0.ctors@), x@, 0) is Some,
{
    let mut j: usize = 0;
    while j < n && j < ds.len()
        invariant
            find_ctor_from(top_defns_v(ds@), n as int, x@, 0) == find_ctor_from(top_defns_v(ds@), n as int, x@, j as int),
        decreases ds@.len() - j,
    {
        if let TopDefn::Enum(ed) = &ds[j] {
            if find_param_b(&ed.ctors, x).is_some() {
                return Some(j);
            }
        }
        j += 1;
    }
    None
}

/// Whether `x` is one of the prelude's effect labels.
fn is_effect_b(x: &Ident) -> (r: bool)
    ensures
        r == prelude_effects().contains(x@),
{
    let es = crate::std_lib::effects();
    let mut k: usize = 0;
    while k < es.len()
        invariant
            es@.len() == prelude_effects().len(),
            forall|i: int| 0 <= i < es@.len() ==> (#[trigger] es@[i])@ == prelude_effects()[i],
            k <= es@.len(),
            forall|i: int| 0 <= i < k ==> prelude_effects()[i] != x@,
        decreases es@.len() - k,
    {
        if es[k].same(x) {
            assert(prelude_effects()[k as int] == x@);
            return true;
        }
        k += 1;
    }
    false
}

/// The kind of a struct or enum with these kind parameters.
fn params_kind_b(ps: &Vec<Param<Ident, Kind>>) -> (r: Kind)
    ensures
        r.v() == params_kind(kind_params_v(ps@)),
{
    let ghost pv = kind_params_v(ps@);
    if ps.len() == 0 {
        assert(pv.len() == 0);
        Kind::Type
    } else if ps.len() == 1 {
        let ty = Kind::Type;
        assert(ty.v() == KindV::Type);
        Kind::Arrow(Box::new(ps[0].type_.duplicate()), Box::new(ty))
    } else {
        let mut ks: Vec<Kind> = Vec::new();
        let mut k: usize = 0;
        while k < ps.len()
            invariant
                k <= ps@.len(),
                ks@.len() == k,
                forall|j: int| 0 <= j < k ==> (#[trigger] ks@[j]).v() == ps@[j].type_.v(),
            decreases ps@.len() - k,
        {
            ks.push(ps[k].type_.duplicate());
            k += 1;
        }
        assert(kinds_v(ks@) =~= crate::statics_spec::param_kinds(pv));
        let ty = Kind::Type;
        assert(ty.v() == KindV::Type);
        let tu = Kind::Tuple(ks);
        assert(tu.v() == KindV::Tuple(crate::statics_spec::param_kinds(pv)));
        Kind::Arrow(Box::new(tu), Box::new(ty))
    }
}

/// The kind of the name `x` without arguments.
fn name_kind_b(ds: &Vec<TopDefn>, nty: usize, nfn: usize, bv: &Vec<(Ident, Kind)>, x: &Ident) -> (r: Option<Kind>)
    ensures
        match name_kind(cxv(ds, nty, nfn), bvv(bv@), x@) {
            None => r is None,
            Some(k) => r is Some && r->0.v() == k,
        },
{
    if let Some(j) = lookup_bv(bv, x) {
        return Some(bv[j].1.duplicate());
    }
    if let Some(j) = find_struct_b(ds, nty, x) {
        assert(top_defns_v(ds@)[j as int] == ds@[j as int].v());
        if let TopDefn::Struct(sd) = &ds[j] {
            return Some(params_kind_b(&sd.params));
        }
    }
    if let Some(j) = find_enum_b(ds, nty, x) {
        assert(top_defns_v(ds@)[j as int] == ds@[j as int].v());
        if let TopDefn::Enum(ed) = &ds[j] {
            return Some(params_kind_b(&ed.params));
        }
    }
    if is_effect_b(x) {
        return Some(Kind::Effect);
    }
    None
}

/// The kind of a type or effect, as [`kind_of`] says.
pub fn kind_of_b(ds: &Vec<TopDefn>, nty: usize, nfn: usize, bv: &Vec<(Ident, Kind)>, t: &Kinded) -> (r: Result<Kind, Error>)
    ensures
        rel_kind(r, kind_of(cxv(ds, nty, nfn), bvv(bv@), t.v())),
    decreases t, 0int,
{
    match t {
        Kinded::Ident(x, args) => {
            let ghost cx = cxv(ds, nty, nfn);
            assert(t.v() == KindedV::Ident(x@, kindeds_v(args@)));
            assert(kind_of(cx, bvv(bv@), t.v()) == match name_kind(cx, bvv(bv@), x@) {
                None => Err(ErrorV::UndefinedIdentifier(x@)),
                Some(k) => if args@.len() == 0 {
                    Ok(k)
                } else {
                    match k {
                        KindV::Arrow(p, r) => match kinds_of(cx, bvv(bv@), kindeds_v(args@), 0) {
                            Err(e) => Err(e),
                            Ok(aks) => if *p == pack_kinds(aks) {
                                Ok(*r)
                            } else {
                                Err(ErrorV::MismatchedKinds(*p, pack_kinds(aks)))
                            },
                        },
                        _ => Err(ErrorV::InvalidKindedApp(x@, k)),
                    }
                },
            });
            match name_kind_b(ds, nty, nfn, bv, x) {
                None => Err(Error::UndefinedIdentifier(x.duplicate())),
                Some(k) => {
                    assert(name_kind(cx, bvv(bv@), x@) == Some(k.v()));
                    if args.len() == 0 {
                        Ok(k)
                    } else {
                        match k {
                            Kind::Arrow(p, res) => {
                                assert(k.v() == KindV::Arrow(Box::new(p.v()), Box::new(res.v())));
                                match kinds_of_b(ds, nty, nfn, bv, args) {
                                    Err(e) => Err(e),
                                    Ok(mut aks) => {
                                        let ghost akv = kinds_v(aks@);
                                        let ak = if aks.len() == 1 {
                                            aks.pop().unwrap()
                                        } else {
                                            Kind::Tuple(aks)
                                        };
                                        assert(ak.v() == pack_kinds(akv));
                                        if kind_eq(&p, &ak) {
                                            Ok(*res)
                                        } else {
                                            Err(Error::MismatchedKinds(*p, ak))
                                        }
                                    },
                                }
                            },
                            _ => Err(Error::InvalidKindedApp(x.duplicate(), k)),
                        }
                    }
                },
            }
        },
        Kinded::Tuple(ts) => match all_have_kind_b(ds, nty, nfn, bv, ts, &Kind::Type) {
            Err(e) => Err(e),
            Ok(_) => {
                let ty = Kind::Type;
                assert(ty.v() == KindV::Type);
                Ok(ty)
            },
        },
        Kinded::Effects(es) => match all_have_kind_b(ds, nty, nfn, bv, es, &Kind::Effect) {
            Err(e) => Err(e),
            Ok(_) => {
                let ef = Kind::Effect;
                assert(ef.v() == KindV::Effect);
                Ok(ef)
            },
        },
        Kinded::Arrow(a, b) => match has_kind_b(ds, nty, nfn, bv, a, &Kind::Type) {
            Err(e) => Err(e),
            Ok(_) => match has_kind_b(ds, nty, nfn, bv, b, &Kind::Type) {
                Err(e) => Err(e),
                Ok(_) => {
                let ty = Kind::Type;
                assert(ty.v() == KindV::Type);
                Ok(ty)
            },
            },
        },
        Kinded::Effectful(a, b) => match has_kind_b(ds, nty, nfn, bv, a, &Kind::Type) {
            Err(e) => Err(e),
            Ok(_) => match has_kind_b(ds, nty, nfn, bv, b, &Kind::Effect) {
                Err(e) => Err(e),
                Ok(_) => {
                let ty = Kind::Type;
                assert(ty.v() == KindV::Type);
                Ok(ty)
            },
            },
        },
    }
}

/// Whether `t` has kind `want`, as [`has_kind`] says.
pub fn has_kind_b(ds: &Vec<TopDefn>, nty: usize, nfn: usize, bv: &Vec<(Ident, Kind)>, t: &Kinded, want: &Kind) -> (r: Result<(), Error>)
    ensures
        rel_unit(r, has_kind(cxv(ds, nty, nfn), bvv(bv@), t.v(), want.v())),
    decreases t, 1int,
{
    match kind_of_b(ds, nty, nfn, bv, t) {
        Err(e) => Err(e),
        Ok(k) => {
            if kind_eq(&k, want) {
                Ok(())
            } else {
                Err(Error::MismatchedKinds(want.duplicate(), k))
            }
        },
    }
}

fn all_have_kind_b(ds: &Vec<TopDefn>, nty: usize, nfn: usize, bv: &Vec<(Ident, Kind)>, ts: &Vec<Kinded>, want: &Kind) -> (r: Result<(), Error>)
    ensures
        rel_unit(r, all_have_kind(cxv(ds, nty, nfn), bvv(bv@), kindeds_v(ts@), 0, want.v())),
    decreases ts, 0int,
{
    let mut k: usize = 0;
    while k < ts.len()
        invariant
            k <= ts@.len(),
            all_have_kind(cxv(ds, nty, nfn), bvv(bv@), kindeds_v(ts@), 0, want.v())
                == all_have_kind(cxv(ds, nty, nfn), bvv(bv@), kindeds_v(ts@), k as int, want.v()),
        decreases ts@.len() - k,
    {
        assert(decreases_to!(ts => ts@[k as int]));
        match has_kind_b(ds, nty, nfn, bv, &ts[k], want) {
            Err(e) => {
                return Err(e);
            },
            Ok(_) => {},
        }
        k += 1;
    }
    Ok(())
}

fn kinds_of_b(ds: &Vec<TopDefn>, nty: usize, nfn: usize, bv: &Vec<(Ident, Kind)>, ts: &Vec<Kinded>) -> (r: Result<Vec<Kind>, Error>)
    ensures
        match kinds_of(cxv(ds, nty, nfn), bvv(bv@), kindeds_v(ts@), 0) {
            Ok(ks) => r is Ok && kinds_v(r->Ok_0@) == ks,
            Err(e) => r is Err && r->Err_0.v() == e,
        },
    decreases ts, 0int,
{
    let ghost cx = cxv(ds, nty, nfn);
    let ghost tv = kindeds_v(ts@);
    let mut out: Vec<Kind> = Vec::new();
    let mut k: usize = 0;
    while k < ts.len()
        invariant
            k <= ts@.len(),
            cx == cxv(ds, nty, nfn),
            tv == kindeds_v(ts@),
            kinds_of(cx, bvv(bv@), tv, 0) == match kinds_of(cx, bvv(bv@), tv, k as int) {
                Ok(ks) => Ok(kinds_v(out@) + ks),
                Err(e) => Err(e),
            },
        decreases ts@.len() - k,
    {
        assert(decreases_to!(ts => ts@[k as int]));
        match kind_of_b(ds, nty, nfn, bv, &ts[k]) {
            Err(e) => {
                return Err(e);
            },
            Ok(kd) => {
                let ghost pre = kinds_v(out@);
                let ghost kv = kd.v();
                out.push(kd);
                proof {
                    assert(kinds_v(out@) =~= pre.push(kv));
                    match kinds_of(cx, bvv(bv@), tv, k + 1) {
                        Ok(ks) => {
                            assert(pre + (seq![kv] + ks) =~= kinds_v(out@) + ks);
                        },
                        Err(_) => {},
                    }
                }
            },
        }
        k += 1;
    }
    assert(kinds_v(out@) + Seq::<KindV>::empty() =~= kinds_v(out@));
    Ok(out)
}

/// `r` computes `s`.
pub open spec fn rel_vars(r: Result<Vec<(Ident, Kinded)>, Error>, s: Result<VarsV, ErrorV>) -> bool {
    match s {
        Ok(b) => r is Ok && varsv(r->Ok_0@) == b,
        Err(e) => r is Err && r->Err_0.v() == e,
    }
}

/// Copies of type bindings.
pub fn dup_vars(vars: &Vec<(Ident, Kinded)>) -> (r: Vec<(Ident, Kinded)>)
    ensures
        varsv(r@) == varsv(vars@),
{
    let mut out: Vec<(Ident, Kinded)> = Vec::new();
    let mut k: usize = 0;
    while k < vars.len()
        invariant
            k <= vars@.len(),
            out@.len() == k,
            forall|j: int| 0 <= j < k ==> (#[trigger] out@[j]).0@ == vars@[j].0@ && out@[j].1.v() == vars@[j].1.v(),
        decreases vars@.len() - k,
    {
        out.push((vars[k].0.duplicate(), vars[k].1.duplicate()));
        k += 1;
    }
    assert(varsv(out@) =~= varsv(vars@));
    out
}

/// Appends the bindings of `b` to `vars`.
fn extend_vars(vars: &mut Vec<(Ident, Kinded)>, b: Vec<(Ident, Kinded)>)
    ensures
        varsv(final(vars)@) == varsv(old(vars)@) + varsv(b@),
{
    let mut b = b;
    let ghost v0 = vars@;
    let ghost b0 = b@;
    vars.append(&mut b);
    assert(varsv(vars@) =~= varsv(v0) + varsv(b0));
}

/// Each kind parameter bound to its argument, as [`zip_sub`] says.
fn zip_sub_b(ps: &Vec<Param<Ident, Kind>>, args: &Vec<Kinded>) -> (r: Vec<(Ident, Kinded)>)
    ensures
        varsv(r@) == zip_sub(kind_params_v(ps@), kindeds_v(args@)),
{
    let mut out: Vec<(Ident, Kinded)> = Vec::new();
    let mut k: usize = 0;
    while k < ps.len() && k < args.len()
        invariant
            k <= ps@.len(),
            k <= args@.len(),
            out@.len() == k,
            forall|j: int| 0 <= j < k ==> (#[trigger] out@[j]).0@ == ps@[j].ident@ && out@[j].1.v() == args@[j].v(),
        decreases ps@.len() - k,
    {
        out.push((ps[k].ident.duplicate(), args[k].duplicate()));
        k += 1;
    }
    assert(varsv(out@) =~= zip_sub(kind_params_v(ps@), kindeds_v(args@)));
    out
}

/// `t` with the parameters of `m` replaced, as [`subst`] says.
pub fn subst_b(m: &Vec<(Ident, Kinded)>, t: &Kinded) -> (r: Kinded)
    ensures
        r.v() == subst(varsv(m@), t.v()),
    decreases t, 0int,
{
    match t {
        Kinded::Ident(x, args) => {
            assert(t.v() == KindedV::Ident(x@, kindeds_v(args@)));
            let args2 = substs_b(m, args);
            match lookup_var(m, x) {
                None => Kinded::Ident(x.duplicate(), args2),
                Some(j) => {
                    if args.len() == 0 {
                        m[j].1.duplicate()
                    } else {
                        match &m[j].1 {
                            Kinded::Ident(y, yargs) => {
                                assert(m@[j as int].1.v() == KindedV::Ident(y@, kindeds_v(yargs@)));
                                if yargs.len() == 0 {
                                    Kinded::Ident(y.duplicate(), args2)
                                } else {
                                    Kinded::Ident(x.duplicate(), args2)
                                }
                            },
                            _ => Kinded::Ident(x.duplicate(), args2),
                        }
                    }
                },
            }
        },
        Kinded::Tuple(ts) => {
            assert(t.v() == KindedV::Tuple(kindeds_v(ts@)));
            Kinded::Tuple(substs_b(m, ts))
        },
        Kinded::Effects(es) => {
            assert(t.v() == KindedV::Effects(kindeds_v(es@)));
            Kinded::Effects(substs_b(m, es))
        },
        Kinded::Arrow(a, b) => Kinded::Arrow(Box::new(subst_b(m, a)), Box::new(subst_b(m, b))),
        Kinded::Effectful(a, b) => Kinded::Effectful(Box::new(subst_b(m, a)), Box::new(subst_b(m, b))),
    }
}

fn substs_b(m: &Vec<(Ident, Kinded)>, ts: &Vec<Kinded>) -> (r: Vec<Kinded>)
    ensures
        kindeds_v(r@) == substs(varsv(m@), kindeds_v(ts@)),
    decreases ts, 0int,
{
    let mut out: Vec<Kinded> = Vec::new();
    let mut k: usize = 0;
    while k < ts.len()
        invariant
            k <= ts@.len(),
            out@.len() == k,
            forall|j: int| 0 <= j < k ==> (#[trigger] out@[j]).v() == subst(varsv(m@), ts@[j].v()),
        decreases ts@.len() - k,
    {
        assert(decreases_to!(ts => ts@[k as int]));
        out.push(subst_b(m, &ts[k]));
        k += 1;
    }
    assert(kindeds_v(out@) =~= substs(varsv(m@), kindeds_v(ts@)));
    out
}

/// The effect labels of an effect, as [`flatten`] says.
pub fn flatten_b(e: &Kinded) -> (r: Vec<Kinded>)
    ensures
        kindeds_v(r@) == flatten(e.v()),
    decreases e, 0int,
{
    match e {
        Kinded::Ident(_, args) => {
            assert(e.v() == KindedV::Ident(e->Ident_0@, kindeds_v(args@)));
            let mut out: Vec<Kinded> = Vec::new();
            out.push(e.duplicate());
            assert(kindeds_v(out@) =~= seq![e.v()]);
            out
        },
        Kinded::Effects(es) => {
            assert(e.v() == KindedV::Effects(kindeds_v(es@)));
            flatten_seq_b(es)
        },
        Kinded::Tuple(ts) => {
            assert(e.v() == KindedV::Tuple(kindeds_v(ts@)));
            let out: Vec<Kinded> = Vec::new();
            assert(kindeds_v(out@) =~= Seq::empty());
            out
        },
        Kinded::Arrow(_, _) | Kinded::Effectful(_, _) => {
            let out: Vec<Kinded> = Vec::new();
            assert(kindeds_v(out@) =~= Seq::empty());
            out
        },
    }
}

fn flatten_seq_b(es: &Vec<Kinded>) -> (r: Vec<Kinded>)
    ensures
        kindeds_v(r@) == flatten_from(kindeds_v(es@), 0),
    decreases es, 0int,
{
    let ghost ev = kindeds_v(es@);
    let mut out: Vec<Kinded> = Vec::new();
    let mut k: usize = 0;
    assert(kindeds_v(out@) + flatten_from(ev, 0) =~= flatten_from(ev, 0));
    while k < es.len()
        invariant
            k <= es@.len(),
            ev == kindeds_v(es@),
            kindeds_v(out@) + flatten_from(ev, k as int) == flatten_from(ev, 0),
        decreases es@.len() - k,
    {
        assert(decreases_to!(es => es@[k as int]));
        let mut f = flatten_b(&es[k]);
        let ghost pre = kindeds_v(out@);
        let ghost fv = kindeds_v(f@);
        out.append(&mut f);
        assert(kindeds_v(out@) =~= pre + fv);
        assert(pre + (fv + flatten_from(ev, k + 1)) =~= kindeds_v(out@) + flatten_from(ev, k + 1));
        k += 1;
    }
    assert(kindeds_v(out@) + Seq::<KindedV>::empty() =~= kindeds_v(out@));
    out
}

/// The first name bound in `b` that `acc` binds already.
fn first_dup_b(acc: &Vec<(Ident, Kinded)>, b: &Vec<(Ident, Kinded)>) -> (r: Option<Ident>)
    ensures
        match first_dup(varsv(acc@), varsv(b@), 0) {
            None => r is None,
            Some(x) => r is Some && r->0@ == x,
        },
{
    let mut k: usize = 0;
    while k < b.len()
        invariant
            k <= b@.len(),
            first_dup(varsv(acc@), varsv(b@), 0) == first_dup(varsv(acc@), varsv(b@), k as int),
        decreases b@.len() - k,
    {
        if lookup_var(acc, &b[k].0).is_some() {
            return Some(b[k].0.duplicate());
        }
        k += 1;
    }
    None
}

/// The bindings of pattern `p` against type `t`, as [`match_pat`] says.
pub fn match_pat_b(ds: &Vec<TopDefn>, nty: usize, nfn: usize, p: &Pat, t: &Kinded) -> (r: Result<Vec<(Ident, Kinded)>, Error>)
    ensures
        rel_vars(r, match_pat(cxv(ds, nty, nfn), p.v(), t.v())),
    decreases p, 0int,
{
    let ghost cx = cxv(ds, nty, nfn);
    let empty: Vec<(Ident, Kinded)> = Vec::new();
    assert(varsv(empty@) =~= Seq::empty());
    match p {
        Pat::Wildcard => Ok(empty),
        Pat::String_(_) => {
            let st = named_ident("Str");
            if kinded_eq(t, &st) {
                Ok(empty)
            } else {
                Err(Error::MismatchedTypes(t.duplicate(), st))
            }
        },
        Pat::Number(_) => {
            let nt = named_ident("Nat");
            if kinded_eq(t, &nt) {
                Ok(empty)
            } else {
                Err(Error::MismatchedTypes(t.duplicate(), nt))
            }
        },
        Pat::Tuple(ps) => {
            assert(p.v() == crate::cst::PatV::Tuple(crate::cst::pats_v(ps@)));
            match t {
                Kinded::Tuple(ts) => {
                    assert(t.v() == KindedV::Tuple(kindeds_v(ts@)));
                    if ts.len() == ps.len() {
                        match_pats_b(ds, nty, nfn, ps, ts)
                    } else {
                        Err(Error::InvalidPattern(t.duplicate()))
                    }
                },
                _ => Err(Error::InvalidPattern(t.duplicate())),
            }
        },
        Pat::Ctor(c, inner) => {
            match t {
                Kinded::Ident(en, args) => {
                    assert(t.v() == KindedV::Ident(en@, kindeds_v(args@)));
                    match find_enum_b(ds, nty, en) {
                        None => Err(Error::InvalidPattern(t.duplicate())),
                        Some(j) => {
                            assert(top_defns_v(ds@)[j as int] == ds@[j as int].v());
                            match &ds[j] {
                                TopDefn::Enum(ed) => match find_param_b(&ed.ctors, c) {
                                    None => Err(Error::InvalidPattern(t.duplicate())),
                                    Some(q) => {
                                        let sub = zip_sub_b(&ed.params, args);
                                        let ct = subst_b(&sub, &ed.ctors[q].type_);
                                        match_pat_b(ds, nty, nfn, inner, &ct)
                                    },
                                },
                                _ => Err(Error::Internal),
                            }
                        },
                    }
                },
                _ => Err(Error::InvalidPattern(t.duplicate())),
            }
        },
        Pat::Ident(x) => {
            let mut b: Vec<(Ident, Kinded)> = Vec::new();
            b.push((x.duplicate(), t.duplicate()));
            assert(varsv(b@) =~= seq![(x@, t.v())]);
            Ok(b)
        },
    }
}

fn match_pats_b(ds: &Vec<TopDefn>, nty: usize, nfn: usize, ps: &Vec<Pat>, ts: &Vec<Kinded>) -> (r: Result<Vec<(Ident, Kinded)>, Error>)
    requires
        ps@.len() == ts@.len(),
    ensures
        rel_vars(r, match_pats(cxv(ds, nty, nfn), crate::cst::pats_v(ps@), kindeds_v(ts@), 0, Seq::empty())),
    decreases ps, 0int,
{
    let ghost cx = cxv(ds, nty, nfn);
    let ghost pv = crate::cst::pats_v(ps@);
    let ghost tv = kindeds_v(ts@);
    let mut acc: Vec<(Ident, Kinded)> = Vec::new();
    assert(varsv(acc@) =~= Seq::empty());
    let mut k: usize = 0;
    while k < ps.len()
        invariant
            k <= ps@.len(),
            ps@.len() == ts@.len(),
            cx == cxv(ds, nty, nfn),
            pv == crate::cst::pats_v(ps@),
            tv == kindeds_v(ts@),
            match_pats(cx, pv, tv, 0, Seq::empty()) == match_pats(cx, pv, tv, k as int, varsv(acc@)),
        decreases ps@.len() - k,
    {
        assert(decreases_to!(ps => ps@[k as int]));
        match match_pat_b(ds, nty, nfn, &ps[k], &ts[k]) {
            Err(e) => {
                return Err(e);
            },
            Ok(b) => {
                match first_dup_b(&acc, &b) {
                    Some(x) => {
                        return Err(Error::DuplicateIdentifier(x));
                    },
                    None => {
                        extend_vars(&mut acc, b);
                    },
                }
            },
        }
        k += 1;
    }
    Ok(acc)
}

/// The unapplied named type `n`.
fn named_ident(n: &str) -> (r: Kinded)
    ensures
        r.v() == named(n@),
{
    let none: Vec<Kinded> = Vec::new();
    assert(kindeds_v(none@) =~= Seq::empty());
    Kinded::Ident(Ident::new(n), none)
}

/// `r` computes `s`.
pub open spec fn rel_typed(r: Result<(Kinded, Vec<Kinded>), Error>, s: Result<TypedV, ErrorV>) -> bool {
    match s {
        Ok((t, ef)) => r is Ok && (r->Ok_0).0.v() == t && kindeds_v((r->Ok_0).1@) == ef,
        Err(e) => r is Err && r->Err_0.v() == e,
    }
}

/// `r` computes `s`.
pub open spec fn rel_effs(r: Result<Vec<Kinded>, Error>, s: Result<Seq<KindedV>, ErrorV>) -> bool {
    match s {
        Ok(ef) => r is Ok && kindeds_v(r->Ok_0@) == ef,
        Err(e) => r is Err && r->Err_0.v() == e,
    }
}

/// `pre` followed by the effects of `r`.
pub open spec fn pre_effs(pre: Seq<KindedV>, r: Result<Seq<KindedV>, ErrorV>) -> Result<Seq<KindedV>, ErrorV> {
    match r {
        Ok(ef) => Ok(pre + ef),
        Err(e) => Err(e),
    }
}

/// `r` with `pre` before its effects.
pub open spec fn pre_typed(pre: Seq<KindedV>, r: Result<TypedV, ErrorV>) -> Result<TypedV, ErrorV> {
    match r {
        Ok((t, ef)) => Ok((t, pre + ef)),
        Err(e) => Err(e),
    }
}

/// A call signature.
pub struct Sig {
    pub big_params: Vec<Param<Ident, Kind>>,
    pub params: Vec<Kinded>,
    pub ret: Kinded,
}

/// The model of a signature.
pub open spec fn sig_v(s: Sig) -> SigV {
    SigV { big_params: kind_params_v(s.big_params@), params: kindeds_v(s.params@), ret: s.ret.v() }
}

/// Copies of kind parameters.
fn dup_kind_params(ps: &Vec<Param<Ident, Kind>>) -> (r: Vec<Param<Ident, Kind>>)
    ensures
        kind_params_v(r@) == kind_params_v(ps@),
{
    let mut out: Vec<Param<Ident, Kind>> = Vec::new();
    let mut k: usize = 0;
    while k < ps.len()
        invariant
            k <= ps@.len(),
            out@.len() == k,
            forall|j: int| 0 <= j < k ==> (#[trigger] out@[j]).ident@ == ps@[j].ident@ && out@[j].type_.v() == ps@[j].type_.v(),
        decreases ps@.len() - k,
    {
        out.push(Param { ident: ps[k].ident.duplicate(), type_: ps[k].type_.duplicate() });
        k += 1;
    }
    assert(kind_params_v(out@) =~= kind_params_v(ps@));
    out
}

/// The signature a call of `f` resolves to, as [`sig_of`] says.
fn sig_b(ds: &Vec<TopDefn>, nty: usize, nfn: usize, f: &Ident) -> (r: Option<Sig>)
    ensures
        match sig_of(cxv(ds, nty, nfn), f@) {
            None => r is None,
            Some(sg) => r is Some && sig_v(r->0) == sg,
        },
{
    if let Some(j) = find_fn_b(ds, nfn, f) {
        assert(top_defns_v(ds@)[j as int] == ds@[j as int].v());
        if let TopDefn::Fn_(fd) = &ds[j] {
            let mut params: Vec<Kinded> = Vec::new();
            let mut k: usize = 0;
            while k < fd.params.len()
                invariant
                    k <= fd.params@.len(),
                    params@.len() == k,
                    forall|q: int| 0 <= q < k ==> (#[trigger] params@[q]).v() == fd.params@[q].type_.v(),
                decreases fd.params@.len() - k,
            {
                params.push(fd.params[k].type_.duplicate());
                k += 1;
            }
            assert(kindeds_v(params@) =~= param_types(params_v(fd.params@)));
            return Some(Sig { big_params: dup_kind_params(&fd.big_params), params, ret: fd.ret_type.duplicate() });
        }
    }
    if let Some(j) = find_ctor_b(ds, nty, f) {
        assert(top_defns_v(ds@)[j as int] == ds@[j as int].v());
        if let TopDefn::Enum(ed) = &ds[j] {
            if let Some(q) = find_param_b(&ed.ctors, f) {
                let mut params: Vec<Kinded> = Vec::new();
                params.push(ed.ctors[q].type_.duplicate());
                let mut args: Vec<Kinded> = Vec::new();
                let mut k: usize = 0;
                while k < ed.params.len()
                    invariant
                        k <= ed.params@.len(),
                        args@.len() == k,
                        forall|q: int| 0 <= q < k ==> (#[trigger] args@[q]).v()
                            == KindedV::Ident(ed.params@[q].ident@, Seq::empty()),
                    decreases ed.params@.len() - k,
                {
                    let none: Vec<Kinded> = Vec::new();
                    assert(kindeds_v(none@) =~= Seq::empty());
                    args.push(Kinded::Ident(ed.params[k].ident.duplicate(), none));
                    k += 1;
                }
                assert(kindeds_v(args@) =~= params_as_args(kind_params_v(ed.params@)));
                assert(kindeds_v(params@) =~= seq![param_type(params_v(ed.ctors@), f@)->0]);
                return Some(Sig {
                    big_params: dup_kind_params(&ed.params),
                    params,
                    ret: Kinded::Ident(ed.name.duplicate(), args),
                });
            }
        }
    }
    None
}

/// Whether each kind argument has its parameter's kind, as [`args_have_kinds`] says.
fn args_have_kinds_b(ds: &Vec<TopDefn>, nty: usize, nfn: usize, bv: &Vec<(Ident, Kind)>, ps: &Vec<Param<Ident, Kind>>, args: &Vec<Kinded>) -> (r: Result<(), Error>)
    ensures
        rel_unit(r, args_have_kinds(cxv(ds, nty, nfn), bvv(bv@), kind_params_v(ps@), kindeds_v(args@), 0)),
{
    let mut k: usize = 0;
    while k < ps.len() && k < args.len()
        invariant
            args_have_kinds(cxv(ds, nty, nfn), bvv(bv@), kind_params_v(ps@), kindeds_v(args@), 0)
                == args_have_kinds(cxv(ds, nty, nfn), bvv(bv@), kind_params_v(ps@), kindeds_v(args@), k as int),
        decreases ps@.len() - k,
    {
        match has_kind_b(ds, nty, nfn, bv, &args[k], &ps[k].type_) {
            Err(e) => {
                return Err(e);
            },
            Ok(_) => {},
        }
        k += 1;
    }
    Ok(())
}

/// The texts of identifiers.
pub open spec fn ident_texts(s: Seq<Ident>) -> Seq<Seq<char>> {
    Seq::new(s.len(), |i: int| s[i]@)
}

/// Whether `x` is among `seen`.
fn seen_contains(seen: &Vec<Ident>, x: &Ident) -> (r: bool)
    ensures
        r == ident_texts(seen@).contains(x@),
{
    let ghost sv = ident_texts(seen@);
    let mut k: usize = 0;
    while k < seen.len()
        invariant
            k <= seen@.len(),
            sv == ident_texts(seen@),
            forall|i: int| 0 <= i < k ==> sv[i] != x@,
        decreases seen@.len() - k,
    {
        if seen[k].same(x) {
            assert(sv[k as int] == x@);
            return true;
        }
        k += 1;
    }
    false
}

/// The index of the first declared field that `fs` does not give.
fn first_missing_b(ps: &Vec<Param<Ident, Kinded>>, fs: &Vec<Field<Expr>>) -> (r: Option<usize>)
    ensures
        match first_missing(params_v(ps@), given_names(crate::cst::fields_v(fs@)), 0) {
            Some(x) => r is Some && r->0 < ps@.len() && ps@[r->0 as int].ident@ == x,
            None => r is None,
        },
{
    let ghost g = given_names(crate::cst::fields_v(fs@));
    let mut names: Vec<Ident> = Vec::new();
    let mut k: usize = 0;
    while k < fs.len()
        invariant
            k <= fs@.len(),
            names@.len() == k,
            g == given_names(crate::cst::fields_v(fs@)),
            forall|j: int| 0 <= j < k ==> (#[trigger] names@[j])@ == g[j],
        decreases fs@.len() - k,
    {
        let x = match &fs[k] {
            Field::Ident(x) => x,
            Field::IdentAnd(x, _) => x,
        };
        names.push(x.duplicate());
        k += 1;
    }
    assert(ident_texts(names@) =~= g);
    let ghost pv = params_v(ps@);
    let mut i: usize = 0;
    while i < ps.len()
        invariant
            i <= ps@.len(),
            pv == params_v(ps@),
            g == ident_texts(names@),
            g == given_names(crate::cst::fields_v(fs@)),
            first_missing(pv, g, 0) == first_missing(pv, g, i as int),
        decreases ps@.len() - i,
    {
        assert(pv[i as int].ident == ps@[i as int].ident@);
        if !seen_contains(&names, &ps[i].ident) {
            assert(first_missing(pv, g, i as int) == Some(pv[i as int].ident));
            return Some(i);
        }
        i += 1;
    }
    None
}

/// The type and effects of an expression, as [`infer`] says.
pub fn infer_b(ds: &Vec<TopDefn>, nty: usize, nfn: usize, bv: &Vec<(Ident, Kind)>, vars: &Vec<(Ident, Kinded)>, e: &Expr) -> (r: Result<(Kinded, Vec<Kinded>), Error>)
    ensures
        rel_typed(r, infer(cxv(ds, nty, nfn), bvv(bv@), varsv(vars@), e.v())),
    decreases e, 0int,
{
    let ghost cx = cxv(ds, nty, nfn);
    match e {
        Expr::String_(_) => {
            let none: Vec<Kinded> = Vec::new();
            assert(kindeds_v(none@) =~= Seq::empty());
            Ok((named_ident("Str"), none))
        },
        Expr::Number(_) => {
            let none: Vec<Kinded> = Vec::new();
            assert(kindeds_v(none@) =~= Seq::empty());
            Ok((named_ident("Nat"), none))
        },
        Expr::Tuple(es) => {
            assert(e.v() == crate::cst::ExprV::Tuple(crate::cst::exprs_v(es@)));
            match infer_tuple_b(ds, nty, nfn, bv, vars, es) {
                Err(x) => Err(x),
                Ok((ts, effs)) => Ok((Kinded::Tuple(ts), effs)),
            }
        },
        Expr::Struct(n, args, fs) => {
            assert(e.v() == crate::cst::ExprV::Struct(n@, kindeds_v(args@), crate::cst::fields_v(fs@)));
            match find_struct_b(ds, nty, n) {
                None => Err(Error::UndefinedIdentifier(n.duplicate())),
                Some(j) => {
                    assert(top_defns_v(ds@)[j as int] == ds@[j as int].v());
                    match &ds[j] {
                        TopDefn::Struct(sd) => {
                            if sd.params.len() != args.len() {
                                Err(Error::WrongNumArgs(n.duplicate(), sd.params.len(), args.len()))
                            } else {
                                match args_have_kinds_b(ds, nty, nfn, bv, &sd.params, args) {
                                    Err(x) => Err(x),
                                    Ok(_) => match infer_fields_b(ds, nty, nfn, bv, vars, n, sd, args, fs) {
                                        Err(x) => Err(x),
                                        Ok(effs) => match first_missing_b(&sd.fields, fs) {
                                            Some(q) => Err(Error::MissingField(n.duplicate(), sd.fields[q].ident.duplicate())),
                                            None => Ok((Kinded::Ident(n.duplicate(), duplicate_kindeds(args)), effs)),
                                        },
                                    },
                                }
                            }
                        },
                        _ => Err(Error::Internal),
                    }
                },
            }
        },
        Expr::Ident(x) => {
            match lookup_var(vars, x) {
                Some(j) => {
                    let none: Vec<Kinded> = Vec::new();
                    assert(kindeds_v(none@) =~= Seq::empty());
                    Ok((vars[j].1.duplicate(), none))
                },
                None => Err(Error::UndefinedIdentifier(x.duplicate())),
            }
        },
        Expr::FnCall(f, ks, es) => {
            assert(e.v() == crate::cst::ExprV::FnCall(f@, kindeds_v(ks@), crate::cst::exprs_v(es@)));
            match sig_b(ds, nty, nfn, f) {
                None => Err(Error::UndefinedIdentifier(f.duplicate())),
                Some(sig) => {
                    if sig.big_params.len() != ks.len() {
                        Err(Error::WrongNumArgs(f.duplicate(), sig.big_params.len(), ks.len()))
                    } else {
                        match args_have_kinds_b(ds, nty, nfn, bv, &sig.big_params, ks) {
                            Err(x) => Err(x),
                            Ok(_) => {
                                if sig.params.len() != es.len() {
                                    Err(Error::WrongNumArgs(f.duplicate(), sig.params.len(), es.len()))
                                } else {
                                    let sub = zip_sub_b(&sig.big_params, ks);
                                    match infer_args_b(ds, nty, nfn, bv, vars, &sig.params, &sub, es) {
                                        Err(x) => Err(x),
                                        Ok(mut effs) => {
                                            let rt = subst_b(&sub, &sig.ret);
                                            match rt {
                                                Kinded::Effectful(t, ef) => {
                                                    let ghost pre = kindeds_v(effs@);
                                                    let mut fl = flatten_b(&ef);
                                                    let ghost flv = kindeds_v(fl@);
                                                    effs.append(&mut fl);
                                                    assert(kindeds_v(effs@) =~= pre + flv);
                                                    Ok((*t, effs))
                                                },
                                                other => Ok((other, effs)),
                                            }
                                        },
                                    }
                                }
                            },
                        }
                    }
                },
            }
        },
        Expr::FieldGet(x, f) => {
            match infer_b(ds, nty, nfn, bv, vars, x) {
                Err(err) => Err(err),
                Ok((t, effs)) => match t {
                    Kinded::Ident(n, args) => {
                        assert(t.v() == KindedV::Ident(n@, kindeds_v(args@)));
                        match find_struct_b(ds, nty, &n) {
                            None => Err(Error::NotStruct(f.duplicate())),
                            Some(j) => {
                                assert(top_defns_v(ds@)[j as int] == ds@[j as int].v());
                                match &ds[j] {
                                    TopDefn::Struct(sd) => match find_param_b(&sd.fields, f) {
                                        None => Err(Error::NoSuchField(n, f.duplicate())),
                                        Some(q) => {
                                            let sub = zip_sub_b(&sd.params, &args);
                                            Ok((subst_b(&sub, &sd.fields[q].type_), effs))
                                        },
                                    },
                                    _ => Err(Error::Internal),
                                }
                            },
                        }
                    },
                    _ => Err(Error::NotStruct(f.duplicate())),
                },
            }
        },
        Expr::MethodCall(_, _, _, _) => Err(Error::Internal),
        Expr::Match(h, arms) => {
            assert(e.v() == crate::cst::ExprV::Match(Box::new(h.v()), crate::cst::arms_v(arms@)));
            match infer_b(ds, nty, nfn, bv, vars, h) {
                Err(x) => Err(x),
                Ok((ht, he)) => infer_match_b(ds, nty, nfn, bv, vars, arms, &ht, he),
            }
        },
        Expr::Block(b) => infer_block_b(ds, nty, nfn, bv, vars, b),
    }
}

fn infer_tuple_b(ds: &Vec<TopDefn>, nty: usize, nfn: usize, bv: &Vec<(Ident, Kind)>, vars: &Vec<(Ident, Kinded)>, es: &Vec<Expr>) -> (r: Result<(Vec<Kinded>, Vec<Kinded>), Error>)
    ensures
        match infer_tuple(cxv(ds, nty, nfn), bvv(bv@), varsv(vars@), crate::cst::exprs_v(es@), 0) {
            Ok((ts, ef)) => r is Ok && kindeds_v((r->Ok_0).0@) == ts && kindeds_v((r->Ok_0).1@) == ef,
            Err(e) => r is Err && r->Err_0.v() == e,
        },
    decreases es, 0int,
{
    let ghost cx = cxv(ds, nty, nfn);
    let ghost ev = crate::cst::exprs_v(es@);
    let mut ts: Vec<Kinded> = Vec::new();
    let mut effs: Vec<Kinded> = Vec::new();
    let mut k: usize = 0;
    assert(kindeds_v(ts@) =~= Seq::empty());
    assert(kindeds_v(effs@) =~= Seq::empty());
    proof {
        match infer_tuple(cx, bvv(bv@), varsv(vars@), ev, 0) {
            Ok((a, b)) => {
                assert(Seq::<KindedV>::empty() + a =~= a);
                assert(Seq::<KindedV>::empty() + b =~= b);
            },
            Err(_) => {},
        }
    }
    while k < es.len()
        invariant
            k <= es@.len(),
            cx == cxv(ds, nty, nfn),
            ev == crate::cst::exprs_v(es@),
            infer_tuple(cx, bvv(bv@), varsv(vars@), ev, 0) == match infer_tuple(cx, bvv(bv@), varsv(vars@), ev, k as int) {
                Ok((a, b)) => Ok((kindeds_v(ts@) + a, kindeds_v(effs@) + b)),
                Err(x) => Err(x),
            },
        decreases es@.len() - k,
    {
        assert(decreases_to!(es => es@[k as int]));
        match infer_b(ds, nty, nfn, bv, vars, &es[k]) {
            Err(x) => {
                return Err(x);
            },
            Ok((t, mut ef)) => {
                let ghost pts = kindeds_v(ts@);
                let ghost pef = kindeds_v(effs@);
                let ghost tv = t.v();
                let ghost efv = kindeds_v(ef@);
                ts.push(t);
                effs.append(&mut ef);
                proof {
                    assert(kindeds_v(ts@) =~= pts.push(tv));
                    assert(kindeds_v(effs@) =~= pef + efv);
                    match infer_tuple(cx, bvv(bv@), varsv(vars@), ev, k + 1) {
                        Ok((a, b)) => {
                            assert(pts + (seq![tv] + a) =~= kindeds_v(ts@) + a);
                            assert(pef + (efv + b) =~= kindeds_v(effs@) + b);
                        },
                        Err(_) => {},
                    }
                }
            },
        }
        k += 1;
    }
    assert(kindeds_v(ts@) + Seq::<KindedV>::empty() =~= kindeds_v(ts@));
    assert(kindeds_v(effs@) + Seq::<KindedV>::empty() =~= kindeds_v(effs@));
    Ok((ts, effs))
}

fn infer_fields_b(ds: &Vec<TopDefn>, nty: usize, nfn: usize, bv: &Vec<(Ident, Kind)>, vars: &Vec<(Ident, Kinded)>, n: &Ident, sd: &StructDefn, args: &Vec<Kinded>, fs: &Vec<Field<Expr>>) -> (r: Result<Vec<Kinded>, Error>)
    ensures
        rel_effs(r, infer_fields(cxv(ds, nty, nfn), bvv(bv@), varsv(vars@), n@, sd.v(), kindeds_v(args@), crate::cst::fields_v(fs@), 0, Seq::empty())),
    decreases fs, 0int,
{
    let ghost cx = cxv(ds, nty, nfn);
    let ghost fv = crate::cst::fields_v(fs@);
    let sub = zip_sub_b(&sd.params, args);
    let mut seen: Vec<Ident> = Vec::new();
    let mut effs: Vec<Kinded> = Vec::new();
    let mut k: usize = 0;
    assert(kindeds_v(effs@) =~= Seq::empty());
    assert(ident_texts(seen@) =~= Seq::<Seq<char>>::empty());
    proof {
        match infer_fields(cx, bvv(bv@), varsv(vars@), n@, sd.v(), kindeds_v(args@), fv, 0, Seq::empty()) {
            Ok(a) => {
                assert(Seq::<KindedV>::empty() + a =~= a);
            },
            Err(_) => {},
        }
    }
    while k < fs.len()
        invariant
            k <= fs@.len(),
            cx == cxv(ds, nty, nfn),
            fv == crate::cst::fields_v(fs@),
            varsv(sub@) == zip_sub(kind_params_v(sd.params@), kindeds_v(args@)),
            infer_fields(cx, bvv(bv@), varsv(vars@), n@, sd.v(), kindeds_v(args@), fv, 0, Seq::empty())
                == pre_effs(kindeds_v(effs@), infer_fields(cx, bvv(bv@), varsv(vars@), n@, sd.v(), kindeds_v(args@), fv, k as int, ident_texts(seen@))),
        decreases fs@.len() - k,
    {
        assert(decreases_to!(fs => fs@[k as int]));
        let (x, got) = match &fs[k] {
            Field::Ident(y) => {
                let g = match lookup_var(vars, y) {
                    Some(j) => {
                        let none: Vec<Kinded> = Vec::new();
                        assert(kindeds_v(none@) =~= Seq::empty());
                        Ok((vars[j].1.duplicate(), none))
                    },
                    None => Err(Error::UndefinedIdentifier(y.duplicate())),
                };
                (y, g)
            },
            Field::IdentAnd(y, fe) => {
                assert(decreases_to!(fs@[k as int] => fs@[k as int]->IdentAnd_1));
                (y, infer_b(ds, nty, nfn, bv, vars, fe))
            },
        };
        match got {
            Err(err) => {
                return Err(err);
            },
            Ok((gt, mut ge)) => match find_param_b(&sd.fields, x) {
                None => {
                    return Err(Error::NoSuchField(n.duplicate(), x.duplicate()));
                },
                Some(q) => {
                    let want = subst_b(&sub, &sd.fields[q].type_);
                    if !kinded_eq(&want, &gt) {
                        return Err(Error::MismatchedTypes(want, gt));
                    }
                    if seen_contains(&seen, x) {
                        return Err(Error::DuplicateField(n.duplicate(), x.duplicate()));
                    }
                    let ghost sv0 = ident_texts(seen@);
                    seen.push(x.duplicate());
                    assert(ident_texts(seen@) =~= sv0.push(x@));
                    let ghost pre = kindeds_v(effs@);
                    let ghost gev = kindeds_v(ge@);
                    effs.append(&mut ge);
                    proof {
                        assert(kindeds_v(effs@) =~= pre + gev);
                        match infer_fields(cx, bvv(bv@), varsv(vars@), n@, sd.v(), kindeds_v(args@), fv, k + 1, sv0.push(x@)) {
                            Ok(a) => {
                                assert(pre + (gev + a) =~= kindeds_v(effs@) + a);
                            },
                            Err(_) => {},
                        }
                    }
                },
            },
        }
        k += 1;
    }
    assert(kindeds_v(effs@) + Seq::<KindedV>::empty() =~= kindeds_v(effs@));
    Ok(effs)
}

fn infer_args_b(ds: &Vec<TopDefn>, nty: usize, nfn: usize, bv: &Vec<(Ident, Kind)>, vars: &Vec<(Ident, Kinded)>, params: &Vec<Kinded>, sub: &Vec<(Ident, Kinded)>, es: &Vec<Expr>) -> (r: Result<Vec<Kinded>, Error>)
    ensures
        rel_effs(r, infer_args(cxv(ds, nty, nfn), bvv(bv@), varsv(vars@), kindeds_v(params@), varsv(sub@), crate::cst::exprs_v(es@), 0)),
    decreases es, 0int,
{
    let ghost cx = cxv(ds, nty, nfn);
    let ghost ev = crate::cst::exprs_v(es@);
    let mut effs: Vec<Kinded> = Vec::new();
    let mut k: usize = 0;
    assert(kindeds_v(effs@) =~= Seq::empty());
    proof {
        match infer_args(cx, bvv(bv@), varsv(vars@), kindeds_v(params@), varsv(sub@), ev, 0) {
            Ok(a) => {
                assert(Seq::<KindedV>::empty() + a =~= a);
            },
            Err(_) => {},
        }
    }
    while k < es.len() && k < params.len()
        invariant
            k <= es@.len(),
            cx == cxv(ds, nty, nfn),
            ev == crate::cst::exprs_v(es@),
            infer_args(cx, bvv(bv@), varsv(vars@), kindeds_v(params@), varsv(sub@), ev, 0)
                == pre_effs(kindeds_v(effs@), infer_args(cx, bvv(bv@), varsv(vars@), kindeds_v(params@), varsv(sub@), ev, k as int)),
        decreases es@.len() - k,
    {
        assert(decreases_to!(es => es@[k as int]));
        match infer_b(ds, nty, nfn, bv, vars, &es[k]) {
            Err(x) => {
                return Err(x);
            },
            Ok((t, mut ef)) => {
                let want = subst_b(sub, &params[k]);
                if !kinded_eq(&want, &t) {
                    return Err(Error::MismatchedTypes(want, t));
                }
                let ghost pre = kindeds_v(effs@);
                let ghost efv = kindeds_v(ef@);
                effs.append(&mut ef);
                proof {
                    assert(kindeds_v(effs@) =~= pre + efv);
                    match infer_args(cx, bvv(bv@), varsv(vars@), kindeds_v(params@), varsv(sub@), ev, k + 1) {
                        Ok(a) => {
                            assert(pre + (efv + a) =~= kindeds_v(effs@) + a);
                        },
                        Err(_) => {},
                    }
                }
            },
        }
        k += 1;
    }
    assert(kindeds_v(effs@) + Seq::<KindedV>::empty() =~= kindeds_v(effs@));
    Ok(effs)
}

fn infer_arm_b(ds: &Vec<TopDefn>, nty: usize, nfn: usize, bv: &Vec<(Ident, Kind)>, vars: &Vec<(Ident, Kinded)>, arm: &Arm, ht: &Kinded) -> (r: Result<(Kinded, Vec<Kinded>), Error>)
    ensures
        rel_typed(r, infer_arm(cxv(ds, nty, nfn), bvv(bv@), varsv(vars@), arm.v(), ht.v())),
    decreases arm, 0int,
{
    match match_pat_b(ds, nty, nfn, &arm.pat, ht) {
        Err(x) => Err(x),
        Ok(b) => {
            let mut vs = dup_vars(vars);
            extend_vars(&mut vs, b);
            infer_block_b(ds, nty, nfn, bv, &vs, &arm.block)
        },
    }
}

fn infer_match_b(ds: &Vec<TopDefn>, nty: usize, nfn: usize, bv: &Vec<(Ident, Kind)>, vars: &Vec<(Ident, Kinded)>, arms: &Vec<Arm>, ht: &Kinded, he: Vec<Kinded>) -> (r: Result<(Kinded, Vec<Kinded>), Error>)
    ensures
        ({
            let cx = cxv(ds, nty, nfn);
            let av = crate::cst::arms_v(arms@);
            rel_typed(r, if av.len() == 0 {
                Err(ErrorV::EmptyMatch)
            } else {
                match infer_arm(cx, bvv(bv@), varsv(vars@), av[0], ht.v()) {
                    Err(x) => Err(x),
                    Ok((t0, e0)) => match infer_arms(cx, bvv(bv@), varsv(vars@), av, 1, ht.v(), t0) {
                        Err(x) => Err(x),
                        Ok(effs) => Ok((t0, kindeds_v(he@) + e0 + effs)),
                    },
                }
            })
        }),
    decreases arms, 0int,
{
    let ghost cx = cxv(ds, nty, nfn);
    let ghost av = crate::cst::arms_v(arms@);
    if arms.len() == 0 {
        return Err(Error::EmptyMatch);
    }
    assert(decreases_to!(arms => arms@[0]));
    assert(av[0] == arms@[0].v());
    let (t0, mut e0) = match infer_arm_b(ds, nty, nfn, bv, vars, &arms[0], ht) {
        Err(x) => {
            return Err(x);
        },
        Ok(p) => p,
    };
    let mut effs = he;
    let ghost hev = kindeds_v(effs@);
    let ghost e0v = kindeds_v(e0@);
    effs.append(&mut e0);
    assert(kindeds_v(effs@) =~= hev + e0v);
    let mut k: usize = 1;
    proof {
        match infer_arms(cx, bvv(bv@), varsv(vars@), av, 1, ht.v(), t0.v()) {
            Ok(a) => {
                assert(hev + e0v + a =~= kindeds_v(effs@) + a);
            },
            Err(_) => {},
        }
    }
    while k < arms.len()
        invariant
            1 <= k <= arms@.len(),
            cx == cxv(ds, nty, nfn),
            av == crate::cst::arms_v(arms@),
            hev == kindeds_v(he@),
            infer_arm(cx, bvv(bv@), varsv(vars@), av[0], ht.v()) == Ok::<TypedV, ErrorV>((t0.v(), e0v)),
            pre_effs(hev + e0v, infer_arms(cx, bvv(bv@), varsv(vars@), av, 1, ht.v(), t0.v()))
                == pre_effs(kindeds_v(effs@), infer_arms(cx, bvv(bv@), varsv(vars@), av, k as int, ht.v(), t0.v())),
        decreases arms@.len() - k,
    {
        assert(decreases_to!(arms => arms@[k as int]));
        assert(av[k as int] == arms@[k as int].v());
        match infer_arm_b(ds, nty, nfn, bv, vars, &arms[k], ht) {
            Err(x) => {
                return Err(x);
            },
            Ok((t, mut ef)) => {
                if !kinded_eq(&t, &t0) {
                    return Err(Error::MismatchedTypes(t0, t));
                }
                let ghost pre = kindeds_v(effs@);
                let ghost efv = kindeds_v(ef@);
                effs.append(&mut ef);
                proof {
                    assert(kindeds_v(effs@) =~= pre + efv);
                    match infer_arms(cx, bvv(bv@), varsv(vars@), av, k + 1, ht.v(), t0.v()) {
                        Ok(a) => {
                            assert(pre + (efv + a) =~= kindeds_v(effs@) + a);
                        },
                        Err(_) => {},
                    }
                }
            },
        }
        k += 1;
    }
    assert(kindeds_v(effs@) + Seq::<KindedV>::empty() =~= kindeds_v(effs@));
    Ok((t0, effs))
}

/// The type and effects of a block, as [`infer_stmts`] says from its first statement.
pub fn infer_block_b(ds: &Vec<TopDefn>, nty: usize, nfn: usize, bv: &Vec<(Ident, Kind)>, vars: &Vec<(Ident, Kinded)>, b: &Block) -> (r: Result<(Kinded, Vec<Kinded>), Error>)
    ensures
        rel_typed(r, infer_stmts(cxv(ds, nty, nfn), bvv(bv@), varsv(vars@), b.v(), 0)),
    decreases b, 0int,
{
    let ghost cx = cxv(ds, nty, nfn);
    let ghost bvw = b.v();
    let mut vs = dup_vars(vars);
    let mut effs: Vec<Kinded> = Vec::new();
    let mut k: usize = 0;
    assert(kindeds_v(effs@) =~= Seq::empty());
    proof {
        match infer_stmts(cx, bvv(bv@), varsv(vars@), bvw, 0) {
            Ok((t, a)) => {
                assert(Seq::<KindedV>::empty() + a =~= a);
            },
            Err(_) => {},
        }
    }
    while k < b.stmts.len()
        invariant
            k <= b.stmts@.len(),
            cx == cxv(ds, nty, nfn),
            bvw == b.v(),
            infer_stmts(cx, bvv(bv@), varsv(vars@), bvw, 0)
                == pre_typed(kindeds_v(effs@), infer_stmts(cx, bvv(bv@), varsv(vs@), bvw, k as int)),
        decreases b.stmts@.len() - k,
    {
        assert(decreases_to!(b.stmts => b.stmts@[k as int]));
        assert(decreases_to!(b.stmts@[k as int] => b.stmts@[k as int]->Let_2));
        assert(bvw.stmts[k as int] == b.stmts@[k as int].v());
        match &b.stmts[k] {
            Stmt::Let(p, ot, x) => {
                match infer_b(ds, nty, nfn, bv, &vs, x) {
                    Err(err) => {
                        return Err(err);
                    },
                    Ok((t, mut ef)) => {
                        match ot {
                            Some(want) => {
                                if !kinded_eq(want, &t) {
                                    return Err(Error::MismatchedTypes(want.duplicate(), t));
                                }
                            },
                            None => {},
                        }
                        match match_pat_b(ds, nty, nfn, p, &t) {
                            Err(err) => {
                                return Err(err);
                            },
                            Ok(bs) => {
                                extend_vars(&mut vs, bs);
                                let ghost pre = kindeds_v(effs@);
                                let ghost efv = kindeds_v(ef@);
                                effs.append(&mut ef);
                                proof {
                                    assert(kindeds_v(effs@) =~= pre + efv);
                                    match infer_stmts(cx, bvv(bv@), varsv(vs@), bvw, k + 1) {
                                        Ok((tt, a)) => {
                                            assert(pre + (efv + a) =~= kindeds_v(effs@) + a);
                                        },
                                        Err(_) => {},
                                    }
                                }
                            },
                        }
                    },
                }
            },
        }
        k += 1;
    }
    match &b.expr {
        None => Err(Error::NoExprForBlock),
        Some(x) => match infer_b(ds, nty, nfn, bv, &vs, x) {
            Err(err) => Err(err),
            Ok((t, mut ef)) => {
                let ghost pre = kindeds_v(effs@);
                let ghost efv = kindeds_v(ef@);
                effs.append(&mut ef);
                assert(kindeds_v(effs@) =~= pre + efv);
                Ok((t, effs))
            },
        },
    }
}

fn big_taken_b(ds: &Vec<TopDefn>, k: usize, x: &Ident) -> (r: bool)
    ensures
        r == big_taken(cxv(ds, k, k), x@),
{
    find_struct_b(ds, k, x).is_some() || find_enum_b(ds, k, x).is_some() || is_effect_b(x)
}

fn small_taken_b(ds: &Vec<TopDefn>, k: usize, x: &Ident) -> (r: bool)
    ensures
        r == small_taken(cxv(ds, k, k), x@),
{
    find_fn_b(ds, k, x).is_some() || find_ctor_b(ds, k, x).is_some()
}

fn bind_kind_params_b(ps: &Vec<Param<Ident, Kind>>) -> (r: Result<Vec<(Ident, Kind)>, Error>)
    ensures
        match bind_kind_params(kind_params_v(ps@), 0, Seq::empty()) {
            Ok(b) => r is Ok && bvv(r->Ok_0@) == b,
            Err(e) => r is Err && r->Err_0.v() == e,
        },
{
    let mut bv: Vec<(Ident, Kind)> = Vec::new();
    assert(bvv(bv@) =~= Seq::empty());
    let mut k: usize = 0;
    while k < ps.len()
        invariant
            k <= ps@.len(),
            bind_kind_params(kind_params_v(ps@), 0, Seq::empty()) == bind_kind_params(kind_params_v(ps@), k as int, bvv(bv@)),
        decreases ps@.len() - k,
    {
        if lookup_bv(&bv, &ps[k].ident).is_some() {
            return Err(Error::DuplicateIdentifier(ps[k].ident.duplicate()));
        }
        let ghost b0 = bvv(bv@);
        bv.push((ps[k].ident.duplicate(), ps[k].type_.duplicate()));
        assert(bvv(bv@) =~= b0.push((ps@[k as int].ident@, ps@[k as int].type_.v())));
        k += 1;
    }
    Ok(bv)
}

fn check_fields_b(ds: &Vec<TopDefn>, k: usize, bv: &Vec<(Ident, Kind)>, n: &Ident, fs: &Vec<Param<Ident, Kinded>>) -> (r: Result<(), Error>)
    ensures
        rel_unit(r, check_fields(cxv(ds, k, k), bvv(bv@), n@, params_v(fs@), 0)),
{
    let mut i: usize = 0;
    let ty = Kind::Type;
    while i < fs.len()
        invariant
            i <= fs@.len(),
            ty.v() == KindV::Type,
            check_fields(cxv(ds, k, k), bvv(bv@), n@, params_v(fs@), 0) == check_fields(cxv(ds, k, k), bvv(bv@), n@, params_v(fs@), i as int),
        decreases fs@.len() - i,
    {
        match has_kind_b(ds, k, k, bv, &fs[i].type_, &ty) {
            Err(e) => {
                return Err(e);
            },
            Ok(_) => {},
        }
        if find_param_b(fs, &fs[i].ident) != Some(i) {
            return Err(Error::DuplicateField(n.duplicate(), fs[i].ident.duplicate()));
        }
        i += 1;
    }
    Ok(())
}

fn check_ctors_b(ds: &Vec<TopDefn>, k: usize, bv: &Vec<(Ident, Kind)>, cs: &Vec<Param<Ident, Kinded>>) -> (r: Result<(), Error>)
    ensures
        rel_unit(r, check_ctors(cxv(ds, k, k), bvv(bv@), params_v(cs@), 0)),
{
    let mut i: usize = 0;
    let ty = Kind::Type;
    while i < cs.len()
        invariant
            i <= cs@.len(),
            ty.v() == KindV::Type,
            check_ctors(cxv(ds, k, k), bvv(bv@), params_v(cs@), 0) == check_ctors(cxv(ds, k, k), bvv(bv@), params_v(cs@), i as int),
        decreases cs@.len() - i,
    {
        let first = find_param_b(cs, &cs[i].ident);
        if small_taken_b(ds, k, &cs[i].ident) || first != Some(i) {
            return Err(Error::DuplicateIdentifier(cs[i].ident.duplicate()));
        }
        match has_kind_b(ds, k, k, bv, &cs[i].type_, &ty) {
            Err(e) => {
                return Err(e);
            },
            Ok(_) => {},
        }
        i += 1;
    }
    Ok(())
}

fn bind_params_b(ds: &Vec<TopDefn>, k: usize, bv: &Vec<(Ident, Kind)>, ps: &Vec<Param<Ident, Kinded>>) -> (r: Result<Vec<(Ident, Kinded)>, Error>)
    ensures
        rel_vars(r, bind_params(cxv(ds, k, k), bvv(bv@), params_v(ps@), 0, Seq::empty())),
{
    let mut vars: Vec<(Ident, Kinded)> = Vec::new();
    assert(varsv(vars@) =~= Seq::empty());
    let ty = Kind::Type;
    let mut i: usize = 0;
    while i < ps.len()
        invariant
            i <= ps@.len(),
            ty.v() == KindV::Type,
            bind_params(cxv(ds, k, k), bvv(bv@), params_v(ps@), 0, Seq::empty())
                == bind_params(cxv(ds, k, k), bvv(bv@), params_v(ps@), i as int, varsv(vars@)),
        decreases ps@.len() - i,
    {
        match has_kind_b(ds, k, k, bv, &ps[i].type_, &ty) {
            Err(e) => {
                return Err(e);
            },
            Ok(_) => {},
        }
        if lookup_var(&vars, &ps[i].ident).is_some() {
            return Err(Error::DuplicateIdentifier(ps[i].ident.duplicate()));
        }
        let ghost v0 = varsv(vars@);
        vars.push((ps[i].ident.duplicate(), ps[i].type_.duplicate()));
        assert(varsv(vars@) =~= v0.push((ps@[i as int].ident@, ps@[i as int].type_.v())));
        i += 1;
    }
    Ok(vars)
}

fn check_pred_b(ds: &Vec<TopDefn>, nty: usize, nfn: usize, bv: &Vec<(Ident, Kind)>, vars: &Vec<(Ident, Kinded)>, f: &Ident, e: &Expr) -> (r: Result<(), Error>)
    ensures
        rel_unit(r, check_pred(cxv(ds, nty, nfn), bvv(bv@), varsv(vars@), f@, e.v())),
{
    match infer_b(ds, nty, nfn, bv, vars, e) {
        Err(x) => Err(x),
        Ok((t, ef)) => {
            let bt = named_ident("Bool");
            if !kinded_eq(&t, &bt) {
                Err(Error::MismatchedTypes(bt, t))
            } else if ef.len() > 0 {
                Err(Error::InvalidEffectUse(f.duplicate(), ef[0].duplicate()))
            } else {
                Ok(())
            }
        },
    }
}

fn first_disallowed_b(effs: &Vec<Kinded>, allowed: &Vec<Kinded>) -> (r: Option<usize>)
    ensures
        match first_disallowed(kindeds_v(effs@), kindeds_v(allowed@), 0) {
            None => r is None,
            Some(e) => r is Some && r->0 < effs@.len() && effs@[r->0 as int].v() == e,
        },
{
    let ghost ev = kindeds_v(effs@);
    let ghost av = kindeds_v(allowed@);
    let mut i: usize = 0;
    while i < effs.len()
        invariant
            i <= effs@.len(),
            ev == kindeds_v(effs@),
            av == kindeds_v(allowed@),
            first_disallowed(ev, av, 0) == first_disallowed(ev, av, i as int),
        decreases effs@.len() - i,
    {
        let mut found = false;
        let mut j: usize = 0;
        while j < allowed.len()
            invariant
                j <= allowed@.len(),
                i < effs@.len(),
                ev == kindeds_v(effs@),
                av == kindeds_v(allowed@),
                found ==> av.contains(ev[i as int]),
                !found ==> forall|q: int| 0 <= q < j ==> av[q] != ev[i as int],
            decreases allowed@.len() - j,
        {
            if !found && kinded_eq(&allowed[j], &effs[i]) {
                found = true;
                assert(av[j as int] == ev[i as int]);
            }
            j += 1;
        }
        if !found {
            assert(!av.contains(ev[i as int]));
            return Some(i);
        }
        i += 1;
    }
    None
}

/// Checks function `fd`, the definition at `k`, as [`check_fn`] says.
pub fn check_fn_b(ds: &Vec<TopDefn>, k: usize, fd: &FnDefn) -> (r: Result<(), Error>)
    requires
        k < ds.len(),
    ensures
        rel_unit(r, check_fn(top_defns_v(ds@), k as int, fd.v())),
{
    reveal(check_fn);
    let ghost cx = cxv(ds, k, k);
    if small_taken_b(ds, k, &fd.name) {
        return Err(Error::DuplicateIdentifier(fd.name.duplicate()));
    }
    let bv = match bind_kind_params_b(&fd.big_params) {
        Err(e) => {
            return Err(e);
        },
        Ok(b) => b,
    };
    let vars = match bind_params_b(ds, k, &bv, &fd.params) {
        Err(e) => {
            return Err(e);
        },
        Ok(v) => v,
    };
    let ty = Kind::Type;
    assert(ty.v() == KindV::Type);
    match has_kind_b(ds, k, k, &bv, &fd.ret_type, &ty) {
        Err(e) => {
            return Err(e);
        },
        Ok(_) => {},
    }
    match &fd.requires {
        Some(req) => match check_pred_b(ds, k, k, &bv, &vars, &fd.name, req) {
            Err(e) => {
                return Err(e);
            },
            Ok(_) => {},
        },
        None => {},
    }
    let (rt, allowed) = match &fd.ret_type {
        Kinded::Effectful(a, e) => (a.duplicate(), flatten_b(e)),
        other => {
            let none: Vec<Kinded> = Vec::new();
            assert(kindeds_v(none@) =~= Seq::empty());
            (other.duplicate(), none)
        },
    };
    assert(split_ret(fd.ret_type.v()) == (rt.v(), kindeds_v(allowed@)));
    match &fd.ensures {
        Some(ens) => {
            let ret_name = Ident::new("ret");
            if lookup_var(&vars, &ret_name).is_some() {
                return Err(Error::DuplicateIdentifier(ret_name));
            }
            let mut vs = dup_vars(&vars);
            let ghost v0 = varsv(vs@);
            vs.push((ret_name, rt.duplicate()));
            assert(varsv(vs@) =~= v0.push(("ret"@, rt.v())));
            match check_pred_b(ds, k, k, &bv, &vs, &fd.name, ens) {
                Err(e) => {
                    return Err(e);
                },
                Ok(_) => {},
            }
        },
        None => {},
    }
    match infer_block_b(ds, k, k + 1, &bv, &vars, &fd.body) {
        Err(e) => Err(e),
        Ok((t, effs)) => {
            if !kinded_eq(&rt, &t) {
                return Err(Error::MismatchedTypes(fd.ret_type.duplicate(), t));
            }
            match first_disallowed_b(&effs, &allowed) {
                Some(q) => Err(Error::InvalidEffectUse(fd.name.duplicate(), effs[q].duplicate())),
                None => Ok(()),
            }
        },
    }
}

/// Checks the definition at `k` against those before it, as [`check_defn`] says.
pub fn check_defn_b(ds: &Vec<TopDefn>, k: usize) -> (r: Result<(), Error>)
    requires
        k < ds.len(),
    ensures
        rel_unit(r, check_defn(top_defns_v(ds@), k as int)),
{
    reveal(check_defn);
    assert(top_defns_v(ds@)[k as int] == ds@[k as int].v());
    match &ds[k] {
        TopDefn::Struct(sd) => {
            if big_taken_b(ds, k, &sd.name) {
                return Err(Error::DuplicateIdentifier(sd.name.duplicate()));
            }
            match bind_kind_params_b(&sd.params) {
                Err(e) => Err(e),
                Ok(bv) => check_fields_b(ds, k, &bv, &sd.name, &sd.fields),
            }
        },
        TopDefn::Enum(ed) => {
            if big_taken_b(ds, k, &ed.name) {
                return Err(Error::DuplicateIdentifier(ed.name.duplicate()));
            }
            match bind_kind_params_b(&ed.params) {
                Err(e) => Err(e),
                Ok(bv) => check_ctors_b(ds, k, &bv, &ed.ctors),
            }
        },
        TopDefn::Fn_(fd) => check_fn_b(ds, k, fd),
    }
}

/// Checks whether the definitions are statically well formed, as
/// [`check_program`](crate::statics_spec::check_program) says: each definition in order, then `main`.
pub fn get(ds: &Vec<TopDefn>) -> (r: Result<(), Error>)
    ensures
        rel_unit(r, check_program(top_defns_v(ds@))),
{
    let mut k: usize = 0;
    while k < ds.len()
        invariant
            k <= ds@.len(),
            check_from(top_defns_v(ds@), 0) == check_from(top_defns_v(ds@), k as int),
        decreases ds@.len() - k,
    {
        match check_defn_b(ds, k) {
            Err(e) => {
                assert(top_defns_v(ds@).len() == ds@.len());
                assert(check_from(top_defns_v(ds@), k as int) == Err::<(), ErrorV>(e.v()));
                assert(check_from(top_defns_v(ds@), 0) == Err::<(), ErrorV>(e.v()));
                assert(check_program(top_defns_v(ds@)) == Err::<(), ErrorV>(e.v()));
                return Err(e);
            },
            Ok(_) => {},
        }
        k += 1;
    }
    let main_name = Ident::new("main");
    match find_fn_b(ds, ds.len(), &main_name) {
        None => Err(Error::NoMain),
        Some(j) => {
            assert(top_defns_v(ds@)[j as int] == ds@[j as int].v());
            match &ds[j] {
                TopDefn::Fn_(m) => {
                    if m.big_params.len() > 0 || m.params.len() > 0 || m.requires.is_some()
                        || m.ensures.is_some() {
                        Err(Error::InvalidMain)
                    } else {
                        Ok(())
                    }
                },
                _ => Err(Error::Internal),
            }
        },
    }
}

} // verus!
