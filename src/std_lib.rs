//! The prelude: built-in definitions and effect names.
use vstd::prelude::*;
use crate::cst::{
    Block, BlockV, EnumDefn, EnumDefnV, Expr, ExprV, FnDefn, FnDefnV, Kinded, KindedV, Param, ParamV,
    TopDefn, TopDefnV, top_defns_v,
};
use crate::ident::Ident;

verus! {

/// The model of the unapplied named type `n`.
pub open spec fn named(n: Seq<char>) -> KindedV {
    KindedV::Ident(n, Seq::empty())
}

/// The model of the constructor call `true(())`, the placeholder body of the boolean primitives.
pub open spec fn true_call() -> ExprV {
    ExprV::FnCall("true"@, Seq::empty(), seq![ExprV::Tuple(Seq::empty())])
}

/// The model of a primitive binary function with a placeholder body.
pub open spec fn bin_op_v(name: Seq<char>, lhs: Seq<char>, rhs: Seq<char>, ret: Seq<char>, body: ExprV) -> TopDefnV {
    TopDefnV::Fn_(
        FnDefnV {
            name,
            big_params: Seq::empty(),
            params: seq![
                ParamV { ident: "lhs"@, type_: named(lhs) },
                ParamV { ident: "rhs"@, type_: named(rhs) },
            ],
            ret_type: named(ret),
            requires: None,
            ensures: None,
            body: BlockV { stmts: Seq::empty(), expr: Some(body) },
        },
    )
}

/// The model of an enum without kind parameters.
pub open spec fn plain_enum(name: Seq<char>, ctors: Seq<ParamV<KindedV>>) -> TopDefnV {
    TopDefnV::Enum(EnumDefnV { name, params: Seq::empty(), ctors })
}

/// The prelude's definitions: `Bool` with `true(())` and `false(())`; `Nat` and `Str` without
/// constructors; the arithmetic, comparison and boolean primitives.
pub open spec fn prelude() -> Seq<TopDefnV> {
    seq![
        plain_enum(
            "Bool"@,
            seq![
                ParamV { ident: "true"@, type_: KindedV::Tuple(Seq::empty()) },
                ParamV { ident: "false"@, type_: KindedV::Tuple(Seq::empty()) },
            ],
        ),
        plain_enum("Nat"@, Seq::empty()),
        plain_enum("Str"@, Seq::empty()),
        bin_op_v("add"@, "Nat"@, "Nat"@, "Nat"@, ExprV::Number(0)),
        bin_op_v("sub"@, "Nat"@, "Nat"@, "Nat"@, ExprV::Number(0)),
        bin_op_v("mul"@, "Nat"@, "Nat"@, "Nat"@, ExprV::Number(0)),
        bin_op_v("div"@, "Nat"@, "Nat"@, "Nat"@, ExprV::Number(0)),
        bin_op_v("eq"@, "Nat"@, "Nat"@, "Bool"@, true_call()),
        bin_op_v("lt"@, "Nat"@, "Nat"@, "Bool"@, true_call()),
        bin_op_v("gt"@, "Nat"@, "Nat"@, "Bool"@, true_call()),
        bin_op_v("and"@, "Bool"@, "Bool"@, "Bool"@, true_call()),
        bin_op_v("or"@, "Bool"@, "Bool"@, "Bool"@, true_call()),
    ]
}

/// The effect labels known to every program.
pub open spec fn prelude_effects() -> Seq<Seq<char>> {
    seq!["Stdin"@, "Stdout"@, "Stderr"@, "Randomness"@]
}

fn named_b(n: &str) -> (r: Kinded)
    ensures
        r.v() == named(n@),
{
    let none: Vec<Kinded> = Vec::new();
    let r = Kinded::Ident(Ident::new(n), none);
    assert(crate::cst::kindeds_v(none@) =~= Seq::empty());
    r
}

fn true_call_b() -> (r: Expr)
    ensures
        r.v() == true_call(),
{
    let none: Vec<Kinded> = Vec::new();
    let unit: Vec<Expr> = Vec::new();
    let mut args: Vec<Expr> = Vec::new();
    args.push(Expr::Tuple(unit));
    let r = Expr::FnCall(Ident::new("true"), none, args);
    assert(crate::cst::kindeds_v(none@) =~= Seq::empty());
    assert(crate::cst::exprs_v(unit@) =~= Seq::empty());
    assert(crate::cst::exprs_v(args@) =~= seq![ExprV::Tuple(Seq::empty())]);
    r
}

fn bin_op(name: &str, lhs: &str, rhs: &str, ret: &str, body: Expr) -> (r: TopDefn)
    ensures
        r.v() == bin_op_v(name@, lhs@, rhs@, ret@, body.v()),
{
    let mut params: Vec<Param<Ident, Kinded>> = Vec::new();
    params.push(Param { ident: Ident::new("lhs"), type_: named_b(lhs) });
    params.push(Param { ident: Ident::new("rhs"), type_: named_b(rhs) });
    let big_params: Vec<Param<Ident, crate::cst::Kind>> = Vec::new();
    let stmts: Vec<crate::cst::Stmt> = Vec::new();
    let r = TopDefn::Fn_(Box::new(FnDefn {
        name: Ident::new(name),
        big_params,
        params,
        ret_type: named_b(ret),
        requires: None,
        ensures: None,
        body: Block { stmts, expr: Some(body) },
    }));
    assert(crate::cst::params_v(params@) =~= seq![
        ParamV { ident: "lhs"@, type_: named(lhs@) },
        ParamV { ident: "rhs"@, type_: named(rhs@) },
    ]);
    assert(crate::cst::kind_params_v(big_params@) =~= Seq::empty());
    assert(crate::cst::stmts_v(stmts@) =~= Seq::empty());
    r
}

fn plain_enum_b(name: &str, ctors: Vec<Param<Ident, Kinded>>) -> (r: TopDefn)
    ensures
        r.v() == plain_enum(name@, crate::cst::params_v(ctors@)),
{
    let params: Vec<Param<Ident, crate::cst::Kind>> = Vec::new();
    assert(crate::cst::kind_params_v(params@) =~= Seq::empty());
    TopDefn::Enum(EnumDefn { name: Ident::new(name), params, ctors })
}

/// The prelude's definitions, as [`prelude`] lists them.
pub fn top_defns() -> (r: Vec<TopDefn>)
    ensures
        top_defns_v(r@) == prelude(),
{
    let mut bool_ctors: Vec<Param<Ident, Kinded>> = Vec::new();
    let u1: Vec<Kinded> = Vec::new();
    let u2: Vec<Kinded> = Vec::new();
    bool_ctors.push(Param { ident: Ident::new("true"), type_: Kinded::Tuple(u1) });
    bool_ctors.push(Param { ident: Ident::new("false"), type_: Kinded::Tuple(u2) });
    assert(crate::cst::kindeds_v(u1@) =~= Seq::empty());
    assert(crate::cst::kindeds_v(u2@) =~= Seq::empty());
    assert(crate::cst::params_v(bool_ctors@) =~= seq![
        ParamV { ident: "true"@, type_: KindedV::Tuple(Seq::empty()) },
        ParamV { ident: "false"@, type_: KindedV::Tuple(Seq::empty()) },
    ]);
    let none1: Vec<Param<Ident, Kinded>> = Vec::new();
    let none2: Vec<Param<Ident, Kinded>> = Vec::new();
    assert(crate::cst::params_v(none1@) =~= Seq::empty());
    assert(crate::cst::params_v(none2@) =~= Seq::empty());
    let mut ds: Vec<TopDefn> = Vec::new();
    ds.push(plain_enum_b("Bool", bool_ctors));
    ds.push(plain_enum_b("Nat", none1));
    ds.push(plain_enum_b("Str", none2));
    ds.push(bin_op("add", "Nat", "Nat", "Nat", Expr::Number(0)));
    ds.push(bin_op("sub", "Nat", "Nat", "Nat", Expr::Number(0)));
    ds.push(bin_op("mul", "Nat", "Nat", "Nat", Expr::Number(0)));
    ds.push(bin_op("div", "Nat", "Nat", "Nat", Expr::Number(0)));
    ds.push(bin_op("eq", "Nat", "Nat", "Bool", true_call_b()));
    ds.push(bin_op("lt", "Nat", "Nat", "Bool", true_call_b()));
    ds.push(bin_op("gt", "Nat", "Nat", "Bool", true_call_b()));
    ds.push(bin_op("and", "Bool", "Bool", "Bool", true_call_b()));
    ds.push(bin_op("or", "Bool", "Bool", "Bool", true_call_b()));
    assert(top_defns_v(ds@) =~= prelude());
    ds
}

/// The effect labels known to every program, as [`prelude_effects`] lists them.
pub fn effects() -> (r: Vec<Ident>)
    ensures
        r@.len() == prelude_effects().len(),
        forall|i: int| 0 <= i < r@.len() ==> (#[trigger] r@[i])@ == prelude_effects()[i],
{
    let mut r: Vec<Ident> = Vec::new();
    r.push(Ident::new("Stdin"));
    r.push(Ident::new("Stdout"));
    r.push(Ident::new("Stderr"));
    r.push(Ident::new("Randomness"));
    r
}

} // verus!
