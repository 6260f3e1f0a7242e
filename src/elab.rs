//! Desugaring: every method call `x.f[K...](e...)` becomes the call `f[K...](x, e...)`.
use vstd::prelude::*;
use crate::cst::{
    Arm, ArmV, Block, BlockV, Expr, ExprV, Field, FieldV, FnDefn, FnDefnV, Stmt, StmtV, TopDefn,
    TopDefnV, arms_v, duplicate_kindeds, exprs_v, field_v, fields_v, stmts_v, top_defns_v,
    opt_expr_v,
};

verus! {

/// The expression with its method calls turned into calls.
pub open spec fn ds_expr(e: ExprV) -> ExprV
    decreases e,
{
    match e {
        ExprV::Tuple(es) => ExprV::Tuple(ds_exprs(es)),
        ExprV::Struct(n, ks, fs) => ExprV::Struct(n, ks, ds_fields(fs)),
        ExprV::FnCall(f, ks, es) => ExprV::FnCall(f, ks, ds_exprs(es)),
        ExprV::FieldGet(x, f) => ExprV::FieldGet(Box::new(ds_expr(*x)), f),
        ExprV::MethodCall(x, f, ks, es) => ExprV::FnCall(f, ks, seq![ds_expr(*x)] + ds_exprs(es)),
        ExprV::Match(x, arms) => ExprV::Match(Box::new(ds_expr(*x)), ds_arms(arms)),
        ExprV::Block(b) => ExprV::Block(Box::new(ds_block(*b))),
        _ => e,
    }
}

/// Each expression desugared.
pub open spec fn ds_exprs(es: Seq<ExprV>) -> Seq<ExprV>
    decreases es,
{
    Seq::new(es.len(), |i: int| if 0 <= i < es.len() { ds_expr(es[i]) } else { ExprV::Number(0) })
}

/// Each field's expression desugared.
pub open spec fn ds_fields(fs: Seq<FieldV<ExprV>>) -> Seq<FieldV<ExprV>>
    decreases fs,
{
    Seq::new(
        fs.len(),
        |i: int|
            if 0 <= i < fs.len() {
                match fs[i] {
                    FieldV::Ident(x) => FieldV::Ident(x),
                    FieldV::IdentAnd(x, e) => FieldV::IdentAnd(x, ds_expr(e)),
                }
            } else {
                FieldV::Ident(Seq::empty())
            },
    )
}

/// Each arm's block desugared.
pub open spec fn ds_arms(arms: Seq<ArmV>) -> Seq<ArmV>
    decreases arms,
{
    Seq::new(
        arms.len(),
        |i: int|
            if 0 <= i < arms.len() {
                ArmV { pat: arms[i].pat, block: ds_block(arms[i].block) }
            } else {
                ArmV { pat: crate::cst::PatV::Wildcard, block: BlockV { stmts: Seq::empty(), expr: None } }
            },
    )
}

/// The block's statements and final expression desugared.
pub open spec fn ds_block(b: BlockV) -> BlockV
    decreases b,
{
    BlockV {
        stmts: Seq::new(
            b.stmts.len(),
            |i: int|
                if 0 <= i < b.stmts.len() {
                    match b.stmts[i] {
                        StmtV::Let(p, t, e) => StmtV::Let(p, t, ds_expr(e)),
                    }
                } else {
                    StmtV::Let(crate::cst::PatV::Wildcard, None, ExprV::Number(0))
                },
        ),
        expr: match b.expr {
            Some(e) => Some(ds_expr(e)),
            None => None,
        },
    }
}

/// An optional expression desugared.
pub open spec fn ds_opt(e: Option<ExprV>) -> Option<ExprV> {
    match e {
        Some(e) => Some(ds_expr(e)),
        None => None,
    }
}

/// A definition desugared: functions get their clauses and body desugared.
pub open spec fn ds_defn(d: TopDefnV) -> TopDefnV {
    match d {
        TopDefnV::Fn_(f) => TopDefnV::Fn_(
            FnDefnV {
                requires: ds_opt(f.requires),
                ensures: ds_opt(f.ensures),
                body: ds_block(f.body),
                ..f
            },
        ),
        _ => d,
    }
}

/// The definitions desugared.
pub open spec fn desugar(ds: Seq<TopDefnV>) -> Seq<TopDefnV> {
    Seq::new(ds.len(), |i: int| ds_defn(ds[i]))
}

fn expr_b(e: &Expr) -> (r: Expr)
    ensures
        r.v() == ds_expr(e.v()),
    decreases e,
{
    match e {
        Expr::String_(s) => Expr::String_(s.clone()),
        Expr::Number(n) => Expr::Number(*n),
        Expr::Ident(x) => Expr::Ident(x.duplicate()),
        Expr::Tuple(es) => Expr::Tuple(exprs_b(es)),
        Expr::Struct(n, ks, fs) => Expr::Struct(n.duplicate(), duplicate_kindeds(ks), fields_b(fs)),
        Expr::FnCall(f, ks, es) => Expr::FnCall(f.duplicate(), duplicate_kindeds(ks), exprs_b(es)),
        Expr::FieldGet(x, f) => Expr::FieldGet(Box::new(expr_b(x)), f.duplicate()),
        Expr::MethodCall(x, f, ks, es) => {
            let first = expr_b(x);
            let rest = exprs_b(es);
            let ghost fv = ds_expr(x.v());
            let mut all: Vec<Expr> = Vec::new();
            all.push(first);
            let mut rest = rest;
            all.append(&mut rest);
            assert(exprs_v(all@) =~= seq![fv] + ds_exprs(exprs_v(es@)));
            Expr::FnCall(f.duplicate(), duplicate_kindeds(ks), all)
        },
        Expr::Match(x, arms) => Expr::Match(Box::new(expr_b(x)), arms_b(arms)),
        Expr::Block(b) => Expr::Block(Box::new(block_b(b))),
    }
}

fn fields_b(fs: &Vec<Field<Expr>>) -> (r: Vec<Field<Expr>>)
    ensures
        fields_v(r@) == ds_fields(fields_v(fs@)),
    decreases fs,
{
    let mut out: Vec<Field<Expr>> = Vec::new();
    let mut k: usize = 0;
    while k < fs.len()
        invariant
            k <= fs@.len(),
            out@.len() == k,
            forall|j: int| 0 <= j < k ==> field_v(#[trigger] out@[j]) == ds_fields(fields_v(fs@))[j],
        decreases fs@.len() - k,
    {
        assert(decreases_to!(fs => fs@[k as int]));
        let f = match &fs[k] {
            Field::Ident(x) => Field::Ident(x.duplicate()),
            Field::IdentAnd(x, fe) => {
                assert(decreases_to!(fs@[k as int] => fs@[k as int]->IdentAnd_1));
                Field::IdentAnd(x.duplicate(), expr_b(fe))
            },
        };
        out.push(f);
        k += 1;
    }
    assert(fields_v(out@) =~= ds_fields(fields_v(fs@)));
    out
}

fn arms_b(arms: &Vec<Arm>) -> (r: Vec<Arm>)
    ensures
        arms_v(r@) == ds_arms(arms_v(arms@)),
    decreases arms,
{
    let mut out: Vec<Arm> = Vec::new();
    let mut k: usize = 0;
    while k < arms.len()
        invariant
            k <= arms@.len(),
            out@.len() == k,
            forall|j: int| 0 <= j < k ==> (#[trigger] out@[j]).v() == ds_arms(arms_v(arms@))[j],
        decreases arms@.len() - k,
    {
        assert(decreases_to!(arms => arms@[k as int]));
        assert(decreases_to!(arms@[k as int] => arms@[k as int].block));
        let a = &arms[k];
        out.push(Arm { pat: a.pat.duplicate(), block: block_b(&a.block) });
        k += 1;
    }
    assert(arms_v(out@) =~= ds_arms(arms_v(arms@)));
    out
}

fn exprs_b(es: &Vec<Expr>) -> (r: Vec<Expr>)
    ensures
        exprs_v(r@) == ds_exprs(exprs_v(es@)),
    decreases es,
{
    let mut out: Vec<Expr> = Vec::new();
    let mut k: usize = 0;
    while k < es.len()
        invariant
            k <= es@.len(),
            out@.len() == k,
            forall|j: int| 0 <= j < k ==> (#[trigger] out@[j]).v() == ds_expr(es@[j].v()),
        decreases es@.len() - k,
    {
        assert(decreases_to!(es => es@[k as int]));
        out.push(expr_b(&es[k]));
        k += 1;
    }
    assert(exprs_v(out@) =~= ds_exprs(exprs_v(es@)));
    out
}

fn block_b(b: &Block) -> (r: Block)
    ensures
        r.v() == ds_block(b.v()),
    decreases b,
{
    let mut out: Vec<Stmt> = Vec::new();
    let mut k: usize = 0;
    while k < b.stmts.len()
        invariant
            k <= b.stmts@.len(),
            out@.len() == k,
            forall|j: int| 0 <= j < k ==> (#[trigger] out@[j]).v() == ds_block(b.v()).stmts[j],
        decreases b.stmts@.len() - k,
    {
        assert(decreases_to!(b.stmts => b.stmts@[k as int]));
        let st = match &b.stmts[k] {
            Stmt::Let(p, t, e) => {
                assert(decreases_to!(b.stmts@[k as int] => b.stmts@[k as int]->Let_2));
                Stmt::Let(
                    p.duplicate(),
                    match t {
                        Some(t) => Some(t.duplicate()),
                        None => None,
                    },
                    expr_b(e),
                )
            },
        };
        assert(b.v().stmts[k as int] == b.stmts@[k as int].v());
        assert(st.v() == ds_block(b.v()).stmts[k as int]);
        out.push(st);
        k += 1;
    }
    assert(stmts_v(out@) =~= ds_block(b.v()).stmts);
    let e = match &b.expr {
        Some(e) => Some(expr_b(e)),
        None => None,
    };
    Block { stmts: out, expr: e }
}

fn opt_b(e: &Option<Expr>) -> (r: Option<Expr>)
    ensures
        opt_expr_v(r) == ds_opt(opt_expr_v(*e)),
{
    match e {
        Some(e) => Some(expr_b(e)),
        None => None,
    }
}

/// Desugars the definitions, as [`desugar`] says.
pub fn get(top_defns: Vec<TopDefn>) -> (r: Vec<TopDefn>)
    ensures
        top_defns_v(r@) == desugar(top_defns_v(top_defns@)),
{
    let mut ds = top_defns;
    let mut rev: Vec<TopDefn> = Vec::new();
    let ghost want = desugar(top_defns_v(ds@));
    let ghost n = ds@.len();
    while ds.len() > 0
        invariant
            rev@.len() + ds@.len() == n,
            want.len() == n,
            forall|j: int| 0 <= j < ds@.len() ==> ds_defn((#[trigger] ds@[j]).v()) == want[j],
            forall|j: int| 0 <= j < rev@.len() ==> (#[trigger] rev@[j]).v() == want[n - 1 - j],
        decreases ds@.len(),
    {
        let d = ds.pop().unwrap();
        let d2 = match d {
            TopDefn::Fn_(f) => {
                let f = *f;
                let g = FnDefn {
                    requires: opt_b(&f.requires),
                    ensures: opt_b(&f.ensures),
                    body: block_b(&f.body),
                    ..f
                };
                TopDefn::Fn_(Box::new(g))
            },
            other => other,
        };
        rev.push(d2);
    }
    let mut out: Vec<TopDefn> = Vec::new();
    while rev.len() > 0
        invariant
            out@.len() + rev@.len() == n,
            want.len() == n,
            forall|j: int| 0 <= j < out@.len() ==> (#[trigger] out@[j]).v() == want[j],
            forall|j: int| 0 <= j < rev@.len() ==> (#[trigger] rev@[j]).v() == want[n - 1 - j],
        decreases rev@.len(),
    {
        let d = rev.pop().unwrap();
        out.push(d);
    }
    assert(top_defns_v(out@) =~= want);
    out
}

} // verus!
