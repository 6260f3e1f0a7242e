//! Evaluation: running `main` of a checked program.
//!
//! Calls of user functions nest at most `fuel` deep; [`get`] gives `u64::MAX`, a depth that no
//! run reaches. Arithmetic on `Nat` wraps around at 2^64, and division by zero gives 0.
use vstd::prelude::*;
use vstd::wrapping::u64_specs;
use crate::cst::{
    Arm, ArmV, Block, BlockV, Expr, ExprV, Field, FieldV, Pat, PatV, Stmt, StmtV, TopDefn,
    TopDefnV, arms_v, exprs_v, fields_v, top_defns_v,
};
use crate::error::{Error, ErrorV};
use crate::ident::Ident;
use crate::statics_spec::{find_fn_from, lookup};

verus! {

/// A runtime value.
#[derive(Debug, PartialEq, Eq)]
pub enum Value {
    /// A string, like `"x"`.
    String_(String),
    /// A number, like `3`.
    Number(u64),
    /// A tuple, like `(1, "e")`.
    Tuple(Vec<Value>),
    /// A struct value: its name and its fields in the order of construction.
    Struct(Ident, Vec<(Ident, Value)>),
    /// A constructor applied to its payload, like `some(3)`.
    Ctor(Ident, Box<Value>),
}

/// The model of a [`Value`].
pub enum ValueV {
    String_(Seq<char>),
    Number(u64),
    Tuple(Seq<ValueV>),
    Struct(Seq<char>, Seq<(Seq<char>, ValueV)>),
    Ctor(Seq<char>, Box<ValueV>),
}

impl Value {
    /// The model of this value.
    pub open spec fn v(&self) -> ValueV
        decreases self,
    {
        match self {
            Value::String_(s) => ValueV::String_(s@),
            Value::Number(n) => ValueV::Number(*n),
            Value::Tuple(vs) => ValueV::Tuple(values_v(vs@)),
            Value::Struct(n, fs) => ValueV::Struct(n@, field_values_v(fs@)),
            Value::Ctor(c, x) => ValueV::Ctor(c@, Box::new(x.v())),
        }
    }
}

/// The models of a sequence of values.
pub open spec fn values_v(s: Seq<Value>) -> Seq<ValueV>
    decreases s,
{
    Seq::new(s.len(), |i: int| if 0 <= i < s.len() { s[i].v() } else { ValueV::Number(0) })
}

/// The models of the fields of a struct value.
pub open spec fn field_values_v(s: Seq<(Ident, Value)>) -> Seq<(Seq<char>, ValueV)>
    decreases s,
{
    Seq::new(
        s.len(),
        |i: int| if 0 <= i < s.len() { (s[i].0@, s[i].1.v()) } else { (Seq::empty(), ValueV::Number(0)) },
    )
}

/// Names bound to values, later entries shadowing earlier ones.
pub type EnvV = Seq<(Seq<char>, ValueV)>;

/// The boolean `b` as a value of the prelude's `Bool`.
pub open spec fn bool_value(b: bool) -> ValueV {
    ValueV::Ctor(if b { "true"@ } else { "false"@ }, Box::new(ValueV::Tuple(Seq::empty())))
}

/// The boolean that a `Bool` value stands for.
pub open spec fn as_bool(v: ValueV) -> Option<bool> {
    if v == bool_value(true) {
        Some(true)
    } else if v == bool_value(false) {
        Some(false)
    } else {
        None
    }
}

/// Whether `f` names a primitive: `add`, `sub`, `mul`, `div`, `eq`, `lt`, `gt`, `and`, `or`.
pub open spec fn is_prim(f: Seq<char>) -> bool {
    f == "add"@ || f == "sub"@ || f == "mul"@ || f == "div"@ || f == "eq"@ || f == "lt"@
        || f == "gt"@ || f == "and"@ || f == "or"@
}

/// The primitive `f` applied to `vs`: wrapping arithmetic (division by zero gives 0),
/// comparisons giving `Bool`, and `and`/`or` on `Bool`s, both arguments evaluated.
pub open spec fn prim(f: Seq<char>, vs: Seq<ValueV>) -> Result<ValueV, ErrorV> {
    if vs.len() != 2 {
        Err(ErrorV::Internal)
    } else if f == "and"@ || f == "or"@ {
        match (as_bool(vs[0]), as_bool(vs[1])) {
            (Some(a), Some(b)) => Ok(bool_value(if f == "and"@ { a && b } else { a || b })),
            _ => Err(ErrorV::Internal),
        }
    } else {
        match (vs[0], vs[1]) {
            (ValueV::Number(x), ValueV::Number(y)) => Ok(
                if f == "add"@ {
                    ValueV::Number(u64_specs::wrapping_add(x, y))
                } else if f == "sub"@ {
                    ValueV::Number(u64_specs::wrapping_sub(x, y))
                } else if f == "mul"@ {
                    ValueV::Number(u64_specs::wrapping_mul(x, y))
                } else if f == "div"@ {
                    ValueV::Number(if y == 0 { 0 } else { (x / y) as u64 })
                } else if f == "eq"@ {
                    bool_value(x == y)
                } else if f == "lt"@ {
                    bool_value(x < y)
                } else {
                    bool_value(x > y)
                },
            ),
            _ => Err(ErrorV::Internal),
        }
    }
}

/// The bindings that pattern `p` makes when it matches `v`, or `None` when it does not match.
pub open spec fn pat_match(p: PatV, v: ValueV) -> Option<EnvV>
    decreases p, 0int,
{
    match (p, v) {
        (PatV::Wildcard, _) => Some(Seq::empty()),
        (PatV::String_(x), ValueV::String_(y)) => if x == y { Some(Seq::empty()) } else { None },
        (PatV::Number(x), ValueV::Number(y)) => if x == y { Some(Seq::empty()) } else { None },
        (PatV::Tuple(ps), ValueV::Tuple(vs)) => pat_match_list(ps, vs, 0),
        (PatV::Ctor(c, q), ValueV::Ctor(d, inner)) => if c == d { pat_match(*q, *inner) } else { None },
        (PatV::Ident(x), _) => Some(seq![(x, v)]),
        _ => None,
    }
}

/// The bindings of `ps[i..]` matched position by position against `vs[i..]`, as far as both go.
pub open spec fn pat_match_list(ps: Seq<PatV>, vs: Seq<ValueV>, i: int) -> Option<EnvV>
    decreases ps, ps.len() - i,
{
    if i < 0 || i >= ps.len() || i >= vs.len() {
        Some(Seq::empty())
    } else {
        match pat_match(ps[i], vs[i]) {
            None => None,
            Some(b) => match pat_match_list(ps, vs, i + 1) {
                None => None,
                Some(rest) => Some(b + rest),
            },
        }
    }
}

/// Each value parameter bound to its argument, pair by pair.
pub open spec fn bind_args(fd: crate::cst::FnDefnV, vs: Seq<ValueV>) -> EnvV {
    Seq::new(
        if fd.params.len() <= vs.len() { fd.params.len() } else { vs.len() },
        |i: int| (fd.params[i].ident, vs[i]),
    )
}

/// The value of `e` in environment `env`, with user calls nested at most `fuel` deep.
pub open spec fn eval(ds: Seq<TopDefnV>, fuel: nat, env: EnvV, e: ExprV) -> Result<ValueV, ErrorV>
    decreases fuel, e, 0int,
{
    match e {
        ExprV::String_(s) => Ok(ValueV::String_(s)),
        ExprV::Number(n) => Ok(ValueV::Number(n)),
        ExprV::Tuple(es) => match eval_list(ds, fuel, env, es, 0) {
            Err(x) => Err(x),
            Ok(vs) => Ok(ValueV::Tuple(vs)),
        },
        ExprV::Struct(n, _, fs) => match eval_fields(ds, fuel, env, fs, 0) {
            Err(x) => Err(x),
            Ok(fvs) => Ok(ValueV::Struct(n, fvs)),
        },
        ExprV::Ident(x) => match lookup(env, x) {
            Some(v) => Ok(v),
            None => Err(ErrorV::UndefinedIdentifier(x)),
        },
        ExprV::FnCall(f, _, es) => match eval_list(ds, fuel, env, es, 0) {
            Err(x) => Err(x),
            Ok(vs) => if is_prim(f) {
                prim(f, vs)
            } else {
                match find_fn_from(ds, ds.len() as int, f, 0) {
                    Some(j) => {
                        let fd = ds[j]->Fn__0;
                        if fuel == 0 {
                            Err(ErrorV::DepthExceeded)
                        } else {
                            let env2 = bind_args(fd, vs);
                            match (match fd.requires {
                                Some(r) => match eval(ds, (fuel - 1) as nat, env2, r) {
                                    Err(x) => Err(x),
                                    Ok(b) => if b == bool_value(true) {
                                        Ok(())
                                    } else {
                                        Err(ErrorV::RequiresFailed(f))
                                    },
                                },
                                None => Ok(()),
                            }) {
                                Err(x) => Err(x),
                                Ok(_) => match eval_block(ds, (fuel - 1) as nat, env2, fd.body, 0) {
                                    Err(x) => Err(x),
                                    Ok(ret) => match fd.ensures {
                                        Some(en) => match eval(ds, (fuel - 1) as nat, env2.push(("ret"@, ret)), en) {
                                            Err(x) => Err(x),
                                            Ok(b) => if b == bool_value(true) {
                                                Ok(ret)
                                            } else {
                                                Err(ErrorV::EnsuresFailed(f))
                                            },
                                        },
                                        None => Ok(ret),
                                    },
                                },
                            }
                        }
                    },
                    None => if vs.len() == 1 {
                        Ok(ValueV::Ctor(f, Box::new(vs[0])))
                    } else {
                        Err(ErrorV::WrongNumArgs(f, 1, vs.len()))
                    },
                }
            },
        },
        ExprV::FieldGet(x, f) => match eval(ds, fuel, env, *x) {
            Err(err) => Err(err),
            Ok(ValueV::Struct(n, fvs)) => match lookup_first(fvs, f, 0) {
                Some(v) => Ok(v),
                None => Err(ErrorV::NoSuchField(n, f)),
            },
            Ok(_) => Err(ErrorV::NotStruct(f)),
        },
        ExprV::MethodCall(_, _, _, _) => Err(ErrorV::Internal),
        ExprV::Match(x, arms) => match eval(ds, fuel, env, *x) {
            Err(err) => Err(err),
            Ok(v) => eval_arms(ds, fuel, env, arms, 0, v),
        },
        ExprV::Block(b) => eval_block(ds, fuel, env, *b, 0),
    }
}

/// The first field of `fs[i..]` named `x`.
pub open spec fn lookup_first(fs: Seq<(Seq<char>, ValueV)>, x: Seq<char>, i: int) -> Option<ValueV>
    decreases fs.len() - i,
{
    if i < 0 || i >= fs.len() {
        None
    } else if fs[i].0 == x {
        Some(fs[i].1)
    } else {
        lookup_first(fs, x, i + 1)
    }
}

/// The values of `es[i..]`, left to right.
pub open spec fn eval_list(ds: Seq<TopDefnV>, fuel: nat, env: EnvV, es: Seq<ExprV>, i: int) -> Result<Seq<ValueV>, ErrorV>
    decreases fuel, es, es.len() - i,
{
    if i < 0 || i >= es.len() {
        Ok(Seq::empty())
    } else {
        match eval(ds, fuel, env, es[i]) {
            Err(x) => Err(x),
            Ok(v) => match eval_list(ds, fuel, env, es, i + 1) {
                Err(x) => Err(x),
                Ok(vs) => Ok(seq![v] + vs),
            },
        }
    }
}

/// The fields `fs[i..]` of a struct construction with their values, left to right.
pub open spec fn eval_fields(ds: Seq<TopDefnV>, fuel: nat, env: EnvV, fs: Seq<FieldV<ExprV>>, i: int) -> Result<Seq<(Seq<char>, ValueV)>, ErrorV>
    decreases fuel, fs, fs.len() - i,
{
    if i < 0 || i >= fs.len() {
        Ok(Seq::empty())
    } else {
        let r = match fs[i] {
            FieldV::Ident(x) => match lookup(env, x) {
                Some(v) => Ok((x, v)),
                None => Err(ErrorV::UndefinedIdentifier(x)),
            },
            FieldV::IdentAnd(x, fe) => match eval(ds, fuel, env, fe) {
                Err(err) => Err(err),
                Ok(v) => Ok((x, v)),
            },
        };
        match r {
            Err(x) => Err(x),
            Ok(p) => match eval_fields(ds, fuel, env, fs, i + 1) {
                Err(x) => Err(x),
                Ok(rest) => Ok(seq![p] + rest),
            },
        }
    }
}

/// The value of the first arm of `arms[i..]` whose pattern matches `v`.
pub open spec fn eval_arms(ds: Seq<TopDefnV>, fuel: nat, env: EnvV, arms: Seq<ArmV>, i: int, v: ValueV) -> Result<ValueV, ErrorV>
    decreases fuel, arms, arms.len() - i,
{
    if i < 0 || i >= arms.len() {
        Err(ErrorV::NonExhaustiveMatch)
    } else {
        match pat_match(arms[i].pat, v) {
            Some(b) => eval_block(ds, fuel, env + b, arms[i].block, 0),
            None => eval_arms(ds, fuel, env, arms, i + 1, v),
        }
    }
}

/// The value of a block from statement `i` on; a `let` whose pattern does not match its value
/// is a non-exhaustive match.
pub open spec fn eval_block(ds: Seq<TopDefnV>, fuel: nat, env: EnvV, b: BlockV, i: int) -> Result<ValueV, ErrorV>
    decreases fuel, b, b.stmts.len() + 1 - i,
{
    if 0 <= i < b.stmts.len() {
        match b.stmts[i] {
            StmtV::Let(p, _, x) => match eval(ds, fuel, env, x) {
                Err(err) => Err(err),
                Ok(v) => match pat_match(p, v) {
                    None => Err(ErrorV::NonExhaustiveMatch),
                    Some(bs) => eval_block(ds, fuel, env + bs, b, i + 1),
                },
            },
        }
    } else {
        match b.expr {
            None => Err(ErrorV::NoExprForBlock),
            Some(x) => eval(ds, fuel, env, x),
        }
    }
}

/// The value of `main()`: its body in an empty environment.
pub open spec fn run(ds: Seq<TopDefnV>, fuel: nat) -> Result<ValueV, ErrorV> {
    match find_fn_from(ds, ds.len() as int, "main"@, 0) {
        None => Err(ErrorV::NoMain),
        Some(j) => eval_block(ds, fuel, Seq::empty(), ds[j]->Fn__0.body, 0),
    }
}

/// The model of an environment.
pub open spec fn envv(s: Seq<(Ident, Value)>) -> EnvV {
    Seq::new(s.len(), |i: int| (s[i].0@, s[i].1.v()))
}

/// `r` computes `s`.
pub open spec fn rel_value(r: Result<Value, Error>, s: Result<ValueV, ErrorV>) -> bool {
    match s {
        Ok(v) => r is Ok && r->Ok_0.v() == v,
        Err(e) => r is Err && r->Err_0.v() == e,
    }
}

impl Value {
    /// A copy of this value.
    pub fn duplicate(&self) -> (r: Value)
        ensures
            r.v() == self.v(),
        decreases self,
    {
        match self {
            Value::String_(s) => Value::String_(s.clone()),
            Value::Number(n) => Value::Number(*n),
            Value::Tuple(vs) => Value::Tuple(duplicate_values(vs)),
            Value::Struct(n, fs) => Value::Struct(n.duplicate(), duplicate_field_values(fs)),
            Value::Ctor(c, x) => Value::Ctor(c.duplicate(), Box::new(x.duplicate())),
        }
    }
}

impl Clone for Value {
    fn clone(&self) -> Self {
        self.duplicate()
    }
}

fn duplicate_values(vs: &Vec<Value>) -> (r: Vec<Value>)
    ensures
        values_v(r@) == values_v(vs@),
    decreases vs,
{
    let mut out: Vec<Value> = Vec::new();
    let mut k: usize = 0;
    while k < vs.len()
        invariant
            k <= vs@.len(),
            out@.len() == k,
            forall|j: int| 0 <= j < k ==> (#[trigger] out@[j]).v() == vs@[j].v(),
        decreases vs@.len() - k,
    {
        assert(decreases_to!(vs => vs@[k as int]));
        out.push(vs[k].duplicate());
        k += 1;
    }
    assert(values_v(out@) =~= values_v(vs@));
    out
}

fn duplicate_field_values(fs: &Vec<(Ident, Value)>) -> (r: Vec<(Ident, Value)>)
    ensures
        field_values_v(r@) == field_values_v(fs@),
    decreases fs,
{
    let mut out: Vec<(Ident, Value)> = Vec::new();
    let mut k: usize = 0;
    while k < fs.len()
        invariant
            k <= fs@.len(),
            out@.len() == k,
            forall|j: int| 0 <= j < k ==> (#[trigger] out@[j]).0@ == fs@[j].0@ && out@[j].1.v() == fs@[j].1.v(),
        decreases fs@.len() - k,
    {
        assert(decreases_to!(fs => fs@[k as int]));
        assert(decreases_to!(fs@[k as int] => fs@[k as int].1));
        out.push((fs[k].0.duplicate(), fs[k].1.duplicate()));
        k += 1;
    }
    assert(field_values_v(out@) =~= field_values_v(fs@));
    out
}

fn dup_env(env: &Vec<(Ident, Value)>) -> (r: Vec<(Ident, Value)>)
    ensures
        envv(r@) == envv(env@),
{
    let mut out: Vec<(Ident, Value)> = Vec::new();
    let mut k: usize = 0;
    while k < env.len()
        invariant
            k <= env@.len(),
            out@.len() == k,
            forall|j: int| 0 <= j < k ==> (#[trigger] out@[j]).0@ == env@[j].0@ && out@[j].1.v() == env@[j].1.v(),
        decreases env@.len() - k,
    {
        out.push((env[k].0.duplicate(), env[k].1.duplicate()));
        k += 1;
    }
    assert(envv(out@) =~= envv(env@));
    out
}

fn extend_env(env: &mut Vec<(Ident, Value)>, b: Vec<(Ident, Value)>)
    ensures
        envv(final(env)@) == envv(old(env)@) + envv(b@),
{
    let mut b = b;
    let ghost e0 = env@;
    let ghost b0 = b@;
    env.append(&mut b);
    assert(envv(env@) =~= envv(e0) + envv(b0));
}

fn lookup_env(env: &Vec<(Ident, Value)>, x: &Ident) -> (r: Option<usize>)
    ensures
        match lookup(envv(env@), x@) {
            None => r is None,
            Some(v) => r is Some && r->0 < env@.len() && env@[r->0 as int].1.v() == v,
        },
{
    let mut k = env.len();
    assert(envv(env@).subrange(0, k as int) =~= envv(env@));
    while k > 0
        invariant
            k <= env@.len(),
            lookup(envv(env@), x@) == lookup(envv(env@).subrange(0, k as int), x@),
        decreases k,
    {
        assert(envv(env@).subrange(0, k as int).drop_last() =~= envv(env@).subrange(0, k - 1));
        if env[k - 1].0.same(x) {
            return Some(k - 1);
        }
        k -= 1;
    }
    None
}

/// The boolean `b` as a value.
fn bool_value_b(b: bool) -> (r: Value)
    ensures
        r.v() == bool_value(b),
{
    let unit: Vec<Value> = Vec::new();
    let u = Value::Tuple(unit);
    assert(u.v() == ValueV::Tuple(Seq::empty())) by {
        assert(values_v(unit@) =~= Seq::empty());
    }
    Value::Ctor(Ident::new(if b { "true" } else { "false" }), Box::new(u))
}

/// The boolean that a value stands for, as [`as_bool`] says.
fn as_bool_b(v: &Value) -> (r: Option<bool>)
    ensures
        r == as_bool(v.v()),
{
    match v {
        Value::Ctor(c, x) => match &**x {
            Value::Tuple(vs) => {
                assert(v.v() == ValueV::Ctor(c@, Box::new(ValueV::Tuple(values_v(vs@)))));
                if vs.len() != 0 {
                    assert(values_v(vs@).len() != 0);
                    return None;
                }
                assert(values_v(vs@) =~= Seq::empty());
                if c.same(&Ident::new("true")) {
                    Some(true)
                } else if c.same(&Ident::new("false")) {
                    Some(false)
                } else {
                    proof {
                        reveal_strlit("true");
                        reveal_strlit("false");
                    }
                    None
                }
            },
            _ => {
                assert(v.v() == ValueV::Ctor(c@, Box::new(x.v())));
                None
            },
        },
        _ => None,
    }
}

/// Whether `f` names a primitive.
fn is_prim_b(f: &Ident) -> (r: bool)
    ensures
        r == is_prim(f@),
{
    f.same(&Ident::new("add")) || f.same(&Ident::new("sub")) || f.same(&Ident::new("mul"))
        || f.same(&Ident::new("div")) || f.same(&Ident::new("eq")) || f.same(&Ident::new("lt"))
        || f.same(&Ident::new("gt")) || f.same(&Ident::new("and")) || f.same(&Ident::new("or"))
}

/// The primitive `f` applied to `vs`, as [`prim`] says.
fn prim_b(f: &Ident, vs: &Vec<Value>) -> (r: Result<Value, Error>)
    ensures
        rel_value(r, prim(f@, values_v(vs@))),
{
    if vs.len() != 2 {
        return Err(Error::Internal);
    }
    if f.same(&Ident::new("and")) || f.same(&Ident::new("or")) {
        return match (as_bool_b(&vs[0]), as_bool_b(&vs[1])) {
            (Some(a), Some(b)) => Ok(bool_value_b(if f.same(&Ident::new("and")) { a && b } else { a || b })),
            _ => Err(Error::Internal),
        };
    }
    match (&vs[0], &vs[1]) {
        (Value::Number(x), Value::Number(y)) => {
            let x = *x;
            let y = *y;
            if f.same(&Ident::new("add")) {
                Ok(Value::Number(x.wrapping_add(y)))
            } else if f.same(&Ident::new("sub")) {
                Ok(Value::Number(x.wrapping_sub(y)))
            } else if f.same(&Ident::new("mul")) {
                Ok(Value::Number(x.wrapping_mul(y)))
            } else if f.same(&Ident::new("div")) {
                Ok(Value::Number(if y == 0 { 0 } else { x / y }))
            } else if f.same(&Ident::new("eq")) {
                Ok(bool_value_b(x == y))
            } else if f.same(&Ident::new("lt")) {
                Ok(bool_value_b(x < y))
            } else {
                Ok(bool_value_b(x > y))
            }
        },
        _ => Err(Error::Internal),
    }
}

/// The bindings of pattern `p` against `v`, as [`pat_match`] says.
pub fn pat_match_b(p: &Pat, v: &Value) -> (r: Option<Vec<(Ident, Value)>>)
    ensures
        match pat_match(p.v(), v.v()) {
            None => r is None,
            Some(b) => r is Some && envv(r->0@) == b,
        },
    decreases p, 0int,
{
    let empty: Vec<(Ident, Value)> = Vec::new();
    assert(envv(empty@) =~= Seq::empty());
    match (p, v) {
        (Pat::Wildcard, _) => Some(empty),
        (Pat::String_(x), Value::String_(y)) => if *x == *y { Some(empty) } else { None },
        (Pat::Number(x), Value::Number(y)) => if *x == *y { Some(empty) } else { None },
        (Pat::Tuple(ps), Value::Tuple(vs)) => {
            assert(p.v() == PatV::Tuple(crate::cst::pats_v(ps@)));
            assert(v.v() == ValueV::Tuple(values_v(vs@)));
            pat_match_list_b(ps, vs)
        },
        (Pat::Ctor(c, q), Value::Ctor(d, inner)) => if c.same(d) { pat_match_b(q, inner) } else { None },
        (Pat::Ident(x), _) => {
            let mut b: Vec<(Ident, Value)> = Vec::new();
            b.push((x.duplicate(), v.duplicate()));
            assert(envv(b@) =~= seq![(x@, v.v())]);
            Some(b)
        },
        (Pat::String_(_), _) => None,
        (Pat::Number(_), _) => None,
        (Pat::Tuple(_), _) => None,
        (Pat::Ctor(_, _), _) => None,
    }
}

fn pat_match_list_b(ps: &Vec<Pat>, vs: &Vec<Value>) -> (r: Option<Vec<(Ident, Value)>>)
    ensures
        match pat_match_list(crate::cst::pats_v(ps@), values_v(vs@), 0) {
            None => r is None,
            Some(b) => r is Some && envv(r->0@) == b,
        },
    decreases ps, 0int,
{
    let ghost pv = crate::cst::pats_v(ps@);
    let ghost vv = values_v(vs@);
    let mut acc: Vec<(Ident, Value)> = Vec::new();
    let mut k: usize = 0;
    assert(envv(acc@) =~= Seq::empty());
    proof {
        match pat_match_list(pv, vv, 0) {
            Some(a) => {
                assert(Seq::<(Seq<char>, ValueV)>::empty() + a =~= a);
            },
            None => {},
        }
    }
    while k < ps.len() && k < vs.len()
        invariant
            k <= ps@.len(),
            pv == crate::cst::pats_v(ps@),
            vv == values_v(vs@),
            pat_match_list(pv, vv, 0) == match pat_match_list(pv, vv, k as int) {
                Some(a) => Some(envv(acc@) + a),
                None => None,
            },
        decreases ps@.len() - k,
    {
        assert(decreases_to!(ps => ps@[k as int]));
        match pat_match_b(&ps[k], &vs[k]) {
            None => {
                return None;
            },
            Some(b) => {
                let ghost pre = envv(acc@);
                let ghost bv = envv(b@);
                extend_env(&mut acc, b);
                proof {
                    match pat_match_list(pv, vv, k + 1) {
                        Some(a) => {
                            assert(pre + (bv + a) =~= envv(acc@) + a);
                        },
                        None => {},
                    }
                }
            },
        }
        k += 1;
    }
    assert(envv(acc@) + Seq::<(Seq<char>, ValueV)>::empty() =~= envv(acc@));
    Some(acc)
}

/// Finds the index of the first function named `x`.
fn find_fn_b(ds: &Vec<TopDefn>, x: &Ident) -> (r: Option<usize>)
    ensures
        match find_fn_from(top_defns_v(ds@), ds@.len() as int, x@, 0) {
            Some(j) => r is Some && r->0 as int == j && j < ds@.len() && ds@[j] is Fn_,
            None => r is None,
        },
{
    let mut j: usize = 0;
    while j < ds.len()
        invariant
            find_fn_from(top_defns_v(ds@), ds@.len() as int, x@, 0) == find_fn_from(top_defns_v(ds@), ds@.len() as int, x@, j as int),
        decreases ds@.len() - j,
    {
        assert(top_defns_v(ds@)[j as int] == ds@[j as int].v());
        if let TopDefn::Fn_(fd) = &ds[j] {
            if fd.name.same(x) {
                return Some(j);
            }
        }
        j += 1;
    }
    None
}

/// The index of the first field named `f`.
fn find_field(fvs: &Vec<(Ident, Value)>, f: &Ident) -> (r: Option<usize>)
    ensures
        match lookup_first(field_values_v(fvs@), f@, 0) {
            Some(v) => r is Some && r->0 < fvs@.len() && fvs@[r->0 as int].1.v() == v,
            None => r is None,
        },
{
    let ghost fv = field_values_v(fvs@);
    let mut k: usize = 0;
    while k < fvs.len()
        invariant
            k <= fvs@.len(),
            fv == field_values_v(fvs@),
            lookup_first(fv, f@, 0) == lookup_first(fv, f@, k as int),
        decreases fvs@.len() - k,
    {
        assert(fv[k as int] == (fvs@[k as int].0@, fvs@[k as int].1.v()));
        if fvs[k].0.same(f) {
            return Some(k);
        }
        k += 1;
    }
    None
}

/// The value of `e`, as [`eval`] says.
pub fn eval_b(ds: &Vec<TopDefn>, fuel: u64, env: &Vec<(Ident, Value)>, e: &Expr) -> (r: Result<Value, Error>)
    ensures
        rel_value(r, eval(top_defns_v(ds@), fuel as nat, envv(env@), e.v())),
    decreases fuel, e, 0int,
{
    let ghost dv = top_defns_v(ds@);
    match e {
        Expr::String_(s) => Ok(Value::String_(s.clone())),
        Expr::Number(n) => Ok(Value::Number(*n)),
        Expr::Tuple(es) => {
            assert(e.v() == ExprV::Tuple(exprs_v(es@)));
            match eval_list_b(ds, fuel, env, es) {
                Err(x) => Err(x),
                Ok(vs) => Ok(Value::Tuple(vs)),
            }
        },
        Expr::Struct(n, ks, fs) => {
            assert(e.v() == ExprV::Struct(n@, crate::cst::kindeds_v(ks@), fields_v(fs@)));
            match eval_fields_b(ds, fuel, env, fs) {
                Err(x) => Err(x),
                Ok(fvs) => Ok(Value::Struct(n.duplicate(), fvs)),
            }
        },
        Expr::Ident(x) => match lookup_env(env, x) {
            Some(j) => Ok(env[j].1.duplicate()),
            None => Err(Error::UndefinedIdentifier(x.duplicate())),
        },
        Expr::FnCall(f, ks, es) => {
            assert(e.v() == ExprV::FnCall(f@, crate::cst::kindeds_v(ks@), exprs_v(es@)));
            let vs = match eval_list_b(ds, fuel, env, es) {
                Err(x) => {
                    return Err(x);
                },
                Ok(vs) => vs,
            };
            if is_prim_b(f) {
                return prim_b(f, &vs);
            }
            match find_fn_b(ds, f) {
                Some(j) => {
                    assert(dv[j as int] == ds@[j as int].v());
                    match &ds[j] {
                        TopDefn::Fn_(fd) => {
                            if fuel == 0 {
                                return Err(Error::DepthExceeded);
                            }
                            let mut env2: Vec<(Ident, Value)> = Vec::new();
                            let mut k: usize = 0;
                            while k < fd.params.len() && k < vs.len()
                                invariant
                                    k <= fd.params@.len(),
                                    k <= vs@.len(),
                                    env2@.len() == k,
                                    forall|q: int| 0 <= q < k ==> (#[trigger] env2@[q]).0@ == fd.params@[q].ident@
                                        && env2@[q].1.v() == vs@[q].v(),
                                decreases fd.params@.len() - k,
                            {
                                env2.push((fd.params[k].ident.duplicate(), vs[k].duplicate()));
                                k += 1;
                            }
                            assert(envv(env2@) =~= bind_args(fd.v(), values_v(vs@)));
                            match &fd.requires {
                                Some(req) => match eval_b(ds, fuel - 1, &env2, req) {
                                    Err(x) => {
                                        return Err(x);
                                    },
                                    Ok(b) => {
                                        if as_bool_b(&b) != Some(true) {
                                            return Err(Error::RequiresFailed(f.duplicate()));
                                        }
                                    },
                                },
                                None => {},
                            }
                            let ret = match eval_block_b(ds, fuel - 1, &env2, &fd.body) {
                                Err(x) => {
                                    return Err(x);
                                },
                                Ok(ret) => ret,
                            };
                            match &fd.ensures {
                                Some(ens) => {
                                    let mut env3 = dup_env(&env2);
                                    let ghost e0 = envv(env3@);
                                    env3.push((Ident::new("ret"), ret.duplicate()));
                                    assert(envv(env3@) =~= e0.push(("ret"@, ret.v())));
                                    match eval_b(ds, fuel - 1, &env3, ens) {
                                        Err(x) => Err(x),
                                        Ok(b) => {
                                            if as_bool_b(&b) == Some(true) {
                                                Ok(ret)
                                            } else {
                                                Err(Error::EnsuresFailed(f.duplicate()))
                                            }
                                        },
                                    }
                                },
                                None => Ok(ret),
                            }
                        },
                        _ => Err(Error::Internal),
                    }
                },
                None => {
                    if vs.len() == 1 {
                        let mut vs = vs;
                        let v = vs.pop().unwrap();
                        Ok(Value::Ctor(f.duplicate(), Box::new(v)))
                    } else {
                        Err(Error::WrongNumArgs(f.duplicate(), 1, vs.len()))
                    }
                },
            }
        },
        Expr::FieldGet(x, f) => match eval_b(ds, fuel, env, x) {
            Err(err) => Err(err),
            Ok(v) => match v {
                Value::Struct(n, fvs) => {
                    assert(v.v() == ValueV::Struct(n@, field_values_v(fvs@)));
                    match find_field(&fvs, f) {
                        Some(k) => {
                            return Ok(fvs[k].1.duplicate());
                        },
                        None => {},
                    }
                    Err(Error::NoSuchField(n, f.duplicate()))
                },
                _ => Err(Error::NotStruct(f.duplicate())),
            },
        },
        Expr::MethodCall(_, _, _, _) => Err(Error::Internal),
        Expr::Match(x, arms) => {
            assert(e.v() == ExprV::Match(Box::new(x.v()), arms_v(arms@)));
            match eval_b(ds, fuel, env, x) {
                Err(err) => Err(err),
                Ok(v) => eval_arms_b(ds, fuel, env, arms, &v),
            }
        },
        Expr::Block(b) => eval_block_b(ds, fuel, env, b),
    }
}

fn eval_list_b(ds: &Vec<TopDefn>, fuel: u64, env: &Vec<(Ident, Value)>, es: &Vec<Expr>) -> (r: Result<Vec<Value>, Error>)
    ensures
        match eval_list(top_defns_v(ds@), fuel as nat, envv(env@), exprs_v(es@), 0) {
            Ok(vs) => r is Ok && values_v(r->Ok_0@) == vs,
            Err(e) => r is Err && r->Err_0.v() == e,
        },
    decreases fuel, es, 0int,
{
    let ghost dv = top_defns_v(ds@);
    let ghost ev = exprs_v(es@);
    let mut out: Vec<Value> = Vec::new();
    let mut k: usize = 0;
    assert(values_v(out@) =~= Seq::empty());
    proof {
        match eval_list(dv, fuel as nat, envv(env@), ev, 0) {
            Ok(a) => {
                assert(Seq::<ValueV>::empty() + a =~= a);
            },
            Err(_) => {},
        }
    }
    while k < es.len()
        invariant
            k <= es@.len(),
            dv == top_defns_v(ds@),
            ev == exprs_v(es@),
            eval_list(dv, fuel as nat, envv(env@), ev, 0) == match eval_list(dv, fuel as nat, envv(env@), ev, k as int) {
                Ok(a) => Ok(values_v(out@) + a),
                Err(x) => Err(x),
            },
        decreases es@.len() - k,
    {
        assert(decreases_to!(es => es@[k as int]));
        match eval_b(ds, fuel, env, &es[k]) {
            Err(x) => {
                return Err(x);
            },
            Ok(v) => {
                let ghost pre = values_v(out@);
                let ghost vv = v.v();
                out.push(v);
                proof {
                    assert(values_v(out@) =~= pre.push(vv));
                    match eval_list(dv, fuel as nat, envv(env@), ev, k + 1) {
                        Ok(a) => {
                            assert(pre + (seq![vv] + a) =~= values_v(out@) + a);
                        },
                        Err(_) => {},
                    }
                }
            },
        }
        k += 1;
    }
    assert(values_v(out@) + Seq::<ValueV>::empty() =~= values_v(out@));
    Ok(out)
}

fn eval_fields_b(ds: &Vec<TopDefn>, fuel: u64, env: &Vec<(Ident, Value)>, fs: &Vec<Field<Expr>>) -> (r: Result<Vec<(Ident, Value)>, Error>)
    ensures
        match eval_fields(top_defns_v(ds@), fuel as nat, envv(env@), fields_v(fs@), 0) {
            Ok(vs) => r is Ok && field_values_v(r->Ok_0@) == vs,
            Err(e) => r is Err && r->Err_0.v() == e,
        },
    decreases fuel, fs, 0int,
{
    let ghost dv = top_defns_v(ds@);
    let ghost fv = fields_v(fs@);
    let mut out: Vec<(Ident, Value)> = Vec::new();
    let mut k: usize = 0;
    assert(field_values_v(out@) =~= Seq::empty());
    proof {
        match eval_fields(dv, fuel as nat, envv(env@), fv, 0) {
            Ok(a) => {
                assert(Seq::<(Seq<char>, ValueV)>::empty() + a =~= a);
            },
            Err(_) => {},
        }
    }
    while k < fs.len()
        invariant
            k <= fs@.len(),
            dv == top_defns_v(ds@),
            fv == fields_v(fs@),
            eval_fields(dv, fuel as nat, envv(env@), fv, 0) == match eval_fields(dv, fuel as nat, envv(env@), fv, k as int) {
                Ok(a) => Ok(field_values_v(out@) + a),
                Err(x) => Err(x),
            },
        decreases fs@.len() - k,
    {
        assert(decreases_to!(fs => fs@[k as int]));
        let p = match &fs[k] {
            Field::Ident(x) => match lookup_env(env, x) {
                Some(j) => (x.duplicate(), env[j].1.duplicate()),
                None => {
                    return Err(Error::UndefinedIdentifier(x.duplicate()));
                },
            },
            Field::IdentAnd(x, fe) => {
                assert(decreases_to!(fs@[k as int] => fs@[k as int]->IdentAnd_1));
                match eval_b(ds, fuel, env, fe) {
                    Err(err) => {
                        return Err(err);
                    },
                    Ok(v) => (x.duplicate(), v),
                }
            },
        };
        let ghost pre = field_values_v(out@);
        let ghost pv = (p.0@, p.1.v());
        out.push(p);
        proof {
            assert(field_values_v(out@) =~= pre.push(pv));
            match eval_fields(dv, fuel as nat, envv(env@), fv, k + 1) {
                Ok(a) => {
                    assert(pre + (seq![pv] + a) =~= field_values_v(out@) + a);
                },
                Err(_) => {},
            }
        }
        k += 1;
    }
    assert(field_values_v(out@) + Seq::<(Seq<char>, ValueV)>::empty() =~= field_values_v(out@));
    Ok(out)
}

fn eval_arms_b(ds: &Vec<TopDefn>, fuel: u64, env: &Vec<(Ident, Value)>, arms: &Vec<Arm>, v: &Value) -> (r: Result<Value, Error>)
    ensures
        rel_value(r, eval_arms(top_defns_v(ds@), fuel as nat, envv(env@), arms_v(arms@), 0, v.v())),
    decreases fuel, arms, 0int,
{
    let ghost dv = top_defns_v(ds@);
    let ghost av = arms_v(arms@);
    let mut k: usize = 0;
    while k < arms.len()
        invariant
            k <= arms@.len(),
            dv == top_defns_v(ds@),
            av == arms_v(arms@),
            eval_arms(dv, fuel as nat, envv(env@), av, 0, v.v()) == eval_arms(dv, fuel as nat, envv(env@), av, k as int, v.v()),
        decreases arms@.len() - k,
    {
        assert(decreases_to!(arms => arms@[k as int]));
        assert(decreases_to!(arms@[k as int] => arms@[k as int].block));
        assert(av[k as int] == arms@[k as int].v());
        match pat_match_b(&arms[k].pat, v) {
            Some(b) => {
                let mut env2 = dup_env(env);
                extend_env(&mut env2, b);
                return eval_block_b(ds, fuel, &env2, &arms[k].block);
            },
            None => {},
        }
        k += 1;
    }
    Err(Error::NonExhaustiveMatch)
}

/// The value of a block, as [`eval_block`] says from its first statement.
pub fn eval_block_b(ds: &Vec<TopDefn>, fuel: u64, env: &Vec<(Ident, Value)>, b: &Block) -> (r: Result<Value, Error>)
    ensures
        rel_value(r, eval_block(top_defns_v(ds@), fuel as nat, envv(env@), b.v(), 0)),
    decreases fuel, b, 0int,
{
    let ghost dv = top_defns_v(ds@);
    let ghost bw = b.v();
    let mut env2 = dup_env(env);
    let mut k: usize = 0;
    while k < b.stmts.len()
        invariant
            k <= b.stmts@.len(),
            dv == top_defns_v(ds@),
            bw == b.v(),
            eval_block(dv, fuel as nat, envv(env@), bw, 0) == eval_block(dv, fuel as nat, envv(env2@), bw, k as int),
        decreases b.stmts@.len() - k,
    {
        assert(decreases_to!(b.stmts => b.stmts@[k as int]));
        assert(decreases_to!(b.stmts@[k as int] => b.stmts@[k as int]->Let_2));
        assert(bw.stmts[k as int] == b.stmts@[k as int].v());
        match &b.stmts[k] {
            Stmt::Let(p, _, x) => match eval_b(ds, fuel, &env2, x) {
                Err(err) => {
                    return Err(err);
                },
                Ok(v) => match pat_match_b(p, &v) {
                    None => {
                        return Err(Error::NonExhaustiveMatch);
                    },
                    Some(bs) => {
                        extend_env(&mut env2, bs);
                    },
                },
            },
        }
        k += 1;
    }
    match &b.expr {
        None => Err(Error::NoExprForBlock),
        Some(x) => eval_b(ds, fuel, &env2, x),
    }
}

/// Runs `main()` with calls nested at most `fuel` deep, as [`run`] says.
pub fn run_with_fuel(ds: &Vec<TopDefn>, fuel: u64) -> (r: Result<Value, Error>)
    ensures
        rel_value(r, run(top_defns_v(ds@), fuel as nat)),
{
    let main_name = Ident::new("main");
    match find_fn_b(ds, &main_name) {
        None => Err(Error::NoMain),
        Some(j) => {
            assert(top_defns_v(ds@)[j as int] == ds@[j as int].v());
            match &ds[j] {
                TopDefn::Fn_(fd) => {
                    let env: Vec<(Ident, Value)> = Vec::new();
                    assert(envv(env@) =~= Seq::empty());
                    eval_block_b(ds, fuel, &env, &fd.body)
                },
                _ => Err(Error::Internal),
            }
        },
    }
}

/// Evaluates `main()` of a checked program, as [`run`] says with `u64::MAX` as the depth bound.
pub fn get(cx: &Vec<TopDefn>) -> (r: Result<Value, Error>)
    ensures
        rel_value(r, run(top_defns_v(cx@), u64::MAX as nat)),
{
    run_with_fuel(cx, u64::MAX)
}

} // verus!
