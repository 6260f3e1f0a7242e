//! Concrete syntax trees, and their mathematical models.
//!
//! Each tree type has a model type (suffix `V`) built from `Seq`, `Box` and `Seq<char>` for
//! identifiers. Contracts throughout the crate speak of the models.
use vstd::prelude::*;
use crate::ident::{BigIdent, Ident};

verus! {

/// A top-level definition.
#[derive(Debug, PartialEq, Eq)]
pub enum TopDefn {
    /// A struct (product type) definition.
    Struct(StructDefn),
    /// An enum (sum type) definition.
    Enum(EnumDefn),
    /// A function definition.
    Fn_(Box<FnDefn>),
}

/// A pair of identifier and type: a function parameter, a struct field, an enum constructor or a
/// kind parameter.
#[derive(Debug, PartialEq, Eq)]
pub struct Param<I, T> {
    /// The identifier.
    pub ident: I,
    /// The type (or kind).
    pub type_: T,
}

/// A struct (product type) definition.
#[derive(Debug, PartialEq, Eq)]
pub struct StructDefn {
    /// The name.
    pub name: BigIdent,
    /// The kind parameters; empty iff none were written.
    pub params: Vec<Param<BigIdent, Kind>>,
    /// The fields.
    pub fields: Vec<Param<Ident, Kinded>>,
}

/// An enum (sum type) definition.
#[derive(Debug, PartialEq, Eq)]
pub struct EnumDefn {
    /// The name.
    pub name: BigIdent,
    /// The kind parameters; empty iff none were written.
    pub params: Vec<Param<BigIdent, Kind>>,
    /// The constructors, each with the type of its one payload.
    pub ctors: Vec<Param<Ident, Kinded>>,
}

/// A function definition.
#[derive(Debug, PartialEq, Eq)]
pub struct FnDefn {
    /// The name.
    pub name: Ident,
    /// The kind parameters; empty iff none were written.
    pub big_params: Vec<Param<BigIdent, Kind>>,
    /// The value parameters.
    pub params: Vec<Param<Ident, Kinded>>,
    /// The return type, possibly `Effectful`.
    pub ret_type: Kinded,
    /// The pre-condition, checked just before the body runs.
    pub requires: Option<Expr>,
    /// The post-condition, checked just after the body returns; `ret` names the result.
    pub ensures: Option<Expr>,
    /// The body.
    pub body: Block,
}

/// A kind: `Type`, `Effect`, a tuple of kinds or an arrow kind.
#[derive(Debug, PartialEq, Eq)]
pub enum Kind {
    /// The kind of types.
    Type,
    /// The kind of effects.
    Effect,
    /// A tuple of kinds.
    Tuple(Vec<Kind>),
    /// An arrow kind, of a generic type or effect constructor.
    Arrow(Box<Kind>, Box<Kind>),
}

/// Something that is kinded: a type or an effect.
#[derive(Debug, PartialEq, Eq)]
pub enum Kinded {
    /// A named type, effect or parameter, with its arguments (empty iff none were written).
    Ident(BigIdent, Vec<Kinded>),
    /// A product type; the elements have kind `Type`.
    Tuple(Vec<Kinded>),
    /// An effect set; the elements have kind `Effect`.
    Effects(Vec<Kinded>),
    /// A function type.
    Arrow(Box<Kinded>, Box<Kinded>),
    /// A type paired with the effects its producer performs.
    Effectful(Box<Kinded>, Box<Kinded>),
}

/// An expression.
#[derive(Debug, PartialEq, Eq)]
pub enum Expr {
    /// A string literal, like `"x"`.
    String_(String),
    /// A number literal, like `3`.
    Number(u64),
    /// A tuple, like `(1, "e")`.
    Tuple(Vec<Expr>),
    /// A struct expression, like `Foo[Nat] { x: 3 }`.
    Struct(BigIdent, Vec<Kinded>, Vec<Field<Expr>>),
    /// A variable, like `a`.
    Ident(Ident),
    /// A function or constructor call, like `f[Nat](x)`.
    FnCall(Ident, Vec<Kinded>, Vec<Expr>),
    /// A field get, like `x.bar`.
    FieldGet(Box<Expr>, Ident),
    /// A call written like a method call, like `x.f(y)`; the same as `f(x, y)`.
    MethodCall(Box<Expr>, Ident, Vec<Kinded>, Vec<Expr>),
    /// A match expression, like `match x { 3 { 4 } _ { 5 } }`.
    Match(Box<Expr>, Vec<Arm>),
    /// A block, like `{ let x = 3; x.add(4) }`.
    Block(Box<Block>),
}

/// An arm of a match expression.
#[derive(Debug, PartialEq, Eq)]
pub struct Arm {
    /// The pattern to match on.
    pub pat: Pat,
    /// The block evaluated if the pattern matches.
    pub block: Block,
}

/// A pattern.
#[derive(Debug, PartialEq, Eq)]
pub enum Pat {
    /// A wildcard, `_`.
    Wildcard,
    /// A string literal, like `"x"`.
    String_(String),
    /// A number literal, like `3`.
    Number(u64),
    /// A tuple, like `(4, x)`.
    Tuple(Vec<Pat>),
    /// A constructor pattern, like `some(x)`.
    Ctor(Ident, Box<Pat>),
    /// A binding, like `x`.
    Ident(Ident),
}

/// A field of a struct expression.
#[derive(Debug, PartialEq, Eq)]
pub enum Field<T> {
    /// Shorthand for `x: x`.
    Ident(Ident),
    /// A field with its value, like `x: 3`.
    IdentAnd(Ident, T),
}

/// A block: statements, then the expression whose value is the block's.
#[derive(Debug, PartialEq, Eq)]
pub struct Block {
    /// The statements before the final expression.
    pub stmts: Vec<Stmt>,
    /// The final expression; a block without one is rejected by the checker.
    pub expr: Option<Expr>,
}

/// A statement.
#[derive(Debug, PartialEq, Eq)]
pub enum Stmt {
    /// A let-binding, with an optional type annotation.
    Let(Pat, Option<Kinded>, Expr),
}

// ----- models -----

/// The model of a [`Kind`].
pub enum KindV {
    Type,
    Effect,
    Tuple(Seq<KindV>),
    Arrow(Box<KindV>, Box<KindV>),
}

/// The model of a [`Kinded`].
pub enum KindedV {
    Ident(Seq<char>, Seq<KindedV>),
    Tuple(Seq<KindedV>),
    Effects(Seq<KindedV>),
    Arrow(Box<KindedV>, Box<KindedV>),
    Effectful(Box<KindedV>, Box<KindedV>),
}

/// The model of a [`Field`].
pub enum FieldV<T> {
    Ident(Seq<char>),
    IdentAnd(Seq<char>, T),
}

/// The model of an [`Expr`].
pub enum ExprV {
    String_(Seq<char>),
    Number(u64),
    Tuple(Seq<ExprV>),
    Struct(Seq<char>, Seq<KindedV>, Seq<FieldV<ExprV>>),
    Ident(Seq<char>),
    FnCall(Seq<char>, Seq<KindedV>, Seq<ExprV>),
    FieldGet(Box<ExprV>, Seq<char>),
    MethodCall(Box<ExprV>, Seq<char>, Seq<KindedV>, Seq<ExprV>),
    Match(Box<ExprV>, Seq<ArmV>),
    Block(Box<BlockV>),
}

/// The model of an [`Arm`].
pub struct ArmV {
    pub pat: PatV,
    pub block: BlockV,
}

/// The model of a [`Pat`].
pub enum PatV {
    Wildcard,
    String_(Seq<char>),
    Number(u64),
    Tuple(Seq<PatV>),
    Ctor(Seq<char>, Box<PatV>),
    Ident(Seq<char>),
}

/// The model of a [`Block`].
pub struct BlockV {
    pub stmts: Seq<StmtV>,
    pub expr: Option<ExprV>,
}

/// The model of a [`Stmt`].
pub enum StmtV {
    Let(PatV, Option<KindedV>, ExprV),
}

/// The model of a kind parameter, a field, a constructor or a value parameter.
pub struct ParamV<T> {
    pub ident: Seq<char>,
    pub type_: T,
}

/// The model of a [`StructDefn`].
pub struct StructDefnV {
    pub name: Seq<char>,
    pub params: Seq<ParamV<KindV>>,
    pub fields: Seq<ParamV<KindedV>>,
}

/// The model of an [`EnumDefn`].
pub struct EnumDefnV {
    pub name: Seq<char>,
    pub params: Seq<ParamV<KindV>>,
    pub ctors: Seq<ParamV<KindedV>>,
}

/// The model of a [`FnDefn`].
pub struct FnDefnV {
    pub name: Seq<char>,
    pub big_params: Seq<ParamV<KindV>>,
    pub params: Seq<ParamV<KindedV>>,
    pub ret_type: KindedV,
    pub requires: Option<ExprV>,
    pub ensures: Option<ExprV>,
    pub body: BlockV,
}

/// The model of a [`TopDefn`].
pub enum TopDefnV {
    Struct(StructDefnV),
    Enum(EnumDefnV),
    Fn_(FnDefnV),
}

impl Kind {
    /// The model of this kind.
    pub open spec fn v(&self) -> KindV
        decreases self,
    {
        match self {
            Kind::Type => KindV::Type,
            Kind::Effect => KindV::Effect,
            Kind::Tuple(ks) => KindV::Tuple(kinds_v(ks@)),
            Kind::Arrow(a, b) => KindV::Arrow(Box::new(a.v()), Box::new(b.v())),
        }
    }
}

/// The models of a sequence of kinds.
pub open spec fn kinds_v(s: Seq<Kind>) -> Seq<KindV>
    decreases s,
{
    Seq::new(s.len(), |i: int| if 0 <= i < s.len() { s[i].v() } else { KindV::Type })
}

impl Kinded {
    /// The model of this type or effect.
    pub open spec fn v(&self) -> KindedV
        decreases self,
    {
        match self {
            Kinded::Ident(n, args) => KindedV::Ident(n@, kindeds_v(args@)),
            Kinded::Tuple(ts) => KindedV::Tuple(kindeds_v(ts@)),
            Kinded::Effects(es) => KindedV::Effects(kindeds_v(es@)),
            Kinded::Arrow(a, b) => KindedV::Arrow(Box::new(a.v()), Box::new(b.v())),
            Kinded::Effectful(a, b) => KindedV::Effectful(Box::new(a.v()), Box::new(b.v())),
        }
    }
}

/// The models of a sequence of types or effects.
pub open spec fn kindeds_v(s: Seq<Kinded>) -> Seq<KindedV>
    decreases s,
{
    Seq::new(s.len(), |i: int| if 0 <= i < s.len() { s[i].v() } else { KindedV::Tuple(Seq::empty()) })
}

impl Expr {
    /// The model of this expression.
    pub open spec fn v(&self) -> ExprV
        decreases self,
    {
        match self {
            Expr::String_(s) => ExprV::String_(s@),
            Expr::Number(n) => ExprV::Number(*n),
            Expr::Tuple(es) => ExprV::Tuple(exprs_v(es@)),
            Expr::Struct(n, args, fs) => ExprV::Struct(n@, kindeds_v(args@), fields_v(fs@)),
            Expr::Ident(x) => ExprV::Ident(x@),
            Expr::FnCall(f, args, es) => ExprV::FnCall(f@, kindeds_v(args@), exprs_v(es@)),
            Expr::FieldGet(e, f) => ExprV::FieldGet(Box::new(e.v()), f@),
            Expr::MethodCall(e, f, args, es) => ExprV::MethodCall(
                Box::new(e.v()),
                f@,
                kindeds_v(args@),
                exprs_v(es@),
            ),
            Expr::Match(e, arms) => ExprV::Match(Box::new(e.v()), arms_v(arms@)),
            Expr::Block(b) => ExprV::Block(Box::new(b.v())),
        }
    }
}

/// The models of a sequence of expressions.
pub open spec fn exprs_v(s: Seq<Expr>) -> Seq<ExprV>
    decreases s,
{
    Seq::new(s.len(), |i: int| if 0 <= i < s.len() { s[i].v() } else { ExprV::Number(0) })
}

/// The model of a field of a struct expression.
pub open spec fn field_v(f: Field<Expr>) -> FieldV<ExprV>
    decreases f,
{
    match f {
        Field::Ident(x) => FieldV::Ident(x@),
        Field::IdentAnd(x, e) => FieldV::IdentAnd(x@, e.v()),
    }
}

/// The models of the fields of a struct expression.
pub open spec fn fields_v(s: Seq<Field<Expr>>) -> Seq<FieldV<ExprV>>
    decreases s,
{
    Seq::new(s.len(), |i: int| if 0 <= i < s.len() { field_v(s[i]) } else { FieldV::Ident(Seq::empty()) })
}

impl Arm {
    /// The model of this arm.
    pub open spec fn v(&self) -> ArmV
        decreases self,
    {
        ArmV { pat: self.pat.v(), block: self.block.v() }
    }
}

/// The models of a sequence of arms.
pub open spec fn arms_v(s: Seq<Arm>) -> Seq<ArmV>
    decreases s,
{
    Seq::new(s.len(), |i: int| if 0 <= i < s.len() { s[i].v() } else { ArmV { pat: PatV::Wildcard, block: BlockV { stmts: Seq::empty(), expr: None } } })
}

impl Pat {
    /// The model of this pattern.
    pub open spec fn v(&self) -> PatV
        decreases self,
    {
        match self {
            Pat::Wildcard => PatV::Wildcard,
            Pat::String_(s) => PatV::String_(s@),
            Pat::Number(n) => PatV::Number(*n),
            Pat::Tuple(ps) => PatV::Tuple(pats_v(ps@)),
            Pat::Ctor(c, p) => PatV::Ctor(c@, Box::new(p.v())),
            Pat::Ident(x) => PatV::Ident(x@),
        }
    }
}

/// The models of a sequence of patterns.
pub open spec fn pats_v(s: Seq<Pat>) -> Seq<PatV>
    decreases s,
{
    Seq::new(s.len(), |i: int| if 0 <= i < s.len() { s[i].v() } else { PatV::Wildcard })
}

impl Block {
    /// The model of this block.
    pub open spec fn v(&self) -> BlockV
        decreases self,
    {
        BlockV {
            stmts: stmts_v(self.stmts@),
            expr: match &self.expr {
                Some(e) => Some(e.v()),
                None => None,
            },
        }
    }
}

impl Stmt {
    /// The model of this statement.
    pub open spec fn v(&self) -> StmtV
        decreases self,
    {
        match self {
            Stmt::Let(p, t, e) => StmtV::Let(
                p.v(),
                match t {
                    Some(t) => Some(t.v()),
                    None => None,
                },
                e.v(),
            ),
        }
    }
}

/// The models of a sequence of statements.
pub open spec fn stmts_v(s: Seq<Stmt>) -> Seq<StmtV>
    decreases s,
{
    Seq::new(s.len(), |i: int| if 0 <= i < s.len() { s[i].v() } else { StmtV::Let(PatV::Wildcard, None, ExprV::Number(0)) })
}

/// The models of a list of kind parameters.
pub open spec fn kind_params_v(s: Seq<Param<Ident, Kind>>) -> Seq<ParamV<KindV>> {
    Seq::new(s.len(), |i: int| ParamV { ident: s[i].ident@, type_: s[i].type_.v() })
}

/// The models of a list of fields, constructors or value parameters.
pub open spec fn params_v(s: Seq<Param<Ident, Kinded>>) -> Seq<ParamV<KindedV>> {
    Seq::new(s.len(), |i: int| ParamV { ident: s[i].ident@, type_: s[i].type_.v() })
}

/// The model of an optional expression.
pub open spec fn opt_expr_v(e: Option<Expr>) -> Option<ExprV> {
    match e {
        Some(e) => Some(e.v()),
        None => None,
    }
}

impl StructDefn {
    /// The model of this definition.
    pub open spec fn v(&self) -> StructDefnV {
        StructDefnV {
            name: self.name@,
            params: kind_params_v(self.params@),
            fields: params_v(self.fields@),
        }
    }
}

impl EnumDefn {
    /// The model of this definition.
    pub open spec fn v(&self) -> EnumDefnV {
        EnumDefnV {
            name: self.name@,
            params: kind_params_v(self.params@),
            ctors: params_v(self.ctors@),
        }
    }
}

impl FnDefn {
    /// The model of this definition.
    pub open spec fn v(&self) -> FnDefnV {
        FnDefnV {
            name: self.name@,
            big_params: kind_params_v(self.big_params@),
            params: params_v(self.params@),
            ret_type: self.ret_type.v(),
            requires: opt_expr_v(self.requires),
            ensures: opt_expr_v(self.ensures),
            body: self.body.v(),
        }
    }
}

impl TopDefn {
    /// The model of this definition.
    pub open spec fn v(&self) -> TopDefnV {
        match self {
            TopDefn::Struct(d) => TopDefnV::Struct(d.v()),
            TopDefn::Enum(d) => TopDefnV::Enum(d.v()),
            TopDefn::Fn_(d) => TopDefnV::Fn_(d.v()),
        }
    }
}

/// The models of a sequence of top-level definitions.
pub open spec fn top_defns_v(s: Seq<TopDefn>) -> Seq<TopDefnV> {
    Seq::new(s.len(), |i: int| s[i].v())
}

} // verus!

verus! {

impl Kind {
    /// A copy of this kind.
    pub fn duplicate(&self) -> (r: Kind)
        ensures
            r.v() == self.v(),
        decreases self,
    {
        match self {
            Kind::Type => Kind::Type,
            Kind::Effect => Kind::Effect,
            Kind::Tuple(ks) => Kind::Tuple(duplicate_kinds(ks)),
            Kind::Arrow(a, b) => Kind::Arrow(Box::new(a.duplicate()), Box::new(b.duplicate())),
        }
    }
}

impl Kinded {
    /// A copy of this type or effect.
    pub fn duplicate(&self) -> (r: Kinded)
        ensures
            r.v() == self.v(),
        decreases self,
    {
        match self {
            Kinded::Ident(n, args) => Kinded::Ident(n.duplicate(), duplicate_kindeds(args)),
            Kinded::Tuple(ts) => Kinded::Tuple(duplicate_kindeds(ts)),
            Kinded::Effects(es) => Kinded::Effects(duplicate_kindeds(es)),
            Kinded::Arrow(a, b) => Kinded::Arrow(Box::new(a.duplicate()), Box::new(b.duplicate())),
            Kinded::Effectful(a, b) => Kinded::Effectful(
                Box::new(a.duplicate()),
                Box::new(b.duplicate()),
            ),
        }
    }
}

/// Copies of a sequence of types or effects.
pub fn duplicate_kindeds(ts: &Vec<Kinded>) -> (r: Vec<Kinded>)
    ensures
        kindeds_v(r@) == kindeds_v(ts@),
    decreases ts,
{
    let mut out: Vec<Kinded> = Vec::new();
    let mut k: usize = 0;
    while k < ts.len()
        invariant
            k <= ts@.len(),
            out@.len() == k,
            forall|j: int| 0 <= j < k ==> (#[trigger] out@[j]).v() == ts@[j].v(),
        decreases ts@.len() - k,
    {
        assert(decreases_to!(ts => ts@[k as int]));
        out.push(ts[k].duplicate());
        k += 1;
    }
    assert(kindeds_v(out@) =~= kindeds_v(ts@));
    out
}

/// Copies of a sequence of kinds.
pub fn duplicate_kinds(ts: &Vec<Kind>) -> (r: Vec<Kind>)
    ensures
        kinds_v(r@) == kinds_v(ts@),
    decreases ts,
{
    let mut out: Vec<Kind> = Vec::new();
    let mut k: usize = 0;
    while k < ts.len()
        invariant
            k <= ts@.len(),
            out@.len() == k,
            forall|j: int| 0 <= j < k ==> (#[trigger] out@[j]).v() == ts@[j].v(),
        decreases ts@.len() - k,
    {
        assert(decreases_to!(ts => ts@[k as int]));
        out.push(ts[k].duplicate());
        k += 1;
    }
    assert(kinds_v(out@) =~= kinds_v(ts@));
    out
}

/// Copies of a sequence of patterns.
pub fn duplicate_pats(ts: &Vec<Pat>) -> (r: Vec<Pat>)
    ensures
        pats_v(r@) == pats_v(ts@),
    decreases ts,
{
    let mut out: Vec<Pat> = Vec::new();
    let mut k: usize = 0;
    while k < ts.len()
        invariant
            k <= ts@.len(),
            out@.len() == k,
            forall|j: int| 0 <= j < k ==> (#[trigger] out@[j]).v() == ts@[j].v(),
        decreases ts@.len() - k,
    {
        assert(decreases_to!(ts => ts@[k as int]));
        out.push(ts[k].duplicate());
        k += 1;
    }
    assert(pats_v(out@) =~= pats_v(ts@));
    out
}

impl Pat {
    /// A copy of this pattern.
    pub fn duplicate(&self) -> (r: Pat)
        ensures
            r.v() == self.v(),
        decreases self,
    {
        match self {
            Pat::Wildcard => Pat::Wildcard,
            Pat::String_(s) => Pat::String_(s.clone()),
            Pat::Number(n) => Pat::Number(*n),
            Pat::Tuple(ps) => Pat::Tuple(duplicate_pats(ps)),
            Pat::Ctor(c, p) => Pat::Ctor(c.duplicate(), Box::new(p.duplicate())),
            Pat::Ident(x) => Pat::Ident(x.duplicate()),
        }
    }
}

} // verus!
