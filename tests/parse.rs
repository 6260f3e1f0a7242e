use birb_core::cst::{
    Arm, Block, EnumDefn, Expr, Field, FnDefn, Kind, Kinded, Param, Pat, Stmt, StructDefn, TopDefn,
};
use birb_core::error::{Error, Found};
use birb_core::ident::Ident;
use birb_core::token::Token;

fn get(bs: &[u8]) -> Result<Vec<TopDefn>, Error> {
    let ts = birb_core::lex::get(bs)?;
    birb_core::parse::get(&ts)
}

const SIMPLE: &str = "struct Unit {}\nenum Void {}\nfn main(): Str { \"hello\" }\n";

const CALL: &str = "struct Guy[T: Type] { x: T }\n\
fn call[T: Type, U: Type, E: Effect](f: T -> U affects E, x: T): U affects E\n\
requires true\n\
ensures true\n\
{\n\
  let _ = Guy[T] { x };\n\
  let _ = match () { () { () } };\n\
  let _: Heh[Nah, Dude] = ();\n\
  x.f()\n\
}\n";

#[test]
fn simple() {
    assert_eq!(
        get(SIMPLE.as_bytes()).unwrap(),
        vec![
            TopDefn::Struct(StructDefn {
                name: Ident::new("Unit"),
                params: vec![],
                fields: vec![]
            }),
            TopDefn::Enum(EnumDefn {
                name: Ident::new("Void"),
                params: vec![],
                ctors: vec![],
            }),
            TopDefn::Fn_(Box::new(FnDefn {
                name: Ident::new("main"),
                big_params: vec![],
                params: vec![],
                ret_type: Kinded::Ident(Ident::new("Str"), vec![]),
                requires: None,
                ensures: None,
                body: Block {
                    stmts: vec![],
                    expr: Some(Expr::String_(String::from("hello")))
                },
            })),
        ]
    );
}

#[test]
fn call() {
    assert_eq!(
        get(CALL.as_bytes()).unwrap(),
        vec![
            TopDefn::Struct(StructDefn {
                name: Ident::new("Guy"),
                params: vec![Param {
                    ident: Ident::new("T"),
                    type_: Kind::Type,
                }],
                fields: vec![Param {
                    ident: Ident::new("x"),
                    type_: Kinded::Ident(Ident::new("T"), vec![]),
                }]
            }),
            TopDefn::Fn_(Box::new(FnDefn {
                name: Ident::new("call"),
                big_params: vec![
                    Param {
                        ident: Ident::new("T"),
                        type_: Kind::Type,
                    },
                    Param {
                        ident: Ident::new("U"),
                        type_: Kind::Type,
                    },
                    Param {
                        ident: Ident::new("E"),
                        type_: Kind::Effect,
                    },
                ],
                params: vec![
                    Param {
                        ident: Ident::new("f"),
                        type_: Kinded::Arrow(
                            Kinded::Ident(Ident::new("T"), vec![]).into(),
                            Kinded::Effectful(
                                Kinded::Ident(Ident::new("U"), vec![]).into(),
                                Kinded::Ident(Ident::new("E"), vec![]).into(),
                            )
                            .into()
                        )
                    },
                    Param {
                        ident: Ident::new("x"),
                        type_: Kinded::Ident(Ident::new("T"), vec![]),
                    }
                ],
                ret_type: Kinded::Effectful(
                    Kinded::Ident(Ident::new("U"), vec![]).into(),
                    Kinded::Ident(Ident::new("E"), vec![]).into(),
                ),
                requires: Some(Expr::Ident(Ident::new("true"))),
                ensures: Some(Expr::Ident(Ident::new("true"))),
                body: Block {
                    stmts: vec![
                        Stmt::Let(
                            Pat::Wildcard,
                            None,
                            Expr::Struct(
                                Ident::new("Guy"),
                                vec![Kinded::Ident(Ident::new("T"), vec![])],
                                vec![Field::Ident(Ident::new("x"))],
                            )
                        ),
                        Stmt::Let(
                            Pat::Wildcard,
                            None,
                            Expr::Match(
                                Expr::Tuple(vec![]).into(),
                                vec![Arm {
                                    pat: Pat::Tuple(vec![]),
                                    block: Block {
                                        stmts: vec![],
                                        expr: Some(Expr::Tuple(vec![]))
                                    }
                                }]
                            )
                        ),
                        Stmt::Let(
                            Pat::Wildcard,
                            Some(Kinded::Ident(
                                Ident::new("Heh"),
                                vec![
                                    Kinded::Ident(Ident::new("Nah"), vec![]),
                                    Kinded::Ident(Ident::new("Dude"), vec![]),
                                ]
                            )),
                            Expr::Tuple(vec![])
                        )
                    ],
                    expr: Some(Expr::MethodCall(
                        Expr::Ident(Ident::new("x")).into(),
                        Ident::new("f"),
                        vec![],
                        vec![],
                    )),
                },
            }))
        ]
    );
}

#[test]
fn single_element_groups_are_not_tuples() {
    let ds = get(b"fn f(x: (Nat)): Nat affects {Stdout} { (x) }").unwrap();
    match &ds[0] {
        TopDefn::Fn_(f) => {
            assert_eq!(f.params[0].type_, Kinded::Ident(Ident::new("Nat"), vec![]));
            assert_eq!(
                f.ret_type,
                Kinded::Effectful(
                    Box::new(Kinded::Ident(Ident::new("Nat"), vec![])),
                    Box::new(Kinded::Ident(Ident::new("Stdout"), vec![]))
                )
            );
            assert_eq!(f.body.expr, Some(Expr::Ident(Ident::new("x"))));
        },
        _ => panic!("expected a function"),
    }
}

#[test]
fn effect_set_of_two() {
    let ds = get(b"fn f(): Nat affects {Stdin, Stdout} { 1 }").unwrap();
    match &ds[0] {
        TopDefn::Fn_(f) => assert_eq!(
            f.ret_type,
            Kinded::Effectful(
                Box::new(Kinded::Ident(Ident::new("Nat"), vec![])),
                Box::new(Kinded::Effects(vec![
                    Kinded::Ident(Ident::new("Stdin"), vec![]),
                    Kinded::Ident(Ident::new("Stdout"), vec![]),
                ]))
            )
        ),
        _ => panic!("expected a function"),
    }
}

#[test]
fn arrow_kind() {
    let ds = get(b"struct S[F: Type -> Type, P: (Type, Effect)] {}").unwrap();
    match &ds[0] {
        TopDefn::Struct(s) => {
            assert_eq!(s.params[0].type_, Kind::Arrow(Box::new(Kind::Type), Box::new(Kind::Type)));
            assert_eq!(s.params[1].type_, Kind::Tuple(vec![Kind::Type, Kind::Effect]));
        },
        _ => panic!("expected a struct"),
    }
}

#[test]
fn empty_kind_params() {
    assert_eq!(get(b"struct Foo[] { x: Nat }"), Err(Error::EmptyKindedParams));
}

#[test]
fn empty_kind_args() {
    assert_eq!(get(b"fn main(): Foo[] { 1 }"), Err(Error::EmptyKindedArgs));
}

#[test]
fn parse_error_at_end() {
    assert_eq!(get(b"fn"), Err(Error::Parse("an identifier", Found::EOF)));
}

#[test]
fn parse_error_on_token() {
    assert_eq!(
        get(b"let"),
        Err(Error::Parse("a top-level definition", Found::Token(Token::Let)))
    );
}

#[test]
fn unknown_kind_name() {
    assert_eq!(
        get(b"struct S[T: Foo] {}"),
        Err(Error::Parse("]", Found::Token(Token::BigIdent(Ident::new("T")))))
    );
}

#[test]
fn patterns() {
    let ds = get(b"fn main(): Nat { match x { (1, \"s\", _) { 0 } some(y) { y } z { z } } }").unwrap();
    match &ds[0] {
        TopDefn::Fn_(f) => match &f.body.expr {
            Some(Expr::Match(_, arms)) => {
                assert_eq!(
                    arms[0].pat,
                    Pat::Tuple(vec![Pat::Number(1), Pat::String_("s".to_owned()), Pat::Wildcard])
                );
                assert_eq!(arms[1].pat, Pat::Ctor(Ident::new("some"), Box::new(Pat::Ident(Ident::new("y")))));
                assert_eq!(arms[2].pat, Pat::Ident(Ident::new("z")));
            },
            _ => panic!("expected a match"),
        },
        _ => panic!("expected a function"),
    }
}

#[test]
fn desugar_method_call() {
    let ds = birb_core::elab::get(get(b"fn main(): Nat { 2.add[X](3).mul(4) }").unwrap());
    match &ds[0] {
        TopDefn::Fn_(f) => assert_eq!(
            f.body.expr,
            Some(Expr::FnCall(
                Ident::new("mul"),
                vec![],
                vec![
                    Expr::FnCall(
                        Ident::new("add"),
                        vec![Kinded::Ident(Ident::new("X"), vec![])],
                        vec![Expr::Number(2), Expr::Number(3)]
                    ),
                    Expr::Number(4)
                ]
            ))
        ),
        _ => panic!("expected a function"),
    }
}

#[test]
fn field_get_chain() {
    let ds = get(b"fn main(): Nat { a.b.c }").unwrap();
    match &ds[0] {
        TopDefn::Fn_(f) => assert_eq!(
            f.body.expr,
            Some(Expr::FieldGet(
                Box::new(Expr::FieldGet(Box::new(Expr::Ident(Ident::new("a"))), Ident::new("b"))),
                Ident::new("c")
            ))
        ),
        _ => panic!("expected a function"),
    }
}
