use birb_core::cst::{Kind, Kinded, TopDefn};
use birb_core::error::Error;
use birb_core::get;
use birb_core::ident::Ident;
use birb_core::interpret::Value;

fn nat_type() -> Kinded {
    Kinded::Ident(Ident::new("Nat"), vec![])
}

fn program(src: &str) -> Vec<TopDefn> {
    let ts = birb_core::lex::get(src.as_bytes()).unwrap();
    let mut ds = birb_core::std_lib::top_defns();
    ds.append(&mut birb_core::parse::get(&ts).unwrap());
    birb_core::elab::get(ds)
}

#[test]
fn minimal_main() {
    assert_eq!(
        get(b"struct Unit {} enum Void {} fn main(): Str { \"hello\" }"),
        Ok(Value::String_("hello".to_owned()))
    );
}

#[test]
fn arithmetic_and_comparison() {
    assert_eq!(get(b"fn main(): Nat { 2.add(3).mul(4) }"), Ok(Value::Number(20)));
    assert_eq!(
        get(b"fn main(): Bool { 2.lt(3) }"),
        Ok(Value::Ctor(Ident::new("true"), Box::new(Value::Tuple(vec![]))))
    );
    assert_eq!(
        get(b"fn main(): Bool { 2.gt(3).or(1.eq(1)).and(true(())) }"),
        Ok(Value::Ctor(Ident::new("true"), Box::new(Value::Tuple(vec![]))))
    );
    assert_eq!(get(b"fn main(): Nat { 7.div(2).sub(1) }"), Ok(Value::Number(2)));
}

#[test]
fn wrapping_arithmetic() {
    assert_eq!(get(b"fn main(): Nat { 0.sub(1) }"), Ok(Value::Number(u64::MAX)));
    assert_eq!(get(b"fn main(): Nat { 18446744073709551615.add(2) }"), Ok(Value::Number(1)));
    assert_eq!(get(b"fn main(): Nat { 9223372036854775808.mul(2) }"), Ok(Value::Number(0)));
    assert_eq!(get(b"fn main(): Nat { 5.div(0) }"), Ok(Value::Number(0)));
}

#[test]
fn generic_identity() {
    assert_eq!(
        get(b"fn id[T: Type](x: T): T { x } fn main(): Nat { id[Nat](7) }"),
        Ok(Value::Number(7))
    );
}

#[test]
fn match_over_enum() {
    assert_eq!(
        get(b"enum Opt[T: Type] { some(T), none(()) } fn main(): Nat { match some[Nat](3) { some(n) { n } none(_) { 0 } } }"),
        Ok(Value::Number(3))
    );
}

#[test]
fn requires_failure() {
    assert_eq!(
        get(b"fn f(x: Nat): Nat requires x.eq(0) { x } fn main(): Nat { f(1) }"),
        Err(Error::RequiresFailed(Ident::new("f")))
    );
}

#[test]
fn requires_and_ensures_hold() {
    assert_eq!(
        get(b"fn f(x: Nat): Nat requires x.eq(0) ensures ret.eq(1) { x.add(1) } fn main(): Nat { f(0) }"),
        Ok(Value::Number(1))
    );
}

#[test]
fn ensures_failure() {
    assert_eq!(
        get(b"fn f(x: Nat): Nat ensures ret.eq(x) { x.add(1) } fn main(): Nat { f(0) }"),
        Err(Error::EnsuresFailed(Ident::new("f")))
    );
}

#[test]
fn effect_discharge() {
    assert_eq!(
        get(b"fn greet(): Str affects {Stdout} { \"hi\" } fn main(): Str { greet() }"),
        Err(Error::InvalidEffectUse(Ident::new("main"), Kinded::Ident(Ident::new("Stdout"), vec![])))
    );
}

#[test]
fn declared_effect_allows_call() {
    assert_eq!(
        get(b"fn greet(): Str affects {Stdout} { \"hi\" } fn twice(): Str affects {Stdin, Stdout} { greet() } fn main(): Nat { 1 }"),
        Ok(Value::Number(1))
    );
}

#[test]
fn non_exhaustive_match() {
    assert_eq!(
        get(b"enum E { a(()), b(()) } fn main(): Nat { match a(()) { b(_) { 0 } } }"),
        Err(Error::NonExhaustiveMatch)
    );
}

#[test]
fn refuted_let_pattern() {
    assert_eq!(get(b"fn main(): Nat { let 3 = 4; 5 }"), Err(Error::NonExhaustiveMatch));
}

#[test]
fn structs_and_fields() {
    assert_eq!(
        get(b"struct P[T: Type] { x: T, y: Str } fn main(): Nat { let p = P[Nat] { y: \"a\", x: 4 }; p.x }"),
        Ok(Value::Number(4))
    );
    assert_eq!(
        get(b"struct P { x: Nat } fn main(): P { let x = 9; P { x } }"),
        Ok(Value::Struct(Ident::new("P"), vec![(Ident::new("x"), Value::Number(9))]))
    );
}

#[test]
fn tuples_and_lets() {
    assert_eq!(
        get(b"fn pair(a: Nat, b: Nat): (Nat, Nat) { (a, b) } fn main(): Nat { let (a, b) = pair(3, 4); a.mul(b) }"),
        Ok(Value::Number(12))
    );
    assert_eq!(
        get(b"fn main(): (Str, Nat) { let x: Nat = 1; (\"s\", x) }"),
        Ok(Value::Tuple(vec![Value::String_("s".to_owned()), Value::Number(1)]))
    );
}

#[test]
fn recursion() {
    assert_eq!(
        get(b"fn fact(n: Nat): Nat { match n.eq(0) { true(_) { 1 } false(_) { n.mul(fact(n.sub(1))) } } } fn main(): Nat { fact(10) }"),
        Ok(Value::Number(3628800))
    );
}

#[test]
fn literal_patterns() {
    assert_eq!(
        get(b"fn main(): Nat { match \"b\" { \"a\" { 1 } \"b\" { 2 } _ { 3 } } }"),
        Ok(Value::Number(2))
    );
}

#[test]
fn static_errors() {
    assert_eq!(get(b"fn f(): Nat { 1 }"), Err(Error::NoMain));
    assert_eq!(get(b"fn main(x: Nat): Nat { x }"), Err(Error::InvalidMain));
    assert_eq!(get(b"fn main(): Nat requires true(()) { 1 }"), Err(Error::InvalidMain));
    assert_eq!(get(b"fn main(): Foo { 1 }"), Err(Error::UndefinedIdentifier(Ident::new("Foo"))));
    assert_eq!(get(b"fn main(): Nat { y }"), Err(Error::UndefinedIdentifier(Ident::new("y"))));
    assert_eq!(
        get(b"fn f(): Nat { 1 } fn f(): Nat { 2 } fn main(): Nat { 1 }"),
        Err(Error::DuplicateIdentifier(Ident::new("f")))
    );
    assert_eq!(
        get(b"enum A { x(()) } fn x(): Nat { 1 } fn main(): Nat { 1 }"),
        Err(Error::DuplicateIdentifier(Ident::new("x")))
    );
    assert_eq!(
        get(b"struct Stdout {} fn main(): Nat { 1 }"),
        Err(Error::DuplicateIdentifier(Ident::new("Stdout")))
    );
    assert_eq!(
        get(b"struct S { a: Nat, a: Str } fn main(): Nat { 1 }"),
        Err(Error::DuplicateField(Ident::new("S"), Ident::new("a")))
    );
    assert_eq!(
        get(b"fn main(): Nat { 1.add(2, 3) }"),
        Err(Error::WrongNumArgs(Ident::new("add"), 2, 3))
    );
    assert_eq!(
        get(b"fn main(): Nat[Nat] { 1 }"),
        Err(Error::InvalidKindedApp(Ident::new("Nat"), Kind::Type))
    );
    assert_eq!(
        get(b"fn main(): Nat { \"s\" }"),
        Err(Error::MismatchedTypes(nat_type(), Kinded::Ident(Ident::new("Str"), vec![])))
    );
    assert_eq!(get(b"fn main(): Nat { match 1 { } }"), Err(Error::EmptyMatch));
    assert_eq!(get(b"fn main(): Nat { }"), Err(Error::NoExprForBlock));
    assert_eq!(get(b"fn main(): Nat { 1.x }"), Err(Error::NotStruct(Ident::new("x"))));
    assert_eq!(
        get(b"fn main(): Nat { match 1 { (a, b) { 1 } } }"),
        Err(Error::InvalidPattern(nat_type()))
    );
    assert_eq!(
        get(b"fn main(): Nat { let (a, a) = (1, 2); a }"),
        Err(Error::DuplicateIdentifier(Ident::new("a")))
    );
    assert_eq!(
        get(b"fn f(x: Nat): Nat requires x { x } fn main(): Nat { 1 }"),
        Err(Error::MismatchedTypes(Kinded::Ident(Ident::new("Bool"), vec![]), nat_type()))
    );
}

#[test]
fn kind_argument_of_wrong_kind() {
    assert_eq!(
        get(b"fn id[T: Type](x: T): T { x } fn main(): Nat { id[Stdout](7) }"),
        Err(Error::MismatchedKinds(Kind::Type, Kind::Effect))
    );
    assert_eq!(
        get(b"fn id[T: Type](x: T): T { x } fn main(): Nat { id(7) }"),
        Err(Error::WrongNumArgs(Ident::new("id"), 1, 0))
    );
}

#[test]
fn struct_construction_field_errors() {
    assert_eq!(
        get(b"struct S { a: Nat } fn main(): S { S { b: 1 } }"),
        Err(Error::NoSuchField(Ident::new("S"), Ident::new("b")))
    );
    assert_eq!(
        get(b"struct S { a: Nat } fn main(): S { S { a: 1, a: 2 } }"),
        Err(Error::DuplicateField(Ident::new("S"), Ident::new("a")))
    );
    assert_eq!(
        get(b"struct S { a: Nat } fn main(): Nat { S { a: 1 }.b }"),
        Err(Error::NoSuchField(Ident::new("S"), Ident::new("b")))
    );
}

#[test]
fn match_arms_must_agree() {
    assert_eq!(
        get(b"fn main(): Nat { match 1 { 1 { 2 } _ { \"x\" } } }"),
        Err(Error::MismatchedTypes(nat_type(), Kinded::Ident(Ident::new("Str"), vec![])))
    );
}

#[test]
fn checking_twice_agrees() {
    let ds = program("fn id[T: Type](x: T): T { x } fn main(): Nat { id[Nat](7) }");
    assert_eq!(birb_core::statics::get(&ds), Ok(()));
    assert_eq!(birb_core::statics::get(&ds), birb_core::statics::get(&ds));
    let again = birb_core::elab::get(ds);
    assert_eq!(birb_core::statics::get(&again), Ok(()));
    let bad = program("fn main(): Nat { \"s\" }");
    assert_eq!(birb_core::statics::get(&bad), birb_core::statics::get(&birb_core::elab::get(program("fn main(): Nat { \"s\" }"))));
}

#[test]
fn method_call_before_desugaring_is_internal() {
    let ts = birb_core::lex::get(b"fn main(): Nat { 1.add(2) }").unwrap();
    let mut ds = birb_core::std_lib::top_defns();
    ds.append(&mut birb_core::parse::get(&ts).unwrap());
    assert_eq!(birb_core::statics::get(&ds), Err(Error::Internal));
}

#[test]
fn depth_bound() {
    let ds = program("fn one(): Nat { 1 } fn main(): Nat { one() }");
    assert_eq!(birb_core::interpret::run_with_fuel(&ds, 0), Err(Error::DepthExceeded));
    assert_eq!(birb_core::interpret::run_with_fuel(&ds, 1), Ok(Value::Number(1)));
    assert_eq!(birb_core::interpret::get(&ds), Ok(Value::Number(1)));
}

#[test]
fn prelude_contents() {
    let ds = birb_core::std_lib::top_defns();
    assert_eq!(ds.len(), 12);
    let es = birb_core::std_lib::effects();
    assert_eq!(
        es,
        vec![Ident::new("Stdin"), Ident::new("Stdout"), Ident::new("Stderr"), Ident::new("Randomness")]
    );
}

#[test]
fn higher_kinded_parameter() {
    assert_eq!(
        get(b"enum Opt[T: Type] { some(T), none(()) } struct Box1[F: Type -> Type] { v: F[Nat] } fn main(): Nat { let b = Box1[Opt] { v: some[Nat](5) }; match b.v { some(n) { n } none(_) { 0 } } }"),
        Ok(Value::Number(5))
    );
}

fn text(v: &Value) -> String {
    v.render().into_iter().collect()
}

#[test]
fn render_values() {
    assert_eq!(text(&Value::String_("h\u{e9}".to_owned())), "\"h\u{e9}\"");
    assert_eq!(text(&Value::Number(20)), "20");
    assert_eq!(text(&Value::Number(0)), "0");
    assert_eq!(text(&Value::Number(u64::MAX)), "18446744073709551615");
    assert_eq!(
        text(&Value::Tuple(vec![Value::Number(1), Value::String_("e".to_owned())])),
        "(1, \"e\")"
    );
    assert_eq!(text(&Value::Tuple(vec![])), "()");
    assert_eq!(
        text(&Value::Struct(
            Ident::new("Foo"),
            vec![(Ident::new("x"), Value::Number(3)), (Ident::new("y"), Value::Tuple(vec![]))]
        )),
        "Foo { x: 3, y: () }"
    );
    assert_eq!(text(&Value::Struct(Ident::new("Unit"), vec![])), "Unit {  }");
    assert_eq!(
        text(&Value::Ctor(Ident::new("some"), Box::new(Value::Number(3)))),
        "some(3)"
    );
}

#[test]
fn render_program_result() {
    let v = get(b"enum Opt[T: Type] { some(T), none(()) } fn main(): Opt[(Nat, Str)] { some[(Nat, Str)]((1, \"a\")) }").unwrap();
    assert_eq!(text(&v), "some((1, \"a\"))");
}

#[test]
fn constructor_payload_must_match_carrier() {
    assert_eq!(
        get(b"enum Opt[T: Type] { some(T), none(()) } fn main(): Opt[Nat] { some[Nat](\"s\") }"),
        Err(Error::MismatchedTypes(nat_type(), Kinded::Ident(Ident::new("Str"), vec![])))
    );
    assert_eq!(
        get(b"enum Opt[T: Type] { some(T), none(()) } fn main(): Opt[Nat] { some[Nat](1, 2) }"),
        Err(Error::WrongNumArgs(Ident::new("some"), 1, 2))
    );
}

#[test]
fn construction_must_give_every_field() {
    assert_eq!(
        get(b"struct S { a: Nat } fn main(): Nat { let s = S {}; 1 }"),
        Err(Error::MissingField(Ident::new("S"), Ident::new("a")))
    );
    assert_eq!(
        get(b"struct S { a: Nat, b: Str } fn main(): Nat { S { b: \"x\" }.a }"),
        Err(Error::MissingField(Ident::new("S"), Ident::new("a")))
    );
    assert_eq!(
        get(b"struct S { a: Nat, b: Str } fn main(): Nat { S { b: \"x\", a: 2 }.a }"),
        Ok(Value::Number(2))
    );
}

#[test]
fn identifiers_and_values_clone_and_hash() {
    let x = Ident::new("x");
    let mut set = std::collections::HashSet::new();
    set.insert(x.clone());
    assert!(set.contains(&Ident::new("x")));
    assert!(!set.contains(&Ident::new("y")));
    let v = Value::Tuple(vec![Value::Number(1), Value::Ctor(Ident::new("c"), Box::new(Value::String_("s".to_owned())))]);
    assert_eq!(v.clone(), v);
}
