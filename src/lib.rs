//! A small statically typed, effect-tracked language: lexing, parsing, desugaring, static
//! checking and evaluation, each stage proved to compute what its spec functions define.
use vstd::prelude::*;

pub mod cst;
pub mod elab;
pub mod error;
pub mod ident;
pub mod interpret;
pub mod laws;
pub mod lex;
pub mod parse;
pub mod parse_spec;
pub mod render;
pub mod statics;
pub mod statics_spec;
pub mod std_lib;
pub mod token;

use crate::cst::{TopDefnV, top_defns_v};
use crate::error::{Error, ErrorV};
use crate::interpret::{Value, ValueV, rel_value, run};

verus! {

/// The program that source `bs` spells: the prelude's definitions, then the parsed ones, all
/// desugared.
pub open spec fn program(ts: Seq<crate::token::TokenV>) -> Result<Seq<TopDefnV>, ErrorV> {
    match crate::parse_spec::parse(ts) {
        Err(e) => Err(e),
        Ok(ds) => Ok(crate::elab::desugar(crate::std_lib::prelude() + ds)),
    }
}

/// The whole pipeline on source bytes: lex, parse, join with the prelude, desugar, check, and
/// run `main`.
pub open spec fn interpret(bs: Seq<u8>) -> Result<ValueV, ErrorV> {
    match crate::lex::lex(bs) {
        Err(e) => Err(e),
        Ok(ts) => match program(ts) {
            Err(e) => Err(e),
            Ok(ds) => match crate::statics_spec::check_program(ds) {
                Err(e) => Err(e),
                Ok(_) => run(ds, u64::MAX as nat),
            },
        },
    }
}

/// Lexes, parses, checks and evaluates a program, as [`interpret`] says.
pub fn get(bs: &[u8]) -> (r: Result<Value, Error>)
    ensures
        rel_value(r, interpret(bs@)),
{
    let ts = match lex::get(bs) {
        Err(e) => {
            return Err(e);
        },
        Ok(ts) => ts,
    };
    let mut top = std_lib::top_defns();
    let mut parsed = match parse::get(&ts) {
        Err(e) => {
            return Err(e);
        },
        Ok(ds) => ds,
    };
    let ghost pre = top_defns_v(top@);
    let ghost pv = top_defns_v(parsed@);
    top.append(&mut parsed);
    assert(top_defns_v(top@) =~= pre + pv);
    let ds = elab::get(top);
    match statics::get(&ds) {
        Err(e) => {
            return Err(e);
        },
        Ok(_) => {},
    }
    interpret::get(&ds)
}

} // verus!
