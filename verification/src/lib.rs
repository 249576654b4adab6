//! Crisp: a small language of parenthesised forms that is turned into code
//! of the host language.
//!
//! [`parsing::CrispParser`] reads source text into a parse tree by the
//! grammar of [`grammar`]; [`lower::transpile_to_rust`] lowers a parse tree
//! to a stream of host tokens; [`crisp`] does one after the other.

pub mod emit;
pub mod error;
pub mod grammar;
pub mod laws;
pub mod lower;
pub mod parsing;
pub mod shape;
pub mod text;
pub mod tokens;
pub mod tree;

use crate::error::CrispError;
use crate::grammar::program;
use crate::lower::{lower_all, transpile_to_rust};
use crate::parsing::CrispParser;
use crate::shape::{is_host_refusal, parsed_program_lowers};
use crate::tokens::{stream_tokens, Tok};
use crate::tree::Rule;
use proc_macro2::TokenStream;
use vstd::prelude::*;

verus! {

/// What a source text is turned into: the tokens that its program is lowered
/// to, or the error of the parser, or else that of the lowering.
pub open spec fn crisp_outcome(source: Seq<char>) -> Result<Seq<Tok>, CrispError> {
    match program(source) {
        Err(e) => Err(CrispError::Parse(e)),
        Ok(tree) => match lower_all(seq![tree]) {
            Err(e) => Err(CrispError::Lower(e)),
            Ok(tokens) => Ok(tokens),
        },
    }
}

/// Turns source text into host code: parses the text as a program and lowers
/// the parse tree. Nothing is produced where either step fails.
///
/// The lowering never fails for the shape of the tree, which the parser
/// answers for: where it fails, the host language has refused the text of a
/// name, a literal or a type.
pub fn crisp(source: &str) -> (r: Result<TokenStream, CrispError>)
    ensures
        match r {
            Ok(ts) => crisp_outcome(source@) == Ok::<Seq<Tok>, CrispError>(stream_tokens(ts)),
            Err(e) => crisp_outcome(source@) == Err::<Seq<Tok>, CrispError>(e),
        },
        r matches Err(CrispError::Lower(e)) ==> is_host_refusal(e),
{
    proof {
        parsed_program_lowers(source@);
    }
    let nodes = match CrispParser::parse(Rule::Program, source) {
        Ok(nodes) => nodes,
        Err(e) => {
            return Err(CrispError::Parse(e));
        },
    };
    assert(crate::tree::trees(nodes@) =~= seq![nodes@[0]@]);
    match transpile_to_rust(&nodes) {
        Ok(ts) => Ok(ts),
        Err(e) => Err(CrispError::Lower(e)),
    }
}

} // verus!
