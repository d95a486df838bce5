//! The script front end: from script text to abstract instructions.

pub mod error;
pub mod instruction;
pub mod lexer;
pub mod parse;
pub mod token;

use crate::parser::error::ErrorView;
use crate::parser::lexer::lex_spec;
use crate::parser::parse::parsed;
use crate::parser::token::TokensView;
pub use instruction::{Dest, Instruction, Instructions, Source};
use vstd::prelude::*;

verus! {

/// What parsing a script gives: the error of the lexer where the script
/// does not lex, else what the parser makes of its tokens.
pub open spec fn parsed_text(src: Seq<char>, out: error::Result<Instructions>) -> bool {
    match lex_spec(src) {
        Err(failure) => out matches Err(e) && e@ == (ErrorView {
            kind: failure.kind,
            start: failure.at,
            end: failure.at,
            source: src,
        }),
        Ok((tokens, spans)) => parsed(
            TokensView { source: src, index: 0, taken: 0, tokens, spans },
            out,
        ),
    }
}

/// The instructions of the script `input`, or the first error in it.
pub fn parse<'a>(input: &'a str) -> (out: error::Result<Instructions>)
    ensures
        parsed_text(input@, out),
{
    let tokens = match lexer::lex(input) {
        Ok(tokens) => tokens,
        Err(e) => {
            return Err(e);
        },
    };
    parse::parse(tokens)
}

} // verus!
