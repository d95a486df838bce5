//! The front end as a whole: what a script and the files it loads are turned
//! into, and that nothing else decides it.

use crate::parser;
use crate::parser::lexer::lex_spec;
use crate::parser::parse::{failure_error, parse_from, parsed};
use crate::parser::parsed_text;
use crate::parser::token::TokensView;
use crate::ui;
use crate::ui::compile::{compiled, compiles_to, FileView};
use crate::ui::instructions::{instruction_views, Instruction, InstructionView};
use vstd::prelude::*;

verus! {

/// How the front end ends.
pub enum FrontEnd {
    /// The script does not lex or parse.
    Refused(parser::error::ErrorView),
    /// The script does not compile.
    Failed(ui::error::ErrorView),
    /// The script compiles to these instructions.
    Compiled(Seq<InstructionView>),
}

/// What the front end makes of a script and the files that it loads:
/// lexing, then parsing, then compiling.
pub open spec fn front_end(script: Seq<char>, files: Seq<FileView>) -> FrontEnd {
    match lex_spec(script) {
        Err(failure) => FrontEnd::Refused(
            parser::error::ErrorView {
                kind: failure.kind,
                start: failure.at,
                end: failure.at,
                source: script,
            },
        ),
        Ok((tokens, spans)) => match parse_from(tokens, 0) {
            Err(failure) => FrontEnd::Refused(
                failure_error(
                    TokensView { source: script, index: 0, taken: 0, tokens, spans },
                    failure,
                ),
            ),
            Ok(instructions) => match compiled(instructions, files) {
                Err(e) => FrontEnd::Failed(e),
                Ok(list) => FrontEnd::Compiled(list),
            },
        },
    }
}

/// How a run of the front end ended, where parsing handed back `parsed` and
/// compiling, if it came to that, `compiled`.
pub open spec fn ended(
    parsed: parser::error::Result<parser::Instructions>,
    compiled: Option<ui::error::Result<Vec<Instruction>>>,
) -> FrontEnd {
    match parsed {
        Err(e) => FrontEnd::Refused(e@),
        Ok(_) => match compiled {
            Some(Ok(list)) => FrontEnd::Compiled(instruction_views(list@)),
            Some(Err(e)) => FrontEnd::Failed(e@),
            None => arbitrary(),
        },
    }
}

/// Whether `parsed` and `compiled` are what one run of the front end hands
/// back for the script and the files: what `parse` hands back for the
/// script, and, where that is a list of instructions, what `compile` hands
/// back for the list and the files.
pub open spec fn is_run(
    script: Seq<char>,
    files: Seq<FileView>,
    parsed: parser::error::Result<parser::Instructions>,
    compiled: Option<ui::error::Result<Vec<Instruction>>>,
) -> bool {
    &&& parsed_text(script, parsed)
    &&& parsed matches Ok(list) ==> compiled matches Some(out) && compiles_to(list@, files, out)
}

/// Every run of the front end ends as [`front_end`] says.
pub proof fn lemma_front_end_is_a_function(
    script: Seq<char>,
    files: Seq<FileView>,
    parsed: parser::error::Result<parser::Instructions>,
    compiled: Option<ui::error::Result<Vec<Instruction>>>,
)
    requires
        is_run(script, files, parsed, compiled),
    ensures
        ended(parsed, compiled) == front_end(script, files),
{
}

/// The front end is deterministic: two runs on the same script, with the
/// same files, end the same way, with the same instructions or the same
/// error.
pub proof fn lemma_front_end_is_deterministic(
    script: Seq<char>,
    files: Seq<FileView>,
    parsed: parser::error::Result<parser::Instructions>,
    compiled: Option<ui::error::Result<Vec<Instruction>>>,
    parsed_again: parser::error::Result<parser::Instructions>,
    compiled_again: Option<ui::error::Result<Vec<Instruction>>>,
)
    requires
        is_run(script, files, parsed, compiled),
        is_run(script, files, parsed_again, compiled_again),
    ensures
        ended(parsed, compiled) == ended(parsed_again, compiled_again),
{
    lemma_front_end_is_a_function(script, files, parsed, compiled);
    lemma_front_end_is_a_function(script, files, parsed_again, compiled_again);
}

} // verus!
