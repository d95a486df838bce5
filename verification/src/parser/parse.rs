//! The parser: from a stream of tokens to the instructions of the script, one
//! for each line that holds one.

use crate::parser::error::{Error, ErrorKindView, ErrorView, Result};
use crate::parser::instruction::{
    instruction_views, Dest, DestView, Instruction, InstructionView, Instructions, Source,
    SourceView,
};
use crate::parser::token::{
    after_consume, lemma_skip_trivia, skip_trivia, span_pair, Token, TokenView, Tokens,
    TokensView,
};
use vstd::prelude::*;

verus! {

// -----------------------------------------------------------------------------
//   - The grammar -
// -----------------------------------------------------------------------------
/// Why and at which token parsing failed.
pub struct ParseFailure {
    pub kind: ErrorKindView,
    pub at: int,
}

/// The next significant token from the cursor `i` on, its index, and the
/// cursor behind it.
pub struct Arg {
    pub token: TokenView,
    pub at: int,
    pub next: int,
}

/// The argument that is read with the cursor at `i`.
pub open spec fn arg(tokens: Seq<TokenView>, i: int) -> Arg {
    let at = skip_trivia(tokens, i);
    Arg { token: tokens[at], at, next: after_consume(tokens, at) }
}

/// The failure of an argument that is not what the instruction takes.
pub open spec fn refuse(expected: Seq<char>, found: Arg) -> ParseFailure {
    ParseFailure {
        kind: ErrorKindView::InvalidArg { expected, found: found.token.text() },
        at: found.at,
    }
}

/// What a rule gives: what it read and the cursor behind it, or the failure.
pub type Outcome<T> = std::result::Result<(T, int), ParseFailure>;

/// An argument that has to be a string literal.
pub open spec fn string_arg(tokens: Seq<TokenView>, i: int, expected: Seq<char>) -> Outcome<
    Seq<char>,
> {
    let a = arg(tokens, i);
    match a.token {
        TokenView::Str(text) => Ok((text, a.next)),
        _ => Err(refuse(expected, a)),
    }
}

/// An argument that has to be an integer.
pub open spec fn int_arg(tokens: Seq<TokenView>, i: int, expected: Seq<char>) -> Outcome<i64> {
    let a = arg(tokens, i);
    match a.token {
        TokenView::Int(value) => Ok((value, a.next)),
        _ => Err(refuse(expected, a)),
    }
}

/// An argument that has to be a string literal or a name.
pub open spec fn source_arg(tokens: Seq<TokenView>, i: int, expected: Seq<char>) -> Outcome<
    SourceView,
> {
    let a = arg(tokens, i);
    match a.token {
        TokenView::Str(text) => Ok((SourceView::Str(text), a.next)),
        TokenView::Ident(name) => Ok((SourceView::Ident(name), a.next)),
        _ => Err(refuse(expected, a)),
    }
}

/// `load <string> as <ident>`
pub open spec fn load_rule(tokens: Seq<TokenView>, i: int) -> Outcome<InstructionView> {
    match string_arg(tokens, i, "string"@) {
        Err(failure) => Err(failure),
        Ok((path, after_path)) => {
            let word = arg(tokens, after_path);
            if word.token is As {
                let name = arg(tokens, word.next);
                match name.token {
                    TokenView::Ident(key) => Ok((InstructionView::Load(path, key), name.next)),
                    _ => Err(refuse("ident"@, name)),
                }
            } else {
                Err(refuse("as"@, word))
            }
        },
    }
}

/// `goto <ident>` or `goto <int> <int>`, a row and a column
pub open spec fn goto_rule(tokens: Seq<TokenView>, i: int) -> Outcome<InstructionView> {
    let first = arg(tokens, i);
    match first.token {
        TokenView::Ident(name) => Ok(
            (InstructionView::Goto(DestView::Marker(name)), first.next),
        ),
        TokenView::Int(row) => match int_arg(tokens, first.next, "number"@) {
            Ok((col, next)) => Ok(
                (
                    InstructionView::Goto(DestView::Relative { row: row as i32, col: col as i32 }),
                    next,
                ),
            ),
            Err(failure) => Err(failure),
        },
        _ => Err(refuse("ident"@, first)),
    }
}

/// `type <string|ident> [nonl]`, and `typenl` with a line feed in front
pub open spec fn print_rule(tokens: Seq<TokenView>, i: int, prefix_newline: bool) -> Outcome<
    InstructionView,
> {
    match source_arg(tokens, i, "ident"@) {
        Err(failure) => Err(failure),
        Ok((source, after_source)) => {
            let at = skip_trivia(tokens, after_source);
            let trim_trailing_newline = tokens[at] is NoNewline;
            Ok(
                (
                    InstructionView::Type { source, trim_trailing_newline, prefix_newline },
                    if trim_trailing_newline {
                        after_consume(tokens, at)
                    } else {
                        at
                    },
                ),
            )
        },
    }
}

/// `insert <string|ident>`
pub open spec fn insert_rule(tokens: Seq<TokenView>, i: int) -> Outcome<InstructionView> {
    match source_arg(tokens, i, "ident"@) {
        Ok((source, next)) => Ok((InstructionView::Insert(source), next)),
        Err(failure) => Err(failure),
    }
}

/// `replace <string> <string|ident>`
pub open spec fn change_rule(tokens: Seq<TokenView>, i: int) -> Outcome<InstructionView> {
    match string_arg(tokens, i, "string"@) {
        Err(failure) => Err(failure),
        Ok((src, after_src)) => match source_arg(tokens, after_src, "string or ident"@) {
            Ok((replacement, next)) => Ok((InstructionView::Replace { src, replacement }, next)),
            Err(failure) => Err(failure),
        },
    }
}

/// `select <int> <int>`, a width and a height
pub open spec fn select_rule(tokens: Seq<TokenView>, i: int) -> Outcome<InstructionView> {
    match int_arg(tokens, i, "ident or row"@) {
        Err(failure) => Err(failure),
        Ok((width, after_width)) => match int_arg(tokens, after_width, "number"@) {
            Ok((height, next)) => Ok(
                (InstructionView::Select { width: width as u16, height: height as u16 }, next),
            ),
            Err(failure) => Err(failure),
        },
    }
}

/// `numbers <bool>`
pub open spec fn numbers_rule(tokens: Seq<TokenView>, i: int) -> Outcome<InstructionView> {
    let a = arg(tokens, i);
    match a.token {
        TokenView::Bool(show) => Ok((InstructionView::ShowLineNumbers(show), a.next)),
        _ => Err(refuse("boolean"@, a)),
    }
}

/// The instructions that take one string literal.
pub open spec fn string_rule(
    tokens: Seq<TokenView>,
    i: int,
    keyword: TokenView,
) -> Outcome<InstructionView> {
    match string_arg(
        tokens,
        i,
        if keyword is Theme {
            "boolean"@
        } else {
            "string"@
        },
    ) {
        Err(failure) => Err(failure),
        Ok((text, next)) => Ok(
            (
                match keyword {
                    TokenView::Find => InstructionView::Find(text),
                    TokenView::SetExtension => InstructionView::SetExtension(text),
                    TokenView::SetTitle => InstructionView::SetTitle(text),
                    _ => InstructionView::SetTheme(text),
                },
                next,
            ),
        ),
    }
}

/// The instructions that take one integer. A negative one wraps around.
pub open spec fn int_rule(tokens: Seq<TokenView>, i: int, keyword: TokenView) -> Outcome<
    InstructionView,
> {
    match int_arg(
        tokens,
        i,
        match keyword {
            TokenView::Jitter => "boolean"@,
            TokenView::Wait => "seconds"@,
            _ => "int"@,
        },
    ) {
        Err(failure) => Err(failure),
        Ok((value, next)) => Ok(
            (
                match keyword {
                    TokenView::Speed => InstructionView::Speed(value as u64),
                    TokenView::LinePause => InstructionView::LinePause(value as u64),
                    TokenView::Jitter => InstructionView::Jitter(value as u64),
                    _ => InstructionView::Wait(value as u64),
                },
                next,
            ),
        ),
    }
}

/// The instruction that is read with the cursor at `i`: a keyword, and what
/// the keyword takes.
pub open spec fn instruction_rule(tokens: Seq<TokenView>, i: int) -> Outcome<InstructionView> {
    let keyword = arg(tokens, i);
    match keyword.token {
        TokenView::Load => load_rule(tokens, keyword.next),
        TokenView::Goto => goto_rule(tokens, keyword.next),
        TokenView::Type => print_rule(tokens, keyword.next, false),
        TokenView::TypeNl => print_rule(tokens, keyword.next, true),
        TokenView::Insert => insert_rule(tokens, keyword.next),
        TokenView::Replace => change_rule(tokens, keyword.next),
        TokenView::Delete => Ok((InstructionView::Delete, keyword.next)),
        TokenView::Speed => int_rule(tokens, keyword.next, keyword.token),
        TokenView::Select => select_rule(tokens, keyword.next),
        TokenView::Find => string_rule(tokens, keyword.next, keyword.token),
        TokenView::LinePause => int_rule(tokens, keyword.next, keyword.token),
        TokenView::SetExtension => string_rule(tokens, keyword.next, keyword.token),
        TokenView::SetTitle => string_rule(tokens, keyword.next, keyword.token),
        TokenView::ShowLineNumbers => numbers_rule(tokens, keyword.next),
        TokenView::Clear => Ok((InstructionView::Clear, keyword.next)),
        TokenView::Jitter => int_rule(tokens, keyword.next, keyword.token),
        TokenView::Theme => string_rule(tokens, keyword.next, keyword.token),
        TokenView::Wait => int_rule(tokens, keyword.next, keyword.token),
        _ => Err(
            ParseFailure {
                kind: ErrorKindView::InvalidInstruction(keyword.token),
                at: keyword.at,
            },
        ),
    }
}

/// A stream that parsing can walk: it is not empty and ends with end-of-input.
pub open spec fn walkable(tokens: Seq<TokenView>) -> bool {
    tokens.len() > 0 && tokens.last() is Eof
}

/// The instructions from the cursor `i` on.
///
/// Line feeds, comments and whitespace between instructions are passed over,
/// end-of-input ends the script. Behind an instruction stands a line feed or
/// end-of-input; any other token there is refused as unexpected.
pub open spec fn parse_from(tokens: Seq<TokenView>, i: int) -> std::result::Result<
    Seq<InstructionView>,
    ParseFailure,
>
    decreases tokens.len() - i,
    when walkable(tokens) && 0 <= i < tokens.len()
{
    let current = tokens[i];
    if current is Newline || current.is_trivia() {
        proof {
            lemma_skip_trivia(tokens, i + 1);
        }
        parse_from(tokens, after_consume(tokens, i))
    } else if current is Eof {
        Ok(Seq::empty())
    } else {
        match instruction_rule(tokens, i) {
            Err(failure) => Err(failure),
            Ok((instruction, behind)) => {
                proof {
                    lemma_rule_advances(tokens, i);
                    lemma_skip_trivia(tokens, behind);
                }
                let end = arg(tokens, behind);
                if end.token is Newline {
                    proof {
                        lemma_skip_trivia(tokens, end.at + 1);
                    }
                    match parse_from(tokens, end.next) {
                        Ok(rest) => Ok(seq![instruction] + rest),
                        Err(failure) => Err(failure),
                    }
                } else if end.token is Eof {
                    Ok(seq![instruction])
                } else {
                    Err(
                        ParseFailure {
                            kind: ErrorKindView::UnexpectedToken {
                                expected: "newline or end of file"@,
                                found: end.token.text(),
                            },
                            at: end.at,
                        },
                    )
                }
            },
        }
    }
}

/// An argument is read inside the stream, and the cursor behind it stays inside.
pub proof fn lemma_arg(tokens: Seq<TokenView>, i: int)
    requires
        walkable(tokens),
        0 <= i < tokens.len(),
    ensures
        i <= arg(tokens, i).at < tokens.len(),
        arg(tokens, i).at <= arg(tokens, i).next < tokens.len(),
        !arg(tokens, i).token.is_trivia(),
        arg(tokens, i).at < tokens.len() - 1 ==> arg(tokens, i).at < arg(tokens, i).next,
{
    lemma_skip_trivia(tokens, i);
    let at = skip_trivia(tokens, i);
    if at < tokens.len() - 1 {
        lemma_skip_trivia(tokens, at + 1);
    }
}

/// An instruction that was read moved the cursor on, and left it inside the stream.
pub proof fn lemma_rule_advances(tokens: Seq<TokenView>, i: int)
    requires
        walkable(tokens),
        0 <= i < tokens.len(),
    ensures
        instruction_rule(tokens, i) matches Ok((_, behind)) ==> i < behind < tokens.len(),
{
    lemma_arg(tokens, i);
    let keyword = arg(tokens, i);
    let a = arg(tokens, keyword.next);
    lemma_arg(tokens, keyword.next);
    lemma_arg(tokens, a.next);
    let b = arg(tokens, a.next);
    lemma_arg(tokens, b.next);
    lemma_skip_trivia(tokens, a.next);
    let at = skip_trivia(tokens, a.next);
    if at < tokens.len() - 1 {
        lemma_skip_trivia(tokens, at + 1);
    }
}

/// The instructions of a stream, read from its cursor on.
pub open spec fn parse_spec(stream: TokensView) -> std::result::Result<
    Seq<InstructionView>,
    ParseFailure,
> {
    parse_from(stream.tokens, stream.index)
}

/// The error that a failure at a token of `stream` is reported as: it starts
/// at the span of the offending token and ends at the span of the token
/// behind it.
pub open spec fn failure_error(stream: TokensView, failure: ParseFailure) -> ErrorView {
    ErrorView {
        kind: failure.kind,
        start: span_pair(stream.spans, failure.at).0,
        end: span_pair(stream.spans, failure.at).1,
        source: stream.source,
    }
}

/// What the parser hands back for a stream.
pub open spec fn parsed(stream: TokensView, out: Result<Instructions>) -> bool {
    match parse_spec(stream) {
        Ok(instructions) => out matches Ok(all) && all@ == instructions,
        Err(failure) => out matches Err(e) && e@ == failure_error(stream, failure),
    }
}

// -----------------------------------------------------------------------------
//   - The parser -
// -----------------------------------------------------------------------------
/// The stream `after` is the stream `before` with the cursor at `next`.
pub open spec fn moved(before: TokensView, after: TokensView, next: int) -> bool {
    &&& after.source == before.source
    &&& after.tokens == before.tokens
    &&& after.spans == before.spans
    &&& after.index == next
}

/// `out` is what the outcome `expected` of a rule asks for, read from the
/// stream `before`, which is left as `after`.
pub open spec fn follows<T: View>(
    before: TokensView,
    after: TokensView,
    expected: Outcome<T::V>,
    out: Result<T>,
) -> bool {
    match expected {
        Ok((value, next)) => out matches Ok(read) && read@ == value && moved(before, after, next),
        Err(failure) => out matches Err(e) && e@ == failure_error(before, failure),
    }
}

struct Parser<'src> {
    tokens: Tokens<'src>,
}

impl<'src> Parser<'src> {
    fn new(tokens: Tokens<'src>) -> (out: Self)
        ensures
            out.tokens == tokens,
    {
        Self { tokens }
    }

    fn parse(&mut self) -> (out: Result<Instructions>)
        ensures
            parsed(old(self).tokens@, out),
    {
        let mut instructions: Vec<Instruction> = vec![];
        let ghost start = self.tokens@;
        let ghost all = start.tokens;
        let ghost whole = parse_spec(start);
        proof {
            use_type_invariant(&self.tokens);
            lemma_join_nothing(parse_from(all, start.index));
        }
        loop
            invariant
                self.tokens@.wf(),
                moved(start, self.tokens@, self.tokens@.index),
                start == old(self).tokens@,
                all == start.tokens,
                whole == parse_spec(start),
                whole == join(
                    instruction_views(instructions@),
                    parse_from(all, self.tokens@.index),
                ),
            decreases all.len() - self.tokens@.index,
        {
            let ghost i = self.tokens@.index;
            let skip = match self.tokens.current() {
                Token::Newline | Token::Comment | Token::Whitespace => true,
                _ => false,
            };
            if skip {
                proof {
                    lemma_skip_trivia(all, i + 1);
                }
                self.tokens.consume();
                proof {
                    use_type_invariant(&self.tokens);
                }
                continue ;
            }
            let end = match self.tokens.current() {
                Token::Eof => true,
                _ => false,
            };
            if end {
                proof {
                    assert(instruction_views(instructions@) + Seq::<InstructionView>::empty()
                        =~= instruction_views(instructions@));
                }
                return Ok(Instructions::new(instructions));
            }
            let inst = match self.next_instruction() {
                Ok(inst) => inst,
                Err(e) => {
                    return Err(e);
                },
            };
            let ghost behind = self.tokens@.index;
            let ghost before = instruction_views(instructions@);
            instructions.push(inst);
            proof {
                use_type_invariant(&self.tokens);
                lemma_rule_advances(all, i);
                lemma_arg(all, behind);
                assert(instruction_views(instructions@) =~= before.push(inst@));
                lemma_join_one(before, all, i);
            }
            match self.tokens.take() {
                Token::Newline | Token::Comment | Token::Whitespace => {
                    proof {
                        use_type_invariant(&self.tokens);
                    }
                    continue ;
                },
                Token::Eof => {
                    return Ok(Instructions::new(instructions));
                },
                token => {
                    return Error::unexpected_token(
                        "newline or end of file",
                        token,
                        self.tokens.taken_spans(),
                        self.tokens.source(),
                    );
                },
            }
            // there has to be either newline OR eof here

        }
    }

    fn next_instruction(&mut self) -> (out: Result<Instruction>)
        ensures
            follows(
                old(self).tokens@,
                final(self).tokens@,
                instruction_rule(old(self).tokens@.tokens, old(self).tokens@.index),
                out,
            ),
    {
        match self.tokens.take() {
            Token::Load => self.load(),
            Token::Goto => self.goto(),
            Token::Type => self.print(false),
            Token::TypeNl => self.print(true),
            Token::Insert => self.insert(),
            Token::Replace => self.change(),
            Token::Delete => self.delete(),
            Token::Speed => self.speed(),
            Token::Select => self.select(),
            Token::Find => self.find(),
            Token::LinePause => self.linepause(),
            Token::SetExtension => self.set_extension(),
            Token::SetTitle => self.set_title(),
            Token::ShowLineNumbers => self.numbers(),
            Token::Clear => self.clear(),
            Token::Jitter => self.jitter(),
            Token::Theme => self.theme(),
            Token::Wait => self.wait(),
            token => Error::invalid_instruction(
                token,
                self.tokens.taken_spans(),
                self.tokens.source(),
            ),
        }
    }

    /// Takes an argument that has to be a string literal.
    fn take_string(&mut self, expected: &'static str) -> (out: Result<String>)
        ensures
            follows(
                old(self).tokens@,
                final(self).tokens@,
                string_arg(old(self).tokens@.tokens, old(self).tokens@.index, expected@),
                out,
            ),
    {
        match self.tokens.take() {
            Token::Str(text) => Ok(text),
            token => Error::invalid_arg(
                expected,
                token,
                self.tokens.taken_spans(),
                self.tokens.source(),
            ),
        }
    }

    /// Takes an argument that has to be an integer.
    fn take_int(&mut self, expected: &'static str) -> (out: Result<i64>)
        ensures
            follows(
                old(self).tokens@,
                final(self).tokens@,
                int_arg(old(self).tokens@.tokens, old(self).tokens@.index, expected@),
                out,
            ),
    {
        match self.tokens.take() {
            Token::Int(value) => Ok(value),
            token => Error::invalid_arg(
                expected,
                token,
                self.tokens.taken_spans(),
                self.tokens.source(),
            ),
        }
    }

    /// Takes an argument that has to be a string literal or a name.
    fn take_source(&mut self, expected: &'static str) -> (out: Result<Source>)
        ensures
            follows(
                old(self).tokens@,
                final(self).tokens@,
                source_arg(old(self).tokens@.tokens, old(self).tokens@.index, expected@),
                out,
            ),
    {
        match self.tokens.take() {
            Token::Str(s) => Ok(Source::Str(s)),
            Token::Ident(ident) => Ok(Source::Ident(ident)),
            token => Error::invalid_arg(
                expected,
                token,
                self.tokens.taken_spans(),
                self.tokens.source(),
            ),
        }
    }

    fn load(&mut self) -> (out: Result<Instruction>)
        ensures
            follows(
                old(self).tokens@,
                final(self).tokens@,
                load_rule(old(self).tokens@.tokens, old(self).tokens@.index),
                out,
            ),
    {
        let path = match self.take_string("string") {
            Ok(path) => path,
            Err(e) => {
                return Err(e);
            },
        };
        match self.tokens.take() {
            Token::As => match self.tokens.take() {
                Token::Ident(key) => Ok(Instruction::Load(path, key)),
                token => {
                    return Error::invalid_arg(
                        "ident",
                        token,
                        self.tokens.taken_spans(),
                        self.tokens.source(),
                    );
                },
            },
            token => {
                return Error::invalid_arg(
                    "as",
                    token,
                    self.tokens.taken_spans(),
                    self.tokens.source(),
                );
            },
        }
    }

    fn goto(&mut self) -> (out: Result<Instruction>)
        ensures
            follows(
                old(self).tokens@,
                final(self).tokens@,
                goto_rule(old(self).tokens@.tokens, old(self).tokens@.index),
                out,
            ),
    {
        // goto <ident>|<int> <int>
        // <ident>
        let instr = match self.tokens.take() {
            Token::Ident(ident) => Instruction::Goto(Dest::Marker(ident)),
            Token::Int(row) => match self.take_int("number") {
                Ok(col) => Instruction::Goto(
                    Dest::Relative {
                        row: #[verifier::truncate]
                        (row as i32),
                        col: #[verifier::truncate]
                        (col as i32),
                    },
                ),
                Err(e) => {
                    return Err(e);
                },
            },
            token => {
                return Error::invalid_arg(
                    "ident",
                    token,
                    self.tokens.taken_spans(),
                    self.tokens.source(),
                );
            },
        };
        Ok(instr)
    }

    fn print(&mut self, prefix_newline: bool) -> (out: Result<Instruction>)
        ensures
            follows(
                old(self).tokens@,
                final(self).tokens@,
                print_rule(old(self).tokens@.tokens, old(self).tokens@.index, prefix_newline),
                out,
            ),
    {
        let source = match self.take_source("ident") {
            Ok(source) => source,
            Err(e) => {
                return Err(e);
            },
        };
        let trim_trailing_newline = self.tokens.consume_if(Token::NoNewline);
        Ok(Instruction::Type { source, trim_trailing_newline, prefix_newline })
    }

    fn insert(&mut self) -> (out: Result<Instruction>)
        ensures
            follows(
                old(self).tokens@,
                final(self).tokens@,
                insert_rule(old(self).tokens@.tokens, old(self).tokens@.index),
                out,
            ),
    {
        match self.take_source("ident") {
            Ok(source) => Ok(Instruction::Insert(source)),
            Err(e) => Err(e),
        }
    }

    fn change(&mut self) -> (out: Result<Instruction>)
        ensures
            follows(
                old(self).tokens@,
                final(self).tokens@,
                change_rule(old(self).tokens@.tokens, old(self).tokens@.index),
                out,
            ),
    {
        // <string>
        let src = match self.take_string("string") {
            Ok(string) => string,
            Err(e) => {
                return Err(e);
            },
        };
        // <string|ident>
        let replacement = match self.take_source("string or ident") {
            Ok(source) => source,
            Err(e) => {
                return Err(e);
            },
        };
        let instr = Instruction::Replace { src, replacement };
        Ok(instr)
    }

    fn delete(&mut self) -> (out: Result<Instruction>)
        ensures
            out matches Ok(i) && i@ == InstructionView::Delete,
            final(self).tokens@ == old(self).tokens@,
    {
        Ok(Instruction::Delete)
    }

    fn speed(&mut self) -> (out: Result<Instruction>)
        ensures
            follows(
                old(self).tokens@,
                final(self).tokens@,
                int_rule(old(self).tokens@.tokens, old(self).tokens@.index, TokenView::Speed),
                out,
            ),
    {
        // <int>
        match self.take_int("int") {
            Ok(speed) => Ok(Instruction::Speed(#[verifier::truncate] (speed as u64))),
            Err(e) => Err(e),
        }
    }

    fn select(&mut self) -> (out: Result<Instruction>)
        ensures
            follows(
                old(self).tokens@,
                final(self).tokens@,
                select_rule(old(self).tokens@.tokens, old(self).tokens@.index),
                out,
            ),
    {
        let width = match self.take_int("ident or row") {
            Ok(width) => width,
            Err(e) => {
                return Err(e);
            },
        };
        let height = match self.take_int("number") {
            Ok(height) => height,
            Err(e) => {
                return Err(e);
            },
        };
        Ok(
            Instruction::Select {
                width: #[verifier::truncate]
                (width as u16),
                height: #[verifier::truncate]
                (height as u16),
            },
        )
    }

    fn find(&mut self) -> (out: Result<Instruction>)
        ensures
            follows(
                old(self).tokens@,
                final(self).tokens@,
                string_rule(old(self).tokens@.tokens, old(self).tokens@.index, TokenView::Find),
                out,
            ),
    {
        match self.take_string("string") {
            Ok(needle) => Ok(Instruction::Find(needle)),
            Err(e) => Err(e),
        }
    }

    fn linepause(&mut self) -> (out: Result<Instruction>)
        ensures
            follows(
                old(self).tokens@,
                final(self).tokens@,
                int_rule(
                    old(self).tokens@.tokens,
                    old(self).tokens@.index,
                    TokenView::LinePause,
                ),
                out,
            ),
    {
        match self.take_int("int") {
            Ok(ms) => Ok(Instruction::LinePause(#[verifier::truncate] (ms as u64))),
            Err(e) => Err(e),
        }
    }

    fn set_extension(&mut self) -> (out: Result<Instruction>)
        ensures
            follows(
                old(self).tokens@,
                final(self).tokens@,
                string_rule(
                    old(self).tokens@.tokens,
                    old(self).tokens@.index,
                    TokenView::SetExtension,
                ),
                out,
            ),
    {
        match self.take_string("string") {
            Ok(ext) => Ok(Instruction::SetExtension(ext)),
            Err(e) => Err(e),
        }
    }

    fn set_title(&mut self) -> (out: Result<Instruction>)
        ensures
            follows(
                old(self).tokens@,
                final(self).tokens@,
                string_rule(
                    old(self).tokens@.tokens,
                    old(self).tokens@.index,
                    TokenView::SetTitle,
                ),
                out,
            ),
    {
        match self.take_string("string") {
            Ok(title) => Ok(Instruction::SetTitle(title)),
            Err(e) => Err(e),
        }
    }

    fn numbers(&mut self) -> (out: Result<Instruction>)
        ensures
            follows(
                old(self).tokens@,
                final(self).tokens@,
                numbers_rule(old(self).tokens@.tokens, old(self).tokens@.index),
                out,
            ),
    {
        let instr = match self.tokens.take() {
            Token::Bool(b) => Instruction::ShowLineNumbers(b),
            token => {
                return Error::invalid_arg(
                    "boolean",
                    token,
                    self.tokens.taken_spans(),
                    self.tokens.source(),
                );
            },
        };
        Ok(instr)
    }

    fn clear(&mut self) -> (out: Result<Instruction>)
        ensures
            out matches Ok(i) && i@ == InstructionView::Clear,
            final(self).tokens@ == old(self).tokens@,
    {
        Ok(Instruction::Clear)
    }

    fn jitter(&mut self) -> (out: Result<Instruction>)
        ensures
            follows(
                old(self).tokens@,
                final(self).tokens@,
                int_rule(old(self).tokens@.tokens, old(self).tokens@.index, TokenView::Jitter),
                out,
            ),
    {
        match self.take_int("boolean") {
            Ok(jitter) => Ok(Instruction::Jitter(#[verifier::truncate] (jitter as u64))),
            Err(e) => Err(e),
        }
    }

    fn theme(&mut self) -> (out: Result<Instruction>)
        ensures
            follows(
                old(self).tokens@,
                final(self).tokens@,
                string_rule(old(self).tokens@.tokens, old(self).tokens@.index, TokenView::Theme),
                out,
            ),
    {
        match self.take_string("boolean") {
            Ok(theme) => Ok(Instruction::SetTheme(theme)),
            Err(e) => Err(e),
        }
    }

    fn wait(&mut self) -> (out: Result<Instruction>)
        ensures
            follows(
                old(self).tokens@,
                final(self).tokens@,
                int_rule(old(self).tokens@.tokens, old(self).tokens@.index, TokenView::Wait),
                out,
            ),
    {
        match self.take_int("seconds") {
            Ok(seconds) => Ok(Instruction::Wait(#[verifier::truncate] (seconds as u64))),
            Err(e) => Err(e),
        }
    }
}

/// The instructions that were read before, followed by those that are read from here on.
pub open spec fn join(
    before: Seq<InstructionView>,
    rest: std::result::Result<Seq<InstructionView>, ParseFailure>,
) -> std::result::Result<Seq<InstructionView>, ParseFailure> {
    match rest {
        Ok(more) => Ok(before + more),
        Err(failure) => Err(failure),
    }
}

/// Nothing read before changes nothing.
pub proof fn lemma_join_nothing(rest: std::result::Result<Seq<InstructionView>, ParseFailure>)
    ensures
        join(Seq::empty(), rest) == rest,
{
    if let Ok(more) = rest {
        assert(Seq::<InstructionView>::empty() + more =~= more);
    }
}

/// An instruction that was read, with a line feed behind it, moves from what
/// follows to what was read before.
pub proof fn lemma_join_one(before: Seq<InstructionView>, tokens: Seq<TokenView>, i: int)
    requires
        walkable(tokens),
        0 <= i < tokens.len(),
        !(tokens[i] is Newline || tokens[i].is_trivia() || tokens[i] is Eof),
    ensures
        instruction_rule(tokens, i) matches Ok((instruction, behind)) ==> ({
            let end = arg(tokens, behind);
            &&& end.token is Newline ==> join(before, parse_from(tokens, i)) == join(
                before.push(instruction),
                parse_from(tokens, end.next),
            )
            &&& end.token is Eof ==> join(before, parse_from(tokens, i)) == Ok::<
                Seq<InstructionView>,
                ParseFailure,
            >(before.push(instruction))
        }),
{
    if let Ok((instruction, behind)) = instruction_rule(tokens, i) {
        let end = arg(tokens, behind);
        lemma_rule_advances(tokens, i);
        lemma_arg(tokens, behind);
        if end.token is Newline {
            if let Ok(rest) = parse_from(tokens, end.next) {
                assert(before + (seq![instruction] + rest) =~= before.push(instruction) + rest);
            }
        } else if end.token is Eof {
            assert(before + seq![instruction] =~= before.push(instruction));
        }
    }
}

/// The instructions that the tokens spell, or the first error in them.
pub fn parse(tokens: Tokens<'_>) -> (out: Result<Instructions>)
    ensures
        parsed(tokens@, out),
{
    Parser::new(tokens).parse()
}

} // verus!
