//! What can go wrong while a script is read, and where.

use crate::parser::token::{Span, Token, TokenView};
use crate::text::{
    chars_of, digits, lemma_line_stop, line_stop, push_digits, row_start, start_of_row,
    string_of,
};
use vstd::prelude::*;
use vstd::string::StringExecFns;

verus! {

pub type Result<T> = std::result::Result<T, Error>;

/// The reason a script was refused.
#[derive(Debug)]
pub enum ErrorKind {
    // Lex errors
    UnterminatedString,
    InvalidInteger,
    // Parse errors
    InvalidArg { expected: &'static str, found: String },
    InvalidInstruction(Token),
    UnexpectedToken { expected: &'static str, found: String },
}

/// What an [`ErrorKind`] stands for.
pub enum ErrorKindView {
    UnterminatedString,
    InvalidInteger,
    InvalidArg { expected: Seq<char>, found: Seq<char> },
    InvalidInstruction(TokenView),
    UnexpectedToken { expected: Seq<char>, found: Seq<char> },
}

impl View for ErrorKind {
    type V = ErrorKindView;

    open spec fn view(&self) -> ErrorKindView {
        match *self {
            ErrorKind::UnterminatedString => ErrorKindView::UnterminatedString,
            ErrorKind::InvalidInteger => ErrorKindView::InvalidInteger,
            ErrorKind::InvalidArg { expected, found } => ErrorKindView::InvalidArg {
                expected: expected@,
                found: found@,
            },
            ErrorKind::InvalidInstruction(token) => ErrorKindView::InvalidInstruction(token@),
            ErrorKind::UnexpectedToken { expected, found } => ErrorKindView::UnexpectedToken {
                expected: expected@,
                found: found@,
            },
        }
    }
}

impl ErrorKindView {
    /// The one-line description of the reason.
    pub open spec fn text(self) -> Seq<char> {
        match self {
            ErrorKindView::UnterminatedString => "unterminated string"@,
            ErrorKindView::InvalidInteger => "invalid integer"@,
            ErrorKindView::InvalidArg { expected, found } => "expected `"@ + expected
                + "`, found `"@ + found + "`"@,
            ErrorKindView::InvalidInstruction(token) => "invalid instruction: `"@ + token.text()
                + "`"@,
            ErrorKindView::UnexpectedToken { expected, found } => "unexpected token, `"@
                + expected + "`, found `"@ + found + "`"@,
        }
    }
}

impl ErrorKind {
    /// The one-line description of the reason.
    pub fn to_string(&self) -> (out: String)
        ensures
            out@ == self@.text(),
    {
        match self {
            ErrorKind::UnterminatedString => String::from_str("unterminated string"),
            ErrorKind::InvalidInteger => String::from_str("invalid integer"),
            ErrorKind::InvalidArg { expected, found } => {
                let mut out = String::from_str("expected `");
                out.append(expected);
                out.append("`, found `");
                out.append(found.as_str());
                out.append("`");
                out
            },
            ErrorKind::InvalidInstruction(token) => {
                let mut out = String::from_str("invalid instruction: `");
                let shown = token.to_string();
                out.append(shown.as_str());
                out.append("`");
                out
            },
            ErrorKind::UnexpectedToken { expected, found } => {
                let mut out = String::from_str("unexpected token, `");
                out.append(expected);
                out.append("`, found `");
                out.append(found.as_str());
                out.append("`");
                out
            },
        }
    }
}

/// A refused script: the reason, the place, and the script itself.
#[derive(Debug)]
pub struct Error {
    kind: ErrorKind,
    start: Span,
    end: Span,
    source: String,
}

/// What an [`Error`] stands for.
pub struct ErrorView {
    pub kind: ErrorKindView,
    pub start: Span,
    pub end: Span,
    pub source: Seq<char>,
}

impl View for Error {
    type V = ErrorView;

    closed spec fn view(&self) -> ErrorView {
        ErrorView { kind: self.kind@, start: self.start, end: self.end, source: self.source@ }
    }
}

impl Error {
    fn err<T>(kind: ErrorKind, spans: (Span, Span), source: &str) -> (out: Result<T>)
        ensures
            out matches Err(e) && e@ == (ErrorView {
                kind: kind@,
                start: spans.0,
                end: spans.1,
                source: source@,
            }),
    {
        let error = Error { kind, start: spans.0, end: spans.1, source: source.to_owned() };
        Err(error)
    }

    // -----------------------------------------------------------------------------
    //   - Lex errors -
    // -----------------------------------------------------------------------------
    pub(crate) fn invalid_int<T>(span: Span, source: &str) -> (out: Result<T>)
        ensures
            out matches Err(e) && e@ == (ErrorView {
                kind: ErrorKindView::InvalidInteger,
                start: span,
                end: span,
                source: source@,
            }),
    {
        Self::err(ErrorKind::InvalidInteger, (span, span), source)
    }

    pub(crate) fn unterminated_string<T>(span: Span, source: &str) -> (out: Result<T>)
        ensures
            out matches Err(e) && e@ == (ErrorView {
                kind: ErrorKindView::UnterminatedString,
                start: span,
                end: span,
                source: source@,
            }),
    {
        Self::err(ErrorKind::UnterminatedString, (span, span), source)
    }

    // -----------------------------------------------------------------------------
    //   - Parse errors -
    // -----------------------------------------------------------------------------
    pub(crate) fn invalid_instruction<T>(token: Token, spans: (Span, Span), source: &str) -> (out:
        Result<T>)
        ensures
            out matches Err(e) && e@ == (ErrorView {
                kind: ErrorKindView::InvalidInstruction(token@),
                start: spans.0,
                end: spans.1,
                source: source@,
            }),
    {
        Self::err(ErrorKind::InvalidInstruction(token), spans, source)
    }

    pub(crate) fn invalid_arg<T>(
        expected: &'static str,
        token: Token,
        spans: (Span, Span),
        source: &str,
    ) -> (out: Result<T>)
        ensures
            out matches Err(e) && e@ == (ErrorView {
                kind: ErrorKindView::InvalidArg { expected: expected@, found: token@.text() },
                start: spans.0,
                end: spans.1,
                source: source@,
            }),
    {
        Self::err(ErrorKind::InvalidArg { expected, found: token.to_string() }, spans, source)
    }

    pub(crate) fn unexpected_token<T>(
        expected: &'static str,
        token: Token,
        spans: (Span, Span),
        source: &str,
    ) -> (out: Result<T>)
        ensures
            out matches Err(e) && e@ == (ErrorView {
                kind: ErrorKindView::UnexpectedToken { expected: expected@, found: token@.text() },
                start: spans.0,
                end: spans.1,
                source: source@,
            }),
    {
        Self::err(ErrorKind::UnexpectedToken { expected, found: token.to_string() }, spans, source)
    }

    /// The reason.
    pub fn kind(&self) -> (kind: &ErrorKind)
        ensures
            kind@ == self@.kind,
    {
        &self.kind
    }

    /// The place the error starts at, and the place of what follows.
    pub fn spans(&self) -> (spans: (Span, Span))
        ensures
            spans.0 == self@.start,
            spans.1 == self@.end,
    {
        (self.start, self.end)
    }
}

// -----------------------------------------------------------------------------
//   - The excerpt -
// -----------------------------------------------------------------------------
/// The text of the line with the index `k`, without its line ending: a line
/// feed, or a carriage return and a line feed.
pub open spec fn line_text(source: Seq<char>, k: int) -> Seq<char> {
    let start = row_start(source, k);
    let stop = line_stop(source, start);
    if start < stop < source.len() && source[stop - 1] == '\r' {
        source.subrange(start, stop - 1)
    } else {
        source.subrange(start, stop)
    }
}

/// So many spaces; none for a number that is not positive.
pub open spec fn spaces(n: int) -> Seq<char> {
    Seq::new(
        if n > 0 {
            n as nat
        } else {
            0
        },
        |i: int| ' ',
    )
}

/// The index of the first line that is shown: the line before the one the
/// error starts on.
pub open spec fn first_shown(e: ErrorView) -> int {
    if e.start.line >= 2 {
        e.start.line - 2
    } else {
        0
    }
}

/// The number of lines that are shown at most: the lines the error spans,
/// and three at least.
pub open spec fn shown_count(e: ErrorView) -> int {
    if e.end.line - e.start.line + 1 > 3 {
        e.end.line - e.start.line + 1
    } else {
        3
    }
}

/// The width that line numbers are padded to.
pub open spec fn number_width(e: ErrorView) -> int {
    digits((first_shown(e) + shown_count(e) - 1) as nat).len() as int
}

/// What stands before the line with the index `k`: its number, counted from
/// one and padded with spaces on the left, a colon and a space.
pub open spec fn gutter(k: int, width: int) -> Seq<char> {
    spaces(width - digits((k + 1) as nat).len()) + digits((k + 1) as nat) + seq![':', ' ']
}

/// The line with the index `k` as it is shown; below the line that the error
/// starts on stands a caret under the column the error starts at, and the
/// reason behind it.
pub open spec fn shown_line(e: ErrorView, k: int, width: int) -> Seq<char> {
    gutter(k, width) + line_text(e.source, k) + seq!['\n'] + if k + 1 == e.start.line {
        spaces(gutter(k, width).len() + e.start.col - 1) + seq!['^', '-', '-', ' ']
            + e.kind.text() + seq!['\n']
    } else {
        Seq::empty()
    }
}

/// The lines from the index `k` up to the index `end` as they are shown, as
/// far as the script has them.
pub open spec fn shown_lines(e: ErrorView, k: int, end: int, width: int) -> Seq<char>
    decreases end - k,
{
    if k < 0 || k >= end || row_start(e.source, k) >= e.source.len() {
        Seq::empty()
    } else {
        shown_line(e, k, width) + shown_lines(e, k + 1, end, width)
    }
}

/// The error as it is shown: an empty line, and then the excerpt of the script.
pub open spec fn rendered(e: ErrorView) -> Seq<char> {
    seq!['\n'] + shown_lines(
        e,
        first_shown(e),
        first_shown(e) + shown_count(e),
        number_width(e),
    )
}

/// A number of the size of a line number has six digits at most.
pub proof fn lemma_digits_len(n: nat)
    requires
        n <= 0x2_0000,
    ensures
        1 <= digits(n).len() <= 6,
{
    reveal_with_fuel(digits, 7);
}

/// Writes `n` spaces at the end of `out`.
fn push_spaces(out: &mut Vec<char>, n: usize)
    ensures
        final(out)@ == old(out)@ + spaces(n as int),
{
    let mut i: usize = 0;
    assert(out@ =~= old(out)@ + spaces(0));
    while i < n
        invariant
            i <= n,
            out@ == old(out)@ + spaces(i as int),
        decreases n - i,
    {
        out.push(' ');
        i += 1;
        assert(out@ =~= old(out)@ + spaces(i as int));
    }
}

/// Writes the characters `chars[from..to]` at the end of `out`.
fn push_chars(out: &mut Vec<char>, chars: &Vec<char>, from: usize, to: usize)
    requires
        from <= to <= chars.len(),
    ensures
        final(out)@ == old(out)@ + chars@.subrange(from as int, to as int),
{
    let mut i: usize = from;
    assert(out@ =~= old(out)@ + chars@.subrange(from as int, from as int));
    while i < to
        invariant
            from <= i <= to <= chars.len(),
            out@ == old(out)@ + chars@.subrange(from as int, i as int),
        decreases to - i,
    {
        out.push(chars[i]);
        i += 1;
        assert(out@ =~= old(out)@ + chars@.subrange(from as int, i as int));
    }
}

/// Writes the gutter of the line with the index `no` at the end of `out`,
/// and hands back its length.
fn push_gutter(out: &mut Vec<char>, no: usize, row_width: usize) -> (len: usize)
    requires
        no < 0x2_0000,
        row_width <= 6,
    ensures
        final(out)@ == old(out)@ + gutter(no as int, row_width as int),
        len == gutter(no as int, row_width as int).len(),
        3 <= len <= 8,
{
    let mut number: Vec<char> = Vec::new();
    push_digits(&mut number, (no + 1) as u64);
    assert(number@ =~= digits((no + 1) as nat));
    proof {
        lemma_digits_len((no + 1) as nat);
    }
    let pad = if row_width > number.len() {
        row_width - number.len()
    } else {
        0
    };
    push_spaces(out, pad);
    let len = number.len();
    push_chars(out, &number, 0, len);
    assert(number@.subrange(0, len as int) =~= number@);
    out.push(':');
    out.push(' ');
    assert(out@ =~= old(out)@ + gutter(no as int, row_width as int));
    pad + len + 2
}

/// Writes the text of the line that starts at `start` at the end of `out`.
fn push_line_text(out: &mut Vec<char>, source: &Vec<char>, no: usize, start: usize)
    requires
        start == row_start(source@, no as int),
        start <= source.len(),
    ensures
        final(out)@ == old(out)@ + line_text(source@, no as int),
{
    let mut stop = start;
    proof {
        lemma_line_stop(source@, start as int);
    }
    while stop < source.len() && source[stop] != '\n'
        invariant
            start <= stop <= source.len(),
            line_stop(source@, start as int) == line_stop(source@, stop as int),
        decreases source.len() - stop,
    {
        stop += 1;
    }
    let text_end = if start < stop && stop < source.len() && source[stop - 1] == '\r' {
        stop - 1
    } else {
        stop
    };
    push_chars(out, source, start, text_end);
}

impl Error {
    /// Writes the line with the index `no`, as it is shown, at the end of `out`.
    fn push_shown_line(
        &self,
        out: &mut Vec<char>,
        source: &Vec<char>,
        kind: &Vec<char>,
        no: usize,
        start: usize,
        row_width: usize,
    )
        requires
            source@ == self@.source,
            kind@ == self@.kind.text(),
            start == row_start(source@, no as int),
            start <= source.len(),
            no < 0x2_0000,
            row_width <= 6,
        ensures
            final(out)@ == old(out)@ + shown_line(self@, no as int, row_width as int),
    {
        let ghost e = self@;
        let ghost width = row_width as int;
        let gutter_len = push_gutter(out, no, row_width);
        push_line_text(out, source, no, start);
        out.push('\n');
        assert(out@ =~= old(out)@ + (gutter(no as int, width) + line_text(e.source, no as int)
            + seq!['\n']));
        if no + 1 == self.start.line as usize {
            let ghost shown = out@;
            push_spaces(out, gutter_len - 1 + self.start.col as usize);
            out.push('^');
            out.push('-');
            out.push('-');
            out.push(' ');
            let kind_len = kind.len();
            push_chars(out, kind, 0, kind_len);
            assert(kind@.subrange(0, kind_len as int) =~= kind@);
            out.push('\n');
            assert(out@ =~= shown + (spaces(gutter(no as int, width).len() + e.start.col - 1)
                + seq!['^', '-', '-', ' '] + e.kind.text() + seq!['\n']));
            assert(out@ =~= old(out)@ + shown_line(e, no as int, width));
        } else {
            assert(out@ =~= old(out)@ + shown_line(e, no as int, width));
        }
    }

    /// The error as it is shown to the user: the lines around the place,
    /// with a caret under the place and the reason behind it.
    pub fn to_string(&self) -> (out: String)
        ensures
            out@ == rendered(self@),
    {
        let source = chars_of(self.source.as_str());
        let kind = chars_of(self.kind.to_string().as_str());
        let from: usize = if self.start.line >= 2 {
            (self.start.line - 2) as usize
        } else {
            0
        };
        let spanned: usize = if self.end.line >= self.start.line {
            (self.end.line - self.start.line) as usize + 1
        } else {
            0
        };
        let to: usize = if spanned > 3 {
            spanned
        } else {
            3
        };
        let end = from + to;
        let mut number: Vec<char> = Vec::new();
        push_digits(&mut number, (end - 1) as u64);
        let row_width = number.len();
        assert(number@ =~= digits((end - 1) as nat));
        proof {
            lemma_digits_len((end - 1) as nat);
        }
        let ghost e = self@;
        let ghost width = row_width as int;
        let mut out: Vec<char> = Vec::new();
        out.push('\n');
        let mut no = from;
        assert(out@ =~= seq!['\n']);
        while no < end
            invariant
                from <= no <= end <= 0x2_0000,
                source@ == e.source,
                kind@ == e.kind.text(),
                e == self@,
                width == row_width <= 6,
                rendered(e) == out@ + shown_lines(e, no as int, end as int, width),
            decreases end - no,
        {
            let start = start_of_row(&source, no);
            if start >= source.len() {
                no = end;
            } else {
                let ghost before = out@;
                self.push_shown_line(&mut out, &source, &kind, no, start, row_width);
                proof {
                    let line = shown_line(e, no as int, width);
                    let rest = shown_lines(e, no + 1, end as int, width);
                    assert(before + (line + rest) =~= (before + line) + rest);
                }
                no += 1;
            }
        }
        proof {
            assert(out@ + Seq::<char>::empty() =~= out@);
        }
        let len = out.len();
        let shown = string_of(&out, 0, len);
        assert(out@.subrange(0, len as int) =~= out@);
        shown
    }
}

} // verus!
