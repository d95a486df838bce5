//! The lexer: from script text to a stream of tokens, each with the place it
//! starts at.

use crate::parser::error::{Error, ErrorKindView, ErrorView, Result};
use crate::parser::token::{token_views, Span, Token, TokenView, Tokens, TokensView};
use crate::text::{
    chars_of, digit, is_digit, is_letter, is_name_char, letter, name_char, spells, string_of,
};
use crate::width::{char_width, unicode_char_width};
use vstd::prelude::*;

verus! {

// -----------------------------------------------------------------------------
//   - Places -
// -----------------------------------------------------------------------------
/// `n`, held to what a line or column number can hold.
pub open spec fn saturate(n: int) -> u16 {
    if n >= 0xffff {
        0xffff
    } else if n < 0 {
        0
    } else {
        n as u16
    }
}

/// The place behind a character `c` of the given width that was read at
/// `span`: a line feed starts the next line at column one, any other
/// character moves the column on by its width.
pub open spec fn step_with(span: Span, c: char, width: Option<usize>) -> Span {
    if c == '\n' {
        Span { token: span.token, line: saturate(span.line + 1), col: 1 }
    } else {
        Span {
            token: span.token,
            line: span.line,
            col: saturate(
                span.col + match width {
                    Some(w) => w as int,
                    None => 0,
                },
            ),
        }
    }
}

/// The place behind `c`, read at `span`, with the display width of `c`.
pub open spec fn step(span: Span, c: char) -> Span {
    step_with(span, c, unicode_char_width(c))
}

/// The place behind the characters `read`, read from `span` on.
pub open spec fn span_after(span: Span, read: Seq<char>) -> Span
    decreases read.len(),
{
    if read.len() == 0 {
        span
    } else {
        step(span_after(span, read.drop_last()), read.last())
    }
}

/// Computes [`step_with`].
pub fn advance(span: Span, c: char, width: Option<usize>) -> (out: Span)
    ensures
        out == step_with(span, c, width),
{
    if c == '\n' {
        let line = if span.line == u16::MAX {
            u16::MAX
        } else {
            span.line + 1
        };
        Span { token: span.token, line, col: 1 }
    } else {
        let w: usize = match width {
            Some(w) => w,
            None => 0,
        };
        let room: u16 = u16::MAX - span.col;
        let col = if w >= room as usize {
            u16::MAX
        } else {
            span.col + w as u16
        };
        Span { token: span.token, line: span.line, col }
    }
}

/// Reading one more character moves the place by one step.
pub proof fn lemma_span_after_next(span: Span, src: Seq<char>, from: int, to: int)
    requires
        0 <= from <= to < src.len(),
    ensures
        span_after(span, src.subrange(from, to + 1)) == step(
            span_after(span, src.subrange(from, to)),
            src[to],
        ),
{
    assert(src.subrange(from, to + 1).drop_last() == src.subrange(from, to));
}

// -----------------------------------------------------------------------------
//   - Runs of characters -
// -----------------------------------------------------------------------------
/// The kinds of runs that tokens are made of.
pub enum Run {
    /// Digits continue a number.
    Digits,
    /// Letters, digits, `_` and `-` continue a word.
    Name,
    /// Everything but a line feed continues a comment.
    Comment,
    /// Characters that start no other token continue a stretch of whitespace.
    Blank,
}

impl Run {
    /// Whether the character at `k` continues a run of this kind.
    pub open spec fn keeps(self, src: Seq<char>, k: int) -> bool {
        match self {
            Run::Digits => is_digit(src[k]),
            Run::Name => is_name_char(src[k]),
            Run::Comment => src[k] != '\n',
            Run::Blank => is_blank_at(src, k),
        }
    }
}

/// The end of the run that starts at `i`: the first index at or behind `i`
/// whose character does not continue the run, or the length of `src`.
pub open spec fn run_end(src: Seq<char>, i: int, run: Run) -> int
    decreases src.len() - i,
{
    if 0 <= i < src.len() && run.keeps(src, i) {
        run_end(src, i + 1, run)
    } else {
        i
    }
}

/// A run ends inside the text, holds only what continues it, and stops at
/// what does not.
pub proof fn lemma_run_end(src: Seq<char>, i: int, run: Run)
    requires
        0 <= i <= src.len(),
    ensures
        i <= run_end(src, i, run) <= src.len(),
        forall|k: int| i <= k < run_end(src, i, run) ==> #[trigger] run.keeps(src, k),
        run_end(src, i, run) < src.len() ==> !run.keeps(src, run_end(src, i, run)),
    decreases src.len() - i,
{
    if i < src.len() && run.keeps(src, i) {
        lemma_run_end(src, i + 1, run);
    }
}

/// Whether a comment starts at `i`: two slashes.
pub open spec fn starts_comment(src: Seq<char>, i: int) -> bool {
    src[i] == '/' && i + 1 < src.len() && src[i + 1] == '/'
}

/// Whether the `@@` token starts at `i`.
pub open spec fn starts_at_at(src: Seq<char>, i: int) -> bool {
    src[i] == '@' && i + 1 < src.len() && src[i + 1] == '@'
}

/// Whether the character at `i` starts no token of its own, so that it
/// counts as whitespace.
pub open spec fn is_blank_at(src: Seq<char>, i: int) -> bool {
    let c = src[i];
    !(c == '\n' || c == '=' || c == '@' || c == '!' || c == '-' || is_digit(c) || is_letter(c)
        || c == '"' || c == '\'' || starts_comment(src, i))
}

/// The end of the comment whose first slash stands at `i`: behind the line
/// feed that ends it, or the end of the text.
pub open spec fn comment_end(src: Seq<char>, i: int) -> int {
    let stop = run_end(src, i + 2, Run::Comment);
    if stop < src.len() {
        stop + 1
    } else {
        stop
    }
}

// -----------------------------------------------------------------------------
//   - Words and numbers -
// -----------------------------------------------------------------------------
/// The token a word stands for: a keyword where it is one, else an identifier.
pub open spec fn word_token(word: Seq<char>) -> TokenView {
    if word == "as"@ {
        TokenView::As
    } else if word == "audio"@ {
        TokenView::Audio
    } else if word == "clear"@ {
        TokenView::Clear
    } else if word == "delete"@ {
        TokenView::Delete
    } else if word == "extension"@ {
        TokenView::SetExtension
    } else if word == "false"@ {
        TokenView::Bool(false)
    } else if word == "find"@ {
        TokenView::Find
    } else if word == "goto"@ {
        TokenView::Goto
    } else if word == "insert"@ {
        TokenView::Insert
    } else if word == "jitter"@ {
        TokenView::Jitter
    } else if word == "linepause"@ {
        TokenView::LinePause
    } else if word == "load"@ {
        TokenView::Load
    } else if word == "nonl"@ {
        TokenView::NoNewline
    } else if word == "numbers"@ {
        TokenView::ShowLineNumbers
    } else if word == "popup"@ {
        TokenView::Popup
    } else if word == "closepopup"@ {
        TokenView::ClosePopup
    } else if word == "replace"@ {
        TokenView::Replace
    } else if word == "select"@ {
        TokenView::Select
    } else if word == "speed"@ {
        TokenView::Speed
    } else if word == "title"@ {
        TokenView::SetTitle
    } else if word == "true"@ {
        TokenView::Bool(true)
    } else if word == "theme"@ {
        TokenView::Theme
    } else if word == "type"@ {
        TokenView::Type
    } else if word == "typenl"@ {
        TokenView::TypeNl
    } else if word == "wait"@ || word == "sleep"@ {
        TokenView::Wait
    } else {
        TokenView::Ident(word)
    }
}

/// The value of a decimal digit.
pub open spec fn digit_value(c: char) -> nat {
    (c as int - '0' as int) as nat
}

/// The number that a row of decimal digits writes.
pub open spec fn digits_value(ds: Seq<char>) -> nat
    decreases ds.len(),
{
    if ds.len() == 0 {
        0
    } else {
        digits_value(ds.drop_last()) * 10 + digit_value(ds.last())
    }
}

/// The integer that `text` writes, an optional minus sign and then digits;
/// none without a digit, and none where the number does not fit.
pub open spec fn int_value(text: Seq<char>) -> Option<i64> {
    let negative = text.len() > 0 && text[0] == '-';
    let ds = if negative {
        text.skip(1)
    } else {
        text
    };
    let n = if negative {
        -(digits_value(ds) as int)
    } else {
        digits_value(ds) as int
    };
    if ds.len() > 0 && i64::MIN <= n <= i64::MAX {
        Some(n as i64)
    } else {
        None
    }
}

/// A row of digits writes at least what any of its beginnings writes.
pub proof fn lemma_digits_value_grows(ds: Seq<char>, k: int)
    requires
        0 <= k <= ds.len(),
    ensures
        digits_value(ds.take(k)) <= digits_value(ds),
    decreases ds.len() - k,
{
    if k < ds.len() {
        lemma_digits_value_grows(ds, k + 1);
        assert(ds.take(k + 1).drop_last() == ds.take(k));
    } else {
        assert(ds.take(k) == ds);
    }
}

// -----------------------------------------------------------------------------
//   - String literals -
// -----------------------------------------------------------------------------
/// Reads a string literal from `j` on, behind its opening quote. `escaping`
/// says that a backslash was read and is still open, `content` is what the
/// literal holds so far. The result is the index behind the closing quote and
/// the content, or none where the text ends first.
///
/// A backslash opens an escape. In an escape, `n` gives a line feed, and a
/// backslash or the quote gives itself; each of them closes the escape. Any
/// other character is taken as it is and leaves an open escape open.
pub open spec fn scan_string(
    src: Seq<char>,
    j: int,
    quote: char,
    escaping: bool,
    content: Seq<char>,
) -> Option<(int, Seq<char>)>
    decreases src.len() - j,
{
    if j < 0 || j >= src.len() {
        None
    } else {
        let c = src[j];
        if !escaping && c == '\\' {
            scan_string(src, j + 1, quote, true, content)
        } else if escaping && c == 'n' {
            scan_string(src, j + 1, quote, false, content.push('\n'))
        } else if escaping && (c == '\\' || c == quote) {
            scan_string(src, j + 1, quote, false, content.push(c))
        } else if c == quote {
            Some((j + 1, content))
        } else {
            scan_string(src, j + 1, quote, escaping, content.push(c))
        }
    }
}

/// A string literal ends behind where it was read from, inside the text.
pub proof fn lemma_scan_string_end(
    src: Seq<char>,
    j: int,
    quote: char,
    escaping: bool,
    content: Seq<char>,
)
    requires
        0 <= j,
    ensures
        scan_string(src, j, quote, escaping, content) matches Some((end, _)) ==> j < end
            <= src.len(),
    decreases src.len() - j,
{
    if j < src.len() {
        let c = src[j];
        if !escaping && c == '\\' {
            lemma_scan_string_end(src, j + 1, quote, true, content);
        } else if escaping && c == 'n' {
            lemma_scan_string_end(src, j + 1, quote, false, content.push('\n'));
        } else if escaping && (c == '\\' || c == quote) {
            lemma_scan_string_end(src, j + 1, quote, false, content.push(c));
        } else if c == quote {
        } else {
            lemma_scan_string_end(src, j + 1, quote, escaping, content.push(c));
        }
    }
}

// -----------------------------------------------------------------------------
//   - Tokens -
// -----------------------------------------------------------------------------
/// One token as it was read: the token, the index behind it, and the place behind it.
pub struct Lexeme {
    pub token: TokenView,
    pub end: int,
    pub next: Span,
}

/// Why and where reading a token failed.
pub struct LexFailure {
    pub kind: ErrorKindView,
    pub at: Span,
}

/// The place behind a token of one character.
pub open spec fn after_single(next: Span, c: char) -> Span {
    step_with(next, c, Some(1usize))
}

/// The place behind the `@@` token.
pub open spec fn after_double(next: Span) -> Span {
    Span { token: next.token, line: next.line, col: saturate(next.col + 2) }
}

/// The token that starts at `i`, where the place is `next`.
///
/// In the order in which they are tried: a comment runs from two slashes
/// through the end of the line; `@@`; a line feed, `=`, `@` and `!` are
/// tokens of their own; a minus sign or a digit starts a number, which digits
/// continue; a letter starts a word; a quote starts a string literal; any
/// other character starts a stretch of whitespace, which lasts as long as no
/// other token starts.
///
/// The first character of a comment, a number, a word, a string literal and
/// of whitespace does not move the place; every character behind it does.
pub open spec fn lexeme_at(src: Seq<char>, i: int, next: Span) -> std::result::Result<
    Lexeme,
    LexFailure,
> {
    let c = src[i];
    if starts_comment(src, i) {
        let end = comment_end(src, i);
        Ok(
            Lexeme {
                token: TokenView::Comment,
                end,
                next: span_after(next, src.subrange(i + 1, end)),
            },
        )
    } else if starts_at_at(src, i) {
        Ok(Lexeme { token: TokenView::AtAt, end: i + 2, next: after_double(next) })
    } else if c == '\n' {
        Ok(Lexeme { token: TokenView::Newline, end: i + 1, next: after_single(next, c) })
    } else if c == '=' {
        Ok(Lexeme { token: TokenView::Equal, end: i + 1, next: after_single(next, c) })
    } else if c == '@' {
        Ok(Lexeme { token: TokenView::At, end: i + 1, next: after_single(next, c) })
    } else if c == '!' {
        Ok(Lexeme { token: TokenView::Bang, end: i + 1, next: after_single(next, c) })
    } else if c == '-' || is_digit(c) {
        let end = run_end(src, i + 1, Run::Digits);
        let after = span_after(next, src.subrange(i + 1, end));
        match int_value(src.subrange(i, end)) {
            Some(value) => Ok(Lexeme { token: TokenView::Int(value), end, next: after }),
            None => Err(LexFailure { kind: ErrorKindView::InvalidInteger, at: after }),
        }
    } else if is_letter(c) {
        let end = run_end(src, i + 1, Run::Name);
        Ok(
            Lexeme {
                token: word_token(src.subrange(i, end)),
                end,
                next: span_after(next, src.subrange(i + 1, end)),
            },
        )
    } else if c == '"' || c == '\'' {
        match scan_string(src, i + 1, c, false, Seq::empty()) {
            Some((end, content)) => Ok(
                Lexeme {
                    token: TokenView::Str(content),
                    end,
                    next: span_after(next, src.subrange(i + 1, end)),
                },
            ),
            None => Err(
                LexFailure {
                    kind: ErrorKindView::UnterminatedString,
                    at: span_after(next, src.subrange(i + 1, src.len() as int)),
                },
            ),
        }
    } else {
        let end = run_end(src, i + 1, Run::Blank);
        Ok(
            Lexeme {
                token: TokenView::Whitespace,
                end,
                next: span_after(next, src.subrange(i + 1, end)),
            },
        )
    }
}

/// Every token holds at least one character, and ends inside the text.
pub proof fn lemma_lexeme_advances(src: Seq<char>, i: int, next: Span)
    requires
        0 <= i < src.len(),
    ensures
        lexeme_at(src, i, next) matches Ok(lexeme) ==> i < lexeme.end <= src.len(),
{
    lemma_run_end(src, i + 1, Run::Digits);
    lemma_run_end(src, i + 1, Run::Name);
    lemma_run_end(src, i + 1, Run::Blank);
    if starts_comment(src, i) {
        lemma_run_end(src, i + 2, Run::Comment);
    }
    lemma_scan_string_end(src, i + 1, src[i], false, Seq::empty());
}

/// The span that is recorded for the token with the index `count`, which starts at `at`.
pub open spec fn stamp(at: Span, count: nat) -> Span {
    Span { token: count as u32, line: at.line, col: at.col }
}

/// The tokens from `i` on and their spans, where the place is `at` and
/// `count` tokens were read before. The stream ends with end-of-input.
pub open spec fn lex_from(src: Seq<char>, i: int, at: Span, count: nat) -> std::result::Result<
    (Seq<TokenView>, Seq<Span>),
    LexFailure,
>
    decreases src.len() - i,
{
    if i < 0 || i >= src.len() {
        Ok((seq![TokenView::Eof], seq![stamp(at, count)]))
    } else {
        match lexeme_at(src, i, at) {
            Err(failure) => Err(failure),
            Ok(lexeme) => {
                proof {
                    lemma_lexeme_advances(src, i, at);
                }
                match lex_from(src, lexeme.end, lexeme.next, count + 1) {
                    Err(failure) => Err(failure),
                    Ok((tokens, spans)) => Ok(
                        (seq![lexeme.token] + tokens, seq![stamp(at, count)] + spans),
                    ),
                }
            },
        }
    }
}

/// A token that is read from the text is never end-of-input.
pub proof fn lemma_lexeme_is_no_end(src: Seq<char>, i: int, next: Span)
    ensures
        lexeme_at(src, i, next) matches Ok(lexeme) ==> !(lexeme.token is Eof),
{
}

/// Every stream has a span for each token, the span of a token holds the
/// index of the token, and end-of-input is the last token and no other.
pub proof fn lemma_stream(src: Seq<char>, i: int, at: Span, count: nat)
    ensures
        lex_from(src, i, at, count) matches Ok((tokens, spans)) ==> {
            &&& tokens.len() == spans.len()
            &&& tokens.len() > 0
            &&& tokens.last() is Eof
            &&& forall|k: int| 0 <= k < tokens.len() - 1 ==> !(#[trigger] tokens[k] is Eof)
            &&& forall|k: int|
                0 <= k < tokens.len() ==> (#[trigger] spans[k]).token == ((count + k) as u32)
        },
    decreases src.len() - i,
{
    if 0 <= i < src.len() {
        if let Ok(lexeme) = lexeme_at(src, i, at) {
            lemma_lexeme_advances(src, i, at);
            lemma_lexeme_is_no_end(src, i, at);
            lemma_stream(src, lexeme.end, lexeme.next, count + 1);
            if let Ok((tokens, spans)) = lex_from(src, i, at, count) {
                let rest = lex_from(src, lexeme.end, lexeme.next, count + 1)->Ok_0;
                assert(tokens =~= seq![lexeme.token] + rest.0);
                assert(spans =~= seq![stamp(at, count)] + rest.1);
                assert forall|k: int| 0 <= k < tokens.len() - 1 implies !(#[trigger] tokens[k]
                    is Eof) by {
                    if k > 0 {
                        assert(tokens[k] == rest.0[k - 1]);
                    }
                }
                assert forall|k: int| 0 <= k < tokens.len() implies (#[trigger] spans[k]).token
                    == ((count + k) as u32) by {
                    if k > 0 {
                        assert(spans[k] == rest.1[k - 1]);
                    }
                }
            }
        }
    }
}

/// The tokens of a script and their spans.
pub open spec fn lex_spec(src: Seq<char>) -> std::result::Result<
    (Seq<TokenView>, Seq<Span>),
    LexFailure,
> {
    lex_from(src, 0, Span::spec_initial(), 0)
}

/// What the lexer hands back for a script: the stream with the cursor on its
/// first token, or the failure with the script.
pub open spec fn lexed(src: Seq<char>, out: Result<Tokens<'_>>) -> bool {
    match lex_spec(src) {
        Ok((tokens, spans)) => out matches Ok(stream) && stream@ == (TokensView {
            source: src,
            index: 0,
            taken: 0,
            tokens,
            spans,
        }),
        Err(failure) => out matches Err(e) && e@ == (ErrorView {
            kind: failure.kind,
            start: failure.at,
            end: failure.at,
            source: src,
        }),
    }
}

// -----------------------------------------------------------------------------
//   - The lexer -
// -----------------------------------------------------------------------------
/// The tokens of `code`, or the first error in it.
pub fn lex<'a>(code: &'a str) -> (out: Result<Tokens<'a>>)
    ensures
        lexed(code@, out),
{
    Lexer::new(code).lex()
}

/// What was read before, followed by what is read from here on.
pub open spec fn prepend(
    tokens: Seq<TokenView>,
    spans: Seq<Span>,
    rest: std::result::Result<(Seq<TokenView>, Seq<Span>), LexFailure>,
) -> std::result::Result<(Seq<TokenView>, Seq<Span>), LexFailure> {
    match rest {
        Ok((more_tokens, more_spans)) => Ok((tokens + more_tokens, spans + more_spans)),
        Err(failure) => Err(failure),
    }
}

/// The value of the digit `c`.
fn digit_of(c: char) -> (d: u64)
    requires
        is_digit(c),
    ensures
        d == digit_value(c),
{
    (c as u32 - '0' as u32) as u64
}

/// Computes [`int_value`] of `chars[from..to]`, a minus sign or a digit
/// followed by digits.
fn int_of(chars: &Vec<char>, from: usize, to: usize) -> (value: Option<i64>)
    requires
        from < to <= chars.len(),
        chars@[from as int] == '-' || is_digit(chars@[from as int]),
        forall|k: int| from < k < to ==> is_digit(#[trigger] chars@[k]),
    ensures
        value == int_value(chars@.subrange(from as int, to as int)),
{
    let ghost text = chars@.subrange(from as int, to as int);
    let negative = chars[from] == '-';
    let first: usize = if negative {
        from + 1
    } else {
        from
    };
    let ghost ds = if negative {
        text.skip(1)
    } else {
        text
    };
    assert(ds == chars@.subrange(first as int, to as int));
    if first == to {
        return None;
    }
    let limit: u64 = if negative {
        0x8000_0000_0000_0000u64
    } else {
        0x7fff_ffff_ffff_ffffu64
    };
    let mut acc: u64 = 0;
    let mut k: usize = first;
    while k < to
        invariant
            first <= k <= to <= chars.len(),
            ds == chars@.subrange(first as int, to as int),
            forall|j: int| first <= j < to ==> is_digit(#[trigger] chars@[j]),
            acc == digits_value(ds.take(k - first)),
            acc <= limit,
            0x7fff_ffff_ffff_ffffu64 <= limit <= 0x8000_0000_0000_0000u64,
            negative ==> limit == 0x8000_0000_0000_0000u64,
            !negative ==> limit == 0x7fff_ffff_ffff_ffffu64,
            text == chars@.subrange(from as int, to as int),
            negative == (text.len() > 0 && text[0] == '-'),
            ds == if negative {
                text.skip(1)
            } else {
                text
            },
        decreases to - k,
    {
        assert(is_digit(chars@[k as int]));
        let d = digit_of(chars[k]);
        proof {
            assert(ds.take(k - first + 1).drop_last() == ds.take(k - first));
            assert(ds.take(k - first + 1).last() == chars@[k as int]);
            assert(digits_value(ds.take(k - first + 1)) == acc * 10 + d);
            lemma_digits_value_grows(ds, k - first + 1);
        }
        if acc > (limit - d) / 10 {
            return None;
        }
        acc = acc * 10 + d;
        k += 1;
    }
    assert(ds.take(k - first) == ds);
    if negative {
        if acc == 0x8000_0000_0000_0000u64 {
            Some(i64::MIN)
        } else {
            Some(-(acc as i64))
        }
    } else {
        Some(acc as i64)
    }
}

/// Nothing read before changes nothing.
pub proof fn lemma_prepend_nothing(
    rest: std::result::Result<(Seq<TokenView>, Seq<Span>), LexFailure>,
)
    ensures
        prepend(Seq::empty(), Seq::empty(), rest) == rest,
{
    if let Ok((tokens, spans)) = rest {
        assert(Seq::<TokenView>::empty() + tokens =~= tokens);
        assert(Seq::<Span>::empty() + spans =~= spans);
    }
}

/// A token that was read moves from what follows to what was read before.
pub proof fn lemma_prepend_token(
    tokens: Seq<TokenView>,
    spans: Seq<Span>,
    src: Seq<char>,
    i: int,
    at: Span,
    count: nat,
)
    requires
        0 <= i < src.len(),
        tokens.len() == count,
    ensures
        match lexeme_at(src, i, at) {
            Ok(lexeme) => prepend(tokens, spans, lex_from(src, i, at, count)) == prepend(
                tokens.push(lexeme.token),
                spans.push(stamp(at, count)),
                lex_from(src, lexeme.end, lexeme.next, count + 1),
            ),
            Err(failure) => prepend(tokens, spans, lex_from(src, i, at, count)) == Err::<
                (Seq<TokenView>, Seq<Span>),
                LexFailure,
            >(failure),
        },
{
    if let Ok(lexeme) = lexeme_at(src, i, at) {
        if let Ok((more_tokens, more_spans)) = lex_from(
            src,
            lexeme.end,
            lexeme.next,
            count + 1,
        ) {
            assert(tokens + (seq![lexeme.token] + more_tokens) =~= tokens.push(lexeme.token)
                + more_tokens);
            assert(spans + (seq![stamp(at, count)] + more_spans) =~= spans.push(stamp(at, count))
                + more_spans);
        }
    }
}

struct Lexer<'src> {
    source: &'src str,
    input: Vec<char>,
    pos: usize,
    tokens: Vec<Token>,
    spans: Vec<Span>,
    current_span: Span,
    next_span: Span,
}

impl<'src> Lexer<'src> {
    /// The characters are those of the script, the position is inside them,
    /// and every token has its span.
    spec fn wf(self) -> bool {
        &&& self.input@ == self.source@
        &&& self.pos <= self.input.len()
        &&& self.tokens.len() == self.spans.len()
    }

    /// Nothing differs from `before` but the position and the place.
    spec fn moved(self, before: Self, pos: int, next: Span) -> bool {
        &&& self.source@ == before.source@
        &&& self.input@ == before.input@
        &&& self.tokens@ == before.tokens@
        &&& self.spans@ == before.spans@
        &&& self.current_span == before.current_span
        &&& self.pos == pos
        &&& self.next_span == next
    }

    /// One token was added to what `before` held; it started where `before`
    /// stood and ends at `end`, where the place is `next`.
    spec fn emitted(self, before: Self, token: TokenView, end: int, next: Span) -> bool {
        &&& self.source@ == before.source@
        &&& self.input@ == before.input@
        &&& self.pos == end
        &&& self.next_span == next
        &&& self.current_span == next
        &&& token_views(self.tokens@) == token_views(before.tokens@).push(token)
        &&& self.spans@ == before.spans@.push(
            stamp(before.current_span, before.tokens@.len()),
        )
    }

    fn new(source: &'src str) -> (out: Self)
        ensures
            out.wf(),
            out.source@ == source@,
            out.pos == 0,
            out.tokens@.len() == 0,
            out.current_span == Span::spec_initial(),
            out.next_span == Span::spec_initial(),
    {
        Self {
            source,
            input: chars_of(source),
            pos: 0,
            tokens: vec![],
            spans: vec![],
            current_span: Span::initial(),
            next_span: Span::initial(),
        }
    }

    fn consume_char(&mut self)
        requires
            old(self).wf(),
            old(self).pos < old(self).input.len(),
        ensures
            final(self).wf(),
            final(self).moved(
                *old(self),
                old(self).pos + 1,
                step(old(self).next_span, old(self).input@[old(self).pos as int]),
            ),
    {
        let c = self.input[self.pos];
        self.pos += 1;
        self.next_span = advance(self.next_span, c, char_width(c));
    }

    /// Whether the character at the position continues a run of the kind `run`.
    fn continues(&self, run: &Run) -> (b: bool)
        requires
            self.wf(),
            self.pos < self.input.len(),
        ensures
            b == run.keeps(self.input@, self.pos as int),
    {
        let c = self.input[self.pos];
        match run {
            Run::Digits => digit(c),
            Run::Name => name_char(c),
            Run::Comment => c != '\n',
            Run::Blank => !(c == '\n' || c == '=' || c == '@' || c == '!' || c == '-' || digit(c)
                || letter(c) || c == '"' || c == '\'' || (c == '/' && self.pos + 1
                < self.input.len() && self.input[self.pos + 1] == '/')),
        }
    }

    /// Reads on to the end of the run of the kind `run`.
    fn consume_run(&mut self, run: Run)
        requires
            old(self).wf(),
        ensures
            final(self).wf(),
            final(self).moved(
                *old(self),
                run_end(old(self).input@, old(self).pos as int, run),
                span_after(
                    old(self).next_span,
                    old(self).input@.subrange(
                        old(self).pos as int,
                        run_end(old(self).input@, old(self).pos as int, run),
                    ),
                ),
            ),
    {
        let ghost before = *self;
        let ghost src = self.input@;
        let ghost start = self.pos as int;
        assert(src.subrange(start, start) == Seq::<char>::empty());
        while self.pos < self.input.len() && self.continues(&run)
            invariant
                self.wf(),
                src == self.input@,
                0 <= start <= self.pos <= src.len(),
                self.moved(
                    before,
                    self.pos as int,
                    span_after(before.next_span, src.subrange(start, self.pos as int)),
                ),
                src == before.input@,
                run_end(src, start, run) == run_end(src, self.pos as int, run),
            decreases self.input.len() - self.pos,
        {
            proof {
                lemma_span_after_next(before.next_span, src, start, self.pos as int);
            }
            self.consume_char();
        }
    }

    fn single_char_token(&mut self, token: Token)
        requires
            old(self).wf(),
        ensures
            final(self).wf(),
            final(self).emitted(
                *old(self),
                token@,
                old(self).pos as int,
                after_single(
                    old(self).next_span,
                    if token@ is Newline {
                        '\n'
                    } else {
                        '='
                    },
                ),
            ),
    {
        let newline = match token {
            Token::Newline => true,
            _ => false,
        };
        self.next_span = advance(
            self.next_span,
            if newline {
                '\n'
            } else {
                '='
            },
            Some(1),
        );
        self.push_token(token);
    }

    fn multi_char_token(&mut self, token: Token)
        requires
            old(self).wf(),
            old(self).pos < old(self).input.len(),
        ensures
            final(self).wf(),
            final(self).emitted(
                *old(self),
                token@,
                old(self).pos + 1,
                after_double(old(self).next_span),
            ),
    {
        self.pos += 1;
        self.next_span = advance(self.next_span, '=', Some(2));
        self.push_token(token);
    }

    /// Reads the token that starts at the position.
    fn token(&mut self) -> (out: Result<()>)
        requires
            old(self).wf(),
            old(self).pos < old(self).input.len(),
        ensures
            match lexeme_at(old(self).input@, old(self).pos as int, old(self).next_span) {
                Ok(lexeme) => out is Ok && final(self).wf() && final(self).emitted(
                    *old(self),
                    lexeme.token,
                    lexeme.end,
                    lexeme.next,
                ),
                Err(failure) => out matches Err(e) && e@ == (ErrorView {
                    kind: failure.kind,
                    start: failure.at,
                    end: failure.at,
                    source: old(self).source@,
                }),
            },
    {
        let c = self.input[self.pos];
        self.pos += 1;
        let followed_by_same = self.pos < self.input.len() && self.input[self.pos] == c;
        if c == '/' && followed_by_same {
            self.comment();
            Ok(())
        } else if c == '@' && followed_by_same {
            self.multi_char_token(Token::AtAt);
            Ok(())
        } else if c == '\n' {
            self.single_char_token(Token::Newline);
            Ok(())
        } else if c == '=' {
            self.single_char_token(Token::Equal);
            Ok(())
        } else if c == '@' {
            self.single_char_token(Token::At);
            Ok(())
        } else if c == '!' {
            self.single_char_token(Token::Bang);
            Ok(())
        } else if c == '-' || digit(c) {
            self.integer(c)
        } else if letter(c) {
            self.ident(c)
        } else if c == '"' || c == '\'' {
            self.string(c)
        } else {
            self.whitespace();
            Ok(())
        }
    }

    fn lex(self) -> (out: Result<Tokens<'src>>)
        requires
            self.wf(),
            self.pos == 0,
            self.tokens@.len() == 0,
            self.current_span == Span::spec_initial(),
            self.next_span == Span::spec_initial(),
        ensures
            lexed(self.source@, out),
    {
        let mut lexer = self;
        let ghost src = lexer.input@;
        let ghost whole = lex_spec(src);
        proof {
            assert(token_views(lexer.tokens@) =~= Seq::<TokenView>::empty());
            assert(lexer.spans@ =~= Seq::<Span>::empty());
            lemma_prepend_nothing(lex_from(src, 0, lexer.next_span, 0));
        }
        while lexer.pos < lexer.input.len()
            invariant
                lexer.wf(),
                src == lexer.input@,
                src == lexer.source@,
                src == self.source@,
                lexer.current_span == lexer.next_span,
                whole == lex_spec(src),
                whole == prepend(
                    token_views(lexer.tokens@),
                    lexer.spans@,
                    lex_from(src, lexer.pos as int, lexer.next_span, lexer.tokens@.len()),
                ),
            decreases lexer.input.len() - lexer.pos,
        {
            let ghost before = lexer;
            match lexer.token() {
                Err(e) => {
                    return Err(e);
                },
                Ok(()) => {
                    proof {
                        lemma_lexeme_advances(src, before.pos as int, before.next_span);
                        lemma_prepend_token(
                            token_views(before.tokens@),
                            before.spans@,
                            src,
                            before.pos as int,
                            before.next_span,
                            before.tokens@.len(),
                        );
                    }
                },
            }
        }
        let ghost before = lexer;
        lexer.push_token(Token::Eof);
        proof {
            assert(token_views(lexer.tokens@) =~= token_views(before.tokens@) + seq![
                TokenView::Eof,
            ]);
            assert(lexer.spans@ =~= before.spans@ + seq![
                stamp(before.next_span, before.tokens@.len()),
            ]);
            assert(lexer.tokens@.last()@ == token_views(lexer.tokens@).last());
        }
        let tokens = Tokens::new(lexer.source, lexer.tokens, lexer.spans);
        Ok(tokens)
    }

    fn string(&mut self, quote: char) -> (out: Result<()>)
        requires
            old(self).wf(),
            0 < old(self).pos,
            old(self).input@[old(self).pos - 1] == quote,
        ensures
            ({
                let src = old(self).input@;
                let start = old(self).pos as int;
                match scan_string(src, start, quote, false, Seq::empty()) {
                    Some((end, content)) => out is Ok && final(self).wf() && final(self).emitted(
                        *old(self),
                        TokenView::Str(content),
                        end,
                        span_after(old(self).next_span, src.subrange(start, end)),
                    ),
                    None => out matches Err(e) && e@ == ({
                        let at = span_after(
                            old(self).next_span,
                            src.subrange(start, src.len() as int),
                        );
                        ErrorView {
                            kind: ErrorKindView::UnterminatedString,
                            start: at,
                            end: at,
                            source: old(self).source@,
                        }
                    }),
                }
            }),
    {
        let ghost before = *self;
        let ghost src = self.input@;
        let ghost start = self.pos as int;
        let mut buffer = String::new();
        let mut escaping = false;
        let mut closed = false;
        assert(src.subrange(start, start) == Seq::<char>::empty());
        proof {
            lemma_scan_string_end(src, start, quote, false, Seq::empty());
        }
        while !closed && self.pos < self.input.len()
            invariant
                self.wf(),
                src == before.input@,
                src == self.input@,
                0 <= start <= self.pos <= src.len(),
                self.moved(
                    before,
                    self.pos as int,
                    span_after(before.next_span, src.subrange(start, self.pos as int)),
                ),
                !closed ==> scan_string(src, start, quote, false, Seq::empty()) == scan_string(
                    src,
                    self.pos as int,
                    quote,
                    escaping,
                    buffer@,
                ),
                closed ==> scan_string(src, start, quote, false, Seq::empty()) == Some(
                    (self.pos as int, buffer@),
                ),
            decreases self.input.len() - self.pos,
        {
            let c = self.input[self.pos];
            proof {
                lemma_span_after_next(before.next_span, src, start, self.pos as int);
            }
            if !escaping && c == '\\' {
                escaping = true;
            } else if escaping && c == 'n' {
                buffer.push('\n');
                escaping = false;
            } else if escaping && (c == '\\' || c == quote) {
                buffer.push(c);
                escaping = false;
            } else if c == quote {
                closed = true;
            } else {
                buffer.push(c);
            }
            self.consume_char();
        }
        if !closed {
            return Error::unterminated_string(self.next_span, self.source);
        }
        self.push_token(Token::Str(buffer));
        Ok(())
    }

    fn ident(&mut self, initial: char) -> (out: Result<()>)
        requires
            old(self).wf(),
            0 < old(self).pos,
            old(self).input@[old(self).pos - 1] == initial,
        ensures
            out is Ok,
            final(self).wf(),
            ({
                let src = old(self).input@;
                let start = old(self).pos as int;
                let end = run_end(src, start, Run::Name);
                final(self).emitted(
                    *old(self),
                    word_token(src.subrange(start - 1, end)),
                    end,
                    span_after(old(self).next_span, src.subrange(start, end)),
                )
            }),
    {
        let from = self.pos - 1;
        proof {
            lemma_run_end(self.input@, self.pos as int, Run::Name);
        }
        self.consume_run(Run::Name);
        let to = self.pos;
        let word = &self.input;
        let token = if spells(word, from, to, "as") {
            Token::As
        } else if spells(word, from, to, "audio") {
            Token::Audio
        } else if spells(word, from, to, "clear") {
            Token::Clear
        } else if spells(word, from, to, "delete") {
            Token::Delete
        } else if spells(word, from, to, "extension") {
            Token::SetExtension
        } else if spells(word, from, to, "false") {
            Token::Bool(false)
        } else if spells(word, from, to, "find") {
            Token::Find
        } else if spells(word, from, to, "goto") {
            Token::Goto
        } else if spells(word, from, to, "insert") {
            Token::Insert
        } else if spells(word, from, to, "jitter") {
            Token::Jitter
        } else if spells(word, from, to, "linepause") {
            Token::LinePause
        } else if spells(word, from, to, "load") {
            Token::Load
        } else if spells(word, from, to, "nonl") {
            Token::NoNewline
        } else if spells(word, from, to, "numbers") {
            Token::ShowLineNumbers
        } else if spells(word, from, to, "popup") {
            Token::Popup
        } else if spells(word, from, to, "closepopup") {
            Token::ClosePopup
        } else if spells(word, from, to, "replace") {
            Token::Replace
        } else if spells(word, from, to, "select") {
            Token::Select
        } else if spells(word, from, to, "speed") {
            Token::Speed
        } else if spells(word, from, to, "title") {
            Token::SetTitle
        } else if spells(word, from, to, "true") {
            Token::Bool(true)
        } else if spells(word, from, to, "theme") {
            Token::Theme
        } else if spells(word, from, to, "type") {
            Token::Type
        } else if spells(word, from, to, "typenl") {
            Token::TypeNl
        } else if spells(word, from, to, "wait") || spells(word, from, to, "sleep") {
            Token::Wait
        } else {
            Token::Ident(string_of(word, from, to))
        };
        self.push_token(token);
        Ok(())
    }

    fn integer(&mut self, c: char) -> (out: Result<()>)
        requires
            old(self).wf(),
            0 < old(self).pos,
            old(self).input@[old(self).pos - 1] == c,
            c == '-' || is_digit(c),
        ensures
            ({
                let src = old(self).input@;
                let start = old(self).pos as int;
                let end = run_end(src, start, Run::Digits);
                let after = span_after(old(self).next_span, src.subrange(start, end));
                match int_value(src.subrange(start - 1, end)) {
                    Some(value) => out is Ok && final(self).wf() && final(self).emitted(
                        *old(self),
                        TokenView::Int(value),
                        end,
                        after,
                    ),
                    None => out matches Err(e) && e@ == (ErrorView {
                        kind: ErrorKindView::InvalidInteger,
                        start: after,
                        end: after,
                        source: old(self).source@,
                    }),
                }
            }),
    {
        let from = self.pos - 1;
        let ghost src = self.input@;
        proof {
            lemma_run_end(src, self.pos as int, Run::Digits);
        }
        self.consume_run(Run::Digits);
        assert forall|k: int| from < k < self.pos implies is_digit(#[trigger] self.input@[k]) by {
            assert(Run::Digits.keeps(src, k));
        }
        let value = match int_of(&self.input, from, self.pos) {
            Some(value) => value,
            None => {
                return Error::invalid_int(self.next_span, self.source);
            },
        };
        let token = Token::Int(value);
        self.push_token(token);
        Ok(())
    }

    fn push_token(&mut self, token: Token)
        requires
            old(self).wf(),
        ensures
            final(self).wf(),
            final(self).emitted(
                *old(self),
                token@,
                old(self).pos as int,
                old(self).next_span,
            ),
    {
        self.current_span.token = #[verifier::truncate]
        (self.tokens.len() as u32);
        self.spans.push(self.current_span);
        self.current_span = self.next_span;
        self.tokens.push(token);
        assert(token_views(self.tokens@) == token_views(old(self).tokens@).push(token@));
    }

    fn comment(&mut self)
        requires
            old(self).wf(),
            0 < old(self).pos < old(self).input.len(),
        ensures
            final(self).wf(),
            ({
                let src = old(self).input@;
                let start = old(self).pos as int;
                let end = comment_end(src, start - 1);
                final(self).emitted(
                    *old(self),
                    TokenView::Comment,
                    end,
                    span_after(old(self).next_span, src.subrange(start, end)),
                )
            }),
    {
        let ghost src = self.input@;
        let ghost start = self.pos as int;
        let ghost first = self.next_span;
        // Consume the last '/'
        assert(src.subrange(start, start) == Seq::<char>::empty());
        proof {
            lemma_span_after_next(first, src, start, start);
            lemma_run_end(src, start + 1, Run::Comment);
        }
        self.consume_char();
        let ghost second = self.next_span;
        self.consume_run(Run::Comment);
        proof {
            lemma_span_after_join(first, src, start, start + 1, self.pos as int);
        }
        if self.pos < self.input.len() {
            proof {
                lemma_span_after_next(first, src, start, self.pos as int);
            }
            self.consume_char();
        }
        self.push_token(Token::Comment);
    }

    fn whitespace(&mut self)
        requires
            old(self).wf(),
        ensures
            final(self).wf(),
            ({
                let src = old(self).input@;
                let start = old(self).pos as int;
                let end = run_end(src, start, Run::Blank);
                final(self).emitted(
                    *old(self),
                    TokenView::Whitespace,
                    end,
                    span_after(old(self).next_span, src.subrange(start, end)),
                )
            }),
    {
        self.consume_run(Run::Blank);
        self.push_token(Token::Whitespace);
    }
}

/// Reading a stretch in two parts gives the place that reading it at once gives.
pub proof fn lemma_span_after_join(span: Span, src: Seq<char>, from: int, mid: int, to: int)
    requires
        0 <= from <= mid <= to <= src.len(),
    ensures
        span_after(span, src.subrange(from, to)) == span_after(
            span_after(span, src.subrange(from, mid)),
            src.subrange(mid, to),
        ),
    decreases to - mid,
{
    if mid == to {
        assert(src.subrange(mid, to).len() == 0);
    } else {
        lemma_span_after_join(span, src, from, mid, to - 1);
        assert(src.subrange(from, to).drop_last() == src.subrange(from, to - 1));
        assert(src.subrange(mid, to).drop_last() == src.subrange(mid, to - 1));
    }
}

} // verus!
