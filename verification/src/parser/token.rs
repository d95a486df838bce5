//! Tokens of the script language, the places they start at, and the cursor
//! the parser reads them through.

use crate::text::{decimal, decimal_string};
use vstd::prelude::*;
use vstd::string::StringExecFns;

verus! {

/// One lexical unit of a script.
#[derive(Debug, Default, PartialEq)]
pub enum Token {
    // Single char tokens
    Newline,
    Bang,
    Equal,
    At,
    // Multi char tokens
    AtAt,
    As,
    Delete,
    Bool(bool),
    Int(i64),
    Str(String),
    Ident(String),
    Comment,
    Whitespace,
    NoNewline,
    // Actions
    Audio,
    Clear,
    ClosePopup,
    Find,
    Goto,
    Insert,
    Jitter,
    LinePause,
    Load,
    Popup,
    Replace,
    Select,
    SetExtension,
    SetTitle,
    ShowLineNumbers,
    Speed,
    Theme,
    Type,
    TypeNl,
    Wait,
    // Eof
    Eof,
    // Consumed (used as a place holder)
    #[default]
    Consumed,
}

/// What a [`Token`] stands for: the same variants, with texts as character sequences.
pub enum TokenView {
    Newline,
    Bang,
    Equal,
    At,
    AtAt,
    As,
    Delete,
    Bool(bool),
    Int(i64),
    Str(Seq<char>),
    Ident(Seq<char>),
    Comment,
    Whitespace,
    NoNewline,
    Audio,
    Clear,
    ClosePopup,
    Find,
    Goto,
    Insert,
    Jitter,
    LinePause,
    Load,
    Popup,
    Replace,
    Select,
    SetExtension,
    SetTitle,
    ShowLineNumbers,
    Speed,
    Theme,
    Type,
    TypeNl,
    Wait,
    Eof,
    Consumed,
}

impl View for Token {
    type V = TokenView;

    open spec fn view(&self) -> TokenView {
        match *self {
            Token::Newline => TokenView::Newline,
            Token::Bang => TokenView::Bang,
            Token::Equal => TokenView::Equal,
            Token::At => TokenView::At,
            Token::AtAt => TokenView::AtAt,
            Token::As => TokenView::As,
            Token::Delete => TokenView::Delete,
            Token::Bool(b) => TokenView::Bool(b),
            Token::Int(i) => TokenView::Int(i),
            Token::Str(s) => TokenView::Str(s@),
            Token::Ident(s) => TokenView::Ident(s@),
            Token::Comment => TokenView::Comment,
            Token::Whitespace => TokenView::Whitespace,
            Token::NoNewline => TokenView::NoNewline,
            Token::Audio => TokenView::Audio,
            Token::Clear => TokenView::Clear,
            Token::ClosePopup => TokenView::ClosePopup,
            Token::Find => TokenView::Find,
            Token::Goto => TokenView::Goto,
            Token::Insert => TokenView::Insert,
            Token::Jitter => TokenView::Jitter,
            Token::LinePause => TokenView::LinePause,
            Token::Load => TokenView::Load,
            Token::Popup => TokenView::Popup,
            Token::Replace => TokenView::Replace,
            Token::Select => TokenView::Select,
            Token::SetExtension => TokenView::SetExtension,
            Token::SetTitle => TokenView::SetTitle,
            Token::ShowLineNumbers => TokenView::ShowLineNumbers,
            Token::Speed => TokenView::Speed,
            Token::Theme => TokenView::Theme,
            Token::Type => TokenView::Type,
            Token::TypeNl => TokenView::TypeNl,
            Token::Wait => TokenView::Wait,
            Token::Eof => TokenView::Eof,
            Token::Consumed => TokenView::Consumed,
        }
    }
}

/// The views of a sequence of tokens, one for one.
pub open spec fn token_views(tokens: Seq<Token>) -> Seq<TokenView> {
    tokens.map_values(|t: Token| t@)
}

impl TokenView {
    /// Whether the parser passes over this token wherever it stands.
    pub open spec fn is_trivia(self) -> bool {
        self is Whitespace || self is Comment
    }

    /// How the token is shown in messages.
    pub open spec fn text(self) -> Seq<char> {
        match self {
            TokenView::At => "@"@,
            TokenView::AtAt => "@@"@,
            TokenView::Equal => "="@,
            TokenView::Bang => "!"@,
            TokenView::Newline => "<nl>"@,
            TokenView::As => "as"@,
            TokenView::Delete => "delete"@,
            TokenView::Ident(s) => s,
            TokenView::Int(i) => decimal(i as int),
            TokenView::NoNewline => "no newline"@,
            TokenView::Str(s) => seq!['"'] + s + seq!['"'],
            TokenView::Bool(b) => if b {
                "true"@
            } else {
                "false"@
            },
            TokenView::Audio => "audio"@,
            TokenView::Clear => "clear"@,
            TokenView::ClosePopup => "closepopup"@,
            TokenView::Find => "find"@,
            TokenView::Goto => "goto"@,
            TokenView::Insert => "insert"@,
            TokenView::Jitter => "jitter"@,
            TokenView::LinePause => "line pause"@,
            TokenView::Load => "load"@,
            TokenView::Popup => "popup"@,
            TokenView::Replace => "change"@,
            TokenView::Select => "select"@,
            TokenView::SetExtension => "set extenion"@,
            TokenView::SetTitle => "set title"@,
            TokenView::ShowLineNumbers => "show line numbers"@,
            TokenView::Speed => "speed"@,
            TokenView::Theme => "theme"@,
            TokenView::Type => "type"@,
            TokenView::TypeNl => "typenl"@,
            TokenView::Wait => "wait"@,
            TokenView::Eof => "EOF"@,
            TokenView::Consumed => "<consumed>"@,
            TokenView::Comment => "<comment>"@,
            TokenView::Whitespace => "<whitespace>"@,
        }
    }
}

impl Clone for Token {
    fn clone(&self) -> (copy: Token)
        ensures
            copy@ == self@,
    {
        match self {
            Token::Newline => Token::Newline,
            Token::Bang => Token::Bang,
            Token::Equal => Token::Equal,
            Token::At => Token::At,
            Token::AtAt => Token::AtAt,
            Token::As => Token::As,
            Token::Delete => Token::Delete,
            Token::Bool(b) => Token::Bool(*b),
            Token::Int(i) => Token::Int(*i),
            Token::Str(s) => Token::Str(s.clone()),
            Token::Ident(s) => Token::Ident(s.clone()),
            Token::Comment => Token::Comment,
            Token::Whitespace => Token::Whitespace,
            Token::NoNewline => Token::NoNewline,
            Token::Audio => Token::Audio,
            Token::Clear => Token::Clear,
            Token::ClosePopup => Token::ClosePopup,
            Token::Find => Token::Find,
            Token::Goto => Token::Goto,
            Token::Insert => Token::Insert,
            Token::Jitter => Token::Jitter,
            Token::LinePause => Token::LinePause,
            Token::Load => Token::Load,
            Token::Popup => Token::Popup,
            Token::Replace => Token::Replace,
            Token::Select => Token::Select,
            Token::SetExtension => Token::SetExtension,
            Token::SetTitle => Token::SetTitle,
            Token::ShowLineNumbers => Token::ShowLineNumbers,
            Token::Speed => Token::Speed,
            Token::Theme => Token::Theme,
            Token::Type => Token::Type,
            Token::TypeNl => Token::TypeNl,
            Token::Wait => Token::Wait,
            Token::Eof => Token::Eof,
            Token::Consumed => Token::Consumed,
        }
    }
}

impl Token {
    /// The token as messages show it.
    pub fn to_string(&self) -> (out: String)
        ensures
            out@ == self@.text(),
    {
        match self {
            Token::At => String::from_str("@"),
            Token::AtAt => String::from_str("@@"),
            Token::Equal => String::from_str("="),
            Token::Bang => String::from_str("!"),
            Token::Newline => String::from_str("<nl>"),
            Token::As => String::from_str("as"),
            Token::Delete => String::from_str("delete"),
            Token::Ident(s) => s.clone(),
            Token::Int(i) => decimal_string(*i),
            Token::NoNewline => String::from_str("no newline"),
            Token::Str(s) => {
                let mut out = String::new();
                out.push('"');
                out.append(s.as_str());
                out.push('"');
                assert(out@ == seq!['"'] + s@ + seq!['"']);
                out
            },
            Token::Bool(b) => if *b {
                String::from_str("true")
            } else {
                String::from_str("false")
            },
            Token::Audio => String::from_str("audio"),
            Token::Clear => String::from_str("clear"),
            Token::ClosePopup => String::from_str("closepopup"),
            Token::Find => String::from_str("find"),
            Token::Goto => String::from_str("goto"),
            Token::Insert => String::from_str("insert"),
            Token::Jitter => String::from_str("jitter"),
            Token::LinePause => String::from_str("line pause"),
            Token::Load => String::from_str("load"),
            Token::Popup => String::from_str("popup"),
            Token::Replace => String::from_str("change"),
            Token::Select => String::from_str("select"),
            Token::SetExtension => String::from_str("set extenion"),
            Token::SetTitle => String::from_str("set title"),
            Token::ShowLineNumbers => String::from_str("show line numbers"),
            Token::Speed => String::from_str("speed"),
            Token::Theme => String::from_str("theme"),
            Token::Type => String::from_str("type"),
            Token::TypeNl => String::from_str("typenl"),
            Token::Wait => String::from_str("wait"),
            Token::Eof => String::from_str("EOF"),
            Token::Consumed => String::from_str("<consumed>"),
            Token::Comment => String::from_str("<comment>"),
            Token::Whitespace => String::from_str("<whitespace>"),
        }
    }
}

impl Token {
    /// Whether two tokens are the same variant with the same content.
    pub fn same(&self, other: &Token) -> (same: bool)
        ensures
            same == (self@ == other@),
    {
        match (self, other) {
            (Token::Newline, Token::Newline) => true,
            (Token::Bang, Token::Bang) => true,
            (Token::Equal, Token::Equal) => true,
            (Token::At, Token::At) => true,
            (Token::AtAt, Token::AtAt) => true,
            (Token::As, Token::As) => true,
            (Token::Delete, Token::Delete) => true,
            (Token::Bool(a), Token::Bool(b)) => *a == *b,
            (Token::Int(a), Token::Int(b)) => *a == *b,
            (Token::Str(a), Token::Str(b)) => *a == *b,
            (Token::Ident(a), Token::Ident(b)) => *a == *b,
            (Token::Comment, Token::Comment) => true,
            (Token::Whitespace, Token::Whitespace) => true,
            (Token::NoNewline, Token::NoNewline) => true,
            (Token::Audio, Token::Audio) => true,
            (Token::Clear, Token::Clear) => true,
            (Token::ClosePopup, Token::ClosePopup) => true,
            (Token::Find, Token::Find) => true,
            (Token::Goto, Token::Goto) => true,
            (Token::Insert, Token::Insert) => true,
            (Token::Jitter, Token::Jitter) => true,
            (Token::LinePause, Token::LinePause) => true,
            (Token::Load, Token::Load) => true,
            (Token::Popup, Token::Popup) => true,
            (Token::Replace, Token::Replace) => true,
            (Token::Select, Token::Select) => true,
            (Token::SetExtension, Token::SetExtension) => true,
            (Token::SetTitle, Token::SetTitle) => true,
            (Token::ShowLineNumbers, Token::ShowLineNumbers) => true,
            (Token::Speed, Token::Speed) => true,
            (Token::Theme, Token::Theme) => true,
            (Token::Type, Token::Type) => true,
            (Token::TypeNl, Token::TypeNl) => true,
            (Token::Wait, Token::Wait) => true,
            (Token::Eof, Token::Eof) => true,
            (Token::Consumed, Token::Consumed) => true,
            _ => false,
        }
    }
}

/// Where a token starts: its index in the stream, and the line and the
/// column, both counted from one. Columns count display widths.
#[derive(Debug, Copy, Clone, PartialEq, Eq, Structural)]
pub struct Span {
    pub token: u32,
    pub line: u16,
    pub col: u16,
}

impl Span {
    /// The place before anything was read.
    pub open spec fn spec_initial() -> Span {
        Span { token: 0, line: 1, col: 1 }
    }

    /// The place before anything was read.
    #[verifier::when_used_as_spec(spec_initial)]
    pub fn initial() -> (span: Span)
        ensures
            span == Span::spec_initial(),
    {
        Span { token: 0, line: 1, col: 1 }
    }
}

/// The first index at or after `i` whose token is neither whitespace nor a comment.
pub open spec fn skip_trivia(tokens: Seq<TokenView>, i: int) -> int
    decreases tokens.len() - i,
{
    if 0 <= i < tokens.len() && tokens[i].is_trivia() {
        skip_trivia(tokens, i + 1)
    } else {
        i
    }
}

/// Where the cursor stands after the token at `i` was consumed: on the next
/// significant token, or still on `i` where `i` is the last token.
pub open spec fn after_consume(tokens: Seq<TokenView>, i: int) -> int {
    if i == tokens.len() - 1 {
        i
    } else {
        skip_trivia(tokens, i + 1)
    }
}

/// The span of the token at `i` and the span of the token behind it; the
/// second repeats the first where `i` is the last token.
pub open spec fn span_pair(spans: Seq<Span>, i: int) -> (Span, Span) {
    (
        spans[i],
        if i + 1 == spans.len() {
            spans[i]
        } else {
            spans[i + 1]
        },
    )
}

/// Skipping stays inside a stream that ends with a significant token, and
/// stops on a significant token.
pub proof fn lemma_skip_trivia(tokens: Seq<TokenView>, i: int)
    requires
        0 <= i < tokens.len(),
        !tokens.last().is_trivia(),
    ensures
        i <= skip_trivia(tokens, i) < tokens.len(),
        !tokens[skip_trivia(tokens, i)].is_trivia(),
        forall|k: int| i <= k < skip_trivia(tokens, i) ==> (#[trigger] tokens[k]).is_trivia(),
    decreases tokens.len() - i,
{
    if tokens[i].is_trivia() {
        lemma_skip_trivia(tokens, i + 1);
    }
}

/// A token stream with a cursor.
#[derive(Debug)]
pub struct Tokens<'src> {
    pub(crate) source: &'src str,
    index: usize,
    taken: usize,
    tokens: Vec<Token>,
    spans: Vec<Span>,
}

/// What a [`Tokens`] stands for.
pub struct TokensView {
    /// The script the tokens were read from.
    pub source: Seq<char>,
    /// The index of the token under the cursor.
    pub index: int,
    /// The index of the token that was taken last.
    pub taken: int,
    pub tokens: Seq<TokenView>,
    pub spans: Seq<Span>,
}

impl TokensView {
    /// A stream has a span for each token and ends with end-of-input, its
    /// only end-of-input token or not; the cursor stands inside.
    pub open spec fn wf(self) -> bool {
        &&& self.tokens.len() == self.spans.len()
        &&& self.tokens.len() > 0
        &&& self.tokens.last() is Eof
        &&& 0 <= self.index < self.tokens.len()
        &&& 0 <= self.taken < self.tokens.len()
    }
}

impl<'src> View for Tokens<'src> {
    type V = TokensView;

    closed spec fn view(&self) -> TokensView {
        TokensView {
            source: self.source@,
            index: self.index as int,
            taken: self.taken as int,
            tokens: token_views(self.tokens@),
            spans: self.spans@,
        }
    }
}

impl<'src> Tokens<'src> {
    /// Every stream is well formed.
    #[verifier::type_invariant]
    pub open spec fn inv(self) -> bool {
        self@.wf()
    }

    pub(crate) fn new(source: &'src str, tokens: Vec<Token>, spans: Vec<Span>) -> (out: Self)
        requires
            tokens.len() == spans.len(),
            tokens.len() > 0,
            tokens@.last()@ is Eof,
        ensures
            out@ == (TokensView {
                source: source@,
                index: 0,
                taken: 0,
                tokens: token_views(tokens@),
                spans: spans@,
            }),
    {
        Self { source, index: 0, taken: 0, tokens, spans }
    }

    /// The script the tokens were read from.
    pub(crate) fn source(&self) -> (source: &'src str)
        ensures
            source@ == self@.source,
    {
        self.source
    }

    /// The token under the cursor.
    pub(crate) fn current(&self) -> (token: &Token)
        ensures
            token@ == self@.tokens[self@.index],
    {
        proof {
            use_type_invariant(self);
        }
        &self.tokens[self.index]
    }

    fn skip_pointless_tokens(&mut self)
        ensures
            final(self)@ == (TokensView {
                index: skip_trivia(old(self)@.tokens, old(self)@.index),
                ..old(self)@
            }),
    {
        proof {
            use_type_invariant(&*self);
            lemma_skip_trivia(self@.tokens, self@.index);
        }
        let ghost start = self.index as int;
        let ghost all = self@.tokens;
        let mut index = self.index;
        while Self::pointless(&self.tokens[index])
            invariant
                all == token_views(self.tokens@),
                start <= index <= skip_trivia(all, start) < self.tokens.len(),
                skip_trivia(all, start) == skip_trivia(all, index as int),
                !all[skip_trivia(all, start)].is_trivia(),
            decreases self.tokens.len() - index,
        {
            index += 1;
        }
        self.index = index;
    }

    fn pointless(token: &Token) -> (b: bool)
        ensures
            b == token@.is_trivia(),
    {
        match token {
            Token::Whitespace | Token::Comment => true,
            _ => false,
        }
    }

    /// Moves the cursor behind the token it stands on, and on to the next
    /// significant token. On the last token it stays.
    pub(crate) fn consume(&mut self)
        ensures
            final(self)@ == (TokensView {
                index: after_consume(old(self)@.tokens, old(self)@.index),
                ..old(self)@
            }),
    {
        proof {
            use_type_invariant(&*self);
        }
        if self.index == self.tokens.len() - 1 {
            return ;
        }
        self.index += 1;
        self.skip_pointless_tokens();
    }

    /// Consumes the next significant token if it is `token`, and says whether it did.
    pub(crate) fn consume_if(&mut self, token: Token) -> (consumed: bool)
        ensures
            ({
                let at = skip_trivia(old(self)@.tokens, old(self)@.index);
                &&& consumed == (old(self)@.tokens[at] == token@)
                &&& final(self)@ == (TokensView {
                    index: if consumed {
                        after_consume(old(self)@.tokens, at)
                    } else {
                        at
                    },
                    ..old(self)@
                })
            }),
    {
        self.skip_pointless_tokens();
        if token.same(self.current()) {
            self.consume();
            true
        } else {
            false
        }
    }

    /// Hands out the next significant token and moves behind it.
    pub(crate) fn take(&mut self) -> (token: Token)
        ensures
            ({
                let at = skip_trivia(old(self)@.tokens, old(self)@.index);
                &&& token@ == old(self)@.tokens[at]
                &&& final(self)@ == (TokensView {
                    index: after_consume(old(self)@.tokens, at),
                    taken: at,
                    ..old(self)@
                })
            }),
    {
        self.skip_pointless_tokens();
        let token = self.current().clone();
        proof {
            use_type_invariant(&*self);
        }
        self.taken = self.index;
        self.consume();
        token
    }

    /// The span of the token under the cursor, and the span of the token behind it.
    pub fn spans(&self) -> (spans: (Span, Span))
        ensures
            spans == span_pair(self@.spans, self@.index),
    {
        proof {
            use_type_invariant(self);
        }
        let len = self.tokens.len();
        let start = self.spans[self.index];
        let end = if self.index + 1 == len {
            start
        } else {
            self.spans[self.index + 1]
        };
        (start, end)
    }

    /// The span of the token that was taken last, and the span of the token behind it.
    pub(crate) fn taken_spans(&self) -> (spans: (Span, Span))
        ensures
            spans == span_pair(self@.spans, self@.taken),
    {
        proof {
            use_type_invariant(self);
        }
        let len = self.tokens.len();
        let start = self.spans[self.taken];
        let end = if self.taken + 1 == len {
            start
        } else {
            self.spans[self.taken + 1]
        };
        (start, end)
    }

    /// The tokens of the stream.
    pub fn take_tokens(self) -> (tokens: Vec<Token>)
        ensures
            token_views(tokens@) == self@.tokens,
    {
        self.tokens
    }
}

} // verus!
