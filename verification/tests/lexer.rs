use parrot::parser::error::ErrorKind;
use parrot::parser::lexer::lex;
use parrot::parser::token::{Span, Token};

fn ident(s: &str) -> Token {
    Token::Ident(s.into())
}

fn string(s: &str) -> Token {
    Token::Str(s.into())
}

fn integer(i: i64) -> Token {
    Token::Int(i)
}

fn load() -> Token {
    Token::Load
}

fn goto() -> Token {
    Token::Goto
}

fn whitespace() -> Token {
    Token::Whitespace
}

fn comment() -> Token {
    Token::Comment
}

fn equal() -> Token {
    Token::Equal
}

fn nl() -> Token {
    Token::Newline
}

fn eof() -> Token {
    Token::Eof
}

fn lex_tokens(input: &str) -> Vec<Token> {
    lex(input).unwrap().take_tokens()
}

#[test]
fn lex_load() {
    let input = "load \"hello\"\n=";
    let tokens = lex_tokens(input);

    let expected = vec![load(), whitespace(), string("hello"), nl(), equal(), eof()];
    assert_eq!(tokens, expected);
}

#[test]
fn lex_goto() {
    let input = "goto 1 2";
    let tokens = lex_tokens(input);

    let expected = vec![goto(), whitespace(), integer(1), whitespace(), integer(2), eof()];
    assert_eq!(tokens, expected);
}

#[test]
fn lext_string_with_nl() {
    let input = "\"string\n\"";
    let tokens = lex_tokens(input);

    let expected = vec![string("string\n"), eof()];
    assert_eq!(tokens, expected);
}

#[test]
fn lex_negative_int() {
    let input = "-123";
    let tokens = lex_tokens(input);

    let expected = vec![integer(-123), eof()];
    assert_eq!(tokens, expected);
}

#[test]
fn lex_ident() {
    let input = "change1";
    let tokens = lex_tokens(input);

    let expected = vec![ident("change1"), eof()];
    assert_eq!(tokens, expected);
}

#[test]
fn lext_comments() {
    let input = "// comment";
    let tokens = lex_tokens(input);

    let expected = vec![comment(), eof()];
    assert_eq!(tokens, expected);
}

#[test]
fn span_for_comments() {
    let input = "// comment";
    let (start, end) = lex(input).unwrap().spans();

    assert_eq!(
        Span {
            token: 0,
            line: 1,
            col: 1
        },
        start
    );
    assert_eq!(
        Span {
            token: 1,
            line: 1,
            col: 10,
        },
        end
    );
}

#[test]
fn lex_keywords() {
    let input = "as audio clear delete extension false find goto insert jitter linepause load nonl numbers popup closepopup replace select speed title true theme type typenl wait sleep";
    let tokens: Vec<Token> = lex_tokens(input)
        .into_iter()
        .filter(|t| *t != Token::Whitespace)
        .collect();
    let expected = vec![
        Token::As,
        Token::Audio,
        Token::Clear,
        Token::Delete,
        Token::SetExtension,
        Token::Bool(false),
        Token::Find,
        Token::Goto,
        Token::Insert,
        Token::Jitter,
        Token::LinePause,
        Token::Load,
        Token::NoNewline,
        Token::ShowLineNumbers,
        Token::Popup,
        Token::ClosePopup,
        Token::Replace,
        Token::Select,
        Token::Speed,
        Token::SetTitle,
        Token::Bool(true),
        Token::Theme,
        Token::Type,
        Token::TypeNl,
        Token::Wait,
        Token::Wait,
        Token::Eof,
    ];
    assert_eq!(tokens, expected);
}

#[test]
fn lex_single_and_double_characters() {
    let tokens = lex_tokens("@@@!=\n");
    let expected = vec![
        Token::AtAt,
        Token::At,
        Token::Bang,
        Token::Equal,
        Token::Newline,
        Token::Eof,
    ];
    assert_eq!(tokens, expected);
}

#[test]
fn lex_digits_continue_a_word() {
    assert_eq!(lex_tokens("a9"), vec![ident("a9"), eof()]);
    assert_eq!(lex_tokens("x_1-y"), vec![ident("x_1-y"), eof()]);
}

#[test]
fn lex_whitespace_is_one_token_per_run() {
    assert_eq!(lex_tokens("   "), vec![whitespace(), eof()]);
    assert_eq!(
        lex_tokens("goto  \t 1"),
        vec![goto(), whitespace(), integer(1), eof()]
    );
    // a line feed is a token of its own and ends the run
    assert_eq!(
        lex_tokens("1 \n2"),
        vec![integer(1), whitespace(), nl(), integer(2), eof()]
    );
    // a lone slash starts no comment
    assert_eq!(lex_tokens("/ /"), vec![whitespace(), eof()]);
}

#[test]
fn lex_comment_runs_through_the_line_feed() {
    assert_eq!(
        lex_tokens("// one\n=// two"),
        vec![comment(), equal(), comment(), eof()]
    );
}

#[test]
fn lex_string_escapes() {
    assert_eq!(lex_tokens(r#""a\"b""#), vec![string("a\"b"), eof()]);
    assert_eq!(lex_tokens(r#""a\\b""#), vec![string("a\\b"), eof()]);
    assert_eq!(lex_tokens(r#""a\nb""#), vec![string("a\nb"), eof()]);
    assert_eq!(lex_tokens(r#"'it\'s'"#), vec![string("it's"), eof()]);
    assert_eq!(lex_tokens(r#"'say "hi"'"#), vec![string("say \"hi\""), eof()]);
    // any other character behind a backslash is taken as it is, and the
    // escape stays open
    assert_eq!(lex_tokens(r#""\tn""#), vec![string("t\n"), eof()]);
}

#[test]
fn lex_integer_limits() {
    assert_eq!(
        lex_tokens("9223372036854775807"),
        vec![integer(i64::MAX), eof()]
    );
    assert_eq!(
        lex_tokens("-9223372036854775808"),
        vec![integer(i64::MIN), eof()]
    );
    assert_eq!(lex_tokens("007"), vec![integer(7), eof()]);
    assert_eq!(lex_tokens("-0"), vec![integer(0), eof()]);
}

#[test]
fn lex_invalid_integer() {
    for input in ["-", "-x", "9223372036854775808", "-9223372036854775809", "99999999999999999999999999"] {
        let err = lex(input).unwrap_err();
        assert!(matches!(err.kind(), ErrorKind::InvalidInteger));
    }
    let err = lex("12 9223372036854775808").unwrap_err();
    let (start, end) = err.spans();
    assert_eq!(start, end);
    // the place behind the digits; the first character of a token is not counted
    assert_eq!(
        start,
        Span {
            token: 0,
            line: 1,
            col: 20
        }
    );
}

#[test]
fn lex_unterminated_string() {
    for input in ["\"abc", "'abc\"", "\"abc\\\"", "\""] {
        let err = lex(input).unwrap_err();
        assert!(matches!(err.kind(), ErrorKind::UnterminatedString));
    }
    let err = lex("=\n\"ab\ncd").unwrap_err();
    let (start, end) = err.spans();
    assert_eq!(start, end);
    assert_eq!(
        start,
        Span {
            token: 0,
            line: 3,
            col: 3
        }
    );
}

#[test]
fn lex_spans_count_display_widths() {
    // the wide character takes two columns
    let tokens = lex("\"🐇\"=").unwrap();
    let (start, end) = tokens.spans();
    assert_eq!(
        start,
        Span {
            token: 0,
            line: 1,
            col: 1
        }
    );
    // the opening quote is not counted, the rabbit counts two, the closing quote one
    assert_eq!(
        end,
        Span {
            token: 1,
            line: 1,
            col: 4
        }
    );
}

#[test]
fn lex_spans_follow_lines() {
    let tokens = lex("=\n=").unwrap();
    let (start, end) = tokens.spans();
    assert_eq!(
        start,
        Span {
            token: 0,
            line: 1,
            col: 1
        }
    );
    assert_eq!(
        end,
        Span {
            token: 1,
            line: 1,
            col: 2
        }
    );
}

#[test]
fn lex_is_a_function_of_the_text() {
    let input = "load \"a\" as b\ntype b nonl\n// done\n";
    assert_eq!(lex_tokens(input), lex_tokens(input));
}

#[test]
fn token_text() {
    assert_eq!(Token::Int(-42).to_string(), "-42");
    assert_eq!(Token::Int(0).to_string(), "0");
    assert_eq!(Token::Int(i64::MIN).to_string(), "-9223372036854775808");
    assert_eq!(Token::Int(1234567890).to_string(), "1234567890");
    assert_eq!(Token::Str("a b".into()).to_string(), "\"a b\"");
    assert_eq!(Token::Ident("name".into()).to_string(), "name");
    assert_eq!(Token::Bool(true).to_string(), "true");
    assert_eq!(Token::Newline.to_string(), "<nl>");
    assert_eq!(Token::Replace.to_string(), "change");
    assert_eq!(Token::Eof.to_string(), "EOF");
}

#[test]
fn lex_spans_stop_at_the_largest_number() {
    // a column beyond the largest column
    let input = format!("\"{}\"=", "x".repeat(70_000));
    let (_, end) = lex(&input).unwrap().spans();
    assert_eq!(
        end,
        Span {
            token: 1,
            line: 1,
            col: u16::MAX
        }
    );
    // a line beyond the largest line
    let input = format!("\"{}\"=", "\n".repeat(70_000));
    let (_, end) = lex(&input).unwrap().spans();
    assert_eq!(
        end,
        Span {
            token: 1,
            line: u16::MAX,
            col: 2
        }
    );
}
