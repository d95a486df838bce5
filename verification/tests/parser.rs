use parrot::parser::error::{ErrorKind, Result};
use parrot::parser::lexer::lex;
use parrot::parser::token::Span;
use parrot::parser::{Dest, Instruction, Source};

fn parse(input: &str) -> Result<Vec<Instruction>> {
    let tokens = lex(input)?;
    parrot::parser::parse::parse(tokens).map(|i| i.take_instructions())
}

fn parse_ok(input: &str) -> Vec<Instruction> {
    parse(input).unwrap()
}

// -----------------------------------------------------------------------------
//   - Util functions -
// -----------------------------------------------------------------------------
fn load(path: impl Into<String>, key: impl Into<String>) -> Instruction {
    let path = path.into();
    let key = key.into();
    Instruction::Load(path, key)
}

fn goto(dest: impl Into<Dest>) -> Instruction {
    Instruction::Goto(dest.into())
}

fn print_str(s: &str) -> Instruction {
    Instruction::Type {
        source: Source::Str(s.into()),
        trim_trailing_newline: false,
        prefix_newline: false,
    }
}

fn print_ident(s: &str) -> Instruction {
    Instruction::Type {
        source: Source::Ident(s.into()),
        trim_trailing_newline: false,
        prefix_newline: false,
    }
}

fn replace_str(src: &str, s: &str) -> Instruction {
    let src = src.into();
    Instruction::Replace {
        src,
        replacement: Source::Str(s.into()),
    }
}

fn replace_ident(src: &str, s: &str) -> Instruction {
    let src = src.into();
    Instruction::Replace {
        src,
        replacement: Source::Ident(s.into()),
    }
}

fn wait(secs: u64) -> Instruction {
    Instruction::Wait(secs)
}

#[test]
fn parse_load() {
    let output = parse_ok("load \"foo.rs\" as hoppy");
    let expected = vec![load("foo.rs", "hoppy")];
    assert_eq!(output, expected);
}

#[test]
fn parse_goto() {
    let output = parse_ok("goto aaa");
    let expected = vec![goto("aaa")];
    assert_eq!(output, expected);

    let output = parse_ok("goto 1, 2");
    let expected = vec![goto((1, 2))];
    assert_eq!(output, expected);
}

#[test]
fn parse_type() {
    let output = parse_ok("type \"a string\"");
    let expected = vec![print_str("a string")];
    assert_eq!(output, expected);

    let output = parse_ok("type aaa");
    let expected = vec![print_ident("aaa")];
    assert_eq!(output, expected);
}

#[test]
fn parse_replace() {
    let output = parse_ok("replace \"a\" \"b\"");
    let expected = vec![replace_str("a", "b")];
    assert_eq!(output, expected);

    let output = parse_ok("replace \"a\" b");
    let expected = vec![replace_ident("a", "b")];
    assert_eq!(output, expected);
}

#[test]
fn parse_wait() {
    let output = parse_ok("wait 123");
    let expected = vec![wait(123)];
    assert_eq!(output, expected);
}

#[test]
fn parse_goto_negatives() {
    let output = parse_ok("goto -1 -2");
    let expected = vec![goto((-1, -2))];
    assert_eq!(output, expected);
}

#[test]
fn multi_lines() {
    let output = parse_ok(
        "

        //
goto 1     2
        //
            wait 1
            // waffles
            wait 2
            // waffles
            ",
    );
    let expected = vec![goto((1, 2)), wait(1), wait(2)];
    assert_eq!(output, expected);
}

#[test]
fn parse_goto_row_and_column() {
    let output = parse_ok("goto 1 2");
    let expected = vec![Instruction::Goto(Dest::Relative { row: 1, col: 2 })];
    assert_eq!(output, expected);
}

#[test]
fn parse_whole_text() {
    let output = parrot::parser::parse("goto 1 2\nwait 3")
        .unwrap()
        .take_instructions();
    assert_eq!(output, vec![goto((1, 2)), wait(3)]);
    assert!(parrot::parser::parse("\"open").is_err());
}

#[test]
fn parse_every_instruction() {
    let output = parse_ok(
        "load \"a.rs\" as a
goto top
goto 3 4
type \"x\" nonl
typenl a
typenl \"y\" nonl
insert \"z\"
insert a
replace \"from\" \"to\"
delete
speed 20
select 2 3
find \"needle\"
linepause 300
extension \"rs\"
title \"hello\"
numbers true
numbers false
clear
jitter 7
theme \"dark\"
wait 1
sleep 2",
    );
    let expected = vec![
        load("a.rs", "a"),
        goto("top"),
        goto((3, 4)),
        Instruction::Type {
            source: Source::Str("x".into()),
            trim_trailing_newline: true,
            prefix_newline: false,
        },
        Instruction::Type {
            source: Source::Ident("a".into()),
            trim_trailing_newline: false,
            prefix_newline: true,
        },
        Instruction::Type {
            source: Source::Str("y".into()),
            trim_trailing_newline: true,
            prefix_newline: true,
        },
        Instruction::Insert(Source::Str("z".into())),
        Instruction::Insert(Source::Ident("a".into())),
        replace_str("from", "to"),
        Instruction::Delete,
        Instruction::Speed(20),
        Instruction::Select {
            width: 2,
            height: 3,
        },
        Instruction::Find("needle".into()),
        Instruction::LinePause(300),
        Instruction::SetExtension("rs".into()),
        Instruction::SetTitle("hello".into()),
        Instruction::ShowLineNumbers(true),
        Instruction::ShowLineNumbers(false),
        Instruction::Clear,
        Instruction::Jitter(7),
        Instruction::SetTheme("dark".into()),
        wait(1),
        wait(2),
    ];
    assert_eq!(output, expected);
}

#[test]
fn parse_empty_script() {
    assert_eq!(parse_ok(""), vec![]);
    assert_eq!(parse_ok("\n\n  // nothing\n"), vec![]);
}

#[test]
fn parse_integers_wrap() {
    assert_eq!(parse_ok("speed -1"), vec![Instruction::Speed(u64::MAX)]);
    assert_eq!(
        parse_ok("select 65537 -1"),
        vec![Instruction::Select {
            width: 1,
            height: 65535
        }]
    );
    assert_eq!(
        parse_ok("goto 4294967297 -4294967295"),
        vec![goto((1, 1))]
    );
}

fn kind_text(input: &str) -> String {
    parse(input).unwrap_err().kind().to_string()
}

#[test]
fn parse_invalid_instruction() {
    let err = parse("hello").unwrap_err();
    assert!(matches!(err.kind(), ErrorKind::InvalidInstruction(_)));
    assert_eq!(kind_text("hello"), "invalid instruction: `hello`");
    assert_eq!(kind_text("popup \"x\""), "invalid instruction: `popup`");
    assert_eq!(kind_text("audio \"x\""), "invalid instruction: `audio`");
    assert_eq!(kind_text("42"), "invalid instruction: `42`");
    assert_eq!(kind_text("= 1"), "invalid instruction: `=`");
}

#[test]
fn parse_invalid_argument() {
    let err = parse("goto \"x\"").unwrap_err();
    assert!(matches!(err.kind(), ErrorKind::InvalidArg { .. }));
    assert_eq!(kind_text("goto \"x\""), "expected `ident`, found `\"x\"`");
    assert_eq!(kind_text("goto 1 x"), "expected `number`, found `x`");
    assert_eq!(kind_text("goto"), "expected `ident`, found `EOF`");
    assert_eq!(kind_text("load x"), "expected `string`, found `x`");
    assert_eq!(kind_text("load \"x\" to y"), "expected `as`, found `to`");
    assert_eq!(kind_text("load \"x\" as 1"), "expected `ident`, found `1`");
    assert_eq!(kind_text("type 1"), "expected `ident`, found `1`");
    assert_eq!(kind_text("insert\n"), "expected `ident`, found `<nl>`");
    assert_eq!(kind_text("replace a b"), "expected `string`, found `a`");
    assert_eq!(
        kind_text("replace \"a\" 1"),
        "expected `string or ident`, found `1`"
    );
    assert_eq!(kind_text("speed fast"), "expected `int`, found `fast`");
    assert_eq!(kind_text("select x 1"), "expected `ident or row`, found `x`");
    assert_eq!(kind_text("select 1 x"), "expected `number`, found `x`");
    assert_eq!(kind_text("find 1"), "expected `string`, found `1`");
    assert_eq!(kind_text("linepause x"), "expected `int`, found `x`");
    assert_eq!(kind_text("extension 1"), "expected `string`, found `1`");
    assert_eq!(kind_text("title 1"), "expected `string`, found `1`");
    assert_eq!(kind_text("numbers 1"), "expected `boolean`, found `1`");
    assert_eq!(kind_text("jitter x"), "expected `boolean`, found `x`");
    assert_eq!(kind_text("theme 1"), "expected `boolean`, found `1`");
    assert_eq!(kind_text("wait x"), "expected `seconds`, found `x`");
}

#[test]
fn parse_unexpected_token() {
    let err = parse("wait 1 2").unwrap_err();
    assert!(matches!(err.kind(), ErrorKind::UnexpectedToken { .. }));
    assert_eq!(
        kind_text("wait 1 2"),
        "unexpected token, `newline or end of file`, found `2`"
    );
    assert_eq!(
        kind_text("delete clear"),
        "unexpected token, `newline or end of file`, found `clear`"
    );
}

#[test]
fn parse_error_spans_name_the_offending_token() {
    // the offending token is `x`; behind it stands whitespace
    let err = parse("wait 1\ngoto 1 x y").unwrap_err();
    let (start, end) = err.spans();
    assert_eq!(
        start,
        Span {
            token: 8,
            line: 2,
            col: 4
        }
    );
    assert_eq!(
        end,
        Span {
            token: 9,
            line: 2,
            col: 4
        }
    );

    // at the end of the input the span is repeated
    let err = parse("goto").unwrap_err();
    let (start, end) = err.spans();
    assert_eq!(start, end);
    assert_eq!(
        start,
        Span {
            token: 1,
            line: 1,
            col: 4
        }
    );
}

#[test]
fn parse_stops_at_the_first_error() {
    assert_eq!(
        kind_text("wait x\nhello"),
        "expected `seconds`, found `x`"
    );
    assert_eq!(kind_text("hello\nwait x"), "invalid instruction: `hello`");
}

#[test]
fn parse_is_a_function_of_the_text() {
    let input = "goto 1 2\ntype \"abc\" nonl\nreplace \"a\" b\n";
    assert_eq!(parse_ok(input), parse_ok(input));
}
