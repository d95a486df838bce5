use parrot::parser::lexer::lex;
use parrot::parser::parse;

#[test]
fn excerpt_of_a_parse_error() {
    let err = parse("wait 1\ngoto 1 x y").unwrap_err();
    assert_eq!(
        err.to_string(),
        "\n1: wait 1\n2: goto 1 x y\n      ^-- expected `number`, found `x`\n"
    );
}

#[test]
fn excerpt_of_a_lex_error() {
    let err = lex("=\n\"ab\ncd").unwrap_err();
    assert_eq!(
        err.to_string(),
        "\n2: \"ab\n3: cd\n     ^-- unterminated string\n"
    );
}

#[test]
fn excerpt_on_the_first_line() {
    let err = parse("hello\nwait 1\nwait 2\nwait 3\n").unwrap_err();
    assert_eq!(
        err.to_string(),
        "\n1: hello\n   ^-- invalid instruction: `hello`\n2: wait 1\n3: wait 2\n"
    );
}

#[test]
fn excerpt_pads_the_line_numbers() {
    let script = "wait 1\nwait 1\nwait 1\nwait 1\nwait 1\nwait 1\nwait 1\nwait 1\nwait 9\nwait x\nwait 11\nwait 12\n";
    let err = parse(script).unwrap_err();
    assert_eq!(
        err.to_string(),
        "\n 9: wait 9\n10: wait x\n       ^-- expected `seconds`, found `x`\n11: wait 11\n"
    );
}

#[test]
fn excerpt_without_carriage_returns() {
    let err = parse("wait 1\r\nwait x\r\n").unwrap_err();
    assert_eq!(
        err.to_string(),
        "\n1: wait 1\n2: wait x\n      ^-- expected `seconds`, found `x`\n"
    );
}
