use parrot::parser::lexer::advance;
use parrot::parser::token::{Span, Token};
use parrot::text::{
    chars_of, decimal_string, digit, letter, name_char, push_digits, spells, start_of_row,
    string_of,
};
use parrot::ui::compile::Context;
use parrot::ui::error::Error;

#[test]
fn chars_and_strings() {
    let chars = chars_of("a🐇\n");
    assert_eq!(chars, vec!['a', '🐇', '\n']);
    assert_eq!(string_of(&chars, 0, 3), "a🐇\n");
    assert_eq!(string_of(&chars, 1, 2), "🐇");
    assert_eq!(string_of(&chars, 2, 2), "");
    assert!(chars_of("").is_empty());
}

#[test]
fn spelling() {
    let chars = chars_of("go goto");
    assert!(spells(&chars, 3, 7, "goto"));
    assert!(spells(&chars, 0, 2, "go"));
    assert!(!spells(&chars, 0, 2, "goto"));
    assert!(!spells(&chars, 3, 7, "gotp"));
    assert!(!spells(&chars, 3, 6, "goto"));
    assert!(spells(&chars, 2, 2, ""));
}

#[test]
fn character_classes() {
    for c in ['a', 'z', 'A', 'Z', 'm'] {
        assert!(letter(c) && name_char(c) && !digit(c));
    }
    for c in ['0', '5', '9'] {
        assert!(digit(c) && name_char(c) && !letter(c));
    }
    assert!(name_char('_') && name_char('-'));
    for c in [' ', '@', '[', '`', '{', '/', ':', 'é', '٣'] {
        assert!(!letter(c) && !digit(c) && !name_char(c));
    }
}

#[test]
fn decimal_numbers() {
    assert_eq!(decimal_string(0), "0");
    assert_eq!(decimal_string(7), "7");
    assert_eq!(decimal_string(-7), "-7");
    assert_eq!(decimal_string(10), "10");
    assert_eq!(decimal_string(i64::MAX), "9223372036854775807");
    assert_eq!(decimal_string(i64::MIN), "-9223372036854775808");
    let mut out = vec!['#'];
    push_digits(&mut out, 4096);
    assert_eq!(out, vec!['#', '4', '0', '9', '6']);
    push_digits(&mut out, u64::MAX);
    assert_eq!(
        out.iter().collect::<String>(),
        "#409618446744073709551615"
    );
}

#[test]
fn rows_start_behind_line_feeds() {
    let text = chars_of("ab\n\ncd");
    assert_eq!(start_of_row(&text, 0), 0);
    assert_eq!(start_of_row(&text, 1), 3);
    assert_eq!(start_of_row(&text, 2), 4);
    assert_eq!(start_of_row(&text, 3), 6);
    assert_eq!(start_of_row(&text, usize::MAX), 6);
}

#[test]
fn places_advance() {
    let at = Span {
        token: 3,
        line: 2,
        col: 5,
    };
    assert_eq!(
        advance(at, 'x', Some(1)),
        Span {
            token: 3,
            line: 2,
            col: 6
        }
    );
    assert_eq!(
        advance(at, '🐇', Some(2)),
        Span {
            token: 3,
            line: 2,
            col: 7
        }
    );
    assert_eq!(advance(at, '\u{7}', None), at);
    // a line feed starts the next line, whatever width it is given
    assert_eq!(
        advance(at, '\n', Some(9)),
        Span {
            token: 3,
            line: 3,
            col: 1
        }
    );
    let last = Span {
        token: 0,
        line: u16::MAX,
        col: u16::MAX - 1,
    };
    assert_eq!(advance(last, 'x', Some(3)).col, u16::MAX);
    assert_eq!(advance(last, 'x', Some(usize::MAX)).col, u16::MAX);
    assert_eq!(advance(last, '\n', None).line, u16::MAX);
    assert_eq!(
        Span::initial(),
        Span {
            token: 0,
            line: 1,
            col: 1
        }
    );
}

#[test]
fn tokens_are_told_apart() {
    assert!(Token::Goto.same(&Token::Goto));
    assert!(!Token::Goto.same(&Token::Load));
    assert!(Token::Int(3).same(&Token::Int(3)));
    assert!(!Token::Int(3).same(&Token::Int(4)));
    assert!(Token::Str("a".into()).same(&Token::Str("a".into())));
    assert!(!Token::Str("a".into()).same(&Token::Ident("a".into())));
    assert!(!Token::Bool(true).same(&Token::Bool(false)));
    let copy = Token::Ident("name".into()).clone();
    assert_eq!(copy, Token::Ident("name".into()));
    assert_eq!(Token::default(), Token::Consumed);
}

#[test]
fn context_keeps_the_last_text_of_a_name() {
    let mut context = Context::new();
    assert!(matches!(context.load("a"), Err(Error::LoadValue(key)) if key == "a"));
    context.set("a".to_string(), "one".to_string());
    context.set("b".to_string(), "two".to_string());
    assert_eq!(context.load("a").unwrap(), "one");
    context.set("a".to_string(), "three".to_string());
    assert_eq!(context.load("a").unwrap(), "three");
    assert_eq!(context.load("b").unwrap(), "two");
    assert!(context.load("").is_err());
}
