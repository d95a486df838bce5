//! Text as sequences of characters: conversions between strings and
//! character vectors, and the character classes the grammar is built on.

use vstd::prelude::*;

verus! {

/// `String::push` appends one character to the end of the string.
pub assume_specification[ String::push ](s: &mut String, c: char)
    ensures
        final(s)@ == old(s)@.push(c),
;

/// `String::pop` takes the last character off the string and hands it back,
/// or hands back nothing where the string is empty.
pub assume_specification[ String::pop ](s: &mut String) -> (c: Option<char>)
    ensures
        old(s)@.len() > 0 ==> c == Some(old(s)@.last()) && final(s)@ == old(s)@.drop_last(),
        old(s)@.len() == 0 ==> c is None && final(s)@ == old(s)@,
;

/// Whether `c` has the Unicode `White_Space` property, as `char::is_whitespace` decides it.
pub uninterp spec fn unicode_white_space(c: char) -> bool;

/// `char::is_whitespace`: the result is the `White_Space` property of `c`.
#[verifier::external_body]
pub(crate) fn is_white_space(c: char) -> (b: bool)
    ensures
        b == unicode_white_space(c),
{
    c.is_whitespace()
}

/// The characters of `s`, in order.
pub fn chars_of(s: &str) -> (out: Vec<char>)
    ensures
        out@ == s@,
{
    let mut out: Vec<char> = Vec::new();
    let chars = s.chars();
    for c in it: chars
        invariant
            it.seq() == s@,
            out@ == it.seq().take(it.index()),
    {
        out.push(c);
    }
    out
}

/// The string made of `chars[from..to]`.
pub fn string_of(chars: &Vec<char>, from: usize, to: usize) -> (out: String)
    requires
        from <= to <= chars.len(),
    ensures
        out@ == chars@.subrange(from as int, to as int),
{
    let mut out = String::new();
    let mut i: usize = from;
    while i < to
        invariant
            from <= i <= to <= chars.len(),
            out@ == chars@.subrange(from as int, i as int),
        decreases to - i,
    {
        out.push(chars[i]);
        i += 1;
        assert(chars@.subrange(from as int, i as int) == chars@.subrange(
            from as int,
            i as int - 1,
        ).push(chars@[i as int - 1]));
    }
    out
}

/// Whether `chars[from..to]` spells exactly the text `word`.
pub fn spells(chars: &Vec<char>, from: usize, to: usize, word: &str) -> (b: bool)
    requires
        from <= to <= chars.len(),
    ensures
        b == (chars@.subrange(from as int, to as int) == word@),
{
    let letters = chars_of(word);
    let ghost part = chars@.subrange(from as int, to as int);
    if letters.len() != to - from {
        assert(part.len() != word@.len());
        return false;
    }
    let mut i: usize = 0;
    while i < letters.len()
        invariant
            from <= to <= chars.len(),
            i <= letters.len() == to - from,
            part == chars@.subrange(from as int, to as int),
            letters@ == word@,
            part.take(i as int) == letters@.take(i as int),
        decreases letters.len() - i,
    {
        if chars[from + i] != letters[i] {
            assert(part[i as int] != letters@[i as int]);
            return false;
        }
        assert(part.take(i + 1) == part.take(i as int).push(part[i as int]));
        assert(letters@.take(i + 1) == letters@.take(i as int).push(letters@[i as int]));
        i += 1;
    }
    assert(part.take(i as int) == part);
    assert(letters@.take(i as int) == letters@);
    true
}

/// An ASCII letter, `a` to `z` or `A` to `Z`.
pub open spec fn is_letter(c: char) -> bool {
    ('a' <= c && c <= 'z') || ('A' <= c && c <= 'Z')
}

/// An ASCII decimal digit.
pub open spec fn is_digit(c: char) -> bool {
    '0' <= c && c <= '9'
}

/// A character a name is made of: an ASCII letter or digit, `_` or `-`.
pub open spec fn is_name_char(c: char) -> bool {
    is_letter(c) || is_digit(c) || c == '_' || c == '-'
}

/// Decides [`is_letter`].
pub fn letter(c: char) -> (b: bool)
    ensures
        b == is_letter(c),
{
    ('a' <= c && c <= 'z') || ('A' <= c && c <= 'Z')
}

/// Decides [`is_digit`].
pub fn digit(c: char) -> (b: bool)
    ensures
        b == is_digit(c),
{
    '0' <= c && c <= '9'
}

/// Decides [`is_name_char`].
pub fn name_char(c: char) -> (b: bool)
    ensures
        b == is_name_char(c),
{
    letter(c) || digit(c) || c == '_' || c == '-'
}

/// The decimal digits of `n`, most significant first.
pub open spec fn digits(n: nat) -> Seq<char>
    decreases n,
{
    if n < 10 {
        seq![digit_char(n)]
    } else {
        digits(n / 10).push(digit_char(n % 10))
    }
}

/// The character of the decimal digit `d`.
pub open spec fn digit_char(d: nat) -> char {
    if d == 0 {
        '0'
    } else if d == 1 {
        '1'
    } else if d == 2 {
        '2'
    } else if d == 3 {
        '3'
    } else if d == 4 {
        '4'
    } else if d == 5 {
        '5'
    } else if d == 6 {
        '6'
    } else if d == 7 {
        '7'
    } else if d == 8 {
        '8'
    } else {
        '9'
    }
}

/// How an integer is written: a minus sign for a negative one, then its digits.
pub open spec fn decimal(n: int) -> Seq<char> {
    if n < 0 {
        seq!['-'] + digits((-n) as nat)
    } else {
        digits(n as nat)
    }
}

/// Writes the digits of `n` at the end of `out`.
pub fn push_digits(out: &mut Vec<char>, n: u64)
    ensures
        final(out)@ == old(out)@ + digits(n as nat),
    decreases n,
{
    if n >= 10 {
        push_digits(out, n / 10);
    }
    let d = n % 10;
    let c = if d == 0 {
        '0'
    } else if d == 1 {
        '1'
    } else if d == 2 {
        '2'
    } else if d == 3 {
        '3'
    } else if d == 4 {
        '4'
    } else if d == 5 {
        '5'
    } else if d == 6 {
        '6'
    } else if d == 7 {
        '7'
    } else if d == 8 {
        '8'
    } else {
        '9'
    };
    out.push(c);
    assert(final(out)@ == old(out)@ + digits(n as nat)) by {
        if n >= 10 {
            assert((old(out)@ + digits((n / 10) as nat)).push(c) == old(out)@ + digits(
                (n / 10) as nat,
            ).push(c));
        } else {
            assert(old(out)@.push(c) == old(out)@ + seq![c]);
        }
    }
}

/// The integer `n` written in decimal.
pub fn decimal_string(n: i64) -> (out: String)
    ensures
        out@ == decimal(n as int),
{
    let mut chars: Vec<char> = Vec::new();
    if n < 0 {
        chars.push('-');
        let magnitude: u64 = if n == i64::MIN {
            0x8000_0000_0000_0000u64
        } else {
            (-n) as u64
        };
        assert(chars@ == seq!['-']);
        push_digits(&mut chars, magnitude);
    } else {
        push_digits(&mut chars, n as u64);
        assert(Seq::<char>::empty() + digits(n as nat) == digits(n as nat));
    }
    let len = chars.len();
    let out = string_of(&chars, 0, len);
    assert(chars@.subrange(0, len as int) == chars@);
    out
}

/// Walks from `i` past `rows` line feeds, and stops at the end of the text.
pub open spec fn skip_rows(text: Seq<char>, i: int, rows: int) -> int
    decreases text.len() - i,
{
    if rows <= 0 || i < 0 || i >= text.len() {
        i
    } else if text[i] == '\n' {
        skip_rows(text, i + 1, rows - 1)
    } else {
        skip_rows(text, i + 1, rows)
    }
}

/// The offset at which the row `row` starts; the end of the text for a row
/// that the text does not have.
pub open spec fn row_start(text: Seq<char>, row: int) -> int {
    if row < 0 {
        text.len() as int
    } else {
        skip_rows(text, 0, row)
    }
}

/// The end of the line that starts at `i`: the offset of its line feed, or
/// the end of the text.
pub open spec fn line_stop(text: Seq<char>, i: int) -> int
    decreases text.len() - i,
{
    if i < 0 || i >= text.len() || text[i] == '\n' {
        i
    } else {
        line_stop(text, i + 1)
    }
}

/// A row starts inside the text.
pub proof fn lemma_skip_rows(text: Seq<char>, i: int, rows: int)
    requires
        0 <= i <= text.len(),
    ensures
        i <= skip_rows(text, i, rows) <= text.len(),
    decreases text.len() - i,
{
    if rows > 0 && i < text.len() {
        if text[i] == '\n' {
            lemma_skip_rows(text, i + 1, rows - 1);
        } else {
            lemma_skip_rows(text, i + 1, rows);
        }
    }
}

/// A line stops inside the text, at or behind where it starts.
pub proof fn lemma_line_stop(text: Seq<char>, i: int)
    requires
        0 <= i <= text.len(),
    ensures
        i <= line_stop(text, i) <= text.len(),
    decreases text.len() - i,
{
    if i < text.len() && text[i] != '\n' {
        lemma_line_stop(text, i + 1);
    }
}

/// Computes [`row_start`] for a row that is not negative.
pub fn start_of_row(text: &Vec<char>, row: usize) -> (out: usize)
    ensures
        out == row_start(text@, row as int),
        out <= text@.len(),
{
    let mut left = row;
    let mut i: usize = 0;
    proof {
        lemma_skip_rows(text@, 0, row as int);
    }
    while left > 0 && i < text.len()
        invariant
            left <= row,
            i <= text.len(),
            skip_rows(text@, 0, row as int) == skip_rows(text@, i as int, left as int),
        decreases text.len() - i,
    {
        if text[i] == '\n' {
            left -= 1;
        }
        i += 1;
    }
    i
}

} // verus!
