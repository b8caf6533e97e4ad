use vstd::prelude::*;
use vstd::utf8::{valid_utf8, decode_utf8};
use crate::compiler::{Compiler, same_tables};
use crate::tokens::{TokenSpec, TokenType};

verus! {

/// Why the lexer stopped.
#[derive(Debug)]
pub enum LexError {
    /// A `/*` comment, starting at byte `start`, has no closing `*/`.
    UnterminatedComment { start: usize },
    /// A string literal on line `line` has no closing quote.
    UnclosedString { line: usize },
    /// The word `text` on line `line` is neither a keyword, a number nor an identifier.
    InvalidToken { line: usize, text: String },
}

/// The mathematical value of a [`LexError`].
pub enum LexErrorSpec {
    UnterminatedComment { start: nat },
    UnclosedString { line: nat },
    InvalidToken { line: nat, text: Seq<char> },
}

impl View for LexError {
    type V = LexErrorSpec;

    open spec fn view(&self) -> LexErrorSpec {
        match self {
            LexError::UnterminatedComment { start } => LexErrorSpec::UnterminatedComment { start: *start as nat },
            LexError::UnclosedString { line } => LexErrorSpec::UnclosedString { line: *line as nat },
            LexError::InvalidToken { line, text } => LexErrorSpec::InvalidToken { line: *line as nat, text: text@ },
        }
    }
}

/// What one step of the lexer gives: a token with the position and line
/// after it, or an error.
pub enum LexOutcome {
    Token(TokenSpec, nat, nat),
    Error(LexErrorSpec),
}

/// Bytes that the lexer skips between tokens.
pub open spec fn is_blank(b: u8) -> bool {
    b == (' ' as u8) || b == ('\t' as u8) || b == ('\r' as u8) || b == ('\n' as u8)
}

/// `u8::is_ascii_whitespace`.
pub open spec fn is_ascii_ws(b: u8) -> bool {
    b == (' ' as u8) || b == ('\t' as u8) || b == ('\n' as u8) || b == 0x0C || b == ('\r' as u8)
}

/// Bytes that end a word (an identifier, keyword or number).
pub open spec fn ends_word(b: u8) -> bool {
    is_ascii_ws(b) || b == ('{' as u8) || b == ('}' as u8) || b == ('(' as u8) || b == (')' as u8) || b == (';' as u8) || b == ('=' as u8)
        || b == ('+' as u8) || b == ('-' as u8) || b == ('*' as u8) || b == ('/' as u8) || b == ('"' as u8) || b == (',' as u8) || b == ('.' as u8)
        || b == ('&' as u8)
}

pub open spec fn is_digit(b: u8) -> bool {
    ('0' as u8) <= b <= ('9' as u8)
}

pub open spec fn is_alpha(b: u8) -> bool {
    (('a' as u8) <= b <= ('z' as u8)) || (('A' as u8) <= b <= ('Z' as u8))
}

/// Position and line after the blanks that start at `i`; each newline
/// passed counts one line.
pub open spec fn skip_blanks(src: Seq<u8>, i: nat, line: nat) -> (nat, nat)
    decreases src.len() - i,
{
    if i < src.len() && is_blank(src[i as int]) {
        skip_blanks(src, i + 1, if src[i as int] == ('\n' as u8) { line + 1 } else { line })
    } else {
        (i, line)
    }
}

/// The first position at or after `i` that ends a word.
pub open spec fn word_end(src: Seq<u8>, i: nat) -> nat
    decreases src.len() - i,
{
    if i < src.len() && !ends_word(src[i as int]) {
        word_end(src, i + 1)
    } else {
        i
    }
}

/// The first position at or after `i` that holds a newline, or the end.
pub open spec fn line_end(src: Seq<u8>, i: nat) -> nat
    decreases src.len() - i,
{
    if i < src.len() && src[i as int] != ('\n' as u8) {
        line_end(src, i + 1)
    } else {
        i
    }
}

/// The position just after the first `*/` that starts at or after `i`.
pub open spec fn block_comment_end(src: Seq<u8>, i: nat) -> Option<nat>
    decreases src.len() - i,
{
    if i + 1 < src.len() {
        if src[i as int] == ('*' as u8) && src[(i + 1) as int] == ('/' as u8) {
            Some(i + 2)
        } else {
            block_comment_end(src, i + 1)
        }
    } else {
        None
    }
}

/// What the escape sequence of a backslash followed by `b` stands for.
pub open spec fn escape_chars(b: u8) -> Seq<char> {
    if b == ('n' as u8) {
        seq!['\n']
    } else if b == ('r' as u8) {
        seq!['\r']
    } else if b == ('t' as u8) {
        seq!['\t']
    } else if b == ('\\' as u8) {
        seq!['\\']
    } else if b == ('"' as u8) {
        seq!['"']
    } else {
        seq!['\\', b as char]
    }
}

/// The characters of the string literal whose body starts at `i`, each byte
/// taken as one character and escapes decoded, and the position after its
/// closing quote; `None` when the quote never comes.
pub open spec fn scan_string(src: Seq<u8>, i: nat) -> Option<(Seq<char>, nat)>
    decreases src.len() - i,
{
    if i >= src.len() {
        None
    } else if src[i as int] == ('"' as u8) {
        Some((Seq::empty(), i + 1))
    } else if src[i as int] == ('\\' as u8) {
        if i + 1 < src.len() {
            match scan_string(src, i + 2) {
                Some((s, j)) => Some((escape_chars(src[(i + 1) as int]) + s, j)),
                None => None,
            }
        } else {
            None
        }
    } else {
        match scan_string(src, i + 1) {
            Some((s, j)) => Some((seq![src[i as int] as char] + s, j)),
            None => None,
        }
    }
}

pub open spec fn all_digits(s: Seq<u8>) -> bool {
    forall|i: int| 0 <= i < s.len() ==> is_digit(#[trigger] s[i])
}

/// The number that a sequence of decimal digits writes.
pub open spec fn digits_value(s: Seq<u8>) -> nat
    decreases s.len(),
{
    if s.len() == 0 {
        0
    } else {
        digits_value(s.drop_last()) * 10 + (s.last() - ('0' as u8)) as nat
    }
}

/// `s.parse::<i32>().unwrap_or(0)` for a sequence of digits.
pub open spec fn digits_to_i32(s: Seq<u8>) -> i32 {
    if s.len() > 0 && digits_value(s) <= i32::MAX {
        digits_value(s) as i32
    } else {
        0
    }
}

/// The token that the word `w`, ending at `e`, stands for. A word that is not
/// valid UTF-8 reads as the empty word, which reads as the number 0.
pub open spec fn word_token(w: Seq<u8>, e: nat, line: nat) -> LexOutcome {
    if !valid_utf8(w) {
        LexOutcome::Token(TokenSpec::Int(0), e, line)
    } else if w == seq![('f' as u8), ('n' as u8)] {
        LexOutcome::Token(TokenSpec::Fn, e, line)
    } else if w == seq![('l' as u8), ('e' as u8), ('t' as u8)] {
        LexOutcome::Token(TokenSpec::Let, e, line)
    } else if w == seq![('r' as u8), ('e' as u8), ('t' as u8), ('u' as u8), ('r' as u8), ('n' as u8)] {
        LexOutcome::Token(TokenSpec::Return, e, line)
    } else if w == seq![('m' as u8), ('u' as u8), ('t' as u8)] {
        LexOutcome::Token(TokenSpec::Mut, e, line)
    } else if w == seq![('e' as u8), ('x' as u8), ('t' as u8), ('r' as u8), ('n' as u8)] {
        LexOutcome::Token(TokenSpec::Extrn, e, line)
    } else if w == seq![('i' as u8), ('n' as u8), ('c' as u8), ('l' as u8), ('u' as u8), ('d' as u8), ('e' as u8)] {
        LexOutcome::Token(TokenSpec::Include, e, line)
    } else if all_digits(w) {
        LexOutcome::Token(TokenSpec::Int(digits_to_i32(w)), e, line)
    } else if w.len() > 0 && (is_alpha(w[0]) || w[0] == ('_' as u8)) {
        LexOutcome::Token(TokenSpec::Ident(decode_utf8(w)), e, line)
    } else {
        LexOutcome::Error(LexErrorSpec::InvalidToken { line, text: decode_utf8(w) })
    }
}

pub proof fn lemma_skip_blanks(src: Seq<u8>, i: nat, line: nat)
    ensures
        skip_blanks(src, i, line).0 >= i,
        i <= src.len() ==> skip_blanks(src, i, line).0 <= src.len(),
        skip_blanks(src, i, line).1 >= line,
        skip_blanks(src, i, line).1 <= line + (skip_blanks(src, i, line).0 - i),
        skip_blanks(src, i, line).0 < src.len() ==> !is_blank(src[skip_blanks(src, i, line).0 as int]),
    decreases src.len() - i,
{
    if i < src.len() && is_blank(src[i as int]) {
        lemma_skip_blanks(src, i + 1, if src[i as int] == ('\n' as u8) { line + 1 } else { line });
    }
}

pub proof fn lemma_line_end(src: Seq<u8>, i: nat)
    ensures
        line_end(src, i) >= i,
        i <= src.len() ==> line_end(src, i) <= src.len(),
    decreases src.len() - i,
{
    if i < src.len() && src[i as int] != ('\n' as u8) {
        lemma_line_end(src, i + 1);
    }
}

pub proof fn lemma_word_end(src: Seq<u8>, i: nat)
    ensures
        word_end(src, i) >= i,
        i <= src.len() ==> word_end(src, i) <= src.len(),
    decreases src.len() - i,
{
    if i < src.len() && !ends_word(src[i as int]) {
        lemma_word_end(src, i + 1);
    }
}

pub proof fn lemma_block_comment_end(src: Seq<u8>, i: nat)
    ensures
        block_comment_end(src, i) matches Some(k) ==> i + 2 <= k <= src.len(),
    decreases src.len() - i,
{
    if i + 1 < src.len() {
        if !(src[i as int] == ('*' as u8) && src[(i + 1) as int] == ('/' as u8)) {
            lemma_block_comment_end(src, i + 1);
        }
    }
}

pub proof fn lemma_scan_string(src: Seq<u8>, i: nat)
    ensures
        scan_string(src, i) matches Some((_, k)) ==> i + 1 <= k <= src.len(),
    decreases src.len() - i,
{
    if i < src.len() && src[i as int] != ('"' as u8) {
        if src[i as int] == ('\\' as u8) {
            if i + 1 < src.len() {
                lemma_scan_string(src, i + 2);
            }
        } else {
            lemma_scan_string(src, i + 1);
        }
    }
}

/// Every token but the end of input and a number is read from at least one
/// byte, so it weighs one unit more than the position that follows it.
pub open spec fn token_weight(t: TokenSpec) -> nat {
    if t is Eof || t is Int {
        0
    } else {
        1
    }
}

/// How much is left for the parser to read: two units per byte after the
/// current token, plus the weight of the current token.
pub open spec fn lex_measure(c: Compiler) -> nat {
    (2 * (c.src@.len() - c.index) + token_weight(c.cur_tok@)) as nat
}

/// The token that starts at `i` (after blanks and comments), with the
/// position and line after it.
pub open spec fn lex_spec(src: Seq<u8>, i: nat, line: nat) -> LexOutcome
    decreases src.len() - i,
{
    let (j, l) = skip_blanks(src, i, line);
    proof {
        lemma_skip_blanks(src, i, line);
    }
    if j >= src.len() {
        LexOutcome::Token(TokenSpec::Eof, j, l)
    } else {
        let c = src[j as int];
        if c == ('=' as u8) {
            LexOutcome::Token(TokenSpec::Equals, j + 1, l)
        } else if c == ('{' as u8) {
            LexOutcome::Token(TokenSpec::OpenCurly, j + 1, l)
        } else if c == ('}' as u8) {
            LexOutcome::Token(TokenSpec::CloseCurly, j + 1, l)
        } else if c == ('(' as u8) {
            LexOutcome::Token(TokenSpec::OpenParen, j + 1, l)
        } else if c == (')' as u8) {
            LexOutcome::Token(TokenSpec::CloseParen, j + 1, l)
        } else if c == (';' as u8) {
            LexOutcome::Token(TokenSpec::Semicolon, j + 1, l)
        } else if c == ('+' as u8) {
            LexOutcome::Token(TokenSpec::Plus, j + 1, l)
        } else if c == ('-' as u8) {
            LexOutcome::Token(TokenSpec::Minus, j + 1, l)
        } else if c == ('*' as u8) {
            LexOutcome::Token(TokenSpec::Star, j + 1, l)
        } else if c == ('/' as u8) {
            if j + 1 < src.len() && src[(j + 1) as int] == ('/' as u8) {
                proof {
                    lemma_line_end(src, j + 2);
                }
                lex_spec(src, line_end(src, j + 2), l)
            } else if j + 1 < src.len() && src[(j + 1) as int] == ('*' as u8) {
                proof {
                    lemma_block_comment_end(src, j + 2);
                }
                match block_comment_end(src, j + 2) {
                    Some(k) => lex_spec(src, k, l),
                    None => LexOutcome::Error(LexErrorSpec::UnterminatedComment { start: j }),
                }
            } else {
                LexOutcome::Token(TokenSpec::Slash, j + 1, l)
            }
        } else if c == ('.' as u8) && j + 1 < src.len() && src[(j + 1) as int] == ('.' as u8) {
            LexOutcome::Token(TokenSpec::Ellipsis, j + 2, l)
        } else if c == (',' as u8) {
            LexOutcome::Token(TokenSpec::Comma, j + 1, l)
        } else if c == ('"' as u8) {
            match scan_string(src, j + 1) {
                Some((s, k)) => LexOutcome::Token(TokenSpec::StringLiteral(s), k, l),
                None => LexOutcome::Error(LexErrorSpec::UnclosedString { line: l }),
            }
        } else {
            let e = word_end(src, j);
            word_token(src.subrange(j as int, e as int), e, l)
        }
    }
}


/// A number token has the decimal value of its digits: one digit is its
/// own value, and a further digit multiplies the value before it by ten
/// and adds itself, as long as the value fits in an `i32`.
pub proof fn law_digits_value(w: Seq<u8>, d: u8)
    requires
        all_digits(w),
        0x30 <= d <= 0x39,
    ensures
        w.len() == 0 ==> digits_to_i32(w.push(d)) == d - 0x30,
        w.len() > 0 && (w.push(d).len() > 0 && digits_value(w.push(d)) <= i32::MAX)
            ==> digits_to_i32(w.push(d)) == digits_to_i32(w) * 10 + (d - 0x30),
{
    assert(w.push(d).drop_last() =~= w);
    if w.len() > 0 {
        assert(digits_value(w.push(d)) == digits_value(w) * 10 + (d - 0x30));
        assert(digits_value(w) <= digits_value(w.push(d)));
    } else {
        assert(digits_value(w) == 0);
    }
}

/// The characters that the string literal whose body starts at `i` stands
/// for, empty when it is not closed.
pub open spec fn scanned_text(src: Seq<u8>, i: nat) -> Seq<char> {
    match scan_string(src, i) {
        Some((t, _)) => t,
        None => Seq::empty(),
    }
}

/// In a string literal, a backslash and `n`, `r`, `t`, `\\` or `"` stand
/// for a newline, a carriage return, a tab, a backslash and a quote; a
/// backslash before any other byte stays, followed by that byte; any other
/// byte stands for itself. Each is followed by the rest of the literal.
pub proof fn law_string_escapes(src: Seq<u8>, i: nat)
    requires
        i + 1 < src.len(),
        scan_string(src, i) is Some,
        src[i as int] != 0x22,
    ensures
        src[i as int] == 0x5C ==> scan_string(src, i + 2) is Some && scanned_text(src, i) == (
            if src[(i + 1) as int] == 0x6E { seq!['\n'] }
            else if src[(i + 1) as int] == 0x72 { seq!['\r'] }
            else if src[(i + 1) as int] == 0x74 { seq!['\t'] }
            else if src[(i + 1) as int] == 0x5C { seq!['\\'] }
            else if src[(i + 1) as int] == 0x22 { seq!['"'] }
            else { seq!['\\', src[(i + 1) as int] as char] }
        ) + scanned_text(src, i + 2),
        src[i as int] != 0x5C ==> scan_string(src, i + 1) is Some
            && scanned_text(src, i) == seq![src[i as int] as char] + scanned_text(src, i + 1),
{
}

/// The bytes at which a word (an identifier, keyword or number) stops:
/// ASCII whitespace and `{ } ( ) ; = + - * / " , . &`.
pub open spec fn word_delimiter(b: u8) -> bool {
    b == 0x20 || b == 0x09 || b == 0x0A || b == 0x0C || b == 0x0D
        || b == 0x7B || b == 0x7D || b == 0x28 || b == 0x29 || b == 0x3B || b == 0x3D
        || b == 0x2B || b == 0x2D || b == 0x2A || b == 0x2F || b == 0x22 || b == 0x2C || b == 0x2E
        || b == 0x26
}

/// The word that starts at `i` holds no delimiter and is followed by one
/// or by the end of the input.
proof fn lemma_word_stops(src: Seq<u8>, i: nat)
    requires
        i <= src.len(),
    ensures
        forall|k: int| i <= k < word_end(src, i) ==> !word_delimiter(#[trigger] src[k]),
        word_end(src, i) < src.len() ==> word_delimiter(src[word_end(src, i) as int]),
    decreases src.len() - i,
{
    if i < src.len() && !ends_word(src[i as int]) {
        lemma_word_stops(src, i + 1);
    }
}

/// An identifier token is the text of a run of bytes that holds no
/// whitespace or punctuation byte and that stops at one of them or at the
/// end of the input: `x+1` reads as `x`, then `+`, then `1`.
pub proof fn law_identifier_stops_at_delimiter(src: Seq<u8>, i: nat, line: nat)
    ensures
        lex_spec(src, i, line) matches LexOutcome::Token(TokenSpec::Ident(name), e, _) ==> exists|s: nat|
            #![trigger src.subrange(s as int, e as int)]
            s < e && e <= src.len()
                && name == decode_utf8(src.subrange(s as int, e as int))
                && (forall|k: int| s <= k < e ==> !word_delimiter(#[trigger] src[k]))
                && (e < src.len() ==> word_delimiter(src[e as int])),
    decreases src.len() - i,
{
    let (j, l) = skip_blanks(src, i, line);
    lemma_skip_blanks(src, i, line);
    if j < src.len() {
        let c = src[j as int];
        if c == ('/' as u8) && j + 1 < src.len() && src[(j + 1) as int] == ('/' as u8) {
            lemma_line_end(src, j + 2);
            law_identifier_stops_at_delimiter(src, line_end(src, j + 2), l);
        } else if c == ('/' as u8) && j + 1 < src.len() && src[(j + 1) as int] == ('*' as u8) {
            lemma_block_comment_end(src, j + 2);
            if let Some(k) = block_comment_end(src, j + 2) {
                law_identifier_stops_at_delimiter(src, k, l);
            }
        } else {
            let e = word_end(src, j);
            lemma_word_end(src, j);
            lemma_word_stops(src, j);
            if let LexOutcome::Token(TokenSpec::Ident(name), e2, _) = lex_spec(src, i, line) {
                assert(e2 == e);
                assert(src.subrange(j as int, e as int).len() > 0);
                assert(name == decode_utf8(src.subrange(j as int, e as int)));
            }
        }
    }
}

} // verus!
verus! {

fn is_blank_exec(b: u8) -> (r: bool)
    ensures
        r == is_blank(b),
{
    b == (' ' as u8) || b == ('\t' as u8) || b == ('\r' as u8) || b == ('\n' as u8)
}

fn ends_word_exec(b: u8) -> (r: bool)
    ensures
        r == ends_word(b),
{
    b == (' ' as u8) || b == ('\t' as u8) || b == ('\n' as u8) || b == 0x0C || b == ('\r' as u8)
        || b == ('{' as u8) || b == ('}' as u8) || b == ('(' as u8) || b == (')' as u8)
        || b == (';' as u8) || b == ('=' as u8) || b == ('+' as u8) || b == ('-' as u8)
        || b == ('*' as u8) || b == ('/' as u8) || b == ('"' as u8) || b == (',' as u8)
        || b == ('.' as u8) || b == ('&' as u8)
}

/// A wrapper around `std::str::from_utf8`: the text that `bytes` encode in
/// UTF-8, or `None` when they are not valid UTF-8.
#[verifier::external_body]
fn utf8_text(bytes: &[u8]) -> (r: Option<&str>)
    ensures
        r is Some <==> valid_utf8(bytes@),
        r matches Some(s) ==> s@ == decode_utf8(bytes@),
{
    std::str::from_utf8(bytes).ok()
}

/// A wrapper around `String::push`: appends one character.
#[verifier::external_body]
pub(crate) fn push_char(s: &mut String, c: char)
    ensures
        final(s)@ == old(s)@.push(c),
{
    s.push(c)
}

/// The end of the line comment whose text starts at `i`.
#[verifier::rlimit(40)]
fn line_end_exec(src: &Vec<u8>, i: usize) -> (r: usize)
    requires
        i <= src@.len(),
    ensures
        r == line_end(src@, i as nat),
{
    let mut k = i;
    while k < src.len() && src[k] != ('\n' as u8)
        invariant
            i <= k <= src@.len(),
            line_end(src@, i as nat) == line_end(src@, k as nat),
        decreases src@.len() - k,
    {
        k = k + 1;
    }
    k
}

/// The end of the word that starts at `i`.
#[verifier::rlimit(40)]
fn word_end_exec(src: &Vec<u8>, i: usize) -> (r: usize)
    requires
        i <= src@.len(),
    ensures
        r == word_end(src@, i as nat),
{
    let mut k = i;
    while k < src.len() && !ends_word_exec(src[k])
        invariant
            i <= k <= src@.len(),
            word_end(src@, i as nat) == word_end(src@, k as nat),
        decreases src@.len() - k,
    {
        k = k + 1;
    }
    k
}

/// The position after the `*/` that closes the block comment whose text
/// starts at `i`.
#[verifier::rlimit(40)]
fn block_comment_end_exec(src: &Vec<u8>, i: usize) -> (r: Option<usize>)
    requires
        i <= src@.len(),
    ensures
        match r {
            Some(k) => block_comment_end(src@, i as nat) == Some(k as nat),
            None => block_comment_end(src@, i as nat) is None,
        },
{
    let mut k = i;
    while src.len() > 0 && k < src.len() - 1
        invariant
            i <= k <= src@.len(),
            block_comment_end(src@, i as nat) == block_comment_end(src@, k as nat),
        decreases src@.len() - k,
    {
        if src[k] == ('*' as u8) && src[k + 1] == ('/' as u8) {
            return Some(k + 2);
        }
        k = k + 1;
    }
    None
}

fn escape_push(s: &mut String, b: u8)
    ensures
        final(s)@ == old(s)@ + escape_chars(b),
{
    if b == ('n' as u8) {
        push_char(s, '\n');
    } else if b == ('r' as u8) {
        push_char(s, '\r');
    } else if b == ('t' as u8) {
        push_char(s, '\t');
    } else if b == ('\\' as u8) {
        push_char(s, '\\');
    } else if b == ('"' as u8) {
        push_char(s, '"');
    } else {
        push_char(s, '\\');
        push_char(s, b as char);
    }
    assert(s@ =~= old(s)@ + escape_chars(b));
}

/// The decoded body of the string literal whose body starts at `i`, and the
/// position after its closing quote.
#[verifier::rlimit(40)]
fn scan_string_exec(src: &Vec<u8>, i: usize) -> (r: Option<(String, usize)>)
    requires
        i <= src@.len(),
    ensures
        match r {
            Some((s, k)) => scan_string(src@, i as nat) == Some((s@, k as nat)),
            None => scan_string(src@, i as nat) is None,
        },
{
    let mut decoded = String::new();
    let mut k = i;
    loop
        invariant
            i <= k,
            scan_string(src@, i as nat) == match scan_string(src@, k as nat) {
                Some((s, j)) => Some((decoded@ + s, j)),
                None => None,
            },
        decreases src@.len() - k,
    {
        if k >= src.len() {
            return None;
        }
        let b = src[k];
        if b == ('"' as u8) {
            assert(decoded@ + Seq::<char>::empty() =~= decoded@);
            return Some((decoded, k + 1));
        }
        let ghost before = decoded@;
        if b == ('\\' as u8) {
            if k + 1 < src.len() {
                escape_push(&mut decoded, src[k + 1]);
                proof {
                    let e = escape_chars(src@[k + 1]);
                    assert forall|t: Seq<char>| #[trigger] (before + (e + t)) == decoded@ + t by {
                        assert(before + (e + t) =~= (before + e) + t);
                    }
                }
                k = k + 2;
            } else {
                return None;
            }
        } else {
            push_char(&mut decoded, b as char);
            proof {
                let e = seq![b as char];
                assert forall|t: Seq<char>| #[trigger] (before + (e + t)) == decoded@ + t by {
                    assert(before + (e + t) =~= (before + e) + t);
                }
            }
            k = k + 1;
        }
    }
}

/// Whether the word from `j` to `e` is `w`.
#[verifier::rlimit(40)]
fn word_is(src: &Vec<u8>, j: usize, e: usize, w: &[u8]) -> (r: bool)
    requires
        j <= e <= src@.len(),
    ensures
        r == (src@.subrange(j as int, e as int) == w@),
{
    if e - j != w.len() {
        return false;
    }
    let mut k: usize = 0;
    while k < w.len()
        invariant
            e - j == w@.len(),
            j <= e <= src@.len(),
            k <= w@.len(),
            forall|m: int| 0 <= m < k ==> src@[j + m] == w@[m],
        decreases w@.len() - k,
    {
        if src[j + k] != w[k] {
            assert(src@.subrange(j as int, e as int)[k as int] != w@[k as int]);
            return false;
        }
        k = k + 1;
    }
    assert(src@.subrange(j as int, e as int) =~= w@);
    true
}

#[verifier::rlimit(40)]
fn all_digits_exec(src: &Vec<u8>, j: usize, e: usize) -> (r: bool)
    requires
        j <= e <= src@.len(),
    ensures
        r == all_digits(src@.subrange(j as int, e as int)),
{
    let mut k = j;
    while k < e
        invariant
            j <= k <= e <= src@.len(),
            forall|m: int| j <= m < k ==> is_digit(#[trigger] src@[m]),
        decreases e - k,
    {
        if !(('0' as u8) <= src[k] && src[k] <= ('9' as u8)) {
            assert(!is_digit(src@.subrange(j as int, e as int)[k - j]));
            return false;
        }
        k = k + 1;
    }
    assert forall|m: int| 0 <= m < e - j implies is_digit(#[trigger] src@.subrange(j as int, e as int)[m]) by {
        assert(src@.subrange(j as int, e as int)[m] == src@[j + m]);
    }
    true
}

/// The `i32` that the digits from `j` to `e` write, or 0 when there are
/// none or the number does not fit.
#[verifier::rlimit(40)]
fn digits_to_i32_exec(src: &Vec<u8>, j: usize, e: usize) -> (r: i32)
    requires
        j <= e <= src@.len(),
        all_digits(src@.subrange(j as int, e as int)),
    ensures
        r == digits_to_i32(src@.subrange(j as int, e as int)),
{
    let mut acc: u64 = 0;
    let mut overflow = false;
    let mut k = j;
    assert(src@.subrange(j as int, j as int) =~= Seq::<u8>::empty());
    while k < e
        invariant
            j <= k <= e <= src@.len(),
            all_digits(src@.subrange(j as int, e as int)),
            !overflow ==> acc == digits_value(src@.subrange(j as int, k as int)) && acc <= i32::MAX,
            overflow ==> digits_value(src@.subrange(j as int, k as int)) > i32::MAX,
        decreases e - k,
    {
        let ghost prev = src@.subrange(j as int, k as int);
        let ghost next = src@.subrange(j as int, k + 1);
        assert(next.drop_last() =~= prev);
        assert(src@.subrange(j as int, e as int)[k - j] == src@[k as int]);
        let d = src[k] - ('0' as u8);
        if !overflow {
            let n = acc * 10 + d as u64;
            if n > i32::MAX as u64 {
                overflow = true;
            } else {
                acc = n;
            }
        }
        k = k + 1;
    }
    if e > j && !overflow {
        acc as i32
    } else {
        0
    }
}

/// The token that the word from `j` to `e` stands for.
fn word_token_exec(src: &Vec<u8>, j: usize, e: usize, line: usize) -> (r: Result<TokenType, LexError>)
    requires
        j <= e <= src@.len(),
    ensures
        match word_token(src@.subrange(j as int, e as int), e as nat, line as nat) {
            LexOutcome::Token(t, _, _) => r matches Ok(tok) && tok@ == t,
            LexOutcome::Error(err) => r matches Err(x) && x@ == err,
        },
{
    let ghost w = src@.subrange(j as int, e as int);
    let slice = &src.as_slice()[j..e];
    let value = match utf8_text(slice) {
        None => {
            return Ok(TokenType::Int(0));
        }
        Some(v) => v,
    };
    if word_is(src, j, e, &['f' as u8, 'n' as u8]) {
        Ok(TokenType::Fn)
    } else if word_is(src, j, e, &['l' as u8, 'e' as u8, 't' as u8]) {
        Ok(TokenType::Let)
    } else if word_is(src, j, e, &['r' as u8, 'e' as u8, 't' as u8, 'u' as u8, 'r' as u8, 'n' as u8]) {
        Ok(TokenType::Return)
    } else if word_is(src, j, e, &['m' as u8, 'u' as u8, 't' as u8]) {
        Ok(TokenType::Mut)
    } else if word_is(src, j, e, &['e' as u8, 'x' as u8, 't' as u8, 'r' as u8, 'n' as u8]) {
        Ok(TokenType::Extrn)
    } else if word_is(src, j, e, &['i' as u8, 'n' as u8, 'c' as u8, 'l' as u8, 'u' as u8, 'd' as u8, 'e' as u8]) {
        Ok(TokenType::Include)
    } else if all_digits_exec(src, j, e) {
        Ok(TokenType::Int(digits_to_i32_exec(src, j, e)))
    } else if e > j && ((('a' as u8) <= src[j] && src[j] <= ('z' as u8)) || (('A' as u8) <= src[j] && src[j] <= ('Z' as u8)) || src[j] == ('_' as u8)) {
        Ok(TokenType::Ident(value.to_owned()))
    } else {
        Err(LexError::InvalidToken { line, text: value.to_owned() })
    }
}

/// A step of the lexer never moves back, and when it does not move at all it
/// has read the end of input or a number (the empty word reads as 0).
pub proof fn lemma_lex_progress(src: Seq<u8>, i: nat, line: nat)
    requires
        i <= src.len(),
    ensures
        lex_spec(src, i, line) matches LexOutcome::Token(t, k, _) ==> {
            &&& i <= k <= src.len()
            &&& (k == i ==> (t is Eof || t is Int))
        },
    decreases src.len() - i,
{
    lemma_skip_blanks(src, i, line);
    let (j, l) = skip_blanks(src, i, line);
    if j < src.len() {
        let c = src[j as int];
        if c == ('/' as u8) {
            if j + 1 < src.len() && src[(j + 1) as int] == ('/' as u8) {
                lemma_line_end(src, j + 2);
                lemma_lex_progress(src, line_end(src, j + 2), l);
            } else if j + 1 < src.len() && src[(j + 1) as int] == ('*' as u8) {
                lemma_block_comment_end(src, j + 2);
                if let Some(k) = block_comment_end(src, j + 2) {
                    lemma_lex_progress(src, k, l);
                }
            }
        } else if c == ('"' as u8) {
            lemma_scan_string(src, j + 1);
        } else {
            lemma_word_end(src, j);
        }
    }
}

/// Sets `comp.cur_tok` to the next token: skips blanks and comments,
/// counting the newlines it passes, and reads one token.
#[verifier::rlimit(40)]
pub fn lexe(comp: &mut Compiler) -> (r: Result<(), LexError>)
    requires
        old(comp).wf(),
    ensures
        same_tables(*final(comp), *old(comp)),
        match lex_spec(old(comp).src@, old(comp).index as nat, old(comp).line as nat) {
            LexOutcome::Token(t, i, l) => {
                &&& r is Ok
                &&& final(comp).cur_tok@ == t
                &&& final(comp).index == i
                &&& final(comp).line == l
            },
            LexOutcome::Error(e) => r matches Err(x) && x@ == e,
        },
        r is Ok ==> final(comp).wf(),
        r is Ok ==> old(comp).index <= final(comp).index,
        r is Ok ==> lex_measure(*final(comp)) <= 2 * (old(comp).src@.len() - old(comp).index),
    decreases old(comp).src@.len() - old(comp).index,
{
    proof {
        lemma_lex_progress(comp.src@, comp.index as nat, comp.line as nat);
    }
    proof {
        lemma_skip_blanks(comp.src@, comp.index as nat, comp.line as nat);
    }
    while comp.index < comp.src.len() && is_blank_exec(comp.src[comp.index])
        invariant
            same_tables(*comp, *old(comp)),
            comp.wf(),
            old(comp).index <= comp.index,
            skip_blanks(comp.src@, old(comp).index as nat, old(comp).line as nat)
                == skip_blanks(comp.src@, comp.index as nat, comp.line as nat),
        decreases comp.src@.len() - comp.index,
    {
        if comp.src[comp.index] == ('\n' as u8) {
            comp.line = comp.line + 1;
        }
        comp.index = comp.index + 1;
    }
    let ghost j = comp.index;
    let ghost l = comp.line;
    assert(skip_blanks(comp.src@, old(comp).index as nat, old(comp).line as nat) == (j as nat, l as nat));

    if comp.index >= comp.src.len() {
        comp.cur_tok = TokenType::Eof;
        return Ok(());
    }

    let c = comp.src[comp.index];
    if c == ('=' as u8) {
        comp.index = comp.index + 1;
        comp.cur_tok = TokenType::Equals;
        return Ok(());
    }
    if c == ('{' as u8) {
        comp.index = comp.index + 1;
        comp.cur_tok = TokenType::OpenCurly;
        return Ok(());
    }
    if c == ('}' as u8) {
        comp.index = comp.index + 1;
        comp.cur_tok = TokenType::CloseCurly;
        return Ok(());
    }
    if c == ('(' as u8) {
        comp.index = comp.index + 1;
        comp.cur_tok = TokenType::OpenParen;
        return Ok(());
    }
    if c == (')' as u8) {
        comp.index = comp.index + 1;
        comp.cur_tok = TokenType::CloseParen;
        return Ok(());
    }
    if c == (';' as u8) {
        comp.index = comp.index + 1;
        comp.cur_tok = TokenType::Semicolon;
        return Ok(());
    }
    if c == ('+' as u8) {
        comp.index = comp.index + 1;
        comp.cur_tok = TokenType::Plus;
        return Ok(());
    }
    if c == ('-' as u8) {
        comp.index = comp.index + 1;
        comp.cur_tok = TokenType::Minus;
        return Ok(());
    }
    if c == ('*' as u8) {
        comp.index = comp.index + 1;
        comp.cur_tok = TokenType::Star;
        return Ok(());
    }
    if c == ('/' as u8) {
        let start_index = comp.index;
        comp.index = comp.index + 1;
        if comp.index < comp.src.len() && comp.src[comp.index] == ('/' as u8) {
            comp.index = line_end_exec(&comp.src, comp.index + 1);
            proof {
                lemma_line_end(comp.src@, (start_index + 2) as nat);
            }
            return lexe(comp);
        } else if comp.index < comp.src.len() && comp.src[comp.index] == ('*' as u8) {
            match block_comment_end_exec(&comp.src, comp.index + 1) {
                Some(k) => {
                    proof {
                        lemma_block_comment_end(comp.src@, (start_index + 2) as nat);
                    }
                    comp.index = k;
                    return lexe(comp);
                }
                None => {
                    return Err(LexError::UnterminatedComment { start: start_index });
                }
            }
        } else {
            comp.cur_tok = TokenType::Slash;
            return Ok(());
        }
    }
    if c == ('.' as u8) {
        if comp.index + 1 < comp.src.len() && comp.src[comp.index + 1] == ('.' as u8) {
            comp.index = comp.index + 2;
            comp.cur_tok = TokenType::Ellipsis;
            return Ok(());
        }
    }
    if c == (',' as u8) {
        comp.index = comp.index + 1;
        comp.cur_tok = TokenType::Comma;
        return Ok(());
    }
    if c == ('"' as u8) {
        match scan_string_exec(&comp.src, comp.index + 1) {
            Some((decoded, k)) => {
                proof {
                    lemma_scan_string(comp.src@, (j + 1) as nat);
                }
                comp.index = k;
                comp.cur_tok = TokenType::StringLiteral(decoded);
                return Ok(());
            }
            None => {
                return Err(LexError::UnclosedString { line: comp.line });
            }
        }
    }

    let start = comp.index;
    let e = word_end_exec(&comp.src, start);
    proof {
        lemma_word_end(comp.src@, start as nat);
    }
    match word_token_exec(&comp.src, start, e, comp.line) {
        Ok(tok) => {
            comp.index = e;
            comp.cur_tok = tok;
            Ok(())
        }
        Err(err) => Err(err),
    }
}

} // verus!
