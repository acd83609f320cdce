//! The scanner: source characters to tokens.
//!
//! What the scanner produces is defined by [`scan`]: one [`step`] at a time
//! from the first character, each step reading the longest lexeme that
//! starts there, until the source is used up and `Eof` is added.

use crate::lox_result::{causes_view, CauseView, LoxResult, Outcome, ParseErrorCause};
use crate::number::{Number, SCALE};
use crate::text::{chars_of, digit_value, is_digit, same_text, text_of, value_of_digit};
use crate::token::{Kind, Token, TokenType, TokenTypeView, TokenView};
use vstd::prelude::*;

verus! {

/// Whether `c` may start an identifier: an ASCII letter or `_`.
pub open spec fn is_alpha(c: char) -> bool {
    ('a' <= c <= 'z') || ('A' <= c <= 'Z') || c == '_'
}

/// Whether `c` may continue an identifier.
pub open spec fn is_alphanumeric(c: char) -> bool {
    is_alpha(c) || is_digit(c)
}

/// The first position at or after `from` that holds no digit.
pub open spec fn digits_end(src: Seq<char>, from: int) -> int
    decreases src.len() - from,
{
    if 0 <= from < src.len() && is_digit(src[from]) {
        digits_end(src, from + 1)
    } else {
        from
    }
}

/// The first position at or after `from` that cannot continue an identifier.
pub open spec fn word_end(src: Seq<char>, from: int) -> int
    decreases src.len() - from,
{
    if 0 <= from < src.len() && is_alphanumeric(src[from]) {
        word_end(src, from + 1)
    } else {
        from
    }
}

/// The position of the first newline at or after `from`, or the end of the
/// source: where a line comment stops.
pub open spec fn line_end(src: Seq<char>, from: int) -> int
    decreases src.len() - from,
{
    if 0 <= from < src.len() && src[from] != '\n' {
        line_end(src, from + 1)
    } else {
        from
    }
}

/// The position of the first `"` at or after `from`, or the end of the
/// source where there is none.
pub open spec fn quote_position(src: Seq<char>, from: int) -> int
    decreases src.len() - from,
{
    if 0 <= from < src.len() && src[from] != '"' {
        quote_position(src, from + 1)
    } else {
        from
    }
}

/// How many newlines stand in `src` from `from` up to `to`.
pub open spec fn newlines(src: Seq<char>, from: int, to: int) -> int
    decreases to - from,
{
    if 0 <= from < to <= src.len() {
        newlines(src, from, to - 1) + (if src[to - 1] == '\n' {
            1int
        } else {
            0int
        })
    } else {
        0
    }
}

/// Whether the two characters at `at` are `a` then `b`.
pub open spec fn pair_at(src: Seq<char>, at: int, a: char, b: char) -> bool {
    0 <= at && at + 1 < src.len() && src[at] == a && src[at + 1] == b
}

/// Where the block comment that is open `depth` deep at `from` closes: the
/// position after the `*/` that brings the depth to zero. Each `/*` on the
/// way opens one more level, each `*/` closes one. `None` where the source
/// ends first.
pub open spec fn comment_end(src: Seq<char>, from: int, depth: nat) -> Option<int>
    decreases src.len() - from,
{
    if from < 0 || from >= src.len() {
        None
    } else if pair_at(src, from, '/', '*') {
        comment_end(src, from + 2, depth + 1)
    } else if pair_at(src, from, '*', '/') {
        if depth <= 1 {
            Some(from + 2)
        } else {
            comment_end(src, from + 2, (depth - 1) as nat)
        }
    } else {
        comment_end(src, from + 1, depth)
    }
}

/// The value of the digits from `from` up to `to`, read as a whole number.
pub open spec fn whole_value(src: Seq<char>, from: int, to: int) -> nat
    decreases to - from,
{
    if 0 <= from < to <= src.len() {
        (whole_value(src, from, to - 1) * 10 + digit_value(src[to - 1])) as nat
    } else {
        0
    }
}

/// The value in units of the fraction digits from `from` up to `to`, the
/// first of which weighs `weight` units and each next one a tenth of the one
/// before. Digits that weigh less than a unit are dropped.
pub open spec fn fraction_value(src: Seq<char>, from: int, to: int, weight: nat) -> nat
    decreases to - from,
{
    if 0 <= from < to <= src.len() && weight > 0 {
        (digit_value(src[from]) * weight + fraction_value(src, from + 1, to, weight / 10)) as nat
    } else {
        0
    }
}

/// The keyword that `word` spells, if it spells one.
pub open spec fn keyword(word: Seq<char>) -> Option<Kind> {
    if word == "and"@ {
        Some(Kind::And)
    } else if word == "class"@ {
        Some(Kind::Class)
    } else if word == "else"@ {
        Some(Kind::Else)
    } else if word == "false"@ {
        Some(Kind::False)
    } else if word == "for"@ {
        Some(Kind::For)
    } else if word == "fun"@ {
        Some(Kind::Fun)
    } else if word == "if"@ {
        Some(Kind::If)
    } else if word == "nil"@ {
        Some(Kind::Nil)
    } else if word == "or"@ {
        Some(Kind::Or)
    } else if word == "print"@ {
        Some(Kind::Print)
    } else if word == "return"@ {
        Some(Kind::Return)
    } else if word == "super"@ {
        Some(Kind::Super)
    } else if word == "this"@ {
        Some(Kind::This)
    } else if word == "true"@ {
        Some(Kind::True)
    } else if word == "var"@ {
        Some(Kind::Var)
    } else if word == "while"@ {
        Some(Kind::While)
    } else {
        None
    }
}

/// The kind of the one-character token that `c` spells when no second
/// character joins it, if it spells one.
pub open spec fn single(c: char) -> Option<Kind> {
    if c == '(' {
        Some(Kind::LeftParen)
    } else if c == ')' {
        Some(Kind::RightParen)
    } else if c == '{' {
        Some(Kind::LeftBrace)
    } else if c == '}' {
        Some(Kind::RightBrace)
    } else if c == ',' {
        Some(Kind::Comma)
    } else if c == '.' {
        Some(Kind::Dot)
    } else if c == '-' {
        Some(Kind::Minus)
    } else if c == '+' {
        Some(Kind::Plus)
    } else if c == ':' {
        Some(Kind::Colon)
    } else if c == ';' {
        Some(Kind::Semicolon)
    } else if c == '*' {
        Some(Kind::Star)
    } else if c == '?' {
        Some(Kind::QuestionMark)
    } else if c == '!' {
        Some(Kind::Bang)
    } else if c == '=' {
        Some(Kind::Equal)
    } else if c == '<' {
        Some(Kind::Less)
    } else if c == '>' {
        Some(Kind::Greater)
    } else if c == '/' {
        Some(Kind::Slash)
    } else {
        None
    }
}

/// The kind of the two-character operator that `c` and `=` spell, if any.
pub open spec fn with_equal(c: char) -> Option<Kind> {
    if c == '!' {
        Some(Kind::BangEqual)
    } else if c == '=' {
        Some(Kind::EqualEqual)
    } else if c == '<' {
        Some(Kind::LessEqual)
    } else if c == '>' {
        Some(Kind::GreaterEqual)
    } else {
        None
    }
}

/// What one step of the scanner found.
pub enum Lexed {
    /// A token.
    Token(TokenView),
    /// A lexical error, by its message.
    Error(Seq<char>),
    /// White space or a comment.
    Nothing,
}

/// One step of the scanner: what it found, where the next step starts, and
/// the line there.
pub struct Step {
    pub next: int,
    pub line: int,
    pub lexed: Lexed,
}

/// A token without a payload.
pub open spec fn plain_token(kind: Kind, lexeme: Seq<char>, line: int) -> TokenView {
    TokenView { token_type: TokenTypeView { kind, text: Seq::empty(), units: 0 }, lexeme, line }
}

/// A token whose payload is its lexeme: an identifier or a string.
pub open spec fn text_token(kind: Kind, lexeme: Seq<char>, line: int) -> TokenView {
    TokenView { token_type: TokenTypeView { kind, text: lexeme, units: 0 }, lexeme, line }
}

/// A number token.
pub open spec fn number_token(units: int, lexeme: Seq<char>, line: int) -> TokenView {
    TokenView {
        token_type: TokenTypeView { kind: Kind::Number, text: Seq::empty(), units },
        lexeme,
        line,
    }
}

/// Where the number that starts at `pos` ends: after its digits, and after
/// `.` and more digits where a digit follows the `.`.
pub open spec fn number_end(src: Seq<char>, pos: int) -> int {
    let whole_end = digits_end(src, pos);
    if has_fraction(src, whole_end) {
        digits_end(src, whole_end + 1)
    } else {
        whole_end
    }
}

/// Whether a `.` and a digit stand at `at`.
pub open spec fn has_fraction(src: Seq<char>, at: int) -> bool {
    0 <= at && at + 1 < src.len() && src[at] == '.' && is_digit(src[at + 1])
}

/// The units of the number that starts at `pos`.
pub open spec fn number_units(src: Seq<char>, pos: int) -> int {
    let whole_end = digits_end(src, pos);
    whole_value(src, pos, whole_end) * SCALE + (if has_fraction(src, whole_end) {
        fraction_value(src, whole_end + 1, number_end(src, pos), (SCALE / 10) as nat)
    } else {
        0
    })
}

/// The step that starts at `pos`, a position inside the source, on `line`.
pub open spec fn step(src: Seq<char>, pos: int, line: int) -> Step {
    let c = src[pos];
    if c == ' ' || c == '\r' || c == '\t' {
        Step { next: pos + 1, line, lexed: Lexed::Nothing }
    } else if c == '\n' {
        Step { next: pos + 1, line: line + 1, lexed: Lexed::Nothing }
    } else if pair_at(src, pos, '/', '/') {
        Step { next: line_end(src, pos + 2), line, lexed: Lexed::Nothing }
    } else if pair_at(src, pos, '/', '*') {
        match comment_end(src, pos + 2, 1) {
            Some(end) => Step {
                next: end,
                line: line + newlines(src, pos, end),
                lexed: Lexed::Nothing,
            },
            None => Step {
                next: src.len() as int,
                line: line + newlines(src, pos, src.len() as int),
                lexed: Lexed::Error("Unterminated block comment."@),
            },
        }
    } else if with_equal(c) is Some && pos + 1 < src.len() && src[pos + 1] == '=' {
        Step {
            next: pos + 2,
            line,
            lexed: Lexed::Token(plain_token(with_equal(c)->0, src.subrange(pos, pos + 2), line)),
        }
    } else if single(c) is Some {
        Step {
            next: pos + 1,
            line,
            lexed: Lexed::Token(plain_token(single(c)->0, src.subrange(pos, pos + 1), line)),
        }
    } else if c == '"' {
        let close = quote_position(src, pos + 1);
        let end_line = line + newlines(src, pos + 1, close);
        if close < src.len() {
            Step {
                next: close + 1,
                line: end_line,
                lexed: Lexed::Token(
                    text_token(Kind::String, src.subrange(pos + 1, close), end_line),
                ),
            }
        } else {
            Step { next: close, line: end_line, lexed: Lexed::Error("Unterminated string."@) }
        }
    } else if is_digit(c) {
        let end = number_end(src, pos);
        let units = number_units(src, pos);
        if units <= i64::MAX {
            Step {
                next: end,
                line,
                lexed: Lexed::Token(number_token(units, src.subrange(pos, end), line)),
            }
        } else {
            Step { next: end, line, lexed: Lexed::Error("Number literal out of range."@) }
        }
    } else if is_alpha(c) {
        let end = word_end(src, pos);
        let word = src.subrange(pos, end);
        Step {
            next: end,
            line,
            lexed: Lexed::Token(
                match keyword(word) {
                    Some(kind) => plain_token(kind, word, line),
                    None => text_token(Kind::Identifier, word, line),
                },
            ),
        }
    } else {
        Step { next: pos + 1, line, lexed: Lexed::Error("Unexpected character."@) }
    }
}

/// The tokens and the error causes so far.
pub struct Scanned {
    pub tokens: Seq<TokenView>,
    pub errors: Seq<CauseView>,
}

/// What is scanned once `lexed` has been found with the next step starting
/// on `line`: a token joins the tokens, an error the causes, at that line.
pub open spec fn record(so_far: Scanned, lexed: Lexed, line: int) -> Scanned {
    match lexed {
        Lexed::Token(t) => Scanned { tokens: so_far.tokens.push(t), errors: so_far.errors },
        Lexed::Error(message) => Scanned {
            tokens: so_far.tokens,
            errors: so_far.errors.push(CauseView { line, lexeme: None, message }),
        },
        Lexed::Nothing => so_far,
    }
}

/// The `Eof` token on `line`.
pub open spec fn eof_token(line: int) -> TokenView {
    plain_token(Kind::Eof, Seq::empty(), line)
}

/// Everything scanned from `pos` on `line` to the end of the source, after
/// what was scanned `so_far`: step by step, then `Eof`.
pub open spec fn scan_from(src: Seq<char>, pos: int, line: int, so_far: Scanned) -> Scanned
    decreases src.len() - pos,
{
    if pos < 0 || pos >= src.len() {
        Scanned { tokens: so_far.tokens.push(eof_token(line)), errors: so_far.errors }
    } else if pos < step(src, pos, line).next <= src.len() {
        let s = step(src, pos, line);
        scan_from(src, s.next, s.line, record(so_far, s.lexed, s.line))
    } else {
        so_far
    }
}

/// The result of scanning `src`: its tokens in source order with `Eof` last,
/// or, where there was any lexical error, the causes in source order. Lines
/// count from 1.
pub open spec fn scan(src: Seq<char>) -> Result<Seq<TokenView>, Seq<CauseView>> {
    let all = scan_from(src, 0, 1, Scanned { tokens: Seq::empty(), errors: Seq::empty() });
    if all.errors.len() == 0 {
        Ok(all.tokens)
    } else {
        Err(all.errors)
    }
}

/// The tokens, each as plain values.
pub open spec fn tokens_view(tokens: Seq<Token>) -> Seq<TokenView> {
    Seq::new(tokens.len(), |i: int| tokens[i]@)
}


fn is_digit_char(c: char) -> (b: bool)
    ensures
        b == is_digit(c),
{
    '0' <= c && c <= '9'
}

fn is_alpha_char(c: char) -> (b: bool)
    ensures
        b == is_alpha(c),
{
    ('a' <= c && c <= 'z') || ('A' <= c && c <= 'Z') || c == '_'
}

fn find_digits_end(src: &Vec<char>, from: usize) -> (end: usize)
    requires
        from <= src.len(),
    ensures
        end == digits_end(src@, from as int),
        from <= end <= src.len(),
{
    let mut i: usize = from;
    while i < src.len() && is_digit_char(src[i])
        invariant
            from <= i <= src.len(),
            digits_end(src@, i as int) == digits_end(src@, from as int),
        decreases src.len() - i,
    {
        i += 1;
    }
    i
}

fn find_word_end(src: &Vec<char>, from: usize) -> (end: usize)
    requires
        from <= src.len(),
    ensures
        end == word_end(src@, from as int),
        from <= end <= src.len(),
{
    let mut i: usize = from;
    while i < src.len() && (is_alpha_char(src[i]) || is_digit_char(src[i]))
        invariant
            from <= i <= src.len(),
            word_end(src@, i as int) == word_end(src@, from as int),
        decreases src.len() - i,
    {
        i += 1;
    }
    i
}

fn find_line_end(src: &Vec<char>, from: usize) -> (end: usize)
    requires
        from <= src.len(),
    ensures
        end == line_end(src@, from as int),
        from <= end <= src.len(),
{
    let mut i: usize = from;
    while i < src.len() && src[i] != '\n'
        invariant
            from <= i <= src.len(),
            line_end(src@, i as int) == line_end(src@, from as int),
        decreases src.len() - i,
    {
        i += 1;
    }
    i
}

fn find_quote(src: &Vec<char>, from: usize) -> (end: usize)
    requires
        from <= src.len(),
    ensures
        end == quote_position(src@, from as int),
        from <= end <= src.len(),
{
    let mut i: usize = from;
    while i < src.len() && src[i] != '"'
        invariant
            from <= i <= src.len(),
            quote_position(src@, i as int) == quote_position(src@, from as int),
        decreases src.len() - i,
    {
        i += 1;
    }
    i
}

/// `line` plus the newlines from `from` up to `to`.
fn add_newlines(src: &Vec<char>, from: usize, to: usize, line: usize) -> (end_line: usize)
    requires
        from <= to <= src.len(),
        line + (to - from) <= usize::MAX,
    ensures
        end_line == line + newlines(src@, from as int, to as int),
        line <= end_line <= line + (to - from),
{
    let mut i: usize = from;
    let mut count: usize = line;
    while i < to
        invariant
            from <= i <= to <= src.len(),
            count == line + newlines(src@, from as int, i as int),
            line <= count <= line + (i - from),
            line + (to - from) <= usize::MAX,
        decreases to - i,
    {
        if src[i] == '\n' {
            count += 1;
        }
        i += 1;
    }
    count
}

fn find_comment_end(src: &Vec<char>, from: usize) -> (end: Option<usize>)
    requires
        from <= src.len(),
    ensures
        match end {
            Some(e) => comment_end(src@, from as int, 1) == Some(e as int) && from < e
                <= src.len(),
            None => comment_end(src@, from as int, 1) is None,
        },
{
    let mut i: usize = from;
    let mut depth: usize = 1;
    while i < src.len()
        invariant
            from <= i <= src.len(),
            1 <= depth <= i - from + 1,
            comment_end(src@, i as int, depth as nat) == comment_end(src@, from as int, 1),
        decreases src.len() - i,
    {
        if src[i] == '/' && i + 1 < src.len() && src[i + 1] == '*' {
            depth += 1;
            i += 2;
        } else if src[i] == '*' && i + 1 < src.len() && src[i + 1] == '/' {
            if depth <= 1 {
                return Some(i + 2);
            }
            depth -= 1;
            i += 2;
        } else {
            i += 1;
        }
    }
    None
}

/// Ten trillion: a whole part this large is out of a number's range.
const WHOLE_CAP: u128 = 10_000_000_000_000;

/// The value of the digits from `from` up to `to`, or `None` where it is
/// ten trillion or more.
fn read_whole(src: &Vec<char>, from: usize, to: usize) -> (value: Option<u128>)
    requires
        from <= to <= src.len(),
        forall|i: int| from <= i < to ==> is_digit(#[trigger] src@[i]),
    ensures
        match value {
            Some(v) => v == whole_value(src@, from as int, to as int) && v < WHOLE_CAP,
            None => whole_value(src@, from as int, to as int) >= WHOLE_CAP,
        },
{
    let mut i: usize = from;
    let mut acc: u128 = 0;
    while i < to
        invariant
            from <= i <= to <= src.len(),
            forall|i: int| from <= i < to ==> is_digit(#[trigger] src@[i]),
            acc == whole_value(src@, from as int, i as int),
            acc < WHOLE_CAP,
        decreases to - i,
    {
        let d: u8 = value_of_digit(src[i]);
        acc = acc * 10 + d as u128;
        i += 1;
        if acc >= WHOLE_CAP {
            proof {
                lemma_whole_value_grows(src@, from as int, i as int, to as int);
            }
            return None;
        }
    }
    Some(acc)
}

/// Reading more digits never makes the value smaller.
proof fn lemma_whole_value_grows(src: Seq<char>, from: int, mid: int, to: int)
    requires
        0 <= from <= mid <= to <= src.len(),
    ensures
        whole_value(src, from, mid) <= whole_value(src, from, to),
    decreases to - mid,
{
    if mid < to {
        lemma_whole_value_grows(src, from, mid, to - 1);
    }
}

/// The units of the fraction digits from `from` up to `to`.
fn read_fraction(src: &Vec<char>, from: usize, to: usize) -> (value: u128)
    requires
        from <= to <= src.len(),
        forall|i: int| from <= i < to ==> is_digit(#[trigger] src@[i]),
    ensures
        value == fraction_value(src@, from as int, to as int, (SCALE / 10) as nat),
        value < SCALE,
{
    let mut i: usize = from;
    let mut weight: u128 = 100_000;
    let mut acc: u128 = 0;
    while i < to && weight > 0
        invariant
            from <= i <= to <= src.len(),
            forall|i: int| from <= i < to ==> is_digit(#[trigger] src@[i]),
            weight <= 100_000,
            acc < SCALE,
            weight > 0 ==> acc + 10 * weight <= SCALE,
            acc + fraction_value(src@, i as int, to as int, weight as nat) == fraction_value(
                src@,
                from as int,
                to as int,
                (SCALE / 10) as nat,
            ),
        decreases to - i,
    {
        let d: u8 = value_of_digit(src[i]);
        assert(d * weight <= 9 * weight) by (nonlinear_arith)
            requires
                d <= 9,
        ;
        acc = acc + d as u128 * weight;
        weight = weight / 10;
        i += 1;
    }
    acc
}

fn plain(kind: Kind) -> (t: TokenType)
    requires
        kind != Kind::Identifier && kind != Kind::String && kind != Kind::Number,
    ensures
        t@ == (TokenTypeView { kind, text: Seq::empty(), units: 0 }),
{
    match kind {
        Kind::LeftParen => TokenType::LeftParen,
        Kind::RightParen => TokenType::RightParen,
        Kind::LeftBrace => TokenType::LeftBrace,
        Kind::RightBrace => TokenType::RightBrace,
        Kind::Comma => TokenType::Comma,
        Kind::Colon => TokenType::Colon,
        Kind::Dot => TokenType::Dot,
        Kind::Minus => TokenType::Minus,
        Kind::Plus => TokenType::Plus,
        Kind::QuestionMark => TokenType::QuestionMark,
        Kind::Semicolon => TokenType::Semicolon,
        Kind::Slash => TokenType::Slash,
        Kind::Star => TokenType::Star,
        Kind::Bang => TokenType::Bang,
        Kind::BangEqual => TokenType::BangEqual,
        Kind::Equal => TokenType::Equal,
        Kind::EqualEqual => TokenType::EqualEqual,
        Kind::Greater => TokenType::Greater,
        Kind::GreaterEqual => TokenType::GreaterEqual,
        Kind::Less => TokenType::Less,
        Kind::LessEqual => TokenType::LessEqual,
        Kind::And => TokenType::And,
        Kind::Class => TokenType::Class,
        Kind::Else => TokenType::Else,
        Kind::False => TokenType::False,
        Kind::Fun => TokenType::Fun,
        Kind::For => TokenType::For,
        Kind::If => TokenType::If,
        Kind::Nil => TokenType::Nil,
        Kind::Or => TokenType::Or,
        Kind::Print => TokenType::Print,
        Kind::Return => TokenType::Return,
        Kind::Super => TokenType::Super,
        Kind::This => TokenType::This,
        Kind::True => TokenType::True,
        Kind::Var => TokenType::Var,
        Kind::While => TokenType::While,
        _ => TokenType::Eof,
    }
}

fn single_kind(c: char) -> (k: Option<Kind>)
    ensures
        k == single(c),
        k is Some ==> k->0 != Kind::Identifier && k->0 != Kind::String && k->0 != Kind::Number,
{
    if c == '(' {
        Some(Kind::LeftParen)
    } else if c == ')' {
        Some(Kind::RightParen)
    } else if c == '{' {
        Some(Kind::LeftBrace)
    } else if c == '}' {
        Some(Kind::RightBrace)
    } else if c == ',' {
        Some(Kind::Comma)
    } else if c == '.' {
        Some(Kind::Dot)
    } else if c == '-' {
        Some(Kind::Minus)
    } else if c == '+' {
        Some(Kind::Plus)
    } else if c == ':' {
        Some(Kind::Colon)
    } else if c == ';' {
        Some(Kind::Semicolon)
    } else if c == '*' {
        Some(Kind::Star)
    } else if c == '?' {
        Some(Kind::QuestionMark)
    } else if c == '!' {
        Some(Kind::Bang)
    } else if c == '=' {
        Some(Kind::Equal)
    } else if c == '<' {
        Some(Kind::Less)
    } else if c == '>' {
        Some(Kind::Greater)
    } else if c == '/' {
        Some(Kind::Slash)
    } else {
        None
    }
}

fn with_equal_kind(c: char) -> (k: Option<Kind>)
    ensures
        k == with_equal(c),
        k is Some ==> k->0 != Kind::Identifier && k->0 != Kind::String && k->0 != Kind::Number,
{
    if c == '!' {
        Some(Kind::BangEqual)
    } else if c == '=' {
        Some(Kind::EqualEqual)
    } else if c == '<' {
        Some(Kind::LessEqual)
    } else if c == '>' {
        Some(Kind::GreaterEqual)
    } else {
        None
    }
}

fn spells(word: &Vec<char>, keyword: &str) -> (b: bool)
    ensures
        b == (word@ == keyword@),
{
    let k = chars_of(keyword);
    same_text(word, &k)
}

fn keyword_kind(word: &Vec<char>) -> (k: Option<Kind>)
    ensures
        k == keyword(word@),
        k is Some ==> k->0 != Kind::Identifier && k->0 != Kind::String && k->0 != Kind::Number,
{
    if spells(word, "and") {
        Some(Kind::And)
    } else if spells(word, "class") {
        Some(Kind::Class)
    } else if spells(word, "else") {
        Some(Kind::Else)
    } else if spells(word, "false") {
        Some(Kind::False)
    } else if spells(word, "for") {
        Some(Kind::For)
    } else if spells(word, "fun") {
        Some(Kind::Fun)
    } else if spells(word, "if") {
        Some(Kind::If)
    } else if spells(word, "nil") {
        Some(Kind::Nil)
    } else if spells(word, "or") {
        Some(Kind::Or)
    } else if spells(word, "print") {
        Some(Kind::Print)
    } else if spells(word, "return") {
        Some(Kind::Return)
    } else if spells(word, "super") {
        Some(Kind::Super)
    } else if spells(word, "this") {
        Some(Kind::This)
    } else if spells(word, "true") {
        Some(Kind::True)
    } else if spells(word, "var") {
        Some(Kind::Var)
    } else if spells(word, "while") {
        Some(Kind::While)
    } else {
        None
    }
}

/// The characters of `src` from `from` up to `to`.
fn slice_chars(src: &Vec<char>, from: usize, to: usize) -> (out: Vec<char>)
    requires
        from <= to <= src.len(),
    ensures
        out@ == src@.subrange(from as int, to as int),
{
    let mut out: Vec<char> = Vec::new();
    let mut i: usize = from;
    while i < to
        invariant
            from <= i <= to <= src.len(),
            out@ == src@.subrange(from as int, i as int),
        decreases to - i,
    {
        out.push(src[i]);
        i += 1;
        assert(out@ =~= src@.subrange(from as int, i as int));
    }
    out
}

/// A scanner over one source text.
pub struct Scanner {
    source: Vec<char>,
    pos: usize,
    line: usize,
    tokens: Vec<Token>,
    errors: Vec<ParseErrorCause>,
}

impl Scanner {
    /// The characters of the source.
    pub closed spec fn source(&self) -> Seq<char> {
        self.source@
    }

    /// The position that the next step starts at.
    pub closed spec fn position(&self) -> int {
        self.pos as int
    }

    /// The line at that position.
    pub closed spec fn line(&self) -> int {
        self.line as int
    }

    /// The tokens and the error causes found so far.
    pub closed spec fn scanned(&self) -> Scanned {
        Scanned { tokens: tokens_view(self.tokens@), errors: causes_view(self.errors@) }
    }

    /// A scanner's position lies in its source, and its line is at least 1
    /// and at most one more than the characters read.
    pub closed spec fn well_formed(&self) -> bool {
        &&& self.pos <= self.source.len()
        &&& self.source.len() < usize::MAX
        &&& 1 <= self.line <= self.pos + 1
    }

    /// A scanner at the start of `source`, on line 1, with nothing scanned.
    pub fn new(source: &str) -> (scanner: Scanner)
        requires
            source@.len() < usize::MAX,
        ensures
            scanner.well_formed(),
            scanner.source() == source@,
            scanner.position() == 0,
            scanner.line() == 1,
            scanner.scanned() == (Scanned { tokens: Seq::empty(), errors: Seq::empty() }),
    {
        let scanner = Scanner {
            source: chars_of(source),
            pos: 0,
            line: 1,
            tokens: Vec::new(),
            errors: Vec::new(),
        };
        assert(scanner.scanned().tokens =~= Seq::empty());
        assert(scanner.scanned().errors =~= Seq::empty());
        scanner
    }

    fn push_token(&mut self, token_type: TokenType, lexeme: Vec<char>, line: usize)
        ensures
            final(self).source == old(self).source,
            final(self).pos == old(self).pos,
            final(self).line == old(self).line,
            final(self).scanned() == record(
                old(self).scanned(),
                Lexed::Token(TokenView { token_type: token_type@, lexeme: lexeme@, line: line as int }),
                line as int,
            ),
    {
        let token = Token::new(token_type, text_of(&lexeme), line);
        self.tokens.push(token);
        assert(tokens_view(self.tokens@) =~= tokens_view(old(self).tokens@).push(token@));
    }

    fn push_error(&mut self, message: &str)
        ensures
            final(self).source == old(self).source,
            final(self).pos == old(self).pos,
            final(self).line == old(self).line,
            final(self).scanned() == record(
                old(self).scanned(),
                Lexed::Error(message@),
                old(self).line as int,
            ),
    {
        let cause = ParseErrorCause::new(self.line, None, message);
        self.errors.push(cause);
        assert(causes_view(self.errors@) =~= causes_view(old(self).errors@).push(cause@));
    }

    /// Reads the number that starts at the scanner's position.
    fn push_num(&mut self)
        requires
            old(self).well_formed(),
            old(self).pos < old(self).source.len(),
            is_digit(old(self).source@[old(self).pos as int]),
        ensures
            final(self).well_formed(),
            final(self).source == old(self).source,
            ({
                let s = step(old(self).source(), old(self).position(), old(self).line());
                &&& final(self).position() == s.next
                &&& final(self).line() == s.line
                &&& final(self).scanned() == record(old(self).scanned(), s.lexed, s.line)
                &&& old(self).position() < s.next
            }),
    {
        let start: usize = self.pos;
        let whole_end: usize = find_digits_end(&self.source, start);
        proof {
            lemma_digits_run(self.source@, start as int);
            lemma_digits_run(self.source@, start + 1);
        }
        let fraction: bool = whole_end + 1 < self.source.len() && self.source[whole_end] == '.'
            && is_digit_char(self.source[whole_end + 1]);
        let end: usize = if fraction {
            find_digits_end(&self.source, whole_end + 1)
        } else {
            whole_end
        };
        proof {
            if fraction {
                lemma_digits_run(self.source@, whole_end + 1);
            }
        }
        let whole: Option<u128> = read_whole(&self.source, start, whole_end);
        let part: u128 = if fraction {
            read_fraction(&self.source, whole_end + 1, end)
        } else {
            0
        };
        let lexeme = slice_chars(&self.source, start, end);
        self.pos = end;
        match whole {
            Some(w) => {
                let units: u128 = w * 1_000_000 + part;
                if units <= 9_223_372_036_854_775_807u128 {
                    let value = Number::from_units(units as i64);
                    self.push_token(TokenType::Number(value), lexeme, self.line);
                } else {
                    self.push_error("Number literal out of range.");
                }
            },
            None => {
                assert(number_units(old(self).source(), old(self).position()) > i64::MAX);
                self.push_error("Number literal out of range.");
            },
        }
    }

    /// Takes one step: reads white space, a comment or one token at the
    /// scanner's position, and records the token or the error found.
    fn scan_token(&mut self)
        requires
            old(self).well_formed(),
            old(self).position() < old(self).source().len(),
        ensures
            final(self).well_formed(),
            final(self).source() == old(self).source(),
            ({
                let s = step(old(self).source(), old(self).position(), old(self).line());
                &&& final(self).position() == s.next
                &&& final(self).line() == s.line
                &&& final(self).scanned() == record(old(self).scanned(), s.lexed, s.line)
                &&& old(self).position() < s.next <= old(self).source().len()
            }),
    {
        let start: usize = self.pos;
        let c: char = self.source[start];
        let has_next: bool = start + 1 < self.source.len();
        if c == ' ' || c == '\r' || c == '\t' {
            self.pos = start + 1;
        } else if c == '\n' {
            self.pos = start + 1;
            self.line = self.line + 1;
        } else if c == '/' && has_next && self.source[start + 1] == '/' {
            self.pos = find_line_end(&self.source, start + 2);
        } else if c == '/' && has_next && self.source[start + 1] == '*' {
            match find_comment_end(&self.source, start + 2) {
                Some(end) => {
                    self.line = add_newlines(&self.source, start, end, self.line);
                    self.pos = end;
                },
                None => {
                    self.line = add_newlines(&self.source, start, self.source.len(), self.line);
                    self.pos = self.source.len();
                    self.push_error("Unterminated block comment.");
                },
            }
        } else if with_equal_kind(c).is_some() && has_next && self.source[start + 1] == '=' {
            let kind = with_equal_kind(c).unwrap();
            let lexeme = slice_chars(&self.source, start, start + 2);
            self.pos = start + 2;
            self.push_token(plain(kind), lexeme, self.line);
        } else if single_kind(c).is_some() {
            let kind = single_kind(c).unwrap();
            let lexeme = slice_chars(&self.source, start, start + 1);
            self.pos = start + 1;
            self.push_token(plain(kind), lexeme, self.line);
        } else if c == '"' {
            let close: usize = find_quote(&self.source, start + 1);
            self.line = add_newlines(&self.source, start + 1, close, self.line);
            if close < self.source.len() {
                let lexeme = slice_chars(&self.source, start + 1, close);
                self.pos = close + 1;
                self.push_token(TokenType::String(text_of(&lexeme)), lexeme, self.line);
            } else {
                self.pos = close;
                self.push_error("Unterminated string.");
            }
        } else if is_digit_char(c) {
            self.push_num();
        } else if is_alpha_char(c) {
            let end: usize = find_word_end(&self.source, start);
            proof {
                lemma_word_end_bounds(self.source@, start + 1);
            }
            let word = slice_chars(&self.source, start, end);
            self.pos = end;
            match keyword_kind(&word) {
                Some(kind) => {
                    self.push_token(plain(kind), word, self.line);
                },
                None => {
                    self.push_token(TokenType::Identifier(text_of(&word)), word, self.line);
                },
            }
        } else {
            self.pos = start + 1;
            self.push_error("Unexpected character.");
        }
    }

    /// Scans the rest of the source and hands out what was found: the tokens
    /// in source order followed by `Eof`, or the causes of the lexical errors
    /// where there were any. The scanner is left at the end of its source
    /// with nothing scanned.
    pub fn scan_tokens(&mut self) -> (result: Result<Vec<Token>, LoxResult>)
        requires
            old(self).well_formed(),
        ensures
            final(self).well_formed(),
            final(self).source() == old(self).source(),
            final(self).position() == old(self).source().len(),
            final(self).scanned() == (Scanned { tokens: Seq::empty(), errors: Seq::empty() }),
            ({
                let all = scan_from(
                    old(self).source(),
                    old(self).position(),
                    old(self).line(),
                    old(self).scanned(),
                );
                match result {
                    Ok(tokens) => all.errors.len() == 0 && tokens_view(tokens@) == all.tokens,
                    Err(e) => all.errors.len() > 0 && e@ == (Outcome::ParseError {
                        causes: all.errors,
                    }),
                }
            }),
            old(self).position() == 0 && old(self).line() == 1 && old(self).scanned() == (Scanned {
                tokens: Seq::empty(),
                errors: Seq::empty(),
            }) ==> match result {
                Ok(tokens) => scan(old(self).source()) == Ok::<Seq<TokenView>, Seq<CauseView>>(
                    tokens_view(tokens@),
                ),
                Err(e) => scan(old(self).source()) is Err && e@ == (Outcome::ParseError {
                    causes: scan(old(self).source())->Err_0,
                }),
            },
    {
        while self.pos < self.source.len()
            invariant
                self.well_formed(),
                self.source() == old(self).source(),
                scan_from(self.source(), self.position(), self.line(), self.scanned()) == scan_from(
                    old(self).source(),
                    old(self).position(),
                    old(self).line(),
                    old(self).scanned(),
                ),
            decreases self.source.len() - self.pos,
        {
            self.scan_token();
        }
        let eof = Token::new(TokenType::Eof, String::new(), self.line);
        self.tokens.push(eof);
        let mut tokens: Vec<Token> = Vec::new();
        let mut errors: Vec<ParseErrorCause> = Vec::new();
        std::mem::swap(&mut self.tokens, &mut tokens);
        std::mem::swap(&mut self.errors, &mut errors);
        proof {
            let all = scan_from(
                old(self).source(),
                old(self).position(),
                old(self).line(),
                old(self).scanned(),
            );
            assert(tokens_view(tokens@) =~= all.tokens);
            assert(causes_view(errors@) =~= all.errors);
            assert(tokens_view(self.tokens@) =~= Seq::empty());
            assert(causes_view(self.errors@) =~= Seq::empty());
        }
        if errors.len() == 0 {
            Ok(tokens)
        } else {
            Err(LoxResult::ParseError { causes: errors })
        }
    }
}

/// A word ends at or after where it is looked for, and inside the source.
proof fn lemma_word_end_bounds(src: Seq<char>, from: int)
    requires
        0 <= from <= src.len(),
    ensures
        from <= word_end(src, from) <= src.len(),
    decreases src.len() - from,
{
    if from < src.len() && is_alphanumeric(src[from]) {
        lemma_word_end_bounds(src, from + 1);
    }
}

/// Every position from `from` up to where the digits end holds a digit.
proof fn lemma_digits_run(src: Seq<char>, from: int)
    requires
        0 <= from <= src.len(),
    ensures
        from <= digits_end(src, from) <= src.len(),
        forall|i: int| from <= i < digits_end(src, from) ==> is_digit(#[trigger] src[i]),
    decreases src.len() - from,
{
    if from < src.len() && is_digit(src[from]) {
        lemma_digits_run(src, from + 1);
    }
}


/// A line comment and a string end at or after where they are looked for,
/// and inside the source.
proof fn lemma_end_bounds(src: Seq<char>, from: int)
    requires
        0 <= from <= src.len(),
    ensures
        from <= line_end(src, from) <= src.len(),
        from <= quote_position(src, from) <= src.len(),
    decreases src.len() - from,
{
    if from < src.len() {
        lemma_end_bounds(src, from + 1);
    }
}

/// A block comment closes after where it is looked for, and inside the
/// source.
proof fn lemma_comment_end_bounds(src: Seq<char>, from: int, depth: nat)
    requires
        0 <= from <= src.len(),
    ensures
        comment_end(src, from, depth) matches Some(end) ==> from < end <= src.len(),
    decreases src.len() - from,
{
    if from < src.len() {
        if pair_at(src, from, '/', '*') {
            lemma_comment_end_bounds(src, from + 2, depth + 1);
        } else if pair_at(src, from, '*', '/') {
            if depth > 1 {
                lemma_comment_end_bounds(src, from + 2, (depth - 1) as nat);
            }
        } else {
            lemma_comment_end_bounds(src, from + 1, depth);
        }
    }
}

/// There are no more newlines in a piece of the source than characters.
proof fn lemma_newlines_bounds(src: Seq<char>, from: int, to: int)
    ensures
        0 <= newlines(src, from, to),
        from <= to ==> newlines(src, from, to) <= to - from,
    decreases to - from,
{
    if 0 <= from < to <= src.len() {
        lemma_newlines_bounds(src, from, to - 1);
    }
}

/// Every step reads at least one character and stays inside the source,
/// and the line never goes back.
pub proof fn lemma_step_advances(src: Seq<char>, pos: int, line: int)
    requires
        0 <= pos < src.len(),
    ensures
        pos < step(src, pos, line).next <= src.len(),
        line <= step(src, pos, line).line <= line + (step(src, pos, line).next - pos),
{
    lemma_end_bounds(src, pos + 1);
    if pos + 2 <= src.len() {
        lemma_end_bounds(src, pos + 2);
        lemma_comment_end_bounds(src, pos + 2, 1);
    }
    lemma_digits_run(src, pos);
    lemma_digits_run(src, pos + 1);
    let whole_end = digits_end(src, pos);
    if whole_end + 1 <= src.len() {
        lemma_digits_run(src, whole_end + 1);
    }
    lemma_word_end_bounds(src, pos + 1);
    lemma_newlines_bounds(src, pos, src.len() as int);
    lemma_newlines_bounds(src, pos + 1, quote_position(src, pos + 1));
    match comment_end(src, pos + 2, 1) {
        Some(end) => {
            lemma_newlines_bounds(src, pos, end);
        },
        None => {},
    }
}

/// Where in the source the lexeme of the token read at `pos` starts: after
/// the opening quote for a string, at `pos` for any other token.
pub open spec fn lexeme_start(src: Seq<char>, pos: int) -> int {
    if src[pos] == '"' {
        pos + 1
    } else {
        pos
    }
}

/// The lexeme of the token that a step finds is the text of the source
/// where the step reads: it starts at or after the step's start and ends
/// at or before the start of the next step. So the lexemes of the tokens
/// scanned stand in the source in the order of the tokens, and what lies
/// between them is white space, comments and the quotes of strings.
pub proof fn lemma_lexeme_is_source_text(src: Seq<char>, pos: int, line: int)
    requires
        0 <= pos < src.len(),
    ensures
        step(src, pos, line).lexed matches Lexed::Token(t) ==> {
            let start = lexeme_start(src, pos);
            &&& pos <= start
            &&& start + t.lexeme.len() <= step(src, pos, line).next
            &&& t.lexeme == src.subrange(start, start + t.lexeme.len())
            &&& t.line == step(src, pos, line).line
        },
{
    lemma_step_advances(src, pos, line);
    lemma_end_bounds(src, pos + 1);
    match step(src, pos, line).lexed {
        Lexed::Token(t) => {
            let start = lexeme_start(src, pos);
            assert(t.lexeme =~= src.subrange(start, start + t.lexeme.len()));
        },
        _ => {},
    }
}

/// What is scanned keeps what was scanned before and ends with `Eof`: the
/// tokens so far are the first of the tokens in the end, the causes so far
/// the first of the causes, and the last token is `Eof`.
pub proof fn lemma_scan_ends_with_eof(src: Seq<char>, pos: int, line: int, so_far: Scanned)
    requires
        0 <= pos <= src.len(),
    ensures
        ({
            let all = scan_from(src, pos, line, so_far);
            &&& all.tokens.len() > so_far.tokens.len()
            &&& all.tokens.subrange(0, so_far.tokens.len() as int) == so_far.tokens
            &&& all.tokens.last().token_type.kind == Kind::Eof
            &&& forall|i: int|
                so_far.tokens.len() <= i < all.tokens.len() - 1 ==> (
                #[trigger] all.tokens[i]).token_type.kind != Kind::Eof
            &&& all.errors.len() >= so_far.errors.len()
            &&& all.errors.subrange(0, so_far.errors.len() as int) == so_far.errors
        }),
    decreases src.len() - pos,
{
    let all = scan_from(src, pos, line, so_far);
    if pos >= src.len() {
        assert(all.tokens.subrange(0, so_far.tokens.len() as int) =~= so_far.tokens);
        assert(all.errors.subrange(0, so_far.errors.len() as int) =~= so_far.errors);
    } else {
        lemma_step_advances(src, pos, line);
        let s = step(src, pos, line);
        let next = record(so_far, s.lexed, s.line);
        lemma_scan_ends_with_eof(src, s.next, s.line, next);
        assert(all.tokens.subrange(0, so_far.tokens.len() as int) =~= so_far.tokens) by {
            assert(all.tokens.subrange(0, next.tokens.len() as int) == next.tokens);
            assert forall|i: int| 0 <= i < so_far.tokens.len() implies all.tokens[i]
                == so_far.tokens[i] by {
                assert(all.tokens.subrange(0, next.tokens.len() as int)[i] == all.tokens[i]);
            }
        }
        assert(all.errors.subrange(0, so_far.errors.len() as int) =~= so_far.errors) by {
            assert(all.errors.subrange(0, next.errors.len() as int) == next.errors);
            assert forall|i: int| 0 <= i < so_far.errors.len() implies all.errors[i]
                == so_far.errors[i] by {
                assert(all.errors.subrange(0, next.errors.len() as int)[i] == all.errors[i]);
            }
        }
        assert forall|i: int| so_far.tokens.len() <= i < all.tokens.len() - 1 implies (
        #[trigger] all.tokens[i]).token_type.kind != Kind::Eof by {
            if i < next.tokens.len() {
                assert(all.tokens.subrange(0, next.tokens.len() as int)[i] == all.tokens[i]);
                assert(all.tokens[i] == next.tokens[i]);
                lemma_step_kind(src, pos, line);
            }
        }
    }
}

/// No step finds an `Eof` token.
proof fn lemma_step_kind(src: Seq<char>, pos: int, line: int)
    requires
        0 <= pos < src.len(),
    ensures
        step(src, pos, line).lexed matches Lexed::Token(t) ==> t.token_type.kind != Kind::Eof,
{
}

/// The tokens of a source that scans are at least one, the last of them is
/// `Eof` and no other is.
pub proof fn lemma_scan_gives_one_eof(src: Seq<char>)
    ensures
        scan(src) matches Ok(tokens) ==> {
            &&& tokens.len() >= 1
            &&& tokens.last().token_type.kind == Kind::Eof
            &&& forall|i: int|
                0 <= i < tokens.len() - 1 ==> (#[trigger] tokens[i]).token_type.kind != Kind::Eof
        },
{
    lemma_scan_ends_with_eof(src, 0, 1, Scanned { tokens: Seq::empty(), errors: Seq::empty() });
}

} // verus!
