//! Writing tokens out and scanning them again.
//!
//! The tokens of a source, written one after the other with a space after
//! each, scan to the same tokens again: the same kinds with the same
//! payloads and the same lexemes. Only their lines may differ. So the
//! lexemes and the white space between them stand for the source.

use crate::lox_result::CauseView;
use crate::number::SCALE;
use crate::scanner::{
    digits_end, eof_token, fraction_value, has_fraction, is_alpha, is_alphanumeric, keyword,
    lemma_scan_ends_with_eof, lemma_step_advances, number_end, number_units, quote_position,
    record, scan, scan_from, single, step, whole_value, with_equal, word_end, Lexed, Scanned,
};
use crate::text::is_digit;
use crate::token::{Kind, TokenView};
use vstd::prelude::*;

verus! {

/// How a token is written in a source: a string between quotes, any other
/// token as its lexeme.
pub open spec fn written(t: TokenView) -> Seq<char> {
    if t.token_type.kind == Kind::String {
        seq!['"'] + t.lexeme + seq!['"']
    } else {
        t.lexeme
    }
}

/// The tokens from `from` on but the last, each written out with a space
/// after it.
pub open spec fn rendered(tokens: Seq<TokenView>, from: int) -> Seq<char>
    decreases tokens.len() - from,
{
    if from < 0 || from >= tokens.len() - 1 {
        Seq::empty()
    } else {
        written(tokens[from]) + seq![' '] + rendered(tokens, from + 1)
    }
}

/// Whether two tokens are alike but for their lines: the same kind with the
/// same payload, and the same lexeme.
pub open spec fn alike(a: TokenView, b: TokenView) -> bool {
    a.token_type == b.token_type && a.lexeme == b.lexeme
}

/// Whether two lists of tokens are alike but for the lines.
pub open spec fn all_alike(a: Seq<TokenView>, b: Seq<TokenView>) -> bool {
    a.len() == b.len() && forall|i: int| 0 <= i < a.len() ==> alike(#[trigger] a[i], b[i])
}

/// Whether `lexeme` spells a number of `units`: digits, and after a `.`
/// more digits if there is a `.`.
pub open spec fn spells_number(lexeme: Seq<char>, units: int) -> bool {
    let whole = digits_end(lexeme, 0);
    &&& 0 < whole <= lexeme.len()
    &&& forall|i: int| 0 <= i < whole ==> is_digit(#[trigger] lexeme[i])
    &&& whole < lexeme.len() ==> {
        &&& lexeme[whole] == '.'
        &&& whole + 1 < lexeme.len()
        &&& forall|i: int| whole < i < lexeme.len() ==> is_digit(#[trigger] lexeme[i])
    }
    &&& units == whole_value(lexeme, 0, whole) * SCALE + (if whole < lexeme.len() {
        fraction_value(lexeme, whole + 1, lexeme.len() as int, (SCALE / 10) as nat)
    } else {
        0
    })
    &&& units <= i64::MAX
}

/// Whether `lexeme` spells a word: a letter or `_`, then letters, digits
/// and `_`.
pub open spec fn spells_word(lexeme: Seq<char>) -> bool {
    &&& lexeme.len() > 0
    &&& is_alpha(lexeme[0])
    &&& forall|i: int| 0 <= i < lexeme.len() ==> is_alphanumeric(#[trigger] lexeme[i])
}

/// Whether a token is one that a step of the scanner may find: its lexeme
/// spells what its kind says, and its payload is what the lexeme gives.
pub open spec fn well_shaped(t: TokenView) -> bool {
    let kind = t.token_type.kind;
    if kind == Kind::Eof {
        false
    } else if kind == Kind::String {
        &&& t.token_type.text == t.lexeme
        &&& t.token_type.units == 0
        &&& forall|i: int| 0 <= i < t.lexeme.len() ==> #[trigger] t.lexeme[i] != '"'
    } else if kind == Kind::Number {
        &&& t.token_type.text == Seq::<char>::empty()
        &&& spells_number(t.lexeme, t.token_type.units)
    } else if kind == Kind::Identifier {
        &&& t.token_type.text == t.lexeme
        &&& t.token_type.units == 0
        &&& spells_word(t.lexeme)
        &&& keyword(t.lexeme) is None
    } else {
        &&& t.token_type.text == Seq::<char>::empty()
        &&& t.token_type.units == 0
        &&& {
            ||| spells_word(t.lexeme) && keyword(t.lexeme) == Some(kind)
            ||| t.lexeme.len() == 1 && single(t.lexeme[0]) == Some(kind)
            ||| t.lexeme.len() == 2 && t.lexeme[1] == '=' && with_equal(t.lexeme[0]) == Some(
                kind,
            )
        }
    }
}

/// Digits end where the first character that is no digit stands.
proof fn lemma_digits_end_is(s: Seq<char>, from: int, to: int)
    requires
        0 <= from <= to <= s.len(),
        forall|i: int| from <= i < to ==> is_digit(#[trigger] s[i]),
        to == s.len() || !is_digit(s[to]),
    ensures
        digits_end(s, from) == to,
    decreases to - from,
{
    if from < to {
        lemma_digits_end_is(s, from + 1, to);
    }
}

/// Every position up to where the digits end holds a digit.
proof fn lemma_digits_before_end(s: Seq<char>, from: int)
    requires
        0 <= from <= s.len(),
    ensures
        from <= digits_end(s, from) <= s.len(),
        forall|i: int| from <= i < digits_end(s, from) ==> is_digit(#[trigger] s[i]),
        digits_end(s, from) == s.len() || !is_digit(s[digits_end(s, from)]),
    decreases s.len() - from,
{
    if from < s.len() && is_digit(s[from]) {
        lemma_digits_before_end(s, from + 1);
    }
}

/// A word ends where the first character that cannot continue it stands.
proof fn lemma_word_end_is(s: Seq<char>, from: int, to: int)
    requires
        0 <= from <= to <= s.len(),
        forall|i: int| from <= i < to ==> is_alphanumeric(#[trigger] s[i]),
        to == s.len() || !is_alphanumeric(s[to]),
    ensures
        word_end(s, from) == to,
    decreases to - from,
{
    if from < to {
        lemma_word_end_is(s, from + 1, to);
    }
}

/// Every position up to where a word ends can continue a word.
proof fn lemma_word_before_end(s: Seq<char>, from: int)
    requires
        0 <= from <= s.len(),
    ensures
        from <= word_end(s, from) <= s.len(),
        forall|i: int| from <= i < word_end(s, from) ==> is_alphanumeric(#[trigger] s[i]),
    decreases s.len() - from,
{
    if from < s.len() && is_alphanumeric(s[from]) {
        lemma_word_before_end(s, from + 1);
    }
}

/// The first quote stands where no quote stands before.
proof fn lemma_quote_position_is(s: Seq<char>, from: int, to: int)
    requires
        0 <= from <= to <= s.len(),
        forall|i: int| from <= i < to ==> #[trigger] s[i] != '"',
        to == s.len() || s[to] == '"',
    ensures
        quote_position(s, from) == to,
    decreases to - from,
{
    if from < to {
        lemma_quote_position_is(s, from + 1, to);
    }
}

/// No quote stands before the first quote.
proof fn lemma_no_quote_before(s: Seq<char>, from: int)
    requires
        0 <= from <= s.len(),
    ensures
        from <= quote_position(s, from) <= s.len(),
        forall|i: int| from <= i < quote_position(s, from) ==> #[trigger] s[i] != '"',
    decreases s.len() - from,
{
    if from < s.len() && s[from] != '"' {
        lemma_no_quote_before(s, from + 1);
    }
}

/// The same digits have the same value, wherever they stand.
proof fn lemma_whole_value_same(a: Seq<char>, at: int, b: Seq<char>, bt: int, n: int)
    requires
        0 <= at,
        0 <= bt,
        0 <= n,
        at + n <= a.len(),
        bt + n <= b.len(),
        a.subrange(at, at + n) == b.subrange(bt, bt + n),
    ensures
        whole_value(a, at, at + n) == whole_value(b, bt, bt + n),
    decreases n,
{
    if n > 0 {
        let x = a.subrange(at, at + n);
        let y = b.subrange(bt, bt + n);
        assert(x[n - 1] == y[n - 1]);
        let shorter_a = a.subrange(at, at + n - 1);
        let shorter_b = b.subrange(bt, bt + n - 1);
        assert(shorter_a =~= shorter_b) by {
            assert forall|i: int| 0 <= i < n - 1 implies #[trigger] shorter_a[i]
                == shorter_b[i] by {
                assert(x[i] == y[i]);
            }
        }
        lemma_whole_value_same(a, at, b, bt, n - 1);
    }
}

/// The same fraction digits have the same value, wherever they stand.
proof fn lemma_fraction_value_same(
    a: Seq<char>,
    at: int,
    b: Seq<char>,
    bt: int,
    n: int,
    weight: nat,
)
    requires
        0 <= at,
        0 <= bt,
        0 <= n,
        at + n <= a.len(),
        bt + n <= b.len(),
        a.subrange(at, at + n) == b.subrange(bt, bt + n),
    ensures
        fraction_value(a, at, at + n, weight) == fraction_value(b, bt, bt + n, weight),
    decreases n,
{
    if n > 0 && weight > 0 {
        let x = a.subrange(at, at + n);
        let y = b.subrange(bt, bt + n);
        assert(x[0] == y[0]);
        let later_a = a.subrange(at + 1, at + n);
        let later_b = b.subrange(bt + 1, bt + n);
        assert(later_a =~= later_b) by {
            assert forall|i: int| 0 <= i < n - 1 implies #[trigger] later_a[i] == later_b[i] by {
                assert(x[i + 1] == y[i + 1]);
            }
        }
        lemma_fraction_value_same(a, at + 1, b, bt + 1, n - 1, weight / 10);
    }
}

/// Where `lexeme` stands at `p` in `s` and spells a number, and no digit and
/// no fraction follows it, the number read at `p` is that number.
proof fn lemma_number_at(s: Seq<char>, p: int, lexeme: Seq<char>, units: int)
    requires
        0 <= p,
        p + lexeme.len() <= s.len(),
        s.subrange(p, p + lexeme.len()) == lexeme,
        spells_number(lexeme, units),
        p + lexeme.len() == s.len() || (!is_digit(s[p + lexeme.len()]) && s[p + lexeme.len()]
            != '.'),
    ensures
        number_end(s, p) == p + lexeme.len(),
        number_units(s, p) == units,
{
    let n = lexeme.len() as int;
    let whole = digits_end(lexeme, 0);
    assert forall|i: int| 0 <= i < n implies s[p + i] == lexeme[i] by {
        assert(s.subrange(p, p + n)[i] == s[p + i]);
    }
    assert forall|i: int| p <= i < p + whole implies is_digit(#[trigger] s[i]) by {
        assert(s[p + (i - p)] == lexeme[i - p]);
    }
    if whole < n {
        assert(s[p + whole] == lexeme[whole]);
    }
    lemma_digits_end_is(s, p, p + whole);
    assert(s.subrange(p, p + whole) =~= lexeme.subrange(0, whole));
    lemma_whole_value_same(s, p, lexeme, 0, whole);
    if whole < n {
        assert(s[p + (whole + 1)] == lexeme[whole + 1]);
        assert(has_fraction(s, p + whole));
        assert forall|i: int| p + whole + 1 <= i < p + n implies is_digit(#[trigger] s[i]) by {
            assert(s[p + (i - p)] == lexeme[i - p]);
        }
        lemma_digits_end_is(s, p + whole + 1, p + n);
        let digits_s = s.subrange(p + whole + 1, p + n);
        let digits_l = lexeme.subrange(whole + 1, n);
        assert(digits_s =~= digits_l) by {
            assert forall|i: int| 0 <= i < n - whole - 1 implies #[trigger] digits_s[i]
                == digits_l[i] by {
                assert(s[p + (whole + 1 + i)] == lexeme[whole + 1 + i]);
            }
        }
        lemma_fraction_value_same(
            s,
            p + whole + 1,
            lexeme,
            whole + 1,
            n - whole - 1,
            (SCALE / 10) as nat,
        );
    } else {
        assert(!has_fraction(s, p + whole));
    }
}

/// The token that a step finds is well shaped.
pub proof fn lemma_step_is_well_shaped(src: Seq<char>, pos: int, line: int)
    requires
        0 <= pos < src.len(),
    ensures
        step(src, pos, line).lexed matches Lexed::Token(t) ==> well_shaped(t),
{
    lemma_step_advances(src, pos, line);
    let c = src[pos];
    match step(src, pos, line).lexed {
        Lexed::Token(t) => {
            if c == '"' {
                lemma_no_quote_before(src, pos + 1);
                let close = quote_position(src, pos + 1);
                assert forall|i: int| 0 <= i < t.lexeme.len() implies #[trigger] t.lexeme[i]
                    != '"' by {
                    assert(t.lexeme[i] == src[pos + 1 + i]);
                }
            } else if is_digit(c) && !(with_equal(c) is Some) && !(single(c) is Some) {
                lemma_digits_before_end(src, pos);
                let whole_end = digits_end(src, pos);
                let end = number_end(src, pos);
                if has_fraction(src, whole_end) {
                    lemma_digits_before_end(src, whole_end + 1);
                }
                let lexeme = src.subrange(pos, end);
                assert(t.lexeme == lexeme);
                assert forall|i: int| 0 <= i < lexeme.len() implies lexeme[i] == src[pos + i] by {}
                assert forall|i: int| 0 <= i < whole_end - pos implies is_digit(
                    #[trigger] lexeme[i],
                ) by {
                    assert(is_digit(src[pos + i]));
                }
                if end > whole_end {
                    assert(lexeme[whole_end - pos] == src[whole_end]);
                    assert forall|i: int| whole_end - pos < i < lexeme.len() implies is_digit(
                        #[trigger] lexeme[i],
                    ) by {
                        assert(is_digit(src[pos + i]));
                    }
                }
                lemma_digits_end_is(lexeme, 0, whole_end - pos);
                assert(lexeme.subrange(0, whole_end - pos) =~= src.subrange(pos, whole_end));
                lemma_whole_value_same(lexeme, 0, src, pos, whole_end - pos);
                if end > whole_end {
                    assert(lexeme.subrange(whole_end - pos + 1, end - pos) =~= src.subrange(
                        whole_end + 1,
                        end,
                    ));
                    lemma_fraction_value_same(
                        lexeme,
                        whole_end - pos + 1,
                        src,
                        whole_end + 1,
                        end - whole_end - 1,
                        (SCALE / 10) as nat,
                    );
                }
            } else if is_alpha(c) && !(with_equal(c) is Some) && !(single(c) is Some) {
                lemma_word_before_end(src, pos);
                let end = word_end(src, pos);
                let word = src.subrange(pos, end);
                assert(t.lexeme == word);
                assert forall|i: int| 0 <= i < word.len() implies is_alphanumeric(
                    #[trigger] word[i],
                ) by {
                    assert(word[i] == src[pos + i]);
                }
                assert(word[0] == src[pos]);
            } else {
            }
        },
        _ => {},
    }
}

/// Where a well shaped token stands written at `p` in `s` with a space
/// after it, the step at `p` finds a token like it and ends at the space.
pub proof fn lemma_step_finds_written(s: Seq<char>, p: int, line: int, t: TokenView)
    requires
        well_shaped(t),
        0 <= p,
        p + written(t).len() < s.len(),
        s.subrange(p, p + written(t).len()) == written(t),
        s[p + written(t).len()] == ' ',
    ensures
        step(s, p, line).next == p + written(t).len(),
        step(s, p, line).lexed matches Lexed::Token(found) && alike(found, t),
{
    let w = written(t);
    let n = w.len() as int;
    let kind = t.token_type.kind;
    assert forall|i: int| 0 <= i < n implies s[p + i] == w[i] by {
        assert(s.subrange(p, p + n)[i] == s[p + i]);
    }
    if kind == Kind::String {
        let m = t.lexeme.len() as int;
        assert(w[0] == '"');
        assert(s[p + 0] == w[0]);
        assert forall|i: int| p + 1 <= i < p + 1 + m implies #[trigger] s[i] != '"' by {
            assert(s[p + (i - p)] == w[i - p]);
            assert(w[i - p] == t.lexeme[i - p - 1]);
        }
        assert(s[p + (m + 1)] == w[m + 1]);
        assert(w[m + 1] == '"');
        lemma_quote_position_is(s, p + 1, p + 1 + m);
        assert(s.subrange(p + 1, p + 1 + m) =~= t.lexeme) by {
            assert forall|i: int| 0 <= i < m implies s.subrange(p + 1, p + 1 + m)[i]
                == t.lexeme[i] by {
                assert(s[p + (i + 1)] == w[i + 1]);
            }
        }
    } else if kind == Kind::Number {
        assert(s[p + 0] == w[0]);
        lemma_number_at(s, p, t.lexeme, t.token_type.units);
        assert(is_digit(s[p]));
    } else if spells_word(t.lexeme) {
        assert(s[p + 0] == w[0]);
        assert forall|i: int| p <= i < p + n implies is_alphanumeric(#[trigger] s[i]) by {
            assert(s[p + (i - p)] == w[i - p]);
        }
        lemma_word_end_is(s, p, p + n);
        assert(s.subrange(p, p + n) =~= t.lexeme);
    } else {
        assert(s[p + 0] == w[0]);
        if n == 2 {
            assert(s[p + 1] == w[1]);
        }
        assert(s.subrange(p, p + n) =~= t.lexeme);
    }
}

/// Scanning the tokens from `k` on, written out after `pre`, finds tokens
/// like them, then `Eof`; and no error.
proof fn lemma_rescan(
    pre: Seq<char>,
    tokens: Seq<TokenView>,
    k: int,
    line: int,
    so_far: Scanned,
)
    requires
        tokens.len() >= 1,
        0 <= k <= tokens.len() - 1,
        forall|i: int| 0 <= i < tokens.len() - 1 ==> well_shaped(#[trigger] tokens[i]),
        alike(tokens.last(), eof_token(0)),
    ensures
        ({
            let all = scan_from(pre + rendered(tokens, k), pre.len() as int, line, so_far);
            &&& all.errors == so_far.errors
            &&& all.tokens.len() == so_far.tokens.len() + tokens.len() - k
            &&& forall|j: int|
                k <= j < tokens.len() ==> alike(
                    #[trigger] all.tokens[so_far.tokens.len() + j - k],
                    tokens[j],
                )
        }),
    decreases tokens.len() - k,
{
    let full = pre + rendered(tokens, k);
    let p = pre.len() as int;
    if k == tokens.len() - 1 {
        assert(full =~= pre);
    } else {
        let t = tokens[k];
        let w = written(t);
        let rest = rendered(tokens, k + 1);
        assert(full =~= pre + w + seq![' '] + rest);
        assert(full.subrange(p, p + w.len()) =~= w);
        assert(full[p + w.len()] == ' ');
        lemma_step_finds_written(full, p, line, t);
        let first = step(full, p, line);
        lemma_step_advances(full, p, line);
        let found = record(so_far, first.lexed, first.line);
        assert(scan_from(full, p, line, so_far) == scan_from(
            full,
            first.next,
            first.line,
            found,
        ));
        let gap = step(full, first.next, first.line);
        assert(gap.next == first.next + 1 && gap.lexed is Nothing && gap.line == first.line);
        assert(scan_from(full, first.next, first.line, found) == scan_from(
            full,
            first.next + 1,
            first.line,
            found,
        ));
        let longer = pre + w + seq![' '];
        assert(full =~= longer + rest);
        lemma_rescan(longer, tokens, k + 1, first.line, found);
        let all = scan_from(full, p, line, so_far);
        assert forall|j: int| k <= j < tokens.len() implies alike(
            #[trigger] all.tokens[so_far.tokens.len() + j - k],
            tokens[j],
        ) by {
            if j == k {
                lemma_rescan_keeps(longer + rest, longer.len() as int, first.line, found);
                assert(all.tokens.subrange(0, found.tokens.len() as int)[so_far.tokens.len() as int]
                    == all.tokens[so_far.tokens.len() as int]);
            } else {
                assert(all.tokens[found.tokens.len() + j - (k + 1)] == all.tokens[so_far.tokens.len()
                    + j - k]);
            }
        }
    }
}

/// What is scanned keeps the tokens that were scanned before.
proof fn lemma_rescan_keeps(src: Seq<char>, pos: int, line: int, so_far: Scanned)
    requires
        0 <= pos <= src.len(),
    ensures
        scan_from(src, pos, line, so_far).tokens.len() >= so_far.tokens.len(),
        scan_from(src, pos, line, so_far).tokens.subrange(0, so_far.tokens.len() as int)
            == so_far.tokens,
{
    lemma_scan_ends_with_eof(src, pos, line, so_far);
}

/// Every token scanned but the last is well shaped, and the last is `Eof`.
proof fn lemma_scanned_tokens_are_well_shaped(src: Seq<char>, pos: int, line: int, so_far: Scanned)
    requires
        0 <= pos <= src.len(),
        forall|i: int| 0 <= i < so_far.tokens.len() ==> well_shaped(#[trigger] so_far.tokens[i]),
    ensures
        ({
            let all = scan_from(src, pos, line, so_far);
            &&& all.tokens.len() >= 1
            &&& alike(all.tokens.last(), eof_token(0))
            &&& forall|i: int| 0 <= i < all.tokens.len() - 1 ==> well_shaped(#[trigger] all.tokens[i])
        }),
    decreases src.len() - pos,
{
    if pos < src.len() {
        lemma_step_advances(src, pos, line);
        lemma_step_is_well_shaped(src, pos, line);
        let s = step(src, pos, line);
        lemma_scanned_tokens_are_well_shaped(src, s.next, s.line, record(so_far, s.lexed, s.line));
    }
}

/// The tokens of a source, written out with a space after each, scan to
/// tokens like them: the lexemes, with quotes round the strings and white
/// space between them, stand for the source.
pub proof fn lemma_rescan_gives_like_tokens(src: Seq<char>)
    ensures
        scan(src) matches Ok(tokens) ==> scan(rendered(tokens, 0)) matches Ok(again) && all_alike(
            again,
            tokens,
        ),
{
    let start = Scanned { tokens: Seq::<TokenView>::empty(), errors: Seq::<CauseView>::empty() };
    match scan(src) {
        Ok(tokens) => {
            lemma_scanned_tokens_are_well_shaped(src, 0, 1, start);
            let text = rendered(tokens, 0);
            assert(Seq::<char>::empty() + text =~= text);
            lemma_rescan(Seq::empty(), tokens, 0, 1, start);
            let all = scan_from(text, 0, 1, start);
            assert(all.errors.len() == 0);
            assert forall|i: int| 0 <= i < all.tokens.len() implies alike(
                #[trigger] all.tokens[i],
                tokens[i],
            ) by {
                assert(alike(all.tokens[start.tokens.len() + i - 0], tokens[i]));
            }
        },
        Err(_) => {},
    }
}

} // verus!
