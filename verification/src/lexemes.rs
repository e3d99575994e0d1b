//! Scanning the lexemes again: the text made of the lexemes of scanned
//! tokens scans as the same tokens.

use vstd::prelude::*;
use crate::scanner::end_of_input;
use crate::scanner::errors_from;
use crate::scanner::in_class;
use crate::scanner::is_alpha;
use crate::scanner::is_digit;
use crate::scanner::lex_at;
use crate::scanner::lex_at_advances;
use crate::scanner::span_end;
use crate::scanner::span_end_bounds;
use crate::scanner::tokens_from;
use crate::scanner::CharClass;
use crate::scanner::Lexed;
use crate::tokens::TokenType;
use crate::tokens::TokenView;

verus! {

/// The text in which the lexemes of the tokens before the sentinel stand
/// one after the other, each followed by a space.
pub open spec fn lexemes(tokens: Seq<TokenView>) -> Seq<char>
    decreases tokens.len(),
{
    if tokens.len() == 0 || tokens[0].token_type == TokenType::Eof {
        Seq::empty()
    } else {
        tokens[0].name + seq![' '] + lexemes(tokens.drop_first())
    }
}

/// Two tokens of the same kind, lexeme and payload; their lines may differ.
pub open spec fn same_token(first: TokenView, second: TokenView) -> bool {
    first.token_type == second.token_type && first.name == second.name && first.value == second.value
}

/// Two token sequences that hold the same tokens, but for their lines.
pub open spec fn alike(first: Seq<TokenView>, second: Seq<TokenView>) -> bool {
    first.len() == second.len() && forall|k: int|
        0 <= k < first.len() ==> same_token(#[trigger] first[k], second[k])
}

/// Two outcomes of scanning at one position that hold the same token, or
/// none, and an error both or neither.
pub open spec fn same_outcome(first: Lexed, second: Lexed) -> bool {
    &&& (first.error is Some) == (second.error is Some)
    &&& match (first.token, second.token) {
        (Some(t), Some(u)) => same_token(t, u),
        (None, None) => true,
        _ => false,
    }
}

/// A run that holds characters of the class alone, and ends at the end of
/// the text or before a character that is not of the class, is the run
/// that `span_end` finds.
pub proof fn span_end_is(s: Seq<char>, from: int, to: int, class: CharClass)
    requires
        0 <= from <= to <= s.len(),
        forall|k: int| from <= k < to ==> in_class(class, #[trigger] s[k]),
        to == s.len() || !in_class(class, s[to]),
    ensures
        span_end(s, from, class) == to,
    decreases to - from,
{
    if from < to {
        span_end_is(s, from + 1, to, class);
    }
}

/// A run in the text behind the first `k` characters is the same run in
/// the whole text.
pub proof fn span_end_shifts(a: Seq<char>, k: int, j: int, class: CharClass)
    requires
        0 <= k,
        0 <= j,
        k + j <= a.len(),
    ensures
        span_end(a, k + j, class) == span_end(a.skip(k), j, class) + k,
    decreases a.len() - k - j,
{
    let b = a.skip(k);
    if j < b.len() {
        assert(a[k + j] == b[j]);
        if in_class(class, b[j]) {
            span_end_shifts(a, k, j + 1, class);
        }
    }
}

/// Scanning at a position of the text behind the first `k` characters
/// gives what scanning at that position of the whole text gives.
pub proof fn lex_at_shifts(a: Seq<char>, k: int, j: int)
    requires
        0 <= k,
        0 <= j,
        k + j < a.len(),
    ensures
        lex_at(a, k + j).next == lex_at(a.skip(k), j).next + k,
        same_outcome(lex_at(a, k + j), lex_at(a.skip(k), j)),
{
    let b = a.skip(k);
    let i = k + j;
    assert(a[i] == b[j]);
    if i + 1 < a.len() {
        assert(a[i + 1] == b[j + 1]);
    }
    span_end_shifts(a, k, j, CharClass::Comment);
    span_end_shifts(a, k, j + 1, CharClass::Quoted);
    span_end_shifts(a, k, j, CharClass::Digit);
    span_end_shifts(a, k, j, CharClass::Word);
    span_end_bounds(a, i, CharClass::Comment);
    span_end_bounds(a, i + 1, CharClass::Quoted);
    span_end_bounds(a, i, CharClass::Digit);
    span_end_bounds(a, i, CharClass::Word);
    let c = a[i];
    if c == '"' {
        let close = span_end(a, i + 1, CharClass::Quoted);
        if close < a.len() {
            assert(a[close] == b[close - k]);
        }
        assert(a.subrange(i + 1, close) =~= b.subrange(j + 1, close - k));
        if close < a.len() && a[close] == '"' {
            assert(a.subrange(i, close + 1) =~= b.subrange(j, close + 1 - k));
        }
    } else if is_digit(c) {
        let whole_end = span_end(a, i, CharClass::Digit);
        assert(a.subrange(i, whole_end) =~= b.subrange(j, whole_end - k));
        if whole_end < a.len() {
            assert(a[whole_end] == b[whole_end - k]);
        }
        if whole_end + 1 < a.len() {
            assert(a[whole_end + 1] == b[whole_end + 1 - k]);
            span_end_shifts(a, k, whole_end + 1 - k, CharClass::Digit);
            span_end_bounds(a, whole_end + 1, CharClass::Digit);
            let end = span_end(a, whole_end + 1, CharClass::Digit);
            assert(a.subrange(whole_end + 1, end) =~= b.subrange(whole_end + 1 - k, end - k));
            assert(a.subrange(i, end) =~= b.subrange(j, end - k));
        }
    } else if is_alpha(c) {
        let end = span_end(a, i, CharClass::Word);
        assert(a.subrange(i, end) =~= b.subrange(j, end - k));
    } else {
        assert(a.subrange(i, i + 1) =~= b.subrange(j, j + 1));
        if i + 1 < a.len() {
            assert(a.subrange(i, i + 2) =~= b.subrange(j, j + 2));
        }
    }
}

/// Token sequences that are alike stay so with tokens that are the same
/// put before them.
pub proof fn alike_with_first(first: TokenView, second: TokenView, a: Seq<TokenView>, b: Seq<TokenView>)
    requires
        same_token(first, second),
        alike(a, b),
    ensures
        alike(seq![first] + a, seq![second] + b),
{
    assert forall|k: int| 0 <= k < (seq![first] + a).len() implies same_token(
        #[trigger] (seq![first] + a)[k],
        (seq![second] + b)[k],
    ) by {
        if k > 0 {
            assert((seq![first] + a)[k] == a[k - 1]);
            assert((seq![second] + b)[k] == b[k - 1]);
        }
    }
}

/// Being alike carries over.
pub proof fn alike_is_transitive(a: Seq<TokenView>, b: Seq<TokenView>, c: Seq<TokenView>)
    requires
        alike(a, b),
        alike(b, c),
    ensures
        alike(a, c),
{
    assert forall|k: int| 0 <= k < a.len() implies same_token(#[trigger] a[k], c[k]) by {
        assert(same_token(a[k], b[k]));
        assert(same_token(b[k], c[k]));
    }
}

/// The text behind the first `k` characters scans as the whole text does
/// from position `k` on.
pub proof fn tokens_from_shifts(a: Seq<char>, k: int, j: int)
    requires
        0 <= k,
        0 <= j,
        k + j <= a.len(),
    ensures
        alike(tokens_from(a, k + j), tokens_from(a.skip(k), j)),
        errors_from(a, k + j).len() == errors_from(a.skip(k), j).len(),
    decreases a.len() - k - j,
{
    let b = a.skip(k);
    if k + j < a.len() {
        lex_at_shifts(a, k, j);
        lex_at_advances(a, k + j);
        lex_at_advances(b, j);
        let x = lex_at(a, k + j);
        let y = lex_at(b, j);
        tokens_from_shifts(a, k, y.next);
        match x.token {
            Some(t) => {
                alike_with_first(t, y.token->0, tokens_from(a, x.next), tokens_from(b, y.next));
            },
            None => {},
        }
    } else {
        assert(tokens_from(a, k + j) =~= seq![end_of_input()]);
        assert(tokens_from(b, j) =~= seq![end_of_input()]);
    }
}

/// The lexeme of a token, followed by a space and any text, scans as that
/// token, without an error, and scanning goes on at the space.
pub proof fn lexeme_scans_as_its_token(s: Seq<char>, i: int, rest: Seq<char>)
    requires
        0 <= i < s.len(),
        lex_at(s, i).token is Some,
    ensures
        ({
            let token = lex_at(s, i).token->0;
            let text = token.name + seq![' '] + rest;
            let again = lex_at(text, 0);
            &&& token.name.len() > 0
            &&& again.token is Some
            &&& same_token(again.token->0, token)
            &&& again.error is None
            &&& again.next == token.name.len()
        }),
{
    let token = lex_at(s, i).token->0;
    let lexeme = token.name;
    let text = lexeme + seq![' '] + rest;
    let next = lex_at(s, i).next;
    lex_at_advances(s, i);
    span_end_bounds(s, i + 1, CharClass::Quoted);
    span_end_bounds(s, i, CharClass::Digit);
    span_end_bounds(s, i, CharClass::Word);
    assert(lexeme == s.subrange(i, next));
    assert(lexeme.len() == next - i);
    let head = lexeme + seq![' '];
    assert(text == head + rest);
    assert forall|k: int| 0 <= k < lexeme.len() implies #[trigger] text[k] == s[i + k] by {
        assert(head[k] == lexeme[k]);
        assert(text[k] == head[k]);
        assert(lexeme[k] == s[i + k]);
    }
    assert(head[lexeme.len() as int] == ' ');
    assert(text[lexeme.len() as int] == ' ');
    assert(text[0] == s[i]);
    let c = s[i];
    if c == '"' {
        let close = span_end(s, i + 1, CharClass::Quoted);
        assert forall|k: int| 1 <= k < close - i implies in_class(CharClass::Quoted, #[trigger] text[k]) by {
            assert(text[k] == s[i + k]);
        }
        assert(text[close - i] == s[i + (close - i)]);
        span_end_is(text, 1, close - i, CharClass::Quoted);
        assert(text.subrange(1, close - i) =~= s.subrange(i + 1, close));
        assert(text.subrange(0, close + 1 - i) =~= lexeme);
    } else if is_digit(c) {
        let whole_end = span_end(s, i, CharClass::Digit);
        if whole_end + 1 < s.len() {
            span_end_bounds(s, whole_end + 1, CharClass::Digit);
        }
        assert(whole_end <= next);
        assert forall|k: int| 0 <= k < whole_end - i implies in_class(CharClass::Digit, #[trigger] text[k]) by {
            assert(text[k] == s[i + k]);
        }
        if whole_end + 1 < s.len() && s[whole_end] == '.' && is_digit(s[whole_end + 1]) {
            let end = span_end(s, whole_end + 1, CharClass::Digit);
            assert(text[whole_end - i] == s[i + (whole_end - i)]);
            assert(text[whole_end + 1 - i] == s[i + (whole_end + 1 - i)]);
            span_end_is(text, 0, whole_end - i, CharClass::Digit);
            assert forall|k: int| whole_end + 1 - i <= k < end - i implies in_class(
                CharClass::Digit,
                #[trigger] text[k],
            ) by {
                assert(text[k] == s[i + k]);
            }
            span_end_is(text, whole_end + 1 - i, end - i, CharClass::Digit);
            assert(text.subrange(0, whole_end - i) =~= s.subrange(i, whole_end));
            assert(text.subrange(whole_end + 1 - i, end - i) =~= s.subrange(whole_end + 1, end));
            assert(text.subrange(0, end - i) =~= lexeme);
        } else {
            span_end_is(text, 0, whole_end - i, CharClass::Digit);
            assert(text.subrange(0, whole_end - i) =~= s.subrange(i, whole_end));
        }
    } else if is_alpha(c) {
        let end = span_end(s, i, CharClass::Word);
        assert forall|k: int| 0 <= k < end - i implies in_class(CharClass::Word, #[trigger] text[k]) by {
            assert(text[k] == s[i + k]);
        }
        span_end_is(text, 0, end - i, CharClass::Word);
        assert(text.subrange(0, end - i) =~= lexeme);
    } else {
        if lexeme.len() == 2 {
            assert(text[1] == s[i + 1]);
            assert(text.subrange(0, 2) =~= lexeme);
        } else {
            assert(text.subrange(0, 1) =~= lexeme);
        }
    }
}

/// Round trip: the lexemes of the tokens of any text, from any position
/// on, written one after the other with a space behind each, scan without
/// an error as the same tokens: the same kinds, lexemes and payloads, in
/// the same order, the sentinel last.
pub proof fn lexemes_scan_as_the_tokens(s: Seq<char>, i: int)
    ensures
        alike(tokens_from(lexemes(tokens_from(s, i)), 0), tokens_from(s, i)),
        errors_from(lexemes(tokens_from(s, i)), 0).len() == 0,
    decreases s.len() - i,
{
    if 0 <= i < s.len() {
        lex_at_advances(s, i);
        let step = lex_at(s, i);
        lexemes_scan_as_the_tokens(s, step.next);
        match step.token {
            Some(token) => {
                let tail = tokens_from(s, step.next);
                let rest = lexemes(tail);
                let text = token.name + seq![' '] + rest;
                let length = token.name.len() as int;
                assert(tokens_from(s, i) == seq![token] + tail);
                assert((seq![token] + tail).drop_first() =~= tail);
                assert(token.token_type != TokenType::Eof);
                assert(lexemes(tokens_from(s, i)) == text);
                lexeme_scans_as_its_token(s, i, rest);
                let again = lex_at(text, 0);
                assert(text[length] == ' ');
                assert(lex_at(text, length).next == length + 1);
                assert(lex_at(text, length).token is None);
                assert(lex_at(text, length).error is None);
                lex_at_advances(text, 0);
                lex_at_advances(text, length);
                assert(tokens_from(text, 0) == seq![again.token->0] + tokens_from(text, length));
                assert(tokens_from(text, length) == tokens_from(text, length + 1));
                assert(errors_from(text, 0) == errors_from(text, length));
                assert(errors_from(text, length) == errors_from(text, length + 1));
                tokens_from_shifts(text, length + 1, 0);
                assert(text.skip(length + 1) =~= rest);
                alike_is_transitive(tokens_from(text, length + 1), tokens_from(rest, 0), tail);
                alike_with_first(again.token->0, token, tokens_from(text, length + 1), tail);
            },
            None => {},
        }
    } else {
        assert(tokens_from(s, i) =~= seq![end_of_input()]);
        assert(lexemes(tokens_from(s, i)) =~= Seq::<char>::empty());
        assert(tokens_from(Seq::<char>::empty(), 0) =~= seq![end_of_input()]);
    }
}

} // verus!
