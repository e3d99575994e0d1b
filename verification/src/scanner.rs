//! The scanner: source text to tokens.

use vstd::prelude::*;
use vstd::string::*;
use crate::text::chars_of;
use crate::text::decimal;
use crate::text::push_decimal;
use crate::text::text_of;
use crate::tokens::keyword_or_identifier;
use crate::tokens::word_kind;
use crate::tokens::Literal;
use crate::tokens::LiteralView;
use crate::tokens::Token;
use crate::tokens::TokenType;
use crate::tokens::TokenView;

verus! {

/// What the scanner can find wrong with the source text.
#[derive(Clone, Copy, Debug)]
pub enum LexErrorKind {
    /// A character that starts no token.
    UnexpectedCharacter(char),
    /// A string literal without a closing quote on its line.
    UnterminatedString,
}

/// A lexical error and the line on which it was found.
#[derive(Clone, Copy, Debug)]
pub struct LexError {
    pub line_number: usize,
    pub kind: LexErrorKind,
}

impl LexError {
    /// The diagnostic line: `[line L] Error: ...`.
    pub open spec fn message_spec(self) -> Seq<char> {
        "[line "@ + decimal(self.line_number as nat) + "] Error: "@ + match self.kind {
            LexErrorKind::UnexpectedCharacter(c) => "Unexpected character: "@.push(c),
            LexErrorKind::UnterminatedString => "Unterminated string."@,
        }
    }

    /// The diagnostic line of the error.
    pub fn message(&self) -> (text: String)
        ensures
            text@ == self.message_spec(),
    {
        let mut text = String::new();
        text.append("[line ");
        push_decimal(&mut text, self.line_number);
        text.append("] Error: ");
        match self.kind {
            LexErrorKind::UnexpectedCharacter(c) => {
                text.append("Unexpected character: ");
                text.push(c);
            },
            LexErrorKind::UnterminatedString => {
                text.append("Unterminated string.");
            },
        }
        assert(text@ =~= self.message_spec());
        text
    }
}

/// The classes of characters that the scanner collects in runs.
#[derive(Clone, Copy, Debug, PartialEq, Eq, Structural)]
pub enum CharClass {
    /// A decimal digit.
    Digit,
    /// A letter, a digit or an underscore.
    Word,
    /// Anything but a line feed: the rest of a comment.
    Comment,
    /// Anything but a double quote or a line feed: the inside of a string.
    Quoted,
}

/// A decimal digit.
pub open spec fn is_digit(c: char) -> bool {
    '0' <= c && c <= '9'
}

/// A letter of the Latin alphabet, or an underscore.
pub open spec fn is_alpha(c: char) -> bool {
    ('a' <= c && c <= 'z') || ('A' <= c && c <= 'Z') || c == '_'
}

/// Whether the character is of the class.
pub open spec fn in_class(class: CharClass, c: char) -> bool {
    match class {
        CharClass::Digit => is_digit(c),
        CharClass::Word => is_alpha(c) || is_digit(c),
        CharClass::Comment => c != '\n',
        CharClass::Quoted => c != '"' && c != '\n',
    }
}

/// Where the run of characters of `class` that starts at `from` ends: the
/// first position at or after `from` that holds no character of the class.
pub open spec fn span_end(s: Seq<char>, from: int, class: CharClass) -> int
    decreases s.len() - from,
{
    if 0 <= from < s.len() && in_class(class, s[from]) {
        span_end(s, from + 1, class)
    } else {
        from
    }
}

/// The number of line feeds among the first `i` characters.
pub open spec fn newlines_before(s: Seq<char>, i: int) -> nat
    decreases i,
{
    if i <= 0 || i > s.len() {
        0
    } else {
        newlines_before(s, i - 1) + if s[i - 1] == '\n' {
            1nat
        } else {
            0nat
        }
    }
}

/// The 1-based line of position `i`.
pub open spec fn line_of(s: Seq<char>, i: int) -> usize {
    (newlines_before(s, i) + 1) as usize
}

/// `digits` without leading zeros, of which the last digit always stays.
pub open spec fn strip_leading_zeros(digits: Seq<char>) -> Seq<char>
    decreases digits.len(),
{
    if digits.len() > 1 && digits[0] == '0' {
        strip_leading_zeros(digits.drop_first())
    } else {
        digits
    }
}

/// `digits` without trailing zeros.
pub open spec fn strip_trailing_zeros(digits: Seq<char>) -> Seq<char>
    decreases digits.len(),
{
    if digits.len() > 0 && digits.last() == '0' {
        strip_trailing_zeros(digits.drop_last())
    } else {
        digits
    }
}

/// The canonical numeral of the number written with the given integer and
/// fraction digits.
pub open spec fn canonical_number(whole: Seq<char>, fraction: Seq<char>) -> Seq<char> {
    let kept = strip_trailing_zeros(fraction);
    strip_leading_zeros(whole).push('.') + if kept.len() == 0 {
        seq!['0']
    } else {
        kept
    }
}

/// The outcome of scanning at one position: at most one token, at most one
/// error, and the position at which scanning goes on.
pub ghost struct Lexed {
    pub token: Option<TokenView>,
    pub error: Option<LexError>,
    pub next: int,
}

/// The token of kind `kind` that spans `s[from..to]` and carries `value`.
pub open spec fn token_of(s: Seq<char>, from: int, to: int, kind: TokenType, value: LiteralView) -> Lexed {
    Lexed {
        token: Some(
            TokenView { token_type: kind, name: s.subrange(from, to), value, line_number: line_of(s, from) },
        ),
        error: None,
        next: to,
    }
}

/// An operator character that pairs with a following `=`.
pub open spec fn operator_at(s: Seq<char>, i: int, single: TokenType, paired: TokenType) -> Lexed {
    if i + 1 < s.len() && s[i + 1] == '=' {
        token_of(s, i, i + 2, paired, LiteralView::Nil)
    } else {
        token_of(s, i, i + 1, single, LiteralView::Nil)
    }
}

/// The lexical rules: what stands at position `i` of `s`.
pub open spec fn lex_at(s: Seq<char>, i: int) -> Lexed
    recommends
        0 <= i < s.len(),
{
    let c = s[i];
    if c == '(' {
        token_of(s, i, i + 1, TokenType::LeftParen, LiteralView::Nil)
    } else if c == ')' {
        token_of(s, i, i + 1, TokenType::RightParen, LiteralView::Nil)
    } else if c == '{' {
        token_of(s, i, i + 1, TokenType::LeftBrace, LiteralView::Nil)
    } else if c == '}' {
        token_of(s, i, i + 1, TokenType::RightBrace, LiteralView::Nil)
    } else if c == ',' {
        token_of(s, i, i + 1, TokenType::Comma, LiteralView::Nil)
    } else if c == '.' {
        token_of(s, i, i + 1, TokenType::Dot, LiteralView::Nil)
    } else if c == '-' {
        token_of(s, i, i + 1, TokenType::Minus, LiteralView::Nil)
    } else if c == '+' {
        token_of(s, i, i + 1, TokenType::Plus, LiteralView::Nil)
    } else if c == ';' {
        token_of(s, i, i + 1, TokenType::Semicolon, LiteralView::Nil)
    } else if c == '*' {
        token_of(s, i, i + 1, TokenType::Star, LiteralView::Nil)
    } else if c == '/' {
        if i + 1 < s.len() && s[i + 1] == '/' {
            Lexed { token: None, error: None, next: span_end(s, i, CharClass::Comment) }
        } else {
            token_of(s, i, i + 1, TokenType::Slash, LiteralView::Nil)
        }
    } else if c == '!' {
        operator_at(s, i, TokenType::Bang, TokenType::BangEqual)
    } else if c == '=' {
        operator_at(s, i, TokenType::Equal, TokenType::EqualEqual)
    } else if c == '>' {
        operator_at(s, i, TokenType::Greater, TokenType::GreaterEqual)
    } else if c == '<' {
        operator_at(s, i, TokenType::Less, TokenType::LessEqual)
    } else if c == ' ' || c == '\t' || c == '\r' || c == '\n' {
        Lexed { token: None, error: None, next: i + 1 }
    } else if c == '"' {
        let close = span_end(s, i + 1, CharClass::Quoted);
        if close < s.len() && s[close] == '"' {
            token_of(s, i, close + 1, TokenType::String, LiteralView::String(s.subrange(i + 1, close)))
        } else {
            Lexed {
                token: None,
                error: Some(LexError { line_number: line_of(s, i), kind: LexErrorKind::UnterminatedString }),
                next: close,
            }
        }
    } else if is_digit(c) {
        let whole_end = span_end(s, i, CharClass::Digit);
        if whole_end + 1 < s.len() && s[whole_end] == '.' && is_digit(s[whole_end + 1]) {
            let end = span_end(s, whole_end + 1, CharClass::Digit);
            token_of(
                s,
                i,
                end,
                TokenType::Number,
                LiteralView::Number(canonical_number(s.subrange(i, whole_end), s.subrange(whole_end + 1, end))),
            )
        } else {
            token_of(
                s,
                i,
                whole_end,
                TokenType::Number,
                LiteralView::Number(canonical_number(s.subrange(i, whole_end), Seq::empty())),
            )
        }
    } else if is_alpha(c) {
        let end = span_end(s, i, CharClass::Word);
        token_of(s, i, end, keyword_or_identifier(s.subrange(i, end)), LiteralView::Nil)
    } else {
        Lexed {
            token: None,
            error: Some(LexError { line_number: line_of(s, i), kind: LexErrorKind::UnexpectedCharacter(c) }),
            next: i + 1,
        }
    }
}

/// The sentinel that ends every token sequence.
pub open spec fn end_of_input() -> TokenView {
    TokenView { token_type: TokenType::Eof, name: Seq::empty(), value: LiteralView::Nil, line_number: 0 }
}

/// A run ends within the text, at or after its start.
pub proof fn span_end_bounds(s: Seq<char>, from: int, class: CharClass)
    requires
        0 <= from <= s.len(),
    ensures
        from <= span_end(s, from, class) <= s.len(),
        forall|k: int| from <= k < span_end(s, from, class) ==> in_class(class, #[trigger] s[k]),
        span_end(s, from, class) < s.len() ==> !in_class(class, s[span_end(s, from, class)]),
    decreases s.len() - from,
{
    if from < s.len() && in_class(class, s[from]) {
        span_end_bounds(s, from + 1, class);
    }
}

/// Scanning at a position within the text always moves forward, and stays
/// within the text.
pub proof fn lex_at_advances(s: Seq<char>, i: int)
    requires
        0 <= i < s.len(),
    ensures
        i < lex_at(s, i).next <= s.len(),
{
    span_end_bounds(s, i, CharClass::Comment);
    span_end_bounds(s, i + 1, CharClass::Quoted);
    span_end_bounds(s, i, CharClass::Digit);
    span_end_bounds(s, i, CharClass::Word);
    let whole_end = span_end(s, i, CharClass::Digit);
    if whole_end + 1 < s.len() {
        span_end_bounds(s, whole_end + 1, CharClass::Digit);
    }
}

/// The tokens of `s` from position `i` on, the sentinel last.
pub open spec fn tokens_from(s: Seq<char>, i: int) -> Seq<TokenView>
    decreases s.len() - i,
{
    if 0 <= i < s.len() {
        proof {
            lex_at_advances(s, i);
        }
        let step = lex_at(s, i);
        match step.token {
            Some(token) => seq![token] + tokens_from(s, step.next),
            None => tokens_from(s, step.next),
        }
    } else {
        seq![end_of_input()]
    }
}

/// The lexical errors of `s` from position `i` on, in source order.
pub open spec fn errors_from(s: Seq<char>, i: int) -> Seq<LexError>
    decreases s.len() - i,
{
    if 0 <= i < s.len() {
        proof {
            lex_at_advances(s, i);
        }
        let step = lex_at(s, i);
        match step.error {
            Some(error) => seq![error] + errors_from(s, step.next),
            None => errors_from(s, step.next),
        }
    } else {
        Seq::empty()
    }
}

/// The mathematical values of a sequence of tokens.
pub open spec fn token_views(tokens: Seq<Token>) -> Seq<TokenView> {
    tokens.map_values(|t: Token| t@)
}


/// There are no more line feeds before a position than characters.
pub proof fn newlines_bounded(s: Seq<char>, i: int)
    ensures
        newlines_before(s, i) <= if i < 0 {
            0
        } else {
            i
        },
    decreases i,
{
    if 0 < i <= s.len() {
        newlines_bounded(s, i - 1);
    }
}

/// A stretch without a line feed stays on one line.
pub proof fn newlines_constant(s: Seq<char>, from: int, to: int)
    requires
        0 <= from <= to <= s.len(),
        forall|k: int| from <= k < to ==> #[trigger] s[k] != '\n',
    ensures
        newlines_before(s, to) == newlines_before(s, from),
    decreases to,
{
    if from < to {
        newlines_constant(s, from, to - 1);
    }
}

/// Only the line feed itself moves scanning to the next line.
pub proof fn lex_at_lines(s: Seq<char>, i: int)
    requires
        0 <= i < s.len(),
    ensures
        newlines_before(s, lex_at(s, i).next) == newlines_before(s, i) + if s[i] == '\n' {
            1nat
        } else {
            0nat
        },
{
    lex_at_advances(s, i);
    let next = lex_at(s, i).next;
    if s[i] == '\n' {
        assert(next == i + 1);
    } else {
        span_end_bounds(s, i, CharClass::Comment);
        span_end_bounds(s, i + 1, CharClass::Quoted);
        span_end_bounds(s, i, CharClass::Digit);
        span_end_bounds(s, i, CharClass::Word);
        let whole_end = span_end(s, i, CharClass::Digit);
        if whole_end + 1 < s.len() {
            span_end_bounds(s, whole_end + 1, CharClass::Digit);
        }
        assert forall|k: int| i <= k < next implies #[trigger] s[k] != '\n' by {
            if s[i] == '"' {
                let close = span_end(s, i + 1, CharClass::Quoted);
                if i < k && k < close {
                    assert(in_class(CharClass::Quoted, s[k]));
                }
            } else if is_digit(s[i]) {
                if k < whole_end {
                    assert(in_class(CharClass::Digit, s[k]));
                } else if k > whole_end {
                    assert(in_class(CharClass::Digit, s[k]));
                }
            } else if is_alpha(s[i]) {
                assert(in_class(CharClass::Word, s[k]));
            } else if s[i] == '/' {
                if k > i {
                    assert(in_class(CharClass::Comment, s[k]));
                }
            }
        }
        newlines_constant(s, i, next);
    }
}

/// Every token sequence ends in the sentinel, which occurs nowhere else, and
/// every token before it stands on a line numbered from 1.
pub proof fn tokens_from_shape(s: Seq<char>, i: int)
    requires
        s.len() <= usize::MAX,
    ensures
        tokens_from(s, i).len() > 0,
        tokens_from(s, i).last() == end_of_input(),
        forall|k: int|
            0 <= k < tokens_from(s, i).len() - 1 ==> (#[trigger] tokens_from(s, i)[k]).token_type
                != TokenType::Eof && tokens_from(s, i)[k].line_number >= 1,
    decreases s.len() - i,
{
    if 0 <= i < s.len() {
        lex_at_advances(s, i);
        let step = lex_at(s, i);
        tokens_from_shape(s, step.next);
        newlines_bounded(s, i);
        match step.token {
            Some(token) => {
                assert(token.token_type != TokenType::Eof);
                assert(token.line_number == line_of(s, i));
                assert(token.line_number >= 1);
                let rest = tokens_from(s, step.next);
                assert(tokens_from(s, i) == seq![token] + rest);
                assert forall|k: int| 0 <= k < tokens_from(s, i).len() - 1 implies (
                #[trigger] tokens_from(s, i)[k]).token_type != TokenType::Eof && tokens_from(
                    s,
                    i,
                )[k].line_number >= 1 by {
                    if k > 0 {
                        assert(tokens_from(s, i)[k] == rest[k - 1]);
                    }
                }
            },
            None => {},
        }
    }
}

/// Whether the character is of the class.
fn holds(class: CharClass, c: char) -> (b: bool)
    ensures
        b == in_class(class, c),
{
    let digit = '0' <= c && c <= '9';
    match class {
        CharClass::Digit => digit,
        CharClass::Word => ('a' <= c && c <= 'z') || ('A' <= c && c <= 'Z') || c == '_' || digit,
        CharClass::Comment => c != '\n',
        CharClass::Quoted => c != '"' && c != '\n',
    }
}

/// The end of the run of `class` that starts at `from`.
fn span(chars: &Vec<char>, from: usize, class: CharClass) -> (to: usize)
    requires
        from <= chars@.len(),
    ensures
        to == span_end(chars@, from as int, class),
        from <= to <= chars@.len(),
{
    let mut to = from;
    while to < chars.len() && holds(class, chars[to])
        invariant
            from <= to <= chars@.len(),
            span_end(chars@, from as int, class) == span_end(chars@, to as int, class),
        decreases chars@.len() - to,
    {
        to = to + 1;
    }
    to
}

/// The canonical numeral of the number whose integer digits are
/// `chars[from..whole_end]` and whose fraction digits are
/// `chars[fraction..end]`.
fn canonical(chars: &Vec<char>, from: usize, whole_end: usize, fraction: usize, end: usize) -> (text:
    String)
    requires
        from <= whole_end <= fraction <= end <= chars@.len(),
    ensures
        text@ == canonical_number(
            chars@.subrange(from as int, whole_end as int),
            chars@.subrange(fraction as int, end as int),
        ),
{
    let ghost s = chars@;
    let mut first = from;
    while whole_end - first > 1 && chars[first] == '0'
        invariant
            from <= first <= whole_end <= chars@.len(),
            s == chars@,
            strip_leading_zeros(s.subrange(from as int, whole_end as int)) == strip_leading_zeros(
                s.subrange(first as int, whole_end as int),
            ),
        decreases whole_end - first,
    {
        assert(s.subrange(first as int, whole_end as int).drop_first() == s.subrange(
            first + 1,
            whole_end as int,
        ));
        first = first + 1;
    }
    let mut last = end;
    while last > fraction && chars[last - 1] == '0'
        invariant
            fraction <= last <= end <= chars@.len(),
            s == chars@,
            strip_trailing_zeros(s.subrange(fraction as int, end as int)) == strip_trailing_zeros(
                s.subrange(fraction as int, last as int),
            ),
        decreases last,
    {
        assert(s.subrange(fraction as int, last as int).drop_last() == s.subrange(
            fraction as int,
            last - 1,
        ));
        last = last - 1;
    }
    let mut text = text_of(chars, first, whole_end);
    text.push('.');
    if last == fraction {
        text.push('0');
    } else {
        let kept = text_of(chars, fraction, last);
        text.append(kept.as_str());
    }
    proof {
        let whole = s.subrange(from as int, whole_end as int);
        let digits = s.subrange(fraction as int, end as int);
        assert(strip_leading_zeros(whole) == s.subrange(first as int, whole_end as int));
        assert(strip_trailing_zeros(digits) == s.subrange(fraction as int, last as int));
        assert(text@ =~= canonical_number(whole, digits));
    }
    text
}

/// The token of kind `kind` that spans `chars[from..to]`.
fn make_token(chars: &Vec<char>, from: usize, to: usize, kind: TokenType, value: Literal, line: usize) -> (out: (
    Option<Token>,
    Option<LexError>,
    usize,
))
    requires
        from <= to <= chars@.len(),
        line == line_of(chars@, from as int),
    ensures
        out.0 matches Some(token) && Some(token@) == token_of(
            chars@,
            from as int,
            to as int,
            kind,
            value@,
        ).token,
        out.1 is None,
        out.2 == to,
{
    (Some(Token::new(kind, text_of(chars, from, to), value, line)), None, to)
}

/// An operator character at `i`, alone or paired with a following `=`.
fn scan_operator(chars: &Vec<char>, i: usize, single: TokenType, paired: TokenType, line: usize) -> (out: (
    Option<Token>,
    Option<LexError>,
    usize,
))
    requires
        i < chars@.len(),
        line == line_of(chars@, i as int),
    ensures
        out.0 matches Some(token) && Some(token@) == operator_at(chars@, i as int, single, paired).token,
        out.1 is None,
        out.2 == operator_at(chars@, i as int, single, paired).next,
{
    if chars.len() - i > 1 && chars[i + 1] == '=' {
        make_token(chars, i, i + 2, paired, Literal::Nil, line)
    } else {
        make_token(chars, i, i + 1, single, Literal::Nil, line)
    }
}

/// Scans at position `i`, which stands on line `line`.
fn scan_token(chars: &Vec<char>, i: usize, line: usize) -> (out: (Option<Token>, Option<LexError>, usize))
    requires
        i < chars@.len(),
        line == line_of(chars@, i as int),
    ensures
        match out.0 {
            Some(token) => lex_at(chars@, i as int).token == Some(token@),
            None => lex_at(chars@, i as int).token is None,
        },
        out.1 == lex_at(chars@, i as int).error,
        out.2 == lex_at(chars@, i as int).next,
{
    let c = chars[i];
    let length = chars.len();
    if c == '(' {
        make_token(chars, i, i + 1, TokenType::LeftParen, Literal::Nil, line)
    } else if c == ')' {
        make_token(chars, i, i + 1, TokenType::RightParen, Literal::Nil, line)
    } else if c == '{' {
        make_token(chars, i, i + 1, TokenType::LeftBrace, Literal::Nil, line)
    } else if c == '}' {
        make_token(chars, i, i + 1, TokenType::RightBrace, Literal::Nil, line)
    } else if c == ',' {
        make_token(chars, i, i + 1, TokenType::Comma, Literal::Nil, line)
    } else if c == '.' {
        make_token(chars, i, i + 1, TokenType::Dot, Literal::Nil, line)
    } else if c == '-' {
        make_token(chars, i, i + 1, TokenType::Minus, Literal::Nil, line)
    } else if c == '+' {
        make_token(chars, i, i + 1, TokenType::Plus, Literal::Nil, line)
    } else if c == ';' {
        make_token(chars, i, i + 1, TokenType::Semicolon, Literal::Nil, line)
    } else if c == '*' {
        make_token(chars, i, i + 1, TokenType::Star, Literal::Nil, line)
    } else if c == '/' {
        if length - i > 1 && chars[i + 1] == '/' {
            (None, None, span(chars, i, CharClass::Comment))
        } else {
            make_token(chars, i, i + 1, TokenType::Slash, Literal::Nil, line)
        }
    } else if c == '!' {
        scan_operator(chars, i, TokenType::Bang, TokenType::BangEqual, line)
    } else if c == '=' {
        scan_operator(chars, i, TokenType::Equal, TokenType::EqualEqual, line)
    } else if c == '>' {
        scan_operator(chars, i, TokenType::Greater, TokenType::GreaterEqual, line)
    } else if c == '<' {
        scan_operator(chars, i, TokenType::Less, TokenType::LessEqual, line)
    } else if c == ' ' || c == '\t' || c == '\r' || c == '\n' {
        (None, None, i + 1)
    } else if c == '"' {
        let close = span(chars, i + 1, CharClass::Quoted);
        if close < length && chars[close] == '"' {
            let inner = text_of(chars, i + 1, close);
            make_token(chars, i, close + 1, TokenType::String, Literal::String(inner), line)
        } else {
            (None, Some(LexError { line_number: line, kind: LexErrorKind::UnterminatedString }), close)
        }
    } else if '0' <= c && c <= '9' {
        let whole_end = span(chars, i, CharClass::Digit);
        if length - whole_end > 1 && chars[whole_end] == '.' && holds(
            CharClass::Digit,
            chars[whole_end + 1],
        ) {
            let end = span(chars, whole_end + 1, CharClass::Digit);
            let numeral = canonical(chars, i, whole_end, whole_end + 1, end);
            make_token(chars, i, end, TokenType::Number, Literal::Number(numeral), line)
        } else {
            let numeral = canonical(chars, i, whole_end, whole_end, whole_end);
            assert(chars@.subrange(whole_end as int, whole_end as int) =~= Seq::<char>::empty());
            make_token(chars, i, whole_end, TokenType::Number, Literal::Number(numeral), line)
        }
    } else if ('a' <= c && c <= 'z') || ('A' <= c && c <= 'Z') || c == '_' {
        let end = span(chars, i, CharClass::Word);
        let kind = word_kind(chars, i, end);
        make_token(chars, i, end, kind, Literal::Nil, line)
    } else {
        (None, Some(LexError { line_number: line, kind: LexErrorKind::UnexpectedCharacter(c) }), i + 1)
    }
}

/// Scans the whole source text.
///
/// Returns the tokens, the sentinel last; the lexical errors in source
/// order; and the exit code that they call for: 65 when there is an error,
/// otherwise 0. Scanning never stops early: what follows an error is
/// scanned too.
pub fn parse_tokens(file_contents: &String) -> (out: (Vec<Token>, Vec<LexError>, i32))
    ensures
        token_views(out.0@) == tokens_from(file_contents@, 0),
        out.1@ == errors_from(file_contents@, 0),
        out.2 == if out.1@.len() == 0 {
            0int
        } else {
            65int
        },
        out.0@.len() > 0,
        out.0@.last()@ == end_of_input(),
        forall|k: int|
            0 <= k < out.0@.len() - 1 ==> (#[trigger] out.0@[k]).token_type != TokenType::Eof
                && out.0@[k].line_number >= 1,
{
    let chars = chars_of(file_contents.as_str());
    let ghost s = chars@;
    let mut tokens: Vec<Token> = Vec::new();
    let mut errors: Vec<LexError> = Vec::new();
    let mut i: usize = 0;
    let mut newlines: usize = 0;
    proof {
        assert(token_views(tokens@) =~= Seq::<TokenView>::empty());
    }
    while i < chars.len()
        invariant
            s == chars@,
            i <= chars@.len(),
            newlines == newlines_before(s, i as int),
            newlines <= i,
            tokens_from(s, 0) == token_views(tokens@) + tokens_from(s, i as int),
            errors_from(s, 0) == errors@ + errors_from(s, i as int),
        decreases chars@.len() - i,
    {
        let out = scan_token(&chars, i, newlines + 1);
        proof {
            lex_at_advances(s, i as int);
            lex_at_lines(s, i as int);
        }
        let ghost before = tokens@;
        let ghost errors_before = errors@;
        if chars[i] == '\n' {
            newlines = newlines + 1;
        }
        match out.0 {
            Some(token) => {
                tokens.push(token);
                assert(token_views(tokens@) =~= token_views(before) + seq![token@]);
                assert(token_views(before) + (seq![token@] + tokens_from(s, out.2 as int)) =~= token_views(
                    tokens@,
                ) + tokens_from(s, out.2 as int));
            },
            None => {},
        }
        match out.1 {
            Some(error) => {
                errors.push(error);
                assert(errors_before + (seq![error] + errors_from(s, out.2 as int)) =~= errors@ + errors_from(
                    s,
                    out.2 as int,
                ));
            },
            None => {},
        }
        i = out.2;
    }
    let ghost before = tokens@;
    tokens.push(Token::new(TokenType::Eof, String::new(), Literal::Nil, 0));
    proof {
        assert(tokens_from(s, i as int) =~= seq![end_of_input()]);
        assert(token_views(tokens@) =~= token_views(before) + seq![end_of_input()]);
        tokens_from_shape(s, 0);
        assert(token_views(tokens@).len() == tokens@.len());
        assert forall|k: int| 0 <= k < tokens@.len() - 1 implies (#[trigger] tokens@[k]).token_type
            != TokenType::Eof && tokens@[k].line_number >= 1 by {
            assert(token_views(tokens@)[k] == tokens@[k]@);
        }
        assert(errors_from(s, i as int) =~= Seq::<LexError>::empty());
        assert(errors@ =~= errors_from(s, 0));
    }
    let code: i32 = if errors.len() == 0 {
        0
    } else {
        65
    };
    (tokens, errors, code)
}

} // verus!
