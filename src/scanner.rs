//! The lexer: source text to tokens, in one pass with at most two characters
//! of lookahead.
use vstd::prelude::*;

use crate::lox::{lex_diagnostic, DiagnosticView, Lox};
use crate::number::{decimal_value, is_digit, is_numeral, numeral_split, parse_numeral};
use crate::token::{Literal, LiteralView, Token, TokenType, TokenView};

verus! {

pub open spec fn is_alpha(c: char) -> bool {
    ('a' <= c && c <= 'z') || ('A' <= c && c <= 'Z') || c == '_'
}

pub open spec fn is_alpha_numeric(c: char) -> bool {
    is_alpha(c) || is_digit(c)
}

/// The kind of a token of one character that needs no lookahead.
pub open spec fn single_kind(c: char) -> Option<TokenType> {
    if c == '(' {
        Some(TokenType::LeftParen)
    } else if c == ')' {
        Some(TokenType::RightParen)
    } else if c == '{' {
        Some(TokenType::LeftBrace)
    } else if c == '}' {
        Some(TokenType::RightBrace)
    } else if c == ',' {
        Some(TokenType::Comma)
    } else if c == '.' {
        Some(TokenType::Dot)
    } else if c == '-' {
        Some(TokenType::Minus)
    } else if c == '+' {
        Some(TokenType::Plus)
    } else if c == ';' {
        Some(TokenType::Semicolon)
    } else if c == '*' {
        Some(TokenType::Star)
    } else {
        None
    }
}

/// For a character that may start an operator of two characters: the kind
/// alone and the kind when followed by `=`.
pub open spec fn pair_kinds(c: char) -> Option<(TokenType, TokenType)> {
    if c == '!' {
        Some((TokenType::Bang, TokenType::BangEqual))
    } else if c == '=' {
        Some((TokenType::Equal, TokenType::EqualEqual))
    } else if c == '<' {
        Some((TokenType::Less, TokenType::LessEqual))
    } else if c == '>' {
        Some((TokenType::Greater, TokenType::GreaterEqual))
    } else {
        None
    }
}

/// The reserved words.
pub open spec fn keyword(text: Seq<char>) -> Option<TokenType> {
    if text == "and"@ {
        Some(TokenType::And)
    } else if text == "class"@ {
        Some(TokenType::Class)
    } else if text == "else"@ {
        Some(TokenType::Else)
    } else if text == "false"@ {
        Some(TokenType::False)
    } else if text == "for"@ {
        Some(TokenType::For)
    } else if text == "fun"@ {
        Some(TokenType::Fun)
    } else if text == "if"@ {
        Some(TokenType::If)
    } else if text == "nil"@ {
        Some(TokenType::Nil)
    } else if text == "or"@ {
        Some(TokenType::Or)
    } else if text == "print"@ {
        Some(TokenType::Print)
    } else if text == "return"@ {
        Some(TokenType::Return)
    } else if text == "super"@ {
        Some(TokenType::Super)
    } else if text == "this"@ {
        Some(TokenType::This)
    } else if text == "true"@ {
        Some(TokenType::True)
    } else if text == "var"@ {
        Some(TokenType::Var)
    } else if text == "while"@ {
        Some(TokenType::While)
    } else {
        None
    }
}

/// The first index from `i` on that holds no digit (or the end).
pub open spec fn digits_end(s: Seq<char>, i: int) -> int
    decreases s.len() - i,
{
    if 0 <= i < s.len() && is_digit(s[i]) {
        digits_end(s, i + 1)
    } else {
        i
    }
}

/// The first index from `i` on that holds neither letter, digit nor `_`.
pub open spec fn word_end(s: Seq<char>, i: int) -> int
    decreases s.len() - i,
{
    if 0 <= i < s.len() && is_alpha_numeric(s[i]) {
        word_end(s, i + 1)
    } else {
        i
    }
}

/// The first index from `i` on that holds `stop` (or the end).
pub open spec fn find_from(s: Seq<char>, i: int, stop: char) -> int
    decreases s.len() - i,
{
    if 0 <= i < s.len() && s[i] != stop {
        find_from(s, i + 1, stop)
    } else {
        i
    }
}

/// The number of line breaks in `s[from..to]`.
pub open spec fn newlines(s: Seq<char>, from: int, to: int) -> int
    decreases to - from,
{
    if to <= from {
        0
    } else {
        newlines(s, from, to - 1) + if s[to - 1] == '\n' {
            1int
        } else {
            0
        }
    }
}

/// Where a number starting at `start` ends: digits, then a dot and digits
/// only if a digit follows the dot.
pub open spec fn number_end(s: Seq<char>, start: int) -> int {
    let e = digits_end(s, start + 1);
    if e + 1 < s.len() && s[e] == '.' && is_digit(s[e + 1]) {
        digits_end(s, e + 1)
    } else {
        e
    }
}

/// The effect of scanning one lexeme.
pub struct Step {
    pub next: int,
    pub line: int,
    pub token: Option<TokenView>,
    pub error: Option<Seq<char>>,
}

pub open spec fn plain(s: Seq<char>, start: int, next: int, line: int, kind: TokenType) -> Step {
    Step {
        next,
        line,
        token: Some(TokenView { token_type: kind, lexeme: s.subrange(start, next), literal: None, line }),
        error: None,
    }
}

pub open spec fn skip(next: int, line: int) -> Step {
    Step { next, line, token: None, error: None }
}

/// One step of the lexer at `start` (which lies inside `s`), on line `line`.
pub open spec fn scan_step(s: Seq<char>, start: int, line: int) -> Step {
    let c = s[start];
    if single_kind(c) is Some {
        plain(s, start, start + 1, line, single_kind(c)->0)
    } else if pair_kinds(c) is Some {
        let kinds = pair_kinds(c)->0;
        if start + 1 < s.len() && s[start + 1] == '=' {
            plain(s, start, start + 2, line, kinds.1)
        } else {
            plain(s, start, start + 1, line, kinds.0)
        }
    } else if c == '/' {
        if start + 1 < s.len() && s[start + 1] == '/' {
            skip(find_from(s, start + 2, '\n'), line)
        } else {
            plain(s, start, start + 1, line, TokenType::Slash)
        }
    } else if c == ' ' || c == '\r' || c == '\t' {
        skip(start + 1, line)
    } else if c == '\n' {
        skip(start + 1, line + 1)
    } else if c == '"' {
        let close = find_from(s, start + 1, '"');
        let line2 = line + newlines(s, start + 1, close);
        if close >= s.len() {
            Step { next: close, line: line2, token: None, error: Some("Unterminated string"@) }
        } else {
            Step {
                next: close + 1,
                line: line2,
                token: Some(
                    TokenView {
                        token_type: TokenType::Literal,
                        lexeme: s.subrange(start, close + 1),
                        literal: Some(LiteralView::Str(s.subrange(start + 1, close))),
                        line,
                    },
                ),
                error: None,
            }
        }
    } else if is_digit(c) {
        let e = number_end(s, start);
        Step {
            next: e,
            line,
            token: Some(
                TokenView {
                    token_type: TokenType::Literal,
                    lexeme: s.subrange(start, e),
                    literal: Some(LiteralView::Number(decimal_value(s.subrange(start, e)))),
                    line,
                },
            ),
            error: None,
        }
    } else if is_alpha(c) {
        let e = word_end(s, start + 1);
        let text = s.subrange(start, e);
        if keyword(text) is Some {
            plain(s, start, e, line, keyword(text)->0)
        } else {
            Step {
                next: e,
                line,
                token: Some(
                    TokenView {
                        token_type: TokenType::Literal,
                        lexeme: text,
                        literal: Some(LiteralView::Identifier(text)),
                        line,
                    },
                ),
                error: None,
            }
        }
    } else {
        Step { next: start + 1, line, token: None, error: Some("Unexpected character."@) }
    }
}

pub open spec fn optional<T>(o: Option<T>) -> Seq<T> {
    match o {
        Some(x) => seq![x],
        None => Seq::empty(),
    }
}

/// The tokens of `s[pos..]`, scanning from line `line`, ending with `Eof`.
pub open spec fn tokens_from(s: Seq<char>, pos: int, line: int) -> Seq<TokenView>
    decreases s.len() - pos,
{
    if pos < 0 || pos >= s.len() {
        seq![TokenView { token_type: TokenType::Eof, lexeme: Seq::empty(), literal: None, line }]
    } else {
        let st = scan_step(s, pos, line);
        if st.next <= pos || st.next > s.len() {
            Seq::empty()
        } else {
            optional(st.token) + tokens_from(s, st.next, st.line)
        }
    }
}

/// The lex errors of `s[pos..]`, scanning from line `line`.
pub open spec fn errors_from(s: Seq<char>, pos: int, line: int) -> Seq<DiagnosticView>
    decreases s.len() - pos,
{
    if pos < 0 || pos >= s.len() {
        Seq::empty()
    } else {
        let st = scan_step(s, pos, line);
        if st.next <= pos || st.next > s.len() {
            Seq::empty()
        } else {
            optional(
                match st.error {
                    Some(m) => Some(lex_diagnostic(st.line, m)),
                    None => None,
                },
            ) + errors_from(s, st.next, st.line)
        }
    }
}

/// The tokens of a whole source text.
pub open spec fn scan(s: Seq<char>) -> Seq<TokenView> {
    tokens_from(s, 0, 1)
}

/// The lex errors of a whole source text, in order.
pub open spec fn scan_errors(s: Seq<char>) -> Seq<DiagnosticView> {
    errors_from(s, 0, 1)
}

/// The diagnostic that a step reports, if any.
pub open spec fn step_errors(st: Step) -> Seq<DiagnosticView> {
    optional(
        match st.error {
            Some(m) => Some(lex_diagnostic(st.line, m)),
            None => None,
        },
    )
}

/// Where each token of `tokens_from(s, pos, line)` starts in `s`; `Eof`
/// starts at the end.
pub open spec fn token_starts(s: Seq<char>, pos: int, line: int) -> Seq<int>
    decreases s.len() - pos,
{
    if pos < 0 || pos >= s.len() {
        seq![s.len() as int]
    } else {
        let st = scan_step(s, pos, line);
        if st.next <= pos || st.next > s.len() {
            Seq::empty()
        } else {
            (if st.token is Some {
                seq![pos]
            } else {
                Seq::<int>::empty()
            }) + token_starts(s, st.next, st.line)
        }
    }
}

/// Token `t` was read from `s` at `k`, on the line that follows the line
/// breaks before `k`.
pub open spec fn placed_at(s: Seq<char>, t: TokenView, k: int) -> bool {
    &&& 0 <= k
    &&& k + t.lexeme.len() <= s.len()
    &&& s.subrange(k, k + t.lexeme.len()) == t.lexeme
    &&& t.line == 1 + newlines(s, 0, k)
}

pub open spec fn token_views(t: Seq<Token>) -> Seq<TokenView> {
    t.map_values(|x: Token| x@)
}

proof fn lemma_find_from_bounds(s: Seq<char>, i: int, stop: char)
    requires
        0 <= i <= s.len(),
    ensures
        i <= find_from(s, i, stop) <= s.len(),
    decreases s.len() - i,
{
    if i < s.len() && s[i] != stop {
        lemma_find_from_bounds(s, i + 1, stop);
    }
}

proof fn lemma_digits_end_bounds(s: Seq<char>, i: int)
    requires
        0 <= i <= s.len(),
    ensures
        i <= digits_end(s, i) <= s.len(),
    decreases s.len() - i,
{
    if i < s.len() && is_digit(s[i]) {
        lemma_digits_end_bounds(s, i + 1);
    }
}

proof fn lemma_word_end_bounds(s: Seq<char>, i: int)
    requires
        0 <= i <= s.len(),
    ensures
        i <= word_end(s, i) <= s.len(),
    decreases s.len() - i,
{
    if i < s.len() && is_alpha_numeric(s[i]) {
        lemma_word_end_bounds(s, i + 1);
    }
}

/// Each step of the lexer consumes at least one character and stays inside
/// the text.
pub proof fn lemma_step_progress(s: Seq<char>, pos: int, line: int)
    requires
        0 <= pos < s.len(),
    ensures
        pos < scan_step(s, pos, line).next <= s.len(),
{
    lemma_find_from_bounds(s, pos + 1, '"');
    if pos + 2 <= s.len() {
        lemma_find_from_bounds(s, pos + 2, '\n');
    }
    lemma_digits_end_bounds(s, pos + 1);
    let e = digits_end(s, pos + 1);
    if e + 1 < s.len() {
        lemma_digits_end_bounds(s, e + 1);
    }
    lemma_word_end_bounds(s, pos + 1);
}

/// The tokens of a scan end with exactly one `Eof`, the last of them.
pub proof fn lemma_tokens_end_with_eof(s: Seq<char>, pos: int, line: int)
    requires
        0 <= pos <= s.len(),
    ensures
        tokens_from(s, pos, line).len() > 0,
        tokens_from(s, pos, line).last().token_type == TokenType::Eof,
        forall|i: int|
            0 <= i < tokens_from(s, pos, line).len() - 1 ==> #[trigger] tokens_from(
                s,
                pos,
                line,
            )[i].token_type != TokenType::Eof,
    decreases s.len() - pos,
{
    if pos < s.len() {
        let st = scan_step(s, pos, line);
        lemma_step_progress(s, pos, line);
        lemma_tokens_end_with_eof(s, st.next, st.line);
        let head = optional(st.token);
        let rest = tokens_from(s, st.next, st.line);
        assert(tokens_from(s, pos, line) == head + rest);
        assert forall|i: int| 0 <= i < head.len() implies head[i].token_type != TokenType::Eof by {
        }
        assert forall|i: int| 0 <= i < (head + rest).len() - 1 implies #[trigger] (head + rest)[i].token_type != TokenType::Eof by {
            if i >= head.len() {
                assert((head + rest)[i] == rest[i - head.len()]);
            }
        }
    }
}

proof fn lemma_newlines_split(s: Seq<char>, a: int, b: int, c: int)
    requires
        a <= b <= c,
    ensures
        newlines(s, a, c) == newlines(s, a, b) + newlines(s, b, c),
    decreases c - b,
{
    if b < c {
        lemma_newlines_split(s, a, b, c - 1);
    }
}

proof fn lemma_newlines_none(s: Seq<char>, a: int, b: int)
    requires
        a <= b,
        forall|j: int| a <= j < b ==> s[j] != '\n',
    ensures
        newlines(s, a, b) == 0,
    decreases b - a,
{
    if a < b {
        lemma_newlines_none(s, a, b - 1);
    }
}

proof fn lemma_digits_all(s: Seq<char>, i: int)
    requires
        0 <= i <= s.len(),
    ensures
        forall|j: int| i <= j < digits_end(s, i) ==> is_digit(s[j]),
    decreases s.len() - i,
{
    if i < s.len() && is_digit(s[i]) {
        lemma_digits_all(s, i + 1);
    }
}

proof fn lemma_word_all(s: Seq<char>, i: int)
    requires
        0 <= i <= s.len(),
    ensures
        forall|j: int| i <= j < word_end(s, i) ==> is_alpha_numeric(s[j]),
    decreases s.len() - i,
{
    if i < s.len() && is_alpha_numeric(s[i]) {
        lemma_word_all(s, i + 1);
    }
}

proof fn lemma_find_all(s: Seq<char>, i: int, stop: char)
    requires
        0 <= i <= s.len(),
    ensures
        forall|j: int| i <= j < find_from(s, i, stop) ==> s[j] != stop,
        find_from(s, i, stop) < s.len() ==> s[find_from(s, i, stop)] == stop,
    decreases s.len() - i,
{
    if i < s.len() && s[i] != stop {
        lemma_find_all(s, i + 1, stop);
    }
}

/// One step keeps the line equal to one more than the line breaks read, and
/// a token it makes was read where the step started, on the line that step
/// started on.
proof fn lemma_step_lines(s: Seq<char>, pos: int, line: int)
    requires
        0 <= pos < s.len(),
        line == 1 + newlines(s, 0, pos),
    ensures
        scan_step(s, pos, line).line == 1 + newlines(s, 0, scan_step(s, pos, line).next),
        scan_step(s, pos, line).token matches Some(t) ==> placed_at(s, t, pos),
{
    let st = scan_step(s, pos, line);
    let c = s[pos];
    lemma_step_progress(s, pos, line);
    lemma_newlines_split(s, 0, pos, st.next);
    if c == '"' {
        let close = find_from(s, pos + 1, '"');
        lemma_find_from_bounds(s, pos + 1, '"');
        lemma_find_all(s, pos + 1, '"');
        lemma_newlines_split(s, pos, pos + 1, close);
        lemma_newlines_split(s, pos, close, st.next);
        lemma_newlines_none(s, pos, pos + 1);
        if close < s.len() {
            lemma_newlines_none(s, close, close + 1);
        }
    } else if c == '\n' {
        assert(newlines(s, pos, pos) == 0);
        assert(newlines(s, pos, pos + 1) == 1);
    } else if single_kind(c) is Some || pair_kinds(c) is Some || c == ' ' || c == '\r' || c
        == '\t' {
        lemma_newlines_none(s, pos, st.next);
    } else if c == '/' {
        if pos + 1 < s.len() && s[pos + 1] == '/' {
            lemma_find_from_bounds(s, pos + 2, '\n');
            lemma_find_all(s, pos + 2, '\n');
            lemma_newlines_none(s, pos, st.next);
        }
    } else if is_digit(c) {
        let e = digits_end(s, pos + 1);
        lemma_digits_end_bounds(s, pos + 1);
        lemma_digits_all(s, pos + 1);
        if e + 1 < s.len() && s[e] == '.' && is_digit(s[e + 1]) {
            lemma_digits_end_bounds(s, e + 1);
            lemma_digits_all(s, e + 1);
        }
        lemma_newlines_none(s, pos, st.next);
    } else if is_alpha(c) {
        lemma_word_end_bounds(s, pos + 1);
        lemma_word_all(s, pos + 1);
        lemma_newlines_none(s, pos, st.next);
    } else {
        lemma_newlines_none(s, pos, pos + 1);
    }
}

proof fn lemma_lines_from(s: Seq<char>, pos: int, line: int)
    requires
        0 <= pos <= s.len(),
        line == 1 + newlines(s, 0, pos),
    ensures
        token_starts(s, pos, line).len() == tokens_from(s, pos, line).len(),
        forall|i: int|
            0 <= i < tokens_from(s, pos, line).len() ==> placed_at(
                s,
                #[trigger] tokens_from(s, pos, line)[i],
                token_starts(s, pos, line)[i],
            ),
    decreases s.len() - pos,
{
    if pos < s.len() {
        let st = scan_step(s, pos, line);
        lemma_step_progress(s, pos, line);
        lemma_step_lines(s, pos, line);
        lemma_lines_from(s, st.next, st.line);
        let head = optional(st.token);
        let heads = if st.token is Some {
            seq![pos]
        } else {
            Seq::<int>::empty()
        };
        let rest = tokens_from(s, st.next, st.line);
        let rests = token_starts(s, st.next, st.line);
        assert(tokens_from(s, pos, line) == head + rest);
        assert(token_starts(s, pos, line) == heads + rests);
        assert forall|i: int|
            0 <= i < (head + rest).len() implies placed_at(
                s,
                #[trigger] (head + rest)[i],
                (heads + rests)[i],
            ) by {
            if i >= head.len() {
                assert((head + rest)[i] == rest[i - head.len()]);
                assert((heads + rests)[i] == rests[i - head.len()]);
            }
        }
    } else {
        let t = tokens_from(s, pos, line)[0];
        assert(s.subrange(pos, pos + t.lexeme.len()) =~= t.lexeme);
    }
}

proof fn lemma_newlines_nonnegative(s: Seq<char>, a: int, b: int)
    ensures
        newlines(s, a, b) >= 0,
    decreases b - a,
{
    if a < b {
        lemma_newlines_nonnegative(s, a, b - 1);
    }
}

/// Line numbers never decrease along the tokens of a scan, and none is below
/// the line the scan started on.
pub proof fn lemma_lines_non_decreasing(s: Seq<char>, pos: int, line: int)
    requires
        0 <= pos <= s.len(),
    ensures
        forall|i: int|
            0 <= i < tokens_from(s, pos, line).len() ==> #[trigger] tokens_from(
                s,
                pos,
                line,
            )[i].line >= line,
        forall|i: int, j: int|
            0 <= i < j < tokens_from(s, pos, line).len() ==> #[trigger] tokens_from(
                s,
                pos,
                line,
            )[i].line <= #[trigger] tokens_from(s, pos, line)[j].line,
    decreases s.len() - pos,
{
    if pos < s.len() {
        let st = scan_step(s, pos, line);
        lemma_step_progress(s, pos, line);
        lemma_newlines_nonnegative(s, pos + 1, find_from(s, pos + 1, '"'));
        lemma_lines_non_decreasing(s, st.next, st.line);
        let head = optional(st.token);
        let rest = tokens_from(s, st.next, st.line);
        assert(tokens_from(s, pos, line) == head + rest);
        assert(st.line >= line);
        assert(st.token matches Some(t) ==> t.line == line);
        assert forall|i: int| 0 <= i < (head + rest).len() implies #[trigger] (head
            + rest)[i].line >= line && (i < head.len() ==> (head + rest)[i].line == line) by {
            if i >= head.len() {
                assert((head + rest)[i] == rest[i - head.len()]);
            }
        }
        assert forall|i: int, j: int| 0 <= i < j < (head + rest).len() implies #[trigger] (head
            + rest)[i].line <= #[trigger] (head + rest)[j].line by {
            if i >= head.len() {
                assert((head + rest)[i] == rest[i - head.len()]);
                assert((head + rest)[j] == rest[j - head.len()]);
            } else {
                assert((head + rest)[i].line == line);
                if j >= head.len() {
                    assert((head + rest)[j] == rest[j - head.len()]);
                }
            }
        }
    }
}

proof fn lemma_find_none(s: Seq<char>, i: int, stop: char)
    requires
        0 <= i <= s.len(),
        forall|j: int| i <= j < s.len() ==> s[j] != stop,
    ensures
        find_from(s, i, stop) == s.len(),
    decreases s.len() - i,
{
    if i < s.len() {
        lemma_find_none(s, i + 1, stop);
    }
}

/// A string that is never closed yields no token: the scan reports one
/// "Unterminated string" error on the line where the text ends, and only
/// `Eof` follows, on that same line.
pub proof fn lemma_unterminated_string(s: Seq<char>, pos: int, line: int)
    requires
        0 <= pos < s.len(),
        s[pos] == '"',
        forall|j: int| pos < j < s.len() ==> s[j] != '"',
    ensures
        tokens_from(s, pos, line) == seq![
            TokenView {
                token_type: TokenType::Eof,
                lexeme: Seq::empty(),
                literal: None,
                line: line + newlines(s, pos + 1, s.len() as int),
            },
        ],
        errors_from(s, pos, line) == seq![
            lex_diagnostic(line + newlines(s, pos + 1, s.len() as int), "Unterminated string"@),
        ],
        line == 1 + newlines(s, 0, pos) ==> line + newlines(s, pos + 1, s.len() as int) == 1
            + newlines(s, 0, s.len() as int),
{
    lemma_find_none(s, pos + 1, '"');
    let st = scan_step(s, pos, line);
    assert(st.next == s.len());
    assert(tokens_from(s, pos, line) =~= optional(st.token) + tokens_from(s, st.next, st.line));
    assert(errors_from(s, pos, line) =~= step_errors(st) + errors_from(s, st.next, st.line));
    lemma_newlines_split(s, 0, pos, pos + 1);
    lemma_newlines_split(s, 0, pos + 1, s.len() as int);
    lemma_newlines_none(s, pos, pos + 1);
}

/// Every token was read at the position the lexer records for it, and its
/// line is one more than the number of line breaks before that position: a
/// string spanning lines records the line it starts on.
pub proof fn lemma_token_lines(s: Seq<char>)
    ensures
        token_starts(s, 0, 1).len() == scan(s).len(),
        forall|i: int|
            0 <= i < scan(s).len() ==> placed_at(
                s,
                #[trigger] scan(s)[i],
                token_starts(s, 0, 1)[i],
            ),
{
    lemma_lines_from(s, 0, 1);
}

fn digit(c: char) -> (r: bool)
    ensures
        r == is_digit(c),
{
    '0' <= c && c <= '9'
}

fn alpha(c: char) -> (r: bool)
    ensures
        r == is_alpha(c),
{
    ('a' <= c && c <= 'z') || ('A' <= c && c <= 'Z') || c == '_'
}

fn alpha_numeric(c: char) -> (r: bool)
    ensures
        r == is_alpha_numeric(c),
{
    alpha(c) || digit(c)
}

fn single(c: char) -> (r: Option<TokenType>)
    ensures
        r == single_kind(c),
{
    match c {
        '(' => Some(TokenType::LeftParen),
        ')' => Some(TokenType::RightParen),
        '{' => Some(TokenType::LeftBrace),
        '}' => Some(TokenType::RightBrace),
        ',' => Some(TokenType::Comma),
        '.' => Some(TokenType::Dot),
        '-' => Some(TokenType::Minus),
        '+' => Some(TokenType::Plus),
        ';' => Some(TokenType::Semicolon),
        '*' => Some(TokenType::Star),
        _ => None,
    }
}

fn pair(c: char) -> (r: Option<(TokenType, TokenType)>)
    ensures
        r == pair_kinds(c),
{
    match c {
        '!' => Some((TokenType::Bang, TokenType::BangEqual)),
        '=' => Some((TokenType::Equal, TokenType::EqualEqual)),
        '<' => Some((TokenType::Less, TokenType::LessEqual)),
        '>' => Some((TokenType::Greater, TokenType::GreaterEqual)),
        _ => None,
    }
}

fn is_word(text: &String, w: &str) -> (r: bool)
    ensures
        r == (text@ == w@),
{
    let ws = String::from_str(w);
    text.eq(&ws)
}

/// The kind of a reserved word, if `text` is one.
pub fn keyword_kind(text: &String) -> (r: Option<TokenType>)
    ensures
        r == keyword(text@),
{
    let t = text;
    if is_word(t, "and") {
        Some(TokenType::And)
    } else if is_word(t, "class") {
        Some(TokenType::Class)
    } else if is_word(t, "else") {
        Some(TokenType::Else)
    } else if is_word(t, "false") {
        Some(TokenType::False)
    } else if is_word(t, "for") {
        Some(TokenType::For)
    } else if is_word(t, "fun") {
        Some(TokenType::Fun)
    } else if is_word(t, "if") {
        Some(TokenType::If)
    } else if is_word(t, "nil") {
        Some(TokenType::Nil)
    } else if is_word(t, "or") {
        Some(TokenType::Or)
    } else if is_word(t, "print") {
        Some(TokenType::Print)
    } else if is_word(t, "return") {
        Some(TokenType::Return)
    } else if is_word(t, "super") {
        Some(TokenType::Super)
    } else if is_word(t, "this") {
        Some(TokenType::This)
    } else if is_word(t, "true") {
        Some(TokenType::True)
    } else if is_word(t, "var") {
        Some(TokenType::Var)
    } else if is_word(t, "while") {
        Some(TokenType::While)
    } else {
        None
    }
}

fn copy_tokens(v: &Vec<Token>) -> (r: Vec<Token>)
    ensures
        r@ == v@,
{
    let mut r: Vec<Token> = Vec::new();
    let mut i: usize = 0;
    while i < v.len()
        invariant
            i <= v@.len(),
            r@ == v@.subrange(0, i as int),
        decreases v@.len() - i,
    {
        r.push(v[i].duplicate());
        i = i + 1;
        assert(r@ =~= v@.subrange(0, i as int));
    }
    assert(r@ =~= v@);
    r
}

/// The lexer's state: the source, the tokens so far, and a cursor.
pub struct Scanner {
    pub source: String,
    pub tokens: Vec<Token>,
    pub chars: Vec<char>,
    pub current: usize,
    pub start: usize,
    pub line: usize,
}

impl Scanner {
    pub open spec fn text(&self) -> Seq<char> {
        self.source@
    }

    pub open spec fn wf(&self) -> bool {
        &&& self.chars@ == self.source@
        &&& self.chars@.len() < usize::MAX
        &&& self.start <= self.current <= self.chars@.len()
        &&& 1 <= self.line <= 1 + self.current
    }

    /// Where the cursor stands and on which line.
    pub open spec fn position(&self) -> (int, int) {
        (self.current as int, self.line as int)
    }

    pub fn new(source: String) -> (r: Scanner)
        requires
            source@.len() < usize::MAX,
        ensures
            r.wf(),
            r.source == source,
            r.text() == source@,
            r.tokens@.len() == 0,
            r.position() == (0int, 1int),
    {
        let n = source.as_str().unicode_len();
        let mut chars: Vec<char> = Vec::new();
        let mut i: usize = 0;
        while i < n
            invariant
                n == source@.len(),
                i <= n,
                chars@ == source@.subrange(0, i as int),
            decreases n - i,
        {
            chars.push(source.as_str().get_char(i));
            i = i + 1;
            assert(chars@ =~= source@.subrange(0, i as int));
        }
        assert(chars@ =~= source@);
        Scanner { source, tokens: Vec::new(), chars, start: 0, current: 0, line: 1 }
    }

    /// Scans the whole source, reporting lex errors into `lox`, and returns
    /// the tokens, the last of them `Eof`.
    pub fn scan_tokens(&mut self, lox: &mut Lox) -> (r: Vec<Token>)
        requires
            old(self).wf(),
            old(self).tokens@.len() == 0,
            old(self).position() == (0int, 1int),
        ensures
            token_views(r@) == scan(old(self).text()),
            final(lox).reported() == old(lox).reported() + scan_errors(old(self).text()),
            final(lox).had_error == (old(lox).had_error || scan_errors(old(self).text()).len() > 0),
    {
        let ghost s = self.source@;
        let ghost base = lox.reported();
        assert(token_views(self.tokens@) =~= Seq::<TokenView>::empty());
        assert(lox.reported() =~= base + Seq::<DiagnosticView>::empty());
        while !self.is_at_end()
            invariant
                self.wf(),
                self.source@ == s,
                token_views(self.tokens@) + tokens_from(s, self.current as int, self.line as int)
                    == scan(s),
                lox.reported() + errors_from(s, self.current as int, self.line as int) == base
                    + scan_errors(s),
                lox.reported().len() >= base.len(),
                lox.had_error == (old(lox).had_error || lox.reported().len() > base.len()),
            decreases self.chars@.len() - self.current,
        {
            let ghost tv = token_views(self.tokens@);
            let ghost rep = lox.reported();
            let ghost st = scan_step(s, self.current as int, self.line as int);
            let ghost e = step_errors(st);
            self.start = self.current;
            self.scan_token(lox);
            assert(tv + (optional(st.token) + tokens_from(s, st.next, st.line)) =~= (tv + optional(
                st.token,
            )) + tokens_from(s, st.next, st.line));
            assert(rep + (e + errors_from(s, st.next, st.line)) =~= (rep + e) + errors_from(
                s,
                st.next,
                st.line,
            ));
        }
        let eof = Token::new(TokenType::Eof, String::new(), None, self.line);
        let ghost tv = token_views(self.tokens@);
        self.tokens.push(eof);
        assert(token_views(self.tokens@) =~= tv.push(eof@));
        assert(eof@.lexeme =~= Seq::<char>::empty());
        assert(lox.reported() =~= base + scan_errors(s));
        assert(token_views(self.tokens@) =~= scan(s));
        copy_tokens(&self.tokens)
    }

    fn is_at_end(&self) -> (r: bool)
        requires
            self.wf(),
        ensures
            r == (self.current >= self.chars@.len()),
    {
        self.current >= self.chars.len()
    }

    fn peek(&self) -> (r: char)
        requires
            self.wf(),
        ensures
            r == if self.current < self.chars@.len() {
                self.chars@[self.current as int]
            } else {
                '\0'
            },
    {
        if self.is_at_end() {
            return '\0';
        }
        self.chars[self.current]
    }

    fn peek_next(&self) -> (r: char)
        requires
            self.wf(),
        ensures
            r == if self.current + 1 < self.chars@.len() {
                self.chars@[self.current + 1]
            } else {
                '\0'
            },
    {
        if self.current + 1 >= self.chars.len() {
            return '\0';
        }
        self.chars[self.current + 1]
    }

    fn advance(&mut self) -> (r: char)
        requires
            old(self).wf(),
            old(self).current < old(self).chars@.len(),
            old(self).line <= 1 + old(self).current,
        ensures
            final(self).wf(),
            r == old(self).chars@[old(self).current as int],
            final(self).current == old(self).current + 1,
            final(self).start == old(self).start,
            final(self).line == old(self).line,
            final(self).chars == old(self).chars,
            final(self).source == old(self).source,
            final(self).tokens == old(self).tokens,
    {
        let c = self.chars[self.current];
        self.current = self.current + 1;
        c
    }

    fn matches(&mut self, expected: char) -> (r: bool)
        requires
            old(self).wf(),
        ensures
            final(self).wf(),
            r == (old(self).current < old(self).chars@.len() && old(self).chars@[old(
                self,
            ).current as int] == expected),
            final(self).current == old(self).current + if r {
                1int
            } else {
                0
            },
            final(self).start == old(self).start,
            final(self).line == old(self).line,
            final(self).chars == old(self).chars,
            final(self).source == old(self).source,
            final(self).tokens == old(self).tokens,
    {
        if self.is_at_end() {
            return false;
        }
        if self.chars[self.current] != expected {
            return false;
        }
        self.current = self.current + 1;
        true
    }

    /// Appends a token whose lexeme runs from `start` to the cursor.
    fn add_token(&mut self, token_type: TokenType, literal: Option<Literal>)
        requires
            old(self).wf(),
        ensures
            final(self).wf(),
            final(self).current == old(self).current,
            final(self).start == old(self).start,
            final(self).line == old(self).line,
            final(self).chars == old(self).chars,
            final(self).source == old(self).source,
            token_views(final(self).tokens@) == token_views(old(self).tokens@).push(
                TokenView {
                    token_type,
                    lexeme: old(self).source@.subrange(old(self).start as int, old(self).current as int),
                    literal: match literal {
                        Some(l) => Some(l@),
                        None => None,
                    },
                    line: old(self).line as int,
                },
            ),
    {
        let line = self.line;
        self.add_token_on_line(token_type, literal, line)
    }

    /// Appends a token whose lexeme runs from `start` to the cursor, on
    /// `line`.
    fn add_token_on_line(&mut self, token_type: TokenType, literal: Option<Literal>, line: usize)
        requires
            old(self).wf(),
        ensures
            final(self).wf(),
            final(self).current == old(self).current,
            final(self).start == old(self).start,
            final(self).line == old(self).line,
            final(self).chars == old(self).chars,
            final(self).source == old(self).source,
            token_views(final(self).tokens@) == token_views(old(self).tokens@).push(
                TokenView {
                    token_type,
                    lexeme: old(self).source@.subrange(old(self).start as int, old(self).current as int),
                    literal: match literal {
                        Some(l) => Some(l@),
                        None => None,
                    },
                    line: line as int,
                },
            ),
    {
        let text = String::from_str(self.source.as_str().substring_char(self.start, self.current));
        let t = Token::new(token_type, text, literal, line);
        let ghost tv = token_views(self.tokens@);
        self.tokens.push(t);
        assert(token_views(self.tokens@) =~= tv.push(t@));
    }

    fn add_token_without_literal(&mut self, token_type: TokenType)
        requires
            old(self).wf(),
        ensures
            final(self).wf(),
            final(self).current == old(self).current,
            final(self).start == old(self).start,
            final(self).line == old(self).line,
            final(self).chars == old(self).chars,
            final(self).source == old(self).source,
            token_views(final(self).tokens@) == token_views(old(self).tokens@).push(
                TokenView {
                    token_type,
                    lexeme: old(self).source@.subrange(old(self).start as int, old(self).current as int),
                    literal: None,
                    line: old(self).line as int,
                },
            ),
    {
        self.add_token(token_type, None)
    }

    /// Scans one lexeme starting at the cursor.
    fn scan_token(&mut self, lox: &mut Lox)
        requires
            old(self).wf(),
            old(self).start == old(self).current,
            old(self).current < old(self).chars@.len(),
        ensures
            final(self).wf(),
            final(self).source == old(self).source,
            final(self).chars == old(self).chars,
            final(self).current > old(self).current,
            final(self).current == scan_step(
                old(self).source@,
                old(self).current as int,
                old(self).line as int,
            ).next,
            final(self).line == scan_step(
                old(self).source@,
                old(self).current as int,
                old(self).line as int,
            ).line,
            token_views(final(self).tokens@) == token_views(old(self).tokens@) + optional(
                scan_step(old(self).source@, old(self).current as int, old(self).line as int).token,
            ),
            final(lox).reported() == old(lox).reported() + step_errors(
                scan_step(old(self).source@, old(self).current as int, old(self).line as int),
            ),
            final(lox).had_error == (old(lox).had_error || scan_step(
                old(self).source@,
                old(self).current as int,
                old(self).line as int,
            ).error is Some),
    {
        let ghost s = self.source@;
        let ghost st = scan_step(s, self.current as int, self.line as int);
        let ghost tv = token_views(self.tokens@);
        let ghost rep = lox.reported();
        let ghost had = lox.had_error;
        let c = self.advance();
        if let Some(kind) = single(c) {
            self.add_token_without_literal(kind);
        } else if let Some(kinds) = pair(c) {
            if self.matches('=') {
                self.add_token_without_literal(kinds.1);
            } else {
                self.add_token_without_literal(kinds.0);
            }
        } else if c == '/' {
            if self.matches('/') {
                while self.peek() != '\n' && !self.is_at_end()
                    invariant
                        self.wf(),
                        self.source@ == s,
                        self.chars@ == s,
                        self.source == old(self).source,
                        self.chars == old(self).chars,
                        self.start == old(self).start,
                        self.start + 2 <= self.current,
                        self.line == old(self).line,
                        self.tokens == old(self).tokens,
                        find_from(s, self.current as int, '\n') == find_from(
                            s,
                            self.start + 2,
                            '\n',
                        ),
                    decreases self.chars@.len() - self.current,
                {
                    self.advance();
                }
                assert(self.current == st.next);
            } else {
                self.add_token_without_literal(TokenType::Slash);
            }
        } else if c == ' ' || c == '\r' || c == '\t' {
        } else if c == '\n' {
            self.line = self.line + 1;
        } else if c == '"' {
            self.string(lox);
            assert(self.current == st.next);
        } else if digit(c) {
            self.number();
            assert(self.current == st.next);
        } else if alpha(c) {
            self.identifier();
            assert(self.current == st.next);
        } else {
            lox.error_lexer(self.line, "Unexpected character.");
        }
        assert(token_views(self.tokens@) =~= tv + optional(st.token));
        assert(lox.reported() =~= rep + step_errors(st));
    }

    /// Scans a string literal whose opening quote is at `start`.
    fn string(&mut self, lox: &mut Lox)
        requires
            old(self).wf(),
            old(self).current == old(self).start + 1,
            old(self).chars@[old(self).start as int] == '"',
        ensures
            final(self).wf(),
            final(self).source == old(self).source,
            final(self).chars == old(self).chars,
            final(self).current > old(self).start,
            final(self).current == scan_step(
                old(self).source@,
                old(self).start as int,
                old(self).line as int,
            ).next,
            final(self).line == scan_step(
                old(self).source@,
                old(self).start as int,
                old(self).line as int,
            ).line,
            token_views(final(self).tokens@) == token_views(old(self).tokens@) + optional(
                scan_step(old(self).source@, old(self).start as int, old(self).line as int).token,
            ),
            final(lox).reported() == old(lox).reported() + step_errors(
                scan_step(old(self).source@, old(self).start as int, old(self).line as int),
            ),
            final(lox).had_error == (old(lox).had_error || scan_step(
                old(self).source@,
                old(self).start as int,
                old(self).line as int,
            ).error is Some),
    {
        let ghost s = self.source@;
        let ghost tv = token_views(self.tokens@);
        let ghost rep = lox.reported();
        let ghost line0 = self.line as int;
        let start_line = self.line;
        while self.peek() != '"' && !self.is_at_end()
            invariant
                self.wf(),
                self.source@ == s,
                self.chars@ == s,
                self.source == old(self).source,
                self.chars == old(self).chars,
                self.start + 1 <= self.current,
                self.start == old(self).start,
                self.tokens == old(self).tokens,
                self.line == line0 + newlines(s, self.start + 1, self.current as int),
                find_from(s, self.current as int, '"') == find_from(s, self.start + 1, '"'),
            decreases self.chars@.len() - self.current,
        {
            let c = self.advance();
            if c == '\n' {
                self.line = self.line + 1;
            }
        }
        if self.is_at_end() {
            lox.error_lexer(self.line, "Unterminated string");
            assert(lox.reported() =~= rep + seq![lex_diagnostic(self.line as int, "Unterminated string"@)]);
            assert(token_views(self.tokens@) =~= tv + Seq::<TokenView>::empty());
            return;
        }
        let value = String::from_str(
            self.source.as_str().substring_char(self.start + 1, self.current),
        );
        self.advance();
        self.add_token_on_line(TokenType::Literal, Some(Literal::String(value)), start_line);
        assert(token_views(self.tokens@) =~= tv + optional(
            scan_step(s, self.start as int, line0).token,
        ));
        assert(lox.reported() =~= rep + Seq::<DiagnosticView>::empty());
    }

    /// Scans a number whose first digit is at `start`.
    fn number(&mut self)
        requires
            old(self).wf(),
            old(self).current == old(self).start + 1,
            is_digit(old(self).chars@[old(self).start as int]),
        ensures
            final(self).wf(),
            final(self).source == old(self).source,
            final(self).chars == old(self).chars,
            final(self).current > old(self).start,
            final(self).line == old(self).line,
            final(self).current == number_end(old(self).source@, old(self).start as int),
            token_views(final(self).tokens@) == token_views(old(self).tokens@).push(
                scan_step(old(self).source@, old(self).start as int, old(self).line as int).token->0,
            ),
    {
        let ghost s = self.source@;
        let ghost start = self.start as int;
        while digit(self.peek())
            invariant
                self.wf(),
                self.source@ == s,
                self.chars@ == s,
                self.source == old(self).source,
                self.chars == old(self).chars,
                self.start == start,
                start + 1 <= self.current,
                self.line == old(self).line,
                self.tokens == old(self).tokens,
                digits_end(s, self.current as int) == digits_end(s, start + 1),
                forall|j: int| start <= j < self.current ==> is_digit(#[trigger] s[j]),
            decreases self.chars@.len() - self.current,
        {
            self.advance();
        }
        let ghost e1 = self.current as int;
        if self.peek() == '.' && digit(self.peek_next()) {
            self.advance();
            while digit(self.peek())
                invariant
                    self.wf(),
                    self.source@ == s,
                    self.chars@ == s,
                    self.source == old(self).source,
                    self.chars == old(self).chars,
                    s[e1] == '.',
                    start < e1,
                    e1 + 1 < s.len(),
                    is_digit(s[e1 + 1]),
                    forall|j: int| start <= j < e1 ==> is_digit(#[trigger] s[j]),
                    self.start == start,
                    e1 + 1 <= self.current,
                    self.line == old(self).line,
                    self.tokens == old(self).tokens,
                    digits_end(s, self.current as int) == digits_end(s, e1 + 1),
                    forall|j: int| e1 < j < self.current ==> is_digit(#[trigger] s[j]),
                decreases self.chars@.len() - self.current,
            {
                self.advance();
            }
        }
        let text = self.source.as_str().substring_char(self.start, self.current);
        let ghost sub = s.subrange(start, self.current as int);
        assert(is_numeral(sub)) by {
            let k = e1 - start;
            assert(forall|i: int| 0 <= i < k ==> sub[i] == s[start + i]);
            if k < sub.len() {
                assert(sub[k] == '.');
                assert(forall|i: int| k < i < sub.len() ==> sub[i] == s[start + i]);
            }
            assert(numeral_split(sub, k));
        }
        let value = parse_numeral(text);
        let n: u64 = match value {
            Some(v) => v,
            None => 0,
        };
        self.add_token(TokenType::Literal, Some(Literal::Number(n)));
    }

    /// Scans an identifier or reserved word whose first letter is at `start`.
    fn identifier(&mut self)
        requires
            old(self).wf(),
            old(self).current == old(self).start + 1,
            is_alpha(old(self).chars@[old(self).start as int]),
        ensures
            final(self).wf(),
            final(self).source == old(self).source,
            final(self).chars == old(self).chars,
            final(self).current > old(self).start,
            final(self).line == old(self).line,
            final(self).current == word_end(old(self).source@, old(self).start + 1),
            token_views(final(self).tokens@) == token_views(old(self).tokens@).push(
                scan_step(old(self).source@, old(self).start as int, old(self).line as int).token->0,
            ),
    {
        let ghost s = self.source@;
        while alpha_numeric(self.peek())
            invariant
                self.wf(),
                self.source@ == s,
                self.chars@ == s,
                self.source == old(self).source,
                self.chars == old(self).chars,
                self.start + 1 <= self.current,
                self.start == old(self).start,
                self.line == old(self).line,
                self.tokens == old(self).tokens,
                word_end(s, self.current as int) == word_end(s, self.start + 1),
            decreases self.chars@.len() - self.current,
        {
            self.advance();
        }
        let text = String::from_str(self.source.as_str().substring_char(self.start, self.current));
        match keyword_kind(&text) {
            Some(reserved) => self.add_token_without_literal(reserved),
            None => self.add_token(TokenType::Literal, Some(Literal::Identifier(text))),
        }
    }
}

} // verus!
