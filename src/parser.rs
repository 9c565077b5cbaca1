//! The recursive-descent parser: tokens to one expression tree, by the ladder
//! equality, comparison, term, factor, unary, primary.
use vstd::prelude::*;

use crate::expression::{printed, Expr, LiteralValue};
use crate::interpreter::well_formed;
use crate::lox::{parse_diagnostic, Lox};
use crate::token::{Literal, Token, TokenType};

verus! {

/// What parsing from a position gives: a tree and the position after it, or
/// the index of the offending token and the message.
pub enum Parsed {
    Done(Expr, int),
    Failed(int, Seq<char>),
}

pub const EQUALITY: u8 = 4;

pub const FACTOR: u8 = 1;

/// The operators of a level of binary precedence, loosest at 4.
pub open spec fn level_operator(level: nat, t: TokenType) -> bool {
    if level == 4 {
        t == TokenType::BangEqual || t == TokenType::EqualEqual
    } else if level == 3 {
        ||| t == TokenType::Greater
        ||| t == TokenType::GreaterEqual
        ||| t == TokenType::Less
        ||| t == TokenType::LessEqual
    } else if level == 2 {
        t == TokenType::Minus || t == TokenType::Plus
    } else if level == 1 {
        t == TokenType::Slash || t == TokenType::Star
    } else {
        false
    }
}

/// The token at `pos` exists and has kind `t`.
pub open spec fn kind_at(toks: Seq<Token>, pos: int, t: TokenType) -> bool {
    0 <= pos < toks.len() && toks[pos].token_type == t
}

pub open spec fn expected_expression() -> Seq<char> {
    "Expected expression."@
}

pub open spec fn expected_paren() -> Seq<char> {
    "Expected ')' after expression."@
}

/// `expression → equality`.
pub open spec fn parse_expression(toks: Seq<Token>, pos: int) -> Parsed
    decreases toks.len() - pos, 20int,
{
    parse_binary(toks, pos, 4)
}

/// A level of binary operators: an operand, then operators and operands,
/// folded to the left.
pub open spec fn parse_binary(toks: Seq<Token>, pos: int, level: nat) -> Parsed
    decreases toks.len() - pos, 4 * level + 3,
{
    match parse_operand(toks, pos, level) {
        Parsed::Done(left, next) => if pos < next <= toks.len() {
            binary_rest(toks, left, next, level)
        } else {
            Parsed::Failed(pos, expected_expression())
        },
        Parsed::Failed(at, m) => Parsed::Failed(at, m),
    }
}

/// The next-tighter level below `level`.
pub open spec fn parse_operand(toks: Seq<Token>, pos: int, level: nat) -> Parsed
    decreases toks.len() - pos, 4 * level + 2,
{
    if level <= 1 {
        parse_unary(toks, pos)
    } else {
        parse_binary(toks, pos, (level - 1) as nat)
    }
}

/// The rest of a level after `left`, which ends at `pos`.
pub open spec fn binary_rest(toks: Seq<Token>, left: Expr, pos: int, level: nat) -> Parsed
    decreases toks.len() - pos, 4 * level + 1,
{
    if 0 <= pos < toks.len() && level_operator(level, toks[pos].token_type) {
        match parse_operand(toks, pos + 1, level) {
            Parsed::Done(right, next) => if pos + 1 < next <= toks.len() {
                binary_rest(toks, Expr::Binary(Box::new(left), toks[pos], Box::new(right)), next, level)
            } else {
                Parsed::Failed(pos, expected_expression())
            },
            Parsed::Failed(at, m) => Parsed::Failed(at, m),
        }
    } else {
        Parsed::Done(left, pos)
    }
}

/// `unary → ("!" | "-") unary | primary`.
pub open spec fn parse_unary(toks: Seq<Token>, pos: int) -> Parsed
    decreases toks.len() - pos, 1int,
{
    if kind_at(toks, pos, TokenType::Bang) || kind_at(toks, pos, TokenType::Minus) {
        match parse_unary(toks, pos + 1) {
            Parsed::Done(right, next) => Parsed::Done(Expr::Unary(toks[pos], Box::new(right)), next),
            Parsed::Failed(at, m) => Parsed::Failed(at, m),
        }
    } else {
        parse_primary(toks, pos)
    }
}

/// `primary → "false" | "true" | "nil" | number | string | "(" expression ")"`.
pub open spec fn parse_primary(toks: Seq<Token>, pos: int) -> Parsed
    decreases toks.len() - pos, 0int,
{
    if kind_at(toks, pos, TokenType::False) {
        Parsed::Done(Expr::Literal(LiteralValue::False), pos + 1)
    } else if kind_at(toks, pos, TokenType::True) {
        Parsed::Done(Expr::Literal(LiteralValue::True), pos + 1)
    } else if kind_at(toks, pos, TokenType::Nil) {
        Parsed::Done(Expr::Literal(LiteralValue::Nil), pos + 1)
    } else if kind_at(toks, pos, TokenType::Literal) {
        match toks[pos].literal {
            Some(Literal::String(s)) => Parsed::Done(Expr::Literal(LiteralValue::String(s)), pos + 1),
            Some(Literal::Number(n)) => Parsed::Done(Expr::Literal(LiteralValue::Number(n)), pos + 1),
            _ => Parsed::Failed(pos, expected_expression()),
        }
    } else if kind_at(toks, pos, TokenType::LeftParen) {
        match parse_expression(toks, pos + 1) {
            Parsed::Done(inner, next) => if kind_at(toks, next, TokenType::RightParen) {
                Parsed::Done(Expr::Grouping(Box::new(inner)), next + 1)
            } else {
                Parsed::Failed(next, expected_paren())
            },
            Parsed::Failed(at, m) => Parsed::Failed(at, m),
        }
    } else {
        Parsed::Failed(pos, expected_expression())
    }
}

/// The tree of a whole token sequence.
pub open spec fn parse_tokens(toks: Seq<Token>) -> Parsed {
    parse_expression(toks, 0)
}

/// Parenthesizing keeps structure: where the tokens after a `(` parse to a
/// tree that a `)` closes, the `(` parses to a grouping of that very tree,
/// and it prints as that tree's printed form inside `(group ...)`.
pub proof fn lemma_grouping_round_trip(toks: Seq<Token>, pos: int)
    requires
        kind_at(toks, pos, TokenType::LeftParen),
        parse_expression(toks, pos + 1) is Done,
        kind_at(toks, parse_expression(toks, pos + 1)->Done_1, TokenType::RightParen),
    ensures
        parse_primary(toks, pos) == Parsed::Done(
            Expr::Grouping(Box::new(parse_expression(toks, pos + 1)->Done_0)),
            parse_expression(toks, pos + 1)->Done_1 + 1,
        ),
        printed(Expr::Grouping(Box::new(parse_expression(toks, pos + 1)->Done_0))) == "(group "@
            + printed(parse_expression(toks, pos + 1)->Done_0) + ")"@,
{
    let inner = parse_expression(toks, pos + 1)->Done_0;
    let parts = seq![printed(inner)];
    assert(parts.drop_last() =~= Seq::<Seq<char>>::empty());
    assert(crate::expression::spaced(Seq::<Seq<char>>::empty()) == Seq::<char>::empty());
    assert(parts.last() == printed(inner));
    assert(crate::expression::spaced(parts) == Seq::<char>::empty() + " "@ + printed(inner));
    assert(printed(Expr::Grouping(Box::new(inner))) == "("@ + "group"@ + (Seq::<char>::empty()
        + " "@ + printed(inner)) + ")"@);
    assert("(group "@ =~= "("@ + "group"@ + " "@) by {
        reveal_strlit("(group ");
        reveal_strlit("(");
        reveal_strlit("group");
        reveal_strlit(" ");
    }
    assert(printed(Expr::Grouping(Box::new(inner))) =~= "(group "@ + printed(inner) + ")"@);
}

/// Operators fold to the left and print in prefix form: where an operator of
/// a level follows a left operand and precedes a right one, parsing goes on
/// from one operator node over both, which prints as `(op left right)`.
pub proof fn lemma_binary_round_trip(toks: Seq<Token>, left: Expr, pos: int, level: nat)
    requires
        0 <= pos < toks.len(),
        level_operator(level, toks[pos].token_type),
        parse_operand(toks, pos + 1, level) is Done,
        pos + 1 < parse_operand(toks, pos + 1, level)->Done_1 <= toks.len(),
    ensures
        binary_rest(toks, left, pos, level) == binary_rest(
            toks,
            Expr::Binary(
                Box::new(left),
                toks[pos],
                Box::new(parse_operand(toks, pos + 1, level)->Done_0),
            ),
            parse_operand(toks, pos + 1, level)->Done_1,
            level,
        ),
        printed(
            Expr::Binary(
                Box::new(left),
                toks[pos],
                Box::new(parse_operand(toks, pos + 1, level)->Done_0),
            ),
        ) == "("@ + toks[pos].lexeme@ + " "@ + printed(left) + " "@ + printed(
            parse_operand(toks, pos + 1, level)->Done_0,
        ) + ")"@,
{
    let right = parse_operand(toks, pos + 1, level)->Done_0;
    let parts = seq![printed(left), printed(right)];
    assert(parts.drop_last() =~= seq![printed(left)]);
    assert(seq![printed(left)].drop_last() =~= Seq::<Seq<char>>::empty());
    assert(crate::expression::spaced(Seq::<Seq<char>>::empty()) == Seq::<char>::empty());
    assert(crate::expression::spaced(seq![printed(left)]) == Seq::<char>::empty() + " "@
        + printed(left));
    assert(printed(Expr::Binary(Box::new(left), toks[pos], Box::new(right))) =~= "("@
        + toks[pos].lexeme@ + " "@ + printed(left) + " "@ + printed(right) + ")"@);
}

/// The kinds that begin a statement, where error recovery may resume.
pub open spec fn is_statement_start(t: TokenType) -> bool {
    ||| t == TokenType::Class
    ||| t == TokenType::Fun
    ||| t == TokenType::Var
    ||| t == TokenType::For
    ||| t == TokenType::If
    ||| t == TokenType::While
    ||| t == TokenType::Print
    ||| t == TokenType::Return
}

/// Where recovery that stands at `pos` stops: at `Eof`, just after a `;`,
/// or before a token that begins a statement.
pub open spec fn recovery_point(toks: Seq<Token>, pos: int) -> int
    decreases toks.len() - pos,
{
    if pos < 1 || pos >= toks.len() || toks[pos].token_type == TokenType::Eof {
        pos
    } else if toks[pos - 1].token_type == TokenType::Semicolon {
        pos
    } else if is_statement_start(toks[pos].token_type) {
        pos
    } else {
        recovery_point(toks, pos + 1)
    }
}

/// The position after stepping over the token at `pos`, unless it is `Eof`.
pub open spec fn step_over(toks: Seq<Token>, pos: int) -> int {
    if toks[pos].token_type == TokenType::Eof {
        pos
    } else {
        pos + 1
    }
}

/// How a parse step's result and its reports match what the grammar gives:
/// on success the tree and the new position, and nothing reported; on
/// failure an error, and one diagnostic at the offending token.
pub open spec fn effect(
    toks: Seq<Token>,
    p: Parsed,
    r: Result<Expr, String>,
    current: int,
    before: Lox,
    after: Lox,
) -> bool {
    match p {
        Parsed::Done(e, n) => {
            &&& r == Ok::<Expr, String>(e)
            &&& current == n
            &&& after.reported() == before.reported()
            &&& after.had_error == before.had_error
        },
        Parsed::Failed(at, m) => {
            &&& r is Err
            &&& 0 <= at < toks.len()
            &&& after.reported() == before.reported().push(parse_diagnostic(toks[at]@, m))
            &&& after.had_error
        },
    }
}

/// The parser's state: the tokens and a cursor into them.
pub struct Parser {
    pub tokens: Vec<Token>,
    pub current: usize,
}

impl Parser {
    /// The tokens end with `Eof`, and the cursor stands on a token.
    pub open spec fn wf(&self) -> bool {
        &&& self.tokens@.len() > 0
        &&& self.tokens@.last().token_type == TokenType::Eof
        &&& self.current < self.tokens@.len()
    }

    pub fn new(tokens: Vec<Token>) -> (r: Parser)
        requires
            tokens@.len() > 0,
            tokens@.last().token_type == TokenType::Eof,
        ensures
            r.wf(),
            r.tokens == tokens,
            r.current == 0,
    {
        Parser { tokens, current: 0 }
    }

    /// Parses one expression from the cursor, reporting a syntax error into
    /// `lox`. Tokens after the expression are left unread.
    pub fn parse(&mut self, lox: &mut Lox) -> (r: Result<Expr, String>)
        requires
            old(self).wf(),
        ensures
            final(self).wf(),
            final(self).tokens == old(self).tokens,
            effect(
                old(self).tokens@,
                parse_expression(old(self).tokens@, old(self).current as int),
                r,
                final(self).current as int,
                *old(lox),
                *final(lox),
            ),
            r matches Ok(e) ==> well_formed(e),
    {
        self.expression(lox)
    }

    /// Skips tokens after a syntax error until a statement boundary: past
    /// the next `;`, or before a keyword that begins a statement, or to `Eof`.
    /// The expression grammar does not call it; a statement grammar would.
    pub fn synchronize(&mut self)
        requires
            old(self).wf(),
        ensures
            final(self).wf(),
            final(self).tokens == old(self).tokens,
            final(self).current == recovery_point(
                old(self).tokens@,
                step_over(old(self).tokens@, old(self).current as int),
            ),
    {
        let ghost toks = self.tokens@;
        let ghost target = recovery_point(toks, step_over(toks, self.current as int));
        self.advance();
        while !self.is_at_end()
            invariant
                self.wf(),
                self.tokens == old(self).tokens,
                self.tokens@ == toks,
                recovery_point(toks, self.current as int) == target,
                target == recovery_point(
                    old(self).tokens@,
                    step_over(old(self).tokens@, old(self).current as int),
                ),
                self.current >= 1 || self.tokens@[self.current as int].token_type
                    == TokenType::Eof,
            decreases self.tokens@.len() - self.current,
        {
            if self.tokens[self.current - 1].token_type == TokenType::Semicolon {
                return;
            }
            match self.tokens[self.current].token_type {
                TokenType::Class | TokenType::Fun | TokenType::Var | TokenType::For | TokenType::If
                | TokenType::While | TokenType::Print | TokenType::Return => {
                    return;
                },
                _ => {},
            }
            self.advance();
        }
    }

    fn expression(&mut self, lox: &mut Lox) -> (r: Result<Expr, String>)
        requires
            old(self).wf(),
        ensures
            final(self).wf(),
            final(self).tokens == old(self).tokens,
            effect(
                old(self).tokens@,
                parse_expression(old(self).tokens@, old(self).current as int),
                r,
                final(self).current as int,
                *old(lox),
                *final(lox),
            ),
            r matches Ok(e) ==> well_formed(e) && final(self).current > old(self).current,
        decreases old(self).tokens@.len() - old(self).current, 20int,
    {
        self.binary(lox, EQUALITY)
    }

    /// One level of left-associative binary operators.
    fn binary(&mut self, lox: &mut Lox, level: u8) -> (r: Result<Expr, String>)
        requires
            old(self).wf(),
            1 <= level <= 4,
        ensures
            final(self).wf(),
            final(self).tokens == old(self).tokens,
            effect(
                old(self).tokens@,
                parse_binary(old(self).tokens@, old(self).current as int, level as nat),
                r,
                final(self).current as int,
                *old(lox),
                *final(lox),
            ),
            r matches Ok(e) ==> well_formed(e) && final(self).current > old(self).current,
        decreases old(self).tokens@.len() - old(self).current, 4 * level + 3,
    {
        let ghost toks = self.tokens@;
        let ghost p = self.current as int;
        let mut expr = self.operand(lox, level)?;
        loop
            invariant
                self.wf(),
                self.tokens@ == toks,
                self.tokens == old(self).tokens,
                toks == old(self).tokens@,
                p == old(self).current,
                p < self.current,
                1 <= level <= 4,
                binary_rest(toks, expr, self.current as int, level as nat) == parse_binary(
                    toks,
                    p,
                    level as nat,
                ),
                well_formed(expr),
                lox.reported() == old(lox).reported(),
                lox.had_error == old(lox).had_error,
            decreases self.tokens@.len() - self.current,
        {
            match self.match_operator(level) {
                None => {
                    return Ok(expr);
                },
                Some(operator) => {
                    let right = self.operand(lox, level)?;
                    expr = Expr::Binary(Box::new(expr), operator, Box::new(right));
                },
            }
        }
    }

    /// The level below `level`: the next binary level, or unary.
    fn operand(&mut self, lox: &mut Lox, level: u8) -> (r: Result<Expr, String>)
        requires
            old(self).wf(),
            1 <= level <= 4,
        ensures
            final(self).wf(),
            final(self).tokens == old(self).tokens,
            effect(
                old(self).tokens@,
                parse_operand(old(self).tokens@, old(self).current as int, level as nat),
                r,
                final(self).current as int,
                *old(lox),
                *final(lox),
            ),
            r matches Ok(e) ==> well_formed(e) && final(self).current > old(self).current,
        decreases old(self).tokens@.len() - old(self).current, 4 * level + 2,
    {
        if level <= FACTOR {
            self.unary(lox)
        } else {
            self.binary(lox, level - 1)
        }
    }

    fn unary(&mut self, lox: &mut Lox) -> (r: Result<Expr, String>)
        requires
            old(self).wf(),
        ensures
            final(self).wf(),
            final(self).tokens == old(self).tokens,
            effect(
                old(self).tokens@,
                parse_unary(old(self).tokens@, old(self).current as int),
                r,
                final(self).current as int,
                *old(lox),
                *final(lox),
            ),
            r matches Ok(e) ==> well_formed(e) && final(self).current > old(self).current,
        decreases old(self).tokens@.len() - old(self).current, 1int,
    {
        if self.matches(TokenType::Bang) || self.matches(TokenType::Minus) {
            let operator = self.previous();
            let right = self.unary(lox)?;
            return Ok(Expr::Unary(operator, Box::new(right)));
        }
        self.primary(lox)
    }

    fn primary(&mut self, lox: &mut Lox) -> (r: Result<Expr, String>)
        requires
            old(self).wf(),
        ensures
            final(self).wf(),
            final(self).tokens == old(self).tokens,
            effect(
                old(self).tokens@,
                parse_primary(old(self).tokens@, old(self).current as int),
                r,
                final(self).current as int,
                *old(lox),
                *final(lox),
            ),
            r matches Ok(e) ==> well_formed(e) && final(self).current > old(self).current,
        decreases old(self).tokens@.len() - old(self).current, 0int,
    {
        if self.matches(TokenType::False) {
            return Ok(Expr::Literal(LiteralValue::False));
        } else if self.matches(TokenType::True) {
            return Ok(Expr::Literal(LiteralValue::True));
        } else if self.matches(TokenType::Nil) {
            return Ok(Expr::Literal(LiteralValue::Nil));
        }
        if self.check(TokenType::Literal) {
            let value = match &self.tokens[self.current].literal {
                Some(Literal::String(s)) => Some(LiteralValue::String(s.clone())),
                Some(Literal::Number(n)) => Some(LiteralValue::Number(*n)),
                _ => None,
            };
            if let Some(v) = value {
                self.advance();
                return Ok(Expr::Literal(v));
            }
        }
        if self.matches(TokenType::LeftParen) {
            let expression = self.expression(lox)?;
            self.consume(TokenType::RightParen, "Expected ')' after expression.", lox)?;
            return Ok(Expr::Grouping(Box::new(expression)));
        }
        Err(self.error(lox, "Expected expression."))
    }

    /// Steps over a token of kind `t`, or reports `message` at the cursor.
    fn consume(&mut self, t: TokenType, message: &str, lox: &mut Lox) -> (r: Result<Token, String>)
        requires
            old(self).wf(),
            t != TokenType::Eof,
        ensures
            final(self).wf(),
            final(self).tokens == old(self).tokens,
            kind_at(old(self).tokens@, old(self).current as int, t) ==> {
                &&& r == Ok::<Token, String>(old(self).tokens@[old(self).current as int])
                &&& final(self).current == old(self).current + 1
                &&& *final(lox) == *old(lox)
            },
            !kind_at(old(self).tokens@, old(self).current as int, t) ==> {
                &&& r is Err
                &&& final(self).current == old(self).current
                &&& final(lox).reported() == old(lox).reported().push(
                    parse_diagnostic(old(self).tokens@[old(self).current as int]@, message@),
                )
                &&& final(lox).had_error
            },
    {
        if self.check(t) {
            return Ok(self.advance());
        }
        Err(self.error(lox, message))
    }

    /// Reports `message` at the token under the cursor.
    fn error(&self, lox: &mut Lox, message: &str) -> (r: String)
        requires
            self.wf(),
        ensures
            final(lox).reported() == old(lox).reported().push(
                parse_diagnostic(self.tokens@[self.current as int]@, message@),
            ),
            final(lox).had_error,
    {
        lox.error_parser(&self.tokens[self.current], message);
        String::from_str("ParseError")
    }

    /// Steps over an operator of `level`, if one is under the cursor.
    fn match_operator(&mut self, level: u8) -> (r: Option<Token>)
        requires
            old(self).wf(),
        ensures
            final(self).wf(),
            final(self).tokens == old(self).tokens,
            level_operator(level as nat, old(self).tokens@[old(self).current as int].token_type) ==> {
                &&& r == Some(old(self).tokens@[old(self).current as int])
                &&& final(self).current == old(self).current + 1
            },
            !level_operator(level as nat, old(self).tokens@[old(self).current as int].token_type)
                ==> {
                &&& r is None
                &&& final(self).current == old(self).current
            },
    {
        let t = self.tokens[self.current].token_type;
        let hit = match level {
            4 => t == TokenType::BangEqual || t == TokenType::EqualEqual,
            3 => t == TokenType::Greater || t == TokenType::GreaterEqual || t == TokenType::Less || t
                == TokenType::LessEqual,
            2 => t == TokenType::Minus || t == TokenType::Plus,
            1 => t == TokenType::Slash || t == TokenType::Star,
            _ => false,
        };
        if hit {
            Some(self.advance())
        } else {
            None
        }
    }

    /// Steps over a token of kind `t`, if one is under the cursor.
    fn matches(&mut self, t: TokenType) -> (r: bool)
        requires
            old(self).wf(),
            t != TokenType::Eof,
        ensures
            final(self).wf(),
            final(self).tokens == old(self).tokens,
            r == kind_at(old(self).tokens@, old(self).current as int, t),
            final(self).current == old(self).current + if r {
                1int
            } else {
                0
            },
    {
        if self.check(t) {
            self.advance();
            return true;
        }
        false
    }

    fn advance(&mut self) -> (r: Token)
        requires
            old(self).wf(),
        ensures
            final(self).wf(),
            final(self).tokens == old(self).tokens,
            old(self).tokens@[old(self).current as int].token_type != TokenType::Eof ==> {
                &&& final(self).current == old(self).current + 1
                &&& r == old(self).tokens@[old(self).current as int]
            },
            old(self).tokens@[old(self).current as int].token_type == TokenType::Eof
                ==> final(self).current == old(self).current,
    {
        if !self.is_at_end() {
            assert(self.tokens@.last() == self.tokens@[self.tokens@.len() - 1]);
            let n = self.tokens.len();
            assert(self.current + 1 < n);
            self.current = self.current + 1;
            return self.previous();
        }
        if self.current > 0 {
            self.previous()
        } else {
            self.tokens[0].duplicate()
        }
    }

    fn previous(&self) -> (r: Token)
        requires
            self.wf(),
            self.current > 0,
        ensures
            r == self.tokens@[self.current - 1],
    {
        self.tokens[self.current - 1].duplicate()
    }

    fn check(&self, t: TokenType) -> (r: bool)
        requires
            self.wf(),
        ensures
            r == (self.tokens@[self.current as int].token_type != TokenType::Eof
                && self.tokens@[self.current as int].token_type == t),
    {
        if self.is_at_end() {
            return false;
        }
        self.tokens[self.current].token_type == t
    }

    fn is_at_end(&self) -> (r: bool)
        requires
            self.wf(),
        ensures
            r == (self.tokens@[self.current as int].token_type == TokenType::Eof),
    {
        self.tokens[self.current].token_type == TokenType::Eof
    }
}

} // verus!
