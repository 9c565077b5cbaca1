//! The expression tree and the s-expression printer.
use vstd::prelude::*;

use crate::number::{number_text, render_number};
use crate::token::Token;

verus! {

/// The value of a literal node. A number is the bit pattern of a double.
#[derive(Clone, Debug)]
pub enum LiteralValue {
    Number(u64),
    String(String),
    True,
    False,
    Nil,
}

/// A node of the expression tree; each child is owned by its parent.
#[derive(Debug)]
pub enum Expr {
    Binary(Box<Expr>, Token, Box<Expr>),
    Grouping(Box<Expr>),
    Literal(LiteralValue),
    Unary(Token, Box<Expr>),
}

/// The parts, each after a space.
pub open spec fn spaced(parts: Seq<Seq<char>>) -> Seq<char>
    decreases parts.len(),
{
    if parts.len() == 0 {
        Seq::empty()
    } else {
        spaced(parts.drop_last()) + " "@ + parts.last()
    }
}

/// `(name part part ...)`.
pub open spec fn parenthesized(name: Seq<char>, parts: Seq<Seq<char>>) -> Seq<char> {
    "("@ + name + spaced(parts) + ")"@
}

pub open spec fn literal_printed(v: LiteralValue) -> Seq<char> {
    match v {
        LiteralValue::Number(n) => number_text(n),
        LiteralValue::String(s) => "\""@ + s@ + "\""@,
        LiteralValue::True => "true"@,
        LiteralValue::False => "false"@,
        LiteralValue::Nil => "nil"@,
    }
}

/// The fully parenthesized form of an expression.
pub open spec fn printed(e: Expr) -> Seq<char>
    decreases e,
{
    match e {
        Expr::Binary(left, operator, right) => parenthesized(
            operator.lexeme@,
            seq![printed(*left), printed(*right)],
        ),
        Expr::Grouping(inner) => parenthesized("group"@, seq![printed(*inner)]),
        Expr::Literal(v) => literal_printed(v),
        Expr::Unary(operator, right) => parenthesized(operator.lexeme@, seq![printed(*right)]),
    }
}

/// Renders expressions as s-expressions.
pub struct AstPrinter;

impl AstPrinter {
    pub fn print(&mut self, expr: &Expr) -> (r: String)
        ensures
            r@ == printed(*expr),
        decreases expr,
    {
        match expr {
            Expr::Binary(left, operator, right) => {
                let l = self.print(left);
                let rt = self.print(right);
                let parts = vec![l, rt];
                assert(parts@.map_values(|p: String| p@) =~= seq![l@, rt@]);
                self.parenthesize(operator.lexeme.as_str(), parts)
            },
            Expr::Grouping(inner) => {
                let i = self.print(inner);
                let parts = vec![i];
                assert(parts@.map_values(|p: String| p@) =~= seq![i@]);
                self.parenthesize("group", parts)
            },
            Expr::Literal(value) => self.print_literal(value),
            Expr::Unary(operator, right) => {
                let rt = self.print(right);
                let parts = vec![rt];
                assert(parts@.map_values(|p: String| p@) =~= seq![rt@]);
                self.parenthesize(operator.lexeme.as_str(), parts)
            },
        }
    }

    fn print_literal(&mut self, value: &LiteralValue) -> (r: String)
        ensures
            r@ == literal_printed(*value),
    {
        match value {
            LiteralValue::Number(n) => render_number(*n),
            LiteralValue::String(s) => String::from_str("\"").concat(s.as_str()).concat("\""),
            LiteralValue::True => String::from_str("true"),
            LiteralValue::False => String::from_str("false"),
            LiteralValue::Nil => String::from_str("nil"),
        }
    }

    fn parenthesize(&mut self, name: &str, parts: Vec<String>) -> (r: String)
        ensures
            r@ == parenthesized(name@, parts@.map_values(|p: String| p@)),
    {
        let ghost views = parts@.map_values(|p: String| p@);
        let mut builder = String::from_str("(").concat(name);
        let mut i: usize = 0;
        while i < parts.len()
            invariant
                i <= parts@.len(),
                views == parts@.map_values(|p: String| p@),
                builder@ == "("@ + name@ + spaced(views.subrange(0, i as int)),
            decreases parts@.len() - i,
        {
            builder = builder.concat(" ").concat(parts[i].as_str());
            assert(views.subrange(0, i + 1).drop_last() =~= views.subrange(0, i as int));
            i = i + 1;
        }
        assert(views.subrange(0, i as int) =~= views);
        builder.concat(")")
    }
}

} // verus!
