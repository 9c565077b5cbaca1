//! The tree-walking evaluator: a pure `evaluate` from tree to value or
//! runtime error, and `interpret`, which also presents the value as text.
use vstd::prelude::*;

use crate::expression::{Expr, LiteralValue};
use crate::number::{
    divide, equal, ieee_difference, ieee_product, ieee_quotient, ieee_sum, is_nan, is_zero, less,
    less_equal, multiply, negate, negated, number_eq, number_le, number_lt, number_text,
    render_number, subtract, sum, zero,
};
use crate::runtime_error::RuntimeError;
use crate::token::{Token, TokenType};

verus! {

/// A runtime value. A number is the bit pattern of a double.
#[derive(Clone, Debug)]
pub enum LoxValue {
    Number(u64),
    String(String),
    Boolean(bool),
    Nil,
}

/// A runtime value as plain values.
pub enum ValueView {
    Number(u64),
    Str(Seq<char>),
    Boolean(bool),
    Nil,
}

impl View for LoxValue {
    type V = ValueView;

    open spec fn view(&self) -> ValueView {
        match self {
            LoxValue::Number(n) => ValueView::Number(*n),
            LoxValue::String(s) => ValueView::Str(s@),
            LoxValue::Boolean(b) => ValueView::Boolean(*b),
            LoxValue::Nil => ValueView::Nil,
        }
    }
}

/// `Nil` and `false` are falsy; every other value is truthy.
pub open spec fn is_truthy(v: ValueView) -> bool {
    match v {
        ValueView::Nil => false,
        ValueView::Boolean(b) => b,
        _ => true,
    }
}

/// Equality across all kinds: values of different kinds are never equal,
/// numbers compare as IEEE doubles.
pub open spec fn values_equal(a: ValueView, b: ValueView) -> bool {
    match (a, b) {
        (ValueView::Number(x), ValueView::Number(y)) => number_eq(x, y),
        (ValueView::Str(x), ValueView::Str(y)) => x == y,
        (ValueView::Boolean(x), ValueView::Boolean(y)) => x == y,
        (ValueView::Nil, ValueView::Nil) => true,
        _ => false,
    }
}

/// Whether two values are of the same kind.
pub open spec fn same_kind(a: ValueView, b: ValueView) -> bool {
    match (a, b) {
        (ValueView::Number(_), ValueView::Number(_)) => true,
        (ValueView::Str(_), ValueView::Str(_)) => true,
        (ValueView::Boolean(_), ValueView::Boolean(_)) => true,
        (ValueView::Nil, ValueView::Nil) => true,
        _ => false,
    }
}

/// Equality is reflexive on every value but NaN, symmetric, and never holds
/// between values of different kinds: the number 1 is not the string "1".
pub proof fn lemma_equality_laws(a: ValueView, b: ValueView)
    ensures
        !(a matches ValueView::Number(n) && is_nan(n)) ==> values_equal(a, a),
        values_equal(a, b) == values_equal(b, a),
        !same_kind(a, b) ==> !values_equal(a, b),
{
}

/// Equality through evaluation: `==` gives whether the two operand values are
/// equal, whichever side each stands on; `!=` gives the opposite; an operand
/// compared with itself is equal unless it is NaN; operands of different kinds
/// are never equal.
pub proof fn lemma_equality_by_evaluation(l: Expr, r: Expr, eq: Token, ne: Token)
    requires
        eq.token_type == TokenType::EqualEqual,
        ne.token_type == TokenType::BangEqual,
        evaluation(l) is Ok,
        evaluation(r) is Ok,
    ensures
        evaluation(Expr::Binary(Box::new(l), eq, Box::new(r))) == Evaluation::Ok(
            ValueView::Boolean(values_equal(evaluation(l)->Ok_0, evaluation(r)->Ok_0)),
        ),
        evaluation(Expr::Binary(Box::new(l), eq, Box::new(r))) == evaluation(
            Expr::Binary(Box::new(r), eq, Box::new(l)),
        ),
        evaluation(Expr::Binary(Box::new(l), ne, Box::new(r))) == Evaluation::Ok(
            ValueView::Boolean(!values_equal(evaluation(l)->Ok_0, evaluation(r)->Ok_0)),
        ),
        !(evaluation(l)->Ok_0 matches ValueView::Number(n) && is_nan(n)) ==> evaluation(
            Expr::Binary(Box::new(l), eq, Box::new(l)),
        ) == Evaluation::Ok(ValueView::Boolean(true)),
        !same_kind(evaluation(l)->Ok_0, evaluation(r)->Ok_0) ==> evaluation(
            Expr::Binary(Box::new(l), eq, Box::new(r)),
        ) == Evaluation::Ok(ValueView::Boolean(false)),
{
    lemma_equality_laws(evaluation(l)->Ok_0, evaluation(r)->Ok_0);
    lemma_equality_laws(evaluation(l)->Ok_0, evaluation(l)->Ok_0);
}

/// `!` never fails: it gives the negated truthiness of its operand, and
/// only `nil` and `false` are falsy (`0` and `""` are truthy).
pub proof fn lemma_not_by_evaluation(e: Expr, bang: Token)
    requires
        bang.token_type == TokenType::Bang,
        evaluation(e) is Ok,
    ensures
        evaluation(Expr::Unary(bang, Box::new(e))) == Evaluation::Ok(
            ValueView::Boolean(!is_truthy(evaluation(e)->Ok_0)),
        ),
        forall|v: ValueView|
            #[trigger] is_truthy(v) == !(v is Nil || v == ValueView::Boolean(false)),
{
}

/// The text that presents a value to the user.
pub open spec fn value_text(v: ValueView) -> Seq<char> {
    match v {
        ValueView::Number(n) => number_text(n),
        ValueView::Str(s) => s,
        ValueView::Boolean(b) => if b {
            "true"@
        } else {
            "false"@
        },
        ValueView::Nil => "nil"@,
    }
}

/// What evaluation gives: a value, or the operator token and message of the
/// first runtime error.
pub type Evaluation = Result<ValueView, (Token, Seq<char>)>;

pub open spec fn is_unary_operator(t: TokenType) -> bool {
    t == TokenType::Minus || t == TokenType::Bang
}

pub open spec fn is_binary_operator(t: TokenType) -> bool {
    ||| t == TokenType::Minus
    ||| t == TokenType::Plus
    ||| t == TokenType::Slash
    ||| t == TokenType::Star
    ||| t == TokenType::Greater
    ||| t == TokenType::GreaterEqual
    ||| t == TokenType::Less
    ||| t == TokenType::LessEqual
    ||| t == TokenType::BangEqual
    ||| t == TokenType::EqualEqual
}

/// Every operator node carries an operator of its arity.
pub open spec fn well_formed(e: Expr) -> bool
    decreases e,
{
    match e {
        Expr::Binary(l, op, r) => is_binary_operator(op.token_type) && well_formed(*l)
            && well_formed(*r),
        Expr::Grouping(i) => well_formed(*i),
        Expr::Literal(_) => true,
        Expr::Unary(op, r) => is_unary_operator(op.token_type) && well_formed(*r),
    }
}

pub open spec fn literal_value(v: LiteralValue) -> ValueView {
    match v {
        LiteralValue::Number(n) => ValueView::Number(n),
        LiteralValue::String(s) => ValueView::Str(s@),
        LiteralValue::True => ValueView::Boolean(true),
        LiteralValue::False => ValueView::Boolean(false),
        LiteralValue::Nil => ValueView::Nil,
    }
}

pub open spec fn unary_result(op: Token, v: ValueView) -> Evaluation {
    if op.token_type == TokenType::Minus {
        match v {
            ValueView::Number(n) => Ok(ValueView::Number(negated(n))),
            _ => Err((op, "Operand must be a number."@)),
        }
    } else {
        Ok(ValueView::Boolean(!is_truthy(v)))
    }
}

/// The arithmetic and ordering operators, on two numbers. Division by either
/// zero gives `nil` rather than an infinity or an error: a deliberate choice
/// of this language. Comparisons with NaN are false.
pub open spec fn numeric_result(t: TokenType, x: u64, y: u64) -> ValueView {
    if t == TokenType::Minus {
        ValueView::Number(ieee_difference(x, y))
    } else if t == TokenType::Star {
        ValueView::Number(ieee_product(x, y))
    } else if t == TokenType::Slash {
        if is_zero(y) {
            ValueView::Nil
        } else {
            ValueView::Number(ieee_quotient(x, y))
        }
    } else if t == TokenType::Greater {
        ValueView::Boolean(number_lt(y, x))
    } else if t == TokenType::GreaterEqual {
        ValueView::Boolean(number_le(y, x))
    } else if t == TokenType::Less {
        ValueView::Boolean(number_lt(x, y))
    } else {
        ValueView::Boolean(number_le(x, y))
    }
}

pub open spec fn binary_result(op: Token, a: ValueView, b: ValueView) -> Evaluation {
    let t = op.token_type;
    if t == TokenType::EqualEqual {
        Ok(ValueView::Boolean(values_equal(a, b)))
    } else if t == TokenType::BangEqual {
        Ok(ValueView::Boolean(!values_equal(a, b)))
    } else if t == TokenType::Plus {
        match (a, b) {
            (ValueView::Number(x), ValueView::Number(y)) => Ok(ValueView::Number(ieee_sum(x, y))),
            (ValueView::Str(x), ValueView::Str(y)) => Ok(ValueView::Str(x + y)),
            _ => Err((op, "Operands must be two numbers or two strings."@)),
        }
    } else {
        match (a, b) {
            (ValueView::Number(x), ValueView::Number(y)) => Ok(numeric_result(t, x, y)),
            _ => Err((op, "Operands must be numbers."@)),
        }
    }
}

/// The value of an expression, or its first runtime error, operands left to
/// right.
pub open spec fn evaluation(e: Expr) -> Evaluation
    decreases e,
{
    match e {
        Expr::Literal(v) => Ok(literal_value(v)),
        Expr::Grouping(i) => evaluation(*i),
        Expr::Unary(op, r) => match evaluation(*r) {
            Ok(v) => unary_result(op, v),
            Err(x) => Err(x),
        },
        Expr::Binary(l, op, r) => match evaluation(*l) {
            Ok(a) => match evaluation(*r) {
                Ok(b) => binary_result(op, a, b),
                Err(x) => Err(x),
            },
            Err(x) => Err(x),
        },
    }
}

pub open spec fn outcome(r: Result<LoxValue, RuntimeError>) -> Evaluation {
    match r {
        Ok(v) => Ok(v@),
        Err(e) => Err((e.token, e.message@)),
    }
}

impl LoxValue {
    pub fn is_truthy(&self) -> (r: bool)
        ensures
            r == is_truthy(self@),
    {
        match self {
            LoxValue::Nil => false,
            LoxValue::Boolean(b) => *b,
            _ => true,
        }
    }

    pub fn is_equal(&self, other: &LoxValue) -> (r: bool)
        ensures
            r == values_equal(self@, other@),
    {
        match (self, other) {
            (LoxValue::Number(x), LoxValue::Number(y)) => equal(*x, *y),
            (LoxValue::String(x), LoxValue::String(y)) => x.eq(y),
            (LoxValue::Boolean(x), LoxValue::Boolean(y)) => *x == *y,
            (LoxValue::Nil, LoxValue::Nil) => true,
            _ => false,
        }
    }

    pub fn is_numerical(&self) -> (r: bool)
        ensures
            r == self is Number,
    {
        match self {
            LoxValue::Number(_) => true,
            _ => false,
        }
    }

    pub fn is_string(&self) -> (r: bool)
        ensures
            r == self is String,
    {
        match self {
            LoxValue::String(_) => true,
            _ => false,
        }
    }

    /// The text that presents this value to the user.
    pub fn stringify(&self) -> (r: String)
        ensures
            r@ == value_text(self@),
    {
        match self {
            LoxValue::Number(n) => render_number(*n),
            LoxValue::String(s) => s.clone(),
            LoxValue::Boolean(b) => if *b {
                String::from_str("true")
            } else {
                String::from_str("false")
            },
            LoxValue::Nil => String::from_str("nil"),
        }
    }
}

/// Evaluates expression trees.
pub struct Interpreter;

impl Interpreter {
    pub fn new() -> (r: Interpreter) {
        Interpreter
    }

    /// Evaluates `expr` and presents the value as text.
    pub fn interpret(&mut self, expr: &Expr) -> (r: Result<String, RuntimeError>)
        requires
            well_formed(*expr),
        ensures
            match (r, evaluation(*expr)) {
                (Ok(text), Ok(v)) => text@ == value_text(v),
                (Err(e), Err((t, m))) => e.token == t && e.message@ == m,
                _ => false,
            },
    {
        match self.evaluate(expr) {
            Ok(value) => Ok(value.stringify()),
            Err(err) => Err(err),
        }
    }

    /// The value of `expr`, or the first runtime error.
    pub fn evaluate(&mut self, expr: &Expr) -> (r: Result<LoxValue, RuntimeError>)
        requires
            well_formed(*expr),
        ensures
            outcome(r) == evaluation(*expr),
        decreases expr,
    {
        match expr {
            Expr::Literal(value) => Ok(self.visit_literal_expr(value)),
            Expr::Grouping(inner) => self.evaluate(inner),
            Expr::Unary(operator, right) => {
                let v = self.evaluate(right)?;
                self.visit_unary_expr(operator, v)
            },
            Expr::Binary(left, operator, right) => {
                let a = self.evaluate(left)?;
                let b = self.evaluate(right)?;
                self.visit_binary_expr(operator, a, b)
            },
        }
    }

    fn visit_literal_expr(&self, value: &LiteralValue) -> (r: LoxValue)
        ensures
            r@ == literal_value(*value),
    {
        match value {
            LiteralValue::Number(n) => LoxValue::Number(*n),
            LiteralValue::String(s) => LoxValue::String(s.clone()),
            LiteralValue::True => LoxValue::Boolean(true),
            LiteralValue::False => LoxValue::Boolean(false),
            LiteralValue::Nil => LoxValue::Nil,
        }
    }

    fn visit_unary_expr(&self, operator: &Token, right: LoxValue) -> (r: Result<
        LoxValue,
        RuntimeError,
    >)
        requires
            is_unary_operator(operator.token_type),
        ensures
            outcome(r) == unary_result(*operator, right@),
    {
        match operator.token_type {
            TokenType::Minus => match right {
                LoxValue::Number(n) => Ok(LoxValue::Number(negate(n))),
                _ => Err(RuntimeError::new(operator.duplicate(), "Operand must be a number.")),
            },
            _ => Ok(LoxValue::Boolean(!right.is_truthy())),
        }
    }

    fn check_number_operands(&self, operator: &Token, left: &LoxValue, right: &LoxValue) -> (r:
        Result<(u64, u64), RuntimeError>)
        ensures
            match (left@, right@) {
                (ValueView::Number(x), ValueView::Number(y)) => r == Ok::<
                    (u64, u64),
                    RuntimeError,
                >((x, y)),
                _ => r is Err && r->Err_0.token == *operator && r->Err_0.message@
                    == "Operands must be numbers."@,
            },
    {
        if let LoxValue::Number(x) = left {
            if let LoxValue::Number(y) = right {
                return Ok((*x, *y));
            }
        }
        Err(RuntimeError::new(operator.duplicate(), "Operands must be numbers."))
    }

    fn visit_binary_expr(&self, operator: &Token, left: LoxValue, right: LoxValue) -> (r: Result<
        LoxValue,
        RuntimeError,
    >)
        requires
            is_binary_operator(operator.token_type),
        ensures
            outcome(r) == binary_result(*operator, left@, right@),
    {
        match operator.token_type {
            TokenType::EqualEqual => Ok(LoxValue::Boolean(left.is_equal(&right))),
            TokenType::BangEqual => Ok(LoxValue::Boolean(!left.is_equal(&right))),
            TokenType::Plus => match (left, right) {
                (LoxValue::Number(x), LoxValue::Number(y)) => Ok(LoxValue::Number(sum(x, y))),
                (LoxValue::String(x), LoxValue::String(y)) => Ok(
                    LoxValue::String(x.concat(y.as_str())),
                ),
                _ => Err(
                    RuntimeError::new(
                        operator.duplicate(),
                        "Operands must be two numbers or two strings.",
                    ),
                ),
            },
            TokenType::Minus => {
                let (x, y) = self.check_number_operands(operator, &left, &right)?;
                Ok(LoxValue::Number(subtract(x, y)))
            },
            TokenType::Star => {
                let (x, y) = self.check_number_operands(operator, &left, &right)?;
                Ok(LoxValue::Number(multiply(x, y)))
            },
            TokenType::Slash => {
                let (x, y) = self.check_number_operands(operator, &left, &right)?;
                if zero(y) {
                    Ok(LoxValue::Nil)
                } else {
                    Ok(LoxValue::Number(divide(x, y)))
                }
            },
            TokenType::Greater => {
                let (x, y) = self.check_number_operands(operator, &left, &right)?;
                Ok(LoxValue::Boolean(less(y, x)))
            },
            TokenType::GreaterEqual => {
                let (x, y) = self.check_number_operands(operator, &left, &right)?;
                Ok(LoxValue::Boolean(less_equal(y, x)))
            },
            TokenType::Less => {
                let (x, y) = self.check_number_operands(operator, &left, &right)?;
                Ok(LoxValue::Boolean(less(x, y)))
            },
            _ => {
                let (x, y) = self.check_number_operands(operator, &left, &right)?;
                Ok(LoxValue::Boolean(less_equal(x, y)))
            },
        }
    }
}

} // verus!
