//! The evaluator: an expression tree in, one runtime value out.
//!
//! The semantics is stated once, as the spec functions `eval_unary`,
//! `eval_binary` and `eval_expr`; the executable evaluator is verified
//! to return exactly what they say.  The numeric domain is the exact
//! 64-bit signed integers: arithmetic that leaves it, and division by
//! zero, are runtime errors.

use vstd::prelude::*;
use crate::ast::{Expr, ExprV, LiteralKind, LiteralKindV};
use crate::token::{Token, TokenTypeV};

verus! {

/// A runtime value.
pub enum Value {
    Str(String),
    Num(i64),
    Bool(bool),
    Nil,
}

/// Mathematical model of a runtime value.
pub enum ValueV {
    Str(Seq<char>),
    Num(i64),
    Bool(bool),
    Nil,
}

impl View for Value {
    type V = ValueV;

    open spec fn view(&self) -> ValueV {
        match self {
            Value::Str(s) => ValueV::Str(s@),
            Value::Num(n) => ValueV::Num(*n),
            Value::Bool(b) => ValueV::Bool(*b),
            Value::Nil => ValueV::Nil,
        }
    }
}

/// The kind of a runtime value, for error reports.
pub enum ValueKind {
    Str,
    Num,
    Bool,
    Nil,
}

/// The kind of a value.
pub open spec fn kind_of(v: ValueV) -> ValueKind {
    match v {
        ValueV::Str(_) => ValueKind::Str,
        ValueV::Num(_) => ValueKind::Num,
        ValueV::Bool(_) => ValueKind::Bool,
        ValueV::Nil => ValueKind::Nil,
    }
}

/// The name of an operator, for error reports.
pub enum OpName {
    Minus,
    Plus,
    Slash,
    Star,
    Bang,
    BangEq,
    EqEq,
    Greater,
    GreaterEq,
    Less,
    LessEq,
    Other,
}

/// The reportable name of an operator token kind.
pub open spec fn op_name(t: TokenTypeV) -> OpName {
    match t {
        TokenTypeV::Minus => OpName::Minus,
        TokenTypeV::Plus => OpName::Plus,
        TokenTypeV::Slash => OpName::Slash,
        TokenTypeV::Star => OpName::Star,
        TokenTypeV::Bang => OpName::Bang,
        TokenTypeV::BangEq => OpName::BangEq,
        TokenTypeV::EqEq => OpName::EqEq,
        TokenTypeV::Greater => OpName::Greater,
        TokenTypeV::GreaterEq => OpName::GreaterEq,
        TokenTypeV::Less => OpName::Less,
        TokenTypeV::LessEq => OpName::LessEq,
        _ => OpName::Other,
    }
}

/// Why evaluation failed.  Type errors carry the operator's name and the
/// kinds of the offending operands.
pub enum RuntimeError {
    /// A unary operator applied to an operand kind it has no rule for.
    UnaryTypeError { op: OpName, operand: ValueKind },
    /// A binary operator applied to an operand-kind pair it has no rule for.
    BinaryTypeError { op: OpName, left: ValueKind, right: ValueKind },
    /// A string repeated a negative number of times.
    NegativeRepeat,
    /// An arithmetic result outside the numeric domain.
    Overflow { op: OpName },
    /// Division by zero.
    DivisionByZero,
}

/// The boolean projection of a value: nil and false are false,
/// everything else is true.
pub open spec fn truthy(v: ValueV) -> bool {
    match v {
        ValueV::Bool(b) => b,
        ValueV::Nil => false,
        _ => true,
    }
}

/// The runtime value of a literal.
pub open spec fn literal_value(l: LiteralKindV) -> ValueV {
    match l {
        LiteralKindV::Str(s) => ValueV::Str(s),
        LiteralKindV::Num(n) => ValueV::Num(n),
        LiteralKindV::Bool(b) => ValueV::Bool(b),
        LiteralKindV::Nil => ValueV::Nil,
    }
}

/// A character sequence repeated `n` times.
pub open spec fn seq_repeat(s: Seq<char>, n: int) -> Seq<char>
    decreases n,
{
    if n <= 0 {
        Seq::empty()
    } else {
        seq_repeat(s, n - 1) + s
    }
}

/// The unary rules: `-` negates a number and nothing else; `!` is the
/// negated truthiness of any value.
pub open spec fn eval_unary(op: TokenTypeV, v: ValueV) -> Result<ValueV, RuntimeError> {
    match op {
        TokenTypeV::Minus => match v {
            ValueV::Num(n) => match (0i64).checked_sub(n) {
                Some(m) => Ok(ValueV::Num(m)),
                None => Err(RuntimeError::Overflow { op: OpName::Minus }),
            },
            _ => Err(
                RuntimeError::UnaryTypeError { op: OpName::Minus, operand: kind_of(v) },
            ),
        },
        TokenTypeV::Bang => Ok(ValueV::Bool(!truthy(v))),
        _ => Err(RuntimeError::UnaryTypeError { op: op_name(op), operand: kind_of(v) }),
    }
}

/// The binary rules, by operand-kind pair: numbers have arithmetic and
/// all comparisons; strings concatenate with `+` and repeat under `*`
/// with a number; every other pairing is a type error.
pub open spec fn eval_binary(op: TokenTypeV, l: ValueV, r: ValueV) -> Result<
    ValueV,
    RuntimeError,
> {
    match (l, r) {
        (ValueV::Str(a), ValueV::Str(b)) => match op {
            TokenTypeV::Plus => Ok(ValueV::Str(a + b)),
            _ => Err(
                RuntimeError::BinaryTypeError {
                    op: op_name(op),
                    left: ValueKind::Str,
                    right: ValueKind::Str,
                },
            ),
        },
        (ValueV::Str(a), ValueV::Num(n)) => match op {
            TokenTypeV::Star => if n < 0 {
                Err(RuntimeError::NegativeRepeat)
            } else {
                Ok(ValueV::Str(seq_repeat(a, n as int)))
            },
            _ => Err(
                RuntimeError::BinaryTypeError {
                    op: op_name(op),
                    left: ValueKind::Str,
                    right: ValueKind::Num,
                },
            ),
        },
        (ValueV::Num(n), ValueV::Str(a)) => match op {
            TokenTypeV::Star => if n < 0 {
                Err(RuntimeError::NegativeRepeat)
            } else {
                Ok(ValueV::Str(seq_repeat(a, n as int)))
            },
            _ => Err(
                RuntimeError::BinaryTypeError {
                    op: op_name(op),
                    left: ValueKind::Num,
                    right: ValueKind::Str,
                },
            ),
        },
        (ValueV::Num(a), ValueV::Num(b)) => match op {
            TokenTypeV::Plus => match a.checked_add(b) {
                Some(m) => Ok(ValueV::Num(m)),
                None => Err(RuntimeError::Overflow { op: OpName::Plus }),
            },
            TokenTypeV::Minus => match a.checked_sub(b) {
                Some(m) => Ok(ValueV::Num(m)),
                None => Err(RuntimeError::Overflow { op: OpName::Minus }),
            },
            TokenTypeV::Star => match a.checked_mul(b) {
                Some(m) => Ok(ValueV::Num(m)),
                None => Err(RuntimeError::Overflow { op: OpName::Star }),
            },
            TokenTypeV::Slash => if b == 0 {
                Err(RuntimeError::DivisionByZero)
            } else {
                match a.checked_div(b) {
                    Some(q) => Ok(ValueV::Num(q)),
                    None => Err(RuntimeError::Overflow { op: OpName::Slash }),
                }
            },
            TokenTypeV::EqEq => Ok(ValueV::Bool(a == b)),
            TokenTypeV::BangEq => Ok(ValueV::Bool(a != b)),
            TokenTypeV::Greater => Ok(ValueV::Bool(a > b)),
            TokenTypeV::GreaterEq => Ok(ValueV::Bool(a >= b)),
            TokenTypeV::Less => Ok(ValueV::Bool(a < b)),
            TokenTypeV::LessEq => Ok(ValueV::Bool(a <= b)),
            _ => Err(
                RuntimeError::BinaryTypeError {
                    op: op_name(op),
                    left: ValueKind::Num,
                    right: ValueKind::Num,
                },
            ),
        },
        _ => Err(
            RuntimeError::BinaryTypeError {
                op: op_name(op),
                left: kind_of(l),
                right: kind_of(r),
            },
        ),
    }
}

/// The value of an expression: literals map across, grouping is
/// transparent, and operands are evaluated left to right before the
/// operator's rule is applied.  The first error aborts evaluation.
pub open spec fn eval_expr(e: ExprV) -> Result<ValueV, RuntimeError>
    decreases e,
{
    match e {
        ExprV::Literal { value } => Ok(literal_value(value)),
        ExprV::Grouping { expr } => eval_expr(*expr),
        ExprV::Unary { operator, right } => match eval_expr(*right) {
            Err(e) => Err(e),
            Ok(v) => eval_unary(operator.token_type, v),
        },
        ExprV::Binary { left, operator, right } => match eval_expr(*left) {
            Err(e) => Err(e),
            Ok(l) => match eval_expr(*right) {
                Err(e) => Err(e),
                Ok(r) => eval_binary(operator.token_type, l, r),
            },
        },
    }
}

/// The reportable name of an operator token, decided executably.
fn op_name_of(t: &crate::token::TokenType) -> (r: OpName)
    ensures
        r == op_name(t@),
{
    match t {
        crate::token::TokenType::Minus => OpName::Minus,
        crate::token::TokenType::Plus => OpName::Plus,
        crate::token::TokenType::Slash => OpName::Slash,
        crate::token::TokenType::Star => OpName::Star,
        crate::token::TokenType::Bang => OpName::Bang,
        crate::token::TokenType::BangEq => OpName::BangEq,
        crate::token::TokenType::EqEq => OpName::EqEq,
        crate::token::TokenType::Greater => OpName::Greater,
        crate::token::TokenType::GreaterEq => OpName::GreaterEq,
        crate::token::TokenType::Less => OpName::Less,
        crate::token::TokenType::LessEq => OpName::LessEq,
        _ => OpName::Other,
    }
}

/// The kind of a runtime value, decided executably.
fn kind_of_value(v: &Value) -> (r: ValueKind)
    ensures
        r == kind_of(v@),
{
    match v {
        Value::Str(_) => ValueKind::Str,
        Value::Num(_) => ValueKind::Num,
        Value::Bool(_) => ValueKind::Bool,
        Value::Nil => ValueKind::Nil,
    }
}

/// The string `s` repeated `n` times.
fn repeat_string(s: &String, n: i64) -> (r: String)
    requires
        n >= 0,
    ensures
        r@ == seq_repeat(s@, n as int),
{
    let mut out = String::new();
    let mut k: i64 = 0;
    proof {
        assert(out@ =~= seq_repeat(s@, 0));
    }
    while k < n
        invariant
            0 <= k <= n,
            out@ == seq_repeat(s@, k as int),
        decreases n - k,
    {
        out.append(s.as_str());
        k = k + 1;
    }
    out
}

/// Truthiness, decided executably.
pub fn evaluate_truthy(value: &Value) -> (r: bool)
    ensures
        r == truthy(value@),
{
    match value {
        Value::Bool(b) => *b,
        Value::Nil => false,
        _ => true,
    }
}

/// The runtime value of a literal.
pub fn evaluate_literal(literal: &LiteralKind) -> (r: Value)
    ensures
        r@ == literal_value(literal@),
{
    match literal {
        LiteralKind::Str(v) => Value::Str(v.clone()),
        LiteralKind::Num(v) => Value::Num(*v),
        LiteralKind::Bool(v) => Value::Bool(*v),
        LiteralKind::Nil => Value::Nil,
    }
}

/// Applies a unary operator to an evaluated operand, exactly as
/// `eval_unary` describes it.
pub fn evaluate_unary(operator: &Token, right: Value) -> (r: Result<Value, RuntimeError>)
    ensures
        match eval_unary(operator@.token_type, right@) {
            Ok(vv) => r matches Ok(v) && v@ == vv,
            Err(e) => r matches Err(e2) && e2 == e,
        },
{
    match &operator.token_type {
        crate::token::TokenType::Minus => match right {
            Value::Num(n) => match (0i64).checked_sub(n) {
                Some(m) => Ok(Value::Num(m)),
                None => Err(RuntimeError::Overflow { op: OpName::Minus }),
            },
            value => Err(
                RuntimeError::UnaryTypeError {
                    op: OpName::Minus,
                    operand: kind_of_value(&value),
                },
            ),
        },
        crate::token::TokenType::Bang => Ok(Value::Bool(!evaluate_truthy(&right))),
        token_type => Err(
            RuntimeError::UnaryTypeError {
                op: op_name_of(token_type),
                operand: kind_of_value(&right),
            },
        ),
    }
}

/// Applies a binary operator to two evaluated operands, exactly as
/// `eval_binary` describes it.
pub fn evaluate_binary(operator: &Token, left: Value, right: Value) -> (r: Result<
    Value,
    RuntimeError,
>)
    ensures
        match eval_binary(operator@.token_type, left@, right@) {
            Ok(vv) => r matches Ok(v) && v@ == vv,
            Err(e) => r matches Err(e2) && e2 == e,
        },
{
    match (left, right) {
        (Value::Str(left_value), Value::Str(right_value)) => match &operator.token_type {
            crate::token::TokenType::Plus => Ok(
                Value::Str(left_value.concat(right_value.as_str())),
            ),
            token_type => Err(
                RuntimeError::BinaryTypeError {
                    op: op_name_of(token_type),
                    left: ValueKind::Str,
                    right: ValueKind::Str,
                },
            ),
        },
        (Value::Str(left_value), Value::Num(right_value)) => match &operator.token_type {
            crate::token::TokenType::Star => if right_value < 0 {
                Err(RuntimeError::NegativeRepeat)
            } else {
                Ok(Value::Str(repeat_string(&left_value, right_value)))
            },
            token_type => Err(
                RuntimeError::BinaryTypeError {
                    op: op_name_of(token_type),
                    left: ValueKind::Str,
                    right: ValueKind::Num,
                },
            ),
        },
        (Value::Num(left_value), Value::Str(right_value)) => match &operator.token_type {
            crate::token::TokenType::Star => if left_value < 0 {
                Err(RuntimeError::NegativeRepeat)
            } else {
                Ok(Value::Str(repeat_string(&right_value, left_value)))
            },
            token_type => Err(
                RuntimeError::BinaryTypeError {
                    op: op_name_of(token_type),
                    left: ValueKind::Num,
                    right: ValueKind::Str,
                },
            ),
        },
        (Value::Num(a), Value::Num(b)) => match &operator.token_type {
            crate::token::TokenType::Plus => match a.checked_add(b) {
                Some(m) => Ok(Value::Num(m)),
                None => Err(RuntimeError::Overflow { op: OpName::Plus }),
            },
            crate::token::TokenType::Minus => match a.checked_sub(b) {
                Some(m) => Ok(Value::Num(m)),
                None => Err(RuntimeError::Overflow { op: OpName::Minus }),
            },
            crate::token::TokenType::Star => match a.checked_mul(b) {
                Some(m) => Ok(Value::Num(m)),
                None => Err(RuntimeError::Overflow { op: OpName::Star }),
            },
            crate::token::TokenType::Slash => if b == 0 {
                Err(RuntimeError::DivisionByZero)
            } else {
                match a.checked_div(b) {
                    Some(q) => Ok(Value::Num(q)),
                    None => Err(RuntimeError::Overflow { op: OpName::Slash }),
                }
            },
            crate::token::TokenType::EqEq => Ok(Value::Bool(a == b)),
            crate::token::TokenType::BangEq => Ok(Value::Bool(a != b)),
            crate::token::TokenType::Greater => Ok(Value::Bool(a > b)),
            crate::token::TokenType::GreaterEq => Ok(Value::Bool(a >= b)),
            crate::token::TokenType::Less => Ok(Value::Bool(a < b)),
            crate::token::TokenType::LessEq => Ok(Value::Bool(a <= b)),
            token_type => Err(
                RuntimeError::BinaryTypeError {
                    op: op_name_of(token_type),
                    left: ValueKind::Num,
                    right: ValueKind::Num,
                },
            ),
        },
        (left_value, right_value) => Err(
            RuntimeError::BinaryTypeError {
                op: op_name_of(&operator.token_type),
                left: kind_of_value(&left_value),
                right: kind_of_value(&right_value),
            },
        ),
    }
}

/// Evaluates the value inside a grouping.
pub fn evaluate_grouping(expr: &Expr) -> (r: Result<Value, RuntimeError>)
    ensures
        match eval_expr(expr@) {
            Ok(vv) => r matches Ok(v) && v@ == vv,
            Err(e) => r matches Err(e2) && e2 == e,
        },
    decreases expr, 1int,
{
    evaluate_expression(expr)
}

/// Evaluates an expression, exactly as `eval_expr` describes it.
pub fn evaluate_expression(expr: &Expr) -> (r: Result<Value, RuntimeError>)
    ensures
        match eval_expr(expr@) {
            Ok(vv) => r matches Ok(v) && v@ == vv,
            Err(e) => r matches Err(e2) && e2 == e,
        },
    decreases expr, 0int,
{
    match expr {
        Expr::Binary { left, operator, right } => {
            let l = match evaluate_expression(left) {
                Ok(v) => v,
                Err(e) => {
                    return Err(e);
                },
            };
            let r = match evaluate_expression(right) {
                Ok(v) => v,
                Err(e) => {
                    return Err(e);
                },
            };
            evaluate_binary(operator, l, r)
        },
        Expr::Grouping { expr } => evaluate_grouping(expr),
        Expr::Literal { value } => Ok(evaluate_literal(value)),
        Expr::Unary { operator, right } => {
            let v = match evaluate_expression(right) {
                Ok(v) => v,
                Err(e) => {
                    return Err(e);
                },
            };
            evaluate_unary(operator, v)
        },
    }
}

/// Evaluates a whole expression tree to its final runtime value, or the
/// first runtime error.
pub fn interpret(expr: &Expr) -> (r: Result<Value, RuntimeError>)
    ensures
        match eval_expr(expr@) {
            Ok(vv) => r matches Ok(v) && v@ == vv,
            Err(e) => r matches Err(e2) && e2 == e,
        },
{
    evaluate_expression(expr)
}

/// The printed form of a runtime value: a number in decimal with no
/// unnecessary digits, `true`/`false`, `nil`, and a string as its raw
/// text without quotes.
pub open spec fn render_value(v: ValueV) -> Seq<char> {
    match v {
        ValueV::Str(s) => s,
        ValueV::Num(n) => crate::text::render_num(n as int),
        ValueV::Bool(b) => if b {
            "true"@
        } else {
            "false"@
        },
        ValueV::Nil => "nil"@,
    }
}

impl Value {
    /// This value's printed form, exactly `render_value` of its model.
    pub fn to_string(&self) -> (r: String)
        ensures
            r@ == render_value(self@),
    {
        match self {
            Value::Str(s) => s.clone(),
            Value::Num(n) => {
                let mut out = String::new();
                crate::text::push_num(&mut out, *n);
                proof {
                    assert(out@ =~= render_value(self@));
                }
                out
            },
            Value::Bool(b) => {
                if *b {
                    String::from_str("true")
                } else {
                    String::from_str("false")
                }
            },
            Value::Nil => String::from_str("nil"),
        }
    }
}

/// Unary minus applied twice to a number evaluates to the number
/// itself.  The one value outside this law is the smallest number of
/// the domain, whose negation does not exist in it.
pub proof fn lemma_double_minus(minus1: crate::token::TokenV, minus2: crate::token::TokenV, e: ExprV, n: i64)
    requires
        minus1.token_type == TokenTypeV::Minus,
        minus2.token_type == TokenTypeV::Minus,
        eval_expr(e) == Ok::<ValueV, RuntimeError>(ValueV::Num(n)),
        n != i64::MIN,
    ensures
        eval_expr(
            ExprV::Unary {
                operator: minus1,
                right: Box::new(ExprV::Unary { operator: minus2, right: Box::new(e) }),
            },
        ) == Ok::<ValueV, RuntimeError>(ValueV::Num(n)),
{
    let inner = ExprV::Unary { operator: minus2, right: Box::new(e) };
    assert(eval_expr(inner) == Ok::<ValueV, RuntimeError>(ValueV::Num((0 - n) as i64)));
    assert(eval_expr(ExprV::Unary { operator: minus1, right: Box::new(inner) })
        == eval_unary(minus1.token_type, ValueV::Num((0 - n) as i64)));
}

/// `!` applied twice to any value evaluates to the truthiness of the
/// value, as a boolean.
pub proof fn lemma_double_bang(bang1: crate::token::TokenV, bang2: crate::token::TokenV, e: ExprV, v: ValueV)
    requires
        bang1.token_type == TokenTypeV::Bang,
        bang2.token_type == TokenTypeV::Bang,
        eval_expr(e) == Ok::<ValueV, RuntimeError>(v),
    ensures
        eval_expr(
            ExprV::Unary {
                operator: bang1,
                right: Box::new(ExprV::Unary { operator: bang2, right: Box::new(e) }),
            },
        ) == Ok::<ValueV, RuntimeError>(ValueV::Bool(truthy(v))),
{
    let inner = ExprV::Unary { operator: bang2, right: Box::new(e) };
    assert(eval_expr(inner) == Ok::<ValueV, RuntimeError>(ValueV::Bool(!truthy(v))));
    assert(eval_expr(ExprV::Unary { operator: bang1, right: Box::new(inner) })
        == eval_unary(bang1.token_type, ValueV::Bool(!truthy(v))));
}

} // verus!
