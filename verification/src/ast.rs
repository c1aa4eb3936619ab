//! The expression tree produced by the parser.

use vstd::prelude::*;
use crate::token::{Token, TokenV};

verus! {

/// The payload of a literal expression.
pub enum LiteralKind {
    Str(String),
    Num(i64),
    Bool(bool),
    Nil,
}

/// Mathematical model of a literal payload.
pub enum LiteralKindV {
    Str(Seq<char>),
    Num(i64),
    Bool(bool),
    Nil,
}

impl View for LiteralKind {
    type V = LiteralKindV;

    open spec fn view(&self) -> LiteralKindV {
        match self {
            LiteralKind::Str(s) => LiteralKindV::Str(s@),
            LiteralKind::Num(n) => LiteralKindV::Num(*n),
            LiteralKind::Bool(b) => LiteralKindV::Bool(*b),
            LiteralKind::Nil => LiteralKindV::Nil,
        }
    }
}

/// An expression: the four node shapes of this language core.
/// Every child link is owned, so a tree is finite and acyclic.
pub enum Expr {
    Binary { left: Box<Expr>, operator: Token, right: Box<Expr> },
    Grouping { expr: Box<Expr> },
    Literal { value: LiteralKind },
    Unary { operator: Token, right: Box<Expr> },
}

/// Mathematical model of an expression tree.
pub enum ExprV {
    Binary { left: Box<ExprV>, operator: TokenV, right: Box<ExprV> },
    Grouping { expr: Box<ExprV> },
    Literal { value: LiteralKindV },
    Unary { operator: TokenV, right: Box<ExprV> },
}

/// The model of an expression tree.
pub open spec fn expr_view(e: Expr) -> ExprV
    decreases e,
{
    match e {
        Expr::Binary { left, operator, right } => ExprV::Binary {
            left: Box::new(expr_view(*left)),
            operator: operator@,
            right: Box::new(expr_view(*right)),
        },
        Expr::Grouping { expr } => ExprV::Grouping { expr: Box::new(expr_view(*expr)) },
        Expr::Literal { value } => ExprV::Literal { value: value@ },
        Expr::Unary { operator, right } => ExprV::Unary {
            operator: operator@,
            right: Box::new(expr_view(*right)),
        },
    }
}

impl View for Expr {
    type V = ExprV;

    open spec fn view(&self) -> ExprV {
        expr_view(*self)
    }
}

/// The canonical source text of a literal.
pub open spec fn print_literal(l: LiteralKindV) -> Seq<char> {
    match l {
        LiteralKindV::Str(s) => seq!['"'] + s + seq!['"'],
        LiteralKindV::Num(n) => crate::text::render_num(n as int),
        LiteralKindV::Bool(b) => if b {
            "true"@
        } else {
            "false"@
        },
        LiteralKindV::Nil => "nil"@,
    }
}

/// The canonical source text of an expression: literals as written,
/// groupings in parentheses, a binary operator between its operands
/// with one space on each side, a unary operator directly before its
/// operand.
pub open spec fn print_expr(e: ExprV) -> Seq<char>
    decreases e,
{
    match e {
        ExprV::Literal { value } => print_literal(value),
        ExprV::Grouping { expr } => seq!['('] + print_expr(*expr) + seq![')'],
        ExprV::Unary { operator, right } => crate::token::lexeme(operator.token_type)
            + print_expr(*right),
        ExprV::Binary { left, operator, right } => print_expr(*left) + seq![' ']
            + crate::token::lexeme(operator.token_type) + seq![' '] + print_expr(*right),
    }
}

impl Expr {
    /// Appends this expression's canonical source text.
    fn write_source(&self, out: &mut String)
        ensures
            final(out)@ == old(out)@ + print_expr(self@),
        decreases self,
    {
        match self {
            Expr::Literal { value } => match value {
                LiteralKind::Str(s) => {
                    crate::text::push_char(out, '"');
                    out.append(s.as_str());
                    crate::text::push_char(out, '"');
                    proof {
                        assert(out@ =~= old(out)@ + (seq!['"'] + s@ + seq!['"']));
                    }
                },
                LiteralKind::Num(n) => crate::text::push_num(out, *n),
                LiteralKind::Bool(b) => {
                    if *b {
                        out.append("true");
                    } else {
                        out.append("false");
                    }
                },
                LiteralKind::Nil => out.append("nil"),
            },
            Expr::Grouping { expr } => {
                crate::text::push_char(out, '(');
                expr.write_source(out);
                crate::text::push_char(out, ')');
                proof {
                    assert(out@ =~= old(out)@ + (seq!['('] + print_expr(expr@) + seq![')']));
                }
            },
            Expr::Unary { operator, right } => {
                operator.token_type.write_lexeme(out);
                right.write_source(out);
                proof {
                    assert(out@ =~= old(out)@ + (crate::token::lexeme(operator.token_type@)
                        + print_expr(right@)));
                }
            },
            Expr::Binary { left, operator, right } => {
                left.write_source(out);
                crate::text::push_char(out, ' ');
                operator.token_type.write_lexeme(out);
                crate::text::push_char(out, ' ');
                right.write_source(out);
                proof {
                    assert(out@ =~= old(out)@ + (print_expr(left@) + seq![' ']
                        + crate::token::lexeme(operator.token_type@) + seq![' '] + print_expr(
                        right@,
                    )));
                }
            },
        }
    }

    /// This expression's canonical source text, exactly `print_expr` of
    /// its model: what the parser read, written back out.
    pub fn to_string(&self) -> (r: String)
        ensures
            r@ == print_expr(self@),
    {
        let mut out = String::new();
        self.write_source(&mut out);
        proof {
            assert(out@ =~= print_expr(self@));
        }
        out
    }
}

} // verus!
