//! The parser: tokens in, one expression tree out.
//!
//! The grammar is stated once, as a family of spec functions, one per
//! precedence level, from `p_expression` down to `p_primary`; each takes
//! the token sequence and a position and returns the parse result
//! together with the position after it.  Every binary level folds to the
//! left.  The executable `Parser` is verified to return exactly what the
//! spec functions say.

use vstd::prelude::*;
use crate::token::{Token, TokenType, TokenTypeV, TokenV, tokens_view};
use crate::ast::{Expr, ExprV, LiteralKind, LiteralKindV};

verus! {

broadcast use vstd::std_specs::vec::group_vec_axioms;

/// Why parsing failed.
pub enum ParseErrorKind {
    /// A token that cannot begin an expression where one was required.
    UnexpectedToken,
    /// A required token (the closing parenthesis) was absent.
    MissingToken,
    /// The token list ran out; a list ending in the end-of-stream token
    /// never produces this.
    UnexpectedEnd,
}

/// A fatal parse error with the line of the offending token
/// (0 when the token list ran out entirely).
pub struct ParseError {
    pub line: usize,
    pub kind: ParseErrorKind,
}

/// `primary := "true" | "false" | "nil" | NUMBER | STRING | "(" expression ")"`.
/// Any other token is a fatal error.
pub open spec fn p_primary(toks: Seq<TokenV>, i: int) -> (Result<ExprV, ParseError>, int)
    decreases toks.len() - i, 1int,
{
    if !(0 <= i < toks.len()) {
        (Err(ParseError { line: 0, kind: ParseErrorKind::UnexpectedEnd }), i)
    } else {
        let t = toks[i];
        match t.token_type {
            TokenTypeV::True => (
                Ok(ExprV::Literal { value: LiteralKindV::Bool(true) }),
                i + 1,
            ),
            TokenTypeV::False => (
                Ok(ExprV::Literal { value: LiteralKindV::Bool(false) }),
                i + 1,
            ),
            TokenTypeV::Nil => (Ok(ExprV::Literal { value: LiteralKindV::Nil }), i + 1),
            TokenTypeV::Num(n) => (
                Ok(ExprV::Literal { value: LiteralKindV::Num(n) }),
                i + 1,
            ),
            TokenTypeV::Str(s) => (
                Ok(ExprV::Literal { value: LiteralKindV::Str(s) }),
                i + 1,
            ),
            TokenTypeV::LeftParen => {
                let (r, j) = p_expression(toks, i + 1);
                match r {
                    Err(e) => (Err(e), j),
                    Ok(inner) => if 0 <= j < toks.len() && toks[j].token_type
                        == TokenTypeV::RightParen {
                        (Ok(ExprV::Grouping { expr: Box::new(inner) }), j + 1)
                    } else if 0 <= j < toks.len() {
                        (
                            Err(ParseError { line: toks[j].line, kind: ParseErrorKind::MissingToken }),
                            j,
                        )
                    } else {
                        (Err(ParseError { line: 0, kind: ParseErrorKind::UnexpectedEnd }), j)
                    },
                }
            },
            _ => (Err(ParseError { line: t.line, kind: ParseErrorKind::UnexpectedToken }), i + 1),
        }
    }
}

/// `unary := ("!" | "-") unary | primary`; right-recursive.
pub open spec fn p_unary(toks: Seq<TokenV>, i: int) -> (Result<ExprV, ParseError>, int)
    decreases toks.len() - i, 2int,
{
    if 0 <= i < toks.len() && (toks[i].token_type == TokenTypeV::Bang || toks[i].token_type
        == TokenTypeV::Minus) {
        let (r, j) = p_unary(toks, i + 1);
        match r {
            Err(e) => (Err(e), j),
            Ok(right) => (
                Ok(ExprV::Unary { operator: toks[i], right: Box::new(right) }),
                j,
            ),
        }
    } else {
        p_primary(toks, i)
    }
}

/// Whether the token kind is an operator of the `factor` level.
pub open spec fn is_factor_op(t: TokenTypeV) -> bool {
    t == TokenTypeV::Slash || t == TokenTypeV::Star
}

/// Whether the token kind is an operator of the `term` level.
pub open spec fn is_term_op(t: TokenTypeV) -> bool {
    t == TokenTypeV::Minus || t == TokenTypeV::Plus
}

/// Whether the token kind is an operator of the `comparison` level.
pub open spec fn is_comparison_op(t: TokenTypeV) -> bool {
    t == TokenTypeV::Greater || t == TokenTypeV::GreaterEq || t == TokenTypeV::Less || t
        == TokenTypeV::LessEq
}

/// Whether the token kind is an operator of the `equality` level.
pub open spec fn is_equality_op(t: TokenTypeV) -> bool {
    t == TokenTypeV::BangEq || t == TokenTypeV::EqEq
}

/// The left fold of `factor`: as long as a factor operator follows,
/// parse one more unary and hang it to the right of a new `Binary` node
/// whose left child is the accumulator.
pub open spec fn p_factor_loop(toks: Seq<TokenV>, i: int, acc: ExprV) -> (
    Result<ExprV, ParseError>,
    int,
)
    decreases toks.len() - i, 3int,
{
    if 0 <= i < toks.len() && is_factor_op(toks[i].token_type) {
        let (r, j) = p_unary(toks, i + 1);
        match r {
            Err(e) => (Err(e), j),
            Ok(rhs) => if i + 1 <= j <= toks.len() {
                p_factor_loop(
                    toks,
                    j,
                    ExprV::Binary {
                        left: Box::new(acc),
                        operator: toks[i],
                        right: Box::new(rhs),
                    },
                )
            } else {
                // Never reached: parsing always moves forward
                // (`lemma_unary_bounds`).
                (Ok(acc), j)
            },
        }
    } else {
        (Ok(acc), i)
    }
}

/// `factor := unary ( ("/" | "*") unary )*`.
pub open spec fn p_factor(toks: Seq<TokenV>, i: int) -> (Result<ExprV, ParseError>, int)
    decreases toks.len() - i, 4int,
{
    let (r, j) = p_unary(toks, i);
    match r {
        Err(e) => (Err(e), j),
        Ok(e) => if i <= j <= toks.len() {
            p_factor_loop(toks, j, e)
        } else {
            // Never reached: parsing never moves backwards.
            (Ok(e), j)
        },
    }
}

/// The left fold of `term`.
pub open spec fn p_term_loop(toks: Seq<TokenV>, i: int, acc: ExprV) -> (
    Result<ExprV, ParseError>,
    int,
)
    decreases toks.len() - i, 5int,
{
    if 0 <= i < toks.len() && is_term_op(toks[i].token_type) {
        let (r, j) = p_factor(toks, i + 1);
        match r {
            Err(e) => (Err(e), j),
            Ok(rhs) => if i + 1 <= j <= toks.len() {
                p_term_loop(
                    toks,
                    j,
                    ExprV::Binary {
                        left: Box::new(acc),
                        operator: toks[i],
                        right: Box::new(rhs),
                    },
                )
            } else {
                (Ok(acc), j)
            },
        }
    } else {
        (Ok(acc), i)
    }
}

/// `term := factor ( ("-" | "+") factor )*`.
pub open spec fn p_term(toks: Seq<TokenV>, i: int) -> (Result<ExprV, ParseError>, int)
    decreases toks.len() - i, 6int,
{
    let (r, j) = p_factor(toks, i);
    match r {
        Err(e) => (Err(e), j),
        Ok(e) => if i <= j <= toks.len() {
            p_term_loop(toks, j, e)
        } else {
            (Ok(e), j)
        },
    }
}

/// The left fold of `comparison`.
pub open spec fn p_comparison_loop(toks: Seq<TokenV>, i: int, acc: ExprV) -> (
    Result<ExprV, ParseError>,
    int,
)
    decreases toks.len() - i, 7int,
{
    if 0 <= i < toks.len() && is_comparison_op(toks[i].token_type) {
        let (r, j) = p_term(toks, i + 1);
        match r {
            Err(e) => (Err(e), j),
            Ok(rhs) => if i + 1 <= j <= toks.len() {
                p_comparison_loop(
                    toks,
                    j,
                    ExprV::Binary {
                        left: Box::new(acc),
                        operator: toks[i],
                        right: Box::new(rhs),
                    },
                )
            } else {
                (Ok(acc), j)
            },
        }
    } else {
        (Ok(acc), i)
    }
}

/// `comparison := term ( (">" | ">=" | "<" | "<=") term )*`.
pub open spec fn p_comparison(toks: Seq<TokenV>, i: int) -> (Result<ExprV, ParseError>, int)
    decreases toks.len() - i, 8int,
{
    let (r, j) = p_term(toks, i);
    match r {
        Err(e) => (Err(e), j),
        Ok(e) => if i <= j <= toks.len() {
            p_comparison_loop(toks, j, e)
        } else {
            (Ok(e), j)
        },
    }
}

/// The left fold of `equality`.
pub open spec fn p_equality_loop(toks: Seq<TokenV>, i: int, acc: ExprV) -> (
    Result<ExprV, ParseError>,
    int,
)
    decreases toks.len() - i, 9int,
{
    if 0 <= i < toks.len() && is_equality_op(toks[i].token_type) {
        let (r, j) = p_comparison(toks, i + 1);
        match r {
            Err(e) => (Err(e), j),
            Ok(rhs) => if i + 1 <= j <= toks.len() {
                p_equality_loop(
                    toks,
                    j,
                    ExprV::Binary {
                        left: Box::new(acc),
                        operator: toks[i],
                        right: Box::new(rhs),
                    },
                )
            } else {
                (Ok(acc), j)
            },
        }
    } else {
        (Ok(acc), i)
    }
}

/// `equality := comparison ( ("!=" | "==") comparison )*`.
pub open spec fn p_equality(toks: Seq<TokenV>, i: int) -> (Result<ExprV, ParseError>, int)
    decreases toks.len() - i, 10int,
{
    let (r, j) = p_comparison(toks, i);
    match r {
        Err(e) => (Err(e), j),
        Ok(e) => if i <= j <= toks.len() {
            p_equality_loop(toks, j, e)
        } else {
            (Ok(e), j)
        },
    }
}

/// `expression := equality`: the whole grammar, from its lowest level.
pub open spec fn p_expression(toks: Seq<TokenV>, i: int) -> (Result<ExprV, ParseError>, int)
    decreases toks.len() - i, 11int,
{
    p_equality(toks, i)
}

/// `p_primary` stays inside the token list and consumes at least one
/// token when it succeeds.
pub proof fn lemma_primary_bounds(toks: Seq<TokenV>, i: int)
    requires
        0 <= i <= toks.len(),
    ensures
        i <= p_primary(toks, i).1 <= toks.len(),
        p_primary(toks, i).0 is Ok ==> i < p_primary(toks, i).1,
    decreases toks.len() - i, 1int,
{
    if 0 <= i < toks.len() && toks[i].token_type is LeftParen {
        lemma_expression_bounds(toks, i + 1);
    }
}

/// `p_unary` stays inside the token list and consumes at least one
/// token when it succeeds.
pub proof fn lemma_unary_bounds(toks: Seq<TokenV>, i: int)
    requires
        0 <= i <= toks.len(),
    ensures
        i <= p_unary(toks, i).1 <= toks.len(),
        p_unary(toks, i).0 is Ok ==> i < p_unary(toks, i).1,
    decreases toks.len() - i, 2int,
{
    if 0 <= i < toks.len() && (toks[i].token_type == TokenTypeV::Bang || toks[i].token_type
        == TokenTypeV::Minus) {
        lemma_unary_bounds(toks, i + 1);
    } else {
        lemma_primary_bounds(toks, i);
    }
}

/// The `factor` fold never moves backwards nor past the end.
pub proof fn lemma_factor_loop_bounds(toks: Seq<TokenV>, i: int, acc: ExprV)
    requires
        0 <= i <= toks.len(),
    ensures
        i <= p_factor_loop(toks, i, acc).1 <= toks.len(),
    decreases toks.len() - i, 3int,
{
    if 0 <= i < toks.len() && is_factor_op(toks[i].token_type) {
        lemma_unary_bounds(toks, i + 1);
        let (r, j) = p_unary(toks, i + 1);
        if r is Ok && i + 1 <= j <= toks.len() {
            lemma_factor_loop_bounds(
                toks,
                j,
                ExprV::Binary {
                    left: Box::new(acc),
                    operator: toks[i],
                    right: Box::new(r->Ok_0),
                },
            );
        }
    }
}

/// `p_factor` stays inside the token list and consumes at least one
/// token when it succeeds.
pub proof fn lemma_factor_bounds(toks: Seq<TokenV>, i: int)
    requires
        0 <= i <= toks.len(),
    ensures
        i <= p_factor(toks, i).1 <= toks.len(),
        p_factor(toks, i).0 is Ok ==> i < p_factor(toks, i).1,
    decreases toks.len() - i, 4int,
{
    lemma_unary_bounds(toks, i);
    let (r, j) = p_unary(toks, i);
    if r is Ok {
        lemma_factor_loop_bounds(toks, j, r->Ok_0);
    }
}

/// The `term` fold never moves backwards nor past the end.
pub proof fn lemma_term_loop_bounds(toks: Seq<TokenV>, i: int, acc: ExprV)
    requires
        0 <= i <= toks.len(),
    ensures
        i <= p_term_loop(toks, i, acc).1 <= toks.len(),
    decreases toks.len() - i, 5int,
{
    if 0 <= i < toks.len() && is_term_op(toks[i].token_type) {
        lemma_factor_bounds(toks, i + 1);
        let (r, j) = p_factor(toks, i + 1);
        if r is Ok && i + 1 <= j <= toks.len() {
            lemma_term_loop_bounds(
                toks,
                j,
                ExprV::Binary {
                    left: Box::new(acc),
                    operator: toks[i],
                    right: Box::new(r->Ok_0),
                },
            );
        }
    }
}

/// `p_term` stays inside the token list and consumes at least one token
/// when it succeeds.
pub proof fn lemma_term_bounds(toks: Seq<TokenV>, i: int)
    requires
        0 <= i <= toks.len(),
    ensures
        i <= p_term(toks, i).1 <= toks.len(),
        p_term(toks, i).0 is Ok ==> i < p_term(toks, i).1,
    decreases toks.len() - i, 6int,
{
    lemma_factor_bounds(toks, i);
    let (r, j) = p_factor(toks, i);
    if r is Ok {
        lemma_term_loop_bounds(toks, j, r->Ok_0);
    }
}

/// The `comparison` fold never moves backwards nor past the end.
pub proof fn lemma_comparison_loop_bounds(toks: Seq<TokenV>, i: int, acc: ExprV)
    requires
        0 <= i <= toks.len(),
    ensures
        i <= p_comparison_loop(toks, i, acc).1 <= toks.len(),
    decreases toks.len() - i, 7int,
{
    if 0 <= i < toks.len() && is_comparison_op(toks[i].token_type) {
        lemma_term_bounds(toks, i + 1);
        let (r, j) = p_term(toks, i + 1);
        if r is Ok && i + 1 <= j <= toks.len() {
            lemma_comparison_loop_bounds(
                toks,
                j,
                ExprV::Binary {
                    left: Box::new(acc),
                    operator: toks[i],
                    right: Box::new(r->Ok_0),
                },
            );
        }
    }
}

/// `p_comparison` stays inside the token list and consumes at least one
/// token when it succeeds.
pub proof fn lemma_comparison_bounds(toks: Seq<TokenV>, i: int)
    requires
        0 <= i <= toks.len(),
    ensures
        i <= p_comparison(toks, i).1 <= toks.len(),
        p_comparison(toks, i).0 is Ok ==> i < p_comparison(toks, i).1,
    decreases toks.len() - i, 8int,
{
    lemma_term_bounds(toks, i);
    let (r, j) = p_term(toks, i);
    if r is Ok {
        lemma_comparison_loop_bounds(toks, j, r->Ok_0);
    }
}

/// The `equality` fold never moves backwards nor past the end.
pub proof fn lemma_equality_loop_bounds(toks: Seq<TokenV>, i: int, acc: ExprV)
    requires
        0 <= i <= toks.len(),
    ensures
        i <= p_equality_loop(toks, i, acc).1 <= toks.len(),
    decreases toks.len() - i, 9int,
{
    if 0 <= i < toks.len() && is_equality_op(toks[i].token_type) {
        lemma_comparison_bounds(toks, i + 1);
        let (r, j) = p_comparison(toks, i + 1);
        if r is Ok && i + 1 <= j <= toks.len() {
            lemma_equality_loop_bounds(
                toks,
                j,
                ExprV::Binary {
                    left: Box::new(acc),
                    operator: toks[i],
                    right: Box::new(r->Ok_0),
                },
            );
        }
    }
}

/// `p_equality` stays inside the token list and consumes at least one
/// token when it succeeds.
pub proof fn lemma_equality_bounds(toks: Seq<TokenV>, i: int)
    requires
        0 <= i <= toks.len(),
    ensures
        i <= p_equality(toks, i).1 <= toks.len(),
        p_equality(toks, i).0 is Ok ==> i < p_equality(toks, i).1,
    decreases toks.len() - i, 10int,
{
    lemma_comparison_bounds(toks, i);
    let (r, j) = p_comparison(toks, i);
    if r is Ok {
        lemma_equality_loop_bounds(toks, j, r->Ok_0);
    }
}

/// `p_expression` stays inside the token list and consumes at least one
/// token when it succeeds.
pub proof fn lemma_expression_bounds(toks: Seq<TokenV>, i: int)
    requires
        0 <= i <= toks.len(),
    ensures
        i <= p_expression(toks, i).1 <= toks.len(),
        p_expression(toks, i).0 is Ok ==> i < p_expression(toks, i).1,
    decreases toks.len() - i, 11int,
{
    lemma_equality_bounds(toks, i);
}

/// A token list whose next token is the end-of-stream token holds no
/// expression: parsing reports a fatal error.
pub proof fn lemma_parse_eof_errors(toks: Seq<TokenV>, i: int)
    requires
        0 <= i < toks.len(),
        toks[i].token_type == TokenTypeV::Eof,
    ensures
        p_expression(toks, i).0 is Err,
{
    assert(p_primary(toks, i).0 is Err);
    assert(p_unary(toks, i).0 is Err);
    assert(p_factor(toks, i).0 is Err);
    assert(p_term(toks, i).0 is Err);
    assert(p_comparison(toks, i).0 is Err);
    assert(p_equality(toks, i).0 is Err);
}

/// An input of nothing but whitespace and comments is rejected: it
/// scans to the end-of-stream token alone, and parsing that reports a
/// fatal error.  Empty input is one such input.
pub proof fn lemma_blank_input_rejected(s: Seq<char>)
    requires
        crate::scanner::blank_from(s, 0),
    ensures
        crate::scanner::scan_from(s, 0, 1) matches Ok(toks) && p_expression(toks, 0).0 is Err,
{
    crate::scanner::lemma_blank_scans_to_eof(s, 0, 1);
    let toks = crate::scanner::scan_from(s, 0, 1)->Ok_0;
    lemma_parse_eof_errors(toks, 0);
}

/// Left associativity at the `factor` level: with the accumulator
/// `acc` already parsed, an operator, an operand, a second operator
/// and a second operand fold to `(acc op1 rhs1) op2 rhs2` — never to a
/// right-nested tree.
pub proof fn lemma_factor_left_assoc(toks: Seq<TokenV>, i: int, acc: ExprV)
    requires
        0 <= i < toks.len(),
        is_factor_op(toks[i].token_type),
        p_unary(toks, i + 1).0 is Ok,
        p_unary(toks, i + 1).1 < toks.len(),
        is_factor_op(toks[p_unary(toks, i + 1).1].token_type),
        p_unary(toks, p_unary(toks, i + 1).1 + 1).0 is Ok,
    ensures
        ({
            let (r1, j) = p_unary(toks, i + 1);
            let (r2, k) = p_unary(toks, j + 1);
            p_factor_loop(toks, i, acc) == p_factor_loop(
                toks,
                k,
                ExprV::Binary {
                    left: Box::new(
                        ExprV::Binary {
                            left: Box::new(acc),
                            operator: toks[i],
                            right: Box::new(r1->Ok_0),
                        },
                    ),
                    operator: toks[j],
                    right: Box::new(r2->Ok_0),
                },
            )
        }),
{
    lemma_unary_bounds(toks, i + 1);
    let (r1, j) = p_unary(toks, i + 1);
    lemma_unary_bounds(toks, j + 1);
    let first = ExprV::Binary {
        left: Box::new(acc),
        operator: toks[i],
        right: Box::new(r1->Ok_0),
    };
    assert(p_factor_loop(toks, i, acc) == p_factor_loop(toks, j, first));
}

/// Left associativity at the `term` level.
pub proof fn lemma_term_left_assoc(toks: Seq<TokenV>, i: int, acc: ExprV)
    requires
        0 <= i < toks.len(),
        is_term_op(toks[i].token_type),
        p_factor(toks, i + 1).0 is Ok,
        p_factor(toks, i + 1).1 < toks.len(),
        is_term_op(toks[p_factor(toks, i + 1).1].token_type),
        p_factor(toks, p_factor(toks, i + 1).1 + 1).0 is Ok,
    ensures
        ({
            let (r1, j) = p_factor(toks, i + 1);
            let (r2, k) = p_factor(toks, j + 1);
            p_term_loop(toks, i, acc) == p_term_loop(
                toks,
                k,
                ExprV::Binary {
                    left: Box::new(
                        ExprV::Binary {
                            left: Box::new(acc),
                            operator: toks[i],
                            right: Box::new(r1->Ok_0),
                        },
                    ),
                    operator: toks[j],
                    right: Box::new(r2->Ok_0),
                },
            )
        }),
{
    lemma_factor_bounds(toks, i + 1);
    let (r1, j) = p_factor(toks, i + 1);
    lemma_factor_bounds(toks, j + 1);
    let first = ExprV::Binary {
        left: Box::new(acc),
        operator: toks[i],
        right: Box::new(r1->Ok_0),
    };
    assert(p_term_loop(toks, i, acc) == p_term_loop(toks, j, first));
}

/// Left associativity at the `comparison` level.
pub proof fn lemma_comparison_left_assoc(toks: Seq<TokenV>, i: int, acc: ExprV)
    requires
        0 <= i < toks.len(),
        is_comparison_op(toks[i].token_type),
        p_term(toks, i + 1).0 is Ok,
        p_term(toks, i + 1).1 < toks.len(),
        is_comparison_op(toks[p_term(toks, i + 1).1].token_type),
        p_term(toks, p_term(toks, i + 1).1 + 1).0 is Ok,
    ensures
        ({
            let (r1, j) = p_term(toks, i + 1);
            let (r2, k) = p_term(toks, j + 1);
            p_comparison_loop(toks, i, acc) == p_comparison_loop(
                toks,
                k,
                ExprV::Binary {
                    left: Box::new(
                        ExprV::Binary {
                            left: Box::new(acc),
                            operator: toks[i],
                            right: Box::new(r1->Ok_0),
                        },
                    ),
                    operator: toks[j],
                    right: Box::new(r2->Ok_0),
                },
            )
        }),
{
    lemma_term_bounds(toks, i + 1);
    let (r1, j) = p_term(toks, i + 1);
    lemma_term_bounds(toks, j + 1);
    let first = ExprV::Binary {
        left: Box::new(acc),
        operator: toks[i],
        right: Box::new(r1->Ok_0),
    };
    assert(p_comparison_loop(toks, i, acc) == p_comparison_loop(toks, j, first));
}

/// Left associativity at the `equality` level.
pub proof fn lemma_equality_left_assoc(toks: Seq<TokenV>, i: int, acc: ExprV)
    requires
        0 <= i < toks.len(),
        is_equality_op(toks[i].token_type),
        p_comparison(toks, i + 1).0 is Ok,
        p_comparison(toks, i + 1).1 < toks.len(),
        is_equality_op(toks[p_comparison(toks, i + 1).1].token_type),
        p_comparison(toks, p_comparison(toks, i + 1).1 + 1).0 is Ok,
    ensures
        ({
            let (r1, j) = p_comparison(toks, i + 1);
            let (r2, k) = p_comparison(toks, j + 1);
            p_equality_loop(toks, i, acc) == p_equality_loop(
                toks,
                k,
                ExprV::Binary {
                    left: Box::new(
                        ExprV::Binary {
                            left: Box::new(acc),
                            operator: toks[i],
                            right: Box::new(r1->Ok_0),
                        },
                    ),
                    operator: toks[j],
                    right: Box::new(r2->Ok_0),
                },
            )
        }),
{
    lemma_comparison_bounds(toks, i + 1);
    let (r1, j) = p_comparison(toks, i + 1);
    lemma_comparison_bounds(toks, j + 1);
    let first = ExprV::Binary {
        left: Box::new(acc),
        operator: toks[i],
        right: Box::new(r1->Ok_0),
    };
    assert(p_equality_loop(toks, i, acc) == p_equality_loop(toks, j, first));
}

/// A non-negative number literal written back out by the printer scans
/// and parses to the same literal again: the printer, the scanner and
/// the parser agree on numbers.
pub proof fn lemma_number_literal_round_trip(n: i64)
    requires
        0 <= n,
    ensures
        ({
            let e = ExprV::Literal { value: LiteralKindV::Num(n) };
            match crate::scanner::scan_from(crate::ast::print_expr(e), 0, 1) {
                Ok(toks) => p_expression(toks, 0) == (Ok::<ExprV, ParseError>(e), 1int),
                Err(_) => false,
            }
        }),
{
    let e = ExprV::Literal { value: LiteralKindV::Num(n) };
    let s = crate::text::dec_digits(n as int);
    assert(crate::ast::print_expr(e) == s);
    crate::text::lemma_dec_digits_are_digits(n as int);
    crate::scanner::lemma_digits_end_all_digits(s, 0);
    crate::text::lemma_dec_digits_value(n as int);
    assert(s.subrange(0, s.len() as int) =~= s);
    assert(crate::scanner::is_digit(s[0]));
    let numtok = TokenV { token_type: TokenTypeV::Num(n), line: 1 };
    let eoftok = TokenV { token_type: TokenTypeV::Eof, line: 1 };
    assert(crate::scanner::scan_step(s, 0, 1) == Ok::<
        (Option<TokenV>, int, usize),
        crate::scanner::LexError,
    >((Some(numtok), s.len() as int, 1)));
    assert(crate::scanner::scan_from(s, s.len() as int, 1) == Ok::<
        Seq<TokenV>,
        crate::scanner::LexError,
    >(seq![eoftok]));
    let toks = seq![numtok, eoftok];
    assert(seq![numtok] + seq![eoftok] =~= toks);
    assert(crate::scanner::scan_from(s, 0, 1) == Ok::<Seq<TokenV>, crate::scanner::LexError>(
        toks,
    ));
    assert(p_primary(toks, 0) == (Ok::<ExprV, ParseError>(e), 1int));
    assert(p_unary(toks, 0) == (Ok::<ExprV, ParseError>(e), 1int));
    assert(p_factor_loop(toks, 1, e) == (Ok::<ExprV, ParseError>(e), 1int));
    assert(p_factor(toks, 0) == (Ok::<ExprV, ParseError>(e), 1int));
    assert(p_term_loop(toks, 1, e) == (Ok::<ExprV, ParseError>(e), 1int));
    assert(p_term(toks, 0) == (Ok::<ExprV, ParseError>(e), 1int));
    assert(p_comparison_loop(toks, 1, e) == (Ok::<ExprV, ParseError>(e), 1int));
    assert(p_comparison(toks, 0) == (Ok::<ExprV, ParseError>(e), 1int));
    assert(p_equality_loop(toks, 1, e) == (Ok::<ExprV, ParseError>(e), 1int));
    assert(p_equality(toks, 0) == (Ok::<ExprV, ParseError>(e), 1int));
}

/// The parser: an owned token list and a single cursor into it.
pub struct Parser {
    pub tokens: Vec<Token>,
    pub current: usize,
}

impl Parser {
    /// A fresh parser positioned at the start of the token list.
    pub fn from_tokens(tokens: Vec<Token>) -> (r: Parser)
        ensures
            r.tokens@ == tokens@,
            r.current == 0,
    {
        Parser { tokens, current: 0 }
    }

    /// Whether the next token's kind equals the given one, payload
    /// included; the cursor does not move.
    fn check(&self, token_type: &TokenType) -> (r: bool)
        ensures
            r == (self.current < self.tokens@.len() && tokens_view(self.tokens@)[
                self.current as int
            ].token_type == token_type@),
    {
        if self.current < self.tokens.len() {
            self.tokens[self.current].token_type == *token_type
        } else {
            false
        }
    }

    /// Returns the next token and moves past it, or nothing at the end
    /// of the token list.
    fn advance(&mut self) -> (r: Option<Token>)
        ensures
            final(self).tokens@ == old(self).tokens@,
            if old(self).current < old(self).tokens@.len() {
                &&& r matches Some(t) && t@ == tokens_view(old(self).tokens@)[
                    old(self).current as int
                ]
                &&& final(self).current == old(self).current + 1
            } else {
                r is None && final(self).current == old(self).current
            },
    {
        if self.current < self.tokens.len() {
            let t = self.tokens[self.current].clone();
            self.current = self.current + 1;
            Some(t)
        } else {
            None
        }
    }

    /// Demands the next token to be of the given kind: returns it and
    /// moves past it, or reports the offending token's line.
    fn consume(&mut self, token_type: &TokenType) -> (r: Result<Token, ParseError>)
        ensures
            final(self).tokens@ == old(self).tokens@,
            ({
                let tv = tokens_view(old(self).tokens@);
                let i = old(self).current as int;
                if i < tv.len() && tv[i].token_type == token_type@ {
                    &&& r matches Ok(t) && t@ == tv[i]
                    &&& final(self).current == old(self).current + 1
                } else if i < tv.len() {
                    &&& r matches Err(e) && e == (ParseError {
                        line: tv[i].line,
                        kind: ParseErrorKind::MissingToken,
                    })
                    &&& final(self).current == old(self).current
                } else {
                    &&& r matches Err(e) && e == (ParseError {
                        line: 0,
                        kind: ParseErrorKind::UnexpectedEnd,
                    })
                    &&& final(self).current == old(self).current
                }
            }),
    {
        if self.check(token_type) {
            match self.advance() {
                Some(t) => Ok(t),
                None => vstd::pervasive::unreached(),
            }
        } else if self.current < self.tokens.len() {
            Err(ParseError { line: self.tokens[self.current].line, kind: ParseErrorKind::MissingToken })
        } else {
            Err(ParseError { line: 0, kind: ParseErrorKind::UnexpectedEnd })
        }
    }

    /// `primary`, exactly as `p_primary` describes it.
    fn primary(&mut self) -> (r: Result<Expr, ParseError>)
        requires
            old(self).current <= old(self).tokens@.len(),
        ensures
            final(self).tokens@ == old(self).tokens@,
            final(self).current <= final(self).tokens@.len(),
            ({
                let (res, j) = p_primary(tokens_view(old(self).tokens@), old(self).current as int);
                &&& final(self).current as int == j
                &&& match res {
                    Ok(ev) => r matches Ok(e) && e@ == ev,
                    Err(pe) => r matches Err(e2) && e2 == pe,
                }
            }),
        decreases self.tokens@.len() - self.current, 1int,
    {
        let ghost tv = tokens_view(self.tokens@);
        let ghost i0 = self.current as int;
        match self.advance() {
            None => Err(ParseError { line: 0, kind: ParseErrorKind::UnexpectedEnd }),
            Some(token) => match token.token_type {
                TokenType::True => Ok(Expr::Literal { value: LiteralKind::Bool(true) }),
                TokenType::False => Ok(Expr::Literal { value: LiteralKind::Bool(false) }),
                TokenType::Nil => Ok(Expr::Literal { value: LiteralKind::Nil }),
                TokenType::Num(n) => Ok(Expr::Literal { value: LiteralKind::Num(n) }),
                TokenType::Str(s) => Ok(Expr::Literal { value: LiteralKind::Str(s) }),
                TokenType::LeftParen => {
                    let inner = match self.expression() {
                        Ok(e) => e,
                        Err(e) => {
                            return Err(e);
                        },
                    };
                    match self.consume(&TokenType::RightParen) {
                        Ok(_) => Ok(Expr::Grouping { expr: Box::new(inner) }),
                        Err(e) => Err(e),
                    }
                },
                _ => Err(ParseError { line: token.line, kind: ParseErrorKind::UnexpectedToken }),
            },
        }
    }

    /// `unary`, exactly as `p_unary` describes it.
    fn unary(&mut self) -> (r: Result<Expr, ParseError>)
        requires
            old(self).current <= old(self).tokens@.len(),
        ensures
            final(self).tokens@ == old(self).tokens@,
            final(self).current <= final(self).tokens@.len(),
            ({
                let (res, j) = p_unary(tokens_view(old(self).tokens@), old(self).current as int);
                &&& final(self).current as int == j
                &&& match res {
                    Ok(ev) => r matches Ok(e) && e@ == ev,
                    Err(pe) => r matches Err(e2) && e2 == pe,
                }
            }),
        decreases self.tokens@.len() - self.current, 2int,
    {
        if self.check(&TokenType::Bang) || self.check(&TokenType::Minus) {
            let operator = match self.advance() {
                Some(t) => t,
                None => vstd::pervasive::unreached(),
            };
            let right = match self.unary() {
                Ok(e) => e,
                Err(e) => {
                    return Err(e);
                },
            };
            Ok(Expr::Unary { operator, right: Box::new(right) })
        } else {
            self.primary()
        }
    }

    /// `factor`, exactly as `p_factor` describes it: a left fold over
    /// `/` and `*`.
    fn factor(&mut self) -> (r: Result<Expr, ParseError>)
        requires
            old(self).current <= old(self).tokens@.len(),
        ensures
            final(self).tokens@ == old(self).tokens@,
            final(self).current <= final(self).tokens@.len(),
            ({
                let (res, j) = p_factor(tokens_view(old(self).tokens@), old(self).current as int);
                &&& final(self).current as int == j
                &&& match res {
                    Ok(ev) => r matches Ok(e) && e@ == ev,
                    Err(pe) => r matches Err(e2) && e2 == pe,
                }
            }),
        decreases self.tokens@.len() - self.current, 4int,
    {
        let ghost tv = tokens_view(self.tokens@);
        let ghost i0 = self.current as int;
        let mut expr = match self.unary() {
            Ok(e) => e,
            Err(e) => {
                return Err(e);
            },
        };
        proof {
            lemma_unary_bounds(tv, i0);
        }
        while self.check(&TokenType::Slash) || self.check(&TokenType::Star)
            invariant
                self.tokens@ == old(self).tokens@,
                tv == tokens_view(self.tokens@),
                i0 == old(self).current as int,
                0 <= i0 <= self.current as int <= tv.len(),
                p_factor(tv, i0) == p_factor_loop(tv, self.current as int, expr@),
            decreases tv.len() - self.current,
        {
            let ghost cur = self.current as int;
            let operator = match self.advance() {
                Some(t) => t,
                None => vstd::pervasive::unreached(),
            };
            let right = match self.unary() {
                Ok(e) => e,
                Err(e) => {
                    return Err(e);
                },
            };
            proof {
                lemma_unary_bounds(tv, cur + 1);
            }
            expr = Expr::Binary { left: Box::new(expr), operator, right: Box::new(right) };
        }
        Ok(expr)
    }

    /// `term`, exactly as `p_term` describes it: a left fold over `-`
    /// and `+`.
    fn term(&mut self) -> (r: Result<Expr, ParseError>)
        requires
            old(self).current <= old(self).tokens@.len(),
        ensures
            final(self).tokens@ == old(self).tokens@,
            final(self).current <= final(self).tokens@.len(),
            ({
                let (res, j) = p_term(tokens_view(old(self).tokens@), old(self).current as int);
                &&& final(self).current as int == j
                &&& match res {
                    Ok(ev) => r matches Ok(e) && e@ == ev,
                    Err(pe) => r matches Err(e2) && e2 == pe,
                }
            }),
        decreases self.tokens@.len() - self.current, 6int,
    {
        let ghost tv = tokens_view(self.tokens@);
        let ghost i0 = self.current as int;
        let mut expr = match self.factor() {
            Ok(e) => e,
            Err(e) => {
                return Err(e);
            },
        };
        proof {
            lemma_factor_bounds(tv, i0);
        }
        while self.check(&TokenType::Minus) || self.check(&TokenType::Plus)
            invariant
                self.tokens@ == old(self).tokens@,
                tv == tokens_view(self.tokens@),
                i0 == old(self).current as int,
                0 <= i0 <= self.current as int <= tv.len(),
                p_term(tv, i0) == p_term_loop(tv, self.current as int, expr@),
            decreases tv.len() - self.current,
        {
            let ghost cur = self.current as int;
            let operator = match self.advance() {
                Some(t) => t,
                None => vstd::pervasive::unreached(),
            };
            let right = match self.factor() {
                Ok(e) => e,
                Err(e) => {
                    return Err(e);
                },
            };
            proof {
                lemma_factor_bounds(tv, cur + 1);
            }
            expr = Expr::Binary { left: Box::new(expr), operator, right: Box::new(right) };
        }
        Ok(expr)
    }

    /// `comparison`, exactly as `p_comparison` describes it: a left fold
    /// over `>`, `>=`, `<` and `<=`.
    fn comparison(&mut self) -> (r: Result<Expr, ParseError>)
        requires
            old(self).current <= old(self).tokens@.len(),
        ensures
            final(self).tokens@ == old(self).tokens@,
            final(self).current <= final(self).tokens@.len(),
            ({
                let (res, j) = p_comparison(
                    tokens_view(old(self).tokens@),
                    old(self).current as int,
                );
                &&& final(self).current as int == j
                &&& match res {
                    Ok(ev) => r matches Ok(e) && e@ == ev,
                    Err(pe) => r matches Err(e2) && e2 == pe,
                }
            }),
        decreases self.tokens@.len() - self.current, 8int,
    {
        let ghost tv = tokens_view(self.tokens@);
        let ghost i0 = self.current as int;
        let mut expr = match self.term() {
            Ok(e) => e,
            Err(e) => {
                return Err(e);
            },
        };
        proof {
            lemma_term_bounds(tv, i0);
        }
        while self.check(&TokenType::Greater) || self.check(&TokenType::GreaterEq) || self.check(
            &TokenType::Less,
        ) || self.check(&TokenType::LessEq)
            invariant
                self.tokens@ == old(self).tokens@,
                tv == tokens_view(self.tokens@),
                i0 == old(self).current as int,
                0 <= i0 <= self.current as int <= tv.len(),
                p_comparison(tv, i0) == p_comparison_loop(tv, self.current as int, expr@),
            decreases tv.len() - self.current,
        {
            let ghost cur = self.current as int;
            let operator = match self.advance() {
                Some(t) => t,
                None => vstd::pervasive::unreached(),
            };
            let right = match self.term() {
                Ok(e) => e,
                Err(e) => {
                    return Err(e);
                },
            };
            proof {
                lemma_term_bounds(tv, cur + 1);
            }
            expr = Expr::Binary { left: Box::new(expr), operator, right: Box::new(right) };
        }
        Ok(expr)
    }

    /// `equality`, exactly as `p_equality` describes it: a left fold
    /// over `!=` and `==`.
    #[verifier::rlimit(50)]
    fn equality(&mut self) -> (r: Result<Expr, ParseError>)
        requires
            old(self).current <= old(self).tokens@.len(),
        ensures
            final(self).tokens@ == old(self).tokens@,
            final(self).current <= final(self).tokens@.len(),
            ({
                let (res, j) = p_equality(tokens_view(old(self).tokens@), old(self).current as int);
                &&& final(self).current as int == j
                &&& match res {
                    Ok(ev) => r matches Ok(e) && e@ == ev,
                    Err(pe) => r matches Err(e2) && e2 == pe,
                }
            }),
        decreases self.tokens@.len() - self.current, 10int,
    {
        let ghost tv = tokens_view(self.tokens@);
        let ghost i0 = self.current as int;
        let mut expr = match self.comparison() {
            Ok(e) => e,
            Err(e) => {
                return Err(e);
            },
        };
        proof {
            lemma_comparison_bounds(tv, i0);
        }
        while self.check(&TokenType::BangEq) || self.check(&TokenType::EqEq)
            invariant
                self.tokens@ == old(self).tokens@,
                tv == tokens_view(self.tokens@),
                i0 == old(self).current as int,
                0 <= i0 <= self.current as int <= tv.len(),
                p_equality(tv, i0) == p_equality_loop(tv, self.current as int, expr@),
            decreases tv.len() - self.current,
        {
            let ghost cur = self.current as int;
            let operator = match self.advance() {
                Some(t) => t,
                None => vstd::pervasive::unreached(),
            };
            let right = match self.comparison() {
                Ok(e) => e,
                Err(e) => {
                    return Err(e);
                },
            };
            proof {
                lemma_comparison_bounds(tv, cur + 1);
            }
            expr = Expr::Binary { left: Box::new(expr), operator, right: Box::new(right) };
        }
        Ok(expr)
    }

    /// `expression`, the whole grammar.
    fn expression(&mut self) -> (r: Result<Expr, ParseError>)
        requires
            old(self).current <= old(self).tokens@.len(),
        ensures
            final(self).tokens@ == old(self).tokens@,
            final(self).current <= final(self).tokens@.len(),
            ({
                let (res, j) = p_expression(
                    tokens_view(old(self).tokens@),
                    old(self).current as int,
                );
                &&& final(self).current as int == j
                &&& match res {
                    Ok(ev) => r matches Ok(e) && e@ == ev,
                    Err(pe) => r matches Err(e2) && e2 == pe,
                }
            }),
        decreases self.tokens@.len() - self.current, 11int,
    {
        self.equality()
    }

    /// Parses one expression from the cursor onwards: the result is
    /// exactly what the grammar's model `p_expression` gives on the
    /// token list.  Tokens after the expression are left unconsumed.
    pub fn parse(&mut self) -> (r: Result<Expr, ParseError>)
        requires
            old(self).current <= old(self).tokens@.len(),
        ensures
            final(self).tokens@ == old(self).tokens@,
            ({
                let (res, j) = p_expression(
                    tokens_view(old(self).tokens@),
                    old(self).current as int,
                );
                &&& final(self).current as int == j
                &&& match res {
                    Ok(ev) => r matches Ok(e) && e@ == ev,
                    Err(pe) => r matches Err(e2) && e2 == pe,
                }
            }),
    {
        self.expression()
    }
}

} // verus!
