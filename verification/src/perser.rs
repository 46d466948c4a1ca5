use vstd::prelude::*;

use crate::error::LoxError;
use crate::error::LoxErrorKind;
use crate::error::SpecError;
use crate::expr::BinaryExpr;
use crate::expr::Expr;
use crate::expr::GroupingExpr;
use crate::expr::LiteralExpr;
use crate::expr::SpecExpr;
use crate::expr::UnaryExpr;
use crate::object::Object;
use crate::object::SpecObject;
use crate::token_type::TokenType;
use crate::tokens::lit_consistent;
use crate::tokens::literals_wf;
use crate::tokens::tokens_wf;
use crate::tokens::SpecToken;
use crate::tokens::Token;

verus! {

/// The outcome of one grammar rule: the parsed tree and the position just
/// past it, or the first fatal error.
pub type ParseOutcome = Result<(SpecExpr, int), SpecError>;

/// The error for a token that can begin no expression.
pub open spec fn expected_expression_err(t: Seq<SpecToken>, i: int) -> SpecError
    recommends
        0 <= i < t.len(),
{
    SpecError { kind: LoxErrorKind::ExpectedExpression, line: t[i].line, token: Some(t[i]) }
}

/// The error for a missing required token of category `expected`.
pub open spec fn expected_token_err(expected: TokenType, t: Seq<SpecToken>, i: int) -> SpecError
    recommends
        0 <= i < t.len(),
{
    SpecError { kind: LoxErrorKind::ExpectedToken(expected), line: t[i].line, token: Some(t[i]) }
}

/// The error value of positions the grammar never reaches on well-formed
/// token sequences: every operand consumes at least one token and stays
/// inside the input (`lemma_shape_expression` and its companions below), so
/// the range guards on the recursions are always satisfied.
pub open spec fn stuck_error() -> SpecError {
    arbitrary()
}

/// `expression -> equality`: the whole expression grammar.
pub open spec fn p_expression(t: Seq<SpecToken>, i: int) -> ParseOutcome
    decreases t.len() - i, 10int,
{
    p_equality(t, i)
}

/// `equality -> comparison ( ( "!=" | "==" ) comparison )*`.
pub open spec fn p_equality(t: Seq<SpecToken>, i: int) -> ParseOutcome
    decreases t.len() - i, 9int,
{
    match p_comparison(t, i) {
        Ok((e, j)) => if i < j <= t.len() {
            p_equality_rest(t, e, j)
        } else {
            Err(stuck_error())
        },
        Err(e) => Err(e),
    }
}

/// The left-associative fold of further `!=` / `==` operands onto `e`.
pub open spec fn p_equality_rest(t: Seq<SpecToken>, e: SpecExpr, j: int) -> ParseOutcome
    decreases t.len() - j, 8int,
{
    if 0 <= j && j < t.len() && (t[j].kind == TokenType::BangEqual || t[j].kind
        == TokenType::EqualEqual) {
        let op = t[j];
        match p_comparison(t, j + 1) {
            Ok((r, k)) => if j < k <= t.len() {
                p_equality_rest(
                    t,
                    SpecExpr::Binary { left: Box::new(e), op, right: Box::new(r) },
                    k,
                )
            } else {
                Err(stuck_error())
            },
            Err(e2) => Err(e2),
        }
    } else {
        Ok((e, j))
    }
}

/// `comparison -> term ( ( ">" | ">=" | "<" | "<=" ) term )*`.
pub open spec fn p_comparison(t: Seq<SpecToken>, i: int) -> ParseOutcome
    decreases t.len() - i, 7int,
{
    match p_term(t, i) {
        Ok((e, j)) => if i < j <= t.len() {
            p_comparison_rest(t, e, j)
        } else {
            Err(stuck_error())
        },
        Err(e) => Err(e),
    }
}

/// The left-associative fold of further comparison operands onto `e`.
pub open spec fn p_comparison_rest(t: Seq<SpecToken>, e: SpecExpr, j: int) -> ParseOutcome
    decreases t.len() - j, 6int,
{
    if 0 <= j && j < t.len() && (t[j].kind == TokenType::Greater || t[j].kind
        == TokenType::GreaterEqual || t[j].kind == TokenType::Less || t[j].kind
        == TokenType::LessEqual) {
        let op = t[j];
        match p_term(t, j + 1) {
            Ok((r, k)) => if j < k <= t.len() {
                p_comparison_rest(
                    t,
                    SpecExpr::Binary { left: Box::new(e), op, right: Box::new(r) },
                    k,
                )
            } else {
                Err(stuck_error())
            },
            Err(e2) => Err(e2),
        }
    } else {
        Ok((e, j))
    }
}

/// `term -> factor ( ( "-" | "+" ) factor )*`.
pub open spec fn p_term(t: Seq<SpecToken>, i: int) -> ParseOutcome
    decreases t.len() - i, 5int,
{
    match p_factor(t, i) {
        Ok((e, j)) => if i < j <= t.len() {
            p_term_rest(t, e, j)
        } else {
            Err(stuck_error())
        },
        Err(e) => Err(e),
    }
}

/// The left-associative fold of further `-` / `+` operands onto `e`.
pub open spec fn p_term_rest(t: Seq<SpecToken>, e: SpecExpr, j: int) -> ParseOutcome
    decreases t.len() - j, 4int,
{
    if 0 <= j && j < t.len() && (t[j].kind == TokenType::Minus || t[j].kind == TokenType::Plus) {
        let op = t[j];
        match p_factor(t, j + 1) {
            Ok((r, k)) => if j < k <= t.len() {
                p_term_rest(t, SpecExpr::Binary { left: Box::new(e), op, right: Box::new(r) }, k)
            } else {
                Err(stuck_error())
            },
            Err(e2) => Err(e2),
        }
    } else {
        Ok((e, j))
    }
}

/// `factor -> unary ( ( "/" | "*" ) unary )*`.
pub open spec fn p_factor(t: Seq<SpecToken>, i: int) -> ParseOutcome
    decreases t.len() - i, 3int,
{
    match p_unary(t, i) {
        Ok((e, j)) => if i < j <= t.len() {
            p_factor_rest(t, e, j)
        } else {
            Err(stuck_error())
        },
        Err(e) => Err(e),
    }
}

/// The left-associative fold of further `/` / `*` operands onto `e`.
pub open spec fn p_factor_rest(t: Seq<SpecToken>, e: SpecExpr, j: int) -> ParseOutcome
    decreases t.len() - j, 2int,
{
    if 0 <= j && j < t.len() && (t[j].kind == TokenType::Slash || t[j].kind == TokenType::Star) {
        let op = t[j];
        match p_unary(t, j + 1) {
            Ok((r, k)) => if j < k <= t.len() {
                p_factor_rest(t, SpecExpr::Binary { left: Box::new(e), op, right: Box::new(r) }, k)
            } else {
                Err(stuck_error())
            },
            Err(e2) => Err(e2),
        }
    } else {
        Ok((e, j))
    }
}

/// `unary -> ( "!" | "-" ) unary | primary`: right-associative by direct
/// recursion on the operand.
pub open spec fn p_unary(t: Seq<SpecToken>, i: int) -> ParseOutcome
    decreases t.len() - i, 1int,
{
    if 0 <= i && i < t.len() && (t[i].kind == TokenType::Bang || t[i].kind == TokenType::Minus) {
        let op = t[i];
        match p_unary(t, i + 1) {
            Ok((r, k)) => Ok((SpecExpr::Unary { op, right: Box::new(r) }, k)),
            Err(e) => Err(e),
        }
    } else {
        p_primary(t, i)
    }
}

/// `primary -> NUMBER | STRING | "true" | "false" | "nil" | "(" expression
/// ")"`.  Any other token is a fatal `ExpectedExpression` error; a `(` whose
/// expression is not followed by `)` is a fatal `ExpectedToken` error.
pub open spec fn p_primary(t: Seq<SpecToken>, i: int) -> ParseOutcome
    decreases t.len() - i, 0int,
{
    if 0 <= i && i < t.len() {
        let tok = t[i];
        if tok.kind == TokenType::False {
            Ok((SpecExpr::Literal { value: Some(SpecObject::False) }, i + 1))
        } else if tok.kind == TokenType::True {
            Ok((SpecExpr::Literal { value: Some(SpecObject::True) }, i + 1))
        } else if tok.kind == TokenType::Nil {
            Ok((SpecExpr::Literal { value: Some(SpecObject::Nil) }, i + 1))
        } else if tok.kind == TokenType::Number || tok.kind == TokenType::Str {
            Ok((SpecExpr::Literal { value: tok.literal }, i + 1))
        } else if tok.kind == TokenType::LeftParen {
            match p_expression(t, i + 1) {
                Ok((e, j)) => if 0 <= j && j < t.len() {
                    if t[j].kind == TokenType::RightParen {
                        Ok((SpecExpr::Grouping { inner: Box::new(e) }, j + 1))
                    } else {
                        Err(expected_token_err(TokenType::RightParen, t, j))
                    }
                } else {
                    Err(stuck_error())
                },
                Err(e) => Err(e),
            }
        } else {
            Err(expected_expression_err(t, i))
        }
    } else {
        Err(stuck_error())
    }
}

/// The whole parse: one maximal expression that must consume the full token
/// stream up to (but not including) the end marker; anything left over is a
/// fatal error naming the end marker as the required token.
pub open spec fn p_parse(t: Seq<SpecToken>) -> Result<SpecExpr, SpecError> {
    match p_expression(t, 0) {
        Ok((e, j)) => if 0 <= j && j < t.len() {
            if t[j].kind == TokenType::Eof {
                Ok(e)
            } else {
                Err(expected_token_err(TokenType::Eof, t, j))
            }
        } else {
            Err(stuck_error())
        },
        Err(e) => Err(e),
    }
}

// ---------------------------------------------------------------------------
// Shape of every parsed tree: precedence-correct, and a faithful yield
// ---------------------------------------------------------------------------
/// The binding level of a binary operator's category: `/ *` bind tightest,
/// then `- +`, then the comparisons, then `!= ==`; anything else is no
/// binary operator.
pub open spec fn op_level(k: TokenType) -> int {
    if k == TokenType::Slash || k == TokenType::Star {
        2
    } else if k == TokenType::Minus || k == TokenType::Plus {
        3
    } else if k == TokenType::Greater || k == TokenType::GreaterEqual || k == TokenType::Less || k
        == TokenType::LessEqual {
        4
    } else if k == TokenType::BangEqual || k == TokenType::EqualEqual {
        5
    } else {
        -1
    }
}

/// A tree is precedence-correct at binding level `lvl` (0 primary, 1 unary,
/// 2 factor, 3 term, 4 comparison, 5 equality): a binary node's operator
/// binds no looser than `lvl`, its left operand may sit at the same level
/// (left-associativity) while its right operand must bind strictly tighter;
/// a unary node's operand is again unary; a grouping resets the level.
pub open spec fn wf_prec(e: SpecExpr, lvl: int) -> bool
    decreases e,
{
    match e {
        SpecExpr::Literal { .. } => true,
        SpecExpr::Grouping { inner } => wf_prec(*inner, 5),
        SpecExpr::Unary { op, right } => lvl >= 1 && (op.kind == TokenType::Bang || op.kind
            == TokenType::Minus) && wf_prec(*right, 1),
        SpecExpr::Binary { left, op, right } => {
            &&& 2 <= op_level(op.kind) <= lvl
            &&& wf_prec(*left, op_level(op.kind))
            &&& wf_prec(*right, op_level(op.kind) - 1)
        },
    }
}

/// The token category a literal node came from.
pub open spec fn lit_kind(v: Option<SpecObject>) -> TokenType {
    match v {
        Some(SpecObject::Num(_)) => TokenType::Number,
        Some(SpecObject::Str(_)) => TokenType::Str,
        Some(SpecObject::True) => TokenType::True,
        Some(SpecObject::False) => TokenType::False,
        Some(SpecObject::Nil) => TokenType::Nil,
        None => TokenType::Nil,
    }
}

/// The token categories a tree was built from, in source order: its yield.
pub open spec fn yield_kinds(e: SpecExpr) -> Seq<TokenType>
    decreases e,
{
    match e {
        SpecExpr::Literal { value } => seq![lit_kind(value)],
        SpecExpr::Grouping { inner } => seq![TokenType::LeftParen] + yield_kinds(*inner) + seq![
            TokenType::RightParen,
        ],
        SpecExpr::Unary { op, right } => seq![op.kind] + yield_kinds(*right),
        SpecExpr::Binary { left, op, right } => yield_kinds(*left) + seq![op.kind] + yield_kinds(
            *right,
        ),
    }
}

/// The categories of a token sequence.
pub open spec fn kinds_of(t: Seq<SpecToken>) -> Seq<TokenType> {
    t.map_values(|tok: SpecToken| tok.kind)
}

/// Precedence-correctness is monotone in the level.
pub proof fn lemma_wf_prec_mono(e: SpecExpr, l1: int, l2: int)
    requires
        wf_prec(e, l1),
        l1 <= l2,
    ensures
        wf_prec(e, l2),
{
}

/// Splitting a token range at a single token splits its categories.
proof fn lemma_kinds_concat(t: Seq<SpecToken>, i: int, j: int, k: int)
    requires
        0 <= i <= j < k <= t.len(),
    ensures
        kinds_of(t.subrange(i, k)) =~= kinds_of(t.subrange(i, j)) + seq![t[j].kind] + kinds_of(
            t.subrange(j + 1, k),
        ),
{
}

/// Peeling the first token off a range peels its category.
proof fn lemma_kinds_cons(t: Seq<SpecToken>, i: int, k: int)
    requires
        0 <= i < k <= t.len(),
    ensures
        kinds_of(t.subrange(i, k)) =~= seq![t[i].kind] + kinds_of(t.subrange(i + 1, k)),
{
}

/// Wrapping a range in its first and last tokens wraps its categories.
proof fn lemma_kinds_wrap(t: Seq<SpecToken>, i: int, j: int)
    requires
        0 <= i < j < t.len(),
    ensures
        kinds_of(t.subrange(i, j + 1)) =~= seq![t[i].kind] + kinds_of(t.subrange(i + 1, j))
            + seq![t[j].kind],
{
}

/// Shape of a successful `primary`: it consumes at least one token, never
/// the end marker, yields a tree that is precedence-correct at the primary
/// level, and the tree's yield is exactly the consumed tokens.
proof fn lemma_shape_primary(t: Seq<SpecToken>, i: int)
    requires
        tokens_wf(t),
        literals_wf(t),
    ensures
        match p_primary(t, i) {
            Ok((e, j)) => i < j < t.len() && wf_prec(e, 0) && yield_kinds(e) == kinds_of(
                t.subrange(i, j),
            ),
            Err(_) => true,
        },
    decreases t.len() - i, 0int,
{
    if 0 <= i && i < t.len() {
        let tok = t[i];
        if tok.kind == TokenType::False || tok.kind == TokenType::True || tok.kind
            == TokenType::Nil || tok.kind == TokenType::Number || tok.kind == TokenType::Str {
            if let Ok((e, j)) = p_primary(t, i) {
                assert(lit_consistent(t[i]));
                assert(yield_kinds(e) =~= kinds_of(t.subrange(i, j)));
                assert(t.last().kind == TokenType::Eof);
            }
        } else if tok.kind == TokenType::LeftParen {
            lemma_shape_expression(t, i + 1);
            match p_expression(t, i + 1) {
                Ok((e0, j0)) => {
                    if 0 <= j0 && j0 < t.len() && t[j0].kind == TokenType::RightParen {
                        lemma_kinds_wrap(t, i, j0);
                        if let Ok((e, j)) = p_primary(t, i) {
                            assert(yield_kinds(e) == kinds_of(t.subrange(i, j)));
                        }
                    }
                },
                Err(_) => {},
            }
        }
    }
}

/// Shape of a successful `unary`: precedence-correct at the unary level,
/// with a faithful yield.
proof fn lemma_shape_unary(t: Seq<SpecToken>, i: int)
    requires
        tokens_wf(t),
        literals_wf(t),
    ensures
        match p_unary(t, i) {
            Ok((e, j)) => i < j < t.len() && wf_prec(e, 1) && yield_kinds(e) == kinds_of(
                t.subrange(i, j),
            ),
            Err(_) => true,
        },
    decreases t.len() - i, 1int,
{
    if 0 <= i && i < t.len() && (t[i].kind == TokenType::Bang || t[i].kind == TokenType::Minus) {
        lemma_shape_unary(t, i + 1);
        if let Ok((r, k)) = p_unary(t, i + 1) {
            lemma_kinds_cons(t, i, k);
            if let Ok((e, j)) = p_unary(t, i) {
                assert(yield_kinds(e) == kinds_of(t.subrange(i, j)));
            }
        }
    } else {
        lemma_shape_primary(t, i);
        if let Ok((e, j)) = p_primary(t, i) {
            lemma_wf_prec_mono(e, 0, 1);
        }
    }
}

/// Shape of the left-associative fold at the factor level.
proof fn lemma_shape_factor_rest(t: Seq<SpecToken>, e: SpecExpr, i0: int, j: int)
    requires
        tokens_wf(t),
        literals_wf(t),
        0 <= i0 < j < t.len(),
        wf_prec(e, 2),
        yield_kinds(e) == kinds_of(t.subrange(i0, j)),
    ensures
        match p_factor_rest(t, e, j) {
            Ok((e2, k)) => i0 < k < t.len() && j <= k && wf_prec(e2, 2) && yield_kinds(e2)
                == kinds_of(t.subrange(i0, k)),
            Err(_) => true,
        },
    decreases t.len() - j, 2int,
{
    if 0 <= j && j < t.len() && (t[j].kind == TokenType::Slash || t[j].kind == TokenType::Star) {
        lemma_shape_unary(t, j + 1);
        if let Ok((r, k)) = p_unary(t, j + 1) {
            lemma_kinds_concat(t, i0, j, k);
            let e2 = SpecExpr::Binary { left: Box::new(e), op: t[j], right: Box::new(r) };
            assert(yield_kinds(e2) == kinds_of(t.subrange(i0, k)));
            lemma_shape_factor_rest(t, e2, i0, k);
        }
    }
}

/// Shape of a successful `factor`: precedence-correct at the factor level,
/// with a faithful yield.
proof fn lemma_shape_factor(t: Seq<SpecToken>, i: int)
    requires
        tokens_wf(t),
        literals_wf(t),
    ensures
        match p_factor(t, i) {
            Ok((e, j)) => i < j < t.len() && wf_prec(e, 2) && yield_kinds(e) == kinds_of(
                t.subrange(i, j),
            ),
            Err(_) => true,
        },
    decreases t.len() - i, 3int,
{
    lemma_shape_unary(t, i);
    if let Ok((e0, j0)) = p_unary(t, i) {
        lemma_wf_prec_mono(e0, 1, 2);
        lemma_shape_factor_rest(t, e0, i, j0);
    }
}

/// Shape of the left-associative fold at the term level.
proof fn lemma_shape_term_rest(t: Seq<SpecToken>, e: SpecExpr, i0: int, j: int)
    requires
        tokens_wf(t),
        literals_wf(t),
        0 <= i0 < j < t.len(),
        wf_prec(e, 3),
        yield_kinds(e) == kinds_of(t.subrange(i0, j)),
    ensures
        match p_term_rest(t, e, j) {
            Ok((e2, k)) => i0 < k < t.len() && j <= k && wf_prec(e2, 3) && yield_kinds(e2)
                == kinds_of(t.subrange(i0, k)),
            Err(_) => true,
        },
    decreases t.len() - j, 4int,
{
    if 0 <= j && j < t.len() && (t[j].kind == TokenType::Minus || t[j].kind == TokenType::Plus) {
        lemma_shape_factor(t, j + 1);
        if let Ok((r, k)) = p_factor(t, j + 1) {
            lemma_kinds_concat(t, i0, j, k);
            let e2 = SpecExpr::Binary { left: Box::new(e), op: t[j], right: Box::new(r) };
            assert(yield_kinds(e2) == kinds_of(t.subrange(i0, k)));
            lemma_shape_term_rest(t, e2, i0, k);
        }
    }
}

/// Shape of a successful `term`: precedence-correct at the term level,
/// with a faithful yield.
proof fn lemma_shape_term(t: Seq<SpecToken>, i: int)
    requires
        tokens_wf(t),
        literals_wf(t),
    ensures
        match p_term(t, i) {
            Ok((e, j)) => i < j < t.len() && wf_prec(e, 3) && yield_kinds(e) == kinds_of(
                t.subrange(i, j),
            ),
            Err(_) => true,
        },
    decreases t.len() - i, 5int,
{
    lemma_shape_factor(t, i);
    if let Ok((e0, j0)) = p_factor(t, i) {
        lemma_wf_prec_mono(e0, 2, 3);
        lemma_shape_term_rest(t, e0, i, j0);
    }
}

/// Shape of the left-associative fold at the comparison level.
proof fn lemma_shape_comparison_rest(t: Seq<SpecToken>, e: SpecExpr, i0: int, j: int)
    requires
        tokens_wf(t),
        literals_wf(t),
        0 <= i0 < j < t.len(),
        wf_prec(e, 4),
        yield_kinds(e) == kinds_of(t.subrange(i0, j)),
    ensures
        match p_comparison_rest(t, e, j) {
            Ok((e2, k)) => i0 < k < t.len() && j <= k && wf_prec(e2, 4) && yield_kinds(e2)
                == kinds_of(t.subrange(i0, k)),
            Err(_) => true,
        },
    decreases t.len() - j, 6int,
{
    if 0 <= j && j < t.len() && (t[j].kind == TokenType::Greater || t[j].kind
        == TokenType::GreaterEqual || t[j].kind == TokenType::Less || t[j].kind
        == TokenType::LessEqual) {
        lemma_shape_term(t, j + 1);
        if let Ok((r, k)) = p_term(t, j + 1) {
            lemma_kinds_concat(t, i0, j, k);
            let e2 = SpecExpr::Binary { left: Box::new(e), op: t[j], right: Box::new(r) };
            assert(yield_kinds(e2) == kinds_of(t.subrange(i0, k)));
            lemma_shape_comparison_rest(t, e2, i0, k);
        }
    }
}

/// Shape of a successful `comparison`: precedence-correct at the comparison
/// level, with a faithful yield.
proof fn lemma_shape_comparison(t: Seq<SpecToken>, i: int)
    requires
        tokens_wf(t),
        literals_wf(t),
    ensures
        match p_comparison(t, i) {
            Ok((e, j)) => i < j < t.len() && wf_prec(e, 4) && yield_kinds(e) == kinds_of(
                t.subrange(i, j),
            ),
            Err(_) => true,
        },
    decreases t.len() - i, 7int,
{
    lemma_shape_term(t, i);
    if let Ok((e0, j0)) = p_term(t, i) {
        lemma_wf_prec_mono(e0, 3, 4);
        lemma_shape_comparison_rest(t, e0, i, j0);
    }
}

/// Shape of the left-associative fold at the equality level.
proof fn lemma_shape_equality_rest(t: Seq<SpecToken>, e: SpecExpr, i0: int, j: int)
    requires
        tokens_wf(t),
        literals_wf(t),
        0 <= i0 < j < t.len(),
        wf_prec(e, 5),
        yield_kinds(e) == kinds_of(t.subrange(i0, j)),
    ensures
        match p_equality_rest(t, e, j) {
            Ok((e2, k)) => i0 < k < t.len() && j <= k && wf_prec(e2, 5) && yield_kinds(e2)
                == kinds_of(t.subrange(i0, k)),
            Err(_) => true,
        },
    decreases t.len() - j, 8int,
{
    if 0 <= j && j < t.len() && (t[j].kind == TokenType::BangEqual || t[j].kind
        == TokenType::EqualEqual) {
        lemma_shape_comparison(t, j + 1);
        if let Ok((r, k)) = p_comparison(t, j + 1) {
            lemma_kinds_concat(t, i0, j, k);
            let e2 = SpecExpr::Binary { left: Box::new(e), op: t[j], right: Box::new(r) };
            assert(yield_kinds(e2) == kinds_of(t.subrange(i0, k)));
            lemma_shape_equality_rest(t, e2, i0, k);
        }
    }
}

/// Shape of a successful `equality`: precedence-correct at the equality
/// level, with a faithful yield.
proof fn lemma_shape_equality(t: Seq<SpecToken>, i: int)
    requires
        tokens_wf(t),
        literals_wf(t),
    ensures
        match p_equality(t, i) {
            Ok((e, j)) => i < j < t.len() && wf_prec(e, 5) && yield_kinds(e) == kinds_of(
                t.subrange(i, j),
            ),
            Err(_) => true,
        },
    decreases t.len() - i, 9int,
{
    lemma_shape_comparison(t, i);
    if let Ok((e0, j0)) = p_comparison(t, i) {
        lemma_wf_prec_mono(e0, 4, 5);
        lemma_shape_equality_rest(t, e0, i, j0);
    }
}

/// Shape of a successful `expression`: precedence-correct, with a faithful
/// yield.
proof fn lemma_shape_expression(t: Seq<SpecToken>, i: int)
    requires
        tokens_wf(t),
        literals_wf(t),
    ensures
        match p_expression(t, i) {
            Ok((e, j)) => i < j < t.len() && wf_prec(e, 5) && yield_kinds(e) == kinds_of(
                t.subrange(i, j),
            ),
            Err(_) => true,
        },
    decreases t.len() - i, 10int,
{
    lemma_shape_equality(t, i);
}

/// For every well-formed token sequence, a successful parse produces a
/// precedence-correct tree whose token yield is exactly the full input up
/// to (but not including) the end marker: the tree faithfully represents
/// the whole input, with operator precedence and left-associativity
/// respected.
pub proof fn lemma_parse_precedence(t: Seq<SpecToken>, e: SpecExpr)
    requires
        tokens_wf(t),
        literals_wf(t),
        p_parse(t) == Ok::<SpecExpr, SpecError>(e),
    ensures
        wf_prec(e, 5),
        yield_kinds(e) == kinds_of(t.subrange(0, t.len() - 1)),
{
    lemma_shape_expression(t, 0);
    if let Ok((e0, j)) = p_expression(t, 0) {
        assert(t[j].kind == TokenType::Eof);
        assert(j == t.len() - 1);
    }
}

// ---------------------------------------------------------------------------
// The parser
// ---------------------------------------------------------------------------
/// The recursive-descent expression parser over a scanned token sequence.
///
/// The cursor (`current`) is owned by the parser; end of input is recognized
/// by the end marker token, never by index bounds alone, and the cursor
/// never moves past the end marker.
pub struct Perser {
    tokens: Vec<Token>,
    current: usize,
}

impl Perser {
    /// The models of the tokens being parsed.
    pub closed spec fn toks(&self) -> Seq<SpecToken> {
        self.tokens@.map_values(|t: Token| t@)
    }

    /// The cursor: the position of the next token to consume.
    pub closed spec fn pos(&self) -> int {
        self.current as int
    }

    /// The parser's well-formedness: the token sequence is as the scanner
    /// produces it, and the cursor is at or before the end marker.
    pub closed spec fn wf(&self) -> bool {
        &&& tokens_wf(self.toks())
        &&& self.current < self.tokens@.len()
    }

    /// Builds a parser over a well-formed token sequence, with the cursor
    /// at the beginning.
    pub fn new(tokens: Vec<Token>) -> (p: Perser)
        requires
            tokens_wf(tokens@.map_values(|t: Token| t@)),
        ensures
            p.wf(),
            p.toks() == tokens@.map_values(|t: Token| t@),
            p.pos() == 0,
    {
        Perser { tokens, current: 0 }
    }

    /// The current token, without consuming it.
    fn peek(&self) -> (t: Token)
        requires
            self.wf(),
        ensures
            t@ == self.toks()[self.pos()],
    {
        self.tokens[self.current].clone()
    }

    /// The token just consumed.
    fn previous(&self) -> (t: Token)
        requires
            self.wf(),
            1 <= self.pos(),
        ensures
            t@ == self.toks()[self.pos() - 1],
    {
        self.tokens[self.current - 1].clone()
    }

    /// True exactly when the cursor is at the end marker.
    fn is_at_end(&self) -> (b: bool)
        requires
            self.wf(),
        ensures
            b == (self.toks()[self.pos()].kind == TokenType::Eof),
            b == (self.pos() == self.toks().len() - 1),
    {
        let t = self.peek();
        t.is(&TokenType::Eof)
    }

    /// True exactly when the current token has the given category — always
    /// false at the end of input.
    fn check(&self, ttype: &TokenType) -> (b: bool)
        requires
            self.wf(),
        ensures
            b == (self.toks()[self.pos()].kind == *ttype && self.toks()[self.pos()].kind
                != TokenType::Eof),
    {
        if self.is_at_end() {
            return false;
        }
        let t = self.peek();
        t.is(ttype)
    }

    /// Consumes and returns the current token, which must not be the end
    /// marker.
    fn advance(&mut self) -> (t: Token)
        requires
            old(self).wf(),
            old(self).toks()[old(self).pos()].kind != TokenType::Eof,
        ensures
            final(self).wf(),
            final(self).toks() == old(self).toks(),
            final(self).pos() == old(self).pos() + 1,
            t@ == old(self).toks()[old(self).pos()],
    {
        proof {
            vstd::std_specs::vec::axiom_spec_len(&self.tokens);
        }
        if !self.is_at_end() {
            self.current += 1;
        }
        self.previous()
    }

    /// Consumes the current token exactly when its category is one of the
    /// given ones (and not the end marker).
    fn is_match(&mut self, ttypes: &[TokenType]) -> (b: bool)
        requires
            old(self).wf(),
        ensures
            final(self).wf(),
            final(self).toks() == old(self).toks(),
            b == (old(self).toks()[old(self).pos()].kind != TokenType::Eof
                && ttypes@.contains(old(self).toks()[old(self).pos()].kind)),
            b ==> final(self).pos() == old(self).pos() + 1,
            !b ==> final(self).pos() == old(self).pos(),
    {
        let ghost kind = self.toks()[self.pos()].kind;
        let mut idx: usize = 0;
        while idx < ttypes.len()
            invariant
                self == old(self),
                self.wf(),
                idx <= ttypes@.len(),
                kind == self.toks()[self.pos()].kind,
                forall|k: int| 0 <= k < idx ==> ttypes@[k] != kind || kind == TokenType::Eof,
            decreases ttypes@.len() - idx,
        {
            if self.check(&ttypes[idx]) {
                let _ = self.advance();
                proof {
                    assert(ttypes@.contains(kind));
                }
                return true;
            }
            idx += 1;
        }
        proof {
            assert(!(kind != TokenType::Eof && ttypes@.contains(kind)));
        }
        false
    }

    /// Consumes the current token exactly when it has the given category.
    fn consume(&mut self, ttype: TokenType) -> (r: Option<Token>)
        requires
            old(self).wf(),
        ensures
            final(self).wf(),
            final(self).toks() == old(self).toks(),
            if old(self).toks()[old(self).pos()].kind == ttype && ttype != TokenType::Eof {
                (r matches Some(tk) && tk@ == old(self).toks()[old(self).pos()])
                    && final(self).pos() == old(self).pos() + 1
            } else {
                r is None && final(self).pos() == old(self).pos()
            },
    {
        if self.check(&ttype) {
            return Some(self.advance());
        }
        None
    }

    /// Builds an error at the given offending token.
    fn error(token: Option<Token>, kind: LoxErrorKind) -> (e: LoxError)
        ensures
            e@ == (SpecError {
                kind,
                line: (match token {
                    Some(t) => t.line,
                    None => 0,
                }) as nat,
                token: match token {
                    Some(t) => Some(t@),
                    None => None,
                },
            }),
    {
        LoxError::error(token, kind, 0)
    }

    /// `expression -> equality`.
    fn expression(&mut self) -> (r: Result<Expr, LoxError>)
        requires
            old(self).wf(),
        ensures
            final(self).wf(),
            final(self).toks() == old(self).toks(),
            old(self).pos() <= final(self).pos(),
            r is Ok ==> old(self).pos() < final(self).pos(),
            (match p_expression(old(self).toks(), old(self).pos()) {
                Ok((e, j)) => r matches Ok(ex) && ex@ == e && final(self).pos() == j,
                Err(se) => r matches Err(er) && er@ == se,
            }),
        decreases old(self).tokens@.len() - old(self).current, 10int,
    {
        self.equality()
    }

    /// `equality -> comparison ( ( "!=" | "==" ) comparison )*`, folded
    /// left-associatively.
    fn equality(&mut self) -> (r: Result<Expr, LoxError>)
        requires
            old(self).wf(),
        ensures
            final(self).wf(),
            final(self).toks() == old(self).toks(),
            old(self).pos() <= final(self).pos(),
            r is Ok ==> old(self).pos() < final(self).pos(),
            (match p_equality(old(self).toks(), old(self).pos()) {
                Ok((e, j)) => r matches Ok(ex) && ex@ == e && final(self).pos() == j,
                Err(se) => r matches Err(er) && er@ == se,
            }),
        decreases old(self).tokens@.len() - old(self).current, 9int,
    {
        let ghost t = old(self).toks();
        let ghost i = old(self).pos();
        let mut expr = match self.comparison() {
            Ok(e) => e,
            Err(er) => {
                return Err(er);
            },
        };
        loop
            invariant
                self.wf(),
                self.toks() == t,
                t == old(self).toks(),
                i == old(self).pos(),
                i < self.pos(),
                p_equality(t, i) == p_equality_rest(t, expr@, self.pos()),
            ensures
                self.wf(),
                self.toks() == t,
                t == old(self).toks(),
                i == old(self).pos(),
                i < self.pos(),
                p_equality(t, i) == Ok::<(SpecExpr, int), SpecError>((expr@, self.pos())),
            decreases t.len() - self.pos(),
        {
            let ops: Vec<TokenType> = vec![TokenType::BangEqual, TokenType::EqualEqual];
            if !self.is_match(ops.as_slice()) {
                break;
            }
            let operator = self.previous();
            let right = match self.comparison() {
                Ok(e) => e,
                Err(er) => {
                    return Err(er);
                },
            };
            expr = Expr::Binary(
                BinaryExpr { left: Box::new(expr), operator, right: Box::new(right) },
            );
        }
        Ok(expr)
    }

    /// `comparison -> term ( ( ">" | ">=" | "<" | "<=" ) term )*`, folded
    /// left-associatively.
    fn comparison(&mut self) -> (r: Result<Expr, LoxError>)
        requires
            old(self).wf(),
        ensures
            final(self).wf(),
            final(self).toks() == old(self).toks(),
            old(self).pos() <= final(self).pos(),
            r is Ok ==> old(self).pos() < final(self).pos(),
            (match p_comparison(old(self).toks(), old(self).pos()) {
                Ok((e, j)) => r matches Ok(ex) && ex@ == e && final(self).pos() == j,
                Err(se) => r matches Err(er) && er@ == se,
            }),
        decreases old(self).tokens@.len() - old(self).current, 7int,
    {
        let ghost t = old(self).toks();
        let ghost i = old(self).pos();
        let mut expr = match self.term() {
            Ok(e) => e,
            Err(er) => {
                return Err(er);
            },
        };
        loop
            invariant
                self.wf(),
                self.toks() == t,
                t == old(self).toks(),
                i == old(self).pos(),
                i < self.pos(),
                p_comparison(t, i) == p_comparison_rest(t, expr@, self.pos()),
            ensures
                self.wf(),
                self.toks() == t,
                t == old(self).toks(),
                i == old(self).pos(),
                i < self.pos(),
                p_comparison(t, i) == Ok::<(SpecExpr, int), SpecError>((expr@, self.pos())),
            decreases t.len() - self.pos(),
        {
            let ops: Vec<TokenType> = vec![
                TokenType::Greater,
                TokenType::GreaterEqual,
                TokenType::Less,
                TokenType::LessEqual,
            ];
            if !self.is_match(ops.as_slice()) {
                break;
            }
            let operator = self.previous();
            let right = match self.term() {
                Ok(e) => e,
                Err(er) => {
                    return Err(er);
                },
            };
            expr = Expr::Binary(
                BinaryExpr { left: Box::new(expr), operator, right: Box::new(right) },
            );
        }
        Ok(expr)
    }

    /// `term -> factor ( ( "-" | "+" ) factor )*`, folded left-associatively.
    fn term(&mut self) -> (r: Result<Expr, LoxError>)
        requires
            old(self).wf(),
        ensures
            final(self).wf(),
            final(self).toks() == old(self).toks(),
            old(self).pos() <= final(self).pos(),
            r is Ok ==> old(self).pos() < final(self).pos(),
            (match p_term(old(self).toks(), old(self).pos()) {
                Ok((e, j)) => r matches Ok(ex) && ex@ == e && final(self).pos() == j,
                Err(se) => r matches Err(er) && er@ == se,
            }),
        decreases old(self).tokens@.len() - old(self).current, 5int,
    {
        let ghost t = old(self).toks();
        let ghost i = old(self).pos();
        let mut expr = match self.factor() {
            Ok(e) => e,
            Err(er) => {
                return Err(er);
            },
        };
        loop
            invariant
                self.wf(),
                self.toks() == t,
                t == old(self).toks(),
                i == old(self).pos(),
                i < self.pos(),
                p_term(t, i) == p_term_rest(t, expr@, self.pos()),
            ensures
                self.wf(),
                self.toks() == t,
                t == old(self).toks(),
                i == old(self).pos(),
                i < self.pos(),
                p_term(t, i) == Ok::<(SpecExpr, int), SpecError>((expr@, self.pos())),
            decreases t.len() - self.pos(),
        {
            let ops: Vec<TokenType> = vec![TokenType::Minus, TokenType::Plus];
            if !self.is_match(ops.as_slice()) {
                break;
            }
            let operator = self.previous();
            let right = match self.factor() {
                Ok(e) => e,
                Err(er) => {
                    return Err(er);
                },
            };
            expr = Expr::Binary(
                BinaryExpr { left: Box::new(expr), operator, right: Box::new(right) },
            );
        }
        Ok(expr)
    }

    /// `factor -> unary ( ( "/" | "*" ) unary )*`, folded left-associatively.
    fn factor(&mut self) -> (r: Result<Expr, LoxError>)
        requires
            old(self).wf(),
        ensures
            final(self).wf(),
            final(self).toks() == old(self).toks(),
            old(self).pos() <= final(self).pos(),
            r is Ok ==> old(self).pos() < final(self).pos(),
            (match p_factor(old(self).toks(), old(self).pos()) {
                Ok((e, j)) => r matches Ok(ex) && ex@ == e && final(self).pos() == j,
                Err(se) => r matches Err(er) && er@ == se,
            }),
        decreases old(self).tokens@.len() - old(self).current, 3int,
    {
        let ghost t = old(self).toks();
        let ghost i = old(self).pos();
        let mut expr = match self.unary() {
            Ok(e) => e,
            Err(er) => {
                return Err(er);
            },
        };
        loop
            invariant
                self.wf(),
                self.toks() == t,
                t == old(self).toks(),
                i == old(self).pos(),
                i < self.pos(),
                p_factor(t, i) == p_factor_rest(t, expr@, self.pos()),
            ensures
                self.wf(),
                self.toks() == t,
                t == old(self).toks(),
                i == old(self).pos(),
                i < self.pos(),
                p_factor(t, i) == Ok::<(SpecExpr, int), SpecError>((expr@, self.pos())),
            decreases t.len() - self.pos(),
        {
            let ops: Vec<TokenType> = vec![TokenType::Slash, TokenType::Star];
            if !self.is_match(ops.as_slice()) {
                break;
            }
            let operator = self.previous();
            let right = match self.unary() {
                Ok(e) => e,
                Err(er) => {
                    return Err(er);
                },
            };
            expr = Expr::Binary(
                BinaryExpr { left: Box::new(expr), operator, right: Box::new(right) },
            );
        }
        Ok(expr)
    }

    /// `unary -> ( "!" | "-" ) unary | primary`: right-associative by
    /// recursion on the operand.
    fn unary(&mut self) -> (r: Result<Expr, LoxError>)
        requires
            old(self).wf(),
        ensures
            final(self).wf(),
            final(self).toks() == old(self).toks(),
            old(self).pos() <= final(self).pos(),
            r is Ok ==> old(self).pos() < final(self).pos(),
            (match p_unary(old(self).toks(), old(self).pos()) {
                Ok((e, j)) => r matches Ok(ex) && ex@ == e && final(self).pos() == j,
                Err(se) => r matches Err(er) && er@ == se,
            }),
        decreases old(self).tokens@.len() - old(self).current, 1int,
    {
        let ops: Vec<TokenType> = vec![TokenType::Bang, TokenType::Minus];
        if self.is_match(ops.as_slice()) {
            let operator = self.previous();
            match self.unary() {
                Ok(right) => Ok(Expr::Unary(UnaryExpr { operator, right: Box::new(right) })),
                Err(er) => Err(er),
            }
        } else {
            self.primary()
        }
    }

    /// `primary -> NUMBER | STRING | "true" | "false" | "nil" | "("
    /// expression ")"`.
    fn primary(&mut self) -> (r: Result<Expr, LoxError>)
        requires
            old(self).wf(),
        ensures
            final(self).wf(),
            final(self).toks() == old(self).toks(),
            old(self).pos() <= final(self).pos(),
            r is Ok ==> old(self).pos() < final(self).pos(),
            (match p_primary(old(self).toks(), old(self).pos()) {
                Ok((e, j)) => r matches Ok(ex) && ex@ == e && final(self).pos() == j,
                Err(se) => r matches Err(er) && er@ == se,
            }),
        decreases old(self).tokens@.len() - old(self).current, 0int,
    {
        let f: Vec<TokenType> = vec![TokenType::False];
        if self.is_match(f.as_slice()) {
            return Ok(Expr::Literal(LiteralExpr { value: Some(Object::False) }));
        }
        let tr: Vec<TokenType> = vec![TokenType::True];
        if self.is_match(tr.as_slice()) {
            return Ok(Expr::Literal(LiteralExpr { value: Some(Object::True) }));
        }
        let n: Vec<TokenType> = vec![TokenType::Nil];
        if self.is_match(n.as_slice()) {
            return Ok(Expr::Literal(LiteralExpr { value: Some(Object::Nil) }));
        }
        let lits: Vec<TokenType> = vec![TokenType::Number, TokenType::Str];
        if self.is_match(lits.as_slice()) {
            let prev = self.previous();
            return Ok(Expr::Literal(LiteralExpr { value: prev.literal }));
        }
        let lp: Vec<TokenType> = vec![TokenType::LeftParen];
        if self.is_match(lp.as_slice()) {
            let expr = match self.expression() {
                Ok(e) => e,
                Err(er) => {
                    return Err(er);
                },
            };
            match self.consume(TokenType::RightParen) {
                Some(_) => Ok(Expr::Grouping(GroupingExpr { expression: Box::new(expr) })),
                None => {
                    let found = self.peek();
                    Err(
                        Perser::error(
                            Some(found),
                            LoxErrorKind::ExpectedToken(TokenType::RightParen),
                        ),
                    )
                },
            }
        } else {
            let found = self.peek();
            Err(Perser::error(Some(found), LoxErrorKind::ExpectedExpression))
        }
    }

    /// Parses one maximal expression that must consume the full token
    /// stream up to the end marker, returning the tree or the first fatal
    /// error as a structured value.
    pub fn try_parse(&mut self) -> (r: Result<Expr, LoxError>)
        requires
            old(self).wf(),
            old(self).pos() == 0,
        ensures
            final(self).wf(),
            final(self).toks() == old(self).toks(),
            (match p_parse(old(self).toks()) {
                Ok(e) => r matches Ok(ex) && ex@ == e,
                Err(se) => r matches Err(er) && er@ == se,
            }),
    {
        let expr = match self.expression() {
            Ok(e) => e,
            Err(er) => {
                return Err(er);
            },
        };
        if self.is_at_end() {
            Ok(expr)
        } else {
            let found = self.peek();
            Err(Perser::error(Some(found), LoxErrorKind::ExpectedToken(TokenType::Eof)))
        }
    }

    /// Parses one expression: the tree on success, absent on any syntax
    /// error (the structured error itself is available from `try_parse`).
    pub fn parse(&mut self) -> (r: Option<Expr>)
        requires
            old(self).wf(),
            old(self).pos() == 0,
        ensures
            final(self).wf(),
            (match p_parse(old(self).toks()) {
                Ok(e) => r matches Some(ex) && ex@ == e,
                Err(_) => r is None,
            }),
    {
        match self.try_parse() {
            Ok(expr) => Some(expr),
            Err(_) => None,
        }
    }
}

} // verus!
