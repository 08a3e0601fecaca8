//! Which operators exist, how tightly they bind, and which pairs the grammar keeps apart.
//!
//! Tables and predicates, with no parsing in them. §13.6 through §13.13 nest one layer inside
//! the next, and that nesting read as numbers is all a precedence table is.

use vstd::prelude::*;
use super::{ParseError, ParseErrorKind};
use crate::ast::{
    AssignmentOperator, AssignmentTarget, BinaryOperator, Expr, ExprKind, LogicalOperator,
    UnaryOperator,
};
use crate::lexer::{ReservedWord, TokenKind};

verus! {

/// A binary operator, with what it means and how tightly it binds.
#[derive(Debug, Clone, Copy, PartialEq, Eq, Structural)]
pub struct Operator {
    /// What the operator does, which decides which node it builds.
    pub kind: OperatorKind,
    /// Binding power: higher binds tighter.
    pub precedence: u8,
    /// Whether `a op b op c` groups to the right. Only `**` does (§13.6).
    pub right_associative: bool,
}

/// Which kind of node an operator builds.
#[derive(Debug, Clone, Copy, PartialEq, Eq, Structural)]
pub enum OperatorKind {
    /// Both operands are always evaluated.
    Binary(BinaryOperator),
    /// The right operand may not be evaluated at all.
    Logical(LogicalOperator),
}

/// The prefix operator a token is, by §13.5's table.
pub open spec fn unary_operator_of(kind: TokenKind) -> Option<UnaryOperator> {
    match kind {
        TokenKind::Keyword(ReservedWord::Delete) => Some(UnaryOperator::Delete),
        TokenKind::Keyword(ReservedWord::Void) => Some(UnaryOperator::Void),
        TokenKind::Keyword(ReservedWord::Typeof) => Some(UnaryOperator::Typeof),
        TokenKind::Plus => Some(UnaryOperator::Plus),
        TokenKind::Minus => Some(UnaryOperator::Minus),
        TokenKind::Tilde => Some(UnaryOperator::BitwiseNot),
        TokenKind::Bang => Some(UnaryOperator::LogicalNot),
        _ => None,
    }
}

/// The binary operator a token is and its binding power: the grammar's nesting of §13.6 –
/// §13.13, outermost (`??`) weakest.
pub open spec fn binary_operator_of(kind: TokenKind) -> Option<(OperatorKind, u8)> {
    match kind {
        TokenKind::QuestionQuestion => Some(
            (OperatorKind::Logical(LogicalOperator::NullishCoalescing), 1u8),
        ),
        TokenKind::PipePipe => Some((OperatorKind::Logical(LogicalOperator::Or), 2u8)),
        TokenKind::AmpAmp => Some((OperatorKind::Logical(LogicalOperator::And), 3u8)),
        TokenKind::Pipe => Some((OperatorKind::Binary(BinaryOperator::BitwiseOr), 4u8)),
        TokenKind::Caret => Some((OperatorKind::Binary(BinaryOperator::BitwiseXor), 5u8)),
        TokenKind::Amp => Some((OperatorKind::Binary(BinaryOperator::BitwiseAnd), 6u8)),
        TokenKind::EqEq => Some((OperatorKind::Binary(BinaryOperator::Equal), 7u8)),
        TokenKind::BangEq => Some((OperatorKind::Binary(BinaryOperator::NotEqual), 7u8)),
        TokenKind::EqEqEq => Some((OperatorKind::Binary(BinaryOperator::StrictEqual), 7u8)),
        TokenKind::BangEqEq => Some((OperatorKind::Binary(BinaryOperator::StrictNotEqual), 7u8)),
        TokenKind::Lt => Some((OperatorKind::Binary(BinaryOperator::LessThan), 8u8)),
        TokenKind::Gt => Some((OperatorKind::Binary(BinaryOperator::GreaterThan), 8u8)),
        TokenKind::LtEq => Some((OperatorKind::Binary(BinaryOperator::LessThanOrEqual), 8u8)),
        TokenKind::GtEq => Some((OperatorKind::Binary(BinaryOperator::GreaterThanOrEqual), 8u8)),
        TokenKind::Keyword(ReservedWord::Instanceof) => Some(
            (OperatorKind::Binary(BinaryOperator::Instanceof), 8u8),
        ),
        TokenKind::Keyword(ReservedWord::In) => Some(
            (OperatorKind::Binary(BinaryOperator::In), 8u8),
        ),
        TokenKind::LtLt => Some((OperatorKind::Binary(BinaryOperator::ShiftLeft), 9u8)),
        TokenKind::GtGt => Some((OperatorKind::Binary(BinaryOperator::ShiftRight), 9u8)),
        TokenKind::GtGtGt => Some((OperatorKind::Binary(BinaryOperator::ShiftRightUnsigned), 9u8)),
        TokenKind::Plus => Some((OperatorKind::Binary(BinaryOperator::Add), 10u8)),
        TokenKind::Minus => Some((OperatorKind::Binary(BinaryOperator::Subtract), 10u8)),
        TokenKind::Star => Some((OperatorKind::Binary(BinaryOperator::Multiply), 11u8)),
        TokenKind::Slash => Some((OperatorKind::Binary(BinaryOperator::Divide), 11u8)),
        TokenKind::Percent => Some((OperatorKind::Binary(BinaryOperator::Remainder), 11u8)),
        TokenKind::StarStar => Some((OperatorKind::Binary(BinaryOperator::Exponent), 12u8)),
        _ => None,
    }
}

/// The assignment operator a token is, by §13.15's table.
pub open spec fn assignment_operator_of(kind: TokenKind) -> Option<AssignmentOperator> {
    match kind {
        TokenKind::Eq => Some(AssignmentOperator::Assign),
        TokenKind::PlusEq => Some(AssignmentOperator::Add),
        TokenKind::MinusEq => Some(AssignmentOperator::Subtract),
        TokenKind::StarEq => Some(AssignmentOperator::Multiply),
        TokenKind::SlashEq => Some(AssignmentOperator::Divide),
        TokenKind::PercentEq => Some(AssignmentOperator::Remainder),
        TokenKind::StarStarEq => Some(AssignmentOperator::Exponent),
        TokenKind::LtLtEq => Some(AssignmentOperator::ShiftLeft),
        TokenKind::GtGtEq => Some(AssignmentOperator::ShiftRight),
        TokenKind::GtGtGtEq => Some(AssignmentOperator::ShiftRightUnsigned),
        TokenKind::AmpEq => Some(AssignmentOperator::BitwiseAnd),
        TokenKind::CaretEq => Some(AssignmentOperator::BitwiseXor),
        TokenKind::PipeEq => Some(AssignmentOperator::BitwiseOr),
        TokenKind::AmpAmpEq => Some(AssignmentOperator::LogicalAnd),
        TokenKind::PipePipeEq => Some(AssignmentOperator::LogicalOr),
        TokenKind::QuestionQuestionEq => Some(AssignmentOperator::NullishCoalescing),
        _ => None,
    }
}

/// The ladder of §13.6 – §13.13: `??` binds most loosely, then `||`, then `&&`; every other
/// binary operator binds tighter than all three, and `**` tightest of all, alone on its rung.
/// No token is both a binary and an assignment operator.
pub proof fn lemma_precedence_ladder(kind: TokenKind)
    ensures
        binary_operator_of(kind) matches Some((_, p)) ==> 1 <= p <= 12,
        binary_operator_of(kind) matches Some((_, p)) ==> (p == 12 <==> kind == TokenKind::StarStar),
        binary_operator_of(kind) matches Some((OperatorKind::Logical(op), p)) ==> p == match op {
            LogicalOperator::NullishCoalescing => 1u8,
            LogicalOperator::Or => 2u8,
            LogicalOperator::And => 3u8,
        },
        binary_operator_of(kind) matches Some((OperatorKind::Binary(_), p)) ==> p >= 4,
        binary_operator_of(kind) is Some ==> assignment_operator_of(kind) is None,
{
}

/// How tightly a token binds as a binary operator, or -1 if it is none.
pub open spec fn precedence_of(kind: TokenKind) -> int {
    match binary_operator_of(kind) {
        Some((_, p)) => p as int,
        None => -1,
    }
}

/// The precedences follow the nesting of §13.6 – §13.13: the operators of one production share
/// a rung — `*`, `/` and `%`; `+` and `-`; the shifts; the relational operators with
/// `instanceof` and `in`; the equality operators — and each production binds strictly more
/// tightly than the one that contains it, from `??` up to `**`.
pub proof fn lemma_precedence_follows_the_grammar()
    ensures
        precedence_of(TokenKind::Star) == precedence_of(TokenKind::Slash),
        precedence_of(TokenKind::Star) == precedence_of(TokenKind::Percent),
        precedence_of(TokenKind::Plus) == precedence_of(TokenKind::Minus),
        precedence_of(TokenKind::LtLt) == precedence_of(TokenKind::GtGt),
        precedence_of(TokenKind::LtLt) == precedence_of(TokenKind::GtGtGt),
        precedence_of(TokenKind::Lt) == precedence_of(TokenKind::Gt),
        precedence_of(TokenKind::Lt) == precedence_of(TokenKind::LtEq),
        precedence_of(TokenKind::Lt) == precedence_of(TokenKind::GtEq),
        precedence_of(TokenKind::Lt) == precedence_of(TokenKind::Keyword(ReservedWord::Instanceof)),
        precedence_of(TokenKind::Lt) == precedence_of(TokenKind::Keyword(ReservedWord::In)),
        precedence_of(TokenKind::EqEq) == precedence_of(TokenKind::BangEq),
        precedence_of(TokenKind::EqEq) == precedence_of(TokenKind::EqEqEq),
        precedence_of(TokenKind::EqEq) == precedence_of(TokenKind::BangEqEq),
        0 < precedence_of(TokenKind::QuestionQuestion),
        precedence_of(TokenKind::QuestionQuestion) < precedence_of(TokenKind::PipePipe),
        precedence_of(TokenKind::PipePipe) < precedence_of(TokenKind::AmpAmp),
        precedence_of(TokenKind::AmpAmp) < precedence_of(TokenKind::Pipe),
        precedence_of(TokenKind::Pipe) < precedence_of(TokenKind::Caret),
        precedence_of(TokenKind::Caret) < precedence_of(TokenKind::Amp),
        precedence_of(TokenKind::Amp) < precedence_of(TokenKind::EqEq),
        precedence_of(TokenKind::EqEq) < precedence_of(TokenKind::Lt),
        precedence_of(TokenKind::Lt) < precedence_of(TokenKind::LtLt),
        precedence_of(TokenKind::LtLt) < precedence_of(TokenKind::Plus),
        precedence_of(TokenKind::Plus) < precedence_of(TokenKind::Star),
        precedence_of(TokenKind::Star) < precedence_of(TokenKind::StarStar),
{
}

/// The prefix operators of §13.5, or `None` if this token starts no unary expression.
pub fn unary_operator(kind: TokenKind) -> (r: Option<UnaryOperator>)
    ensures
        r == unary_operator_of(kind),
{
    match kind {
        TokenKind::Keyword(ReservedWord::Delete) => Some(UnaryOperator::Delete),
        TokenKind::Keyword(ReservedWord::Void) => Some(UnaryOperator::Void),
        TokenKind::Keyword(ReservedWord::Typeof) => Some(UnaryOperator::Typeof),
        TokenKind::Plus => Some(UnaryOperator::Plus),
        TokenKind::Minus => Some(UnaryOperator::Minus),
        TokenKind::Tilde => Some(UnaryOperator::BitwiseNot),
        TokenKind::Bang => Some(UnaryOperator::LogicalNot),
        _ => None,
    }
}

/// The binary operators of §13.6 through §13.13, or `None` if this token is not one.
///
/// Every precedence is between 1 and 12, and only `**` groups to the right.
pub fn binary_operator(kind: TokenKind) -> (r: Option<Operator>)
    ensures
        r matches Some(op) ==> binary_operator_of(kind) == Some((op.kind, op.precedence)),
        r is None ==> binary_operator_of(kind) is None,
        r matches Some(op) ==> 1 <= op.precedence <= 12,
        r matches Some(op) ==> (op.right_associative <==> op.kind == OperatorKind::Binary(
            BinaryOperator::Exponent,
        )),
{
    let (kind, precedence): (OperatorKind, u8) = match kind {
        TokenKind::QuestionQuestion => (OperatorKind::Logical(LogicalOperator::NullishCoalescing), 1),
        TokenKind::PipePipe => (OperatorKind::Logical(LogicalOperator::Or), 2),
        TokenKind::AmpAmp => (OperatorKind::Logical(LogicalOperator::And), 3),
        TokenKind::Pipe => (OperatorKind::Binary(BinaryOperator::BitwiseOr), 4),
        TokenKind::Caret => (OperatorKind::Binary(BinaryOperator::BitwiseXor), 5),
        TokenKind::Amp => (OperatorKind::Binary(BinaryOperator::BitwiseAnd), 6),
        TokenKind::EqEq => (OperatorKind::Binary(BinaryOperator::Equal), 7),
        TokenKind::BangEq => (OperatorKind::Binary(BinaryOperator::NotEqual), 7),
        TokenKind::EqEqEq => (OperatorKind::Binary(BinaryOperator::StrictEqual), 7),
        TokenKind::BangEqEq => (OperatorKind::Binary(BinaryOperator::StrictNotEqual), 7),
        TokenKind::Lt => (OperatorKind::Binary(BinaryOperator::LessThan), 8),
        TokenKind::Gt => (OperatorKind::Binary(BinaryOperator::GreaterThan), 8),
        TokenKind::LtEq => (OperatorKind::Binary(BinaryOperator::LessThanOrEqual), 8),
        TokenKind::GtEq => (OperatorKind::Binary(BinaryOperator::GreaterThanOrEqual), 8),
        TokenKind::Keyword(ReservedWord::Instanceof) => (
            OperatorKind::Binary(BinaryOperator::Instanceof),
            8,
        ),
        TokenKind::Keyword(ReservedWord::In) => (OperatorKind::Binary(BinaryOperator::In), 8),
        TokenKind::LtLt => (OperatorKind::Binary(BinaryOperator::ShiftLeft), 9),
        TokenKind::GtGt => (OperatorKind::Binary(BinaryOperator::ShiftRight), 9),
        TokenKind::GtGtGt => (OperatorKind::Binary(BinaryOperator::ShiftRightUnsigned), 9),
        TokenKind::Plus => (OperatorKind::Binary(BinaryOperator::Add), 10),
        TokenKind::Minus => (OperatorKind::Binary(BinaryOperator::Subtract), 10),
        TokenKind::Star => (OperatorKind::Binary(BinaryOperator::Multiply), 11),
        TokenKind::Slash => (OperatorKind::Binary(BinaryOperator::Divide), 11),
        TokenKind::Percent => (OperatorKind::Binary(BinaryOperator::Remainder), 11),
        TokenKind::StarStar => (OperatorKind::Binary(BinaryOperator::Exponent), 12),
        _ => return None,
    };
    let right_associative = match kind {
        OperatorKind::Binary(BinaryOperator::Exponent) => true,
        _ => false,
    };
    Some(Operator { kind, precedence, right_associative })
}

/// The assignment operators of §13.15, or `None` if this token is not one.
pub fn assignment_operator(kind: TokenKind) -> (r: Option<AssignmentOperator>)
    ensures
        r == assignment_operator_of(kind),
{
    match kind {
        TokenKind::Eq => Some(AssignmentOperator::Assign),
        TokenKind::PlusEq => Some(AssignmentOperator::Add),
        TokenKind::MinusEq => Some(AssignmentOperator::Subtract),
        TokenKind::StarEq => Some(AssignmentOperator::Multiply),
        TokenKind::SlashEq => Some(AssignmentOperator::Divide),
        TokenKind::PercentEq => Some(AssignmentOperator::Remainder),
        TokenKind::StarStarEq => Some(AssignmentOperator::Exponent),
        TokenKind::LtLtEq => Some(AssignmentOperator::ShiftLeft),
        TokenKind::GtGtEq => Some(AssignmentOperator::ShiftRight),
        TokenKind::GtGtGtEq => Some(AssignmentOperator::ShiftRightUnsigned),
        TokenKind::AmpEq => Some(AssignmentOperator::BitwiseAnd),
        TokenKind::CaretEq => Some(AssignmentOperator::BitwiseXor),
        TokenKind::PipeEq => Some(AssignmentOperator::BitwiseOr),
        TokenKind::AmpAmpEq => Some(AssignmentOperator::LogicalAnd),
        TokenKind::PipePipeEq => Some(AssignmentOperator::LogicalOr),
        TokenKind::QuestionQuestionEq => Some(AssignmentOperator::NullishCoalescing),
        _ => None,
    }
}

/// §13.15.1's `AssignmentTargetType` is *simple*: a name, or a property access that is not part
/// of an optional chain.
///
/// Parentheses need no mention: a bracketed expression is a flag on the node, so `(a)` *is* the
/// identifier `a`, while `(a, b)` is a sequence.
pub open spec fn is_simple_target(expr: &Expr) -> bool {
    expr.kind is Identifier || expr.kind is Member || expr.kind is ComputedMember
}

/// Whether `expr` may be assigned to.
pub fn is_simple_assignment_target(expr: &Expr) -> (r: bool)
    ensures
        r == is_simple_target(expr),
{
    match expr.kind {
        ExprKind::Identifier(_) | ExprKind::Member { .. } | ExprKind::ComputedMember { .. } => true,
        _ => false,
    }
}

/// An unparenthesized `&&` or `||`, which §13.13 keeps out of a `??`.
pub open spec fn is_bare_and_or_spec(expr: &Expr) -> bool {
    !expr.parenthesized && match expr.kind {
        ExprKind::Logical { operator, .. } => operator == LogicalOperator::And || operator
            == LogicalOperator::Or,
        _ => false,
    }
}

/// An unparenthesized `??`, which §13.13 keeps out of a `&&` or `||`.
pub open spec fn is_bare_coalesce_spec(expr: &Expr) -> bool {
    !expr.parenthesized && match expr.kind {
        ExprKind::Logical { operator, .. } => operator == LogicalOperator::NullishCoalescing,
        _ => false,
    }
}

/// Whether `expr` is an unparenthesized `&&` or `||`.
pub fn is_bare_and_or(expr: &Expr) -> (r: bool)
    ensures
        r == is_bare_and_or_spec(expr),
{
    if expr.parenthesized {
        return false;
    }
    match expr.kind {
        ExprKind::Logical { operator: LogicalOperator::And, .. } => true,
        ExprKind::Logical { operator: LogicalOperator::Or, .. } => true,
        _ => false,
    }
}

/// Whether `expr` is an unparenthesized `??`.
pub fn is_bare_coalesce(expr: &Expr) -> (r: bool)
    ensures
        r == is_bare_coalesce_spec(expr),
{
    if expr.parenthesized {
        return false;
    }
    match expr.kind {
        ExprKind::Logical { operator: LogicalOperator::NullishCoalescing, .. } => true,
        _ => false,
    }
}

/// Whether an operand may not stand beside `operator` without parentheses (§13.13): a bare
/// `&&` or `||` beside `??`, and a bare `??` beside `&&` or `||`.
pub open spec fn mixes_badly(operator: OperatorKind, operand: &Expr) -> bool {
    match operator {
        OperatorKind::Logical(LogicalOperator::NullishCoalescing) => is_bare_and_or_spec(operand),
        OperatorKind::Logical(_) => is_bare_coalesce_spec(operand),
        OperatorKind::Binary(_) => false,
    }
}

/// Join two operands with an operator, enforcing §13.13's rule about which may sit together.
///
/// The node covers both operands; a mixing error points at the operand that broke the rule, the
/// left one first.
pub fn combine(left: Expr, operator: Operator, right: Expr) -> (r: Result<Expr, ParseError>)
    ensures
        r is Err <==> mixes_badly(operator.kind, &left) || mixes_badly(operator.kind, &right),
        r matches Err(e) ==> e.kind == ParseErrorKind::MixedCoalesceAndLogical && e.span == (
        if mixes_badly(operator.kind, &left) {
            left.span
        } else {
            right.span
        }),
        r matches Ok(e) ==> e.span == left.span.to(right.span) && !e.parenthesized,
        r matches Ok(e) ==> match operator.kind {
            OperatorKind::Binary(op) => e.kind == ExprKind::Binary {
                operator: op,
                left: Box::new(left),
                right: Box::new(right),
            },
            OperatorKind::Logical(op) => e.kind == ExprKind::Logical {
                operator: op,
                left: Box::new(left),
                right: Box::new(right),
            },
        },
{
    let span = left.span.to(right.span);
    match operator.kind {
        OperatorKind::Binary(op) => Ok(
            Expr::new(ExprKind::Binary { operator: op, left: Box::new(left), right: Box::new(right) }, span),
        ),
        OperatorKind::Logical(op) => {
            let coalesce = match op {
                LogicalOperator::NullishCoalescing => true,
                _ => false,
            };
            let left_bad = if coalesce {
                is_bare_and_or(&left)
            } else {
                is_bare_coalesce(&left)
            };
            if left_bad {
                return Err(ParseError { kind: ParseErrorKind::MixedCoalesceAndLogical, span: left.span });
            }
            let right_bad = if coalesce {
                is_bare_and_or(&right)
            } else {
                is_bare_coalesce(&right)
            };
            if right_bad {
                return Err(ParseError { kind: ParseErrorKind::MixedCoalesceAndLogical, span: right.span });
            }
            Ok(
                Expr::new(
                    ExprKind::Logical { operator: op, left: Box::new(left), right: Box::new(right) },
                    span,
                ),
            )
        },
    }
}

} // verus!
