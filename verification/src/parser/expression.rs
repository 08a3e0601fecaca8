//! The expression grammar (§13), from `Expression` down to the update expressions.
//!
//! Every function here is on the path a bracket recurses through, so the operator layers of
//! §13.6 – §13.13 are one precedence-climbing function over the table in [`super::operator`]
//! rather than a cascade of a dozen.
//!
//! `allow_in` is the `[In]` grammar parameter: false only in the first clause of a `for` header,
//! where `in` belongs to the loop, and true again inside any bracket.

use vstd::prelude::*;
use super::arrow::ArrowOrGroup;
use super::operator::{
    assignment_operator, binary_operator, combine, is_simple_assignment_target, is_simple_target, unary_operator,
    OperatorKind,
};
use super::strict::is_eval_or_arguments;
use super::{within, ParseError, ParseErrorKind, Parser, MAX_NESTING_DEPTH};
use crate::ast::{
    AssignmentOperator, AssignmentTarget, BinaryOperator, Expr, ExprKind, Pattern, UnaryOperator,
};
use crate::lexer::{Goal, ReservedWord, TokenKind};

verus! {

/// Whether `expr` is `a.#b`, or an optional chain ending in one, however parenthesized: what
/// `delete` may not be applied to (§13.5.1.1).
pub fn is_private_member(expr: &Expr) -> (r: bool)
    ensures
        r == ((expr.kind matches ExprKind::Member { private, .. } && private) || (expr.kind matches ExprKind::OptionalChain(
            inner,
        ) && inner.kind matches ExprKind::Member { private, .. } && private)),
{
    match &expr.kind {
        ExprKind::Member { private, .. } => *private,
        ExprKind::OptionalChain(inner) => match &inner.kind {
            ExprKind::Member { private, .. } => *private,
            _ => false,
        },
        _ => false,
    }
}

impl<'a> Parser<'a> {
    /// `Expression` (§13.16): one or more `AssignmentExpression`s separated by commas, held flat.
    pub fn parse_expression(&mut self, allow_in: bool) -> (r: Result<Expr, ParseError>)
        requires
            old(self).wf(),
        ensures
            final(self).kept_from(*old(self)),
            r matches Ok(e) ==> final(self).read_after(e.span, *old(self)),
            r is Ok ==> final(self).moved_past(*old(self)),
            old(self).at_lone_number() ==> final(self).read_one_number(*old(self), r),
            old(self).too_deep_ahead() ==> (r matches Err(e) && e.kind == ParseErrorKind::TooDeeplyNested),
        decreases MAX_NESTING_DEPTH - old(self).depth, 60int,
    {
        let first = match self.parse_assignment(allow_in) {
            Ok(first) => first,
            Err(e) => return Err(e),
        };
        if self.current.kind != TokenKind::Comma {
            return Ok(first);
        }
        let start = first.span;
        let mut end = first.span;
        let mut parts: Vec<Expr> = Vec::new();
        parts.push(first);
        while self.current.kind == TokenKind::Comma
            invariant
                self.kept_from(*old(self)),
                self.moved_past(*old(self)),
                !old(self).at_lone_number(),
                !old(self).too_deep_ahead(),
                old(self).current.span.start <= start.start,
                start.start == old(self).current.span.start || old(self).at_async(),
                end.end == self.consumed_to@,
            decreases self.remaining(),
        {
            if let Err(e) = self.advance(Goal::RegExp) {
                return Err(e);
            }
            let next = match self.parse_assignment(allow_in) {
                Ok(next) => next,
                Err(e) => return Err(e),
            };
            end = next.span;
            parts.push(next);
        }
        Ok(Expr::new(ExprKind::Sequence(parts), start.to(end)))
    }

    /// `AssignmentExpression` (§13.15), which is also where arrows, `yield` and the conditional
    /// operator are read, and where a literal before `=` becomes a pattern.
    #[verifier::rlimit(100)]
    #[verifier::spinoff_prover]
    pub fn parse_assignment(&mut self, allow_in: bool) -> (r: Result<Expr, ParseError>)
        requires
            old(self).wf(),
        ensures
            final(self).kept_from(*old(self)),
            r matches Ok(e) ==> final(self).read_after(e.span, *old(self)),
            r is Ok ==> final(self).moved_past(*old(self)),
            old(self).at_lone_number() ==> final(self).read_one_number(*old(self), r),
            old(self).too_deep_ahead() ==> (r matches Err(e) && e.kind == ParseErrorKind::TooDeeplyNested),
        decreases MAX_NESTING_DEPTH - old(self).depth, 58int,
    {
        if self.current.kind == TokenKind::Keyword(ReservedWord::Yield) && self.yield_allowed {
            return self.parse_yield(allow_in);
        }
        let head = match self.parse_arrow_or_group(allow_in) {
            Ok(ArrowOrGroup::Arrow(arrow)) => return Ok(arrow),
            Ok(ArrowOrGroup::Operand(group)) => Some(group),
            Ok(ArrowOrGroup::Neither) => None,
            Err(e) => return Err(e),
        };
        let mut left = match self.parse_binary(0, head, allow_in) {
            Ok(left) => left,
            Err(e) => return Err(e),
        };
        if self.current.kind == TokenKind::Question {
            left = match self.parse_conditional_tail(left, allow_in) {
                Ok(conditional) => conditional,
                Err(e) => return Err(e),
            };
        }
        let operator = match assignment_operator(self.current.kind) {
            Some(operator) => operator,
            None => {
                if let Err(e) = self.report_unrefined_cover_grammar() {
                    return Err(e);
                }
                return Ok(left);
            },
        };
        self.parse_assignment_tail(left, operator, allow_in)
    }

    /// The rest of an `AssignmentExpression` once its operator is seen: the left side refined
    /// into what it is assigned to, and the right side read.
    pub fn parse_assignment_tail(&mut self, left: Expr, operator: AssignmentOperator, allow_in: bool) -> (r: Result<
        Expr,
        ParseError,
    >)
        requires
            old(self).wf(),
        ensures
            final(self).kept_from(*old(self)),
            r matches Ok(e) ==> final(self).read_since(e.span, left.span.start as int),
            r is Ok ==> final(self).moved_past(*old(self)),
            r matches Ok(e) ==> (e.kind matches ExprKind::Assignment { operator: o, .. } && o == operator),
        decreases MAX_NESTING_DEPTH - old(self).depth, 57int,
    {
        // §13.15.1: a literal before `=` is refined into the pattern it covers; anything else
        // must be a simple target. A parenthesized literal is neither.
        let start = left.span;
        let target = if operator == AssignmentOperator::Assign && Self::covers_a_pattern(&left) {
            match self.refine_to_pattern(left) {
                Ok(pattern) => AssignmentTarget::Pattern(pattern),
                Err(e) => return Err(e),
            }
        } else {
            if !is_simple_assignment_target(&left) {
                return Err(ParseError { kind: ParseErrorKind::InvalidAssignmentTarget, span: left.span });
            }
            if let ExprKind::Identifier(name) = &left.kind {
                if let Err(e) = self.check_target_name(name.as_str(), left.span) {
                    return Err(e);
                }
            }
            AssignmentTarget::Simple(left)
        };
        if let Err(e) = self.advance(Goal::RegExp) {
            return Err(e);
        }
        // The right operand stays an expression whatever becomes of a literal around this
        // assignment, so the rules it owes are not that literal's to discard.
        let enclosing = self.protecting_from;
        self.protecting_from = Some(self.current.span.start);
        if let Err(e) = self.enter() {
            self.protecting_from = enclosing;
            return Err(e);
        }
        // `LeftHandSideExpression = AssignmentExpression`: `a = b = c` is `a = (b = c)`.
        let value = self.parse_assignment(allow_in);
        self.leave();
        self.protecting_from = enclosing;
        let value = match value {
            Ok(value) => value,
            Err(e) => return Err(e),
        };
        let span = start.to(value.span);
        Ok(
            Expr::new(
                ExprKind::Assignment { operator, target: Box::new(target), value: Box::new(value) },
                span,
            ),
        )
    }

    /// `? AssignmentExpression : AssignmentExpression` (§13.14), with `test` already read.
    pub fn parse_conditional_tail(&mut self, test: Expr, allow_in: bool) -> (r: Result<
        Expr,
        ParseError,
    >)
        requires
            old(self).wf(),
            test.span.end == old(self).consumed_to@,
            old(self).current.kind == TokenKind::Question,
        ensures
            final(self).kept_from(*old(self)),
            r matches Ok(e) ==> final(self).read_since(e.span, test.span.start as int),
            r is Ok ==> final(self).moved_past(*old(self)),
        decreases MAX_NESTING_DEPTH - old(self).depth, 57int,
    {
        if let Err(e) = self.advance(Goal::RegExp) {
            return Err(e);
        }
        if let Err(e) = self.enter() {
            return Err(e);
        }
        let arms = self.parse_conditional_arms(allow_in);
        self.leave();
        let (consequent, alternate) = match arms {
            Ok(arms) => arms,
            Err(e) => return Err(e),
        };
        let span = test.span.to(alternate.span);
        Ok(
            Expr::new(
                ExprKind::Conditional {
                    test: Box::new(test),
                    consequent: Box::new(consequent),
                    alternate: Box::new(alternate),
                },
                span,
            ),
        )
    }

    /// The two arms of a conditional: the first always `[+In]`, the second as the whole is.
    pub fn parse_conditional_arms(&mut self, allow_in: bool) -> (r: Result<(Expr, Expr), ParseError>)
        requires
            old(self).wf(),
        ensures
            final(self).kept_from(*old(self)),
            r matches Ok((c, _)) ==> (c.span.start == old(self).current.span.start || old(self).at_async()) && within(c.span, old(self).current.span.start as int, final(self).current.span.start as int),
            r matches Ok((_, a)) ==> final(self).ends_read(a.span, old(self).current.span.start as int),
        decreases MAX_NESTING_DEPTH - old(self).depth, 90int,
    {
        let consequent = match self.parse_assignment(true) {
            Ok(consequent) => consequent,
            Err(e) => return Err(e),
        };
        if let Err(e) = self.eat(TokenKind::Colon, Goal::RegExp, "`:`") {
            return Err(e);
        }
        let alternate = match self.parse_assignment(allow_in) {
            Ok(alternate) => alternate,
            Err(e) => return Err(e),
        };
        Ok((consequent, alternate))
    }

    /// The operator layers of §13.6 – §13.13, by precedence climbing.
    ///
    /// `minimum` is the weakest binding power this call accepts. Left-associative operators
    /// recurse one level tighter so the next operator of equal precedence is left for the loop;
    /// `**` recurses at its own level so the recursion takes it instead.
    #[verifier::rlimit(60)]
    #[verifier::spinoff_prover]
    pub fn parse_binary(&mut self, minimum: u8, head: Option<Expr>, allow_in: bool) -> (r: Result<
        Expr,
        ParseError,
    >)
        requires
            old(self).wf(),
            head matches Some(h) ==> h.span.end == old(self).consumed_to@,
            head matches Some(h) ==> super::member::begins_chain(h),
        ensures
            final(self).kept_from(*old(self)),
            r matches Ok(e) ==> final(self).read_after_head(e.span, head, *old(self)),
            r is Ok ==> head is Some || final(self).moved_past(*old(self)),
            head is None && old(self).at_lone_number() ==> final(self).read_one_number(*old(self), r),
            head is None && old(self).too_deep_ahead() ==> (r matches Err(e) && e.kind == ParseErrorKind::TooDeeplyNested),
        decreases MAX_NESTING_DEPTH - old(self).depth, 39int,
    {
        let private_in = head.is_none() && minimum <= 8 && match self.current.kind {
            TokenKind::PrivateIdentifier { .. } => true,
            _ => false,
        };
        let had_head = head.is_some();
        let mut left = if private_in {
            match self.parse_private_in(allow_in) {
                Ok(left) => left,
                Err(e) => return Err(e),
            }
        } else {
            match self.parse_unary(head) {
                Ok(left) => left,
                Err(e) => return Err(e),
            }
        };
        let ghost first = head;
        // No operator follows: the operand is all there is.
        if binary_operator(self.current.kind).is_none() {
            return Ok(left);
        }
        loop
            invariant
                self.kept_from(*old(self)),
                had_head || self.moved_past(*old(self)),
                self.read_after_head(left.span, first, *old(self)),
                !(!had_head && old(self).at_lone_number()),
                !(!had_head && old(self).too_deep_ahead()),
                had_head == head is Some,
            decreases self.remaining(),
        {
            let operator = match binary_operator(self.current.kind) {
                Some(operator) => operator,
                None => break,
            };
            if operator.precedence < minimum {
                break;
            }
            // `[~In]`: in the first clause of a `for` header, `in` belongs to the loop.
            if !allow_in && self.current.kind == TokenKind::Keyword(ReservedWord::In) {
                break;
            }
            // §13.6: the left operand of `**` is an `UpdateExpression`, which a prefix unary and
            // an `await` are not.
            if operator.kind == OperatorKind::Binary(BinaryOperator::Exponent) && !left.parenthesized
                && match left.kind {
                ExprKind::Unary { .. } | ExprKind::Await(_) => true,
                _ => false,
            } {
                return Err(ParseError { kind: ParseErrorKind::ExponentiationOnUnary, span: left.span });
            }
            if let Err(e) = self.advance(Goal::RegExp) {
                return Err(e);
            }
            let tighter = if operator.right_associative {
                operator.precedence
            } else {
                operator.precedence + 1
            };
            if let Err(e) = self.enter() {
                return Err(e);
            }
            let right = self.parse_binary(tighter, None, allow_in);
            self.leave();
            let right = match right {
                Ok(right) => right,
                Err(e) => return Err(e),
            };
            left = match combine(left, operator, right) {
                Ok(combined) => combined,
                Err(e) => return Err(e),
            };
        }
        Ok(left)
    }

    /// `PrivateIdentifier in ShiftExpression` (§13.10): the one place a private name stands
    /// alone, and only where `in` may.
    pub fn parse_private_in(&mut self, allow_in: bool) -> (r: Result<Expr, ParseError>)
        requires
            old(self).wf(),
        ensures
            final(self).kept_from(*old(self)),
            r matches Ok(e) ==> final(self).read_since(e.span, old(self).current.span.start as int),
            r is Ok ==> final(self).moved_past(*old(self)),
        decreases MAX_NESTING_DEPTH - old(self).depth, 37int,
    {
        let token = self.current;
        let next = match self.peek(Goal::Div) {
            Ok(next) => next,
            Err(e) => return Err(e),
        };
        if !allow_in || next.kind != TokenKind::Keyword(ReservedWord::In) || token.kind
            == TokenKind::Eof {
            return Err(self.unexpected("an expression"));
        }
        if let Err(e) = self.advance(Goal::Div) {
            return Err(e);
        }
        let name = match self.private_name(token) {
            Ok(name) => name,
            Err(e) => return Err(e),
        };
        if let Err(e) = self.advance(Goal::RegExp) {
            return Err(e);
        }
        if let Err(e) = self.enter() {
            return Err(e);
        }
        // The relational level is 8, so the right operand is a `ShiftExpression` or tighter.
        let right = self.parse_binary(9, None, allow_in);
        self.leave();
        let right = match right {
            Ok(right) => right,
            Err(e) => return Err(e),
        };
        let span = token.span.to(right.span);
        Ok(Expr::new(ExprKind::PrivateIn { name, right: Box::new(right) }, span))
    }

    /// `UnaryExpression` (§13.5) and the prefix `UpdateExpression`s, or whatever they fall
    /// through to.
    pub fn parse_unary(&mut self, head: Option<Expr>) -> (r: Result<Expr, ParseError>)
        requires
            old(self).wf(),
            head matches Some(h) ==> h.span.end == old(self).consumed_to@,
            head matches Some(h) ==> super::member::begins_chain(h),
        ensures
            final(self).kept_from(*old(self)),
            r matches Ok(e) ==> final(self).read_after_head(e.span, head, *old(self)),
            r is Ok ==> head is Some || final(self).moved_past(*old(self)),
            head is None && old(self).at_lone_number() ==> final(self).read_one_number(*old(self), r),
            head is None && old(self).too_deep_ahead() ==> (r matches Err(e) && e.kind == ParseErrorKind::TooDeeplyNested),
        decreases MAX_NESTING_DEPTH - old(self).depth, 38int,
    {
        if head.is_some() {
            return self.parse_postfix(head);
        }
        if self.current.kind == TokenKind::Keyword(ReservedWord::Await) && self.await_allowed {
            return self.parse_await();
        }
        let increment = self.current.kind == TokenKind::PlusPlus;
        if increment || self.current.kind == TokenKind::MinusMinus {
            let token = match self.advance(Goal::RegExp) {
                Ok(token) => token,
                Err(e) => return Err(e),
            };
            if let Err(e) = self.enter() {
                return Err(e);
            }
            let argument = self.parse_unary(None);
            self.leave();
            let argument = match argument {
                Ok(argument) => argument,
                Err(e) => return Err(e),
            };
            if let Err(e) = self.check_update_target(&argument) {
                return Err(e);
            }
            let span = token.span.to(argument.span);
            return Ok(
                Expr::new(
                    ExprKind::Update { increment, prefix: true, argument: Box::new(argument) },
                    span,
                ),
            );
        }
        let operator = match unary_operator(self.current.kind) {
            Some(operator) => operator,
            None => return self.parse_postfix(None),
        };
        let token = match self.advance(Goal::RegExp) {
            Ok(token) => token,
            Err(e) => return Err(e),
        };
        if let Err(e) = self.enter() {
            return Err(e);
        }
        // `- UnaryExpression`, so the operators stack: `- - a` is two of them.
        let argument = self.parse_unary(None);
        self.leave();
        let argument = match argument {
            Ok(argument) => argument,
            Err(e) => return Err(e),
        };
        if operator == UnaryOperator::Delete {
            // §13.5.1.1: strict code may not delete a name, and nothing may delete a private
            // member — parentheses change neither.
            if self.strict && match argument.kind {
                ExprKind::Identifier(_) => true,
                _ => false,
            } {
                return Err(ParseError { kind: ParseErrorKind::StrictDeleteOfName, span: argument.span });
            }
            if is_private_member(&argument) {
                return Err(ParseError { kind: ParseErrorKind::DeleteOfPrivateMember, span: argument.span });
            }
        }
        let span = token.span.to(argument.span);
        Ok(Expr::new(ExprKind::Unary { operator, argument: Box::new(argument) }, span))
    }

    /// A `LeftHandSideExpression` and the postfix `++` or `--` that may follow it on the same
    /// line.
    pub fn parse_postfix(&mut self, head: Option<Expr>) -> (r: Result<Expr, ParseError>)
        requires
            old(self).wf(),
            head matches Some(h) ==> h.span.end == old(self).consumed_to@,
            head matches Some(h) ==> super::member::begins_chain(h),
        ensures
            final(self).kept_from(*old(self)),
            r matches Ok(e) ==> final(self).read_after_head(e.span, head, *old(self)),
            r is Ok ==> head is Some || final(self).moved_past(*old(self)),
            head is None && old(self).at_lone_number() ==> final(self).read_one_number(*old(self), r),
            head is None && old(self).too_deep_ahead() ==> (r matches Err(e) && e.kind == ParseErrorKind::TooDeeplyNested),
        decreases MAX_NESTING_DEPTH - old(self).depth, 36int,
    {
        let argument = match self.parse_member(true, head) {
            Ok(argument) => argument,
            Err(e) => return Err(e),
        };
        let increment = self.current.kind == TokenKind::PlusPlus;
        if !(increment || self.current.kind == TokenKind::MinusMinus)
            || self.current.newline_before {
            return Ok(argument);
        }
        if let Err(e) = self.check_update_target(&argument) {
            return Err(e);
        }
        let operator = match self.advance(Goal::Div) {
            Ok(operator) => operator,
            Err(e) => return Err(e),
        };
        let span = argument.span.to(operator.span);
        Ok(
            Expr::new(
                ExprKind::Update { increment, prefix: false, argument: Box::new(argument) },
                span,
            ),
        )
    }

    /// §13.4.1: the operand of `++` or `--` must be a simple assignment target.
    pub fn check_update_target(&self, argument: &Expr) -> (r: Result<(), ParseError>)
        ensures
            r is Ok <==> is_simple_target(argument) && !(self.strict && (argument.kind matches ExprKind::Identifier(
                name,
            ) && is_eval_or_arguments(name@))),
            r matches Err(e) ==> e.span == argument.span,
    {
        if !is_simple_assignment_target(argument) {
            return Err(ParseError { kind: ParseErrorKind::InvalidAssignmentTarget, span: argument.span });
        }
        if let ExprKind::Identifier(name) = &argument.kind {
            return self.check_target_name(name.as_str(), argument.span);
        }
        Ok(())
    }
}

} // verus!
