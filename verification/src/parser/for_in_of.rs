//! The tail of `for`-`in` and `for`-`of` (§14.7.5), once the head has been read.
//!
//! The right of `in` is an `Expression` and the right of `of` an `AssignmentExpression`, so
//! `for (a of b, c)` has no derivation where `for (a in b, c)` does.

use vstd::prelude::*;
use super::{ParseError, ParseErrorKind, Parser, MAX_NESTING_DEPTH};
use crate::ast::{Expr, ExprKind, ForInOfKind, ForInOfStatement, ForInOfTarget, Stmt, StmtKind};
use crate::lexer::{Goal, ReservedWord, TokenKind};
use crate::span::Span;

verus! {

impl<'a> Parser<'a> {
    /// `in` or an unescaped `of`, if one is next.
    pub fn for_in_of_operator(&self) -> (r: Option<ForInOfKind>)
        requires
            self.wf(),
        ensures
            r == Some(ForInOfKind::In) <==> self.current.kind == TokenKind::Keyword(ReservedWord::In),
            r is Some ==> self.current.kind != TokenKind::Eof,
    {
        if self.current.kind == TokenKind::Keyword(ReservedWord::In) {
            return Some(ForInOfKind::In);
        }
        if self.at_contextual("of") {
            return Some(ForInOfKind::Of);
        }
        None
    }

    /// The operator, the right-hand side, the `)` and the body.
    pub fn parse_for_in_of_tail(&mut self, left: ForInOfTarget, kind: ForInOfKind) -> (r: Result<
        (StmtKind, Span),
        ParseError,
    >)
        requires
            old(self).wf(),
        ensures
            r matches Ok((k, _)) ==> k is ForInOf,
            final(self).kept_from(*old(self)),
            r matches Ok((k, end)) ==> final(self).ends_statement((Stmt { kind: k, span: end }), old(self).current.span.start as int),
            r is Ok ==> final(self).moved_past(*old(self)),
        decreases MAX_NESTING_DEPTH - old(self).depth, 165int,
    {
        if self.current.kind == TokenKind::Eof {
            return Err(self.unexpected("`in` or `of`"));
        }
        if let Err(e) = self.advance(Goal::RegExp) {
            return Err(e);
        }
        if let Err(e) = self.enter() {
            return Err(e);
        }
        let right = match kind {
            ForInOfKind::In => self.parse_expression(true),
            ForInOfKind::Of => self.parse_assignment(true),
        };
        self.leave();
        let right = match right {
            Ok(right) => right,
            Err(e) => return Err(e),
        };
        if let Err(e) = self.eat(TokenKind::RParen, Goal::RegExp, "`)`") {
            return Err(e);
        }
        let body = match self.parse_loop_body() {
            Ok(body) => body,
            Err(e) => return Err(e),
        };
        let end = body.span;
        Ok((StmtKind::ForInOf(Box::new(ForInOfStatement { kind, is_await: false, left, right, body })), end))
    }

    /// §14.7.5.1: a target that is not a pattern must be simple, and in strict code not `eval`
    /// or `arguments`.
    pub fn check_for_in_of_target(&self, left: &Expr) -> (r: Result<(), ParseError>)
        ensures
            !super::operator::is_simple_target(left) ==> r is Err,
    {
        if super::operator::is_simple_assignment_target(left) {
            if let ExprKind::Identifier(name) = &left.kind {
                return self.check_target_name(name.as_str(), left.span);
            }
            return Ok(());
        }
        Err(ParseError { kind: ParseErrorKind::InvalidAssignmentTarget, span: left.span })
    }
}

} // verus!
