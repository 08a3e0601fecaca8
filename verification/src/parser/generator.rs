//! `yield` (§15.5), and the parameter lists that may not hold it.
//!
//! Inside a generator `yield` is an operator; outside one it is an ordinary name. A generator's
//! own parameters are read with `[+Yield]`, so `yield` there is an expression, which §15.5.1
//! forbids — so the first one read is kept as an error, and a parameter list reports it.

use vstd::prelude::*;
use super::{ParseError, ParseErrorKind, Parser, MAX_NESTING_DEPTH};
use crate::ast::{Expr, ExprKind, FormalParameters, YieldExpression};
use crate::lexer::{Goal, TokenKind};

verus! {

impl<'a> Parser<'a> {
    /// `YieldExpression`, with the cursor on `yield`: bare, with an operand on the same line, or
    /// delegating with `*`.
    pub fn parse_yield(&mut self, allow_in: bool) -> (r: Result<Expr, ParseError>)
        requires
            old(self).wf(),
        ensures
            final(self).kept_from(*old(self)),
            r matches Ok(e) ==> final(self).read_since(e.span, old(self).current.span.start as int),
            r is Ok ==> final(self).moved_past(*old(self)),
        decreases MAX_NESTING_DEPTH - old(self).depth, 40int,
    {
        if self.current.kind == TokenKind::Eof {
            return Err(self.unexpected("`yield`"));
        }
        let keyword = match self.advance(Goal::RegExp) {
            Ok(keyword) => keyword,
            Err(e) => return Err(e),
        };
        if self.forbidden_in_parameters.is_none() {
            self.forbidden_in_parameters = Some(
                ParseError { kind: ParseErrorKind::YieldInParameters, span: keyword.span },
            );
        }
        let delegate = self.current.kind == TokenKind::Star && !self.current.newline_before;
        if delegate {
            if let Err(e) = self.advance(Goal::RegExp) {
                return Err(e);
            }
        }
        let has_operand = delegate || (!self.current.newline_before
            && super::primary::begins_an_expression(self.current.kind));
        let argument = if has_operand {
            if let Err(e) = self.enter() {
                return Err(e);
            }
            let argument = self.parse_assignment(allow_in);
            self.leave();
            match argument {
                Ok(argument) => Some(Box::new(argument)),
                Err(e) => return Err(e),
            }
        } else {
            None
        };
        let end = match &argument {
            Some(value) => value.span,
            None => keyword.span,
        };
        Ok(
            Expr::new(
                ExprKind::Yield(Box::new(YieldExpression { argument, delegate })),
                keyword.span.to(end),
            ),
        )
    }

    /// A function's `FormalParameters`, read with its own `[Yield]` and `[Await]`. A `yield`
    /// or `await` expression among them is the error §15.5.1 and §15.8.1 make it.
    pub fn parse_parameters_of(&mut self, is_generator: bool, is_async: bool) -> (r: Result<
        FormalParameters,
        ParseError,
    >)
        requires
            old(self).wf(),
        ensures
            final(self).yield_allowed == old(self).yield_allowed,
            final(self).await_allowed == old(self).await_allowed,
            final(self).forbidden_in_parameters == old(self).forbidden_in_parameters,
            final(self).kept_from(*old(self)),
            r is Ok ==> final(self).moved_past(*old(self)),
            r matches Ok(p) ==> final(self).read_since(p.span, old(self).current.span.start as int),
            old(self).current.kind != TokenKind::LParen ==> *final(self) == *old(self) && r == Err::<
                FormalParameters,
                ParseError,
            >(
                ParseError {
                    kind: ParseErrorKind::Unexpected { expected: "`(`", found: old(self).current.kind },
                    span: old(self).current.span,
                },
            ),
        decreases MAX_NESTING_DEPTH - old(self).depth, 159int,
    {
        let enclosing_yield = self.yield_allowed;
        let enclosing_await = self.await_allowed;
        let enclosing_seen = self.forbidden_in_parameters;
        self.forbidden_in_parameters = None;
        self.yield_allowed = is_generator;
        self.await_allowed = is_async;
        let parameters = self.parse_formal_parameters();
        let seen = self.forbidden_in_parameters;
        self.yield_allowed = enclosing_yield;
        self.await_allowed = enclosing_await;
        self.forbidden_in_parameters = enclosing_seen;
        let parameters = match parameters {
            Ok(parameters) => parameters,
            Err(e) => return Err(e),
        };
        if let Some(error) = seen {
            return Err(error);
        }
        Ok(parameters)
    }
}

} // verus!
