//! `async` and `await` (§15.8).
//!
//! `async` is not reserved: it begins an async function only when `function` follows it on the
//! same line, and an async method only when a property name does. `await` is an operator inside
//! an async function and in a module, and a name elsewhere in a script.

use vstd::prelude::*;
use super::{lexical_error, ParseError, ParseErrorKind, Parser, MAX_NESTING_DEPTH};
use crate::ast::{Expr, ExprKind};
use crate::lexer::{blank_from, Goal, ReservedWord, TokenKind};

verus! {

impl<'a> Parser<'a> {
    /// `AwaitExpression : await UnaryExpression`, with the cursor on `await`.
    pub fn parse_await(&mut self) -> (r: Result<Expr, ParseError>)
        requires
            old(self).wf(),
        ensures
            final(self).kept_from(*old(self)),
            r matches Ok(e) ==> final(self).read_since(e.span, old(self).current.span.start as int),
            r is Ok ==> final(self).moved_past(*old(self)),
        decreases MAX_NESTING_DEPTH - old(self).depth, 30int,
    {
        if self.current.kind == TokenKind::Eof {
            return Err(self.unexpected("`await`"));
        }
        let keyword = match self.advance(Goal::RegExp) {
            Ok(keyword) => keyword,
            Err(e) => return Err(e),
        };
        if self.forbidden_in_parameters.is_none() {
            self.forbidden_in_parameters = Some(
                ParseError { kind: ParseErrorKind::AwaitInParameters, span: keyword.span },
            );
        }
        if let Err(e) = self.enter() {
            return Err(e);
        }
        let argument = self.parse_unary(None);
        self.leave();
        let argument = match argument {
            Ok(argument) => argument,
            Err(e) => return Err(e),
        };
        let span = keyword.span.to(argument.span);
        Ok(Expr::new(ExprKind::Await(Box::new(argument)), span))
    }

    /// Whether an async function begins here: `async`, then `function` on the same line.
    pub fn at_async_function(&self) -> (r: Result<bool, ParseError>)
        requires
            self.wf(),
        ensures
            r matches Ok(true) ==> self.current.kind == (TokenKind::Identifier { contains_escape: false }),
            r matches Ok(true) ==> self.at_async(),
            !self.at_async() || blank_from(self.bytes@, self.lexer.pos as int) ==> r == Ok::<bool, ParseError>(false),
            r == (if !self.at_async() {
                Ok::<bool, ParseError>(false)
            } else {
                match self.next_read(Goal::RegExp) {
                    Ok(next) => Ok(next.kind == TokenKind::Keyword(ReservedWord::Function) && !next.newline_before),
                    Err(e) => Err(lexical_error(e)),
                }
            }),
    {
        if !self.at_contextual("async") {
            return Ok(false);
        }
        let next = match self.peek(Goal::RegExp) {
            Ok(next) => next,
            Err(e) => return Err(e),
        };
        Ok(next.kind == TokenKind::Keyword(ReservedWord::Function) && !next.newline_before)
    }

    /// Whether an async method begins here: `async`, then on the same line something that can
    /// begin a property name or a `*`.
    pub fn at_async_method(&self) -> (r: Result<bool, ParseError>)
        requires
            self.wf(),
        ensures
            r matches Ok(true) ==> self.current.kind == (TokenKind::Identifier { contains_escape: false }),
            !self.at_async() || blank_from(self.bytes@, self.lexer.pos as int) ==> r == Ok::<bool, ParseError>(false),
            r == (if !self.at_async() {
                Ok::<bool, ParseError>(false)
            } else {
                match self.next_read(Goal::Div) {
                    Ok(next) => Ok(
                        !next.newline_before && (next.kind == TokenKind::Star || next.kind == TokenKind::LBracket
                            || next.kind is String || next.kind is Number || next.kind == TokenKind::BigInt
                            || next.kind is Keyword || next.kind is Identifier || next.kind is PrivateIdentifier),
                    ),
                    Err(e) => Err(lexical_error(e)),
                }
            }),
    {
        if !self.at_contextual("async") {
            return Ok(false);
        }
        let next = match self.peek(Goal::Div) {
            Ok(next) => next,
            Err(e) => return Err(e),
        };
        if next.newline_before {
            return Ok(false);
        }
        Ok(
            match next.kind {
                TokenKind::Star | TokenKind::LBracket | TokenKind::String { .. }
                | TokenKind::Number { .. } | TokenKind::BigInt | TokenKind::Keyword(_)
                | TokenKind::Identifier { .. } | TokenKind::PrivateIdentifier { .. } => true,
                _ => false,
            },
        )
    }
}

} // verus!
