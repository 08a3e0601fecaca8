//! `try`, `catch` and `finally` (§14.15).
//!
//! The catch parameter is optional, may be a pattern, may not bind a name twice, and may not be
//! declared again lexically by its own block.

use vstd::prelude::*;
use super::names::{first_repeat, push_bound_names, DeclaredName};
use super::{ParseError, ParseErrorKind, Parser, MAX_NESTING_DEPTH};
use crate::ast::{CatchClause, Stmt, StmtKind, TryStatement};
use crate::lexer::{Goal, ReservedWord, TokenKind};

verus! {

impl<'a> Parser<'a> {
    /// `TryStatement`, with the cursor on `try`.
    pub fn parse_try(&mut self) -> (r: Result<Stmt, ParseError>)
        requires
            old(self).wf(),
        ensures
            final(self).kept_from(*old(self)),
            r matches Ok(s) ==> final(self).read_since(s.span, old(self).current.span.start as int),
            r is Ok ==> final(self).moved_past(*old(self)),
            r matches Ok(s) ==> s.kind is Try,
        decreases MAX_NESTING_DEPTH - old(self).depth, 125int,
    {
        let keyword = match self.eat(TokenKind::Keyword(ReservedWord::Try), Goal::RegExp, "`try`") {
            Ok(keyword) => keyword,
            Err(e) => return Err(e),
        };
        if let Err(e) = self.enter() {
            return Err(e);
        }
        let block = self.parse_block_body();
        self.leave();
        let (block, mut end) = match block {
            Ok(block) => block,
            Err(e) => return Err(e),
        };
        let mut handler: Option<CatchClause> = None;
        if self.current.kind == TokenKind::Keyword(ReservedWord::Catch) {
            if let Err(e) = self.enter() {
                return Err(e);
            }
            let clause = self.parse_catch();
            self.leave();
            match clause {
                Ok((clause, close)) => {
                    handler = Some(clause);
                    end = close;
                },
                Err(e) => return Err(e),
            }
        }
        let mut finalizer: Option<Vec<Stmt>> = None;
        if self.current.kind == TokenKind::Keyword(ReservedWord::Finally) {
            if let Err(e) = self.advance(Goal::RegExp) {
                return Err(e);
            }
            if let Err(e) = self.enter() {
                return Err(e);
            }
            let body = self.parse_block_body();
            self.leave();
            match body {
                Ok((body, close)) => {
                    finalizer = Some(body);
                    end = close;
                },
                Err(e) => return Err(e),
            }
        }
        if handler.is_none() && finalizer.is_none() {
            return Err(ParseError { kind: ParseErrorKind::TryWithoutHandler, span: self.current.span });
        }
        Ok(
            Stmt {
                kind: StmtKind::Try(Box::new(TryStatement { block, handler, finalizer })),
                span: keyword.span.to(end),
            },
        )
    }

    /// `Catch`, with the cursor on `catch`.
    pub fn parse_catch(&mut self) -> (r: Result<(CatchClause, crate::span::Span), ParseError>)
        requires
            old(self).wf(),
        ensures
            final(self).kept_from(*old(self)),
            r matches Ok((_, close)) ==> final(self).ends_read(close, old(self).current.span.start as int),
            r is Ok ==> final(self).moved_past(*old(self)),
        decreases MAX_NESTING_DEPTH - old(self).depth, 160int,
    {
        if let Err(e) = self.eat(TokenKind::Keyword(ReservedWord::Catch), Goal::RegExp, "`catch`") {
            return Err(e);
        }
        let mut names: Vec<DeclaredName> = Vec::new();
        let parameter = if self.current.kind == TokenKind::LParen {
            if let Err(e) = self.advance(Goal::RegExp) {
                return Err(e);
            }
            let binding = match self.parse_binding() {
                Ok(binding) => binding,
                Err(e) => return Err(e),
            };
            if let Err(e) = self.eat(TokenKind::RParen, Goal::RegExp, "`)`") {
                return Err(e);
            }
            push_bound_names(&binding, &mut names);
            if let Some(k) = first_repeat(&names) {
                return Err(ParseError { kind: ParseErrorKind::DuplicateCatchParameterName, span: names[k].1 });
            }
            Some(binding)
        } else {
            None
        };
        match self.parse_block_body_against(&names) {
            Ok((body, close)) => Ok((CatchClause { parameter, body }, close)),
            Err(e) => Err(e),
        }
    }
}

} // verus!
