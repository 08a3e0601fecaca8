//! `switch` (§14.12).
//!
//! The clauses share one block, so a `let` in one `case` is visible — and may not be declared
//! again — in every other; and at most one of them is `default`.

use vstd::prelude::*;
use super::{ParseError, ParseErrorKind, Parser, MAX_NESTING_DEPTH};
use crate::ast::{Stmt, StmtKind, SwitchCase, SwitchStatement};
use crate::lexer::{Goal, ReservedWord, TokenKind};
use crate::span::Span;

verus! {

impl<'a> Parser<'a> {
    /// `SwitchStatement`, with the cursor on `switch`.
    pub fn parse_switch(&mut self) -> (r: Result<Stmt, ParseError>)
        requires
            old(self).wf(),
        ensures
            final(self).kept_from(*old(self)),
            r matches Ok(s) ==> final(self).read_since(s.span, old(self).current.span.start as int),
            r is Ok ==> final(self).moved_past(*old(self)),
            r matches Ok(s) ==> s.kind is Switch,
        decreases MAX_NESTING_DEPTH - old(self).depth, 125int,
    {
        let keyword = match self.eat(TokenKind::Keyword(ReservedWord::Switch), Goal::RegExp, "`switch`") {
            Ok(keyword) => keyword,
            Err(e) => return Err(e),
        };
        let discriminant = match self.parse_parenthesized_test() {
            Ok(discriminant) => discriminant,
            Err(e) => return Err(e),
        };
        if let Err(e) = self.enter() {
            return Err(e);
        }
        let cases = self.parse_case_block();
        self.leave();
        match cases {
            Ok((cases, close)) => Ok(
                Stmt {
                    kind: StmtKind::Switch(Box::new(SwitchStatement { discriminant, cases })),
                    span: keyword.span.to(close),
                },
            ),
            Err(e) => Err(e),
        }
    }

    /// `CaseBlock`: the clauses between the braces, inside which `break` has somewhere to go.
    pub fn parse_case_block(&mut self) -> (r: Result<(Vec<SwitchCase>, Span), ParseError>)
        requires
            old(self).wf(),
        ensures
            final(self).scope.lexical@ == old(self).scope.lexical@,
            final(self).kept_from(*old(self)),
            r matches Ok((_, close)) ==> final(self).ends_read(close, old(self).current.span.start as int),
            r is Ok ==> final(self).moved_past(*old(self)),
        decreases MAX_NESTING_DEPTH - old(self).depth, 145int,
    {
        if let Err(e) = self.eat(TokenKind::LBrace, Goal::RegExp, "`{`") {
            return Err(e);
        }
        let mark = self.open_scope();
        let enclosing_breakable = self.scope.in_breakable;
        self.scope.in_breakable = true;
        let cases = self.parse_case_clauses();
        self.scope.in_breakable = enclosing_breakable;
        self.close_scope(mark);
        let cases = match cases {
            Ok(cases) => cases,
            Err(e) => return Err(e),
        };
        match self.eat(TokenKind::RBrace, Goal::RegExp, "`}`") {
            Ok(close) => Ok((cases, close.span)),
            Err(e) => Err(e),
        }
    }

    /// The `case` and `default` clauses of a `CaseBlock`, up to the `}` that closes it, which is
    /// left unread; at most one `default` among them.
    pub fn parse_case_clauses(&mut self) -> (r: Result<Vec<SwitchCase>, ParseError>)
        requires
            old(self).wf(),
        ensures
            final(self).kept_from(*old(self)),
            r is Ok ==> final(self).current.kind == TokenKind::RBrace,
        decreases MAX_NESTING_DEPTH - old(self).depth, 144int,
    {
        let mut cases: Vec<SwitchCase> = Vec::new();
        let mut seen_default = false;
        while self.current.kind != TokenKind::RBrace
            invariant
                self.kept_from(*old(self)),
            decreases self.remaining(),
        {
            let ghost iteration_start = self.current.span.start;
            let test = if self.current.kind == TokenKind::Keyword(ReservedWord::Case) {
                if let Err(e) = self.advance(Goal::RegExp) {
                    return Err(e);
                }
                match self.parse_expression(true) {
                    Ok(test) => Some(test),
                    Err(e) => return Err(e),
                }
            } else if self.current.kind == TokenKind::Keyword(ReservedWord::Default) {
                if seen_default {
                    return Err(ParseError { kind: ParseErrorKind::MultipleDefaultClauses, span: self.current.span });
                }
                seen_default = true;
                if let Err(e) = self.advance(Goal::Div) {
                    return Err(e);
                }
                None
            } else {
                return Err(self.unexpected("`case` or `default`"));
            };
            if let Err(e) = self.eat(TokenKind::Colon, Goal::RegExp, "`:`") {
                return Err(e);
            }
            let mut body: Vec<Stmt> = Vec::new();
            while self.current.kind != TokenKind::RBrace && self.current.kind != TokenKind::Keyword(
                ReservedWord::Case,
            ) && self.current.kind != TokenKind::Keyword(ReservedWord::Default)
                invariant
                    self.kept_from(*old(self)),
                    self.moved_past(*old(self)),
                    self.current.span.start > iteration_start,
                decreases self.remaining(),
            {
                match self.parse_statement_list_item() {
                    Ok(statement) => body.push(statement),
                    Err(e) => return Err(e),
                }
            }
            cases.push(SwitchCase { test, body });
        }
        Ok(cases)
    }
}

} // verus!
