//! `if`, `while`, `do`–`while`, `throw`, `break` and `continue` (§14.6 – §14.9, §14.14).

use vstd::prelude::*;
use super::{within, ParseError, ParseErrorKind, Parser, MAX_NESTING_DEPTH};
use crate::ast::{DoWhileStatement, Expr, IfStatement, Label, Stmt, StmtKind, WhileStatement};
use crate::lexer::{Goal, ReservedWord, TokenKind};

verus! {

impl<'a> Parser<'a> {
    /// `IfStatement`, with the cursor on `if`. An `else` belongs to the nearest `if`.
    pub fn parse_if(&mut self) -> (r: Result<Stmt, ParseError>)
        requires
            old(self).wf(),
        ensures
            final(self).kept_from(*old(self)),
            r matches Ok(s) ==> final(self).read_statement(s, *old(self)),
            r is Ok ==> final(self).moved_past(*old(self)),
            r matches Ok(s) ==> s.kind is If,
        decreases MAX_NESTING_DEPTH - old(self).depth, 125int,
    {
        let keyword = match self.eat(TokenKind::Keyword(ReservedWord::If), Goal::RegExp, "`if`") {
            Ok(keyword) => keyword,
            Err(e) => return Err(e),
        };
        let test = match self.parse_parenthesized_test() {
            Ok(test) => test,
            Err(e) => return Err(e),
        };
        if let Err(e) = self.enter() {
            return Err(e);
        }
        let branches = self.parse_if_branches();
        self.leave();
        let (consequent, alternate) = match branches {
            Ok(branches) => branches,
            Err(e) => return Err(e),
        };
        let end = match &alternate {
            Some(alternate) => alternate.span,
            None => consequent.span,
        };
        Ok(
            Stmt {
                kind: StmtKind::If(Box::new(IfStatement { test, consequent, alternate })),
                span: keyword.span.to(end),
            },
        )
    }

    /// The two branches of an `if`.
    pub fn parse_if_branches(&mut self) -> (r: Result<(Stmt, Option<Stmt>), ParseError>)
        requires
            old(self).wf(),
        ensures
            final(self).kept_from(*old(self)),
            r matches Ok((c, a)) ==> (a is None ==> final(self).read_statement(c, *old(self))),
            r matches Ok((c, a)) ==> within(c.span, old(self).current.span.start as int, final(self).current.span.start as int),
            r matches Ok((c, a)) ==> c.span.start == old(self).current.span.start || old(self).at_async(),
            r matches Ok((_, a)) ==> (a matches Some(a) ==> final(self).ends_statement(a, old(self).current.span.start as int)),
            r is Ok ==> final(self).moved_past(*old(self)),
        decreases MAX_NESTING_DEPTH - old(self).depth, 135int,
    {
        let consequent = match self.parse_statement() {
            Ok(consequent) => consequent,
            Err(e) => return Err(e),
        };
        if self.current.kind != TokenKind::Keyword(ReservedWord::Else) {
            return Ok((consequent, None));
        }
        if let Err(e) = self.advance(Goal::RegExp) {
            return Err(e);
        }
        match self.parse_statement() {
            Ok(alternate) => Ok((consequent, Some(alternate))),
            Err(e) => Err(e),
        }
    }

    /// `while ( Expression ) Statement`.
    pub fn parse_while(&mut self) -> (r: Result<Stmt, ParseError>)
        requires
            old(self).wf(),
        ensures
            final(self).kept_from(*old(self)),
            r matches Ok(s) ==> final(self).read_statement(s, *old(self)),
            r is Ok ==> final(self).moved_past(*old(self)),
            r matches Ok(s) ==> s.kind is While,
        decreases MAX_NESTING_DEPTH - old(self).depth, 125int,
    {
        let keyword = match self.eat(TokenKind::Keyword(ReservedWord::While), Goal::RegExp, "`while`") {
            Ok(keyword) => keyword,
            Err(e) => return Err(e),
        };
        let test = match self.parse_parenthesized_test() {
            Ok(test) => test,
            Err(e) => return Err(e),
        };
        if let Err(e) = self.enter() {
            return Err(e);
        }
        let body = self.parse_loop_body();
        self.leave();
        let body = match body {
            Ok(body) => body,
            Err(e) => return Err(e),
        };
        let span = keyword.span.to(body.span);
        Ok(Stmt { kind: StmtKind::While(Box::new(WhileStatement { test, body })), span })
    }

    /// `do Statement while ( Expression ) ;`, whose `;` may always be left out (§12.10).
    pub fn parse_do_while(&mut self) -> (r: Result<Stmt, ParseError>)
        requires
            old(self).wf(),
        ensures
            final(self).kept_from(*old(self)),
            r matches Ok(s) ==> final(self).read_statement(s, *old(self)),
            r is Ok ==> final(self).moved_past(*old(self)),
            r matches Ok(s) ==> s.kind is DoWhile,
        decreases MAX_NESTING_DEPTH - old(self).depth, 125int,
    {
        let keyword = match self.eat(TokenKind::Keyword(ReservedWord::Do), Goal::RegExp, "`do`") {
            Ok(keyword) => keyword,
            Err(e) => return Err(e),
        };
        if let Err(e) = self.enter() {
            return Err(e);
        }
        let body = self.parse_loop_body();
        self.leave();
        let body = match body {
            Ok(body) => body,
            Err(e) => return Err(e),
        };
        if let Err(e) = self.eat(TokenKind::Keyword(ReservedWord::While), Goal::RegExp, "`while`") {
            return Err(e);
        }
        let test = match self.parse_parenthesized_test() {
            Ok(test) => test,
            Err(e) => return Err(e),
        };
        let end = if self.current.kind == TokenKind::Semicolon {
            match self.advance(Goal::RegExp) {
                Ok(token) => token.span,
                Err(e) => return Err(e),
            }
        } else {
            test.span
        };
        Ok(Stmt { kind: StmtKind::DoWhile(Box::new(DoWhileStatement { body, test })), span: keyword.span.to(end) })
    }

    /// A loop's body, inside which `break` and `continue` have somewhere to go.
    pub fn parse_loop_body(&mut self) -> (r: Result<Stmt, ParseError>)
        requires
            old(self).wf(),
        ensures
            final(self).kept_from(*old(self)),
            r matches Ok(s) ==> final(self).read_statement(s, *old(self)),
            r is Ok ==> final(self).moved_past(*old(self)),
        decreases MAX_NESTING_DEPTH - old(self).depth, 135int,
    {
        let enclosing_iteration = self.scope.in_iteration;
        let enclosing_breakable = self.scope.in_breakable;
        self.scope.in_iteration = true;
        self.scope.in_breakable = true;
        let body = self.parse_statement();
        self.scope.in_iteration = enclosing_iteration;
        self.scope.in_breakable = enclosing_breakable;
        body
    }

    /// `( Expression )`, as the head of `if`, `while`, `switch` or `with`.
    pub fn parse_parenthesized_test(&mut self) -> (r: Result<Expr, ParseError>)
        requires
            old(self).wf(),
        ensures
            final(self).kept_from(*old(self)),
            r matches Ok(e) ==> old(self).current.span.end <= e.span.start && e.span.end <= final(self).consumed_to@,
            r is Ok ==> final(self).moved_past(*old(self)),
        decreases MAX_NESTING_DEPTH - old(self).depth, 100int,
    {
        if let Err(e) = self.eat(TokenKind::LParen, Goal::RegExp, "`(`") {
            return Err(e);
        }
        if let Err(e) = self.enter() {
            return Err(e);
        }
        let test = self.parse_expression(true);
        self.leave();
        let test = match test {
            Ok(test) => test,
            Err(e) => return Err(e),
        };
        if let Err(e) = self.eat(TokenKind::RParen, Goal::RegExp, "`)`") {
            return Err(e);
        }
        Ok(test)
    }

    /// `throw Expression ;`, the value on the same line as the keyword (§14.14).
    pub fn parse_throw(&mut self) -> (r: Result<Stmt, ParseError>)
        requires
            old(self).wf(),
        ensures
            final(self).kept_from(*old(self)),
            r matches Ok(s) ==> final(self).read_since(s.span, old(self).current.span.start as int),
            r is Ok ==> final(self).moved_past(*old(self)),
            r matches Ok(s) ==> s.kind is Throw,
        decreases MAX_NESTING_DEPTH - old(self).depth, 110int,
    {
        let keyword = match self.eat(TokenKind::Keyword(ReservedWord::Throw), Goal::RegExp, "`throw`") {
            Ok(keyword) => keyword,
            Err(e) => return Err(e),
        };
        if self.current.newline_before {
            return Err(ParseError { kind: ParseErrorKind::NewlineAfterThrow, span: self.current.span });
        }
        if let Err(e) = self.enter() {
            return Err(e);
        }
        let value = self.parse_expression(true);
        self.leave();
        let value = match value {
            Ok(value) => value,
            Err(e) => return Err(e),
        };
        let end = match self.consume_semicolon(value.span) {
            Ok(end) => end,
            Err(e) => return Err(e),
        };
        Ok(Stmt { kind: StmtKind::Throw(Box::new(value)), span: keyword.span.to(end) })
    }

    /// `break` or `continue`, with a label if one follows on the same line, and only where
    /// there is something for it to leave.
    pub fn parse_break_or_continue(&mut self, is_break: bool) -> (r: Result<Stmt, ParseError>)
        requires
            old(self).wf(),
        ensures
            final(self).kept_from(*old(self)),
            r matches Ok(s) ==> final(self).read_since(s.span, old(self).current.span.start as int),
            r is Ok ==> final(self).moved_past(*old(self)),
            r matches Ok(s) ==> (if is_break { s.kind is Break } else { s.kind is Continue }),
    {
        let expected = if is_break {
            TokenKind::Keyword(ReservedWord::Break)
        } else {
            TokenKind::Keyword(ReservedWord::Continue)
        };
        let keyword = match self.eat(expected, Goal::Div, "`break` or `continue`") {
            Ok(keyword) => keyword,
            Err(e) => return Err(e),
        };
        let token = self.current;
        let label = if !token.newline_before && self.is_identifier_token(token.kind) {
            if let Err(e) = self.advance(Goal::RegExp) {
                return Err(e);
            }
            match self.name_of(token) {
                Ok(name) => Some(Label { name, span: token.span }),
                Err(e) => return Err(e),
            }
        } else {
            None
        };
        let checked = match &label {
            Some(label) => self.check_jump(is_break, keyword.span, Some((label.name.as_str(), label.span))),
            None => self.check_jump(is_break, keyword.span, None),
        };
        if let Err(e) = checked {
            self.note_jump_error(e);
        }
        let last = match &label {
            Some(label) => label.span,
            None => keyword.span,
        };
        let end = match self.consume_semicolon(last) {
            Ok(end) => end,
            Err(e) => return Err(e),
        };
        let kind = if is_break {
            StmtKind::Break(label)
        } else {
            StmtKind::Continue(label)
        };
        Ok(Stmt { kind, span: keyword.span.to(end) })
    }
}

} // verus!
