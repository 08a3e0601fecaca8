//! `for` statements (§14.7.4 – §14.7.5): the three-part form, `for`-`in`, `for`-`of` and
//! `for await`.
//!
//! The head decides which: a declaration or an expression is read first, with `in` not an
//! operator, and what follows it — `;`, `in` or `of` — says what it was. A `let` or `const` in
//! the head is scoped to the statement.

use vstd::prelude::*;
use super::{lexical_error, ParseError, ParseErrorKind, Parser, MAX_NESTING_DEPTH};
use crate::ast::{
    AssignmentTarget, DeclarationKind, Expr, ExprKind, ForInOfKind, ForInOfTarget, ForInit, ForStatement,
    Stmt, StmtKind,
};
use crate::lexer::{Goal, ReservedWord, TokenKind};
use crate::span::Span;

verus! {

impl<'a> Parser<'a> {
    /// `for`, with the cursor on the keyword.
    pub fn parse_for(&mut self) -> (r: Result<Stmt, ParseError>)
        requires
            old(self).wf(),
        ensures
            r matches Ok(s) ==> s.kind is For || s.kind is ForInOf,
            r is Ok ==> final(self).scope.lexical@ == old(self).scope.lexical@,
            final(self).kept_from(*old(self)),
            r matches Ok(s) ==> final(self).read_statement(s, *old(self)),
            r is Ok ==> final(self).moved_past(*old(self)),
        decreases MAX_NESTING_DEPTH - old(self).depth, 125int,
    {
        let keyword = match self.eat(TokenKind::Keyword(ReservedWord::For), Goal::RegExp, "`for`") {
            Ok(keyword) => keyword,
            Err(e) => return Err(e),
        };
        let is_await = match self.parse_for_await() {
            Ok(is_await) => is_await,
            Err(e) => return Err(e),
        };
        if let Err(e) = self.eat(TokenKind::LParen, Goal::RegExp, "`(`") {
            return Err(e);
        }
        if let Err(e) = self.enter() {
            return Err(e);
        }
        let mark = self.open_scope();
        let parts = self.parse_for_parts();
        self.close_scope(mark);
        self.leave();
        let (kind, end) = match parts {
            Ok(parts) => parts,
            Err(e) => return Err(e),
        };
        let kind = if is_await {
            match kind {
                StmtKind::ForInOf(statement) => {
                    if statement.kind != ForInOfKind::Of {
                        return Err(ParseError { kind: ParseErrorKind::ForAwaitMustBeForOf, span: keyword.span });
                    }
                    let mut statement = statement;
                    statement.is_await = true;
                    StmtKind::ForInOf(statement)
                },
                _ => {
                    return Err(ParseError { kind: ParseErrorKind::ForAwaitMustBeForOf, span: keyword.span });
                },
            }
        } else {
            kind
        };
        Ok(Stmt { kind, span: keyword.span.to(end) })
    }

    /// The `await` of `for await`, which only an async function or a module may hold.
    pub fn parse_for_await(&mut self) -> (r: Result<bool, ParseError>)
        requires
            old(self).wf(),
        ensures
            final(self).scope == old(self).scope,
            final(self).kept_from(*old(self)),
            r matches Ok(b) ==> b == (old(self).current.kind == TokenKind::Keyword(ReservedWord::Await)),
            old(self).current.kind != TokenKind::Keyword(ReservedWord::Await) ==> r == Ok::<bool, ParseError>(
                false,
            ) && *final(self) == *old(self),
            old(self).current.kind == TokenKind::Keyword(ReservedWord::Await) && !old(self).await_allowed
                ==> (r matches Err(e) && e.kind == ParseErrorKind::ForAwaitOutsideAsync && e.span == old(
                self,
            ).current.span),
            r == Ok::<bool, ParseError>(true) ==> final(self).moved_past(*old(self))
                && final(self).consumed_to@ == old(self).current.span.end,
            old(self).current.kind == TokenKind::Keyword(ReservedWord::Await) && old(self).await_allowed ==> r
                == (match old(self).next_read(Goal::RegExp) {
                Ok(_) => Ok::<bool, ParseError>(true),
                Err(e) => Err(lexical_error(e)),
            }),
    {
        if self.current.kind != TokenKind::Keyword(ReservedWord::Await) {
            return Ok(false);
        }
        if !self.await_allowed {
            return Err(ParseError { kind: ParseErrorKind::ForAwaitOutsideAsync, span: self.current.span });
        }
        match self.advance(Goal::RegExp) {
            Ok(_) => Ok(true),
            Err(e) => Err(e),
        }
    }

    /// Everything after the `(`.
    pub fn parse_for_parts(&mut self) -> (r: Result<(StmtKind, Span), ParseError>)
        requires
            old(self).wf(),
        ensures
            r matches Ok((k, _)) ==> k is For || k is ForInOf,
            final(self).kept_from(*old(self)),
            r matches Ok((k, end)) ==> final(self).ends_statement((Stmt { kind: k, span: end }), old(self).current.span.start as int),
            r is Ok ==> final(self).moved_past(*old(self)),
        decreases MAX_NESTING_DEPTH - old(self).depth, 171int,
    {
        if self.current.kind == TokenKind::Semicolon {
            if let Err(e) = self.advance(Goal::RegExp) {
                return Err(e);
            }
            return self.parse_three_part_tail(None);
        }
        if self.current.kind == TokenKind::Keyword(ReservedWord::Var) {
            return self.parse_declared_head(DeclarationKind::Var);
        }
        if self.current.kind == TokenKind::Keyword(ReservedWord::Const) {
            return self.parse_declared_head(DeclarationKind::Const);
        }
        let is_let = match self.at_lexical_let() {
            Ok(found) => found,
            Err(e) => return Err(e),
        };
        if is_let {
            return self.parse_declared_head(DeclarationKind::Let);
        }
        self.parse_expression_head()
    }

    /// A head that begins with a declaration.
    pub fn parse_declared_head(&mut self, kind: DeclarationKind) -> (r: Result<(StmtKind, Span), ParseError>)
        requires
            old(self).wf(),
        ensures
            r matches Ok((k, _)) ==> k is For || k is ForInOf,
            final(self).kept_from(*old(self)),
            r matches Ok((k, end)) ==> final(self).ends_statement((Stmt { kind: k, span: end }), old(self).current.span.start as int),
            r is Ok ==> final(self).moved_past(*old(self)),
        decreases MAX_NESTING_DEPTH - old(self).depth, 170int,
    {
        let (declaration, _) = match self.parse_declarator_list(kind, false) {
            Ok(parts) => parts,
            Err(e) => return Err(e),
        };
        let operator = self.for_in_of_operator();
        let operator = match operator {
            Some(operator) => operator,
            None => {
                if let Err(e) = super::declaration::check_declaration_initializers(&declaration) {
                    return Err(e);
                }
                if let Err(e) = self.eat(TokenKind::Semicolon, Goal::RegExp, "`;`") {
                    return Err(e);
                }
                return self.parse_three_part_tail(Some(ForInit::Declaration(Box::new(declaration))));
            },
        };
        // §14.7.5: the head of a `for`-`in` or `for`-`of` binds one thing, with no initialiser.
        if declaration.declarators.len() != 1 {
            let span = declaration.declarators[1].binding.span();
            return Err(ParseError { kind: ParseErrorKind::ForInOfBindsSeveralNames, span });
        }
        if let Some(initializer) = &declaration.declarators[0].initializer {
            return Err(ParseError { kind: ParseErrorKind::ForInOfBindingHasInitializer, span: initializer.span });
        }
        self.parse_for_in_of_tail(ForInOfTarget::Declaration(Box::new(declaration)), operator)
    }

    /// A head that begins with an expression: the initialiser of a three-part `for`, or the
    /// target of a `for`-`in` or `for`-`of`, refined into a pattern if it is a literal.
    pub fn parse_expression_head(&mut self) -> (r: Result<(StmtKind, Span), ParseError>)
        requires
            old(self).wf(),
        ensures
            r matches Ok((k, _)) ==> k is For || k is ForInOf,
            final(self).kept_from(*old(self)),
            r matches Ok((k, end)) ==> final(self).ends_statement((Stmt { kind: k, span: end }), old(self).current.span.start as int),
            r is Ok ==> final(self).moved_past(*old(self)),
        decreases MAX_NESTING_DEPTH - old(self).depth, 170int,
    {
        let begins_with_let = self.at_contextual("let");
        // A literal here may yet be a pattern, so its rules wait for the `in` or `of`.
        let enclosing_covers = self.open_covers;
        self.open_covers = if enclosing_covers < u32::MAX {
            enclosing_covers + 1
        } else {
            enclosing_covers
        };
        if let Err(e) = self.enter() {
            return Err(e);
        }
        let expr = self.parse_expression(false);
        self.leave();
        self.open_covers = enclosing_covers;
        let expr = match expr {
            Ok(expr) => expr,
            Err(e) => return Err(e),
        };
        let operator = match self.for_in_of_operator() {
            Some(operator) => operator,
            None => {
                if let Err(e) = self.report_unrefined_cover_grammar() {
                    return Err(e);
                }
                if let Err(e) = self.eat(TokenKind::Semicolon, Goal::RegExp, "`;`") {
                    return Err(e);
                }
                return self.parse_three_part_tail(Some(ForInit::Expression(Box::new(expr))));
            },
        };
        if Self::covers_a_pattern(&expr) {
            let pattern = match self.refine_to_pattern(expr) {
                Ok(pattern) => pattern,
                Err(e) => return Err(e),
            };
            if let Err(e) = self.report_unrefined_cover_grammar() {
                return Err(e);
            }
            return self.parse_for_in_of_tail(
                ForInOfTarget::Expression(Box::new(AssignmentTarget::Pattern(pattern))),
                operator,
            );
        }
        if let Err(e) = self.report_unrefined_cover_grammar() {
            return Err(e);
        }
        if operator == ForInOfKind::Of && begins_with_let {
            return Err(ParseError { kind: ParseErrorKind::ForOfTargetBeginsWithLet, span: expr.span });
        }
        if let Err(e) = self.check_for_in_of_target(&expr) {
            return Err(e);
        }
        self.parse_for_in_of_tail(ForInOfTarget::Expression(Box::new(AssignmentTarget::Simple(expr))), operator)
    }

    /// `; test ; update ) Statement`, after the initialiser and its `;`.
    pub fn parse_three_part_tail(&mut self, init: Option<ForInit>) -> (r: Result<(StmtKind, Span), ParseError>)
        requires
            old(self).wf(),
        ensures
            r matches Ok((k, _)) ==> k is For || k is ForInOf,
            final(self).kept_from(*old(self)),
            r matches Ok((k, end)) ==> final(self).ends_statement((Stmt { kind: k, span: end }), old(self).current.span.start as int),
            r is Ok ==> final(self).moved_past(*old(self)),
        decreases MAX_NESTING_DEPTH - old(self).depth, 165int,
    {
        let test = match self.parse_header_clause(TokenKind::Semicolon, "`;`") {
            Ok(test) => test,
            Err(e) => return Err(e),
        };
        let update = match self.parse_header_clause(TokenKind::RParen, "`)`") {
            Ok(update) => update,
            Err(e) => return Err(e),
        };
        let body = match self.parse_loop_body() {
            Ok(body) => body,
            Err(e) => return Err(e),
        };
        let end = body.span;
        Ok((StmtKind::For(Box::new(ForStatement { init, test, update, body })), end))
    }

    /// One optional clause of the header, and the `terminator` after it.
    pub fn parse_header_clause(&mut self, terminator: TokenKind, expected: &'static str) -> (r: Result<
        Option<Expr>,
        ParseError,
    >)
        requires
            old(self).wf(),
            terminator != TokenKind::Eof,
        ensures
            final(self).kept_from(*old(self)),
            r matches Ok(Some(e)) ==> final(self).read_within(e.span, old(self).current.span.start as int),
            r is Ok ==> final(self).moved_past(*old(self)),
        decreases MAX_NESTING_DEPTH - old(self).depth, 100int,
    {
        if self.current.kind == terminator {
            return match self.advance(Goal::RegExp) {
                Ok(_) => Ok(None),
                Err(e) => Err(e),
            };
        }
        if let Err(e) = self.enter() {
            return Err(e);
        }
        let expr = self.parse_expression(true);
        self.leave();
        let expr = match expr {
            Ok(expr) => expr,
            Err(e) => return Err(e),
        };
        if let Err(e) = self.eat(terminator, Goal::RegExp, expected) {
            return Err(e);
        }
        Ok(Some(expr))
    }
}

} // verus!
