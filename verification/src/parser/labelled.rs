//! Labelled statements (§14.13).
//!
//! An identifier followed by a colon. The label encloses exactly one statement, which may not
//! be a declaration, and may not repeat a label around it; whether it labels a loop decides
//! whether `continue` may name it.

use vstd::prelude::*;
use super::{lexical_error, ParseError, Parser, MAX_NESTING_DEPTH};
use crate::ast::{Label, LabelledStatement, Stmt, StmtKind};
use crate::lexer::{blank_from, Goal, TokenKind};

verus! {

impl<'a> Parser<'a> {
    /// Whether a labelled statement begins here: a name, then `:`.
    pub fn at_labelled_statement(&self) -> (r: Result<bool, ParseError>)
        requires
            self.wf(),
        ensures
            r matches Ok(true) ==> self.is_identifier_kind(self.current.kind),
            !self.is_identifier_kind(self.current.kind) || blank_from(self.bytes@, self.lexer.pos as int) ==> r == Ok::<bool, ParseError>(false),
            r == (if !self.is_identifier_kind(self.current.kind) {
                Ok::<bool, ParseError>(false)
            } else {
                match self.next_read(Goal::Div) {
                    Ok(next) => Ok(next.kind == TokenKind::Colon),
                    Err(e) => Err(lexical_error(e)),
                }
            }),
    {
        if !self.is_identifier_token(self.current.kind) {
            return Ok(false);
        }
        match self.peek(Goal::Div) {
            Ok(next) => Ok(next.kind == TokenKind::Colon),
            Err(e) => Err(e),
        }
    }

    /// `LabelledStatement`, with the cursor on the label. `run` is how many labels directly
    /// precede this one, all of which label the same statement.
    pub fn parse_labelled_statement(&mut self, run: usize) -> (r: Result<Stmt, ParseError>)
        requires
            old(self).wf(),
        ensures
            final(self).kept_from(*old(self)),
            r matches Ok(s) ==> final(self).read_statement(s, *old(self)),
            r is Ok ==> final(self).moved_past(*old(self)),
            r matches Ok(s) ==> s.kind is Labelled,
        decreases MAX_NESTING_DEPTH - old(self).depth, 125int,
    {
        let token = self.current;
        if !self.is_identifier_token(token.kind) {
            return Err(self.unexpected("a label"));
        }
        if let Err(e) = self.advance(Goal::Div) {
            return Err(e);
        }
        let name = match self.name_of(token) {
            Ok(name) => name,
            Err(e) => return Err(e),
        };
        if let Err(e) = self.check_strict_name(name.as_str(), token.span, false) {
            return Err(e);
        }
        if let Err(e) = self.eat(TokenKind::Colon, Goal::RegExp, "`:`") {
            return Err(e);
        }
        if let Err(e) = self.enter() {
            return Err(e);
        }
        self.push_label(name.as_str(), token.span);
        self.scope.label_run = if run < usize::MAX {
            run + 1
        } else {
            run
        };
        let body = self.parse_statement();
        self.pop_label();
        self.leave();
        let body = match body {
            Ok(body) => body,
            Err(e) => return Err(e),
        };
        let span = token.span.to(body.span);
        Ok(
            Stmt {
                kind: StmtKind::Labelled(Box::new(LabelledStatement { label: Label { name, span: token.span }, body })),
                span,
            },
        )
    }
}

} // verus!
