//! Template literals (§13.2.8) and the tags that take them (§13.3).
//!
//! A template is read piece by piece. The `}` that closes a substitution is read by whatever
//! finished the expression inside, as a punctuator; it is then read again from the same offset
//! as the start of the next piece, which is the one place a position is read twice.

use vstd::prelude::*;
use super::{ParseError, ParseErrorKind, Parser, MAX_NESTING_DEPTH};
use crate::ast::{Expr, ExprKind, TemplateElement, TemplateLiteral};
use crate::lexer::value::template_value;
use crate::lexer::{Goal, TokenKind};

verus! {

impl<'a> Parser<'a> {
    /// A `TemplateLiteral`, with the cursor on its first piece. Only a tagged template may hold
    /// an escape the grammar does not allow (§13.2.8.1).
    pub fn parse_template(&mut self, tagged: bool) -> (r: Result<Expr, ParseError>)
        requires
            old(self).wf(),
        ensures
            final(self).kept_from(*old(self)),
            r matches Ok(e) ==> final(self).read_since(e.span, old(self).current.span.start as int),
            r is Ok ==> final(self).moved_past(*old(self)),
            r matches Ok(e) ==> e.kind is Template && !e.parenthesized,
        decreases MAX_NESTING_DEPTH - old(self).depth, 25int,
    {
        let first = self.current;
        let mut quasis: Vec<TemplateElement> = Vec::new();
        let mut expressions: Vec<Expr> = Vec::new();
        let mut end = first.span;
        loop
            invariant
                self.kept_from(*old(self)),
                self.current.span.start >= old(self).current.span.start,
                quasis.len() == 0 ==> self.current == old(self).current,
                quasis.len() > 0 ==> self.moved_past(*old(self)),
                first == old(self).current,
                quasis.len() > 0 ==> end.end <= self.current.span.start,
            ensures
                self.kept_from(*old(self)),
                self.moved_past(*old(self)),
                end.end == self.consumed_to@,
            decreases self.remaining(),
        {
            let piece = self.current;
            match piece.kind {
                TokenKind::Template { .. } => {},
                _ => return Err(self.unexpected("a template")),
            }
            let (cooked, continues) = match template_value(self.bytes, piece.span) {
                Some(value) => value,
                None => return Err(self.value_missing(piece)),
            };
            if !tagged && cooked.is_none() {
                return Err(ParseError { kind: ParseErrorKind::BadEscapeInUntaggedTemplate, span: piece.span });
            }
            quasis.push(TemplateElement { cooked, span: piece.span });
            end = piece.span;
            if !continues {
                if let Err(e) = self.advance(Goal::Div) {
                    return Err(e);
                }
                break;
            }
            // After `${` an operand begins.
            if let Err(e) = self.advance(Goal::RegExp) {
                return Err(e);
            }
            if let Err(e) = self.enter() {
                return Err(e);
            }
            let expression = self.parse_expression(true);
            self.leave();
            match expression {
                Ok(expression) => expressions.push(expression),
                Err(e) => return Err(e),
            }
            if self.current.kind != TokenKind::RBrace {
                return Err(self.unexpected("`}`"));
            }
            if let Err(e) = self.reread_current(Goal::TemplateMiddle) {
                return Err(e);
            }
        }
        Ok(
            Expr::new(
                ExprKind::Template(Box::new(TemplateLiteral { quasis, expressions })),
                first.span.to(end),
            ),
        )
    }
}

} // verus!
