//! Arrow functions (§15.3, §15.9), and the cover grammar that reaches them.
//!
//! An `ArrowFunction` is an `AssignmentExpression` and nothing tighter, so the decision belongs
//! to the assignment level: a parenthesized group is read into a structure that is not part of
//! the tree, and the `=>` after it decides whether it becomes parameters or an expression.
//!
//! `async` is an ordinary name, so an async arrow is a lookahead too: `async x =>` commits on the
//! name after the word, and `async (…)` is read as a call's arguments until a `=>` says they were
//! parameters all along.

use vstd::prelude::*;
use super::member::{begins_chain, optional_in_chain};
use super::{ParseError, ParseErrorKind, Parser, MAX_NESTING_DEPTH};
use crate::ast::{
    Argument, ArrowBody, ArrowFunction, Binding, BindingElement, Expr, ExprKind, FormalParameters,
    Stmt,
};
use crate::lexer::{Goal, ReservedWord, TokenKind};
use crate::span::Span;

verus! {

/// A parenthesized group, before anything has decided what it is.
pub struct CoverGroup {
    /// The comma-separated `AssignmentExpression`s.
    pub elements: Vec<Expr>,
    /// A trailing `... BindingIdentifier` or `... BindingPattern`.
    pub rest: Option<Binding>,
    /// Whether a comma came last. Legal in the cover and in no expression.
    pub trailing_comma: bool,
    /// The error the parentheses owe if they turn out to be parameters: a `yield` or `await`
    /// expression read inside them.
    pub forbidden_in_parameters: Option<ParseError>,
    /// The parentheses and everything between them.
    pub span: Span,
}

/// What was found where an `AssignmentExpression` may begin.
pub enum ArrowOrGroup {
    /// A whole arrow function, which is the entire `AssignmentExpression`.
    Arrow(Expr),
    /// A parenthesized expression or a call of `async`, which is only the beginning of one.
    Operand(Expr),
    /// Neither — nothing was consumed.
    Neither,
}

/// That what was found is exactly the text `after` read since offset `from`.
pub open spec fn found_read(found: ArrowOrGroup, from: int, after: Parser) -> bool {
    match found {
        ArrowOrGroup::Arrow(e) => after.read_since(e.span, from),
        ArrowOrGroup::Operand(e) => after.read_since(e.span, from),
        ArrowOrGroup::Neither => true,
    }
}

/// Whether a token of this kind may be an async arrow's lone parameter.
pub fn names_a_parameter(kind: TokenKind) -> (r: bool)
    ensures
        r == (kind is Identifier || kind == TokenKind::Keyword(ReservedWord::Yield) || kind
            == TokenKind::Keyword(ReservedWord::Await)),
{
    match kind {
        TokenKind::Identifier { .. } => true,
        TokenKind::Keyword(ReservedWord::Yield) | TokenKind::Keyword(ReservedWord::Await) => true,
        _ => false,
    }
}

impl<'a> Parser<'a> {
    /// Read an arrow function, or the parenthesized expression that was not one. Consumes
    /// nothing unless it returns something.
    pub fn parse_arrow_or_group(&mut self, allow_in: bool) -> (r: Result<ArrowOrGroup, ParseError>)
        requires
            old(self).wf(),
        ensures
            final(self).kept_from(*old(self)),
            r matches Ok(found) ==> found_read(found, old(self).current.span.start as int, *final(self)),
            r matches Ok(found) ==> (found is Neither ==> final(self).current == old(self).current
                && final(self).consumed_to == old(self).consumed_to),
            r matches Ok(found) ==> (!(found is Neither) ==> final(self).moved_past(*old(self))),
            r matches Ok(ArrowOrGroup::Neither) ==> *final(self) == *old(self),
            r matches Ok(ArrowOrGroup::Operand(e)) ==> begins_chain(e),
            !(old(self).current.kind == TokenKind::LParen || old(self).is_identifier_kind(
                old(self).current.kind,
            )) ==> r matches Ok(ArrowOrGroup::Neither),
        decreases MAX_NESTING_DEPTH - old(self).depth, 56int,
    {
        if self.at_contextual("async") {
            let next = match self.peek(Goal::Div) {
                Ok(next) => next,
                Err(e) => return Err(e),
            };
            if !next.newline_before && names_a_parameter(next.kind) {
                return match self.parse_async_arrow_with_name(allow_in) {
                    Ok(arrow) => Ok(ArrowOrGroup::Arrow(arrow)),
                    Err(e) => Err(e),
                };
            }
            if !next.newline_before && next.kind == TokenKind::LParen {
                return self.parse_async_arrow_or_call(allow_in);
            }
        }
        if self.is_identifier_token(self.current.kind) {
            // `ArrowParameters : BindingIdentifier`, with the `=>` on the same line.
            let next = match self.peek(Goal::Div) {
                Ok(next) => next,
                Err(e) => return Err(e),
            };
            if next.kind == TokenKind::Arrow && !next.newline_before {
                let name = match self.parse_binding_name() {
                    Ok(name) => name,
                    Err(e) => return Err(e),
                };
                let span = name.span;
                let mut items: Vec<BindingElement> = Vec::new();
                items.push(BindingElement { target: Binding::Identifier(name), default: None });
                let parameters = FormalParameters { items, rest: None, span };
                if self.current.kind != TokenKind::Arrow {
                    return Err(self.unexpected("`=>`"));
                }
                return match self.parse_arrow_tail(parameters, allow_in, false, span) {
                    Ok(arrow) => Ok(ArrowOrGroup::Arrow(arrow)),
                    Err(e) => Err(e),
                };
            }
            return Ok(ArrowOrGroup::Neither);
        }
        if self.current.kind != TokenKind::LParen {
            return Ok(ArrowOrGroup::Neither);
        }
        if let Err(e) = self.enter() {
            return Err(e);
        }
        let group = self.parse_cover_group();
        self.leave();
        let group = match group {
            Ok(group) => group,
            Err(e) => return Err(e),
        };
        if self.current.kind == TokenKind::Arrow && !self.current.newline_before {
            let span = group.span;
            let parameters = match self.refine_to_parameters(group) {
                Ok(parameters) => parameters,
                Err(e) => return Err(e),
            };
            return match self.parse_arrow_tail(parameters, allow_in, false, span) {
                Ok(arrow) => Ok(ArrowOrGroup::Arrow(arrow)),
                Err(e) => Err(e),
            };
        }
        match self.group_as_expression(group) {
            Ok(expr) => Ok(ArrowOrGroup::Operand(expr)),
            Err(e) => Err(e),
        }
    }

    /// `async [no LineTerminator here] AsyncArrowBindingIdentifier => AsyncConciseBody`, with
    /// the cursor on `async`.
    pub fn parse_async_arrow_with_name(&mut self, allow_in: bool) -> (r: Result<Expr, ParseError>)
        requires
            old(self).wf(),
        ensures
            final(self).kept_from(*old(self)),
            r matches Ok(e) ==> final(self).read_since(e.span, old(self).current.span.start as int),
            r is Ok ==> final(self).moved_past(*old(self)),
        decreases MAX_NESTING_DEPTH - old(self).depth, 55int,
    {
        let keyword = self.current;
        if keyword.kind == TokenKind::Eof {
            return Err(self.unexpected("an expression"));
        }
        if let Err(e) = self.advance(Goal::Div) {
            return Err(e);
        }
        // The parameter is `BindingIdentifier[?Yield, +Await]`.
        let enclosing = self.await_allowed;
        self.await_allowed = true;
        let name = self.parse_binding_name();
        self.await_allowed = enclosing;
        let name = match name {
            Ok(name) => name,
            Err(e) => return Err(e),
        };
        if self.current.kind != TokenKind::Arrow || self.current.newline_before {
            return Err(self.unexpected("`=>`"));
        }
        let span = name.span;
        let mut items: Vec<BindingElement> = Vec::new();
        items.push(BindingElement { target: Binding::Identifier(name), default: None });
        let parameters = FormalParameters { items, rest: None, span };
        self.parse_arrow_tail(parameters, allow_in, true, keyword.span)
    }

    /// `async (…)`: the arguments of a call to `async`, or an async arrow's parameters once a
    /// `=>` follows them.
    pub fn parse_async_arrow_or_call(&mut self, allow_in: bool) -> (r: Result<
        ArrowOrGroup,
        ParseError,
    >)
        requires
            old(self).wf(),
        ensures
            final(self).kept_from(*old(self)),
            r matches Ok(found) ==> found_read(found, old(self).current.span.start as int, *final(self)),
            r matches Ok(found) ==> !(found is Neither) && final(self).moved_past(*old(self)),
            r matches Ok(ArrowOrGroup::Operand(e)) ==> begins_chain(e),
        decreases MAX_NESTING_DEPTH - old(self).depth, 55int,
    {
        let keyword = self.current;
        if keyword.kind == TokenKind::Eof {
            return Err(self.unexpected("an expression"));
        }
        if let Err(e) = self.advance(Goal::Div) {
            return Err(e);
        }
        if self.current.kind != TokenKind::LParen {
            return Err(self.unexpected("`(`"));
        }
        let enclosing_forbidden = self.forbidden_in_parameters;
        self.forbidden_in_parameters = None;
        let enclosing_covers = self.open_covers;
        self.open_covers = if enclosing_covers < u32::MAX {
            enclosing_covers + 1
        } else {
            enclosing_covers
        };
        if let Err(e) = self.enter() {
            return Err(e);
        }
        let list = self.parse_arguments();
        self.leave();
        let forbidden = self.forbidden_in_parameters;
        self.forbidden_in_parameters = enclosing_forbidden;
        self.open_covers = enclosing_covers;
        let list = match list {
            Ok(list) => list,
            Err(e) => return Err(e),
        };
        if self.current.kind == TokenKind::Arrow && !self.current.newline_before {
            if let Some(error) = forbidden {
                return Err(error);
            }
            let span = keyword.span.to(list.end);
            let parameters = match self.refine_arguments_to_parameters(list, span) {
                Ok(parameters) => parameters,
                Err(e) => return Err(e),
            };
            return match self.parse_arrow_tail(parameters, allow_in, true, keyword.span) {
                Ok(arrow) => Ok(ArrowOrGroup::Arrow(arrow)),
                Err(e) => Err(e),
            };
        }
        // A call after all: what it read was read in the enclosing code.
        if self.forbidden_in_parameters.is_none() {
            self.forbidden_in_parameters = forbidden;
        }
        if let Err(e) = self.report_unrefined_cover_grammar() {
            return Err(e);
        }
        let name = match self.name_of(keyword) {
            Ok(name) => name,
            Err(e) => return Err(e),
        };
        let callee = Expr::new(ExprKind::Identifier(name), keyword.span);
        proof {
            assert(!optional_in_chain(callee));
        }
        let span = keyword.span.to(list.end);
        Ok(
            ArrowOrGroup::Operand(
                Expr::new(
                    ExprKind::Call { optional: false, callee: Box::new(callee), arguments: list.arguments },
                    span,
                ),
            ),
        )
    }

    /// The cover grammar, read as far as its closing parenthesis.
    pub fn parse_cover_group(&mut self) -> (r: Result<CoverGroup, ParseError>)
        requires
            old(self).wf(),
            old(self).current.kind == TokenKind::LParen,
        ensures
            final(self).kept_from(*old(self)),
            r matches Ok(g) ==> final(self).read_since(g.span, old(self).current.span.start as int),
            r is Ok ==> final(self).moved_past(*old(self)),
        decreases MAX_NESTING_DEPTH - old(self).depth, 81int,
    {
        let open = match self.advance(Goal::RegExp) {
            Ok(open) => open,
            Err(e) => return Err(e),
        };
        let enclosing_forbidden = self.forbidden_in_parameters;
        self.forbidden_in_parameters = None;
        let enclosing_covers = self.open_covers;
        self.open_covers = if enclosing_covers < u32::MAX {
            enclosing_covers + 1
        } else {
            enclosing_covers
        };
        let mut elements: Vec<Expr> = Vec::new();
        let mut rest: Option<Binding> = None;
        let mut trailing_comma = false;
        while self.current.kind != TokenKind::RParen
            invariant
                self.kept_from(*old(self)),
                self.moved_past(*old(self)),
            decreases self.remaining(),
        {
            if self.current.kind == TokenKind::DotDotDot {
                if let Err(e) = self.advance(Goal::RegExp) {
                    return Err(e);
                }
                rest = match self.parse_binding() {
                    Ok(binding) => Some(binding),
                    Err(e) => return Err(e),
                };
                break;
            }
            match self.parse_assignment(true) {
                Ok(element) => elements.push(element),
                Err(e) => return Err(e),
            }
            if self.current.kind != TokenKind::Comma {
                break;
            }
            if let Err(e) = self.advance(Goal::RegExp) {
                return Err(e);
            }
            if self.current.kind == TokenKind::RParen {
                trailing_comma = true;
            }
        }
        let close = match self.eat(TokenKind::RParen, Goal::Div, "`)`") {
            Ok(close) => close,
            Err(e) => return Err(e),
        };
        let forbidden_in_parameters = self.forbidden_in_parameters;
        self.forbidden_in_parameters = enclosing_forbidden;
        self.open_covers = enclosing_covers;
        Ok(
            CoverGroup {
                elements,
                rest,
                trailing_comma,
                forbidden_in_parameters,
                span: open.span.to(close.span),
            },
        )
    }

    /// The group as the `( Expression )` it must be, no `=>` having followed. `()`, `(a,)` and
    /// anything with a `...` are not expressions at all.
    pub fn group_as_expression(&mut self, group: CoverGroup) -> (r: Result<Expr, ParseError>)
        requires
            old(self).wf(),
        ensures
            final(self).kept_from(*old(self)),
            r matches Ok(e) ==> e.span == group.span,
            final(self).current == old(self).current,
            final(self).consumed_to == old(self).consumed_to,
            r is Err <==> (group.rest is Some || group.trailing_comma || group.elements@.len() == 0),
            r matches Err(e) ==> e == (ParseError {
                kind: ParseErrorKind::CoverGroupIsNotAnExpression,
                span: group.span,
            }),
            r matches Ok(e) ==> e.parenthesized,
            r matches Ok(e) ==> (group.elements@.len() == 1 ==> e.kind == group.elements@[0].kind),
            r matches Ok(e) ==> (group.elements@.len() > 1 ==> (e.kind matches ExprKind::Sequence(items)
                && items@ == group.elements@)),
    {
        // It was an expression after all, so a `yield` inside it still counts against whatever
        // parameter list encloses this.
        if self.forbidden_in_parameters.is_none() {
            self.forbidden_in_parameters = group.forbidden_in_parameters;
        }
        let CoverGroup { elements, rest, trailing_comma, forbidden_in_parameters: _, span } = group;
        if rest.is_some() || trailing_comma || elements.len() == 0 {
            return Err(ParseError { kind: ParseErrorKind::CoverGroupIsNotAnExpression, span });
        }
        let mut elements = elements;
        let inner = if elements.len() == 1 {
            match elements.pop() {
                Some(inner) => inner,
                None => return Err(ParseError { kind: ParseErrorKind::CoverGroupIsNotAnExpression, span }),
            }
        } else {
            let inner_span = elements[0].span.to(elements[elements.len() - 1].span);
            Expr::new(ExprKind::Sequence(elements), inner_span)
        };
        Ok(inner.in_parentheses(span))
    }

    /// `ArrowFormalParameters : ( UniqueFormalParameters )` — the group, refined.
    pub fn refine_to_parameters(&mut self, group: CoverGroup) -> (r: Result<
        FormalParameters,
        ParseError,
    >)
        requires
            old(self).wf(),
        ensures
            final(self).kept_from(*old(self)),
            final(self).current == old(self).current,
            final(self).consumed_to == old(self).consumed_to,
        decreases MAX_NESTING_DEPTH - old(self).depth, 45int,
    {
        // §15.3.1: a `yield` or `await` expression among what are now parameters.
        if let Some(error) = group.forbidden_in_parameters {
            return Err(error);
        }
        let CoverGroup { elements, rest, trailing_comma: _, forbidden_in_parameters: _, span } =
            group;
        let mut pending = super::pattern::reversed(elements);
        let mut items: Vec<BindingElement> = Vec::new();
        while pending.len() > 0
            invariant
                self.kept_from(*old(self)),
                self.current == old(self).current,
                self.consumed_to == old(self).consumed_to,
            decreases pending.len(),
        {
            let element = match pending.pop() {
                Some(element) => element,
                None => break,
            };
            match self.refine_to_binding_element(element) {
                Ok(item) => items.push(item),
                Err(e) => return Err(e),
            }
        }
        let rest = match rest {
            Some(rest) => Some(Box::new(rest)),
            None => None,
        };
        let parameters = FormalParameters { items, rest, span };
        // `UniqueFormalParameters`: an arrow's parameters never repeat.
        if let Err(e) = super::function::check_unique_parameters(&parameters) {
            return Err(e);
        }
        Ok(parameters)
    }

    /// An async arrow's parameters, refined from the arguments they were read as.
    pub fn refine_arguments_to_parameters(&mut self, list: super::member::ArgumentList, span: Span) -> (r: Result<
        FormalParameters,
        ParseError,
    >)
        requires
            old(self).wf(),
        ensures
            final(self).kept_from(*old(self)),
            final(self).current == old(self).current,
            final(self).consumed_to == old(self).consumed_to,
        decreases MAX_NESTING_DEPTH - old(self).depth, 45int,
    {
        let trailing_comma = list.trailing_comma;
        let mut pending = super::pattern::reversed(list.arguments);
        let mut items: Vec<BindingElement> = Vec::new();
        let mut rest: Option<Box<Binding>> = None;
        while pending.len() > 0
            invariant
                self.kept_from(*old(self)),
                self.current == old(self).current,
                self.consumed_to == old(self).consumed_to,
            decreases pending.len(),
        {
            let argument = match pending.pop() {
                Some(argument) => argument,
                None => break,
            };
            if rest.is_some() {
                return Err(ParseError { kind: ParseErrorKind::RestElementMustBeLast, span });
            }
            match argument {
                Argument::Value(value) => match self.refine_to_binding_element(value) {
                    Ok(item) => items.push(item),
                    Err(e) => return Err(e),
                },
                Argument::Spread(value) => {
                    if trailing_comma {
                        return Err(ParseError { kind: ParseErrorKind::RestElementMustBeLast, span: value.span });
                    }
                    match self.refine_to_binding(value) {
                        Ok(binding) => {
                            rest = Some(Box::new(binding));
                        },
                        Err(e) => return Err(e),
                    }
                },
            }
        }
        let parameters = FormalParameters { items, rest, span };
        if let Err(e) = super::function::check_unique_parameters(&parameters) {
            return Err(e);
        }
        Ok(parameters)
    }

    /// `=> ConciseBody`, with the parameters already refined and the cursor on the `=>`.
    pub fn parse_arrow_tail(
        &mut self,
        parameters: FormalParameters,
        allow_in: bool,
        is_async: bool,
        start: Span,
    ) -> (r: Result<Expr, ParseError>)
        requires
            old(self).wf(),
        ensures
            final(self).kept_from(*old(self)),
            r matches Ok(e) ==> final(self).read_since(e.span, start.start as int),
            r is Ok ==> final(self).moved_past(*old(self)),
        decreases MAX_NESTING_DEPTH - old(self).depth, 50int,
    {
        if self.current.kind != TokenKind::Arrow {
            return Err(self.unexpected("`=>`"));
        }
        if let Err(e) = self.advance(Goal::RegExp) {
            return Err(e);
        }
        if let Err(e) = self.enter() {
            return Err(e);
        }
        let body = self.parse_concise_body(allow_in, &parameters, is_async);
        self.leave();
        let (body, end, declares_strict) = match body {
            Ok(body) => body,
            Err(e) => return Err(e),
        };
        // The parameters were read as references, which strict code judges by looser rules than
        // bindings; now that the body has had its say about strictness, they are judged as
        // bindings.
        if self.strict || declares_strict {
            if let Err(e) = self.check_strict_parameters(&parameters) {
                return Err(e);
            }
        }
        let span = start.to(end);
        Ok(Expr::new(ExprKind::Arrow(Box::new(ArrowFunction { parameters, body, is_async, span })), span))
    }

    /// `ConciseBody` (§15.3): both alternatives drop `[Yield]`, and an async arrow's body is
    /// `[+Await]` while a plain one's is `[~Await]`.
    pub fn parse_concise_body(&mut self, allow_in: bool, parameters: &FormalParameters, is_async: bool) -> (r: Result<
        (ArrowBody, Span, bool),
        ParseError,
    >)
        requires
            old(self).wf(),
        ensures
            final(self).yield_allowed == old(self).yield_allowed,
            final(self).await_allowed == old(self).await_allowed,
            final(self).kept_from(*old(self)),
            r matches Ok((_, end, _)) ==> final(self).ends_read(end, old(self).current.span.start as int),
        decreases MAX_NESTING_DEPTH - old(self).depth, 155int,
    {
        let enclosing_yield = self.yield_allowed;
        let enclosing_await = self.await_allowed;
        self.yield_allowed = false;
        self.await_allowed = is_async;
        let body = self.parse_concise_body_inner(allow_in, parameters);
        self.yield_allowed = enclosing_yield;
        self.await_allowed = enclosing_await;
        body
    }

    /// The body itself, once the grammar parameters are set for it.
    pub fn parse_concise_body_inner(&mut self, allow_in: bool, parameters: &FormalParameters) -> (r: Result<
        (ArrowBody, Span, bool),
        ParseError,
    >)
        requires
            old(self).wf(),
        ensures
            final(self).kept_from(*old(self)),
            r matches Ok((_, end, _)) ==> final(self).ends_read(end, old(self).current.span.start as int),
        decreases MAX_NESTING_DEPTH - old(self).depth, 154int,
    {
        if self.current.kind == TokenKind::LBrace {
            // An arrow has no `this` and no home object of its own, so what `super` means passes
            // straight through it. The `}` is followed by what follows a statement.
            let context = self.body_context;
            let (body, end, declares_strict) = match self.parse_function_body(context, Goal::RegExp, parameters) {
                Ok(parts) => parts,
                Err(e) => return Err(e),
            };
            if declares_strict && !parameters.is_simple() {
                return Err(
                    ParseError { kind: ParseErrorKind::UseStrictWithNonSimpleParameters, span: parameters.span },
                );
            }
            return Ok((ArrowBody::Block(body), end, declares_strict));
        }
        // `ExpressionBody : AssignmentExpression[?In]`: `a => b, c` is `(a => b), c`.
        let value = match self.parse_assignment(allow_in) {
            Ok(value) => value,
            Err(e) => return Err(e),
        };
        let end = value.span;
        Ok((ArrowBody::Expression(Box::new(value)), end, false))
    }
}

} // verus!
