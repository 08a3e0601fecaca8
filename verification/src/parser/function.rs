//! Function declarations and expressions (§15.2), their parameters and their bodies.
//!
//! A function body is where the statement-level rules start afresh: labels, `break` and
//! `continue`, and the names declared, none of which reach through it. It is also where a
//! `"use strict"` directive may turn strict mode on, which reaches back to the parameters and
//! the function's own name — read before anyone knew.

use vstd::prelude::*;
use super::body::BodyContext;
use super::names::{first_repeat, has_repeat, parameter_list_names, parameter_names, DeclaredName};
use super::strict::{is_eval_or_arguments, is_strict_reserved};
use super::scope::ScopeState;
use super::{in_source_order, statement_spans, ParseError, ParseErrorKind, Parser, MAX_NESTING_DEPTH};
use crate::ast::{Binding, BindingElement, BindingName, Expr, ExprKind, FormalParameters, Function, Stmt, StmtKind};
use crate::lexer::{Goal, ReservedWord, TokenKind};
use crate::span::Span;
use crate::lexer::value::identifier_name;
use vstd::string::StringSliceAdditionalSpecFns;

verus! {

/// §15.1.1: a list that is not simple — a default, a pattern or a rest — may not bind a name
/// twice. `function f(a, a) {}` is legal sloppy code; `function f(a, [a]) {}` is not.
pub fn check_parameter_names(parameters: &FormalParameters) -> (r: Result<(), ParseError>)
    ensures
        parameters.spec_is_simple() ==> r is Ok,
        r is Ok <==> parameters.spec_is_simple() || !has_repeat(parameter_list_names(*parameters)),
        r matches Err(e) ==> e.kind == ParseErrorKind::DuplicateParameterName,
{
    if parameters.is_simple() {
        return Ok(());
    }
    check_unique_parameters(parameters)
}

/// What strict code asks of the names a parameter list binds (§15.2.1): none that strict code
/// reserves, neither `eval` nor `arguments`, and none twice.
pub open spec fn strict_parameters_allowed(names: Seq<DeclaredName>) -> bool {
    &&& forall|k: int|
        0 <= k < names.len() ==> !is_strict_reserved((#[trigger] names[k]).0@)
            && !is_eval_or_arguments(names[k].0@)
    &&& !has_repeat(names)
}

/// `UniqueFormalParameters`: no name bound twice, whatever the list looks like.
pub fn check_unique_parameters(parameters: &FormalParameters) -> (r: Result<(), ParseError>)
    ensures
        r is Ok <==> !has_repeat(parameter_list_names(*parameters)),
        r matches Err(e) ==> e.kind == ParseErrorKind::DuplicateParameterName,
{
    let names = parameter_names(parameters);
    match first_repeat(&names) {
        Some(k) => Err(ParseError { kind: ParseErrorKind::DuplicateParameterName, span: names[k].1 }),
        None => Ok(()),
    }
}

/// Whether `name` is `eval` or `arguments`.
pub fn is_eval_or_arguments_name(name: &DeclaredName) -> (r: bool)
    ensures
        r == super::strict::is_eval_or_arguments(name.0@),
{
    super::strict::eval_or_arguments(name.0.as_str())
}

impl<'a> Parser<'a> {
    /// The strict rules for parameters (§15.2.1): no `eval` or `arguments`, no name twice, and
    /// no name strict code reserves.
    pub fn check_strict_parameters(&self, parameters: &FormalParameters) -> (r: Result<(), ParseError>)
        ensures
            r is Ok <==> strict_parameters_allowed(parameter_list_names(*parameters)),
            r matches Err(e) ==> e.kind == ParseErrorKind::StrictReservedWord || e.kind
                == ParseErrorKind::StrictEvalOrArguments || e.kind == ParseErrorKind::DuplicateParameterName,
    {
        let names = parameter_names(parameters);
        let mut k: usize = 0;
        while k < names.len()
            invariant
                k <= names@.len(),
                names@ == parameter_list_names(*parameters),
                forall|j: int|
                    0 <= j < k ==> !is_strict_reserved((#[trigger] names@[j]).0@)
                        && !is_eval_or_arguments(names@[j].0@),
            decreases names.len() - k,
        {
            if super::strict::strict_reserved(names[k].0.as_str()) {
                return Err(ParseError { kind: ParseErrorKind::StrictReservedWord, span: names[k].1 });
            }
            if is_eval_or_arguments_name(&names[k]) {
                return Err(ParseError { kind: ParseErrorKind::StrictEvalOrArguments, span: names[k].1 });
            }
            k = k + 1;
        }
        match first_repeat(&names) {
            Some(k) => Err(ParseError { kind: ParseErrorKind::DuplicateParameterName, span: names[k].1 }),
            None => Ok(()),
        }
    }

    /// A name bound before the body said `"use strict"`, held to the strict rules after all.
    pub fn check_name_as_strict(&mut self, name: &BindingName) -> (r: Result<(), ParseError>)
        requires
            old(self).wf(),
        ensures
            final(self).kept_from(*old(self)),
            final(self).current == old(self).current,
            final(self).consumed_to == old(self).consumed_to,
            final(self).strict == old(self).strict,
            final(self).open_covers == old(self).open_covers,
            *final(self) == *old(self),
            r is Err <==> is_strict_reserved(name.name@) || is_eval_or_arguments(name.name@),
            r matches Err(e) ==> e.span == name.span,
            r matches Err(e) ==> e.kind == (if is_strict_reserved(name.name@) {
                ParseErrorKind::StrictReservedWord
            } else {
                ParseErrorKind::StrictEvalOrArguments
            }),
    {
        let enclosing = self.strict;
        self.strict = true;
        let checked = self.check_strict_name(name.name.as_str(), name.span, true);
        self.strict = enclosing;
        checked
    }

    /// `FunctionDeclaration`, with the cursor on `function` or on the `async` before it.
    pub fn parse_function_declaration(&mut self, is_async: bool) -> (r: Result<Stmt, ParseError>)
        requires
            old(self).wf(),
        ensures
            final(self).kept_from(*old(self)),
            r matches Ok(s) ==> final(self).ends_read(s.span, old(self).current.span.start as int),
            r matches Ok(s) ==> (s.span.start == old(self).current.span.start || is_async),
            r is Ok ==> final(self).moved_past(*old(self)),
            r matches Ok(s) ==> s.kind is Function,
        decreases MAX_NESTING_DEPTH - old(self).depth, 23int,
    {
        match self.parse_function(true, is_async, Goal::RegExp) {
            Ok(function) => {
                let span = function.span;
                Ok(Stmt { kind: StmtKind::Function(Box::new(function)), span })
            },
            Err(e) => Err(e),
        }
    }

    /// `export default function …`, whose name is optional.
    pub fn parse_default_function(&mut self, is_async: bool) -> (r: Result<Stmt, ParseError>)
        requires
            old(self).wf(),
        ensures
            final(self).kept_from(*old(self)),
            r matches Ok(s) ==> final(self).ends_read(s.span, old(self).current.span.start as int),
            r matches Ok(s) ==> (s.span.start == old(self).current.span.start || is_async),
            r is Ok ==> final(self).moved_past(*old(self)),
            r matches Ok(s) ==> s.kind is Function,
        decreases MAX_NESTING_DEPTH - old(self).depth, 23int,
    {
        match self.parse_function(false, is_async, Goal::RegExp) {
            Ok(function) => {
                let span = function.span;
                Ok(Stmt { kind: StmtKind::Function(Box::new(function)), span })
            },
            Err(e) => Err(e),
        }
    }

    /// `FunctionExpression`, whose name is optional and binds only inside it.
    pub fn parse_function_expression(&mut self, is_async: bool) -> (r: Result<Expr, ParseError>)
        requires
            old(self).wf(),
        ensures
            final(self).kept_from(*old(self)),
            r matches Ok(e) ==> final(self).ends_read(e.span, old(self).current.span.start as int),
            r matches Ok(e) ==> (e.span.start == old(self).current.span.start || is_async),
            r is Ok ==> final(self).moved_past(*old(self)),
            r matches Ok(e) ==> e.kind is Function && !e.parenthesized,
        decreases MAX_NESTING_DEPTH - old(self).depth, 23int,
    {
        match self.parse_function(false, is_async, Goal::Div) {
            Ok(function) => {
                let span = function.span;
                Ok(Expr::new(ExprKind::Function(Box::new(function)), span))
            },
            Err(e) => Err(e),
        }
    }

    /// The whole function, from `async` or `function` to the `}`, read under `after` next.
    pub fn parse_function(&mut self, name_required: bool, is_async: bool, after: Goal) -> (r: Result<
        Function,
        ParseError,
    >)
        requires
            old(self).wf(),
        ensures
            final(self).kept_from(*old(self)),
            r matches Ok(f) ==> final(self).ends_read(f.span, old(self).current.span.start as int),
            r matches Ok(f) ==> (f.span.start == old(self).current.span.start || is_async),
            r is Ok ==> final(self).moved_past(*old(self)),
        decreases MAX_NESTING_DEPTH - old(self).depth, 22int,
    {
        if is_async {
            if self.current.kind == TokenKind::Eof {
                return Err(self.unexpected("`async`"));
            }
            if let Err(e) = self.advance(Goal::RegExp) {
                return Err(e);
            }
        }
        let keyword = match self.eat(TokenKind::Keyword(ReservedWord::Function), Goal::RegExp, "`function`") {
            Ok(keyword) => keyword,
            Err(e) => return Err(e),
        };
        let is_generator = self.current.kind == TokenKind::Star;
        if is_generator {
            if let Err(e) = self.advance(Goal::RegExp) {
                return Err(e);
            }
        }
        let name = match self.parse_function_name(name_required, is_generator, is_async) {
            Ok(name) => name,
            Err(e) => return Err(e),
        };
        if let Err(e) = self.enter() {
            return Err(e);
        }
        let parts = self.parse_function_parts(is_generator, is_async, after);
        self.leave();
        let (parameters, body, end, declares_strict) = match parts {
            Ok(parts) => parts,
            Err(e) => return Err(e),
        };
        if declares_strict {
            if let Some(name) = &name {
                if let Err(e) = self.check_name_as_strict(name) {
                    return Err(e);
                }
            }
        }
        Ok(Function { name, parameters, body, is_generator, is_async, span: keyword.span.to(end) })
    }

    /// The function's name. A declaration's is bound in the enclosing code, under its
    /// `[Yield]` and `[Await]`; an expression's only inside the function, under its own.
    pub fn parse_function_name(&mut self, name_required: bool, is_generator: bool, is_async: bool) -> (r: Result<
        Option<BindingName>,
        ParseError,
    >)
        requires
            old(self).wf(),
        ensures
            final(self).yield_allowed == old(self).yield_allowed,
            final(self).await_allowed == old(self).await_allowed,
            final(self).kept_from(*old(self)),
            old(self).current.kind == TokenKind::LParen && !name_required ==> r == Ok::<
                Option<BindingName>,
                ParseError,
            >(None) && *final(self) == *old(self),
            !(old(self).current.kind == TokenKind::LParen && !name_required) ==> (r is Ok <==> (Parser {
                yield_allowed: if name_required {
                    old(self).yield_allowed
                } else {
                    is_generator
                },
                await_allowed: if name_required {
                    old(self).await_allowed
                } else {
                    is_async
                },
                ..*old(self)
            }).binding_name_ahead()),
            r matches Ok(Some(name)) ==> identifier_name(old(self).source.spec_bytes(), old(self).current.span)
                == Some(name.name@) && name.span == old(self).current.span,
    {
        if self.current.kind == TokenKind::LParen && !name_required {
            return Ok(None);
        }
        let enclosing_yield = self.yield_allowed;
        let enclosing_await = self.await_allowed;
        if !name_required {
            self.yield_allowed = is_generator;
            self.await_allowed = is_async;
        }
        let name = self.parse_binding_name();
        self.yield_allowed = enclosing_yield;
        self.await_allowed = enclosing_await;
        match name {
            Ok(name) => Ok(Some(name)),
            Err(e) => Err(e),
        }
    }

    /// Parameters and body, each under the grammar parameters the function gives it.
    pub fn parse_function_parts(&mut self, is_generator: bool, is_async: bool, after: Goal) -> (r: Result<
        (FormalParameters, Vec<Stmt>, Span, bool),
        ParseError,
    >)
        requires
            old(self).wf(),
        ensures
            final(self).yield_allowed == old(self).yield_allowed,
            final(self).await_allowed == old(self).await_allowed,
            final(self).body_context == old(self).body_context,
            final(self).kept_from(*old(self)),
            r matches Ok((_, _, end, _)) ==> final(self).ends_read(end, old(self).current.span.start as int),
            r matches Ok((_, body, end, _)) ==> in_source_order(statement_spans(body@), old(self).current.span.start as int, end.start as int),
            r is Ok ==> final(self).moved_past(*old(self)),
        decreases MAX_NESTING_DEPTH - old(self).depth, 160int,
    {
        // The parameters' defaults are in the function: `new.target` may appear there.
        let enclosing_context = self.body_context;
        self.body_context = BodyContext::function();
        let parameters = self.parse_parameters_of(is_generator, is_async);
        self.body_context = enclosing_context;
        let parameters = match parameters {
            Ok(parameters) => parameters,
            Err(e) => return Err(e),
        };
        let enclosing_yield = self.yield_allowed;
        let enclosing_await = self.await_allowed;
        self.yield_allowed = is_generator;
        self.await_allowed = is_async;
        let parts = self.parse_function_body(BodyContext::function(), after, &parameters);
        self.yield_allowed = enclosing_yield;
        self.await_allowed = enclosing_await;
        let (body, end, declares_strict) = match parts {
            Ok(parts) => parts,
            Err(e) => return Err(e),
        };
        if declares_strict && !parameters.is_simple() {
            return Err(
                ParseError { kind: ParseErrorKind::UseStrictWithNonSimpleParameters, span: parameters.span },
            );
        }
        if declares_strict || self.strict {
            if let Err(e) = self.check_strict_parameters(&parameters) {
                return Err(e);
            }
        }
        Ok((parameters, body, end, declares_strict))
    }

    /// `( FormalParameters )`.
    pub fn parse_formal_parameters(&mut self) -> (r: Result<FormalParameters, ParseError>)
        requires
            old(self).wf(),
        ensures
            final(self).kept_from(*old(self)),
            r is Ok ==> final(self).moved_past(*old(self)),
            r matches Ok(p) ==> final(self).read_since(p.span, old(self).current.span.start as int),
            old(self).current.kind != TokenKind::LParen ==> *final(self) == *old(self) && r == Err::<
                FormalParameters,
                ParseError,
            >(
                ParseError {
                    kind: ParseErrorKind::Unexpected { expected: "`(`", found: old(self).current.kind },
                    span: old(self).current.span,
                },
            ),
        decreases MAX_NESTING_DEPTH - old(self).depth, 158int,
    {
        let open = match self.eat(TokenKind::LParen, Goal::RegExp, "`(`") {
            Ok(open) => open,
            Err(e) => return Err(e),
        };
        let mut items: Vec<BindingElement> = Vec::new();
        let mut rest: Option<Box<Binding>> = None;
        while self.current.kind != TokenKind::RParen
            invariant
                self.kept_from(*old(self)),
                self.moved_past(*old(self)),
                old(self).current.kind == TokenKind::LParen,
                open == old(self).current,
            decreases self.remaining(),
        {
            if self.current.kind == TokenKind::DotDotDot {
                if let Err(e) = self.advance(Goal::RegExp) {
                    return Err(e);
                }
                match self.parse_binding() {
                    Ok(binding) => {
                        rest = Some(Box::new(binding));
                    },
                    Err(e) => return Err(e),
                }
            } else {
                match self.parse_binding_element() {
                    Ok(item) => items.push(item),
                    Err(e) => return Err(e),
                }
            }
            if self.current.kind != TokenKind::Comma {
                break;
            }
            // A rest parameter is last, with not even a comma after it.
            if rest.is_some() {
                return Err(ParseError { kind: ParseErrorKind::RestElementMustBeLast, span: self.current.span });
            }
            if let Err(e) = self.advance(Goal::RegExp) {
                return Err(e);
            }
        }
        let close = match self.eat(TokenKind::RParen, Goal::RegExp, "`)`") {
            Ok(close) => close,
            Err(e) => return Err(e),
        };
        let parameters = FormalParameters { items, rest, span: open.span.to(close.span) };
        if let Err(e) = check_parameter_names(&parameters) {
            return Err(e);
        }
        Ok(parameters)
    }

    /// `{ FunctionBody }`: the statements, where the `}` is, and whether a `"use strict"`
    /// directive began them. The next token is read under `after`.
    ///
    /// The body starts the statement-level rules afresh, and §15.2.1 holds its lexical
    /// declarations against the parameters' names.
    pub fn parse_function_body(&mut self, context: BodyContext, after: Goal, parameters: &FormalParameters) -> (r: Result<
        (Vec<Stmt>, Span, bool),
        ParseError,
    >)
        requires
            old(self).wf(),
        ensures
            final(self).kept_from(*old(self)),
            r matches Ok((_, close, _)) ==> final(self).ends_read(close, old(self).current.span.start as int),
            r matches Ok((body, close, _)) ==> in_source_order(statement_spans(body@), old(self).current.span.start as int, close.start as int),
            r is Ok ==> final(self).moved_past(*old(self)),
            final(self).strict == old(self).strict,
            final(self).scope == old(self).scope,
            final(self).inside_function == old(self).inside_function,
            final(self).body_context == old(self).body_context,
            final(self).forbidden_in_parameters == old(self).forbidden_in_parameters,
            final(self).arguments_reference == old(self).arguments_reference,
        decreases MAX_NESTING_DEPTH - old(self).depth, 150int,
    {
        if let Err(e) = self.eat(TokenKind::LBrace, Goal::RegExp, "`{`") {
            return Err(e);
        }
        let enclosing_inside = self.inside_function;
        let enclosing_strict = self.strict;
        let enclosing_context = self.body_context;
        let enclosing_forbidden = self.forbidden_in_parameters;
        let enclosing_arguments = self.arguments_reference;
        let mut scope = ScopeState::new();
        core::mem::swap(&mut scope, &mut self.scope);
        self.forbidden_in_parameters = None;
        self.arguments_reference = None;
        self.inside_function = true;
        self.body_context = context;
        let body = self.parse_body_with_prologue(TokenKind::RBrace);
        let redeclared = self.redeclared_in_block(&parameter_names(parameters));
        let jumps = self.scope.jump_error;
        core::mem::swap(&mut scope, &mut self.scope);
        self.inside_function = enclosing_inside;
        self.strict = enclosing_strict;
        self.body_context = enclosing_context;
        self.forbidden_in_parameters = enclosing_forbidden;
        self.arguments_reference = enclosing_arguments;
        let (body, declares_strict) = match body {
            Ok(body) => body,
            Err(e) => return Err(e),
        };
        if let Some(span) = redeclared {
            return Err(ParseError { kind: ParseErrorKind::ParameterRedeclaredInBody, span });
        }
        if let Some(error) = jumps {
            return Err(error);
        }
        let close = match self.eat(TokenKind::RBrace, after, "`}`") {
            Ok(close) => close,
            Err(e) => return Err(e),
        };
        Ok((body, close.span, declares_strict))
    }

    /// `ReturnStatement`, which only a function body may hold (§14.10).
    pub fn parse_return(&mut self) -> (r: Result<Stmt, ParseError>)
        requires
            old(self).wf(),
        ensures
            r matches Ok(s) ==> s.kind is Return,
            final(self).kept_from(*old(self)),
            r matches Ok(s) ==> final(self).read_since(s.span, old(self).current.span.start as int),
            r is Ok ==> final(self).moved_past(*old(self)),
        decreases MAX_NESTING_DEPTH - old(self).depth, 110int,
    {
        let keyword = match self.eat(TokenKind::Keyword(ReservedWord::Return), Goal::RegExp, "`return`") {
            Ok(keyword) => keyword,
            Err(e) => return Err(e),
        };
        if !self.inside_function {
            return Err(ParseError { kind: ParseErrorKind::ReturnOutsideFunction, span: keyword.span });
        }
        let ends_here = self.current.newline_before || self.current.kind == TokenKind::Semicolon
            || self.current.kind == TokenKind::RBrace || self.current.kind == TokenKind::Eof;
        let value = if ends_here {
            None
        } else {
            if let Err(e) = self.enter() {
                return Err(e);
            }
            let value = self.parse_expression(true);
            self.leave();
            match value {
                Ok(value) => Some(Box::new(value)),
                Err(e) => return Err(e),
            }
        };
        let last = match &value {
            Some(value) => value.span,
            None => keyword.span,
        };
        let end = match self.consume_semicolon(last) {
            Ok(end) => end,
            Err(e) => return Err(e),
        };
        Ok(Stmt { kind: StmtKind::Return(value), span: keyword.span.to(end) })
    }
}

} // verus!
