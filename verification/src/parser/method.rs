//! Methods and accessors (§15.4), shared by object literals and classes.
//!
//! `get` and `set` are ordinary names: they make an accessor only when, unescaped, they are
//! followed by something that can begin a property name. `({get: 1})`, `({get})` and
//! `({get() {}})` are all about a property called `get`.

use vstd::prelude::*;
use super::body::{BodyContext, SuperAllowed};
use super::function::strict_parameters_allowed;
use super::names::{has_repeat, parameter_list_names};
use super::{ParseError, ParseErrorKind, Parser, MAX_NESTING_DEPTH};
use crate::ast::{FormalParameters, Function, MethodKind, PropertyKey};
use crate::lexer::{Goal, TokenKind};
use crate::span::Span;

verus! {

/// §15.4.1: a getter takes no parameters and a setter exactly one, and neither a rest.
pub open spec fn arity_fits(kind: MethodKind, parameters: &FormalParameters) -> bool {
    match kind {
        MethodKind::Getter => parameters.items@.len() == 0 && parameters.rest is None,
        MethodKind::Setter => parameters.items@.len() == 1 && parameters.rest is None,
        MethodKind::Normal => true,
    }
}

/// §15.4.1: a getter takes no parameter and a setter exactly one, with no rest; the error
/// for a list that does not fit covers the whole list.
pub fn check_accessor_arity(kind: MethodKind, parameters: &FormalParameters) -> (r: Result<(), ParseError>)
    ensures
        r is Ok <==> arity_fits(kind, parameters),
        r matches Err(e) ==> e == (ParseError {
            kind: ParseErrorKind::AccessorParameterCount,
            span: parameters.span,
        }),
{
    if !accessor_arity_fits(kind, parameters) {
        return Err(ParseError { kind: ParseErrorKind::AccessorParameterCount, span: parameters.span });
    }
    Ok(())
}

/// Whether `parameters` suits an accessor of `kind`.
pub fn accessor_arity_fits(kind: MethodKind, parameters: &FormalParameters) -> (r: bool)
    ensures
        r == arity_fits(kind, parameters),
{
    match kind {
        MethodKind::Getter => parameters.items.len() == 0 && parameters.rest.is_none(),
        MethodKind::Setter => parameters.items.len() == 1 && parameters.rest.is_none(),
        MethodKind::Normal => true,
    }
}

/// Whether a token of `kind` can begin a property name: a bracket, a literal, or a name.
pub open spec fn begins_property_name(kind: TokenKind) -> bool {
    ||| kind == TokenKind::LBracket
    ||| kind is String
    ||| kind is Number
    ||| kind == TokenKind::BigInt
    ||| kind is Keyword
    ||| kind is Identifier
    ||| kind is PrivateIdentifier
}

/// The accessor that the key `key`, written with or without an escape, begins when a token of
/// `next` follows it.
pub open spec fn accessor_begun(key: PropertyKey, escaped: bool, next: TokenKind) -> Option<MethodKind> {
    if escaped || !begins_property_name(next) {
        None
    } else {
        match key {
            PropertyKey::Identifier(name) => if name@ == "get"@ {
                Some(MethodKind::Getter)
            } else if name@ == "set"@ {
                Some(MethodKind::Setter)
            } else {
                None
            },
            _ => None,
        }
    }
}

impl<'a> Parser<'a> {
    /// Whether `key`, just read, was `get` or `set` beginning an accessor: unescaped, and
    /// followed by something that can begin a property name.
    pub fn at_accessor(&self, key: &PropertyKey, escaped: bool) -> (r: Option<MethodKind>)
        ensures
            r matches Some(kind) ==> kind != MethodKind::Normal,
            escaped ==> r is None,
            !(key is Identifier) ==> r is None,
            r == accessor_begun(*key, escaped, self.current.kind),
    {
        if escaped {
            return None;
        }
        let kind = match key {
            PropertyKey::Identifier(name) => {
                if crate::text::same_text(name.as_str(), "get") {
                    MethodKind::Getter
                } else if crate::text::same_text(name.as_str(), "set") {
                    MethodKind::Setter
                } else {
                    return None;
                }
            },
            _ => return None,
        };
        match self.current.kind {
            TokenKind::LBracket | TokenKind::String { .. } | TokenKind::Number { .. }
            | TokenKind::BigInt | TokenKind::Keyword(_) | TokenKind::Identifier { .. }
            | TokenKind::PrivateIdentifier { .. } => Some(kind),
            _ => None,
        }
    }

    /// A method's parameters and body, with the cursor on the `(`.
    pub fn parse_method(&mut self, kind: MethodKind, super_allowed: SuperAllowed, is_generator: bool, is_async: bool) -> (r: Result<
        Box<Function>,
        ParseError,
    >)
        requires
            old(self).wf(),
        ensures
            final(self).yield_allowed == old(self).yield_allowed,
            final(self).await_allowed == old(self).await_allowed,
            final(self).body_context == old(self).body_context,
            final(self).kept_from(*old(self)),
            r is Ok ==> final(self).moved_past(*old(self)),
            r matches Ok(f) ==> f.is_generator == is_generator && f.is_async == is_async && arity_fits(
                kind,
                &f.parameters,
            ) && f.name is None,
        decreases MAX_NESTING_DEPTH - old(self).depth, 20int,
    {
        if let Err(e) = self.enter() {
            return Err(e);
        }
        let enclosing_yield = self.yield_allowed;
        let enclosing_await = self.await_allowed;
        let enclosing_context = self.body_context;
        self.yield_allowed = is_generator;
        self.await_allowed = is_async;
        self.body_context = BodyContext::method(super_allowed);
        let parts = self.parse_method_parts(kind, super_allowed, is_generator, is_async);
        self.yield_allowed = enclosing_yield;
        self.await_allowed = enclosing_await;
        self.body_context = enclosing_context;
        self.leave();
        match parts {
            Ok(function) => Ok(Box::new(function)),
            Err(e) => Err(e),
        }
    }

    /// The parts of a method, under its own grammar parameters.
    pub fn parse_method_parts(&mut self, kind: MethodKind, super_allowed: SuperAllowed, is_generator: bool, is_async: bool) -> (r: Result<
        Function,
        ParseError,
    >)
        requires
            old(self).wf(),
        ensures
            final(self).kept_from(*old(self)),
            r is Ok ==> final(self).moved_past(*old(self)),
            r matches Ok(f) ==> f.is_generator == is_generator && f.is_async == is_async && arity_fits(
                kind,
                &f.parameters,
            ) && f.name is None,
        decreases MAX_NESTING_DEPTH - old(self).depth, 165int,
    {
        let parameters = match self.parse_method_parameters(kind, is_generator, is_async) {
            Ok(parameters) => parameters,
            Err(e) => return Err(e),
        };
        let (body, end, declares_strict) = match self.parse_function_body(
            BodyContext::method(super_allowed),
            Goal::Div,
            &parameters,
        ) {
            Ok(parts) => parts,
            Err(e) => return Err(e),
        };
        if let Err(e) = self.check_method_body(&parameters, declares_strict) {
            return Err(e);
        }
        let span = parameters.span.to(end);
        Ok(Function { name: None, parameters, body, is_generator, is_async, span })
    }

    /// `UniqueFormalParameters`, held to an accessor's count.
    pub fn parse_method_parameters(&mut self, kind: MethodKind, is_generator: bool, is_async: bool) -> (r: Result<
        FormalParameters,
        ParseError,
    >)
        requires
            old(self).wf(),
        ensures
            final(self).kept_from(*old(self)),
            r is Ok ==> final(self).moved_past(*old(self)),
            r matches Ok(p) ==> arity_fits(kind, &p),
            r matches Ok(p) ==> final(self).read_since(p.span, old(self).current.span.start as int),
            old(self).current.kind != TokenKind::LParen ==> *final(self) == *old(self) && r == Err::<
                FormalParameters,
                ParseError,
            >(
                ParseError {
                    kind: ParseErrorKind::Unexpected { expected: "`(`", found: old(self).current.kind },
                    span: old(self).current.span,
                },
            ),
        decreases MAX_NESTING_DEPTH - old(self).depth, 164int,
    {
        let parameters = match self.parse_parameters_of(is_generator, is_async) {
            Ok(parameters) => parameters,
            Err(e) => return Err(e),
        };
        if let Err(e) = check_accessor_arity(kind, &parameters) {
            return Err(e);
        }
        Ok(parameters)
    }

    /// What §15.4.1 asks of a method once its body is read: unique parameters, a simple list
    /// wherever `"use strict"` is declared, and the strict rules wherever it applies.
    pub fn check_method_body(&self, parameters: &FormalParameters, declares_strict: bool) -> (r: Result<
        (),
        ParseError,
    >)
        ensures
            r is Ok <==> !has_repeat(parameter_list_names(*parameters)) && (declares_strict
                ==> parameters.spec_is_simple()) && (declares_strict || self.strict
                ==> strict_parameters_allowed(parameter_list_names(*parameters))),
    {
        if let Err(e) = super::function::check_unique_parameters(parameters) {
            return Err(e);
        }
        if declares_strict && !parameters.is_simple() {
            return Err(
                ParseError { kind: ParseErrorKind::UseStrictWithNonSimpleParameters, span: parameters.span },
            );
        }
        if declares_strict || self.strict {
            return self.check_strict_parameters(parameters);
        }
        Ok(())
    }
}

} // verus!
