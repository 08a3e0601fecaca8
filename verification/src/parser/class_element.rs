//! The members of a class body (§15.7): methods, accessors, fields and static blocks.
//!
//! `static`, `get`, `set` and `async` are all ordinary names, so each is a modifier only when
//! what follows it says so: `static() {}` is a method called `static`, `static = 1` a field
//! called `static`, and `static {}` a static block.

use vstd::prelude::*;
use super::body::{BodyContext, SuperAllowed};
use super::method::arity_fits;
use super::scope::ScopeState;
use super::{ParseError, ParseErrorKind, Parser, MAX_NESTING_DEPTH};
use crate::ast::{ClassElement, ClassField, ClassMethod, ClassStaticBlock, Expr, MethodKind, PropertyKey};
use crate::lexer::{Goal, LexError, Token, TokenKind};
use crate::lexer::value::identifier_name;
use vstd::string::StringSliceAdditionalSpecFns;
use crate::span::Span;

verus! {

/// Whether `key` is the private name `#constructor`, which no class may declare.
pub open spec fn private_constructor(key: PropertyKey) -> bool {
    key matches PropertyKey::Private(name) && name@ == "constructor"@
}

/// The early errors of §15.7.1 that a single class element can break, as rules it keeps: no
/// `#constructor`; no accessor, generator or async method called `constructor`; no field called
/// `constructor`; nothing static called `prototype`.
pub open spec fn element_rules_hold(element: ClassElement) -> bool {
    match element {
        ClassElement::Method(method) => {
            &&& !private_constructor(method.key)
            &&& !(!method.is_static && method.kind != MethodKind::Normal && method.key.spec_names("constructor"))
            &&& !(method.is_static && method.key.spec_names("prototype"))
            &&& !(!method.is_static && method.kind == MethodKind::Normal && method.key.spec_names("constructor")
                && (method.function.is_generator || method.function.is_async))
        },
        ClassElement::Field(field) => {
            &&& !private_constructor(field.key)
            &&& !field.key.spec_names("constructor")
            &&& !(field.is_static && field.key.spec_names("prototype"))
        },
        ClassElement::StaticBlock(_) => true,
    }
}

/// Whether `parser` stands on a field with no initializer: a name other than `constructor`,
/// followed by `;`.
pub open spec fn bare_field_ahead(parser: Parser) -> bool {
    &&& parser.current.kind is Identifier
    &&& parser.next_read(Goal::Div) matches Ok(next) && next.kind == TokenKind::Semicolon
    &&& identifier_name(parser.source.spec_bytes(), parser.current.span) matches Some(name) && name
        != "constructor"@
}

/// The error §15.7.1 gives an element whose head — its name, `static`, `get` or `set`, `*`
/// and `async` — breaks a rule, if one does: an accessor called `constructor`, then anything
/// static called `prototype`, then a generator or async `constructor`.
#[verifier::opaque]
pub open spec fn element_head_error(
    key: PropertyKey,
    key_span: Span,
    kind: MethodKind,
    is_static: bool,
    is_generator: bool,
    is_async: bool,
) -> Option<ParseError> {
    let constructor = key.spec_names("constructor");
    if !is_static && kind != MethodKind::Normal && constructor {
        Some(ParseError { kind: ParseErrorKind::ConstructorMayNotBeAnAccessor, span: key_span })
    } else if is_static && key.spec_names("prototype") {
        Some(ParseError { kind: ParseErrorKind::StaticPrototype, span: key_span })
    } else if !is_static && kind == MethodKind::Normal && constructor && is_generator {
        Some(ParseError { kind: ParseErrorKind::ConstructorMayNotBeAGenerator, span: key_span })
    } else if !is_static && kind == MethodKind::Normal && constructor && is_async {
        Some(ParseError { kind: ParseErrorKind::ConstructorMayNotBeAsync, span: key_span })
    } else {
        None
    }
}

/// An element head with no error keeps the head's rules: no accessor called `constructor`,
/// nothing static called `prototype`, and no generator or async `constructor`.
proof fn lemma_head_without_error(
    key: PropertyKey,
    key_span: Span,
    kind: MethodKind,
    is_static: bool,
    is_generator: bool,
    is_async: bool,
)
    requires
        element_head_error(key, key_span, kind, is_static, is_generator, is_async) is None,
    ensures
        !(!is_static && kind != MethodKind::Normal && key.spec_names("constructor")),
        !(is_static && key.spec_names("prototype")),
        !(!is_static && kind == MethodKind::Normal && key.spec_names("constructor") && (is_generator
            || is_async)),
{
    reveal(element_head_error);
}

/// A head that is neither static nor an accessor, and not called `constructor`, breaks no
/// rule.
proof fn lemma_plain_head(
    key: PropertyKey,
    key_span: Span,
    kind: MethodKind,
    is_static: bool,
    is_generator: bool,
    is_async: bool,
)
    requires
        !is_static,
        kind == MethodKind::Normal,
        !key.spec_names("constructor"),
    ensures
        element_head_error(key, key_span, kind, is_static, is_generator, is_async) is None,
{
    reveal(element_head_error);
}

/// The rules of §15.7.1 on an element's head, checked: the error [`element_head_error`] names,
/// or nothing.
pub fn check_element_head(
    key: &PropertyKey,
    key_span: Span,
    kind: MethodKind,
    is_static: bool,
    is_generator: bool,
    is_async: bool,
) -> (r: Result<(), ParseError>)
    ensures
        match element_head_error(*key, key_span, kind, is_static, is_generator, is_async) {
            Some(e) => r == Err::<(), ParseError>(e),
            None => r is Ok,
        },
{
    reveal(element_head_error);
    let names_constructor = key.names("constructor");
    let is_constructor = !is_static && kind == MethodKind::Normal && names_constructor;
    if !is_static && kind != MethodKind::Normal && names_constructor {
        return Err(ParseError { kind: ParseErrorKind::ConstructorMayNotBeAnAccessor, span: key_span });
    }
    if is_static && key.names("prototype") {
        return Err(ParseError { kind: ParseErrorKind::StaticPrototype, span: key_span });
    }
    if is_constructor && (is_generator || is_async) {
        return Err(
            ParseError {
                kind: if is_generator {
                    ParseErrorKind::ConstructorMayNotBeAGenerator
                } else {
                    ParseErrorKind::ConstructorMayNotBeAsync
                },
                span: key_span,
            },
        );
    }
    Ok(())
}

impl<'a> Parser<'a> {
    /// `ClassElementName : PropertyName | PrivateIdentifier`. §15.7.1: `#constructor` is no
    /// name a class may declare.
    pub fn parse_class_element_name(&mut self) -> (r: Result<PropertyKey, ParseError>)
        requires
            old(self).wf(),
        ensures
            final(self).kept_from(*old(self)),
            r is Ok ==> final(self).moved_past(*old(self)),
            r matches Ok(key) ==> !private_constructor(key),
            old(self).current.kind is Identifier ==> (r is Ok <==> old(self).next_read(Goal::Div) is Ok
                && identifier_name(old(self).source.spec_bytes(), old(self).current.span) is Some),
            old(self).current.kind is Identifier ==> (r matches Ok(key) ==> key matches PropertyKey::Identifier(
                name,
            ) && identifier_name(old(self).source.spec_bytes(), old(self).current.span) == Some(name@)),
            old(self).current.kind is Identifier ==> (r is Ok ==> old(self).next_read(Goal::Div) == Ok::<
                Token,
                LexError,
            >(final(self).current)),
        decreases MAX_NESTING_DEPTH - old(self).depth, 12int,
    {
        let token = self.current;
        match token.kind {
            TokenKind::PrivateIdentifier { .. } => {},
            _ => return self.parse_property_key(),
        }
        if let Err(e) = self.advance(Goal::Div) {
            return Err(e);
        }
        let name = match self.private_name_only(token) {
            Ok(name) => name,
            Err(e) => return Err(e),
        };
        if crate::text::same_text(name.as_str(), "constructor") {
            return Err(ParseError { kind: ParseErrorKind::PrivateConstructor, span: token.span });
        }
        Ok(PropertyKey::Private(name))
    }

    /// One `ClassElement`, `;` aside. `derived` says whether the class has a heritage, which is
    /// what lets its constructor call `super(…)`.
    #[verifier::rlimit(100)]
    #[verifier::spinoff_prover]
    pub fn parse_class_element(&mut self, derived: bool) -> (r: Result<ClassElement, ParseError>)
        requires
            old(self).wf(),
        ensures
            final(self).kept_from(*old(self)),
            r is Ok ==> final(self).moved_past(*old(self)),
            r matches Ok(element) ==> element_rules_hold(element),
            bare_field_ahead(*old(self)) ==> (r is Ok <==> (old(self).next_read(Goal::Div) matches Ok(next)
                && old(self).read_at(next.span.end as int, Goal::RegExp) is Ok)),
            bare_field_ahead(*old(self)) ==> (r matches Ok(element) ==> (element matches ClassElement::Field(f)
                && !f.is_static && f.initializer is None && f.key_span == old(self).current.span && (f.key matches PropertyKey::Identifier(
                name,
            ) && identifier_name(old(self).source.spec_bytes(), old(self).current.span) == Some(name@)))),
            r matches Ok(ClassElement::Method(m)) ==> m.function.name is None && arity_fits(m.kind, &m.function.parameters)
                && (m.kind != MethodKind::Normal ==> !m.function.is_generator && !m.function.is_async),
            !(old(self).current.kind is Identifier) ==> (r matches Ok(element) ==> match element {
                ClassElement::Method(m) => !m.is_static,
                ClassElement::Field(f) => !f.is_static,
                ClassElement::StaticBlock(_) => false,
            }),
            old(self).current.kind == TokenKind::Star ==> (r matches Ok(element) ==> (element matches ClassElement::Method(
                m,
            ) && m.kind == MethodKind::Normal && m.function.is_generator && !m.function.is_async)),
        decreases MAX_NESTING_DEPTH - old(self).depth, 169int,
    {
        let mut is_static = false;
        if self.at_contextual("static") {
            let next = match self.peek(Goal::Div) {
                Ok(next) => next,
                Err(e) => return Err(e),
            };
            is_static = match next.kind {
                TokenKind::LParen | TokenKind::Semicolon | TokenKind::Eq | TokenKind::RBrace => false,
                _ => true,
            };
        }
        if is_static {
            if let Err(e) = self.advance(Goal::RegExp) {
                return Err(e);
            }
            if self.current.kind == TokenKind::LBrace {
                return match self.parse_class_static_block() {
                    Ok(block) => Ok(ClassElement::StaticBlock(block)),
                    Err(e) => Err(e),
                };
            }
        }
        let is_async = match self.at_async_method() {
            Ok(is_async) => is_async,
            Err(e) => return Err(e),
        };
        if is_async {
            if let Err(e) = self.advance(Goal::Div) {
                return Err(e);
            }
        }
        let is_generator = self.current.kind == TokenKind::Star;
        if is_generator {
            if let Err(e) = self.advance(Goal::RegExp) {
                return Err(e);
            }
        }
        let first = self.current;
        let escaped = first.kind == (TokenKind::Identifier { contains_escape: true });
        let key = match self.parse_class_element_name() {
            Ok(key) => key,
            Err(e) => return Err(e),
        };
        let accessor = if !is_async && !is_generator {
            self.at_accessor(&key, escaped)
        } else {
            None
        };
        let (key, key_span, kind) = match accessor {
            Some(kind) => {
                let name_span = self.current.span;
                match self.parse_class_element_name() {
                    Ok(key) => (key, name_span, kind),
                    Err(e) => return Err(e),
                }
            },
            None => (key, first.span, MethodKind::Normal),
        };
        proof {
            if !is_static && kind == MethodKind::Normal && !key.spec_names("constructor") {
                lemma_plain_head(key, key_span, kind, is_static, is_generator, is_async);
            }
        }
        if let Err(e) = check_element_head(&key, key_span, kind, is_static, is_generator, is_async) {
            return Err(e);
        }
        proof {
            lemma_head_without_error(key, key_span, kind, is_static, is_generator, is_async);
        }
        self.parse_element_after_head(key, key_span, kind, is_static, is_generator, is_async, derived)
    }

    /// A class element once its head is read and has passed the rules of
    /// [`check_element_head`]: a field when no `(` follows, a method when one does.
    pub fn parse_element_after_head(
        &mut self,
        key: PropertyKey,
        key_span: Span,
        kind: MethodKind,
        is_static: bool,
        is_generator: bool,
        is_async: bool,
        derived: bool,
    ) -> (r: Result<ClassElement, ParseError>)
        requires
            old(self).wf(),
            kind != MethodKind::Normal ==> !is_generator && !is_async,
        ensures
            final(self).kept_from(*old(self)),
            r matches Ok(element) ==> match element {
                ClassElement::Method(m) => m.key == key && m.kind == kind && m.is_static == is_static
                    && m.key_span == key_span && m.function.is_generator == is_generator && m.function.is_async
                    == is_async && m.function.name is None && arity_fits(m.kind, &m.function.parameters),
                ClassElement::Field(f) => f.key == key && f.is_static == is_static && f.key_span == key_span
                    && kind == MethodKind::Normal && !is_generator && !is_async && !key.spec_names("constructor")
                    && (old(self).current.kind != TokenKind::Eq ==> f.initializer is None),
                ClassElement::StaticBlock(_) => false,
            },
            old(self).current.kind != TokenKind::LParen ==> (r matches Ok(element) ==> element is Field),
            old(self).current.kind == TokenKind::Semicolon && kind == MethodKind::Normal && !is_generator
                && !is_async && !key.spec_names("constructor") ==> (r is Ok <==> old(self).next_read(
                Goal::RegExp,
            ) is Ok),
        decreases MAX_NESTING_DEPTH - old(self).depth, 168int,
    {
        let is_constructor = !is_static && kind == MethodKind::Normal && key.names("constructor");
        if self.current.kind != TokenKind::LParen {
            if is_async || is_generator || kind != MethodKind::Normal {
                return Err(self.unexpected("`(`"));
            }
            return match self.parse_class_field(key, key_span, is_static) {
                Ok(field) => Ok(ClassElement::Field(field)),
                Err(e) => Err(e),
            };
        }
        let allowed = SuperAllowed { property: true, call: is_constructor && derived };
        match self.parse_method(kind, allowed, is_generator, is_async) {
            Ok(function) => Ok(ClassElement::Method(ClassMethod { key, kind, function, is_static, key_span })),
            Err(e) => Err(e),
        }
    }

    /// `FieldDefinition ;`, after its name.
    pub fn parse_class_field(&mut self, key: PropertyKey, key_span: Span, is_static: bool) -> (r: Result<
        ClassField,
        ParseError,
    >)
        requires
            old(self).wf(),
        ensures
            final(self).kept_from(*old(self)),
            key.spec_names("constructor") ==> *final(self) == *old(self) && (r matches Err(e) && e.kind
                == ParseErrorKind::ConstructorAsFieldName && e.span == key_span),
            r matches Ok(field) ==> field.key == key && field.is_static == is_static && field.key_span == key_span,
            r matches Ok(field) ==> (old(self).current.kind != TokenKind::Eq ==> field.initializer is None),
            old(self).current.kind == TokenKind::Semicolon && !key.spec_names("constructor") ==> (r is Ok <==> old(
                self,
            ).next_read(Goal::RegExp) is Ok),
        decreases MAX_NESTING_DEPTH - old(self).depth, 167int,
    {
        // §15.7.1: a field may not be called `constructor`, static or not.
        if key.names("constructor") {
            return Err(ParseError { kind: ParseErrorKind::ConstructorAsFieldName, span: key_span });
        }
        let initializer = match self.parse_field_initializer() {
            Ok(initializer) => initializer,
            Err(e) => return Err(e),
        };
        let end = match &initializer {
            Some(value) => value.span,
            None => key_span,
        };
        if let Err(e) = self.consume_semicolon(end) {
            return Err(e);
        }
        Ok(ClassField { key, initializer, is_static, key_span })
    }

    /// A field's `Initializer`, which is a function of its own: no `yield`, no `await`, and
    /// (§15.7.1) no `arguments`.
    pub fn parse_field_initializer(&mut self) -> (r: Result<Option<Box<Expr>>, ParseError>)
        requires
            old(self).wf(),
        ensures
            final(self).yield_allowed == old(self).yield_allowed,
            final(self).await_allowed == old(self).await_allowed,
            final(self).arguments_reference == old(self).arguments_reference,
            final(self).body_context == old(self).body_context,
            final(self).kept_from(*old(self)),
            old(self).current.kind != TokenKind::Eq ==> r == Ok::<Option<Box<Expr>>, ParseError>(None)
                && *final(self) == *old(self),
            r matches Ok(Some(_)) ==> old(self).current.kind == TokenKind::Eq,
        decreases MAX_NESTING_DEPTH - old(self).depth, 166int,
    {
        if self.current.kind != TokenKind::Eq {
            return Ok(None);
        }
        if let Err(e) = self.advance(Goal::RegExp) {
            return Err(e);
        }
        if let Err(e) = self.enter() {
            return Err(e);
        }
        let enclosing_yield = self.yield_allowed;
        let enclosing_await = self.await_allowed;
        let enclosing_arguments = self.arguments_reference;
        let enclosing_context = self.body_context;
        self.yield_allowed = false;
        self.await_allowed = false;
        self.arguments_reference = None;
        self.body_context = BodyContext::class_initializer();
        let value = self.parse_assignment(true);
        self.leave();
        let arguments = self.arguments_reference;
        self.yield_allowed = enclosing_yield;
        self.await_allowed = enclosing_await;
        self.arguments_reference = enclosing_arguments;
        self.body_context = enclosing_context;
        if let Some(span) = arguments {
            return Err(ParseError { kind: ParseErrorKind::ArgumentsInClassInitializer, span });
        }
        match value {
            Ok(value) => Ok(Some(Box::new(value))),
            Err(e) => Err(e),
        }
    }

    /// `ClassStaticBlock`, with the cursor on the `{`: statements that run once, where `await`
    /// is reserved and refused, and where `arguments`, `return`, labels and jumps from outside
    /// do not reach.
    pub fn parse_class_static_block(&mut self) -> (r: Result<ClassStaticBlock, ParseError>)
        requires
            old(self).wf(),
        ensures
            final(self).kept_from(*old(self)),
            r is Ok ==> final(self).moved_past(*old(self)),
            r matches Ok(b) ==> final(self).read_since(b.span, old(self).current.span.start as int),
            final(self).scope == old(self).scope,
            final(self).yield_allowed == old(self).yield_allowed,
            final(self).await_allowed == old(self).await_allowed,
            final(self).inside_function == old(self).inside_function,
            final(self).body_context == old(self).body_context,
            final(self).forbidden_in_parameters == old(self).forbidden_in_parameters,
            final(self).arguments_reference == old(self).arguments_reference,
        decreases MAX_NESTING_DEPTH - old(self).depth, 166int,
    {
        let open = self.current;
        let enclosing_yield = self.yield_allowed;
        let enclosing_await = self.await_allowed;
        let enclosing_inside = self.inside_function;
        let enclosing_forbidden = self.forbidden_in_parameters;
        let enclosing_arguments = self.arguments_reference;
        let enclosing_context = self.body_context;
        let mut scope = ScopeState::new();
        core::mem::swap(&mut scope, &mut self.scope);
        self.yield_allowed = false;
        self.await_allowed = true;
        self.inside_function = false;
        self.forbidden_in_parameters = None;
        self.arguments_reference = None;
        self.body_context = BodyContext::class_initializer();
        let body = self.parse_block_body();
        let forbidden = self.forbidden_in_parameters;
        let arguments = self.arguments_reference;
        let jumps = self.scope.jump_error;
        core::mem::swap(&mut scope, &mut self.scope);
        self.yield_allowed = enclosing_yield;
        self.await_allowed = enclosing_await;
        self.inside_function = enclosing_inside;
        self.forbidden_in_parameters = enclosing_forbidden;
        self.arguments_reference = enclosing_arguments;
        self.body_context = enclosing_context;
        let (body, close) = match body {
            Ok(body) => body,
            Err(e) => return Err(e),
        };
        if let Some(error) = jumps {
            return Err(error);
        }
        if let Some(span) = arguments {
            return Err(ParseError { kind: ParseErrorKind::ArgumentsInClassInitializer, span });
        }
        if let Some(error) = forbidden {
            return Err(ParseError { kind: ParseErrorKind::AwaitInStaticBlock, span: error.span });
        }
        Ok(ClassStaticBlock { body, span: open.span.to(close) })
    }
}

} // verus!
