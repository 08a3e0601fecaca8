//! Object literals (§13.2.5) and the property names they share with classes and patterns.
//!
//! Two rules belong to an `ObjectLiteral` and not to the pattern it may cover: a shorthand
//! property may not have an initialiser, and `__proto__: value` may appear only once. Which of
//! the two the literal is, is not known when its `}` is read, so each broken rule is recorded
//! (see [`Parser::record_cover`]) and settled later.

use vstd::prelude::*;
use super::body::SuperAllowed;
use super::method::arity_fits;
use super::{ParseError, ParseErrorKind, Parser, MAX_NESTING_DEPTH};
use crate::ast::{Expr, ExprKind, MethodKind, PropertyDefinition, PropertyKey};
use crate::lexer::value::{cooked, identifier_name, literal_value, numeric_value, string_value};
use vstd::string::StringSliceAdditionalSpecFns;
use crate::lexer::{Goal, LexError, Token, TokenKind};
use super::strict::is_strict_reserved;
use crate::span::Span;

verus! {

/// Whether `property` is a `PropertyName : AssignmentExpression` named `__proto__`.
pub open spec fn is_proto_entry(property: PropertyDefinition) -> bool {
    property matches PropertyDefinition::KeyValue { key, .. } && key.spec_names("__proto__")
}

/// How many of the first `n` properties are `__proto__: value` entries.
pub open spec fn proto_count(properties: Seq<PropertyDefinition>, n: int) -> nat
    decreases n,
{
    if n <= 0 || n > properties.len() {
        0
    } else {
        proto_count(properties, n - 1) + if is_proto_entry(properties[n - 1]) {
            1nat
        } else {
            0nat
        }
    }
}

/// Where the value of the second `__proto__: value` entry among the first `n` properties is,
/// when there is one.
pub open spec fn second_proto(properties: Seq<PropertyDefinition>, n: int) -> Option<Span>
    decreases n,
{
    if n <= 0 || n > properties.len() {
        None
    } else if proto_count(properties, n - 1) >= 2 {
        second_proto(properties, n - 1)
    } else if is_proto_entry(properties[n - 1]) && proto_count(properties, n - 1) == 1 {
        Some(properties[n - 1]->KeyValue_value.span)
    } else {
        None
    }
}

/// The error for each shorthand with an initialiser among the first `n` properties, in order.
pub open spec fn shorthand_errors(properties: Seq<PropertyDefinition>, n: int) -> Seq<ParseError>
    decreases n,
{
    if n <= 0 || n > properties.len() {
        Seq::empty()
    } else {
        shorthand_errors(properties, n - 1) + match properties[n - 1] {
            PropertyDefinition::ShorthandWithDefault { span, .. } => seq![
                ParseError { kind: ParseErrorKind::ShorthandPropertyWithInitializer, span },
            ],
            _ => Seq::empty(),
        }
    }
}

/// Once two `__proto__` entries have been seen, the second stays the one reported however
/// many properties follow.
proof fn lemma_second_proto_settled(properties: Seq<PropertyDefinition>, m: int, n: int)
    requires
        0 <= m <= n <= properties.len(),
        proto_count(properties, m) >= 2,
    ensures
        second_proto(properties, n) == second_proto(properties, m),
        proto_count(properties, n) >= 2,
    decreases n - m,
{
    if n > m {
        lemma_second_proto_settled(properties, m, n - 1);
    }
}

/// The rules the literal owes that a pattern does not: each shorthand with an initialiser, and a
/// second `__proto__: value`.
pub fn literal_only_rules(properties: &Vec<PropertyDefinition>) -> (errors: Vec<ParseError>)
    ensures
        errors@ == shorthand_errors(properties@, properties@.len() as int) + match second_proto(
            properties@,
            properties@.len() as int,
        ) {
            Some(span) => seq![ParseError { kind: ParseErrorKind::DuplicateProto, span }],
            None => Seq::empty(),
        },
{
    let mut errors: Vec<ParseError> = Vec::new();
    let mut k: usize = 0;
    while k < properties.len()
        invariant
            k <= properties@.len(),
            errors@ == shorthand_errors(properties@, k as int),
        decreases properties.len() - k,
    {
        if let PropertyDefinition::ShorthandWithDefault { name: _, default: _, span } = &properties[k] {
            errors.push(ParseError { kind: ParseErrorKind::ShorthandPropertyWithInitializer, span: *span });
        }
        proof {
            assert(errors@ =~= shorthand_errors(properties@, k + 1));
        }
        k = k + 1;
    }
    if let Some(error) = check_single_proto(properties) {
        errors.push(error);
    }
    errors
}

/// §13.2.5.1: two `__proto__: value` properties. Only the `key: value` form counts: a
/// shorthand, a method or a computed `["__proto__"]` sets an ordinary property.
pub fn check_single_proto(properties: &Vec<PropertyDefinition>) -> (r: Option<ParseError>)
    ensures
        r == match second_proto(properties@, properties@.len() as int) {
            Some(span) => Some(ParseError { kind: ParseErrorKind::DuplicateProto, span }),
            None => None::<ParseError>,
        },
        r is None <==> proto_count(properties@, properties@.len() as int) <= 1,
{
    let mut seen = false;
    let mut k: usize = 0;
    while k < properties.len()
        invariant
            k <= properties@.len(),
            seen == (proto_count(properties@, k as int) >= 1),
            proto_count(properties@, k as int) <= 1,
            second_proto(properties@, k as int) is None,
        decreases properties.len() - k,
    {
        if let PropertyDefinition::KeyValue { key, value } = &properties[k] {
            if key.names("__proto__") {
                if seen {
                    proof {
                        lemma_second_proto_settled(properties@, k + 1, properties@.len() as int);
                    }
                    return Some(ParseError { kind: ParseErrorKind::DuplicateProto, span: value.span });
                }
                seen = true;
            }
        }
        k = k + 1;
    }
    None
}

/// Whether `parser` stands on a shorthand property: a name, not `async`, that strict code
/// allows here, followed by the `,` or the `}` that ends it.
pub open spec fn shorthand_ahead(parser: Parser) -> bool {
    &&& parser.current.kind is Identifier
    &&& !parser.at_async()
    &&& parser.next_read(Goal::Div) matches Ok(next) && (next.kind == TokenKind::Comma || next.kind
        == TokenKind::RBrace)
    &&& identifier_name(parser.source.spec_bytes(), parser.current.span) matches Some(name) && !(
    parser.strict && is_strict_reserved(name))
}

impl<'a> Parser<'a> {
    /// `ObjectLiteral`, with the cursor on the `{`.
    pub fn parse_object_literal(&mut self) -> (r: Result<Expr, ParseError>)
        requires
            old(self).wf(),
        ensures
            final(self).kept_from(*old(self)),
            r matches Ok(e) ==> final(self).read_since(e.span, old(self).current.span.start as int),
            r is Ok ==> final(self).moved_past(*old(self)),
            r matches Ok(e) ==> e.kind is Object && !e.parenthesized,
        decreases MAX_NESTING_DEPTH - old(self).depth, 24int,
    {
        if self.current.kind != TokenKind::LBrace {
            return Err(self.unexpected("`{`"));
        }
        let open = match self.advance(Goal::RegExp) {
            Ok(open) => open,
            Err(e) => return Err(e),
        };
        if let Err(e) = self.enter() {
            return Err(e);
        }
        let enclosing_covers = self.open_covers;
        self.open_covers = if enclosing_covers < u32::MAX {
            enclosing_covers + 1
        } else {
            enclosing_covers
        };
        let properties = self.parse_property_definitions();
        self.open_covers = enclosing_covers;
        self.leave();
        let properties = match properties {
            Ok(properties) => properties,
            Err(e) => return Err(e),
        };
        let close = match self.eat(TokenKind::RBrace, Goal::Div, "`}`") {
            Ok(close) => close,
            Err(e) => return Err(e),
        };
        let span = open.span.to(close.span);
        let errors = literal_only_rules(&properties);
        let mut k: usize = 0;
        while k < errors.len()
            invariant
                self.kept_from(*old(self)),
                self.moved_past(*old(self)),
                self.read_since(span, old(self).current.span.start as int),
            decreases errors.len() - k,
        {
            self.record_cover(errors[k], span);
            k = k + 1;
        }
        Ok(Expr::new(ExprKind::Object(properties), span))
    }

    /// The property definitions, up to but not including the `}`.
    pub fn parse_property_definitions(&mut self) -> (r: Result<Vec<PropertyDefinition>, ParseError>)
        requires
            old(self).wf(),
        ensures
            final(self).kept_from(*old(self)),
        decreases MAX_NESTING_DEPTH - old(self).depth, 80int,
    {
        let mut properties: Vec<PropertyDefinition> = Vec::new();
        while self.current.kind != TokenKind::RBrace
            invariant
                self.kept_from(*old(self)),
            decreases self.remaining(),
        {
            if self.current.kind == TokenKind::DotDotDot {
                if let Err(e) = self.advance(Goal::RegExp) {
                    return Err(e);
                }
                let value = match self.parse_assignment(true) {
                    Ok(value) => value,
                    Err(e) => return Err(e),
                };
                let followed_by_comma = self.current.kind == TokenKind::Comma;
                properties.push(PropertyDefinition::Spread { value, followed_by_comma });
            } else {
                match self.parse_property_definition() {
                    Ok(property) => properties.push(property),
                    Err(e) => return Err(e),
                }
            }
            if self.current.kind != TokenKind::Comma {
                break;
            }
            if let Err(e) = self.advance(Goal::RegExp) {
                return Err(e);
            }
        }
        Ok(properties)
    }

    /// One `PropertyDefinition`: `key: value`, a method or accessor, or a shorthand name with
    /// or without an initialiser.
    pub fn parse_property_definition(&mut self) -> (r: Result<PropertyDefinition, ParseError>)
        requires
            old(self).wf(),
        ensures
            final(self).kept_from(*old(self)),
            r is Ok ==> final(self).moved_past(*old(self)),
            r matches Ok(p) ==> !(p is Spread),
            shorthand_ahead(*old(self)) ==> (r matches Ok(PropertyDefinition::Shorthand { name, span }) && span
                == old(self).current.span && identifier_name(old(self).source.spec_bytes(), old(self).current.span)
                == Some(name@)),
            r matches Ok(PropertyDefinition::Method { kind, function, .. }) ==> arity_fits(kind, &function.parameters)
                && function.name is None,
            r matches Ok(PropertyDefinition::Shorthand { span, .. }) ==> span == old(self).current.span,
            r matches Ok(PropertyDefinition::ShorthandWithDefault { span, .. }) ==> span == old(self).current.span,
            old(self).current.kind == TokenKind::Star ==> (r matches Ok(p) ==> (p matches PropertyDefinition::Method {
                kind,
                function,
                ..
            } && kind == MethodKind::Normal && function.is_generator && !function.is_async)),
            !(old(self).current.kind == TokenKind::LBracket || old(self).current.kind is String || old(
                self,
            ).current.kind is Number || old(self).current.kind == TokenKind::BigInt || old(self).current.kind
                is Identifier || old(self).current.kind is Keyword || old(self).current.kind == TokenKind::Star)
                ==> *final(self) == *old(self) && r == Err::<PropertyDefinition, ParseError>(
                (ParseError {
                    kind: ParseErrorKind::Unexpected { expected: "a property name", found: old(self).current.kind },
                    span: old(self).current.span,
                }),
            ),
        decreases MAX_NESTING_DEPTH - old(self).depth, 79int,
    {
        let is_async = match self.at_async_method() {
            Ok(is_async) => is_async,
            Err(e) => return Err(e),
        };
        if is_async {
            if let Err(e) = self.advance(Goal::Div) {
                return Err(e);
            }
        }
        let is_generator = self.current.kind == TokenKind::Star;
        if is_generator {
            if let Err(e) = self.advance(Goal::RegExp) {
                return Err(e);
            }
        }
        if is_async || is_generator {
            let key = match self.parse_property_key() {
                Ok(key) => key,
                Err(e) => return Err(e),
            };
            return match self.parse_method(MethodKind::Normal, SuperAllowed::property_only(), is_generator, is_async) {
                Ok(function) => Ok(PropertyDefinition::Method { key, kind: MethodKind::Normal, function }),
                Err(e) => Err(e),
            };
        }
        let token = self.current;
        let escaped = token.kind == (TokenKind::Identifier { contains_escape: true });
        let key = match self.parse_property_key() {
            Ok(key) => key,
            Err(e) => return Err(e),
        };
        if let Some(kind) = self.at_accessor(&key, escaped) {
            let key = match self.parse_property_key() {
                Ok(key) => key,
                Err(e) => return Err(e),
            };
            return match self.parse_method(kind, SuperAllowed::property_only(), false, false) {
                Ok(function) => Ok(PropertyDefinition::Method { key, kind, function }),
                Err(e) => Err(e),
            };
        }
        if self.current.kind == TokenKind::LParen {
            return match self.parse_method(MethodKind::Normal, SuperAllowed::property_only(), false, false) {
                Ok(function) => Ok(PropertyDefinition::Method { key, kind: MethodKind::Normal, function }),
                Err(e) => Err(e),
            };
        }
        if self.current.kind == TokenKind::Colon {
            if let Err(e) = self.advance(Goal::RegExp) {
                return Err(e);
            }
            return match self.parse_assignment(true) {
                Ok(value) => Ok(PropertyDefinition::KeyValue { key, value }),
                Err(e) => Err(e),
            };
        }
        // A shorthand is an `IdentifierReference`, narrower than the key form's name.
        let name = match key {
            PropertyKey::Identifier(name) => name,
            _ => return Err(self.unexpected("`:`")),
        };
        if !self.is_identifier_token(token.kind) {
            return Err(
                ParseError {
                    kind: ParseErrorKind::Unexpected { expected: "`:`", found: self.current.kind },
                    span: token.span,
                },
            );
        }
        if let Err(e) = self.check_strict_name(name.as_str(), token.span, false) {
            return Err(e);
        }
        self.note_arguments(name.as_str(), token.span);
        if self.current.kind == TokenKind::Eq {
            if let Err(e) = self.advance(Goal::RegExp) {
                return Err(e);
            }
            // The default stays an expression whatever the literal becomes.
            let enclosing = self.protecting_from;
            self.protecting_from = Some(self.current.span.start);
            if let Err(e) = self.enter() {
                return Err(e);
            }
            let default = self.parse_assignment(true);
            self.leave();
            self.protecting_from = enclosing;
            return match default {
                Ok(default) => Ok(
                    PropertyDefinition::ShorthandWithDefault { name, default: Box::new(default), span: token.span },
                ),
                Err(e) => Err(e),
            };
        }
        Ok(PropertyDefinition::Shorthand { name, span: token.span })
    }

    /// `PropertyName`: an identifier or reserved word, a string, a number, or `[expression]`.
    pub fn parse_property_key(&mut self) -> (r: Result<PropertyKey, ParseError>)
        requires
            old(self).wf(),
        ensures
            final(self).kept_from(*old(self)),
            r is Ok ==> final(self).moved_past(*old(self)),
            r matches Ok(key) ==> !(key is Private),
            r matches Ok(key) ==> (key is Computed <==> old(self).current.kind == TokenKind::LBracket),
            old(self).current.kind is Identifier || old(self).current.kind is Keyword ==> (r is Ok ==> old(
                self,
            ).next_read(Goal::Div) == Ok::<Token, LexError>(final(self).current) && final(self).strict == old(
                self,
            ).strict),
            old(self).current.kind is Identifier || old(self).current.kind is Keyword ==> (r is Ok <==> old(
                self,
            ).next_read(Goal::Div) is Ok && identifier_name(old(self).source.spec_bytes(), old(self).current.span)
                is Some) && (r matches Ok(key) ==> key matches PropertyKey::Identifier(name) && identifier_name(
                old(self).source.spec_bytes(),
                old(self).current.span,
            ) == Some(name@)),
            old(self).current.kind is String ==> (r is Ok <==> old(self).next_read(Goal::Div) is Ok
                && old(self).current.span.start + 2 <= old(self).current.span.end && cooked(
                old(self).bytes@,
                old(self).current.span.start + 1,
                old(self).current.span.end - 1,
            ) is Some) && (r matches Ok(key) ==> key matches PropertyKey::String(units) && cooked(
                old(self).bytes@,
                old(self).current.span.start + 1,
                old(self).current.span.end - 1,
            ) == Some(units@)),
            old(self).current.kind is Number ==> (r is Ok <==> old(self).next_read(Goal::Div) is Ok && literal_value(
                old(self).bytes@,
                old(self).current.span.start as int,
                old(self).current.span.end as int,
            ) is Some) && (r matches Ok(key) ==> key matches PropertyKey::Number(v) && literal_value(
                old(self).bytes@,
                old(self).current.span.start as int,
                old(self).current.span.end as int,
            ) == Some((v.radix, v.digits@, v.exponent as int))),
            !(old(self).current.kind == TokenKind::LBracket || old(self).current.kind is String || old(
                self,
            ).current.kind is Number || old(self).current.kind == TokenKind::BigInt || old(self).current.kind
                is Identifier || old(self).current.kind is Keyword) ==> *final(self) == *old(self) && r
                == Err::<PropertyKey, ParseError>(
                (ParseError {
                    kind: ParseErrorKind::Unexpected { expected: "a property name", found: old(self).current.kind },
                    span: old(self).current.span,
                }),
            ),
        decreases MAX_NESTING_DEPTH - old(self).depth, 11int,
    {
        let token = self.current;
        match token.kind {
            TokenKind::LBracket => {
                if let Err(e) = self.advance(Goal::RegExp) {
                    return Err(e);
                }
                // A computed key stays an expression whatever the literal becomes.
                let enclosing = self.protecting_from;
                self.protecting_from = Some(self.current.span.start);
                if let Err(e) = self.enter() {
                    return Err(e);
                }
                let key = self.parse_assignment(true);
                self.leave();
                self.protecting_from = enclosing;
                let key = match key {
                    Ok(key) => key,
                    Err(e) => return Err(e),
                };
                if let Err(e) = self.eat(TokenKind::RBracket, Goal::Div, "`]`") {
                    return Err(e);
                }
                Ok(PropertyKey::Computed(Box::new(key)))
            },
            TokenKind::String { .. } => {
                if let Err(e) = self.advance(Goal::Div) {
                    return Err(e);
                }
                match string_value(self.bytes, token.span) {
                    Some(value) => Ok(PropertyKey::String(value)),
                    None => Err(self.value_missing(token)),
                }
            },
            TokenKind::Number { .. } => {
                if let Err(e) = self.advance(Goal::Div) {
                    return Err(e);
                }
                match numeric_value(self.bytes, token.span) {
                    Some(value) => Ok(PropertyKey::Number(value)),
                    None => Err(self.value_missing(token)),
                }
            },
            TokenKind::BigInt => {
                if let Err(e) = self.advance(Goal::Div) {
                    return Err(e);
                }
                match self.bigint_literal(token) {
                    Ok(text) => Ok(PropertyKey::BigInt(text)),
                    Err(e) => Err(e),
                }
            },
            TokenKind::Identifier { .. } | TokenKind::Keyword(_) => {
                if let Err(e) = self.advance(Goal::Div) {
                    return Err(e);
                }
                match self.name_of(token) {
                    Ok(name) => Ok(PropertyKey::Identifier(name)),
                    Err(e) => Err(e),
                }
            },
            _ => Err(self.unexpected("a property name")),
        }
    }
}

} // verus!
