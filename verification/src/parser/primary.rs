//! `PrimaryExpression` (§13.2): the operands everything else is built from.

use vstd::prelude::*;
use super::{lexical_error, ParseError, ParseErrorKind, Parser, MAX_NESTING_DEPTH};
use crate::ast::{Expr, ExprKind, RegExpLiteral};
use crate::lexer::value::{cooked, identifier_name, literal_value, numeric_value, regexp_parts, string_value};
use super::strict::is_strict_reserved;
use crate::lexer::{Goal, LexError, ReservedWord, Token, TokenKind};
use crate::span::Span;
use vstd::string::StringSliceAdditionalSpecFns;
use vstd::utf8::encode_utf8;

verus! {

/// Whether an `AssignmentExpression` may begin with a token of this kind — which is what decides
/// whether a `yield` takes an operand or stands bare.
pub open spec fn begins_expression(kind: TokenKind) -> bool {
    match kind {
        TokenKind::Identifier { .. } | TokenKind::PrivateIdentifier { .. } | TokenKind::Number {
            ..
        } | TokenKind::BigInt | TokenKind::String { .. } | TokenKind::Template { .. }
        | TokenKind::RegExp | TokenKind::LParen | TokenKind::LBracket | TokenKind::LBrace
        | TokenKind::Plus | TokenKind::Minus | TokenKind::Bang | TokenKind::Tilde
        | TokenKind::PlusPlus | TokenKind::MinusMinus => true,
        TokenKind::Keyword(word) => word == ReservedWord::This || word == ReservedWord::Null || word
            == ReservedWord::True || word == ReservedWord::False || word == ReservedWord::Function
            || word == ReservedWord::Class || word == ReservedWord::New || word
            == ReservedWord::Super || word == ReservedWord::Typeof || word == ReservedWord::Void
            || word == ReservedWord::Delete || word == ReservedWord::Await || word
            == ReservedWord::Yield || word == ReservedWord::Import,
        _ => false,
    }
}

/// Whether an `AssignmentExpression` may begin with a token of this kind.
pub fn begins_an_expression(kind: TokenKind) -> (r: bool)
    ensures
        r == begins_expression(kind),
{
    match kind {
        TokenKind::Identifier { .. } | TokenKind::PrivateIdentifier { .. } | TokenKind::Number {
            ..
        } | TokenKind::BigInt | TokenKind::String { .. } | TokenKind::Template { .. }
        | TokenKind::RegExp | TokenKind::LParen | TokenKind::LBracket | TokenKind::LBrace
        | TokenKind::Plus | TokenKind::Minus | TokenKind::Bang | TokenKind::Tilde
        | TokenKind::PlusPlus | TokenKind::MinusMinus => true,
        TokenKind::Keyword(word) => match word {
            ReservedWord::This | ReservedWord::Null | ReservedWord::True | ReservedWord::False
            | ReservedWord::Function | ReservedWord::Class | ReservedWord::New
            | ReservedWord::Super | ReservedWord::Typeof | ReservedWord::Void
            | ReservedWord::Delete | ReservedWord::Await | ReservedWord::Yield
            | ReservedWord::Import => true,
            _ => false,
        },
        _ => false,
    }
}

/// What the first token of a `PrimaryExpression` without parentheses makes of it (§13.2): each
/// literal the value it spells, each keyword the expression it names, `[` and `{` the literals
/// they open, and a name a reference to it — or, for `async function`, a function.
pub open spec fn atom_begun_by(first: TokenKind, expr: Expr) -> bool {
    &&& !expr.parenthesized
    &&& match first {
        TokenKind::Keyword(ReservedWord::This) => expr.kind == ExprKind::This,
        TokenKind::Keyword(ReservedWord::Null) => expr.kind == ExprKind::Null,
        TokenKind::Keyword(ReservedWord::True) => expr.kind == ExprKind::Boolean(true),
        TokenKind::Keyword(ReservedWord::False) => expr.kind == ExprKind::Boolean(false),
        TokenKind::Keyword(ReservedWord::Function) => expr.kind is Function,
        TokenKind::Keyword(ReservedWord::Class) => expr.kind is Class,
        TokenKind::Keyword(ReservedWord::Super) => expr.kind is Super,
        TokenKind::LBracket => expr.kind is Array,
        TokenKind::LBrace => expr.kind is Object,
        TokenKind::Template { .. } => expr.kind is Template,
        TokenKind::Number { .. } => expr.kind is Number,
        TokenKind::BigInt => expr.kind is BigInt,
        TokenKind::String { .. } => expr.kind is String,
        TokenKind::RegExp => expr.kind is RegExp,
        _ => expr.kind is Identifier || expr.kind is Function,
    }
}

/// Whether `e` is the regular expression literal written at `span` of `bytes`: its body is
/// the text between the opening `/` and the last `/`, and its flags the text after that.
pub open spec fn regexp_read(bytes: Seq<u8>, span: Span, e: Expr) -> bool {
    &&& e.kind matches ExprKind::RegExp(literal)
    &&& exists|close: int|
        #![trigger bytes[close]]
        span.start + 1 <= close < span.end && bytes[close] == 0x2fu8 && (forall|q: int|
            close < q < span.end ==> bytes[q] != 0x2fu8) && encode_utf8(literal.body@) == bytes.subrange(
            span.start + 1,
            close,
        ) && encode_utf8(literal.flags@) == bytes.subrange(close + 1, span.end as int)
}

/// Whether a token of `kind` is a literal all by itself: `this`, `null`, `true`, `false`, a
/// number, a bigint, a string or a regular expression.
pub open spec fn one_token_literal(kind: TokenKind) -> bool {
    ||| kind == TokenKind::Keyword(ReservedWord::This)
    ||| kind == TokenKind::Keyword(ReservedWord::Null)
    ||| kind == TokenKind::Keyword(ReservedWord::True)
    ||| kind == TokenKind::Keyword(ReservedWord::False)
    ||| kind is Number
    ||| kind == TokenKind::BigInt
    ||| kind is String
    ||| kind == TokenKind::RegExp
}

/// Whether a token of `kind` begins a `PrimaryExpression` of its own, without being a name: a
/// literal, `this`, `null`, `true`, `false`, `function`, `class`, `super`, `[`, `{` or a
/// template.
pub open spec fn opens_atom(kind: TokenKind) -> bool {
    ||| kind == TokenKind::Keyword(ReservedWord::This)
    ||| kind == TokenKind::Keyword(ReservedWord::Null)
    ||| kind == TokenKind::Keyword(ReservedWord::True)
    ||| kind == TokenKind::Keyword(ReservedWord::False)
    ||| kind == TokenKind::Keyword(ReservedWord::Function)
    ||| kind == TokenKind::Keyword(ReservedWord::Class)
    ||| kind == TokenKind::Keyword(ReservedWord::Super)
    ||| kind == TokenKind::LBracket
    ||| kind == TokenKind::LBrace
    ||| kind is Template
    ||| kind is Number
    ||| kind == TokenKind::BigInt
    ||| kind is String
    ||| kind == TokenKind::RegExp
}

impl<'a> Parser<'a> {
    /// `PrimaryExpression` (§13.2). A `(` read here is only ever a parenthesized expression:
    /// where an arrow may stand, the assignment level has already looked.
    pub fn parse_primary(&mut self) -> (r: Result<Expr, ParseError>)
        requires
            old(self).wf(),
        ensures
            r matches Ok(e) ==> (old(self).current.kind == TokenKind::LParen ==> e.parenthesized),
            r matches Ok(e) ==> (old(self).current.kind != TokenKind::LParen ==> atom_begun_by(old(self).current.kind, e)),
            old(self).at_lone_number() ==> final(self).read_one_number(*old(self), r),
            old(self).too_deep_ahead() ==> (r matches Err(e) && e.kind == ParseErrorKind::TooDeeplyNested),
            final(self).kept_from(*old(self)),
            r matches Ok(e) ==> final(self).read_after(e.span, *old(self)),
            r is Ok ==> final(self).moved_past(*old(self)),
        decreases MAX_NESTING_DEPTH - old(self).depth, 34int,
    {
        let token = self.current;
        if token.kind != TokenKind::LParen {
            return self.parse_atom();
        }
        if let Err(e) = self.advance(Goal::RegExp) {
            return Err(e);
        }
        if let Err(e) = self.enter() {
            return Err(e);
        }
        let inner = self.parse_expression(true);
        self.leave();
        // What went wrong inside the brackets happened first, so it is reported before the
        // missing `)` is looked for.
        let inner = match inner {
            Ok(inner) => inner,
            Err(e) => return Err(e),
        };
        let close = match self.eat(TokenKind::RParen, Goal::Div, "`)`") {
            Ok(close) => close,
            Err(e) => return Err(e),
        };
        Ok(inner.in_parentheses(token.span.to(close.span)))
    }

    /// The `PrimaryExpression` forms that need no parenthesis.
    pub fn parse_atom(&mut self) -> (r: Result<Expr, ParseError>)
        requires
            old(self).wf(),
        ensures
            r matches Ok(e) ==> atom_begun_by(old(self).current.kind, e),
            old(self).at_lone_number() ==> final(self).read_one_number(*old(self), r),
            old(self).too_deep_ahead() ==> (r matches Err(e) && e.kind == ParseErrorKind::TooDeeplyNested),
            one_token_literal(old(self).current.kind) ==> (r matches Ok(e) ==> e.span == old(self).current.span
                && old(self).next_read(Goal::Div) == Ok::<Token, LexError>(final(self).current)),
            old(self).current.kind == TokenKind::RegExp ==> (r matches Ok(e) ==> regexp_read(
                old(self).bytes@,
                old(self).current.span,
                e,
            )),
            old(self).is_identifier_kind(old(self).current.kind) && !old(self).at_async() ==> (r matches Ok(e)
                ==> e.kind matches ExprKind::Identifier(name) && identifier_name(
                old(self).source.spec_bytes(),
                old(self).current.span,
            ) == Some(name@)),
            old(self).strict && (old(self).current.kind == (TokenKind::Number { legacy: true }) || old(self).current.kind == (TokenKind::String { legacy_octal: true })) ==> (r matches Err(e) && e.kind == ParseErrorKind::StrictLegacyOctal),
            final(self).kept_from(*old(self)),
            r matches Ok(e) ==> final(self).read_after(e.span, *old(self)),
            r is Ok ==> final(self).moved_past(*old(self)),
            old(self).current.kind == TokenKind::Keyword(ReservedWord::This) || old(self).current.kind
                == TokenKind::Keyword(ReservedWord::Null) || old(self).current.kind == TokenKind::Keyword(
                ReservedWord::True,
            ) || old(self).current.kind == TokenKind::Keyword(ReservedWord::False) ==> (r is Ok <==> old(
                self,
            ).next_read(Goal::Div) is Ok),
            old(self).current.kind is Number && !(old(self).strict && old(self).current.kind == (TokenKind::Number {
                legacy: true,
            })) ==> (r is Ok <==> old(self).next_read(Goal::Div) is Ok && literal_value(
                old(self).bytes@,
                old(self).current.span.start as int,
                old(self).current.span.end as int,
            ) is Some),
            old(self).current.kind is Number ==> (r matches Ok(e) ==> e.kind matches ExprKind::Number(v)
                && literal_value(
                old(self).bytes@,
                old(self).current.span.start as int,
                old(self).current.span.end as int,
            ) == Some((v.radix, v.digits@, v.exponent as int))),
            old(self).current.kind is String && !(old(self).strict && old(self).current.kind == (TokenKind::String {
                legacy_octal: true,
            })) ==> (r is Ok <==> old(self).next_read(Goal::Div) is Ok && old(self).current.span.start + 2
                <= old(self).current.span.end && cooked(
                old(self).bytes@,
                old(self).current.span.start + 1,
                old(self).current.span.end - 1,
            ) is Some),
            old(self).current.kind is String ==> (r matches Ok(e) ==> e.kind matches ExprKind::String(units)
                && cooked(
                old(self).bytes@,
                old(self).current.span.start + 1,
                old(self).current.span.end - 1,
            ) == Some(units@)),
            !opens_atom(old(self).current.kind) && !old(self).is_identifier_kind(old(self).current.kind) ==> *final(self) == *old(self) && r == Err::<Expr, ParseError>(
                (ParseError {
                    kind: ParseErrorKind::Unexpected { expected: "an expression", found: old(self).current.kind },
                    span: old(self).current.span,
                }),
            ),
            old(self).is_identifier_kind(old(self).current.kind) && !old(self).at_async() ==> (r is Ok <==> old(
                self,
            ).next_read(Goal::Div) is Ok && match identifier_name(
                old(self).source.spec_bytes(),
                old(self).current.span,
            ) {
                Some(name) => !(old(self).strict && is_strict_reserved(name)),
                None => false,
            }),
        decreases MAX_NESTING_DEPTH - old(self).depth, 33int,
    {
        proof {
            reveal(Parser::number_ends_text);
        }
        let token = self.current;
        match token.kind {
            TokenKind::Keyword(ReservedWord::This) => self.literal_token(token, ExprKind::This),
            TokenKind::Keyword(ReservedWord::Null) => self.literal_token(token, ExprKind::Null),
            TokenKind::Keyword(ReservedWord::True) => self.literal_token(
                token,
                ExprKind::Boolean(true),
            ),
            TokenKind::Keyword(ReservedWord::False) => self.literal_token(
                token,
                ExprKind::Boolean(false),
            ),
            TokenKind::Keyword(ReservedWord::Function) => self.parse_function_expression(false),
            TokenKind::Keyword(ReservedWord::Class) => self.parse_class_expression(),
            TokenKind::Keyword(ReservedWord::Super) => self.parse_super(),
            TokenKind::LBracket => self.parse_array_literal(),
            TokenKind::LBrace => self.parse_object_literal(),
            TokenKind::Template { .. } => self.parse_template(false),
            TokenKind::Number { legacy } => {
                // Annex B.1.1: strict code refuses `010` and `09`.
                if legacy && self.strict {
                    return Err(ParseError { kind: ParseErrorKind::StrictLegacyOctal, span: token.span });
                }
                if let Err(e) = self.advance(Goal::Div) {
                    return Err(e);
                }
                match numeric_value(self.bytes, token.span) {
                    Some(value) => Ok(Expr::new(ExprKind::Number(value), token.span)),
                    None => Err(self.value_missing(token)),
                }
            },
            TokenKind::BigInt => {
                if let Err(e) = self.advance(Goal::Div) {
                    return Err(e);
                }
                match self.bigint_literal(token) {
                    Ok(text) => Ok(Expr::new(ExprKind::BigInt(text), token.span)),
                    Err(e) => Err(e),
                }
            },
            TokenKind::String { legacy_octal } => {
                if legacy_octal && self.strict {
                    return Err(ParseError { kind: ParseErrorKind::StrictLegacyOctal, span: token.span });
                }
                if let Err(e) = self.advance(Goal::Div) {
                    return Err(e);
                }
                match string_value(self.bytes, token.span) {
                    Some(units) => Ok(Expr::new(ExprKind::String(units), token.span)),
                    None => Err(self.value_missing(token)),
                }
            },
            TokenKind::RegExp => {
                if let Err(e) = self.advance(Goal::Div) {
                    return Err(e);
                }
                match regexp_parts(self.bytes, token.span) {
                    Some((body_span, flags_span)) => {
                        let body = match body_span.slice(self.source) {
                            Some(text) => text.to_owned(),
                            None => return Err(self.value_missing(token)),
                        };
                        let flags = match flags_span.slice(self.source) {
                            Some(text) => text.to_owned(),
                            None => return Err(self.value_missing(token)),
                        };
                        proof {
                            let close = body_span.end as int;
                            assert(self.bytes@[close] == 0x2fu8);
                        }
                        Ok(
                            Expr::new(
                                ExprKind::RegExp(Box::new(RegExpLiteral { body, flags })),
                                token.span,
                            ),
                        )
                    },
                    None => Err(self.value_missing(token)),
                }
            },
            _ => {
                if !self.is_identifier_token(token.kind) {
                    return Err(self.unexpected("an expression"));
                }
                // `async [no LineTerminator here] function` opens an async function expression.
                if self.at_contextual("async") {
                    let next = match self.peek(Goal::RegExp) {
                        Ok(next) => next,
                        Err(e) => return Err(e),
                    };
                    if next.kind == TokenKind::Keyword(ReservedWord::Function) && !next.newline_before {
                        return self.parse_function_expression(true);
                    }
                }
                self.parse_identifier_reference()
            },
        }
    }

    /// An `IdentifierReference`, with the current token on it.
    pub fn parse_identifier_reference(&mut self) -> (r: Result<Expr, ParseError>)
        requires
            old(self).wf(),
        ensures
            r matches Ok(e) ==> e.kind is Identifier && !e.parenthesized,
            final(self).kept_from(*old(self)),
            r matches Ok(e) ==> final(self).read_since(e.span, old(self).current.span.start as int),
            r is Ok ==> final(self).moved_past(*old(self)),
            r is Ok <==> old(self).current.kind != TokenKind::Eof && old(self).next_read(Goal::Div) is Ok && match identifier_name(
                old(self).source.spec_bytes(),
                old(self).current.span,
            ) {
                Some(name) => !(old(self).strict && is_strict_reserved(name)),
                None => false,
            },
            r matches Ok(e) ==> e.kind == ExprKind::Identifier(e.kind->Identifier_0) && identifier_name(
                old(self).source.spec_bytes(),
                old(self).current.span,
            ) == Some(e.kind->Identifier_0@),
    {
        let token = self.current;
        if token.kind == TokenKind::Eof {
            return Err(self.unexpected("an expression"));
        }
        if let Err(e) = self.advance(Goal::Div) {
            return Err(e);
        }
        let name = match self.name_of(token) {
            Ok(name) => name,
            Err(e) => return Err(e),
        };
        if let Err(e) = self.check_strict_name(name.as_str(), token.span, false) {
            return Err(e);
        }
        self.note_arguments(name.as_str(), token.span);
        Ok(Expr::new(ExprKind::Identifier(name), token.span))
    }

    /// A token that is the whole expression, consumed.
    fn literal_token(&mut self, token: Token, kind: ExprKind) -> (r: Result<Expr, ParseError>)
        requires
            old(self).wf(),
            old(self).current == token,
            token.kind != TokenKind::Eof,
        ensures
            r matches Ok(e) ==> e.kind == kind && !e.parenthesized,
            final(self).kept_from(*old(self)),
            r matches Ok(e) ==> final(self).read_since(e.span, old(self).current.span.start as int),
            r is Ok ==> final(self).moved_past(*old(self)),
            r is Ok <==> old(self).next_read(Goal::Div) is Ok,
            r matches Ok(e) ==> e.span == token.span,
            r is Ok ==> old(self).next_read(Goal::Div) == Ok::<Token, LexError>(final(self).current),
            r is Err ==> r->Err_0 == lexical_error(old(self).next_read(Goal::Div)->Err_0),
    {
        match self.advance(Goal::Div) {
            Ok(_) => Ok(Expr::new(kind, token.span)),
            Err(e) => Err(e),
        }
    }

    /// A `BigIntLiteral`, as it was written.
    pub fn bigint_literal(&self, token: Token) -> (r: Result<String, ParseError>)
        ensures
            r matches Err(e) ==> e.span == token.span,
            r matches Ok(text) ==> encode_utf8(text@) == self.source.spec_bytes().subrange(
                token.span.start as int,
                token.span.end as int,
            ),
    {
        match token.span.slice(self.source) {
            Some(text) => Ok(text.to_owned()),
            None => Err(self.value_missing(token)),
        }
    }
}

} // verus!
