//! `LeftHandSideExpression` (§13.3): member access, calls, and `new`.
//!
//! `new` and a call both want the same argument list, and which of them gets it is decided by
//! how many `new`s are waiting: a `new` parses its callee with calls switched off, so the first
//! argument list it then sees is its own.

use vstd::prelude::*;
use super::{ParseError, ParseErrorKind, Parser, MAX_NESTING_DEPTH};
use crate::ast::{Argument, Expr, ExprKind};
use crate::lexer::{Goal, ReservedWord, TokenKind};
use crate::span::Span;

verus! {

/// An `Arguments` as read, before anything has decided whether it was a call's or an arrow's.
pub struct ArgumentList {
    /// The arguments, in order.
    pub arguments: Vec<Argument>,
    /// Whether a comma came last — `Arguments : ( ArgumentList , )`.
    pub trailing_comma: bool,
    /// The closing parenthesis.
    pub end: Span,
}

/// Whether `e` is `base` with member accesses, calls and template tags hung off it, outermost
/// last: `base` itself, or a link whose object, callee or tag is such a chain.
pub open spec fn links_onto(e: Expr, base: Expr) -> bool
    decreases e,
{
    e == base || match e.kind {
        ExprKind::Member { object, .. } => links_onto(*object, base),
        ExprKind::ComputedMember { object, .. } => links_onto(*object, base),
        ExprKind::Call { callee, .. } => links_onto(*callee, base),
        ExprKind::TaggedTemplate { tag, .. } => links_onto(*tag, base),
        _ => false,
    }
}

/// Whether a link of the chain that ends in `e` was written with `?.`. Parentheses end a
/// chain: a parenthesized expression, and anything that is no member access, call or tagged
/// template, is where the chain begins.
pub open spec fn optional_in_chain(e: Expr) -> bool
    decreases e,
{
    !e.parenthesized && match e.kind {
        ExprKind::Member { optional, object, .. } => optional || optional_in_chain(*object),
        ExprKind::ComputedMember { optional, object, .. } => optional || optional_in_chain(*object),
        ExprKind::Call { optional, callee, .. } => optional || optional_in_chain(*callee),
        ExprKind::TaggedTemplate { tag, .. } => optional_in_chain(*tag),
        _ => false,
    }
}

/// Whether `e` can begin a chain: no link already written with `?.` hangs in it, and it is
/// no optional chain unless parenthesized.
pub open spec fn begins_chain(e: Expr) -> bool {
    !optional_in_chain(e) && (e.kind is OptionalChain ==> e.parenthesized)
}

/// Whether a token continues a chain: a `.`, a `[`, a `?.`, a template, or a `(` where calls
/// are read.
pub open spec fn continues_chain(kind: TokenKind, allow_call: bool) -> bool {
    ||| kind == TokenKind::Dot
    ||| kind == TokenKind::LBracket
    ||| kind == TokenKind::QuestionDot
    ||| kind is Template
    ||| kind == TokenKind::LParen && allow_call
}

impl<'a> Parser<'a> {
    /// `LeftHandSideExpression` (§13.3): a primary expression with member accesses and calls hung
    /// off it, or a `new` expression. `allow_call` is false for the callee of a `new`; `head` is a
    /// parenthesized group the assignment level has already read.
    pub fn parse_member(&mut self, allow_call: bool, head: Option<Expr>) -> (r: Result<
        Expr,
        ParseError,
    >)
        requires
            old(self).wf(),
            head matches Some(h) ==> h.span.end == old(self).consumed_to@,
            head matches Some(h) ==> begins_chain(h),
        ensures
            final(self).kept_from(*old(self)),
            r matches Ok(e) ==> final(self).read_after_head(e.span, head, *old(self)),
            r is Ok ==> head is Some || final(self).moved_past(*old(self)),
            r matches Ok(e) ==> (!e.parenthesized ==> (e.kind matches ExprKind::OptionalChain(inner)
                ==> optional_in_chain(*inner))),
            r matches Ok(e) ==> (!(e.kind is OptionalChain) ==> !optional_in_chain(e)),
            r matches Ok(e) ==> (head matches Some(h) ==> (links_onto(e, h) || (e.kind matches ExprKind::OptionalChain(
                inner,
            ) && links_onto(*inner, h)))),
            head is None && old(self).at_lone_number() ==> final(self).read_one_number(*old(self), r),
            head is None && old(self).too_deep_ahead() ==> (r matches Err(e) && e.kind == ParseErrorKind::TooDeeplyNested),
            head matches Some(h) ==> (!continues_chain(old(self).current.kind, allow_call) ==> r == Ok::<
                Expr,
                ParseError,
            >(h) && *final(self) == *old(self)),
        decreases MAX_NESTING_DEPTH - old(self).depth, 35int,
    {
        let had_head = head.is_some();
        let ghost first = head;
        let mut expr = match head {
            Some(head) => head,
            None => {
                let parsed = if self.current.kind == TokenKind::Keyword(ReservedWord::New) {
                    self.parse_new()
                } else if self.current.kind == TokenKind::Keyword(ReservedWord::Import) {
                    self.parse_import_head(allow_call)
                } else {
                    self.parse_primary()
                };
                match parsed {
                    Ok(expr) => expr,
                    Err(e) => return Err(e),
                }
            },
        };
        let ghost lone = !had_head && old(self).at_lone_number();
        let ghost base = expr;
        let ghost resting = had_head && !continues_chain(self.current.kind, allow_call);
        // Once a `?.` has been seen, the whole chain is one `OptionalExpression`.
        let mut optional_chain = false;
        loop
            invariant
                self.kept_from(*old(self)),
                had_head || self.moved_past(*old(self)),
                self.read_after_head(expr.span, first, *old(self)),
                had_head == first is Some,
                first == head,
                first matches Some(h) ==> base == h,
                links_onto(expr, base),
                resting == (had_head && !continues_chain(old(self).current.kind, allow_call)),
                resting ==> *self == *old(self) && expr == base && !optional_chain,
                lone == (!had_head && old(self).at_lone_number()),
                lone ==> self.read_one_number(*old(self), Ok(expr)) && !optional_chain,
                optional_chain == optional_in_chain(expr),
                !(!had_head && old(self).too_deep_ahead()),
                expr.kind is OptionalChain ==> expr.parenthesized,
            decreases self.remaining(),
        {
            let kind = self.current.kind;
            let next = if kind == TokenKind::Dot {
                self.member_after_dot(expr, false)
            } else if kind == TokenKind::LBracket {
                self.computed_member_after(expr, false)
            } else if kind == TokenKind::LParen && allow_call {
                self.call_after(expr, false)
            } else if kind == TokenKind::QuestionDot {
                optional_chain = true;
                if let Err(e) = self.advance(Goal::RegExp) {
                    return Err(e);
                }
                match self.current.kind {
                    TokenKind::LBracket => self.computed_member_after(expr, true),
                    TokenKind::LParen => {
                        if allow_call {
                            self.call_after(expr, true)
                        } else {
                            return Err(ParseError { kind: ParseErrorKind::NewOnOptionalChain, span: expr.span });
                        }
                    },
                    TokenKind::Template { .. } => {
                        return Err(
                            ParseError {
                                kind: ParseErrorKind::TaggedTemplateOnOptionalChain,
                                span: self.current.span,
                            },
                        );
                    },
                    _ => self.member_after_dot_without_the_dot(expr, true),
                }
            } else if let TokenKind::Template { .. } = kind {
                // §13.3.1: a chain that may short-circuit has nothing to call, so it may not be
                // tagged at all.
                if optional_chain {
                    return Err(
                        ParseError {
                            kind: ParseErrorKind::TaggedTemplateOnOptionalChain,
                            span: self.current.span,
                        },
                    );
                }
                let quasi = match self.parse_template(true) {
                    Ok(quasi) => quasi,
                    Err(e) => return Err(e),
                };
                let span = expr.span.to(quasi.span);
                match quasi.kind {
                    ExprKind::Template(quasi) => Ok(
                        Expr::new(ExprKind::TaggedTemplate { tag: Box::new(expr), quasi }, span),
                    ),
                    _ => Err(self.unexpected("a template")),
                }
            } else {
                break;
            };
            expr = match next {
                Ok(expr) => expr,
                Err(e) => return Err(e),
            };
        }
        if optional_chain {
            let span = expr.span;
            expr = Expr::new(ExprKind::OptionalChain(Box::new(expr)), span);
        }
        Ok(expr)
    }

    /// The name after a `.` or a `?.`, with the punctuation already consumed.
    pub fn member_after_dot_without_the_dot(&mut self, object: Expr, optional: bool) -> (r: Result<
        Expr,
        ParseError,
    >)
        requires
            old(self).wf(),
        ensures
            final(self).kept_from(*old(self)),
            r matches Ok(e) ==> final(self).read_since(e.span, object.span.start as int),
            r is Ok ==> final(self).moved_past(*old(self)),
            r matches Ok(e) ==> (e.kind matches ExprKind::Member { optional: o, object: inner, .. } && o
                == optional && *inner == object && !e.parenthesized),
        decreases MAX_NESTING_DEPTH - old(self).depth, 28int,
    {
        let token = self.current;
        let private = match token.kind {
            TokenKind::PrivateIdentifier { .. } => true,
            _ => false,
        };
        let (property, end) = if private {
            // `super.#a` would look the name up in the parent's private space, which does not
            // exist (§13.3.7).
            if let ExprKind::Super = object.kind {
                return Err(ParseError { kind: ParseErrorKind::PrivateNameAfterSuper, span: token.span });
            }
            if let Err(e) = self.advance(Goal::Div) {
                return Err(e);
            }
            match self.private_name(token) {
                Ok(name) => (name, token.span),
                Err(e) => return Err(e),
            }
        } else {
            match self.parse_property_name() {
                Ok(found) => found,
                Err(e) => return Err(e),
            }
        };
        let span = object.span.to(end);
        Ok(Expr::new(ExprKind::Member { private, optional, object: Box::new(object), property }, span))
    }

    /// `MemberExpression . IdentifierName`, with the cursor on the `.`.
    pub fn member_after_dot(&mut self, object: Expr, optional: bool) -> (r: Result<Expr, ParseError>)
        requires
            old(self).wf(),
            old(self).current.kind == TokenKind::Dot,
        ensures
            final(self).kept_from(*old(self)),
            r matches Ok(e) ==> final(self).read_since(e.span, object.span.start as int),
            r is Ok ==> final(self).moved_past(*old(self)),
            r matches Ok(e) ==> (e.kind matches ExprKind::Member { optional: o, object: inner, .. } && o
                == optional && *inner == object && !e.parenthesized),
        decreases MAX_NESTING_DEPTH - old(self).depth, 29int,
    {
        if let Err(e) = self.advance(Goal::Div) {
            return Err(e);
        }
        self.member_after_dot_without_the_dot(object, optional)
    }

    /// `MemberExpression [ Expression ]`, with the cursor on the `[`.
    pub fn computed_member_after(&mut self, object: Expr, optional: bool) -> (r: Result<
        Expr,
        ParseError,
    >)
        requires
            old(self).wf(),
            old(self).current.kind == TokenKind::LBracket,
        ensures
            final(self).kept_from(*old(self)),
            r matches Ok(e) ==> final(self).read_since(e.span, object.span.start as int),
            r is Ok ==> final(self).moved_past(*old(self)),
            r matches Ok(e) ==> (e.kind matches ExprKind::ComputedMember { optional: o, object: inner, .. }
                && o == optional && *inner == object && !e.parenthesized),
        decreases MAX_NESTING_DEPTH - old(self).depth, 27int,
    {
        if let Err(e) = self.advance(Goal::RegExp) {
            return Err(e);
        }
        if let Err(e) = self.enter() {
            return Err(e);
        }
        // `[ Expression[+In] ]` — a bracket starts afresh.
        let property = self.parse_expression(true);
        self.leave();
        let property = match property {
            Ok(property) => property,
            Err(e) => return Err(e),
        };
        let close = match self.eat(TokenKind::RBracket, Goal::Div, "`]`") {
            Ok(close) => close,
            Err(e) => return Err(e),
        };
        let span = object.span.to(close.span);
        Ok(
            Expr::new(
                ExprKind::ComputedMember {
                    optional,
                    object: Box::new(object),
                    property: Box::new(property),
                },
                span,
            ),
        )
    }

    /// `CallExpression Arguments`, with the cursor on the `(`.
    pub fn call_after(&mut self, callee: Expr, optional: bool) -> (r: Result<Expr, ParseError>)
        requires
            old(self).wf(),
            old(self).current.kind == TokenKind::LParen,
        ensures
            final(self).kept_from(*old(self)),
            r matches Ok(e) ==> final(self).read_since(e.span, callee.span.start as int),
            r is Ok ==> final(self).moved_past(*old(self)),
            r matches Ok(e) ==> (e.kind matches ExprKind::Call { optional: o, callee: inner, .. } && o == optional
                && *inner == callee && !e.parenthesized),
        decreases MAX_NESTING_DEPTH - old(self).depth, 26int,
    {
        let list = match self.parse_arguments() {
            Ok(list) => list,
            Err(e) => return Err(e),
        };
        let span = callee.span.to(list.end);
        Ok(
            Expr::new(
                ExprKind::Call { optional, callee: Box::new(callee), arguments: list.arguments },
                span,
            ),
        )
    }

    /// `new MemberExpression Arguments` or `new NewExpression` (§13.3), or `new.target`.
    pub fn parse_new(&mut self) -> (r: Result<Expr, ParseError>)
        requires
            old(self).wf(),
            old(self).current.kind == TokenKind::Keyword(ReservedWord::New),
        ensures
            final(self).kept_from(*old(self)),
            r matches Ok(e) ==> final(self).read_since(e.span, old(self).current.span.start as int),
            r is Ok ==> final(self).moved_past(*old(self)),
            r matches Ok(e) ==> e.kind is NewTarget || (e.kind matches ExprKind::New { callee, .. } && (
            !callee.parenthesized ==> !(callee.kind is OptionalChain || callee.kind is Super))),
        decreases MAX_NESTING_DEPTH - old(self).depth, 32int,
    {
        let token = match self.advance(Goal::RegExp) {
            Ok(token) => token,
            Err(e) => return Err(e),
        };
        if self.current.kind == TokenKind::Dot {
            return self.parse_new_target(token.span);
        }
        if let Err(e) = self.enter() {
            return Err(e);
        }
        let callee = self.parse_member(false, None);
        self.leave();
        let callee = match callee {
            Ok(callee) => callee,
            Err(e) => return Err(e),
        };
        // §13.3: an `OptionalExpression` is not a `MemberExpression`, and neither is the bare
        // word `super`; parentheses make either one a `PrimaryExpression` again.
        if !callee.parenthesized {
            match callee.kind {
                ExprKind::OptionalChain(_) => {
                    return Err(ParseError { kind: ParseErrorKind::NewOnOptionalChain, span: callee.span });
                },
                ExprKind::Super => {
                    return Err(ParseError { kind: ParseErrorKind::NewOnSuper, span: callee.span });
                },
                _ => {},
            }
        }
        // `new a()()` is a call on `new a()`: the first argument list belongs to the `new`.
        let (arguments, end) = if self.current.kind == TokenKind::LParen {
            match self.parse_arguments() {
                Ok(list) => (list.arguments, list.end),
                Err(e) => return Err(e),
            }
        } else {
            (Vec::new(), callee.span)
        };
        Ok(Expr::new(ExprKind::New { callee: Box::new(callee), arguments }, token.span.to(end)))
    }

    /// `ImportCall` and `ImportMeta` (§13.3), with the cursor on `import`.
    pub fn parse_import_head(&mut self, allow_call: bool) -> (r: Result<Expr, ParseError>)
        requires
            old(self).wf(),
            old(self).current.kind == TokenKind::Keyword(ReservedWord::Import),
        ensures
            final(self).kept_from(*old(self)),
            r matches Ok(e) ==> final(self).read_since(e.span, old(self).current.span.start as int),
            r is Ok ==> final(self).moved_past(*old(self)),
            r matches Ok(e) ==> e.kind is ImportCall || e.kind is ImportMeta,
        decreases MAX_NESTING_DEPTH - old(self).depth, 31int,
    {
        let keyword = match self.advance(Goal::RegExp) {
            Ok(keyword) => keyword,
            Err(e) => return Err(e),
        };
        if self.current.kind == TokenKind::Dot {
            return self.parse_import_meta(keyword.span);
        }
        if self.current.kind != TokenKind::LParen {
            return Err(self.unexpected("`(` or `.`"));
        }
        // `new import(a)` has no derivation: an `ImportCall` is no `MemberExpression`.
        if !allow_call {
            return Err(ParseError { kind: ParseErrorKind::NewOnImportCall, span: keyword.span });
        }
        self.parse_import_call(keyword.span)
    }

    /// `ImportCall : import ( AssignmentExpression ,_opt )` and its two-argument form.
    pub fn parse_import_call(&mut self, keyword: Span) -> (r: Result<Expr, ParseError>)
        requires
            old(self).wf(),
            old(self).current.kind == TokenKind::LParen,
        ensures
            final(self).kept_from(*old(self)),
            r matches Ok(e) ==> final(self).read_since(e.span, keyword.start as int),
            r is Ok ==> final(self).moved_past(*old(self)),
            r matches Ok(e) ==> e.kind is ImportCall,
        decreases MAX_NESTING_DEPTH - old(self).depth, 30int,
    {
        if let Err(e) = self.advance(Goal::RegExp) {
            return Err(e);
        }
        if let Err(e) = self.enter() {
            return Err(e);
        }
        let arguments = self.parse_import_arguments();
        self.leave();
        let (specifier, options) = match arguments {
            Ok(arguments) => arguments,
            Err(e) => return Err(e),
        };
        let close = match self.eat(TokenKind::RParen, Goal::Div, "`)`") {
            Ok(close) => close,
            Err(e) => return Err(e),
        };
        let options = match options {
            Some(options) => Some(Box::new(options)),
            None => None,
        };
        Ok(
            Expr::new(
                ExprKind::ImportCall { specifier: Box::new(specifier), options },
                keyword.to(close.span),
            ),
        )
    }

    /// The one or two `AssignmentExpression`s of an `ImportCall`, and the commas.
    pub fn parse_import_arguments(&mut self) -> (r: Result<(Expr, Option<Expr>), ParseError>)
        requires
            old(self).wf(),
        ensures
            final(self).kept_from(*old(self)),
        decreases MAX_NESTING_DEPTH - old(self).depth, 91int,
    {
        let specifier = match self.parse_assignment(true) {
            Ok(specifier) => specifier,
            Err(e) => return Err(e),
        };
        if self.current.kind != TokenKind::Comma {
            return Ok((specifier, None));
        }
        if let Err(e) = self.advance(Goal::RegExp) {
            return Err(e);
        }
        if self.current.kind == TokenKind::RParen {
            return Ok((specifier, None));
        }
        let options = match self.parse_assignment(true) {
            Ok(options) => options,
            Err(e) => return Err(e),
        };
        if self.current.kind == TokenKind::Comma {
            if let Err(e) = self.advance(Goal::RegExp) {
                return Err(e);
            }
        }
        Ok((specifier, Some(options)))
    }

    /// Whether the current token is the word `word` written plainly: the terminals of
    /// `import.meta` and `new.target`.
    fn at_plain_word(&self, word: &str) -> (r: bool)
        requires
            self.wf(),
        ensures
            r ==> self.current.kind != TokenKind::Eof,
            r == (self.current.kind == (TokenKind::Identifier { contains_escape: false }) && self.spells(
                self.current,
                word,
            )),
    {
        self.at_contextual(word)
    }

    /// `ImportMeta : import . meta` (§13.3), with the cursor on the `.`; only in a module.
    pub fn parse_import_meta(&mut self, keyword: Span) -> (r: Result<Expr, ParseError>)
        requires
            old(self).wf(),
            old(self).current.kind == TokenKind::Dot,
        ensures
            final(self).kept_from(*old(self)),
            r matches Ok(e) ==> final(self).read_since(e.span, keyword.start as int),
            r is Ok ==> final(self).moved_past(*old(self)),
            r matches Ok(e) ==> e.kind is ImportMeta,
            r is Ok <==> match old(self).next_read(Goal::Div) {
                Ok(word) => word.kind == (TokenKind::Identifier { contains_escape: false }) && old(self).spells(
                    word,
                    "meta",
                ) && old(self).read_at(word.span.end as int, Goal::Div) is Ok && old(self).module,
                Err(_) => false,
            },
    {
        if let Err(e) = self.advance(Goal::Div) {
            return Err(e);
        }
        let word = self.current;
        if !self.at_plain_word("meta") {
            return Err(self.unexpected("`meta`"));
        }
        if let Err(e) = self.advance(Goal::Div) {
            return Err(e);
        }
        if !self.module {
            return Err(ParseError { kind: ParseErrorKind::ImportMetaOutsideModule, span: keyword.to(word.span) });
        }
        Ok(Expr::new(ExprKind::ImportMeta, keyword.to(word.span)))
    }

    /// `NewTarget : new . target` (§13.3), with the cursor on the `.`; only where a function
    /// encloses it.
    pub fn parse_new_target(&mut self, keyword: Span) -> (r: Result<Expr, ParseError>)
        requires
            old(self).wf(),
            old(self).current.kind == TokenKind::Dot,
        ensures
            final(self).kept_from(*old(self)),
            r matches Ok(e) ==> final(self).read_since(e.span, keyword.start as int),
            r is Ok ==> final(self).moved_past(*old(self)),
            r matches Ok(e) ==> e.kind is NewTarget,
            r is Ok <==> match old(self).next_read(Goal::Div) {
                Ok(word) => word.kind == (TokenKind::Identifier { contains_escape: false }) && old(self).spells(
                    word,
                    "target",
                ) && old(self).read_at(word.span.end as int, Goal::Div) is Ok
                    && old(self).body_context.new_target_allowed,
                Err(_) => false,
            },
    {
        if let Err(e) = self.advance(Goal::Div) {
            return Err(e);
        }
        let word = self.current;
        if !self.at_plain_word("target") {
            return Err(self.unexpected("`target`"));
        }
        if let Err(e) = self.advance(Goal::Div) {
            return Err(e);
        }
        if !self.body_context.new_target_allowed {
            return Err(ParseError { kind: ParseErrorKind::NewTargetOutsideFunction, span: keyword.to(word.span) });
        }
        Ok(Expr::new(ExprKind::NewTarget, keyword.to(word.span)))
    }

    /// `Arguments` (§13.3), with the cursor on the `(`: a spread may stand anywhere, and one
    /// trailing comma is allowed after at least one argument.
    pub fn parse_arguments(&mut self) -> (r: Result<ArgumentList, ParseError>)
        requires
            old(self).wf(),
            old(self).current.kind == TokenKind::LParen,
        ensures
            final(self).kept_from(*old(self)),
            r matches Ok(list) ==> final(self).ends_read(list.end, old(self).current.span.start as int),
            r is Ok ==> final(self).moved_past(*old(self)),
        decreases MAX_NESTING_DEPTH - old(self).depth, 20int,
    {
        if let Err(e) = self.advance(Goal::RegExp) {
            return Err(e);
        }
        let mut arguments: Vec<Argument> = Vec::new();
        let mut trailing_comma = false;
        while self.current.kind != TokenKind::RParen
            invariant
                self.kept_from(*old(self)),
                self.moved_past(*old(self)),
            decreases self.remaining(),
        {
            let spread = self.current.kind == TokenKind::DotDotDot;
            if spread {
                if let Err(e) = self.advance(Goal::RegExp) {
                    return Err(e);
                }
            }
            if let Err(e) = self.enter() {
                return Err(e);
            }
            let argument = self.parse_assignment(true);
            self.leave();
            let argument = match argument {
                Ok(argument) => argument,
                Err(e) => return Err(e),
            };
            arguments.push(
                if spread {
                    Argument::Spread(argument)
                } else {
                    Argument::Value(argument)
                },
            );
            if self.current.kind != TokenKind::Comma {
                break;
            }
            if let Err(e) = self.advance(Goal::RegExp) {
                return Err(e);
            }
            trailing_comma = self.current.kind == TokenKind::RParen;
        }
        let close = match self.eat(TokenKind::RParen, Goal::Div, "`)`") {
            Ok(close) => close,
            Err(e) => return Err(e),
        };
        Ok(ArgumentList { arguments, trailing_comma, end: close.span })
    }

    /// The `IdentifierName` after a `.`: every reserved word is a legal property name.
    pub fn parse_property_name(&mut self) -> (r: Result<(String, Span), ParseError>)
        requires
            old(self).wf(),
        ensures
            final(self).kept_from(*old(self)),
            r matches Ok((_, span)) ==> final(self).read_since(span, old(self).current.span.start as int),
            r is Ok ==> final(self).moved_past(*old(self)),
    {
        let token = self.current;
        match token.kind {
            TokenKind::Identifier { .. } | TokenKind::Keyword(_) => {
                if let Err(e) = self.advance(Goal::Div) {
                    return Err(e);
                }
                match self.name_of(token) {
                    Ok(name) => Ok((name, token.span)),
                    Err(e) => Err(e),
                }
            },
            _ => Err(self.unexpected("a property name")),
        }
    }
}

} // verus!
