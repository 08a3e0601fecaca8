//! Classes (§15.7): the class as a whole, its private names, and `super`.
//!
//! All of a class is strict mode code, its name and heritage included. A private name used
//! inside a class body must be declared by that class or one around it; the references are
//! collected as they are read and resolved when each body closes, and whatever is left when
//! the script or module ends is the error §15.7.7 makes it.

use vstd::prelude::*;
use super::{ParseError, ParseErrorKind, Parser, MAX_NESTING_DEPTH};
use crate::ast::{Class, ClassElement, Expr, ExprKind, MethodKind, PropertyKey, Stmt, StmtKind};
use crate::lexer::{Goal, ReservedWord, TokenKind};
use crate::span::Span;
use crate::text::same_text;
use super::class_element::element_rules_hold;

verus! {

/// Whether a private name declared as `kind`, static or not, may stand beside one already
/// declared as `other_kind`: only a getter and a setter of the same staticness pair up.
pub open spec fn private_names_pair(is_static: bool, kind: MethodKind, other_static: bool, other_kind: MethodKind) -> bool {
    other_static == is_static && other_kind != kind && kind != MethodKind::Normal
        && other_kind != MethodKind::Normal
}

/// The private name that `element` declares, if it declares one: the name, whether it is
/// static, what kind of element declares it, and where the name is written.
pub open spec fn private_key(element: ClassElement) -> Option<(Seq<char>, bool, MethodKind, Span)> {
    match element {
        ClassElement::Method(method) => match method.key {
            PropertyKey::Private(name) => Some((name@, method.is_static, method.kind, method.key_span)),
            _ => None,
        },
        ClassElement::Field(field) => match field.key {
            PropertyKey::Private(name) => Some((name@, field.is_static, MethodKind::Normal, field.key_span)),
            _ => None,
        },
        ClassElement::StaticBlock(_) => None,
    }
}

/// The private names that `elements` declare, in the order written.
pub open spec fn private_keys(elements: Seq<ClassElement>) -> Seq<(Seq<char>, bool, MethodKind, Span)>
    decreases elements.len(),
{
    if elements.len() == 0 {
        Seq::empty()
    } else {
        let rest = private_keys(elements.drop_last());
        match private_key(elements.last()) {
            Some(key) => rest.push(key),
            None => rest,
        }
    }
}

/// Whether the `b`th private name declared repeats an earlier one that it does not pair with.
pub open spec fn clashes_with_earlier(keys: Seq<(Seq<char>, bool, MethodKind, Span)>, b: int) -> bool {
    exists|a: int|
        0 <= a < b && (#[trigger] keys[a]).0 == keys[b].0 && !private_names_pair(
            keys[b].1,
            keys[b].2,
            keys[a].1,
            keys[a].2,
        )
}

/// Whether each private name is declared once, but for a getter and a setter that pair up.
pub open spec fn private_names_unique(keys: Seq<(Seq<char>, bool, MethodKind, Span)>) -> bool {
    forall|b: int| 0 <= b < keys.len() ==> !#[trigger] clashes_with_earlier(keys, b)
}

/// Whether one of `keys` is the private name `name`.
pub open spec fn names_private(keys: Seq<(Seq<char>, bool, MethodKind, Span)>, name: Seq<char>) -> bool {
    exists|t: int| 0 <= t < keys.len() && (#[trigger] keys[t]).0 == name
}

/// The references of `references` that a class body declaring `keys` leaves open: those read
/// before `mark`, and those after it that name none of `keys`, in their order.
pub open spec fn left_open(
    references: Seq<(String, Span)>,
    mark: int,
    keys: Seq<(Seq<char>, bool, MethodKind, Span)>,
) -> Seq<(String, Span)>
    decreases references.len(),
{
    if references.len() == 0 {
        Seq::empty()
    } else {
        let rest = left_open(references.drop_last(), mark, keys);
        if references.len() - 1 >= mark && names_private(keys, references.last().0@) {
            rest
        } else {
            rest.push(references.last())
        }
    }
}

/// The private names declared by the first elements are the first of those declared by all.
proof fn lemma_private_keys_prefix(elements: Seq<ClassElement>, m: int)
    requires
        0 <= m <= elements.len(),
    ensures
        private_keys(elements.take(m)).len() <= private_keys(elements).len(),
        forall|t: int|
            0 <= t < private_keys(elements.take(m)).len() ==> #[trigger] private_keys(elements.take(m))[t]
                == private_keys(elements)[t],
    decreases elements.len(),
{
    if m == elements.len() {
        assert(elements.take(m) =~= elements);
    } else {
        assert(elements.take(m) =~= elements.drop_last().take(m));
        lemma_private_keys_prefix(elements.drop_last(), m);
    }
}

/// The same, computed.
pub fn pair_up(is_static: bool, kind: MethodKind, other_static: bool, other_kind: MethodKind) -> (r: bool)
    ensures
        r == private_names_pair(is_static, kind, other_static, other_kind),
{
    other_static == is_static && other_kind != kind && kind != MethodKind::Normal
        && other_kind != MethodKind::Normal
}

/// Whether `element` is the class's `constructor`: a plain method, not static, so named.
pub open spec fn constructs(element: ClassElement) -> bool {
    element matches ClassElement::Method(method) && !method.is_static && method.kind == MethodKind::Normal
        && method.key.spec_names("constructor")
}

/// Whether a class body keeps the early errors of §15.7.1: each element its own rules, at most
/// one `constructor`, and each private name declared once but for a getter and setter pair.
pub open spec fn class_body_rules_hold(elements: Seq<ClassElement>) -> bool {
    &&& forall|i: int| 0 <= i < elements.len() ==> element_rules_hold(#[trigger] elements[i])
    &&& forall|i: int, j: int|
        0 <= i < j < elements.len() ==> !(#[trigger] constructs(elements[i]) && #[trigger] constructs(
            elements[j],
        ))
    &&& private_names_unique(private_keys(elements))
}

/// Whether `parser` stands on the `{` of a class body that a `}` closes at once, with the token
/// after the `}` readable under `after`.
#[verifier::opaque]
pub open spec fn empty_body_ahead(parser: Parser, after: Goal) -> bool {
    &&& parser.current.kind == TokenKind::LBrace
    &&& parser.next_read(Goal::RegExp) matches Ok(close) && close.kind == TokenKind::RBrace
        && parser.read_at(close.span.end as int, after) is Ok
}

/// A method element that is the class's `constructor`.
pub fn is_constructor_element(element: &ClassElement) -> (r: bool)
    ensures
        r == (element matches ClassElement::Method(method) && !method.is_static && method.kind
            == MethodKind::Normal && method.key.spec_names("constructor")),
        r == constructs(*element),
{
    match element {
        ClassElement::Method(method) => !method.is_static && method.kind == MethodKind::Normal
            && method.key.names("constructor"),
        _ => false,
    }
}

impl<'a> Parser<'a> {
    /// `ClassDeclaration`, with the cursor on `class`.
    pub fn parse_class_declaration(&mut self, name_required: bool) -> (r: Result<Stmt, ParseError>)
        requires
            old(self).wf(),
        ensures
            final(self).kept_from(*old(self)),
            r matches Ok(s) ==> final(self).read_since(s.span, old(self).current.span.start as int),
            r is Ok ==> final(self).moved_past(*old(self)),
            r matches Ok(s) ==> s.kind is Class,
        decreases MAX_NESTING_DEPTH - old(self).depth, 23int,
    {
        match self.parse_class(name_required, Goal::RegExp) {
            Ok(class) => {
                let span = class.span;
                Ok(Stmt { kind: StmtKind::Class(Box::new(class)), span })
            },
            Err(e) => Err(e),
        }
    }

    /// `ClassExpression`, whose name is optional.
    pub fn parse_class_expression(&mut self) -> (r: Result<Expr, ParseError>)
        requires
            old(self).wf(),
        ensures
            final(self).kept_from(*old(self)),
            r matches Ok(e) ==> final(self).read_since(e.span, old(self).current.span.start as int),
            r is Ok ==> final(self).moved_past(*old(self)),
            r matches Ok(e) ==> e.kind is Class && !e.parenthesized,
        decreases MAX_NESTING_DEPTH - old(self).depth, 23int,
    {
        match self.parse_class(false, Goal::Div) {
            Ok(class) => {
                let span = class.span;
                Ok(Expr::new(ExprKind::Class(Box::new(class)), span))
            },
            Err(e) => Err(e),
        }
    }

    /// The whole class, in strict mode; the token after its `}` is read under `after`.
    pub fn parse_class(&mut self, name_required: bool, after: Goal) -> (r: Result<Class, ParseError>)
        requires
            old(self).wf(),
        ensures
            final(self).strict == old(self).strict,
            final(self).kept_from(*old(self)),
            r matches Ok(c) ==> final(self).read_since(c.span, old(self).current.span.start as int),
            r is Ok ==> final(self).moved_past(*old(self)),
            final(self).strict == old(self).strict,
        decreases MAX_NESTING_DEPTH - old(self).depth, 22int,
    {
        let keyword = match self.eat(TokenKind::Keyword(ReservedWord::Class), Goal::RegExp, "`class`") {
            Ok(keyword) => keyword,
            Err(e) => return Err(e),
        };
        if let Err(e) = self.enter() {
            return Err(e);
        }
        let enclosing_strict = self.strict;
        self.strict = true;
        let class = self.parse_class_parts(keyword.span, name_required, after);
        self.strict = enclosing_strict;
        self.leave();
        class
    }

    /// Name, heritage and body.
    #[verifier::rlimit(60)]
    #[verifier::spinoff_prover]
    pub fn parse_class_parts(&mut self, keyword: Span, name_required: bool, after: Goal) -> (r: Result<
        Class,
        ParseError,
    >)
        requires
            old(self).wf(),
        ensures
            final(self).kept_from(*old(self)),
            r matches Ok(c) ==> final(self).read_since(c.span, keyword.start as int),
            r matches Ok(c) ==> class_body_rules_hold(c.elements@),
            r matches Ok(c) ==> (name_required ==> c.name is Some),
            !name_required && empty_body_ahead(*old(self), after) ==> (r matches Ok(c) && c.name is None
                && c.heritage is None && c.elements@.len() == 0),
            r matches Ok(c) ==> (c.name is None <==> !name_required && (old(self).current.kind == TokenKind::LBrace
                || old(self).current.kind == TokenKind::Keyword(ReservedWord::Extends))),
        decreases MAX_NESTING_DEPTH - old(self).depth, 170int,
    {
        proof {
            if !name_required && empty_body_ahead(*old(self), after) {
                assert(self.current.kind == TokenKind::LBrace && self.next_read(Goal::RegExp) is Ok) by {
                    reveal(empty_body_ahead);
                }
            }
        }
        let anonymous = (self.current.kind == TokenKind::LBrace || self.current.kind
            == TokenKind::Keyword(ReservedWord::Extends)) && !name_required;
        let name = if anonymous {
            None
        } else {
            match self.parse_binding_name() {
                Ok(name) => Some(name),
                Err(e) => return Err(e),
            }
        };
        let heritage = if self.current.kind == TokenKind::Keyword(ReservedWord::Extends) {
            if let Err(e) = self.advance(Goal::RegExp) {
                return Err(e);
            }
            match self.parse_member(true, None) {
                Ok(heritage) => Some(Box::new(heritage)),
                Err(e) => return Err(e),
            }
        } else {
            None
        };
        if let Err(e) = self.eat(TokenKind::LBrace, Goal::RegExp, "`{`") {
            return Err(e);
        }
        let mark = self.private_references.len();
        let derived = heritage.is_some();
        let mut elements: Vec<ClassElement> = Vec::new();
        let mut constructors: usize = 0;
        let ghost quick = !name_required && empty_body_ahead(*old(self), after);
        let ghost opened = self.current;
        proof {
            if quick {
                assert(opened.kind == TokenKind::RBrace) by {
                    reveal(empty_body_ahead);
                }
            }
        }
        while self.current.kind != TokenKind::RBrace
            invariant
                self.kept_from(*old(self)),
                quick == (!name_required && empty_body_ahead(*old(self), after)),
                quick ==> opened.kind == TokenKind::RBrace && self.current == opened && elements@.len() == 0
                    && heritage is None && name is None,
                forall|i: int| 0 <= i < elements@.len() ==> element_rules_hold(#[trigger] elements@[i]),
                forall|i: int, j: int|
                    0 <= i < j < elements@.len() ==> !(#[trigger] constructs(elements@[i]) && #[trigger] constructs(
                        elements@[j],
                    )),
                constructors <= 1,
                constructors == 0 ==> forall|i: int| 0 <= i < elements@.len() ==> !#[trigger] constructs(elements@[i]),
            decreases self.remaining(),
        {
            if self.current.kind == TokenKind::Semicolon {
                if let Err(e) = self.advance(Goal::RegExp) {
                    return Err(e);
                }
                continue;
            }
            let element = match self.parse_class_element(derived) {
                Ok(element) => element,
                Err(e) => return Err(e),
            };
            if is_constructor_element(&element) {
                if constructors > 0 {
                    let span = match &element {
                        ClassElement::Method(method) => method.key_span,
                        _ => self.current.span,
                    };
                    return Err(ParseError { kind: ParseErrorKind::DuplicateConstructor, span });
                }
                constructors = constructors + 1;
            }
            elements.push(element);
        }
        proof {
            if quick {
                assert(self.next_read(after) is Ok) by {
                    reveal(empty_body_ahead);
                }
            }
        }
        let close = match self.eat(TokenKind::RBrace, after, "`}`") {
            Ok(close) => close,
            Err(e) => return Err(e),
        };
        if let Err(e) = self.resolve_private_names(&elements, mark) {
            return Err(e);
        }
        Ok(Class { name, heritage, elements, span: keyword.to(close.span) })
    }

    /// §15.7.1: the private names this body declares, each once — a getter and a setter may
    /// share one — and every reference read since `mark` that one of them resolves.
    pub fn resolve_private_names(&mut self, elements: &Vec<ClassElement>, mark: usize) -> (r: Result<
        (),
        ParseError,
    >)
        requires
            old(self).wf(),
        ensures
            final(self).kept_from(*old(self)),
            final(self).current == old(self).current,
            final(self).consumed_to == old(self).consumed_to,
            r is Ok <==> private_names_unique(private_keys(elements@)),
            r matches Err(e) ==> e.kind == ParseErrorKind::DuplicatePrivateName && exists|b: int|
                0 <= b < private_keys(elements@).len() && e.span == private_keys(elements@)[b].3
                    && #[trigger] clashes_with_earlier(private_keys(elements@), b) && forall|c: int|
                    0 <= c < b ==> !#[trigger] clashes_with_earlier(private_keys(elements@), c),
            r is Err ==> *final(self) == *old(self),
            r is Ok ==> *final(self) == (Parser {
                private_references: final(self).private_references,
                ..*old(self)
            }),
            r is Ok ==> final(self).private_references@ == left_open(
                old(self).private_references@,
                mark as int,
                private_keys(elements@),
            ),
    {
        let ghost all = private_keys(elements@);
        let mut declared: Vec<(String, bool, MethodKind)> = Vec::new();
        let mut k: usize = 0;
        while k < elements.len()
            invariant
                *self == *old(self),
                self.kept_from(*old(self)),
                k <= elements@.len(),
                all == private_keys(elements@),
                declared@.len() == private_keys(elements@.take(k as int)).len(),
                forall|t: int|
                    0 <= t < declared@.len() ==> (#[trigger] declared@[t]).0@ == private_keys(
                        elements@.take(k as int),
                    )[t].0 && declared@[t].1 == private_keys(elements@.take(k as int))[t].1
                        && declared@[t].2 == private_keys(elements@.take(k as int))[t].2,
                private_names_unique(private_keys(elements@.take(k as int))),
            decreases elements.len() - k,
        {
            let ghost before = private_keys(elements@.take(k as int));
            proof {
                assert(elements@.take(k + 1).drop_last() =~= elements@.take(k as int));
                assert(elements@.take(k + 1).last() == elements@[k as int]);
            }
            let (key, is_static, kind, span) = match &elements[k] {
                ClassElement::Method(method) => (&method.key, method.is_static, method.kind, method.key_span),
                ClassElement::Field(field) => (&field.key, field.is_static, MethodKind::Normal, field.key_span),
                ClassElement::StaticBlock(_) => {
                    proof {
                        assert(private_keys(elements@.take(k + 1)) == before);
                    }
                    k = k + 1;
                    continue;
                },
            };
            if let PropertyKey::Private(name) = key {
                let ghost entry = (name@, is_static, kind, span);
                proof {
                    assert(private_key(elements@[k as int]) == Some(entry));
                    assert(private_keys(elements@.take(k + 1)) == before.push(entry));
                }
                let mut j: usize = 0;
                while j < declared.len()
                    invariant
                        *self == *old(self),
                        j <= declared@.len(),
                        k < elements@.len(),
                        all == private_keys(elements@),
                        private_keys(elements@.take(k + 1)) == before.push(entry),
                        private_names_unique(before),
                        self.kept_from(*old(self)),
                        entry == (name@, is_static, kind, span),
                        declared@.len() == before.len(),
                        forall|t: int|
                            0 <= t < declared@.len() ==> (#[trigger] declared@[t]).0@ == before[t].0
                                && declared@[t].1 == before[t].1 && declared@[t].2 == before[t].2,
                        forall|a: int|
                            0 <= a < j ==> !((#[trigger] before[a]).0 == name@ && !private_names_pair(
                                is_static,
                                kind,
                                before[a].1,
                                before[a].2,
                            )),
                    decreases declared.len() - j,
                {
                    let (other, other_static, other_kind) = &declared[j];
                    if same_text(other.as_str(), name.as_str()) && !pair_up(is_static, kind, *other_static, *other_kind) {
                        proof {
                            let keys = before.push(entry);
                            let b = before.len() as int;
                            lemma_private_keys_prefix(elements@, k + 1);
                            assert(keys[j as int] == before[j as int]);
                            assert(keys[b] == entry);
                            assert(clashes_with_earlier(keys, b));
                            assert(all[b] == keys[b]);
                            assert(all[j as int] == keys[j as int]);
                            assert(clashes_with_earlier(all, b));
                            assert forall|c: int| 0 <= c < b implies !#[trigger] clashes_with_earlier(all, c) by {
                                assert(private_keys(elements@.take(k + 1))[c] == all[c]);
                                assert(keys[c] == before[c]);
                                if clashes_with_earlier(all, c) {
                                    let a = choose|a: int|
                                        0 <= a < c && (#[trigger] all[a]).0 == all[c].0 && !private_names_pair(
                                            all[c].1,
                                            all[c].2,
                                            all[a].1,
                                            all[a].2,
                                        );
                                    assert(private_keys(elements@.take(k + 1))[a] == all[a]);
                                    assert(keys[a] == before[a]);
                                    assert(clashes_with_earlier(before, c));
                                }
                            }
                            assert(!private_names_unique(all));
                        }
                        return Err(ParseError { kind: ParseErrorKind::DuplicatePrivateName, span });
                    }
                    j = j + 1;
                }
                declared.push((name.clone(), is_static, kind));
                proof {
                    let keys = before.push(entry);
                    let b = before.len() as int;
                    assert forall|c: int| 0 <= c < keys.len() implies !#[trigger] clashes_with_earlier(keys, c) by {
                        if c < b {
                            if clashes_with_earlier(keys, c) {
                                let a = choose|a: int|
                                    0 <= a < c && (#[trigger] keys[a]).0 == keys[c].0 && !private_names_pair(
                                        keys[c].1,
                                        keys[c].2,
                                        keys[a].1,
                                        keys[a].2,
                                    );
                                assert(keys[a] == before[a] && keys[c] == before[c]);
                                assert(clashes_with_earlier(before, c));
                            }
                        } else {
                            if clashes_with_earlier(keys, c) {
                                let a = choose|a: int|
                                    0 <= a < c && (#[trigger] keys[a]).0 == keys[c].0 && !private_names_pair(
                                        keys[c].1,
                                        keys[c].2,
                                        keys[a].1,
                                        keys[a].2,
                                    );
                                assert(keys[a] == before[a]);
                                assert(keys[c] == entry);
                            }
                        }
                    }
                    assert forall|t: int| 0 <= t < declared@.len() implies (#[trigger] declared@[t]).0@ == keys[t].0
                        && declared@[t].1 == keys[t].1 && declared@[t].2 == keys[t].2 by {
                        if t < b {
                            assert(keys[t] == before[t]);
                        }
                    }
                }
            } else {
                proof {
                    assert(private_key(elements@[k as int]) is None);
                    assert(private_keys(elements@.take(k + 1)) == before);
                }
            }
            k = k + 1;
        }
        proof {
            assert(elements@.take(elements@.len() as int) =~= elements@);
        }
        // Keep the references before `mark`, and those after it that this body leaves open.
        let mut kept: Vec<(String, Span)> = Vec::new();
        let mut index: usize = 0;
        while index < self.private_references.len()
            invariant
                *self == *old(self),
                self.kept_from(*old(self)),
                index <= self.private_references@.len(),
                declared@.len() == all.len(),
                forall|t: int|
                    0 <= t < declared@.len() ==> (#[trigger] declared@[t]).0@ == all[t].0,
                kept@ == left_open(self.private_references@.take(index as int), mark as int, all),
            decreases self.private_references.len() - index,
        {
            let (name, span) = &self.private_references[index];
            let mut resolved = false;
            if index >= mark {
                let mut j: usize = 0;
                while j < declared.len()
                    invariant
                        j <= declared@.len(),
                        declared@.len() == all.len(),
                        forall|t: int|
                            0 <= t < declared@.len() ==> (#[trigger] declared@[t]).0@ == all[t].0,
                        resolved <==> exists|t: int| 0 <= t < j && (#[trigger] all[t]).0 == name@,
                    decreases declared.len() - j,
                {
                    if same_text(declared[j].0.as_str(), name.as_str()) {
                        resolved = true;
                    }
                    proof {
                        if declared@[j as int].0@ == name@ {
                            assert(all[j as int].0 == name@);
                        }
                        assert forall|t: int| 0 <= t < j + 1 && (#[trigger] all[t]).0 == name@ implies (t < j
                            || declared@[j as int].0@ == name@) by {
                            if t == j {
                                assert(declared@[t].0@ == all[t].0);
                            }
                        }
                    }
                    j = j + 1;
                }
            }
            proof {
                let refs = self.private_references@.take(index + 1);
                assert(refs.drop_last() =~= self.private_references@.take(index as int));
                assert(refs.last() == self.private_references@[index as int]);
                assert(resolved <==> index >= mark && names_private(all, name@));
            }
            if !resolved {
                kept.push((name.clone(), *span));
            }
            index = index + 1;
        }
        proof {
            assert(self.private_references@.take(self.private_references@.len() as int) =~= self.private_references@);
        }
        self.private_references = kept;
        Ok(())
    }

    /// `super`, which stands only before `.`, `[` or `(`, and only where the enclosing function
    /// grants it.
    pub fn parse_super(&mut self) -> (r: Result<Expr, ParseError>)
        requires
            old(self).wf(),
        ensures
            final(self).kept_from(*old(self)),
            r matches Ok(e) ==> final(self).read_since(e.span, old(self).current.span.start as int),
            r is Ok ==> final(self).moved_past(*old(self)),
            r matches Ok(e) ==> e.kind is Super && !e.parenthesized,
            r is Ok <==> old(self).current.kind == TokenKind::Keyword(ReservedWord::Super) && match old(
                self,
            ).next_read(Goal::Div) {
                Ok(next) => ((next.kind == TokenKind::Dot || next.kind == TokenKind::LBracket) && old(
                    self,
                ).body_context.super_allowed.property) || (next.kind == TokenKind::LParen && old(
                    self,
                ).body_context.super_allowed.call),
                Err(_) => false,
            },
            r matches Ok(e) ==> e.span == old(self).current.span,
    {
        let keyword = match self.eat(TokenKind::Keyword(ReservedWord::Super), Goal::Div, "`super`") {
            Ok(keyword) => keyword,
            Err(e) => return Err(e),
        };
        match self.current.kind {
            TokenKind::Dot | TokenKind::LBracket => {
                if !self.body_context.super_allowed.property {
                    return Err(ParseError { kind: ParseErrorKind::SuperPropertyOutsideMethod, span: keyword.span });
                }
                Ok(Expr::new(ExprKind::Super, keyword.span))
            },
            TokenKind::LParen => {
                if !self.body_context.super_allowed.call {
                    return Err(
                        ParseError { kind: ParseErrorKind::SuperCallOutsideDerivedConstructor, span: keyword.span },
                    );
                }
                Ok(Expr::new(ExprKind::Super, keyword.span))
            },
            _ => Err(ParseError { kind: ParseErrorKind::SuperPropertyOutsideMethod, span: keyword.span }),
        }
    }
}

} // verus!
