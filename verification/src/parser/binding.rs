//! Binding patterns (§14.3.3).
//!
//! No cover grammar here, and that is the difference from [`super::pattern`]: a binding position
//! expects a `BindingPattern`, so a `[` there is parsed as one directly, and `let [a.b] = c`
//! fails at the `.`, a binding being a name created and `a.b` not a name.
//!
//! Arrow parameters are the exception. `([a]) => b` was read as an array *literal* before the
//! `=>` arrived, so the second half of this module turns a finished `Expr` back into the
//! `Binding` it covered, refusing exactly what parsing one directly would have refused.
//!
//! `BindingRestElement : ... BindingIdentifier | ... BindingPattern` and
//! `BindingRestProperty : ... BindingIdentifier`: `let [...[a]] = b` binds and `let {...[a]} = b`
//! does not.

use vstd::prelude::*;
use super::{read_in_place, ParseError, ParseErrorKind, Parser, MAX_NESTING_DEPTH};
use super::pattern::{array_pattern_keeps, definition_key, object_pattern_keeps};
use crate::ast::{
    ArrayBindingPattern, ArrayElement, ArrayPattern, AssignmentOperator, AssignmentTarget,
    Binding, BindingElement, BindingName, BindingPattern, BindingProperty, Expr, ExprKind,
    ObjectBindingPattern, ObjectPattern, Pattern, PatternElement, PatternProperty, PropertyDefinition,
    PropertyKey,
};
use crate::lexer::{lemma_separator_any_goal, lex_token, Goal, LexError, Token, TokenKind};
use crate::span::Span;
use crate::lexer::value::identifier_name;
use vstd::string::StringSliceAdditionalSpecFns;
use super::strict::{is_eval_or_arguments, is_strict_reserved};

verus! {

/// Where a `BindingElement` ends: after its default when it has one, else after its binding.
pub open spec fn element_end(element: BindingElement) -> int {
    match element.default {
        Some(d) => d.span.end as int,
        None => element.target.spec_span().end as int,
    }
}

/// Whether `element` fills the slot of an array binding pattern that begins at offset `pos`
/// and is closed by a comma ending at `next`: the slot is a lone comma when the element is a
/// hole, and otherwise the element's text starting with the token read there, then a comma.
pub open spec fn slot_step(bytes: Seq<u8>, module: bool, pos: int, element: Option<BindingElement>, next: int) -> bool {
    match lex_token(bytes, pos, Goal::RegExp, module) {
        Err(_) => false,
        Ok(t) => match element {
            None => t.kind == TokenKind::Comma && next == t.span.end,
            Some(e) => {
                &&& t.kind != TokenKind::Comma && t.kind != TokenKind::DotDotDot && t.kind != TokenKind::RBracket
                &&& t.span.start == e.target.spec_span().start
                &&& lex_token(bytes, element_end(e), Goal::Div, module) matches Ok(c) && c.kind
                    == TokenKind::Comma && next == c.span.end
            },
        },
    }
}

/// Whether `elements` fill the slots written from offset `pos` up to offset `end`, each slot
/// closed by its comma.
pub open spec fn slots_between(bytes: Seq<u8>, module: bool, pos: int, elements: Seq<Option<BindingElement>>, end: int) -> bool
    decreases elements.len(),
{
    if elements.len() == 0 {
        pos == end
    } else {
        exists|next: int|
            #[trigger] slot_step(bytes, module, pos, elements[0], next) && slots_between(
                bytes,
                module,
                next,
                elements.drop_first(),
                end,
            )
    }
}

/// Whether `elements` are the slots of an array binding pattern written from offset `pos` of
/// `bytes`, in order (§14.3.3): each comma alone in its slot is a hole, anything else is the
/// element that begins there; after the last slot come the `]` or a rest's `...`, or the last
/// element is followed by the `]` itself.
pub open spec fn slots_from(bytes: Seq<u8>, module: bool, pos: int, elements: Seq<Option<BindingElement>>) -> bool {
    (exists|end: int| #[trigger] slots_between(bytes, module, pos, elements, end) && slots_end_at(bytes, module, end))
    || exists|end: int|
        #![trigger slots_between(bytes, module, pos, elements.drop_last(), end)]
        elements.len() > 0 && slots_between(bytes, module, pos, elements.drop_last(), end) && last_slot(
            bytes,
            module,
            end,
            elements.last(),
        )
}

/// Whether the slots end at offset `end`: the `]` or a rest's `...` is read there.
pub open spec fn slots_end_at(bytes: Seq<u8>, module: bool, end: int) -> bool {
    lex_token(bytes, end, Goal::RegExp, module) matches Ok(t) && (t.kind == TokenKind::RBracket || t.kind
        == TokenKind::DotDotDot)
}

/// Whether `element` fills a last slot at `pos` that the `]` closes with no comma.
pub open spec fn last_slot(bytes: Seq<u8>, module: bool, pos: int, element: Option<BindingElement>) -> bool {
    &&& element matches Some(e)
    &&& lex_token(bytes, pos, Goal::RegExp, module) matches Ok(t) && t.kind != TokenKind::Comma && t.kind
        != TokenKind::DotDotDot && t.kind != TokenKind::RBracket && t.span.start == e.target.spec_span().start
    &&& lex_token(bytes, element_end(e), Goal::Div, module) matches Ok(c) && c.kind == TokenKind::RBracket
}

/// An elision is one hole: where a pattern's slots begin with a comma alone, its first element
/// is a hole, and the elements after it are exactly the pattern read from after that comma —
/// so every element keeps the index of the slot it was written in.
#[verifier::rlimit(40)]
#[verifier::spinoff_prover]
pub proof fn lemma_elision_is_one_hole(bytes: Seq<u8>, module: bool, pos: int, elements: Seq<Option<BindingElement>>)
    requires
        slots_from(bytes, module, pos, elements),
        lex_token(bytes, pos, Goal::RegExp, module) matches Ok(t) && t.kind == TokenKind::Comma,
    ensures
        elements.len() > 0,
        elements[0] is None,
        slots_from(
            bytes,
            module,
            lex_token(bytes, pos, Goal::RegExp, module)->Ok_0.span.end as int,
            elements.drop_first(),
        ),
{
    let after = lex_token(bytes, pos, Goal::RegExp, module)->Ok_0.span.end as int;
    if exists|end: int| #[trigger] slots_between(bytes, module, pos, elements, end) && slots_end_at(bytes, module, end) {
        let end = choose|end: int| #[trigger] slots_between(bytes, module, pos, elements, end) && slots_end_at(bytes, module, end);
        assert(elements.len() > 0);
        let next = choose|next: int|
            #[trigger] slot_step(bytes, module, pos, elements[0], next) && slots_between(
                bytes,
                module,
                next,
                elements.drop_first(),
                end,
            );
        assert(next == after);
        assert(slots_between(bytes, module, after, elements.drop_first(), end));
    } else {
        let end = choose|end: int|
            #![trigger slots_between(bytes, module, pos, elements.drop_last(), end)]
            elements.len() > 0 && slots_between(bytes, module, pos, elements.drop_last(), end) && last_slot(
                bytes,
                module,
                end,
                elements.last(),
            );
        let front = elements.drop_last();
        assert(front.len() > 0);
        let next = choose|next: int|
            #[trigger] slot_step(bytes, module, pos, front[0], next) && slots_between(
                bytes,
                module,
                next,
                front.drop_first(),
                end,
            );
        assert(front[0] == elements[0]);
        assert(next == after);
        assert(front.drop_first() =~= elements.drop_first().drop_last());
        assert(elements.drop_first().last() == elements.last());
        assert(slots_between(bytes, module, after, elements.drop_first().drop_last(), end));
    }
}

/// A written element holds its slot: where a pattern's slots begin with a token that is no
/// comma, `]` or `...`, its first element is the binding written there.
#[verifier::rlimit(40)]
#[verifier::spinoff_prover]
pub proof fn lemma_written_element_holds_its_slot(
    bytes: Seq<u8>,
    module: bool,
    pos: int,
    elements: Seq<Option<BindingElement>>,
)
    requires
        slots_from(bytes, module, pos, elements),
        lex_token(bytes, pos, Goal::RegExp, module) matches Ok(t) && t.kind != TokenKind::Comma && t.kind
            != TokenKind::RBracket && t.kind != TokenKind::DotDotDot,
    ensures
        elements.len() > 0,
        elements[0] matches Some(e) && e.target.spec_span().start == lex_token(bytes, pos, Goal::RegExp, module)->Ok_0.span.start,
{
    if exists|end: int| #[trigger] slots_between(bytes, module, pos, elements, end) && slots_end_at(bytes, module, end) {
        let end = choose|end: int| #[trigger] slots_between(bytes, module, pos, elements, end) && slots_end_at(bytes, module, end);
        assert(elements.len() > 0);
        let next = choose|next: int|
            #[trigger] slot_step(bytes, module, pos, elements[0], next) && slots_between(
                bytes,
                module,
                next,
                elements.drop_first(),
                end,
            );
    } else {
        let end = choose|end: int|
            #![trigger slots_between(bytes, module, pos, elements.drop_last(), end)]
            elements.len() > 0 && slots_between(bytes, module, pos, elements.drop_last(), end) && last_slot(
                bytes,
                module,
                end,
                elements.last(),
            );
        let front = elements.drop_last();
        if front.len() > 0 {
            let next = choose|next: int|
                #[trigger] slot_step(bytes, module, pos, front[0], next) && slots_between(
                    bytes,
                    module,
                    next,
                    front.drop_first(),
                    end,
                );
            assert(front[0] == elements[0]);
        } else {
            assert(end == pos);
            assert(elements.last() == elements[0]);
        }
    }
}

/// Whether `element`, read from the slot at `pos`, was the last one: the token after it,
/// `current`, is no comma, and was read in place at the element's end.
pub open spec fn pending_last_slot(bytes: Seq<u8>, module: bool, pos: int, element: Option<BindingElement>, current: Token) -> bool {
    &&& element matches Some(e)
    &&& lex_token(bytes, pos, Goal::RegExp, module) matches Ok(t) && t.kind != TokenKind::Comma && t.kind
        != TokenKind::DotDotDot && t.kind != TokenKind::RBracket && t.span.start == e.target.spec_span().start
    &&& read_in_place(bytes, element_end(e), module, current)
    &&& current.kind != TokenKind::Comma
}

/// Slots read one after another are read together.
#[verifier::rlimit(40)]
#[verifier::spinoff_prover]
proof fn lemma_slots_extend(
    bytes: Seq<u8>,
    module: bool,
    pos: int,
    elements: Seq<Option<BindingElement>>,
    end: int,
    element: Option<BindingElement>,
    next: int,
)
    requires
        slots_between(bytes, module, pos, elements, end),
        slot_step(bytes, module, end, element, next),
    ensures
        slots_between(bytes, module, pos, elements.push(element), next),
    decreases elements.len(),
{
    if elements.len() == 0 {
        assert(elements.push(element).drop_first() =~= Seq::<Option<BindingElement>>::empty());
        assert(slots_between(bytes, module, next, Seq::<Option<BindingElement>>::empty(), next));
        assert(slot_step(bytes, module, pos, elements.push(element)[0], next));
    } else {
        let mid = choose|mid: int|
            #[trigger] slot_step(bytes, module, pos, elements[0], mid) && slots_between(
                bytes,
                module,
                mid,
                elements.drop_first(),
                end,
            );
        lemma_slots_extend(bytes, module, mid, elements.drop_first(), end, element, next);
        assert(elements.push(element).drop_first() =~= elements.drop_first().push(element));
        assert(elements.push(element)[0] == elements[0]);
        assert(slot_step(bytes, module, pos, elements.push(element)[0], mid));
    }
}

/// Whether `expr` covers a `BindingIdentifier` or `BindingPattern` (§15.3.1, the parameters of
/// an arrow function) when refined at nesting depth `depth`: a name, or an array or object
/// literal within the nesting cap whose parts cover bindings.
pub closed spec fn binding_refines(expr: Expr, depth: int) -> bool
    decreases expr, 2int,
{
    match expr.kind {
        ExprKind::Identifier(_) => true,
        ExprKind::Array(elements) => depth < MAX_NESTING_DEPTH && array_binding_refines(elements@, depth + 1),
        ExprKind::Object(properties) => depth < MAX_NESTING_DEPTH && object_binding_refines(
            properties@,
            depth + 1,
        ),
        _ => false,
    }
}

/// Whether `expr` covers a `BindingElement`: a binding, with a default where it was written as
/// `binding = value`.
pub closed spec fn binding_element_refines(expr: Expr, depth: int) -> bool
    decreases expr, 3int,
{
    match expr.kind {
        ExprKind::Assignment { operator, target, value: _ } => operator == AssignmentOperator::Assign
            && target_binding_refines(*target, depth),
        _ => binding_refines(expr, depth),
    }
}

/// Whether an assignment target, already refined as such, was a binding after all.
pub closed spec fn target_binding_refines(target: AssignmentTarget, depth: int) -> bool
    decreases target, 2int,
{
    match target {
        AssignmentTarget::Simple(expr) => binding_refines(expr, depth),
        AssignmentTarget::Pattern(Pattern::Array(pattern)) => depth < MAX_NESTING_DEPTH
            && pattern_elements_bind(pattern.elements@, depth + 1) && match pattern.rest {
            Some(rest) => target_binding_refines(*rest, depth + 1),
            None => true,
        },
        AssignmentTarget::Pattern(Pattern::Object(pattern)) => depth < MAX_NESTING_DEPTH
            && pattern_properties_bind(pattern.properties@, depth + 1) && match pattern.rest {
            Some(rest) => rest.kind is Identifier,
            None => true,
        },
    }
}

/// Whether each element of an array assignment pattern is a binding.
pub closed spec fn pattern_elements_bind(elements: Seq<Option<PatternElement>>, depth: int) -> bool
    decreases elements, 0int,
{
    if elements.len() == 0 {
        true
    } else {
        &&& pattern_elements_bind(elements.drop_last(), depth)
        &&& match elements.last() {
            Some(element) => target_binding_refines(element.target, depth),
            None => true,
        }
    }
}

/// Whether each property of an object assignment pattern is a binding.
pub closed spec fn pattern_properties_bind(properties: Seq<PatternProperty>, depth: int) -> bool
    decreases properties, 0int,
{
    if properties.len() == 0 {
        true
    } else {
        &&& pattern_properties_bind(properties.drop_last(), depth)
        &&& target_binding_refines(properties.last().value.target, depth)
    }
}

/// What an element of an array literal that some other follows must be: a hole or a binding
/// element.
pub closed spec fn leading_binding_element_fits(element: ArrayElement, depth: int) -> bool {
    match element {
        ArrayElement::Hole => true,
        ArrayElement::Value(value) => binding_element_refines(value, depth),
        ArrayElement::Spread { .. } => false,
    }
}

/// Whether the elements of an array literal cover an `ArrayBindingPattern`: holes and binding
/// elements, then at most one rest element, last, with no comma after it.
pub closed spec fn array_binding_refines(elements: Seq<ArrayElement>, depth: int) -> bool
    decreases elements, 1int,
{
    if elements.len() == 0 {
        true
    } else {
        &&& leading_binding_elements(elements.drop_last(), depth)
        &&& match elements.last() {
            ArrayElement::Spread { value, followed_by_comma } => !followed_by_comma && binding_refines(
                value,
                depth,
            ),
            ArrayElement::Hole => true,
            ArrayElement::Value(value) => binding_element_refines(value, depth),
        }
    }
}

/// Whether elements that some other element follows are holes and binding elements.
pub closed spec fn leading_binding_elements(elements: Seq<ArrayElement>, depth: int) -> bool
    decreases elements, 0int,
{
    if elements.len() == 0 {
        true
    } else {
        &&& leading_binding_elements(elements.drop_last(), depth)
        &&& match elements.last() {
            ArrayElement::Hole => true,
            ArrayElement::Value(value) => binding_element_refines(value, depth),
            ArrayElement::Spread { .. } => false,
        }
    }
}

/// Whether one property other than a rest property covers a `BindingProperty`.
pub closed spec fn property_binds(property: PropertyDefinition, depth: int) -> bool
    decreases property, 2int,
{
    match property {
        PropertyDefinition::KeyValue { key: _, value } => binding_element_refines(value, depth),
        PropertyDefinition::Shorthand { .. } => true,
        PropertyDefinition::ShorthandWithDefault { .. } => true,
        PropertyDefinition::Method { .. } => false,
        PropertyDefinition::Spread { .. } => false,
    }
}

/// What a property that some other follows must be: no rest property, and a binding property.
pub closed spec fn leading_binding_property_fits(property: PropertyDefinition, depth: int) -> bool {
    !(property is Spread) && property_binds(property, depth)
}

/// Whether the properties of an object literal cover an `ObjectBindingPattern`: binding
/// properties, then at most one rest property, last, with no comma after it, naming a binding.
pub closed spec fn object_binding_refines(properties: Seq<PropertyDefinition>, depth: int) -> bool
    decreases properties, 1int,
{
    if properties.len() == 0 {
        true
    } else {
        &&& leading_binding_properties(properties.drop_last(), depth)
        &&& match properties.last() {
            PropertyDefinition::Spread { value, followed_by_comma } => !followed_by_comma && value.kind
                is Identifier,
            other => property_binds(other, depth),
        }
    }
}

/// Whether properties that some other follows are binding properties.
pub closed spec fn leading_binding_properties(properties: Seq<PropertyDefinition>, depth: int) -> bool
    decreases properties, 0int,
{
    if properties.len() == 0 {
        true
    } else {
        &&& leading_binding_properties(properties.drop_last(), depth)
        &&& !(properties.last() is Spread)
        &&& property_binds(properties.last(), depth)
    }
}

/// Each element of an array assignment pattern binds exactly when all of them do.
proof fn lemma_pattern_elements_bind(elements: Seq<Option<PatternElement>>, depth: int)
    ensures
        pattern_elements_bind(elements, depth) <==> forall|i: int|
            0 <= i < elements.len() ==> (#[trigger] elements[i] matches Some(element) ==> target_binding_refines(
                element.target,
                depth,
            )),
    decreases elements.len(),
{
    if elements.len() > 0 {
        lemma_pattern_elements_bind(elements.drop_last(), depth);
        assert forall|i: int| 0 <= i < elements.len() - 1 implies #[trigger] elements.drop_last()[i]
            == elements[i] by {}
        if forall|i: int| 0 <= i < elements.len() ==> (#[trigger] elements[i] matches Some(element) ==> target_binding_refines(element.target, depth)) {
            assert forall|i: int| 0 <= i < elements.drop_last().len() implies (#[trigger] elements.drop_last()[i] matches Some(element) ==> target_binding_refines(element.target, depth)) by {
                assert(elements.drop_last()[i] == elements[i]);
            }
            assert((elements[elements.len() - 1] matches Some(element) ==> target_binding_refines(element.target, depth)));
        }
        if pattern_elements_bind(elements, depth) {
            assert forall|i: int| 0 <= i < elements.len() implies (#[trigger] elements[i] matches Some(element) ==> target_binding_refines(element.target, depth)) by {
                if i < elements.len() - 1 {
                    assert(elements.drop_last()[i] == elements[i]);
                }
            }
        }
    }
}

/// Each property of an object assignment pattern binds exactly when all of them do.
proof fn lemma_pattern_properties_bind(properties: Seq<PatternProperty>, depth: int)
    ensures
        pattern_properties_bind(properties, depth) <==> forall|i: int|
            0 <= i < properties.len() ==> target_binding_refines((#[trigger] properties[i]).value.target, depth),
    decreases properties.len(),
{
    if properties.len() > 0 {
        lemma_pattern_properties_bind(properties.drop_last(), depth);
        assert forall|i: int| 0 <= i < properties.len() - 1 implies #[trigger] properties.drop_last()[i]
            == properties[i] by {}
        if forall|i: int| 0 <= i < properties.len() ==> target_binding_refines((#[trigger] properties[i]).value.target, depth) {
            assert forall|i: int| 0 <= i < properties.drop_last().len() implies target_binding_refines((#[trigger] properties.drop_last()[i]).value.target, depth) by {
                assert(properties.drop_last()[i] == properties[i]);
            }
            assert(target_binding_refines((properties[properties.len() - 1]).value.target, depth));
        }
        if pattern_properties_bind(properties, depth) {
            assert forall|i: int| 0 <= i < properties.len() implies target_binding_refines((#[trigger] properties[i]).value.target, depth) by {
                if i < properties.len() - 1 {
                    assert(properties.drop_last()[i] == properties[i]);
                }
            }
        }
    }
}

/// Leading elements cover bindings exactly when each fits.
proof fn lemma_leading_binding_elements(elements: Seq<ArrayElement>, depth: int)
    ensures
        leading_binding_elements(elements, depth) <==> forall|i: int|
            0 <= i < elements.len() ==> leading_binding_element_fits(#[trigger] elements[i], depth),
    decreases elements.len(),
{
    if elements.len() > 0 {
        lemma_leading_binding_elements(elements.drop_last(), depth);
        assert forall|i: int| 0 <= i < elements.len() - 1 implies #[trigger] elements.drop_last()[i]
            == elements[i] by {}
        if forall|i: int| 0 <= i < elements.len() ==> leading_binding_element_fits(#[trigger] elements[i], depth) {
            assert forall|i: int| 0 <= i < elements.drop_last().len() implies leading_binding_element_fits(#[trigger] elements.drop_last()[i], depth) by {
                assert(elements.drop_last()[i] == elements[i]);
            }
            assert(leading_binding_element_fits(elements[elements.len() - 1], depth));
        }
        if leading_binding_elements(elements, depth) {
            assert forall|i: int| 0 <= i < elements.len() implies leading_binding_element_fits(#[trigger] elements[i], depth) by {
                if i < elements.len() - 1 {
                    assert(elements.drop_last()[i] == elements[i]);
                }
            }
        }
    }
}

/// Leading properties cover bindings exactly when each fits.
proof fn lemma_leading_binding_properties(properties: Seq<PropertyDefinition>, depth: int)
    ensures
        leading_binding_properties(properties, depth) <==> forall|i: int|
            0 <= i < properties.len() ==> leading_binding_property_fits(#[trigger] properties[i], depth),
    decreases properties.len(),
{
    if properties.len() > 0 {
        lemma_leading_binding_properties(properties.drop_last(), depth);
        assert forall|i: int| 0 <= i < properties.len() - 1 implies #[trigger] properties.drop_last()[i]
            == properties[i] by {}
        if forall|i: int| 0 <= i < properties.len() ==> leading_binding_property_fits(#[trigger] properties[i], depth) {
            assert forall|i: int| 0 <= i < properties.drop_last().len() implies leading_binding_property_fits(#[trigger] properties.drop_last()[i], depth) by {
                assert(properties.drop_last()[i] == properties[i]);
            }
            assert(leading_binding_property_fits(properties[properties.len() - 1], depth));
        }
        if leading_binding_properties(properties, depth) {
            assert forall|i: int| 0 <= i < properties.len() implies leading_binding_property_fits(#[trigger] properties[i], depth) by {
                if i < properties.len() - 1 {
                    assert(properties.drop_last()[i] == properties[i]);
                }
            }
        }
    }
}

impl<'a> Parser<'a> {
    /// Whether a `BindingIdentifier` is read here: the current token can be a name, the token
    /// after it can be read, the name's text is well formed, and strict code does not forbid
    /// it.
    pub open spec fn binding_name_ahead(&self) -> bool {
        &&& self.is_identifier_kind(self.current.kind)
        &&& self.next_read(Goal::Div) is Ok
        &&& match identifier_name(self.source.spec_bytes(), self.current.span) {
            Some(name) => !(self.strict && (is_strict_reserved(name) || is_eval_or_arguments(name))),
            None => false,
        }
    }

    /// Whether a `BindingPattern` begins here.
    pub fn at_binding_pattern(&self) -> (r: bool)
        ensures
            r == (self.current.kind == TokenKind::LBracket || self.current.kind == TokenKind::LBrace),
    {
        match self.current.kind {
            TokenKind::LBracket | TokenKind::LBrace => true,
            _ => false,
        }
    }

    /// `BindingIdentifier | BindingPattern` — anything that can be bound.
    pub fn parse_binding(&mut self) -> (r: Result<Binding, ParseError>)
        requires
            old(self).wf(),
        ensures
            final(self).kept_from(*old(self)),
            r matches Ok(b) ==> final(self).read_since(b.span(), old(self).current.span.start as int),
            r is Ok ==> final(self).moved_past(*old(self)),
        decreases MAX_NESTING_DEPTH - old(self).depth, 18int,
    {
        match self.current.kind {
            TokenKind::LBracket => {
                if let Err(e) = self.enter() {
                    return Err(e);
                }
                let pattern = self.parse_array_binding_pattern();
                self.leave();
                match pattern {
                    Ok(pattern) => Ok(Binding::Pattern(BindingPattern::Array(pattern))),
                    Err(e) => Err(e),
                }
            },
            TokenKind::LBrace => {
                if let Err(e) = self.enter() {
                    return Err(e);
                }
                let pattern = self.parse_object_binding_pattern();
                self.leave();
                match pattern {
                    Ok(pattern) => Ok(Binding::Pattern(BindingPattern::Object(pattern))),
                    Err(e) => Err(e),
                }
            },
            _ => match self.parse_binding_name() {
                Ok(name) => Ok(Binding::Identifier(name)),
                Err(e) => Err(e),
            },
        }
    }

    /// `BindingIdentifier`, as a name and where it was written.
    pub fn parse_binding_name(&mut self) -> (r: Result<BindingName, ParseError>)
        requires
            old(self).wf(),
        ensures
            final(self).kept_from(*old(self)),
            r matches Ok(name) ==> final(self).read_since(name.span, old(self).current.span.start as int),
            r is Ok ==> final(self).moved_past(*old(self)),
            r matches Ok(name) ==> name.span == old(self).current.span,
            r is Ok <==> old(self).binding_name_ahead(),
            r matches Ok(name) ==> identifier_name(old(self).source.spec_bytes(), old(self).current.span)
                == Some(name.name@),            final(self).scope == old(self).scope,
    {
        match self.parse_binding_identifier() {
            Ok((name, span)) => Ok(BindingName { name, span }),
            Err(e) => Err(e),
        }
    }

    /// `BindingIdentifier` (§13.1): an identifier, or `yield` or `await` where they are not
    /// operators; in strict code not one of the reserved nine, nor `eval` or `arguments`.
    pub fn parse_binding_identifier(&mut self) -> (r: Result<(String, Span), ParseError>)
        requires
            old(self).wf(),
        ensures
            final(self).kept_from(*old(self)),
            r matches Ok((_, span)) ==> final(self).read_since(span, old(self).current.span.start as int),
            r is Ok ==> final(self).moved_past(*old(self)),
            r matches Ok((_, span)) ==> span == old(self).current.span,
            r is Ok ==> old(self).is_identifier_kind(old(self).current.kind),
            r is Ok <==> old(self).binding_name_ahead(),
            r matches Ok((name, _)) ==> identifier_name(old(self).source.spec_bytes(), old(self).current.span)
                == Some(name@),            final(self).scope == old(self).scope,
    {
        let token = self.current;
        if !self.is_identifier_token(token.kind) {
            return Err(self.unexpected("a binding name"));
        }
        if let Err(e) = self.advance(Goal::Div) {
            return Err(e);
        }
        let name = match self.name_of(token) {
            Ok(name) => name,
            Err(e) => return Err(e),
        };
        if let Err(e) = self.check_strict_name(name.as_str(), token.span, true) {
            return Err(e);
        }
        Ok((name, token.span))
    }

    /// `ArrayBindingPattern`, with the cursor on the `[`.
    #[verifier::rlimit(60)]
    #[verifier::spinoff_prover]
    pub fn parse_array_binding_pattern(&mut self) -> (r: Result<ArrayBindingPattern, ParseError>)
        requires
            old(self).wf(),
        ensures
            final(self).kept_from(*old(self)),
            r matches Ok(p) ==> final(self).read_since(p.span, old(self).current.span.start as int),
            r is Ok ==> final(self).moved_past(*old(self)),
            r matches Ok(p) ==> slots_from(old(self).bytes@, old(self).module, old(self).current.span.end as int, p.elements@),
        decreases MAX_NESTING_DEPTH - old(self).depth, 70int,
    {
        if self.current.kind != TokenKind::LBracket {
            return Err(self.unexpected("`[`"));
        }
        let ghost bytes = self.bytes@;
        let ghost module = self.module;
        let ghost start = self.current.span.end as int;
        proof {
            self.lemma_next_read_from_current_end(Goal::RegExp);
        }
        let open = match self.advance(Goal::RegExp) {
            Ok(open) => open,
            Err(e) => return Err(e),
        };
        let mut elements: Vec<Option<BindingElement>> = Vec::new();
        let mut rest: Option<Box<Binding>> = None;
        let ghost mut slot: int = start;
        let ghost mut last_pending = false;
        proof {
            assert(slots_between(bytes, module, start, elements@, slot));
        }
        while self.current.kind != TokenKind::RBracket
            invariant_except_break
                Ok::<Token, LexError>(self.current) == lex_token(bytes, slot, Goal::RegExp, module),
                rest is None,
                slots_between(bytes, module, start, elements@, slot),
                !last_pending,
            invariant
                self.kept_from(*old(self)),
                self.moved_past(*old(self)),
                bytes == self.bytes@,
                module == self.module,
            ensures
                self.kept_from(*old(self)),
                self.moved_past(*old(self)),
                bytes == self.bytes@,
                module == self.module,
                !last_pending ==> slots_between(bytes, module, start, elements@, slot) && slots_end_at(
                    bytes,
                    module,
                    slot,
                ),
                last_pending ==> elements@.len() > 0 && slots_between(bytes, module, start, elements@.drop_last(), slot)
                    && pending_last_slot(bytes, module, slot, elements@.last(), self.current),
            decreases self.remaining(),
        {
            let ghost at_slot = self.current;
            let ghost before = elements@;
            proof {
                self.lemma_next_read_from_current_end(Goal::RegExp);
            }
            // An `Elision`: a comma with nothing before it in its slot.
            if self.current.kind == TokenKind::Comma {
                elements.push(None);
                proof {
                    lemma_slots_extend(bytes, module, start, before, slot, None, at_slot.span.end as int);
                }
                if let Err(e) = self.advance(Goal::RegExp) {
                    return Err(e);
                }
                proof {
                    slot = at_slot.span.end as int;
                }
                continue;
            }
            if self.current.kind == TokenKind::DotDotDot {
                if let Err(e) = self.advance(Goal::RegExp) {
                    return Err(e);
                }
                match self.parse_binding() {
                    Ok(binding) => {
                        rest = Some(Box::new(binding));
                    },
                    Err(e) => return Err(e),
                }
                if self.current.kind != TokenKind::Comma {
                    break;
                }
                // Nothing follows a rest element, not even a comma.
                return Err(ParseError { kind: ParseErrorKind::RestElementMustBeLast, span: self.current.span });
            }
            let element = match self.parse_binding_element() {
                Ok(element) => element,
                Err(e) => return Err(e),
            };
            proof {
                self.lemma_current_in_place();
            }
            if self.current.kind != TokenKind::Comma {
                proof {
                    assert(elements@.push(Some(element)).drop_last() =~= elements@);
                    last_pending = true;
                }
                elements.push(Some(element));
                break;
            }
            proof {
                let goal = choose|g: Goal| #[trigger] lex_token(bytes, self.consumed_to@, g, module) matches Ok(t)
                    && t.kind == self.current.kind && t.span == self.current.span;
                lemma_separator_any_goal(bytes, element_end(element), goal, Goal::Div, module);
                assert(slot_step(bytes, module, slot, Some(element), self.current.span.end as int));
                lemma_slots_extend(bytes, module, start, elements@, slot, Some(element), self.current.span.end as int);
                self.lemma_next_read_from_current_end(Goal::RegExp);
            }
            let ghost comma = self.current;
            elements.push(Some(element));
            if let Err(e) = self.advance(Goal::RegExp) {
                return Err(e);
            }
            proof {
                slot = comma.span.end as int;
            }
        }
        let close = match self.eat(TokenKind::RBracket, Goal::Div, "`]`") {
            Ok(close) => close,
            Err(e) => return Err(e),
        };
        proof {
            if last_pending {
                let goal = choose|g: Goal| #[trigger] lex_token(bytes, element_end(elements@.last()->Some_0), g, module) matches Ok(t)
                    && t.kind == close.kind && t.span == close.span;
                lemma_separator_any_goal(bytes, element_end(elements@.last()->Some_0), goal, Goal::Div, module);
                assert(last_slot(bytes, module, slot, elements@.last()));
            }
        }
        Ok(ArrayBindingPattern { elements, rest, span: open.span.to(close.span) })
    }

    /// `ObjectBindingPattern`, with the cursor on the `{`.
    pub fn parse_object_binding_pattern(&mut self) -> (r: Result<ObjectBindingPattern, ParseError>)
        requires
            old(self).wf(),
        ensures
            final(self).kept_from(*old(self)),
            r matches Ok(p) ==> final(self).read_since(p.span, old(self).current.span.start as int),
            r is Ok ==> final(self).moved_past(*old(self)),
        decreases MAX_NESTING_DEPTH - old(self).depth, 70int,
    {
        if self.current.kind != TokenKind::LBrace {
            return Err(self.unexpected("`{`"));
        }
        let open = match self.advance(Goal::RegExp) {
            Ok(open) => open,
            Err(e) => return Err(e),
        };
        let mut properties: Vec<BindingProperty> = Vec::new();
        let mut rest: Option<BindingName> = None;
        while self.current.kind != TokenKind::RBrace
            invariant
                self.kept_from(*old(self)),
                self.moved_past(*old(self)),
            decreases self.remaining(),
        {
            if self.current.kind == TokenKind::DotDotDot {
                if let Err(e) = self.advance(Goal::RegExp) {
                    return Err(e);
                }
                // The properties left over are an object, with nothing to take apart.
                if self.at_binding_pattern() {
                    return Err(
                        ParseError { kind: ParseErrorKind::RestTargetMayNotBePattern, span: self.current.span },
                    );
                }
                match self.parse_binding_name() {
                    Ok(name) => {
                        rest = Some(name);
                    },
                    Err(e) => return Err(e),
                }
            } else {
                match self.parse_binding_property() {
                    Ok(property) => properties.push(property),
                    Err(e) => return Err(e),
                }
            }
            if self.current.kind != TokenKind::Comma {
                break;
            }
            if rest.is_some() {
                return Err(ParseError { kind: ParseErrorKind::RestElementMustBeLast, span: self.current.span });
            }
            if let Err(e) = self.advance(Goal::RegExp) {
                return Err(e);
            }
        }
        let close = match self.eat(TokenKind::RBrace, Goal::Div, "`}`") {
            Ok(close) => close,
            Err(e) => return Err(e),
        };
        Ok(ObjectBindingPattern { properties, rest, span: open.span.to(close.span) })
    }

    /// `BindingProperty : SingleNameBinding | PropertyName : BindingElement`.
    pub fn parse_binding_property(&mut self) -> (r: Result<BindingProperty, ParseError>)
        requires
            old(self).wf(),
        ensures
            final(self).kept_from(*old(self)),
            r is Ok ==> final(self).moved_past(*old(self)),
        decreases MAX_NESTING_DEPTH - old(self).depth, 69int,
    {
        let token = self.current;
        let key = match self.parse_property_key() {
            Ok(key) => key,
            Err(e) => return Err(e),
        };
        if self.current.kind == TokenKind::Colon {
            if let Err(e) = self.advance(Goal::RegExp) {
                return Err(e);
            }
            return match self.parse_binding_element() {
                Ok(value) => Ok(BindingProperty { key, value }),
                Err(e) => Err(e),
            };
        }
        // Shorthand: `SingleNameBinding` is a `BindingIdentifier`, narrower than the
        // `IdentifierName` the key form takes — `{if: a}` binds and `{if}` does not.
        let name = match &key {
            PropertyKey::Identifier(name) => name.clone(),
            _ => return Err(self.unexpected("`:`")),
        };
        if !self.is_identifier_token(token.kind) {
            return Err(
                ParseError {
                    kind: ParseErrorKind::Unexpected { expected: "`:`", found: token.kind },
                    span: token.span,
                },
            );
        }
        if let Err(e) = self.check_strict_name(name.as_str(), token.span, true) {
            return Err(e);
        }
        let target = Binding::Identifier(BindingName { name, span: token.span });
        let default = match self.parse_binding_default() {
            Ok(default) => default,
            Err(e) => return Err(e),
        };
        Ok(BindingProperty { key, value: BindingElement { target, default } })
    }

    /// `BindingElement : SingleNameBinding | BindingPattern Initializer_opt`.
    pub fn parse_binding_element(&mut self) -> (r: Result<BindingElement, ParseError>)
        requires
            old(self).wf(),
        ensures
            final(self).kept_from(*old(self)),
            r is Ok ==> final(self).moved_past(*old(self)),
            r matches Ok(e) ==> final(self).consumed_to@ == element_end(e) && e.target.spec_span().start
                == old(self).current.span.start,
        decreases MAX_NESTING_DEPTH - old(self).depth, 19int,
    {
        let target = match self.parse_binding() {
            Ok(target) => target,
            Err(e) => return Err(e),
        };
        match self.parse_binding_default() {
            Ok(default) => Ok(BindingElement { target, default }),
            Err(e) => Err(e),
        }
    }

    /// The `Initializer_opt` of a binding element: the value used in place of `undefined`.
    pub fn parse_binding_default(&mut self) -> (r: Result<Option<Box<Expr>>, ParseError>)
        requires
            old(self).wf(),
        ensures
            final(self).kept_from(*old(self)),
            old(self).current.kind != TokenKind::Eq ==> r == Ok::<Option<Box<Expr>>, ParseError>(None)
                && final(self).current == old(self).current,
            old(self).current.kind == TokenKind::Eq ==> (r matches Ok(d) ==> d is Some),
            old(self).current.kind != TokenKind::Eq ==> *final(self) == *old(self),
            r matches Ok(Some(d)) ==> final(self).ends_read(d.span, old(self).current.span.end as int)
                && final(self).moved_past(*old(self)),
        decreases MAX_NESTING_DEPTH - old(self).depth, 16int,
    {
        if self.current.kind != TokenKind::Eq {
            return Ok(None);
        }
        if let Err(e) = self.advance(Goal::RegExp) {
            return Err(e);
        }
        if let Err(e) = self.enter() {
            return Err(e);
        }
        // `Initializer[+In]`: a bracket starts afresh, so a `for` head does not reach in here.
        let default = self.parse_assignment(true);
        self.leave();
        match default {
            Ok(default) => Ok(Some(Box::new(default))),
            Err(e) => Err(e),
        }
    }

    /// One parameter, refined from the expression that covered it.
    pub fn refine_to_binding_element(&mut self, expr: Expr) -> (r: Result<BindingElement, ParseError>)
        requires
            old(self).wf(),
        ensures
            final(self).kept_from(*old(self)),
            final(self).current == old(self).current,
            final(self).consumed_to == old(self).consumed_to,
            r is Ok <==> binding_element_refines(expr, old(self).depth as int),
        decreases MAX_NESTING_DEPTH - old(self).depth, 44int,
    {
        let is_assignment = match &expr.kind {
            ExprKind::Assignment { .. } => true,
            _ => false,
        };
        if !is_assignment {
            return match self.refine_to_binding(expr) {
                Ok(target) => Ok(BindingElement { target, default: None }),
                Err(e) => Err(e),
            };
        }
        let Expr { kind, span, parenthesized: _ } = expr;
        match kind {
            ExprKind::Assignment { operator, target, value } => {
                if operator != AssignmentOperator::Assign {
                    return Err(ParseError { kind: ParseErrorKind::InvalidArrowParameter, span });
                }
                match self.target_as_binding(*target) {
                    Ok(target) => Ok(BindingElement { target, default: Some(value) }),
                    Err(e) => Err(e),
                }
            },
            _ => Err(ParseError { kind: ParseErrorKind::InvalidArrowParameter, span }),
        }
    }

    /// An expression, refined into the name or pattern it covered. A `{a = 1}` in here has
    /// found what makes it legal, so the rules its literal recorded are dropped.
    pub fn refine_to_binding(&mut self, expr: Expr) -> (r: Result<Binding, ParseError>)
        requires
            old(self).wf(),
        ensures
            final(self).kept_from(*old(self)),
            final(self).current == old(self).current,
            final(self).consumed_to == old(self).consumed_to,
            !(expr.kind is Identifier || expr.kind is Array || expr.kind is Object) ==> r is Err,
            r is Ok <==> binding_refines(expr, old(self).depth as int),
            r matches Ok(binding) ==> (binding is Identifier <==> expr.kind is Identifier),
        decreases MAX_NESTING_DEPTH - old(self).depth, 42int,
    {
        self.discard_refined_covers(expr.span);
        let Expr { kind, span, parenthesized: _ } = expr;
        match kind {
            ExprKind::Identifier(name) => Ok(Binding::Identifier(BindingName { name, span })),
            ExprKind::Array(elements) => {
                if let Err(e) = self.enter() {
                    return Err(e);
                }
                let refined = self.refine_array_binding(elements, span);
                self.leave();
                match refined {
                    Ok(pattern) => Ok(Binding::Pattern(BindingPattern::Array(pattern))),
                    Err(e) => Err(e),
                }
            },
            ExprKind::Object(properties) => {
                if let Err(e) = self.enter() {
                    return Err(e);
                }
                let refined = self.refine_object_binding(properties, span);
                self.leave();
                match refined {
                    Ok(pattern) => Ok(Binding::Pattern(BindingPattern::Object(pattern))),
                    Err(e) => Err(e),
                }
            },
            // A binding creates a name, so `a.b` is refused where an assignment pattern takes it.
            _ => Err(ParseError { kind: ParseErrorKind::InvalidArrowParameter, span }),
        }
    }

    /// A `DestructuringAssignmentTarget`, as the `Binding` the `=>` says it was: `({a} = {}) =>
    /// b` refined `{a}` into an assignment pattern before the `=>` was seen.
    pub fn target_as_binding(&mut self, target: AssignmentTarget) -> (r: Result<Binding, ParseError>)
        requires
            old(self).wf(),
        ensures
            final(self).kept_from(*old(self)),
            final(self).current == old(self).current,
            final(self).consumed_to == old(self).consumed_to,
            r is Ok <==> target_binding_refines(target, old(self).depth as int),
        decreases MAX_NESTING_DEPTH - old(self).depth, 43int,
    {
        match target {
            AssignmentTarget::Simple(expr) => self.refine_to_binding(expr),
            AssignmentTarget::Pattern(Pattern::Array(pattern)) => {
                if let Err(e) = self.enter() {
                    return Err(e);
                }
                let refined = self.array_pattern_as_binding(pattern);
                self.leave();
                match refined {
                    Ok(pattern) => Ok(Binding::Pattern(BindingPattern::Array(pattern))),
                    Err(e) => Err(e),
                }
            },
            AssignmentTarget::Pattern(Pattern::Object(pattern)) => {
                if let Err(e) = self.enter() {
                    return Err(e);
                }
                let refined = self.object_pattern_as_binding(pattern);
                self.leave();
                match refined {
                    Ok(pattern) => Ok(Binding::Pattern(BindingPattern::Object(pattern))),
                    Err(e) => Err(e),
                }
            },
        }
    }

    /// An `ArrayAssignmentPattern`, as the `ArrayBindingPattern` it turns out to have been.
    pub fn array_pattern_as_binding(&mut self, pattern: ArrayPattern) -> (r: Result<
        ArrayBindingPattern,
        ParseError,
    >)
        requires
            old(self).wf(),
        ensures
            final(self).kept_from(*old(self)),
            final(self).current == old(self).current,
            final(self).consumed_to == old(self).consumed_to,
            r matches Ok(p) ==> p.span == pattern.span,
            r is Ok <==> pattern_elements_bind(pattern.elements@, old(self).depth as int) && match pattern.rest {
                Some(rest) => target_binding_refines(*rest, old(self).depth as int),
                None => true,
            },
        decreases MAX_NESTING_DEPTH - old(self).depth, 48int,
    {
        let ghost whole = pattern;
        let ghost all = pattern.elements@;
        let ghost depth = old(self).depth as int;
        let ArrayPattern { elements, rest, span } = pattern;
        let mut pending = super::pattern::reversed(elements);
        let mut refined: Vec<Option<BindingElement>> = Vec::new();
        proof {
            assert(all.subrange(0, all.len() as int) =~= all);
        }
        while pending.len() > 0
            invariant
                self.kept_from(*old(self)),
                self.current == old(self).current,
                self.consumed_to == old(self).consumed_to,
                depth == old(self).depth,
                whole == pattern,
                all == whole.elements@,
                rest == whole.rest,
                span == whole.span,
                pending@.len() <= all.len(),
                pending@ == all.subrange(all.len() - pending@.len(), all.len() as int).reverse(),
                forall|i: int|
                    0 <= i < all.len() - pending@.len() ==> (#[trigger] all[i] matches Some(element)
                        ==> target_binding_refines(element.target, depth)),
            decreases pending.len(),
        {
            let ghost k = all.len() - pending@.len();
            let ghost before = pending@;
            let element = pending.pop().unwrap();
            proof {
                assert(before.last() == all[k]) by {
                    assert(all.subrange(k, all.len() as int).reverse()[before.len() - 1] == all.subrange(
                        k,
                        all.len() as int,
                    )[0]);
                }
                assert(pending@ =~= all.subrange(k + 1, all.len() as int).reverse());
                lemma_pattern_elements_bind(all, depth);
            }
            match element {
                None => refined.push(None),
                Some(element) => match self.pattern_element_as_binding(element) {
                    Ok(element) => refined.push(Some(element)),
                    Err(e) => {
                        proof {
                            assert(all[k] == Some(element));
                            assert(!pattern_elements_bind(all, depth));
                        }
                        return Err(e);
                    },
                },
            }
        }
        proof {
            lemma_pattern_elements_bind(all, depth);
        }
        let rest = match rest {
            Some(rest) => match self.target_as_binding(*rest) {
                Ok(rest) => Some(Box::new(rest)),
                Err(e) => return Err(e),
            },
            None => None,
        };
        Ok(ArrayBindingPattern { elements: refined, rest, span })
    }

    /// An `ObjectAssignmentPattern`, as the `ObjectBindingPattern` it turns out to have been.
    /// `BindingRestProperty` takes only a name, where `AssignmentRestProperty` takes any simple
    /// target: `({...a.b} = c)` is legal and `({...a.b}) => c` is not.
    pub fn object_pattern_as_binding(&mut self, pattern: ObjectPattern) -> (r: Result<
        ObjectBindingPattern,
        ParseError,
    >)
        requires
            old(self).wf(),
        ensures
            final(self).kept_from(*old(self)),
            final(self).current == old(self).current,
            final(self).consumed_to == old(self).consumed_to,
            r matches Ok(p) ==> p.span == pattern.span,
            r is Ok <==> pattern_properties_bind(pattern.properties@, old(self).depth as int) && match pattern.rest {
                Some(rest) => rest.kind is Identifier,
                None => true,
            },
        decreases MAX_NESTING_DEPTH - old(self).depth, 48int,
    {
        let ghost whole = pattern;
        let ghost all = pattern.properties@;
        let ghost depth = old(self).depth as int;
        let ObjectPattern { properties, rest, span } = pattern;
        let mut pending = super::pattern::reversed(properties);
        let mut refined: Vec<BindingProperty> = Vec::new();
        proof {
            assert(all.subrange(0, all.len() as int) =~= all);
        }
        while pending.len() > 0
            invariant
                self.kept_from(*old(self)),
                self.current == old(self).current,
                self.consumed_to == old(self).consumed_to,
                depth == old(self).depth,
                whole == pattern,
                all == whole.properties@,
                rest == whole.rest,
                span == whole.span,
                pending@.len() <= all.len(),
                pending@ == all.subrange(all.len() - pending@.len(), all.len() as int).reverse(),
                forall|i: int|
                    0 <= i < all.len() - pending@.len() ==> target_binding_refines((#[trigger] all[i]).value.target, depth),
            decreases pending.len(),
        {
            let ghost k = all.len() - pending@.len();
            let ghost before = pending@;
            let property = pending.pop().unwrap();
            proof {
                assert(before.last() == all[k]) by {
                    assert(all.subrange(k, all.len() as int).reverse()[before.len() - 1] == all.subrange(
                        k,
                        all.len() as int,
                    )[0]);
                }
                assert(pending@ =~= all.subrange(k + 1, all.len() as int).reverse());
                lemma_pattern_properties_bind(all, depth);
            }
            match self.pattern_element_as_binding(property.value) {
                Ok(value) => refined.push(BindingProperty { key: property.key, value }),
                Err(e) => {
                    proof {
                        assert(all[k] == property);
                        assert(!pattern_properties_bind(all, depth));
                    }
                    return Err(e);
                },
            }
        }
        proof {
            lemma_pattern_properties_bind(all, depth);
        }
        let rest = match rest {
            Some(rest) => match self.refine_to_binding(*rest) {
                Ok(Binding::Identifier(name)) => Some(name),
                Ok(Binding::Pattern(_)) => {
                    return Err(ParseError { kind: ParseErrorKind::RestTargetMayNotBePattern, span });
                },
                Err(e) => return Err(e),
            },
            None => None,
        };
        Ok(ObjectBindingPattern { properties: refined, rest, span })
    }

    /// One `AssignmentElement`, as the `BindingElement` it turns out to have been.
    pub fn pattern_element_as_binding(&mut self, element: PatternElement) -> (r: Result<
        BindingElement,
        ParseError,
    >)
        requires
            old(self).wf(),
        ensures
            final(self).kept_from(*old(self)),
            final(self).current == old(self).current,
            final(self).consumed_to == old(self).consumed_to,
            r is Ok <==> target_binding_refines(element.target, old(self).depth as int),
        decreases MAX_NESTING_DEPTH - old(self).depth, 47int,
    {
        let PatternElement { target, default } = element;
        match self.target_as_binding(target) {
            Ok(target) => Ok(BindingElement { target, default }),
            Err(e) => Err(e),
        }
    }

    /// An array literal, refined into an `ArrayBindingPattern`.
    pub fn refine_array_binding(&mut self, elements: Vec<ArrayElement>, span: Span) -> (r: Result<
        ArrayBindingPattern,
        ParseError,
    >)
        requires
            old(self).wf(),
        ensures
            final(self).kept_from(*old(self)),
            final(self).current == old(self).current,
            final(self).consumed_to == old(self).consumed_to,
            r matches Ok(p) ==> p.span == span,
            r is Ok <==> array_binding_refines(elements@, old(self).depth as int),
            r matches Ok(p) ==> array_pattern_keeps(elements@, p.elements@, p.rest is Some),
        decreases MAX_NESTING_DEPTH - old(self).depth, 48int,
    {
        let ghost all = elements@;
        let ghost depth = old(self).depth as int;
        let mut pending = super::pattern::reversed(elements);
        let mut refined: Vec<Option<BindingElement>> = Vec::new();
        let mut rest: Option<Box<Binding>> = None;
        proof {
            assert(all.subrange(0, all.len() as int) =~= all);
        }
        while pending.len() > 0
            invariant
                self.kept_from(*old(self)),
                self.current == old(self).current,
                self.consumed_to == old(self).consumed_to,
                depth == old(self).depth,
                all == elements@,
                pending@.len() <= all.len(),
                pending@ == all.subrange(all.len() - pending@.len(), all.len() as int).reverse(),
                rest is None ==> forall|i: int|
                    0 <= i < all.len() - pending@.len() ==> leading_binding_element_fits(#[trigger] all[i], depth),
                rest is Some ==> all.len() - pending@.len() > 0 && all[all.len() - pending@.len() - 1] is Spread
                    && array_binding_refines(all.take(all.len() - pending@.len()), depth),
                refined@.len() == if rest is Some { all.len() - pending@.len() - 1 } else { all.len() - pending@.len() },
                forall|i: int| 0 <= i < refined@.len() ==> ((#[trigger] refined@[i]) is None <==> all[i] is Hole),
            decreases pending.len(),
        {
            let ghost k = all.len() - pending@.len();
            let ghost before = pending@;
            let element = pending.pop().unwrap();
            proof {
                assert(before.last() == all[k]) by {
                    assert(all.subrange(k, all.len() as int).reverse()[before.len() - 1] == all.subrange(
                        k,
                        all.len() as int,
                    )[0]);
                }
                assert(pending@ =~= all.subrange(k + 1, all.len() as int).reverse());
                lemma_leading_binding_elements(all.drop_last(), depth);
                assert forall|i: int| 0 <= i < all.len() - 1 implies #[trigger] all.drop_last()[i] == all[i] by {}
            }
            if rest.is_some() {
                proof {
                    if array_binding_refines(all, depth) {
                        assert(all.drop_last()[k - 1] == all[k - 1]);
                        assert(leading_binding_element_fits(all.drop_last()[k - 1], depth));
                    }
                }
                return Err(ParseError { kind: ParseErrorKind::RestElementMustBeLast, span });
            }
            proof {
                if array_binding_refines(all, depth) && k < all.len() - 1 {
                    assert(all.drop_last()[k] == all[k]);
                    assert(leading_binding_element_fits(all.drop_last()[k], depth));
                }
            }
            match element {
                ArrayElement::Hole => refined.push(None),
                ArrayElement::Value(value) => match self.refine_to_binding_element(value) {
                    Ok(element) => refined.push(Some(element)),
                    Err(e) => return Err(e),
                },
                ArrayElement::Spread { value: target, followed_by_comma } => {
                    // `([...a,]) => b` has no derivation any more than `[...a,] = b` does.
                    if followed_by_comma {
                        return Err(ParseError { kind: ParseErrorKind::RestElementMustBeLast, span: target.span });
                    }
                    match self.refine_to_binding(target) {
                        Ok(binding) => {
                            rest = Some(Box::new(binding));
                            proof {
                                lemma_leading_binding_elements(all.take(k), depth);
                                assert(all.take(k + 1).drop_last() =~= all.take(k));
                                assert forall|i: int| 0 <= i < k implies #[trigger] all.take(k)[i] == all[i] by {}
                            }
                        },
                        Err(e) => return Err(e),
                    }
                },
            }
        }
        proof {
            if rest is None {
                lemma_leading_binding_elements(all.drop_last(), depth);
                if all.len() > 0 {
                    assert forall|i: int| 0 <= i < all.len() - 1 implies leading_binding_element_fits(
                        #[trigger] all.drop_last()[i],
                        depth,
                    ) by {
                        assert(all.drop_last()[i] == all[i]);
                    }
                    assert(leading_binding_element_fits(all[all.len() - 1], depth));
                }
            } else {
                assert(all.take(all.len() as int) =~= all);
            }
        }
        Ok(ArrayBindingPattern { elements: refined, rest, span })
    }

    /// An object literal, refined into an `ObjectBindingPattern`.
    pub fn refine_object_binding(&mut self, properties: Vec<PropertyDefinition>, span: Span) -> (r: Result<
        ObjectBindingPattern,
        ParseError,
    >)
        requires
            old(self).wf(),
        ensures
            final(self).kept_from(*old(self)),
            final(self).current == old(self).current,
            final(self).consumed_to == old(self).consumed_to,
            r matches Ok(p) ==> p.span == span,
            r is Ok <==> object_binding_refines(properties@, old(self).depth as int),
            r matches Ok(p) ==> object_pattern_keeps(
                properties@,
                p.properties@.map_values(|q: BindingProperty| q.key),
                p.rest is Some,
            ),
        decreases MAX_NESTING_DEPTH - old(self).depth, 48int,
    {
        let ghost all = properties@;
        let ghost depth = old(self).depth as int;
        let mut pending = super::pattern::reversed(properties);
        let mut refined: Vec<BindingProperty> = Vec::new();
        let mut rest: Option<BindingName> = None;
        proof {
            assert(all.subrange(0, all.len() as int) =~= all);
        }
        while pending.len() > 0
            invariant
                self.kept_from(*old(self)),
                self.current == old(self).current,
                self.consumed_to == old(self).consumed_to,
                depth == old(self).depth,
                all == properties@,
                pending@.len() <= all.len(),
                pending@ == all.subrange(all.len() - pending@.len(), all.len() as int).reverse(),
                rest is None ==> forall|i: int|
                    0 <= i < all.len() - pending@.len() ==> leading_binding_property_fits(#[trigger] all[i], depth),
                rest is Some ==> all.len() - pending@.len() > 0 && all[all.len() - pending@.len() - 1] is Spread
                    && object_binding_refines(all.take(all.len() - pending@.len()), depth),
                refined@.len() == if rest is Some { all.len() - pending@.len() - 1 } else { all.len() - pending@.len() },
                forall|i: int| 0 <= i < refined@.len() ==> (#[trigger] refined@[i]).key == definition_key(all[i]),
            decreases pending.len(),
        {
            let ghost k = all.len() - pending@.len();
            let ghost before = pending@;
            let property = pending.pop().unwrap();
            proof {
                assert(before.last() == all[k]) by {
                    assert(all.subrange(k, all.len() as int).reverse()[before.len() - 1] == all.subrange(
                        k,
                        all.len() as int,
                    )[0]);
                }
                assert(pending@ =~= all.subrange(k + 1, all.len() as int).reverse());
                lemma_leading_binding_properties(all.drop_last(), depth);
                assert forall|i: int| 0 <= i < all.len() - 1 implies #[trigger] all.drop_last()[i] == all[i] by {}
            }
            if rest.is_some() {
                proof {
                    if object_binding_refines(all, depth) {
                        assert(all.drop_last()[k - 1] == all[k - 1]);
                        assert(leading_binding_property_fits(all.drop_last()[k - 1], depth));
                    }
                }
                return Err(ParseError { kind: ParseErrorKind::RestElementMustBeLast, span });
            }
            proof {
                if object_binding_refines(all, depth) && k < all.len() - 1 {
                    assert(all.drop_last()[k] == all[k]);
                    assert(leading_binding_property_fits(all.drop_last()[k], depth));
                }
            }
            match property {
                PropertyDefinition::KeyValue { key, value } => match self.refine_to_binding_element(value) {
                    Ok(value) => refined.push(BindingProperty { key, value }),
                    Err(e) => return Err(e),
                },
                PropertyDefinition::Shorthand { name, span: name_span } => {
                    let key = PropertyKey::Identifier(name.clone());
                    let target = Binding::Identifier(BindingName { name, span: name_span });
                    refined.push(BindingProperty { key, value: BindingElement { target, default: None } });
                },
                PropertyDefinition::ShorthandWithDefault { name, default, span: name_span } => {
                    let key = PropertyKey::Identifier(name.clone());
                    let target = Binding::Identifier(BindingName { name, span: name_span });
                    refined.push(
                        BindingProperty { key, value: BindingElement { target, default: Some(default) } },
                    );
                },
                PropertyDefinition::Spread { value: target, followed_by_comma } => {
                    if followed_by_comma {
                        return Err(ParseError { kind: ParseErrorKind::RestElementMustBeLast, span: target.span });
                    }
                    match self.refine_to_binding(target) {
                        Ok(Binding::Identifier(name)) => {
                            rest = Some(name);
                            proof {
                                lemma_leading_binding_properties(all.take(k), depth);
                                assert(all.take(k + 1).drop_last() =~= all.take(k));
                                assert forall|i: int| 0 <= i < k implies #[trigger] all.take(k)[i] == all[i] by {}
                            }
                        },
                        Ok(Binding::Pattern(_)) => {
                            return Err(ParseError { kind: ParseErrorKind::RestTargetMayNotBePattern, span });
                        },
                        Err(e) => return Err(e),
                    }
                },
                PropertyDefinition::Method { key: _, kind: _, function } => {
                    return Err(ParseError { kind: ParseErrorKind::InvalidArrowParameter, span: function.span });
                },
            }
        }
        proof {
            if rest is None {
                lemma_leading_binding_properties(all.drop_last(), depth);
                if all.len() > 0 {
                    assert forall|i: int| 0 <= i < all.len() - 1 implies leading_binding_property_fits(
                        #[trigger] all.drop_last()[i],
                        depth,
                    ) by {
                        assert(all.drop_last()[i] == all[i]);
                    }
                    assert(leading_binding_property_fits(all[all.len() - 1], depth));
                }
            } else {
                assert(all.take(all.len() as int) =~= all);
            }
        }
        Ok(ObjectBindingPattern { properties: refined, rest, span })
    }
}

} // verus!
