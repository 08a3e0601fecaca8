//! Refining a literal into the pattern it covered (§13.15.5).
//!
//! `[a, b]` is parsed as an `ArrayLiteral` because nothing yet says it is not one; the `=` that
//! follows is what decides. So this takes the finished literal and rebuilds it as the
//! `ArrayAssignmentPattern` "that is covered by" it, refusing where the two grammars part company.
//!
//! `{a = 1}` is a valid *pattern* and not a valid *literal*, so the literal parser accepts it and
//! records the rule it owes; refining the literal is what discards the record, and anything that
//! settles an expression without refining it reports the record as the error it is. See
//! [`Parser::unrefined_covers`].
//!
//! | source | literal | pattern |
//! | --- | --- | --- |
//! | `{a = 1}` | no | yes |
//! | `[...a, ]` | yes | no — nothing follows a rest element |
//! | `[...a, b]` | yes | no — a rest element is last |
//! | `[...[a]]` | yes | yes |
//! | `{...[a]}` | yes | no |
//! | `[1]` | yes | no — `1` is nothing to assign to |
//! | `[f()]` | yes | no — a call is not a *simple* target |

use vstd::prelude::*;
use super::operator::{is_simple_assignment_target, is_simple_target};
use super::strict::is_eval_or_arguments;
use super::{CoverRecord, ParseError, ParseErrorKind, Parser, MAX_NESTING_DEPTH};
use crate::ast::{
    ArrayElement, ArrayPattern, AssignmentOperator, AssignmentTarget, Expr, ExprKind,
    ObjectPattern, Pattern, PatternElement, PatternProperty, PropertyDefinition, PropertyKey,
};
use crate::span::Span;

verus! {

/// Whether the entries of an array literal end with a spread: the one entry a pattern keeps as
/// its rest rather than as an element.
pub open spec fn ends_with_spread(elements: Seq<ArrayElement>) -> bool {
    elements.len() > 0 && elements.last() is Spread
}

/// Whether the properties of an object literal end with a spread, kept as the rest.
pub open spec fn ends_with_spread_property(properties: Seq<PropertyDefinition>) -> bool {
    properties.len() > 0 && properties.last() is Spread
}

/// That the elements of a pattern are the entries of the array literal it refines, in order:
/// one for each entry but a last spread, which is the rest, and a hole exactly where the
/// literal has one.
pub open spec fn array_pattern_keeps<T>(elements: Seq<ArrayElement>, kept: Seq<Option<T>>, has_rest: bool) -> bool {
    &&& has_rest == ends_with_spread(elements)
    &&& kept.len() == if has_rest { elements.len() - 1 } else { elements.len() as int }
    &&& forall|i: int| 0 <= i < kept.len() ==> ((#[trigger] kept[i]) is None <==> elements[i] is Hole)
}

/// The key a property definition is written with; a shorthand's key is its name.
pub open spec fn definition_key(property: PropertyDefinition) -> PropertyKey {
    match property {
        PropertyDefinition::KeyValue { key, .. } => key,
        PropertyDefinition::Shorthand { name, .. } => PropertyKey::Identifier(name),
        PropertyDefinition::ShorthandWithDefault { name, .. } => PropertyKey::Identifier(name),
        PropertyDefinition::Method { key, .. } => key,
        PropertyDefinition::Spread { .. } => arbitrary(),
    }
}

/// That the properties of a pattern are those of the object literal it refines, in order and
/// under the same keys: one for each property but a last spread, which is the rest.
pub open spec fn object_pattern_keeps(properties: Seq<PropertyDefinition>, keys: Seq<PropertyKey>, has_rest: bool) -> bool {
    &&& has_rest == ends_with_spread_property(properties)
    &&& keys.len() == if has_rest { properties.len() - 1 } else { properties.len() as int }
    &&& forall|i: int| 0 <= i < keys.len() ==> #[trigger] keys[i] == definition_key(properties[i])
}

/// The same items, last first. Lists are taken apart from the back, so a list to be walked from
/// the front is reversed once.
pub fn reversed<T>(items: Vec<T>) -> (r: Vec<T>)
    ensures
        r@ == items@.reverse(),
{
    let mut items = items;
    let mut out: Vec<T> = Vec::new();
    let ghost items_before = items@;
    while items.len() > 0
        invariant
            items@ == items_before.subrange(0, items@.len() as int),
            out@ == items_before.subrange(items@.len() as int, items_before.len() as int).reverse(),
            items@.len() <= items_before.len(),
        decreases items.len(),
    {
        let item = items.pop().unwrap();
        out.push(item);
        proof {
            assert(items@ =~= items_before.subrange(0, items@.len() as int));
            assert(out@ =~= items_before.subrange(items@.len() as int, items_before.len() as int).reverse());
        }
    }
    proof {
        assert(items_before.subrange(0, items_before.len() as int) =~= items_before);
    }
    out
}

/// Whether `expr` is a literal that could be refined into a pattern: an array or object literal
/// not in parentheses. `([a]) = b` has no derivation where `[a] = b` does.
pub open spec fn covers_pattern(expr: &Expr) -> bool {
    !expr.parenthesized && (expr.kind is Array || expr.kind is Object)
}

/// §13.15.5.1: a destructuring target that is not a pattern must be *simple*.
pub fn require_simple_target(expr: &Expr) -> (r: Result<(), ParseError>)
    ensures
        r is Ok <==> is_simple_target(expr),
        r matches Err(e) ==> e.kind == ParseErrorKind::InvalidDestructuringTarget && e.span
            == expr.span,
{
    if is_simple_assignment_target(expr) {
        return Ok(());
    }
    Err(ParseError { kind: ParseErrorKind::InvalidDestructuringTarget, span: expr.span })
}

/// Whether a cover record belongs to the refinement of `refined` made at protection level
/// `here`: it was made inside the literal, and not inside a sub-expression that survives it.
pub open spec fn refined_away(record: CoverRecord, refined: Span, here: Option<usize>) -> bool {
    record.literal.start >= refined.start && record.literal.end <= refined.end
        && record.protected_from == here
}

/// A refinement discards exactly what it covers: a rule recorded outside the refined literal,
/// or inside a sub-expression of it that stays an expression, survives
/// [`Parser::discard_refined_covers`]; and nothing that survives belongs to the refinement.
pub proof fn lemma_refinement_discards_only_its_own(
    records: Seq<CoverRecord>,
    refined: Span,
    here: Option<usize>,
    k: int,
)
    requires
        0 <= k < records.len(),
    ensures
        !refined_away(records[k], refined, here) ==> surviving(records, refined, here).contains(
            records[k],
        ),
        forall|j: int|
            0 <= j < surviving(records, refined, here).len() ==> !refined_away(
                #[trigger] surviving(records, refined, here)[j],
                refined,
                here,
            ),
{
    let keep = |record: CoverRecord| !refined_away(record, refined, here);
    if !refined_away(records[k], refined, here) {
        records.lemma_filter_contains(keep, k);
    }
    assert forall|j: int| 0 <= j < surviving(records, refined, here).len() implies !refined_away(
        #[trigger] surviving(records, refined, here)[j],
        refined,
        here,
    ) by {
        records.lemma_filter_pred(keep, j);
    }
}

/// The records that survive the refinement of `refined` made at protection level `here`.
pub open spec fn surviving(records: Seq<CoverRecord>, refined: Span, here: Option<usize>) -> Seq<
    CoverRecord,
> {
    records.filter(|record: CoverRecord| !refined_away(record, refined, here))
}

/// Whether a name may be assigned to here: in strict code, not `eval` or `arguments`.
pub open spec fn name_assignable(expr: Expr, strict: bool) -> bool {
    expr.kind matches ExprKind::Identifier(name) ==> !(strict && is_eval_or_arguments(name@))
}

/// Whether `expr` is a `DestructuringAssignmentTarget` (§13.15.5) when refined at nesting depth
/// `depth`, strict or not: a literal that refines into a pattern, or a simple target whose name
/// may be assigned to.
pub closed spec fn target_refines(expr: Expr, strict: bool, depth: int) -> bool
    decreases expr, 2int,
{
    if covers_pattern(&expr) {
        pattern_refines(expr, strict, depth)
    } else {
        is_simple_target(&expr) && name_assignable(expr, strict)
    }
}

/// Whether the literal `expr` refines into an `AssignmentPattern`: an array or an object literal
/// within the nesting cap, each of whose parts refines.
pub closed spec fn pattern_refines(expr: Expr, strict: bool, depth: int) -> bool
    decreases expr, 1int,
{
    match expr.kind {
        ExprKind::Array(elements) => depth < MAX_NESTING_DEPTH && array_refines(elements@, strict, depth + 1),
        ExprKind::Object(properties) => depth < MAX_NESTING_DEPTH && object_refines(
            properties@,
            strict,
            depth + 1,
        ),
        _ => false,
    }
}

/// Whether `expr` is an `AssignmentElement`: a target, with a default where it was written as
/// `target = value`.
pub closed spec fn element_refines(expr: Expr, strict: bool, depth: int) -> bool
    decreases expr, 3int,
{
    match expr.kind {
        ExprKind::Assignment { operator, target, value: _ } => operator == AssignmentOperator::Assign
            && match *target {
            AssignmentTarget::Simple(target) => target_refines(target, strict, depth),
            AssignmentTarget::Pattern(_) => true,
        },
        _ => target_refines(expr, strict, depth),
    }
}

/// Whether the elements of an array literal refine: holes and elements, then at most one rest
/// element, last, with no comma after it and no default.
pub closed spec fn array_refines(elements: Seq<ArrayElement>, strict: bool, depth: int) -> bool
    decreases elements, 1int,
{
    if elements.len() == 0 {
        true
    } else {
        let last = elements.last();
        &&& leading_elements_refine(elements.drop_last(), strict, depth)
        &&& match last {
            ArrayElement::Hole => true,
            ArrayElement::Value(value) => element_refines(value, strict, depth),
            ArrayElement::Spread { value, followed_by_comma } => !followed_by_comma && !(value.kind is Assignment)
                && target_refines(value, strict, depth),
        }
    }
}

/// Whether elements that some other element follows refine: holes and elements only.
pub closed spec fn leading_elements_refine(elements: Seq<ArrayElement>, strict: bool, depth: int) -> bool
    decreases elements, 0int,
{
    if elements.len() == 0 {
        true
    } else {
        &&& leading_elements_refine(elements.drop_last(), strict, depth)
        &&& match elements.last() {
            ArrayElement::Hole => true,
            ArrayElement::Value(value) => element_refines(value, strict, depth),
            ArrayElement::Spread { .. } => false,
        }
    }
}

/// Whether a shorthand property's name may be the target it stands for.
pub open spec fn shorthand_assignable(name: Seq<char>, strict: bool) -> bool {
    !(strict && is_eval_or_arguments(name))
}

/// Whether the properties of an object literal refine: each property a target, a method none,
/// and at most one rest property, last, with no comma after it, naming a simple target.
pub closed spec fn object_refines(properties: Seq<PropertyDefinition>, strict: bool, depth: int) -> bool
    decreases properties, 1int,
{
    if properties.len() == 0 {
        true
    } else {
        &&& leading_properties_refine(properties.drop_last(), strict, depth)
        &&& match properties.last() {
            PropertyDefinition::Spread { value, followed_by_comma } => !followed_by_comma && !covers_pattern(
                &value,
            ) && is_simple_target(&value) && name_assignable(value, strict),
            other => property_refines(other, strict, depth),
        }
    }
}

/// Whether properties that some other property follows refine: no rest property among them.
pub closed spec fn leading_properties_refine(properties: Seq<PropertyDefinition>, strict: bool, depth: int) -> bool
    decreases properties, 0int,
{
    if properties.len() == 0 {
        true
    } else {
        &&& leading_properties_refine(properties.drop_last(), strict, depth)
        &&& !(properties.last() is Spread)
        &&& property_refines(properties.last(), strict, depth)
    }
}

/// Whether one property other than a rest property refines.
pub closed spec fn property_refines(property: PropertyDefinition, strict: bool, depth: int) -> bool
    decreases property, 2int,
{
    match property {
        PropertyDefinition::KeyValue { key: _, value } => element_refines(value, strict, depth),
        PropertyDefinition::Shorthand { name, span: _ } => shorthand_assignable(name@, strict),
        PropertyDefinition::ShorthandWithDefault { name, default: _, span: _ } => shorthand_assignable(
            name@,
            strict,
        ),
        PropertyDefinition::Method { .. } => false,
        PropertyDefinition::Spread { .. } => false,
    }
}

/// What each element that some other follows must be, for the elements to refine.
pub closed spec fn leading_element_fits(element: ArrayElement, strict: bool, depth: int) -> bool {
    match element {
        ArrayElement::Hole => true,
        ArrayElement::Value(value) => element_refines(value, strict, depth),
        ArrayElement::Spread { .. } => false,
    }
}

/// Leading elements refine exactly when each of them fits.
proof fn lemma_leading_elements(elements: Seq<ArrayElement>, strict: bool, depth: int)
    ensures
        leading_elements_refine(elements, strict, depth) <==> forall|i: int|
            0 <= i < elements.len() ==> leading_element_fits(#[trigger] elements[i], strict, depth),
    decreases elements.len(),
{
    if elements.len() > 0 {
        lemma_leading_elements(elements.drop_last(), strict, depth);
        assert forall|i: int| 0 <= i < elements.len() - 1 implies #[trigger] elements.drop_last()[i]
            == elements[i] by {}
        if forall|i: int| 0 <= i < elements.len() ==> leading_element_fits(#[trigger] elements[i], strict, depth) {
            assert forall|i: int| 0 <= i < elements.drop_last().len() implies leading_element_fits(
                #[trigger] elements.drop_last()[i],
                strict,
                depth,
            ) by {
                assert(elements.drop_last()[i] == elements[i]);
            }
            assert(leading_element_fits(elements[elements.len() - 1], strict, depth));
        }
        if leading_elements_refine(elements, strict, depth) {
            assert forall|i: int| 0 <= i < elements.len() implies leading_element_fits(
                #[trigger] elements[i],
                strict,
                depth,
            ) by {
                if i < elements.len() - 1 {
                    assert(elements.drop_last()[i] == elements[i]);
                }
            }
        }
    }
}

/// What each property that some other follows must be, for the properties to refine.
pub closed spec fn leading_property_fits(property: PropertyDefinition, strict: bool, depth: int) -> bool {
    !(property is Spread) && property_refines(property, strict, depth)
}

/// Leading properties refine exactly when each of them fits.
proof fn lemma_leading_properties(properties: Seq<PropertyDefinition>, strict: bool, depth: int)
    ensures
        leading_properties_refine(properties, strict, depth) <==> forall|i: int|
            0 <= i < properties.len() ==> leading_property_fits(#[trigger] properties[i], strict, depth),
    decreases properties.len(),
{
    if properties.len() > 0 {
        lemma_leading_properties(properties.drop_last(), strict, depth);
        if forall|i: int| 0 <= i < properties.len() ==> leading_property_fits(#[trigger] properties[i], strict, depth) {
            assert forall|i: int| 0 <= i < properties.drop_last().len() implies leading_property_fits(
                #[trigger] properties.drop_last()[i],
                strict,
                depth,
            ) by {
                assert(properties.drop_last()[i] == properties[i]);
            }
            assert(leading_property_fits(properties[properties.len() - 1], strict, depth));
        }
        if leading_properties_refine(properties, strict, depth) {
            assert forall|i: int| 0 <= i < properties.len() implies leading_property_fits(
                #[trigger] properties[i],
                strict,
                depth,
            ) by {
                if i < properties.len() - 1 {
                    assert(properties.drop_last()[i] == properties[i]);
                }
            }
        }
    }
}

impl<'a> Parser<'a> {
    /// Whether `expr` is a literal that could be refined into a pattern.
    pub fn covers_a_pattern(expr: &Expr) -> (r: bool)
        ensures
            r == covers_pattern(expr),
    {
        if expr.parenthesized {
            return false;
        }
        match expr.kind {
            ExprKind::Array(_) | ExprKind::Object(_) => true,
            _ => false,
        }
    }

    /// Refine a literal into the pattern it covered, or say why it covered none. The rules the
    /// literal recorded are now the pattern's business, and are dropped.
    pub fn refine_to_pattern(&mut self, expr: Expr) -> (r: Result<Pattern, ParseError>)
        requires
            old(self).wf(),
        ensures
            final(self).kept_from(*old(self)),
            final(self).current == old(self).current,
            final(self).consumed_to == old(self).consumed_to,
            final(self).strict == old(self).strict,
            r is Ok <==> pattern_refines(expr, old(self).strict, old(self).depth as int),
        decreases MAX_NESTING_DEPTH - old(self).depth, 13int,
    {
        self.discard_refined_covers(expr.span);
        self.refine_pattern(expr)
    }

    /// The refinement proper, which recurses once per level of nesting.
    pub fn refine_pattern(&mut self, expr: Expr) -> (r: Result<Pattern, ParseError>)
        requires
            old(self).wf(),
        ensures
            final(self).kept_from(*old(self)),
            final(self).current == old(self).current,
            final(self).consumed_to == old(self).consumed_to,
            !(expr.kind is Array || expr.kind is Object) ==> r is Err,
            final(self).strict == old(self).strict,
            r is Ok <==> pattern_refines(expr, old(self).strict, old(self).depth as int),
            r matches Ok(p) ==> (p is Array <==> expr.kind is Array),
        decreases MAX_NESTING_DEPTH - old(self).depth, 12int,
    {
        let Expr { kind, span, parenthesized: _ } = expr;
        match kind {
            ExprKind::Array(elements) => {
                if let Err(e) = self.enter() {
                    return Err(e);
                }
                let refined = self.refine_array(elements, span);
                self.leave();
                match refined {
                    Ok(pattern) => Ok(Pattern::Array(pattern)),
                    Err(e) => Err(e),
                }
            },
            ExprKind::Object(properties) => {
                if let Err(e) = self.enter() {
                    return Err(e);
                }
                let refined = self.refine_object(properties, span);
                self.leave();
                match refined {
                    Ok(pattern) => Ok(Pattern::Object(pattern)),
                    Err(e) => Err(e),
                }
            },
            _ => Err(ParseError { kind: ParseErrorKind::InvalidDestructuringTarget, span }),
        }
    }

    /// `ArrayAssignmentPattern` from the `ArrayLiteral` that covered it.
    pub fn refine_array(&mut self, elements: Vec<ArrayElement>, span: Span) -> (r: Result<
        ArrayPattern,
        ParseError,
    >)
        requires
            old(self).wf(),
        ensures
            final(self).kept_from(*old(self)),
            final(self).current == old(self).current,
            final(self).consumed_to == old(self).consumed_to,
            r matches Ok(p) ==> p.span == span,
            final(self).strict == old(self).strict,
            r is Ok <==> array_refines(elements@, old(self).strict, old(self).depth as int),
            r matches Ok(p) ==> array_pattern_keeps(elements@, p.elements@, p.rest is Some),
        decreases MAX_NESTING_DEPTH - old(self).depth, 19int,
    {
        let ghost all = elements@;
        let ghost strict = old(self).strict;
        let ghost depth = old(self).depth as int;
        let mut pending = reversed(elements);
        let mut refined: Vec<Option<PatternElement>> = Vec::new();
        let mut rest: Option<Box<AssignmentTarget>> = None;
        proof {
            assert(all.subrange(0, all.len() as int) =~= all);
        }
        while pending.len() > 0
            invariant
                self.kept_from(*old(self)),
                self.current == old(self).current,
                self.consumed_to == old(self).consumed_to,
                self.strict == strict,
                strict == old(self).strict,
                depth == old(self).depth,
                all == elements@,
                pending@.len() <= all.len(),
                pending@ == all.subrange(all.len() - pending@.len(), all.len() as int).reverse(),
                rest is None ==> forall|i: int|
                    0 <= i < all.len() - pending@.len() ==> leading_element_fits(#[trigger] all[i], strict, depth),
                rest is Some ==> all.len() - pending@.len() > 0 && all[all.len() - pending@.len() - 1] is Spread
                    && array_refines(all.take(all.len() - pending@.len()), strict, depth),
                refined@.len() == if rest is Some { all.len() - pending@.len() - 1 } else { all.len() - pending@.len() },
                forall|i: int| 0 <= i < refined@.len() ==> ((#[trigger] refined@[i]) is None <==> all[i] is Hole),
            decreases pending.len(),
        {
            let ghost k = all.len() - pending@.len();
            let ghost before = pending@;
            let element = pending.pop().unwrap();
            proof {
                assert(before.last() == all[k]) by {
                    assert(all.subrange(k, all.len() as int).reverse()[before.len() - 1] == all.subrange(
                        k,
                        all.len() as int,
                    )[0]);
                }
                assert(pending@ =~= all.subrange(k + 1, all.len() as int).reverse());
                lemma_leading_elements(all.drop_last(), strict, depth);
                assert forall|i: int| 0 <= i < all.len() - 1 implies #[trigger] all.drop_last()[i] == all[i] by {}
            }
            // A rest element is last, so anything after one has no derivation.
            if rest.is_some() {
                proof {
                    assert(k > 0 && k < all.len());
                    assert(all[k - 1] is Spread);
                    if array_refines(all, strict, depth) {
                        assert(leading_elements_refine(all.drop_last(), strict, depth));
                        assert(all.drop_last()[k - 1] == all[k - 1]);
                        assert(leading_element_fits(all.drop_last()[k - 1], strict, depth));
                        assert(false);
                    }
                }
                return Err(ParseError { kind: ParseErrorKind::RestElementMustBeLast, span });
            }
            proof {
                if array_refines(all, strict, depth) && k < all.len() - 1 {
                    assert(all.drop_last()[k] == all[k]);
                    assert(leading_element_fits(all.drop_last()[k], strict, depth));
                }
            }
            match element {
                ArrayElement::Hole => {
                    refined.push(None);
                },
                ArrayElement::Value(value) => match self.refine_element(value) {
                    Ok(item) => {
                        refined.push(Some(item));
                    },
                    Err(e) => return Err(e),
                },
                ArrayElement::Spread { value: target, followed_by_comma } => {
                    // Nothing follows a rest element, a comma included.
                    if followed_by_comma {
                        return Err(ParseError { kind: ParseErrorKind::RestElementMustBeLast, span: target.span });
                    }
                    // `AssignmentRestElement` has no `Initializer`: `[...a = 1] = b` is refused.
                    if let ExprKind::Assignment { .. } = target.kind {
                        return Err(
                            ParseError { kind: ParseErrorKind::RestElementWithInitializer, span: target.span },
                        );
                    }
                    match self.refine_target(target) {
                        Ok(target) => {
                            rest = Some(Box::new(target));
                            proof {
                                lemma_leading_elements(all.take(k), strict, depth);
                                assert(all.take(k + 1).drop_last() =~= all.take(k));
                                assert forall|i: int| 0 <= i < k implies #[trigger] all.take(k)[i] == all[i] by {}
                            }
                        },
                        Err(e) => return Err(e),
                    }
                },
            }
        }
        proof {
            if rest is None {
                lemma_leading_elements(all, strict, depth);
                lemma_leading_elements(all.drop_last(), strict, depth);
                if all.len() > 0 {
                    assert forall|i: int| 0 <= i < all.len() - 1 implies leading_element_fits(
                        #[trigger] all.drop_last()[i],
                        strict,
                        depth,
                    ) by {
                        assert(all.drop_last()[i] == all[i]);
                    }
                    assert(leading_element_fits(all[all.len() - 1], strict, depth));
                }
            } else {
                assert(all.take(all.len() as int) =~= all);
            }
        }
        Ok(ArrayPattern { elements: refined, rest, span })
    }

    /// `ObjectAssignmentPattern` from the `ObjectLiteral` that covered it.
    pub fn refine_object(&mut self, properties: Vec<PropertyDefinition>, span: Span) -> (r: Result<
        ObjectPattern,
        ParseError,
    >)
        requires
            old(self).wf(),
        ensures
            final(self).kept_from(*old(self)),
            final(self).current == old(self).current,
            final(self).consumed_to == old(self).consumed_to,
            r matches Ok(p) ==> p.span == span,
            final(self).strict == old(self).strict,
            r is Ok <==> object_refines(properties@, old(self).strict, old(self).depth as int),
            r matches Ok(p) ==> object_pattern_keeps(
                properties@,
                p.properties@.map_values(|q: PatternProperty| q.key),
                p.rest is Some,
            ),
        decreases MAX_NESTING_DEPTH - old(self).depth, 19int,
    {
        let ghost all = properties@;
        let ghost strict = old(self).strict;
        let ghost depth = old(self).depth as int;
        let mut pending = reversed(properties);
        let mut refined: Vec<PatternProperty> = Vec::new();
        let mut rest: Option<Box<Expr>> = None;
        proof {
            assert(all.subrange(0, all.len() as int) =~= all);
        }
        while pending.len() > 0
            invariant
                self.kept_from(*old(self)),
                self.current == old(self).current,
                self.consumed_to == old(self).consumed_to,
                self.strict == strict,
                strict == old(self).strict,
                depth == old(self).depth,
                all == properties@,
                pending@.len() <= all.len(),
                pending@ == all.subrange(all.len() - pending@.len(), all.len() as int).reverse(),
                rest is None ==> forall|i: int|
                    0 <= i < all.len() - pending@.len() ==> leading_property_fits(#[trigger] all[i], strict, depth),
                rest is Some ==> all.len() - pending@.len() > 0 && all[all.len() - pending@.len() - 1] is Spread
                    && object_refines(all.take(all.len() - pending@.len()), strict, depth),
                refined@.len() == if rest is Some { all.len() - pending@.len() - 1 } else { all.len() - pending@.len() },
                forall|i: int| 0 <= i < refined@.len() ==> (#[trigger] refined@[i]).key == definition_key(all[i]),
            decreases pending.len(),
        {
            let ghost k = all.len() - pending@.len();
            let ghost before = pending@;
            let property = pending.pop().unwrap();
            proof {
                assert(before.last() == all[k]) by {
                    assert(all.subrange(k, all.len() as int).reverse()[before.len() - 1] == all.subrange(
                        k,
                        all.len() as int,
                    )[0]);
                }
                assert(pending@ =~= all.subrange(k + 1, all.len() as int).reverse());
                lemma_leading_properties(all.drop_last(), strict, depth);
                assert forall|i: int| 0 <= i < all.len() - 1 implies #[trigger] all.drop_last()[i] == all[i] by {}
            }
            if rest.is_some() {
                proof {
                    if object_refines(all, strict, depth) {
                        assert(all.drop_last()[k - 1] == all[k - 1]);
                        assert(leading_property_fits(all.drop_last()[k - 1], strict, depth));
                    }
                }
                return Err(ParseError { kind: ParseErrorKind::RestElementMustBeLast, span });
            }
            proof {
                if object_refines(all, strict, depth) && k < all.len() - 1 {
                    assert(all.drop_last()[k] == all[k]);
                    assert(leading_property_fits(all.drop_last()[k], strict, depth));
                }
            }
            match property {
                PropertyDefinition::KeyValue { key, value } => match self.refine_element(value) {
                    Ok(value) => refined.push(PatternProperty { key, value }),
                    Err(e) => return Err(e),
                },
                // Both shorthand forms build their own target, so each asks for itself.
                PropertyDefinition::Shorthand { name, span: name_span } => {
                    if let Err(e) = self.check_target_name(name.as_str(), name_span) {
                        return Err(e);
                    }
                    let key = PropertyKey::Identifier(name.clone());
                    let target = AssignmentTarget::Simple(Expr::new(ExprKind::Identifier(name), name_span));
                    refined.push(PatternProperty { key, value: PatternElement { target, default: None } });
                },
                PropertyDefinition::ShorthandWithDefault { name, default, span: name_span } => {
                    if let Err(e) = self.check_target_name(name.as_str(), name_span) {
                        return Err(e);
                    }
                    let key = PropertyKey::Identifier(name.clone());
                    let target = AssignmentTarget::Simple(Expr::new(ExprKind::Identifier(name), name_span));
                    refined.push(
                        PatternProperty { key, value: PatternElement { target, default: Some(default) } },
                    );
                },
                // A method has nowhere to put a value that is written as a function.
                PropertyDefinition::Method { key: _, kind: _, function } => {
                    return Err(
                        ParseError { kind: ParseErrorKind::InvalidDestructuringTarget, span: function.span },
                    );
                },
                PropertyDefinition::Spread { value: target, followed_by_comma } => {
                    if followed_by_comma {
                        return Err(ParseError { kind: ParseErrorKind::RestElementMustBeLast, span: target.span });
                    }
                    // An `AssignmentRestProperty` target may not be a literal: there is no way to
                    // spread the remaining properties into a pattern.
                    if Self::covers_a_pattern(&target) {
                        return Err(
                            ParseError { kind: ParseErrorKind::RestTargetMayNotBePattern, span: target.span },
                        );
                    }
                    if let Err(e) = require_simple_target(&target) {
                        return Err(e);
                    }
                    if let ExprKind::Identifier(name) = &target.kind {
                        if let Err(e) = self.check_target_name(name.as_str(), target.span) {
                            return Err(e);
                        }
                    }
                    rest = Some(Box::new(target));
                    proof {
                        lemma_leading_properties(all.take(k), strict, depth);
                        assert(all.take(k + 1).drop_last() =~= all.take(k));
                        assert forall|i: int| 0 <= i < k implies #[trigger] all.take(k)[i] == all[i] by {}
                    }
                },
            }
        }
        proof {
            if rest is None {
                lemma_leading_properties(all.drop_last(), strict, depth);
                if all.len() > 0 {
                    assert forall|i: int| 0 <= i < all.len() - 1 implies leading_property_fits(
                        #[trigger] all.drop_last()[i],
                        strict,
                        depth,
                    ) by {
                        assert(all.drop_last()[i] == all[i]);
                    }
                    assert(leading_property_fits(all[all.len() - 1], strict, depth));
                }
            } else {
                assert(all.take(all.len() as int) =~= all);
            }
        }
        Ok(ObjectPattern { properties: refined, rest, span })
    }

    /// `AssignmentElement : DestructuringAssignmentTarget Initializer_opt`. The initialiser was
    /// read as an assignment, so finding it means taking that assignment apart again.
    pub fn refine_element(&mut self, expr: Expr) -> (r: Result<PatternElement, ParseError>)
        requires
            old(self).wf(),
        ensures
            final(self).kept_from(*old(self)),
            final(self).current == old(self).current,
            final(self).consumed_to == old(self).consumed_to,
            final(self).strict == old(self).strict,
            r is Ok <==> element_refines(expr, old(self).strict, old(self).depth as int),
        decreases MAX_NESTING_DEPTH - old(self).depth, 15int,
    {
        let is_assignment = match &expr.kind {
            ExprKind::Assignment { .. } => true,
            _ => false,
        };
        if !is_assignment {
            return match self.refine_target(expr) {
                Ok(target) => Ok(PatternElement { target, default: None }),
                Err(e) => Err(e),
            };
        }
        let Expr { kind, span, parenthesized: _ } = expr;
        match kind {
            ExprKind::Assignment { operator, target, value } => {
                // Only `=` covers a default: `[a += 1] = b` is refused.
                if operator != AssignmentOperator::Assign {
                    return Err(ParseError { kind: ParseErrorKind::InvalidDestructuringTarget, span });
                }
                let target = match *target {
                    AssignmentTarget::Simple(target) => match self.refine_target(target) {
                        Ok(target) => target,
                        Err(e) => return Err(e),
                    },
                    AssignmentTarget::Pattern(pattern) => AssignmentTarget::Pattern(pattern),
                };
                Ok(PatternElement { target, default: Some(value) })
            },
            _ => Err(ParseError { kind: ParseErrorKind::InvalidDestructuringTarget, span }),
        }
    }

    /// `DestructuringAssignmentTarget : LeftHandSideExpression`: a nested literal is refined in
    /// turn, and anything else must be simple.
    pub fn refine_target(&mut self, expr: Expr) -> (r: Result<AssignmentTarget, ParseError>)
        requires
            old(self).wf(),
        ensures
            final(self).kept_from(*old(self)),
            final(self).current == old(self).current,
            final(self).consumed_to == old(self).consumed_to,
            r matches Ok(AssignmentTarget::Simple(e)) ==> e == expr && is_simple_target(&e),
            !covers_pattern(&expr) && !is_simple_target(&expr) ==> r is Err,
            final(self).strict == old(self).strict,
            r is Ok <==> target_refines(expr, old(self).strict, old(self).depth as int),
        decreases MAX_NESTING_DEPTH - old(self).depth, 14int,
    {
        if Self::covers_a_pattern(&expr) {
            return match self.refine_pattern(expr) {
                Ok(pattern) => Ok(AssignmentTarget::Pattern(pattern)),
                Err(e) => Err(e),
            };
        }
        if let Err(e) = require_simple_target(&expr) {
            return Err(e);
        }
        // A member expression has no name to ask about: what is assigned is the property.
        if let ExprKind::Identifier(name) = &expr.kind {
            if let Err(e) = self.check_target_name(name.as_str(), expr.span) {
                return Err(e);
            }
        }
        Ok(AssignmentTarget::Simple(expr))
    }

    /// Record a rule this `ObjectLiteral` owes, stamped with the surviving sub-expression it
    /// sits inside, if any.
    pub fn record_cover(&mut self, error: ParseError, literal: Span)
        requires
            old(self).wf(),
        ensures
            final(self).kept_from(*old(self)),
            final(self).current == old(self).current,
            final(self).consumed_to == old(self).consumed_to,
            final(self).unrefined_covers@ == old(self).unrefined_covers@.push(
                CoverRecord { error, literal, protected_from: old(self).protecting_from },
            ),
    {
        let record = CoverRecord { error, literal, protected_from: self.protecting_from };
        self.unrefined_covers.push(record);
    }

    /// Drop the rules that refining `refined` has just made moot: those recorded inside it, and
    /// not inside a sub-expression (a default, a computed key) that stays an expression.
    pub fn discard_refined_covers(&mut self, refined: Span)
        requires
            old(self).wf(),
        ensures
            final(self).kept_from(*old(self)),
            final(self).current == old(self).current,
            final(self).consumed_to == old(self).consumed_to,
            final(self).protecting_from == old(self).protecting_from,
            final(self).strict == old(self).strict,
            final(self).depth == old(self).depth,
            final(self).unrefined_covers@ == surviving(
                old(self).unrefined_covers@,
                refined,
                old(self).protecting_from,
            ),
    {
        let here = self.protecting_from;
        let records = &self.unrefined_covers;
        let mut kept: Vec<CoverRecord> = Vec::new();
        let mut k: usize = 0;
        while k < records.len()
            invariant
                k <= records@.len(),
                kept@ == records@.subrange(0, k as int).filter(
                    |record: CoverRecord| !refined_away(record, refined, here),
                ),
            decreases records.len() - k,
        {
            let record = records[k];
            let inside = record.literal.start >= refined.start && record.literal.end <= refined.end;
            let deeper = match (record.protected_from, here) {
                (Some(a), Some(b)) => a != b,
                (None, None) => false,
                _ => true,
            };
            proof {
                assert(records@.subrange(0, k + 1) =~= records@.subrange(0, k as int).push(record));
                records@.subrange(0, k as int).lemma_filter_push(record,
                    |record: CoverRecord| !refined_away(record, refined, here));
            }
            if !inside || deeper {
                kept.push(record);
            }
            k = k + 1;
        }
        proof {
            assert(records@.subrange(0, records@.len() as int) =~= records@);
        }
        self.unrefined_covers = kept;
    }

    /// The rule a finished expression still owes, if it owes one: the earliest record, unless a
    /// literal still open around it may yet refine it.
    pub fn report_unrefined_cover_grammar(&mut self) -> (r: Result<(), ParseError>)
        requires
            old(self).wf(),
        ensures
            final(self).kept_from(*old(self)),
            final(self).current == old(self).current,
            final(self).consumed_to == old(self).consumed_to,
            final(self).protecting_from == old(self).protecting_from,
            final(self).open_covers == old(self).open_covers,
            final(self).private_references == old(self).private_references,
            r is Err <==> old(self).open_covers == 0 && old(self).unrefined_covers@.len() > 0,
            r is Err ==> final(self).unrefined_covers@.len() == 0,
            r is Ok ==> final(self).unrefined_covers == old(self).unrefined_covers,
            r matches Err(e) ==> exists|i: int|
                0 <= i < old(self).unrefined_covers@.len() && (#[trigger] old(self).unrefined_covers@[i]).error
                    == e,
            r matches Err(e) ==> forall|i: int|
                0 <= i < old(self).unrefined_covers@.len() ==> e.span.start <= (
                #[trigger] old(self).unrefined_covers@[i]).error.span.start,
    {
        if self.open_covers > 0 || self.unrefined_covers.len() == 0 {
            return Ok(());
        }
        let mut earliest: usize = 0;
        let mut k: usize = 1;
        while k < self.unrefined_covers.len()
            invariant
                earliest < self.unrefined_covers@.len(),
                1 <= k <= self.unrefined_covers@.len(),
                forall|i: int|
                    0 <= i < k ==> self.unrefined_covers@[earliest as int].error.span.start <= (
                    #[trigger] self.unrefined_covers@[i]).error.span.start,
            decreases self.unrefined_covers.len() - k,
        {
            if self.unrefined_covers[k].error.span.start < self.unrefined_covers[earliest].error.span.start {
                earliest = k;
            }
            k = k + 1;
        }
        let record = self.unrefined_covers[earliest];
        proof {
            assert(old(self).unrefined_covers@[earliest as int].error == record.error);
        }
        self.unrefined_covers = Vec::new();
        Err(record.error)
    }
}

} // verus!
