//! Array literals (§13.2.4).
//!
//! A comma with nothing before it in its slot is a hole, and a comma after an element only
//! separates it from the next: `[1, ]` has one element and `[, ]` one hole. A spread remembers
//! whether a comma followed it, because an array literal may be refined into a pattern later,
//! and a rest element there is last with nothing after it.

use vstd::prelude::*;
use super::{read_in_place, ParseError, ParseErrorKind, Parser, MAX_NESTING_DEPTH};
use crate::ast::{ArrayElement, Expr, ExprKind};
use crate::lexer::{lemma_separator_any_goal, lex_token, Goal, LexError, Token, TokenKind};

verus! {

/// Whether a comma is read at offset `end`, ending at `next`.
pub open spec fn comma_at(bytes: Seq<u8>, module: bool, end: int, next: int) -> bool {
    lex_token(bytes, end, Goal::Div, module) matches Ok(c) && c.kind == TokenKind::Comma && next == c.span.end
}

/// Whether the element `element` begins the slot whose first token `first` is: a hole where
/// that token is a comma, a spread where it is `...`, and a value written from it otherwise.
pub open spec fn begins_slot(first: Token, element: ArrayElement) -> bool {
    match element {
        ArrayElement::Hole => first.kind == TokenKind::Comma,
        ArrayElement::Value(e) => first.kind != TokenKind::Comma && first.kind != TokenKind::DotDotDot
            && first.kind != TokenKind::RBracket && first.span.start <= e.span.start,
        ArrayElement::Spread { value, followed_by_comma: _ } => first.kind == TokenKind::DotDotDot
            && first.span.end <= value.span.start,
    }
}

/// Where the text of an element ends: after its value, or, for a hole, nowhere of its own.
pub open spec fn element_text_end(element: ArrayElement) -> int {
    match element {
        ArrayElement::Hole => -1,
        ArrayElement::Value(e) => e.span.end as int,
        ArrayElement::Spread { value, followed_by_comma: _ } => value.span.end as int,
    }
}

/// Whether `element` fills the slot of an array literal that begins at offset `pos` and is
/// closed by a comma ending at `next`: a lone comma for a hole, else the element, then a comma.
pub open spec fn literal_slot(bytes: Seq<u8>, module: bool, pos: int, element: ArrayElement, next: int) -> bool {
    &&& lex_token(bytes, pos, Goal::RegExp, module) matches Ok(t) && begins_slot(t, element)
    &&& match element {
        ArrayElement::Hole => lex_token(bytes, pos, Goal::RegExp, module) matches Ok(t) && next == t.span.end,
        ArrayElement::Value(_) => comma_at(bytes, module, element_text_end(element), next),
        ArrayElement::Spread { value: _, followed_by_comma } => followed_by_comma && comma_at(
            bytes,
            module,
            element_text_end(element),
            next,
        ),
    }
}

/// Whether `elements` fill the slots of an array literal written from offset `pos` up to
/// offset `end`, each slot closed by its comma.
pub open spec fn literal_slots_between(bytes: Seq<u8>, module: bool, pos: int, elements: Seq<ArrayElement>, end: int) -> bool
    decreases elements.len(),
{
    if elements.len() == 0 {
        pos == end
    } else {
        exists|next: int|
            #[trigger] literal_slot(bytes, module, pos, elements[0], next) && literal_slots_between(
                bytes,
                module,
                next,
                elements.drop_first(),
                end,
            )
    }
}

/// Whether `element`, begun at offset `pos`, fills the last slot, with no comma after it: the
/// token read after it, `after`, is no comma.
pub open spec fn last_literal_slot(bytes: Seq<u8>, module: bool, pos: int, element: ArrayElement, after: Token) -> bool {
    &&& lex_token(bytes, pos, Goal::RegExp, module) matches Ok(t) && begins_slot(t, element)
    &&& !(element is Hole)
    &&& element matches ArrayElement::Spread { followed_by_comma, .. } ==> !followed_by_comma
    &&& read_in_place(bytes, element_text_end(element), module, after)
    &&& after.kind != TokenKind::Comma
}

/// Whether `elements` are the slots of an array literal written from offset `pos`, in order
/// (§13.2.4): each comma alone in its slot is a hole, anything else the element that begins
/// there; `after` is the token read after them, which the last element, where no comma follows
/// it, ends right before.
pub open spec fn literal_slots_from(bytes: Seq<u8>, module: bool, pos: int, elements: Seq<ArrayElement>, after: Token) -> bool {
    (exists|end: int|
        #[trigger] literal_slots_between(bytes, module, pos, elements, end) && Ok::<Token, LexError>(after)
            == lex_token(bytes, end, Goal::RegExp, module) && after.kind != TokenKind::Comma && after.kind
            != TokenKind::DotDotDot)
    || exists|end: int|
        #![trigger literal_slots_between(bytes, module, pos, elements.drop_last(), end)]
        elements.len() > 0 && literal_slots_between(bytes, module, pos, elements.drop_last(), end)
            && last_literal_slot(bytes, module, end, elements.last(), after)
}

/// Whether `elements` are the slots of an array literal whose `[` ends at offset `pos`, the
/// `]` that closes it read after them.
pub open spec fn array_slots(bytes: Seq<u8>, module: bool, pos: int, elements: Seq<ArrayElement>) -> bool {
    exists|close: Token| #[trigger] literal_slots_from(bytes, module, pos, elements, close) && close.kind == TokenKind::RBracket
}

/// Slots read one after another are read together.
#[verifier::rlimit(40)]
#[verifier::spinoff_prover]
proof fn lemma_literal_slots_extend(
    bytes: Seq<u8>,
    module: bool,
    pos: int,
    elements: Seq<ArrayElement>,
    end: int,
    element: ArrayElement,
    next: int,
)
    requires
        literal_slots_between(bytes, module, pos, elements, end),
        literal_slot(bytes, module, end, element, next),
    ensures
        literal_slots_between(bytes, module, pos, elements.push(element), next),
    decreases elements.len(),
{
    if elements.len() == 0 {
        assert(elements.push(element).drop_first() =~= Seq::<ArrayElement>::empty());
        assert(literal_slots_between(bytes, module, next, Seq::<ArrayElement>::empty(), next));
        assert(literal_slot(bytes, module, pos, elements.push(element)[0], next));
    } else {
        let mid = choose|mid: int|
            #[trigger] literal_slot(bytes, module, pos, elements[0], mid) && literal_slots_between(
                bytes,
                module,
                mid,
                elements.drop_first(),
                end,
            );
        lemma_literal_slots_extend(bytes, module, mid, elements.drop_first(), end, element, next);
        assert(elements.push(element).drop_first() =~= elements.drop_first().push(element));
        assert(elements.push(element)[0] == elements[0]);
        assert(literal_slot(bytes, module, pos, elements.push(element)[0], mid));
    }
}

/// A comma alone in an array literal's slot is one hole: where the slots begin with a comma,
/// the first element is a hole and the elements after it are exactly those read from after that
/// comma — so every element keeps the index of the slot it was written in.
#[verifier::rlimit(40)]
#[verifier::spinoff_prover]
pub proof fn lemma_literal_comma_is_one_hole(
    bytes: Seq<u8>,
    module: bool,
    pos: int,
    elements: Seq<ArrayElement>,
    after: Token,
)
    requires
        literal_slots_from(bytes, module, pos, elements, after),
        lex_token(bytes, pos, Goal::RegExp, module) matches Ok(t) && t.kind == TokenKind::Comma,
    ensures
        elements.len() > 0,
        elements[0] is Hole,
        literal_slots_from(
            bytes,
            module,
            lex_token(bytes, pos, Goal::RegExp, module)->Ok_0.span.end as int,
            elements.drop_first(),
            after,
        ),
{
    let comma_end = lex_token(bytes, pos, Goal::RegExp, module)->Ok_0.span.end as int;
    if exists|end: int|
        #[trigger] literal_slots_between(bytes, module, pos, elements, end) && Ok::<Token, LexError>(after)
            == lex_token(bytes, end, Goal::RegExp, module) && after.kind != TokenKind::Comma && after.kind
            != TokenKind::DotDotDot {
        let end = choose|end: int|
            #[trigger] literal_slots_between(bytes, module, pos, elements, end) && Ok::<Token, LexError>(after)
                == lex_token(bytes, end, Goal::RegExp, module) && after.kind != TokenKind::Comma && after.kind
                != TokenKind::DotDotDot;
        if elements.len() == 0 {
            assert(end == pos);
            assert(false);
        }
        let next = choose|next: int|
            #[trigger] literal_slot(bytes, module, pos, elements[0], next) && literal_slots_between(
                bytes,
                module,
                next,
                elements.drop_first(),
                end,
            );
        assert(next == comma_end);
        assert(literal_slots_between(bytes, module, comma_end, elements.drop_first(), end));
    } else {
        let end = choose|end: int|
            #![trigger literal_slots_between(bytes, module, pos, elements.drop_last(), end)]
            elements.len() > 0 && literal_slots_between(bytes, module, pos, elements.drop_last(), end)
                && last_literal_slot(bytes, module, end, elements.last(), after);
        let front = elements.drop_last();
        if front.len() == 0 {
            assert(end == pos);
            assert(false);
        }
        let next = choose|next: int|
            #[trigger] literal_slot(bytes, module, pos, front[0], next) && literal_slots_between(
                bytes,
                module,
                next,
                front.drop_first(),
                end,
            );
        assert(front[0] == elements[0]);
        assert(next == comma_end);
        assert(front.drop_first() =~= elements.drop_first().drop_last());
        assert(elements.drop_first().last() == elements.last());
        assert(literal_slots_between(bytes, module, comma_end, elements.drop_first().drop_last(), end));
    }
}

/// A written element is no hole: where an array literal's slots begin with a token that is no
/// comma and no `]`, its first element is the value or spread written there.
#[verifier::rlimit(40)]
#[verifier::spinoff_prover]
pub proof fn lemma_literal_written_element_is_no_hole(
    bytes: Seq<u8>,
    module: bool,
    pos: int,
    elements: Seq<ArrayElement>,
)
    requires
        array_slots(bytes, module, pos, elements),
        lex_token(bytes, pos, Goal::RegExp, module) matches Ok(t) && t.kind != TokenKind::Comma && t.kind
            != TokenKind::RBracket,
    ensures
        elements.len() > 0,
        !(elements[0] is Hole),
{
    let close = choose|close: Token| #[trigger] literal_slots_from(bytes, module, pos, elements, close) && close.kind
        == TokenKind::RBracket;
    if exists|end: int|
        #[trigger] literal_slots_between(bytes, module, pos, elements, end) && Ok::<Token, LexError>(close)
            == lex_token(bytes, end, Goal::RegExp, module) && close.kind != TokenKind::Comma && close.kind
            != TokenKind::DotDotDot {
        let end = choose|end: int|
            #[trigger] literal_slots_between(bytes, module, pos, elements, end) && Ok::<Token, LexError>(close)
                == lex_token(bytes, end, Goal::RegExp, module) && close.kind != TokenKind::Comma && close.kind
                != TokenKind::DotDotDot;
        if elements.len() == 0 {
            assert(end == pos);
            assert(false);
        }
        let next = choose|next: int|
            #[trigger] literal_slot(bytes, module, pos, elements[0], next) && literal_slots_between(
                bytes,
                module,
                next,
                elements.drop_first(),
                end,
            );
    } else {
        let end = choose|end: int|
            #![trigger literal_slots_between(bytes, module, pos, elements.drop_last(), end)]
            elements.len() > 0 && literal_slots_between(bytes, module, pos, elements.drop_last(), end)
                && last_literal_slot(bytes, module, end, elements.last(), close);
        let front = elements.drop_last();
        if front.len() == 0 {
            assert(end == pos);
            assert(elements.last() == elements[0]);
        } else {
            let next = choose|next: int|
                #[trigger] literal_slot(bytes, module, pos, front[0], next) && literal_slots_between(
                    bytes,
                    module,
                    next,
                    front.drop_first(),
                    end,
                );
            assert(front[0] == elements[0]);
        }
    }
}

impl<'a> Parser<'a> {
    /// `ArrayLiteral`, with the cursor on the `[`.
    pub fn parse_array_literal(&mut self) -> (r: Result<Expr, ParseError>)
        requires
            old(self).wf(),
        ensures
            final(self).kept_from(*old(self)),
            r matches Ok(e) ==> final(self).read_since(e.span, old(self).current.span.start as int),
            r is Ok ==> final(self).moved_past(*old(self)),
            r matches Ok(e) ==> e.kind is Array && !e.parenthesized,
            final(self).open_covers == old(self).open_covers,
            old(self).too_deep_ahead() ==> (r matches Err(e) && e.kind == ParseErrorKind::TooDeeplyNested),
            r matches Ok(e) ==> (e.kind matches ExprKind::Array(elements) && array_slots(
                old(self).bytes@,
                old(self).module,
                old(self).current.span.end as int,
                elements@,
            )),
        decreases MAX_NESTING_DEPTH - old(self).depth, 24int,
    {
        if self.current.kind != TokenKind::LBracket {
            return Err(self.unexpected("`[`"));
        }
        proof {
            if self.too_deep_ahead() {
                assert(self.bytes@[self.current.span.start + 1] == 0x5bu8);
                self.lemma_next_bracket(Goal::RegExp);
            }
        }
        proof {
            self.lemma_next_read_from_current_end(Goal::RegExp);
        }
        let open = match self.advance(Goal::RegExp) {
            Ok(open) => open,
            Err(e) => return Err(e),
        };
        proof {
            if old(self).too_deep_ahead() && self.depth < MAX_NESTING_DEPTH {
                assert forall|i: int| 0 <= i < MAX_NESTING_DEPTH - (self.depth + 1) + 2 implies #[trigger] self.bytes@[
                    self.current.span.start + i] == 0x5bu8 by {
                    assert(self.bytes@[old(self).current.span.start + (i + 1)] == 0x5bu8);
                }
            }
        }
        if let Err(e) = self.enter() {
            return Err(e);
        }
        // Until something says otherwise this may become a pattern.
        let enclosing_covers = self.open_covers;
        self.open_covers = if enclosing_covers < u32::MAX {
            enclosing_covers + 1
        } else {
            enclosing_covers
        };
        let elements = self.parse_array_elements();
        let ghost after_elements = self.current;
        self.open_covers = enclosing_covers;
        self.leave();
        let elements = match elements {
            Ok(elements) => elements,
            Err(e) => return Err(e),
        };
        let close = match self.eat(TokenKind::RBracket, Goal::Div, "`]`") {
            Ok(close) => close,
            Err(e) => return Err(e),
        };
        proof {
            assert(literal_slots_from(
                old(self).bytes@,
                old(self).module,
                old(self).current.span.end as int,
                elements@,
                close,
            ));
        }
        Ok(Expr::new(ExprKind::Array(elements), open.span.to(close.span)))
    }

    /// The elements, up to but not including the `]`: one per slot, in the order written,
    /// a comma alone in its slot being a hole.
    #[verifier::rlimit(80)]
    #[verifier::spinoff_prover]
    pub fn parse_array_elements(&mut self) -> (r: Result<Vec<ArrayElement>, ParseError>)
        requires
            old(self).wf(),
        ensures
            final(self).kept_from(*old(self)),
            old(self).current.kind == TokenKind::RBracket ==> (r matches Ok(elements) && elements@.len() == 0
                && *final(self) == *old(self)),
            old(self).current.kind == TokenKind::Comma ==> (r matches Ok(elements) ==> elements@.len() > 0
                && elements@[0] is Hole),
            old(self).too_deep_ahead() ==> (r matches Err(e) && e.kind == ParseErrorKind::TooDeeplyNested),
            Ok::<Token, LexError>(old(self).current) == lex_token(
                old(self).bytes@,
                old(self).consumed_to@,
                Goal::RegExp,
                old(self).module,
            ) ==> (r matches Ok(elements) ==> literal_slots_from(
                old(self).bytes@,
                old(self).module,
                old(self).consumed_to@,
                elements@,
                final(self).current,
            )),
        decreases MAX_NESTING_DEPTH - old(self).depth, 80int,
    {
        let ghost bytes = self.bytes@;
        let ghost module = self.module;
        let ghost start = self.consumed_to@;
        let ghost aligned = Ok::<Token, LexError>(self.current) == lex_token(bytes, start, Goal::RegExp, module);
        let ghost mut slot: int = start;
        let ghost mut last_pending = false;
        let mut elements: Vec<ArrayElement> = Vec::new();
        proof {
            assert(literal_slots_between(bytes, module, start, elements@, slot));
        }
        while self.current.kind != TokenKind::RBracket
            invariant_except_break
                aligned ==> Ok::<Token, LexError>(self.current) == lex_token(bytes, slot, Goal::RegExp, module),
                aligned ==> literal_slots_between(bytes, module, start, elements@, slot),
                !last_pending,
            invariant
                self.kept_from(*old(self)),
                bytes == self.bytes@,
                module == self.module,
                old(self).current.kind == TokenKind::RBracket ==> elements@.len() == 0 && *self == *old(self),
                old(self).current.kind == TokenKind::Comma && elements@.len() == 0 ==> *self == *old(self),
                old(self).current.kind == TokenKind::Comma && elements@.len() > 0 ==> elements@[0] is Hole,
                old(self).too_deep_ahead() ==> *self == *old(self),
            ensures
                !old(self).too_deep_ahead(),
                self.kept_from(*old(self)),
                bytes == self.bytes@,
                module == self.module,
                old(self).current.kind == TokenKind::RBracket ==> elements@.len() == 0 && *self == *old(self),
                old(self).current.kind == TokenKind::Comma ==> elements@.len() > 0 && elements@[0] is Hole,
                aligned && !last_pending ==> literal_slots_between(bytes, module, start, elements@, slot)
                    && Ok::<Token, LexError>(self.current) == lex_token(bytes, slot, Goal::RegExp, module)
                    && self.current.kind == TokenKind::RBracket,
                aligned && last_pending ==> elements@.len() > 0 && literal_slots_between(
                    bytes,
                    module,
                    start,
                    elements@.drop_last(),
                    slot,
                ) && last_literal_slot(bytes, module, slot, elements@.last(), self.current),
            decreases self.remaining(),
        {
            let ghost at_slot = self.current;
            let ghost before = elements@;
            proof {
                self.lemma_next_read_from_current_end(Goal::RegExp);
            }
            if self.current.kind == TokenKind::Comma {
                elements.push(ArrayElement::Hole);
                proof {
                    if aligned {
                        lemma_literal_slots_extend(
                            bytes,
                            module,
                            start,
                            before,
                            slot,
                            ArrayElement::Hole,
                            at_slot.span.end as int,
                        );
                    }
                }
                if let Err(e) = self.advance(Goal::RegExp) {
                    return Err(e);
                }
                proof {
                    slot = at_slot.span.end as int;
                }
                continue;
            }
            let spread = self.current.kind == TokenKind::DotDotDot;
            if spread {
                if let Err(e) = self.advance(Goal::RegExp) {
                    return Err(e);
                }
            }
            let value = match self.parse_assignment(true) {
                Ok(value) => value,
                Err(e) => return Err(e),
            };
            proof {
                self.lemma_current_in_place();
            }
            let followed_by_comma = self.current.kind == TokenKind::Comma;
            let ghost separator = self.current;
            if spread {
                elements.push(ArrayElement::Spread { value, followed_by_comma });
            } else {
                elements.push(ArrayElement::Value(value));
            }
            proof {
                let element = elements@.last();
                assert(elements@ == before.push(element));
                assert(element_text_end(element) == self.consumed_to@);
                if aligned {
                    assert(begins_slot(at_slot, element));
                    if followed_by_comma {
                        let goal = choose|g: Goal| #[trigger] lex_token(bytes, self.consumed_to@, g, module) matches Ok(t)
                            && t.kind == self.current.kind && t.span == self.current.span;
                        lemma_separator_any_goal(bytes, self.consumed_to@, goal, Goal::Div, module);
                        assert(comma_at(bytes, module, element_text_end(element), separator.span.end as int));
                        assert(literal_slot(bytes, module, slot, element, separator.span.end as int));
                        lemma_literal_slots_extend(bytes, module, start, before, slot, element, separator.span.end as int);
                    } else {
                        assert(elements@.drop_last() =~= before);
                        assert(last_literal_slot(bytes, module, slot, element, self.current));
                    }
                }
                if !followed_by_comma {
                    last_pending = true;
                }
                self.lemma_next_read_from_current_end(Goal::RegExp);
            }
            if !followed_by_comma {
                break;
            }
            if let Err(e) = self.advance(Goal::RegExp) {
                return Err(e);
            }
            proof {
                slot = separator.span.end as int;
            }
        }
        proof {
            if aligned && !last_pending {
                assert(literal_slots_from(bytes, module, start, elements@, self.current));
            }
        }
        Ok(elements)
    }
}

} // verus!
