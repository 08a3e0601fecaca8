//! Declarations, labels and jumps, checked as the statements that make them are read.
//!
//! The early errors of §14.2.1, §14.7, §14.8.1, §14.9.1, §14.13.1, §15.2.1 and §16.1.1 are
//! stated over whole statement lists, but each compares a name with names declared around it
//! and so can be asked as soon as the name is read, given what is open at that point:
//!
//! - the lexical declarations of every enclosing block, innermost last, and where the innermost
//!   block's begin — a `let` repeats a name only against its own block;
//! - the `var` declarations since the enclosing function began, and where those of the innermost
//!   block begin — a `var` hoists out of every block to the function, and conflicts with a
//!   lexical declaration in any of them;
//! - the labels of the enclosing statements, and whether each labels a loop;
//! - whether a loop, or a loop or a `switch`, encloses the current statement.
//!
//! A function body starts all of this afresh, which is where the rules stop looking.

use vstd::prelude::*;
use super::names::{holds_name, position_of, DeclaredName};
use super::{ParseError, ParseErrorKind, Parser};
use crate::ast::{Binding, DeclarationKind};
use crate::span::Span;
use crate::lexer::value::utf16_units;
use vstd::std_specs::iter::IteratorSpec;
use crate::text::same_text;

verus! {

/// What is open around the statement being read, since the enclosing function began.
pub struct ScopeState {
    /// The lexical declarations of the enclosing blocks, innermost last.
    pub lexical: Vec<DeclaredName>,
    /// Where the innermost block's lexical declarations begin.
    pub lexical_start: usize,
    /// The `var` declarations read since the function began, nested blocks included.
    pub vars: Vec<DeclaredName>,
    /// Where the innermost block's `var` declarations begin.
    pub vars_start: usize,
    /// The labels of the enclosing statements, outermost first.
    pub labels: Vec<DeclaredName>,
    /// Whether each of those labels is on a loop.
    pub label_loops: Vec<bool>,
    /// How many of the innermost labels label the statement about to be read.
    pub label_run: usize,
    /// Whether a loop encloses the current statement.
    pub in_iteration: bool,
    /// Whether a loop or a `switch` encloses the current statement.
    pub in_breakable: bool,
    /// Whether a function declared here is a `var` of the function: true at the top level of a
    /// script or a function body, false in a block and at the top level of a module.
    pub functions_are_vars: bool,
    /// The first misuse of a label or a jump read since the function began. It is reported
    /// when the function body ends, so that an error in the text that follows, read first by
    /// a reader who reads the whole, is not hidden by it.
    pub jump_error: Option<ParseError>,
}

impl ScopeState {
    /// That this holds every declaration `before` held, in the same blocks: names have only
    /// been added, to the innermost block and to the function.
    pub open spec fn declarations_grew_from(&self, before: ScopeState) -> bool {
        &&& before.lexical@.len() <= self.lexical@.len()
        &&& forall|i: int| 0 <= i < before.lexical@.len() ==> #[trigger] self.lexical@[i] == before.lexical@[i]
        &&& self.lexical_start == before.lexical_start
        &&& before.vars@.len() <= self.vars@.len()
        &&& forall|i: int| 0 <= i < before.vars@.len() ==> #[trigger] self.vars@[i] == before.vars@[i]
        &&& self.vars_start == before.vars_start
        &&& self.functions_are_vars == before.functions_are_vars
    }
}

impl ScopeState {
    /// Whether `name` is declared here: lexically in the innermost block, or with `var` in the
    /// enclosing function.
    pub open spec fn declares(&self, name: Seq<char>, lexical: bool) -> bool {
        if lexical {
            holds_name(self.lexical@, self.lexical_start as int, name)
        } else {
            holds_name(self.vars@, 0, name)
        }
    }

    /// Whether every name of `names` is declared here, the same way.
    pub open spec fn declares_all(&self, names: Seq<DeclaredName>, lexical: bool) -> bool {
        forall|k: int| 0 <= k < names.len() ==> self.declares(#[trigger] names[k].0@, lexical)
    }
}

/// What a scope declares stays declared while declarations are only added to it.
pub proof fn lemma_declarations_stay(before: ScopeState, after: ScopeState, names: Seq<DeclaredName>, lexical: bool)
    requires
        after.declarations_grew_from(before),
        before.declares_all(names, lexical),
    ensures
        after.declares_all(names, lexical),
{
    assert forall|k: int| 0 <= k < names.len() implies after.declares(#[trigger] names[k].0@, lexical) by {
        assert(before.declares(names[k].0@, lexical));
        if lexical {
            let j = choose|j: int|
                before.lexical_start <= j < before.lexical@.len() && (#[trigger] before.lexical@[j]).0@
                    == names[k].0@;
            assert(after.lexical@[j] == before.lexical@[j]);
        } else {
            let j = choose|j: int| 0 <= j < before.vars@.len() && (#[trigger] before.vars@[j]).0@ == names[k].0@;
            assert(after.vars@[j] == before.vars@[j]);
        }
    }
}

/// Whether `after` is `before` with `added` appended, each name the same text at the same
/// place.
pub open spec fn appended(after: Seq<DeclaredName>, before: Seq<DeclaredName>, added: Seq<DeclaredName>) -> bool {
    &&& after.len() == before.len() + added.len()
    &&& forall|i: int| 0 <= i < before.len() ==> #[trigger] after[i] == before[i]
    &&& forall|i: int|
        0 <= i < added.len() ==> (#[trigger] after[before.len() + i]).0@ == added[i].0@ && after[before.len()
            + i].1 == added[i].1
}

/// Whether `names` can be declared one after another in `scope` without a conflict: lexically,
/// none may repeat a lexical declaration of the innermost block, a `var` declared within it, or
/// an earlier name of the list; with `var`, none may repeat a lexical declaration of any block
/// open.
pub open spec fn clash_free(scope: ScopeState, names: Seq<DeclaredName>, lexical: bool) -> bool {
    forall|k: int| 0 <= k < names.len() ==> #[trigger] clash_free_at(scope, names, k, lexical)
}

/// Whether the `k`th of `names` can be declared in `scope` after those before it.
pub open spec fn clash_free_at(scope: ScopeState, names: Seq<DeclaredName>, k: int, lexical: bool) -> bool {
    if lexical {
        &&& !holds_name(scope.lexical@, scope.lexical_start as int, names[k].0@)
        &&& !holds_name(scope.vars@, scope.vars_start as int, names[k].0@)
        &&& !holds_name(names.take(k), 0, names[k].0@)
    } else {
        !holds_name(scope.lexical@, 0, names[k].0@)
    }
}

/// A name is in a list with names appended to it exactly when it is in the list or among what
/// was appended.
proof fn lemma_appended_holds(
    after: Seq<DeclaredName>,
    before: Seq<DeclaredName>,
    added: Seq<DeclaredName>,
    from: int,
    name: Seq<char>,
)
    requires
        appended(after, before, added),
        0 <= from <= before.len(),
    ensures
        holds_name(after, from, name) <==> holds_name(before, from, name) || holds_name(added, 0, name),
{
    if holds_name(after, from, name) {
        let j = choose|j: int| from <= j < after.len() && (#[trigger] after[j]).0@ == name;
        if j < before.len() {
            assert(after[j] == before[j]);
        } else {
            assert(after[before.len() + (j - before.len())] == after[j]);
            assert(added[j - before.len()].0@ == name);
        }
    }
    if holds_name(before, from, name) {
        let j = choose|j: int| from <= j < before.len() && (#[trigger] before[j]).0@ == name;
        assert(after[j] == before[j]);
    }
    if holds_name(added, 0, name) {
        let j = choose|j: int| 0 <= j < added.len() && (#[trigger] added[j]).0@ == name;
        assert(after[before.len() + j].0@ == added[j].0@);
    }
}

/// Names declared one list after another are declared together.
pub proof fn lemma_declares_both(scope: ScopeState, first: Seq<DeclaredName>, second: Seq<DeclaredName>, lexical: bool)
    requires
        scope.declares_all(first, lexical),
        scope.declares_all(second, lexical),
    ensures
        scope.declares_all(first + second, lexical),
{
    assert forall|k: int| 0 <= k < (first + second).len() implies scope.declares(
        #[trigger] (first + second)[k].0@,
        lexical,
    ) by {
        if k < first.len() {
            assert((first + second)[k] == first[k]);
        } else {
            assert((first + second)[k] == second[k - first.len()]);
        }
    }
}

/// Where the enclosing block's declarations began, to be restored when an inner one closes.
pub struct ScopeMark {
    pub lexical_start: usize,
    pub vars_start: usize,
    pub functions_are_vars: bool,
}

impl ScopeState {
    /// Nothing open: the start of a script, a module or a function body.
    pub fn new() -> (s: ScopeState)
        ensures
            s.lexical@.len() == 0,
            s.vars@.len() == 0,
            s.lexical_start == 0,
            s.vars_start == 0,
            s.labels@.len() == 0,
            s.label_loops@.len() == 0,
            !s.in_iteration,
            !s.in_breakable,
            s.functions_are_vars,
            s.jump_error is None,
    {
        ScopeState {
            lexical: Vec::new(),
            lexical_start: 0,
            vars: Vec::new(),
            vars_start: 0,
            labels: Vec::new(),
            label_loops: Vec::new(),
            label_run: 0,
            in_iteration: false,
            in_breakable: false,
            functions_are_vars: true,
            jump_error: None,
        }
    }
}

/// The error for a jump with nowhere to go.
pub fn jump_error(kind: ParseErrorKind, span: Span) -> (e: ParseError)
    ensures
        e.kind == kind && e.span == span,
{
    ParseError { kind, span }
}

impl<'a> Parser<'a> {
    /// Open a block: its lexical declarations begin here, and so do its `var` declarations.
    pub fn open_scope(&mut self) -> (mark: ScopeMark)
        requires
            old(self).wf(),
        ensures
            final(self).advanced_from(*old(self)),
            final(self).exported == old(self).exported,
            final(self).scope.labels == old(self).scope.labels,
            final(self).current == old(self).current,
            final(self).consumed_to == old(self).consumed_to,
            final(self).strict == old(self).strict,
            final(self).open_covers == old(self).open_covers,
            final(self).scope.lexical == old(self).scope.lexical,
            final(self).scope.vars == old(self).scope.vars,
            final(self).scope.lexical_start == old(self).scope.lexical@.len(),
            final(self).scope.vars_start == old(self).scope.vars@.len(),
            mark.lexical_start == old(self).scope.lexical_start,
            mark.vars_start == old(self).scope.vars_start,
            mark.functions_are_vars == old(self).scope.functions_are_vars,
    {
        let mark = ScopeMark {
            lexical_start: self.scope.lexical_start,
            vars_start: self.scope.vars_start,
            functions_are_vars: self.scope.functions_are_vars,
        };
        self.scope.lexical_start = self.scope.lexical.len();
        self.scope.vars_start = self.scope.vars.len();
        self.scope.functions_are_vars = false;
        mark
    }

    /// Close the innermost block. Its lexical declarations go out of scope; its `var`
    /// declarations stay, since they belong to the function.
    pub fn close_scope(&mut self, mark: ScopeMark)
        requires
            old(self).wf(),
            mark.lexical_start <= old(self).scope.lexical_start,
            mark.vars_start <= old(self).scope.vars_start,
        ensures
            final(self).advanced_from(*old(self)),
            final(self).exported == old(self).exported,
            final(self).scope.labels == old(self).scope.labels,
            final(self).current == old(self).current,
            final(self).consumed_to == old(self).consumed_to,
            final(self).strict == old(self).strict,
            final(self).open_covers == old(self).open_covers,
            old(self).scope.lexical_start <= old(self).scope.lexical@.len() ==> final(self).scope.lexical@
                == old(self).scope.lexical@.subrange(0, old(self).scope.lexical_start as int),
            final(self).scope.vars == old(self).scope.vars,
            final(self).scope.lexical_start == mark.lexical_start,
            final(self).scope.vars_start == mark.vars_start,
            final(self).scope.functions_are_vars == mark.functions_are_vars,
    {
        let start = self.scope.lexical_start;
        self.scope.lexical.truncate(start);
        self.scope.lexical_start = mark.lexical_start;
        self.scope.vars_start = mark.vars_start;
        self.scope.functions_are_vars = mark.functions_are_vars;
    }

    /// Declare `name` lexically in the innermost block: it may not repeat another lexical
    /// declaration of that block, nor a `var` declared within it.
    pub fn declare_lexical(&mut self, name: &str, span: Span) -> (r: Result<(), ParseError>)
        requires
            old(self).wf(),
        ensures
            final(self).kept_from(*old(self)),
            final(self).current == old(self).current,
            final(self).consumed_to == old(self).consumed_to,
            final(self).strict == old(self).strict,
            final(self).open_covers == old(self).open_covers,
            r is Err <==> holds_name(old(self).scope.lexical@, old(self).scope.lexical_start as int, name@)
                || holds_name(old(self).scope.vars@, old(self).scope.vars_start as int, name@),
            r is Ok ==> final(self).scope.lexical@.len() == old(self).scope.lexical@.len() + 1
                && final(self).scope.lexical@.drop_last() == old(self).scope.lexical@
                && final(self).scope.lexical@.last().0@ == name@ && final(self).scope.lexical@.last().1
                == span,
            final(self).scope.vars == old(self).scope.vars,
            final(self).scope.lexical_start == old(self).scope.lexical_start,
            final(self).scope.vars_start == old(self).scope.vars_start,
            r matches Err(e) ==> e.span == span,
            r matches Err(e) ==> e.kind == (if holds_name(
                old(self).scope.lexical@,
                old(self).scope.lexical_start as int,
                name@,
            ) {
                ParseErrorKind::DuplicateLexicalBinding
            } else {
                ParseErrorKind::ConflictingVarAndLexicalDeclaration
            }),
    {
        let start = self.scope.lexical_start;
        if position_of(&self.scope.lexical, start, name).is_some() {
            return Err(ParseError { kind: ParseErrorKind::DuplicateLexicalBinding, span });
        }
        let vars_start = self.scope.vars_start;
        if position_of(&self.scope.vars, vars_start, name).is_some() {
            return Err(ParseError { kind: ParseErrorKind::ConflictingVarAndLexicalDeclaration, span });
        }
        self.scope.lexical.push((name.to_owned(), span));
        Ok(())
    }

    /// Declare `name` with `var`: it hoists through every enclosing block, so it may not repeat
    /// a lexical declaration of any of them.
    pub fn declare_var(&mut self, name: &str, span: Span) -> (r: Result<(), ParseError>)
        requires
            old(self).wf(),
        ensures
            final(self).kept_from(*old(self)),
            final(self).current == old(self).current,
            final(self).consumed_to == old(self).consumed_to,
            final(self).strict == old(self).strict,
            final(self).open_covers == old(self).open_covers,
            r is Err <==> holds_name(old(self).scope.lexical@, 0, name@),
            r matches Err(e) ==> e.kind == ParseErrorKind::ConflictingVarAndLexicalDeclaration
                && e.span == span,
            r is Ok ==> final(self).scope.vars@.len() == old(self).scope.vars@.len() + 1
                && final(self).scope.vars@.drop_last() == old(self).scope.vars@
                && final(self).scope.vars@.last().0@ == name@ && final(self).scope.vars@.last().1 == span,
            final(self).scope.lexical == old(self).scope.lexical,
            final(self).scope.lexical_start == old(self).scope.lexical_start,
            final(self).scope.vars_start == old(self).scope.vars_start,
    {
        if position_of(&self.scope.lexical, 0, name).is_some() {
            return Err(ParseError { kind: ParseErrorKind::ConflictingVarAndLexicalDeclaration, span });
        }
        self.scope.vars.push((name.to_owned(), span));
        Ok(())
    }

    /// Declare every name in `names`, lexically or with `var`.
    pub fn declare_names(&mut self, names: &Vec<DeclaredName>, lexical: bool) -> (r: Result<
        (),
        ParseError,
    >)
        requires
            old(self).wf(),
        ensures
            final(self).kept_from(*old(self)),
            final(self).current == old(self).current,
            final(self).consumed_to == old(self).consumed_to,
            final(self).strict == old(self).strict,
            final(self).open_covers == old(self).open_covers,
            r is Ok ==> final(self).scope.declares_all(names@, lexical),
            r is Ok <==> clash_free(old(self).scope, names@, lexical),
            r is Ok && lexical ==> appended(final(self).scope.lexical@, old(self).scope.lexical@, names@)
                && final(self).scope.vars == old(self).scope.vars,
            r is Ok && !lexical ==> appended(final(self).scope.vars@, old(self).scope.vars@, names@)
                && final(self).scope.lexical == old(self).scope.lexical,
    {
        let mut k: usize = 0;
        proof {
            assert(appended(self.scope.lexical@, old(self).scope.lexical@, names@.take(0)));
            assert(appended(self.scope.vars@, old(self).scope.vars@, names@.take(0)));
        }
        while k < names.len()
            invariant
                self.kept_from(*old(self)),
                self.current == old(self).current,
                self.consumed_to == old(self).consumed_to,
                self.strict == old(self).strict,
                self.open_covers == old(self).open_covers,
                k <= names@.len(),
                old(self).wf(),
                self.scope.declares_all(names@.take(k as int), lexical),
                clash_free(old(self).scope, names@.take(k as int), lexical),
                lexical ==> appended(self.scope.lexical@, old(self).scope.lexical@, names@.take(k as int))
                    && self.scope.vars == old(self).scope.vars,
                !lexical ==> appended(self.scope.vars@, old(self).scope.vars@, names@.take(k as int))
                    && self.scope.lexical == old(self).scope.lexical,
                self.scope.lexical_start == old(self).scope.lexical_start,
                self.scope.vars_start == old(self).scope.vars_start,
            decreases names.len() - k,
        {
            let ghost before = self.scope;
            let ghost name = names@[k as int];
            proof {
                if lexical {
                    lemma_appended_holds(
                        before.lexical@,
                        old(self).scope.lexical@,
                        names@.take(k as int),
                        before.lexical_start as int,
                        name.0@,
                    );
                }
            }
            let declared = if lexical {
                self.declare_lexical(names[k].0.as_str(), names[k].1)
            } else {
                self.declare_var(names[k].0.as_str(), names[k].1)
            };
            if let Err(e) = declared {
                proof {
                    assert(names@[k as int] == name);
                    if lexical {
                        assert(!(!holds_name(old(self).scope.lexical@, old(self).scope.lexical_start as int, name.0@)
                            && !holds_name(old(self).scope.vars@, old(self).scope.vars_start as int, name.0@)
                            && !holds_name(names@.take(k as int), 0, name.0@)));
                    }
                    assert(!clash_free_at(old(self).scope, names@, k as int, lexical));
                    assert(!clash_free(old(self).scope, names@, lexical));
                }
                return Err(e);
            }
            proof {
                assert(names@.take(k + 1).take(k as int) =~= names@.take(k as int));
                assert(names@.take(k + 1)[k as int] == name);
                assert forall|j: int| 0 <= j < k + 1 implies #[trigger] names@.take(k + 1)[j] == names@[j] by {}
                if lexical {
                    let after = self.scope.lexical@;
                    assert(after.drop_last() == before.lexical@);
                    assert forall|i: int| 0 <= i < old(self).scope.lexical@.len() implies #[trigger] after[i]
                        == old(self).scope.lexical@[i] by {
                        assert(after[i] == after.drop_last()[i]);
                    }
                    assert forall|i: int| 0 <= i < k + 1 implies (#[trigger] after[old(self).scope.lexical@.len()
                        + i]).0@ == names@.take(k + 1)[i].0@ && after[old(self).scope.lexical@.len() + i].1
                        == names@.take(k + 1)[i].1 by {
                        if i < k {
                            assert(after[old(self).scope.lexical@.len() + i] == after.drop_last()[old(
                                self,
                            ).scope.lexical@.len() + i]);
                        } else {
                            assert(after[old(self).scope.lexical@.len() + i] == after.last());
                        }
                    }
                } else {
                    let after = self.scope.vars@;
                    assert(after.drop_last() == before.vars@);
                    assert forall|i: int| 0 <= i < old(self).scope.vars@.len() implies #[trigger] after[i]
                        == old(self).scope.vars@[i] by {
                        assert(after[i] == after.drop_last()[i]);
                    }
                    assert forall|i: int| 0 <= i < k + 1 implies (#[trigger] after[old(self).scope.vars@.len()
                        + i]).0@ == names@.take(k + 1)[i].0@ && after[old(self).scope.vars@.len() + i].1
                        == names@.take(k + 1)[i].1 by {
                        if i < k {
                            assert(after[old(self).scope.vars@.len() + i] == after.drop_last()[old(
                                self,
                            ).scope.vars@.len() + i]);
                        } else {
                            assert(after[old(self).scope.vars@.len() + i] == after.last());
                        }
                    }
                }
                assert forall|j: int| 0 <= j < k + 1 implies #[trigger] clash_free_at(
                    old(self).scope,
                    names@.take(k + 1),
                    j,
                    lexical,
                ) by {
                    if j < k {
                        assert(names@.take(k + 1).take(j) =~= names@.take(k as int).take(j));
                        assert(clash_free_at(old(self).scope, names@.take(k as int), j, lexical));
                    } else {
                        assert(names@.take(k + 1).take(j) =~= names@.take(k as int));
                    }
                }
            }
            proof {
                lemma_declarations_stay(before, self.scope, names@.take(k as int), lexical);
                let last = self.scope;
                if lexical {
                    assert(last.lexical@[last.lexical@.len() - 1] == last.lexical@.last());
                } else {
                    assert(last.vars@[last.vars@.len() - 1] == last.vars@.last());
                }
                assert forall|j: int| 0 <= j < k + 1 implies last.declares(
                    #[trigger] names@.take(k + 1)[j].0@,
                    lexical,
                ) by {
                    if j < k {
                        assert(names@.take(k + 1)[j] == names@.take(k as int)[j]);
                    }
                }
            }
            k = k + 1;
        }
        proof {
            assert(names@.take(names@.len() as int) =~= names@);
        }
        Ok(())
    }

    /// A name that the innermost block declares lexically, if one of `names` is.
    pub fn redeclared_in_block(&self, names: &Vec<DeclaredName>) -> (r: Option<Span>)
        ensures
            r is None <==> forall|k: int|
                self.scope.lexical_start <= k < self.scope.lexical@.len() ==> !holds_name(
                    names@,
                    0,
                    (#[trigger] self.scope.lexical@[k]).0@,
                ),
            r matches Some(span) ==> exists|k: int|
                self.scope.lexical_start <= k < self.scope.lexical@.len() && holds_name(
                    names@,
                    0,
                    (#[trigger] self.scope.lexical@[k]).0@,
                ) && self.scope.lexical@[k].1 == span,
    {
        let start = self.scope.lexical_start;
        let mut k: usize = start;
        while k < self.scope.lexical.len()
            invariant
                start == self.scope.lexical_start,
                start <= k,
                forall|j: int|
                    start <= j < k && j < self.scope.lexical@.len() ==> !holds_name(
                        names@,
                        0,
                        (#[trigger] self.scope.lexical@[j]).0@,
                    ),
            decreases self.scope.lexical.len() - k,
        {
            if position_of(names, 0, self.scope.lexical[k].0.as_str()).is_some() {
                return Some(self.scope.lexical[k].1);
            }
            k = k + 1;
        }
        None
    }

    /// Where `name` labels an enclosing statement, if it does.
    pub fn label_index(&self, name: &str) -> (r: Option<usize>)
        ensures
            r matches Some(k) ==> k < self.scope.labels@.len() && self.scope.labels@[k as int].0@
                == name@,
            r is None <==> !holds_name(self.scope.labels@, 0, name@),
            r matches Some(k) ==> forall|j: int| 0 <= j < k ==> (#[trigger] self.scope.labels@[j]).0@ != name@,
    {
        position_of(&self.scope.labels, 0, name)
    }

    /// Remember the first misuse of a label or a jump, to be reported when the function ends.
    pub fn note_jump_error(&mut self, error: ParseError)
        requires
            old(self).wf(),
        ensures
            final(self).kept_from(*old(self)),
            final(self).current == old(self).current,
            final(self).consumed_to == old(self).consumed_to,
            final(self).strict == old(self).strict,
            final(self).open_covers == old(self).open_covers,
            final(self).scope.jump_error is Some,
            final(self).scope.labels == old(self).scope.labels,
            old(self).scope.jump_error is Some ==> final(self).scope.jump_error == old(self).scope.jump_error,
    {
        if self.scope.jump_error.is_none() {
            self.scope.jump_error = Some(error);
        }
    }

    /// Open a label around the statement about to be read. §14.13.1: a label may not repeat
    /// one that encloses it.
    pub fn push_label(&mut self, name: &str, span: Span)
        requires
            old(self).wf(),
        ensures
            final(self).advanced_from(*old(self)),
            final(self).exported == old(self).exported,
            final(self).scope.declarations_grew_from(old(self).scope),
            final(self).current == old(self).current,
            final(self).consumed_to == old(self).consumed_to,
            final(self).strict == old(self).strict,
            final(self).open_covers == old(self).open_covers,
            final(self).scope.labels@.len() == old(self).scope.labels@.len() + 1,
            final(self).scope.labels@.drop_last() == old(self).scope.labels@,
    {
        if self.label_index(name).is_some() {
            self.note_jump_error(ParseError { kind: ParseErrorKind::DuplicateLabel, span });
        }
        self.scope.labels.push((name.to_owned(), span));
        self.scope.label_loops.push(false);
    }

    /// Close the innermost label.
    pub fn pop_label(&mut self)
        requires
            old(self).wf(),
        ensures
            old(self).scope.labels@.len() > 0 ==> final(self).scope.labels@ == old(self).scope.labels@.drop_last(),
            final(self).advanced_from(*old(self)),
            final(self).exported == old(self).exported,
            final(self).scope.declarations_grew_from(old(self).scope),
            final(self).current == old(self).current,
            final(self).consumed_to == old(self).consumed_to,
            final(self).strict == old(self).strict,
            final(self).open_covers == old(self).open_covers,
    {
        self.scope.labels.pop();
        self.scope.label_loops.pop();
    }

    /// The statement about to be read is a loop: the labels directly on it are loop labels,
    /// which `continue` may name.
    pub fn mark_loop_labels(&mut self, run: usize)
        requires
            old(self).wf(),
        ensures
            final(self).kept_from(*old(self)),
            final(self).current == old(self).current,
            final(self).consumed_to == old(self).consumed_to,
            final(self).strict == old(self).strict,
            final(self).open_covers == old(self).open_covers,
            final(self).scope == (ScopeState {
                label_loops: final(self).scope.label_loops,
                ..old(self).scope
            }),
            final(self).scope.label_loops@.len() == old(self).scope.label_loops@.len(),
            forall|j: int|
                0 <= j < old(self).scope.label_loops@.len() ==> #[trigger] final(self).scope.label_loops@[j] == (
                old(self).scope.label_loops@[j] || j >= old(self).scope.label_loops@.len() - run),
    {
        let count = self.scope.label_loops.len();
        let mut k: usize = if run < count {
            count - run
        } else {
            0
        };
        while k < self.scope.label_loops.len()
            invariant
                self.kept_from(*old(self)),
                self.current == old(self).current,
                self.consumed_to == old(self).consumed_to,
                self.strict == old(self).strict,
                self.open_covers == old(self).open_covers,
                self.scope == (ScopeState { label_loops: self.scope.label_loops, ..old(self).scope }),
                self.scope.label_loops@.len() == count,
                count == old(self).scope.label_loops@.len(),
                (if run < count { count - run } else { 0 }) <= k <= count,
                forall|j: int|
                    0 <= j < count ==> #[trigger] self.scope.label_loops@[j] == (old(self).scope.label_loops@[j]
                        || (j >= count - run && j < k)),
            decreases self.scope.label_loops.len() - k,
        {
            self.scope.label_loops.set(k, true);
            k = k + 1;
        }
    }

    /// §14.8.1 and §14.9.1: what a `break` or `continue`, with its label if it has one, may
    /// jump to.
    pub fn check_jump(&self, is_break: bool, keyword: Span, label: Option<(&str, Span)>) -> (r: Result<
        (),
        ParseError,
    >)
        ensures
            label is None && is_break ==> (r is Ok <==> self.scope.in_breakable),
            !is_break ==> (!self.scope.in_iteration ==> r is Err),
    {
        if !is_break && !self.scope.in_iteration {
            return Err(jump_error(ParseErrorKind::ContinueOutsideLoop, keyword));
        }
        match label {
            None => {
                if is_break && !self.scope.in_breakable {
                    return Err(jump_error(ParseErrorKind::BreakOutsideLoop, keyword));
                }
                Ok(())
            },
            Some((name, span)) => match self.label_index(name) {
                None => Err(
                    jump_error(
                        if is_break {
                            ParseErrorKind::UndefinedBreakTarget
                        } else {
                            ParseErrorKind::UndefinedContinueTarget
                        },
                        span,
                    ),
                ),
                Some(k) => {
                    if !is_break && (k >= self.scope.label_loops.len() || !self.scope.label_loops[k]) {
                        return Err(jump_error(ParseErrorKind::UndefinedContinueTarget, span));
                    }
                    Ok(())
                },
            },
        }
    }

    /// Whether `name` is declared at the top level of the module, by `var`, by a lexical
    /// declaration or by an import.
    pub fn declared_at_top(&self, name: &str) -> (r: bool)
        ensures
            r == (holds_name(self.scope.lexical@, 0, name@) || holds_name(self.scope.vars@, 0, name@)),
    {
        position_of(&self.scope.lexical, 0, name).is_some() || position_of(&self.scope.vars, 0, name).is_some()
    }
}

/// A `var` and a lexical declaration of one name in one block conflict whichever is read first.
///
/// After a lexical declaration of `name` (its entry now last among the lexical names open), a
/// `var` of the same name finds it, wherever the block stands: [`Parser::declare_var`] refuses.
/// After a `var` of `name` (its entry now last among the `var` names, at or after where the
/// block's began), a lexical declaration of the same name finds it:
/// [`Parser::declare_lexical`] refuses.
pub proof fn lemma_var_and_lexical_conflict_either_way(
    lexical: Seq<DeclaredName>,
    vars: Seq<DeclaredName>,
    vars_start: int,
    entry: DeclaredName,
    name: Seq<char>,
)
    requires
        0 <= vars_start <= vars.len(),
        entry.0@ == name,
    ensures
        holds_name(lexical.push(entry), 0, name),
        holds_name(vars.push(entry), vars_start, name),
{
    assert(lexical.push(entry)[lexical.len() as int] == entry);
    assert(vars.push(entry)[vars.len() as int] == entry);
}

/// A lexical declaration is seen only in its own block: once the block closes, a later lexical
/// declaration of the same name in the block around it is refused only if that block's own
/// names or `var`s hold it — not for what the closed block declared.
pub proof fn lemma_closed_block_is_forgotten(
    lexical: Seq<DeclaredName>,
    outer_start: int,
    inner_start: int,
    name: Seq<char>,
)
    requires
        0 <= outer_start <= inner_start <= lexical.len(),
    ensures
        holds_name(lexical.subrange(0, inner_start), outer_start, name) <==> exists|k: int|
            outer_start <= k < inner_start && (#[trigger] lexical[k]).0@ == name,
{
    if holds_name(lexical.subrange(0, inner_start), outer_start, name) {
        let k = choose|k: int|
            outer_start <= k < inner_start && (#[trigger] lexical.subrange(0, inner_start)[k]).0@ == name;
        assert(lexical[k] == lexical.subrange(0, inner_start)[k]);
    }
    if exists|k: int| outer_start <= k < inner_start && (#[trigger] lexical[k]).0@ == name {
        let k = choose|k: int| outer_start <= k < inner_start && (#[trigger] lexical[k]).0@ == name;
        assert(lexical.subrange(0, inner_start)[k] == lexical[k]);
    }
}

/// Whether two UTF-16 strings are the same.
pub fn same_units(a: &Vec<u16>, b: &Vec<u16>) -> (r: bool)
    ensures
        r == (a@ == b@),
{
    if a.len() != b.len() {
        return false;
    }
    let mut k: usize = 0;
    while k < a.len()
        invariant
            a@.len() == b@.len(),
            k <= a@.len(),
            forall|j: int| 0 <= j < k ==> a@[j] == b@[j],
        decreases a.len() - k,
    {
        if a[k] != b[k] {
            return false;
        }
        k = k + 1;
    }
    proof {
        assert(a@ =~= b@);
    }
    true
}

/// `name` as UTF-16, which is how an exported name is compared with a string one.
pub fn utf16_of(name: &str) -> (r: Vec<u16>)
    ensures
        r@ == utf16_units(name@),
{
    broadcast use vstd::string::axiom_spec_iter, vstd::string::next_postcondition;
    let mut units: Vec<u16> = Vec::new();
    let mut chars = name.chars();
    let ghost mut done: Seq<char> = Seq::empty();
    loop
        invariant
            done + chars.remaining() == name@,
            units@ == utf16_units(done),
            chars.decrease() is Some,
        ensures
            done == name@,
            units@ == utf16_units(done),
        decreases chars.decrease()->0,
    {
        match chars.next() {
            Some(c) => {
                proof {
                    assert((done + seq![c]).drop_last() =~= done);
                    assert(done + seq![c] + chars.remaining() =~= name@);
                    done = done + seq![c];
                }
                proof {
                    vstd::utf8::char_is_scalar(c);
                }
                crate::lexer::value::push_utf16(&mut units, c as u32);
            },
            None => {
                proof {
                    assert(done =~= name@);
                }
                break;
            },
        }
    }
    units
}

} // verus!
