//! `var`, `let` and `const` (§14.3).
//!
//! `let` is not a reserved word, so `let = 1` and `let.a = 2` are assignments while `let x = 1`
//! is a declaration, and only the token after `let` decides — unescaped, since `LetOrConst :
//! let` is a terminal. The names a declaration binds are declared as it is read.

use vstd::prelude::*;
use super::names::{binding_names, declarator_names, holds_name, position_of, push_bound_names, statement_names, DeclaredName};
use super::scope::{lemma_declarations_stay, lemma_declares_both};
use super::{lexical_error, ParseError, ParseErrorKind, Parser, MAX_NESTING_DEPTH};
use crate::ast::{Binding, Declaration, DeclarationKind, Declarator, Stmt, StmtKind};
use crate::lexer::{blank_from, Goal, ReservedWord, TokenKind};
use crate::span::Span;

verus! {

/// Whether `declarator` has the initialiser it owes: a pattern always does, and so does every
/// binding of a `const`.
pub open spec fn initialized_if_owed(kind: DeclarationKind, declarator: Declarator) -> bool {
    declarator.initializer is Some || (declarator.binding is Identifier && kind != DeclarationKind::Const)
}

/// §14.3.1.1 and §14.3.3: outside a `for`-`in` or `for`-`of` head, a `const` binding and a
/// pattern must each have an initialiser.
pub fn check_declaration_initializers(declaration: &Declaration) -> (r: Result<(), ParseError>)
    ensures
        r matches Err(e) ==> e.kind == ParseErrorKind::ConstWithoutInitializer || e.kind
            == ParseErrorKind::PatternWithoutInitializer,
        r is Ok <==> forall|k: int|
            0 <= k < declaration.declarators@.len() ==> initialized_if_owed(
                declaration.kind,
                #[trigger] declaration.declarators@[k],
            ),
        r matches Err(e) ==> exists|k: int|
            0 <= k < declaration.declarators@.len() && !initialized_if_owed(
                declaration.kind,
                #[trigger] declaration.declarators@[k],
            ) && e.span == declaration.declarators@[k].binding.spec_span() && e.kind == (if declaration.declarators@[k].binding is Pattern {
                ParseErrorKind::PatternWithoutInitializer
            } else {
                ParseErrorKind::ConstWithoutInitializer
            }),
{
    let mut k: usize = 0;
    while k < declaration.declarators.len()
        invariant
            k <= declaration.declarators@.len(),
            forall|j: int|
                0 <= j < k ==> initialized_if_owed(declaration.kind, #[trigger] declaration.declarators@[j]),
        decreases declaration.declarators.len() - k,
    {
        let declarator = &declaration.declarators[k];
        if declarator.initializer.is_none() {
            if let Binding::Pattern(_) = &declarator.binding {
                return Err(
                    ParseError { kind: ParseErrorKind::PatternWithoutInitializer, span: declarator.binding.span() },
                );
            }
            if declaration.kind == DeclarationKind::Const {
                return Err(
                    ParseError { kind: ParseErrorKind::ConstWithoutInitializer, span: declarator.binding.span() },
                );
            }
        }
        k = k + 1;
    }
    Ok(())
}

/// Which names the first `n` declarators bind depends on those declarators alone.
proof fn lemma_declarator_names_prefix(longer: Seq<Declarator>, shorter: Seq<Declarator>, n: int)
    requires
        0 <= n <= shorter.len() <= longer.len(),
        forall|k: int| 0 <= k < n ==> longer[k] == shorter[k],
    ensures
        declarator_names(longer, n) == declarator_names(shorter, n),
    decreases n,
{
    if n > 0 {
        lemma_declarator_names_prefix(longer, shorter, n - 1);
    }
}

/// §14.3.1.1: a lexical declaration may not bind `let`, however it is spelled. The error
/// points at the first `let` among the names.
pub fn check_let_not_bound(names: &Vec<DeclaredName>, lexical: bool) -> (r: Result<(), ParseError>)
    ensures
        r is Err <==> lexical && holds_name(names@, 0, "let"@),
        r matches Err(e) ==> e.kind == ParseErrorKind::LetAsLexicalBindingName && exists|k: int|
            0 <= k < names@.len() && (#[trigger] names@[k]).0@ == "let"@ && e.span == names@[k].1 && forall|j: int|
                0 <= j < k ==> (#[trigger] names@[j]).0@ != "let"@,
{
    if lexical {
        if let Some(k) = position_of(names, 0, "let") {
            return Err(ParseError { kind: ParseErrorKind::LetAsLexicalBindingName, span: names[k].1 });
        }
    }
    Ok(())
}

impl<'a> Parser<'a> {
    /// Whether a `LexicalDeclaration` beginning with `let` begins here: `let`, unescaped, then
    /// something that can begin a binding.
    pub fn at_lexical_let(&self) -> (r: Result<bool, ParseError>)
        requires
            self.wf(),
        ensures
            r matches Ok(true) ==> self.current.kind == (TokenKind::Identifier { contains_escape: false }),
            !(self.current.kind == (TokenKind::Identifier { contains_escape: false }) && self.spells(
                self.current,
                "let",
            )) || blank_from(self.bytes@, self.lexer.pos as int) ==> r == Ok::<bool, ParseError>(false),
            r == (if !(self.current.kind == (TokenKind::Identifier { contains_escape: false }) && self.spells(
                self.current,
                "let",
            )) {
                Ok::<bool, ParseError>(false)
            } else {
                match self.next_read(Goal::Div) {
                    Ok(next) => Ok(
                        next.kind is Identifier || next.kind == TokenKind::LBracket || next.kind == TokenKind::LBrace
                            || next.kind == TokenKind::Keyword(ReservedWord::Yield) || next.kind == TokenKind::Keyword(
                            ReservedWord::Await,
                        ),
                    ),
                    Err(e) => Err(lexical_error(e)),
                }
            }),
    {
        if !self.at_contextual("let") {
            return Ok(false);
        }
        let next = match self.peek(Goal::Div) {
            Ok(next) => next,
            Err(e) => return Err(e),
        };
        Ok(
            match next.kind {
                TokenKind::Identifier { .. } | TokenKind::LBracket | TokenKind::LBrace
                | TokenKind::Keyword(ReservedWord::Yield) | TokenKind::Keyword(ReservedWord::Await) => true,
                _ => false,
            },
        )
    }

    /// `VariableStatement` or `LexicalDeclaration`, with the cursor on the keyword: the list,
    /// then the `;` automatic semicolon insertion may supply.
    pub fn parse_declaration(&mut self, kind: DeclarationKind) -> (r: Result<Stmt, ParseError>)
        requires
            old(self).wf(),
        ensures
            final(self).kept_from(*old(self)),
            r matches Ok(s) ==> final(self).read_since(s.span, old(self).current.span.start as int),
            r is Ok ==> final(self).moved_past(*old(self)),
            r matches Ok(s) ==> s.kind is Declaration,
            r matches Ok(s) ==> s.kind->Declaration_0.kind == kind,
            r matches Ok(s) ==> final(self).scope.declares_all(statement_names(s), kind != DeclarationKind::Var),
        decreases MAX_NESTING_DEPTH - old(self).depth, 120int,
    {
        let (declaration, span) = match self.parse_declarator_list(kind, true) {
            Ok(parts) => parts,
            Err(e) => return Err(e),
        };
        let ghost declared = self.scope;
        if let Err(e) = check_declaration_initializers(&declaration) {
            return Err(e);
        }
        let end = match self.consume_semicolon(span) {
            Ok(end) => end,
            Err(e) => return Err(e),
        };
        proof {
            lemma_declarations_stay(
                declared,
                self.scope,
                declarator_names(declaration.declarators@, declaration.declarators@.len() as int),
                kind != DeclarationKind::Var,
            );
        }
        Ok(Stmt { kind: StmtKind::Declaration(Box::new(declaration)), span: span.to(end) })
    }

    /// The keyword and its list, stopping before any `;`. A `for` head takes the same list
    /// `[~In]`, and asks for its own `;`.
    pub fn parse_declarator_list(&mut self, kind: DeclarationKind, allow_in: bool) -> (r: Result<
        (Declaration, Span),
        ParseError,
    >)
        requires
            old(self).wf(),
        ensures
            final(self).kept_from(*old(self)),
            r matches Ok((_, span)) ==> final(self).read_since(span, old(self).current.span.start as int),
            r is Ok ==> final(self).moved_past(*old(self)),
            r matches Ok((d, _)) ==> d.kind == kind && d.declarators@.len() > 0,
            r matches Ok((d, _)) ==> final(self).scope.declares_all(
                declarator_names(d.declarators@, d.declarators@.len() as int),
                kind != DeclarationKind::Var,
            ),
        decreases MAX_NESTING_DEPTH - old(self).depth, 119int,
    {
        if self.current.kind == TokenKind::Eof {
            return Err(self.unexpected("`var`, `let` or `const`"));
        }
        let keyword = match self.advance(Goal::RegExp) {
            Ok(keyword) => keyword,
            Err(e) => return Err(e),
        };
        let mut declarators: Vec<Declarator> = Vec::new();
        let first = match self.parse_declarator(kind, allow_in) {
            Ok(declarator) => declarator,
            Err(e) => return Err(e),
        };
        let mut end = first.span;
        proof {
            assert(declarator_names(seq![first], 1) =~= declarator_names(seq![first], 0) + binding_names(
                first.binding,
            ));
        }
        declarators.push(first);
        proof {
            assert(declarators@ =~= seq![first]);
        }
        while self.current.kind == TokenKind::Comma
            invariant
                self.kept_from(*old(self)),
                self.moved_past(*old(self)),
                declarators@.len() > 0,
                keyword.span.start == old(self).current.span.start,
                self.ends_read(end, old(self).current.span.start as int),
                self.scope.declares_all(
                    declarator_names(declarators@, declarators@.len() as int),
                    kind != DeclarationKind::Var,
                ),
            decreases self.remaining(),
        {
            let ghost before = self.scope;
            let ghost listed = declarators@;
            if let Err(e) = self.advance(Goal::RegExp) {
                return Err(e);
            }
            let declarator = match self.parse_declarator(kind, allow_in) {
                Ok(declarator) => declarator,
                Err(e) => return Err(e),
            };
            end = declarator.span;
            declarators.push(declarator);
            proof {
                let lexical = kind != DeclarationKind::Var;
                lemma_declarations_stay(before, self.scope, declarator_names(listed, listed.len() as int), lexical);
                lemma_declarator_names_prefix(declarators@, listed, listed.len() as int);
                lemma_declares_both(
                    self.scope,
                    declarator_names(listed, listed.len() as int),
                    binding_names(declarator.binding),
                    lexical,
                );
            }
        }
        Ok((Declaration { kind, declarators }, keyword.span.to(end)))
    }

    /// One `LexicalBinding` or `VariableDeclaration`, whose names are declared at once.
    pub fn parse_declarator(&mut self, kind: DeclarationKind, allow_in: bool) -> (r: Result<
        Declarator,
        ParseError,
    >)
        requires
            old(self).wf(),
        ensures
            final(self).kept_from(*old(self)),
            r matches Ok(d) ==> final(self).read_since(d.span, old(self).current.span.start as int),
            r is Ok ==> final(self).moved_past(*old(self)),
            r matches Ok(d) ==> final(self).scope.declares_all(binding_names(d.binding), kind != DeclarationKind::Var),
            r matches Ok(d) ==> (kind != DeclarationKind::Var ==> !holds_name(binding_names(d.binding), 0, "let"@)),
        decreases MAX_NESTING_DEPTH - old(self).depth, 118int,
    {
        let binding = match self.parse_binding() {
            Ok(binding) => binding,
            Err(e) => return Err(e),
        };
        let mut names: Vec<DeclaredName> = Vec::new();
        push_bound_names(&binding, &mut names);
        if let Err(e) = check_let_not_bound(&names, kind.is_lexical()) {
            return Err(e);
        }
        proof {
            assert(names@ =~= binding_names(binding));
        }
        if let Err(e) = self.declare_names(&names, kind.is_lexical()) {
            return Err(e);
        }
        let ghost declared = self.scope;
        let start = binding.span();
        if self.current.kind != TokenKind::Eq {
            return Ok(Declarator { binding, initializer: None, span: start });
        }
        if let Err(e) = self.advance(Goal::RegExp) {
            return Err(e);
        }
        if let Err(e) = self.enter() {
            return Err(e);
        }
        // `Initializer[?In]`: the parameter propagates, so `for (var a = b in c;;)` is refused.
        let initializer = self.parse_assignment(allow_in);
        self.leave();
        let initializer = match initializer {
            Ok(initializer) => initializer,
            Err(e) => return Err(e),
        };
        proof {
            lemma_declarations_stay(declared, self.scope, binding_names(binding), kind != DeclarationKind::Var);
        }
        let span = start.to(initializer.span);
        Ok(Declarator { binding, initializer: Some(Box::new(initializer)), span })
    }
}

} // verus!
