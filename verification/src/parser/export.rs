//! `export` declarations (§16.2.3).
//!
//! Every export adds names to the module's exported names, which may not repeat (§16.2.1.1),
//! `default` among them; `export { … }` without `from` also names local bindings, which must be
//! declared somewhere at the module's top level — checked when the module ends, since the
//! declaration may come later.

use vstd::prelude::*;
use super::names::{declarator_names, push_bound_names, statement_names, DeclaredName};
use super::scope::{appended, clash_free, same_units, utf16_of};
use crate::lexer::value::utf16_units;
use super::{ParseError, ParseErrorKind, Parser};
use crate::ast::{
    DeclarationKind, ExportDeclaration, ExportDefault, ExportKind, ExportSpecifier, ModuleExportName,
    Stmt, StmtKind,
};
use crate::lexer::{Goal, ReservedWord, TokenKind};
use crate::span::Span;

verus! {

/// Whether `name` is among the exported names in `list`.
pub open spec fn exports_name(list: Seq<(Vec<u16>, Span)>, name: Seq<u16>) -> bool {
    exists|k: int| 0 <= k < list.len() && (#[trigger] list[k]).0@ == name
}

/// §16.2.1.1: a name is exported once. After `name` has been added to the exported names, it
/// is among them, so [`Parser::add_exported_name`] refuses it a second time.
pub proof fn lemma_exported_once(list: Seq<(Vec<u16>, Span)>, entry: (Vec<u16>, Span))
    ensures
        exports_name(list.push(entry), entry.0@),
        forall|name: Seq<u16>| exports_name(list, name) ==> exports_name(list.push(entry), name),
{
    assert(list.push(entry)[list.len() as int] == entry);
    assert forall|name: Seq<u16>| exports_name(list, name) implies exports_name(list.push(entry), name) by {
        let k = choose|k: int| 0 <= k < list.len() && (#[trigger] list[k]).0@ == name;
        assert(list.push(entry)[k] == list[k]);
    }
}

/// An export name's code units: an identifier's as UTF-16, a string's as written.
pub open spec fn export_name_units(name: ModuleExportName) -> Seq<u16> {
    match name {
        ModuleExportName::Identifier(text) => utf16_units(text@),
        ModuleExportName::String(units) => units@,
    }
}

/// A list of exported names, each with its code units seen as a sequence.
pub open spec fn entries_view(list: Seq<(Vec<u16>, Span)>) -> Seq<(Seq<u16>, Span)> {
    Seq::new(list.len(), |k: int| (list[k].0@, list[k].1))
}

/// Whether no two entries of `entries` export the same name.
pub open spec fn names_distinct(entries: Seq<(Seq<u16>, Span)>) -> bool {
    forall|i: int, j: int|
        #![trigger entries[i], entries[j]]
        0 <= i < j < entries.len() ==> entries[i].0 != entries[j].0
}

/// §16.2.3.2 `ExportedNames` of an export declaration, each with where it was exported: the
/// name `* as` gives, the exported side of each specifier, the names a declaration declares,
/// or `default`.
pub open spec fn exported_entries(declaration: ExportDeclaration) -> Seq<(Seq<u16>, Span)> {
    let span = declaration.span;
    match declaration.kind {
        ExportKind::All { exported, .. } => match exported {
            Some(name) => seq![(export_name_units(name), span)],
            None => Seq::empty(),
        },
        ExportKind::Named(specifiers) => Seq::new(
            specifiers@.len(),
            |k: int| (export_name_units(specifiers@[k].exported), span),
        ),
        ExportKind::NamedFrom { specifiers, .. } => Seq::new(
            specifiers@.len(),
            |k: int| (export_name_units(specifiers@[k].exported), span),
        ),
        ExportKind::Declaration(statement) => Seq::new(
            statement_names(statement).len(),
            |k: int| (utf16_units(statement_names(statement)[k].0@), statement_names(statement)[k].1),
        ),
        ExportKind::Default(_) => seq![(utf16_units("default"@), span)],
    }
}

/// An export name as UTF-16, the form in which two of them are compared.
pub fn string_value_of(name: &ModuleExportName) -> (r: Vec<u16>)
    ensures
        r@ == export_name_units(*name),
{
    match name {
        ModuleExportName::Identifier(text) => utf16_of(text.as_str()),
        ModuleExportName::String(units) => units.clone(),
    }
}

/// The names an export declaration adds to the module's exported names (§16.2.3.2
/// `ExportedNames`), each with where it was exported.
pub fn exported_names(declaration: &ExportDeclaration) -> (r: Vec<(Vec<u16>, Span)>)
    ensures
        entries_view(r@) == exported_entries(*declaration),
{
    let span = declaration.span;
    let mut names: Vec<(Vec<u16>, Span)> = Vec::new();
    match &declaration.kind {
        ExportKind::All { exported, specifier: _, attributes: _ } => {
            if let Some(name) = exported {
                names.push((string_value_of(name), span));
            }
        },
        ExportKind::Named(specifiers) | ExportKind::NamedFrom { specifiers, specifier: _, attributes: _ } => {
            let mut k: usize = 0;
            while k < specifiers.len()
                invariant
                    k <= specifiers@.len(),
                    names@.len() == k,
                    entries_view(names@) == Seq::new(
                        k as nat,
                        |j: int| (export_name_units(specifiers@[j].exported), span),
                    ),
                decreases specifiers.len() - k,
            {
                let entry = (string_value_of(&specifiers[k].exported), span);
                proof {
                    let before = entries_view(names@);
                    assert forall|j: int| 0 <= j < k implies #[trigger] entries_view(names@.push(entry))[j]
                        == before[j] by {
                        assert(names@.push(entry)[j] == names@[j]);
                    }
                    assert(entries_view(names@.push(entry)) =~= Seq::new(
                        (k + 1) as nat,
                        |j: int| (export_name_units(specifiers@[j].exported), span),
                    ));
                }
                names.push(entry);
                k = k + 1;
            }
        },
        ExportKind::Declaration(statement) => {
            let declared = statement_declared_names(statement);
            let mut k: usize = 0;
            while k < declared.len()
                invariant
                    k <= declared@.len(),
                    declared@ == statement_names(*statement),
                    names@.len() == k,
                    entries_view(names@) == Seq::new(
                        k as nat,
                        |j: int| (utf16_units(declared@[j].0@), declared@[j].1),
                    ),
                decreases declared.len() - k,
            {
                let entry = (utf16_of(declared[k].0.as_str()), declared[k].1);
                proof {
                    let before = entries_view(names@);
                    assert forall|j: int| 0 <= j < k implies #[trigger] entries_view(names@.push(entry))[j]
                        == before[j] by {
                        assert(names@.push(entry)[j] == names@[j]);
                    }
                    assert(entries_view(names@.push(entry)) =~= Seq::new(
                        (k + 1) as nat,
                        |j: int| (utf16_units(declared@[j].0@), declared@[j].1),
                    ));
                }
                names.push(entry);
                k = k + 1;
            }
        },
        ExportKind::Default(_) => {
            let word = "default";
            let entry = (utf16_of(word), span);
            names.push(entry);
        },
    }
    proof {
        assert(entries_view(names@) =~= exported_entries(*declaration));
    }
    names
}

/// The local bindings an `export { … }` without `from` exports, which the module must declare.
pub fn exported_bindings(declaration: &ExportDeclaration) -> (r: Vec<&ModuleExportName>)
    ensures
        !(declaration.kind is Named) ==> r@.len() == 0,
        declaration.kind matches ExportKind::Named(specifiers) ==> r@.len() == specifiers@.len()
            && forall|k: int| 0 <= k < r@.len() ==> *(#[trigger] r@[k]) == specifiers@[k].local,
{
    let mut locals: Vec<&ModuleExportName> = Vec::new();
    if let ExportKind::Named(specifiers) = &declaration.kind {
        let mut k: usize = 0;
        while k < specifiers.len()
            invariant
                k <= specifiers@.len(),
                locals@.len() == k,
                forall|j: int| 0 <= j < k ==> *(#[trigger] locals@[j]) == specifiers@[j].local,
            decreases specifiers.len() - k,
        {
            locals.push(&specifiers[k].local);
            k = k + 1;
        }
    }
    locals
}

/// The names a declaration statement declares, in order.
pub fn statement_declared_names(statement: &Stmt) -> (r: Vec<DeclaredName>)
    ensures
        r@ == statement_names(*statement),
{
    let mut names: Vec<DeclaredName> = Vec::new();
    match &statement.kind {
        StmtKind::Declaration(declaration) => {
            let mut k: usize = 0;
            while k < declaration.declarators.len()
                invariant
                    k <= declaration.declarators@.len(),
                    names@ == declarator_names(declaration.declarators@, k as int),
                decreases declaration.declarators.len() - k,
            {
                push_bound_names(&declaration.declarators[k].binding, &mut names);
                k = k + 1;
            }
        },
        StmtKind::Function(function) => {
            if let Some(name) = &function.name {
                names.push((name.name.clone(), name.span));
            }
        },
        StmtKind::Class(class) => {
            if let Some(name) = &class.name {
                names.push((name.name.clone(), name.span));
            }
        },
        _ => {},
    }
    names
}

impl<'a> Parser<'a> {
    /// Add `name` to the module's exported names, which may not already hold it.
    pub fn add_exported_name(&mut self, name: Vec<u16>, span: Span) -> (r: Result<(), ParseError>)
        requires
            old(self).wf(),
        ensures
            final(self).advanced_from(*old(self)),
            final(self).current == old(self).current,
            final(self).consumed_to == old(self).consumed_to,
            r matches Err(e) ==> e.kind == ParseErrorKind::DuplicateExportedName && e.span == span,
            r is Err <==> exports_name(old(self).exported@, name@),
            r is Ok ==> final(self).exported@ == old(self).exported@.push((name, span)),
            r is Err ==> final(self).exported == old(self).exported,
            names_distinct(entries_view(old(self).exported@)) ==> names_distinct(entries_view(final(self).exported@)),
    {
        let mut k: usize = 0;
        while k < self.exported.len()
            invariant
                self.kept_from(*old(self)),
                self.current == old(self).current,
                self.consumed_to == old(self).consumed_to,
                self.exported == old(self).exported,
                forall|j: int| 0 <= j < k ==> (#[trigger] self.exported@[j]).0@ != name@,
            decreases self.exported.len() - k,
        {
            if same_units(&self.exported[k].0, &name) {
                return Err(ParseError { kind: ParseErrorKind::DuplicateExportedName, span });
            }
            k = k + 1;
        }
        proof {
            let before = entries_view(self.exported@);
            let after = entries_view(self.exported@.push((name, span)));
            let pushed = self.exported@.push((name, span));
            assert forall|i: int, j: int| 0 <= i < j < after.len() && names_distinct(before) implies after[i].0
                != after[j].0 by {
                assert(pushed[i] == self.exported@[i]);
                assert(after[i] == (pushed[i].0@, pushed[i].1));
                assert(after[j] == (pushed[j].0@, pushed[j].1));
                if j == before.len() {
                    assert(pushed[j] == (name, span));
                    assert(self.exported@[i].0@ != name@);
                } else {
                    assert(pushed[j] == self.exported@[j]);
                    assert(before[i] == (self.exported@[i].0@, self.exported@[i].1));
                    assert(before[j] == (self.exported@[j].0@, self.exported@[j].1));
                }
            }
        }
        self.exported.push((name, span));
        Ok(())
    }

    /// `ExportDeclaration`, with the cursor on `export`.
    pub fn parse_export_declaration(&mut self) -> (r: Result<ExportDeclaration, ParseError>)
        requires
            old(self).wf(),
        ensures
            final(self).advanced_from(*old(self)),
            r matches Ok(d) ==> entries_view(final(self).exported@) == entries_view(old(self).exported@)
                + exported_entries(d),
            names_distinct(entries_view(old(self).exported@)) ==> names_distinct(entries_view(final(self).exported@)),
            r matches Ok(d) ==> d.span.start == old(self).current.span.start && d.span.end <= final(self).consumed_to@,
            r is Ok ==> final(self).moved_past(*old(self)),
    {
        let keyword = match self.eat(TokenKind::Keyword(ReservedWord::Export), Goal::RegExp, "`export`") {
            Ok(keyword) => keyword,
            Err(e) => return Err(e),
        };
        let kind = match self.current.kind {
            TokenKind::Star => self.parse_export_all(),
            TokenKind::LBrace => self.parse_export_named(),
            TokenKind::Keyword(ReservedWord::Default) => match self.parse_export_default() {
                Ok(default) => Ok(ExportKind::Default(default)),
                Err(e) => Err(e),
            },
            _ => match self.parse_exported_declaration() {
                Ok(statement) => Ok(ExportKind::Declaration(statement)),
                Err(e) => Err(e),
            },
        };
        let kind = match kind {
            Ok(kind) => kind,
            Err(e) => return Err(e),
        };
        let last = match &kind {
            ExportKind::Declaration(statement) => Ok(statement.span),
            ExportKind::Default(ExportDefault::Declaration(statement)) => Ok(statement.span),
            ExportKind::Default(ExportDefault::Expression(value)) => self.consume_semicolon(value.span),
            _ => self.consume_semicolon(keyword.span),
        };
        let end = match last {
            Ok(end) => end,
            Err(e) => return Err(e),
        };
        let span = keyword.span.to(end);
        let declaration = ExportDeclaration { kind, span };
        // What the export adds to the module's exported names.
        let names = exported_names(&declaration);
        let ghost start_exported = self.exported@;
        let mut k: usize = 0;
        while k < names.len()
            invariant
                self.advanced_from(*old(self)),
                self.moved_past(*old(self)),
                span.start == old(self).current.span.start && span.end <= self.consumed_to@,
                start_exported == old(self).exported@,
                k <= names@.len(),
                entries_view(self.exported@) == entries_view(start_exported) + entries_view(names@).take(k as int),
                names_distinct(entries_view(start_exported)) ==> names_distinct(entries_view(self.exported@)),
            decreases names.len() - k,
        {
            let name = names[k].0.clone();
            let at = names[k].1;
            let ghost before = self.exported@;
            if let Err(e) = self.add_exported_name(name, at) {
                return Err(e);
            }
            proof {
                assert(entries_view(before.push((name, at))) =~= entries_view(before).push((name@, at)));
                assert(entries_view(names@).take(k + 1) =~= entries_view(names@).take(k as int).push((name@, at)));
                assert(entries_view(self.exported@) =~= entries_view(start_exported) + entries_view(names@).take(
                    k + 1,
                ));
            }
            k = k + 1;
        }
        proof {
            assert(entries_view(names@).take(names@.len() as int) =~= entries_view(names@));
        }
        Ok(declaration)
    }

    /// `export * from …` or `export * as name from …`.
    pub fn parse_export_all(&mut self) -> (r: Result<ExportKind, ParseError>)
        requires
            old(self).wf(),
        ensures
            final(self).kept_from(*old(self)),
            r matches Ok(k) ==> k is All,
            r is Ok ==> final(self).moved_past(*old(self)),
    {
        if let Err(e) = self.eat(TokenKind::Star, Goal::Div, "`*`") {
            return Err(e);
        }
        let exported = if self.at_contextual("as") {
            if let Err(e) = self.advance(Goal::RegExp) {
                return Err(e);
            }
            match self.parse_module_export_name() {
                Ok(name) => Some(name),
                Err(e) => return Err(e),
            }
        } else {
            None
        };
        if let Err(e) = self.eat_contextual("from", "`from`") {
            return Err(e);
        }
        let specifier = match self.parse_module_specifier() {
            Ok(specifier) => specifier,
            Err(e) => return Err(e),
        };
        match self.parse_with_clause() {
            Ok(attributes) => Ok(ExportKind::All { exported, specifier, attributes }),
            Err(e) => Err(e),
        }
    }

    /// `export { … }`, with or without `from`. Without it, each local name must be a name this
    /// module declares, so it must be an identifier reference and not a string.
    pub fn parse_export_named(&mut self) -> (r: Result<ExportKind, ParseError>)
        requires
            old(self).wf(),
        ensures
            final(self).kept_from(*old(self)),
            r matches Ok(k) ==> k is Named || k is NamedFrom,
            r is Ok ==> final(self).moved_past(*old(self)),
    {
        let (specifiers, locals) = match self.parse_named_exports() {
            Ok(parts) => parts,
            Err(e) => return Err(e),
        };
        if !self.at_contextual("from") {
            // Each local name is a reference to a binding of this module, so a reserved word
            // will not do; a string is refused when the module ends, having nothing to name.
            let mut k: usize = 0;
            while k < locals.len()
                invariant
                    self.kept_from(*old(self)),
                    self.moved_past(*old(self)),
                decreases locals.len() - k,
            {
                let (reference, span, _) = &locals[k];
                if let Some(kind) = reference {
                    if !self.is_identifier_token(*kind) {
                        return Err(
                            ParseError {
                                kind: ParseErrorKind::Unexpected { expected: "a local name", found: *kind },
                                span: *span,
                            },
                        );
                    }
                }
                k = k + 1;
            }
            return Ok(ExportKind::Named(specifiers));
        }
        if let Err(e) = self.advance(Goal::RegExp) {
            return Err(e);
        }
        let specifier = match self.parse_module_specifier() {
            Ok(specifier) => specifier,
            Err(e) => return Err(e),
        };
        match self.parse_with_clause() {
            Ok(attributes) => Ok(ExportKind::NamedFrom { specifiers, specifier, attributes }),
            Err(e) => Err(e),
        }
    }

    /// `{ ExportsList }`, with, for each local name, the kind of token it was written as (none
    /// for a string), where, and its value.
    pub fn parse_named_exports(&mut self) -> (r: Result<
        (Vec<ExportSpecifier>, Vec<(Option<TokenKind>, Span, String)>),
        ParseError,
    >)
        requires
            old(self).wf(),
        ensures
            final(self).kept_from(*old(self)),
            r is Ok ==> final(self).moved_past(*old(self)),
    {
        if let Err(e) = self.eat(TokenKind::LBrace, Goal::RegExp, "`{`") {
            return Err(e);
        }
        let mut specifiers: Vec<ExportSpecifier> = Vec::new();
        let mut locals: Vec<(Option<TokenKind>, Span, String)> = Vec::new();
        while self.current.kind != TokenKind::RBrace
            invariant
                self.kept_from(*old(self)),
                self.moved_past(*old(self)),
            decreases self.remaining(),
        {
            let token = self.current;
            let local = match self.parse_module_export_name() {
                Ok(local) => local,
                Err(e) => return Err(e),
            };
            match &local {
                ModuleExportName::Identifier(name) => locals.push((Some(token.kind), token.span, name.clone())),
                ModuleExportName::String(_) => locals.push((None, token.span, String::new())),
            }
            let exported = if self.at_contextual("as") {
                if let Err(e) = self.advance(Goal::RegExp) {
                    return Err(e);
                }
                match self.parse_module_export_name() {
                    Ok(name) => name,
                    Err(e) => return Err(e),
                }
            } else {
                match &local {
                    ModuleExportName::Identifier(name) => ModuleExportName::Identifier(name.clone()),
                    ModuleExportName::String(units) => ModuleExportName::String(units.clone()),
                }
            };
            specifiers.push(ExportSpecifier { local, exported });
            if self.current.kind != TokenKind::Comma {
                break;
            }
            if let Err(e) = self.advance(Goal::RegExp) {
                return Err(e);
            }
        }
        if let Err(e) = self.eat(TokenKind::RBrace, Goal::Div, "`}`") {
            return Err(e);
        }
        Ok((specifiers, locals))
    }

    /// `export default` and what follows it: a declaration that may be anonymous, or an
    /// `AssignmentExpression`.
    pub fn parse_export_default(&mut self) -> (r: Result<ExportDefault, ParseError>)
        requires
            old(self).wf(),
        ensures
            final(self).kept_from(*old(self)),
            r matches Ok(ExportDefault::Declaration(s)) ==> final(self).ends_read(s.span, old(self).current.span.start as int),
            r matches Ok(ExportDefault::Expression(e)) ==> final(self).ends_read(e.span, old(self).current.span.start as int),
            r is Ok ==> final(self).moved_past(*old(self)),
    {
        if let Err(e) = self.eat(TokenKind::Keyword(ReservedWord::Default), Goal::RegExp, "`default`") {
            return Err(e);
        }
        let is_async_function = match self.at_async_function() {
            Ok(found) => found,
            Err(e) => return Err(e),
        };
        if is_async_function || self.current.kind == TokenKind::Keyword(ReservedWord::Function) {
            let statement = match self.parse_default_function(is_async_function) {
                Ok(statement) => statement,
                Err(e) => return Err(e),
            };
            if let Err(e) = self.declare_exported_statement(&statement) {
                return Err(e);
            }
            return Ok(ExportDefault::Declaration(statement));
        }
        if self.current.kind == TokenKind::Keyword(ReservedWord::Class) {
            let statement = match self.parse_class_declaration(false) {
                Ok(statement) => statement,
                Err(e) => return Err(e),
            };
            if let Err(e) = self.declare_exported_statement(&statement) {
                return Err(e);
            }
            return Ok(ExportDefault::Declaration(statement));
        }
        if let Err(e) = self.enter() {
            return Err(e);
        }
        let value = self.parse_assignment(true);
        self.leave();
        match value {
            Ok(value) => Ok(ExportDefault::Expression(Box::new(value))),
            Err(e) => Err(e),
        }
    }

    /// A function or class declared by an export declares its name lexically, as at the top
    /// level of any module.
    pub fn declare_exported_statement(&mut self, statement: &Stmt) -> (r: Result<(), ParseError>)
        requires
            old(self).wf(),
        ensures
            final(self).kept_from(*old(self)),
            final(self).current == old(self).current,
            final(self).consumed_to == old(self).consumed_to,
            r is Ok <==> clash_free(old(self).scope, statement_names(*statement), true),
            r is Ok ==> appended(final(self).scope.lexical@, old(self).scope.lexical@, statement_names(*statement))
                && final(self).scope.vars == old(self).scope.vars,
    {
        let names = statement_declared_names(statement);
        self.declare_names(&names, true)
    }

    /// The declaration after `export`.
    pub fn parse_exported_declaration(&mut self) -> (r: Result<Stmt, ParseError>)
        requires
            old(self).wf(),
        ensures
            final(self).kept_from(*old(self)),
            r matches Ok(s) ==> final(self).read_after(s.span, *old(self)),
            r is Ok ==> final(self).moved_past(*old(self)),
    {
        let is_let = match self.at_lexical_let() {
            Ok(found) => found,
            Err(e) => return Err(e),
        };
        if is_let {
            return self.parse_declaration(DeclarationKind::Let);
        }
        let is_async_function = match self.at_async_function() {
            Ok(found) => found,
            Err(e) => return Err(e),
        };
        if is_async_function || self.current.kind == TokenKind::Keyword(ReservedWord::Function) {
            let statement = match self.parse_function_declaration(is_async_function) {
                Ok(statement) => statement,
                Err(e) => return Err(e),
            };
            if let Err(e) = self.declare_exported_statement(&statement) {
                return Err(e);
            }
            return Ok(statement);
        }
        match self.current.kind {
            TokenKind::Keyword(ReservedWord::Var) => self.parse_declaration(DeclarationKind::Var),
            TokenKind::Keyword(ReservedWord::Const) => self.parse_declaration(DeclarationKind::Const),
            TokenKind::Keyword(ReservedWord::Class) => {
                let statement = match self.parse_class_declaration(true) {
                    Ok(statement) => statement,
                    Err(e) => return Err(e),
                };
                if let Err(e) = self.declare_exported_statement(&statement) {
                    return Err(e);
                }
                Ok(statement)
            },
            _ => Err(self.unexpected("a declaration")),
        }
    }
}

} // verus!
