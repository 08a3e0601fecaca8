//! Modules (§16.2) and their imports.
//!
//! The goal symbol `Module` is strict from the first character, makes `await` an operator at
//! the top level, declares functions lexically at its top level, and is the only place an
//! `import` or an `export` declaration may stand. Its names are checked when it ends: every
//! name `export { … }` exports must be declared, and no name exported twice.

use vstd::prelude::*;
use super::names::{holds_name, DeclaredName};
use super::export::{entries_view, exported_entries, names_distinct};
use super::{first_token_ends, in_source_order, opens_too_deep, lexical_error, ParseError, ParseErrorKind, Parser};
use crate::ast::{
    BindingName, ExportKind, ImportAttribute, ImportClause, ImportDeclaration, ImportSpecifier, Module,
    ModuleExportName, ModuleItem,
};
use crate::lexer::value::{cooked, identifier_name, string_value};
use super::strict::{is_eval_or_arguments, is_strict_reserved};
use crate::lexer::{blank_from, lemma_left_bracket_read, lex_token, Goal, LexError, ReservedWord, Token, TokenKind};
use crate::span::Span;
use vstd::string::StringSliceAdditionalSpecFns;

verus! {

/// Parse `source` as a `Module` (§16.2). The module, when there is one, covers the whole
/// source.
pub fn parse_module(source: &str) -> (r: Result<Module, ParseError>)
    ensures
        r matches Ok(module) ==> module.span.start == 0 && module.span.end == source.spec_bytes().len(),
        r matches Ok(module) ==> in_source_order(item_spans(module.body@), 0, source.spec_bytes().len() as int),
        r matches Ok(module) ==> names_distinct(module_exports(module.body@, module.body@.len() as int)),
        blank_from(source.spec_bytes(), 0) ==> (r matches Ok(module) && module.body@.len() == 0),
        r matches Ok(module) ==> module.source@ == source@,
        r matches Ok(module) ==> (module.body@.len() == 0 <==> first_token_ends(source.spec_bytes(), true)),
        opens_too_deep(source.spec_bytes()) ==> (r matches Err(e) && e.kind == ParseErrorKind::TooDeeplyNested),
{
    proof {
        if opens_too_deep(source.spec_bytes()) {
            assert(source.spec_bytes()[0int + 0int] == 0x5bu8);
            lemma_left_bracket_read(source.spec_bytes(), 0, Goal::RegExp, true);
        }
    }
    let mut parser = match Parser::new(source, true) {
        Ok(parser) => parser,
        Err(e) => return Err(e),
    };
    parser.strict = true;
    parser.await_allowed = true;
    parser.scope.functions_are_vars = false;
    let body = match parser.parse_module_items() {
        Ok(body) => body,
        Err(e) => return Err(e),
    };
    proof {
        assert(entries_view(Seq::empty()) =~= Seq::<(Seq<u16>, Span)>::empty());
        assert(module_exports(body@, body@.len() as int) =~= entries_view(parser.exported@));
    }
    if let Err(e) = parser.expect_eof() {
        return Err(e);
    }
    if let Some(error) = parser.scope.jump_error {
        return Err(error);
    }
    if parser.private_references.len() > 0 {
        return Err(
            ParseError { kind: ParseErrorKind::UndeclaredPrivateName, span: parser.private_references[0].1 },
        );
    }
    if let Err(e) = parser.check_exports(&body) {
        return Err(e);
    }
    Ok(Module { body, span: crate::span::Span::new(0, parser.bytes.len()), source: source.to_owned() })
}

/// Where a module item lies in the source.
pub open spec fn item_span(item: ModuleItem) -> Span {
    match item {
        ModuleItem::Statement(statement) => statement.span,
        ModuleItem::Import(import) => import.span,
        ModuleItem::Export(export) => export.span,
    }
}

/// The spans of a module's items, in the items' order.
pub open spec fn item_spans(body: Seq<ModuleItem>) -> Seq<Span> {
    Seq::new(body.len(), |i: int| item_span(body[i]))
}

/// Which names the first `n` items export depends on those items alone.
proof fn lemma_module_exports_prefix(longer: Seq<ModuleItem>, shorter: Seq<ModuleItem>, n: int)
    requires
        0 <= n <= shorter.len() <= longer.len(),
        forall|k: int| 0 <= k < n ==> longer[k] == shorter[k],
    ensures
        module_exports(longer, n) == module_exports(shorter, n),
    decreases n,
{
    if n > 0 {
        lemma_module_exports_prefix(longer, shorter, n - 1);
    }
}

/// The names the first `n` items of a module export, each with where it was exported, in
/// order (§16.2.1.1 `ExportedNames`).
pub open spec fn module_exports(body: Seq<ModuleItem>, n: int) -> Seq<(Seq<u16>, Span)>
    decreases n,
{
    if n <= 0 || n > body.len() {
        Seq::empty()
    } else {
        module_exports(body, n - 1) + match body[n - 1] {
            ModuleItem::Export(export) => exported_entries(export),
            _ => Seq::empty(),
        }
    }
}

/// Whether `name` is the `ModuleExportName` that `token` spells in `bytes`: an identifier
/// name, reserved words included, by its value, or a string by its code units.
pub open spec fn export_name_written(bytes: Seq<u8>, token: Token, name: ModuleExportName) -> bool {
    match name {
        ModuleExportName::Identifier(text) => (token.kind is Identifier || token.kind is Keyword) && identifier_name(
            bytes,
            token.span,
        ) == Some(text@),
        ModuleExportName::String(units) => token.kind is String && token.span.start + 2 <= token.span.end && cooked(
            bytes,
            token.span.start + 1,
            token.span.end - 1,
        ) == Some(units@),
    }
}

/// What a `ModuleExportName` says, as a value: which form it has and its text.
pub open spec fn export_name_view(name: ModuleExportName) -> (bool, Seq<char>, Seq<u16>) {
    match name {
        ModuleExportName::Identifier(text) => (true, text@, Seq::empty()),
        ModuleExportName::String(units) => (false, Seq::empty(), units@),
    }
}

/// Which export an import specifier names is fixed by the token it begins with, whatever
/// follows it: two names read from one token are the same name. So `a as b` imports `a`, and
/// what follows `as` only names the local binding.
pub proof fn lemma_export_name_fixed_by_its_token(
    bytes: Seq<u8>,
    token: Token,
    first: ModuleExportName,
    second: ModuleExportName,
)
    requires
        export_name_written(bytes, token, first),
        export_name_written(bytes, token, second),
    ensures
        export_name_view(first) == export_name_view(second),
{
}

/// A declared name as a value: its text and where it was written.
pub open spec fn declared_view(names: Seq<DeclaredName>) -> Seq<(Seq<char>, Span)> {
    names.map_values(|entry: DeclaredName| (entry.0@, entry.1))
}

/// A binding as a declared name: its text and where it was written.
pub open spec fn binding_entry(name: BindingName) -> (Seq<char>, Span) {
    (name.name@, name.span)
}

/// Declaring one more name adds its entry to the end of the declared names.
proof fn lemma_declared_push(before: Seq<DeclaredName>, after: Seq<DeclaredName>, entry: (Seq<char>, Span))
    requires
        after.len() == before.len() + 1,
        after.drop_last() == before,
        after.last().0@ == entry.0,
        after.last().1 == entry.1,
    ensures
        declared_view(after) == declared_view(before).push(entry),
{
    assert forall|i: int| 0 <= i < before.len() implies #[trigger] after[i] == before[i] by {
        assert(after.drop_last()[i] == after[i]);
    }
    assert(declared_view(after) =~= declared_view(before).push(entry));
}

/// The local bindings of import specifiers, in order.
pub open spec fn specifier_bindings(specifiers: Seq<ImportSpecifier>) -> Seq<(Seq<char>, Span)> {
    specifiers.map_values(|s: ImportSpecifier| binding_entry(s.local))
}

/// Every binding an import clause makes, in the order written: the default first, then the
/// namespace or each named import.
pub open spec fn clause_bindings(clause: ImportClause) -> Seq<(Seq<char>, Span)> {
    match clause {
        ImportClause::Default(d) => seq![binding_entry(d)],
        ImportClause::Namespace(n) => seq![binding_entry(n)],
        ImportClause::Named(specifiers) => specifier_bindings(specifiers@),
        ImportClause::DefaultAndNamespace(d, n) => seq![binding_entry(d), binding_entry(n)],
        ImportClause::DefaultAndNamed(d, specifiers) => seq![binding_entry(d)] + specifier_bindings(specifiers@),
    }
}

/// An import clause declares exactly the bindings it holds: each declaration it adds to the
/// module is one of the clause's bindings, and each of the clause's bindings is declared — a
/// clause that dropped a name it declared would break this.
pub proof fn lemma_clause_holds_what_it_declares(
    before: Seq<(Seq<char>, Span)>,
    after: Seq<(Seq<char>, Span)>,
    clause: ImportClause,
)
    requires
        after == before + clause_bindings(clause),
    ensures
        forall|i: int|
            before.len() <= i < after.len() ==> clause_bindings(clause).contains(#[trigger] after[i]),
        forall|j: int|
            0 <= j < clause_bindings(clause).len() ==> after.contains(#[trigger] clause_bindings(clause)[j]),
        after.len() - before.len() == clause_bindings(clause).len(),
{
    assert forall|i: int| before.len() <= i < after.len() implies clause_bindings(clause).contains(
        #[trigger] after[i],
    ) by {
        assert(after[i] == clause_bindings(clause)[i - before.len()]);
    }
    assert forall|j: int| 0 <= j < clause_bindings(clause).len() implies after.contains(
        #[trigger] clause_bindings(clause)[j],
    ) by {
        assert(after[before.len() + j] == clause_bindings(clause)[j]);
    }
}

/// The tokens of an entry `key: "value"` of a with-clause read from offset `pos`: the key, what
/// follows it, and what follows that.
pub open spec fn entry_tokens(bytes: Seq<u8>, module: bool, pos: int) -> Option<(Token, Token, Token)> {
    match lex_token(bytes, pos, Goal::RegExp, module) {
        Ok(key) => match lex_token(bytes, key.span.end as int, Goal::Div, module) {
            Ok(colon) => match lex_token(bytes, colon.span.end as int, Goal::RegExp, module) {
                Ok(value) => Some((key, colon, value)),
                Err(_) => None,
            },
            Err(_) => None,
        },
        Err(_) => None,
    }
}

/// Whether `attribute` is the entry `key: "value"` written at offset `pos` (§16.2.2
/// `WithEntries`): its key is the export name read there, a `:` follows, then a string whose
/// value is the attribute's value.
pub open spec fn entry_read(bytes: Seq<u8>, module: bool, pos: int, attribute: ImportAttribute) -> bool {
    entry_tokens(bytes, module, pos) matches Some((key, colon, value)) && export_name_written(
        bytes,
        key,
        attribute.key,
    ) && colon.kind == TokenKind::Colon && value.kind is String && value.span.start + 2 <= value.span.end
        && cooked(bytes, value.span.start + 1, value.span.end - 1) == Some(attribute.value@)
}

/// Where the entry written at offset `pos` ends: after its value.
pub open spec fn entry_end(bytes: Seq<u8>, module: bool, pos: int) -> int {
    match entry_tokens(bytes, module, pos) {
        Some((_, _, value)) => value.span.end as int,
        None => pos,
    }
}

/// Whether `attribute` is the entry written at offset `pos` and a token of kind `separator`
/// follows it, ending at `next`.
pub open spec fn attribute_step(
    bytes: Seq<u8>,
    module: bool,
    pos: int,
    attribute: ImportAttribute,
    separator: TokenKind,
    next: int,
) -> bool {
    &&& entry_read(bytes, module, pos, attribute)
    &&& lex_token(bytes, entry_end(bytes, module, pos), Goal::Div, module) matches Ok(s) && s.kind
        == separator && next == s.span.end
}

/// Whether `attributes` are the entries written from offset `pos` up to offset `end`, each
/// followed by its comma.
pub open spec fn attributes_between(
    bytes: Seq<u8>,
    module: bool,
    pos: int,
    attributes: Seq<ImportAttribute>,
    end: int,
) -> bool
    decreases attributes.len(),
{
    if attributes.len() == 0 {
        pos == end
    } else {
        exists|next: int|
            #[trigger] attribute_step(bytes, module, pos, attributes[0], TokenKind::Comma, next)
                && attributes_between(bytes, module, next, attributes.drop_first(), end)
    }
}

/// Whether the `}` that closes a with-clause is read at offset `end`.
pub open spec fn closes_at(bytes: Seq<u8>, module: bool, end: int) -> bool {
    lex_token(bytes, end, Goal::RegExp, module) matches Ok(t) && t.kind == TokenKind::RBrace
}

/// Whether `attributes` are the entries of a with-clause written from offset `pos`, just after
/// its `{`, in order: one attribute per entry, the `}` after the last entry's comma or in its
/// place.
#[verifier::opaque]
pub open spec fn attributes_from(bytes: Seq<u8>, module: bool, pos: int, attributes: Seq<ImportAttribute>) -> bool {
    (exists|end: int| #[trigger] attributes_between(bytes, module, pos, attributes, end) && closes_at(bytes, module, end))
    || exists|end: int, next: int|
        #![trigger attributes_between(bytes, module, pos, attributes.drop_last(), end), attribute_step(bytes, module, end, attributes.last(), TokenKind::RBrace, next)]
        attributes.len() > 0 && attributes_between(bytes, module, pos, attributes.drop_last(), end)
            && attribute_step(bytes, module, end, attributes.last(), TokenKind::RBrace, next)
}

/// Whether `attributes` are what the with-clause that may begin at `current` says: the entries
/// between its braces where `current` is `with`, and none otherwise.
#[verifier::opaque]
pub open spec fn with_clause_from(bytes: Seq<u8>, module: bool, current: Token, attributes: Seq<ImportAttribute>) -> bool {
    if current.kind == TokenKind::Keyword(ReservedWord::With) {
        lex_token(bytes, current.span.end as int, Goal::RegExp, module) matches Ok(open) && open.kind
            == TokenKind::LBrace && attributes_from(bytes, module, open.span.end as int, attributes)
    } else {
        attributes.len() == 0
    }
}

/// Whether an import declaration that begins at offset `start` takes its module specifier,
/// `units`, from the string `specifier` written after that, and its `attributes` from the
/// with-clause that may follow that string.
#[verifier::opaque]
pub open spec fn imports_from(
    bytes: Seq<u8>,
    module: bool,
    specifier: Token,
    start: int,
    units: Seq<u16>,
    attributes: Seq<ImportAttribute>,
) -> bool {
    &&& specifier.kind is String
    &&& start < specifier.span.start
    &&& specifier.span.start + 2 <= specifier.span.end
    &&& cooked(bytes, specifier.span.start + 1, specifier.span.end - 1) == Some(units)
    &&& lex_token(bytes, specifier.span.end as int, Goal::Div, module) matches Ok(after) && with_clause_from(
        bytes,
        module,
        after,
        attributes,
    )
}

/// Whether an import declaration that begins at offset `start` has the module specifier
/// `units` and the `attributes` of the string, and of the with-clause after it, that some token
/// written after `start` is.
pub open spec fn import_read(bytes: Seq<u8>, module: bool, start: int, units: Seq<u16>, attributes: Seq<ImportAttribute>) -> bool {
    exists|specifier: Token| #[trigger] imports_from(bytes, module, specifier, start, units, attributes)
}

/// An import attribute as a value: its key and its value's code units.
pub open spec fn attribute_view(attribute: ImportAttribute) -> ((bool, Seq<char>, Seq<u16>), Seq<u16>) {
    (export_name_view(attribute.key), attribute.value@)
}

/// Import attributes as values, in order.
pub open spec fn attributes_view(attributes: Seq<ImportAttribute>) -> Seq<((bool, Seq<char>, Seq<u16>), Seq<u16>)> {
    attributes.map_values(|a: ImportAttribute| attribute_view(a))
}

/// Entries read one after another are read together.
#[verifier::rlimit(40)]
#[verifier::spinoff_prover]
proof fn lemma_attributes_extend(
    bytes: Seq<u8>,
    module: bool,
    pos: int,
    attributes: Seq<ImportAttribute>,
    end: int,
    attribute: ImportAttribute,
    next: int,
)
    requires
        attributes_between(bytes, module, pos, attributes, end),
        attribute_step(bytes, module, end, attribute, TokenKind::Comma, next),
    ensures
        attributes_between(bytes, module, pos, attributes.push(attribute), next),
    decreases attributes.len(),
{
    if attributes.len() == 0 {
        assert(attributes.push(attribute).drop_first() =~= Seq::<ImportAttribute>::empty());
        assert(attributes_between(bytes, module, next, Seq::<ImportAttribute>::empty(), next));
        assert(attribute_step(bytes, module, pos, attributes.push(attribute)[0], TokenKind::Comma, next));
    } else {
        let mid = choose|mid: int|
            #[trigger] attribute_step(bytes, module, pos, attributes[0], TokenKind::Comma, mid)
                && attributes_between(bytes, module, mid, attributes.drop_first(), end);
        lemma_attributes_extend(bytes, module, mid, attributes.drop_first(), end, attribute, next);
        assert(attributes.push(attribute).drop_first() =~= attributes.drop_first().push(attribute));
        assert(attributes.push(attribute)[0] == attributes[0]);
        assert(attribute_step(bytes, module, pos, attributes.push(attribute)[0], TokenKind::Comma, mid));
    }
}

/// A with-clause whose braces hold nothing has no attributes.
#[verifier::rlimit(40)]
#[verifier::spinoff_prover]
proof fn lemma_no_entry_no_attribute(bytes: Seq<u8>, module: bool, pos: int, attributes: Seq<ImportAttribute>)
    requires
        attributes_from(bytes, module, pos, attributes),
        closes_at(bytes, module, pos),
    ensures
        attributes.len() == 0,
{
    reveal(attributes_from);
    if attributes.len() > 0 {
        if exists|end: int| #[trigger] attributes_between(bytes, module, pos, attributes, end) && closes_at(bytes, module, end) {
            let end = choose|end: int| #[trigger] attributes_between(bytes, module, pos, attributes, end) && closes_at(bytes, module, end);
            let next = choose|next: int|
                #[trigger] attribute_step(bytes, module, pos, attributes[0], TokenKind::Comma, next)
                    && attributes_between(bytes, module, next, attributes.drop_first(), end);
            assert(entry_read(bytes, module, pos, attributes[0]));
        } else {
            let (end, next) = choose|end: int, next: int|
                #![trigger attributes_between(bytes, module, pos, attributes.drop_last(), end), attribute_step(bytes, module, end, attributes.last(), TokenKind::RBrace, next)]
                attributes.len() > 0 && attributes_between(bytes, module, pos, attributes.drop_last(), end)
                    && attribute_step(bytes, module, end, attributes.last(), TokenKind::RBrace, next);
            let front = attributes.drop_last();
            if front.len() > 0 {
                let mid = choose|mid: int|
                    #[trigger] attribute_step(bytes, module, pos, front[0], TokenKind::Comma, mid)
                        && attributes_between(bytes, module, mid, front.drop_first(), end);
                assert(entry_read(bytes, module, pos, front[0]));
            } else {
                assert(end == pos);
                assert(entry_read(bytes, module, pos, attributes.last()));
            }
        }
    }
}

/// A written entry is the first attribute: where a with-clause's braces begin with anything
/// but `}`, its first attribute is the entry `key: "value"` written there.
#[verifier::rlimit(40)]
#[verifier::spinoff_prover]
pub proof fn lemma_written_entry_is_first_attribute(
    bytes: Seq<u8>,
    module: bool,
    pos: int,
    attributes: Seq<ImportAttribute>,
)
    requires
        attributes_from(bytes, module, pos, attributes),
        !closes_at(bytes, module, pos),
    ensures
        attributes.len() > 0,
        entry_read(bytes, module, pos, attributes[0]),
{
    reveal(attributes_from);
    if exists|end: int| #[trigger] attributes_between(bytes, module, pos, attributes, end) && closes_at(bytes, module, end) {
        let end = choose|end: int| #[trigger] attributes_between(bytes, module, pos, attributes, end) && closes_at(bytes, module, end);
        assert(attributes.len() > 0);
        let next = choose|next: int|
            #[trigger] attribute_step(bytes, module, pos, attributes[0], TokenKind::Comma, next)
                && attributes_between(bytes, module, next, attributes.drop_first(), end);
    } else {
        let (end, next) = choose|end: int, next: int|
            #![trigger attributes_between(bytes, module, pos, attributes.drop_last(), end), attribute_step(bytes, module, end, attributes.last(), TokenKind::RBrace, next)]
            attributes.len() > 0 && attributes_between(bytes, module, pos, attributes.drop_last(), end)
                && attribute_step(bytes, module, end, attributes.last(), TokenKind::RBrace, next);
        let front = attributes.drop_last();
        if front.len() > 0 {
            let mid = choose|mid: int|
                #[trigger] attribute_step(bytes, module, pos, front[0], TokenKind::Comma, mid)
                    && attributes_between(bytes, module, mid, front.drop_first(), end);
            assert(front[0] == attributes[0]);
        } else {
            assert(end == pos);
            assert(attributes.last() == attributes[0]);
        }
    }
}

/// After an entry and its comma come exactly the attributes read from after that comma.
#[verifier::rlimit(40)]
#[verifier::spinoff_prover]
proof fn lemma_entries_after_comma(bytes: Seq<u8>, module: bool, pos: int, attributes: Seq<ImportAttribute>)
    requires
        attributes_from(bytes, module, pos, attributes),
        attributes.len() > 0,
        lex_token(bytes, entry_end(bytes, module, pos), Goal::Div, module) matches Ok(c) && c.kind
            == TokenKind::Comma,
    ensures
        attributes_from(
            bytes,
            module,
            lex_token(bytes, entry_end(bytes, module, pos), Goal::Div, module)->Ok_0.span.end as int,
            attributes.drop_first(),
        ),
{
    reveal(attributes_from);
    let after = lex_token(bytes, entry_end(bytes, module, pos), Goal::Div, module)->Ok_0.span.end as int;
    if exists|end: int| #[trigger] attributes_between(bytes, module, pos, attributes, end) && closes_at(bytes, module, end) {
        let end = choose|end: int| #[trigger] attributes_between(bytes, module, pos, attributes, end) && closes_at(bytes, module, end);
        let next = choose|next: int|
            #[trigger] attribute_step(bytes, module, pos, attributes[0], TokenKind::Comma, next)
                && attributes_between(bytes, module, next, attributes.drop_first(), end);
        assert(next == after);
        assert(attributes_between(bytes, module, after, attributes.drop_first(), end));
    } else {
        let (end, next) = choose|end: int, next: int|
            #![trigger attributes_between(bytes, module, pos, attributes.drop_last(), end), attribute_step(bytes, module, end, attributes.last(), TokenKind::RBrace, next)]
            attributes.len() > 0 && attributes_between(bytes, module, pos, attributes.drop_last(), end)
                && attribute_step(bytes, module, end, attributes.last(), TokenKind::RBrace, next);
        let front = attributes.drop_last();
        if front.len() == 0 {
            assert(end == pos);
            assert(attribute_step(bytes, module, pos, attributes.last(), TokenKind::RBrace, next));
            assert(false);
        } else {
            let mid = choose|mid: int|
                #[trigger] attribute_step(bytes, module, pos, front[0], TokenKind::Comma, mid)
                    && attributes_between(bytes, module, mid, front.drop_first(), end);
            assert(mid == after);
            assert(front.drop_first() =~= attributes.drop_first().drop_last());
            assert(attributes.drop_first().last() == attributes.last());
            assert(attributes_between(bytes, module, after, attributes.drop_first().drop_last(), end));
            assert(attribute_step(bytes, module, end, attributes.drop_first().last(), TokenKind::RBrace, next));
        }
    }
}

/// An entry that no comma follows is the last.
#[verifier::rlimit(40)]
#[verifier::spinoff_prover]
proof fn lemma_entry_without_comma_is_last(bytes: Seq<u8>, module: bool, pos: int, attributes: Seq<ImportAttribute>)
    requires
        attributes_from(bytes, module, pos, attributes),
        attributes.len() > 0,
        !(lex_token(bytes, entry_end(bytes, module, pos), Goal::Div, module) matches Ok(c) && c.kind
            == TokenKind::Comma),
    ensures
        attributes.len() == 1,
{
    reveal(attributes_from);
    if exists|end: int| #[trigger] attributes_between(bytes, module, pos, attributes, end) && closes_at(bytes, module, end) {
        let end = choose|end: int| #[trigger] attributes_between(bytes, module, pos, attributes, end) && closes_at(bytes, module, end);
        let next = choose|next: int|
            #[trigger] attribute_step(bytes, module, pos, attributes[0], TokenKind::Comma, next)
                && attributes_between(bytes, module, next, attributes.drop_first(), end);
    } else {
        let (end, next) = choose|end: int, next: int|
            #![trigger attributes_between(bytes, module, pos, attributes.drop_last(), end), attribute_step(bytes, module, end, attributes.last(), TokenKind::RBrace, next)]
            attributes.len() > 0 && attributes_between(bytes, module, pos, attributes.drop_last(), end)
                && attribute_step(bytes, module, end, attributes.last(), TokenKind::RBrace, next);
        let front = attributes.drop_last();
        if front.len() > 0 {
            let mid = choose|mid: int|
                #[trigger] attribute_step(bytes, module, pos, front[0], TokenKind::Comma, mid)
                    && attributes_between(bytes, module, mid, front.drop_first(), end);
        }
    }
}

/// Two entries read at one offset are the same entry.
#[verifier::rlimit(40)]
#[verifier::spinoff_prover]
proof fn lemma_entries_agree(bytes: Seq<u8>, module: bool, pos: int, first: ImportAttribute, second: ImportAttribute)
    requires
        entry_read(bytes, module, pos, first),
        entry_read(bytes, module, pos, second),
    ensures
        attribute_view(first) == attribute_view(second),
{
    let (key, colon, value) = entry_tokens(bytes, module, pos)->Some_0;
    lemma_export_name_fixed_by_its_token(bytes, key, first.key, second.key);
}

/// Lists that agree on their first entry and on the rest agree.
#[verifier::rlimit(40)]
#[verifier::spinoff_prover]
proof fn lemma_views_agree(first: Seq<ImportAttribute>, second: Seq<ImportAttribute>)
    requires
        first.len() > 0,
        second.len() > 0,
        attribute_view(first[0]) == attribute_view(second[0]),
        attributes_view(first.drop_first()) == attributes_view(second.drop_first()),
    ensures
        attributes_view(first) == attributes_view(second),
{
    assert(attributes_view(first.drop_first()).len() == first.len() - 1);
    assert(attributes_view(second.drop_first()).len() == second.len() - 1);
    assert forall|i: int| 0 <= i < first.len() implies #[trigger] attributes_view(first)[i]
        == attributes_view(second)[i] by {
        if i > 0 {
            assert(attributes_view(first)[i] == attributes_view(first.drop_first())[i - 1]);
            assert(attributes_view(second)[i] == attributes_view(second.drop_first())[i - 1]);
        }
    }
    assert(attributes_view(first) =~= attributes_view(second));
}

/// The entries written fix the attributes: two lists of attributes that both are the entries
/// of the with-clause written from `pos` are the same, entry for entry and in order — none
/// left out, none added, none moved.
#[verifier::rlimit(40)]
#[verifier::spinoff_prover]
pub proof fn lemma_attributes_fixed_by_the_text(
    bytes: Seq<u8>,
    module: bool,
    pos: int,
    first: Seq<ImportAttribute>,
    second: Seq<ImportAttribute>,
)
    requires
        attributes_from(bytes, module, pos, first),
        attributes_from(bytes, module, pos, second),
    ensures
        attributes_view(first) == attributes_view(second),
    decreases first.len(),
{
    if closes_at(bytes, module, pos) {
        lemma_no_entry_no_attribute(bytes, module, pos, first);
        lemma_no_entry_no_attribute(bytes, module, pos, second);
        assert(attributes_view(first) =~= attributes_view(second));
    } else {
        lemma_written_entry_is_first_attribute(bytes, module, pos, first);
        lemma_written_entry_is_first_attribute(bytes, module, pos, second);
        lemma_entries_agree(bytes, module, pos, first[0], second[0]);
        let separator = lex_token(bytes, entry_end(bytes, module, pos), Goal::Div, module);
        if separator matches Ok(c) && c.kind == TokenKind::Comma {
            lemma_entries_after_comma(bytes, module, pos, first);
            lemma_entries_after_comma(bytes, module, pos, second);
            lemma_attributes_fixed_by_the_text(
                bytes,
                module,
                separator->Ok_0.span.end as int,
                first.drop_first(),
                second.drop_first(),
            );
            lemma_views_agree(first, second);
        } else {
            lemma_entry_without_comma_is_last(bytes, module, pos, first);
            lemma_entry_without_comma_is_last(bytes, module, pos, second);
            assert(attributes_view(first) =~= attributes_view(second));
        }
    }
}

/// What an import's attributes are is fixed by the text: two lists that both are what the
/// with-clause beginning at `current` says are the same, entry for entry — and where no
/// `with` stands there, both are empty.
#[verifier::rlimit(40)]
#[verifier::spinoff_prover]
pub proof fn lemma_with_clause_fixes_attributes(
    bytes: Seq<u8>,
    module: bool,
    current: Token,
    first: Seq<ImportAttribute>,
    second: Seq<ImportAttribute>,
)
    requires
        with_clause_from(bytes, module, current, first),
        with_clause_from(bytes, module, current, second),
    ensures
        attributes_view(first) == attributes_view(second),
        current.kind != TokenKind::Keyword(ReservedWord::With) ==> first.len() == 0,
{
    reveal(with_clause_from);
    if current.kind == TokenKind::Keyword(ReservedWord::With) {
        let open = lex_token(bytes, current.span.end as int, Goal::RegExp, module)->Ok_0;
        lemma_attributes_fixed_by_the_text(bytes, module, open.span.end as int, first, second);
    } else {
        assert(attributes_view(first) =~= attributes_view(second));
    }
}

/// An import's attributes are its with-clause's entries: two declarations read from the same
/// module specifier string have the same attributes, entry for entry and in order.
#[verifier::rlimit(40)]
#[verifier::spinoff_prover]
pub proof fn lemma_import_attributes_are_its_entries(
    bytes: Seq<u8>,
    module: bool,
    specifier: Token,
    start: int,
    units: Seq<u16>,
    first: Seq<ImportAttribute>,
    second: Seq<ImportAttribute>,
)
    requires
        imports_from(bytes, module, specifier, start, units, first),
        imports_from(bytes, module, specifier, start, units, second),
    ensures
        attributes_view(first) == attributes_view(second),
{
    reveal(imports_from);
    let after = lex_token(bytes, specifier.span.end as int, Goal::Div, module)->Ok_0;
    lemma_with_clause_fixes_attributes(bytes, module, after, first, second);
}

impl<'a> Parser<'a> {
    /// The module's items, to the end of input.
    pub fn parse_module_items(&mut self) -> (r: Result<Vec<ModuleItem>, ParseError>)
        requires
            old(self).wf(),
        ensures
            old(self).current.kind == TokenKind::Eof ==> (r matches Ok(body) && body@.len() == 0 && *final(self) == *old(self)),
            r matches Ok(body) ==> (body@.len() == 0 <==> old(self).current.kind == TokenKind::Eof),
            old(self).too_deep_ahead() ==> (r matches Err(e) && e.kind == ParseErrorKind::TooDeeplyNested),
            final(self).advanced_from(*old(self)),
            r is Ok ==> final(self).current.kind == TokenKind::Eof,
            r matches Ok(body) ==> in_source_order(
                item_spans(body@),
                old(self).current.span.start as int,
                final(self).current.span.start as int,
            ),
            r matches Ok(body) ==> entries_view(final(self).exported@) == entries_view(old(self).exported@)
                + module_exports(body@, body@.len() as int),
            r is Ok && names_distinct(entries_view(old(self).exported@)) ==> names_distinct(
                entries_view(final(self).exported@),
            ),
    {
        let mut body: Vec<ModuleItem> = Vec::new();
        while self.current.kind != TokenKind::Eof
            invariant
                old(self).current.kind == TokenKind::Eof ==> body@.len() == 0 && *self == *old(self),
                body@.len() == 0 ==> *self == *old(self),
                old(self).too_deep_ahead() ==> body@.len() == 0,
                self.advanced_from(*old(self)),
                in_source_order(item_spans(body@), old(self).current.span.start as int, self.current.span.start as int),
                entries_view(self.exported@) == entries_view(old(self).exported@) + module_exports(
                    body@,
                    body@.len() as int,
                ),
                names_distinct(entries_view(old(self).exported@)) ==> names_distinct(
                    entries_view(self.exported@),
                ),
            decreases self.remaining(),
        {
            if self.current.kind == TokenKind::Keyword(ReservedWord::Import) {
                // `import(…)` and `import.meta` are expressions.
                let next = match self.peek(Goal::RegExp) {
                    Ok(next) => next,
                    Err(e) => return Err(e),
                };
                if next.kind != TokenKind::LParen && next.kind != TokenKind::Dot {
                    match self.parse_import_declaration() {
                        Ok(import) => {
                            let item = ModuleItem::Import(import);
                            proof {
                                assert(item_spans(body@.push(item)) =~= item_spans(body@).push(item_span(item)));
                                lemma_module_exports_prefix(body@.push(item), body@, body@.len() as int);
                            }
                            body.push(item);
                        },
                        Err(e) => return Err(e),
                    }
                    continue;
                }
            }
            if self.current.kind == TokenKind::Keyword(ReservedWord::Export) {
                match self.parse_export_declaration() {
                    Ok(export) => {
                        let item = ModuleItem::Export(export);
                        proof {
                            assert(item_spans(body@.push(item)) =~= item_spans(body@).push(item_span(item)));
                            lemma_module_exports_prefix(body@.push(item), body@, body@.len() as int);
                        }
                        body.push(item);
                    },
                    Err(e) => return Err(e),
                }
                continue;
            }
            match self.parse_statement_list_item() {
                Ok(statement) => {
                    let item = ModuleItem::Statement(statement);
                    proof {
                        assert(item_spans(body@.push(item)) =~= item_spans(body@).push(item_span(item)));
                        lemma_module_exports_prefix(body@.push(item), body@, body@.len() as int);
                    }
                    body.push(item);
                },
                Err(e) => return Err(e),
            }
        }
        Ok(body)
    }

    /// `ImportDeclaration`, with the cursor on `import`.
    #[verifier::rlimit(100)]
    #[verifier::spinoff_prover]
    pub fn parse_import_declaration(&mut self) -> (r: Result<ImportDeclaration, ParseError>)
        requires
            old(self).wf(),
        ensures
            final(self).kept_from(*old(self)),
            r matches Ok(d) ==> d.span.start == old(self).current.span.start && d.span.end <= final(self).consumed_to@,
            r is Ok ==> final(self).moved_past(*old(self)),
            r matches Ok(d) ==> import_read(
                old(self).bytes@,
                old(self).module,
                d.span.start as int,
                d.specifier@,
                d.attributes@,
            ),
    {
        let keyword = match self.eat(TokenKind::Keyword(ReservedWord::Import), Goal::RegExp, "`import`") {
            Ok(keyword) => keyword,
            Err(e) => return Err(e),
        };
        let clause = match self.current.kind {
            TokenKind::String { .. } => None,
            _ => {
                let clause = match self.parse_import_clause() {
                    Ok(clause) => clause,
                    Err(e) => return Err(e),
                };
                if let Err(e) = self.eat_contextual("from", "`from`") {
                    return Err(e);
                }
                Some(clause)
            },
        };
        let ghost specifier_token = self.current;
        proof {
            self.lemma_next_read_from_current_end(Goal::Div);
        }
        let specifier = match self.parse_module_specifier() {
            Ok(specifier) => specifier,
            Err(e) => return Err(e),
        };
        let ghost after = self.current;
        proof {
            assert(lex_token(self.bytes@, specifier_token.span.end as int, Goal::Div, self.module) == Ok::<Token, LexError>(after));
        }
        let attributes = match self.parse_with_clause() {
            Ok(attributes) => attributes,
            Err(e) => return Err(e),
        };
        let end = match self.consume_semicolon(keyword.span) {
            Ok(end) => end,
            Err(e) => return Err(e),
        };
        proof {
            assert(imports_from(
                old(self).bytes@,
                old(self).module,
                specifier_token,
                keyword.span.start as int,
                specifier@,
                attributes@,
            )) by {
                reveal(imports_from);
            }
            assert(import_read(
                old(self).bytes@,
                old(self).module,
                keyword.span.start as int,
                specifier@,
                attributes@,
            ));
        }
        Ok(ImportDeclaration { clause, specifier, attributes, span: keyword.span.to(end) })
    }

    /// `ImportClause`: a default binding, a namespace, named imports, or a default with one of
    /// the other two. Every binding it makes is a lexical declaration of the module.
    #[verifier::rlimit(50)]
    #[verifier::spinoff_prover]
    pub fn parse_import_clause(&mut self) -> (r: Result<ImportClause, ParseError>)
        requires
            old(self).wf(),
        ensures
            final(self).kept_from(*old(self)),
            r is Ok ==> final(self).moved_past(*old(self)),
            r matches Ok(c) ==> (c is Namespace <==> old(self).current.kind == TokenKind::Star) && (c is Named
                <==> old(self).current.kind == TokenKind::LBrace),
            r matches Ok(c) ==> declared_view(final(self).scope.lexical@) == declared_view(old(self).scope.lexical@)
                + clause_bindings(c),
    {
        if self.current.kind == TokenKind::Star {
            return match self.parse_namespace_import() {
                Ok(name) => {
                    proof {
                        assert(declared_view(self.scope.lexical@) =~= declared_view(old(self).scope.lexical@) + seq![
                            binding_entry(name),
                        ]);
                    }
                    Ok(ImportClause::Namespace(name))
                },
                Err(e) => Err(e),
            };
        }
        if self.current.kind == TokenKind::LBrace {
            return match self.parse_named_imports() {
                Ok(specifiers) => Ok(ImportClause::Named(specifiers)),
                Err(e) => Err(e),
            };
        }
        let default = match self.parse_imported_binding() {
            Ok(name) => name,
            Err(e) => return Err(e),
        };
        let ghost after_default = declared_view(self.scope.lexical@);
        proof {
            assert(after_default =~= declared_view(old(self).scope.lexical@) + seq![binding_entry(default)]);
        }
        if self.current.kind != TokenKind::Comma {
            return Ok(ImportClause::Default(default));
        }
        if let Err(e) = self.advance(Goal::RegExp) {
            return Err(e);
        }
        if self.current.kind == TokenKind::Star {
            return match self.parse_namespace_import() {
                Ok(namespace) => {
                    proof {
                        assert(declared_view(self.scope.lexical@) =~= declared_view(old(self).scope.lexical@) + seq![
                            binding_entry(default),
                            binding_entry(namespace),
                        ]);
                    }
                    Ok(ImportClause::DefaultAndNamespace(default, namespace))
                },
                Err(e) => Err(e),
            };
        }
        proof {
            assert forall|named: Seq<(Seq<char>, Span)>| #[trigger] (after_default + named) == declared_view(
                old(self).scope.lexical@,
            ) + (seq![binding_entry(default)] + named) by {
                assert((after_default + named) =~= declared_view(old(self).scope.lexical@) + (seq![
                    binding_entry(default),
                ] + named));
            }
        }
        match self.parse_named_imports() {
            Ok(specifiers) => Ok(ImportClause::DefaultAndNamed(default, specifiers)),
            Err(e) => Err(e),
        }
    }

    /// `* as name`.
    pub fn parse_namespace_import(&mut self) -> (r: Result<BindingName, ParseError>)
        requires
            old(self).wf(),
        ensures
            final(self).kept_from(*old(self)),
            r is Ok ==> old(self).current.kind == TokenKind::Star && final(self).moved_past(*old(self)),
            r matches Ok(n) ==> declared_view(final(self).scope.lexical@) == declared_view(old(self).scope.lexical@).push(
                binding_entry(n),
            ),
            old(self).current.kind != TokenKind::Star ==> *final(self) == *old(self) && (r matches Err(e)
                && e.kind == (ParseErrorKind::Unexpected { expected: "`*`", found: old(self).current.kind })
                && e.span == old(self).current.span),
    {
        if let Err(e) = self.eat(TokenKind::Star, Goal::Div, "`*`") {
            return Err(e);
        }
        if let Err(e) = self.eat_contextual("as", "`as`") {
            return Err(e);
        }
        self.parse_imported_binding()
    }

    /// `{ ImportsList }`.
    pub fn parse_named_imports(&mut self) -> (r: Result<Vec<ImportSpecifier>, ParseError>)
        requires
            old(self).wf(),
        ensures
            final(self).kept_from(*old(self)),
            r is Ok ==> old(self).current.kind == TokenKind::LBrace && final(self).moved_past(*old(self)),
            old(self).current.kind != TokenKind::LBrace ==> *final(self) == *old(self) && (r matches Err(e)
                && e.kind == (ParseErrorKind::Unexpected { expected: "`{`", found: old(self).current.kind })
                && e.span == old(self).current.span),
            r matches Ok(v) ==> declared_view(final(self).scope.lexical@) == declared_view(old(self).scope.lexical@)
                + specifier_bindings(v@),
    {
        if let Err(e) = self.eat(TokenKind::LBrace, Goal::RegExp, "`{`") {
            return Err(e);
        }
        let mut specifiers: Vec<ImportSpecifier> = Vec::new();
        while self.current.kind != TokenKind::RBrace
            invariant
                self.kept_from(*old(self)),
                old(self).current.kind == TokenKind::LBrace,
                self.moved_past(*old(self)),
                declared_view(self.scope.lexical@) == declared_view(old(self).scope.lexical@) + specifier_bindings(
                    specifiers@,
                ),
            decreases self.remaining(),
        {
            match self.parse_import_specifier() {
                Ok(specifier) => {
                    proof {
                        assert(specifier_bindings(specifiers@.push(specifier)) =~= specifier_bindings(specifiers@).push(
                            binding_entry(specifier.local),
                        ));
                    }
                    specifiers.push(specifier);
                },
                Err(e) => return Err(e),
            }
            if self.current.kind != TokenKind::Comma {
                break;
            }
            if let Err(e) = self.advance(Goal::RegExp) {
                return Err(e);
            }
        }
        if let Err(e) = self.eat(TokenKind::RBrace, Goal::Div, "`}`") {
            return Err(e);
        }
        Ok(specifiers)
    }

    /// `ImportSpecifier`: a name imported as itself, or any export name `as` a binding. A
    /// string needs the `as`, having no name of its own to bind.
    #[verifier::rlimit(50)]
    #[verifier::spinoff_prover]
    pub fn parse_import_specifier(&mut self) -> (r: Result<ImportSpecifier, ParseError>)
        requires
            old(self).wf(),
        ensures
            final(self).kept_from(*old(self)),
            r is Ok ==> final(self).moved_past(*old(self)),
            r matches Ok(s) ==> export_name_written(old(self).bytes@, old(self).current, s.imported),
            r matches Ok(s) ==> identifier_name(old(self).bytes@, s.local.span) == Some(s.local.name@),
            r matches Ok(s) ==> s.local.span == old(self).current.span || s.local.span.start > old(self).current.span.start,
            r matches Ok(s) ==> declared_view(final(self).scope.lexical@) == declared_view(old(self).scope.lexical@).push(
                binding_entry(s.local),
            ),
    {
        let token = self.current;
        let imported = match self.parse_module_export_name() {
            Ok(imported) => imported,
            Err(e) => return Err(e),
        };
        if self.at_contextual("as") {
            if let Err(e) = self.advance(Goal::RegExp) {
                return Err(e);
            }
            return match self.parse_imported_binding() {
                Ok(local) => Ok(ImportSpecifier { imported, local }),
                Err(e) => Err(e),
            };
        }
        let name = match &imported {
            ModuleExportName::Identifier(name) => name.clone(),
            ModuleExportName::String(_) => {
                return Err(ParseError { kind: ParseErrorKind::StringImportWithoutAlias, span: token.span });
            },
        };
        if !self.is_identifier_token(token.kind) {
            return Err(self.unexpected("`as`"));
        }
        if let Err(e) = self.check_strict_name(name.as_str(), token.span, true) {
            return Err(e);
        }
        let ghost before = self.scope.lexical@;
        if let Err(e) = self.declare_lexical(name.as_str(), token.span) {
            return Err(e);
        }
        let local = BindingName { name, span: token.span };
        proof {
            lemma_declared_push(before, self.scope.lexical@, binding_entry(local));
        }
        Ok(ImportSpecifier { imported, local })
    }

    /// `ModuleExportName`: any identifier name, reserved words included, or a string.
    pub fn parse_module_export_name(&mut self) -> (r: Result<ModuleExportName, ParseError>)
        requires
            old(self).wf(),
        ensures
            final(self).kept_from(*old(self)),
            r is Ok ==> final(self).moved_past(*old(self)),
            r matches Ok(n) ==> export_name_written(old(self).bytes@, old(self).current, n),
            r is Ok ==> old(self).next_read(Goal::Div) == Ok::<Token, LexError>(final(self).current),
            final(self).scope == old(self).scope,
    {
        let token = self.current;
        match token.kind {
            TokenKind::String { .. } => {
                if let Err(e) = self.advance(Goal::Div) {
                    return Err(e);
                }
                match string_value(self.bytes, token.span) {
                    Some(value) => Ok(ModuleExportName::String(value)),
                    None => Err(self.value_missing(token)),
                }
            },
            TokenKind::Identifier { .. } | TokenKind::Keyword(_) => {
                if let Err(e) = self.advance(Goal::Div) {
                    return Err(e);
                }
                match self.name_of(token) {
                    Ok(name) => Ok(ModuleExportName::Identifier(name)),
                    Err(e) => Err(e),
                }
            },
            _ => Err(self.unexpected("an export name")),
        }
    }

    /// `ImportedBinding`, declared lexically in the module.
    pub fn parse_imported_binding(&mut self) -> (r: Result<BindingName, ParseError>)
        requires
            old(self).wf(),
        ensures
            final(self).kept_from(*old(self)),
            r is Ok ==> final(self).moved_past(*old(self)),
            r is Ok <==> old(self).is_identifier_kind(old(self).current.kind) && old(self).next_read(Goal::Div) is Ok
                && match identifier_name(old(self).source.spec_bytes(), old(self).current.span) {
                Some(name) => !(old(self).strict && (is_strict_reserved(name) || is_eval_or_arguments(name)))
                    && !holds_name(old(self).scope.lexical@, old(self).scope.lexical_start as int, name)
                    && !holds_name(old(self).scope.vars@, old(self).scope.vars_start as int, name),
                None => false,
            },
            r matches Ok(name) ==> identifier_name(old(self).source.spec_bytes(), old(self).current.span)
                == Some(name.name@) && final(self).scope.declares(name.name@, true),
            r matches Ok(name) ==> name.span == old(self).current.span,
            r matches Ok(name) ==> declared_view(final(self).scope.lexical@) == declared_view(old(self).scope.lexical@).push(
                binding_entry(name),
            ),
    {
        let name = match self.parse_binding_name() {
            Ok(name) => name,
            Err(e) => return Err(e),
        };
        let ghost before = self.scope.lexical@;
        if let Err(e) = self.declare_lexical(name.name.as_str(), name.span) {
            return Err(e);
        }
        proof {
            lemma_declared_push(before, self.scope.lexical@, binding_entry(name));
        }
        Ok(name)
    }

    /// `ModuleSpecifier`: a string.
    pub fn parse_module_specifier(&mut self) -> (r: Result<Vec<u16>, ParseError>)
        requires
            old(self).wf(),
        ensures
            final(self).kept_from(*old(self)),
            r is Ok ==> final(self).moved_past(*old(self)),
            r is Ok <==> old(self).current.kind is String && old(self).next_read(Goal::Div) is Ok && cooked(
                old(self).bytes@,
                old(self).current.span.start + 1,
                old(self).current.span.end - 1,
            ) is Some && old(self).current.span.start + 2 <= old(self).current.span.end,
            r matches Ok(units) ==> cooked(
                old(self).bytes@,
                old(self).current.span.start + 1,
                old(self).current.span.end - 1,
            ) == Some(units@),
            !(old(self).current.kind is String) ==> *final(self) == *old(self),
            r is Ok ==> old(self).next_read(Goal::Div) == Ok::<Token, LexError>(final(self).current),
    {
        let token = self.current;
        match token.kind {
            TokenKind::String { .. } => {},
            _ => return Err(self.unexpected("a module specifier")),
        }
        if let Err(e) = self.advance(Goal::Div) {
            return Err(e);
        }
        match string_value(self.bytes, token.span) {
            Some(value) => Ok(value),
            None => Err(self.value_missing(token)),
        }
    }

    /// `WithClause`: `with { key: "value", … }`, if there is one. The attributes are its
    /// entries, one per `key: "value"`, in the order written.
    #[verifier::rlimit(60)]
    #[verifier::spinoff_prover]
    pub fn parse_with_clause(&mut self) -> (r: Result<Vec<ImportAttribute>, ParseError>)
        requires
            old(self).wf(),
        ensures
            final(self).kept_from(*old(self)),
            old(self).current.kind != TokenKind::Keyword(ReservedWord::With) ==> *final(self) == *old(self)
                && (r matches Ok(v) && v@.len() == 0),
            r is Ok && old(self).current.kind == TokenKind::Keyword(ReservedWord::With) ==> final(self).moved_past(*old(self)),
            r matches Ok(v) ==> with_clause_from(old(self).bytes@, old(self).module, old(self).current, v@),
    {
        proof {
            reveal(with_clause_from);
        }
        let mut attributes: Vec<ImportAttribute> = Vec::new();
        if self.current.kind != TokenKind::Keyword(ReservedWord::With) {
            return Ok(attributes);
        }
        let ghost bytes = self.bytes@;
        let ghost module = self.module;
        proof {
            self.lemma_next_read_from_current_end(Goal::RegExp);
        }
        if let Err(e) = self.advance(Goal::RegExp) {
            return Err(e);
        }
        let ghost open = self.current;
        proof {
            self.lemma_next_read_from_current_end(Goal::RegExp);
        }
        if let Err(e) = self.eat(TokenKind::LBrace, Goal::RegExp, "`{`") {
            return Err(e);
        }
        let ghost start = open.span.end as int;
        let ghost mut slot: int = start;
        let ghost mut last_pending = false;
        proof {
            assert(attributes_between(bytes, module, start, attributes@, slot));
        }
        while self.current.kind != TokenKind::RBrace
            invariant_except_break
                Ok::<Token, LexError>(self.current) == lex_token(bytes, slot, Goal::RegExp, module),
                attributes_between(bytes, module, start, attributes@, slot),
                !last_pending,
            invariant
                self.kept_from(*old(self)),
                self.moved_past(*old(self)),
                old(self).current.kind == TokenKind::Keyword(ReservedWord::With),
                bytes == self.bytes@,
                module == self.module,
            ensures
                self.kept_from(*old(self)),
                self.moved_past(*old(self)),
                bytes == self.bytes@,
                module == self.module,
                !last_pending ==> attributes_between(bytes, module, start, attributes@, slot) && closes_at(
                    bytes,
                    module,
                    slot,
                ),
                last_pending ==> attributes@.len() > 0 && attributes_between(
                    bytes,
                    module,
                    start,
                    attributes@.drop_last(),
                    slot,
                ) && entry_read(bytes, module, slot, attributes@.last()) && lex_token(
                    bytes,
                    entry_end(bytes, module, slot),
                    Goal::Div,
                    module,
                ) == Ok::<Token, LexError>(self.current),
            decreases self.remaining(),
        {
            let ghost key_token = self.current;
            proof {
                self.lemma_next_read_from_current_end(Goal::Div);
            }
            let key = match self.parse_module_export_name() {
                Ok(key) => key,
                Err(e) => return Err(e),
            };
            let ghost colon = self.current;
            proof {
                self.lemma_next_read_from_current_end(Goal::RegExp);
            }
            if let Err(e) = self.eat(TokenKind::Colon, Goal::RegExp, "`:`") {
                return Err(e);
            }
            let token = self.current;
            match token.kind {
                TokenKind::String { .. } => {},
                _ => return Err(self.unexpected("a string")),
            }
            proof {
                self.lemma_next_read_from_current_end(Goal::Div);
            }
            if let Err(e) = self.advance(Goal::Div) {
                return Err(e);
            }
            let value = match string_value(self.bytes, token.span) {
                Some(value) => value,
                None => return Err(self.value_missing(token)),
            };
            let attribute = ImportAttribute { key, value };
            proof {
                assert(entry_tokens(bytes, module, slot) == Some((key_token, colon, token)));
                assert(entry_read(bytes, module, slot, attribute));
            }
            if self.current.kind != TokenKind::Comma {
                proof {
                    assert(attributes@.push(attribute).drop_last() =~= attributes@);
                    last_pending = true;
                }
                attributes.push(attribute);
                break;
            }
            proof {
                assert(attribute_step(bytes, module, slot, attribute, TokenKind::Comma, self.current.span.end as int));
                lemma_attributes_extend(bytes, module, start, attributes@, slot, attribute, self.current.span.end as int);
                self.lemma_next_read_from_current_end(Goal::RegExp);
            }
            let ghost comma = self.current;
            attributes.push(attribute);
            if let Err(e) = self.advance(Goal::RegExp) {
                return Err(e);
            }
            proof {
                slot = comma.span.end as int;
            }
        }
        let close = match self.eat(TokenKind::RBrace, Goal::Div, "`}`") {
            Ok(close) => close,
            Err(e) => return Err(e),
        };
        proof {
            reveal(attributes_from);
            if last_pending {
                assert(attribute_step(bytes, module, slot, attributes@.last(), TokenKind::RBrace, close.span.end as int));
            } else {
                assert(attributes_between(bytes, module, start, attributes@, slot) && closes_at(bytes, module, slot));
            }
            assert(attributes_from(bytes, module, start, attributes@));
        }
        Ok(attributes)
    }

    /// Consume the contextual keyword `word`, unescaped, or fail wanting `expected`.
    pub fn eat_contextual(&mut self, word: &str, expected: &'static str) -> (r: Result<(), ParseError>)
        requires
            old(self).wf(),
        ensures
            final(self).kept_from(*old(self)),
            r is Ok ==> final(self).moved_past(*old(self)),
            r is Ok ==> old(self).current.kind == (TokenKind::Identifier { contains_escape: false })
                && old(self).spells(old(self).current, word),
            !(old(self).current.kind == (TokenKind::Identifier { contains_escape: false }) && old(
                self,
            ).spells(old(self).current, word)) ==> *final(self) == *old(self) && (r matches Err(e)
                && e.kind == (ParseErrorKind::Unexpected { expected, found: old(self).current.kind })
                && e.span == old(self).current.span),
            old(self).current.kind == (TokenKind::Identifier { contains_escape: false }) && old(
                self,
            ).spells(old(self).current, word) && blank_from(old(self).bytes@, old(self).lexer.pos as int)
                ==> r is Ok && final(self).current.kind == TokenKind::Eof,
            old(self).current.kind == (TokenKind::Identifier { contains_escape: false }) && old(self).spells(
                old(self).current,
                word,
            ) ==> (r is Ok <==> old(self).next_read(Goal::RegExp) is Ok),
            r is Ok ==> old(self).next_read(Goal::RegExp) == Ok::<Token, LexError>(final(self).current),
            final(self).scope == old(self).scope,
            r is Err && old(self).current.kind == (TokenKind::Identifier { contains_escape: false })
                && old(self).spells(old(self).current, word) ==> r->Err_0 == lexical_error(
                old(self).next_read(Goal::RegExp)->Err_0,
            ),
    {
        if !self.at_contextual(word) {
            return Err(self.unexpected(expected));
        }
        match self.advance(Goal::RegExp) {
            Ok(_) => Ok(()),
            Err(e) => Err(e),
        }
    }

    /// Whether `name`, named as a local binding by an export, is declared at the top level.
    pub open spec fn local_declared(&self, name: ModuleExportName) -> bool {
        match name {
            ModuleExportName::Identifier(text) => holds_name(self.scope.lexical@, 0, text@) || holds_name(
                self.scope.vars@,
                0,
                text@,
            ),
            ModuleExportName::String(_) => false,
        }
    }

    /// Whether every local binding `item` exports, if it is an `export { … }` without `from`,
    /// is declared at the top level.
    pub open spec fn exports_declared(&self, item: ModuleItem) -> bool {
        match item {
            ModuleItem::Export(declaration) => match declaration.kind {
                ExportKind::Named(specifiers) => forall|j: int|
                    0 <= j < specifiers@.len() ==> self.local_declared(#[trigger] specifiers@[j].local),
                _ => true,
            },
            _ => true,
        }
    }

    /// §16.2.1.1: every local name an `export { … }` without `from` names is a name declared
    /// at the top level of the module.
    pub fn check_exports(&self, body: &Vec<ModuleItem>) -> (r: Result<(), ParseError>)
        ensures
            r is Ok <==> forall|k: int| 0 <= k < body@.len() ==> self.exports_declared(#[trigger] body@[k]),
            r matches Err(e) ==> e.kind == ParseErrorKind::UndeclaredExportedName,
    {
        let mut k: usize = 0;
        while k < body.len()
            invariant
                k <= body@.len(),
                forall|i: int| 0 <= i < k ==> self.exports_declared(#[trigger] body@[i]),
            decreases body.len() - k,
        {
            if let ModuleItem::Export(declaration) = &body[k] {
                let locals = super::export::exported_bindings(declaration);
                let mut j: usize = 0;
                while j < locals.len()
                    invariant
                        k < body@.len(),
                        body@[k as int] == ModuleItem::Export(*declaration),
                        j <= locals@.len(),
                        declaration.kind matches ExportKind::Named(specifiers) ==> locals@.len()
                            == specifiers@.len() && forall|i: int|
                            0 <= i < locals@.len() ==> *(#[trigger] locals@[i]) == specifiers@[i].local,
                        !(declaration.kind is Named) ==> locals@.len() == 0,
                        forall|i: int| 0 <= i < j ==> self.local_declared(*(#[trigger] locals@[i])),
                    decreases locals.len() - j,
                {
                    let declared = match locals[j] {
                        ModuleExportName::Identifier(name) => self.declared_at_top(name.as_str()),
                        ModuleExportName::String(_) => false,
                    };
                    if !declared {
                        return Err(ParseError { kind: ParseErrorKind::UndeclaredExportedName, span: declaration.span });
                    }
                    j = j + 1;
                }
                proof {
                    if let ExportKind::Named(specifiers) = &declaration.kind {
                        assert forall|i: int| 0 <= i < specifiers@.len() implies self.local_declared(
                            #[trigger] specifiers@[i].local,
                        ) by {
                            assert(*locals@[i] == specifiers@[i].local);
                        }
                    }
                }
            }
            k = k + 1;
        }
        Ok(())
    }
}

} // verus!
