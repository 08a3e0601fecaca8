//! Scripts and statements (§14, §16.1).
//!
//! A `StatementListItem` is a `Statement` or a `Declaration`; only the first may stand where the
//! grammar asks for a single statement — the body of an `if`, a loop or a label — so
//! `if (a) function f() {}` and `a: class C {}` are refused where `{ function f() {} }` is not.
//!
//! An `ExpressionStatement` may not begin with `{`, `function`, `class`, `let [` or
//! `async function`, each of which would have been read as something else.

use vstd::prelude::*;
use super::body::{BodyContext, EvalContext};
use super::names::{optional_name, statement_names, DeclaredName};
use super::{first_token_ends, in_source_order, opens_too_deep, statement_spans, ParseError, ParseErrorKind, Parser, MAX_NESTING_DEPTH};
use crate::ast::{DeclarationKind, Expr, ExprKind, Script, Stmt, StmtKind};
use crate::lexer::{blank_from, lemma_left_bracket_read, lex_token, Goal, ReservedWord, TokenKind};
use crate::span::Span;
use vstd::string::StringSliceAdditionalSpecFns;

verus! {

/// What the first token of a `Statement` makes of it (§14): the statement a keyword begins is
/// the one that keyword names; a `{` begins a block and a `;` the empty statement.
pub open spec fn begun_by(first: TokenKind, statement: Stmt) -> bool {
    match first {
        TokenKind::LBrace => statement.kind is Block,
        TokenKind::Semicolon => statement.kind is Empty,
        TokenKind::Keyword(ReservedWord::Var) => statement.kind is Declaration,
        TokenKind::Keyword(ReservedWord::If) => statement.kind is If,
        TokenKind::Keyword(ReservedWord::While) => statement.kind is While,
        TokenKind::Keyword(ReservedWord::Do) => statement.kind is DoWhile,
        TokenKind::Keyword(ReservedWord::For) => statement.kind is For || statement.kind is ForInOf,
        TokenKind::Keyword(ReservedWord::Break) => statement.kind is Break,
        TokenKind::Keyword(ReservedWord::Continue) => statement.kind is Continue,
        TokenKind::Keyword(ReservedWord::Return) => statement.kind is Return,
        TokenKind::Keyword(ReservedWord::With) => statement.kind is With,
        TokenKind::Keyword(ReservedWord::Switch) => statement.kind is Switch,
        TokenKind::Keyword(ReservedWord::Throw) => statement.kind is Throw,
        TokenKind::Keyword(ReservedWord::Try) => statement.kind is Try,
        TokenKind::Keyword(ReservedWord::Debugger) => statement.kind is Debugger,
        _ => true,
    }
}

/// What the first token of a `StatementListItem` makes of it: `function`, `class` and `const`
/// begin the declarations they name, and anything else what it begins as a `Statement`.
pub open spec fn item_begun_by(first: TokenKind, statement: Stmt) -> bool {
    match first {
        TokenKind::Keyword(ReservedWord::Function) => statement.kind is Function,
        TokenKind::Keyword(ReservedWord::Class) => statement.kind is Class,
        TokenKind::Keyword(ReservedWord::Const) => statement.kind is Declaration,
        _ => begun_by(first, statement),
    }
}

/// Whether the names a declaration statement binds are declared lexically: a `let`, a `const`
/// and a class always are, a `var` never is, and a function is where functions are not `var`s
/// — everywhere but the top level of a script or a function body.
pub open spec fn declared_lexically(statement: Stmt, functions_are_vars: bool) -> bool {
    match statement.kind {
        StmtKind::Declaration(declaration) => declaration.kind != DeclarationKind::Var,
        StmtKind::Function(_) => !functions_are_vars,
        _ => true,
    }
}

/// Whether `statement` is the directive a string-literal token at `span` began: an expression
/// statement holding that literal and nothing else.
pub fn is_directive(statement: &Stmt, span: Span) -> (r: bool)
    ensures
        r == (statement.kind matches StmtKind::Expression(expr) && expr.kind is String
            && !expr.parenthesized && expr.span == span),
{
    match &statement.kind {
        StmtKind::Expression(expr) => match expr.kind {
            ExprKind::String(_) => !expr.parenthesized && expr.span.start == span.start && expr.span.end
                == span.end,
            _ => false,
        },
        _ => false,
    }
}

/// The source bytes of a `"use strict"` or `'use strict'` directive, quotes included: the
/// directive counts only as written, with no escape in it.
pub fn spells_use_strict(bytes: &[u8], span: Span) -> (r: bool)
    requires
        span.start <= span.end <= bytes@.len(),
    ensures
        r == (span.end - span.start == 12 && bytes@.subrange(span.start + 1, span.end - 1)
            == "use strict".spec_bytes()),
{
    if span.end - span.start != 12 {
        return false;
    }
    let inner = &bytes[span.start + 1..span.end - 1];
    crate::lexer::same_bytes(inner, "use strict".as_bytes())
}

/// Parse `source` as a `Script` (§16.1). The script, when there is one, covers the whole
/// source.
pub fn parse_script(source: &str) -> (r: Result<Script, ParseError>)
    ensures
        blank_from(source.spec_bytes(), 0) ==> (r matches Ok(script) && script.body@.len() == 0),
        r matches Ok(script) ==> script.span.start == 0 && script.span.end == source.spec_bytes().len(),
        r matches Ok(script) ==> in_source_order(statement_spans(script.body@), 0, source.spec_bytes().len() as int),
        r matches Ok(script) ==> (script.body@.len() == 0 <==> first_token_ends(source.spec_bytes(), false)),
        opens_too_deep(source.spec_bytes()) ==> (r matches Err(e) && e.kind == ParseErrorKind::TooDeeplyNested),
        r matches Ok(script) ==> (script.body@.len() > 0 ==> (lex_token(source.spec_bytes(), 0, Goal::RegExp, false)
            matches Ok(first) && item_begun_by(first.kind, script.body@[0]))),
{
    proof {
        if opens_too_deep(source.spec_bytes()) {
            assert(source.spec_bytes()[0int + 0int] == 0x5bu8);
            lemma_left_bracket_read(source.spec_bytes(), 0, Goal::RegExp, false);
        }
    }
    let mut parser = match Parser::new(source, false) {
        Ok(parser) => parser,
        Err(e) => return Err(e),
    };
    parser.parse_script_body()
}

/// Parse `source` as the `Script` a direct `eval` evaluates (§19.2.1.1), whose grants depend on
/// where the call was written.
pub fn parse_eval(source: &str, context: EvalContext) -> (r: Result<Script, ParseError>)
    ensures
        blank_from(source.spec_bytes(), 0) ==> (r matches Ok(script) && script.body@.len() == 0),
        r matches Ok(script) ==> script.span.start == 0 && script.span.end == source.spec_bytes().len(),
        r matches Ok(script) ==> in_source_order(statement_spans(script.body@), 0, source.spec_bytes().len() as int),
        r matches Ok(script) ==> (script.body@.len() == 0 <==> first_token_ends(source.spec_bytes(), false)),
        opens_too_deep(source.spec_bytes()) ==> (r matches Err(e) && e.kind == ParseErrorKind::TooDeeplyNested),
        r matches Ok(script) ==> (script.body@.len() > 0 ==> (lex_token(source.spec_bytes(), 0, Goal::RegExp, false)
            matches Ok(first) && item_begun_by(first.kind, script.body@[0]))),
{
    proof {
        if opens_too_deep(source.spec_bytes()) {
            assert(source.spec_bytes()[0int + 0int] == 0x5bu8);
            lemma_left_bracket_read(source.spec_bytes(), 0, Goal::RegExp, false);
        }
    }
    let mut parser = match Parser::new(source, false) {
        Ok(parser) => parser,
        Err(e) => return Err(e),
    };
    parser.body_context = BodyContext::eval(context);
    let script = match parser.parse_script_body() {
        Ok(script) => script,
        Err(e) => return Err(e),
    };
    // §15.7.1 reaches into the evaluated text of a call written in a field initialiser.
    if context.in_field_initializer {
        if let Some(span) = parser.arguments_reference {
            return Err(ParseError { kind: ParseErrorKind::ArgumentsInClassInitializer, span });
        }
    }
    Ok(script)
}

impl<'a> Parser<'a> {
    /// The statements of a whole script, and the sweep for private names no class declared.
    pub fn parse_script_body(&mut self) -> (r: Result<Script, ParseError>)
        requires
            old(self).wf(),
        ensures
            old(self).current.kind == TokenKind::Eof && old(self).scope.jump_error is None && old(self).private_references@.len() == 0 ==> (r matches Ok(script) && script.body@.len() == 0
                && *final(self) == *old(self)),
            final(self).kept_from(*old(self)),
            r is Ok ==> final(self).current.kind == TokenKind::Eof,
            r matches Ok(script) ==> script.span.start == 0 && script.span.end == old(self).bytes@.len(),
            r matches Ok(script) ==> in_source_order(statement_spans(script.body@), 0, old(self).bytes@.len() as int),
            r is Ok ==> final(self).scope.jump_error is None && final(self).private_references@.len() == 0,
            r matches Ok(script) ==> (script.body@.len() == 0 <==> old(self).current.kind == TokenKind::Eof),
            old(self).too_deep_ahead() ==> (r matches Err(e) && e.kind == ParseErrorKind::TooDeeplyNested),
            r matches Ok(script) ==> (script.body@.len() > 0 ==> item_begun_by(old(self).current.kind, script.body@[0])),
    {
        let (body, _) = match self.parse_body_with_prologue(TokenKind::Eof) {
            Ok(parts) => parts,
            Err(e) => return Err(e),
        };
        if let Err(e) = self.expect_eof() {
            return Err(e);
        }
        if let Some(error) = self.scope.jump_error {
            return Err(error);
        }
        if self.private_references.len() > 0 {
            return Err(
                ParseError { kind: ParseErrorKind::UndeclaredPrivateName, span: self.private_references[0].1 },
            );
        }
        Ok(Script { body, span: Span::new(0, self.bytes.len()) })
    }

    /// A statement list up to `terminator`, beginning with a directive prologue (§11.2.1). A
    /// `"use strict"` directive makes the rest strict, and says so in the second result; a
    /// legacy octal escape in a directive before it is then the error it would have been.
    pub fn parse_body_with_prologue(&mut self, terminator: TokenKind) -> (r: Result<
        (Vec<Stmt>, bool),
        ParseError,
    >)
        requires
            old(self).wf(),
        ensures
            old(self).current.kind == terminator ==> (r matches Ok((body, _)) && body@.len() == 0
                && *final(self) == *old(self)),
            r matches Ok((body, _)) ==> (body@.len() == 0 <==> old(self).current.kind == terminator),
            old(self).too_deep_ahead() && terminator != TokenKind::LBracket ==> (r matches Err(e) && e.kind
                == ParseErrorKind::TooDeeplyNested),
            r matches Ok((body, _)) ==> (body@.len() > 0 ==> item_begun_by(old(self).current.kind, body@[0])),
            final(self).kept_from(*old(self)),
            r is Ok ==> final(self).current.kind == terminator,
            r matches Ok((body, _)) ==> in_source_order(
                statement_spans(body@),
                old(self).current.span.start as int,
                final(self).current.span.start as int,
            ),
        decreases MAX_NESTING_DEPTH - old(self).depth, 149int,
    {
        let mut body: Vec<Stmt> = Vec::new();
        let mut declares_strict = false;
        let mut in_prologue = true;
        let mut octal_before: Option<Span> = None;
        while self.current.kind != terminator
            invariant
                old(self).current.kind == terminator ==> body@.len() == 0 && *self == *old(self),
                body@.len() == 0 ==> *self == *old(self),
                body@.len() > 0 ==> item_begun_by(old(self).current.kind, body@[0]),
                old(self).too_deep_ahead() && terminator != TokenKind::LBracket ==> body@.len() == 0,
                self.kept_from(*old(self)),
                in_source_order(
                    statement_spans(body@),
                    old(self).current.span.start as int,
                    self.current.span.start as int,
                ),
            decreases self.remaining(),
        {
            let token = self.current;
            let candidate = match token.kind {
                TokenKind::String { .. } => in_prologue,
                _ => false,
            };
            let statement = match self.parse_statement_list_item() {
                Ok(statement) => statement,
                Err(e) => return Err(e),
            };
            if candidate && is_directive(&statement, token.span) {
                if token.kind == (TokenKind::String { legacy_octal: true }) && octal_before.is_none() {
                    octal_before = Some(token.span);
                }
                if spells_use_strict(self.bytes, token.span) {
                    declares_strict = true;
                    self.strict = true;
                    if let Some(span) = octal_before {
                        return Err(ParseError { kind: ParseErrorKind::StrictLegacyOctal, span });
                    }
                }
            } else {
                in_prologue = false;
            }
            proof {
                assert(statement_spans(body@.push(statement)) =~= statement_spans(body@).push(statement.span));
            }
            body.push(statement);
        }
        Ok((body, declares_strict))
    }

    /// `StatementListItem : Statement | Declaration`. A declaration declares its names in the
    /// enclosing block.
    pub fn parse_statement_list_item(&mut self) -> (r: Result<Stmt, ParseError>)
        requires
            old(self).wf(),
        ensures
            r matches Ok(s) ==> final(self).scope.declares_all(statement_names(s), declared_lexically(s, old(self).scope.functions_are_vars)),
            r matches Ok(s) ==> item_begun_by(old(self).current.kind, s),
            final(self).kept_from(*old(self)),
            r matches Ok(s) ==> final(self).read_statement(s, *old(self)),
            r is Ok ==> final(self).moved_past(*old(self)),
            old(self).too_deep_ahead() ==> (r matches Err(e) && e.kind == ParseErrorKind::TooDeeplyNested),
        decreases MAX_NESTING_DEPTH - old(self).depth, 140int,
    {
        let is_async_function = match self.at_async_function() {
            Ok(found) => found,
            Err(e) => return Err(e),
        };
        if is_async_function || self.current.kind == TokenKind::Keyword(ReservedWord::Function) {
            let statement = match self.parse_function_declaration(is_async_function) {
                Ok(statement) => statement,
                Err(e) => return Err(e),
            };
            if let StmtKind::Function(function) = &statement.kind {
                if let Some(name) = &function.name {
                    let declared = if self.scope.functions_are_vars {
                        self.declare_var(name.name.as_str(), name.span)
                    } else {
                        self.declare_lexical(name.name.as_str(), name.span)
                    };
                    if let Err(e) = declared {
                        return Err(e);
                    }
                }
            }
            return Ok(statement);
        }
        if self.current.kind == TokenKind::Keyword(ReservedWord::Class) {
            let statement = match self.parse_class_declaration(true) {
                Ok(statement) => statement,
                Err(e) => return Err(e),
            };
            if let StmtKind::Class(class) = &statement.kind {
                if let Some(name) = &class.name {
                    if let Err(e) = self.declare_lexical(name.name.as_str(), name.span) {
                        return Err(e);
                    }
                }
            }
            return Ok(statement);
        }
        if self.current.kind == TokenKind::Keyword(ReservedWord::Const) {
            return self.parse_declaration(DeclarationKind::Const);
        }
        let is_let = match self.at_lexical_let() {
            Ok(found) => found,
            Err(e) => return Err(e),
        };
        if is_let {
            return self.parse_declaration(DeclarationKind::Let);
        }
        self.parse_statement()
    }

    /// `Statement` (§14): what may stand where the grammar wants exactly one statement.
    pub fn parse_statement(&mut self) -> (r: Result<Stmt, ParseError>)
        requires
            old(self).wf(),
        ensures
            r matches Ok(s) ==> final(self).scope.declares_all(statement_names(s), declared_lexically(s, old(self).scope.functions_are_vars)),
            r matches Ok(s) ==> begun_by(old(self).current.kind, s),
            old(self).current.kind == TokenKind::Keyword(ReservedWord::Function) || old(self).current.kind
                == TokenKind::Keyword(ReservedWord::Class) || old(self).current.kind == TokenKind::Keyword(
                ReservedWord::Const,
            ) ==> (r matches Err(e) && e.kind == ParseErrorKind::DeclarationInStatementPosition && e.span
                == old(self).current.span),
            final(self).kept_from(*old(self)),
            r matches Ok(s) ==> final(self).read_statement(s, *old(self)),
            r is Ok ==> final(self).moved_past(*old(self)),
            old(self).too_deep_ahead() ==> (r matches Err(e) && e.kind == ParseErrorKind::TooDeeplyNested),
        decreases MAX_NESTING_DEPTH - old(self).depth, 130int,
    {
        // The labels directly on this statement, which matter only if it is a loop.
        let run = self.scope.label_run;
        self.scope.label_run = 0;
        let start = self.current;
        match start.kind {
            TokenKind::LBrace => return self.parse_block(),
            TokenKind::Semicolon => {
                return match self.advance(Goal::RegExp) {
                    Ok(token) => Ok(Stmt { kind: StmtKind::Empty, span: token.span }),
                    Err(e) => Err(e),
                };
            },
            TokenKind::Keyword(ReservedWord::Var) => return self.parse_declaration(DeclarationKind::Var),
            TokenKind::Keyword(ReservedWord::If) => return self.parse_if(),
            TokenKind::Keyword(ReservedWord::While) => {
                self.mark_loop_labels(run);
                return self.parse_while();
            },
            TokenKind::Keyword(ReservedWord::Do) => {
                self.mark_loop_labels(run);
                return self.parse_do_while();
            },
            TokenKind::Keyword(ReservedWord::For) => {
                self.mark_loop_labels(run);
                return self.parse_for();
            },
            TokenKind::Keyword(ReservedWord::Break) => return self.parse_break_or_continue(true),
            TokenKind::Keyword(ReservedWord::Continue) => return self.parse_break_or_continue(false),
            TokenKind::Keyword(ReservedWord::Return) => return self.parse_return(),
            TokenKind::Keyword(ReservedWord::With) => return self.parse_with(),
            TokenKind::Keyword(ReservedWord::Switch) => return self.parse_switch(),
            TokenKind::Keyword(ReservedWord::Throw) => return self.parse_throw(),
            TokenKind::Keyword(ReservedWord::Try) => return self.parse_try(),
            TokenKind::Keyword(ReservedWord::Debugger) => return self.parse_debugger(),
            TokenKind::Keyword(ReservedWord::Function) | TokenKind::Keyword(ReservedWord::Class)
            | TokenKind::Keyword(ReservedWord::Const) => {
                return Err(ParseError { kind: ParseErrorKind::DeclarationInStatementPosition, span: start.span });
            },
            _ => {},
        }
        let is_async_function = match self.at_async_function() {
            Ok(found) => found,
            Err(e) => return Err(e),
        };
        if is_async_function {
            return Err(ParseError { kind: ParseErrorKind::DeclarationInStatementPosition, span: start.span });
        }
        // `let [` is a lexical declaration wherever it may stand, and nothing where it may not.
        if self.at_contextual("let") {
            let next = match self.peek(Goal::Div) {
                Ok(next) => next,
                Err(e) => return Err(e),
            };
            if next.kind == TokenKind::LBracket {
                return Err(ParseError { kind: ParseErrorKind::DeclarationInStatementPosition, span: start.span });
            }
        }
        let labelled = match self.at_labelled_statement() {
            Ok(found) => found,
            Err(e) => return Err(e),
        };
        if labelled {
            return self.parse_labelled_statement(run);
        }
        self.parse_expression_statement()
    }

    /// `ExpressionStatement`.
    pub fn parse_expression_statement(&mut self) -> (r: Result<Stmt, ParseError>)
        requires
            old(self).wf(),
        ensures
            r matches Ok(s) ==> s.kind is Expression,
            final(self).kept_from(*old(self)),
            old(self).too_deep_ahead() ==> (r matches Err(e) && e.kind == ParseErrorKind::TooDeeplyNested),
            r matches Ok(s) ==> final(self).read_statement(s, *old(self)),
            r is Ok ==> final(self).moved_past(*old(self)),
        decreases MAX_NESTING_DEPTH - old(self).depth, 115int,
    {
        if let Err(e) = self.enter() {
            return Err(e);
        }
        let expr = self.parse_expression(true);
        self.leave();
        let expr = match expr {
            Ok(expr) => expr,
            Err(e) => return Err(e),
        };
        let end = match self.consume_semicolon(expr.span) {
            Ok(end) => end,
            Err(e) => return Err(e),
        };
        let span = expr.span.to(end);
        Ok(Stmt { kind: StmtKind::Expression(Box::new(expr)), span })
    }

    /// `BlockStatement`.
    pub fn parse_block(&mut self) -> (r: Result<Stmt, ParseError>)
        requires
            old(self).wf(),
        ensures
            r matches Ok(s) ==> s.kind is Block,
            final(self).scope.lexical@ == old(self).scope.lexical@,
            final(self).kept_from(*old(self)),
            r matches Ok(s) ==> final(self).read_since(s.span, old(self).current.span.start as int),
            r is Ok ==> final(self).moved_past(*old(self)),
        decreases MAX_NESTING_DEPTH - old(self).depth, 125int,
    {
        let open = self.current;
        if let Err(e) = self.enter() {
            return Err(e);
        }
        let body = self.parse_block_body();
        self.leave();
        match body {
            Ok((statements, close)) => Ok(Stmt { kind: StmtKind::Block(statements), span: open.span.to(close) }),
            Err(e) => Err(e),
        }
    }

    /// `{ StatementList }`, a scope of its own; the `}` is returned with the statements.
    pub fn parse_block_body(&mut self) -> (r: Result<(Vec<Stmt>, Span), ParseError>)
        requires
            old(self).wf(),
        ensures
            final(self).scope.lexical@ == old(self).scope.lexical@,
            final(self).kept_from(*old(self)),
            r matches Ok((_, close)) ==> final(self).ends_read(close, old(self).current.span.start as int),
            r matches Ok((body, close)) ==> in_source_order(statement_spans(body@), old(self).current.span.start as int, close.start as int),
            r is Ok ==> final(self).moved_past(*old(self)),
        decreases MAX_NESTING_DEPTH - old(self).depth, 149int,
    {
        let none: Vec<DeclaredName> = Vec::new();
        self.parse_block_body_against(&none)
    }

    /// The same, where the block's lexical declarations may not repeat a name in `reserved`:
    /// a catch parameter's, whose block it is (§14.15.1).
    pub fn parse_block_body_against(&mut self, reserved: &Vec<DeclaredName>) -> (r: Result<
        (Vec<Stmt>, Span),
        ParseError,
    >)
        requires
            old(self).wf(),
        ensures
            final(self).scope.lexical@ == old(self).scope.lexical@,
            final(self).kept_from(*old(self)),
            r matches Ok((_, close)) ==> final(self).ends_read(close, old(self).current.span.start as int),
            r matches Ok((body, close)) ==> in_source_order(statement_spans(body@), old(self).current.span.start as int, close.start as int),
            r is Ok ==> final(self).moved_past(*old(self)),
        decreases MAX_NESTING_DEPTH - old(self).depth, 148int,
    {
        if let Err(e) = self.eat(TokenKind::LBrace, Goal::RegExp, "`{`") {
            return Err(e);
        }
        let mark = self.open_scope();
        let statements = self.parse_statements_before_brace();
        let redeclared = match &statements {
            Ok(_) => self.redeclared_in_block(reserved),
            Err(_) => None,
        };
        self.close_scope(mark);
        let statements = match statements {
            Ok(statements) => statements,
            Err(e) => return Err(e),
        };
        if let Some(span) = redeclared {
            return Err(ParseError { kind: ParseErrorKind::CatchParameterRedeclared, span });
        }
        let close = match self.eat(TokenKind::RBrace, Goal::RegExp, "`}`") {
            Ok(close) => close,
            Err(e) => return Err(e),
        };
        Ok((statements, close.span))
    }

    /// The statements of a block, up to the `}` that closes it, which is left unread.
    pub fn parse_statements_before_brace(&mut self) -> (r: Result<Vec<Stmt>, ParseError>)
        requires
            old(self).wf(),
        ensures
            final(self).kept_from(*old(self)),
            r is Ok ==> final(self).current.kind == TokenKind::RBrace,
            r matches Ok(body) ==> in_source_order(
                statement_spans(body@),
                old(self).current.span.start as int,
                final(self).current.span.start as int,
            ),
        decreases MAX_NESTING_DEPTH - old(self).depth, 147int,
    {
        let mut statements: Vec<Stmt> = Vec::new();
        while self.current.kind != TokenKind::RBrace
            invariant
                self.kept_from(*old(self)),
                in_source_order(
                    statement_spans(statements@),
                    old(self).current.span.start as int,
                    self.current.span.start as int,
                ),
            decreases self.remaining(),
        {
            match self.parse_statement_list_item() {
                Ok(statement) => {
                    proof {
                        assert(statement_spans(statements@.push(statement)) =~= statement_spans(statements@).push(
                            statement.span,
                        ));
                    }
                    statements.push(statement);
                },
                Err(e) => return Err(e),
            }
        }
        Ok(statements)
    }

    /// The end of a statement: a `;`, or one automatic semicolon insertion (§12.10) supplies —
    /// before a `}`, at the end of input, or after a line break. `end` is where the statement
    /// ends if no `;` is written.
    pub fn consume_semicolon(&mut self, end: Span) -> (r: Result<Span, ParseError>)
        requires
            old(self).wf(),
        ensures
            final(self).kept_from(*old(self)),
            old(self).current.kind == TokenKind::Semicolon ==> (r matches Ok(s) ==> s == old(self).current.span
                && final(self).read_since(s, old(self).current.span.start as int)),
            r is Ok <==> (old(self).current.kind == TokenKind::Semicolon || old(self).current.kind
                == TokenKind::RBrace || old(self).current.kind == TokenKind::Eof
                || old(self).current.newline_before) && (old(self).current.kind == TokenKind::Semicolon
                ==> r is Ok),
            old(self).current.kind != TokenKind::Semicolon && r is Ok ==> r == Ok::<Span, ParseError>(end)
                && final(self).current == old(self).current && final(self).consumed_to == old(self).consumed_to,
            old(self).current.kind == TokenKind::Semicolon ==> (r is Ok <==> old(self).next_read(Goal::RegExp) is Ok),
            old(self).current.kind != TokenKind::Semicolon ==> *final(self) == *old(self),
    {
        if self.current.kind == TokenKind::Semicolon {
            return match self.advance(Goal::RegExp) {
                Ok(token) => Ok(token.span),
                Err(e) => Err(e),
            };
        }
        if self.current.kind == TokenKind::RBrace || self.current.kind == TokenKind::Eof
            || self.current.newline_before {
            return Ok(end);
        }
        Err(self.unexpected("`;`"))
    }

    /// `WithStatement`, which strict code may not hold (§14.11.1).
    pub fn parse_with(&mut self) -> (r: Result<Stmt, ParseError>)
        requires
            old(self).wf(),
        ensures
            r matches Ok(s) ==> s.kind is With,
            final(self).kept_from(*old(self)),
            r matches Ok(s) ==> final(self).read_statement(s, *old(self)),
            r is Ok ==> final(self).moved_past(*old(self)),
            old(self).strict ==> r is Err,
        decreases MAX_NESTING_DEPTH - old(self).depth, 125int,
    {
        let keyword = self.current;
        if self.strict {
            return Err(ParseError { kind: ParseErrorKind::StrictWith, span: keyword.span });
        }
        if let Err(e) = self.eat(TokenKind::Keyword(ReservedWord::With), Goal::RegExp, "`with`") {
            return Err(e);
        }
        let object = match self.parse_parenthesized_test() {
            Ok(object) => object,
            Err(e) => return Err(e),
        };
        if let Err(e) = self.enter() {
            return Err(e);
        }
        let body = self.parse_statement();
        self.leave();
        let body = match body {
            Ok(body) => body,
            Err(e) => return Err(e),
        };
        let span = keyword.span.to(body.span);
        Ok(Stmt { kind: StmtKind::With(Box::new(crate::ast::WithStatement { object, body })), span })
    }

    /// `DebuggerStatement`.
    pub fn parse_debugger(&mut self) -> (r: Result<Stmt, ParseError>)
        requires
            old(self).wf(),
        ensures
            r matches Ok(s) ==> s.kind is Debugger,
            final(self).kept_from(*old(self)),
            r matches Ok(s) ==> final(self).read_since(s.span, old(self).current.span.start as int),
            r is Ok ==> final(self).moved_past(*old(self)),
            r is Ok <==> old(self).current.kind == TokenKind::Keyword(ReservedWord::Debugger) && match old(
                self,
            ).next_read(Goal::RegExp) {
                Ok(next) => if next.kind == TokenKind::Semicolon {
                    old(self).read_at(next.span.end as int, Goal::RegExp) is Ok
                } else {
                    next.kind == TokenKind::RBrace || next.kind == TokenKind::Eof || next.newline_before
                },
                Err(_) => false,
            },
    {
        let keyword = match self.eat(TokenKind::Keyword(ReservedWord::Debugger), Goal::RegExp, "`debugger`") {
            Ok(keyword) => keyword,
            Err(e) => return Err(e),
        };
        match self.consume_semicolon(keyword.span) {
            Ok(end) => Ok(Stmt { kind: StmtKind::Debugger, span: keyword.span.to(end) }),
            Err(e) => Err(e),
        }
    }
}

} // verus!
