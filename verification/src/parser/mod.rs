//! Tokens to a syntax tree.
//!
//! # How the goal symbol is chosen
//!
//! The lexer refuses to guess whether a `/` is division or a regular expression. The rule this
//! parser uses is a single invariant: **the goal is chosen when advancing past a token, by what
//! may legally follow it.** A token that completes an operand is followed by an operator, so the
//! parser advances past it under [`Goal::Div`]; a token that demands an operand is followed by
//! one, so it advances under [`Goal::RegExp`].
//!
//! # Recursion is bounded here
//!
//! Every recursive entry is counted and refused past [`MAX_NESTING_DEPTH`], so a deeply nested
//! input fails with [`ParseErrorKind::TooDeeplyNested`] rather than exhausting the stack. The
//! count is also what proves that parsing terminates: every cycle of calls passes through
//! [`Parser::enter`].
//!
//! # What every parsing function keeps
//!
//! Each one takes a well-formed parser and leaves it well formed, reading the same text, at
//! the same nesting depth, and no further back than it found it ([`Parser::kept_from`]); most
//! also promise to have moved forward when they succeed ([`Parser::moved_past`]).

pub mod array_literal;
pub mod arrow;
pub mod asynchronous;
pub mod binding;
pub mod body;
pub mod class;
pub mod class_element;
pub mod control;
pub mod declaration;
pub mod error;
pub mod export;
pub mod expression;
pub mod for_in_of;
pub mod for_statement;
pub mod function;
pub mod generator;
pub mod labelled;
pub mod member;
pub mod method;
pub mod module;
pub mod names;
pub mod object_literal;
pub mod operator;
pub mod pattern;
pub mod primary;
pub mod scope;
pub mod statement;
pub mod strict;
pub mod switch;
pub mod template;
pub mod try_catch;

use vstd::prelude::*;
use crate::ast::{Expr, Stmt, StmtKind};
use crate::lexer::{blank_from, trivia_end, lemma_end_of_text_any_goal, lemma_trivia_ends_ahead, lemma_left_bracket_read, lex_token, punctuator_text, reserved_word_text, Goal, LexError, Lexer, ReservedWord, Token, TokenKind};
use crate::lexer::value::{identifier_bytes, identifier_name, identifier_value, literal_value};
use crate::span::Span;
use vstd::string::StringSliceAdditionalSpecFns;
use vstd::utf8::encode_utf8;
use self::body::BodyContext;
use self::scope::ScopeState;

pub use self::body::EvalContext;
pub use self::error::{lexical_error, ParseError, ParseErrorKind};
pub use self::module::parse_module;
pub use self::statement::{parse_eval, parse_script};

verus! {

/// How deeply the grammar may nest before the parser gives up.
///
/// ECMAScript sets no limit, so this is this parser's refusal rather than the grammar's — which
/// is why it has its own [`ParseErrorKind::TooDeeplyNested`].
pub const MAX_NESTING_DEPTH: u32 = 64;

/// Parse `source` as a single expression, which must be all of it. The expression, when there is
/// one, lies within the source.
pub fn parse_expression(source: &str) -> (r: Result<Expr, ParseError>)
    ensures
        blank_from(source.spec_bytes(), 0) ==> r is Err,
        r matches Ok(e) ==> within(e.span, 0, source.spec_bytes().len() as int),
        lone_number(source.spec_bytes()) ==> (r matches Ok(e) && e.kind is Number),
        r matches Ok(e) ==> ends_text_at(source.spec_bytes(), e.span.end as int, false),
        opens_too_deep(source.spec_bytes()) ==> (r matches Err(e) && e.kind == ParseErrorKind::TooDeeplyNested),
        r matches Ok(e) ==> (lex_token(source.spec_bytes(), 0, Goal::RegExp, false) matches Ok(first) && (e.span.start
            == first.span.start || first.kind == (TokenKind::Identifier { contains_escape: false }))),
{
    proof {
        if opens_too_deep(source.spec_bytes()) {
            assert(source.spec_bytes()[0int + 0int] == 0x5bu8);
            lemma_left_bracket_read(source.spec_bytes(), 0, Goal::RegExp, false);
        }
    }
    let mut parser = match Parser::new(source, false) {
        Ok(parser) => parser,
        Err(e) => return Err(e),
    };
    proof {
        reveal(Parser::number_ends_text);
    }
    let expr = match parser.parse_expression(true) {
        Ok(expr) => expr,
        Err(e) => return Err(e),
    };
    if let Err(e) = parser.expect_eof() {
        return Err(e);
    }
    proof {
        reveal(token_in_place);
    }
    // The same §15.7.7 sweep a script gets: a private name no class declared.
    if parser.private_references.len() > 0 {
        return Err(
            ParseError {
                kind: ParseErrorKind::UndeclaredPrivateName,
                span: parser.private_references[0].1,
            },
        );
    }
    Ok(expr)
}

/// Whether `bytes` is one numeric literal with a value, perhaps with blanks around it, read as
/// a script reads it.
pub open spec fn lone_number(bytes: Seq<u8>) -> bool {
    &&& lex_token(bytes, 0, Goal::RegExp, false) matches Ok(first)
    &&& first.kind is Number
    &&& literal_value(bytes, first.span.start as int, first.span.end as int) is Some
    &&& lex_token(bytes, first.span.end as int, Goal::Div, false) matches Ok(next) && next.kind == TokenKind::Eof
}

/// Whether `count` `[` follow one another from offset `from` of `bytes`.
pub open spec fn brackets_from(bytes: Seq<u8>, from: int, count: int) -> bool {
    &&& 0 <= from
    &&& from + count <= bytes.len()
    &&& forall|i: int| 0 <= i < count ==> #[trigger] bytes[from + i] == 0x5bu8
}

/// Whether `bytes` opens with more `[` in a row than the nesting cap lets a parse enter, with
/// one more to read at the last level: such a text is refused as too deeply nested.
pub open spec fn opens_too_deep(bytes: Seq<u8>) -> bool {
    brackets_from(bytes, 0, MAX_NESTING_DEPTH + 2)
}

/// Whether reading from offset `pos` of `bytes` finds the end of the text: only blanks and
/// comments are left.
pub open spec fn ends_text_at(bytes: Seq<u8>, pos: int, module: bool) -> bool {
    lex_token(bytes, pos, Goal::Div, module) matches Ok(t) && t.kind == TokenKind::Eof
}

/// What the token under consideration owes the text around it: a punctuator is spelled there,
/// and the end of the text is found from where the last token consumed ends.
#[verifier::opaque]
pub open spec fn token_in_place(bytes: Seq<u8>, current: Token, consumed_to: int, module: bool) -> bool {
    &&& (punctuator_text(current.kind).len() > 0 ==> bytes.subrange(
        current.span.start as int,
        current.span.end as int,
    ) == punctuator_text(current.kind))
    &&& (current.kind == TokenKind::Eof ==> ends_text_at(bytes, consumed_to, module))
    &&& read_in_place(bytes, consumed_to, module, current)
}

/// Whether `current` is the token that reading from offset `from` gives, under some goal
/// symbol: only blanks and comments stand between what was consumed and it.
pub open spec fn read_in_place(bytes: Seq<u8>, from: int, module: bool, current: Token) -> bool {
    exists|goal: Goal| #[trigger] lex_token(bytes, from, goal, module) matches Ok(t) && t.kind == current.kind && t.span == current.span
}

/// Reading a `}` again from where it starts gives what reading from before the blanks and
/// comments in front of it gives, under any goal.
proof fn lemma_reread_in_place(bytes: Seq<u8>, from: int, start: int, first: Goal, goal: Goal, module: bool)
    requires
        0 <= from,
        0 <= start < bytes.len() <= usize::MAX,
        bytes[start] == 0x7du8,
        lex_token(bytes, from, first, module) matches Ok(t) && t.kind == TokenKind::RBrace && t.span.start
            == start,
    ensures
        lex_token(bytes, start, goal, module) is Ok ==> read_in_place(
            bytes,
            from,
            module,
            lex_token(bytes, start, goal, module)->Ok_0,
        ),
{
    lemma_trivia_ends_ahead(bytes, from, module);
    let (found, newline) = trivia_end(bytes, from, module, from == 0, false)->Ok_0;
    assert(trivia_end(bytes, from, module, from == 0, false) is Ok);
    assert(found < bytes.len());
    assert(found == start);
    assert(trivia_end(bytes, start, module, start == 0, false) == Ok::<(int, bool), LexError>((start, false)));
    if lex_token(bytes, start, goal, module) is Ok {
        let t = lex_token(bytes, start, goal, module)->Ok_0;
        assert(lex_token(bytes, from, goal, module) matches Ok(u) && u.kind == t.kind && u.span == t.span);
    }
}

/// Whether the first token of `bytes` is already the end of the text: there is nothing but
/// blanks and comments to read.
pub open spec fn first_token_ends(bytes: Seq<u8>, module: bool) -> bool {
    lex_token(bytes, 0, Goal::RegExp, module) matches Ok(first) && first.kind == TokenKind::Eof
}

/// That `span` lies within the text from offset `from` to offset `to`.
pub open spec fn within(span: Span, from: int, to: int) -> bool {
    from <= span.start && span.end <= to
}

/// That `spans` lie within the text from `from` to `to`, each ending before the next begins:
/// they come in the order they were written, and no two overlap.
pub open spec fn in_source_order(spans: Seq<Span>, from: int, to: int) -> bool {
    &&& forall|i: int| 0 <= i < spans.len() ==> within(#[trigger] spans[i], from, to)
    &&& forall|i: int, j: int|
        #![trigger spans[i], spans[j]]
        0 <= i < j < spans.len() ==> spans[i].end <= spans[j].start
}

/// Whether a statement's text stops short of the last token read for it: a `do`-`while` whose
/// `;` was left out ends with its condition, before the `)` (§12.10 rule 1(c) leaves that `;`
/// optional), and so does any statement that ends with such a `do`-`while`.
pub open spec fn ends_at_bare_do_while(statement: Stmt) -> bool
    decreases statement,
{
    match statement.kind {
        StmtKind::DoWhile(d) => statement.span.end == d.test.span.end,
        StmtKind::If(i) => match i.alternate {
            Some(alternate) => statement.span.end == alternate.span.end && ends_at_bare_do_while(alternate),
            None => statement.span.end == i.consequent.span.end && ends_at_bare_do_while(i.consequent),
        },
        StmtKind::While(w) => statement.span.end == w.body.span.end && ends_at_bare_do_while(w.body),
        StmtKind::For(f) => statement.span.end == f.body.span.end && ends_at_bare_do_while(f.body),
        StmtKind::ForInOf(f) => statement.span.end == f.body.span.end && ends_at_bare_do_while(f.body),
        StmtKind::Labelled(l) => statement.span.end == l.body.span.end && ends_at_bare_do_while(l.body),
        StmtKind::With(w) => statement.span.end == w.body.span.end && ends_at_bare_do_while(w.body),
        _ => false,
    }
}

/// The spans of a list of statements, in the list's order.
pub open spec fn statement_spans(body: Seq<Stmt>) -> Seq<Span> {
    Seq::new(body.len(), |i: int| body[i].span)
}

/// A rule an `ObjectLiteral` owes, held until something says whether it is still a literal.
#[derive(Debug, Clone, Copy)]
pub struct CoverRecord {
    /// The error this becomes if it is never refined away.
    pub error: ParseError,
    /// The literal that owes the rule, which is what a refinement asks about.
    pub literal: Span,
    /// The start of the innermost sub-expression that would survive a refinement enclosing this
    /// record — an assignment's right operand, a `CoverInitializedName`'s default, a computed
    /// key — or `None` when there is no such sub-expression.
    pub protected_from: Option<usize>,
}

/// A recursive-descent parser over one source text.
pub struct Parser<'a> {
    /// The source text.
    pub source: &'a str,
    /// The same text, as bytes.
    pub bytes: &'a [u8],
    /// Where the next token will be read from.
    pub lexer: Lexer<'a>,
    /// The token under consideration, already read.
    pub current: Token,
    /// Where the last token consumed ends: everything before it has been read.
    pub consumed_to: Ghost<int>,
    /// How many recursive entries are open. See [`Parser::enter`].
    pub depth: u32,
    /// Rules an `ObjectLiteral` owes that a pattern does not, and that nothing has refined away.
    pub unrefined_covers: Vec<CoverRecord>,
    /// Where the innermost sub-expression that survives refinement begins, if one is open.
    pub protecting_from: Option<usize>,
    /// Whether this is strict mode code (§11.2.1).
    pub strict: bool,
    /// Whether a `FunctionBody` encloses this — the `[Return]` grammar parameter.
    pub inside_function: bool,
    /// What the enclosing function grants: `super` and `new.target`.
    pub body_context: BodyContext,
    /// The `[Yield]` grammar parameter: whether `yield` is an operator here.
    pub yield_allowed: bool,
    /// The `[Await]` grammar parameter: whether `await` is an operator here.
    pub await_allowed: bool,
    /// The error a parameter list owes, if a `yield` or `await` expression was read since the
    /// last function boundary.
    pub forbidden_in_parameters: Option<ParseError>,
    /// Where the name `arguments` was read, since the last function boundary.
    pub arguments_reference: Option<Span>,
    /// Every `#name` read whose declaration has not been found yet.
    pub private_references: Vec<(String, Span)>,
    /// Whether the goal symbol is `Module` rather than `Script`.
    pub module: bool,
    /// How many brackets are open that could still turn what is inside them into a pattern or
    /// into arrow parameters.
    pub open_covers: u32,
    /// The declarations, labels and jumps open around the current statement.
    pub scope: ScopeState,
    /// The names this module exports so far, as UTF-16, and where.
    pub exported: Vec<(Vec<u16>, Span)>,
}

impl<'a> Parser<'a> {
    /// The parser's own consistency: the lexer reads the same text, the current token lies
    /// before where the lexer stands, only the end of input is empty, and the nesting count is
    /// within its cap.
    pub open spec fn wf(&self) -> bool {
        &&& self.lexer.source@ == self.bytes@
        &&& self.source.spec_bytes() == self.bytes@
        &&& self.bytes@.len() <= usize::MAX
        &&& self.lexer.module == self.module
        &&& self.lexer.pos <= self.bytes@.len()
        &&& self.current.span.start <= self.current.span.end <= self.lexer.pos
        &&& 0 <= self.consumed_to@ <= self.current.span.start
        &&& (self.current.kind == TokenKind::Eof <==> self.current.span.start == self.bytes@.len())
        &&& (self.current.kind != TokenKind::Eof ==> self.current.span.start < self.current.span.end)
        &&& self.depth <= MAX_NESTING_DEPTH
        &&& self.lexer.pos == self.current.span.end
        &&& token_in_place(self.bytes@, self.current, self.consumed_to@, self.module)
        &&& self.scope.lexical_start <= self.scope.lexical@.len()
        &&& self.scope.vars_start <= self.scope.vars@.len()
    }

    /// What every parsing step keeps of the parser it was handed: well-formedness, the text,
    /// the nesting depth, and its position, which never moves back.
    pub open spec fn advanced_from(&self, before: Parser<'a>) -> bool {
        &&& self.wf()
        &&& self.bytes@ == before.bytes@
        &&& self.module == before.module
        &&& self.depth == before.depth
        &&& self.current.span.start >= before.current.span.start
        &&& self.consumed_to@ >= before.consumed_to@
    }

    /// The same, for every step but those that open or close a scope or a label or add to the
    /// module's exported names: the exported names and the labels open are as they were, and
    /// the declarations open around the step have only been added to.
    pub open spec fn kept_from(&self, before: Parser<'a>) -> bool {
        &&& self.advanced_from(before)
        &&& self.exported == before.exported
        &&& self.scope.declarations_grew_from(before.scope)
        &&& self.scope.labels@ == before.scope.labels@
    }

    /// That `span` is exactly the text read from offset `from` up to here: it begins at `from`
    /// and ends where the last token consumed ends.
    pub open spec fn read_since(&self, span: Span, from: int) -> bool {
        span.start == from && span.end == self.consumed_to@
    }

    /// That `span` lies in the text read since offset `from`.
    pub open spec fn read_within(&self, span: Span, from: int) -> bool {
        from <= span.start && span.end <= self.consumed_to@
    }

    /// That `span` lies in the text read since offset `from` and ends where the last token
    /// consumed ends: the last piece of what was read.
    pub open spec fn ends_read(&self, span: Span, from: int) -> bool {
        from <= span.start && span.end == self.consumed_to@
    }

    /// Whether `token` spells `word` in the source, byte for byte.
    pub open spec fn spells(&self, token: Token, word: &str) -> bool {
        self.bytes@.subrange(token.span.start as int, token.span.end as int) == word.spec_bytes()
    }

    /// Whether the current token is the word `async`, written without escapes.
    pub open spec fn at_async(&self) -> bool {
        &&& self.current.kind == (TokenKind::Identifier { contains_escape: false })
        &&& self.spells(self.current, "async")
    }

    /// That `span` is the text of what was read after `before`: it ends where the last token
    /// consumed ends, and begins where `before` stood — or, for what begins with `async
    /// function`, at the `function`, which is where a function's span starts.
    pub open spec fn read_after(&self, span: Span, before: Parser<'a>) -> bool {
        &&& self.ends_read(span, before.current.span.start as int)
        &&& span.start == before.current.span.start || before.at_async()
    }

    /// The same, for what continues `head` when there is one: then it begins where `head` does.
    pub open spec fn read_after_head(&self, span: Span, head: Option<Expr>, before: Parser<'a>) -> bool {
        match head {
            Some(h) => self.read_since(span, h.span.start as int),
            None => self.read_after(span, before),
        }
    }

    /// That `statement` is the text read after `before`, as [`Parser::read_after`] says, except
    /// that one ending with a `do`-`while` written without its `;` ends with that loop's
    /// condition, short of the `)` read after it.
    pub open spec fn read_statement(&self, statement: Stmt, before: Parser<'a>) -> bool {
        &&& self.ends_statement(statement, before.current.span.start as int)
        &&& statement.span.start == before.current.span.start || before.at_async()
    }

    /// That `statement` lies in the text read since offset `from` and is the last thing read:
    /// it ends where the last token consumed ends, or with a `do`-`while`'s condition as
    /// [`Parser::read_statement`] allows.
    pub open spec fn ends_statement(&self, statement: Stmt, from: int) -> bool {
        &&& from <= statement.span.start
        &&& statement.span.end <= self.consumed_to@
        &&& statement.span.end == self.consumed_to@ || ends_at_bare_do_while(statement)
    }

    /// Whether this parser is `before` but for its nesting depth: every other field is as it
    /// was.
    #[verifier::opaque]
    pub open spec fn differs_only_in_depth(&self, before: Parser<'a>) -> bool {
        *self == (Parser { depth: self.depth, ..before })
    }

    /// Whether the current token is a `[` that more `[` follow at once than the levels of
    /// nesting left have room for.
    pub open spec fn too_deep_ahead(&self) -> bool {
        &&& self.current.kind == TokenKind::LBracket
        &&& self.current.span.end == self.current.span.start + 1
        &&& brackets_from(self.bytes@, self.current.span.start as int, MAX_NESTING_DEPTH - self.depth + 2)
    }

    /// Reading on reads from where the current token ends.
    pub proof fn lemma_next_read_from_current_end(&self, goal: Goal)
        requires
            self.wf(),
        ensures
            self.next_read(goal) == lex_token(self.bytes@, self.current.span.end as int, goal, self.module),
    {
    }

    /// The current token is what reading from the end of the last token consumed gives,
    /// under some goal.
    pub proof fn lemma_current_in_place(&self)
        requires
            self.wf(),
        ensures
            read_in_place(self.bytes@, self.consumed_to@, self.module, self.current),
    {
        reveal(token_in_place);
    }

    /// After a `[` that another `[` follows, reading on gives that `[`.
    pub proof fn lemma_next_bracket(&self, goal: Goal)
        requires
            self.wf(),
            self.current.span.end < self.bytes@.len(),
            self.bytes@[self.current.span.end as int] == 0x5bu8,
        ensures
            self.next_read(goal) matches Ok(t) && t.kind == TokenKind::LBracket && t.span.start
                == self.current.span.end && t.span.end == self.current.span.end + 1,
    {
        lemma_left_bracket_read(self.bytes@, self.current.span.end as int, goal, self.module);
    }

    /// Whether all that is left to read is one numeric literal with a value, which nothing has
    /// left a rule to answer for: the current token is the number, strict code allows how it is
    /// written, and the end of the text follows it.
    pub open spec fn at_lone_number(&self) -> bool {
        &&& self.current.kind is Number
        &&& self.unrefined_covers@.len() == 0
        &&& self.number_ends_text()
    }

    /// Whether the current token, a number, has a value strict code allows, and the end of the
    /// text follows it.
    #[verifier::opaque]
    pub open spec fn number_ends_text(&self) -> bool {
        &&& !(self.strict && self.current.kind == (TokenKind::Number { legacy: true }))
        &&& literal_value(self.bytes@, self.current.span.start as int, self.current.span.end as int) is Some
        &&& self.next_read(Goal::Div) matches Ok(next) && next.kind == TokenKind::Eof
    }

    /// That `r` is the number read from `before`, with the end of the text now current and the
    /// records of what is owed untouched.
    pub open spec fn read_one_number(&self, before: Parser<'a>, r: Result<Expr, ParseError>) -> bool {
        &&& r matches Ok(e) && e.kind is Number
        &&& self.current.kind == TokenKind::Eof
        &&& self.private_references == before.private_references
        &&& self.unrefined_covers == before.unrefined_covers
    }

    /// The token that reading on from where the lexer stands, under `goal`, gives, or why
    /// there is none.
    pub open spec fn next_read(&self, goal: Goal) -> Result<Token, LexError> {
        self.read_at(self.lexer.pos as int, goal)
    }

    /// The token that reading from offset `pos` of the text under `goal` gives, or why there is
    /// none.
    pub closed spec fn read_at(&self, pos: int, goal: Goal) -> Result<Token, LexError> {
        lex_token(self.bytes@, pos, goal, self.module)
    }

    /// The token that reading the current token's text again under `goal` gives, or why there
    /// is none.
    pub closed spec fn reread(&self, goal: Goal) -> Result<Token, LexError> {
        lex_token(self.bytes@, self.current.span.start as int, goal, self.module)
    }

    /// Whether the token that reading on under `goal` gives is `token`, or, where reading
    /// fails, whether `error` is the parse error that the failure makes.
    pub open spec fn reads(&self, goal: Goal, r: Result<Token, ParseError>) -> bool {
        match self.next_read(goal) {
            Ok(t) => r == Ok::<Token, ParseError>(t),
            Err(e) => r == Err::<Token, ParseError>(lexical_error(e)),
        }
    }

    /// That the parser has consumed at least one token since `before`.
    pub open spec fn moved_past(&self, before: Parser<'a>) -> bool {
        self.current.span.start > before.current.span.start
    }

    /// Parsing steps compose: a step taken after a step keeps what the first was handed — the
    /// text, the nesting depth, well-formedness, a position never further back — and if either
    /// step moved forward, the two together did.
    pub proof fn lemma_steps_compose(first: Parser<'a>, second: Parser<'a>, third: Parser<'a>)
        requires
            second.kept_from(first),
            third.kept_from(second),
        ensures
            third.kept_from(first),
            second.moved_past(first) || third.moved_past(second) ==> third.moved_past(first),
            third.remaining() <= first.remaining(),
    {
    }

    /// How much input is left to read, which every loop over tokens shrinks.
    pub open spec fn remaining(&self) -> int {
        self.bytes@.len() - self.current.span.start
    }

    /// A parser positioned on the first token of `source`, which is read under [`Goal::RegExp`]:
    /// a program begins where an operand may stand.
    pub fn new(source: &'a str, module: bool) -> (r: Result<Parser<'a>, ParseError>)
        ensures
            r matches Ok(p) ==> p.arguments_reference is None,
            blank_from(source.spec_bytes(), 0) ==> (r matches Ok(p) && p.current.kind == TokenKind::Eof),
            r matches Ok(p) ==> p.wf() && p.depth == 0 && p.module == module && !p.strict
                && p.open_covers == 0,
            r matches Ok(p) ==> p.bytes@ == source.spec_bytes() && p.source == source,
            r is Ok <==> lex_token(source.spec_bytes(), 0, Goal::RegExp, module) is Ok,
            r matches Ok(p) ==> Ok::<Token, LexError>(p.current) == lex_token(source.spec_bytes(), 0, Goal::RegExp, module)
                && p.lexer.pos == p.current.span.end,
            r matches Ok(p) ==> p.scope.lexical@.len() == 0 && p.scope.vars@.len() == 0
                && p.scope.jump_error is None && p.exported@.len() == 0
                && p.private_references@.len() == 0 && p.unrefined_covers@.len() == 0,
    {
        let bytes = source.as_bytes();
        // A slice's length is a `usize`, which bounds every offset into the text.
        let length: usize = bytes.len();
        assert(bytes@.len() == length);
        let mut lexer = Lexer::new(bytes, module);
        let current = match lexer.next_token(Goal::RegExp) {
            Ok(token) => token,
            Err(e) => return Err(ParseError::from_lex(e)),
        };
        proof {
            reveal(token_in_place);
            if current.kind == TokenKind::Eof {
                lemma_end_of_text_any_goal(bytes@, 0, Goal::RegExp, Goal::Div, module);
            }
            assert(lex_token(bytes@, 0, Goal::RegExp, module) == Ok::<Token, LexError>(current));
        }
        Ok(
            Parser {
                source,
                bytes,
                lexer,
                current,
                consumed_to: Ghost(0),
                depth: 0,
                unrefined_covers: Vec::new(),
                protecting_from: None,
                strict: false,
                inside_function: false,
                body_context: BodyContext::script(),
                yield_allowed: false,
                await_allowed: false,
                forbidden_in_parameters: None,
                arguments_reference: None,
                private_references: Vec::new(),
                module,
                open_covers: 0,
                scope: ScopeState::new(),
                exported: Vec::new(),
            },
        )
    }

    /// Whether a token of this kind can stand where §13.1 wants an `Identifier`.
    pub open spec fn is_identifier_kind(&self, kind: TokenKind) -> bool {
        kind is Identifier || (kind == TokenKind::Keyword(ReservedWord::Yield) && !self.yield_allowed)
            || (kind == TokenKind::Keyword(ReservedWord::Await) && !self.await_allowed && !self.module)
    }

    /// Whether this token can stand where §13.1 wants an `Identifier`: any identifier, and
    /// `yield` and `await` wherever their grammar parameter is off — `await` never in a module.
    pub fn is_identifier_token(&self, kind: TokenKind) -> (r: bool)
        ensures
            r == self.is_identifier_kind(kind),
    {
        match kind {
            TokenKind::Identifier { .. } => true,
            TokenKind::Keyword(ReservedWord::Yield) => !self.yield_allowed,
            TokenKind::Keyword(ReservedWord::Await) => !self.await_allowed && !self.module,
            _ => false,
        }
    }

    /// The `StringValue` of the name `token` spells, or the error for a token whose value the
    /// lexer produced and this parser cannot read back.
    pub fn name_of(&self, token: Token) -> (r: Result<String, ParseError>)
        ensures
            r matches Err(e) ==> e.span == token.span,
            r matches Ok(name) ==> (!self.source.spec_bytes().subrange(
                token.span.start as int,
                token.span.end as int,
            ).contains(0x5cu8) ==> encode_utf8(name@) == self.source.spec_bytes().subrange(
                token.span.start as int,
                token.span.end as int,
            )),
            r matches Ok(name) ==> identifier_bytes(
                self.source.spec_bytes(),
                token.span.start as int,
                token.span.end as int,
            ) == Some(encode_utf8(name@)),
            token.span.start <= token.span.end <= self.source.spec_bytes().len() && identifier_bytes(
                self.source.spec_bytes(),
                token.span.start as int,
                token.span.end as int,
            ) is None ==> r is Err,
            match r {
                Ok(name) => identifier_name(self.source.spec_bytes(), token.span) == Some(name@),
                Err(_) => identifier_name(self.source.spec_bytes(), token.span) is None,
            },
    {
        match identifier_value(self.source, token.span) {
            Some(name) => Ok(name),
            None => Err(self.value_missing(token)),
        }
    }

    /// The name of a `PrivateIdentifier` token, without its `#`, recorded as a reference to be
    /// resolved when the enclosing class body closes.
    pub fn private_name(&mut self, token: Token) -> (r: Result<String, ParseError>)
        requires
            old(self).wf(),
        ensures
            final(self).kept_from(*old(self)),
            final(self).current == old(self).current,
            final(self).consumed_to == old(self).consumed_to,
            *final(self) == (Parser { private_references: final(self).private_references, ..*old(self) }),
            r matches Ok(name) ==> final(self).private_references@ == old(self).private_references@.push(
                (name, token.span),
            ),
            r matches Err(e) ==> e.span == token.span && final(self).private_references
                == old(self).private_references,
            r matches Ok(name) ==> (!old(self).source.spec_bytes().subrange(
                token.span.start + 1,
                token.span.end as int,
            ).contains(0x5cu8) ==> encode_utf8(name@) == old(self).source.spec_bytes().subrange(
                token.span.start + 1,
                token.span.end as int,
            )),
    {
        let name = match self.private_name_only(token) {
            Ok(name) => name,
            Err(e) => return Err(e),
        };
        self.private_references.push((name.clone(), token.span));
        Ok(name)
    }

    /// The same name, without recording a reference — for the declaring positions.
    pub fn private_name_only(&self, token: Token) -> (r: Result<String, ParseError>)
        ensures
            r matches Err(e) ==> e.span == token.span,
            r matches Ok(name) ==> (!self.source.spec_bytes().subrange(
                token.span.start + 1,
                token.span.end as int,
            ).contains(0x5cu8) ==> encode_utf8(name@) == self.source.spec_bytes().subrange(
                token.span.start + 1,
                token.span.end as int,
            )),
    {
        if token.span.start >= token.span.end {
            return Err(self.value_missing(token));
        }
        // The `#` is one byte, so the name is the rest of the span.
        match identifier_value(self.source, Span::new(token.span.start + 1, token.span.end)) {
            Some(name) => Ok(name),
            None => Err(self.value_missing(token)),
        }
    }

    /// Record a reading of the name `arguments`, for §15.7.1's rule about class initialisers.
    pub fn note_arguments(&mut self, name: &str, span: Span)
        requires
            old(self).wf(),
        ensures
            final(self).kept_from(*old(self)),
            final(self).current == old(self).current,
            final(self).consumed_to == old(self).consumed_to,
            *final(self) == (Parser { arguments_reference: final(self).arguments_reference, ..*old(self) }),
            final(self).arguments_reference == (if old(self).arguments_reference is None && name@
                == "arguments"@ {
                Some(span)
            } else {
                old(self).arguments_reference
            }),
    {
        if self.arguments_reference.is_none() && crate::text::same_text(name, "arguments") {
            self.arguments_reference = Some(span);
        }
    }

    /// Consume the current token and read the next one under `goal`; the token consumed is
    /// returned.
    pub fn advance(&mut self, goal: Goal) -> (r: Result<Token, ParseError>)
        requires
            old(self).wf(),
        ensures
            final(self).kept_from(*old(self)),
            r matches Ok(t) ==> t.span.end <= final(self).current.span.start,
            r matches Ok(t) ==> t == old(self).current,
            r is Ok ==> final(self).consumed_to@ == old(self).current.span.end,
            r is Ok && old(self).current.kind != TokenKind::Eof ==> final(self).moved_past(
                *old(self),
            ),
            blank_from(old(self).bytes@, old(self).lexer.pos as int) ==> r is Ok && final(self).current.kind == TokenKind::Eof,
            r is Ok <==> old(self).next_read(goal) is Ok,
            r is Ok ==> old(self).next_read(goal) == Ok::<Token, LexError>(final(self).current),
            r is Ok ==> final(self).lexer.pos == final(self).current.span.end,
            forall|pos: int, g: Goal| #[trigger] final(self).read_at(pos, g) == old(self).read_at(pos, g),
            final(self).source == old(self).source,
            r matches Err(e) ==> old(self).next_read(goal) is Err && e == lexical_error(
                old(self).next_read(goal)->Err_0,
            ),
            final(self).scope == old(self).scope,
            final(self).forbidden_in_parameters == old(self).forbidden_in_parameters,
            final(self).arguments_reference == old(self).arguments_reference,
            final(self).protecting_from == old(self).protecting_from,
            final(self).yield_allowed == old(self).yield_allowed,
            final(self).await_allowed == old(self).await_allowed,
            final(self).inside_function == old(self).inside_function,
            final(self).body_context == old(self).body_context,
            final(self).strict == old(self).strict,
            final(self).open_covers == old(self).open_covers,
            final(self).private_references == old(self).private_references,
            final(self).unrefined_covers == old(self).unrefined_covers,
    {
        let consumed = self.current;
        let mut lexer = self.lexer;
        match lexer.next_token(goal) {
            Ok(token) => {
                self.lexer = lexer;
                proof {
                    reveal(token_in_place);
                    if token.kind == TokenKind::Eof {
                        lemma_end_of_text_any_goal(self.bytes@, consumed.span.end as int, goal, Goal::Div, self.module);
                    }
                    assert(lex_token(self.bytes@, consumed.span.end as int, goal, self.module) == Ok::<Token, LexError>(token));
                }
                self.current = token;
                self.consumed_to = Ghost(consumed.span.end as int);
                Ok(consumed)
            },
            Err(e) => Err(ParseError::from_lex(e)),
        }
    }

    /// Read the current token again, from where it starts, under a different goal symbol.
    ///
    /// The one exception to reading each position once: the `}` that ends a template
    /// substitution is read by whatever finished the expression inside, which cannot know a
    /// template is waiting.
    pub fn reread_current(&mut self, goal: Goal) -> (r: Result<(), ParseError>)
        requires
            old(self).wf(),
            old(self).current.kind == TokenKind::RBrace,
        ensures
            final(self).kept_from(*old(self)),
            r is Ok ==> final(self).current.span.start >= old(self).current.span.start,
            final(self).consumed_to == old(self).consumed_to,
            match r {
                Ok(_) => old(self).reread(goal) == Ok::<Token, LexError>(final(self).current),
                Err(e) => old(self).reread(goal) is Err && e == lexical_error(old(self).reread(goal)->Err_0),
            },
    {
        let mut lexer = Lexer::resume_at(self.bytes, self.current.span.start, self.module);
        proof {
            reveal(token_in_place);
            assert(self.bytes@[self.current.span.start as int] == 0x7du8) by {
                assert(self.bytes@.subrange(self.current.span.start as int, self.current.span.end as int)[0]
                    == punctuator_text(TokenKind::RBrace)[0]);
            }
        }
        match lexer.next_token(goal) {
            Ok(token) => {
                proof {
                    let start = self.current.span.start as int;
                    let goal0 = choose|g: Goal| #[trigger] lex_token(self.bytes@, self.consumed_to@, g, self.module) matches Ok(t)
                        && t.kind == self.current.kind && t.span == self.current.span;
                    lemma_reread_in_place(self.bytes@, self.consumed_to@, start, goal0, goal, self.module);
                }
                self.current = token;
                self.lexer = lexer;
                Ok(())
            },
            Err(e) => Err(ParseError::from_lex(e)),
        }
    }

    /// The token after the current one, read under `goal`, from a copy of the lexer: nothing is
    /// buffered and nothing is invalidated.
    pub fn peek(&self, goal: Goal) -> (r: Result<Token, ParseError>)
        requires
            self.wf(),
        ensures
            r matches Ok(t) ==> self.current.span.end <= t.span.start <= t.span.end <= self.bytes@.len(),
            r matches Ok(t) ==> (t.kind == TokenKind::Eof <==> t.span.start == self.bytes@.len()),
            r matches Ok(t) ==> (t.kind is Keyword ==> self.bytes@.subrange(
                t.span.start as int,
                t.span.end as int,
            ) == reserved_word_text(t.kind->Keyword_0)),
            r matches Ok(t) ==> (punctuator_text(t.kind).len() > 0 ==> self.bytes@.subrange(
                t.span.start as int,
                t.span.end as int,
            ) == punctuator_text(t.kind)),
            blank_from(self.bytes@, self.lexer.pos as int) ==> (r matches Ok(t) && t.kind == TokenKind::Eof),
            self.reads(goal, r),
    {
        let mut lookahead = self.lexer;
        match lookahead.next_token(goal) {
            Ok(token) => Ok(token),
            Err(e) => Err(ParseError::from_lex(e)),
        }
    }

    /// Whether the current token is the contextual keyword `word`, written without escapes.
    pub fn at_contextual(&self, word: &str) -> (r: bool)
        requires
            self.wf(),
        ensures
            r ==> self.current.kind == (TokenKind::Identifier { contains_escape: false }),
            r == (self.current.kind == (TokenKind::Identifier { contains_escape: false }) && self.spells(
                self.current,
                word,
            )),
    {
        match self.current.kind {
            TokenKind::Identifier { contains_escape: false } => {
                let text = &self.bytes[self.current.span.start..self.current.span.end];
                crate::lexer::same_bytes(text, word.as_bytes())
            },
            _ => false,
        }
    }

    /// Open one level of nesting, refusing past [`MAX_NESTING_DEPTH`].
    pub fn enter(&mut self) -> (r: Result<(), ParseError>)
        requires
            old(self).wf(),
        ensures
            final(self).wf(),
            final(self).bytes@ == old(self).bytes@,
            final(self).module == old(self).module,
            final(self).current == old(self).current,
            final(self).consumed_to == old(self).consumed_to,
            r is Ok ==> final(self).depth == old(self).depth + 1,
            r is Err ==> final(self).depth == old(self).depth,
            r matches Err(e) ==> e.kind == ParseErrorKind::TooDeeplyNested && e.span == old(self).current.span,
            r is Err <==> old(self).depth >= MAX_NESTING_DEPTH,
            final(self).strict == old(self).strict,
            final(self).open_covers == old(self).open_covers,
            final(self).yield_allowed == old(self).yield_allowed,
            final(self).await_allowed == old(self).await_allowed,
            final(self).inside_function == old(self).inside_function,
            final(self).body_context == old(self).body_context,
            final(self).protecting_from == old(self).protecting_from,
            final(self).scope == old(self).scope,
            final(self).forbidden_in_parameters == old(self).forbidden_in_parameters,
            final(self).arguments_reference == old(self).arguments_reference,
            final(self).exported == old(self).exported,
            final(self).differs_only_in_depth(*old(self)),
    {
        proof {
            reveal(Parser::differs_only_in_depth);
        }
        if self.depth >= MAX_NESTING_DEPTH {
            return Err(ParseError { kind: ParseErrorKind::TooDeeplyNested, span: self.current.span });
        }
        self.depth = self.depth + 1;
        Ok(())
    }

    /// Close one level of nesting.
    pub fn leave(&mut self)
        requires
            old(self).wf(),
            old(self).depth > 0,
        ensures
            final(self).wf(),
            final(self).bytes@ == old(self).bytes@,
            final(self).module == old(self).module,
            final(self).current == old(self).current,
            final(self).consumed_to == old(self).consumed_to,
            final(self).depth == old(self).depth - 1,
            final(self).strict == old(self).strict,
            final(self).open_covers == old(self).open_covers,
            final(self).yield_allowed == old(self).yield_allowed,
            final(self).await_allowed == old(self).await_allowed,
            final(self).inside_function == old(self).inside_function,
            final(self).body_context == old(self).body_context,
            final(self).protecting_from == old(self).protecting_from,
            final(self).scope == old(self).scope,
            final(self).forbidden_in_parameters == old(self).forbidden_in_parameters,
            final(self).arguments_reference == old(self).arguments_reference,
            final(self).exported == old(self).exported,
    {
        self.depth = self.depth - 1;
    }

    /// The error for "the grammar wanted `expected` here".
    pub fn unexpected(&self, expected: &'static str) -> (e: ParseError)
        ensures
            e.kind == (ParseErrorKind::Unexpected { expected, found: self.current.kind }),
            e.span == self.current.span,
    {
        ParseError {
            kind: ParseErrorKind::Unexpected { expected, found: self.current.kind },
            span: self.current.span,
        }
    }

    /// Consume the current token if it is `kind`, reading the next under `goal`.
    pub fn eat(&mut self, kind: TokenKind, goal: Goal, expected: &'static str) -> (r: Result<
        Token,
        ParseError,
    >)
        requires
            old(self).wf(),
        ensures
            final(self).kept_from(*old(self)),
            r matches Ok(t) ==> t.span.end <= final(self).current.span.start,
            r is Ok ==> old(self).current.kind == kind,
            old(self).current.kind != kind ==> *final(self) == *old(self) && (r matches Err(e) && e.kind
                == (ParseErrorKind::Unexpected { expected, found: old(self).current.kind }) && e.span
                == old(self).current.span),
            old(self).current.kind == kind && blank_from(old(self).bytes@, old(self).lexer.pos as int)
                ==> r is Ok && final(self).current.kind == TokenKind::Eof,
            old(self).current.kind == kind ==> (r is Ok <==> old(self).next_read(goal) is Ok),
            r is Ok ==> old(self).next_read(goal) == Ok::<Token, LexError>(final(self).current),
            r is Ok ==> final(self).lexer.pos == final(self).current.span.end,
            forall|pos: int, g: Goal| #[trigger] final(self).read_at(pos, g) == old(self).read_at(pos, g),
            final(self).source == old(self).source,
            r is Err && old(self).current.kind == kind ==> r->Err_0 == lexical_error(
                old(self).next_read(goal)->Err_0,
            ),
            r is Ok && kind != TokenKind::Eof ==> final(self).moved_past(*old(self)),
            r matches Ok(t) ==> t == old(self).current,
            r is Ok ==> final(self).consumed_to@ == old(self).current.span.end,
            final(self).strict == old(self).strict,
            final(self).open_covers == old(self).open_covers,
            final(self).scope == old(self).scope,
            final(self).forbidden_in_parameters == old(self).forbidden_in_parameters,
            final(self).arguments_reference == old(self).arguments_reference,
            final(self).protecting_from == old(self).protecting_from,
            final(self).yield_allowed == old(self).yield_allowed,
            final(self).await_allowed == old(self).await_allowed,
            final(self).inside_function == old(self).inside_function,
            final(self).body_context == old(self).body_context,
    {
        if self.current.kind != kind {
            return Err(self.unexpected(expected));
        }
        self.advance(goal)
    }

    /// Require that nothing follows.
    pub fn expect_eof(&self) -> (r: Result<(), ParseError>)
        ensures
            r is Ok <==> self.current.kind == TokenKind::Eof,
    {
        if self.current.kind != TokenKind::Eof {
            return Err(self.unexpected("end of input"));
        }
        Ok(())
    }

    /// The error for a token whose value the lexer produced but this parser cannot read back.
    pub fn value_missing(&self, token: Token) -> (e: ParseError)
        ensures
            e.span == token.span,
    {
        ParseError {
            kind: ParseErrorKind::Unexpected {
                expected: "a literal this parser can read",
                found: token.kind,
            },
            span: token.span,
        }
    }
}

} // verus!
