//! Why parsing stopped, and where.
//!
//! A plain data module: the parser decides what went wrong, and this decides only how to say it.
//! Messages are built without the source, so a host that has kept nothing but the error can still
//! render something a person can act on.

use vstd::prelude::*;
use crate::lexer::{fixed_spelling, spelling_text, LexError, LexErrorKind, TokenKind};
use crate::span::Span;
use crate::text::{concat, joined};

verus! {

/// Why parsing stopped, and where.
#[derive(Debug, Clone, Copy, PartialEq, Eq)]
pub struct ParseError {
    /// What went wrong.
    pub kind: ParseErrorKind,
    /// The source it went wrong at. For an unexpected token this is that token, not the
    /// construct it interrupted.
    pub span: Span,
}

/// Every failure the parser can report.
#[derive(Debug, Clone, Copy, PartialEq, Eq)]
pub enum ParseErrorKind {
    /// The lexer could not produce a token at all.
    Lexical(LexErrorKind),
    /// A token appeared where the grammar does not allow it.
    Unexpected {
        /// What the grammar wanted, phrased for a reader: `` "`)`" ``, `"an expression"`.
        expected: &'static str,
        /// What was actually there.
        found: TokenKind,
    },
    /// Nesting went past [`MAX_NESTING_DEPTH`](super::MAX_NESTING_DEPTH): a limit of this parser's, not of the grammar.
    TooDeeplyNested,
    /// §13.6: `-a ** b` has no derivation; `(-a) ** b` does.
    ExponentiationOnUnary,
    /// §13.15.1: the left of an assignment, an update or a `for`-`in`/`of` head is not something that can be assigned to.
    InvalidAssignmentTarget,
    /// §13.1.1: a name strict code keeps for itself, such as `yield`, `let` or `static`.
    StrictReservedWord,
    /// §13.1.1: `eval` or `arguments` bound or assigned to in strict code.
    StrictEvalOrArguments,
    /// §14.11.1: a `with` statement in strict code.
    StrictWith,
    /// §13.5.1: `delete` applied to a bare name in strict code.
    StrictDeleteOfName,
    /// Annex B.1.1 in strict code: a legacy octal literal or escape, or a decimal with a leading zero.
    StrictLegacyOctal,
    /// §15.2.1: a `"use strict"` directive in a body whose parameter list is not simple.
    UseStrictWithNonSimpleParameters,
    /// §14.5: a `function`, a `class` or a lexical declaration where only a `Statement` may stand.
    DeclarationInStatementPosition,
    /// §14.10: a `return` outside any function body.
    ReturnOutsideFunction,
    /// §15.1.1: a parameter list that must be unique repeats a name.
    DuplicateParameterName,
    /// §15.2.1: a parameter name is also lexically declared by the body.
    ParameterRedeclaredInBody,
    /// §14.3.3: a binding pattern declared without an initialiser — `var [a];`.
    PatternWithoutInitializer,
    /// §14.15.1: the names a catch parameter binds repeat.
    DuplicateCatchParameterName,
    /// §14.3.1.1: a `const` binding with no initialiser.
    ConstWithoutInitializer,
    /// §14.3.1.1: a lexical declaration binds the name `let`.
    LetAsLexicalBindingName,
    /// §14.2.1: a name lexically declared twice in one scope.
    DuplicateLexicalBinding,
    /// §14.2.1 and §16.1.1: a name declared by `var` and also lexically.
    ConflictingVarAndLexicalDeclaration,
    /// §13.15.5.1: something in a destructuring pattern that cannot be assigned to.
    InvalidDestructuringTarget,
    /// §13.15.5: a `...` element with something after it, a comma included.
    RestElementMustBeLast,
    /// §13.15.5: `[...a = 1] = b`.
    RestElementWithInitializer,
    /// §13.15.5.1: an object rest whose target is a pattern.
    RestTargetMayNotBePattern,
    /// §13.2.8.1: an ill-formed escape in a template that is not tagged.
    BadEscapeInUntaggedTemplate,
    /// §15.3: something in an arrow's parameter list that cannot be a binding.
    InvalidArrowParameter,
    /// §13.2: `()`, `(a,)` or `(...a)` with no `=>` after them.
    CoverGroupIsNotAnExpression,
    /// §15.4: a getter with parameters, or a setter without exactly one.
    AccessorParameterCount,
    /// §15.5.1: a `YieldExpression` in a generator's or an arrow's parameter list.
    YieldInParameters,
    /// §15.8.1: an `AwaitExpression` in an async function's or an arrow's parameter list.
    AwaitInParameters,
    /// §15.7.1: an `AwaitExpression` in a class static block.
    AwaitInStaticBlock,
    /// §15.7.1: a class `constructor` written as a generator.
    ConstructorMayNotBeAGenerator,
    /// §15.7.1: a class `constructor` written as an async method.
    ConstructorMayNotBeAsync,
    /// §15.7.1: two methods named `constructor` in one class body.
    DuplicateConstructor,
    /// §15.7.1: `get constructor() {}` or `set constructor(a) {}`.
    ConstructorMayNotBeAnAccessor,
    /// §15.7.1: a field named `constructor`.
    ConstructorAsFieldName,
    /// §15.7.1: a static method or field named `prototype`.
    StaticPrototype,
    /// §15.7.1: a private name spelled `#constructor`.
    PrivateConstructor,
    /// §15.7.1: a private name declared twice, other than once as a getter and once as a setter.
    DuplicatePrivateName,
    /// §15.7.7: a private name no enclosing class declares.
    UndeclaredPrivateName,
    /// §13.3.7: `super.#a`.
    PrivateNameAfterSuper,
    /// §13.5.1.1: `delete this.#a`.
    DeleteOfPrivateMember,
    /// §15.2.1 and §16.1.1: `super.a` outside any method.
    SuperPropertyOutsideMethod,
    /// §15.7.1: `super(…)` outside the constructor of a derived class.
    SuperCallOutsideDerivedConstructor,
    /// §13.2.5.1: two `__proto__: value` properties in one object literal.
    DuplicateProto,
    /// §13.2.5.1: `{a = 1}` outside a destructuring pattern.
    ShorthandPropertyWithInitializer,
    /// §14.7.5: a `for`-`of` whose target begins with the token `let`.
    ForOfTargetBeginsWithLet,
    /// §14.7.5: a `for`-`of` whose target is exactly `async`.
    AsyncAsForOfTarget,
    /// §14.7.5: a `for`-`in` or `for`-`of` declaration with more than one binding.
    ForInOfBindsSeveralNames,
    /// §14.7.5: a `for`-`in` or `for`-`of` binding with an initialiser.
    ForInOfBindingHasInitializer,
    /// §14.7.5: `for await` with `in` or with a three-part header.
    ForAwaitMustBeForOf,
    /// §14.7.5: `for await` outside an async function or a module.
    ForAwaitOutsideAsync,
    /// §14.12: a `switch` with more than one `default`.
    MultipleDefaultClauses,
    /// §14.15: a `try` with neither.
    TryWithoutHandler,
    /// §14.15.1: a catch parameter's name lexically declared again by its block.
    CatchParameterRedeclared,
    /// §14.14: a line terminator between `throw` and its value.
    NewlineAfterThrow,
    /// §14.13.1: a label inside a statement with the same label.
    DuplicateLabel,
    /// §14.9.1: `break` naming a label that does not enclose it.
    UndefinedBreakTarget,
    /// §14.8.1: `continue` naming a label that is not on an enclosing loop.
    UndefinedContinueTarget,
    /// §14.9.1: an unlabelled `break` outside any loop or `switch`.
    BreakOutsideLoop,
    /// §14.8.1: a `continue` outside any loop.
    ContinueOutsideLoop,
    /// §13.13: `??` with an unparenthesized `&&` or `||` as an operand, or the other way round.
    MixedCoalesceAndLogical,
    /// §13.3: `new a?.b`.
    NewOnOptionalChain,
    /// §13.3: `new super()`.
    NewOnSuper,
    /// §13.3: `new import(a)`.
    NewOnImportCall,
    /// §13.3.12: `import.meta` in a script.
    ImportMetaOutsideModule,
    /// §16.1.1: `new.target` outside any function.
    NewTargetOutsideFunction,
    /// §13.3.1: `a?.b\`x\``.
    TaggedTemplateOnOptionalChain,
    /// §15.7.1: `arguments` in a field initialiser or a static block.
    ArgumentsInClassInitializer,
    /// §16.2.2: `import {"a"} from "b"`.
    StringImportWithoutAlias,
    /// §16.2.1.1: `export {a}` with no `a` declared.
    UndeclaredExportedName,
    /// §16.2.1.1: two exports of the same name.
    DuplicateExportedName,
}

/// How a token is named in a message when it has no one spelling: by its category.
pub open spec fn category_text(kind: TokenKind) -> &'static str {
    match kind {
        TokenKind::Eof => "end of input",
        TokenKind::Identifier { .. } => "an identifier",
        TokenKind::PrivateIdentifier { .. } => "a private name",
        TokenKind::Number { .. } => "a number",
        TokenKind::BigInt => "a bigint literal",
        TokenKind::String { .. } => "a string",
        TokenKind::RegExp => "a regular expression",
        TokenKind::Template { .. } => "a template",
        _ => "a token",
    }
}

/// How a token found where it was not wanted is named in a message: a punctuator or a
/// keyword by its spelling in backquotes, any other by its category.
pub open spec fn found_text(kind: TokenKind) -> Seq<char> {
    match spelling_text(kind) {
        Some(spelling) => "`"@ + spelling@ + "`"@,
        None => category_text(kind)@,
    }
}

/// How a token is named in a message when it has no one spelling: by its category.
#[verifier::when_used_as_spec(category_text)]
pub fn describe_token(kind: TokenKind) -> (r: &'static str)
    ensures
        r == category_text(kind),
{
    match kind {
        TokenKind::Eof => "end of input",
        TokenKind::Identifier { .. } => "an identifier",
        TokenKind::PrivateIdentifier { .. } => "a private name",
        TokenKind::Number { .. } => "a number",
        TokenKind::BigInt => "a bigint literal",
        TokenKind::String { .. } => "a string",
        TokenKind::RegExp => "a regular expression",
        TokenKind::Template { .. } => "a template",
        _ => "a token",
    }
}

impl ParseErrorKind {
    /// The message for a failure that is not about a particular token.
    pub open spec fn fixed_text(self) -> &'static str {
        match self {
            ParseErrorKind::Lexical(kind) => kind.message(),
            ParseErrorKind::Unexpected { .. } => "unexpected token",
            ParseErrorKind::TooDeeplyNested => "expression nests too deeply",
            ParseErrorKind::ExponentiationOnUnary => "the left operand of `**` may not be an unparenthesized unary expression",
            ParseErrorKind::InvalidAssignmentTarget => "this expression cannot be assigned to",
            ParseErrorKind::StrictReservedWord => "this name is reserved in strict mode code",
            ParseErrorKind::StrictEvalOrArguments => "strict mode code may not bind or assign to `eval` or `arguments`",
            ParseErrorKind::StrictWith => "strict mode code may not include a `with` statement",
            ParseErrorKind::StrictDeleteOfName => "strict mode code may not `delete` a name, only a property",
            ParseErrorKind::StrictLegacyOctal => "strict mode code may not use a legacy octal literal or a leading zero",
            ParseErrorKind::UseStrictWithNonSimpleParameters => "a function with defaults, patterns or a rest may not declare `\"use strict\"`",
            ParseErrorKind::DeclarationInStatementPosition => "a declaration may not stand where only a statement may",
            ParseErrorKind::ReturnOutsideFunction => "`return` is only allowed inside a function",
            ParseErrorKind::DuplicateParameterName => "this parameter name is bound twice, which a list with defaults or patterns may not do",
            ParseErrorKind::ParameterRedeclaredInBody => "this name is already a parameter of the function",
            ParseErrorKind::PatternWithoutInitializer => "a destructuring declaration must have an initializer",
            ParseErrorKind::DuplicateCatchParameterName => "this name is bound twice by the same catch parameter",
            ParseErrorKind::ConstWithoutInitializer => "a `const` binding must have an initializer",
            ParseErrorKind::LetAsLexicalBindingName => "`let` may not be the name of a `let` or `const` binding",
            ParseErrorKind::DuplicateLexicalBinding => "this name is bound twice in the same declaration",
            ParseErrorKind::ConflictingVarAndLexicalDeclaration => "this name is declared by `var` and by `let` or `const` in the same scope",
            ParseErrorKind::InvalidDestructuringTarget => "this expression cannot be destructured into",
            ParseErrorKind::RestElementMustBeLast => "a `...` element must be the last thing in a pattern",
            ParseErrorKind::RestElementWithInitializer => "a `...` element may not have a default",
            ParseErrorKind::RestTargetMayNotBePattern => "a `...` property must name somewhere to put an object, not a pattern",
            ParseErrorKind::BadEscapeInUntaggedTemplate => "this escape is only allowed in a template that is passed to a tag",
            ParseErrorKind::InvalidArrowParameter => "this cannot be an arrow function parameter",
            ParseErrorKind::CoverGroupIsNotAnExpression => "these parentheses are only an expression when `=>` follows them",
            ParseErrorKind::AccessorParameterCount => "a getter takes no parameters and a setter takes exactly one",
            ParseErrorKind::YieldInParameters => "`yield` may not appear in a generator's own parameter list",
            ParseErrorKind::AwaitInParameters => "`await` may not appear in an async function's own parameter list",
            ParseErrorKind::AwaitInStaticBlock => "`await` may not appear in a class static block",
            ParseErrorKind::ConstructorMayNotBeAGenerator => "`constructor` may not be a generator",
            ParseErrorKind::ConstructorMayNotBeAsync => "`constructor` may not be async",
            ParseErrorKind::DuplicateConstructor => "a class may have only one `constructor`",
            ParseErrorKind::ConstructorMayNotBeAnAccessor => "`constructor` may not be a getter or a setter",
            ParseErrorKind::ConstructorAsFieldName => "a field may not be named `constructor`",
            ParseErrorKind::StaticPrototype => "a static method may not be named `prototype`",
            ParseErrorKind::PrivateConstructor => "`#constructor` is not a private name a class may declare",
            ParseErrorKind::DuplicatePrivateName => "this private name is already declared in this class",
            ParseErrorKind::UndeclaredPrivateName => "this private name is not declared by any enclosing class",
            ParseErrorKind::PrivateNameAfterSuper => "a private name may not follow `super.`",
            ParseErrorKind::DeleteOfPrivateMember => "`delete` may not be applied to a private member",
            ParseErrorKind::SuperPropertyOutsideMethod => "`super` is only allowed inside a method",
            ParseErrorKind::SuperCallOutsideDerivedConstructor => "`super()` is only allowed in the constructor of a class with `extends`",
            ParseErrorKind::DuplicateProto => "an object literal may set `__proto__` only once",
            ParseErrorKind::ShorthandPropertyWithInitializer => "a shorthand property may not have an initializer outside a pattern",
            ParseErrorKind::ForOfTargetBeginsWithLet => "the target of a `for`-`of` may not begin with `let`",
            ParseErrorKind::AsyncAsForOfTarget => "the target of a `for`-`of` may not be `async`",
            ParseErrorKind::ForInOfBindsSeveralNames => "a `for`-`in` or `for`-`of` header binds exactly one name",
            ParseErrorKind::ForInOfBindingHasInitializer => "a `for`-`in` or `for`-`of` binding may not have an initializer",
            ParseErrorKind::ForAwaitMustBeForOf => "`for await` is only a `for`-`of`",
            ParseErrorKind::ForAwaitOutsideAsync => "`for await` is only allowed where `await` is",
            ParseErrorKind::MultipleDefaultClauses => "a `switch` may have only one `default` clause",
            ParseErrorKind::TryWithoutHandler => "a `try` needs a `catch` or a `finally`",
            ParseErrorKind::CatchParameterRedeclared => "the catch parameter is already declared in the catch block",
            ParseErrorKind::NewlineAfterThrow => "the value thrown must be on the same line as `throw`",
            ParseErrorKind::DuplicateLabel => "this label already encloses this statement",
            ParseErrorKind::UndefinedBreakTarget => "no enclosing statement has this label",
            ParseErrorKind::UndefinedContinueTarget => "this label is not on a loop, so `continue` cannot name it",
            ParseErrorKind::BreakOutsideLoop => "`break` is not inside a loop or a `switch`",
            ParseErrorKind::ContinueOutsideLoop => "`continue` is not inside a loop",
            ParseErrorKind::MixedCoalesceAndLogical => "`??` may not be mixed with `&&` or `||` without parentheses",
            ParseErrorKind::NewOnOptionalChain => "`new` may not be applied to an optional chain",
            ParseErrorKind::NewOnSuper => "`new` may not be applied to `super` itself",
            ParseErrorKind::NewOnImportCall => "`new` may not be applied to `import(…)`",
            ParseErrorKind::ImportMetaOutsideModule => "`import.meta` is only allowed in a module",
            ParseErrorKind::NewTargetOutsideFunction => "`new.target` is only allowed inside a function",
            ParseErrorKind::TaggedTemplateOnOptionalChain => "a template may not be tagged by an optional chain",
            ParseErrorKind::ArgumentsInClassInitializer => "`arguments` may not appear in a class field initializer or static block",
            ParseErrorKind::StringImportWithoutAlias => "an imported string name needs `as` and a binding",
            ParseErrorKind::UndeclaredExportedName => "this module exports a name it does not declare",
            ParseErrorKind::DuplicateExportedName => "this name is exported twice",
        }
    }

    /// The message for a failure that is not about a particular token.
    #[verifier::when_used_as_spec(fixed_text)]
    pub fn fixed_message(self) -> (r: &'static str)
        ensures
            r == self.fixed_text(),
    {
        match self {
            ParseErrorKind::Lexical(kind) => kind.message(),
            ParseErrorKind::Unexpected { .. } => "unexpected token",
            ParseErrorKind::TooDeeplyNested => "expression nests too deeply",
            ParseErrorKind::ExponentiationOnUnary => "the left operand of `**` may not be an unparenthesized unary expression",
            ParseErrorKind::InvalidAssignmentTarget => "this expression cannot be assigned to",
            ParseErrorKind::StrictReservedWord => "this name is reserved in strict mode code",
            ParseErrorKind::StrictEvalOrArguments => "strict mode code may not bind or assign to `eval` or `arguments`",
            ParseErrorKind::StrictWith => "strict mode code may not include a `with` statement",
            ParseErrorKind::StrictDeleteOfName => "strict mode code may not `delete` a name, only a property",
            ParseErrorKind::StrictLegacyOctal => "strict mode code may not use a legacy octal literal or a leading zero",
            ParseErrorKind::UseStrictWithNonSimpleParameters => "a function with defaults, patterns or a rest may not declare `\"use strict\"`",
            ParseErrorKind::DeclarationInStatementPosition => "a declaration may not stand where only a statement may",
            ParseErrorKind::ReturnOutsideFunction => "`return` is only allowed inside a function",
            ParseErrorKind::DuplicateParameterName => "this parameter name is bound twice, which a list with defaults or patterns may not do",
            ParseErrorKind::ParameterRedeclaredInBody => "this name is already a parameter of the function",
            ParseErrorKind::PatternWithoutInitializer => "a destructuring declaration must have an initializer",
            ParseErrorKind::DuplicateCatchParameterName => "this name is bound twice by the same catch parameter",
            ParseErrorKind::ConstWithoutInitializer => "a `const` binding must have an initializer",
            ParseErrorKind::LetAsLexicalBindingName => "`let` may not be the name of a `let` or `const` binding",
            ParseErrorKind::DuplicateLexicalBinding => "this name is bound twice in the same declaration",
            ParseErrorKind::ConflictingVarAndLexicalDeclaration => "this name is declared by `var` and by `let` or `const` in the same scope",
            ParseErrorKind::InvalidDestructuringTarget => "this expression cannot be destructured into",
            ParseErrorKind::RestElementMustBeLast => "a `...` element must be the last thing in a pattern",
            ParseErrorKind::RestElementWithInitializer => "a `...` element may not have a default",
            ParseErrorKind::RestTargetMayNotBePattern => "a `...` property must name somewhere to put an object, not a pattern",
            ParseErrorKind::BadEscapeInUntaggedTemplate => "this escape is only allowed in a template that is passed to a tag",
            ParseErrorKind::InvalidArrowParameter => "this cannot be an arrow function parameter",
            ParseErrorKind::CoverGroupIsNotAnExpression => "these parentheses are only an expression when `=>` follows them",
            ParseErrorKind::AccessorParameterCount => "a getter takes no parameters and a setter takes exactly one",
            ParseErrorKind::YieldInParameters => "`yield` may not appear in a generator's own parameter list",
            ParseErrorKind::AwaitInParameters => "`await` may not appear in an async function's own parameter list",
            ParseErrorKind::AwaitInStaticBlock => "`await` may not appear in a class static block",
            ParseErrorKind::ConstructorMayNotBeAGenerator => "`constructor` may not be a generator",
            ParseErrorKind::ConstructorMayNotBeAsync => "`constructor` may not be async",
            ParseErrorKind::DuplicateConstructor => "a class may have only one `constructor`",
            ParseErrorKind::ConstructorMayNotBeAnAccessor => "`constructor` may not be a getter or a setter",
            ParseErrorKind::ConstructorAsFieldName => "a field may not be named `constructor`",
            ParseErrorKind::StaticPrototype => "a static method may not be named `prototype`",
            ParseErrorKind::PrivateConstructor => "`#constructor` is not a private name a class may declare",
            ParseErrorKind::DuplicatePrivateName => "this private name is already declared in this class",
            ParseErrorKind::UndeclaredPrivateName => "this private name is not declared by any enclosing class",
            ParseErrorKind::PrivateNameAfterSuper => "a private name may not follow `super.`",
            ParseErrorKind::DeleteOfPrivateMember => "`delete` may not be applied to a private member",
            ParseErrorKind::SuperPropertyOutsideMethod => "`super` is only allowed inside a method",
            ParseErrorKind::SuperCallOutsideDerivedConstructor => "`super()` is only allowed in the constructor of a class with `extends`",
            ParseErrorKind::DuplicateProto => "an object literal may set `__proto__` only once",
            ParseErrorKind::ShorthandPropertyWithInitializer => "a shorthand property may not have an initializer outside a pattern",
            ParseErrorKind::ForOfTargetBeginsWithLet => "the target of a `for`-`of` may not begin with `let`",
            ParseErrorKind::AsyncAsForOfTarget => "the target of a `for`-`of` may not be `async`",
            ParseErrorKind::ForInOfBindsSeveralNames => "a `for`-`in` or `for`-`of` header binds exactly one name",
            ParseErrorKind::ForInOfBindingHasInitializer => "a `for`-`in` or `for`-`of` binding may not have an initializer",
            ParseErrorKind::ForAwaitMustBeForOf => "`for await` is only a `for`-`of`",
            ParseErrorKind::ForAwaitOutsideAsync => "`for await` is only allowed where `await` is",
            ParseErrorKind::MultipleDefaultClauses => "a `switch` may have only one `default` clause",
            ParseErrorKind::TryWithoutHandler => "a `try` needs a `catch` or a `finally`",
            ParseErrorKind::CatchParameterRedeclared => "the catch parameter is already declared in the catch block",
            ParseErrorKind::NewlineAfterThrow => "the value thrown must be on the same line as `throw`",
            ParseErrorKind::DuplicateLabel => "this label already encloses this statement",
            ParseErrorKind::UndefinedBreakTarget => "no enclosing statement has this label",
            ParseErrorKind::UndefinedContinueTarget => "this label is not on a loop, so `continue` cannot name it",
            ParseErrorKind::BreakOutsideLoop => "`break` is not inside a loop or a `switch`",
            ParseErrorKind::ContinueOutsideLoop => "`continue` is not inside a loop",
            ParseErrorKind::MixedCoalesceAndLogical => "`??` may not be mixed with `&&` or `||` without parentheses",
            ParseErrorKind::NewOnOptionalChain => "`new` may not be applied to an optional chain",
            ParseErrorKind::NewOnSuper => "`new` may not be applied to `super` itself",
            ParseErrorKind::NewOnImportCall => "`new` may not be applied to `import(…)`",
            ParseErrorKind::ImportMetaOutsideModule => "`import.meta` is only allowed in a module",
            ParseErrorKind::NewTargetOutsideFunction => "`new.target` is only allowed inside a function",
            ParseErrorKind::TaggedTemplateOnOptionalChain => "a template may not be tagged by an optional chain",
            ParseErrorKind::ArgumentsInClassInitializer => "`arguments` may not appear in a class field initializer or static block",
            ParseErrorKind::StringImportWithoutAlias => "an imported string name needs `as` and a binding",
            ParseErrorKind::UndeclaredExportedName => "this module exports a name it does not declare",
            ParseErrorKind::DuplicateExportedName => "this name is exported twice",
        }
    }

    /// What went wrong, in words: for an unexpected token, what was wanted and what was
    /// found; for anything else, the fixed message of the kind.
    pub open spec fn message_text(self) -> Seq<char> {
        match self {
            ParseErrorKind::Unexpected { expected, found } => "expected "@ + expected@ + ", found "@
                + found_text(found),
            _ => self.fixed_text()@,
        }
    }

    /// What went wrong, in words: for an unexpected token, what was wanted and what was found.
    pub fn message(self) -> (text: String)
        ensures
            text@ == self.message_text(),
    {
        match self {
            ParseErrorKind::Unexpected { expected, found } => {
                match fixed_spelling(found) {
                    Some(spelling) => {
                        let pieces = ["expected ", expected, ", found `", spelling, "`"];
                        let text = concat(&pieces);
                        proof {
                            reveal_strlit(", found `");
                            reveal_strlit(", found ");
                            reveal_strlit("`");
                            reveal_with_fuel(joined, 6);
                            assert(pieces@ =~= seq!["expected ", expected, ", found `", spelling, "`"]);
                            let found_part = "`"@ + spelling@ + "`"@;
                            assert(", found `"@ =~= ", found "@ + "`"@);
                            assert(text@ =~= "expected "@ + expected@ + ", found "@ + found_part);
                        }
                        text
                    },
                    None => {
                        let described = describe_token(found);
                        let pieces = ["expected ", expected, ", found ", described];
                        let text = concat(&pieces);
                        proof {
                            reveal_with_fuel(joined, 5);
                            assert(pieces@ =~= seq!["expected ", expected, ", found ", described]);
                            assert(text@ =~= "expected "@ + expected@ + ", found "@ + described@);
                        }
                        text
                    },
                }
            },
            other => {
                let pieces = [other.fixed_message()];
                let text = concat(&pieces);
                proof {
                    reveal_with_fuel(joined, 2);
                    assert(pieces@ =~= seq![other.fixed_message()]);
                    assert(text@ =~= other.fixed_message()@);
                }
                text
            },
        }
    }
}

/// The parse error a lexical one becomes: the same place, and the lexer's own words.
pub open spec fn lexical_error(error: LexError) -> ParseError {
    ParseError { kind: ParseErrorKind::Lexical(error.kind), span: error.span }
}

impl ParseError {
    /// The parse error a lexical one becomes: the same place, and the lexer's own words.
    pub fn from_lex(error: LexError) -> (e: ParseError)
        ensures
            e.kind == ParseErrorKind::Lexical(error.kind),
            e.span == error.span,
            e == lexical_error(error),
    {
        ParseError { kind: ParseErrorKind::Lexical(error.kind), span: error.span }
    }
}

} // verus!
