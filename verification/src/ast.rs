//! The syntax tree the parser builds.
//!
//! Every node records the span of source it was read from. Parentheses are a flag on an
//! expression rather than a node of their own, because the grammar gives a parenthesized
//! expression the meaning of what it holds — except where a rule asks whether it *was*
//! parenthesized, which the flag answers.

use vstd::prelude::*;
use crate::lexer::value::NumericValue;
use crate::span::Span;
use vstd::string::StringSliceAdditionalSpecFns;

verus! {

/// The prefix operators of §13.5.
#[derive(Debug, Clone, Copy, PartialEq, Eq, Structural)]
pub enum UnaryOperator {
    /// `delete`
    Delete,
    /// `void`
    Void,
    /// `typeof`
    Typeof,
    /// `+`
    Plus,
    /// `-`
    Minus,
    /// `~`
    BitwiseNot,
    /// `!`
    LogicalNot,
}

impl UnaryOperator {
    /// How the operator is written.
    pub fn as_str(self) -> (r: &'static str)
        ensures
            r == (match self {
                UnaryOperator::Delete => "delete",
                UnaryOperator::Void => "void",
                UnaryOperator::Typeof => "typeof",
                UnaryOperator::Plus => "+",
                UnaryOperator::Minus => "-",
                UnaryOperator::BitwiseNot => "~",
                UnaryOperator::LogicalNot => "!",
            }),
    {
        match self {
            UnaryOperator::Delete => "delete",
            UnaryOperator::Void => "void",
            UnaryOperator::Typeof => "typeof",
            UnaryOperator::Plus => "+",
            UnaryOperator::Minus => "-",
            UnaryOperator::BitwiseNot => "~",
            UnaryOperator::LogicalNot => "!",
        }
    }
}

/// The binary operators of §13.6 – §13.12, whose operands are both always evaluated.
#[derive(Debug, Clone, Copy, PartialEq, Eq, Structural)]
pub enum BinaryOperator {
    /// `==`
    Equal,
    /// `!=`
    NotEqual,
    /// `===`
    StrictEqual,
    /// `!==`
    StrictNotEqual,
    /// `<`
    LessThan,
    /// `>`
    GreaterThan,
    /// `<=`
    LessThanOrEqual,
    /// `>=`
    GreaterThanOrEqual,
    /// `instanceof`
    Instanceof,
    /// `in`
    In,
    /// `<<`
    ShiftLeft,
    /// `>>`
    ShiftRight,
    /// `>>>`
    ShiftRightUnsigned,
    /// `+`
    Add,
    /// `-`
    Subtract,
    /// `*`
    Multiply,
    /// `/`
    Divide,
    /// `%`
    Remainder,
    /// `**`
    Exponent,
    /// `|`
    BitwiseOr,
    /// `^`
    BitwiseXor,
    /// `&`
    BitwiseAnd,
}

impl BinaryOperator {
    /// How the operator is written.
    pub fn as_str(self) -> (r: &'static str)
        ensures
            r == (match self {
                BinaryOperator::Equal => "==",
                BinaryOperator::NotEqual => "!=",
                BinaryOperator::StrictEqual => "===",
                BinaryOperator::StrictNotEqual => "!==",
                BinaryOperator::LessThan => "<",
                BinaryOperator::GreaterThan => ">",
                BinaryOperator::LessThanOrEqual => "<=",
                BinaryOperator::GreaterThanOrEqual => ">=",
                BinaryOperator::Instanceof => "instanceof",
                BinaryOperator::In => "in",
                BinaryOperator::ShiftLeft => "<<",
                BinaryOperator::ShiftRight => ">>",
                BinaryOperator::ShiftRightUnsigned => ">>>",
                BinaryOperator::Add => "+",
                BinaryOperator::Subtract => "-",
                BinaryOperator::Multiply => "*",
                BinaryOperator::Divide => "/",
                BinaryOperator::Remainder => "%",
                BinaryOperator::Exponent => "**",
                BinaryOperator::BitwiseOr => "|",
                BinaryOperator::BitwiseXor => "^",
                BinaryOperator::BitwiseAnd => "&",
            }),
    {
        match self {
            BinaryOperator::Equal => "==",
            BinaryOperator::NotEqual => "!=",
            BinaryOperator::StrictEqual => "===",
            BinaryOperator::StrictNotEqual => "!==",
            BinaryOperator::LessThan => "<",
            BinaryOperator::GreaterThan => ">",
            BinaryOperator::LessThanOrEqual => "<=",
            BinaryOperator::GreaterThanOrEqual => ">=",
            BinaryOperator::Instanceof => "instanceof",
            BinaryOperator::In => "in",
            BinaryOperator::ShiftLeft => "<<",
            BinaryOperator::ShiftRight => ">>",
            BinaryOperator::ShiftRightUnsigned => ">>>",
            BinaryOperator::Add => "+",
            BinaryOperator::Subtract => "-",
            BinaryOperator::Multiply => "*",
            BinaryOperator::Divide => "/",
            BinaryOperator::Remainder => "%",
            BinaryOperator::Exponent => "**",
            BinaryOperator::BitwiseOr => "|",
            BinaryOperator::BitwiseXor => "^",
            BinaryOperator::BitwiseAnd => "&",
        }
    }
}

/// The short-circuiting operators of §13.13.
#[derive(Debug, Clone, Copy, PartialEq, Eq, Structural)]
pub enum LogicalOperator {
    /// `&&`
    And,
    /// `||`
    Or,
    /// `??`
    NullishCoalescing,
}

impl LogicalOperator {
    /// How the operator is written.
    pub fn as_str(self) -> (r: &'static str)
        ensures
            r == (match self {
                LogicalOperator::And => "&&",
                LogicalOperator::Or => "||",
                LogicalOperator::NullishCoalescing => "??",
            }),
    {
        match self {
            LogicalOperator::And => "&&",
            LogicalOperator::Or => "||",
            LogicalOperator::NullishCoalescing => "??",
        }
    }
}

/// The assignment operators of §13.15.
#[derive(Debug, Clone, Copy, PartialEq, Eq, Structural)]
pub enum AssignmentOperator {
    /// `=`
    Assign,
    /// `+=`
    Add,
    /// `-=`
    Subtract,
    /// `*=`
    Multiply,
    /// `/=`
    Divide,
    /// `%=`
    Remainder,
    /// `**=`
    Exponent,
    /// `<<=`
    ShiftLeft,
    /// `>>=`
    ShiftRight,
    /// `>>>=`
    ShiftRightUnsigned,
    /// `&=`
    BitwiseAnd,
    /// `^=`
    BitwiseXor,
    /// `|=`
    BitwiseOr,
    /// `&&=`
    LogicalAnd,
    /// `||=`
    LogicalOr,
    /// `??=`
    NullishCoalescing,
}

impl AssignmentOperator {
    /// Whether the right operand may go unevaluated: the three logical assignments.
    pub fn short_circuits(self) -> (r: bool)
        ensures
            r == (self == AssignmentOperator::LogicalAnd || self == AssignmentOperator::LogicalOr
                || self == AssignmentOperator::NullishCoalescing),
    {
        match self {
            AssignmentOperator::LogicalAnd | AssignmentOperator::LogicalOr
            | AssignmentOperator::NullishCoalescing => true,
            _ => false,
        }
    }

    /// How the operator is written.
    pub fn as_str(self) -> (r: &'static str)
        ensures
            r == (match self {
                AssignmentOperator::Assign => "=",
                AssignmentOperator::Add => "+=",
                AssignmentOperator::Subtract => "-=",
                AssignmentOperator::Multiply => "*=",
                AssignmentOperator::Divide => "/=",
                AssignmentOperator::Remainder => "%=",
                AssignmentOperator::Exponent => "**=",
                AssignmentOperator::ShiftLeft => "<<=",
                AssignmentOperator::ShiftRight => ">>=",
                AssignmentOperator::ShiftRightUnsigned => ">>>=",
                AssignmentOperator::BitwiseAnd => "&=",
                AssignmentOperator::BitwiseXor => "^=",
                AssignmentOperator::BitwiseOr => "|=",
                AssignmentOperator::LogicalAnd => "&&=",
                AssignmentOperator::LogicalOr => "||=",
                AssignmentOperator::NullishCoalescing => "??=",
            }),
    {
        match self {
            AssignmentOperator::Assign => "=",
            AssignmentOperator::Add => "+=",
            AssignmentOperator::Subtract => "-=",
            AssignmentOperator::Multiply => "*=",
            AssignmentOperator::Divide => "/=",
            AssignmentOperator::Remainder => "%=",
            AssignmentOperator::Exponent => "**=",
            AssignmentOperator::ShiftLeft => "<<=",
            AssignmentOperator::ShiftRight => ">>=",
            AssignmentOperator::ShiftRightUnsigned => ">>>=",
            AssignmentOperator::BitwiseAnd => "&=",
            AssignmentOperator::BitwiseXor => "^=",
            AssignmentOperator::BitwiseOr => "|=",
            AssignmentOperator::LogicalAnd => "&&=",
            AssignmentOperator::LogicalOr => "||=",
            AssignmentOperator::NullishCoalescing => "??=",
        }
    }
}

/// An expression, where it was written, and whether parentheses were around it.
#[derive(Debug, PartialEq)]
pub struct Expr {
    /// What the expression is.
    pub kind: ExprKind,
    /// The source it covers, parentheses included when there are any; an `async` function
    /// begins at `function`.
    pub span: Span,
    /// Whether it was written inside parentheses.
    pub parenthesized: bool,
}

impl Expr {
    /// An expression with no parentheses around it.
    pub fn new(kind: ExprKind, span: Span) -> (expr: Expr)
        ensures
            expr.kind == kind,
            expr.span == span,
            !expr.parenthesized,
    {
        Expr { kind, span, parenthesized: false }
    }

    /// The same expression, now known to be parenthesized and to cover `span`.
    pub fn in_parentheses(self, span: Span) -> (expr: Expr)
        ensures
            expr.kind == self.kind,
            expr.span == span,
            expr.parenthesized,
    {
        Expr { kind: self.kind, span, parenthesized: true }
    }
}

/// What an expression is.
#[derive(Debug, PartialEq)]
pub enum ExprKind {
    /// `this`
    This,
    /// `null`
    Null,
    /// `true` or `false`
    Boolean(bool),
    /// An `IdentifierReference`, by its `StringValue`.
    Identifier(String),
    /// A `NumericLiteral`.
    Number(NumericValue),
    /// A `BigIntLiteral`, as written.
    BigInt(String),
    /// A `StringLiteral`, as UTF-16 code units.
    String(Vec<u16>),
    /// A `RegularExpressionLiteral`.
    RegExp(Box<RegExpLiteral>),
    /// A `TemplateLiteral`.
    Template(Box<TemplateLiteral>),
    /// `tag` followed by a template.
    TaggedTemplate { tag: Box<Expr>, quasi: Box<TemplateLiteral> },
    /// `[ … ]`
    Array(Vec<ArrayElement>),
    /// `{ … }`
    Object(Vec<PropertyDefinition>),
    /// A `FunctionExpression` and its generator and async forms.
    Function(Box<Function>),
    /// A `ClassExpression`.
    Class(Box<Class>),
    /// An `ArrowFunction` or `AsyncArrowFunction`.
    Arrow(Box<ArrowFunction>),
    /// A prefix operator.
    Unary { operator: UnaryOperator, argument: Box<Expr> },
    /// `++` or `--`, before or after its operand.
    Update { increment: bool, prefix: bool, argument: Box<Expr> },
    /// An operator of §13.6 – §13.12.
    Binary { operator: BinaryOperator, left: Box<Expr>, right: Box<Expr> },
    /// `&&`, `||` or `??`.
    Logical { operator: LogicalOperator, left: Box<Expr>, right: Box<Expr> },
    /// `#name in right` (§13.10).
    PrivateIn { name: String, right: Box<Expr> },
    /// `test ? consequent : alternate`
    Conditional { test: Box<Expr>, consequent: Box<Expr>, alternate: Box<Expr> },
    /// An assignment; an `=` may have a pattern on its left.
    Assignment { operator: AssignmentOperator, target: Box<AssignmentTarget>, value: Box<Expr> },
    /// Two or more expressions separated by commas.
    Sequence(Vec<Expr>),
    /// `object.property`, `object.#property`, or the same after `?.`.
    Member { private: bool, optional: bool, object: Box<Expr>, property: String },
    /// `object[property]` or `object?.[property]`.
    ComputedMember { optional: bool, object: Box<Expr>, property: Box<Expr> },
    /// `callee(arguments)` or `callee?.(arguments)`.
    Call { optional: bool, callee: Box<Expr>, arguments: Vec<Argument> },
    /// `new callee(arguments)`; the arguments are empty when none were written.
    New { callee: Box<Expr>, arguments: Vec<Argument> },
    /// A whole `OptionalExpression`: the chain that short-circuits together.
    OptionalChain(Box<Expr>),
    /// `super`, as the object of a `SuperProperty` or the callee of a `SuperCall`.
    Super,
    /// `new.target`
    NewTarget,
    /// `import.meta`
    ImportMeta,
    /// `import(specifier)` or `import(specifier, options)`.
    ImportCall { specifier: Box<Expr>, options: Option<Box<Expr>> },
    /// A `YieldExpression`.
    Yield(Box<YieldExpression>),
    /// An `AwaitExpression`.
    Await(Box<Expr>),
}

/// A regular expression literal's two parts, as written.
#[derive(Debug, PartialEq)]
pub struct RegExpLiteral {
    /// Between the slashes.
    pub body: String,
    /// After the closing slash.
    pub flags: String,
}

/// A template literal: its pieces of text and the substitutions between them.
#[derive(Debug, PartialEq)]
pub struct TemplateLiteral {
    /// One more than there are substitutions.
    pub quasis: Vec<TemplateElement>,
    /// The expressions inside `${ … }`.
    pub expressions: Vec<Expr>,
}

/// A piece of template text.
#[derive(Debug, PartialEq)]
pub struct TemplateElement {
    /// The text with escapes resolved, as UTF-16; absent where an escape is not one the
    /// grammar allows, which only a tagged template may hold.
    pub cooked: Option<Vec<u16>>,
    /// Where the piece was written, delimiters included.
    pub span: Span,
}

/// `yield`, `yield argument` or `yield* argument`.
#[derive(Debug, PartialEq)]
pub struct YieldExpression {
    /// What is yielded, if anything.
    pub argument: Option<Box<Expr>>,
    /// Whether this is `yield*`.
    pub delegate: bool,
}

/// One slot of an array literal.
#[derive(Debug, PartialEq)]
pub enum ArrayElement {
    /// An elision: a comma with nothing before it in its slot.
    Hole,
    /// An `AssignmentExpression`.
    Value(Expr),
    /// `... AssignmentExpression`, and whether a comma came after it.
    Spread { value: Expr, followed_by_comma: bool },
}

/// One argument of a call or of `new`.
#[derive(Debug, PartialEq)]
pub enum Argument {
    /// An `AssignmentExpression`.
    Value(Expr),
    /// `... AssignmentExpression`.
    Spread(Expr),
}

/// How a method is written (§15.4).
#[derive(Debug, Clone, Copy, PartialEq, Eq, Structural)]
pub enum MethodKind {
    /// An ordinary method.
    Normal,
    /// `get name() {}`
    Getter,
    /// `set name(v) {}`
    Setter,
}

/// A `PropertyName` or a `ClassElementName`.
#[derive(Debug, PartialEq)]
pub enum PropertyKey {
    /// An `IdentifierName`, reserved words included, by its `StringValue`.
    Identifier(String),
    /// A string literal's code units.
    String(Vec<u16>),
    /// A numeric literal's value.
    Number(NumericValue),
    /// A `BigIntLiteral`, as written.
    BigInt(String),
    /// `[ AssignmentExpression ]`
    Computed(Box<Expr>),
    /// `#name`, without the `#`.
    Private(String),
}

/// The UTF-16 code units of an ASCII text.
pub open spec fn ascii_units(text: Seq<u8>) -> Seq<u16> {
    Seq::new(text.len(), |k: int| text[k] as u16)
}

impl PropertyKey {
    /// Whether this key names `word` (an ASCII word) as an identifier or as a string literal.
    pub open spec fn spec_names(&self, word: &str) -> bool {
        match self {
            PropertyKey::Identifier(name) => name@ == word@,
            PropertyKey::String(units) => units@ == ascii_units(word.spec_bytes()),
            _ => false,
        }
    }

    /// Whether this key names `word` (an ASCII word) as an identifier or as a string literal.
    ///
    /// A computed key never does: its value is not known until it runs.
    #[verifier::when_used_as_spec(spec_names)]
    pub fn names(&self, word: &str) -> (r: bool)
        ensures
            r == self.spec_names(word),
            r == match self {
                PropertyKey::Identifier(name) => name@ == word@,
                PropertyKey::String(units) => units@ == ascii_units(word.spec_bytes()),
                _ => false,
            },
    {
        match self {
            PropertyKey::Identifier(name) => crate::text::same_text(name.as_str(), word),
            PropertyKey::String(units) => {
                let bytes = word.as_bytes();
                if units.len() != bytes.len() {
                    proof {
                        assert(ascii_units(word.spec_bytes()).len() == bytes@.len());
                    }
                    return false;
                }
                let mut k: usize = 0;
                while k < units.len()
                    invariant
                        units.len() == bytes.len(),
                        k <= units.len(),
                        bytes@ == word.spec_bytes(),
                        *self == PropertyKey::String(*units),
                        forall|j: int| 0 <= j < k ==> units@[j] == bytes@[j] as u16,
                    decreases units.len() - k,
                {
                    if units[k] != bytes[k] as u16 {
                        proof {
                            let ascii = ascii_units(word.spec_bytes());
                            assert(ascii[k as int] == bytes@[k as int] as u16);
                            assert(units@[k as int] != ascii[k as int]);
                            assert(units@ != ascii);
                        }
                        return false;
                    }
                    k = k + 1;
                }
                proof {
                    assert(units@ =~= ascii_units(word.spec_bytes()));
                }
                true
            },
            _ => false,
        }
    }
}

/// One entry of an object literal.
#[derive(Debug, PartialEq)]
pub enum PropertyDefinition {
    /// `key: value`
    KeyValue { key: PropertyKey, value: Expr },
    /// `name`, short for `name: name`.
    Shorthand { name: String, span: Span },
    /// `name = default` — a `CoverInitializedName`, legal only once refined into a pattern.
    ShorthandWithDefault { name: String, default: Box<Expr>, span: Span },
    /// A method, getter or setter.
    Method { key: PropertyKey, kind: MethodKind, function: Box<Function> },
    /// `... value`, and whether a comma came after it.
    Spread { value: Expr, followed_by_comma: bool },
}

/// A name being bound, and where.
#[derive(Debug, PartialEq)]
pub struct BindingName {
    /// Its `StringValue`.
    pub name: String,
    /// Where it was written.
    pub span: Span,
}

/// Something that can be bound: a name or a destructuring pattern (§14.3.3).
#[derive(Debug, PartialEq)]
pub enum Binding {
    /// A `BindingIdentifier`.
    Identifier(BindingName),
    /// A `BindingPattern`.
    Pattern(BindingPattern),
}

impl Binding {
    /// Where the binding was written.
    pub open spec fn spec_span(&self) -> Span {
        match self {
            Binding::Identifier(name) => name.span,
            Binding::Pattern(BindingPattern::Array(pattern)) => pattern.span,
            Binding::Pattern(BindingPattern::Object(pattern)) => pattern.span,
        }
    }

    /// Where the binding was written.
    #[verifier::when_used_as_spec(spec_span)]
    pub fn span(&self) -> (span: Span)
        ensures
            span == self.spec_span(),
    {
        match self {
            Binding::Identifier(name) => name.span,
            Binding::Pattern(BindingPattern::Array(pattern)) => pattern.span,
            Binding::Pattern(BindingPattern::Object(pattern)) => pattern.span,
        }
    }
}

/// A `BindingPattern`.
#[derive(Debug, PartialEq)]
pub enum BindingPattern {
    /// `[ … ]`
    Array(ArrayBindingPattern),
    /// `{ … }`
    Object(ObjectBindingPattern),
}

/// `ArrayBindingPattern`: elements, holes as `None`, and an optional rest.
#[derive(Debug, PartialEq)]
pub struct ArrayBindingPattern {
    /// The elements, `None` for an elision.
    pub elements: Vec<Option<BindingElement>>,
    /// `... binding`
    pub rest: Option<Box<Binding>>,
    /// The brackets and everything between them.
    pub span: Span,
}

/// `ObjectBindingPattern`: properties and an optional rest name.
#[derive(Debug, PartialEq)]
pub struct ObjectBindingPattern {
    /// The properties.
    pub properties: Vec<BindingProperty>,
    /// `... name`
    pub rest: Option<BindingName>,
    /// The braces and everything between them.
    pub span: Span,
}

/// `PropertyName : BindingElement`, or the shorthand that stands for one.
#[derive(Debug, PartialEq)]
pub struct BindingProperty {
    /// The property read.
    pub key: PropertyKey,
    /// What it is bound to.
    pub value: BindingElement,
}

/// A binding and the default used when its value is `undefined`.
#[derive(Debug, PartialEq)]
pub struct BindingElement {
    /// What is bound.
    pub target: Binding,
    /// `= default`
    pub default: Option<Box<Expr>>,
}

/// A destructuring assignment pattern (§13.15.5).
#[derive(Debug, PartialEq)]
pub enum Pattern {
    /// `ArrayAssignmentPattern`
    Array(ArrayPattern),
    /// `ObjectAssignmentPattern`
    Object(ObjectPattern),
}

/// `ArrayAssignmentPattern`.
#[derive(Debug, PartialEq)]
pub struct ArrayPattern {
    /// The elements, `None` for an elision.
    pub elements: Vec<Option<PatternElement>>,
    /// `... target`
    pub rest: Option<Box<AssignmentTarget>>,
    /// The brackets and everything between them.
    pub span: Span,
}

/// `ObjectAssignmentPattern`.
#[derive(Debug, PartialEq)]
pub struct ObjectPattern {
    /// The properties.
    pub properties: Vec<PatternProperty>,
    /// `... target`, which is always a simple target.
    pub rest: Option<Box<Expr>>,
    /// The braces and everything between them.
    pub span: Span,
}

/// `PropertyName : AssignmentElement`, or the shorthand that stands for one.
#[derive(Debug, PartialEq)]
pub struct PatternProperty {
    /// The property read.
    pub key: PropertyKey,
    /// Where its value goes.
    pub value: PatternElement,
}

/// `AssignmentElement : DestructuringAssignmentTarget Initializer_opt`.
#[derive(Debug, PartialEq)]
pub struct PatternElement {
    /// Where the value goes.
    pub target: AssignmentTarget,
    /// `= default`
    pub default: Option<Box<Expr>>,
}

/// What an assignment writes to.
#[derive(Debug, PartialEq)]
pub enum AssignmentTarget {
    /// A name or a member expression.
    Simple(Expr),
    /// A destructuring pattern.
    Pattern(Pattern),
}

/// `FormalParameters`: binding elements and an optional rest.
#[derive(Debug, PartialEq)]
pub struct FormalParameters {
    /// The parameters before any rest.
    pub items: Vec<BindingElement>,
    /// `... binding`
    pub rest: Option<Box<Binding>>,
    /// The parentheses and everything between them; for an arrow with a bare parameter, that
    /// name.
    pub span: Span,
}

impl FormalParameters {
    /// §15.1.3's `IsSimpleParameterList`: names only, no defaults, patterns or rest.
    pub open spec fn spec_is_simple(&self) -> bool {
        &&& self.rest is None
        &&& forall|k: int|
            0 <= k < self.items@.len() ==> (#[trigger] self.items@[k]).default is None
                && self.items@[k].target is Identifier
    }

    /// Whether the list is simple.
    pub fn is_simple(&self) -> (r: bool)
        ensures
            r == self.spec_is_simple(),
    {
        if self.rest.is_some() {
            return false;
        }
        let mut k: usize = 0;
        while k < self.items.len()
            invariant
                k <= self.items@.len(),
                forall|j: int|
                    0 <= j < k ==> (#[trigger] self.items@[j]).default is None
                        && self.items@[j].target is Identifier,
            decreases self.items.len() - k,
        {
            let item = &self.items[k];
            if item.default.is_some() {
                return false;
            }
            match &item.target {
                Binding::Identifier(_) => {},
                Binding::Pattern(_) => {
                    return false;
                },
            }
            k = k + 1;
        }
        true
    }
}

/// A function of any kind other than an arrow: declaration, expression or method.
#[derive(Debug, PartialEq)]
pub struct Function {
    /// The name, when one is written; a method's is its key and not here.
    pub name: Option<BindingName>,
    /// The parameters.
    pub parameters: FormalParameters,
    /// The statements of the body.
    pub body: Vec<Stmt>,
    /// Whether it is a generator.
    pub is_generator: bool,
    /// Whether it is async.
    pub is_async: bool,
    /// From the keyword, or the parameters of a method, to the closing brace.
    pub span: Span,
}

/// The body of an arrow function.
#[derive(Debug, PartialEq)]
pub enum ArrowBody {
    /// `=> AssignmentExpression`
    Expression(Box<Expr>),
    /// `=> { FunctionBody }`
    Block(Vec<Stmt>),
}

/// An `ArrowFunction` or `AsyncArrowFunction`.
#[derive(Debug, PartialEq)]
pub struct ArrowFunction {
    /// The parameters.
    pub parameters: FormalParameters,
    /// The body.
    pub body: ArrowBody,
    /// Whether it is written with `async`.
    pub is_async: bool,
    /// From the parameters to the end of the body.
    pub span: Span,
}

/// A class, declared or as an expression.
#[derive(Debug, PartialEq)]
pub struct Class {
    /// The name, when one is written.
    pub name: Option<BindingName>,
    /// `extends LeftHandSideExpression`
    pub heritage: Option<Box<Expr>>,
    /// The elements, empty `;`s left out.
    pub elements: Vec<ClassElement>,
    /// From `class` to the closing brace.
    pub span: Span,
}

/// What a class body is made of.
#[derive(Debug, PartialEq)]
pub enum ClassElement {
    /// A method, getter or setter, static or not.
    Method(ClassMethod),
    /// A field.
    Field(ClassField),
    /// `static { … }`
    StaticBlock(ClassStaticBlock),
}

/// A method of a class.
#[derive(Debug, PartialEq)]
pub struct ClassMethod {
    /// Its name.
    pub key: PropertyKey,
    /// Method, getter or setter.
    pub kind: MethodKind,
    /// Its parameters and body.
    pub function: Box<Function>,
    /// Whether it is `static`.
    pub is_static: bool,
    /// Where its name was written.
    pub key_span: Span,
}

/// A field of a class.
#[derive(Debug, PartialEq)]
pub struct ClassField {
    /// Its name.
    pub key: PropertyKey,
    /// `= value`
    pub initializer: Option<Box<Expr>>,
    /// Whether it is `static`.
    pub is_static: bool,
    /// Where its name was written.
    pub key_span: Span,
}

/// `static { … }`
#[derive(Debug, PartialEq)]
pub struct ClassStaticBlock {
    /// The statements inside.
    pub body: Vec<Stmt>,
    /// From `static` to the closing brace.
    pub span: Span,
}

/// `var`, `let` or `const`.
#[derive(Debug, Clone, Copy, PartialEq, Eq, Structural)]
pub enum DeclarationKind {
    /// `var`
    Var,
    /// `let`
    Let,
    /// `const`
    Const,
}

impl DeclarationKind {
    /// Whether this is `let` or `const`.
    pub fn is_lexical(self) -> (r: bool)
        ensures
            r == (self != DeclarationKind::Var),
    {
        match self {
            DeclarationKind::Var => false,
            _ => true,
        }
    }

    /// How the keyword is written.
    pub fn as_str(self) -> (r: &'static str)
        ensures
            r == (match self {
                DeclarationKind::Var => "var",
                DeclarationKind::Let => "let",
                DeclarationKind::Const => "const",
            }),
    {
        match self {
            DeclarationKind::Var => "var",
            DeclarationKind::Let => "let",
            DeclarationKind::Const => "const",
        }
    }
}

/// A `VariableDeclarationList` or a `BindingList`, with its keyword.
#[derive(Debug, PartialEq)]
pub struct Declaration {
    /// The keyword.
    pub kind: DeclarationKind,
    /// The bindings, never empty.
    pub declarators: Vec<Declarator>,
}

/// One binding of a declaration.
#[derive(Debug, PartialEq)]
pub struct Declarator {
    /// What is bound.
    pub binding: Binding,
    /// `= value`
    pub initializer: Option<Box<Expr>>,
    /// From the binding to the end of the initialiser.
    pub span: Span,
}

/// A statement and where it was written.
#[derive(Debug, PartialEq)]
pub struct Stmt {
    /// What the statement is.
    pub kind: StmtKind,
    /// The source it covers, from its first token to its last; a function declaration begins
    /// at `function`, after any `async`, and a `do`-`while` written without its `;` ends with
    /// its condition.
    pub span: Span,
}

/// What a statement is.
#[derive(Debug, PartialEq)]
pub enum StmtKind {
    /// An `ExpressionStatement`.
    Expression(Box<Expr>),
    /// `;`
    Empty,
    /// `{ … }`
    Block(Vec<Stmt>),
    /// `var`, `let` or `const`.
    Declaration(Box<Declaration>),
    /// A function declaration of any kind.
    Function(Box<Function>),
    /// A class declaration.
    Class(Box<Class>),
    /// `if`
    If(Box<IfStatement>),
    /// `while`
    While(Box<WhileStatement>),
    /// `do … while`
    DoWhile(Box<DoWhileStatement>),
    /// The three-part `for`.
    For(Box<ForStatement>),
    /// `for`-`in` and `for`-`of`.
    ForInOf(Box<ForInOfStatement>),
    /// `return`, with its value if one is written.
    Return(Option<Box<Expr>>),
    /// `break`, with its label if one is written.
    Break(Option<Label>),
    /// `continue`, with its label if one is written.
    Continue(Option<Label>),
    /// `throw`
    Throw(Box<Expr>),
    /// `label: statement`
    Labelled(Box<LabelledStatement>),
    /// `try`
    Try(Box<TryStatement>),
    /// `switch`
    Switch(Box<SwitchStatement>),
    /// `with`
    With(Box<WithStatement>),
    /// `debugger`
    Debugger,
}

/// `if (test) consequent else alternate`
#[derive(Debug, PartialEq)]
pub struct IfStatement {
    /// The condition.
    pub test: Expr,
    /// What runs when it holds.
    pub consequent: Stmt,
    /// What runs otherwise, if anything.
    pub alternate: Option<Stmt>,
}

/// `while (test) body`
#[derive(Debug, PartialEq)]
pub struct WhileStatement {
    /// The condition.
    pub test: Expr,
    /// The loop body.
    pub body: Stmt,
}

/// `do body while (test)`
#[derive(Debug, PartialEq)]
pub struct DoWhileStatement {
    /// The loop body.
    pub body: Stmt,
    /// The condition.
    pub test: Expr,
}

/// The first clause of a three-part `for`.
#[derive(Debug, PartialEq)]
pub enum ForInit {
    /// `var`, `let` or `const`.
    Declaration(Box<Declaration>),
    /// An expression.
    Expression(Box<Expr>),
}

/// `for (init; test; update) body`
#[derive(Debug, PartialEq)]
pub struct ForStatement {
    /// The first clause.
    pub init: Option<ForInit>,
    /// The condition.
    pub test: Option<Expr>,
    /// What runs after each turn.
    pub update: Option<Expr>,
    /// The loop body.
    pub body: Stmt,
}

/// `in` or `of`.
#[derive(Debug, Clone, Copy, PartialEq, Eq, Structural)]
pub enum ForInOfKind {
    /// `for (… in …)`
    In,
    /// `for (… of …)`
    Of,
}

/// What a `for`-`in` or `for`-`of` assigns each value to.
#[derive(Debug, PartialEq)]
pub enum ForInOfTarget {
    /// A declaration of one binding.
    Declaration(Box<Declaration>),
    /// An assignment target.
    Expression(Box<AssignmentTarget>),
}

/// `for (left in right) body`, `for (left of right) body`, `for await (left of right) body`.
#[derive(Debug, PartialEq)]
pub struct ForInOfStatement {
    /// `in` or `of`.
    pub kind: ForInOfKind,
    /// Whether it is `for await`.
    pub is_await: bool,
    /// What each value is assigned to.
    pub left: ForInOfTarget,
    /// What is iterated.
    pub right: Expr,
    /// The loop body.
    pub body: Stmt,
}

/// A label, by its `StringValue`.
#[derive(Debug, PartialEq)]
pub struct Label {
    /// The name.
    pub name: String,
    /// Where it was written.
    pub span: Span,
}

/// `label: body`
#[derive(Debug, PartialEq)]
pub struct LabelledStatement {
    /// The label.
    pub label: Label,
    /// What it labels.
    pub body: Stmt,
}

/// `try { … } catch (parameter) { … } finally { … }`
#[derive(Debug, PartialEq)]
pub struct TryStatement {
    /// The guarded block.
    pub block: Vec<Stmt>,
    /// The `catch` clause.
    pub handler: Option<CatchClause>,
    /// The `finally` block.
    pub finalizer: Option<Vec<Stmt>>,
}

/// `catch (parameter) { … }` or `catch { … }`
#[derive(Debug, PartialEq)]
pub struct CatchClause {
    /// The parameter, if one is written.
    pub parameter: Option<Binding>,
    /// The block.
    pub body: Vec<Stmt>,
}

/// `switch (discriminant) { cases }`
#[derive(Debug, PartialEq)]
pub struct SwitchStatement {
    /// What is compared.
    pub discriminant: Expr,
    /// The clauses, `default` among them.
    pub cases: Vec<SwitchCase>,
}

/// `case test: body` or `default: body`
#[derive(Debug, PartialEq)]
pub struct SwitchCase {
    /// The value compared, `None` for `default`.
    pub test: Option<Expr>,
    /// The statements of the clause.
    pub body: Vec<Stmt>,
}

/// `with (object) body`
#[derive(Debug, PartialEq)]
pub struct WithStatement {
    /// The object whose properties come into scope.
    pub object: Expr,
    /// The body.
    pub body: Stmt,
}

/// A whole `Script`.
#[derive(Debug, PartialEq)]
pub struct Script {
    /// The statements.
    pub body: Vec<Stmt>,
    /// The whole source.
    pub span: Span,
}

/// A whole `Module`.
#[derive(Debug, PartialEq)]
pub struct Module {
    /// The items.
    pub body: Vec<ModuleItem>,
    /// The whole source.
    pub span: Span,
    /// The text that was parsed.
    pub source: String,
}

/// One `ModuleItem`.
#[derive(Debug, PartialEq)]
pub enum ModuleItem {
    /// A statement or declaration.
    Statement(Stmt),
    /// An `ImportDeclaration`.
    Import(ImportDeclaration),
    /// An `ExportDeclaration`.
    Export(ExportDeclaration),
}

/// `ModuleExportName : IdentifierName | StringLiteral`.
#[derive(Debug, PartialEq)]
pub enum ModuleExportName {
    /// An `IdentifierName`, by its `StringValue`.
    Identifier(String),
    /// A string literal's code units.
    String(Vec<u16>),
}

/// `import clause from "specifier" with { … };` or `import "specifier";`
#[derive(Debug, PartialEq)]
pub struct ImportDeclaration {
    /// What is bound, absent for the side-effect form.
    pub clause: Option<ImportClause>,
    /// The module specifier's code units.
    pub specifier: Vec<u16>,
    /// The `with` clause's entries.
    pub attributes: Vec<ImportAttribute>,
    /// From `import` to the `;`; where the `;` is left out, the keyword alone.
    pub span: Span,
}

/// `ImportClause`'s five forms.
#[derive(Debug, PartialEq)]
pub enum ImportClause {
    /// `import a from …`
    Default(BindingName),
    /// `import * as a from …`
    Namespace(BindingName),
    /// `import {…} from …`
    Named(Vec<ImportSpecifier>),
    /// `import a, * as b from …`
    DefaultAndNamespace(BindingName, BindingName),
    /// `import a, {…} from …`
    DefaultAndNamed(BindingName, Vec<ImportSpecifier>),
}

/// `imported as local`, or a name that is both.
#[derive(Debug, PartialEq)]
pub struct ImportSpecifier {
    /// The other module's name for it.
    pub imported: ModuleExportName,
    /// This module's binding.
    pub local: BindingName,
}

/// One entry of a `with` clause.
#[derive(Debug, PartialEq)]
pub struct ImportAttribute {
    /// The key.
    pub key: ModuleExportName,
    /// The value's code units.
    pub value: Vec<u16>,
}

/// An `ExportDeclaration`.
#[derive(Debug, PartialEq)]
pub struct ExportDeclaration {
    /// Which form it is.
    pub kind: ExportKind,
    /// From `export` to the end of what it exports, `;` included; where the `;` after a list or
    /// a `from` clause is left out, the keyword alone.
    pub span: Span,
}

/// The forms of `export`.
#[derive(Debug, PartialEq)]
pub enum ExportKind {
    /// `export * from …` and `export * as name from …`
    All { exported: Option<ModuleExportName>, specifier: Vec<u16>, attributes: Vec<ImportAttribute> },
    /// `export {…};`
    Named(Vec<ExportSpecifier>),
    /// `export {…} from …;`
    NamedFrom {
        specifiers: Vec<ExportSpecifier>,
        specifier: Vec<u16>,
        attributes: Vec<ImportAttribute>,
    },
    /// `export var …`, `export function …`, `export class …` and the rest.
    Declaration(Stmt),
    /// `export default …`
    Default(ExportDefault),
}

/// What `export default` exports.
#[derive(Debug, PartialEq)]
pub enum ExportDefault {
    /// A function or class declaration, which may be anonymous here.
    Declaration(Stmt),
    /// An `AssignmentExpression`.
    Expression(Box<Expr>),
}

/// `local as exported`, or a name that is both.
#[derive(Debug, PartialEq)]
pub struct ExportSpecifier {
    /// This module's name, or the other module's with a `from`.
    pub local: ModuleExportName,
    /// The name exported.
    pub exported: ModuleExportName,
}

} // verus!
