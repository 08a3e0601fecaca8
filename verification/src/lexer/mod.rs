//! Source text to tokens (ECMAScript §12).
//!
//! The lexer reads bytes, and never guesses whether a `/` divides or opens a regular expression:
//! whoever asks for the next token says which of the two may stand there ([`Goal`]).

pub mod chars;
pub mod scan;
pub mod value;

use vstd::prelude::*;
use crate::span::Span;
use self::chars::{is_ascii_identifier_start, utf8_decoded, decode_at, is_decimal_digit, is_line_terminator, is_whitespace, line_terminator, whitespace};

verus! {

/// Which of the lexical grammar's goal symbols (§12) the next token is read under.
#[derive(Debug, Clone, Copy, PartialEq, Eq, Structural)]
pub enum Goal {
    /// `InputElementDiv`: an operand has just ended, so `/` divides.
    Div,
    /// `InputElementRegExp`: an operand may begin, so `/` opens a regular expression.
    RegExp,
    /// `InputElementTemplateTail`: a template substitution has just ended, so `}` continues the
    /// template.
    TemplateMiddle,
}

/// A reserved word (§12.7.2): an `IdentifierName` that can never be an `Identifier`.
///
/// The contextual keywords — `let`, `static`, `async`, `of`, `get`, `set` and the rest — are not
/// here: the lexer hands them over as identifiers and the productions that use them look at the
/// text.
#[derive(Debug, Clone, Copy, PartialEq, Eq, Structural)]
pub enum ReservedWord {
    /// `await`
    Await,
    /// `break`
    Break,
    /// `case`
    Case,
    /// `catch`
    Catch,
    /// `class`
    Class,
    /// `const`
    Const,
    /// `continue`
    Continue,
    /// `debugger`
    Debugger,
    /// `default`
    Default,
    /// `delete`
    Delete,
    /// `do`
    Do,
    /// `else`
    Else,
    /// `enum`
    Enum,
    /// `export`
    Export,
    /// `extends`
    Extends,
    /// `false`
    False,
    /// `finally`
    Finally,
    /// `for`
    For,
    /// `function`
    Function,
    /// `if`
    If,
    /// `import`
    Import,
    /// `in`
    In,
    /// `instanceof`
    Instanceof,
    /// `new`
    New,
    /// `null`
    Null,
    /// `return`
    Return,
    /// `super`
    Super,
    /// `switch`
    Switch,
    /// `this`
    This,
    /// `throw`
    Throw,
    /// `true`
    True,
    /// `try`
    Try,
    /// `typeof`
    Typeof,
    /// `var`
    Var,
    /// `void`
    Void,
    /// `while`
    While,
    /// `with`
    With,
    /// `yield`
    Yield,
}

/// How a reserved word is spelled, byte for byte.
pub open spec fn reserved_word_text(word: ReservedWord) -> Seq<u8> {
    match word {
        ReservedWord::Await => seq![0x61u8, 0x77u8, 0x61u8, 0x69u8, 0x74u8],
        ReservedWord::Break => seq![0x62u8, 0x72u8, 0x65u8, 0x61u8, 0x6bu8],
        ReservedWord::Case => seq![0x63u8, 0x61u8, 0x73u8, 0x65u8],
        ReservedWord::Catch => seq![0x63u8, 0x61u8, 0x74u8, 0x63u8, 0x68u8],
        ReservedWord::Class => seq![0x63u8, 0x6cu8, 0x61u8, 0x73u8, 0x73u8],
        ReservedWord::Const => seq![0x63u8, 0x6fu8, 0x6eu8, 0x73u8, 0x74u8],
        ReservedWord::Continue => seq![0x63u8, 0x6fu8, 0x6eu8, 0x74u8, 0x69u8, 0x6eu8, 0x75u8, 0x65u8],
        ReservedWord::Debugger => seq![0x64u8, 0x65u8, 0x62u8, 0x75u8, 0x67u8, 0x67u8, 0x65u8, 0x72u8],
        ReservedWord::Default => seq![0x64u8, 0x65u8, 0x66u8, 0x61u8, 0x75u8, 0x6cu8, 0x74u8],
        ReservedWord::Delete => seq![0x64u8, 0x65u8, 0x6cu8, 0x65u8, 0x74u8, 0x65u8],
        ReservedWord::Do => seq![0x64u8, 0x6fu8],
        ReservedWord::Else => seq![0x65u8, 0x6cu8, 0x73u8, 0x65u8],
        ReservedWord::Enum => seq![0x65u8, 0x6eu8, 0x75u8, 0x6du8],
        ReservedWord::Export => seq![0x65u8, 0x78u8, 0x70u8, 0x6fu8, 0x72u8, 0x74u8],
        ReservedWord::Extends => seq![0x65u8, 0x78u8, 0x74u8, 0x65u8, 0x6eu8, 0x64u8, 0x73u8],
        ReservedWord::False => seq![0x66u8, 0x61u8, 0x6cu8, 0x73u8, 0x65u8],
        ReservedWord::Finally => seq![0x66u8, 0x69u8, 0x6eu8, 0x61u8, 0x6cu8, 0x6cu8, 0x79u8],
        ReservedWord::For => seq![0x66u8, 0x6fu8, 0x72u8],
        ReservedWord::Function => seq![0x66u8, 0x75u8, 0x6eu8, 0x63u8, 0x74u8, 0x69u8, 0x6fu8, 0x6eu8],
        ReservedWord::If => seq![0x69u8, 0x66u8],
        ReservedWord::Import => seq![0x69u8, 0x6du8, 0x70u8, 0x6fu8, 0x72u8, 0x74u8],
        ReservedWord::In => seq![0x69u8, 0x6eu8],
        ReservedWord::Instanceof => seq![0x69u8, 0x6eu8, 0x73u8, 0x74u8, 0x61u8, 0x6eu8, 0x63u8, 0x65u8, 0x6fu8, 0x66u8],
        ReservedWord::New => seq![0x6eu8, 0x65u8, 0x77u8],
        ReservedWord::Null => seq![0x6eu8, 0x75u8, 0x6cu8, 0x6cu8],
        ReservedWord::Return => seq![0x72u8, 0x65u8, 0x74u8, 0x75u8, 0x72u8, 0x6eu8],
        ReservedWord::Super => seq![0x73u8, 0x75u8, 0x70u8, 0x65u8, 0x72u8],
        ReservedWord::Switch => seq![0x73u8, 0x77u8, 0x69u8, 0x74u8, 0x63u8, 0x68u8],
        ReservedWord::This => seq![0x74u8, 0x68u8, 0x69u8, 0x73u8],
        ReservedWord::Throw => seq![0x74u8, 0x68u8, 0x72u8, 0x6fu8, 0x77u8],
        ReservedWord::True => seq![0x74u8, 0x72u8, 0x75u8, 0x65u8],
        ReservedWord::Try => seq![0x74u8, 0x72u8, 0x79u8],
        ReservedWord::Typeof => seq![0x74u8, 0x79u8, 0x70u8, 0x65u8, 0x6fu8, 0x66u8],
        ReservedWord::Var => seq![0x76u8, 0x61u8, 0x72u8],
        ReservedWord::Void => seq![0x76u8, 0x6fu8, 0x69u8, 0x64u8],
        ReservedWord::While => seq![0x77u8, 0x68u8, 0x69u8, 0x6cu8, 0x65u8],
        ReservedWord::With => seq![0x77u8, 0x69u8, 0x74u8, 0x68u8],
        ReservedWord::Yield => seq![0x79u8, 0x69u8, 0x65u8, 0x6cu8, 0x64u8],
    }
}

impl ReservedWord {
    /// The word as it is written.
    pub open spec fn spelling(self) -> &'static str {
        match self {
            ReservedWord::Await => "await",
            ReservedWord::Break => "break",
            ReservedWord::Case => "case",
            ReservedWord::Catch => "catch",
            ReservedWord::Class => "class",
            ReservedWord::Const => "const",
            ReservedWord::Continue => "continue",
            ReservedWord::Debugger => "debugger",
            ReservedWord::Default => "default",
            ReservedWord::Delete => "delete",
            ReservedWord::Do => "do",
            ReservedWord::Else => "else",
            ReservedWord::Enum => "enum",
            ReservedWord::Export => "export",
            ReservedWord::Extends => "extends",
            ReservedWord::False => "false",
            ReservedWord::Finally => "finally",
            ReservedWord::For => "for",
            ReservedWord::Function => "function",
            ReservedWord::If => "if",
            ReservedWord::Import => "import",
            ReservedWord::In => "in",
            ReservedWord::Instanceof => "instanceof",
            ReservedWord::New => "new",
            ReservedWord::Null => "null",
            ReservedWord::Return => "return",
            ReservedWord::Super => "super",
            ReservedWord::Switch => "switch",
            ReservedWord::This => "this",
            ReservedWord::Throw => "throw",
            ReservedWord::True => "true",
            ReservedWord::Try => "try",
            ReservedWord::Typeof => "typeof",
            ReservedWord::Var => "var",
            ReservedWord::Void => "void",
            ReservedWord::While => "while",
            ReservedWord::With => "with",
            ReservedWord::Yield => "yield",
        }
    }

    /// The word as it is written.
    #[verifier::when_used_as_spec(spelling)]
    pub fn as_str(self) -> (r: &'static str)
        ensures
            r == self.spelling(),
    {
        match self {
            ReservedWord::Await => "await",
            ReservedWord::Break => "break",
            ReservedWord::Case => "case",
            ReservedWord::Catch => "catch",
            ReservedWord::Class => "class",
            ReservedWord::Const => "const",
            ReservedWord::Continue => "continue",
            ReservedWord::Debugger => "debugger",
            ReservedWord::Default => "default",
            ReservedWord::Delete => "delete",
            ReservedWord::Do => "do",
            ReservedWord::Else => "else",
            ReservedWord::Enum => "enum",
            ReservedWord::Export => "export",
            ReservedWord::Extends => "extends",
            ReservedWord::False => "false",
            ReservedWord::Finally => "finally",
            ReservedWord::For => "for",
            ReservedWord::Function => "function",
            ReservedWord::If => "if",
            ReservedWord::Import => "import",
            ReservedWord::In => "in",
            ReservedWord::Instanceof => "instanceof",
            ReservedWord::New => "new",
            ReservedWord::Null => "null",
            ReservedWord::Return => "return",
            ReservedWord::Super => "super",
            ReservedWord::Switch => "switch",
            ReservedWord::This => "this",
            ReservedWord::Throw => "throw",
            ReservedWord::True => "true",
            ReservedWord::Try => "try",
            ReservedWord::Typeof => "typeof",
            ReservedWord::Var => "var",
            ReservedWord::Void => "void",
            ReservedWord::While => "while",
            ReservedWord::With => "with",
            ReservedWord::Yield => "yield",
        }
    }

    /// The word's spelling as bytes.
    pub fn text(self) -> (text: &'static [u8])
        ensures
            text@ == reserved_word_text(self),
    {
        let text: &'static [u8] = match self {
            ReservedWord::Await => &[0x61u8, 0x77u8, 0x61u8, 0x69u8, 0x74u8],
            ReservedWord::Break => &[0x62u8, 0x72u8, 0x65u8, 0x61u8, 0x6bu8],
            ReservedWord::Case => &[0x63u8, 0x61u8, 0x73u8, 0x65u8],
            ReservedWord::Catch => &[0x63u8, 0x61u8, 0x74u8, 0x63u8, 0x68u8],
            ReservedWord::Class => &[0x63u8, 0x6cu8, 0x61u8, 0x73u8, 0x73u8],
            ReservedWord::Const => &[0x63u8, 0x6fu8, 0x6eu8, 0x73u8, 0x74u8],
            ReservedWord::Continue => &[0x63u8, 0x6fu8, 0x6eu8, 0x74u8, 0x69u8, 0x6eu8, 0x75u8, 0x65u8],
            ReservedWord::Debugger => &[0x64u8, 0x65u8, 0x62u8, 0x75u8, 0x67u8, 0x67u8, 0x65u8, 0x72u8],
            ReservedWord::Default => &[0x64u8, 0x65u8, 0x66u8, 0x61u8, 0x75u8, 0x6cu8, 0x74u8],
            ReservedWord::Delete => &[0x64u8, 0x65u8, 0x6cu8, 0x65u8, 0x74u8, 0x65u8],
            ReservedWord::Do => &[0x64u8, 0x6fu8],
            ReservedWord::Else => &[0x65u8, 0x6cu8, 0x73u8, 0x65u8],
            ReservedWord::Enum => &[0x65u8, 0x6eu8, 0x75u8, 0x6du8],
            ReservedWord::Export => &[0x65u8, 0x78u8, 0x70u8, 0x6fu8, 0x72u8, 0x74u8],
            ReservedWord::Extends => &[0x65u8, 0x78u8, 0x74u8, 0x65u8, 0x6eu8, 0x64u8, 0x73u8],
            ReservedWord::False => &[0x66u8, 0x61u8, 0x6cu8, 0x73u8, 0x65u8],
            ReservedWord::Finally => &[0x66u8, 0x69u8, 0x6eu8, 0x61u8, 0x6cu8, 0x6cu8, 0x79u8],
            ReservedWord::For => &[0x66u8, 0x6fu8, 0x72u8],
            ReservedWord::Function => &[0x66u8, 0x75u8, 0x6eu8, 0x63u8, 0x74u8, 0x69u8, 0x6fu8, 0x6eu8],
            ReservedWord::If => &[0x69u8, 0x66u8],
            ReservedWord::Import => &[0x69u8, 0x6du8, 0x70u8, 0x6fu8, 0x72u8, 0x74u8],
            ReservedWord::In => &[0x69u8, 0x6eu8],
            ReservedWord::Instanceof => &[0x69u8, 0x6eu8, 0x73u8, 0x74u8, 0x61u8, 0x6eu8, 0x63u8, 0x65u8, 0x6fu8, 0x66u8],
            ReservedWord::New => &[0x6eu8, 0x65u8, 0x77u8],
            ReservedWord::Null => &[0x6eu8, 0x75u8, 0x6cu8, 0x6cu8],
            ReservedWord::Return => &[0x72u8, 0x65u8, 0x74u8, 0x75u8, 0x72u8, 0x6eu8],
            ReservedWord::Super => &[0x73u8, 0x75u8, 0x70u8, 0x65u8, 0x72u8],
            ReservedWord::Switch => &[0x73u8, 0x77u8, 0x69u8, 0x74u8, 0x63u8, 0x68u8],
            ReservedWord::This => &[0x74u8, 0x68u8, 0x69u8, 0x73u8],
            ReservedWord::Throw => &[0x74u8, 0x68u8, 0x72u8, 0x6fu8, 0x77u8],
            ReservedWord::True => &[0x74u8, 0x72u8, 0x75u8, 0x65u8],
            ReservedWord::Try => &[0x74u8, 0x72u8, 0x79u8],
            ReservedWord::Typeof => &[0x74u8, 0x79u8, 0x70u8, 0x65u8, 0x6fu8, 0x66u8],
            ReservedWord::Var => &[0x76u8, 0x61u8, 0x72u8],
            ReservedWord::Void => &[0x76u8, 0x6fu8, 0x69u8, 0x64u8],
            ReservedWord::While => &[0x77u8, 0x68u8, 0x69u8, 0x6cu8, 0x65u8],
            ReservedWord::With => &[0x77u8, 0x69u8, 0x74u8, 0x68u8],
            ReservedWord::Yield => &[0x79u8, 0x69u8, 0x65u8, 0x6cu8, 0x64u8],
        };
        proof {
            assert(text@ =~= reserved_word_text(self));
        }
        text
    }

    /// The reserved word spelled `text`, if there is one.
    pub fn from_text(text: &[u8]) -> (word: Option<ReservedWord>)
        ensures
            word matches Some(w) ==> reserved_word_text(w) == text@,
            word is None ==> forall|w: ReservedWord| reserved_word_text(w) != text@,
            word == spelled_word(text@, 0),
    {
        if text.len() < 2 || text.len() > 10 {
            proof {
                assert forall|w: ReservedWord| reserved_word_text(w) != text@ by {
                    assert(2 <= reserved_word_text(w).len() <= 10);
                }
                lemma_spelled_word_none(text@, 0);
            }
            return None;
        }
        let words: [ReservedWord; 38] = [
            ReservedWord::Await,
            ReservedWord::Break,
            ReservedWord::Case,
            ReservedWord::Catch,
            ReservedWord::Class,
            ReservedWord::Const,
            ReservedWord::Continue,
            ReservedWord::Debugger,
            ReservedWord::Default,
            ReservedWord::Delete,
            ReservedWord::Do,
            ReservedWord::Else,
            ReservedWord::Enum,
            ReservedWord::Export,
            ReservedWord::Extends,
            ReservedWord::False,
            ReservedWord::Finally,
            ReservedWord::For,
            ReservedWord::Function,
            ReservedWord::If,
            ReservedWord::Import,
            ReservedWord::In,
            ReservedWord::Instanceof,
            ReservedWord::New,
            ReservedWord::Null,
            ReservedWord::Return,
            ReservedWord::Super,
            ReservedWord::Switch,
            ReservedWord::This,
            ReservedWord::Throw,
            ReservedWord::True,
            ReservedWord::Try,
            ReservedWord::Typeof,
            ReservedWord::Var,
            ReservedWord::Void,
            ReservedWord::While,
            ReservedWord::With,
            ReservedWord::Yield,
        ];
        let mut k: usize = 0;
        while k < words.len()
            invariant
                words@ == all_reserved_words(),
                forall|j: int| 0 <= j < k ==> reserved_word_text(#[trigger] words@[j]) != text@,
                spelled_word(text@, 0) == spelled_word(text@, k as int),
                k <= 38,
            decreases words.len() - k,
        {
            let candidate = words[k];
            if same_bytes(candidate.text(), text) {
                return Some(candidate);
            }
            k = k + 1;
        }
        proof {
            assert forall|w: ReservedWord| reserved_word_text(w) != text@ by {
                lemma_every_word_listed(w);
                let j = choose|j: int| 0 <= j < all_reserved_words().len() && all_reserved_words()[j] == w;
                assert(reserved_word_text(words@[j]) != text@);
            }
        }
        None
    }
}

/// The first reserved word from the `k`th on, in alphabetical order, that is spelled `text`.
pub open spec fn spelled_word(text: Seq<u8>, k: int) -> Option<ReservedWord>
    decreases 38 - k,
{
    if k < 0 || k >= 38 {
        None
    } else if reserved_word_text(all_reserved_words()[k]) == text {
        Some(all_reserved_words()[k])
    } else {
        spelled_word(text, k + 1)
    }
}

/// No reserved word is found for a text that spells none.
proof fn lemma_spelled_word_none(text: Seq<u8>, k: int)
    requires
        forall|w: ReservedWord| reserved_word_text(w) != text,
    ensures
        spelled_word(text, k) is None,
    decreases 38 - k,
{
    if 0 <= k < 38 {
        lemma_spelled_word_none(text, k + 1);
    }
}

/// Every reserved word, in alphabetical order.
pub open spec fn all_reserved_words() -> Seq<ReservedWord> {
    seq![
        ReservedWord::Await,
        ReservedWord::Break,
        ReservedWord::Case,
        ReservedWord::Catch,
        ReservedWord::Class,
        ReservedWord::Const,
        ReservedWord::Continue,
        ReservedWord::Debugger,
        ReservedWord::Default,
        ReservedWord::Delete,
        ReservedWord::Do,
        ReservedWord::Else,
        ReservedWord::Enum,
        ReservedWord::Export,
        ReservedWord::Extends,
        ReservedWord::False,
        ReservedWord::Finally,
        ReservedWord::For,
        ReservedWord::Function,
        ReservedWord::If,
        ReservedWord::Import,
        ReservedWord::In,
        ReservedWord::Instanceof,
        ReservedWord::New,
        ReservedWord::Null,
        ReservedWord::Return,
        ReservedWord::Super,
        ReservedWord::Switch,
        ReservedWord::This,
        ReservedWord::Throw,
        ReservedWord::True,
        ReservedWord::Try,
        ReservedWord::Typeof,
        ReservedWord::Var,
        ReservedWord::Void,
        ReservedWord::While,
        ReservedWord::With,
        ReservedWord::Yield,
    ]
}

/// Skipping blanks and comments never moves back: it ends at or after where it began.
pub proof fn lemma_trivia_ends_ahead(src: Seq<u8>, pos: int, module: bool)
    requires
        0 <= pos,
    ensures
        forall|line_start: bool, newline: bool|
            #[trigger] trivia_end(src, pos, module, line_start, newline) matches Ok((end, _)) ==> pos <= end,
    decreases src.len() - pos,
{
    if pos < src.len() {
        lemma_trivia_ends_ahead(src, pos + 1, module);
        let after_line = line_end(src, pos + 2);
        if pos < after_line <= src.len() {
            lemma_trivia_ends_ahead(src, after_line, module);
        }
        match block_comment_end(src, pos + 2) {
            Some((end, _)) => if pos < end <= src.len() {
                lemma_trivia_ends_ahead(src, end, module);
            },
            None => {},
        }
        let after_open = line_end(src, pos + 4);
        if pos < after_open <= src.len() {
            lemma_trivia_ends_ahead(src, after_open, module);
        }
        let after_close = line_end(src, pos + 3);
        if pos < after_close <= src.len() {
            lemma_trivia_ends_ahead(src, after_close, module);
        }
        match utf8_decoded(src, pos) {
            Some((_, width)) => if width >= 1 && pos + width <= src.len() {
                lemma_trivia_ends_ahead(src, pos + width, module);
            },
            None => {},
        }
    }
    assert forall|line_start: bool, newline: bool|
        #[trigger] trivia_end(src, pos, module, line_start, newline) is Ok implies pos <= trivia_end(
            src,
            pos,
            module,
            line_start,
            newline,
        )->Ok_0.0 by {
        let r = trivia_end(src, pos, module, line_start, newline);
        if pos < src.len() {
            let b = src[pos];
            if b == 0x20 || b == 0x09 || b == 0x0b || b == 0x0c {
                assert(r == trivia_end(src, pos + 1, module, line_start, newline));
                assert(r is Ok ==> pos <= r->Ok_0.0);
            } else if b == 0x0a || b == 0x0d {
                assert(r == trivia_end(src, pos + 1, module, true, true));
                assert(r is Ok ==> pos <= r->Ok_0.0);
            } else if b == 0x2f && pos + 1 < src.len() && src[pos + 1] == 0x2f {
                let next = line_end(src, pos + 2);
                if pos < next <= src.len() {
                    assert(r == trivia_end(src, next, module, line_start, newline));
                } else {
                    assert(r == Ok::<(int, bool), LexError>((pos, newline)));
                }
                assert(r is Ok ==> pos <= r->Ok_0.0);
            } else if b == 0x2f && pos + 1 < src.len() && src[pos + 1] == 0x2a {
                match block_comment_end(src, pos + 2) {
                    Some((end, inner)) => if pos < end <= src.len() {
                        assert(r == trivia_end(src, end, module, line_start || inner, newline || inner));
                    } else {
                        assert(r == Ok::<(int, bool), LexError>((pos, newline)));
                    },
                    None => {},
                }
                assert(r is Ok ==> pos <= r->Ok_0.0);
            } else if !module && b == 0x3c && pos + 3 < src.len() && src[pos + 1] == 0x21 && src[pos + 2] == 0x2d
                && src[pos + 3] == 0x2d {
                let next = line_end(src, pos + 4);
                if pos < next <= src.len() {
                    assert(r == trivia_end(src, next, module, line_start, newline));
                } else {
                    assert(r == Ok::<(int, bool), LexError>((pos, newline)));
                }
                assert(r is Ok ==> pos <= r->Ok_0.0);
            } else if !module && line_start && b == 0x2d && pos + 2 < src.len() && src[pos + 1] == 0x2d && src[pos
                + 2] == 0x3e {
                let next = line_end(src, pos + 3);
                if pos < next <= src.len() {
                    assert(r == trivia_end(src, next, module, line_start, newline));
                } else {
                    assert(r == Ok::<(int, bool), LexError>((pos, newline)));
                }
                assert(r is Ok ==> pos <= r->Ok_0.0);
            } else if b >= 0x80 {
                match utf8_decoded(src, pos) {
                    Some((cp, width)) => if width >= 1 && pos + width <= src.len() {
                        if is_whitespace(cp) {
                            assert(r == trivia_end(src, pos + width, module, line_start, newline));
                        } else if is_line_terminator(cp) {
                            assert(r == trivia_end(src, pos + width, module, true, true));
                        }
                    },
                    None => {},
                }
                assert(r is Ok ==> pos <= r->Ok_0.0);
            }
        }
    }
}

/// A `,`, a `]` or a `:` is read the same whatever the goal: only a `/`, a `}` and a template
/// depend on it.
pub proof fn lemma_separator_any_goal(src: Seq<u8>, pos: int, goal: Goal, other: Goal, module: bool)
    requires
        lex_token(src, pos, goal, module) matches Ok(t) && (t.kind == TokenKind::Comma || t.kind
            == TokenKind::RBracket || t.kind == TokenKind::Colon),
    ensures
        lex_token(src, pos, other, module) == lex_token(src, pos, goal, module),
{
    let (start, _) = trivia_end(src, pos, module, pos == 0, false)->Ok_0;
    let b = src[start];
    assert(b != 0x7du8 && b != 0x60u8 && b != 0x2fu8);
}

/// A `[` is read as the one-character punctuator it is, whatever the goal.
pub proof fn lemma_left_bracket_read(src: Seq<u8>, pos: int, goal: Goal, module: bool)
    requires
        0 <= pos < src.len(),
        src[pos] == 0x5bu8,
    ensures
        lex_token(src, pos, goal, module) matches Ok(t) && t.kind == TokenKind::LBracket && t.span.start
            == pos as usize && t.span.end == (pos + 1) as usize,
{
    assert(trivia_end(src, pos, module, pos == 0, false) == Ok::<(int, bool), LexError>((pos, false)));
    assert(!is_decimal_digit(0x5bu8));
    assert(!is_ascii_identifier_start(0x5bu8));
    assert(punctuator_scan(src, pos) == Some((TokenKind::LBracket, 1int)));
}

/// `as`, `from` and `of` are no reserved words, so a token that spells one is read as a name:
/// they are keywords only where the grammar looks for them.
pub proof fn lemma_contextual_words_are_names(w: ReservedWord)
    ensures
        reserved_word_text(w) != seq![0x61u8, 0x73u8],
        reserved_word_text(w) != seq![0x66u8, 0x72u8, 0x6fu8, 0x6du8],
        reserved_word_text(w) != seq![0x6fu8, 0x66u8],
{
    let text = reserved_word_text(w);
    if text.len() == 2 {
        assert(text[0] != 0x61u8 && text[0] != 0x6fu8);
    }
    if text.len() == 4 {
        assert(text[0] != 0x66u8 || text[1] != 0x72u8);
    }
}

/// Each reserved word appears in [`all_reserved_words`].
pub proof fn lemma_every_word_listed(w: ReservedWord)
    ensures
        exists|j: int| 0 <= j < all_reserved_words().len() && all_reserved_words()[j] == w,
{
    match w {
        ReservedWord::Await => assert(all_reserved_words()[0] == w),
        ReservedWord::Break => assert(all_reserved_words()[1] == w),
        ReservedWord::Case => assert(all_reserved_words()[2] == w),
        ReservedWord::Catch => assert(all_reserved_words()[3] == w),
        ReservedWord::Class => assert(all_reserved_words()[4] == w),
        ReservedWord::Const => assert(all_reserved_words()[5] == w),
        ReservedWord::Continue => assert(all_reserved_words()[6] == w),
        ReservedWord::Debugger => assert(all_reserved_words()[7] == w),
        ReservedWord::Default => assert(all_reserved_words()[8] == w),
        ReservedWord::Delete => assert(all_reserved_words()[9] == w),
        ReservedWord::Do => assert(all_reserved_words()[10] == w),
        ReservedWord::Else => assert(all_reserved_words()[11] == w),
        ReservedWord::Enum => assert(all_reserved_words()[12] == w),
        ReservedWord::Export => assert(all_reserved_words()[13] == w),
        ReservedWord::Extends => assert(all_reserved_words()[14] == w),
        ReservedWord::False => assert(all_reserved_words()[15] == w),
        ReservedWord::Finally => assert(all_reserved_words()[16] == w),
        ReservedWord::For => assert(all_reserved_words()[17] == w),
        ReservedWord::Function => assert(all_reserved_words()[18] == w),
        ReservedWord::If => assert(all_reserved_words()[19] == w),
        ReservedWord::Import => assert(all_reserved_words()[20] == w),
        ReservedWord::In => assert(all_reserved_words()[21] == w),
        ReservedWord::Instanceof => assert(all_reserved_words()[22] == w),
        ReservedWord::New => assert(all_reserved_words()[23] == w),
        ReservedWord::Null => assert(all_reserved_words()[24] == w),
        ReservedWord::Return => assert(all_reserved_words()[25] == w),
        ReservedWord::Super => assert(all_reserved_words()[26] == w),
        ReservedWord::Switch => assert(all_reserved_words()[27] == w),
        ReservedWord::This => assert(all_reserved_words()[28] == w),
        ReservedWord::Throw => assert(all_reserved_words()[29] == w),
        ReservedWord::True => assert(all_reserved_words()[30] == w),
        ReservedWord::Try => assert(all_reserved_words()[31] == w),
        ReservedWord::Typeof => assert(all_reserved_words()[32] == w),
        ReservedWord::Var => assert(all_reserved_words()[33] == w),
        ReservedWord::Void => assert(all_reserved_words()[34] == w),
        ReservedWord::While => assert(all_reserved_words()[35] == w),
        ReservedWord::With => assert(all_reserved_words()[36] == w),
        ReservedWord::Yield => assert(all_reserved_words()[37] == w),
    }
}

/// What kind of token was read. Values are read back from the source by the functions in
/// [`value`], so a token is small enough to copy.
#[derive(Debug, Clone, Copy, PartialEq, Eq, Structural)]
pub enum TokenKind {
    /// The end of the input.
    Eof,
    /// An `IdentifierName` that is not a reserved word, or one written with escapes.
    Identifier {
        /// Whether a `\u` escape appears in it, which keeps it from being any keyword.
        contains_escape: bool,
    },
    /// `#name` (§12.7).
    PrivateIdentifier {
        /// Whether a `\u` escape appears in it.
        contains_escape: bool,
    },
    /// A reserved word written without escapes.
    Keyword(ReservedWord),
    /// A `NumericLiteral` that is not a `BigInt`.
    Number {
        /// Annex B.1.1's forms: a legacy octal literal such as `010`, or a decimal with a
        /// leading zero such as `09`.
        legacy: bool,
    },
    /// A `BigIntLiteral` such as `1n`.
    BigInt,
    /// A `StringLiteral`.
    String {
        /// Whether it holds a legacy octal escape (`\1`) or a `\8`/`\9`, which strict code refuses.
        legacy_octal: bool,
    },
    /// A piece of a template: from `` ` `` or `}` to `${` or `` ` ``.
    Template {
        /// Whether it ends the template with a backquote.
        tail: bool,
    },
    /// A `RegularExpressionLiteral`.
    RegExp,
    /// `(`
    LParen,
    /// `)`
    RParen,
    /// `[`
    LBracket,
    /// `]`
    RBracket,
    /// `{`
    LBrace,
    /// `}`
    RBrace,
    /// `;`
    Semicolon,
    /// `,`
    Comma,
    /// `:`
    Colon,
    /// `?`
    Question,
    /// `?.`
    QuestionDot,
    /// `??`
    QuestionQuestion,
    /// `??=`
    QuestionQuestionEq,
    /// `.`
    Dot,
    /// `...`
    DotDotDot,
    /// `=>`
    Arrow,
    /// `=`
    Eq,
    /// `==`
    EqEq,
    /// `===`
    EqEqEq,
    /// `!`
    Bang,
    /// `!=`
    BangEq,
    /// `!==`
    BangEqEq,
    /// `<`
    Lt,
    /// `<=`
    LtEq,
    /// `<<`
    LtLt,
    /// `<<=`
    LtLtEq,
    /// `>`
    Gt,
    /// `>=`
    GtEq,
    /// `>>`
    GtGt,
    /// `>>=`
    GtGtEq,
    /// `>>>`
    GtGtGt,
    /// `>>>=`
    GtGtGtEq,
    /// `+`
    Plus,
    /// `++`
    PlusPlus,
    /// `+=`
    PlusEq,
    /// `-`
    Minus,
    /// `--`
    MinusMinus,
    /// `-=`
    MinusEq,
    /// `*`
    Star,
    /// `*=`
    StarEq,
    /// `**`
    StarStar,
    /// `**=`
    StarStarEq,
    /// `/`
    Slash,
    /// `/=`
    SlashEq,
    /// `%`
    Percent,
    /// `%=`
    PercentEq,
    /// `&`
    Amp,
    /// `&&`
    AmpAmp,
    /// `&=`
    AmpEq,
    /// `&&=`
    AmpAmpEq,
    /// `|`
    Pipe,
    /// `||`
    PipePipe,
    /// `|=`
    PipeEq,
    /// `||=`
    PipePipeEq,
    /// `^`
    Caret,
    /// `^=`
    CaretEq,
    /// `~`
    Tilde,
}

/// How a punctuator is spelled, byte for byte; empty for the kinds that are not punctuators.
pub open spec fn punctuator_text(kind: TokenKind) -> Seq<u8> {
    match kind {
        TokenKind::LParen => seq![0x28u8],
        TokenKind::RParen => seq![0x29u8],
        TokenKind::LBracket => seq![0x5bu8],
        TokenKind::RBracket => seq![0x5du8],
        TokenKind::LBrace => seq![0x7bu8],
        TokenKind::RBrace => seq![0x7du8],
        TokenKind::Semicolon => seq![0x3bu8],
        TokenKind::Comma => seq![0x2cu8],
        TokenKind::Colon => seq![0x3au8],
        TokenKind::Question => seq![0x3fu8],
        TokenKind::QuestionDot => seq![0x3fu8, 0x2eu8],
        TokenKind::QuestionQuestion => seq![0x3fu8, 0x3fu8],
        TokenKind::QuestionQuestionEq => seq![0x3fu8, 0x3fu8, 0x3du8],
        TokenKind::Dot => seq![0x2eu8],
        TokenKind::DotDotDot => seq![0x2eu8, 0x2eu8, 0x2eu8],
        TokenKind::Arrow => seq![0x3du8, 0x3eu8],
        TokenKind::Eq => seq![0x3du8],
        TokenKind::EqEq => seq![0x3du8, 0x3du8],
        TokenKind::EqEqEq => seq![0x3du8, 0x3du8, 0x3du8],
        TokenKind::Bang => seq![0x21u8],
        TokenKind::BangEq => seq![0x21u8, 0x3du8],
        TokenKind::BangEqEq => seq![0x21u8, 0x3du8, 0x3du8],
        TokenKind::Lt => seq![0x3cu8],
        TokenKind::LtEq => seq![0x3cu8, 0x3du8],
        TokenKind::LtLt => seq![0x3cu8, 0x3cu8],
        TokenKind::LtLtEq => seq![0x3cu8, 0x3cu8, 0x3du8],
        TokenKind::Gt => seq![0x3eu8],
        TokenKind::GtEq => seq![0x3eu8, 0x3du8],
        TokenKind::GtGt => seq![0x3eu8, 0x3eu8],
        TokenKind::GtGtEq => seq![0x3eu8, 0x3eu8, 0x3du8],
        TokenKind::GtGtGt => seq![0x3eu8, 0x3eu8, 0x3eu8],
        TokenKind::GtGtGtEq => seq![0x3eu8, 0x3eu8, 0x3eu8, 0x3du8],
        TokenKind::Plus => seq![0x2bu8],
        TokenKind::PlusPlus => seq![0x2bu8, 0x2bu8],
        TokenKind::PlusEq => seq![0x2bu8, 0x3du8],
        TokenKind::Minus => seq![0x2du8],
        TokenKind::MinusMinus => seq![0x2du8, 0x2du8],
        TokenKind::MinusEq => seq![0x2du8, 0x3du8],
        TokenKind::Star => seq![0x2au8],
        TokenKind::StarEq => seq![0x2au8, 0x3du8],
        TokenKind::StarStar => seq![0x2au8, 0x2au8],
        TokenKind::StarStarEq => seq![0x2au8, 0x2au8, 0x3du8],
        TokenKind::Slash => seq![0x2fu8],
        TokenKind::SlashEq => seq![0x2fu8, 0x3du8],
        TokenKind::Percent => seq![0x25u8],
        TokenKind::PercentEq => seq![0x25u8, 0x3du8],
        TokenKind::Amp => seq![0x26u8],
        TokenKind::AmpAmp => seq![0x26u8, 0x26u8],
        TokenKind::AmpEq => seq![0x26u8, 0x3du8],
        TokenKind::AmpAmpEq => seq![0x26u8, 0x26u8, 0x3du8],
        TokenKind::Pipe => seq![0x7cu8],
        TokenKind::PipePipe => seq![0x7cu8, 0x7cu8],
        TokenKind::PipeEq => seq![0x7cu8, 0x3du8],
        TokenKind::PipePipeEq => seq![0x7cu8, 0x7cu8, 0x3du8],
        TokenKind::Caret => seq![0x5eu8],
        TokenKind::CaretEq => seq![0x5eu8, 0x3du8],
        TokenKind::Tilde => seq![0x7eu8],
        _ => Seq::empty(),
    }
}

/// The fixed spelling of a punctuator or a reserved word, for messages.
pub open spec fn spelling_text(kind: TokenKind) -> Option<&'static str> {
    match kind {
        TokenKind::LParen => Some("("),
        TokenKind::RParen => Some(")"),
        TokenKind::LBracket => Some("["),
        TokenKind::RBracket => Some("]"),
        TokenKind::LBrace => Some("{"),
        TokenKind::RBrace => Some("}"),
        TokenKind::Semicolon => Some(";"),
        TokenKind::Comma => Some(","),
        TokenKind::Colon => Some(":"),
        TokenKind::Question => Some("?"),
        TokenKind::QuestionDot => Some("?."),
        TokenKind::QuestionQuestion => Some("??"),
        TokenKind::QuestionQuestionEq => Some("??="),
        TokenKind::Dot => Some("."),
        TokenKind::DotDotDot => Some("..."),
        TokenKind::Arrow => Some("=>"),
        TokenKind::Eq => Some("="),
        TokenKind::EqEq => Some("=="),
        TokenKind::EqEqEq => Some("==="),
        TokenKind::Bang => Some("!"),
        TokenKind::BangEq => Some("!="),
        TokenKind::BangEqEq => Some("!=="),
        TokenKind::Lt => Some("<"),
        TokenKind::LtEq => Some("<="),
        TokenKind::LtLt => Some("<<"),
        TokenKind::LtLtEq => Some("<<="),
        TokenKind::Gt => Some(">"),
        TokenKind::GtEq => Some(">="),
        TokenKind::GtGt => Some(">>"),
        TokenKind::GtGtEq => Some(">>="),
        TokenKind::GtGtGt => Some(">>>"),
        TokenKind::GtGtGtEq => Some(">>>="),
        TokenKind::Plus => Some("+"),
        TokenKind::PlusPlus => Some("++"),
        TokenKind::PlusEq => Some("+="),
        TokenKind::Minus => Some("-"),
        TokenKind::MinusMinus => Some("--"),
        TokenKind::MinusEq => Some("-="),
        TokenKind::Star => Some("*"),
        TokenKind::StarEq => Some("*="),
        TokenKind::StarStar => Some("**"),
        TokenKind::StarStarEq => Some("**="),
        TokenKind::Slash => Some("/"),
        TokenKind::SlashEq => Some("/="),
        TokenKind::Percent => Some("%"),
        TokenKind::PercentEq => Some("%="),
        TokenKind::Amp => Some("&"),
        TokenKind::AmpAmp => Some("&&"),
        TokenKind::AmpEq => Some("&="),
        TokenKind::AmpAmpEq => Some("&&="),
        TokenKind::Pipe => Some("|"),
        TokenKind::PipePipe => Some("||"),
        TokenKind::PipeEq => Some("|="),
        TokenKind::PipePipeEq => Some("||="),
        TokenKind::Caret => Some("^"),
        TokenKind::CaretEq => Some("^="),
        TokenKind::Tilde => Some("~"),
        TokenKind::Keyword(word) => Some(word.as_str()),
        _ => None,
    }
}

/// The fixed spelling of a punctuator or a reserved word, for messages.
#[verifier::when_used_as_spec(spelling_text)]
pub fn fixed_spelling(kind: TokenKind) -> (r: Option<&'static str>)
    ensures
        r == spelling_text(kind),
{
    match kind {
        TokenKind::LParen => Some("("),
        TokenKind::RParen => Some(")"),
        TokenKind::LBracket => Some("["),
        TokenKind::RBracket => Some("]"),
        TokenKind::LBrace => Some("{"),
        TokenKind::RBrace => Some("}"),
        TokenKind::Semicolon => Some(";"),
        TokenKind::Comma => Some(","),
        TokenKind::Colon => Some(":"),
        TokenKind::Question => Some("?"),
        TokenKind::QuestionDot => Some("?."),
        TokenKind::QuestionQuestion => Some("??"),
        TokenKind::QuestionQuestionEq => Some("??="),
        TokenKind::Dot => Some("."),
        TokenKind::DotDotDot => Some("..."),
        TokenKind::Arrow => Some("=>"),
        TokenKind::Eq => Some("="),
        TokenKind::EqEq => Some("=="),
        TokenKind::EqEqEq => Some("==="),
        TokenKind::Bang => Some("!"),
        TokenKind::BangEq => Some("!="),
        TokenKind::BangEqEq => Some("!=="),
        TokenKind::Lt => Some("<"),
        TokenKind::LtEq => Some("<="),
        TokenKind::LtLt => Some("<<"),
        TokenKind::LtLtEq => Some("<<="),
        TokenKind::Gt => Some(">"),
        TokenKind::GtEq => Some(">="),
        TokenKind::GtGt => Some(">>"),
        TokenKind::GtGtEq => Some(">>="),
        TokenKind::GtGtGt => Some(">>>"),
        TokenKind::GtGtGtEq => Some(">>>="),
        TokenKind::Plus => Some("+"),
        TokenKind::PlusPlus => Some("++"),
        TokenKind::PlusEq => Some("+="),
        TokenKind::Minus => Some("-"),
        TokenKind::MinusMinus => Some("--"),
        TokenKind::MinusEq => Some("-="),
        TokenKind::Star => Some("*"),
        TokenKind::StarEq => Some("*="),
        TokenKind::StarStar => Some("**"),
        TokenKind::StarStarEq => Some("**="),
        TokenKind::Slash => Some("/"),
        TokenKind::SlashEq => Some("/="),
        TokenKind::Percent => Some("%"),
        TokenKind::PercentEq => Some("%="),
        TokenKind::Amp => Some("&"),
        TokenKind::AmpAmp => Some("&&"),
        TokenKind::AmpEq => Some("&="),
        TokenKind::AmpAmpEq => Some("&&="),
        TokenKind::Pipe => Some("|"),
        TokenKind::PipePipe => Some("||"),
        TokenKind::PipeEq => Some("|="),
        TokenKind::PipePipeEq => Some("||="),
        TokenKind::Caret => Some("^"),
        TokenKind::CaretEq => Some("^="),
        TokenKind::Tilde => Some("~"),
        TokenKind::Keyword(word) => Some(word.as_str()),
        _ => None,
    }
}
/// A token: what it is, where it is, and whether a line terminator came before it.
///
/// The last is what automatic semicolon insertion (§12.10) and every `[no LineTerminator here]`
/// restriction ask about.
#[derive(Debug, Clone, Copy, PartialEq, Eq, Structural)]
pub struct Token {
    /// What kind of token this is.
    pub kind: TokenKind,
    /// The bytes it covers.
    pub span: Span,
    /// Whether a line terminator, or a comment containing one, came between it and the previous
    /// token.
    pub newline_before: bool,
}

/// Why no token could be read.
#[derive(Debug, Clone, Copy, PartialEq, Eq, Structural)]
pub enum LexErrorKind {
    /// A character that begins no token.
    UnexpectedCharacter,
    /// A `/*` comment with no `*/`.
    UnterminatedComment,
    /// A string literal with no closing quote on its line.
    UnterminatedString,
    /// A template literal with no closing backquote.
    UnterminatedTemplate,
    /// A regular expression literal with no closing slash on its line.
    UnterminatedRegExp,
    /// A `\` that begins no escape sequence the grammar allows here.
    InvalidEscape,
    /// A numeric literal that is malformed: a misplaced `_`, a prefix with no digits, an
    /// exponent with none.
    InvalidNumber,
    /// An identifier or a number written directly after a number.
    IdentifierAfterNumber,
}

impl LexErrorKind {
    /// What went wrong, in words.
    pub open spec fn words(self) -> &'static str {
        match self {
            LexErrorKind::UnexpectedCharacter => "unexpected character",
            LexErrorKind::UnterminatedComment => "unterminated comment",
            LexErrorKind::UnterminatedString => "unterminated string literal",
            LexErrorKind::UnterminatedTemplate => "unterminated template literal",
            LexErrorKind::UnterminatedRegExp => "unterminated regular expression literal",
            LexErrorKind::InvalidEscape => "invalid escape sequence",
            LexErrorKind::InvalidNumber => "invalid numeric literal",
            LexErrorKind::IdentifierAfterNumber => {
                "an identifier or a digit may not directly follow a numeric literal"
            },
        }
    }

    /// What went wrong, in words.
    #[verifier::when_used_as_spec(words)]
    pub fn message(self) -> (r: &'static str)
        ensures
            r == self.words(),
    {
        match self {
            LexErrorKind::UnexpectedCharacter => "unexpected character",
            LexErrorKind::UnterminatedComment => "unterminated comment",
            LexErrorKind::UnterminatedString => "unterminated string literal",
            LexErrorKind::UnterminatedTemplate => "unterminated template literal",
            LexErrorKind::UnterminatedRegExp => "unterminated regular expression literal",
            LexErrorKind::InvalidEscape => "invalid escape sequence",
            LexErrorKind::InvalidNumber => "invalid numeric literal",
            LexErrorKind::IdentifierAfterNumber => {
                "an identifier or a digit may not directly follow a numeric literal"
            },
        }
    }
}

/// A lexical failure and where it happened.
#[derive(Debug, Clone, Copy, PartialEq, Eq, Structural)]
pub struct LexError {
    /// What went wrong.
    pub kind: LexErrorKind,
    /// Where.
    pub span: Span,
}

/// Whether `a` and `b` hold the same bytes.
pub fn same_bytes(a: &[u8], b: &[u8]) -> (same: bool)
    ensures
        same == (a@ == b@),
{
    if a.len() != b.len() {
        return false;
    }
    let mut i: usize = 0;
    while i < a.len()
        invariant
            a.len() == b.len(),
            i <= a.len(),
            forall|j: int| 0 <= j < i ==> a@[j] == b@[j],
        decreases a.len() - i,
    {
        if a[i] != b[i] {
            return false;
        }
        i = i + 1;
    }
    proof {
        assert(a@ =~= b@);
    }
    true
}

/// Whether `src` holds `byte` at `i`; false past the end.
pub fn byte_is(src: &[u8], i: usize, byte: u8) -> (r: bool)
    ensures
        r == (i < src.len() && src@[i as int] == byte),
{
    i < src.len() && src[i] == byte
}

/// How many bytes the line terminator at `i` of `src` takes (§12.3): one for a line feed or a
/// carriage return, three for the UTF-8 of U+2028 or U+2029, and none where no line ends.
pub open spec fn terminator_width(src: Seq<u8>, i: int) -> int {
    if src[i] == 0x0a || src[i] == 0x0d {
        1
    } else if i + 2 < src.len() && src[i] == 0xe2 && src[i + 1] == 0x80 && (src[i + 2] == 0xa8
        || src[i + 2] == 0xa9) {
        3
    } else {
        0
    }
}

/// Whether a line terminator starts at `i`, and how many bytes it takes.
pub fn line_terminator_at(src: &[u8], i: usize) -> (width: usize)
    requires
        i < src.len(),
    ensures
        width == terminator_width(src@, i as int),
        width <= 3,
        i + width <= src.len(),
{
    let b = src[i];
    if b == 0x0a || b == 0x0d {
        return 1;
    }
    if b == 0xe2 && byte_is(src, i + 1, 0x80) && (byte_is(src, i + 2, 0xa8) || byte_is(
        src,
        i + 2,
        0xa9,
    )) {
        return 3;
    }
    0
}

/// Whether the punctuator `kind` is written at `i` of `src`.
pub open spec fn punctuator_at(src: Seq<u8>, i: int, kind: TokenKind) -> bool {
    let text = punctuator_text(kind);
    &&& text.len() > 0
    &&& i + text.len() <= src.len()
    &&& forall|p: int| 0 <= p < text.len() ==> #[trigger] src[i + p] == text[p]
}

/// The bytes that begin a punctuator.
pub open spec fn begins_punctuator(b: u8) -> bool {
    b == 0x28 || b == 0x29 || b == 0x5b || b == 0x5d || b == 0x7b || b == 0x7d || b == 0x3b || b == 0x2c
        || b == 0x3a || b == 0x7e || b == 0x3f || b == 0x2e || b == 0x3d || b == 0x21 || b == 0x3c || b
        == 0x3e || b == 0x2b || b == 0x2d || b == 0x2a || b == 0x2f || b == 0x25 || b == 0x26 || b == 0x7c
        || b == 0x5e
}

/// The punctuator written at `i` of `src` by maximal munch, and how many bytes it takes; `?.`
/// is not taken before a digit.
pub open spec fn punctuator_scan(src: Seq<u8>, i: int) -> Option<(TokenKind, int)> {
    let b = src[i];
    let at = |k: int, byte: u8| k < src.len() && src[k] == byte;
    if b == 0x28 {
        Some((TokenKind::LParen, 1))
    } else if b == 0x29 {
        Some((TokenKind::RParen, 1))
    } else if b == 0x5b {
        Some((TokenKind::LBracket, 1))
    } else if b == 0x5d {
        Some((TokenKind::RBracket, 1))
    } else if b == 0x7b {
        Some((TokenKind::LBrace, 1))
    } else if b == 0x7d {
        Some((TokenKind::RBrace, 1))
    } else if b == 0x3b {
        Some((TokenKind::Semicolon, 1))
    } else if b == 0x2c {
        Some((TokenKind::Comma, 1))
    } else if b == 0x3a {
        Some((TokenKind::Colon, 1))
    } else if b == 0x7e {
        Some((TokenKind::Tilde, 1))
    } else if b == 0x3f {
        // `?`, `?.`, `??`, `??=`
        if at(i + 1, 0x3f) {
            if at(i + 2, 0x3d) {
                Some((TokenKind::QuestionQuestionEq, 3))
            } else {
                Some((TokenKind::QuestionQuestion, 2))
            }
        } else if at(i + 1, 0x2e) && !(i + 2 < src.len() && is_decimal_digit(src[i + 2])) {
            Some((TokenKind::QuestionDot, 2))
        } else {
            Some((TokenKind::Question, 1))
        }
    } else if b == 0x2e {
        if at(i + 1, 0x2e) && at(i + 2, 0x2e) {
            Some((TokenKind::DotDotDot, 3))
        } else {
            Some((TokenKind::Dot, 1))
        }
    } else if b == 0x3d {
        // `=`, `==`, `===`, `=>`
        if at(i + 1, 0x3d) {
            if at(i + 2, 0x3d) {
                Some((TokenKind::EqEqEq, 3))
            } else {
                Some((TokenKind::EqEq, 2))
            }
        } else if at(i + 1, 0x3e) {
            Some((TokenKind::Arrow, 2))
        } else {
            Some((TokenKind::Eq, 1))
        }
    } else if b == 0x21 {
        if at(i + 1, 0x3d) {
            if at(i + 2, 0x3d) {
                Some((TokenKind::BangEqEq, 3))
            } else {
                Some((TokenKind::BangEq, 2))
            }
        } else {
            Some((TokenKind::Bang, 1))
        }
    } else if b == 0x3c {
        if at(i + 1, 0x3c) {
            if at(i + 2, 0x3d) {
                Some((TokenKind::LtLtEq, 3))
            } else {
                Some((TokenKind::LtLt, 2))
            }
        } else if at(i + 1, 0x3d) {
            Some((TokenKind::LtEq, 2))
        } else {
            Some((TokenKind::Lt, 1))
        }
    } else if b == 0x3e {
        if at(i + 1, 0x3e) {
            if at(i + 2, 0x3e) {
                if at(i + 3, 0x3d) {
                    Some((TokenKind::GtGtGtEq, 4))
                } else {
                    Some((TokenKind::GtGtGt, 3))
                }
            } else if at(i + 2, 0x3d) {
                Some((TokenKind::GtGtEq, 3))
            } else {
                Some((TokenKind::GtGt, 2))
            }
        } else if at(i + 1, 0x3d) {
            Some((TokenKind::GtEq, 2))
        } else {
            Some((TokenKind::Gt, 1))
        }
    } else if b == 0x2b {
        if at(i + 1, 0x2b) {
            Some((TokenKind::PlusPlus, 2))
        } else if at(i + 1, 0x3d) {
            Some((TokenKind::PlusEq, 2))
        } else {
            Some((TokenKind::Plus, 1))
        }
    } else if b == 0x2d {
        if at(i + 1, 0x2d) {
            Some((TokenKind::MinusMinus, 2))
        } else if at(i + 1, 0x3d) {
            Some((TokenKind::MinusEq, 2))
        } else {
            Some((TokenKind::Minus, 1))
        }
    } else if b == 0x2a {
        if at(i + 1, 0x2a) {
            if at(i + 2, 0x3d) {
                Some((TokenKind::StarStarEq, 3))
            } else {
                Some((TokenKind::StarStar, 2))
            }
        } else if at(i + 1, 0x3d) {
            Some((TokenKind::StarEq, 2))
        } else {
            Some((TokenKind::Star, 1))
        }
    } else if b == 0x2f {
        if at(i + 1, 0x3d) {
            Some((TokenKind::SlashEq, 2))
        } else {
            Some((TokenKind::Slash, 1))
        }
    } else if b == 0x25 {
        if at(i + 1, 0x3d) {
            Some((TokenKind::PercentEq, 2))
        } else {
            Some((TokenKind::Percent, 1))
        }
    } else if b == 0x26 {
        if at(i + 1, 0x26) {
            if at(i + 2, 0x3d) {
                Some((TokenKind::AmpAmpEq, 3))
            } else {
                Some((TokenKind::AmpAmp, 2))
            }
        } else if at(i + 1, 0x3d) {
            Some((TokenKind::AmpEq, 2))
        } else {
            Some((TokenKind::Amp, 1))
        }
    } else if b == 0x7c {
        if at(i + 1, 0x7c) {
            if at(i + 2, 0x3d) {
                Some((TokenKind::PipePipeEq, 3))
            } else {
                Some((TokenKind::PipePipe, 2))
            }
        } else if at(i + 1, 0x3d) {
            Some((TokenKind::PipeEq, 2))
        } else {
            Some((TokenKind::Pipe, 1))
        }
    } else if b == 0x5e {
        if at(i + 1, 0x3d) {
            Some((TokenKind::CaretEq, 2))
        } else {
            Some((TokenKind::Caret, 1))
        }
    } else {
        None
    }
}

/// The punctuator that starts at `i`, by maximal munch, and where it ends.
///
/// `/` and `/=` are included; whether a slash is one of them or opens a regular expression is
/// the caller's to decide. `?.` is not taken before a digit, so `a?.5:b` stays a conditional.
pub fn scan_punctuator(src: &[u8], i: usize) -> (r: Option<(TokenKind, usize)>)
    requires
        i < src.len(),
    ensures
        r matches Some((kind, end)) ==> i < end <= src.len() && src@.subrange(i as int, end as int)
            == punctuator_text(kind) && punctuator_text(kind).len() > 0,
        r is None <==> !begins_punctuator(src@[i as int]),
        match r {
            Some((kind, end)) => punctuator_scan(src@, i as int) == Some((kind, end - i)),
            None => punctuator_scan(src@, i as int) is None,
        },
        r matches Some((kind, end)) ==> forall|k: TokenKind|
            #[trigger] punctuator_at(src@, i as int, k) && k != TokenKind::QuestionDot ==> punctuator_text(k).len()
                <= end - i,
        r matches Some((kind, end)) ==> (kind == TokenKind::QuestionDot <==> punctuator_at(
            src@,
            i as int,
            TokenKind::QuestionDot,
        ) && !(i + 2 < src.len() && is_decimal_digit(src@[i + 2]))),
{
    let b = src[i];
    let n1 = i + 1;
    let r: (TokenKind, usize) = if b == 0x28 {
        (TokenKind::LParen, 1)
    } else if b == 0x29 {
        (TokenKind::RParen, 1)
    } else if b == 0x5b {
        (TokenKind::LBracket, 1)
    } else if b == 0x5d {
        (TokenKind::RBracket, 1)
    } else if b == 0x7b {
        (TokenKind::LBrace, 1)
    } else if b == 0x7d {
        (TokenKind::RBrace, 1)
    } else if b == 0x3b {
        (TokenKind::Semicolon, 1)
    } else if b == 0x2c {
        (TokenKind::Comma, 1)
    } else if b == 0x3a {
        (TokenKind::Colon, 1)
    } else if b == 0x7e {
        (TokenKind::Tilde, 1)
    } else if b == 0x3f {
        // `?`, `?.`, `??`, `??=`
        if byte_is(src, n1, 0x3f) {
            if byte_is(src, i + 2, 0x3d) {
                (TokenKind::QuestionQuestionEq, 3)
            } else {
                (TokenKind::QuestionQuestion, 2)
            }
        } else if byte_is(src, n1, 0x2e) && !(i + 2 < src.len() && chars::decimal_digit(
            src[i + 2],
        )) {
            (TokenKind::QuestionDot, 2)
        } else {
            (TokenKind::Question, 1)
        }
    } else if b == 0x2e {
        if byte_is(src, n1, 0x2e) && byte_is(src, i + 2, 0x2e) {
            (TokenKind::DotDotDot, 3)
        } else {
            (TokenKind::Dot, 1)
        }
    } else if b == 0x3d {
        // `=`, `==`, `===`, `=>`
        if byte_is(src, n1, 0x3d) {
            if byte_is(src, i + 2, 0x3d) {
                (TokenKind::EqEqEq, 3)
            } else {
                (TokenKind::EqEq, 2)
            }
        } else if byte_is(src, n1, 0x3e) {
            (TokenKind::Arrow, 2)
        } else {
            (TokenKind::Eq, 1)
        }
    } else if b == 0x21 {
        if byte_is(src, n1, 0x3d) {
            if byte_is(src, i + 2, 0x3d) {
                (TokenKind::BangEqEq, 3)
            } else {
                (TokenKind::BangEq, 2)
            }
        } else {
            (TokenKind::Bang, 1)
        }
    } else if b == 0x3c {
        if byte_is(src, n1, 0x3c) {
            if byte_is(src, i + 2, 0x3d) {
                (TokenKind::LtLtEq, 3)
            } else {
                (TokenKind::LtLt, 2)
            }
        } else if byte_is(src, n1, 0x3d) {
            (TokenKind::LtEq, 2)
        } else {
            (TokenKind::Lt, 1)
        }
    } else if b == 0x3e {
        if byte_is(src, n1, 0x3e) {
            if byte_is(src, i + 2, 0x3e) {
                if byte_is(src, i + 3, 0x3d) {
                    (TokenKind::GtGtGtEq, 4)
                } else {
                    (TokenKind::GtGtGt, 3)
                }
            } else if byte_is(src, i + 2, 0x3d) {
                (TokenKind::GtGtEq, 3)
            } else {
                (TokenKind::GtGt, 2)
            }
        } else if byte_is(src, n1, 0x3d) {
            (TokenKind::GtEq, 2)
        } else {
            (TokenKind::Gt, 1)
        }
    } else if b == 0x2b {
        if byte_is(src, n1, 0x2b) {
            (TokenKind::PlusPlus, 2)
        } else if byte_is(src, n1, 0x3d) {
            (TokenKind::PlusEq, 2)
        } else {
            (TokenKind::Plus, 1)
        }
    } else if b == 0x2d {
        if byte_is(src, n1, 0x2d) {
            (TokenKind::MinusMinus, 2)
        } else if byte_is(src, n1, 0x3d) {
            (TokenKind::MinusEq, 2)
        } else {
            (TokenKind::Minus, 1)
        }
    } else if b == 0x2a {
        if byte_is(src, n1, 0x2a) {
            if byte_is(src, i + 2, 0x3d) {
                (TokenKind::StarStarEq, 3)
            } else {
                (TokenKind::StarStar, 2)
            }
        } else if byte_is(src, n1, 0x3d) {
            (TokenKind::StarEq, 2)
        } else {
            (TokenKind::Star, 1)
        }
    } else if b == 0x2f {
        if byte_is(src, n1, 0x3d) {
            (TokenKind::SlashEq, 2)
        } else {
            (TokenKind::Slash, 1)
        }
    } else if b == 0x25 {
        if byte_is(src, n1, 0x3d) {
            (TokenKind::PercentEq, 2)
        } else {
            (TokenKind::Percent, 1)
        }
    } else if b == 0x26 {
        if byte_is(src, n1, 0x26) {
            if byte_is(src, i + 2, 0x3d) {
                (TokenKind::AmpAmpEq, 3)
            } else {
                (TokenKind::AmpAmp, 2)
            }
        } else if byte_is(src, n1, 0x3d) {
            (TokenKind::AmpEq, 2)
        } else {
            (TokenKind::Amp, 1)
        }
    } else if b == 0x7c {
        if byte_is(src, n1, 0x7c) {
            if byte_is(src, i + 2, 0x3d) {
                (TokenKind::PipePipeEq, 3)
            } else {
                (TokenKind::PipePipe, 2)
            }
        } else if byte_is(src, n1, 0x3d) {
            (TokenKind::PipeEq, 2)
        } else {
            (TokenKind::Pipe, 1)
        }
    } else if b == 0x5e {
        if byte_is(src, n1, 0x3d) {
            (TokenKind::CaretEq, 2)
        } else {
            (TokenKind::Caret, 1)
        }
    } else {
        return None;
    };
    let (kind, width) = r;
    proof {
        assert(src@.subrange(i as int, (i + width) as int) =~= punctuator_text(kind));
        assert forall|k: TokenKind|
            #[trigger] punctuator_at(src@, i as int, k) && k != TokenKind::QuestionDot implies punctuator_text(k).len()
                <= width by {
            let text = punctuator_text(k);
            assert(src@[i + 0] == text[0]);
            if text.len() > 1 {
                assert(src@[i + 1] == text[1]);
            }
            if text.len() > 2 {
                assert(src@[i + 2] == text[2]);
            }
            if text.len() > 3 {
                assert(src@[i + 3] == text[3]);
            }
        }
        let qd = punctuator_text(TokenKind::QuestionDot);
        if punctuator_at(src@, i as int, TokenKind::QuestionDot) {
            assert(src@[i + 0] == qd[0]);
            assert(src@[i + 1] == qd[1]);
        }
        if kind == TokenKind::QuestionDot {
            assert forall|p: int| 0 <= p < qd.len() implies #[trigger] src@[i + p] == qd[p] by {
                assert(src@.subrange(i as int, (i + width) as int)[p] == src@[i + p]);
            }
        }
    }
    Some((kind, i + width))
}

/// Whether reading from a position finds the end of the text does not depend on the goal
/// symbol: only blanks and comments decide it.
pub proof fn lemma_end_of_text_any_goal(src: Seq<u8>, pos: int, goal: Goal, other: Goal, module: bool)
    requires
        lex_token(src, pos, goal, module) matches Ok(t) && t.kind == TokenKind::Eof,
    ensures
        lex_token(src, pos, other, module) matches Ok(t) && t.kind == TokenKind::Eof,
{
}

/// The token that reading from `pos` of `src` under `goal` gives (§12), `module` telling
/// whether the source is a module: its kind, its span and whether a line ended before it; or
/// the error that stops the reading.
pub open spec fn lex_token(src: Seq<u8>, pos: int, goal: Goal, module: bool) -> Result<Token, LexError> {
    match trivia_end(src, pos, module, pos == 0, false) {
        Err(e) => Err(e),
        Ok((start, newline)) => if start >= src.len() {
            Ok(
                Token {
                    kind: TokenKind::Eof,
                    span: Span { start: src.len() as usize, end: src.len() as usize },
                    newline_before: newline,
                },
            )
        } else {
            let b = src[start];
            let scanned: Result<(TokenKind, int), LexErrorKind> = if (b == 0x7d && goal == Goal::TemplateMiddle)
                || b == 0x60 {
                match scan::template_end(src, start + 1) {
                    Some((tail, end)) => Ok((TokenKind::Template { tail }, end)),
                    None => Err(LexErrorKind::UnterminatedTemplate),
                }
            } else if b == 0x22 || b == 0x27 {
                match scan::string_end(src, start + 1, b, false) {
                    Ok((legacy, end)) => Ok((TokenKind::String { legacy_octal: legacy }, end)),
                    Err(e) => Err(e),
                }
            } else if is_decimal_digit(b) || (b == 0x2e && start + 1 < src.len() && is_decimal_digit(
                src[start + 1],
            )) {
                scan::number_scan(src, start)
            } else if b == 0x2f && goal == Goal::RegExp {
                match scan::regexp_end(src, start + 1, false) {
                    Some(end) => Ok((TokenKind::RegExp, end)),
                    None => Err(LexErrorKind::UnterminatedRegExp),
                }
            } else if b == 0x23 {
                match scan::identifier_end(src, start + 1, start + 1, false) {
                    Ok((end, escaped)) => Ok((TokenKind::PrivateIdentifier { contains_escape: escaped }, end)),
                    Err(e) => Err(e),
                }
            } else if is_ascii_identifier_start(b) || b == 0x5c || b >= 0x80 {
                match scan::identifier_end(src, start, start, false) {
                    Ok((end, escaped)) => if escaped {
                        Ok((TokenKind::Identifier { contains_escape: true }, end))
                    } else {
                        match spelled_word(src.subrange(start, end), 0) {
                            Some(word) => Ok((TokenKind::Keyword(word), end)),
                            None => Ok((TokenKind::Identifier { contains_escape: false }, end)),
                        }
                    },
                    Err(e) => Err(e),
                }
            } else {
                match punctuator_scan(src, start) {
                    Some((kind, width)) => Ok((kind, start + width)),
                    None => Err(LexErrorKind::UnexpectedCharacter),
                }
            };
            match scanned {
                Ok((kind, end)) => Ok(
                    Token {
                        kind,
                        span: Span { start: start as usize, end: end as usize },
                        newline_before: newline,
                    },
                ),
                Err(kind) => Err(LexError { kind, span: Span { start: start as usize, end: (start + 1) as usize } }),
            }
        },
    }
}

/// A cursor over the source text, copied freely: lexing from a copy leaves the cursor it was
/// copied from where it was, which is all a lookahead needs.
#[derive(Clone, Copy)]
pub struct Lexer<'a> {
    /// The whole source text, as bytes.
    pub source: &'a [u8],
    /// Where the next token's leading trivia begins.
    pub pos: usize,
    /// Whether the source is a module, where Annex B's HTML-like comments are not comments.
    pub module: bool,
}

impl<'a> Lexer<'a> {
    /// A lexer at the start of `source`.
    pub fn new(source: &'a [u8], module: bool) -> (lexer: Lexer<'a>)
        ensures
            lexer.source@ == source@,
            lexer.pos == 0,
            lexer.module == module,
    {
        Lexer { source, pos: 0, module }
    }

    /// A lexer that resumes reading at `pos`.
    pub fn resume_at(source: &'a [u8], pos: usize, module: bool) -> (lexer: Lexer<'a>)
        requires
            pos <= source.len(),
        ensures
            lexer.source@ == source@,
            lexer.pos == pos,
            lexer.module == module,
    {
        Lexer { source, pos, module }
    }

    /// Skip white space, line terminators and comments, and say whether a line ended among them.
    fn skip_trivia(&mut self) -> (r: Result<bool, LexError>)
        requires
            old(self).pos <= old(self).source.len(),
        ensures
            final(self).source == old(self).source,
            final(self).module == old(self).module,
            old(self).pos <= final(self).pos <= final(self).source.len(),
            r matches Err(e) ==> e.span.start <= e.span.end <= final(self).source.len(),
            blank_from(old(self).source@, old(self).pos as int) ==> r is Ok && final(self).pos
                == final(self).source.len(),
            match r {
                Ok(newline) => trivia_end(
                    old(self).source@,
                    old(self).pos as int,
                    old(self).module,
                    old(self).pos == 0,
                    false,
                ) == Ok::<(int, bool), LexError>((final(self).pos as int, newline)),
                Err(e) => trivia_end(
                    old(self).source@,
                    old(self).pos as int,
                    old(self).module,
                    old(self).pos == 0,
                    false,
                ) == Err::<(int, bool), LexError>(e),
            },
    {
        let src = self.source;
        let len = src.len();
        let mut newline = false;
        let mut line_start = self.pos == 0;
        while self.pos < len
            invariant
                self.source == src,
                src == old(self).source,
                src.len() == len,
                self.module == old(self).module,
                old(self).pos <= self.pos <= len,
                trivia_end(src@, old(self).pos as int, self.module, old(self).pos == 0, false) == trivia_end(
                    src@,
                    self.pos as int,
                    self.module,
                    line_start,
                    newline,
                ),
            ensures
                self.source == src,
                self.module == old(self).module,
                old(self).pos <= self.pos <= len,
                blank_from(src@, old(self).pos as int) ==> self.pos == len,
                trivia_end(src@, old(self).pos as int, self.module, old(self).pos == 0, false) == trivia_end(
                    src@,
                    self.pos as int,
                    self.module,
                    line_start,
                    newline,
                ),
                self.pos == len || trivia_end(src@, self.pos as int, self.module, line_start, newline) == Ok::<
                    (int, bool),
                    LexError,
                >((self.pos as int, newline)),
            decreases len - self.pos,
        {
            let i = self.pos;
            let b = src[i];
            if b == 0x20 || b == 0x09 || b == 0x0b || b == 0x0c {
                self.pos = i + 1;
            } else if b == 0x0a || b == 0x0d {
                newline = true;
                line_start = true;
                self.pos = i + 1;
            } else if b == 0x2f && byte_is(src, i + 1, 0x2f) {
                self.pos = skip_line_comment(src, i + 2);
            } else if b == 0x2f && byte_is(src, i + 1, 0x2a) {
                // `/* … */`, which is a line terminator if it holds one (§12.4).
                match skip_block_comment(src, i + 2) {
                    Some((end, holds_newline)) => {
                        if holds_newline {
                            newline = true;
                            line_start = true;
                        }
                        self.pos = end;
                    },
                    None => {
                        return Err(
                            LexError { kind: LexErrorKind::UnterminatedComment, span: Span::new(i, len) },
                        );
                    },
                }
            } else if !self.module && b == 0x3c && byte_is(src, i + 1, 0x21) && byte_is(src, i + 2, 0x2d)
                && byte_is(src, i + 3, 0x2d) {
                // Annex B.1.1: `<!--` begins a single-line comment in a script.
                self.pos = skip_line_comment(src, i + 4);
            } else if !self.module && line_start && b == 0x2d && byte_is(src, i + 1, 0x2d) && byte_is(
                src,
                i + 2,
                0x3e,
            ) {
                // Annex B.1.1: `-->` at the start of a line does too.
                self.pos = skip_line_comment(src, i + 3);
            } else if b >= 0x80 {
                match decode_at(src, i) {
                    Some((cp, width)) => {
                        if whitespace(cp) {
                            self.pos = i + width;
                        } else if line_terminator(cp) {
                            newline = true;
                            line_start = true;
                            self.pos = i + width;
                        } else {
                            break;
                        }
                    },
                    None => {
                        break;
                    },
                }
            } else {
                break;
            }
        }
        Ok(newline)
    }

    /// The next token, read under `goal`.
    #[verifier::rlimit(50)]
    pub fn next_token(&mut self, goal: Goal) -> (r: Result<Token, LexError>)
        requires
            old(self).pos <= old(self).source.len(),
        ensures
            final(self).source == old(self).source,
            final(self).module == old(self).module,
            old(self).pos <= final(self).pos <= final(self).source.len(),
            r matches Ok(t) ==> old(self).pos <= t.span.start <= t.span.end && t.span.end
                == final(self).pos,
            r matches Ok(t) ==> (t.kind == TokenKind::Eof <==> t.span.start
                == final(self).source.len()),
            r matches Ok(t) ==> (t.kind != TokenKind::Eof ==> t.span.start < t.span.end),
            r matches Ok(t) ==> (t.kind is Keyword ==> final(self).source@.subrange(
                t.span.start as int,
                t.span.end as int,
            ) == reserved_word_text(t.kind->Keyword_0)),
            r matches Ok(t) ==> (punctuator_text(t.kind).len() > 0 ==> final(self).source@.subrange(
                t.span.start as int,
                t.span.end as int,
            ) == punctuator_text(t.kind)),
            r matches Err(e) ==> e.span.start <= e.span.end <= final(self).source.len(),
            blank_from(old(self).source@, old(self).pos as int) ==> (r matches Ok(t) && t.kind
                == TokenKind::Eof),
            r == lex_token(old(self).source@, old(self).pos as int, goal, old(self).module),
            r matches Ok(t) ==> (t.kind == (TokenKind::Identifier { contains_escape: false }) ==> forall|
                w: ReservedWord,
            |
                reserved_word_text(w) != final(self).source@.subrange(t.span.start as int, t.span.end as int)),
    {
        let newline = match self.skip_trivia() {
            Ok(newline) => newline,
            Err(e) => return Err(e),
        };
        let src = self.source;
        let len = src.len();
        let start = self.pos;
        if start >= len {
            return Ok(Token { kind: TokenKind::Eof, span: Span::new(len, len), newline_before: newline });
        }
        let b = src[start];
        let scanned: Result<(TokenKind, usize), LexErrorKind> = if b == 0x7d && goal
            == Goal::TemplateMiddle {
            scan::scan_template(src, start)
        } else if b == 0x60 {
            scan::scan_template(src, start)
        } else if b == 0x22 || b == 0x27 {
            scan::scan_string(src, start)
        } else if chars::decimal_digit(b) || (b == 0x2e && start + 1 < len && chars::decimal_digit(
            src[start + 1],
        )) {
            scan::scan_number(src, start)
        } else if b == 0x2f && goal == Goal::RegExp {
            match scan::scan_regexp(src, start) {
                Ok(end) => Ok((TokenKind::RegExp, end)),
                Err(kind) => Err(kind),
            }
        } else if b == 0x23 {
            match scan::scan_identifier(src, start + 1) {
                Ok((end, escaped)) => Ok((TokenKind::PrivateIdentifier { contains_escape: escaped }, end)),
                Err(kind) => Err(kind),
            }
        } else if chars::ascii_identifier_start(b) || b == 0x5c || b >= 0x80 {
            match scan::scan_identifier(src, start) {
                Ok((end, escaped)) => {
                    if escaped {
                        Ok((TokenKind::Identifier { contains_escape: true }, end))
                    } else {
                        match ReservedWord::from_text(&src[start..end]) {
                            Some(word) => Ok((TokenKind::Keyword(word), end)),
                            None => Ok((TokenKind::Identifier { contains_escape: false }, end)),
                        }
                    }
                },
                Err(kind) => Err(kind),
            }
        } else {
            match scan_punctuator(src, start) {
                Some((kind, end)) => Ok((kind, end)),
                None => Err(LexErrorKind::UnexpectedCharacter),
            }
        };
        match scanned {
            Ok((kind, end)) => {
                self.pos = end;
                Ok(Token { kind, span: Span::new(start, end), newline_before: newline })
            },
            Err(kind) => Err(LexError { kind, span: Span::new(start, start + 1) }),
        }
    }
}

/// Whether every byte of `src` from `from` on is white space or a line break of one byte: a
/// space, a tab, a vertical tab, a form feed, a line feed or a carriage return.
pub open spec fn blank_from(src: Seq<u8>, from: int) -> bool {
    forall|i: int|
        from <= i < src.len() ==> {
            let b = #[trigger] src[i];
            b == 0x20 || b == 0x09 || b == 0x0b || b == 0x0c || b == 0x0a || b == 0x0d
        }
}

/// Where the line that `j` of `src` lies on ends: at the next line terminator, or at the end.
pub open spec fn line_end(src: Seq<u8>, j: int) -> int
    decreases src.len() - j,
{
    if j < 0 || j >= src.len() {
        src.len() as int
    } else if terminator_width(src, j) > 0 {
        j
    } else {
        line_end(src, j + 1)
    }
}

/// Reading a `/*` comment's body on from `j`: the offset just past its `*/` and whether a line
/// ended inside, or `None` if it is never closed.
pub open spec fn block_comment_end(src: Seq<u8>, j: int) -> Option<(int, bool)>
    decreases src.len() - j,
{
    if j < 0 || j >= src.len() {
        None
    } else if closes_comment(src, j) {
        Some((j + 2, false))
    } else {
        let w = terminator_width(src, j);
        match block_comment_end(src, if w > 0 {
            j + w
        } else {
            j + 1
        }) {
            Some((end, newline)) => Some((end, newline || w > 0)),
            None => None,
        }
    }
}

/// Reading white space, line terminators and comments on from `pos`, `line_start` telling
/// whether only trivia stands between the start of the line and `pos`, and `newline` whether a
/// line ended since reading began: where the next token begins and whether a line ended before
/// it; or the error of a comment never closed.
pub open spec fn trivia_end(src: Seq<u8>, pos: int, module: bool, line_start: bool, newline: bool) -> Result<
    (int, bool),
    LexError,
>
    decreases src.len() - pos,
{
    let at = |k: int, byte: u8| 0 <= k < src.len() && src[k] == byte;
    if pos < 0 || pos >= src.len() {
        Ok((pos, newline))
    } else {
        let b = src[pos];
        if b == 0x20 || b == 0x09 || b == 0x0b || b == 0x0c {
            trivia_end(src, pos + 1, module, line_start, newline)
        } else if b == 0x0a || b == 0x0d {
            trivia_end(src, pos + 1, module, true, true)
        } else if b == 0x2f && at(pos + 1, 0x2f) {
            let next = line_end(src, pos + 2);
            if next <= pos || next > src.len() {
                Ok((pos, newline))
            } else {
                trivia_end(src, next, module, line_start, newline)
            }
        } else if b == 0x2f && at(pos + 1, 0x2a) {
            match block_comment_end(src, pos + 2) {
                Some((end, inner)) => if end <= pos || end > src.len() {
                    Ok((pos, newline))
                } else {
                    trivia_end(src, end, module, line_start || inner, newline || inner)
                },
                None => Err(
                    LexError {
                        kind: LexErrorKind::UnterminatedComment,
                        span: Span { start: pos as usize, end: src.len() as usize },
                    },
                ),
            }
        } else if !module && b == 0x3c && at(pos + 1, 0x21) && at(pos + 2, 0x2d) && at(pos + 3, 0x2d) {
            let next = line_end(src, pos + 4);
            if next <= pos || next > src.len() {
                Ok((pos, newline))
            } else {
                trivia_end(src, next, module, line_start, newline)
            }
        } else if !module && line_start && b == 0x2d && at(pos + 1, 0x2d) && at(pos + 2, 0x3e) {
            let next = line_end(src, pos + 3);
            if next <= pos || next > src.len() {
                Ok((pos, newline))
            } else {
                trivia_end(src, next, module, line_start, newline)
            }
        } else if b >= 0x80 {
            match utf8_decoded(src, pos) {
                Some((cp, width)) => if width < 1 || pos + width > src.len() {
                    Ok((pos, newline))
                } else if is_whitespace(cp) {
                    trivia_end(src, pos + width, module, line_start, newline)
                } else if is_line_terminator(cp) {
                    trivia_end(src, pos + width, module, true, true)
                } else {
                    Ok((pos, newline))
                },
                None => Ok((pos, newline)),
            }
        } else {
            Ok((pos, newline))
        }
    }
}

/// Where a `/*` comment whose body starts at `i` ends, past its `*/`, and whether it holds a
/// line terminator; `None` if it is never closed.
fn skip_block_comment(src: &[u8], i: usize) -> (r: Option<(usize, bool)>)
    requires
        2 <= i <= src.len(),
    ensures
        r matches Some((end, _)) ==> i < end <= src.len(),
        r is None <==> forall|p: int| i <= p < src.len() ==> !#[trigger] closes_comment(src@, p),
        r matches Some((end, newline)) ==> {
            &&& i <= end - 2
            &&& closes_comment(src@, end - 2)
            &&& forall|p: int| i <= p < end - 2 ==> !#[trigger] closes_comment(src@, p)
            &&& newline <==> exists|q: int| i <= q < end - 2 && #[trigger] ends_line(src@, q)
        },
        match r {
            Some((end, newline)) => block_comment_end(src@, i as int) == Some((end as int, newline)),
            None => block_comment_end(src@, i as int) is None,
        },
{
    let len = src.len();
    let mut j = i;
    let mut newline = false;
    while j < len
        invariant
            i <= j <= len,
            src.len() == len,
            block_comment_end(src@, i as int) == match block_comment_end(src@, j as int) {
                Some((end, inner)) => Some((end, inner || newline)),
                None => None,
            },
            forall|p: int| i <= p < j ==> !#[trigger] closes_comment(src@, p),
            newline <==> exists|q: int| i <= q < j && #[trigger] ends_line(src@, q),
        decreases len - j,
    {
        if src[j] == 0x2a && byte_is(src, j + 1, 0x2f) {
            proof {
                assert(closes_comment(src@, j as int));
            }
            return Some((j + 2, newline));
        }
        let w = line_terminator_at(src, j);
        if w > 0 {
            proof {
                assert(ends_line(src@, j as int));
                if w == 3 {
                    assert(!closes_comment(src@, j + 1) && !ends_line(src@, j + 1));
                    assert(!closes_comment(src@, j + 2) && !ends_line(src@, j + 2));
                }
                assert forall|p: int| i <= p < j + w implies !#[trigger] closes_comment(src@, p) by {
                    if p >= j + 1 {
                        assert(p == j + 1 || p == j + 2);
                    }
                }
                assert((exists|q: int| i <= q < j + w && #[trigger] ends_line(src@, q)));
            }
            newline = true;
            j = j + w;
        } else {
            proof {
                assert(!ends_line(src@, j as int));
                assert((exists|q: int| i <= q < j + 1 && #[trigger] ends_line(src@, q)) ==> (exists|q: int|
                    i <= q < j && #[trigger] ends_line(src@, q)));
            }
            j = j + 1;
        }
    }
    proof {
        assert forall|p: int| i <= p < src.len() implies !#[trigger] closes_comment(src@, p) by {
            if p >= j {
                assert(p + 1 >= src.len());
            }
        }
    }
    None
}

/// Whether a `*/` that closes a comment starts at `p` of `src`.
pub open spec fn closes_comment(src: Seq<u8>, p: int) -> bool {
    0 <= p && p + 1 < src.len() && src[p] == 0x2a && src[p + 1] == 0x2f
}

/// Whether a line terminator starts at `q` of `src`.
pub open spec fn ends_line(src: Seq<u8>, q: int) -> bool {
    0 <= q < src.len() && terminator_width(src, q) > 0
}

/// Where a single-line comment that starts before `i` ends: at the next line terminator, which
/// is not part of it.
fn skip_line_comment(src: &[u8], i: usize) -> (end: usize)
    requires
        i <= src.len() + 1,
    ensures
        i <= end || end == src.len(),
        end <= src.len(),
        end == line_end(src@, if i <= src.len() {
            i as int
        } else {
            src.len() as int
        }),
{
    let len = src.len();
    let mut j = if i <= len { i } else { len };
    let ghost from = j as int;
    while j < len
        invariant
            j <= len,
            src.len() == len,
            i <= j || j == len,
            from <= j,
            from == if i <= src.len() {
                i as int
            } else {
                src.len() as int
            },
            line_end(src@, from) == line_end(src@, j as int),
        decreases len - j,
    {
        if line_terminator_at(src, j) > 0 {
            proof {
                assert(line_end(src@, j as int) == j as int);
            }
            return j;
        }
        j = j + 1;
    }
    j
}

} // verus!
