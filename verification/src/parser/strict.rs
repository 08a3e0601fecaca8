//! Where strict mode takes names away (§13.1.1).
//!
//! Strict code reserves nine more words, and forbids binding or assigning `eval` and
//! `arguments`. Reading either is still fine — `eval("x")` works in strict code and `eval = 1`
//! does not — so the two rules are asked by different callers.

use vstd::prelude::*;
use super::{ParseError, ParseErrorKind, Parser};
use crate::span::Span;
use crate::text::same_text;

verus! {

/// The words §13.1.1 reserves in strict code beyond the reserved words themselves.
pub open spec fn is_strict_reserved(name: Seq<char>) -> bool {
    name == "implements"@ || name == "interface"@ || name == "let"@ || name == "package"@ || name
        == "private"@ || name == "protected"@ || name == "public"@ || name == "static"@ || name
        == "yield"@
}

/// `eval` or `arguments`.
pub open spec fn is_eval_or_arguments(name: Seq<char>) -> bool {
    name == "eval"@ || name == "arguments"@
}

/// Whether `name` is one strict code reserves.
pub fn strict_reserved(name: &str) -> (r: bool)
    ensures
        r == is_strict_reserved(name@),
{
    same_text(name, "implements") || same_text(name, "interface") || same_text(name, "let")
        || same_text(name, "package") || same_text(name, "private") || same_text(
        name,
        "protected",
    ) || same_text(name, "public") || same_text(name, "static") || same_text(name, "yield")
}

/// Whether `name` is `eval` or `arguments`.
pub fn eval_or_arguments(name: &str) -> (r: bool)
    ensures
        r == is_eval_or_arguments(name@),
{
    same_text(name, "eval") || same_text(name, "arguments")
}

impl<'a> Parser<'a> {
    /// §13.1.1 for a name read as an identifier: in strict code it may not be one of the
    /// reserved nine, and where it is being bound it may not be `eval` or `arguments` either.
    pub fn check_strict_name(&self, name: &str, span: Span, binding: bool) -> (r: Result<
        (),
        ParseError,
    >)
        ensures
            r is Err <==> self.strict && (is_strict_reserved(name@) || (binding
                && is_eval_or_arguments(name@))),
            r matches Err(e) ==> e.span == span,
            r matches Err(e) ==> e.kind == (if is_strict_reserved(name@) {
                ParseErrorKind::StrictReservedWord
            } else {
                ParseErrorKind::StrictEvalOrArguments
            }),
    {
        if !self.strict {
            return Ok(());
        }
        if strict_reserved(name) {
            return Err(ParseError { kind: ParseErrorKind::StrictReservedWord, span });
        }
        if binding && eval_or_arguments(name) {
            return Err(ParseError { kind: ParseErrorKind::StrictEvalOrArguments, span });
        }
        Ok(())
    }

    /// §13.1.1 for a name being assigned to: in strict code it may not be `eval` or
    /// `arguments`.
    pub fn check_target_name(&self, name: &str, span: Span) -> (r: Result<(), ParseError>)
        ensures
            r is Err <==> self.strict && is_eval_or_arguments(name@),
            r matches Err(e) ==> e.kind == ParseErrorKind::StrictEvalOrArguments && e.span == span,
    {
        if self.strict && eval_or_arguments(name) {
            return Err(ParseError { kind: ParseErrorKind::StrictEvalOrArguments, span });
        }
        Ok(())
    }
}

} // verus!
