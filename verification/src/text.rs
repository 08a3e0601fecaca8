//! Comparing and building strings, and the one thing asked of std's `String` that vstd does
//! not describe: reading one from UTF-8 bytes.

use vstd::prelude::*;
use vstd::string::{StringExecFns, StringSliceAdditionalSpecFns};
use vstd::utf8::{decode_utf8, encode_utf8_decode_utf8, valid_utf8};
use crate::lexer::same_bytes;

verus! {

/// The characters of `pieces`, written one after another.
pub open spec fn joined(pieces: Seq<&str>) -> Seq<char>
    decreases pieces.len(),
{
    if pieces.len() == 0 {
        Seq::empty()
    } else {
        joined(pieces.drop_last()) + pieces.last()@
    }
}

/// Whether two strings hold the same characters.
pub fn same_text(a: &str, b: &str) -> (same: bool)
    ensures
        same == (a@ == b@),
{
    let same = same_bytes(a.as_bytes(), b.as_bytes());
    proof {
        encode_utf8_decode_utf8(a@);
        encode_utf8_decode_utf8(b@);
    }
    same
}

/// `String::from_utf8`, which std documents as returning the bytes as a `String` when they are
/// valid UTF-8 and an error otherwise; the error is dropped here.
///
/// Claimed of it: the result is present exactly when the bytes are valid UTF-8, and then holds
/// the characters they encode.
#[verifier::external_body]
pub fn string_from_utf8(bytes: Vec<u8>) -> (text: Option<String>)
    ensures
        text is Some <==> valid_utf8(bytes@),
        text matches Some(t) ==> t@ == decode_utf8(bytes@),
{
    String::from_utf8(bytes).ok()
}

/// The pieces written one after another, as one `String`.
pub fn concat(pieces: &[&str]) -> (text: String)
    ensures
        text@ == joined(pieces@),
{
    let mut text = String::new();
    let mut i: usize = 0;
    while i < pieces.len()
        invariant
            i <= pieces@.len(),
            text@ == joined(pieces@.take(i as int)),
        decreases pieces.len() - i,
    {
        text.append(pieces[i]);
        proof {
            assert(pieces@.take(i + 1).drop_last() =~= pieces@.take(i as int));
        }
        i = i + 1;
    }
    proof {
        assert(pieces@.take(pieces@.len() as int) =~= pieces@);
    }
    text
}

} // verus!
