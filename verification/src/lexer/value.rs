//! Reading a token's value back out of the source text.
//!
//! A token carries only its kind and its span; what a literal means is read from the span when
//! the parser wants it, which keeps a token small and copyable.

use vstd::prelude::*;
use crate::span::Span;
use vstd::utf8::{decode_utf8, decode_utf8_encode_utf8, encode_utf8, encode_utf8_decode_utf8, is_char_boundary, valid_utf8};
use crate::text::string_from_utf8;
use vstd::string::StringSliceAdditionalSpecFns;
use super::{byte_is, line_terminator_at, terminator_width};
use super::chars::{decimal_digit, decode_at, digit_value, digit_value_of, is_decimal_digit, utf8_decoded};
use super::scan::{char_width, scan_unicode_escape, unicode_escape};

verus! {

/// The exact value of a `NumericLiteral`: `digits`, read in `radix`, times ten to `exponent`.
///
/// Kept exact rather than rounded to a double: no floating-point arithmetic is done here, and a
/// consumer rounds once, to whatever it needs.
#[derive(Debug, Clone, PartialEq, Eq)]
pub struct NumericValue {
    /// 2, 8, 10 or 16.
    pub radix: u32,
    /// The digits written, most significant first, each below `radix`; separators and the
    /// decimal point are gone.
    pub digits: Vec<u8>,
    /// The power of ten the digits are scaled by; always 0 unless `radix` is 10. Clamped to
    /// ±1,000,000,000, far past the range any double can hold.
    pub exponent: i64,
}

impl NumericValue {
    /// Whether every digit is a digit of the radix, and only a decimal is scaled.
    pub open spec fn well_formed(&self) -> bool {
        &&& (self.radix == 2 || self.radix == 8 || self.radix == 10 || self.radix == 16)
        &&& forall|k: int| 0 <= k < self.digits@.len() ==> self.digits@[k] < self.radix
        &&& (self.radix != 10 ==> self.exponent == 0)
        &&& -1_000_000_000 <= self.exponent <= 1_000_000_000
    }
}

/// The UTF-16 encoding of the code point `cp`: itself below `0x10000`, a surrogate pair above.
pub open spec fn code_point_utf16(cp: u32) -> Seq<u16> {
    if cp < 0x10000 {
        seq![cp as u16]
    } else {
        seq![(0xd800 + (cp - 0x10000) / 0x400) as u16, (0xdc00 + (cp - 0x10000) % 0x400) as u16]
    }
}

/// The UTF-16 encoding of `chars`, one after another.
pub open spec fn utf16_units(chars: Seq<char>) -> Seq<u16>
    decreases chars.len(),
{
    if chars.len() == 0 {
        Seq::empty()
    } else {
        utf16_units(chars.drop_last()) + code_point_utf16(chars.last() as u32)
    }
}

/// Push the UTF-16 code units of `cp` onto `out`.
pub fn push_utf16(out: &mut Vec<u16>, cp: u32)
    requires
        cp <= 0x10ffff,
    ensures
        final(out)@ == old(out)@ + code_point_utf16(cp),
        cp < 0x10000 ==> final(out)@ == old(out)@.push(cp as u16),
        cp >= 0x10000 ==> final(out)@.len() == old(out)@.len() + 2,
        final(out)@.subrange(0, old(out)@.len() as int) == old(out)@,
{
    if cp < 0x10000 {
        out.push(cp as u16);
    } else {
        let v = cp - 0x10000;
        out.push((0xd800 + v / 0x400) as u16);
        out.push((0xdc00 + v % 0x400) as u16);
    }
}

/// Push the UTF-8 encoding of `cp` onto `out`.
pub fn push_utf8(out: &mut Vec<u8>, cp: u32)
    requires
        cp <= 0x10ffff,
    ensures
        cp < 0x80 ==> final(out)@ == old(out)@.push(cp as u8),
        final(out)@.len() > old(out)@.len(),
        final(out)@ == old(out)@ + code_point_utf8(cp),
{
    if cp < 0x80 {
        out.push(cp as u8);
    } else if cp < 0x800 {
        out.push((0xc0 + cp / 64) as u8);
        out.push((0x80 + cp % 64) as u8);
    } else if cp < 0x10000 {
        out.push((0xe0 + cp / 4096) as u8);
        out.push((0x80 + (cp / 64) % 64) as u8);
        out.push((0x80 + cp % 64) as u8);
    } else {
        out.push((0xf0 + cp / 262144) as u8);
        out.push((0x80 + (cp / 4096) % 64) as u8);
        out.push((0x80 + (cp / 64) % 64) as u8);
        out.push((0x80 + cp % 64) as u8);
    }
}

/// The UTF-8 bytes of the code point `cp`: one to four, by its size.
pub open spec fn code_point_utf8(cp: u32) -> Seq<u8> {
    if cp < 0x80 {
        seq![cp as u8]
    } else if cp < 0x800 {
        seq![(0xc0 + cp / 64) as u8, (0x80 + cp % 64) as u8]
    } else if cp < 0x10000 {
        seq![(0xe0 + cp / 4096) as u8, (0x80 + (cp / 64) % 64) as u8, (0x80 + cp % 64) as u8]
    } else {
        seq![
            (0xf0 + cp / 262144) as u8,
            (0x80 + (cp / 4096) % 64) as u8,
            (0x80 + (cp / 64) % 64) as u8,
            (0x80 + cp % 64) as u8,
        ]
    }
}

/// The bytes of the identifier in `j..end` of `src` with each `\\u` escape replaced by the
/// UTF-8 of its code point; `None` if an escape is malformed or runs past `end`.
pub open spec fn identifier_bytes(src: Seq<u8>, j: int, end: int) -> Option<Seq<u8>>
    decreases end - j,
{
    if j >= end {
        Some(Seq::empty())
    } else if src[j] == 0x5c {
        match unicode_escape(src, j) {
            Some((cp, next)) => if next <= j || next > end {
                None
            } else {
                match identifier_bytes(src, next as int, end) {
                    Some(rest) => Some(code_point_utf8(cp) + rest),
                    None => None,
                }
            },
            None => None,
        }
    } else {
        match identifier_bytes(src, j + 1, end) {
            Some(rest) => Some(seq![src[j]] + rest),
            None => None,
        }
    }
}

/// Without a backslash, an identifier's bytes are its text.
proof fn lemma_identifier_bytes_plain(src: Seq<u8>, j: int, end: int)
    requires
        0 <= j <= end <= src.len(),
        !src.subrange(j, end).contains(0x5cu8),
    ensures
        identifier_bytes(src, j, end) == Some(src.subrange(j, end)),
    decreases end - j,
{
    if j < end {
        assert(src.subrange(j, end)[0] == src[j]);
        assert(!src.subrange(j + 1, end).contains(0x5cu8)) by {
            if src.subrange(j + 1, end).contains(0x5cu8) {
                let t = choose|t: int|
                    0 <= t < src.subrange(j + 1, end).len() && #[trigger] src.subrange(j + 1, end)[t] == 0x5cu8;
                assert(src.subrange(j, end)[t + 1] == 0x5cu8);
            }
        }
        lemma_identifier_bytes_plain(src, j + 1, end);
        assert(seq![src[j]] + src.subrange(j + 1, end) =~= src.subrange(j, end));
    } else {
        assert(src.subrange(j, end) =~= Seq::<u8>::empty());
    }
}

/// The `StringValue` of the identifier written in `span` of `source` (§12.7.1.1), if it has
/// one: its text with every escape resolved, where the span lies in the text on character
/// boundaries and, with an escape, the escapes make well-formed UTF-8.
pub open spec fn identifier_name(source: Seq<u8>, span: Span) -> Option<Seq<char>> {
    if !(span.start <= span.end <= source.len()) {
        None
    } else if !source.subrange(span.start as int, span.end as int).contains(0x5cu8) {
        if is_char_boundary(source, span.end as int) && is_char_boundary(
            source.subrange(0, span.end as int),
            span.start as int,
        ) {
            Some(decode_utf8(source.subrange(span.start as int, span.end as int)))
        } else {
            None
        }
    } else {
        match identifier_bytes(source, span.start as int, span.end as int) {
            Some(bytes) => if valid_utf8(bytes) {
                Some(decode_utf8(bytes))
            } else {
                None
            },
            None => None,
        }
    }
}

/// The `StringValue` of an `IdentifierName` (§12.7.1.1): its text with every escape resolved.
pub fn identifier_value(source: &str, span: Span) -> (name: Option<String>)
    ensures
        name is Some ==> span.start <= span.end <= source.spec_bytes().len(),
        name matches Some(n) ==> (!source.spec_bytes().subrange(span.start as int, span.end as int).contains(
            0x5cu8,
        ) ==> encode_utf8(n@) == source.spec_bytes().subrange(span.start as int, span.end as int)),
        name matches Some(n) ==> identifier_bytes(source.spec_bytes(), span.start as int, span.end as int)
            == Some(encode_utf8(n@)),
        span.start <= span.end <= source.spec_bytes().len() && identifier_bytes(
            source.spec_bytes(),
            span.start as int,
            span.end as int,
        ) is None ==> name is None,
        match name {
            Some(n) => identifier_name(source.spec_bytes(), span) == Some(n@),
            None => identifier_name(source.spec_bytes(), span) is None,
        },
{
    let src = source.as_bytes();
    if span.start > span.end || span.end > src.len() {
        return None;
    }
    let mut escaped = false;
    let mut i = span.start;
    while i < span.end
        invariant
            span.start <= i <= span.end <= src.len(),
            src@ == source.spec_bytes(),
            escaped ==> src@.subrange(span.start as int, span.end as int).contains(0x5cu8),
            !escaped ==> forall|t: int| span.start <= t < i ==> src@[t] != 0x5cu8,
        decreases span.end - i,
    {
        if src[i] == 0x5c {
            escaped = true;
            proof {
                assert(src@.subrange(span.start as int, span.end as int)[i - span.start] == 0x5cu8);
            }
        }
        i = i + 1;
    }
    if !escaped {
        proof {
            assert(!src@.subrange(span.start as int, span.end as int).contains(0x5cu8)) by {
                if src@.subrange(span.start as int, span.end as int).contains(0x5cu8) {
                    let t = choose|t: int|
                        0 <= t < src@.subrange(span.start as int, span.end as int).len() && #[trigger] src@.subrange(
                            span.start as int,
                            span.end as int,
                        )[t] == 0x5cu8;
                    assert(src@[span.start + t] == 0x5cu8);
                }
            }
            lemma_identifier_bytes_plain(src@, span.start as int, span.end as int);
        }
        let sliced = span.slice(source);
        proof {
            if let Some(text) = sliced {
                encode_utf8_decode_utf8(text@);
                assert(text.spec_bytes() == encode_utf8(text@));
            }
        }
        return match sliced {
            Some(text) => Some(text.to_owned()),
            None => None,
        };
    }
    let mut bytes: Vec<u8> = Vec::new();
    let mut j = span.start;
    proof {
        assert(bytes@ + Seq::<u8>::empty() =~= bytes@);
    }
    while j < span.end
        invariant
            span.start <= j <= span.end <= src.len(),
            src@ == source.spec_bytes(),
            src@.subrange(span.start as int, span.end as int).contains(0x5cu8),
            identifier_bytes(src@, span.start as int, span.end as int) == match identifier_bytes(
                src@,
                j as int,
                span.end as int,
            ) {
                Some(rest) => Some(bytes@ + rest),
                None => None,
            },
        decreases span.end - j,
    {
        let ghost before = bytes@;
        if src[j] == 0x5c {
            match scan_unicode_escape(src, j) {
                Some((cp, end)) => {
                    if end > span.end {
                        return None;
                    }
                    push_utf8(&mut bytes, cp);
                    proof {
                        match identifier_bytes(src@, end as int, span.end as int) {
                            Some(rest) => {
                                assert(before + (code_point_utf8(cp) + rest) =~= bytes@ + rest);
                            },
                            None => {},
                        }
                    }
                    j = end;
                },
                None => {
                    return None;
                },
            }
        } else {
            bytes.push(src[j]);
            proof {
                match identifier_bytes(src@, j + 1, span.end as int) {
                    Some(rest) => {
                        assert(before + (seq![src@[j as int]] + rest) =~= bytes@ + rest);
                    },
                    None => {},
                }
            }
            j = j + 1;
        }
    }
    proof {
        assert(bytes@ + Seq::<u8>::empty() =~= bytes@);
    }
    let text = string_from_utf8(bytes);
    proof {
        if text is Some {
            decode_utf8_encode_utf8(bytes@);
        }
    }
    text
}

/// The code unit that the single-character escape `\` `e` stands for, or 0 where `e` is not
/// one of `n t r b f v`.
pub open spec fn simple_escape(e: u8) -> u16 {
    if e == 0x6e {
        0x0a
    } else if e == 0x74 {
        0x09
    } else if e == 0x72 {
        0x0d
    } else if e == 0x62 {
        0x08
    } else if e == 0x66 {
        0x0c
    } else if e == 0x76 {
        0x0b
    } else {
        0
    }
}

/// A legacy octal escape read on from `j` with `value` so far after `count` digits: up to
/// three digits in all, while the value stays within `0o377`. The value, and where it ends.
pub open spec fn octal_escape(src: Seq<u8>, j: int, end: int, value: int, count: int) -> (int, int)
    decreases end - j,
{
    if j < end && count < 3 && 0x30 <= src[j] <= 0x37 && value * 8 + (src[j] - 0x30) <= 0xff {
        octal_escape(src, j + 1, end, value * 8 + (src[j] - 0x30), count + 1)
    } else {
        (value, j)
    }
}

/// The escape sequence whose backslash is at `i`, read no further than `end` (§12.9.4, with
/// Annex B's legacy octal escapes): the code units it stands for, none for a line
/// continuation, and where it ends; `None` for one the grammar does not allow.
pub open spec fn escape_at(src: Seq<u8>, i: int, end: int) -> Option<(Seq<u16>, int)> {
    if i + 1 >= end {
        None
    } else {
        let e = src[i + 1];
        if e == 0x0d && i + 2 < end && src[i + 2] == 0x0a {
            Some((Seq::empty(), i + 3))
        } else if terminator_width(src, i + 1) > 0 {
            if i + 1 + terminator_width(src, i + 1) > end {
                None
            } else {
                Some((Seq::empty(), i + 1 + terminator_width(src, i + 1)))
            }
        } else if simple_escape(e) != 0 {
            Some((seq![simple_escape(e)], i + 2))
        } else if e == 0x78 {
            if end - i <= 3 {
                None
            } else {
                match (digit_value_of(src[i + 2], 16), digit_value_of(src[i + 3], 16)) {
                    (Some(hi), Some(lo)) => Some((seq![(hi * 16 + lo) as u16], i + 4)),
                    _ => None,
                }
            }
        } else if e == 0x75 {
            match unicode_escape(src, i) {
                Some((cp, next)) => if next > end {
                    None
                } else {
                    Some((code_point_utf16(cp), next as int))
                },
                None => None,
            }
        } else if is_decimal_digit(e) {
            if e >= 0x38 {
                Some((seq![e as u16], i + 2))
            } else {
                let (value, next) = octal_escape(src, i + 2, end, e - 0x30, 1);
                Some((seq![value as u16], next))
            }
        } else {
            let width: int = match utf8_decoded(src, i + 1) {
                Some((_, w)) => w as int,
                None => 1,
            };
            if i + 1 + width > end {
                None
            } else if width == 1 {
                Some((seq![e as u16], i + 2))
            } else {
                match utf8_decoded(src, i + 1) {
                    Some((cp, _)) => Some((code_point_utf16(cp), i + 1 + width)),
                    None => None,
                }
            }
        }
    }
}

/// One escape sequence inside a string or template, starting at the backslash at `i` and
/// ending before `end`: the UTF-16 code units it stands for (none for a line continuation), and
/// where it ends. `None` for an escape the grammar does not allow.
pub fn escape_value(src: &[u8], i: usize, end: usize) -> (r: Option<(Vec<u16>, usize)>)
    requires
        i < end <= src.len(),
    ensures
        r matches Some((_, next)) ==> i < next <= end,
        match r {
            Some((units, next)) => escape_at(src@, i as int, end as int) == Some((units@, next as int)),
            None => escape_at(src@, i as int, end as int) is None,
        },
{
    if i + 1 >= end {
        return None;
    }
    let e = src[i + 1];
    let mut units: Vec<u16> = Vec::new();
    if e == 0x0d && i + 2 < end && src[i + 2] == 0x0a {
        return Some((units, i + 3));
    }
    let terminator = line_terminator_at(src, i + 1);
    if terminator > 0 {
        if i + 1 + terminator > end {
            return None;
        }
        return Some((units, i + 1 + terminator));
    }
    let simple: u16 = if e == 0x6e {
        0x0a
    } else if e == 0x74 {
        0x09
    } else if e == 0x72 {
        0x0d
    } else if e == 0x62 {
        0x08
    } else if e == 0x66 {
        0x0c
    } else if e == 0x76 {
        0x0b
    } else {
        0
    };
    if simple != 0 {
        units.push(simple);
        return Some((units, i + 2));
    }
    if e == 0x78 {
        if end - i <= 3 {
            return None;
        }
        match (digit_value(src[i + 2], 16), digit_value(src[i + 3], 16)) {
            (Some(hi), Some(lo)) => {
                units.push((hi * 16 + lo) as u16);
                return Some((units, i + 4));
            },
            _ => {
                return None;
            },
        }
    }
    if e == 0x75 {
        match scan_unicode_escape(src, i) {
            Some((cp, next)) => {
                if next > end {
                    return None;
                }
                push_utf16(&mut units, cp);
                return Some((units, next));
            },
            None => {
                return None;
            },
        }
    }
    if decimal_digit(e) {
        // `\0` not before a digit is NUL; the rest are Annex B's legacy octal escapes, up to
        // three digits and at most 0o377, and `\8` and `\9` which stand for themselves.
        if e >= 0x38 {
            units.push(e as u16);
            return Some((units, i + 2));
        }
        let mut value: u32 = (e - 0x30) as u32;
        let mut j = i + 2;
        let mut count: usize = 1;
        while j < end && count < 3 && src[j] >= 0x30 && src[j] <= 0x37 && value * 8 + (src[j]
            - 0x30) as u32 <= 0xff
            invariant
                i + 2 <= j <= end,
                end <= src.len(),
                value <= 0xff,
                1 <= count <= 3,
                octal_escape(src@, j as int, end as int, value as int, count as int) == octal_escape(
                    src@,
                    i + 2,
                    end as int,
                    e - 0x30,
                    1,
                ),
            decreases end - j,
        {
            value = value * 8 + (src[j] - 0x30) as u32;
            j = j + 1;
            count = count + 1;
        }
        units.push(value as u16);
        return Some((units, j));
    }
    // Any other character stands for itself.
    let width = char_width(src, i + 1);
    if i + 1 + width > end {
        return None;
    }
    if width == 1 {
        units.push(e as u16);
    } else {
        match decode_at(src, i + 1) {
            Some((cp, _)) => {
                push_utf16(&mut units, cp);
            },
            None => {
                return None;
            },
        }
    }
    Some((units, i + 1 + width))
}

/// The code units that the characters of `src` in `j..end` stand for, escapes resolved and a
/// `\r\n` or `\r` read as `\n` (§12.9.4, §12.9.6); `None` if an escape is malformed or the
/// bytes there are no UTF-8.
pub open spec fn cooked(src: Seq<u8>, j: int, end: int) -> Option<Seq<u16>>
    decreases end - j,
{
    if j >= end {
        Some(Seq::empty())
    } else if src[j] == 0x5c {
        match escape_at(src, j, end) {
            Some((units, next)) => if next <= j || next > end {
                None
            } else {
                match cooked(src, next, end) {
                    Some(rest) => Some(units + rest),
                    None => None,
                }
            },
            None => None,
        }
    } else if src[j] == 0x0d {
        let next = if j + 1 < end && src[j + 1] == 0x0a {
            j + 2
        } else {
            j + 1
        };
        match cooked(src, next, end) {
            Some(rest) => Some(seq![0x0au16] + rest),
            None => None,
        }
    } else if src[j] < 0x80 {
        match cooked(src, j + 1, end) {
            Some(rest) => Some(seq![src[j] as u16] + rest),
            None => None,
        }
    } else {
        match utf8_decoded(src, j) {
            Some((cp, width)) => if j + width > end {
                None
            } else {
                match cooked(src, j + width, end) {
                    Some(rest) => Some(code_point_utf16(cp) + rest),
                    None => None,
                }
            },
            None => None,
        }
    }
}

/// The code units of `done` followed by those of `rest`, if there are any.
pub open spec fn then_cooked(done: Seq<u16>, rest: Option<Seq<u16>>) -> Option<Seq<u16>> {
    match rest {
        Some(rest) => Some(done + rest),
        None => None,
    }
}

/// The UTF-16 code units of the characters in `start..end`, escapes resolved; `None` if an
/// escape is malformed.
pub fn cooked_units(src: &[u8], start: usize, end: usize) -> (r: Option<Vec<u16>>)
    requires
        start <= end <= src.len(),
    ensures
        match r {
            Some(units) => cooked(src@, start as int, end as int) == Some(units@),
            None => cooked(src@, start as int, end as int) is None,
        },
{
    let mut out: Vec<u16> = Vec::new();
    let mut j = start;
    proof {
        assert(out@ + Seq::<u16>::empty() =~= out@);
    }
    while j < end
        invariant
            start <= j <= end <= src.len(),
            cooked(src@, start as int, end as int) == then_cooked(out@, cooked(src@, j as int, end as int)),
        decreases end - j,
    {
        let b = src[j];
        if b == 0x5c {
            match escape_value(src, j, end) {
                Some((units, next)) => {
                    let ghost before = out@;
                    let mut k: usize = 0;
                    while k < units.len()
                        invariant
                            k <= units.len(),
                            out@ == before + units@.take(k as int),
                        decreases units.len() - k,
                    {
                        out.push(units[k]);
                        proof {
                            assert(units@.take(k + 1) =~= units@.take(k as int).push(units@[k as int]));
                        }
                        k = k + 1;
                    }
                    proof {
                        assert(units@.take(units@.len() as int) =~= units@);
                        match cooked(src@, next as int, end as int) {
                            Some(rest) => {
                                assert(before + (units@ + rest) =~= out@ + rest);
                            },
                            None => {},
                        }
                    }
                    j = next;
                },
                None => {
                    return None;
                },
            }
        } else if b == 0x0d {
            // §12.9.6: a template's `\r\n` and `\r` are both read as `\n`.
            let ghost before = out@;
            out.push(0x0a);
            let ghost next: int = if j + 1 < end && src@[j + 1] == 0x0a {
                j + 2
            } else {
                j + 1
            };
            proof {
                match cooked(src@, next, end as int) {
                    Some(rest) => {
                        assert(before + (seq![0x0au16] + rest) =~= out@ + rest);
                    },
                    None => {},
                }
            }
            if j + 1 < end && src[j + 1] == 0x0a {
                j = j + 2;
            } else {
                j = j + 1;
            }
        } else if b < 0x80 {
            let ghost before = out@;
            out.push(b as u16);
            proof {
                match cooked(src@, j + 1, end as int) {
                    Some(rest) => {
                        assert(before + (seq![b as u16] + rest) =~= out@ + rest);
                    },
                    None => {},
                }
            }
            j = j + 1;
        } else {
            match decode_at(src, j) {
                Some((cp, width)) => {
                    if j + width > end {
                        return None;
                    }
                    let ghost before = out@;
                    push_utf16(&mut out, cp);
                    proof {
                        match cooked(src@, j + width, end as int) {
                            Some(rest) => {
                                assert(before + (code_point_utf16(cp) + rest) =~= out@ + rest);
                            },
                            None => {},
                        }
                    }
                    j = j + width;
                },
                None => {
                    return None;
                },
            }
        }
    }
    proof {
        assert(out@ + Seq::<u16>::empty() =~= out@);
    }
    Some(out)
}

/// The `SV` of a `StringLiteral` (§12.9.4.2), as UTF-16 code units.
pub fn string_value(source: &[u8], span: Span) -> (units: Option<Vec<u16>>)
    ensures
        units is Some ==> span.start + 2 <= span.end <= source.len(),
        match units {
            Some(units) => cooked(source@, span.start + 1, span.end - 1) == Some(units@),
            None => span.start + 2 > span.end || span.end > source.len() || cooked(
                source@,
                span.start + 1,
                span.end - 1,
            ) is None,
        },
{
    if span.start > span.end || span.end > source.len() || span.end - span.start < 2 {
        return None;
    }
    cooked_units(source, span.start + 1, span.end - 1)
}

/// The cooked value of a template piece — `None` where an escape is not allowed, which a tagged
/// template may hold and an untagged one may not — and whether it was followed by `${`.
pub fn template_value(source: &[u8], span: Span) -> (r: Option<(Option<Vec<u16>>, bool)>)
    ensures
        r is Some ==> span.start + 2 <= span.end <= source.len(),
        r is None <==> span.start + 2 > span.end || span.end > source.len() || (source@[span.end - 1]
            != 0x60 && span.end - span.start < 3),
        r matches Some((cooked_units, open)) ==> {
            let inner_end = if open {
                span.end - 2
            } else {
                span.end - 1
            };
            &&& open == (source@[span.end - 1] != 0x60)
            &&& match cooked_units {
                Some(units) => cooked(source@, span.start + 1, inner_end) == Some(units@),
                None => cooked(source@, span.start + 1, inner_end) is None,
            }
        },
{
    if span.start > span.end || span.end > source.len() || span.end - span.start < 2 {
        return None;
    }
    let tail = source[span.end - 1] == 0x60;
    let inner_end = if tail {
        span.end - 1
    } else {
        if span.end - span.start < 3 {
            return None;
        }
        span.end - 2
    };
    Some((cooked_units(source, span.start + 1, inner_end), !tail))
}

/// The body and the flags of a `RegularExpressionLiteral`.
pub fn regexp_parts(source: &[u8], span: Span) -> (parts: Option<(Span, Span)>)
    ensures
        parts matches Some((body, flags)) ==> span.start < body.start <= body.end < flags.start
            <= flags.end == span.end,
        parts is None <==> span.start >= span.end || span.end > source.len() || forall|q: int|
            span.start + 1 <= q < span.end ==> source@[q] != 0x2fu8,
        parts matches Some((body, flags)) ==> {
            &&& body.start == span.start + 1
            &&& source@[body.end as int] == 0x2fu8
            &&& flags.start == body.end + 1
            &&& forall|q: int| flags.start <= q < span.end ==> source@[q] != 0x2fu8
        },
{
    if span.start >= span.end || span.end > source.len() {
        return None;
    }
    // The flags are identifier characters, so the last `/` is the one that closes the body.
    let mut k = span.end;
    while k > span.start + 1 && source[k - 1] != 0x2f
        invariant
            span.start < k <= span.end <= source.len(),
            forall|q: int| k <= q < span.end ==> source@[q] != 0x2fu8,
        decreases k,
    {
        k = k - 1;
    }
    if k <= span.start + 1 || source[k - 1] != 0x2f {
        return None;
    }
    Some((Span::new(span.start + 1, k - 1), Span::new(k, span.end)))
}

/// The digits of `radix` among the bytes of `src` in `from..to`, in order; the rest skipped.
pub open spec fn digits_in(src: Seq<u8>, from: int, to: int, radix: u32) -> Seq<u8>
    decreases to - from,
{
    if to <= from {
        Seq::empty()
    } else {
        let rest = digits_in(src, from, to - 1, radix);
        match digit_value_of(src[to - 1], radix) {
            Some(d) => rest.push(d as u8),
            None => rest,
        }
    }
}

/// The radix that the letter after a leading `0` selects: 16, 8 or 2, or 0 for none.
pub open spec fn radix_marker(marker: u8) -> u32 {
    if marker == 0x78 || marker == 0x58 {
        16
    } else if marker == 0x6f || marker == 0x4f {
        8
    } else if marker == 0x62 || marker == 0x42 {
        2
    } else {
        0
    }
}

/// Where the decimal digits of `src` that begin at `j` end, going no further than `end`.
pub open spec fn decimal_run_to(src: Seq<u8>, j: int, end: int) -> int
    decreases end - j,
{
    if j < end && is_decimal_digit(src[j]) {
        decimal_run_to(src, j + 1, end)
    } else {
        j
    }
}

/// Where the mantissa of a decimal literal that begins at `j` ends: at its `e` or `E`, or at
/// `end`.
pub open spec fn mantissa_end(src: Seq<u8>, j: int, end: int) -> int
    decreases end - j,
{
    if j < end && src[j] != 0x65 && src[j] != 0x45 {
        mantissa_end(src, j + 1, end)
    } else {
        j
    }
}

/// Reading a mantissa from `from` up to `to`: how many digits follow its point, counted up to
/// 1,000,000,000, and whether the point has been passed.
pub open spec fn fraction_digits(src: Seq<u8>, from: int, to: int) -> (int, bool)
    decreases to - from,
{
    if to <= from {
        (0, false)
    } else {
        let (count, seen_point) = fraction_digits(src, from, to - 1);
        let b = src[to - 1];
        if b == 0x2e {
            (count, true)
        } else if is_decimal_digit(b) && seen_point && count < 1_000_000_000 {
            (count + 1, seen_point)
        } else {
            (count, seen_point)
        }
    }
}

/// The exponent that the digits of `src` in `from..to` spell, held at 1,000,000,000 once it
/// passes 99,999,999.
pub open spec fn exponent_digits(src: Seq<u8>, from: int, to: int) -> int
    decreases to - from,
{
    if to <= from {
        0
    } else {
        let value = exponent_digits(src, from, to - 1);
        match digit_value_of(src[to - 1], 10) {
            Some(d) => if value <= 99_999_999 {
                value * 10 + d
            } else {
                1_000_000_000
            },
            None => value,
        }
    }
}

/// The exact value of the numeric literal in `start..end` of `src`, if the span lies in it
/// (§12.9.3.1, with Annex B's legacy octal integers): its radix, its digits and the power of
/// ten that scales them, kept within ±1,000,000,000.
pub open spec fn literal_value(src: Seq<u8>, start: int, end: int) -> Option<(u32, Seq<u8>, int)> {
    if start >= end || end > src.len() {
        None
    } else if src[start] == 0x30 && start + 1 < end && radix_marker(src[start + 1]) != 0 {
        let radix = radix_marker(src[start + 1]);
        Some((radix, digits_in(src, start + 2, end, radix), 0))
    } else if src[start] == 0x30 && start + 1 < end && decimal_run_to(src, start, end) == end && forall|t: int|
        start <= t < end ==> #[trigger] src[t] < 0x38 {
        Some((8, digits_in(src, start, end, 8), 0))
    } else {
        let e = mantissa_end(src, start, end);
        let fraction = fraction_digits(src, start, e).0;
        let exponent = if e < end {
            let k = e + 1;
            let negative = k < end && src[k] == 0x2d;
            let digits_from = if k < end && (src[k] == 0x2d || src[k] == 0x2b) {
                k + 1
            } else {
                k
            };
            let magnitude = exponent_digits(src, digits_from, end);
            if negative {
                -magnitude
            } else {
                magnitude
            }
        } else {
            0
        };
        let scaled = exponent - fraction;
        let clamped = if scaled < -1_000_000_000 {
            -1_000_000_000
        } else if scaled > 1_000_000_000 {
            1_000_000_000
        } else {
            scaled
        };
        Some((10, digits_in(src, start, e, 10), clamped))
    }
}

/// The exact value of a `NumericLiteral` that is not a `BigInt` (§12.9.3.1).
pub fn numeric_value(source: &[u8], span: Span) -> (value: Option<NumericValue>)
    ensures
        value matches Some(v) ==> v.well_formed(),
        match value {
            Some(v) => literal_value(source@, span.start as int, span.end as int) == Some(
                (v.radix, v.digits@, v.exponent as int),
            ),
            None => literal_value(source@, span.start as int, span.end as int) is None,
        },
{
    if span.start >= span.end || span.end > source.len() {
        return None;
    }
    let start = span.start;
    let end = span.end;
    let b0 = source[start];
    let mut digits: Vec<u8> = Vec::new();
    if b0 == 0x30 && start + 1 < end {
        let marker = source[start + 1];
        let radix: u32 = if marker == 0x78 || marker == 0x58 {
            16
        } else if marker == 0x6f || marker == 0x4f {
            8
        } else if marker == 0x62 || marker == 0x42 {
            2
        } else {
            0
        };
        if radix != 0 {
            let mut j = start + 2;
            while j < end
                invariant
                    start + 2 <= j <= end <= source.len(),
                    forall|k: int| 0 <= k < digits@.len() ==> digits@[k] < radix,
                    digits@ == digits_in(source@, start + 2, j as int, radix),
                decreases end - j,
            {
                match digit_value(source[j], radix) {
                    Some(d) => {
                        digits.push(d as u8);
                    },
                    None => {},
                }
                j = j + 1;
            }
            return Some(NumericValue { radix, digits, exponent: 0 });
        }
        // Annex B.1.1: a legacy octal integer, unless an 8 or a 9 makes it decimal.
        let mut octal = true;
        let mut j = start;
        while j < end && decimal_digit(source[j])
            invariant
                start <= j <= end <= source.len(),
                decimal_run_to(source@, start as int, end as int) == decimal_run_to(source@, j as int, end as int),
                octal <==> forall|t: int| start <= t < j ==> #[trigger] source@[t] < 0x38,
            decreases end - j,
        {
            if source[j] >= 0x38 {
                octal = false;
            }
            j = j + 1;
        }
        if octal && j == end {
            let mut k = start;
            while k < end
                invariant
                    start <= k <= end <= source.len(),
                    forall|m: int| 0 <= m < digits@.len() ==> digits@[m] < 8,
                    digits@ == digits_in(source@, start as int, k as int, 8),
                decreases end - k,
            {
                match digit_value(source[k], 8) {
                    Some(d) => {
                        digits.push(d as u8);
                    },
                    None => {},
                }
                k = k + 1;
            }
            return Some(NumericValue { radix: 8, digits, exponent: 0 });
        }
        proof {
            if j < end {
                assert(!is_decimal_digit(source@[j as int]));
            }
            assert(decimal_run_to(source@, j as int, end as int) == j);
        }
    }
    // Decimal: the digits before and after the point, then the exponent.
    let mut j = start;
    let mut fraction: i64 = 0;
    let mut seen_point = false;
    while j < end && source[j] != 0x65 && source[j] != 0x45
        invariant
            start <= j <= end <= source.len(),
            0 <= fraction <= j,
            fraction <= 1_000_000_000,
            forall|k: int| 0 <= k < digits@.len() ==> digits@[k] < 10,
            digits@ == digits_in(source@, start as int, j as int, 10),
            (fraction as int, seen_point) == fraction_digits(source@, start as int, j as int),
            mantissa_end(source@, start as int, end as int) == mantissa_end(source@, j as int, end as int),
        decreases end - j,
    {
        let b = source[j];
        if b == 0x2e {
            seen_point = true;
        } else if decimal_digit(b) {
            digits.push(b - 0x30);
            if seen_point && fraction < 1_000_000_000 {
                fraction = fraction + 1;
            }
        }
        j = j + 1;
    }
    let mut exponent: i64 = 0;
    if j < end {
        // `e`, an optional sign, and digits.
        let mut k = j + 1;
        let mut negative = false;
        if k < end && source[k] == 0x2d {
            negative = true;
            k = k + 1;
        } else if k < end && source[k] == 0x2b {
            k = k + 1;
        }
        let ghost digits_from = k as int;
        while k < end
            invariant
                j < k <= end <= source.len(),
                0 <= exponent <= 1_000_000_000,
                digits_from <= k,
                exponent == exponent_digits(source@, digits_from, k as int),
            decreases end - k,
        {
            match digit_value(source[k], 10) {
                Some(d) => {
                    if exponent <= 99_999_999 {
                        exponent = exponent * 10 + d as i64;
                    } else {
                        exponent = 1_000_000_000;
                    }
                },
                None => {},
            }
            k = k + 1;
        }
        if negative {
            exponent = -exponent;
        }
    }
    let scaled = exponent - fraction;
    let exponent = if scaled < -1_000_000_000 {
        -1_000_000_000
    } else if scaled > 1_000_000_000 {
        1_000_000_000
    } else {
        scaled
    };
    Some(NumericValue { radix: 10, digits, exponent })
}

} // verus!
