//! Finding where a token ends. Each scanner is handed the offset of the token's first byte and
//! answers with the offset one past its last, or with why there is no such token.

use vstd::prelude::*;
use super::{byte_is, line_terminator_at, terminator_width, LexErrorKind, TokenKind};
use super::chars::{
    is_identifier_part, is_identifier_start, is_ascii_identifier_start, is_decimal_digit, is_ascii_identifier_part, digit_value_of, utf8_decoded, ascii_identifier_part, ascii_identifier_start, decimal_digit, decode_at, digit_value,
    identifier_part, identifier_start,
};

verus! {

/// Whether every byte of `src` in `from..to` is a hexadecimal digit.
pub open spec fn all_hex(src: Seq<u8>, from: int, to: int) -> bool {
    forall|t: int| from <= t < to ==> (#[trigger] digit_value_of(src[t], 16)) is Some
}

/// The number that the hexadecimal digits of `src` in `from..to` spell.
pub open spec fn hex_value(src: Seq<u8>, from: int, to: int) -> int
    decreases to - from,
{
    if to <= from {
        0
    } else {
        hex_value(src, from, to - 1) * 16 + digit_value_of(src[to - 1], 16)->0
    }
}

/// A run of hexadecimal digits spells no less for being longer.
proof fn lemma_hex_value_grows(src: Seq<u8>, from: int, a: int, b: int)
    requires
        from <= a <= b,
        all_hex(src, from, b),
    ensures
        hex_value(src, from, a) <= hex_value(src, from, b),
    decreases b - a,
{
    if a < b {
        lemma_hex_value_grows(src, from, a, b - 1);
        lemma_hex_value_positive(src, from, b - 1);
        assert(digit_value_of(src[b - 1], 16) is Some);
    }
}

/// What hexadecimal digits spell is never negative.
proof fn lemma_hex_value_positive(src: Seq<u8>, from: int, to: int)
    ensures
        0 <= hex_value(src, from, to),
    decreases to - from,
{
    if to > from {
        lemma_hex_value_positive(src, from, to - 1);
    }
}

/// Whether a `\u{…}` escape starting at `i` closes with the brace at `close`: hexadecimal
/// digits, at least one, between, and a value no larger than the largest code point.
pub open spec fn braced_escape_closes(src: Seq<u8>, i: int, close: int) -> bool {
    &&& i + 3 < close < src.len()
    &&& src[close] == 0x7d
    &&& all_hex(src, i + 3, close)
    &&& hex_value(src, i + 3, close) <= 0x10ffff
}

/// The code point and the end of the `\uXXXX` or `\u{X…}` escape whose backslash is at `i`,
/// if one is written there.
pub open spec fn unicode_escape(src: Seq<u8>, i: int) -> Option<(u32, usize)> {
    if !(i + 1 < src.len() && src[i + 1] == 0x75) {
        None
    } else if i + 2 < src.len() && src[i + 2] == 0x7b {
        if exists|close: int| #[trigger] braced_escape_closes(src, i, close) {
            let close = choose|close: int| #[trigger] braced_escape_closes(src, i, close);
            Some((hex_value(src, i + 3, close) as u32, (close + 1) as usize))
        } else {
            None
        }
    } else if src.len() - i < 6 || !all_hex(src, i + 2, i + 6) {
        None
    } else {
        Some((hex_value(src, i + 2, i + 6) as u32, (i + 6) as usize))
    }
}

/// `\uXXXX` or `\u{X…}` starting at the backslash at `i`: the code point and where it ends.
pub fn scan_unicode_escape(src: &[u8], i: usize) -> (r: Option<(u32, usize)>)
    requires
        i < src.len(),
    ensures
        r matches Some((cp, end)) ==> i < end <= src.len() && cp <= 0x10ffff,
        r == unicode_escape(src@, i as int),
{
    let len = src.len();
    if !byte_is(src, i + 1, 0x75) {
        return None;
    }
    if byte_is(src, i + 2, 0x7b) {
        let mut j = i + 3;
        let mut value: u32 = 0;
        let mut digits: usize = 0;
        while j < len && src[j] != 0x7d
            invariant
                i + 3 <= j <= len,
                src.len() == len,
                value <= 0x10ffff,
                i + 2 < len && src@[i + 2] == 0x7b,
                i + 1 < len && src@[i + 1] == 0x75,
                value == hex_value(src@, i + 3, j as int),
                all_hex(src@, i + 3, j as int),
                digits == 0 <==> j == i + 3,
            decreases len - j,
        {
            match digit_value(src[j], 16) {
                Some(d) => {
                    value = value * 16 + d;
                    if value > 0x10ffff {
                        proof {
                            assert(all_hex(src@, i + 3, j + 1));
                            assert(hex_value(src@, i + 3, j + 1) == value);
                            assert forall|close: int| !#[trigger] braced_escape_closes(src@, i as int, close) by {
                                if braced_escape_closes(src@, i as int, close) {
                                    if close <= j {
                                        assert(digit_value_of(src@[close], 16) is Some);
                                    } else {
                                        lemma_hex_value_grows(src@, i + 3, j + 1, close);
                                    }
                                }
                            }
                        }
                        return None;
                    }
                },
                None => {
                    proof {
                        assert forall|close: int| !#[trigger] braced_escape_closes(src@, i as int, close) by {
                            if braced_escape_closes(src@, i as int, close) {
                                if close < j {
                                    assert(digit_value_of(src@[close], 16) is Some);
                                } else if close > j {
                                    assert(digit_value_of(src@[j as int], 16) is Some);
                                }
                            }
                        }
                    }
                    return None;
                },
            }
            proof {
                assert forall|t: int| i + 3 <= t < j + 1 implies (#[trigger] digit_value_of(src@[t], 16)) is Some by {
                    if t < j {
                        assert(all_hex(src@, i + 3, j as int));
                    }
                }
            }
            j = j + 1;
            digits = 1;
        }
        if j >= len || digits == 0 {
            proof {
                assert forall|close: int| !#[trigger] braced_escape_closes(src@, i as int, close) by {
                    if braced_escape_closes(src@, i as int, close) {
                        if close < j {
                            assert(digit_value_of(src@[close], 16) is Some);
                        } else if close > j {
                            assert(digit_value_of(src@[j as int], 16) is Some);
                        }
                    }
                }
            }
            return None;
        }
        proof {
            assert(braced_escape_closes(src@, i as int, j as int));
            let close = choose|close: int| #[trigger] braced_escape_closes(src@, i as int, close);
            if close < j {
                assert(digit_value_of(src@[close], 16) is Some);
            } else if close > j {
                assert(digit_value_of(src@[j as int], 16) is Some);
            }
            assert(close == j);
        }
        return Some((value, j + 1));
    }
    if len - i < 6 {
        return None;
    }
    let mut value: u32 = 0;
    let mut k: usize = 2;
    while k < 6
        invariant
            2 <= k <= 6,
            i + 6 <= len,
            src.len() == len,
            value < 0x10000,
            k == 2 ==> value == 0,
            k == 3 ==> value < 0x10,
            k == 4 ==> value < 0x100,
            k == 5 ==> value < 0x1000,
            value == hex_value(src@, i + 2, i + k),
            src@[i + 1] == 0x75,
            !(i + 2 < len && src@[i + 2] == 0x7b),
            all_hex(src@, i + 2, i + k),
        decreases 6 - k,
    {
        match digit_value(src[i + k], 16) {
            Some(d) => {
                value = value * 16 + d;
            },
            None => {
                proof {
                    assert(digit_value_of(src@[i + k as int], 16) is None);
                }
                return None;
            },
        }
        proof {
            assert forall|t: int| i + 2 <= t < i + k + 1 implies (#[trigger] digit_value_of(src@[t], 16)) is Some by {
                if t < i + k {
                    assert(all_hex(src@, i + 2, i + k));
                }
            }
        }
        k = k + 1;
    }
    Some((value, i + 6))
}

/// Reading an `IdentifierName` that starts at `start` on from `i`, `escaped` telling whether
/// an escape came before: where it ends and whether it used an escape, or why there is none.
pub open spec fn identifier_end(src: Seq<u8>, start: int, i: int, escaped: bool) -> Result<(int, bool), LexErrorKind>
    decreases src.len() - i,
{
    let first = i == start;
    let stop: Result<(int, bool), LexErrorKind> = if first {
        Err(LexErrorKind::UnexpectedCharacter)
    } else {
        Ok((i, escaped))
    };
    if i < start || i >= src.len() {
        stop
    } else if src[i] == 0x5c {
        match unicode_escape(src, i) {
            Some((cp, end)) => if !(if first {
                is_identifier_start(cp)
            } else {
                is_identifier_part(cp)
            }) {
                Err(LexErrorKind::InvalidEscape)
            } else if end <= i || end > src.len() {
                stop
            } else {
                identifier_end(src, start, end as int, true)
            },
            None => Err(LexErrorKind::InvalidEscape),
        }
    } else if src[i] < 0x80 {
        if !(if first {
            is_ascii_identifier_start(src[i])
        } else {
            is_ascii_identifier_part(src[i])
        }) {
            stop
        } else {
            identifier_end(src, start, i + 1, escaped)
        }
    } else {
        match utf8_decoded(src, i) {
            Some((cp, w)) => if !(if first {
                is_identifier_start(cp)
            } else {
                is_identifier_part(cp)
            }) || w < 1 || i + w > src.len() {
                stop
            } else {
                identifier_end(src, start, i + w, escaped)
            },
            None => stop,
        }
    }
}

/// An `IdentifierName` starting at `start`: where it ends, and whether it used an escape.
pub fn scan_identifier(src: &[u8], start: usize) -> (r: Result<(usize, bool), LexErrorKind>)
    requires
        start <= src.len(),
    ensures
        r matches Ok((end, _)) ==> start < end <= src.len(),
        match r {
            Ok((end, escaped)) => identifier_end(src@, start as int, start as int, false) == Ok::<
                (int, bool),
                LexErrorKind,
            >((end as int, escaped)),
            Err(e) => identifier_end(src@, start as int, start as int, false) == Err::<(int, bool), LexErrorKind>(
                e,
            ),
        },
{
    let len = src.len();
    let mut i = start;
    let mut escaped = false;
    while i < len
        invariant
            start <= i <= len,
            src.len() == len,
            identifier_end(src@, start as int, start as int, false) == identifier_end(
                src@,
                start as int,
                i as int,
                escaped,
            ),
        ensures
            start <= i <= len,
            identifier_end(src@, start as int, start as int, false) == identifier_end(
                src@,
                start as int,
                i as int,
                escaped,
            ),
            i == len || identifier_end(src@, start as int, i as int, escaped) == (if i == start {
                Err::<(int, bool), LexErrorKind>(LexErrorKind::UnexpectedCharacter)
            } else {
                Ok((i as int, escaped))
            }),
        decreases len - i,
    {
        let first = i == start;
        let b = src[i];
        if b == 0x5c {
            match scan_unicode_escape(src, i) {
                Some((cp, end)) => {
                    let fits = if first {
                        identifier_start(cp)
                    } else {
                        identifier_part(cp)
                    };
                    if !fits {
                        return Err(LexErrorKind::InvalidEscape);
                    }
                    escaped = true;
                    i = end;
                },
                None => {
                    return Err(LexErrorKind::InvalidEscape);
                },
            }
        } else if b < 0x80 {
            let fits = if first {
                ascii_identifier_start(b)
            } else {
                ascii_identifier_part(b)
            };
            if !fits {
                break;
            }
            i = i + 1;
        } else {
            match decode_at(src, i) {
                Some((cp, width)) => {
                    let fits = if first {
                        identifier_start(cp)
                    } else {
                        identifier_part(cp)
                    };
                    if !fits {
                        break;
                    }
                    i = i + width;
                },
                None => {
                    break;
                },
            }
        }
    }
    if i == start {
        return Err(LexErrorKind::UnexpectedCharacter);
    }
    Ok((i, escaped))
}

/// Whether the `_` at `p` of a digit run that starts at `i` stands between two digits of
/// `radix`, as a numeric separator must.
pub open spec fn separator_allowed(src: Seq<u8>, i: int, p: int, radix: u32) -> bool {
    &&& p > i
    &&& digit_value_of(src[p - 1], radix) is Some
    &&& p + 1 < src.len()
    &&& digit_value_of(src[p + 1], radix) is Some
}

/// Whether the byte at `t` continues a digit run starting at `i`: a digit, or a separator
/// between two.
pub open spec fn continues_digits(src: Seq<u8>, i: int, t: int, radix: u32) -> bool {
    digit_value_of(src[t], radix) is Some || (src[t] == 0x5f && separator_allowed(src, i, t, radix))
}

/// Reading a digit run of `radix` that starts at `i` on from `j`: where it ends, or the error
/// of a separator that does not stand between two digits.
pub open spec fn digit_run(src: Seq<u8>, i: int, j: int, radix: u32) -> Result<int, LexErrorKind>
    decreases src.len() - j,
{
    if j < 0 || j >= src.len() {
        Ok(j)
    } else if src[j] == 0x5f {
        if separator_allowed(src, i, j, radix) {
            digit_run(src, i, j + 1, radix)
        } else {
            Err(LexErrorKind::InvalidNumber)
        }
    } else if digit_value_of(src[j], radix) is Some {
        digit_run(src, i, j + 1, radix)
    } else {
        Ok(j)
    }
}

/// A run of digits in `radix` from `i`, with `_` allowed only between two digits: where it ends.
pub fn scan_digits(src: &[u8], i: usize, radix: u32) -> (r: Result<usize, LexErrorKind>)
    requires
        i <= src.len(),
    ensures
        r matches Ok(end) ==> i <= end <= src.len(),
        r matches Ok(end) ==> {
            &&& forall|t: int| i <= t < end ==> #[trigger] continues_digits(src@, i as int, t, radix)
            &&& end == src.len() || (digit_value_of(src@[end as int], radix) is None && src@[end as int]
                != 0x5f)
        },
        match r {
            Ok(end) => digit_run(src@, i as int, i as int, radix) == Ok::<int, LexErrorKind>(end as int),
            Err(e) => digit_run(src@, i as int, i as int, radix) == Err::<int, LexErrorKind>(e),
        },
        r matches Err(e) ==> e == LexErrorKind::InvalidNumber && exists|p: int|
            i <= p < src.len() && src@[p] == 0x5f && !separator_allowed(src@, i as int, p, radix) && forall|
                t: int,
            |
                i <= t < p ==> #[trigger] continues_digits(src@, i as int, t, radix),
{
    let len = src.len();
    let mut j = i;
    while j < len
        invariant
            i <= j <= len,
            src.len() == len,
            forall|t: int| i <= t < j ==> #[trigger] continues_digits(src@, i as int, t, radix),
            digit_run(src@, i as int, i as int, radix) == digit_run(src@, i as int, j as int, radix),
        ensures
            i <= j <= len,
            forall|t: int| i <= t < j ==> #[trigger] continues_digits(src@, i as int, t, radix),
            digit_run(src@, i as int, i as int, radix) == digit_run(src@, i as int, j as int, radix),
            j == len || (digit_value_of(src@[j as int], radix) is None && src@[j as int] != 0x5f),
        decreases len - j,
    {
        let b = src[j];
        if b == 0x5f {
            let after_digit = j > i && digit_value(src[j - 1], radix).is_some();
            let before_digit = j + 1 < len && digit_value(src[j + 1], radix).is_some();
            if !after_digit || !before_digit {
                proof {
                    assert(!separator_allowed(src@, i as int, j as int, radix));
                }
                return Err(LexErrorKind::InvalidNumber);
            }
            j = j + 1;
        } else if digit_value(b, radix).is_some() {
            j = j + 1;
        } else {
            break;
        }
    }
    Ok(j)
}

/// Where the decimal digits that begin at `j` end.
pub open spec fn decimal_end(src: Seq<u8>, j: int) -> int
    decreases src.len() - j,
{
    if 0 <= j < src.len() && is_decimal_digit(src[j]) {
        decimal_end(src, j + 1)
    } else {
        j
    }
}

/// Whether the byte at `j` may not follow a numeric literal (§12.9.3): a backslash, a digit,
/// or the start of an identifier.
pub open spec fn forbidden_after_number(src: Seq<u8>, j: int) -> bool {
    0 <= j < src.len() && (src[j] == 0x5c || is_decimal_digit(src[j]) || is_ascii_identifier_start(src[j])
        || (src[j] >= 0x80 && (utf8_decoded(src, j) matches Some((cp, _)) && is_identifier_start(cp))))
}

/// Reading a `NumericLiteral` at `start` (§12.9.3, with Annex B's legacy octal and
/// leading-zero decimal literals): its kind and where it ends, or why it is malformed.
pub open spec fn number_scan(src: Seq<u8>, start: int) -> Result<(TokenKind, int), LexErrorKind> {
    let b = src[start];
    let body: Result<(TokenKind, int), LexErrorKind> = if b == 0x30 && start + 1 < src.len() && (src[start + 1]
        | 0x20 == 0x78 || src[start + 1] | 0x20 == 0x6f || src[start + 1] | 0x20 == 0x62) {
        let marker = src[start + 1] | 0x20;
        let radix: u32 = if marker == 0x78 {
            16
        } else if marker == 0x6f {
            8
        } else {
            2
        };
        match digit_run(src, start + 2, start + 2, radix) {
            Err(e) => Err(e),
            Ok(end) => if end == start + 2 {
                Err(LexErrorKind::InvalidNumber)
            } else if end < src.len() && src[end] == 0x6e {
                Ok((TokenKind::BigInt, end + 1))
            } else {
                Ok((TokenKind::Number { legacy: false }, end))
            },
        }
    } else if b == 0x30 && start + 1 < src.len() && is_decimal_digit(src[start + 1]) {
        let j = decimal_end(src, start + 1);
        if j < src.len() && src[j] == 0x5f {
            Err(LexErrorKind::InvalidNumber)
        } else if forall|t: int| start + 1 <= t < j ==> #[trigger] src[t] < 0x38 {
            Ok((TokenKind::Number { legacy: true }, j))
        } else {
            match fraction_and_exponent(src, j) {
                Ok((end, _)) => Ok((TokenKind::Number { legacy: true }, end)),
                Err(e) => Err(e),
            }
        }
    } else if b == 0x30 && start + 1 < src.len() && src[start + 1] == 0x5f {
        Err(LexErrorKind::InvalidNumber)
    } else {
        let digits: Result<int, LexErrorKind> = if b == 0x2e {
            Ok(start)
        } else {
            digit_run(src, start, start, 10)
        };
        match digits {
            Err(e) => Err(e),
            Ok(end) => match fraction_and_exponent(src, end) {
                Err(e) => Err(e),
                Ok((end, integer)) => if integer && end < src.len() && src[end] == 0x6e {
                    Ok((TokenKind::BigInt, end + 1))
                } else {
                    Ok((TokenKind::Number { legacy: false }, end))
                },
            },
        }
    };
    match body {
        Err(e) => Err(e),
        Ok((kind, j)) => if j <= start {
            Err(LexErrorKind::InvalidNumber)
        } else if forbidden_after_number(src, j) {
            Err(LexErrorKind::IdentifierAfterNumber)
        } else {
            Ok((kind, j))
        },
    }
}

/// A `NumericLiteral` starting at `start`, which the caller has seen is a digit, or a `.` before
/// one.
pub fn scan_number(src: &[u8], start: usize) -> (r: Result<(TokenKind, usize), LexErrorKind>)
    requires
        start < src.len(),
    ensures
        r matches Ok((kind, end)) ==> start < end <= src.len() && (kind is Number || kind is BigInt),
        match r {
            Ok((kind, end)) => number_scan(src@, start as int) == Ok::<(TokenKind, int), LexErrorKind>(
                (kind, end as int),
            ),
            Err(e) => number_scan(src@, start as int) == Err::<(TokenKind, int), LexErrorKind>(e),
        },
{
    let len = src.len();
    let b = src[start];
    let mut kind = TokenKind::Number { legacy: false };
    let mut j: usize;
    if b == 0x30 && start + 1 < len && (src[start + 1] | 0x20 == 0x78 || src[start + 1] | 0x20
        == 0x6f || src[start + 1] | 0x20 == 0x62) {
        let marker = src[start + 1] | 0x20;
        let radix: u32 = if marker == 0x78 {
            16
        } else if marker == 0x6f {
            8
        } else {
            2
        };
        let end = match scan_digits(src, start + 2, radix) {
            Ok(end) => end,
            Err(e) => return Err(e),
        };
        if end == start + 2 {
            return Err(LexErrorKind::InvalidNumber);
        }
        j = end;
        if byte_is(src, j, 0x6e) {
            kind = TokenKind::BigInt;
            j = j + 1;
        }
    } else if b == 0x30 && start + 1 < len && decimal_digit(src[start + 1]) {
        // Annex B.1.1: `010` is octal and `09` is decimal, both flagged for strict code.
        kind = TokenKind::Number { legacy: true };
        j = start + 1;
        let mut octal = true;
        while j < len && decimal_digit(src[j])
            invariant
                start < j <= len,
                src.len() == len,
                decimal_end(src@, start + 1) == decimal_end(src@, j as int),
                octal <==> forall|t: int| start + 1 <= t < j ==> #[trigger] src@[t] < 0x38,
            decreases len - j,
        {
            if src[j] >= 0x38 {
                octal = false;
            }
            j = j + 1;
        }
        if byte_is(src, j, 0x5f) {
            return Err(LexErrorKind::InvalidNumber);
        }
        if !octal {
            match scan_fraction_and_exponent(src, j) {
                Ok((end, _)) => {
                    j = end;
                },
                Err(e) => return Err(e),
            }
        }
    } else {
        if b == 0x30 && byte_is(src, start + 1, 0x5f) {
            return Err(LexErrorKind::InvalidNumber);
        }
        let end = if b == 0x2e {
            start
        } else {
            match scan_digits(src, start, 10) {
                Ok(end) => end,
                Err(e) => return Err(e),
            }
        };
        let (end, integer) = match scan_fraction_and_exponent(src, end) {
            Ok(scanned) => scanned,
            Err(e) => return Err(e),
        };
        j = end;
        if integer && byte_is(src, j, 0x6e) {
            kind = TokenKind::BigInt;
            j = j + 1;
        }
    }
    if j <= start {
        return Err(LexErrorKind::InvalidNumber);
    }
    // §12.9.3: "The SourceCharacter immediately following a NumericLiteral must not be an
    // IdentifierStart or DecimalDigit."
    if j < len {
        let next = src[j];
        if next == 0x5c || decimal_digit(next) || ascii_identifier_start(next) {
            return Err(LexErrorKind::IdentifierAfterNumber);
        }
        if next >= 0x80 {
            if let Some((cp, _)) = decode_at(src, j) {
                if identifier_start(cp) {
                    return Err(LexErrorKind::IdentifierAfterNumber);
                }
            }
        }
    }
    Ok((kind, j))
}

/// Reading the optional `. digits` and `e± digits` of a decimal literal from `i`: where they
/// end and whether neither was written, or why they are malformed.
pub open spec fn fraction_and_exponent(src: Seq<u8>, i: int) -> Result<(int, bool), LexErrorKind> {
    let after_fraction: Result<(int, bool), LexErrorKind> = if 0 <= i < src.len() && src[i] == 0x2e {
        if i + 1 < src.len() && src[i + 1] == 0x5f {
            Err(LexErrorKind::InvalidNumber)
        } else {
            match digit_run(src, i + 1, i + 1, 10) {
                Ok(end) => Ok((end, false)),
                Err(e) => Err(e),
            }
        }
    } else {
        Ok((i, true))
    };
    match after_fraction {
        Err(e) => Err(e),
        Ok((j, integer)) => if 0 <= j < src.len() && (src[j] == 0x65 || src[j] == 0x45) {
            let k = if j + 1 < src.len() && (src[j + 1] == 0x2b || src[j + 1] == 0x2d) {
                j + 2
            } else {
                j + 1
            };
            if k < src.len() && src[k] == 0x5f {
                Err(LexErrorKind::InvalidNumber)
            } else {
                match digit_run(src, k, k, 10) {
                    Ok(end) => if end == k {
                        Err(LexErrorKind::InvalidNumber)
                    } else {
                        Ok((end, false))
                    },
                    Err(e) => Err(e),
                }
            }
        } else {
            Ok((j, integer))
        },
    }
}

/// The optional `. digits` and `e± digits` of a decimal literal from `i`: where they end, and
/// whether neither was written.
pub fn scan_fraction_and_exponent(src: &[u8], i: usize) -> (r: Result<(usize, bool), LexErrorKind>)
    requires
        i <= src.len(),
    ensures
        r matches Ok((end, _)) ==> i <= end <= src.len(),
        match r {
            Ok((end, integer)) => fraction_and_exponent(src@, i as int) == Ok::<(int, bool), LexErrorKind>(
                (end as int, integer),
            ),
            Err(e) => fraction_and_exponent(src@, i as int) == Err::<(int, bool), LexErrorKind>(e),
        },
{
    let mut j = i;
    let mut integer = true;
    if byte_is(src, j, 0x2e) {
        integer = false;
        if byte_is(src, j + 1, 0x5f) {
            return Err(LexErrorKind::InvalidNumber);
        }
        j = match scan_digits(src, j + 1, 10) {
            Ok(end) => end,
            Err(e) => return Err(e),
        };
    }
    if byte_is(src, j, 0x65) || byte_is(src, j, 0x45) {
        integer = false;
        j = j + 1;
        if byte_is(src, j, 0x2b) || byte_is(src, j, 0x2d) {
            j = j + 1;
        }
        if byte_is(src, j, 0x5f) {
            return Err(LexErrorKind::InvalidNumber);
        }
        let end = match scan_digits(src, j, 10) {
            Ok(end) => end,
            Err(e) => return Err(e),
        };
        if end == j {
            return Err(LexErrorKind::InvalidNumber);
        }
        j = end;
    }
    Ok((j, integer))
}

/// How many bytes the character at `i` takes, counting a malformed one as a single byte.
pub fn char_width(src: &[u8], i: usize) -> (width: usize)
    requires
        i < src.len(),
    ensures
        1 <= width,
        i + width <= src.len(),
        width == (match utf8_decoded(src@, i as int) {
            Some((_, w)) => w,
            None => 1,
        }),
{
    if src[i] < 0x80 {
        return 1;
    }
    match decode_at(src, i) {
        Some((_, width)) => width,
        None => 1,
    }
}

/// Reading a string literal closed by `quote` on from `j`, `legacy` telling whether a legacy
/// octal escape came before: whether one came at all, and the offset just past the closing
/// quote; or why the literal is malformed.
pub open spec fn string_end(src: Seq<u8>, j: int, quote: u8, legacy: bool) -> Result<(bool, int), LexErrorKind>
    decreases src.len() - j,
{
    if j < 0 || j >= src.len() {
        Err(LexErrorKind::UnterminatedString)
    } else if src[j] == quote {
        Ok((legacy, j + 1))
    } else if src[j] == 0x0a || src[j] == 0x0d {
        Err(LexErrorKind::UnterminatedString)
    } else if src[j] == 0x5c {
        if j + 1 >= src.len() {
            Err(LexErrorKind::UnterminatedString)
        } else {
            let e = src[j + 1];
            let step: Result<(bool, int), LexErrorKind> = if e == 0x0d && j + 2 < src.len() && src[j + 2]
                == 0x0a {
                Ok((legacy, j + 3))
            } else if terminator_width(src, j + 1) > 0 {
                Ok((legacy, j + 1 + terminator_width(src, j + 1)))
            } else if e == 0x78 {
                if src.len() - j <= 3 || digit_value_of(src[j + 2], 16) is None || digit_value_of(
                    src[j + 3],
                    16,
                ) is None {
                    Err(LexErrorKind::InvalidEscape)
                } else {
                    Ok((legacy, j + 4))
                }
            } else if e == 0x75 {
                match unicode_escape(src, j) {
                    Some((_, end)) => Ok((legacy, end as int)),
                    None => Err(LexErrorKind::InvalidEscape),
                }
            } else if e == 0x30 && !(j + 2 < src.len() && is_decimal_digit(src[j + 2])) {
                Ok((legacy, j + 2))
            } else if is_decimal_digit(e) {
                Ok((true, j + 2))
            } else {
                Ok((legacy, j + 1 + char_step(src, j + 1)))
            };
            match step {
                Ok((legacy, next)) => if next <= j || next > src.len() {
                    Err(LexErrorKind::UnterminatedString)
                } else {
                    string_end(src, next, quote, legacy)
                },
                Err(e) => Err(e),
            }
        }
    } else {
        let next = j + char_step(src, j);
        if next <= j || next > src.len() {
            Err(LexErrorKind::UnterminatedString)
        } else {
            string_end(src, next, quote, legacy)
        }
    }
}

/// A `StringLiteral` whose opening quote is at `start`.
pub fn scan_string(src: &[u8], start: usize) -> (r: Result<(TokenKind, usize), LexErrorKind>)
    requires
        start < src.len(),
    ensures
        r matches Ok((kind, end)) ==> start < end <= src.len() && kind is String,
        match r {
            Ok((kind, end)) => string_end(src@, start + 1, src@[start as int], false) == Ok::<
                (bool, int),
                LexErrorKind,
            >((kind == (TokenKind::String { legacy_octal: true }), end as int)),
            Err(e) => string_end(src@, start + 1, src@[start as int], false) == Err::<(bool, int), LexErrorKind>(
                e,
            ),
        },
{
    let len = src.len();
    let quote = src[start];
    let mut legacy = false;
    let mut j = start + 1;
    while j < len
        invariant
            start < j <= len,
            src.len() == len,
            quote == src@[start as int],
            string_end(src@, start + 1, quote, false) == string_end(src@, j as int, quote, legacy),
        decreases len - j,
    {
        let b = src[j];
        if b == quote {
            return Ok((TokenKind::String { legacy_octal: legacy }, j + 1));
        }
        if b == 0x0a || b == 0x0d {
            return Err(LexErrorKind::UnterminatedString);
        }
        if b == 0x5c {
            if j + 1 >= len {
                return Err(LexErrorKind::UnterminatedString);
            }
            let e = src[j + 1];
            if e == 0x0d && byte_is(src, j + 2, 0x0a) {
                j = j + 3;
            } else if line_terminator_at(src, j + 1) > 0 {
                j = j + 1 + line_terminator_at(src, j + 1);
            } else if e == 0x78 {
                if len - j <= 3 || digit_value(src[j + 2], 16).is_none() || digit_value(
                    src[j + 3],
                    16,
                ).is_none() {
                    return Err(LexErrorKind::InvalidEscape);
                }
                j = j + 4;
            } else if e == 0x75 {
                match scan_unicode_escape(src, j) {
                    Some((_, end)) => {
                        j = end;
                    },
                    None => {
                        return Err(LexErrorKind::InvalidEscape);
                    },
                }
            } else if e == 0x30 && !(j + 2 < len && decimal_digit(src[j + 2])) {
                j = j + 2;
            } else if decimal_digit(e) {
                legacy = true;
                j = j + 2;
            } else {
                j = j + 1 + char_width(src, j + 1);
            }
        } else {
            j = j + char_width(src, j);
        }
    }
    Err(LexErrorKind::UnterminatedString)
}

/// How many bytes the character at `i` of `src` takes, a malformed one counted as one byte.
pub open spec fn char_step(src: Seq<u8>, i: int) -> int {
    match utf8_decoded(src, i) {
        Some((_, w)) => w as int,
        None => 1,
    }
}

/// Reading a template piece on from `j`: whether it ends with `` ` `` (rather than `${`), and
/// the offset just past that; `None` if the text ends first.
pub open spec fn template_end(src: Seq<u8>, j: int) -> Option<(bool, int)>
    decreases src.len() - j,
{
    if j < 0 || j >= src.len() {
        None
    } else if src[j] == 0x60 {
        Some((true, j + 1))
    } else if src[j] == 0x24 && j + 1 < src.len() && src[j + 1] == 0x7b {
        Some((false, j + 2))
    } else {
        let next = if src[j] == 0x5c {
            if j + 1 >= src.len() {
                -1
            } else {
                j + 1 + char_step(src, j + 1)
            }
        } else {
            j + char_step(src, j)
        };
        if next <= j || next > src.len() {
            None
        } else {
            template_end(src, next)
        }
    }
}

/// A piece of a template starting at the `` ` `` or `}` at `start`, up to and including the
/// `` ` `` or `${` that ends it.
pub fn scan_template(src: &[u8], start: usize) -> (r: Result<(TokenKind, usize), LexErrorKind>)
    requires
        start < src.len(),
    ensures
        r matches Ok((kind, end)) ==> start < end <= src.len() && kind is Template,
        r is Ok <==> template_end(src@, start + 1) is Some,
        r matches Ok((kind, end)) ==> template_end(src@, start + 1) == Some(
            (kind == (TokenKind::Template { tail: true }), end as int),
        ),
        r matches Err(e) ==> e == LexErrorKind::UnterminatedTemplate,
{
    let len = src.len();
    let mut j = start + 1;
    while j < len
        invariant
            start < j <= len,
            src.len() == len,
            template_end(src@, start + 1) == template_end(src@, j as int),
        decreases len - j,
    {
        let b = src[j];
        if b == 0x60 {
            return Ok((TokenKind::Template { tail: true }, j + 1));
        }
        if b == 0x24 && byte_is(src, j + 1, 0x7b) {
            return Ok((TokenKind::Template { tail: false }, j + 2));
        }
        if b == 0x5c {
            if j + 1 >= len {
                return Err(LexErrorKind::UnterminatedTemplate);
            }
            j = j + 1 + char_width(src, j + 1);
        } else {
            j = j + char_width(src, j);
        }
    }
    Err(LexErrorKind::UnterminatedTemplate)
}

/// Where the flags of a regular expression that begin at `k` end: the ASCII identifier
/// characters there.
pub open spec fn flags_end(src: Seq<u8>, k: int) -> int
    decreases src.len() - k,
{
    if 0 <= k < src.len() && is_ascii_identifier_part(src[k]) {
        flags_end(src, k + 1)
    } else {
        k
    }
}

/// Reading a regular expression literal's body on from `j`, inside a class or not: the offset
/// just past its flags; `None` where a line ends first, or the text.
pub open spec fn regexp_end(src: Seq<u8>, j: int, in_class: bool) -> Option<int>
    decreases src.len() - j,
{
    if j < 0 || j >= src.len() || terminator_width(src, j) > 0 {
        None
    } else if src[j] == 0x5c {
        if j + 1 >= src.len() || terminator_width(src, j + 1) > 0 {
            None
        } else {
            let next = j + 1 + char_step(src, j + 1);
            if next <= j || next > src.len() {
                None
            } else {
                regexp_end(src, next, in_class)
            }
        }
    } else if src[j] == 0x5b {
        regexp_end(src, j + 1, true)
    } else if src[j] == 0x5d {
        regexp_end(src, j + 1, false)
    } else if src[j] == 0x2f && !in_class {
        Some(flags_end(src, j + 1))
    } else {
        let next = j + char_step(src, j);
        if next <= j || next > src.len() {
            None
        } else {
            regexp_end(src, next, in_class)
        }
    }
}

/// A `RegularExpressionLiteral` whose opening `/` is at `start`, flags included.
pub fn scan_regexp(src: &[u8], start: usize) -> (r: Result<usize, LexErrorKind>)
    requires
        start < src.len(),
    ensures
        r matches Ok(end) ==> start < end <= src.len(),
        match r {
            Ok(end) => regexp_end(src@, start + 1, false) == Some(end as int),
            Err(e) => e == LexErrorKind::UnterminatedRegExp && regexp_end(src@, start + 1, false) is None,
        },
{
    let len = src.len();
    let mut j = start + 1;
    let mut in_class = false;
    while j < len
        invariant
            start < j <= len,
            src.len() == len,
            regexp_end(src@, start + 1, false) == regexp_end(src@, j as int, in_class),
        decreases len - j,
    {
        if line_terminator_at(src, j) > 0 {
            return Err(LexErrorKind::UnterminatedRegExp);
        }
        let b = src[j];
        if b == 0x5c {
            if j + 1 >= len || line_terminator_at(src, j + 1) > 0 {
                return Err(LexErrorKind::UnterminatedRegExp);
            }
            j = j + 1 + char_width(src, j + 1);
        } else if b == 0x5b {
            in_class = true;
            j = j + 1;
        } else if b == 0x5d {
            in_class = false;
            j = j + 1;
        } else if b == 0x2f && !in_class {
            // The flags are `IdentifierPartChar`s.
            let mut k = j + 1;
            while k < len && ascii_identifier_part(src[k])
                invariant
                    j < k <= len,
                    src.len() == len,
                    flags_end(src@, j + 1) == flags_end(src@, k as int),
                decreases len - k,
            {
                k = k + 1;
            }
            return Ok(k);
        } else {
            j = j + char_width(src, j);
        }
    }
    Err(LexErrorKind::UnterminatedRegExp)
}

} // verus!
