//! What a single byte or code point is, as far as the lexical grammar cares.

use vstd::prelude::*;

verus! {

/// `0`–`9`.
pub open spec fn is_decimal_digit(b: u8) -> bool {
    0x30 <= b <= 0x39
}

/// An ASCII letter of either case.
pub open spec fn is_ascii_letter(b: u8) -> bool {
    (0x41 <= b <= 0x5a) || (0x61 <= b <= 0x7a)
}

/// The ASCII characters that may begin an `IdentifierName`: letters, `$` and `_`.
pub open spec fn is_ascii_identifier_start(b: u8) -> bool {
    is_ascii_letter(b) || b == 0x24 || b == 0x5f
}

/// The ASCII characters that may continue an `IdentifierName`.
pub open spec fn is_ascii_identifier_part(b: u8) -> bool {
    is_ascii_identifier_start(b) || is_decimal_digit(b)
}

/// The value of `b` as a digit in `radix`, if it is one.
pub open spec fn digit_value_of(b: u8, radix: u32) -> Option<u32> {
    let v: int = if is_decimal_digit(b) {
        b - 0x30
    } else if 0x61 <= b <= 0x7a {
        b - 0x61 + 10
    } else if 0x41 <= b <= 0x5a {
        b - 0x41 + 10
    } else {
        99
    };
    if v < radix {
        Some(v as u32)
    } else {
        None
    }
}

/// §12.3: the code points that end a line.
pub open spec fn is_line_terminator(cp: u32) -> bool {
    cp == 0x0a || cp == 0x0d || cp == 0x2028 || cp == 0x2029
}

/// §12.2: the code points that separate tokens without ending a line.
pub open spec fn is_whitespace(cp: u32) -> bool {
    cp == 0x09 || cp == 0x0b || cp == 0x0c || cp == 0x20 || cp == 0xa0 || cp == 0xfeff || cp
        == 0x1680 || (0x2000 <= cp <= 0x200a) || cp == 0x202f || cp == 0x205f || cp == 0x3000
}

/// The code points that may begin an `IdentifierName` (§12.7).
///
/// Outside ASCII every code point that is neither white space nor a line terminator is taken
/// to be a letter; the Unicode `ID_Start` table is not carried.
pub open spec fn is_identifier_start(cp: u32) -> bool {
    if cp < 0x80 {
        is_ascii_identifier_start(cp as u8)
    } else {
        !is_whitespace(cp) && !is_line_terminator(cp) && cp != 0x200c && cp != 0x200d
    }
}

/// The code points that may continue an `IdentifierName` (§12.7), the joiners included.
pub open spec fn is_identifier_part(cp: u32) -> bool {
    if cp < 0x80 {
        is_ascii_identifier_part(cp as u8)
    } else {
        !is_whitespace(cp) && !is_line_terminator(cp)
    }
}

/// Whether `b` is a decimal digit.
pub fn decimal_digit(b: u8) -> (r: bool)
    ensures
        r == is_decimal_digit(b),
{
    0x30 <= b && b <= 0x39
}

/// Whether `b` may begin an ASCII identifier.
pub fn ascii_identifier_start(b: u8) -> (r: bool)
    ensures
        r == is_ascii_identifier_start(b),
{
    (0x41 <= b && b <= 0x5a) || (0x61 <= b && b <= 0x7a) || b == 0x24 || b == 0x5f
}

/// Whether `b` may continue an ASCII identifier.
pub fn ascii_identifier_part(b: u8) -> (r: bool)
    ensures
        r == is_ascii_identifier_part(b),
{
    ascii_identifier_start(b) || decimal_digit(b)
}

/// The value of `b` as a digit in `radix`.
pub fn digit_value(b: u8, radix: u32) -> (r: Option<u32>)
    ensures
        r == digit_value_of(b, radix),
{
    let v: u32 = if 0x30 <= b && b <= 0x39 {
        (b - 0x30) as u32
    } else if 0x61 <= b && b <= 0x7a {
        (b - 0x61) as u32 + 10
    } else if 0x41 <= b && b <= 0x5a {
        (b - 0x41) as u32 + 10
    } else {
        99
    };
    if v < radix {
        Some(v)
    } else {
        None
    }
}

/// Whether `cp` ends a line.
pub fn line_terminator(cp: u32) -> (r: bool)
    ensures
        r == is_line_terminator(cp),
{
    cp == 0x0a || cp == 0x0d || cp == 0x2028 || cp == 0x2029
}

/// Whether `cp` is white space.
pub fn whitespace(cp: u32) -> (r: bool)
    ensures
        r == is_whitespace(cp),
{
    cp == 0x09 || cp == 0x0b || cp == 0x0c || cp == 0x20 || cp == 0xa0 || cp == 0xfeff || cp
        == 0x1680 || (0x2000 <= cp && cp <= 0x200a) || cp == 0x202f || cp == 0x205f || cp
        == 0x3000
}

/// Whether `cp` may begin an identifier.
pub fn identifier_start(cp: u32) -> (r: bool)
    ensures
        r == is_identifier_start(cp),
{
    if cp < 0x80 {
        ascii_identifier_start(cp as u8)
    } else {
        !whitespace(cp) && !line_terminator(cp) && cp != 0x200c && cp != 0x200d
    }
}

/// Whether `cp` may continue an identifier.
pub fn identifier_part(cp: u32) -> (r: bool)
    ensures
        r == is_identifier_part(cp),
{
    if cp < 0x80 {
        ascii_identifier_part(cp as u8)
    } else {
        !whitespace(cp) && !line_terminator(cp)
    }
}

/// How many bytes the UTF-8 sequence led by `b` takes: one for ASCII, two to four for a lead
/// byte, and none for a byte that cannot begin a sequence of a scalar value.
pub open spec fn utf8_lead_width(b: u8) -> int {
    if b < 0x80 {
        1
    } else if 0xc2 <= b <= 0xdf {
        2
    } else if 0xe0 <= b <= 0xef {
        3
    } else if 0xf0 <= b <= 0xf4 {
        4
    } else {
        0
    }
}

/// The bits of the code point that the lead byte `b` carries.
pub open spec fn utf8_lead_bits(b: u8) -> int {
    if 0xc2 <= b <= 0xdf {
        b - 0xc0
    } else if 0xe0 <= b <= 0xef {
        b - 0xe0
    } else {
        b - 0xf0
    }
}

/// The code point read from the first `k` bytes of the sequence at `i`: six more bits from
/// each continuation byte.
pub open spec fn utf8_bits(src: Seq<u8>, i: int, k: int) -> int
    decreases k,
{
    if k <= 1 {
        utf8_lead_bits(src[i])
    } else {
        utf8_bits(src, i, k - 1) * 64 + (src[i + k - 1] - 0x80)
    }
}

/// The scalar value whose UTF-8 encoding starts at `i` of `src`, and how many bytes it takes;
/// `None` where the bytes there are no shortest encoding of a scalar value.
pub open spec fn utf8_decoded(src: Seq<u8>, i: int) -> Option<(u32, usize)> {
    let b0 = src[i];
    let width = utf8_lead_width(b0);
    if b0 < 0x80 {
        Some((b0 as u32, 1usize))
    } else if width == 0 || i + width > src.len() || exists|k: int|
        1 <= k < width && !(0x80 <= #[trigger] src[i + k] <= 0xbf) {
        None
    } else {
        let cp = utf8_bits(src, i, width);
        let smallest: int = if width == 2 {
            0x80
        } else if width == 3 {
            0x800
        } else {
            0x10000
        };
        if cp < smallest || cp > 0x10ffff || (0xd800 <= cp && cp <= 0xdfff) {
            None
        } else {
            Some((cp as u32, width as usize))
        }
    }
}

/// The code point whose UTF-8 encoding starts at `i`, and how many bytes it takes.
///
/// `None` where the bytes there are not a well-formed encoding of a scalar value.
pub fn decode_at(src: &[u8], i: usize) -> (r: Option<(u32, usize)>)
    requires
        i < src.len(),
    ensures
        r matches Some((cp, width)) ==> 1 <= width <= 4 && i + width <= src.len() && cp
            <= 0x10ffff,
        r matches Some((cp, width)) ==> (width == 1 <==> cp < 0x80),
        r matches Some((cp, width)) ==> (width == 1 ==> cp == src@[i as int]),
        src@[i as int] < 0x80 ==> r == Some((src@[i as int] as u32, 1usize)),
        r == utf8_decoded(src@, i as int),
{
    let b0 = src[i];
    if b0 < 0x80 {
        return Some((b0 as u32, 1));
    }
    let (width, initial): (usize, u32) = if b0 >= 0xc2 && b0 <= 0xdf {
        (2, (b0 - 0xc0) as u32)
    } else if b0 >= 0xe0 && b0 <= 0xef {
        (3, (b0 - 0xe0) as u32)
    } else if b0 >= 0xf0 && b0 <= 0xf4 {
        (4, (b0 - 0xf0) as u32)
    } else {
        return None;
    };
    if width > src.len() - i {
        return None;
    }
    let mut cp: u32 = initial;
    let mut k: usize = 1;
    while k < width
        invariant
            1 <= k <= width <= 4,
            i + width <= src.len(),
            src@[i as int] >= 0x80,
            k == 1 ==> cp < 64,
            k == 2 ==> cp < 4096,
            k == 3 ==> cp < 262144,
            k == 4 ==> cp < 16777216,
            width == utf8_lead_width(src@[i as int]),
            cp == utf8_bits(src@, i as int, k as int),
            forall|t: int| 1 <= t < k ==> 0x80 <= #[trigger] src@[i + t] <= 0xbf,
        decreases width - k,
    {
        let b = src[i + k];
        if b < 0x80 || b > 0xbf {
            proof {
                assert(!(0x80 <= src@[i + k as int] <= 0xbf));
            }
            return None;
        }
        cp = cp * 64 + (b - 0x80) as u32;
        k = k + 1;
    }
    let smallest: u32 = if width == 2 {
        0x80
    } else if width == 3 {
        0x800
    } else {
        0x10000
    };
    if cp < smallest || cp > 0x10ffff || (0xd800 <= cp && cp <= 0xdfff) {
        return None;
    }
    Some((cp, width))
}

} // verus!
