//! Text as bytes: the source is read as UTF-8 bytes, and every string the
//! assembler makes is first laid out as bytes and then turned into a `String`.

use std::ops::Range;
use vstd::prelude::*;
use vstd::utf8::*;

verus! {

/// `Range::clone` of std: the clone has clones of both bounds.
pub assume_specification<Idx: Clone>[ <Range<Idx> as Clone>::clone ](r: &Range<Idx>) -> (res: Range<
    Idx,
>)
    ensures
        cloned(r.start, res.start),
        cloned(r.end, res.end),
;

/// What `String::from_utf8_lossy` makes of bytes that are not valid UTF-8.
pub uninterp spec fn lossy_text(bytes: Seq<u8>) -> Seq<char>;

/// The characters that a run of bytes stands for.
pub open spec fn text_of(bytes: Seq<u8>) -> Seq<char> {
    if valid_utf8(bytes) {
        decode_utf8(bytes)
    } else {
        lossy_text(bytes)
    }
}

/// `String::from_utf8_lossy` of std: valid UTF-8 is decoded as it stands, and
/// anything else is replaced as std documents it, which `lossy_text` names.
#[verifier::external_body]
pub(crate) fn text_from_bytes(bytes: &[u8]) -> (text: String)
    ensures
        valid_utf8(bytes@) ==> text@ == decode_utf8(bytes@),
        !valid_utf8(bytes@) ==> text@ == lossy_text(bytes@),
{
    String::from_utf8_lossy(bytes).into_owned()
}

/// Every byte is an ASCII character.
pub open spec fn is_ascii_bytes(bytes: Seq<u8>) -> bool {
    forall|i: int| 0 <= i < bytes.len() ==> #[trigger] bytes[i] < 0x80
}

/// The characters of ASCII bytes, one for one.
pub open spec fn ascii_text(bytes: Seq<u8>) -> Seq<char> {
    Seq::new(bytes.len(), |i: int| bytes[i] as char)
}

/// ASCII bytes are valid UTF-8 and decode byte by byte.
pub proof fn lemma_ascii_text(bytes: Seq<u8>)
    requires
        is_ascii_bytes(bytes),
    ensures
        valid_utf8(bytes),
        text_of(bytes) == ascii_text(bytes),
{
    let chars = ascii_text(bytes);
    assert(is_ascii_chars(chars)) by {
        assert forall|i: int| 0 <= i < chars.len() implies '\0' <= #[trigger] chars[i]
            <= '\u{7f}' by {
            assert(bytes[i] < 0x80);
        }
    }
    is_ascii_chars_encode_utf8(chars);
    assert(encode_utf8(chars) =~= bytes) by {
        assert forall|i: int| 0 <= i < bytes.len() implies encode_utf8(chars)[i] == bytes[i] by {
            assert(chars[i] as u8 == encode_utf8(chars)[i]);
            assert(bytes[i] < 0x80);
        }
    }
    encode_utf8_valid_utf8(chars);
    encode_utf8_decode_utf8(chars);
}

/// Concatenating ASCII bytes concatenates their characters.
pub proof fn lemma_ascii_text_concat(a: Seq<u8>, b: Seq<u8>)
    ensures
        ascii_text(a + b) == ascii_text(a) + ascii_text(b),
        is_ascii_bytes(a) && is_ascii_bytes(b) ==> is_ascii_bytes(a + b),
{
    assert(ascii_text(a + b) =~= ascii_text(a) + ascii_text(b));
    if is_ascii_bytes(a) && is_ascii_bytes(b) {
        assert forall|i: int| 0 <= i < (a + b).len() implies #[trigger] (a + b)[i] < 0x80 by {
            if i < a.len() {
                assert(a[i] < 0x80);
            } else {
                assert(b[i - a.len()] < 0x80);
            }
        }
    }
}

/// Turns ASCII bytes into the `String` that spells them.
pub(crate) fn ascii_string(bytes: &[u8]) -> (text: String)
    requires
        is_ascii_bytes(bytes@),
    ensures
        text@ == ascii_text(bytes@),
{
    proof {
        lemma_ascii_text(bytes@);
    }
    text_from_bytes(bytes)
}

/// The lower-case form of an ASCII letter; any other byte is itself.
pub open spec fn lower(b: u8) -> u8 {
    if 0x41 <= b <= 0x5a {
        (b + 0x20) as u8
    } else {
        b
    }
}

pub(crate) fn to_lower(b: u8) -> (l: u8)
    ensures
        l == lower(b),
{
    if 0x41 <= b && b <= 0x5a {
        b + 0x20
    } else {
        b
    }
}

/// The ASCII digit for a value below ten.
pub open spec fn decimal_digit(d: int) -> u8 {
    (0x30 + d) as u8
}

/// The decimal numeral of a number, without padding.
pub open spec fn decimal_bytes(n: nat) -> Seq<u8>
    decreases n,
{
    if n < 10 {
        seq![decimal_digit(n as int)]
    } else {
        decimal_bytes(n / 10).push(decimal_digit((n % 10) as int))
    }
}

pub proof fn lemma_decimal_bytes_ascii(n: nat)
    ensures
        is_ascii_bytes(decimal_bytes(n)),
        decimal_bytes(n).len() >= 1,
    decreases n,
{
    if n >= 10 {
        lemma_decimal_bytes_ascii(n / 10);
    }
}

/// Appends the decimal numeral of `n`.
pub(crate) fn push_decimal(out: &mut Vec<u8>, n: u64)
    ensures
        final(out)@ == old(out)@ + decimal_bytes(n as nat),
    decreases n,
{
    if n < 10 {
        out.push(0x30 + n as u8);
        assert(final(out)@ =~= old(out)@ + decimal_bytes(n as nat));
    } else {
        push_decimal(out, n / 10);
        out.push(0x30 + (n % 10) as u8);
        assert(out@ =~= old(out)@ + decimal_bytes(n as nat));
    }
}

/// The numeral of a signed number: a minus sign before a negative one.
pub open spec fn signed_decimal_bytes(n: int) -> Seq<u8> {
    if n < 0 {
        seq![0x2du8] + decimal_bytes((-n) as nat)
    } else {
        decimal_bytes(n as nat)
    }
}

/// Appends the numeral of a signed number.
pub(crate) fn push_signed_decimal(out: &mut Vec<u8>, n: i64)
    requires
        n > i64::MIN,
    ensures
        final(out)@ == old(out)@ + signed_decimal_bytes(n as int),
{
    if n < 0 {
        out.push(0x2d);
        push_decimal(out, (-n) as u64);
        assert(out@ =~= old(out)@ + signed_decimal_bytes(n as int));
    } else {
        push_decimal(out, n as u64);
    }
}

/// The lower-case hexadecimal digit for a value below sixteen.
pub open spec fn hex_digit(d: int) -> u8 {
    if d < 10 {
        (0x30 + d) as u8
    } else {
        (0x61 + d - 10) as u8
    }
}

/// The lower-case hexadecimal numeral of `n`, padded with zeros to at least
/// `width` digits.
pub open spec fn hex_bytes(n: nat, width: nat) -> Seq<u8>
    decreases n + width,
{
    if n < 16 && width <= 1 {
        seq![hex_digit(n as int)]
    } else {
        hex_bytes(n / 16, if width == 0 {
            0
        } else {
            (width - 1) as nat
        }).push(hex_digit((n % 16) as int))
    }
}

pub proof fn lemma_hex_bytes_ascii(n: nat, width: nat)
    ensures
        is_ascii_bytes(hex_bytes(n, width)),
        hex_bytes(n, width).len() >= 1,
        hex_bytes(n, width).len() >= width,
    decreases n + width,
{
    if !(n < 16 && width <= 1) {
        lemma_hex_bytes_ascii(n / 16, if width == 0 {
            0
        } else {
            (width - 1) as nat
        });
    }
}

fn hex_digit_of(d: u8) -> (b: u8)
    requires
        d < 16,
    ensures
        b == hex_digit(d as int),
{
    if d < 10 {
        0x30 + d
    } else {
        0x61 + (d - 10)
    }
}

/// Appends the hexadecimal numeral of `n`, at least `width` digits wide.
pub(crate) fn push_hex(out: &mut Vec<u8>, n: usize, width: usize)
    ensures
        final(out)@ == old(out)@ + hex_bytes(n as nat, width as nat),
    decreases n + width,
{
    if n < 16 && width <= 1 {
        out.push(hex_digit_of(n as u8));
        assert(out@ =~= old(out)@ + hex_bytes(n as nat, width as nat));
    } else {
        let narrower: usize = if width == 0 {
            0
        } else {
            width - 1
        };
        push_hex(out, n / 16, narrower);
        out.push(hex_digit_of((n % 16) as u8));
        assert(out@ =~= old(out)@ + hex_bytes(n as nat, width as nat));
    }
}

/// A copy of the bytes from `start` up to `end`.
pub(crate) fn copy_range(bytes: &[u8], start: usize, end: usize) -> (part: Vec<u8>)
    requires
        start <= end <= bytes.len(),
    ensures
        part@ == bytes@.subrange(start as int, end as int),
{
    let mut part: Vec<u8> = Vec::new();
    let mut i: usize = start;
    while i < end
        invariant
            start <= i <= end <= bytes.len(),
            part@ == bytes@.subrange(start as int, i as int),
        decreases end - i,
    {
        part.push(bytes[i]);
        i += 1;
        assert(part@ =~= bytes@.subrange(start as int, i as int));
    }
    part
}

} // verus!
