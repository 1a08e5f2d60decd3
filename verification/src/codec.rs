use crate::source::available;
use crate::types::{DecodeError, Offset};
use vstd::prelude::*;
use vstd::slice::{slice_subrange, slice_to_vec};
use vstd::utf8::{
    decode_utf8, decode_utf8_encode_utf8, encode_utf8, encode_utf8_decode_utf8,
    encode_utf8_valid_utf8, valid_utf8,
};

verus! {

/// Value of a magnitude stored with its least significant byte first.
pub open spec fn le_value(bytes: Seq<u8>) -> nat
    decreases bytes.len(),
{
    if bytes.len() == 0 {
        0
    } else {
        bytes[0] as nat + 256 * le_value(bytes.drop_first())
    }
}

/// A magnitude is at least the magnitude of any of its upper parts.
pub proof fn le_value_bounds_suffix(bytes: Seq<u8>, k: int)
    requires
        0 <= k <= bytes.len(),
    ensures
        le_value(bytes.subrange(k, bytes.len() as int)) <= le_value(bytes),
    decreases k,
{
    if k == 0 {
        assert(bytes.subrange(0, bytes.len() as int) =~= bytes);
    } else {
        let rest = bytes.drop_first();
        le_value_bounds_suffix(rest, k - 1);
        assert(rest.subrange(k - 1, rest.len() as int) =~= bytes.subrange(k, bytes.len() as int));
    }
}

/// The magnitude stored in the `n` bytes of `data` from `start`, where it
/// fits 64 bits.
pub open spec fn magnitude_at_spec(data: Seq<u8>, start: usize, n: usize) -> Option<u64> {
    let v = le_value(data.subrange(start as int, start + n));
    if v <= u64::MAX {
        Some(v as u64)
    } else {
        None
    }
}

/// Decodes the little-endian magnitude in the `n` bytes of `data` from
/// `start`; `None` where it does not fit 64 bits.
fn magnitude_at(data: &[u8], start: usize, n: usize) -> (r: Option<u64>)
    requires
        start + n <= data@.len(),
    ensures
        r == magnitude_at_spec(data@, start, n),
{
    let ghost field = data@.subrange(start as int, start + n);
    let mut acc: u64 = 0;
    let mut i: usize = n;
    let len: usize = data.len();
    while i > 0
        invariant
            i <= n,
            start + n <= len,
            len == data@.len(),
            field == data@.subrange(start as int, start + n),
            acc == le_value(data@.subrange(start + i, start + n)),
        decreases i,
    {
        i -= 1;
        let b: u8 = data[start + i];
        proof {
            let upper = data@.subrange(start + i, start + n);
            assert(upper.drop_first() =~= data@.subrange(start + i + 1, start + n));
            assert(upper[0] == b);
            assert(field.subrange(i as int, field.len() as int) =~= upper);
            le_value_bounds_suffix(field, i as int);
        }
        if acc > (u64::MAX - b as u64) / 256 {
            return None;
        }
        acc = acc * 256 + b as u64;
    }
    Some(acc)
}

/// The byte of `data` at `pos`.
pub open spec fn byte_at_spec(data: Seq<u8>, pos: usize) -> Result<(u8, usize), DecodeError> {
    if !available(data, pos, 1) {
        Err(DecodeError::Truncated)
    } else {
        Ok((data[pos as int], (pos + 1) as usize))
    }
}

/// Decodes one byte of `data` at `pos`; gives the byte and the position
/// behind it.
pub fn byte_at(data: &[u8], pos: usize) -> (r: Result<(u8, usize), DecodeError>)
    ensures
        r == byte_at_spec(data@, pos),
{
    if pos >= data.len() {
        Err(DecodeError::Truncated)
    } else {
        Ok((data[pos], pos + 1))
    }
}

/// The number that a sign byte and a magnitude stand for: a sign byte other
/// than zero negates the magnitude.
pub open spec fn signed_value(sign: u8, magnitude: nat) -> int {
    if sign != 0 {
        -magnitude
    } else {
        magnitude as int
    }
}

/// The integer of `data` at `pos`: a sign byte, then a magnitude of
/// `int_size` bytes, least significant first. The number that they stand
/// for must be one that an `i64` holds.
pub open spec fn int_at_spec(data: Seq<u8>, pos: usize, int_size: usize) -> Result<
    (i64, usize),
    DecodeError,
> {
    if int_size == 0 {
        Err(DecodeError::ConfigUnset)
    } else if !available(data, pos, int_size + 1) {
        Err(DecodeError::Truncated)
    } else {
        let value = signed_value(
            data[pos as int],
            le_value(data.subrange(pos + 1, pos + 1 + int_size)),
        );
        if value < i64::MIN || value > i64::MAX {
            Err(DecodeError::Overflow)
        } else {
            Ok((value as i64, (pos + 1 + int_size) as usize))
        }
    }
}

/// Decodes the integer of `data` at `pos`; gives the value and the position
/// behind it.
pub fn int_at(data: &[u8], pos: usize, int_size: usize) -> (r: Result<(i64, usize), DecodeError>)
    ensures
        r == int_at_spec(data@, pos, int_size),
{
    if int_size == 0 {
        return Err(DecodeError::ConfigUnset);
    }
    if pos > data.len() || int_size >= data.len() - pos {
        return Err(DecodeError::Truncated);
    }
    let negative = data[pos] != 0;
    match magnitude_at(data, pos + 1, int_size) {
        None => Err(DecodeError::Overflow),
        Some(m) => {
            if m <= 0x7fff_ffff_ffff_ffffu64 {
                if negative {
                    Ok((-(m as i64), pos + 1 + int_size))
                } else {
                    Ok((m as i64, pos + 1 + int_size))
                }
            } else if negative && m == 0x8000_0000_0000_0000u64 {
                Ok((i64::MIN, pos + 1 + int_size))
            } else {
                Err(DecodeError::Overflow)
            }
        },
    }
}

/// The bytes of the string of `data` at `pos`: an integer length, then that
/// many bytes of UTF-8. The length -1 marks a missing value, which reads as
/// the empty string; any other negative length is invalid.
pub open spec fn text_at_spec(data: Seq<u8>, pos: usize, int_size: usize) -> Result<
    (Seq<u8>, usize),
    DecodeError,
> {
    match int_at_spec(data, pos, int_size) {
        Err(e) => Err(e),
        Ok((len, body)) => {
            if len == -1 {
                Ok((Seq::empty(), body))
            } else if len < 0 {
                Err(DecodeError::InvalidLength)
            } else if !available(data, body, len as int) {
                Err(DecodeError::Truncated)
            } else if !valid_utf8(data.subrange(body as int, body + len)) {
                Err(DecodeError::InvalidEncoding)
            } else {
                Ok((data.subrange(body as int, body + len), (body + len) as usize))
            }
        },
    }
}

/// The string of `data` at `pos`, as characters.
pub open spec fn string_at_spec(data: Seq<u8>, pos: usize, int_size: usize) -> Result<
    (Seq<char>, usize),
    DecodeError,
> {
    match text_at_spec(data, pos, int_size) {
        Err(e) => Err(e),
        Ok((bytes, next)) => Ok((decode_utf8(bytes), next)),
    }
}

/// Turns bytes into a string with `String::from_utf8` of the standard
/// library, which accepts exactly the valid UTF-8 sequences and gives the
/// characters that they encode.
#[verifier::external_body]
fn utf8_string(bytes: Vec<u8>) -> (r: Option<String>)
    ensures
        r is Some == valid_utf8(bytes@),
        r matches Some(s) ==> s@ == decode_utf8(bytes@),
{
    String::from_utf8(bytes).ok()
}

/// Decodes the string of `data` at `pos`; gives the string and the position
/// behind it.
pub fn string_at(data: &[u8], pos: usize, int_size: usize) -> (r: Result<
    (String, usize),
    DecodeError,
>)
    ensures
        match string_at_spec(data@, pos, int_size) {
            Ok((chars, next)) => r is Ok && r->Ok_0.0@ == chars && r->Ok_0.1 == next
                && text_at_spec(data@, pos, int_size)->Ok_0.0 == encode_utf8(r->Ok_0.0@),
            Err(e) => r is Err && r->Err_0 == e,
        },
{
    let (len, body) = match int_at(data, pos, int_size) {
        Err(e) => { return Err(e); },
        Ok(v) => v,
    };
    if len == -1 {
        let s = String::new();
        proof {
            assert(decode_utf8(Seq::<u8>::empty()) =~= Seq::<char>::empty());
            assert(encode_utf8(Seq::<char>::empty()) =~= Seq::<u8>::empty());
        }
        return Ok((s, body));
    }
    if len < 0 {
        return Err(DecodeError::InvalidLength);
    }
    if len as u64 > (data.len() - body) as u64 {
        return Err(DecodeError::Truncated);
    }
    let n: usize = len as usize;
    let bytes = slice_to_vec(slice_subrange(data, body, body + n));
    match utf8_string(bytes) {
        None => Err(DecodeError::InvalidEncoding),
        Some(s) => {
            proof {
                decode_utf8_encode_utf8(data@.subrange(body as int, body + n));
            }
            Ok((s, body + n))
        },
    }
}

/// The byte is an ASCII digit.
pub open spec fn is_digit(b: u8) -> bool {
    48 <= b <= 57
}

/// The number that a digit stands for; zero for any other byte.
pub open spec fn digit_value(b: u8) -> nat {
    if is_digit(b) {
        (b - 48) as nat
    } else {
        0
    }
}

/// Value of a sequence of decimal digits, most significant first.
pub open spec fn digits_value(s: Seq<u8>) -> nat
    decreases s.len(),
{
    if s.len() == 0 {
        0
    } else {
        10 * digits_value(s.drop_last()) + digit_value(s.last())
    }
}

/// Every byte is an ASCII digit.
pub open spec fn all_digits(s: Seq<u8>) -> bool {
    forall|i: int| 0 <= i < s.len() ==> is_digit(#[trigger] s[i])
}

/// The text without one leading plus sign.
pub open spec fn unsigned_part(s: Seq<u8>) -> Seq<u8> {
    if s.len() > 0 && s[0] == 43 {
        s.drop_first()
    } else {
        s
    }
}

/// The number that a decimal text stands for: an optional plus sign, then
/// at least one digit and nothing else, with a value of at most `max`.
pub open spec fn decimal_value(s: Seq<u8>, max: u64) -> Option<u64> {
    let digits = unsigned_part(s);
    if digits.len() > 0 && all_digits(digits) && digits_value(digits) <= max {
        Some(digits_value(digits) as u64)
    } else {
        None
    }
}

/// The value of a digit sequence is at least the value of any of its
/// prefixes.
pub proof fn digits_value_bounds_prefix(s: Seq<u8>, k: int)
    requires
        0 <= k <= s.len(),
    ensures
        digits_value(s.subrange(0, k)) <= digits_value(s),
    decreases s.len() - k,
{
    if k == s.len() {
        assert(s.subrange(0, k) =~= s);
    } else {
        digits_value_bounds_prefix(s.drop_last(), k);
        assert(s.drop_last().subrange(0, k) =~= s.subrange(0, k));
    }
}

/// Parses a decimal text; `None` where it is no number or exceeds `max`.
pub fn parse_decimal(text: &[u8], max: u64) -> (r: Option<u64>)
    ensures
        r == decimal_value(text@, max),
{
    let mut i: usize = 0;
    if text.len() > 0 && text[0] == 43 {
        i = 1;
    }
    let start: usize = i;
    let ghost digits = unsigned_part(text@);
    assert(digits =~= text@.subrange(start as int, text@.len() as int));
    if i == text.len() {
        return None;
    }
    let mut acc: u64 = 0;
    while i < text.len()
        invariant
            start <= i <= text@.len(),
            digits == unsigned_part(text@),
            digits == text@.subrange(start as int, text@.len() as int),
            all_digits(digits.subrange(0, i - start)),
            acc == digits_value(digits.subrange(0, i - start)),
            acc <= max,
        decreases text@.len() - i,
    {
        let b: u8 = text[i];
        assert(digits[i - start] == b);
        if b < 48 || b > 57 {
            return None;
        }
        let d: u64 = (b - 48) as u64;
        proof {
            let upto = digits.subrange(0, i - start + 1);
            assert(upto.drop_last() =~= digits.subrange(0, i - start));
            assert(upto.last() == b);
            digits_value_bounds_prefix(digits, i - start + 1);
            assert forall|j: int| 0 <= j < upto.len() implies is_digit(#[trigger] upto[j]) by {
                if j < i - start {
                    assert(digits.subrange(0, i - start)[j] == upto[j]);
                }
            }
        }
        if d > max || acc > (max - d) / 10 {
            return None;
        }
        acc = acc * 10 + d;
        i += 1;
    }
    proof {
        assert(digits.subrange(0, i - start) =~= digits);
    }
    Some(acc)
}

/// The numeric field of `data` at `pos`: a string that holds a decimal
/// number of at most `max`.
pub open spec fn number_at_spec(data: Seq<u8>, pos: usize, int_size: usize, max: u64) -> Result<
    (u64, usize),
    DecodeError,
> {
    match text_at_spec(data, pos, int_size) {
        Err(e) => Err(e),
        Ok((bytes, next)) => match decimal_value(bytes, max) {
            None => Err(DecodeError::InvalidId),
            Some(v) => Ok((v, next)),
        },
    }
}

/// Decodes the numeric field of `data` at `pos`; gives the number and the
/// position behind the field.
pub fn number_at(data: &[u8], pos: usize, int_size: usize, max: u64) -> (r: Result<
    (u64, usize),
    DecodeError,
>)
    ensures
        r == number_at_spec(data@, pos, int_size, max),
{
    match string_at(data, pos, int_size) {
        Err(e) => Err(e),
        Ok((s, next)) => match parse_decimal(s.as_str().as_bytes(), max) {
            None => Err(DecodeError::InvalidId),
            Some(v) => Ok((v, next)),
        },
    }
}

/// The offset of `data` at `pos`: a tag byte, then a magnitude of
/// `offset_size` bytes that is always present and counts only for the tag 2.
pub open spec fn offset_at_spec(data: Seq<u8>, pos: usize, offset_size: usize) -> Result<
    (Offset, usize),
    DecodeError,
> {
    if offset_size == 0 {
        Err(DecodeError::ConfigUnset)
    } else if !available(data, pos, offset_size + 1) {
        Err(DecodeError::Truncated)
    } else {
        let next = (pos + 1 + offset_size) as usize;
        let tag = data[pos as int];
        if tag == 0 {
            Ok((Offset::Unknown, next))
        } else if tag == 1 {
            Ok((Offset::PosNotSet, next))
        } else if tag == 2 {
            let magnitude = le_value(data.subrange(pos + 1, pos + 1 + offset_size));
            if magnitude > u64::MAX {
                Err(DecodeError::Overflow)
            } else {
                Ok((Offset::PosSet(magnitude as u64), next))
            }
        } else if tag == 3 {
            Ok((Offset::NoData, next))
        } else {
            Err(DecodeError::InvalidTag)
        }
    }
}

/// Decodes the offset of `data` at `pos`; gives the offset and the position
/// behind it.
pub fn offset_at(data: &[u8], pos: usize, offset_size: usize) -> (r: Result<
    (Offset, usize),
    DecodeError,
>)
    ensures
        r == offset_at_spec(data@, pos, offset_size),
{
    if offset_size == 0 {
        return Err(DecodeError::ConfigUnset);
    }
    if pos > data.len() || offset_size >= data.len() - pos {
        return Err(DecodeError::Truncated);
    }
    let next: usize = pos + 1 + offset_size;
    let tag: u8 = data[pos];
    if tag == 0 {
        Ok((Offset::Unknown, next))
    } else if tag == 1 {
        Ok((Offset::PosNotSet, next))
    } else if tag == 2 {
        match magnitude_at(data, pos + 1, offset_size) {
            None => Err(DecodeError::Overflow),
            Some(m) => Ok((Offset::PosSet(m), next)),
        }
    } else if tag == 3 {
        Ok((Offset::NoData, next))
    } else {
        Err(DecodeError::InvalidTag)
    }
}

/// 256 to the power `n`: the number of magnitudes that `n` bytes can hold.
pub open spec fn pow256(n: nat) -> nat
    decreases n,
{
    if n == 0 {
        1
    } else {
        256 * pow256((n - 1) as nat)
    }
}

/// The `width` bytes that store a magnitude, least significant first.
pub open spec fn le_bytes(value: nat, width: nat) -> Seq<u8>
    decreases width,
{
    if width == 0 {
        Seq::empty()
    } else {
        seq![(value % 256) as u8] + le_bytes(value / 256, (width - 1) as nat)
    }
}

/// The bytes that store an integer: a sign byte and the magnitude.
pub open spec fn int_bytes(sign: u8, magnitude: nat, int_size: usize) -> Seq<u8> {
    seq![sign] + le_bytes(magnitude, int_size as nat)
}

/// The bytes that store an offset: a tag byte and the magnitude.
pub open spec fn offset_bytes(tag: u8, magnitude: nat, offset_size: usize) -> Seq<u8> {
    seq![tag] + le_bytes(magnitude, offset_size as nat)
}

/// A magnitude that fits its width is read back from the bytes that store
/// it.
pub proof fn le_value_of_le_bytes(value: nat, width: nat)
    requires
        value < pow256(width),
    ensures
        le_bytes(value, width).len() == width,
        le_value(le_bytes(value, width)) == value,
    decreases width,
{
    if width > 0 {
        let rest = le_bytes(value / 256, (width - 1) as nat);
        le_value_of_le_bytes(value / 256, (width - 1) as nat);
        let all = le_bytes(value, width);
        assert(all.drop_first() =~= rest);
        assert(all[0] == (value % 256) as u8);
    }
}

/// Decoding an integer that was stored with a sign byte and a magnitude
/// gives the magnitude back, negated where the sign byte is not zero. The
/// magnitude must fit the width, and the number must be one that an `i64`
/// holds; the magnitude zero reads as zero whatever the sign byte is.
pub proof fn int_round_trip(
    data: Seq<u8>,
    pos: usize,
    int_size: usize,
    sign: u8,
    magnitude: nat,
)
    requires
        int_size > 0,
        magnitude < pow256(int_size as nat),
        i64::MIN <= signed_value(sign, magnitude) <= i64::MAX,
        available(data, pos, int_size + 1),
        data.subrange(pos as int, pos + 1 + int_size) == int_bytes(sign, magnitude, int_size),
    ensures
        int_at_spec(data, pos, int_size) == Ok::<(i64, usize), DecodeError>(
            (signed_value(sign, magnitude) as i64, (pos + 1 + int_size) as usize),
        ),
        magnitude == 0 ==> int_at_spec(data, pos, int_size)->Ok_0.0 == 0,
{
    le_value_of_le_bytes(magnitude, int_size as nat);
    let stored = data.subrange(pos as int, pos + 1 + int_size);
    assert(stored[0] == sign);
    assert(stored[0] == data[pos as int]);
    assert(data.subrange(pos + 1, pos + 1 + int_size) =~= stored.subrange(1, 1 + int_size));
    assert(stored.subrange(1, 1 + int_size) =~= le_bytes(magnitude, int_size as nat));
}

/// A string whose length reads as -1 is the empty string and ends where its
/// length ends; one whose length reads as -2, or as any other negative
/// number but -1, is rejected.
pub proof fn string_length_markers(data: Seq<u8>, pos: usize, int_size: usize)
    ensures
        match int_at_spec(data, pos, int_size) {
            Ok((len, body)) => {
                &&& len == -1 ==> string_at_spec(data, pos, int_size) == Ok::<
                    (Seq<char>, usize),
                    DecodeError,
                >((Seq::empty(), body))
                &&& len < -1 ==> string_at_spec(data, pos, int_size) == Err::<
                    (Seq<char>, usize),
                    DecodeError,
                >(DecodeError::InvalidLength)
            },
            Err(e) => string_at_spec(data, pos, int_size) == Err::<(Seq<char>, usize), DecodeError>(
                e,
            ),
        },
{
    assert(decode_utf8(Seq::<u8>::empty()) =~= Seq::<char>::empty());
}

/// Decoding an offset takes one byte more than the width of offsets,
/// whatever the tag is. The tags 0, 1 and 3 ignore the magnitude; the tag 2
/// gives it back. The magnitude must fit the width and 64 bits.
pub proof fn offset_round_trip(
    data: Seq<u8>,
    pos: usize,
    offset_size: usize,
    tag: u8,
    magnitude: nat,
)
    requires
        offset_size > 0,
        tag <= 3,
        magnitude < pow256(offset_size as nat),
        magnitude <= u64::MAX,
        available(data, pos, offset_size + 1),
        data.subrange(pos as int, pos + 1 + offset_size) == offset_bytes(
            tag,
            magnitude,
            offset_size,
        ),
    ensures
        offset_at_spec(data, pos, offset_size) == Ok::<(Offset, usize), DecodeError>(
            (
                if tag == 0 {
                    Offset::Unknown
                } else if tag == 1 {
                    Offset::PosNotSet
                } else if tag == 2 {
                    Offset::PosSet(magnitude as u64)
                } else {
                    Offset::NoData
                },
                (pos + 1 + offset_size) as usize,
            ),
        ),
{
    le_value_of_le_bytes(magnitude, offset_size as nat);
    let stored = data.subrange(pos as int, pos + 1 + offset_size);
    assert(stored[0] == tag);
    assert(stored[0] == data[pos as int]);
    assert(data.subrange(pos + 1, pos + 1 + offset_size) =~= stored.subrange(1, 1 + offset_size));
    assert(stored.subrange(1, 1 + offset_size) =~= le_bytes(magnitude, offset_size as nat));
}

/// With a tag other than 2, an offset is decoded whatever its magnitude
/// bytes hold, and ends one byte and the width of offsets behind its start.
pub proof fn offset_ignores_magnitude(data: Seq<u8>, pos: usize, offset_size: usize)
    requires
        offset_size > 0,
        available(data, pos, offset_size + 1),
        data[pos as int] == 0 || data[pos as int] == 1 || data[pos as int] == 3,
    ensures
        offset_at_spec(data, pos, offset_size) == Ok::<(Offset, usize), DecodeError>(
            (
                if data[pos as int] == 0 {
                    Offset::Unknown
                } else if data[pos as int] == 1 {
                    Offset::PosNotSet
                } else {
                    Offset::NoData
                },
                (pos + 1 + offset_size) as usize,
            ),
        ),
{
}

/// Nothing that is stored with a width can be decoded while the width is
/// zero: every such decoder fails with `ConfigUnset`, whatever the bytes
/// are.
pub proof fn unset_width_is_rejected(data: Seq<u8>, pos: usize, max: u64)
    ensures
        int_at_spec(data, pos, 0) == Err::<(i64, usize), DecodeError>(DecodeError::ConfigUnset),
        text_at_spec(data, pos, 0) == Err::<(Seq<u8>, usize), DecodeError>(
            DecodeError::ConfigUnset,
        ),
        string_at_spec(data, pos, 0) == Err::<(Seq<char>, usize), DecodeError>(
            DecodeError::ConfigUnset,
        ),
        number_at_spec(data, pos, 0, max) == Err::<(u64, usize), DecodeError>(
            DecodeError::ConfigUnset,
        ),
        offset_at_spec(data, pos, 0) == Err::<(Offset, usize), DecodeError>(
            DecodeError::ConfigUnset,
        ),
{
}

/// The magnitude of an integer.
pub open spec fn magnitude_of(value: i64) -> nat {
    if value < 0 {
        (-value) as nat
    } else {
        value as nat
    }
}

/// The integer can be stored with a magnitude of `int_size` bytes and read
/// back.
pub open spec fn fits(value: i64, int_size: usize) -> bool {
    int_size > 0 && magnitude_of(value) < pow256(int_size as nat)
}

/// The bytes that store an integer, with the sign byte 1 for a negative one.
pub open spec fn stored_int(value: i64, int_size: usize) -> Seq<u8> {
    int_bytes(
        if value < 0 {
            1u8
        } else {
            0u8
        },
        magnitude_of(value),
        int_size,
    )
}

/// The bytes that store a string: its length in bytes, then its UTF-8.
pub open spec fn stored_string(s: Seq<char>, int_size: usize) -> Seq<u8> {
    stored_int(encode_utf8(s).len() as i64, int_size) + encode_utf8(s)
}

/// The string can be stored with lengths of `int_size` bytes.
pub open spec fn string_fits(s: Seq<char>, int_size: usize) -> bool {
    encode_utf8(s).len() <= i64::MAX && fits(encode_utf8(s).len() as i64, int_size)
}

/// Every width but zero can hold the magnitudes under 256.
pub proof fn pow256_is_large(n: nat)
    ensures
        pow256(n) >= 1,
        n >= 1 ==> pow256(n) >= 256,
    decreases n,
{
    if n > 0 {
        pow256_is_large((n - 1) as nat);
    }
}

/// Where `data` holds two pieces in a row from `pos`, it holds the first at
/// `pos` and the second behind it.
pub proof fn stored_pieces(data: Seq<u8>, pos: int, first: Seq<u8>, second: Seq<u8>)
    requires
        0 <= pos,
        pos + first.len() + second.len() <= data.len(),
        data.subrange(pos, pos + first.len() + second.len()) == first + second,
    ensures
        data.subrange(pos, pos + first.len()) == first,
        data.subrange(pos + first.len(), pos + first.len() + second.len()) == second,
{
    let both = data.subrange(pos, pos + first.len() + second.len());
    assert forall|i: int| 0 <= i < first.len() implies data[pos + i] == first[i] by {
        assert(both[i] == data[pos + i]);
        assert((first + second)[i] == first[i]);
    }
    assert forall|i: int| 0 <= i < second.len() implies data[pos + first.len() + i] == second[i] by {
        assert(both[first.len() + i] == data[pos + first.len() + i]);
        assert((first + second)[first.len() + i] == second[i]);
    }
    assert(data.subrange(pos, pos + first.len()) =~= first);
    assert(data.subrange(pos + first.len(), pos + first.len() + second.len()) =~= second);
}

/// An integer that fits its width is read back from the bytes that store
/// it.
pub proof fn stored_int_is_read_back(data: Seq<u8>, pos: usize, int_size: usize, value: i64)
    requires
        fits(value, int_size),
        pos + 1 + int_size <= data.len() <= usize::MAX,
        data.subrange(pos as int, pos + 1 + int_size) == stored_int(value, int_size),
    ensures
        stored_int(value, int_size).len() == 1 + int_size,
        int_at_spec(data, pos, int_size) == Ok::<(i64, usize), DecodeError>(
            (value, (pos + 1 + int_size) as usize),
        ),
{
    le_value_of_le_bytes(magnitude_of(value), int_size as nat);
    int_round_trip(
        data,
        pos,
        int_size,
        if value < 0 {
            1u8
        } else {
            0u8
        },
        magnitude_of(value),
    );
}

/// A string that fits the width of its length is read back from the bytes
/// that store it.
pub proof fn stored_string_is_read_back(data: Seq<u8>, pos: usize, int_size: usize, s: Seq<char>)
    requires
        string_fits(s, int_size),
        pos + stored_string(s, int_size).len() <= data.len() <= usize::MAX,
        data.subrange(pos as int, pos + stored_string(s, int_size).len()) == stored_string(
            s,
            int_size,
        ),
    ensures
        stored_string(s, int_size).len() == 1 + int_size + encode_utf8(s).len(),
        string_at_spec(data, pos, int_size) == Ok::<(Seq<char>, usize), DecodeError>(
            (s, (pos + stored_string(s, int_size).len()) as usize),
        ),
{
    let body = encode_utf8(s);
    let len = body.len() as i64;
    le_value_of_le_bytes(magnitude_of(len), int_size as nat);
    assert(stored_int(len, int_size).len() == 1 + int_size);
    stored_pieces(data, pos as int, stored_int(len, int_size), body);
    stored_int_is_read_back(data, pos, int_size, len);
    encode_utf8_valid_utf8(s);
    encode_utf8_decode_utf8(s);
}

} // verus!
