//! Percent-encoding of values in a URL.

use crate::codec::{utf8_lossy, utf8_lossy_spec};
use vstd::prelude::*;
use vstd::utf8::{char_is_scalar, char_u32_cast, encode_scalar, encode_utf8, encode_utf8_decode_utf8, encode_utf8_valid_utf8, is_ascii_chars, is_ascii_chars_encode_utf8};

verus! {

/// A byte that stands for itself.
pub open spec fn is_unreserved(b: u8) -> bool {
    65 <= b <= 90 || 97 <= b <= 122 || 48 <= b <= 57 || b == 45 || b == 46 || b == 95 || b == 126
}

/// The upper-case hexadecimal digit for `d`.
pub open spec fn hex_digit(d: u8) -> u8 {
    if d < 10 {
        (48 + d) as u8
    } else {
        (55 + d) as u8
    }
}

/// One byte, encoded.
pub open spec fn encode_byte(b: u8) -> Seq<u8> {
    if is_unreserved(b) {
        seq![b]
    } else {
        seq![37u8, hex_digit(b / 16), hex_digit(b % 16)]
    }
}

/// Bytes, encoded.
pub open spec fn percent_encode(bytes: Seq<u8>) -> Seq<u8>
    decreases bytes.len(),
{
    if bytes.len() == 0 {
        seq![]
    } else {
        percent_encode(bytes.drop_last()) + encode_byte(bytes.last())
    }
}

/// ASCII bytes as characters.
pub open spec fn ascii_text(bytes: Seq<u8>) -> Seq<char> {
    bytes.map_values(|b: u8| b as char)
}

/// A value, encoded.
pub open spec fn urlencode_spec(value: Seq<char>) -> Seq<char> {
    ascii_text(percent_encode(encode_utf8(value)))
}

/// The value of a hexadecimal digit.
pub open spec fn hex_value(b: u8) -> Option<u8> {
    if 48 <= b <= 57 {
        Some((b - 48) as u8)
    } else if 97 <= b <= 102 {
        Some((b - 87) as u8)
    } else if 65 <= b <= 70 {
        Some((b - 55) as u8)
    } else {
        None
    }
}

/// The byte that two hexadecimal digits write.
pub open spec fn hex_pair_spec(high: u8, low: u8) -> Option<u8> {
    match (hex_value(high), hex_value(low)) {
        (Some(h), Some(l)) => Some((h * 16 + l) as u8),
        _ => None,
    }
}

/// Bytes, decoded: `%` with two hexadecimal digits is a byte, `+` is a space,
/// and everything else, a `%` without its digits too, is itself.
pub open spec fn percent_decode(bytes: Seq<u8>) -> Seq<u8>
    decreases bytes.len(),
{
    if bytes.len() == 0 {
        seq![]
    } else if bytes[0] == 37 && bytes.len() > 2 && hex_pair_spec(bytes[1], bytes[2]) is Some {
        seq![hex_pair_spec(bytes[1], bytes[2])->0] + percent_decode(bytes.skip(3))
    } else if bytes[0] == 43 {
        seq![32u8] + percent_decode(bytes.skip(1))
    } else {
        seq![bytes[0]] + percent_decode(bytes.skip(1))
    }
}

/// A value, decoded.
pub open spec fn urldecode_spec(value: Seq<char>) -> Seq<char> {
    utf8_lossy_spec(percent_decode(encode_utf8(value)))
}

fn hex_char(d: u8) -> (c: char)
    requires
        d < 16,
    ensures
        c == hex_digit(d) as char,
{
    if d < 10 {
        (48 + d) as char
    } else {
        (55 + d) as char
    }
}

/// Encode a value for use in a URL.
pub fn urlencode(value: &str) -> (out: String)
    ensures
        out@ == urlencode_spec(value@),
{
    let bytes = value.as_bytes();
    let mut out = String::new();
    let mut i: usize = 0;
    proof {
        assert(bytes@.take(0) =~= Seq::<u8>::empty());
        assert(out@ =~= ascii_text(percent_encode(bytes@.take(0))));
    }
    while i < bytes.len()
        invariant
            i <= bytes@.len(),
            out@ == ascii_text(percent_encode(bytes@.take(i as int))),
        decreases bytes@.len() - i,
    {
        let b = bytes[i];
        let ghost before = out@;
        proof {
            assert(bytes@.take(i + 1).drop_last() =~= bytes@.take(i as int));
        }
        if (65 <= b && b <= 90) || (97 <= b && b <= 122) || (48 <= b && b <= 57) || b == 45 || b == 46 || b == 95 || b
            == 126 {
            out.push(b as char);
        } else {
            out.push('%');
            out.push(hex_char(b / 16));
            out.push(hex_char(b % 16));
        }
        proof {
            assert(out@ =~= before + ascii_text(encode_byte(b)));
            assert(ascii_text(percent_encode(bytes@.take(i as int)) + encode_byte(b)) =~= ascii_text(
                percent_encode(bytes@.take(i as int)),
            ) + ascii_text(encode_byte(b)));
        }
        i = i + 1;
    }
    proof {
        assert(bytes@.take(i as int) =~= bytes@);
    }
    out
}

fn hex_digit_value(b: u8) -> (r: Option<u8>)
    ensures
        r == hex_value(b),
{
    if 48 <= b && b <= 57 {
        Some(b - 48)
    } else if 97 <= b && b <= 102 {
        Some(b - 87)
    } else if 65 <= b && b <= 70 {
        Some(b - 55)
    } else {
        None
    }
}

/// The byte that two hexadecimal digits write.
pub fn hex_pair(high: u8, low: u8) -> (r: Option<u8>)
    ensures
        r == hex_pair_spec(high, low),
{
    match (hex_digit_value(high), hex_digit_value(low)) {
        (Some(h), Some(l)) => Some(h * 16 + l),
        _ => None,
    }
}

/// Decode a value from a URL. Nothing in it makes this fail: what is not an
/// encoding is kept.
pub fn urldecode(value: &str) -> (text: String)
    ensures
        text@ == urldecode_spec(value@),
{
    let bytes = value.as_bytes();
    let mut out: Vec<u8> = Vec::new();
    let mut i: usize = 0;
    proof {
        assert(bytes@.skip(0) =~= bytes@);
        assert(out@ + percent_decode(bytes@) =~= percent_decode(bytes@));
    }
    while i < bytes.len()
        invariant
            i <= bytes@.len(),
            out@ + percent_decode(bytes@.skip(i as int)) == percent_decode(bytes@),
        decreases bytes@.len() - i,
    {
        let ghost before = out@;
        let ghost rest = bytes@.skip(i as int);
        let b = bytes[i];
        proof {
            assert(rest[0] == b);
            assert(rest.skip(1) =~= bytes@.skip(i + 1));
            if i + 2 < bytes@.len() {
                assert(rest[1] == bytes@[i + 1]);
                assert(rest[2] == bytes@[i + 2]);
                assert(rest.skip(3) =~= bytes@.skip(i + 3));
            }
        }
        let pair = if b == 37 && bytes.len() - i > 2 {
            hex_pair(bytes[i + 1], bytes[i + 2])
        } else {
            None
        };
        match pair {
            Some(byte) => {
                out.push(byte);
                i = i + 3;
                proof {
                    assert(before + (seq![byte] + percent_decode(rest.skip(3))) =~= before.push(byte) + percent_decode(
                        rest.skip(3),
                    ));
                }
            },
            None => {
                let byte = if b == 43 {
                    32
                } else {
                    b
                };
                out.push(byte);
                i = i + 1;
                proof {
                    assert(before + (seq![byte] + percent_decode(rest.skip(1))) =~= before.push(byte) + percent_decode(
                        rest.skip(1),
                    ));
                }
            },
        }
    }
    proof {
        assert(bytes@.skip(i as int) =~= Seq::<u8>::empty());
        assert(out@ + Seq::<u8>::empty() =~= out@);
    }
    utf8_lossy(out.as_slice())
}

proof fn lemma_hex_round(b: u8)
    ensures
        hex_pair_spec(hex_digit(b / 16), hex_digit(b % 16)) == Some(b),
{
}

/// The encoding of `bytes`, first byte first.
proof fn lemma_encode_first(bytes: Seq<u8>)
    requires
        bytes.len() > 0,
    ensures
        percent_encode(bytes) == encode_byte(bytes[0]) + percent_encode(bytes.drop_first()),
    decreases bytes.len(),
{
    if bytes.len() == 1 {
        reveal_with_fuel(percent_encode, 2);
        assert(bytes.drop_last() =~= Seq::<u8>::empty());
        assert(bytes.drop_first() =~= Seq::<u8>::empty());
        assert(percent_encode(bytes) =~= encode_byte(bytes[0]) + percent_encode(bytes.drop_first()));
    } else {
        let init = bytes.drop_last();
        lemma_encode_first(init);
        assert(init.drop_first() =~= bytes.drop_first().drop_last());
        assert(bytes.drop_first().last() == bytes.last());
        assert(percent_encode(bytes) =~= encode_byte(bytes[0]) + percent_encode(bytes.drop_first()));
    }
}

/// Decoding undoes encoding, byte for byte.
pub proof fn law_percent_decode_undoes_percent_encode(bytes: Seq<u8>)
    ensures
        percent_decode(percent_encode(bytes)) == bytes,
    decreases bytes.len(),
{
    if bytes.len() > 0 {
        let b = bytes[0];
        let rest = percent_encode(bytes.drop_first());
        let all = percent_encode(bytes);
        lemma_encode_first(bytes);
        law_percent_decode_undoes_percent_encode(bytes.drop_first());
        if is_unreserved(b) {
            assert(all.skip(1) =~= rest);
            assert(percent_decode(all) == seq![b] + bytes.drop_first());
        } else {
            lemma_hex_round(b);
            assert(all.skip(3) =~= rest);
            assert(percent_decode(all) == seq![b] + bytes.drop_first());
        }
        assert(seq![b] + bytes.drop_first() =~= bytes);
    }
}

/// Every character of an encoded value is unreserved, or belongs to an
/// escape: a percent sign or a hexadecimal digit.
pub proof fn law_encoded_value_is_plain(value: Seq<char>)
    ensures
        forall|i: int|
            0 <= i < urlencode_spec(value).len() ==> is_plain(#[trigger] urlencode_spec(value)[i]),
{
    let bytes = encode_utf8(value);
    lemma_encoded_bytes(bytes);
    assert forall|i: int| 0 <= i < urlencode_spec(value).len() implies is_plain(#[trigger] urlencode_spec(value)[i]) by {
        assert(urlencode_spec(value)[i] == percent_encode(bytes)[i] as char);
    }
}

/// An unreserved character, or a percent sign.
pub open spec fn is_plain(c: char) -> bool {
    'A' <= c <= 'Z' || 'a' <= c <= 'z' || '0' <= c <= '9' || c == '-' || c == '.' || c == '_' || c == '~' || c == '%'
}

proof fn lemma_encoded_bytes(bytes: Seq<u8>)
    ensures
        forall|i: int|
            0 <= i < percent_encode(bytes).len() ==> is_unreserved(#[trigger] percent_encode(bytes)[i]) || percent_encode(
                bytes,
            )[i] == 37,
    decreases bytes.len(),
{
    if bytes.len() > 0 {
        lemma_encoded_bytes(bytes.drop_last());
        let head = percent_encode(bytes.drop_last());
        let tail = encode_byte(bytes.last());
        assert forall|i: int| 0 <= i < percent_encode(bytes).len() implies is_unreserved(
            #[trigger] percent_encode(bytes)[i],
        ) || percent_encode(bytes)[i] == 37 by {
            if i < head.len() {
                assert(percent_encode(bytes)[i] == head[i]);
            } else {
                assert(percent_encode(bytes)[i] == tail[i - head.len()]);
            }
        }
    }
}

/// Decoding undoes encoding, whatever the value is.
pub proof fn law_urldecode_undoes_urlencode(value: Seq<char>)
    ensures
        urldecode_spec(urlencode_spec(value)) == value,
{
    let bytes = encode_utf8(value);
    let encoded = percent_encode(bytes);
    let text = urlencode_spec(value);
    lemma_encoded_bytes(bytes);
    assert(is_ascii_chars(text)) by {
        assert forall|i: int| 0 <= i < text.len() implies '\0' <= #[trigger] text[i] <= '\u{7f}' by {
            assert(text[i] == encoded[i] as char);
        }
    }
    is_ascii_chars_encode_utf8(text);
    assert(encode_utf8(text) =~= encoded) by {
        assert forall|i: int| 0 <= i < encoded.len() implies encode_utf8(text)[i] == encoded[i] by {
            assert(text[i] == encoded[i] as char);
        }
    }
    law_percent_decode_undoes_percent_encode(bytes);
    encode_utf8_valid_utf8(value);
    encode_utf8_decode_utf8(value);
}

proof fn lemma_scalar_bytes(c: char)
    ensures
        forall|i: int|
            0 <= i < encode_scalar(c as u32).len() ==> (#[trigger] encode_scalar(c as u32)[i] < 0x80 ==> encode_scalar(
                c as u32,
            )[i] as u32 == c as u32),
{
    let v = c as u32;
    assert(v <= 0x7f ==> (v & 0x7f) as u8 as u32 == v) by (bit_vector);
    assert((0xC0u8 | ((v >> 6) & 0x1F) as u8) >= 0x80) by (bit_vector);
    assert((0xE0u8 | ((v >> 12) & 0x0F) as u8) >= 0x80) by (bit_vector);
    assert((0xF0u8 | ((v >> 18) & 0x7) as u8) >= 0x80) by (bit_vector);
    assert((0x80u8 | (v & 0x3F) as u8) >= 0x80) by (bit_vector);
    assert((0x80u8 | ((v >> 6) & 0x3F) as u8) >= 0x80) by (bit_vector);
    assert((0x80u8 | ((v >> 12) & 0x3F) as u8) >= 0x80) by (bit_vector);
}

proof fn lemma_no_signs(value: Seq<char>)
    requires
        forall|i: int| 0 <= i < value.len() ==> #[trigger] value[i] != '%' && value[i] != '+',
    ensures
        forall|i: int| 0 <= i < encode_utf8(value).len() ==> #[trigger] encode_utf8(value)[i] != 37 && encode_utf8(value)[i] != 43,
    decreases value.len(),
{
    if value.len() > 0 {
        let rest = value.drop_first();
        let head = encode_scalar(value[0] as u32);
        assert forall|i: int| 0 <= i < rest.len() implies #[trigger] rest[i] != '%' && rest[i] != '+' by {
            assert(rest[i] == value[i + 1]);
        }
        lemma_no_signs(rest);
        lemma_scalar_bytes(value[0]);
        assert forall|i: int| 0 <= i < encode_utf8(value).len() implies #[trigger] encode_utf8(value)[i] != 37 && encode_utf8(
            value,
        )[i] != 43 by {
            if i < head.len() {
                let c = value[0];
                char_is_scalar(c);
                assert(encode_utf8(value)[i] == head[i]);
                assert(head[i] < 0x80 ==> head[i] as u32 == c as u32);
                assert(c != '%' && c != '+');
                char_u32_cast(c, c as u32);
                assert(37u32 as char == '%' && 43u32 as char == '+');
            } else {
                assert(encode_utf8(value)[i] == encode_utf8(rest)[i - head.len()]);
            }
        }
    }
}

/// A value without a percent sign and without a plus sign decodes to itself,
/// whatever else it holds.
pub proof fn law_plain_value_decodes_to_itself(value: Seq<char>)
    requires
        forall|i: int| 0 <= i < value.len() ==> #[trigger] value[i] != '%' && value[i] != '+',
    ensures
        urldecode_spec(value) == value,
{
    lemma_no_signs(value);
    lemma_nothing_to_decode(encode_utf8(value));
    encode_utf8_valid_utf8(value);
    encode_utf8_decode_utf8(value);
}

proof fn lemma_utf8_of_pieces(one: Seq<char>, other: Seq<char>)
    ensures
        encode_utf8(one + other) == encode_utf8(one) + encode_utf8(other),
    decreases one.len(),
{
    if one.len() == 0 {
        assert(one + other =~= other);
        assert(encode_utf8(one) + encode_utf8(other) =~= encode_utf8(other));
    } else {
        lemma_utf8_of_pieces(one.drop_first(), other);
        assert((one + other).drop_first() =~= one.drop_first() + other);
        assert(encode_utf8(one + other) =~= encode_utf8(one) + encode_utf8(other));
    }
}

proof fn lemma_percent_encode_pieces(one: Seq<u8>, other: Seq<u8>)
    ensures
        percent_encode(one + other) == percent_encode(one) + percent_encode(other),
    decreases other.len(),
{
    if other.len() == 0 {
        assert(one + other =~= one);
        assert(percent_encode(one) + percent_encode(other) =~= percent_encode(one));
    } else {
        lemma_percent_encode_pieces(one, other.drop_last());
        assert((one + other).drop_last() =~= one + other.drop_last());
        assert(percent_encode(one + other) =~= percent_encode(one) + percent_encode(other));
    }
}

/// Encoding goes piece by piece.
pub proof fn law_encoding_goes_piece_by_piece(one: Seq<char>, other: Seq<char>)
    ensures
        urlencode_spec(one + other) == urlencode_spec(one) + urlencode_spec(other),
{
    lemma_utf8_of_pieces(one, other);
    lemma_percent_encode_pieces(encode_utf8(one), encode_utf8(other));
    assert(urlencode_spec(one + other) =~= urlencode_spec(one) + urlencode_spec(other));
}

proof fn lemma_encoded_length(bytes: Seq<u8>)
    ensures
        percent_encode(bytes).len() >= bytes.len(),
        (forall|i: int| 0 <= i < bytes.len() ==> is_unreserved(#[trigger] bytes[i])) ==> percent_encode(bytes) == bytes,
        (exists|i: int| 0 <= i < bytes.len() && !is_unreserved(#[trigger] bytes[i])) ==> percent_encode(bytes).len()
            > bytes.len(),
    decreases bytes.len(),
{
    if bytes.len() > 0 {
        let rest = bytes.drop_last();
        lemma_encoded_length(rest);
        assert(bytes[bytes.len() - 1] == bytes.last());
        assert(forall|i: int| 0 <= i < rest.len() ==> rest[i] == bytes[i]);
        if forall|i: int| 0 <= i < bytes.len() ==> is_unreserved(#[trigger] bytes[i]) {
            assert(percent_encode(bytes) =~= bytes);
        }
        if exists|i: int| 0 <= i < bytes.len() && !is_unreserved(#[trigger] bytes[i]) {
            let i = choose|i: int| 0 <= i < bytes.len() && !is_unreserved(#[trigger] bytes[i]);
            if i < rest.len() {
                assert(!is_unreserved(rest[i]));
            }
        }
    }
}

/// Encoding leaves a value as it is exactly where all of its characters are
/// unreserved.
pub proof fn law_encoding_keeps_unreserved_values(value: Seq<char>)
    ensures
        urlencode_spec(value) == value <==> forall|i: int|
            0 <= i < value.len() ==> is_plain(#[trigger] value[i]) && value[i] != '%',
{
    let bytes = encode_utf8(value);
    law_encoded_value_is_plain(value);
    lemma_encoded_length(bytes);
    if forall|i: int| 0 <= i < value.len() ==> is_plain(#[trigger] value[i]) {
        assert(is_ascii_chars(value));
        is_ascii_chars_encode_utf8(value);
        assert forall|i: int| 0 <= i < value.len() implies value[i] as u8 == #[trigger] bytes[i] && (is_unreserved(bytes[i])
            <==> value[i] != '%') by {
            assert(is_plain(value[i]));
        }
        if forall|i: int| 0 <= i < value.len() ==> #[trigger] value[i] != '%' {
            assert forall|i: int| 0 <= i < bytes.len() implies is_unreserved(#[trigger] bytes[i]) by {
                assert(value[i] != '%');
            }
            assert(urlencode_spec(value) =~= value);
        } else {
            let i = choose|i: int| 0 <= i < value.len() && #[trigger] value[i] == '%';
            assert(!is_unreserved(bytes[i]));
        }
    }
}

proof fn lemma_nothing_to_decode(bytes: Seq<u8>)
    requires
        forall|i: int| 0 <= i < bytes.len() ==> #[trigger] bytes[i] != 37 && bytes[i] != 43,
    ensures
        percent_decode(bytes) == bytes,
    decreases bytes.len(),
{
    if bytes.len() > 0 {
        let rest = bytes.skip(1);
        assert forall|i: int| 0 <= i < rest.len() implies #[trigger] rest[i] != 37 && rest[i] != 43 by {
            assert(rest[i] == bytes[i + 1]);
        }
        lemma_nothing_to_decode(rest);
        assert(bytes[0] != 37);
        assert(seq![bytes[0]] + rest =~= bytes);
    }
}

/// What is decoded, from the front: a percent sign with two hexadecimal digits
/// is the byte that they write, a plus sign is a space, and everything else is
/// itself, a percent sign without its digits too.
pub proof fn law_decoded_from_the_front(b: u8, high: u8, low: u8, rest: Seq<u8>)
    ensures
        b != 37 && b != 43 ==> percent_decode(seq![b] + rest) == seq![b] + percent_decode(rest),
        percent_decode(seq![43u8] + rest) == seq![32u8] + percent_decode(rest),
        hex_value(high) is Some && hex_value(low) is Some ==> percent_decode(seq![37u8, high, low] + rest) == seq![
            (16 * hex_value(high)->0 + hex_value(low)->0) as u8,
        ] + percent_decode(rest),
        hex_value(high) is None || hex_value(low) is None ==> percent_decode(seq![37u8, high, low] + rest) == seq![37u8]
            + percent_decode(seq![high, low] + rest),
        percent_decode(seq![37u8, b]) == seq![37u8] + percent_decode(seq![b]),
        percent_decode(seq![37u8]) == seq![37u8],
{
    assert((seq![b] + rest).skip(1) =~= rest);
    assert((seq![43u8] + rest).skip(1) =~= rest);
    assert((seq![37u8, high, low] + rest).skip(3) =~= rest);
    assert((seq![37u8, high, low] + rest).skip(1) =~= seq![high, low] + rest);
    assert(seq![37u8, b].skip(1) =~= seq![b]);
    assert(seq![37u8].skip(1) =~= Seq::<u8>::empty());
    reveal_with_fuel(percent_decode, 2);
    assert(seq![37u8] + Seq::<u8>::empty() =~= seq![37u8]);
}

/// A hexadecimal digit is a figure or one of six letters in either case, and
/// the case makes no difference to what it is worth.
pub proof fn law_hexadecimal_digits_are_worth_their_place(d: u8, b: u8)
    ensures
        d < 10 ==> hex_value((48 + d) as u8) == Some(d),
        10 <= d < 16 ==> hex_value((55 + d) as u8) == Some(d) && hex_value((87 + d) as u8) == Some(d),
        hex_value(b) matches Some(v) ==> v < 16,
        hex_value(b) is Some <==> 48 <= b <= 57 || 65 <= b <= 70 || 97 <= b <= 102,
{
}

/// A letter, a figure and four signs stand for themselves; every other byte is
/// written as a percent sign and two upper-case digits. Bytes are encoded one
/// by one.
pub proof fn law_bytes_are_encoded_one_by_one(a: Seq<u8>, b: u8)
    ensures
        percent_encode(a.push(b)) == percent_encode(a) + (if 65 <= b <= 90 || 97 <= b <= 122 || 48 <= b <= 57 || b == 45 || b == 46
            || b == 95 || b == 126 {
            seq![b]
        } else {
            seq![37u8, upper_digit(b as int / 16), upper_digit(b as int % 16)]
        }),
        percent_encode(Seq::<u8>::empty()).len() == 0,
{
    assert(a.push(b).drop_last() =~= a);
}

/// A digit from `0` to `F`.
pub open spec fn upper_digit(d: int) -> u8 {
    if 0 <= d <= 9 {
        (d + 48) as u8
    } else {
        (d - 10 + 65) as u8
    }
}

} // verus!
