//! Percent-encoding of texts that become one segment of a URL.
use vstd::prelude::*;

use percent_encoding::{NON_ALPHANUMERIC, utf8_percent_encode};
use vstd::utf8::{encode_utf8, encode_utf8_decode_utf8};

use crate::text::is_alphanumeric;

verus! {

/// The hexadecimal digit, with a capital letter, of a number below sixteen.
pub open spec fn hex_digit(n: int) -> char {
    if n < 10 {
        (48 + n) as char
    } else {
        (55 + n) as char
    }
}

/// An ASCII letter or digit stands for itself; any other byte becomes a percent sign and its two
/// hexadecimal digits.
pub open spec fn encoded_byte(byte: u8) -> Seq<char> {
    if is_alphanumeric(byte as char) {
        seq![byte as char]
    } else {
        seq!['%', hex_digit(byte as int / 16), hex_digit(byte as int % 16)]
    }
}

/// The encodings of the bytes, one after another.
pub open spec fn encoded_bytes(bytes: Seq<u8>) -> Seq<char>
    decreases bytes.len(),
{
    if bytes.len() == 0 {
        Seq::empty()
    } else {
        encoded_byte(bytes[0]) + encoded_bytes(bytes.drop_first())
    }
}

/// The text with all but its ASCII letters and digits percent-encoded, by the bytes of UTF-8.
pub open spec fn encoded(text: Seq<char>) -> Seq<char> {
    encoded_bytes(encode_utf8(text))
}

/// Calls `percent_encoding::utf8_percent_encode` with `NON_ALPHANUMERIC`. Of the bytes of the text
/// in UTF-8, those of ASCII letters and digits stay, and every other one becomes `%` and two
/// capital hexadecimal digits.
#[verifier::external_body]
pub(crate) fn percent_encode(text: &str) -> (r: String)
    ensures
        r@ == encoded(text@),
{
    utf8_percent_encode(text, NON_ALPHANUMERIC).to_string()
}

proof fn lemma_hex_digit(n: int)
    requires
        0 <= n < 16,
    ensures
        is_alphanumeric(hex_digit(n)),
        hex_digit(n) as int == if n < 10 {
            48 + n
        } else {
            55 + n
        },
{
}

/// An encoded text holds ASCII letters, digits and percent signs only: none of the characters that
/// divide a URL into parts.
pub proof fn encoding_is_safe(text: Seq<char>)
    ensures
        forall|i: int|
            0 <= i < encoded(text).len() ==> is_alphanumeric(#[trigger] encoded(text)[i])
                || encoded(text)[i] == '%',
{
    lemma_encoded_bytes_safe(encode_utf8(text));
}

proof fn lemma_encoded_bytes_safe(bytes: Seq<u8>)
    ensures
        forall|i: int|
            0 <= i < encoded_bytes(bytes).len() ==> is_alphanumeric(
                #[trigger] encoded_bytes(bytes)[i],
            ) || encoded_bytes(bytes)[i] == '%',
    decreases bytes.len(),
{
    if bytes.len() > 0 {
        let rest = bytes.drop_first();
        lemma_encoded_bytes_safe(rest);
        lemma_hex_digit(bytes[0] as int / 16);
        lemma_hex_digit(bytes[0] as int % 16);
        let first = encoded_byte(bytes[0]);
        assert forall|i: int| 0 <= i < encoded_bytes(bytes).len() implies is_alphanumeric(
            #[trigger] encoded_bytes(bytes)[i],
        ) || encoded_bytes(bytes)[i] == '%' by {
            if i >= first.len() {
                assert(encoded_bytes(bytes)[i] == encoded_bytes(rest)[i - first.len()]);
            }
        }
    }
}

/// Different texts have different encodings.
pub proof fn encoding_is_injective(a: Seq<char>, b: Seq<char>)
    requires
        encoded(a) == encoded(b),
    ensures
        a == b,
{
    lemma_encoded_bytes_injective(encode_utf8(a), encode_utf8(b));
    encode_utf8_decode_utf8(a);
    encode_utf8_decode_utf8(b);
}

proof fn lemma_encoded_bytes_injective(a: Seq<u8>, b: Seq<u8>)
    requires
        encoded_bytes(a) == encoded_bytes(b),
    ensures
        a == b,
    decreases a.len(),
{
    let x = encoded_bytes(a);
    let y = encoded_bytes(b);
    if a.len() == 0 {
        if b.len() > 0 {
            assert(y.len() > 0);
        }
        assert(a =~= b);
    } else if b.len() == 0 {
        assert(x.len() > 0);
    } else {
        let p = encoded_byte(a[0]);
        let q = encoded_byte(b[0]);
        assert(x[0] == p[0]);
        assert(y[0] == q[0]);
        lemma_hex_digit(a[0] as int / 16);
        lemma_hex_digit(a[0] as int % 16);
        lemma_hex_digit(b[0] as int / 16);
        lemma_hex_digit(b[0] as int % 16);
        if !is_alphanumeric(a[0] as char) && !is_alphanumeric(b[0] as char) {
            assert(x[1] == p[1] && x[2] == p[2]);
            assert(y[1] == q[1] && y[2] == q[2]);
        }
        assert(a[0] == b[0]);
        assert(x.skip(p.len() as int) =~= encoded_bytes(a.drop_first()));
        assert(y.skip(q.len() as int) =~= encoded_bytes(b.drop_first()));
        lemma_encoded_bytes_injective(a.drop_first(), b.drop_first());
        assert(a =~= seq![a[0]] + a.drop_first());
        assert(b =~= seq![b[0]] + b.drop_first());
    }
}

} // verus!
