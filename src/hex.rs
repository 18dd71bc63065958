//! Lower-case hexadecimal text, through the `hex` crate.
use vstd::prelude::*;

verus! {

#[verifier::external_type_specification]
#[verifier::external_body]
pub struct ExFromHexError(hex::FromHexError);

/// The lower-case digit for a value below sixteen.
pub open spec fn hex_digit(n: int) -> char {
    seq!['0', '1', '2', '3', '4', '5', '6', '7', '8', '9', 'a', 'b', 'c', 'd', 'e', 'f'][n]
}

/// Two lower-case digits per byte, most significant first.
pub open spec fn hex_lower(b: Seq<u8>) -> Seq<char>
    decreases b.len(),
{
    if b.len() == 0 {
        Seq::empty()
    } else {
        seq![hex_digit(b[0] as int / 16), hex_digit(b[0] as int % 16)] + hex_lower(b.drop_first())
    }
}

/// A digit of either case.
pub open spec fn is_hex_char(c: char) -> bool {
    ('0' as u32 <= c as u32 <= '9' as u32) || ('a' as u32 <= c as u32 <= 'f' as u32) || (
    'A' as u32 <= c as u32 <= 'F' as u32)
}

pub open spec fn hex_value(c: char) -> int {
    if c as u32 <= '9' as u32 {
        c as u32 - '0' as u32
    } else if c as u32 <= 'F' as u32 {
        c as u32 - 'A' as u32 + 10
    } else {
        c as u32 - 'a' as u32 + 10
    }
}

/// Text that decodes: an even number of digits.
pub open spec fn is_hex_text(s: Seq<char>) -> bool {
    &&& s.len() % 2 == 0
    &&& forall|i: int| 0 <= i < s.len() ==> is_hex_char(#[trigger] s[i])
}

/// The bytes that hex text stands for, two digits each.
pub open spec fn hex_bytes(s: Seq<char>) -> Seq<u8>
    decreases s.len(),
{
    if s.len() < 2 {
        Seq::empty()
    } else {
        seq![(hex_value(s[0]) * 16 + hex_value(s[1])) as u8] + hex_bytes(s.skip(2))
    }
}

/// Relies on hex::encode: two lower-case digits for each byte, high nibble first.
#[verifier::external_body]
pub(crate) fn hex_encode(b: &[u8]) -> (r: String)
    ensures
        r@ == hex_lower(b@),
{
    hex::encode(b)
}

/// Relies on hex::decode: it fails on an odd length or a character outside 0-9, a-f, A-F,
/// and otherwise yields one byte per two digits.
#[verifier::external_body]
pub(crate) fn hex_decode(s: &str) -> (r: Result<Vec<u8>, hex::FromHexError>)
    ensures
        r is Ok <==> is_hex_text(s@),
        r matches Ok(v) ==> v@ == hex_bytes(s@),
{
    hex::decode(s)
}

/// Decoding the encoding of bytes gives them back.
pub proof fn lemma_hex_round_trip(b: Seq<u8>)
    ensures
        is_hex_text(hex_lower(b)),
        hex_bytes(hex_lower(b)) == b,
        hex_lower(b).len() == 2 * b.len(),
    decreases b.len(),
{
    if b.len() > 0 {
        lemma_hex_round_trip(b.drop_first());
        let h = hex_lower(b);
        let t = hex_lower(b.drop_first());
        assert(h == seq![hex_digit(b[0] as int / 16), hex_digit(b[0] as int % 16)] + t);
        assert(h.skip(2) =~= t);
        assert forall|i: int| 0 <= i < h.len() implies is_hex_char(#[trigger] h[i]) by {
            if i >= 2 {
                assert(h[i] == t[i - 2]);
            }
        }
        let hi = b[0] as int / 16;
        let lo = b[0] as int % 16;
        assert(hex_value(hex_digit(hi)) == hi) by {
            assert(0 <= hi < 16);
        }
        assert(hex_value(hex_digit(lo)) == lo);
        assert(hex_bytes(h) =~= b);
    }
}

/// Hex text of `2n` digits stands for `n` bytes.
pub proof fn lemma_hex_bytes_len(s: Seq<char>)
    requires
        s.len() % 2 == 0,
    ensures
        hex_bytes(s).len() == s.len() / 2,
    decreases s.len(),
{
    if s.len() >= 2 {
        lemma_hex_bytes_len(s.skip(2));
    }
}

} // verus!
