//! Lower-case hexadecimal encoding of bytes (through the `hex` crate).
use vstd::prelude::*;
use crate::text::push_str;

verus! {

/// The lower-case hexadecimal digit for `n` (taken modulo sixteen).
pub open spec fn hex_digit(n: nat) -> char {
    let m = n % 16;
    if m < 10 {
        ((m + 48) as u32) as char
    } else {
        ((m + 87) as u32) as char
    }
}

/// Two lower-case hexadecimal digits per byte, high nibble first.
pub open spec fn spec_hex(b: Seq<u8>) -> Seq<char>
    decreases b.len(),
{
    if b.len() == 0 {
        Seq::empty()
    } else {
        spec_hex(b.drop_last()) + seq![hex_digit(b.last() as nat / 16), hex_digit(b.last() as nat % 16)]
    }
}

/// The hexadecimal text of `b` has two ASCII characters per byte.
pub proof fn lemma_hex_ascii(b: Seq<u8>)
    ensures
        spec_hex(b).len() == 2 * b.len(),
        vstd::utf8::is_ascii_chars(spec_hex(b)),
    decreases b.len(),
{
    if b.len() > 0 {
        lemma_hex_ascii(b.drop_last());
        let h = spec_hex(b);
        let p = spec_hex(b.drop_last());
        assert forall|i: int| 0 <= i < h.len() implies '\0' <= #[trigger] h[i] <= '\u{7f}' by {
            if i < p.len() {
                assert(h[i] == p[i]);
            }
        }
    }
}

/// `hex::encode`: for each byte, in order, the characters of
/// `"0123456789abcdef"` at its high and at its low nibble.
#[verifier::external_body]
fn hex_encode(b: &[u8]) -> (s: String)
    ensures
        s@ == spec_hex(b@),
{
    hex::encode(b)
}

/// The lower-case hexadecimal text of `b`.
pub fn hex_string(b: &[u8]) -> (s: String)
    ensures
        s@ == spec_hex(b@),
{
    hex_encode(b)
}

/// Appends the lower-case hexadecimal text of `b` to `s`.
pub fn push_hex(s: &mut String, b: &[u8])
    ensures
        final(s)@ == old(s)@ + spec_hex(b@),
{
    let h = hex_encode(b);
    push_str(s, h.as_str());
}

} // verus!
