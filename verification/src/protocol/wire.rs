//! Byte-level pieces shared by the network protocols: integers in big- and
//! little-endian order, NUL-terminated strings and text decoding.
use vstd::prelude::*;
use vstd::utf8::*;

verus! {

/// The four big-endian bytes of the 32-bit pattern `n` (taken modulo 2^32).
pub open spec fn be32(n: nat) -> Seq<u8> {
    seq![
        ((n / 0x100_0000) % 0x100) as u8,
        ((n / 0x1_0000) % 0x100) as u8,
        ((n / 0x100) % 0x100) as u8,
        (n % 0x100) as u8,
    ]
}

/// The two big-endian bytes of the 16-bit pattern `n` (taken modulo 2^16).
pub open spec fn be16(n: nat) -> Seq<u8> {
    seq![((n / 0x100) % 0x100) as u8, (n % 0x100) as u8]
}

/// The big-endian bytes of the `i32` value `v`.
pub open spec fn be_i32(v: int) -> Seq<u8> {
    be32(if v < 0 { (v + 0x1_0000_0000) as nat } else { v as nat })
}

/// The big-endian bytes of the `i16` value `v`.
pub open spec fn be_i16(v: int) -> Seq<u8> {
    be16(if v < 0 { (v + 0x1_0000) as nat } else { v as nat })
}

/// The unsigned big-endian 32-bit number at `i`.
pub open spec fn be_u32_at(b: Seq<u8>, i: int) -> int {
    b[i] * 0x100_0000 + b[i + 1] * 0x1_0000 + b[i + 2] * 0x100 + b[i + 3]
}

/// The signed big-endian 32-bit number at `i`.
pub open spec fn be_i32_at(b: Seq<u8>, i: int) -> int {
    let u = be_u32_at(b, i);
    if u >= 0x8000_0000 {
        u - 0x1_0000_0000
    } else {
        u
    }
}

/// The signed big-endian 16-bit number at `i`.
pub open spec fn be_i16_at(b: Seq<u8>, i: int) -> int {
    let u = b[i] * 0x100 + b[i + 1];
    if u >= 0x8000 {
        u - 0x1_0000
    } else {
        u
    }
}

/// Appends `b` to `buf`.
pub fn push_bytes(buf: &mut Vec<u8>, b: &[u8])
    ensures
        final(buf)@ == old(buf)@ + b@,
{
    let mut i: usize = 0;
    while i < b.len()
        invariant
            i <= b@.len(),
            buf@ == old(buf)@ + b@.subrange(0, i as int),
        decreases b@.len() - i,
    {
        buf.push(b[i]);
        i = i + 1;
        assert(b@.subrange(0, i as int) == b@.subrange(0, i - 1) + seq![b@[i - 1]]);
    }
    assert(b@.subrange(0, b@.len() as int) == b@);
}

/// Appends the UTF-8 bytes of `s` to `buf`.
pub fn push_str_bytes(buf: &mut Vec<u8>, s: &str)
    ensures
        final(buf)@ == old(buf)@ + encode_utf8(s@),
{
    push_bytes(buf, s.as_bytes());
}

/// Appends the four big-endian bytes of the low 32 bits of `n`.
pub fn push_be32_low(buf: &mut Vec<u8>, n: usize)
    ensures
        final(buf)@ == old(buf)@ + be32(n as nat),
{
    buf.push(((n / 0x100_0000) % 0x100) as u8);
    buf.push(((n / 0x1_0000) % 0x100) as u8);
    buf.push(((n / 0x100) % 0x100) as u8);
    buf.push((n % 0x100) as u8);
}

/// Appends the two big-endian bytes of the low 16 bits of `n`.
pub fn push_be16_low(buf: &mut Vec<u8>, n: usize)
    ensures
        final(buf)@ == old(buf)@ + be16(n as nat),
{
    buf.push(((n / 0x100) % 0x100) as u8);
    buf.push((n % 0x100) as u8);
}

/// Appends the big-endian bytes of `v`.
pub fn push_be_i32(buf: &mut Vec<u8>, v: i32)
    ensures
        final(buf)@ == old(buf)@ + be_i32(v as int),
{
    let u: u32 = if v < 0 { (v as i64 + 0x1_0000_0000i64) as u32 } else { v as u32 };
    buf.push((u / 0x100_0000) as u8);
    buf.push(((u / 0x1_0000) % 0x100) as u8);
    buf.push(((u / 0x100) % 0x100) as u8);
    buf.push((u % 0x100) as u8);
}

/// Appends the big-endian bytes of `v`.
pub fn push_be_i16(buf: &mut Vec<u8>, v: i16)
    ensures
        final(buf)@ == old(buf)@ + be_i16(v as int),
{
    let u: u16 = if v < 0 { (v as i32 + 0x1_0000i32) as u16 } else { v as u16 };
    buf.push((u / 0x100) as u8);
    buf.push((u % 0x100) as u8);
}

/// The signed big-endian 32-bit number at `i`.
pub fn read_be_i32(b: &[u8], i: usize) -> (r: i32)
    requires
        i + 4 <= b@.len(),
    ensures
        r == be_i32_at(b@, i as int),
{
    let u: u32 = (b[i] as u32) * 0x100_0000 + (b[i + 1] as u32) * 0x1_0000 + (b[i + 2] as u32) * 0x100
        + (b[i + 3] as u32);
    if u >= 0x8000_0000 {
        (u as i64 - 0x1_0000_0000i64) as i32
    } else {
        u as i32
    }
}

/// The signed big-endian 16-bit number at `i`.
pub fn read_be_i16(b: &[u8], i: usize) -> (r: i16)
    requires
        i + 2 <= b@.len(),
    ensures
        r == be_i16_at(b@, i as int),
{
    let u: u32 = (b[i] as u32) * 0x100 + (b[i + 1] as u32);
    if u >= 0x8000 {
        (u as i32 - 0x1_0000i32) as i16
    } else {
        u as i16
    }
}

/// The index of the first zero byte at or after `from`, if there is one.
pub open spec fn zero_from(b: Seq<u8>, from: int) -> Option<int>
    decreases b.len() - from,
{
    if from < 0 || from >= b.len() {
        None
    } else if b[from] == 0 {
        Some(from)
    } else {
        zero_from(b, from + 1)
    }
}

/// Proves the bounds and the defining properties of `zero_from`.
pub proof fn lemma_zero_from(b: Seq<u8>, from: int)
    ensures
        match zero_from(b, from) {
            Some(j) => 0 <= from <= j < b.len() && b[j] == 0 && forall|k: int|
                from <= k < j ==> b[k] != 0,
            None => forall|k: int| 0 <= from <= k < b.len() ==> b[k] != 0,
        },
    decreases b.len() - from,
{
    if from < 0 || from >= b.len() {
    } else if b[from] == 0 {
    } else {
        lemma_zero_from(b, from + 1);
    }
}

/// The index of the first zero byte at or after `from`.
pub fn find_zero(b: &[u8], from: usize) -> (r: Option<usize>)
    ensures
        match r {
            Some(j) => zero_from(b@, from as int) == Some(j as int),
            None => zero_from(b@, from as int) is None,
        },
{
    let mut i = from;
    while i < b.len()
        invariant
            from <= i,
            zero_from(b@, from as int) == zero_from(b@, i as int),
        decreases b@.len() - i,
    {
        if b[i] == 0 {
            return Some(i);
        }
        i = i + 1;
    }
    None
}

/// The bytes of `b` from `from` to `to`.
pub fn byte_range(b: &[u8], from: usize, to: usize) -> (r: Vec<u8>)
    requires
        from <= to <= b@.len(),
    ensures
        r@ == b@.subrange(from as int, to as int),
{
    let mut r: Vec<u8> = Vec::new();
    let mut i = from;
    while i < to
        invariant
            from <= i <= to <= b@.len(),
            r@ == b@.subrange(from as int, i as int),
        decreases to - i,
    {
        r.push(b[i]);
        i = i + 1;
        assert(b@.subrange(from as int, i as int) == b@.subrange(from as int, i - 1) + seq![b@[i - 1]]);
    }
    r
}

/// What `String::from_utf8_lossy` makes of `bytes`: a function of the bytes
/// alone, equal to their decoding where they are valid UTF-8.
pub uninterp spec fn utf8_lossy(bytes: Seq<u8>) -> Seq<char>;

/// `String::from_utf8_lossy`, owned: the text of `b`, each invalid sequence
/// replaced by U+FFFD. The contract names the result and states the case the
/// documentation spells out: valid UTF-8 decodes to exactly its characters.
#[verifier::external_body]
pub(crate) fn lossy_text(b: &[u8]) -> (s: String)
    ensures
        s@ == utf8_lossy(b@),
        valid_utf8(b@) ==> s@ == decode_utf8(b@),
{
    String::from_utf8_lossy(b).into_owned()
}


/// The little-endian bytes of the 32-bit number `n`.
pub open spec fn le32(n: nat) -> Seq<u8> {
    seq![
        (n % 0x100) as u8,
        ((n / 0x100) % 0x100) as u8,
        ((n / 0x1_0000) % 0x100) as u8,
        ((n / 0x100_0000) % 0x100) as u8,
    ]
}

/// The little-endian bytes of the low 24 bits of `n`.
pub open spec fn le24(n: nat) -> Seq<u8> {
    seq![(n % 0x100) as u8, ((n / 0x100) % 0x100) as u8, ((n / 0x1_0000) % 0x100) as u8]
}

/// Appends the little-endian bytes of `v`.
pub fn push_le_u32(buf: &mut Vec<u8>, v: u32)
    ensures
        final(buf)@ == old(buf)@ + le32(v as nat),
{
    buf.push((v % 0x100) as u8);
    buf.push(((v / 0x100) % 0x100) as u8);
    buf.push(((v / 0x1_0000) % 0x100) as u8);
    buf.push(((v / 0x100_0000) % 0x100) as u8);
}

/// Appends the little-endian bytes of the low 24 bits of `n`.
pub fn push_le24_low(buf: &mut Vec<u8>, n: usize)
    ensures
        final(buf)@ == old(buf)@ + le24(n as nat),
{
    buf.push((n % 0x100) as u8);
    buf.push(((n / 0x100) % 0x100) as u8);
    buf.push(((n / 0x1_0000) % 0x100) as u8);
}

/// The little-endian 16-bit number at `i`.
pub open spec fn le16_at(b: Seq<u8>, i: int) -> nat {
    (b[i] + b[i + 1] * 0x100) as nat
}

/// The little-endian 24-bit number at `i`.
pub open spec fn le24_at(b: Seq<u8>, i: int) -> nat {
    (b[i] + b[i + 1] * 0x100 + b[i + 2] * 0x1_0000) as nat
}

/// The little-endian 64-bit number at `i`.
pub open spec fn le64_at(b: Seq<u8>, i: int) -> nat {
    (b[i] + b[i + 1] * 0x100 + b[i + 2] * 0x1_0000 + b[i + 3] * 0x100_0000 + b[i + 4] * 0x1_0000_0000
        + b[i + 5] * 0x100_0000_0000 + b[i + 6] * 0x1_0000_0000_0000 + b[i + 7] * 0x100_0000_0000_0000) as nat
}

/// The little-endian 16-bit number at `i`.
pub fn read_le_u16(b: &[u8], i: usize) -> (r: u16)
    requires
        i + 2 <= b@.len(),
    ensures
        r == le16_at(b@, i as int),
{
    (b[i] as u16) + (b[i + 1] as u16) * 0x100
}

/// The little-endian 24-bit number at `i`.
pub fn read_le_u24(b: &[u8], i: usize) -> (r: u32)
    requires
        i + 3 <= b@.len(),
    ensures
        r == le24_at(b@, i as int),
{
    (b[i] as u32) + (b[i + 1] as u32) * 0x100 + (b[i + 2] as u32) * 0x1_0000
}

/// The little-endian 64-bit number at `i`.
pub fn read_le_u64(b: &[u8], i: usize) -> (r: u64)
    requires
        i + 8 <= b@.len(),
    ensures
        r == le64_at(b@, i as int),
{
    (b[i] as u64) + (b[i + 1] as u64) * 0x100 + (b[i + 2] as u64) * 0x1_0000 + (b[i + 3] as u64) * 0x100_0000
        + (b[i + 4] as u64) * 0x1_0000_0000 + (b[i + 5] as u64) * 0x100_0000_0000 + (b[i + 6] as u64)
        * 0x1_0000_0000_0000 + (b[i + 7] as u64) * 0x100_0000_0000_0000
}

/// The index of the first byte `x` at or after `from`, if there is one.
pub open spec fn byte_from(b: Seq<u8>, x: u8, from: int) -> Option<int>
    decreases b.len() - from,
{
    if from < 0 || from >= b.len() {
        None
    } else if b[from] == x {
        Some(from)
    } else {
        byte_from(b, x, from + 1)
    }
}

/// Proves the bounds and the defining properties of `byte_from`.
pub proof fn lemma_byte_from(b: Seq<u8>, x: u8, from: int)
    ensures
        match byte_from(b, x, from) {
            Some(j) => 0 <= from <= j < b.len() && b[j] == x,
            None => true,
        },
    decreases b.len() - from,
{
    if from < 0 || from >= b.len() {
    } else if b[from] == x {
    } else {
        lemma_byte_from(b, x, from + 1);
    }
}

/// The index of the first byte `x` at or after `from`.
pub fn find_byte(b: &[u8], x: u8, from: usize) -> (r: Option<usize>)
    ensures
        match r {
            Some(j) => byte_from(b@, x, from as int) == Some(j as int),
            None => byte_from(b@, x, from as int) is None,
        },
{
    let mut i = from;
    while i < b.len()
        invariant
            from <= i,
            byte_from(b@, x, from as int) == byte_from(b@, x, i as int),
        decreases b@.len() - i,
    {
        if b[i] == x {
            return Some(i);
        }
        i = i + 1;
    }
    None
}

/// Each byte read as the character with that code (ISO 8859-1).
pub open spec fn latin1(b: Seq<u8>) -> Seq<char> {
    b.map_values(|x: u8| x as char)
}

/// The bytes of `b` from `from` on, each read as the character with that code.
pub fn latin1_text(b: &[u8], from: usize) -> (s: String)
    requires
        from <= b@.len(),
    ensures
        s@ == latin1(b@.subrange(from as int, b@.len() as int)),
{
    let mut s = String::new();
    let mut i = from;
    while i < b.len()
        invariant
            from <= i <= b@.len(),
            s@ == latin1(b@.subrange(from as int, i as int)),
        decreases b@.len() - i,
    {
        let c = b[i] as char;
        s.push(c);
        i = i + 1;
        assert(latin1(b@.subrange(from as int, i as int)) =~= latin1(b@.subrange(from as int, i - 1)).push(
            b@[i - 1] as char,
        ));
    }
    s
}

} // verus!
