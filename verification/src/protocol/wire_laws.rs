//! Laws of the wire formats: what the client frames, a reader of frames
//! reads back.
use vstd::prelude::*;
use super::wire::{be32, be_i32, be_i32_at, le24, le24_at};
use super::pg::{spec_body_length, spec_tagged};
use super::myproto::spec_packet;

verus! {

proof fn lemma_be32_read(n: nat)
    requires
        n < 0x8000_0000,
    ensures
        be_i32_at(be32(n), 0) == n,
{
    let b = be32(n);
    let a = n / 0x100_0000;
    let r1 = n % 0x100_0000;
    let c = r1 / 0x1_0000;
    let r2 = r1 % 0x1_0000;
    let d = r2 / 0x100;
    let e = r2 % 0x100;
    assert(n == a * 0x100_0000 + c * 0x1_0000 + d * 0x100 + e) by (nonlinear_arith)
        requires
            a == n / 0x100_0000,
            r1 == n % 0x100_0000,
            c == r1 / 0x1_0000,
            r2 == r1 % 0x1_0000,
            d == r2 / 0x100,
            e == r2 % 0x100,
    ;
    assert(a < 0x80) by (nonlinear_arith)
        requires
            a == n / 0x100_0000,
            n < 0x8000_0000,
    ;
    assert((n / 0x1_0000) % 0x100 == c) by (nonlinear_arith)
        requires
            c == (n % 0x100_0000) / 0x1_0000,
    ;
    assert((n / 0x100) % 0x100 == d) by (nonlinear_arith)
        requires
            d == ((n % 0x100_0000) % 0x1_0000) / 0x100,
    ;
    assert(n % 0x100 == e) by (nonlinear_arith)
        requires
            e == ((n % 0x100_0000) % 0x1_0000) % 0x100,
    ;
    assert(b[0] == a);
    assert(b[1] == c);
    assert(b[2] == d);
    assert(b[3] == e);
}

/// A PostgreSQL message frame read back: the length field of a framed
/// message announces exactly the content that follows it, when the length
/// is below 2^31 (a longer one reads back as a negative length).
pub proof fn lemma_pg_frame_round_trip(tag: u8, content: Seq<u8>)
    requires
        content.len() + 4 < 0x8000_0000,
    ensures
        spec_body_length(spec_tagged(tag, content).subrange(1, 5)) == Some(content.len() as int),
        spec_tagged(tag, content)[0] == tag,
        spec_tagged(tag, content).subrange(5, spec_tagged(tag, content).len() as int) == content,
{
    let m = spec_tagged(tag, content);
    let n = (content.len() + 4) as nat;
    lemma_be32_read(n);
    assert(m.subrange(1, 5) =~= be32(n));
    assert(m.subrange(5, m.len() as int) =~= content);
}

/// A MySQL packet header read back: it announces the length of the payload
/// that follows it and the sequence number it was written with, when the
/// payload is shorter than 2^24 bytes (the length field holds 24 bits).
pub proof fn lemma_packet_round_trip(seq: u8, payload: Seq<u8>)
    requires
        payload.len() < 0x100_0000,
    ensures
        le24_at(spec_packet(seq, payload), 0) == payload.len(),
        spec_packet(seq, payload)[3] == seq,
        spec_packet(seq, payload).subrange(4, spec_packet(seq, payload).len() as int) == payload,
{
    let m = spec_packet(seq, payload);
    let n = payload.len();
    let a = n % 0x100;
    let b = (n / 0x100) % 0x100;
    let c = (n / 0x1_0000) % 0x100;
    assert(a + b * 0x100 + c * 0x1_0000 == n) by (nonlinear_arith)
        requires
            n < 0x100_0000,
            a == n % 0x100,
            b == (n / 0x100) % 0x100,
            c == (n / 0x1_0000) % 0x100,
    ;
    assert(m[0] == a);
    assert(m[1] == b);
    assert(m[2] == c);
    assert(m.subrange(4, m.len() as int) =~= payload);
}

} // verus!
