//! Chunk payloads: elements as fixed-width little-endian bytes, in the
//! order given, and the inverse reading of 16-bit payloads.
use vstd::prelude::*;

verus! {

/// The `count` least significant bytes of `n`, least significant first.
pub open spec fn le_bytes(n: nat, count: nat) -> Seq<u8>
    decreases count,
{
    if count == 0 {
        Seq::empty()
    } else {
        seq![(n % 256) as u8] + le_bytes(n / 256, (count - 1) as nat)
    }
}

/// Payload of a sequence of 16-bit elements: two bytes each, in order.
pub open spec fn u16_payload(v: Seq<u16>) -> Seq<u8>
    decreases v.len(),
{
    if v.len() == 0 {
        Seq::empty()
    } else {
        u16_payload(v.drop_last()) + le_bytes(v.last() as nat, 2)
    }
}

/// Elements read from a payload, two bytes each; an odd trailing byte is
/// not part of any element.
pub open spec fn u16_elements(b: Seq<u8>) -> Seq<u16>
    decreases b.len(),
{
    if b.len() < 2 {
        Seq::empty()
    } else {
        u16_elements(b.take(b.len() - 2)).push(
            (b[b.len() - 2] as int + 256 * b[b.len() - 1] as int) as u16,
        )
    }
}

proof fn lemma_le_bytes_2(n: nat)
    ensures
        le_bytes(n, 2) == seq![(n % 256) as u8, ((n / 256) % 256) as u8],
{
    reveal_with_fuel(le_bytes, 3);
    assert(le_bytes(n, 2) =~= seq![(n % 256) as u8, ((n / 256) % 256) as u8]);
}

pub proof fn lemma_u16_payload_len(v: Seq<u16>)
    ensures
        u16_payload(v).len() == 2 * v.len(),
    decreases v.len(),
{
    if v.len() > 0 {
        lemma_u16_payload_len(v.drop_last());
        lemma_le_bytes_2(v.last() as nat);
    }
}

/// Reading a written 16-bit payload back in two-byte little-endian groups
/// gives the elements it was written from, in their order.
pub proof fn lemma_u16_round_trip(v: Seq<u16>)
    ensures
        u16_elements(u16_payload(v)) == v,
    decreases v.len(),
{
    if v.len() > 0 {
        let init = v.drop_last();
        let x = v.last();
        let p = u16_payload(v);
        lemma_u16_round_trip(init);
        lemma_u16_payload_len(init);
        lemma_le_bytes_2(x as nat);
        assert(p.take(p.len() - 2) =~= u16_payload(init));
        assert(p[p.len() - 2] == (x % 256) as u8);
        assert(p[p.len() - 1] == ((x / 256) % 256) as u8);
        assert((x % 256) as int + 256 * ((x / 256) % 256) as int == x as int) by (nonlinear_arith)
            requires
                x < 65536,
        ;
        assert(v =~= init.push(x));
    }
}

/// Encodes 16-bit elements as a little-endian payload.
pub fn encode_u16_le(data: &[u16]) -> (r: Vec<u8>)
    ensures
        r@ == u16_payload(data@),
{
    let mut out: Vec<u8> = Vec::new();
    let mut i: usize = 0;
    while i < data.len()
        invariant
            i <= data@.len(),
            out@ == u16_payload(data@.take(i as int)),
        decreases data@.len() - i,
    {
        let x = data[i];
        out.push((x % 256) as u8);
        out.push((x / 256) as u8);
        proof {
            let t = data@.take(i as int + 1);
            assert(t.drop_last() =~= data@.take(i as int));
            lemma_le_bytes_2(x as nat);
            assert(out@ =~= u16_payload(t));
        }
        i += 1;
    }
    assert(data@.take(i as int) =~= data@);
    out
}

/// Reads a 16-bit payload back into its elements; `None` when the payload
/// has an odd number of bytes.
pub fn decode_u16_le(bytes: &[u8]) -> (r: Option<Vec<u16>>)
    ensures
        match r {
            Some(v) => bytes@.len() % 2 == 0 && v@ == u16_elements(bytes@),
            None => bytes@.len() % 2 == 1,
        },
{
    if bytes.len() % 2 == 1 {
        return None;
    }
    let mut out: Vec<u16> = Vec::new();
    let mut i: usize = 0;
    while i < bytes.len()
        invariant
            bytes@.len() % 2 == 0,
            i % 2 == 0,
            i <= bytes@.len(),
            out@ == u16_elements(bytes@.take(i as int)),
        decreases bytes@.len() - i,
    {
        let lo = bytes[i];
        let hi = bytes[i + 1];
        out.push((lo as u16) + 256 * (hi as u16));
        proof {
            let t = bytes@.take(i as int + 2);
            assert(t.take(t.len() - 2) =~= bytes@.take(i as int));
            assert(out@ =~= u16_elements(t));
        }
        i += 2;
    }
    assert(bytes@.take(i as int) =~= bytes@);
    Some(out)
}

/// Encodes a 64-bit pattern as eight little-endian bytes: the payload of a
/// one-cell floating-point chunk, given the float's bit pattern.
pub fn encode_u64_le(bits: u64) -> (r: Vec<u8>)
    ensures
        r@ == le_bytes(bits as nat, 8),
{
    let mut out: Vec<u8> = Vec::new();
    let mut x: u64 = bits;
    let mut i: usize = 0;
    while i < 8
        invariant
            i <= 8,
            out@ + le_bytes(x as nat, (8 - i) as nat) == le_bytes(bits as nat, 8),
        decreases 8 - i,
    {
        let ghost before = out@;
        out.push((x % 256) as u8);
        proof {
            assert(le_bytes(x as nat, (8 - i) as nat) == seq![(x % 256) as u8] + le_bytes(
                (x / 256) as nat,
                (8 - i - 1) as nat,
            ));
            assert(out@ + le_bytes((x / 256) as nat, (8 - i - 1) as nat) =~= before + le_bytes(
                x as nat,
                (8 - i) as nat,
            ));
        }
        x = x / 256;
        i += 1;
    }
    assert(le_bytes(x as nat, 0) =~= Seq::<u8>::empty());
    assert(out@ =~= le_bytes(bits as nat, 8));
    out
}

} // verus!
