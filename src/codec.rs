//! The channel codec: how values cross the boundary between host and guest,
//! and how committed values are laid out in the journal.
//!
//! Integers are written little-endian in their full width; a byte string is
//! its length as a 32-bit integer followed by its bytes. The encoding carries
//! no type tag, so a reader checks the shape of what it decodes.
use vstd::prelude::*;

use crate::violation::ContractViolation;

verus! {

/// `256^k`.
pub open spec fn byte_weight(k: nat) -> nat
    decreases k,
{
    if k == 0 {
        1
    } else {
        256 * byte_weight((k - 1) as nat)
    }
}

/// The number that a little-endian byte sequence stands for.
pub open spec fn le_value(s: Seq<u8>) -> nat
    decreases s.len(),
{
    if s.len() == 0 {
        0
    } else {
        (s[0] as nat) + 256 * le_value(s.drop_first())
    }
}

/// The `n` low bytes of `v`, least significant first.
pub open spec fn le_bytes(v: nat, n: nat) -> Seq<u8>
    decreases n,
{
    if n == 0 {
        Seq::empty()
    } else {
        seq![(v % 256) as u8] + le_bytes(v / 256, (n - 1) as nat)
    }
}

/// The encoding of a `u32`.
pub open spec fn u32_encoding(v: u32) -> Seq<u8> {
    le_bytes(v as nat, 4)
}

/// The encoding of a `u64`.
pub open spec fn u64_encoding(v: u64) -> Seq<u8> {
    le_bytes(v as nat, 8)
}

/// The encoding of a byte string: its length, then its bytes.
pub open spec fn bytes_encoding(b: Seq<u8>) -> Seq<u8> {
    le_bytes(b.len(), 4) + b
}

/// A byte string can be encoded when its length fits in 32 bits.
pub open spec fn bytes_encodable(b: Seq<u8>) -> bool {
    b.len() <= u32::MAX
}

/// What decoding a whole segment as a `u32` yields.
pub open spec fn u32_decoding(s: Seq<u8>) -> Result<u32, ContractViolation> {
    if s.len() == 4 {
        Ok(le_value(s) as u32)
    } else {
        Err(ContractViolation::DecodeMismatch)
    }
}

/// What decoding a whole segment as a `u64` yields.
pub open spec fn u64_decoding(s: Seq<u8>) -> Result<u64, ContractViolation> {
    if s.len() == 8 {
        Ok(le_value(s) as u64)
    } else {
        Err(ContractViolation::DecodeMismatch)
    }
}

/// What decoding a whole segment as a byte string yields.
pub open spec fn bytes_decoding(s: Seq<u8>) -> Result<Seq<u8>, ContractViolation> {
    if s.len() >= 4 && le_value(s.subrange(0, 4)) == s.len() - 4 {
        Ok(s.subrange(4, s.len() as int))
    } else {
        Err(ContractViolation::DecodeMismatch)
    }
}

proof fn lemma_le_bytes_len(v: nat, n: nat)
    ensures
        le_bytes(v, n).len() == n,
    decreases n,
{
    if n > 0 {
        lemma_le_bytes_len(v / 256, (n - 1) as nat);
    }
}

/// Writing `v` in `n` bytes and reading it back gives `v`, when `v` fits.
proof fn lemma_le_round_trip(v: nat, n: nat)
    requires
        v < byte_weight(n),
    ensures
        le_value(le_bytes(v, n)) == v,
    decreases n,
{
    if n > 0 {
        let m = (n - 1) as nat;
        let p = byte_weight(m);
        assert(v / 256 < p) by (nonlinear_arith)
            requires
                v < 256 * p,
        ;
        lemma_le_round_trip(v / 256, m);
        assert(le_bytes(v, n).drop_first() =~= le_bytes(v / 256, m));
    } else {
        assert(v == 0);
    }
}

/// A sequence of `n` bytes stands for a number below `256^n`.
pub(crate) proof fn lemma_le_value_bound(s: Seq<u8>)
    ensures
        le_value(s) < byte_weight(s.len()),
    decreases s.len(),
{
    if s.len() > 0 {
        lemma_le_value_bound(s.drop_first());
        let x = le_value(s.drop_first());
        let p = byte_weight((s.len() - 1) as nat);
        let b = s[0] as nat;
        assert(b + 256 * x < 256 * p) by (nonlinear_arith)
            requires
                x < p,
                b < 256,
        ;
    }
}

pub(crate) proof fn lemma_byte_weights()
    ensures
        byte_weight(4) == 0x1_0000_0000,
        byte_weight(8) == 0x1_0000_0000_0000_0000,
{
    reveal_with_fuel(byte_weight, 9);
}

/// Appends the `n` low bytes of `v` to `out`, least significant first.
fn put_le(out: &mut Vec<u8>, v: u64, n: usize)
    requires
        n <= 8,
    ensures
        final(out)@ == old(out)@ + le_bytes(v as nat, n as nat),
{
    let mut x: u64 = v;
    let mut i: usize = 0;
    while i < n
        invariant
            i <= n,
            out@ + le_bytes(x as nat, (n - i) as nat) == old(out)@ + le_bytes(v as nat, n as nat),
        decreases n - i,
    {
        let ghost before = out@;
        out.push((x % 256) as u8);
        assert(before + le_bytes(x as nat, (n - i) as nat) =~= out@ + le_bytes(
            (x / 256) as nat,
            (n - i - 1) as nat,
        ));
        x = x / 256;
        i = i + 1;
    }
    assert(out@ + le_bytes(x as nat, 0) =~= out@);
}

/// Reads the `n` bytes of `s` from `start` as a little-endian number.
pub(crate) fn get_le(s: &Vec<u8>, start: usize, n: usize) -> (r: u64)
    requires
        start + n <= s@.len(),
        n <= 8,
    ensures
        r == le_value(s@.subrange(start as int, start + n)),
{
    proof {
        lemma_byte_weights();
    }
    let len = s.len();
    let mut acc: u64 = 0;
    let mut i: usize = n;
    assert(s@.subrange(start + i, start + n) =~= Seq::<u8>::empty());
    while i > 0
        invariant
            i <= n <= 8,
            start + n <= s@.len() == len,
            acc == le_value(s@.subrange(start + i, start + n)),
            byte_weight(8) == 0x1_0000_0000_0000_0000,
        decreases i,
    {
        let ghost tail = s@.subrange(start + i, start + n);
        i = i - 1;
        let ghost longer = s@.subrange(start + i, start + n);
        assert(longer.drop_first() =~= tail);
        proof {
            lemma_le_value_bound(longer);
            lemma_byte_weight_monotone(longer.len(), 8);
            assert(longer[0] == s@[start + i]);
            assert(le_value(longer) == (longer[0] as nat) + 256 * le_value(tail));
        }
        acc = acc * 256 + s[start + i] as u64;
    }
    acc
}

proof fn lemma_byte_weight_monotone(j: nat, k: nat)
    requires
        j <= k,
    ensures
        byte_weight(j) <= byte_weight(k),
    decreases k,
{
    if j < k {
        lemma_byte_weight_monotone(j, (k - 1) as nat);
    }
}

/// Encodes a `u32`.
pub fn encode_u32(v: u32) -> (r: Vec<u8>)
    ensures
        r@ == u32_encoding(v),
{
    let mut out: Vec<u8> = Vec::new();
    put_le(&mut out, v as u64, 4);
    assert(out@ =~= u32_encoding(v));
    out
}

/// Encodes a `u64`.
pub fn encode_u64(v: u64) -> (r: Vec<u8>)
    ensures
        r@ == u64_encoding(v),
{
    let mut out: Vec<u8> = Vec::new();
    put_le(&mut out, v, 8);
    assert(out@ =~= u64_encoding(v));
    out
}

/// Encodes a byte string; fails when its length does not fit in 32 bits.
pub fn encode_bytes(b: &Vec<u8>) -> (r: Result<Vec<u8>, ContractViolation>)
    ensures
        bytes_encodable(b@) ==> r == Ok::<Vec<u8>, ContractViolation>(
            r->Ok_0,
        ) && r->Ok_0@ == bytes_encoding(b@),
        !bytes_encodable(b@) ==> r == Err::<Vec<u8>, ContractViolation>(
            ContractViolation::NotEncodable,
        ),
{
    if b.len() > 0xffff_ffff {
        return Err(ContractViolation::NotEncodable);
    }
    let mut out: Vec<u8> = Vec::new();
    put_le(&mut out, b.len() as u64, 4);
    let mut i: usize = 0;
    while i < b.len()
        invariant
            i <= b@.len(),
            out@ == le_bytes(b@.len(), 4) + b@.subrange(0, i as int),
        decreases b@.len() - i,
    {
        out.push(b[i]);
        assert(b@.subrange(0, i + 1) =~= b@.subrange(0, i as int).push(b@[i as int]));
        i = i + 1;
    }
    assert(b@.subrange(0, b@.len() as int) =~= b@);
    Ok(out)
}

/// Decodes a whole segment as a `u32`.
pub fn decode_u32(s: &Vec<u8>) -> (r: Result<u32, ContractViolation>)
    ensures
        r == u32_decoding(s@),
{
    if s.len() != 4 {
        return Err(ContractViolation::DecodeMismatch);
    }
    let v = get_le(s, 0, 4);
    proof {
        assert(s@.subrange(0, 4) =~= s@);
        lemma_le_value_bound(s@);
        lemma_byte_weights();
    }
    Ok(v as u32)
}

/// Decodes a whole segment as a `u64`.
pub fn decode_u64(s: &Vec<u8>) -> (r: Result<u64, ContractViolation>)
    ensures
        r == u64_decoding(s@),
{
    if s.len() != 8 {
        return Err(ContractViolation::DecodeMismatch);
    }
    let v = get_le(s, 0, 8);
    assert(s@.subrange(0, 8) =~= s@);
    Ok(v)
}

/// Decodes a whole segment as a byte string.
pub fn decode_bytes(s: &Vec<u8>) -> (r: Result<Vec<u8>, ContractViolation>)
    ensures
        r is Ok <==> bytes_decoding(s@) is Ok,
        r is Ok ==> r->Ok_0@ == bytes_decoding(s@)->Ok_0,
        r is Err ==> r == Err::<Vec<u8>, ContractViolation>(ContractViolation::DecodeMismatch),
{
    if s.len() < 4 {
        return Err(ContractViolation::DecodeMismatch);
    }
    let n = get_le(s, 0, 4);
    if n != (s.len() - 4) as u64 {
        return Err(ContractViolation::DecodeMismatch);
    }
    let mut out: Vec<u8> = Vec::new();
    let mut i: usize = 4;
    while i < s.len()
        invariant
            4 <= i <= s@.len(),
            out@ == s@.subrange(4, i as int),
        decreases s@.len() - i,
    {
        out.push(s[i]);
        assert(s@.subrange(4, i + 1) =~= s@.subrange(4, i as int).push(s@[i as int]));
        i = i + 1;
    }
    Ok(out)
}

/// Decoding the encoding of a `u32` gives the value back.
pub proof fn u32_round_trip(v: u32)
    ensures
        u32_decoding(u32_encoding(v)) == Ok::<u32, ContractViolation>(v),
{
    lemma_byte_weights();
    lemma_le_bytes_len(v as nat, 4);
    lemma_le_round_trip(v as nat, 4);
}

/// Decoding the encoding of a `u64` gives the value back.
pub proof fn u64_round_trip(v: u64)
    ensures
        u64_decoding(u64_encoding(v)) == Ok::<u64, ContractViolation>(v),
{
    lemma_byte_weights();
    lemma_le_bytes_len(v as nat, 8);
    lemma_le_round_trip(v as nat, 8);
}

/// Decoding the encoding of an encodable byte string gives it back.
pub proof fn bytes_round_trip(b: Seq<u8>)
    requires
        bytes_encodable(b),
    ensures
        bytes_decoding(bytes_encoding(b)) == Ok::<Seq<u8>, ContractViolation>(b),
{
    lemma_byte_weights();
    lemma_le_bytes_len(b.len(), 4);
    lemma_le_round_trip(b.len(), 4);
    let e = bytes_encoding(b);
    assert(e.subrange(0, 4) =~= le_bytes(b.len(), 4));
    assert(e.subrange(4, e.len() as int) =~= b);
}

} // verus!
