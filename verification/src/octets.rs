//! Numbers as byte strings, and operations on byte strings.

use vstd::arithmetic::power::pow;
use vstd::prelude::*;

verus! {

/// The value of `bytes` read as a little-endian number.
pub open spec fn le_value(bytes: Seq<u8>) -> nat
    decreases bytes.len(),
{
    if bytes.len() == 0 {
        0
    } else {
        bytes[0] as nat + 256 * le_value(bytes.drop_first())
    }
}

/// The lowest `len` bytes of `n`, lowest byte first.
pub open spec fn le_bytes(n: nat, len: nat) -> Seq<u8>
    decreases len,
{
    if len == 0 {
        Seq::empty()
    } else {
        seq![(n % 256) as u8] + le_bytes(n / 256, (len - 1) as nat)
    }
}

/// The value of `bytes` read as a big-endian number.
pub open spec fn be_value(bytes: Seq<u8>) -> nat
    decreases bytes.len(),
{
    if bytes.len() == 0 {
        0
    } else {
        256 * be_value(bytes.drop_last()) + bytes.last() as nat
    }
}

/// The lowest `len` bytes of `n`, highest byte first.
pub open spec fn be_bytes(n: nat, len: nat) -> Seq<u8>
    decreases len,
{
    if len == 0 {
        Seq::empty()
    } else {
        be_bytes(n / 256, (len - 1) as nat).push((n % 256) as u8)
    }
}

/// The byte-wise exclusive or of `a` with as many bytes of `b`.
pub open spec fn xor_bytes(a: Seq<u8>, b: Seq<u8>) -> Seq<u8> {
    Seq::new(a.len(), |i: int| a[i] ^ b[i])
}

/// `len` zero bytes.
pub open spec fn zeros(len: nat) -> Seq<u8> {
    Seq::new(len, |i: int| 0u8)
}

/// A number has as many bytes as are asked for.
pub proof fn lemma_le_bytes_len(n: nat, len: nat)
    ensures
        le_bytes(n, len).len() == len,
    decreases len,
{
    if len > 0 {
        lemma_le_bytes_len(n / 256, (len - 1) as nat);
    }
}

/// Reading the bytes of a number gives the number back, where it fits.
pub proof fn lemma_le_value_of_bytes(n: nat, len: nat)
    requires
        n < pow(256, len),
    ensures
        le_value(le_bytes(n, len)) == n,
    decreases len,
{
    reveal(pow);
    if len > 0 {
        let rest = le_bytes(n / 256, (len - 1) as nat);
        assert(n / 256 < pow(256, (len - 1) as nat)) by (nonlinear_arith)
            requires
                n < pow(256, len),
                pow(256, len) == 256 * pow(256, (len - 1) as nat),
        ;
        lemma_le_value_of_bytes(n / 256, (len - 1) as nat);
        assert(le_bytes(n, len).drop_first() =~= rest);
    }
}

/// A number has as many bytes as are asked for.
pub proof fn lemma_be_bytes_len(n: nat, len: nat)
    ensures
        be_bytes(n, len).len() == len,
    decreases len,
{
    if len > 0 {
        lemma_be_bytes_len(n / 256, (len - 1) as nat);
    }
}

/// Reading the bytes of a number gives the number back, where it fits.
pub proof fn lemma_be_value_of_bytes(n: nat, len: nat)
    requires
        n < pow(256, len),
    ensures
        be_value(be_bytes(n, len)) == n,
    decreases len,
{
    reveal(pow);
    if len > 0 {
        let rest = be_bytes(n / 256, (len - 1) as nat);
        assert(n / 256 < pow(256, (len - 1) as nat)) by (nonlinear_arith)
            requires
                n < pow(256, len),
                pow(256, len) == 256 * pow(256, (len - 1) as nat),
        ;
        lemma_be_value_of_bytes(n / 256, (len - 1) as nat);
        assert(be_bytes(n, len).drop_last() =~= rest);
    }
}

/// Two numbers with the same low bytes agree modulo the corresponding power of 256.
pub proof fn lemma_be_bytes_injective(m: nat, n: nat, len: nat)
    requires
        m < pow(256, len),
        n < pow(256, len),
        be_bytes(m, len) == be_bytes(n, len),
    ensures
        m == n,
{
    lemma_be_value_of_bytes(m, len);
    lemma_be_value_of_bytes(n, len);
}

/// Masking twice with the same bytes restores what was there.
pub proof fn lemma_xor_undoes(a: Seq<u8>, mask: Seq<u8>)
    ensures
        xor_bytes(xor_bytes(a, mask), mask) == a,
{
    assert forall|i: int| 0 <= i < a.len() implies xor_bytes(xor_bytes(a, mask), mask)[i]
        == a[i] by {
        let x = a[i];
        let m = mask[i];
        assert((x ^ m) ^ m == x) by (bit_vector);
    }
    assert(xor_bytes(xor_bytes(a, mask), mask) =~= a);
}

/// The two bytes of `n`, highest first.
pub fn be16(n: u16) -> (r: [u8; 2])
    ensures
        r@ == be_bytes(n as nat, 2),
{
    let r = [(n / 256) as u8, (n % 256) as u8];
    proof {
        reveal_with_fuel(be_bytes, 3);
        assert(r@ =~= be_bytes(n as nat, 2));
    }
    r
}

/// The lowest three bytes of `n`, highest first.
pub fn be24(n: u32) -> (r: [u8; 3])
    ensures
        r@ == be_bytes(n as nat, 3),
{
    let r = [(n / 256 / 256 % 256) as u8, (n / 256 % 256) as u8, (n % 256) as u8];
    proof {
        reveal_with_fuel(be_bytes, 4);
        assert(r@ =~= be_bytes(n as nat, 3));
    }
    r
}

/// The four bytes of `n`, highest first.
pub fn be32(n: u32) -> (r: [u8; 4])
    ensures
        r@ == be_bytes(n as nat, 4),
{
    let r = [
        (n / 256 / 256 / 256) as u8,
        (n / 256 / 256 % 256) as u8,
        (n / 256 % 256) as u8,
        (n % 256) as u8,
    ];
    proof {
        reveal_with_fuel(be_bytes, 5);
        assert(r@ =~= be_bytes(n as nat, 4));
    }
    r
}

/// Appends `bytes` to `out`.
pub fn append_bytes(out: &mut Vec<u8>, bytes: &[u8])
    ensures
        final(out)@ == old(out)@ + bytes@,
{
    out.extend_from_slice(bytes);
    assert(out@ =~= old(out)@ + bytes@);
}

/// A sixteen-bit number is sent as its high and its low byte.
pub proof fn law_two_bytes(n: u16)
    ensures
        be_bytes(n as nat, 2) == seq![(n / 256) as u8, (n % 256) as u8],
{
    reveal_with_fuel(be_bytes, 3);
    assert(be_bytes(n as nat, 2) =~= seq![(n / 256) as u8, (n % 256) as u8]);
}

/// The three bytes of a number stand for its lowest 24 bits, the highest first.
pub proof fn law_three_bytes(n: u32)
    ensures
        be_bytes(n as nat, 3) == seq![
            (n / 65536 % 256) as u8,
            (n / 256 % 256) as u8,
            (n % 256) as u8,
        ],
{
    reveal_with_fuel(be_bytes, 4);
    assert(n as nat / 256 / 256 == n / 65536);
    assert(be_bytes(n as nat, 3) =~= seq![
        (n / 65536 % 256) as u8,
        (n / 256 % 256) as u8,
        (n % 256) as u8,
    ]);
}

/// The four bytes of a number stand for all of it, the highest first.
pub proof fn law_four_bytes(n: u32)
    ensures
        be_bytes(n as nat, 4) == seq![
            (n / 16777216) as u8,
            (n / 65536 % 256) as u8,
            (n / 256 % 256) as u8,
            (n % 256) as u8,
        ],
{
    reveal_with_fuel(be_bytes, 5);
    assert(n as nat / 256 / 256 == n / 65536);
    assert(n as nat / 256 / 256 / 256 == n / 16777216);
    assert(be_bytes(n as nat, 4) =~= seq![
        (n / 16777216) as u8,
        (n / 65536 % 256) as u8,
        (n / 256 % 256) as u8,
        (n % 256) as u8,
    ]);
}

/// Numbers are read a byte at a time: the highest first, or the lowest first.
pub proof fn law_values_grow(bytes: Seq<u8>, b: u8)
    ensures
        be_value(Seq::empty()) == 0,
        be_value(bytes.push(b)) == 256 * be_value(bytes) + b,
        le_value(Seq::empty()) == 0,
        le_value(seq![b] + bytes) == b + 256 * le_value(bytes),
{
    assert(bytes.push(b).drop_last() =~= bytes);
    assert((seq![b] + bytes).drop_first() =~= bytes);
}

/// Masking keeps the length and works on each byte by itself.
pub proof fn law_masking(a: Seq<u8>, b: Seq<u8>, i: int)
    requires
        0 <= i < a.len(),
    ensures
        xor_bytes(a, b).len() == a.len(),
        xor_bytes(a, b)[i] == a[i] ^ b[i],
        zeros(a.len()).len() == a.len(),
        zeros(a.len())[i] == 0,
{
}

} // verus!
