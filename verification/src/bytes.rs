//! Byte-level helpers: equality of fixed byte strings, concatenation, and
//! little-endian encoding of integers for identifier derivation.

use vstd::prelude::*;

verus! {

/// The `n` least-significant bytes of `x`, least significant first.
pub open spec fn le_bytes(x: int, n: nat) -> Seq<u8>
    decreases n,
{
    if n == 0 {
        Seq::empty()
    } else {
        seq![(x % 256) as u8] + le_bytes(x / 256, (n - 1) as nat)
    }
}

/// Compare two fixed-size byte strings for equality.
pub fn bytes_eq<const N: usize>(a: &[u8; N], b: &[u8; N]) -> (r: bool)
    ensures
        r == (a@ == b@),
{
    let mut i: usize = 0;
    while i < N
        invariant
            0 <= i <= N,
            forall|j: int| 0 <= j < i ==> a@[j] == b@[j],
        decreases N - i,
    {
        if a[i] != b[i] {
            assert(a@[i as int] != b@[i as int]);
            return false;
        }
        i += 1;
    }
    proof {
        assert(a@ =~= b@);
    }
    true
}

/// Append the bytes of `src` to `dst`.
pub fn append_bytes(dst: &mut Vec<u8>, src: &[u8])
    ensures
        final(dst)@ == old(dst)@ + src@,
{
    let n = src.len();
    let mut i: usize = 0;
    while i < n
        invariant
            0 <= i <= n,
            n == src@.len(),
            dst@ == old(dst)@ + src@.subrange(0, i as int),
        decreases n - i,
    {
        dst.push(src[i]);
        proof {
            assert(old(dst)@ + src@.subrange(0, i + 1) =~= (old(dst)@ + src@.subrange(
                0,
                i as int,
            )).push(src@[i as int]));
        }
        i += 1;
    }
    proof {
        assert(src@.subrange(0, n as int) =~= src@);
    }
}

/// Append the `n`-byte little-endian encoding of `x` to `dst`.
pub fn append_le_bytes(dst: &mut Vec<u8>, x: u128, n: usize)
    ensures
        final(dst)@ == old(dst)@ + le_bytes(x as int, n as nat),
{
    let mut cur: u128 = x;
    let mut i: usize = 0;
    while i < n
        invariant
            0 <= i <= n,
            cur >= 0,
            old(dst)@ + le_bytes(x as int, n as nat) == dst@ + le_bytes(
                cur as int,
                (n - i) as nat,
            ),
        decreases n - i,
    {
        let b: u8 = (cur % 256) as u8;
        proof {
            assert(le_bytes(cur as int, (n - i) as nat) == seq![b] + le_bytes(
                cur as int / 256,
                (n - i - 1) as nat,
            ));
            assert(dst@ + (seq![b] + le_bytes(cur as int / 256, (n - i - 1) as nat)) =~= dst@.push(
                b,
            ) + le_bytes(cur as int / 256, (n - i - 1) as nat));
        }
        dst.push(b);
        cur = cur / 256;
        i += 1;
    }
    proof {
        assert(le_bytes(cur as int, 0) =~= Seq::<u8>::empty());
        assert(dst@ + Seq::<u8>::empty() =~= dst@);
    }
}


/// A copy of a byte vector.
pub fn copy_bytes(v: &Vec<u8>) -> (r: Vec<u8>)
    ensures
        r@ == v@,
{
    let n = v.len();
    let mut out: Vec<u8> = Vec::new();
    let mut i: usize = 0;
    while i < n
        invariant
            0 <= i <= n,
            n == v@.len(),
            out@ =~= v@.subrange(0, i as int),
        decreases n - i,
    {
        out.push(v[i]);
        i += 1;
    }
    proof {
        assert(out@ =~= v@);
    }
    out
}

} // verus!
