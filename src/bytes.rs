//! Little-endian integer encoding.
use vstd::prelude::*;

verus! {

/// The `n` little-endian bytes of `v` (taken modulo `256^n`).
pub open spec fn le_bytes(v: nat, n: nat) -> Seq<u8>
    decreases n,
{
    if n == 0 {
        Seq::empty()
    } else {
        seq![(v % 256) as u8] + le_bytes(v / 256, (n - 1) as nat)
    }
}

/// The number whose little-endian bytes are `b`.
pub open spec fn from_le(b: Seq<u8>) -> nat
    decreases b.len(),
{
    if b.len() == 0 {
        0
    } else {
        b[0] as nat + 256 * from_le(b.skip(1))
    }
}

/// Appends the `n` little-endian bytes of `v` to `out`.
pub fn push_le(out: &mut Vec<u8>, v: u64, n: usize)
    ensures
        final(out)@ == old(out)@ + le_bytes(v as nat, n as nat),
{
    let ghost start = out@;
    let mut x: u64 = v;
    let mut i: usize = 0;
    while i < n
        invariant
            i <= n,
            out@ + le_bytes(x as nat, (n - i) as nat) == start + le_bytes(v as nat, n as nat),
        decreases n - i,
    {
        let ghost before = out@;
        let ghost x0 = x;
        let ghost rest = (n - i) as nat;
        proof {
            assert(le_bytes(x as nat, rest) == seq![(x as nat % 256) as u8] + le_bytes(
                (x / 256) as nat,
                (rest - 1) as nat,
            ));
        }
        out.push((x % 256) as u8);
        x = x / 256;
        i = i + 1;
        assert(out@ + le_bytes(x as nat, (n - i) as nat) =~= before + le_bytes(x0 as nat, rest));
    }
    assert(le_bytes(x as nat, 0) =~= Seq::<u8>::empty());
    assert(out@ + le_bytes(x as nat, 0) =~= out@);
}

/// Reads the number stored little-endian in `b[at..at + n]`.
pub fn read_le(b: &Vec<u8>, at: usize, n: usize) -> (r: u64)
    requires
        at + n <= b@.len(),
        n <= 8,
    ensures
        r == from_le(b@.subrange(at as int, at + n)),
{
    let blen = b.len();
    let mut acc: u64 = 0;
    let mut i: usize = n;
    while i > 0
        invariant
            i <= n,
            blen == b@.len(),
            n <= 8,
            at + n <= b@.len(),
            acc == from_le(b@.subrange(at + i, at + n)),
            from_le(b@.subrange(at + i, at + n)) < pow256((n - i) as nat),
        decreases i,
    {
        let ghost tail = b@.subrange(at + i, at + n);
        i = i - 1;
        let ghost s = b@.subrange(at + i, at + n);
        assert(s.skip(1) =~= tail);
        assert(from_le(s) == b[at + i] as nat + 256 * from_le(tail));
        proof {
            lemma_pow256_bound((n - i - 1) as nat);
            assert(256 * acc + 255 < 0x1_0000_0000_0000_0000) by (nonlinear_arith)
                requires
                    acc < pow256((n - i - 1) as nat),
                    256 * pow256((n - i - 1) as nat) <= 0x1_0000_0000_0000_0000;
            assert(pow256((n - i) as nat) == 256 * pow256((n - i - 1) as nat));
            assert(from_le(s) < pow256((n - i) as nat)) by (nonlinear_arith)
                requires
                    from_le(s) == b[at + i] as nat + 256 * from_le(tail),
                    from_le(tail) < pow256((n - i - 1) as nat),
                    pow256((n - i) as nat) == 256 * pow256((n - i - 1) as nat),
                    b[at + i] < 256;
        }
        let byte = b[at + i] as u64;
        assert(byte < 256);
        acc = byte + 256 * acc;
    }
    acc
}

/// `256^n`.
pub open spec fn pow256(n: nat) -> nat
    decreases n,
{
    if n == 0 {
        1
    } else {
        256 * pow256((n - 1) as nat)
    }
}

proof fn lemma_pow256_bound(n: nat)
    requires
        n <= 7,
    ensures
        256 * pow256(n) <= 0x1_0000_0000_0000_0000,
{
    lemma_pow256_mono(n, 7);
    reveal_with_fuel(pow256, 8);
    assert(pow256(7) == 0x100_0000_0000_0000);
}

proof fn lemma_pow256_mono(n: nat, m: nat)
    requires
        n <= m,
    ensures
        pow256(n) <= pow256(m),
    decreases m - n,
{
    if n < m {
        lemma_pow256_mono(n, (m - 1) as nat);
    }
}

} // verus!
