//! Big-endian integers and fixed-width fields on byte sequences.

use vstd::prelude::*;

verus! {

/// `256` raised to `n`.
pub open spec fn pow256(n: nat) -> nat
    decreases n,
{
    if n == 0 {
        1
    } else {
        256 * pow256((n - 1) as nat)
    }
}

/// The unsigned integer whose big-endian encoding is `s`.
pub open spec fn be_value(s: Seq<u8>) -> nat
    decreases s.len(),
{
    if s.len() == 0 {
        0
    } else {
        be_value(s.drop_last()) * 256 + s.last() as nat
    }
}

/// The `n` low-order bytes of `v`, most significant first.
pub open spec fn be_bytes(v: nat, n: nat) -> Seq<u8>
    decreases n,
{
    if n == 0 {
        Seq::empty()
    } else {
        be_bytes(v / 256, (n - 1) as nat).push((v % 256) as u8)
    }
}

/// `s` cut to `n` bytes, or padded with zero bytes up to `n` bytes.
pub open spec fn fit(s: Seq<u8>, n: nat) -> Seq<u8> {
    if s.len() >= n {
        s.take(n as int)
    } else {
        s + Seq::new((n - s.len()) as nat, |i: int| 0u8)
    }
}

pub proof fn lemma_pow256_facts()
    ensures
        pow256(1) == 0x100,
        pow256(2) == 0x1_0000,
        pow256(4) == 0x1_0000_0000,
        pow256(8) == 0x1_0000_0000_0000_0000,
{
    reveal_with_fuel(pow256, 9);
}

pub proof fn lemma_pow256_positive(n: nat)
    ensures
        pow256(n) >= 1,
    decreases n,
{
    if n > 0 {
        lemma_pow256_positive((n - 1) as nat);
    }
}

pub proof fn lemma_be_bytes_len(v: nat, n: nat)
    ensures
        be_bytes(v, n).len() == n,
    decreases n,
{
    if n > 0 {
        lemma_be_bytes_len(v / 256, (n - 1) as nat);
    }
}

pub proof fn lemma_be_value_bound(s: Seq<u8>)
    ensures
        be_value(s) < pow256(s.len()),
    decreases s.len(),
{
    if s.len() > 0 {
        lemma_be_value_bound(s.drop_last());
    }
}

/// Reading back the `n`-byte encoding of a value below `256^n` gives the value.
pub proof fn lemma_be_value_of_bytes(v: nat, n: nat)
    requires
        v < pow256(n),
    ensures
        be_value(be_bytes(v, n)) == v,
    decreases n,
{
    lemma_be_bytes_len(v, n);
    if n > 0 {
        lemma_be_value_of_bytes(v / 256, (n - 1) as nat);
        assert(be_bytes(v, n).drop_last() =~= be_bytes(v / 256, (n - 1) as nat));
    }
}

/// Encoding the value of `s` in `s.len()` bytes gives `s` back.
pub proof fn lemma_be_bytes_of_value(s: Seq<u8>)
    ensures
        be_bytes(be_value(s), s.len()) == s,
    decreases s.len(),
{
    if s.len() > 0 {
        lemma_be_bytes_of_value(s.drop_last());
        let x = be_value(s.drop_last());
        assert((x * 256 + s.last()) / 256 == x);
        assert((x * 256 + s.last()) % 256 == s.last());
        assert(be_bytes(be_value(s), s.len()) =~= s.drop_last().push(s.last()));
        assert(s.drop_last().push(s.last()) =~= s);
    }
}

/// Reads the `n`-byte big-endian unsigned integer at `bytes[start..start + n]`.
pub fn read_be(bytes: &[u8], start: usize, n: usize) -> (r: u64)
    requires
        n <= 8,
        start + n <= bytes@.len(),
    ensures
        r as nat == be_value(bytes@.subrange(start as int, start + n)),
    decreases n,
{
    if n == 0 {
        0
    } else {
        let hi = read_be(bytes, start, n - 1);
        proof {
            let s = bytes@.subrange(start as int, start + n);
            assert(s.drop_last() =~= bytes@.subrange(start as int, start + n - 1));
            lemma_be_value_bound(s.drop_last());
            lemma_be_value_bound(s);
            lemma_pow256_facts();
            pow256_monotonic(n as nat, 8);
        }
        let len = bytes.len();
        let last = bytes[start + (n - 1)];
        hi * 256 + last as u64
    }
}

pub proof fn pow256_monotonic(a: nat, b: nat)
    requires
        a <= b,
    ensures
        pow256(a) <= pow256(b),
    decreases b,
{
    if a < b {
        pow256_monotonic(a, (b - 1) as nat);
        lemma_pow256_positive((b - 1) as nat);
    }
}

/// Appends the `n` low-order bytes of `v` to `dest`, most significant first.
pub fn push_be(dest: &mut Vec<u8>, v: u64, n: usize)
    requires
        n <= 8,
    ensures
        final(dest)@ == old(dest)@ + be_bytes(v as nat, n as nat),
    decreases n,
{
    if n > 0 {
        push_be(dest, v / 256, n - 1);
        dest.push((v % 256) as u8);
        proof {
            assert(dest@ =~= old(dest)@ + be_bytes(v as nat, n as nat));
        }
    }
}

/// Appends all of `src` to `dest`.
pub fn append_bytes(dest: &mut Vec<u8>, src: &[u8])
    ensures
        final(dest)@ == old(dest)@ + src@,
{
    let mut i: usize = 0;
    while i < src.len()
        invariant
            i <= src@.len(),
            dest@ == old(dest)@ + src@.take(i as int),
        decreases src@.len() - i,
    {
        dest.push(src[i]);
        i = i + 1;
        assert(dest@ =~= old(dest)@ + src@.take(i as int));
    }
    assert(src@.take(i as int) =~= src@);
}

/// Copies `bytes[start..end]` into a new vector.
pub fn copy_range(bytes: &[u8], start: usize, end: usize) -> (r: Vec<u8>)
    requires
        start <= end <= bytes@.len(),
    ensures
        r@ == bytes@.subrange(start as int, end as int),
{
    let mut r: Vec<u8> = Vec::new();
    let mut i: usize = start;
    while i < end
        invariant
            start <= i <= end <= bytes@.len(),
            r@ == bytes@.subrange(start as int, i as int),
        decreases end - i,
    {
        r.push(bytes[i]);
        i = i + 1;
        assert(r@ =~= bytes@.subrange(start as int, i as int));
    }
    r
}

/// `src` cut or zero-padded to exactly `n` bytes.
pub fn fit_bytes(src: &[u8], n: usize) -> (r: Vec<u8>)
    ensures
        r@ == fit(src@, n as nat),
{
    let mut r: Vec<u8> = Vec::new();
    let mut i: usize = 0;
    while i < n
        invariant
            i <= n,
            r@.len() == i,
            forall|k: int| 0 <= k < i ==> r@[k] == fit(src@, n as nat)[k],
        decreases n - i,
    {
        if i < src.len() {
            r.push(src[i]);
        } else {
            r.push(0u8);
        }
        i = i + 1;
    }
    assert(r@ =~= fit(src@, n as nat));
    r
}

} // verus!
