//! Little-endian integer fields and the byte-level helpers shared by the message encoder
//! and decoder.
use vstd::prelude::*;
use vstd::arithmetic::div_mod::{lemma_fundamental_div_mod_converse, lemma_mod_breakdown};

verus! {

/// `256` raised to the power `n`: the number of distinct values an `n`-byte field holds.
pub open spec fn pow256(n: nat) -> nat
    decreases n,
{
    if n == 0 {
        1
    } else {
        256 * pow256((n - 1) as nat)
    }
}

/// The `n` low-order bytes of `v`, least significant first.
pub open spec fn le_bytes(v: nat, n: nat) -> Seq<u8>
    decreases n,
{
    if n == 0 {
        Seq::empty()
    } else {
        seq![(v % 256) as u8] + le_bytes(v / 256, (n - 1) as nat)
    }
}

/// The number whose little-endian representation is `s`.
pub open spec fn le_value(s: Seq<u8>) -> nat
    decreases s.len(),
{
    if s.len() == 0 {
        0
    } else {
        s[0] as nat + 256 * le_value(s.subrange(1, s.len() as int))
    }
}

/// A run of `n` zero bytes.
pub open spec fn zeros(n: nat) -> Seq<u8> {
    Seq::new(n, |i: int| 0u8)
}

pub proof fn lemma_pow256_positive(n: nat)
    ensures
        pow256(n) > 0,
    decreases n,
{
    if n > 0 {
        lemma_pow256_positive((n - 1) as nat);
    }
}

pub broadcast proof fn lemma_le_bytes_len(v: nat, n: nat)
    ensures
        #[trigger] le_bytes(v, n).len() == n,
    decreases n,
{
    if n > 0 {
        lemma_le_bytes_len(v / 256, (n - 1) as nat);
    }
}

/// A little-endian field of `n` bytes holds a value below `256^n`.
pub proof fn lemma_le_value_bound(s: Seq<u8>)
    ensures
        le_value(s) < pow256(s.len()),
    decreases s.len(),
{
    if s.len() > 0 {
        let rest = s.subrange(1, s.len() as int);
        lemma_le_value_bound(rest);
        let r = le_value(rest);
        let p = pow256(rest.len());
        assert(s[0] as nat + 256 * r < 256 * p) by (nonlinear_arith)
            requires
                s[0] < 256,
                r < p,
        ;
    }
}

/// Reading a field and writing its value back gives the same bytes.
pub proof fn lemma_le_bytes_of_value(s: Seq<u8>)
    ensures
        le_bytes(le_value(s), s.len()) == s,
    decreases s.len(),
{
    if s.len() > 0 {
        let rest = s.subrange(1, s.len() as int);
        lemma_le_bytes_of_value(rest);
        let v = le_value(s);
        let r = le_value(rest);
        lemma_fundamental_div_mod_converse(v as int, 256, r as int, s[0] as int);
        lemma_le_bytes_len(r, rest.len());
        assert(le_bytes(v, s.len()) =~= s);
    }
}

/// Appends the `n` low-order bytes of `v` to `out`, least significant first.
pub fn push_le(out: &mut Vec<u8>, v: u64, n: usize)
    requires
        n <= 8,
    ensures
        final(out)@ == old(out)@ + le_bytes(v as nat, n as nat),
{
    let mut cur: u64 = v;
    let mut i: usize = 0;
    while i < n
        invariant
            i <= n,
            out@ + le_bytes(cur as nat, (n - i) as nat) == old(out)@ + le_bytes(v as nat, n as nat),
        decreases n - i,
    {
        let ghost before = out@;
        out.push((cur % 256) as u8);
        assert(le_bytes(cur as nat, (n - i) as nat) =~= seq![(cur % 256) as u8] + le_bytes(
            (cur / 256) as nat,
            (n - i - 1) as nat,
        ));
        assert(out@ + le_bytes((cur / 256) as nat, (n - i - 1) as nat) =~= before + le_bytes(
            cur as nat,
            (n - i) as nat,
        ));
        cur = cur / 256;
        i = i + 1;
    }
    assert(out@ + le_bytes(cur as nat, 0) =~= out@);
}

/// Appends `n` zero bytes to `out`.
pub fn push_zeros(out: &mut Vec<u8>, n: usize)
    ensures
        final(out)@ == old(out)@ + zeros(n as nat),
{
    let mut i: usize = 0;
    while i < n
        invariant
            i <= n,
            out@ == old(out)@ + zeros(i as nat),
        decreases n - i,
    {
        out.push(0u8);
        i = i + 1;
        assert(out@ =~= old(out)@ + zeros(i as nat));
    }
}

/// Reads the little-endian value of the `n` bytes of `b` that start at `start`.
pub fn read_le(b: &[u8], start: usize, n: usize) -> (v: u64)
    requires
        n <= 8,
        start + n <= b@.len(),
    ensures
        v as nat == le_value(b@.subrange(start as int, start + n)),
{
    let ghost field = b@.subrange(start as int, start + n);
    let len = b.len();
    let mut acc: u64 = 0;
    let mut i: usize = n;
    while i > 0
        invariant
            i <= n <= 8,
            start + n <= len == b@.len(),
            field == b@.subrange(start as int, start + n),
            acc as nat == le_value(field.subrange(i as int, n as int)),
        decreases i,
    {
        let ghost tail = field.subrange(i as int, n as int);
        let ghost longer = field.subrange(i - 1, n as int);
        assert(longer.subrange(1, longer.len() as int) =~= tail);
        proof {
            lemma_le_value_bound(longer);
            assert(pow256(longer.len()) <= pow256(8)) by {
                lemma_pow256_monotone(longer.len(), 8);
            }
            lemma_pow256_widths();
        }
        acc = b[start + (i - 1)] as u64 + 256 * acc;
        i = i - 1;
    }
    assert(field.subrange(0, n as int) =~= field);
    acc
}

pub proof fn lemma_pow256_monotone(a: nat, b: nat)
    requires
        a <= b,
    ensures
        pow256(a) <= pow256(b),
    decreases b,
{
    if a < b {
        lemma_pow256_monotone(a, (b - 1) as nat);
        lemma_pow256_positive((b - 1) as nat);
    }
}

/// Appends the bytes of `s` to `out`.
pub fn push_bytes(out: &mut Vec<u8>, s: &[u8])
    ensures
        final(out)@ == old(out)@ + s@,
{
    let mut i: usize = 0;
    let n = s.len();
    while i < n
        invariant
            i <= n == s@.len(),
            out@ == old(out)@ + s@.subrange(0, i as int),
        decreases n - i,
    {
        out.push(s[i]);
        i = i + 1;
        assert(out@ =~= old(out)@ + s@.subrange(0, i as int));
    }
    assert(s@.subrange(0, n as int) =~= s@);
}

/// The bytes of `b` from `start` to the end.
pub fn tail_vec(b: &[u8], start: usize) -> (v: Vec<u8>)
    requires
        start <= b@.len(),
    ensures
        v@ == b@.subrange(start as int, b@.len() as int),
{
    let mut v: Vec<u8> = Vec::new();
    let n = b.len();
    let mut i: usize = start;
    while i < n
        invariant
            start <= i <= n == b@.len(),
            v@ == b@.subrange(start as int, i as int),
        decreases n - i,
    {
        v.push(b[i]);
        i = i + 1;
        assert(v@ =~= b@.subrange(start as int, i as int));
    }
    v
}

/// The `N` bytes of `b` that start at `start`.
pub fn read_array<const N: usize>(b: &[u8], start: usize) -> (a: [u8; N])
    requires
        start + N <= b@.len(),
    ensures
        a@ == b@.subrange(start as int, start + N),
{
    let mut a: [u8; N] = vstd::array::array_fill_for_copy_types::<u8, N>(0u8);
    let len = b.len();
    let mut i: usize = 0;
    while i < N
        invariant
            i <= N,
            start + N <= len == b@.len(),
            a@.len() == N,
            forall|k: int| 0 <= k < i ==> a@[k] == b@[start + k],
        decreases N - i,
    {
        a[i] = b[start + i];
        i = i + 1;
    }
    assert(a@ =~= b@.subrange(start as int, start + N));
    a
}

/// Reads the two-byte little-endian field of `b` at `start`.
pub fn read_u16(b: &[u8], start: usize) -> (v: u16)
    requires
        start + 2 <= b@.len(),
    ensures
        v as nat == le_value(b@.subrange(start as int, start + 2)),
{
    let v = read_le(b, start, 2);
    proof {
        lemma_le_value_bound(b@.subrange(start as int, start + 2));
        lemma_pow256_widths();
    }
    v as u16
}

/// Reads the four-byte little-endian field of `b` at `start`.
pub fn read_u32(b: &[u8], start: usize) -> (v: u32)
    requires
        start + 4 <= b@.len(),
    ensures
        v as nat == le_value(b@.subrange(start as int, start + 4)),
{
    let v = read_le(b, start, 4);
    proof {
        lemma_le_value_bound(b@.subrange(start as int, start + 4));
        lemma_pow256_widths();
    }
    v as u32
}

/// Writing `v` into `n` bytes and reading them back gives `v` modulo `256^n`.
pub broadcast proof fn lemma_le_value_of_bytes_mod(v: nat, n: nat)
    ensures
        #[trigger] le_value(le_bytes(v, n)) == v % pow256(n),
    decreases n,
{
    lemma_le_bytes_len(v, n);
    lemma_pow256_positive(n);
    if n == 0 {
        assert(v % 1 == 0);
    } else {
        let p = pow256((n - 1) as nat);
        lemma_pow256_positive((n - 1) as nat);
        lemma_le_value_of_bytes_mod(v / 256, (n - 1) as nat);
        let s = le_bytes(v, n);
        assert(s.subrange(1, s.len() as int) =~= le_bytes(v / 256, (n - 1) as nat));
        lemma_mod_breakdown(v as int, 256, p as int);
    }
}

/// The values of the field widths the messages use.
pub proof fn lemma_pow256_widths()
    ensures
        pow256(1) == 0x100,
        pow256(2) == 0x1_0000,
        pow256(3) == 0x100_0000,
        pow256(4) == 0x1_0000_0000,
        pow256(6) == 0x1_0000_0000_0000,
        pow256(8) == 0x1_0000_0000_0000_0000,
{
    reveal_with_fuel(pow256, 9);
}

/// The low `n` bytes of two values that agree modulo `256^n` are the same.
pub proof fn lemma_le_bytes_mod(a: nat, b: nat, n: nat)
    requires
        a % pow256(n) == b % pow256(n),
    ensures
        le_bytes(a, n) == le_bytes(b, n),
    decreases n,
{
    if n > 0 {
        let p = pow256((n - 1) as nat);
        lemma_pow256_positive((n - 1) as nat);
        lemma_mod_breakdown(a as int, 256, p as int);
        lemma_mod_breakdown(b as int, 256, p as int);
        assert(a % 256 == b % 256 && (a / 256) % p == (b / 256) % p) by {
            let ra = a % 256;
            let rb = b % 256;
            let qa = (a / 256) % p;
            let qb = (b / 256) % p;
            assert(256 * qa + ra == 256 * qb + rb);
            assert(ra < 256 && rb < 256);
            lemma_fundamental_div_mod_converse((256 * qa + ra) as int, 256, qa as int, ra as int);
            lemma_fundamental_div_mod_converse((256 * qb + rb) as int, 256, qb as int, rb as int);
        }
        lemma_le_bytes_mod(a / 256, b / 256, (n - 1) as nat);
    }
}

/// Positional notation: byte `i` of the little-endian representation of `v` is the
/// base-256 digit `(v / 256^i) % 256`.
pub proof fn lemma_le_bytes_positional(v: nat, n: nat)
    ensures
        le_bytes(v, n).len() == n,
        forall|i: int| 0 <= i < n ==> #[trigger] le_bytes(v, n)[i] == (v / pow256(i as nat)) % 256,
    decreases n,
{
    lemma_le_bytes_len(v, n);
    if n > 0 {
        lemma_le_bytes_positional(v / 256, (n - 1) as nat);
        let s = le_bytes(v, n);
        assert forall|i: int| 0 <= i < n implies #[trigger] s[i] == (v / pow256(i as nat)) % 256 by {
            if i == 0 {
                assert(pow256(0) == 1);
                assert(v / 1 == v);
            } else {
                lemma_pow256_positive((i - 1) as nat);
                vstd::arithmetic::div_mod::lemma_div_denominator(v as int, 256, pow256((i - 1) as nat) as int);
                assert(s[i] == le_bytes(v / 256, (n - 1) as nat)[i - 1]);
                assert((i - 1) as nat == (i as nat - 1) as nat);
            }
        }
    }
}

/// Reading little-endian bytes weighs byte `i` by `256^i`: the value of a sequence is its
/// first byte plus 256 times the value of the rest, and an empty sequence is zero.
pub proof fn lemma_le_value_positional(s: Seq<u8>)
    ensures
        s.len() == 0 ==> le_value(s) == 0,
        s.len() > 0 ==> le_value(s) == s[0] as nat + 256 * le_value(s.subrange(1, s.len() as int)),
        s.len() > 0 ==> le_value(s) == le_value(s.subrange(0, s.len() - 1)) + pow256((s.len() - 1) as nat)
            * s[s.len() - 1] as nat,
    decreases s.len(),
{
    if s.len() > 1 {
        let rest = s.subrange(1, s.len() as int);
        lemma_le_value_positional(rest);
        let init = s.subrange(0, s.len() - 1);
        assert(init.subrange(1, init.len() as int) =~= rest.subrange(0, rest.len() - 1));
        assert(rest[rest.len() - 1] == s[s.len() - 1]);
        let p = pow256((rest.len() - 1) as nat);
        let a = le_value(rest.subrange(0, rest.len() - 1));
        let x = s[s.len() - 1] as nat;
        assert(256 * (a + p * x) == 256 * a + (256 * p) * x) by (nonlinear_arith);
        assert(le_value(init) == init[0] as nat + 256 * le_value(init.subrange(1, init.len() as int)));
        assert(init[0] == s[0]);
        assert(le_value(rest) == a + p * x);
        assert(pow256((s.len() - 1) as nat) == 256 * p);
        assert(le_value(s) == le_value(init) + (256 * p) * x);
        assert(le_value(s) == le_value(s.subrange(0, s.len() - 1)) + pow256((s.len() - 1) as nat) * x);
    } else if s.len() == 1 {
        let init = s.subrange(0, 0);
        assert(le_value(init) == 0);
        assert(le_value(s.subrange(1, 1)) == 0);
        assert(pow256(0) == 1);
        assert(le_value(s) == s[0] as nat);
        assert((s.len() - 1) as nat == 0nat);
        assert(pow256((s.len() - 1) as nat) == 1);
        assert(s.subrange(0, s.len() - 1) =~= init);
        assert(s[s.len() - 1] == s[0]);
        let y = s[0] as nat;
        assert(1 * y == y) by (nonlinear_arith);
    }
}

} // verus!
