//! Big-endian interpretation of byte strings.
//!
//! Bridge contract logs encode every fixed-width field as a 32-byte
//! big-endian word.  The decoder reads those words with the functions here,
//! which are specified against the mathematical value `be_nat` of a byte
//! string.

use vstd::prelude::*;

verus! {

/// 256 raised to the power `n`: the weight of a byte `n` positions from the end.
pub open spec fn pow256(n: nat) -> nat
    decreases n,
{
    if n == 0 {
        1
    } else {
        256 * pow256((n - 1) as nat)
    }
}

/// The value of a byte string read as one big-endian unsigned integer.
pub open spec fn be_nat(s: Seq<u8>) -> nat
    decreases s.len(),
{
    if s.len() == 0 {
        0
    } else {
        be_nat(s.drop_last()) * 256 + s.last() as nat
    }
}

/// The weights of the ninth-from-last and eighth-from-last byte positions,
/// which bound what fits in a `u64`.
pub proof fn lemma_pow256_u64()
    ensures
        pow256(7) == 0x100_0000_0000_0000,
        pow256(8) == 0x1_0000_0000_0000_0000,
{
    reveal_with_fuel(pow256, 9);
}

pub proof fn lemma_pow256_pos(n: nat)
    ensures
        pow256(n) >= 1,
    decreases n,
{
    if n > 0 {
        lemma_pow256_pos((n - 1) as nat);
    }
}

pub proof fn lemma_pow256_mono(a: nat, b: nat)
    requires
        a <= b,
    ensures
        pow256(a) <= pow256(b),
    decreases b,
{
    if a < b {
        lemma_pow256_mono(a, (b - 1) as nat);
    }
}

/// Splitting a byte string splits its value: the prefix is shifted by the
/// weight of the suffix.
pub proof fn lemma_be_nat_append(a: Seq<u8>, b: Seq<u8>)
    ensures
        be_nat(a + b) == be_nat(a) * pow256(b.len()) + be_nat(b),
    decreases b.len(),
{
    if b.len() == 0 {
        assert(a + b =~= a);
        assert(pow256(0) == 1);
        assert(be_nat(a) * 1 == be_nat(a)) by (nonlinear_arith);
    } else {
        lemma_be_nat_append(a, b.drop_last());
        assert((a + b).drop_last() =~= a + b.drop_last());
        assert((a + b).last() == b.last());
        let x = be_nat(a);
        let p = pow256((b.len() - 1) as nat);
        let y = be_nat(b.drop_last());
        assert(b.drop_last().len() == b.len() - 1);
        assert(be_nat(a + b.drop_last()) == x * p + y);
        assert(be_nat(a + b) == be_nat(a + b.drop_last()) * 256 + b.last());
        assert(be_nat(b) == y * 256 + b.last());
        assert(pow256(b.len()) == 256 * p);
        assert((x * p + y) * 256 == x * (256 * p) + y * 256) by (nonlinear_arith);
    }
}

pub proof fn lemma_be_nat_all_zero(s: Seq<u8>)
    requires
        forall|i: int| 0 <= i < s.len() ==> s[i] == 0,
    ensures
        be_nat(s) == 0,
    decreases s.len(),
{
    if s.len() > 0 {
        lemma_be_nat_all_zero(s.drop_last());
    }
}

/// Leading zero bytes do not change the value.
pub proof fn lemma_be_nat_zero_prefix(s: Seq<u8>, k: int)
    requires
        0 <= k <= s.len(),
        forall|i: int| 0 <= i < k ==> s[i] == 0,
    ensures
        be_nat(s) == be_nat(s.skip(k)),
{
    assert(s =~= s.take(k) + s.skip(k));
    lemma_be_nat_append(s.take(k), s.skip(k));
    lemma_be_nat_all_zero(s.take(k));
}

/// A non-zero byte at position `i` forces the value to at least the weight
/// of that position.
pub proof fn lemma_be_nat_nonzero_at(s: Seq<u8>, i: int)
    requires
        0 <= i < s.len(),
        s[i] != 0,
    ensures
        be_nat(s) >= pow256((s.len() - 1 - i) as nat),
{
    let head = s.take(i + 1);
    let tail = s.skip(i + 1);
    assert(s =~= head + tail);
    lemma_be_nat_append(head, tail);
    assert(head.last() == s[i]);
    assert(be_nat(head) >= 1);
    assert(be_nat(head) * pow256(tail.len()) >= 1 * pow256(tail.len())) by (nonlinear_arith)
        requires
            be_nat(head) >= 1,
    ;
}

/// Reads `data[start..end]` as a big-endian integer, provided the value fits
/// in a `u64`; reports `None` exactly when it does not.
pub fn read_be_u64(data: &Vec<u8>, start: usize, end: usize) -> (r: Option<u64>)
    requires
        start <= end <= data.len(),
    ensures
        ({
            let s = data@.subrange(start as int, end as int);
            &&& r matches Some(v) ==> be_nat(s) <= u64::MAX && v == be_nat(s)
            &&& r is None ==> be_nat(s) > u64::MAX
        }),
{
    let ghost s = data@.subrange(start as int, end as int);
    let len = end - start;
    let cut = if len > 8 {
        end - 8
    } else {
        start
    };
    let mut i = start;
    while i < cut
        invariant
            start <= i <= cut <= end <= data.len(),
            len == end - start,
            len > 8 ==> cut == end - 8,
            len <= 8 ==> cut == start,
            s == data@.subrange(start as int, end as int),
            forall|j: int| start <= j < i ==> data@[j] == 0,
        decreases cut - i,
    {
        if data[i] != 0 {
            proof {
                let p = (i - start) as int;
                assert(s[p] == data@[i as int]);
                lemma_be_nat_nonzero_at(s, p);
                lemma_pow256_mono(8, (s.len() - 1 - p) as nat);
                lemma_pow256_u64();
            }
            return None;
        }
        i += 1;
    }
    let mut acc: u64 = 0;
    let mut j = cut;
    proof {
        assert(s.subrange((cut - start) as int, (cut - start) as int) =~= Seq::<u8>::empty());
    }
    while j < end
        invariant
            cut <= j <= end <= data.len(),
            start <= cut,
            end - cut <= 8,
            s == data@.subrange(start as int, end as int),
            acc == be_nat(s.subrange((cut - start) as int, (j - start) as int)),
            acc < pow256((j - cut) as nat),
        decreases end - j,
    {
        proof {
            lemma_pow256_mono((j - cut) as nat, 7);
            lemma_pow256_u64();
        }
        let b = data[j];
        proof {
            let lo = (cut - start) as int;
            let hi = (j - start) as int;
            assert(s.subrange(lo, hi + 1).drop_last() =~= s.subrange(lo, hi));
            assert(s.subrange(lo, hi + 1).last() == data@[j as int]);
        }
        acc = acc * 256 + (b as u64);
        j += 1;
    }
    proof {
        lemma_be_nat_zero_prefix(s, (cut - start) as int);
        assert(s.skip((cut - start) as int) =~= s.subrange((cut - start) as int, (
        end - start) as int));
        lemma_pow256_u64();
        lemma_pow256_mono((end - cut) as nat, 8);
    }
    Some(acc)
}

/// A fresh copy of a byte vector, equal to the original.
pub fn copy_bytes(v: &Vec<u8>) -> (r: Vec<u8>)
    ensures
        r@ == v@,
{
    let mut r: Vec<u8> = Vec::new();
    let mut i: usize = 0;
    while i < v.len()
        invariant
            i <= v.len(),
            r@ == v@.take(i as int),
        decreases v.len() - i,
    {
        r.push(v[i]);
        proof {
            assert(v@.take(i + 1 as int) =~= v@.take(i as int).push(v@[i as int]));
        }
        i += 1;
    }
    proof {
        assert(v@.take(v@.len() as int) =~= v@);
    }
    r
}

/// A copy of the byte range `v[start..end]`.
pub fn copy_range(v: &Vec<u8>, start: usize, end: usize) -> (r: Vec<u8>)
    requires
        start <= end <= v.len(),
    ensures
        r@ == v@.subrange(start as int, end as int),
{
    let mut r: Vec<u8> = Vec::new();
    let mut i = start;
    while i < end
        invariant
            start <= i <= end <= v.len(),
            r@ == v@.subrange(start as int, i as int),
        decreases end - i,
    {
        r.push(v[i]);
        proof {
            assert(v@.subrange(start as int, i + 1 as int) =~= v@.subrange(
                start as int,
                i as int,
            ).push(v@[i as int]));
        }
        i += 1;
    }
    r
}

/// The weights that split a 32-byte word into four 8-byte limbs, and the
/// weight of the whole word.
pub proof fn lemma_pow256_limbs()
    ensures
        pow256(8) == 0x1_0000_0000_0000_0000,
        pow256(16) == 0x1_0000_0000_0000_0000_0000_0000_0000_0000,
        pow256(24) == 0x1_0000_0000_0000_0000_0000_0000_0000_0000_0000_0000_0000_0000,
        pow256(32) == 0x1_0000_0000_0000_0000_0000_0000_0000_0000_0000_0000_0000_0000_0000_0000_0000_0000,
{
    reveal_with_fuel(pow256, 33);
}

/// Appends a copy of `src` to `dst`.
pub fn push_all(dst: &mut Vec<u8>, src: &Vec<u8>)
    ensures
        final(dst)@ == old(dst)@ + src@,
{
    let mut i: usize = 0;
    proof {
        assert(dst@ =~= old(dst)@ + src@.take(0));
    }
    while i < src.len()
        invariant
            i <= src.len(),
            dst@ == old(dst)@ + src@.take(i as int),
        decreases src.len() - i,
    {
        dst.push(src[i]);
        proof {
            assert(old(dst)@ + src@.take(i + 1) =~= (old(dst)@ + src@.take(i as int)).push(
                src@[i as int],
            ));
        }
        i += 1;
    }
    proof {
        assert(old(dst)@ + src@.take(src@.len() as int) =~= old(dst)@ + src@);
    }
}

/// The `len`-byte big-endian encoding of `v`, most significant byte first.
pub open spec fn be_words(v: nat, len: nat) -> Seq<u8>
    decreases len,
{
    if len == 0 {
        Seq::empty()
    } else {
        be_words(v / 256, (len - 1) as nat).push((v % 256) as u8)
    }
}

/// The `len`-byte big-endian encoding of `v`, reduced modulo the width of
/// the encoding.
pub fn be_bytes_of(v: u64, len: usize) -> (r: Vec<u8>)
    ensures
        r@.len() == len,
        r@ == be_words(v as nat, len as nat),
        be_nat(r@) == v as nat % pow256(len as nat),
    decreases len,
{
    if len == 0 {
        let r: Vec<u8> = Vec::new();
        proof {
            assert(r@ =~= Seq::<u8>::empty());
        }
        r
    } else {
        let mut r = be_bytes_of(v / 256, len - 1);
        let b = (v % 256) as u8;
        let ghost pre = r@;
        r.push(b);
        proof {
            assert(r@.drop_last() =~= pre);
            assert(r@.last() == b);
            lemma_pow256_pos((len - 1) as nat);
            vstd::arithmetic::div_mod::lemma_mod_breakdown(
                v as int,
                256,
                pow256((len - 1) as nat) as int,
            );
        }
        r
    }
}

/// The 32-byte big-endian word holding `v`: how every fixed-width field is
/// laid out in a bridge-contract slot.
pub fn u64_word(v: u64) -> (r: Vec<u8>)
    ensures
        r@.len() == 32,
        r@ == be_words(v as nat, 32),
        be_nat(r@) == v,
{
    let r = be_bytes_of(v, 32);
    proof {
        lemma_pow256_limbs();
        vstd::arithmetic::div_mod::lemma_small_mod(v as nat, pow256(32));
    }
    r
}

/// The big-endian value of the 8-byte limb of `a` starting at `start`.
pub fn be_limb(a: &[u8; 32], start: usize) -> (r: u64)
    requires
        start + 8 <= 32,
    ensures
        r == be_nat(a@.subrange(start as int, start + 8)),
{
    let mut acc: u64 = 0;
    let mut j = start;
    proof {
        assert(a@.subrange(start as int, start as int) =~= Seq::<u8>::empty());
    }
    while j < start + 8
        invariant
            start <= j <= start + 8 <= 32,
            a@.len() == 32,
            acc == be_nat(a@.subrange(start as int, j as int)),
            acc < pow256((j - start) as nat),
        decreases start + 8 - j,
    {
        proof {
            lemma_pow256_mono((j - start) as nat, 7);
            lemma_pow256_u64();
        }
        let b = a[j];
        proof {
            assert(a@.subrange(start as int, j + 1).drop_last() =~= a@.subrange(
                start as int,
                j as int,
            ));
            assert(a@.subrange(start as int, j + 1).last() == a@[j as int]);
        }
        acc = acc * 256 + (b as u64);
        j += 1;
    }
    acc
}

/// Strict lexicographic order on byte strings.
pub open spec fn bytes_lt(a: Seq<u8>, b: Seq<u8>) -> bool
    decreases a.len(),
{
    if b.len() == 0 {
        false
    } else if a.len() == 0 {
        true
    } else if a.first() != b.first() {
        a.first() < b.first()
    } else {
        bytes_lt(a.drop_first(), b.drop_first())
    }
}

/// Compares two byte strings lexicographically.
#[verifier::loop_isolation(false)]
pub fn bytes_less(a: &Vec<u8>, b: &Vec<u8>) -> (r: bool)
    ensures
        r == bytes_lt(a@, b@),
{
    let bound = if a.len() < b.len() {
        a.len()
    } else {
        b.len()
    };
    let mut i: usize = 0;
    proof {
        assert(a@.skip(0) =~= a@);
        assert(b@.skip(0) =~= b@);
    }
    while i < bound
        invariant
            i <= bound,
            bytes_lt(a@, b@) == bytes_lt(a@.skip(i as int), b@.skip(i as int)),
        decreases bound - i,
    {
        if a[i] < b[i] {
            proof {
                assert(a@.skip(i as int).first() == a@[i as int]);
                assert(b@.skip(i as int).first() == b@[i as int]);
            }
            return true;
        }
        if a[i] > b[i] {
            proof {
                assert(a@.skip(i as int).first() == a@[i as int]);
                assert(b@.skip(i as int).first() == b@[i as int]);
            }
            return false;
        }
        proof {
            assert(a@.skip(i as int).first() == a@[i as int]);
            assert(b@.skip(i as int).first() == b@[i as int]);
            assert(a@.skip(i as int).drop_first() =~= a@.skip(i + 1));
            assert(b@.skip(i as int).drop_first() =~= b@.skip(i + 1));
        }
        i += 1;
    }
    proof {
        assert(a@.skip(i as int).len() == a@.len() - i);
        assert(b@.skip(i as int).len() == b@.len() - i);
    }
    a.len() < b.len()
}

/// Decides byte-string equality.
pub fn bytes_equal(a: &Vec<u8>, b: &Vec<u8>) -> (r: bool)
    ensures
        r == (a@ == b@),
{
    if a.len() != b.len() {
        return false;
    }
    let mut i: usize = 0;
    while i < a.len()
        invariant
            i <= a.len(),
            a@.len() == b@.len(),
            forall|t: int| 0 <= t < i ==> a@[t] == b@[t],
        decreases a.len() - i,
    {
        if a[i] != b[i] {
            return false;
        }
        i += 1;
    }
    proof {
        assert(a@ =~= b@);
    }
    true
}

/// A byte string with its trailing zero bytes removed.
pub open spec fn trimmed_zeros(s: Seq<u8>) -> Seq<u8>
    decreases s.len(),
{
    if s.len() == 0 {
        s
    } else if s.last() == 0 {
        trimmed_zeros(s.drop_last())
    } else {
        s
    }
}

/// Strips trailing zero bytes, as bridge logs pad short identifiers with
/// zeros on the right.
pub fn strip_trailing_zeros(v: &Vec<u8>) -> (r: Vec<u8>)
    ensures
        r@ == trimmed_zeros(v@),
{
    let mut end = v.len();
    proof {
        assert(v@.subrange(0, v@.len() as int) =~= v@);
    }
    while end > 0 && v[end - 1] == 0
        invariant
            end <= v.len(),
            trimmed_zeros(v@) == trimmed_zeros(v@.subrange(0, end as int)),
        decreases end,
    {
        proof {
            assert(v@.subrange(0, end as int).drop_last() =~= v@.subrange(0, end - 1 as int));
        }
        end -= 1;
    }
    proof {
        if end > 0 {
            assert(v@.subrange(0, end as int).last() == v@[end - 1]);
        }
        assert(trimmed_zeros(v@.subrange(0, end as int)) == v@.subrange(0, end as int));
    }
    copy_range(v, 0, end)
}

} // verus!
