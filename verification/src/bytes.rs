//! Byte strings: fixed-width integers, slices of arrays, and the
//! lexicographic order on equally long strings.
use vstd::arithmetic::div_mod::{
    lemma_div_denominator, lemma_fundamental_div_mod, lemma_fundamental_div_mod_converse,
};
use vstd::prelude::*;

verus! {

/// `n` zero bytes.
pub open spec fn zeros(n: nat) -> Seq<u8> {
    Seq::new(n, |i: int| 0u8)
}

/// `n` bytes of value `b`.
pub open spec fn repeated(b: u8, n: nat) -> Seq<u8> {
    Seq::new(n, |i: int| b)
}

/// `whole` with `part` written over the bytes from position `at` on.
pub open spec fn overwritten(whole: Seq<u8>, at: int, part: Seq<u8>) -> Seq<u8> {
    whole.subrange(0, at) + part + whole.subrange(at + part.len(), whole.len() as int)
}

/// The big-endian encoding of a 32-bit number.
pub open spec fn be32(x: u32) -> Seq<u8> {
    seq![
        (x / 0x100_0000) as u8,
        (x / 0x1_0000 % 0x100) as u8,
        (x / 0x100 % 0x100) as u8,
        (x % 0x100) as u8,
    ]
}

/// The number that four bytes stand for in big-endian order.
pub open spec fn from_be32(s: Seq<u8>) -> u32 {
    (s[0] * 0x100_0000 + s[1] * 0x1_0000 + s[2] * 0x100 + s[3]) as u32
}

/// Whether `a` comes before `b`: they differ, and at the first place where
/// they do, `a` holds the smaller byte.
pub open spec fn precedes(a: Seq<u8>, b: Seq<u8>) -> bool {
    exists|i: int|
        0 <= i < a.len() && i < b.len() && #[trigger] a[i] < b[i] && a.subrange(0, i)
            == b.subrange(0, i)
}

pub proof fn lemma_be32_round_trip(x: u32)
    ensures
        be32(x).len() == 4,
        from_be32(be32(x)) == x,
{
    let n = x as int;
    lemma_fundamental_div_mod(n, 0x100);
    lemma_fundamental_div_mod(n / 0x100, 0x100);
    lemma_fundamental_div_mod(n / 0x1_0000, 0x100);
    lemma_div_denominator(n, 0x100, 0x100);
    lemma_div_denominator(n, 0x1_0000, 0x100);
    let s = be32(x);
    assert(s[0] == n / 0x100_0000);
    assert(s[1] == n / 0x1_0000 % 0x100);
    assert(s[2] == n / 0x100 % 0x100);
    assert(s[3] == n % 0x100);
}

pub proof fn lemma_from_be32_round_trip(s: Seq<u8>)
    requires
        s.len() == 4,
    ensures
        be32(from_be32(s)) == s,
{
    let (a, b, c, d) = (s[0] as int, s[1] as int, s[2] as int, s[3] as int);
    let x = a * 0x100_0000 + b * 0x1_0000 + c * 0x100 + d;
    lemma_fundamental_div_mod_converse(x, 0x100_0000, a, b * 0x1_0000 + c * 0x100 + d);
    lemma_fundamental_div_mod_converse(x, 0x1_0000, a * 0x100 + b, c * 0x100 + d);
    lemma_fundamental_div_mod_converse(a * 0x100 + b, 0x100, a, b);
    lemma_fundamental_div_mod_converse(x, 0x100, a * 0x1_0000 + b * 0x100 + c, d);
    lemma_fundamental_div_mod_converse(a * 0x1_0000 + b * 0x100 + c, 0x100, a * 0x100 + b, c);
    assert(be32(from_be32(s)) =~= s);
}

/// Of two different strings of one length, one precedes the other, and not
/// the other way round.
pub proof fn lemma_precedes_total(a: Seq<u8>, b: Seq<u8>)
    requires
        a.len() == b.len(),
    ensures
        precedes(a, b) ==> a != b,
        a != b ==> precedes(a, b) != precedes(b, a),
{
    if precedes(a, b) && precedes(b, a) {
        let i = choose|i: int|
            0 <= i < a.len() && i < b.len() && #[trigger] a[i] < b[i] && a.subrange(0, i)
                == b.subrange(0, i);
        let j = choose|j: int|
            0 <= j < b.len() && j < a.len() && #[trigger] b[j] < a[j] && b.subrange(0, j)
                == a.subrange(0, j);
        if i < j {
            assert(b.subrange(0, j)[i] == a.subrange(0, j)[i]);
        } else if j < i {
            assert(a.subrange(0, i)[j] == b.subrange(0, i)[j]);
        }
        assert(false);
    }
    if a != b {
        assert(a.subrange(0, 0) =~= b.subrange(0, 0));
        lemma_first_difference(a, b, 0);
    }
}

proof fn lemma_first_difference(a: Seq<u8>, b: Seq<u8>, from: int)
    requires
        a.len() == b.len(),
        a != b,
        0 <= from <= a.len(),
        a.subrange(0, from) == b.subrange(0, from),
    ensures
        precedes(a, b) || precedes(b, a),
    decreases a.len() - from,
{
    if from == a.len() {
        assert(a.subrange(0, from) =~= a);
        assert(b.subrange(0, from) =~= b);
    } else if a[from] == b[from] {
        assert(a.subrange(0, from + 1) =~= a.subrange(0, from).push(a[from]));
        assert(b.subrange(0, from + 1) =~= b.subrange(0, from).push(b[from]));
        lemma_first_difference(a, b, from + 1);
    }
}

pub(crate) fn u32_to_be(x: u32) -> (r: [u8; 4])
    ensures
        r@ == be32(x),
{
    let r: [u8; 4] = [
        (x / 0x100_0000) as u8,
        (x / 0x1_0000 % 0x100) as u8,
        (x / 0x100 % 0x100) as u8,
        (x % 0x100) as u8,
    ];
    assert(r@ =~= be32(x));
    r
}

pub(crate) fn u32_from_be(s: &[u8; 4]) -> (x: u32)
    ensures
        x == from_be32(s@),
{
    s[0] as u32 * 0x100_0000 + s[1] as u32 * 0x1_0000 + s[2] as u32 * 0x100 + s[3] as u32
}

/// `N` zero bytes.
pub(crate) fn zero_array<const N: usize>() -> (r: [u8; N])
    ensures
        r@ == zeros(N as nat),
{
    let r: [u8; N] = [0u8;N];
    proof {
        vstd::array::axiom_spec_array_fill_for_copy_type::<u8, N>(0u8);
    }
    assert(r@ =~= zeros(N as nat));
    r
}

/// The `N` bytes of `source` from position `at` on.
pub(crate) fn take_array<const N: usize>(source: &[u8], at: usize) -> (r: [u8; N])
    requires
        at + N <= source@.len(),
    ensures
        r@ == source@.subrange(at as int, at + N),
{
    let mut r: [u8; N] = [0u8;N];
    let n: usize = source.len();
    let mut i: usize = 0;
    while i < N
        invariant
            0 <= i <= N,
            n == source@.len(),
            at + N <= n,
            r@.len() == N,
            forall|j: int| 0 <= j < i ==> r@[j] == source@[at + j],
        decreases N - i,
    {
        r[i] = source[at + i];
        i = i + 1;
    }
    assert(r@ =~= source@.subrange(at as int, at + N));
    r
}

/// Writes `part` over the bytes of `whole` from position `at` on.
pub(crate) fn overwrite<const N: usize>(whole: &mut [u8; N], at: usize, part: &[u8])
    requires
        at + part@.len() <= N,
    ensures
        final(whole)@ == overwritten(old(whole)@, at as int, part@),
{
    let mut i: usize = 0;
    let n: usize = part.len();
    let ghost before = whole@;
    while i < n
        invariant
            n == part@.len(),
            0 <= i <= n,
            at + n <= N,
            before.len() == N,
            whole@.len() == N,
            forall|j: int| 0 <= j < N ==> whole@[j] == (if at <= j < at + i {
                part@[j - at]
            } else {
                before[j]
            }),
        decreases n - i,
    {
        whole[at + i] = part[i];
        i = i + 1;
    }
    assert(whole@ =~= overwritten(before, at as int, part@));
}

/// Appends `part` to `out`.
pub(crate) fn append_bytes(out: &mut Vec<u8>, part: &[u8])
    ensures
        final(out)@ == old(out)@ + part@,
{
    let ghost before = out@;
    out.extend_from_slice(part);
    assert(out@ =~= before + part@);
}

/// Whether every byte of `s` is zero.
pub(crate) fn is_zero(s: &[u8]) -> (r: bool)
    ensures
        r == (s@ == zeros(s@.len())),
{
    let mut i: usize = 0;
    while i < s.len()
        invariant
            0 <= i <= s@.len(),
            forall|j: int| 0 <= j < i ==> s@[j] == 0,
        decreases s@.len() - i,
    {
        if s[i] != 0 {
            assert(zeros(s@.len())[i as int] == 0);
            return false;
        }
        i = i + 1;
    }
    assert(s@ =~= zeros(s@.len()));
    true
}

/// Whether `a` comes before `b` in lexicographic order.
pub(crate) fn is_before(a: &[u8; 32], b: &[u8; 32]) -> (r: bool)
    ensures
        r == precedes(a@, b@),
{
    let mut i: usize = 0;
    while i < 32
        invariant
            0 <= i <= 32,
            a@.subrange(0, i as int) == b@.subrange(0, i as int),
        decreases 32 - i,
    {
        if a[i] != b[i] {
            proof {
                lemma_precedes_total(a@, b@);
                if a@[i as int] < b@[i as int] {
                    assert(precedes(a@, b@));
                } else {
                    assert(b@[i as int] < a@[i as int]);
                    assert(precedes(b@, a@));
                }
            }
            return a[i] < b[i];
        }
        assert(a@.subrange(0, i + 1) =~= a@.subrange(0, i as int).push(a@[i as int]));
        assert(b@.subrange(0, i + 1) =~= b@.subrange(0, i as int).push(b@[i as int]));
        i = i + 1;
    }
    proof {
        assert(a@.subrange(0, 32) =~= a@);
        assert(b@.subrange(0, 32) =~= b@);
        lemma_precedes_total(a@, b@);
    }
    false
}

/// The first byte of an encoded number weighs most, the last one least.
pub proof fn law_big_endian(x: u32)
    ensures
        be32(x).len() == 4,
        be32(x)[0] * 0x100_0000 + be32(x)[1] * 0x1_0000 + be32(x)[2] * 0x100 + be32(x)[3] == x,
        forall|s: Seq<u8>| s.len() == 4 && #[trigger] from_be32(s) == x ==> s == be32(x),
{
    lemma_be32_round_trip(x);
    assert forall|s: Seq<u8>| s.len() == 4 && #[trigger] from_be32(s) == x implies s == be32(
        x,
    ) by {
        lemma_from_be32_round_trip(s);
    }
}

/// Behind a common start, the smaller byte decides which string comes first.
pub proof fn law_first_difference_decides(
    start: Seq<u8>,
    small: u8,
    large: u8,
    rest: Seq<u8>,
    other_rest: Seq<u8>,
)
    requires
        small < large,
        rest.len() == other_rest.len(),
    ensures
        precedes(start.push(small) + rest, start.push(large) + other_rest),
        !precedes(start.push(large) + other_rest, start.push(small) + rest),
{
    let a = start.push(small) + rest;
    let b = start.push(large) + other_rest;
    let n = start.len() as int;
    assert(a.subrange(0, n) =~= start);
    assert(b.subrange(0, n) =~= start);
    assert(a[n] < b[n]);
    assert(precedes(a, b));
    lemma_precedes_total(a, b);
}

/// A string comes before no other that is equal to it.
pub proof fn law_no_string_precedes_itself(a: Seq<u8>)
    ensures
        !precedes(a, a),
{
}

/// Strings of one byte hold that byte everywhere.
pub proof fn law_strings_of_one_byte(b: u8, n: nat)
    ensures
        zeros(n).len() == n,
        forall|i: int| 0 <= i < n ==> zeros(n)[i] == 0,
        repeated(b, n).len() == n,
        forall|i: int| 0 <= i < n ==> repeated(b, n)[i] == b,
{
}

/// Writing over a part leaves the rest as it is.
pub proof fn law_overwriting(whole: Seq<u8>, at: int, part: Seq<u8>)
    requires
        0 <= at,
        at + part.len() <= whole.len(),
    ensures
        overwritten(whole, at, part).len() == whole.len(),
        forall|i: int|
            0 <= i < whole.len() ==> #[trigger] overwritten(whole, at, part)[i] == if at <= i
                && i < at + part.len() {
                part[i - at]
            } else {
                whole[i]
            },
{
}

} // verus!
