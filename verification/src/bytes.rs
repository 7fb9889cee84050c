//! Helpers on byte strings.
use vstd::prelude::*;

verus! {

/// The eight bytes of `x`, most significant first.
pub open spec fn be_bytes(x: u64) -> Seq<u8> {
    seq![
        ((x / 0x100_0000_0000_0000) % 0x100) as u8,
        ((x / 0x1_0000_0000_0000) % 0x100) as u8,
        ((x / 0x100_0000_0000) % 0x100) as u8,
        ((x / 0x1_0000_0000) % 0x100) as u8,
        ((x / 0x100_0000) % 0x100) as u8,
        ((x / 0x1_0000) % 0x100) as u8,
        ((x / 0x100) % 0x100) as u8,
        (x % 0x100) as u8,
    ]
}

/// The number whose big-endian bytes are the first eight bytes of `b`.
pub open spec fn be_value(b: Seq<u8>) -> int
    recommends
        b.len() >= 8,
{
    b[0] * 0x100_0000_0000_0000 + b[1] * 0x1_0000_0000_0000 + b[2] * 0x100_0000_0000 + b[3]
        * 0x1_0000_0000 + b[4] * 0x100_0000 + b[5] * 0x1_0000 + b[6] * 0x100 + b[7]
}

/// Big-endian encoding loses nothing: the bytes give the number back.
pub proof fn lemma_be_bytes_value(x: u64)
    ensures
        be_bytes(x).len() == 8,
        be_value(be_bytes(x)) == x,
{
    let q1 = x / 0x100;
    let q2 = x / 0x1_0000;
    let q3 = x / 0x100_0000;
    let q4 = x / 0x1_0000_0000;
    let q5 = x / 0x100_0000_0000;
    let q6 = x / 0x1_0000_0000_0000;
    let q7 = x / 0x100_0000_0000_0000;
    assert(q2 == q1 / 0x100);
    assert(q3 == q2 / 0x100);
    assert(q4 == q3 / 0x100);
    assert(q5 == q4 / 0x100);
    assert(q6 == q5 / 0x100);
    assert(q7 == q6 / 0x100);
    assert(q7 < 0x100);
    assert(x == q1 * 0x100 + x % 0x100);
    assert(q1 == q2 * 0x100 + q1 % 0x100);
    assert(q2 == q3 * 0x100 + q2 % 0x100);
    assert(q3 == q4 * 0x100 + q3 % 0x100);
    assert(q4 == q5 * 0x100 + q4 % 0x100);
    assert(q5 == q6 * 0x100 + q5 % 0x100);
    assert(q6 == q7 * 0x100 + q6 % 0x100);
}

/// Two numbers with the same big-endian bytes are the same number.
pub proof fn lemma_be_bytes_injective(x: u64, y: u64)
    requires
        be_bytes(x) == be_bytes(y),
    ensures
        x == y,
{
    lemma_be_bytes_value(x);
    lemma_be_bytes_value(y);
}

/// Writes `x` as eight bytes, most significant first.
pub fn to_be_bytes(x: u64) -> (out: Vec<u8>)
    ensures
        out@ == be_bytes(x),
{
    let mut out: Vec<u8> = Vec::new();
    out.push(((x / 0x100_0000_0000_0000) % 0x100) as u8);
    out.push(((x / 0x1_0000_0000_0000) % 0x100) as u8);
    out.push(((x / 0x100_0000_0000) % 0x100) as u8);
    out.push(((x / 0x1_0000_0000) % 0x100) as u8);
    out.push(((x / 0x100_0000) % 0x100) as u8);
    out.push(((x / 0x1_0000) % 0x100) as u8);
    out.push(((x / 0x100) % 0x100) as u8);
    out.push((x % 0x100) as u8);
    assert(out@ =~= be_bytes(x));
    out
}

/// Whether two byte strings hold the same bytes.
pub fn bytes_eq(a: &[u8], b: &[u8]) -> (equal: bool)
    ensures
        equal == (a@ == b@),
{
    if a.len() != b.len() {
        return false;
    }
    let mut i: usize = 0;
    while i < a.len()
        invariant
            i <= a.len(),
            a.len() == b.len(),
            forall|j: int| 0 <= j < i ==> a@[j] == b@[j],
        decreases a.len() - i,
    {
        if a[i] != b[i] {
            return false;
        }
        i += 1;
    }
    assert(a@ =~= b@);
    true
}

/// A fresh copy of a byte string.
pub fn copy_bytes(a: &[u8]) -> (out: Vec<u8>)
    ensures
        out@ == a@,
{
    let mut out: Vec<u8> = Vec::new();
    let mut i: usize = 0;
    while i < a.len()
        invariant
            i <= a.len(),
            out@ == a@.take(i as int),
        decreases a.len() - i,
    {
        out.push(a[i]);
        i += 1;
        assert(out@ =~= a@.take(i as int));
    }
    assert(a@.take(a.len() as int) =~= a@);
    out
}

/// Appends the bytes of `tail` to `out`.
pub fn append_bytes(out: &mut Vec<u8>, tail: &[u8])
    ensures
        final(out)@ == old(out)@ + tail@,
{
    let mut i: usize = 0;
    while i < tail.len()
        invariant
            i <= tail.len(),
            out@ == old(out)@ + tail@.take(i as int),
        decreases tail.len() - i,
    {
        out.push(tail[i]);
        i += 1;
        assert(out@ =~= old(out)@ + tail@.take(i as int));
    }
    assert(tail@.take(tail.len() as int) =~= tail@);
}

/// Reads eight bytes, most significant first, as a number.
pub fn from_be_bytes(b: &[u8]) -> (x: u64)
    requires
        b@.len() == 8,
    ensures
        x == be_value(b@),
        be_bytes(x) == b@,
{
    let x1: u64 = b[0] as u64;
    let x2: u64 = x1 * 0x100 + (b[1] as u64);
    let x3: u64 = x2 * 0x100 + (b[2] as u64);
    let x4: u64 = x3 * 0x100 + (b[3] as u64);
    let x5: u64 = x4 * 0x100 + (b[4] as u64);
    let x6: u64 = x5 * 0x100 + (b[5] as u64);
    let x7: u64 = x6 * 0x100 + (b[6] as u64);
    let x: u64 = x7 * 0x100 + (b[7] as u64);
    proof {
        assert(x / 0x100 == x7 && x % 0x100 == b[7]);
        assert(x7 / 0x100 == x6 && x7 % 0x100 == b[6]);
        assert(x6 / 0x100 == x5 && x6 % 0x100 == b[5]);
        assert(x5 / 0x100 == x4 && x5 % 0x100 == b[4]);
        assert(x4 / 0x100 == x3 && x4 % 0x100 == b[3]);
        assert(x3 / 0x100 == x2 && x3 % 0x100 == b[2]);
        assert(x2 / 0x100 == x1 && x2 % 0x100 == b[1]);
        assert(x / 0x1_0000 == x6);
        assert(x / 0x100_0000 == x5);
        assert(x / 0x1_0000_0000 == x4);
        assert(x / 0x100_0000_0000 == x3);
        assert(x / 0x1_0000_0000_0000 == x2);
        assert(x / 0x100_0000_0000_0000 == x1);
        assert(be_bytes(x) =~= b@);
    }
    x
}

/// The sixteen bytes of `x`, most significant first.
#[verifier::opaque]
pub open spec fn be_bytes_wide(x: u128) -> Seq<u8> {
    be_bytes((x / 0x1_0000_0000_0000_0000) as u64) + be_bytes((x % 0x1_0000_0000_0000_0000) as u64)
}

/// The number whose big-endian bytes are the sixteen bytes of `b`, and zero
/// for a string of another length.
#[verifier::opaque]
pub open spec fn be_value_wide(b: Seq<u8>) -> int {
    if b.len() == 16 {
        be_value(b.take(8)) * 0x1_0000_0000_0000_0000 + be_value(b.skip(8))
    } else {
        0
    }
}

/// What sixteen bytes read as fits in 128 bits.
pub proof fn lemma_be_value_wide_bounds(b: Seq<u8>)
    ensures
        0 <= be_value_wide(b) <= u128::MAX,
{
    reveal(be_value_wide);
    if b.len() == 16 {
        let hi = be_value(b.take(8));
        let lo = be_value(b.skip(8));
        assert(0 <= hi <= 0xffff_ffff_ffff_ffff);
        assert(0 <= lo <= 0xffff_ffff_ffff_ffff);
    }
}

/// The sixteen bytes of a number give the number back.
pub proof fn lemma_be_bytes_wide_value(x: u128)
    ensures
        be_bytes_wide(x).len() == 16,
        be_value_wide(be_bytes_wide(x)) == x,
{
    reveal(be_bytes_wide);
    reveal(be_value_wide);
    let hi = (x / 0x1_0000_0000_0000_0000) as u64;
    let lo = (x % 0x1_0000_0000_0000_0000) as u64;
    lemma_be_bytes_value(hi);
    lemma_be_bytes_value(lo);
    assert(be_bytes_wide(x).take(8) =~= be_bytes(hi));
    assert(be_bytes_wide(x).skip(8) =~= be_bytes(lo));
}

/// Writes `x` as sixteen bytes, most significant first.
pub fn to_be_bytes_wide(x: u128) -> (out: Vec<u8>)
    ensures
        out@ == be_bytes_wide(x),
{
    reveal(be_bytes_wide);
    let mut out = to_be_bytes((x / 0x1_0000_0000_0000_0000) as u64);
    let low = to_be_bytes((x % 0x1_0000_0000_0000_0000) as u64);
    append_bytes(&mut out, low.as_slice());
    out
}

/// Reads sixteen bytes, most significant first, as a number; a string of
/// another length reads as zero.
pub fn from_be_bytes_wide(b: &[u8]) -> (x: u128)
    ensures
        x == be_value_wide(b@),
{
    reveal(be_value_wide);
    if b.len() != 16 {
        return 0;
    }
    let mut high: Vec<u8> = Vec::new();
    let mut low: Vec<u8> = Vec::new();
    let mut i: usize = 0;
    while i < 8
        invariant
            i <= 8,
            b@.len() == 16,
            high@ == b@.take(i as int),
            low@ == b@.skip(8).take(i as int),
        decreases 8 - i,
    {
        high.push(b[i]);
        low.push(b[i + 8]);
        i += 1;
        assert(high@ =~= b@.take(i as int));
        assert(low@ =~= b@.skip(8).take(i as int));
    }
    assert(b@.skip(8).take(8) =~= b@.skip(8));
    let hi = from_be_bytes(high.as_slice());
    let lo = from_be_bytes(low.as_slice());
    (hi as u128) * 0x1_0000_0000_0000_0000 + (lo as u128)
}

/// Whether `bytes` begins with `prefix`.
pub open spec fn begins_with(bytes: Seq<u8>, prefix: Seq<u8>) -> bool {
    prefix.len() <= bytes.len() && bytes.take(prefix.len() as int) == prefix
}

/// Whether `bytes` begins with `prefix`.
pub fn has_prefix(bytes: &[u8], prefix: &[u8]) -> (begins: bool)
    ensures
        begins == begins_with(bytes@, prefix@),
{
    if bytes.len() < prefix.len() {
        return false;
    }
    let mut i: usize = 0;
    while i < prefix.len()
        invariant
            i <= prefix.len() <= bytes.len(),
            forall|j: int| 0 <= j < i ==> bytes@[j] == prefix@[j],
        decreases prefix.len() - i,
    {
        if bytes[i] != prefix[i] {
            assert(bytes@.take(prefix@.len() as int)[i as int] != prefix@[i as int]);
            return false;
        }
        i += 1;
    }
    assert(bytes@.take(prefix@.len() as int) =~= prefix@);
    true
}

/// The bytes after the first `n`.
pub fn bytes_after(bytes: &[u8], n: usize) -> (rest: Vec<u8>)
    requires
        n <= bytes@.len(),
    ensures
        rest@ == bytes@.skip(n as int),
{
    let mut rest: Vec<u8> = Vec::new();
    let mut i: usize = n;
    while i < bytes.len()
        invariant
            n <= i <= bytes.len(),
            rest@ == bytes@.subrange(n as int, i as int),
        decreases bytes.len() - i,
    {
        rest.push(bytes[i]);
        i += 1;
        assert(rest@ =~= bytes@.subrange(n as int, i as int));
    }
    assert(rest@ =~= bytes@.skip(n as int));
    rest
}

} // verus!
