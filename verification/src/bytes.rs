//! Byte-level building blocks shared by every hashing and framing routine:
//! buffer concatenation, big/little-endian integer encodings, equality and
//! lexicographic comparison of byte strings and of `str` values.

use vstd::prelude::*;

verus! {

/// Big-endian encoding of a `u64` (what `u64::to_be_bytes` produces).
pub open spec fn u64_be_bytes(x: u64) -> Seq<u8> {
    seq![
        (x >> 56u64) as u8,
        (x >> 48u64) as u8,
        (x >> 40u64) as u8,
        (x >> 32u64) as u8,
        (x >> 24u64) as u8,
        (x >> 16u64) as u8,
        (x >> 8u64) as u8,
        x as u8,
    ]
}

/// Distinct numbers have distinct big-endian encodings.
pub proof fn lemma_u64_be_bytes_injective(a: u64, b: u64)
    requires
        u64_be_bytes(a) == u64_be_bytes(b),
    ensures
        a == b,
{
    let x = u64_be_bytes(a);
    let y = u64_be_bytes(b);
    assert(x[0] == y[0] && x[1] == y[1] && x[2] == y[2] && x[3] == y[3]);
    assert(x[4] == y[4] && x[5] == y[5] && x[6] == y[6] && x[7] == y[7]);
    assert(a == b) by (bit_vector)
        requires
            (a >> 56u64) as u8 == (b >> 56u64) as u8,
            (a >> 48u64) as u8 == (b >> 48u64) as u8,
            (a >> 40u64) as u8 == (b >> 40u64) as u8,
            (a >> 32u64) as u8 == (b >> 32u64) as u8,
            (a >> 24u64) as u8 == (b >> 24u64) as u8,
            (a >> 16u64) as u8 == (b >> 16u64) as u8,
            (a >> 8u64) as u8 == (b >> 8u64) as u8,
            a as u8 == b as u8,
    ;
}

/// Two different byte strings of one length differ at some position.
pub proof fn lemma_differing_position(a: Seq<u8>, b: Seq<u8>) -> (k: int)
    requires
        a.len() == b.len(),
        a != b,
    ensures
        0 <= k < a.len(),
        a[k] != b[k],
{
    if forall|i: int| 0 <= i < a.len() ==> a[i] == b[i] {
        assert(a =~= b);
    }
    choose|i: int| 0 <= i < a.len() && a[i] != b[i]
}

/// Byte strings that hold different bytes at one position differ.
pub proof fn lemma_differ_at(x: Seq<u8>, y: Seq<u8>, i: int)
    requires
        0 <= i < x.len(),
        i < y.len(),
        x[i] != y[i],
    ensures
        x != y,
{
}

/// Little-endian encoding of a `u64` (what `u64::to_le_bytes` produces).
pub open spec fn u64_le_bytes(x: u64) -> Seq<u8> {
    seq![
        x as u8,
        (x >> 8u64) as u8,
        (x >> 16u64) as u8,
        (x >> 24u64) as u8,
        (x >> 32u64) as u8,
        (x >> 40u64) as u8,
        (x >> 48u64) as u8,
        (x >> 56u64) as u8,
    ]
}

/// Append `data` to `buf`.
pub fn extend_bytes(buf: &mut Vec<u8>, data: &[u8])
    ensures
        final(buf)@ == old(buf)@ + data@,
{
    let ghost start = buf@;
    let mut i: usize = 0;
    while i < data.len()
        invariant
            i <= data@.len(),
            buf@ == start + data@.subrange(0, i as int),
        decreases data@.len() - i,
    {
        buf.push(data[i]);
        i = i + 1;
        assert(buf@ =~= start + data@.subrange(0, i as int));
    }
    assert(data@.subrange(0, data@.len() as int) =~= data@);
}

/// Append the big-endian bytes of `x` to `buf`.
pub fn push_u64_be(buf: &mut Vec<u8>, x: u64)
    ensures
        final(buf)@ == old(buf)@ + u64_be_bytes(x),
{
    let ghost start = buf@;
    buf.push((x >> 56u64) as u8);
    buf.push((x >> 48u64) as u8);
    buf.push((x >> 40u64) as u8);
    buf.push((x >> 32u64) as u8);
    buf.push((x >> 24u64) as u8);
    buf.push((x >> 16u64) as u8);
    buf.push((x >> 8u64) as u8);
    buf.push(x as u8);
    assert(buf@ =~= start + u64_be_bytes(x));
}

/// Append the little-endian bytes of `x` to `buf`.
pub fn push_u64_le(buf: &mut Vec<u8>, x: u64)
    ensures
        final(buf)@ == old(buf)@ + u64_le_bytes(x),
{
    let ghost start = buf@;
    buf.push(x as u8);
    buf.push((x >> 8u64) as u8);
    buf.push((x >> 16u64) as u8);
    buf.push((x >> 24u64) as u8);
    buf.push((x >> 32u64) as u8);
    buf.push((x >> 40u64) as u8);
    buf.push((x >> 48u64) as u8);
    buf.push((x >> 56u64) as u8);
    assert(buf@ =~= start + u64_le_bytes(x));
}

/// Exact equality of two byte strings.
pub fn bytes_eq(a: &[u8], b: &[u8]) -> (r: bool)
    ensures
        r == (a@ == b@),
{
    if a.len() != b.len() {
        return false;
    }
    let mut i: usize = 0;
    while i < a.len()
        invariant
            a@.len() == b@.len(),
            i <= a@.len(),
            forall|j: int| 0 <= j < i ==> a@[j] == b@[j],
        decreases a@.len() - i,
    {
        if a[i] != b[i] {
            return false;
        }
        i = i + 1;
    }
    assert(a@ =~= b@);
    true
}

proof fn lemma_or_xor_zero(d: u8, x: u8, y: u8)
    ensures
        (d | (x ^ y)) == 0u8 <==> (d == 0u8 && x == y),
{
    assert((d | (x ^ y)) == 0u8 <==> (d == 0u8 && x == y)) by (bit_vector);
}

/// Byte-string comparison whose running time does not depend on where the
/// first difference lies: every byte pair is folded into an accumulator.
pub fn constant_time_eq(a: &[u8], b: &[u8]) -> (r: bool)
    ensures
        r == (a@ == b@),
{
    if a.len() != b.len() {
        return false;
    }
    let mut diff: u8 = 0;
    let mut i: usize = 0;
    while i < a.len()
        invariant
            a@.len() == b@.len(),
            i <= a@.len(),
            diff == 0 <==> (forall|j: int| 0 <= j < i ==> a@[j] == b@[j]),
        decreases a@.len() - i,
    {
        let x = a[i];
        let y = b[i];
        proof {
            lemma_or_xor_zero(diff, x, y);
        }
        diff = diff | (x ^ y);
        i = i + 1;
        assert(diff == 0 <==> (forall|j: int| 0 <= j < i ==> a@[j] == b@[j])) by {
            if diff == 0 {
                assert forall|j: int| 0 <= j < i implies a@[j] == b@[j] by {
                    if j < i - 1 {
                    } else {
                    }
                }
            }
        }
    }
    if diff == 0 {
        assert(a@ =~= b@);
    }
    diff == 0
}

/// Strict lexicographic order on byte strings (the order `str` and `[u8]`
/// use in Rust): a proper prefix sorts first.
pub open spec fn bytes_lt(a: Seq<u8>, b: Seq<u8>) -> bool
    decreases a.len(),
{
    if a.len() == 0 {
        b.len() > 0
    } else if b.len() == 0 {
        false
    } else if a[0] != b[0] {
        a[0] < b[0]
    } else {
        bytes_lt(a.drop_first(), b.drop_first())
    }
}

proof fn lemma_bytes_lt_skip(a: Seq<u8>, b: Seq<u8>, k: int)
    requires
        0 <= k <= a.len(),
        k <= b.len(),
        forall|j: int| 0 <= j < k ==> a[j] == b[j],
    ensures
        bytes_lt(a, b) == bytes_lt(a.subrange(k, a.len() as int), b.subrange(k, b.len() as int)),
    decreases k,
{
    if k > 0 {
        assert(a[0] == b[0]);
        lemma_bytes_lt_skip(a.drop_first(), b.drop_first(), k - 1);
        assert(a.drop_first().subrange(k - 1, a.len() - 1) =~= a.subrange(k, a.len() as int));
        assert(b.drop_first().subrange(k - 1, b.len() - 1) =~= b.subrange(k, b.len() as int));
    } else {
        assert(a.subrange(0, a.len() as int) =~= a);
        assert(b.subrange(0, b.len() as int) =~= b);
    }
}

/// `a < b` in byte-lexicographic order.
pub fn bytes_less(a: &[u8], b: &[u8]) -> (r: bool)
    ensures
        r == bytes_lt(a@, b@),
{
    let mut i: usize = 0;
    while i < a.len() && i < b.len()
        invariant
            i <= a@.len(),
            i <= b@.len(),
            forall|j: int| 0 <= j < i ==> a@[j] == b@[j],
        decreases a@.len() - i,
    {
        if a[i] != b[i] {
            proof {
                lemma_bytes_lt_skip(a@, b@, i as int);
            }
            return a[i] < b[i];
        }
        i = i + 1;
    }
    proof {
        lemma_bytes_lt_skip(a@, b@, i as int);
    }
    i < b.len() && i == a.len()
}

/// Equality of two `str` values, decided on their UTF-8 bytes.
pub fn str_eq(a: &str, b: &str) -> (r: bool)
    ensures
        r == (a@ == b@),
{
    let r = bytes_eq(a.as_bytes(), b.as_bytes());
    proof {
        vstd::utf8::encode_utf8_decode_utf8(a@);
        vstd::utf8::encode_utf8_decode_utf8(b@);
    }
    r
}

/// Copy a 32-byte slice into an array.
pub fn to_array32(s: &[u8]) -> (r: [u8; 32])
    requires
        s@.len() == 32,
    ensures
        r@ == s@,
{
    let mut r = [0u8; 32];
    let mut i: usize = 0;
    while i < 32
        invariant
            s@.len() == 32,
            i <= 32,
            forall|j: int| 0 <= j < i ==> r@[j] == s@[j],
        decreases 32 - i,
    {
        r[i] = s[i];
        i = i + 1;
    }
    assert(r@ =~= s@);
    r
}

/// Copy a byte slice into a fresh vector.
pub fn bytes_to_vec(s: &[u8]) -> (r: Vec<u8>)
    ensures
        r@ == s@,
{
    let mut r: Vec<u8> = Vec::new();
    extend_bytes(&mut r, s);
    assert(r@ =~= s@);
    r
}

} // verus!
