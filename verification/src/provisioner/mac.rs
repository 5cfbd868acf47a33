//! The device MAC address as the factory station passes it:
//! six colon-separated hexadecimal octets, `AA:BB:CC:DD:EE:FF`.

use vstd::prelude::*;
use vstd::utf8::encode_utf8;

verus! {

/// The address used when none is given or it does not parse.
pub const DEFAULT_MAC: [u8; 6] = [0xAA, 0xBB, 0xCC, 0xDD, 0xEE, 0xFF];

/// The value of an ASCII hexadecimal digit, or -1 for any other byte.
pub open spec fn spec_hex_digit_value(b: u8) -> int {
    if 0x30 <= b <= 0x39 {
        b - 0x30
    } else if 0x61 <= b <= 0x66 {
        b - 0x61 + 10
    } else if 0x41 <= b <= 0x46 {
        b - 0x41 + 10
    } else {
        -1
    }
}

/// The base-16 value of a string of hexadecimal digits.
pub open spec fn spec_hex_value(d: Seq<u8>) -> int
    decreases d.len(),
{
    if d.len() == 0 {
        0
    } else {
        spec_hex_value(d.drop_last()) * 16 + spec_hex_digit_value(d.last())
    }
}

/// Every byte is a hexadecimal digit.
pub open spec fn spec_all_hex(d: Seq<u8>) -> bool {
    forall|i: int| 0 <= i < d.len() ==> spec_hex_digit_value(#[trigger] d[i]) >= 0
}

/// `u8::from_str_radix(part, 16)`: an optional leading '+', then one or
/// more hexadecimal digits whose value fits in a byte.
pub open spec fn spec_parse_hex_u8(p: Seq<u8>) -> Option<u8> {
    let d = if p.len() > 0 && p[0] == 0x2B {
        p.drop_first()
    } else {
        p
    };
    if d.len() > 0 && spec_all_hex(d) && spec_hex_value(d) <= 255 {
        Some(spec_hex_value(d) as u8)
    } else {
        None
    }
}

/// The pieces of `s` between ':' bytes, as `str::split(':')` gives them
/// (an empty piece where two separators meet or at either end).
pub open spec fn spec_split_colon(s: Seq<u8>) -> Seq<Seq<u8>>
    decreases s.len(),
{
    if s.len() == 0 {
        seq![Seq::empty()]
    } else {
        let prev = spec_split_colon(s.drop_last());
        if s.last() == 0x3A {
            prev.push(Seq::empty())
        } else {
            prev.update(prev.len() - 1, prev.last().push(s.last()))
        }
    }
}

/// The MAC address `raw` spells, or `DEFAULT_MAC` unless it has exactly six
/// pieces that all parse.
pub open spec fn spec_parse_mac(raw: Seq<char>) -> Seq<u8> {
    let parts = spec_split_colon(encode_utf8(raw));
    if parts.len() == 6 && forall|i: int| 0 <= i < 6 ==> (#[trigger] spec_parse_hex_u8(parts[i])) is Some {
        Seq::new(6, |i: int| spec_parse_hex_u8(parts[i])->0)
    } else {
        DEFAULT_MAC@
    }
}

proof fn lemma_split_nonempty(s: Seq<u8>)
    ensures
        spec_split_colon(s).len() >= 1,
    decreases s.len(),
{
    if s.len() > 0 {
        lemma_split_nonempty(s.drop_last());
    }
}

proof fn lemma_hex_value_grows(d: Seq<u8>, b: u8)
    requires
        spec_hex_digit_value(b) >= 0,
        spec_hex_value(d) >= 0,
    ensures
        spec_hex_value(d.push(b)) >= spec_hex_value(d),
        spec_hex_value(d.push(b)) == spec_hex_value(d) * 16 + spec_hex_digit_value(b),
{
    assert(d.push(b).drop_last() =~= d);
}

proof fn lemma_hex_value_nonneg(d: Seq<u8>)
    requires
        spec_all_hex(d),
    ensures
        spec_hex_value(d) >= 0,
    decreases d.len(),
{
    if d.len() > 0 {
        assert(spec_all_hex(d.drop_last())) by {
            assert forall|i: int| 0 <= i < d.drop_last().len() implies spec_hex_digit_value(
                #[trigger] d.drop_last()[i],
            ) >= 0 by {
                assert(d.drop_last()[i] == d[i]);
            }
        }
        lemma_hex_value_nonneg(d.drop_last());
        assert(spec_hex_digit_value(d[d.len() - 1]) >= 0);
    }
}

/// A value that already exceeds a byte stays above it as digits follow.
proof fn lemma_hex_value_prefix(d: Seq<u8>, k: int)
    requires
        spec_all_hex(d),
        0 <= k <= d.len(),
    ensures
        spec_hex_value(d.subrange(0, k)) <= spec_hex_value(d),
    decreases d.len() - k,
{
    if k < d.len() {
        let p = d.subrange(0, k);
        let q = d.subrange(0, k + 1);
        assert(q =~= p.push(d[k]));
        assert(spec_all_hex(p)) by {
            assert forall|i: int| 0 <= i < p.len() implies spec_hex_digit_value(#[trigger] p[i]) >= 0 by {
                assert(p[i] == d[i]);
            }
        }
        lemma_hex_value_nonneg(p);
        lemma_hex_value_grows(p, d[k]);
        lemma_hex_value_prefix(d, k + 1);
    } else {
        assert(d.subrange(0, k) =~= d);
    }
}

/// The value of an ASCII hexadecimal digit byte.
fn hex_digit_value(b: u8) -> (r: Option<u8>)
    ensures
        r is None <==> spec_hex_digit_value(b) < 0,
        r matches Some(v) ==> v == spec_hex_digit_value(b) && v < 16,
{
    if 0x30 <= b && b <= 0x39 {
        Some(b - 0x30)
    } else if 0x61 <= b && b <= 0x66 {
        Some(b - 0x61 + 10)
    } else if 0x41 <= b && b <= 0x46 {
        Some(b - 0x41 + 10)
    } else {
        None
    }
}

/// Parse one octet as `u8::from_str_radix(part, 16)` does.
pub fn parse_hex_u8(part: &[u8]) -> (r: Option<u8>)
    ensures
        r == spec_parse_hex_u8(part@),
{
    let start: usize = if part.len() > 0 && part[0] == 0x2B {
        1
    } else {
        0
    };
    let ghost d = if part@.len() > 0 && part@[0] == 0x2B {
        part@.drop_first()
    } else {
        part@
    };
    assert(d =~= part@.subrange(start as int, part@.len() as int));
    if start == part.len() {
        return None;
    }
    let mut acc: u32 = 0;
    let mut i: usize = start;
    while i < part.len()
        invariant
            start <= i <= part@.len(),
            start < part@.len(),
            d == part@.subrange(start as int, part@.len() as int),
            d == (if part@.len() > 0 && part@[0] == 0x2B {
                part@.drop_first()
            } else {
                part@
            }),
            spec_all_hex(part@.subrange(start as int, i as int)),
            acc == spec_hex_value(part@.subrange(start as int, i as int)),
            acc <= 255,
        decreases part@.len() - i,
    {
        let ghost pre = part@.subrange(start as int, i as int);
        let ghost next = part@.subrange(start as int, i + 1);
        proof {
            assert(next =~= pre.push(part@[i as int]));
        }
        match hex_digit_value(part[i]) {
            None => {
                proof {
                    assert(d[i - start] == part@[i as int]);
                    assert(!spec_all_hex(d));
                }
                return None;
            },
            Some(v) => {
                proof {
                    lemma_hex_value_nonneg(pre);
                    lemma_hex_value_grows(pre, part@[i as int]);
                    assert(spec_all_hex(next)) by {
                        assert forall|j: int| 0 <= j < next.len() implies spec_hex_digit_value(#[trigger] next[j]) >= 0 by {
                            if j < pre.len() {
                                assert(next[j] == pre[j]);
                            }
                        }
                    }
                }
                acc = acc * 16 + v as u32;
                if acc > 255 {
                    proof {
                        if spec_all_hex(d) {
                            assert(next =~= d.subrange(0, i + 1 - start));
                            lemma_hex_value_prefix(d, i + 1 - start);
                            assert(spec_hex_value(d) > 255);
                        }
                    }
                    return None;
                }
            },
        }
        i = i + 1;
    }
    assert(part@.subrange(start as int, i as int) =~= d);
    Some(acc as u8)
}

/// The ':'-separated pieces of `s`.
fn split_colon(s: &[u8]) -> (r: Vec<Vec<u8>>)
    ensures
        r@.len() == spec_split_colon(s@).len(),
        forall|i: int| 0 <= i < r@.len() ==> (#[trigger] r@[i])@ == spec_split_colon(s@)[i],
{
    let mut parts: Vec<Vec<u8>> = Vec::new();
    parts.push(Vec::new());
    let mut i: usize = 0;
    assert(s@.subrange(0, 0) =~= Seq::<u8>::empty());
    while i < s.len()
        invariant
            i <= s@.len(),
            parts@.len() == spec_split_colon(s@.subrange(0, i as int)).len(),
            parts@.len() >= 1,
            forall|j: int| 0 <= j < parts@.len() ==> (#[trigger] parts@[j])@ == spec_split_colon(s@.subrange(0, i as int))[j],
        decreases s@.len() - i,
    {
        let ghost pre = s@.subrange(0, i as int);
        let ghost next = s@.subrange(0, i + 1);
        proof {
            assert(next.drop_last() =~= pre);
            assert(next.last() == s@[i as int]);
            lemma_split_nonempty(pre);
        }
        if s[i] == 0x3A {
            parts.push(Vec::new());
            proof {
                assert forall|j: int| 0 <= j < parts@.len() implies (#[trigger] parts@[j])@ == spec_split_colon(next)[j] by {
                    if j < parts@.len() - 1 {
                        assert(spec_split_colon(next)[j] == spec_split_colon(pre)[j]);
                    }
                }
            }
        } else {
            let last = parts.len() - 1;
            let mut piece = parts.pop().unwrap();
            piece.push(s[i]);
            parts.push(piece);
            proof {
                assert forall|j: int| 0 <= j < parts@.len() implies (#[trigger] parts@[j])@ == spec_split_colon(next)[j] by {
                    if j < last {
                        assert(spec_split_colon(next)[j] == spec_split_colon(pre)[j]);
                    } else {
                        assert(spec_split_colon(next)[j] == spec_split_colon(pre).last().push(s@[i as int]));
                    }
                }
            }
        }
        i = i + 1;
    }
    assert(s@.subrange(0, i as int) =~= s@);
    parts
}

/// The MAC address `raw` spells, or `DEFAULT_MAC` when it does not have
/// exactly six octets or one of them does not parse.
pub fn parse_mac_or_default(raw: &str) -> (r: [u8; 6])
    ensures
        r@ == spec_parse_mac(raw@),
{
    let parts = split_colon(raw.as_bytes());
    if parts.len() != 6 {
        return DEFAULT_MAC;
    }
    let mut mac = [0u8; 6];
    let mut i: usize = 0;
    while i < 6
        invariant
            parts@.len() == 6,
            parts@.len() == spec_split_colon(encode_utf8(raw@)).len(),
            forall|j: int| 0 <= j < parts@.len() ==> (#[trigger] parts@[j])@ == spec_split_colon(encode_utf8(raw@))[j],
            i <= 6,
            forall|j: int|
                0 <= j < i ==> spec_parse_hex_u8(spec_split_colon(encode_utf8(raw@))[j]) == Some(#[trigger] mac@[j]),
        decreases 6 - i,
    {
        match parse_hex_u8(parts[i].as_slice()) {
            Some(b) => {
                mac[i] = b;
            },
            None => {
                proof {
                    let ps = spec_split_colon(encode_utf8(raw@));
                    assert(spec_parse_hex_u8(ps[i as int]) is None);
                }
                return DEFAULT_MAC;
            },
        }
        i = i + 1;
    }
    proof {
        let ps = spec_split_colon(encode_utf8(raw@));
        assert forall|j: int| 0 <= j < 6 implies (#[trigger] spec_parse_hex_u8(ps[j])) is Some by {
            assert(spec_parse_hex_u8(ps[j]) == Some(mac@[j]));
        }
        assert(mac@ =~= Seq::new(6, |j: int| spec_parse_hex_u8(ps[j])->0));
    }
    mac
}

} // verus!
