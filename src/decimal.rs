//! Unsigned decimal numbers, read as `u64::from_str` reads them.
use vstd::prelude::*;

verus! {

pub open spec fn is_digit(b: u8) -> bool {
    48 <= b <= 57
}

pub open spec fn all_digits(d: Seq<u8>) -> bool {
    forall|k: int| 0 <= k < d.len() ==> is_digit(#[trigger] d[k])
}

/// The number that a string of decimal digits writes.
pub open spec fn digits_value(d: Seq<u8>) -> int
    decreases d.len(),
{
    if d.len() == 0 {
        0
    } else {
        digits_value(d.drop_last()) * 10 + (d.last() - 48)
    }
}

/// The digits of a decimal number, after an optional leading `+`.
pub open spec fn unsigned_digits(v: Seq<u8>) -> Seq<u8> {
    if v.len() > 0 && v[0] == 43 {
        v.subrange(1, v.len() as int)
    } else {
        v
    }
}

/// What `u64::from_str` gives for a byte string: the value of one or more
/// decimal digits, optionally after a `+`, when it fits in 64 bits.
pub open spec fn decimal_u64(v: Seq<u8>) -> Option<u64> {
    decimal_u64_of_digits(unsigned_digits(v))
}

proof fn lemma_digits_value_nonneg(d: Seq<u8>)
    requires
        all_digits(d),
    ensures
        digits_value(d) >= 0,
    decreases d.len(),
{
    if d.len() > 0 {
        assert(all_digits(d.drop_last()));
        lemma_digits_value_nonneg(d.drop_last());
        assert(is_digit(d[d.len() - 1]));
    }
}

/// A longer run of digits writes a number at least as large.
proof fn lemma_digits_value_prefix(d: Seq<u8>, k: int)
    requires
        all_digits(d),
        0 <= k <= d.len(),
    ensures
        digits_value(d.subrange(0, k)) <= digits_value(d),
    decreases d.len(),
{
    if k < d.len() {
        let p = d.drop_last();
        assert(all_digits(p));
        lemma_digits_value_prefix(p, k);
        assert(p.subrange(0, k) =~= d.subrange(0, k));
        lemma_digits_value_nonneg(p);
        assert(is_digit(d[d.len() - 1]));
    } else {
        assert(d.subrange(0, k) =~= d);
    }
}

/// Reads an unsigned decimal number.
pub fn parse_decimal_u64(v: &[u8]) -> (r: Option<u64>)
    ensures
        r == decimal_u64(v@),
{
    let n: usize = v.len();
    let mut i: usize = 0;
    if n > 0 && v[0] == 43 {
        i = 1;
    }
    let first: usize = i;
    proof {
        assert(unsigned_digits(v@) =~= v@.subrange(first as int, n as int));
    }
    if first == n {
        return None;
    }
    let ghost d = unsigned_digits(v@);
    let mut acc: u64 = 0;
    while i < n
        invariant
            n == v@.len(),
            first <= i <= n,
            first < n,
            d == v@.subrange(first as int, n as int),
            d == unsigned_digits(v@),
            all_digits(d.subrange(0, i - first)),
            acc == digits_value(d.subrange(0, i - first)),
        decreases n - i,
    {
        let b = v[i];
        if b < 48 || b > 57 {
            assert(d[i - first] == b);
            assert(!is_digit(d[i - first]));
            assert(!all_digits(d));
            assert(decimal_u64_of_digits(d) is None);
            return None;
        }
        let ghost before = d.subrange(0, i - first);
        let ghost after = d.subrange(0, i - first + 1);
        assert(after.drop_last() =~= before);
        assert(all_digits(after));
        match acc.checked_mul(10) {
            None => {
                proof {
                    lemma_too_large(d, i - first + 1);
                }
                return None;
            },
            Some(t) => match t.checked_add((b - 48) as u64) {
                None => {
                    proof {
                        lemma_too_large(d, i - first + 1);
                    }
                    return None;
                },
                Some(s) => {
                    acc = s;
                },
            },
        }
        i = i + 1;
    }
    assert(d.subrange(0, n - first) =~= d);
    Some(acc)
}

/// Once a prefix of the digits exceeds 64 bits, no number is read.
proof fn lemma_too_large(d: Seq<u8>, k: int)
    requires
        0 < k <= d.len(),
        all_digits(d.subrange(0, k)),
        digits_value(d.subrange(0, k)) > u64::MAX,
    ensures
        decimal_u64_of_digits(d) is None,
{
    if all_digits(d) {
        lemma_digits_value_prefix(d, k);
    }
}

/// What `decimal_u64` gives once the optional sign is gone.
pub open spec fn decimal_u64_of_digits(d: Seq<u8>) -> Option<u64> {
    if d.len() > 0 && all_digits(d) && digits_value(d) <= u64::MAX {
        Some(digits_value(d) as u64)
    } else {
        None
    }
}

} // verus!
