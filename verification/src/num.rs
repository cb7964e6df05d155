//! Decimal text: the formatting and parsing of the numeric option values
//! that travel on the wire as ASCII digit strings.

use vstd::prelude::*;

verus! {

/// True for the ASCII bytes `'0'` through `'9'`.
pub open spec fn is_digit(b: u8) -> bool {
    48 <= b <= 57
}

/// True when every byte of `s` is an ASCII digit.
pub open spec fn all_digits(s: Seq<u8>) -> bool {
    forall|i: int| 0 <= i < s.len() ==> is_digit(#[trigger] s[i])
}

/// The decimal digit bytes of `v`, most significant first, with no sign and
/// no leading zero (except for `v == 0`, which is the single byte `'0'`).
pub open spec fn dec_bytes(v: nat) -> Seq<u8>
    decreases v,
{
    if v < 10 {
        seq![(48 + v) as u8]
    } else {
        dec_bytes(v / 10).push((48 + v % 10) as u8)
    }
}

/// The numeric value of a digit string, most significant digit first.
/// Meaningful only when `all_digits(s)` holds.
pub open spec fn digits_val(s: Seq<u8>) -> int
    decreases s.len(),
{
    if s.len() == 0 {
        0
    } else {
        digits_val(s.drop_last()) * 10 + s.last() - 48
    }
}

/// What a numeric option value parses to: a non-empty string of digits whose
/// value fits the type parses to that value; anything else is no value.
pub open spec fn parse_u64_dec(s: Seq<u8>) -> Option<u64> {
    if s.len() > 0 && all_digits(s) && digits_val(s) <= u64::MAX {
        Some(digits_val(s) as u64)
    } else {
        None
    }
}

/// As [`parse_u64_dec`], with the `u16` range.
pub open spec fn parse_u16_dec(s: Seq<u8>) -> Option<u16> {
    if s.len() > 0 && all_digits(s) && digits_val(s) <= u16::MAX {
        Some(digits_val(s) as u16)
    } else {
        None
    }
}

/// As [`parse_u64_dec`], with the `u8` range.
pub open spec fn parse_u8_dec(s: Seq<u8>) -> Option<u8> {
    if s.len() > 0 && all_digits(s) && digits_val(s) <= u8::MAX {
        Some(digits_val(s) as u8)
    } else {
        None
    }
}

pub proof fn lemma_digits_val_nonneg(s: Seq<u8>)
    requires
        all_digits(s),
    ensures
        digits_val(s) >= 0,
    decreases s.len(),
{
    if s.len() > 0 {
        assert(all_digits(s.drop_last()));
        lemma_digits_val_nonneg(s.drop_last());
    }
}

/// Extending a digit string on the right never decreases its value.
pub proof fn lemma_digits_val_prefix(s: Seq<u8>, i: int)
    requires
        all_digits(s),
        0 <= i <= s.len(),
    ensures
        digits_val(s.take(i)) <= digits_val(s),
    decreases s.len() - i,
{
    if i < s.len() {
        let t = s.take(i + 1);
        assert(t.drop_last() =~= s.take(i));
        assert(all_digits(s.take(i)));
        lemma_digits_val_nonneg(s.take(i));
        assert(digits_val(t) == digits_val(s.take(i)) * 10 + t.last() - 48);
        assert(digits_val(s.take(i)) * 10 >= digits_val(s.take(i))) by (nonlinear_arith)
            requires
                digits_val(s.take(i)) >= 0,
        ;
        lemma_digits_val_prefix(s, i + 1);
        assert(s.take(s.len() as int) =~= s);
    } else {
        assert(s.take(s.len() as int) =~= s);
    }
}

/// The digit string of `v` has value `v`, is never empty, and holds digits
/// only (in particular it holds no null byte).
pub proof fn lemma_dec_bytes_val(v: nat)
    ensures
        all_digits(dec_bytes(v)),
        digits_val(dec_bytes(v)) == v,
        dec_bytes(v).len() >= 1,
    decreases v,
{
    if v < 10 {
        let s = dec_bytes(v);
        assert(s =~= seq![(48 + v) as u8]);
        assert(s.drop_last() =~= Seq::<u8>::empty());
        assert(digits_val(Seq::<u8>::empty()) == 0);
        assert((48 + v) as u8 == 48 + v);
        assert(digits_val(s) == digits_val(s.drop_last()) * 10 + s.last() - 48);
    } else {
        lemma_dec_bytes_val(v / 10);
        let d = dec_bytes(v / 10);
        let w = d.push((48 + v % 10) as u8);
        assert(w.drop_last() =~= d);
        assert(digits_val(w) == digits_val(d) * 10 + (48 + v % 10) - 48);
        assert((v / 10) * 10 + v % 10 == v) by (nonlinear_arith);
        assert forall|i: int| 0 <= i < w.len() implies is_digit(#[trigger] w[i]) by {
            if i < d.len() {
                assert(w[i] == d[i]);
            }
        }
    }
}

/// Appends the decimal digits of `v` to `out`.
pub fn push_dec_u64(v: u64, out: &mut Vec<u8>)
    ensures
        final(out)@ == old(out)@ + dec_bytes(v as nat),
    decreases v,
{
    if v < 10 {
        out.push(48 + v as u8);
        assert(out@ =~= old(out)@ + dec_bytes(v as nat));
    } else {
        push_dec_u64(v / 10, out);
        out.push(48 + (v % 10) as u8);
        assert(out@ =~= old(out)@ + dec_bytes(v as nat));
    }
}

/// Parses a non-empty all-digit byte string as a `u64`; anything else, and
/// any value out of range, is `None`.
pub fn parse_u64(s: &[u8]) -> (r: Option<u64>)
    ensures
        r == parse_u64_dec(s@),
{
    if s.len() == 0 {
        return None;
    }
    let mut acc: u64 = 0;
    let mut i: usize = 0;
    while i < s.len()
        invariant
            0 <= i <= s@.len(),
            all_digits(s@.take(i as int)),
            acc == digits_val(s@.take(i as int)),
        decreases s@.len() - i,
    {
        let b = s[i];
        if b < 48 || b > 57 {
            assert(!is_digit(s@[i as int]));
            return None;
        }
        let d: u64 = (b - 48) as u64;
        proof {
            lemma_digits_val_nonneg(s@.take(i as int));
        }
        if acc > (u64::MAX - d) / 10 {
            proof {
                let t = s@.take(i as int + 1);
                assert(t.drop_last() =~= s@.take(i as int));
                assert(digits_val(t) == acc * 10 + d);
                assert(acc * 10 + d > u64::MAX) by (nonlinear_arith)
                    requires
                        acc > (u64::MAX - d) / 10,
                        0 <= d < 10,
                ;
                if all_digits(s@) && digits_val(s@) <= u64::MAX {
                    lemma_digits_val_prefix(s@, i as int + 1);
                }
            }
            return None;
        }
        proof {
            assert(acc * 10 + d <= u64::MAX) by (nonlinear_arith)
                requires
                    acc <= (u64::MAX - d) / 10,
                    0 <= d < 10,
            ;
        }
        acc = acc * 10 + d;
        proof {
            let t = s@.take(i as int + 1);
            assert(t.drop_last() =~= s@.take(i as int));
            assert(digits_val(t) == digits_val(s@.take(i as int)) * 10 + d);
        }
        i = i + 1;
    }
    assert(s@.take(i as int) =~= s@);
    Some(acc)
}

/// Parses as [`parse_u64`], then keeps only values in the `u16` range.
pub fn parse_u16(s: &[u8]) -> (r: Option<u16>)
    ensures
        r == parse_u16_dec(s@),
{
    match parse_u64(s) {
        Some(v) => {
            proof {
                lemma_digits_val_nonneg(s@);
            }
            if v <= u16::MAX as u64 {
                Some(v as u16)
            } else {
                None
            }
        },
        None => {
            proof {
                if s@.len() > 0 && all_digits(s@) {
                    lemma_digits_val_nonneg(s@);
                }
            }
            None
        },
    }
}

/// Parses as [`parse_u64`], then keeps only values in the `u8` range.
pub fn parse_u8(s: &[u8]) -> (r: Option<u8>)
    ensures
        r == parse_u8_dec(s@),
{
    match parse_u64(s) {
        Some(v) => {
            proof {
                lemma_digits_val_nonneg(s@);
            }
            if v <= u8::MAX as u64 {
                Some(v as u8)
            } else {
                None
            }
        },
        None => {
            proof {
                if s@.len() > 0 && all_digits(s@) {
                    lemma_digits_val_nonneg(s@);
                }
            }
            None
        },
    }
}

} // verus!
