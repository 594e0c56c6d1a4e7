//! Decimal rendering and parsing of unsigned integers, as bytes.

use vstd::prelude::*;

verus! {

/// The ASCII digit for a value below ten.
pub open spec fn digit_char(d: nat) -> u8 {
    (0x30 + d) as u8
}

/// Is `b` an ASCII digit?
pub open spec fn is_digit(b: u8) -> bool {
    0x30 <= b <= 0x39
}

/// The canonical decimal rendering of `n`: no leading zeroes, "0" for zero.
pub open spec fn dec_seq(n: nat) -> Seq<u8>
    decreases n,
{
    if n < 10 {
        seq![digit_char(n)]
    } else {
        dec_seq(n / 10).push(digit_char(n % 10))
    }
}

/// The numeric value of an ASCII digit; zero for other bytes.
pub open spec fn digit_val(b: u8) -> nat {
    if 0x30 <= b {
        (b - 0x30) as nat
    } else {
        0
    }
}

/// The numeric value of a sequence of ASCII digits, most significant first.
pub open spec fn dec_value(s: Seq<u8>) -> nat
    decreases s.len(),
{
    if s.len() == 0 {
        0
    } else {
        dec_value(s.drop_last()) * 10 + digit_val(s.last())
    }
}

/// Is `s` a canonical decimal numeral? (nonempty, digits only, no leading zero)
pub open spec fn is_canonical_dec(s: Seq<u8>) -> bool {
    &&& s.len() > 0
    &&& forall|i: int| 0 <= i < s.len() ==> is_digit(#[trigger] s[i])
    &&& (s[0] == 0x30u8 ==> s.len() == 1)
}

/// What parsing a decimal numeral as a `u64` yields: defined exactly on
/// canonical numerals whose value fits.
pub open spec fn parse_dec_spec(s: Seq<u8>) -> Option<u64> {
    if is_canonical_dec(s) && dec_value(s) <= u64::MAX {
        Some(dec_value(s) as u64)
    } else {
        None
    }
}

pub proof fn lemma_dec_seq_digits(n: nat)
    ensures
        dec_seq(n).len() > 0,
        forall|i: int| 0 <= i < dec_seq(n).len() ==> is_digit(#[trigger] dec_seq(n)[i]),
        dec_seq(n)[0] == 0x30u8 ==> n == 0,
        is_canonical_dec(dec_seq(n)),
    decreases n,
{
    if n < 10 {
    } else {
        lemma_dec_seq_digits(n / 10);
        assert(dec_seq(n) == dec_seq(n / 10).push(digit_char(n % 10)));
        assert(dec_seq(n)[0] == dec_seq(n / 10)[0]);
    }
}

pub proof fn lemma_dec_value_of_dec_seq(n: nat)
    ensures
        dec_value(dec_seq(n)) == n,
    decreases n,
{
    if n < 10 {
        assert(dec_seq(n) == seq![digit_char(n)]);
        assert(dec_seq(n).drop_last() =~= Seq::<u8>::empty());
        assert(dec_seq(n).last() == digit_char(n));
        assert(digit_val(digit_char(n)) == n);
        assert(dec_value(dec_seq(n)) == dec_value(Seq::<u8>::empty()) * 10 + n);
    } else {
        lemma_dec_value_of_dec_seq(n / 10);
        assert(dec_seq(n) == dec_seq(n / 10).push(digit_char(n % 10)));
        assert(dec_seq(n).drop_last() =~= dec_seq(n / 10));
        assert(dec_seq(n).last() == digit_char(n % 10));
        assert(digit_val(digit_char(n % 10)) == n % 10);
        assert(dec_value(dec_seq(n)) == (n / 10) * 10 + (n % 10));
        assert((n / 10) * 10 + (n % 10) == n) by (nonlinear_arith);
    }
}

/// Parsing inverts rendering: the round trip for decimal numerals.
pub proof fn lemma_dec_round_trip(n: u64)
    ensures
        parse_dec_spec(dec_seq(n as nat)) == Some(n),
{
    lemma_dec_seq_digits(n as nat);
    lemma_dec_value_of_dec_seq(n as nat);
}

/// Appending a digit multiplies the value by ten and adds the digit.
proof fn lemma_dec_value_append_one(s: Seq<u8>, b: u8)
    ensures
        dec_value(s.push(b)) == dec_value(s) * 10 + digit_val(b),
{
    assert(s.push(b).drop_last() =~= s);
    assert(s.push(b).last() == b);
}

/// A prefix's value bounds the whole numeral's value from below.
proof fn lemma_dec_value_prefix_le(s: Seq<u8>, i: int)
    requires
        0 <= i <= s.len(),
        forall|k: int| 0 <= k < s.len() ==> is_digit(#[trigger] s[k]),
    ensures
        dec_value(s.subrange(0, i)) <= dec_value(s),
    decreases s.len() - i,
{
    if i == s.len() {
        assert(s.subrange(0, i) =~= s);
    } else {
        let t = s.subrange(0, i);
        let t1 = s.subrange(0, i + 1);
        assert(t1 =~= t.push(s[i]));
        lemma_dec_value_append_one(t, s[i]);
        assert(dec_value(t1) == dec_value(t) * 10 + (s[i] - 0x30));
        assert(dec_value(t) * 10 >= dec_value(t)) by (nonlinear_arith)
            requires dec_value(t) >= 0,
        ;
        lemma_dec_value_prefix_le(s, i + 1);
    }
}

/// Renders `n` in decimal.
pub fn u64_to_dec(n: u64) -> (r: Vec<u8>)
    ensures
        r@ == dec_seq(n as nat),
    decreases n,
{
    if n < 10 {
        let mut v: Vec<u8> = Vec::new();
        v.push(0x30 + (n as u8));
        assert(v@ =~= seq![digit_char(n as nat)]);
        v
    } else {
        let mut v = u64_to_dec(n / 10);
        v.push(0x30 + ((n % 10) as u8));
        v
    }
}

/// The decimal rendering of a signed value: a minus sign before the
/// digits of the magnitude when it is negative.
pub open spec fn int_dec_seq(n: int) -> Seq<u8> {
    if n >= 0 {
        dec_seq(n as nat)
    } else {
        seq![0x2du8] + dec_seq((-n) as nat)
    }
}

/// Renders a signed value in decimal.
pub fn i64_to_dec(n: i64) -> (r: Vec<u8>)
    ensures
        r@ == int_dec_seq(n as int),
{
    if n >= 0 {
        u64_to_dec(n as u64)
    } else {
        let magnitude: u64 = if n == i64::MIN {
            9223372036854775808u64
        } else {
            (-n) as u64
        };
        proof {
            assert(magnitude == -(n as int));
        }
        let mut r: Vec<u8> = Vec::new();
        r.push(0x2d);
        let mut digits = u64_to_dec(magnitude);
        r.append(&mut digits);
        proof {
            assert(r@ =~= seq![0x2du8] + dec_seq((-(n as int)) as nat));
        }
        r
    }
}

/// Parses a canonical decimal numeral; `None` on anything else
/// (empty, a non-digit, a leading zero, or a value above `u64::MAX`).
pub fn parse_u64_dec(s: &[u8]) -> (r: Option<u64>)
    ensures
        r == parse_dec_spec(s@),
{
    let n: usize = s.len();
    if n == 0 {
        return None;
    }
    if s[0] == 0x30 && n > 1 {
        return None;
    }
    let mut acc: u64 = 0;
    let mut i: usize = 0;
    while i < n
        invariant
            n == s@.len(),
            n > 0,
            0 <= i <= n,
            s@[0] == 0x30u8 ==> n == 1,
            forall|k: int| 0 <= k < i ==> is_digit(#[trigger] s@[k]),
            acc == dec_value(s@.subrange(0, i as int)),
        decreases n - i,
    {
        let b = s[i];
        if b < 0x30 || b > 0x39 {
            assert(!is_digit(s@[i as int]));
            return None;
        }
        let d: u64 = (b - 0x30) as u64;
        if acc > (u64::MAX - d) / 10 {
            proof {
                let t1 = s@.subrange(0, i + 1);
                assert(t1 =~= s@.subrange(0, i as int).push(b));
                lemma_dec_value_append_one(s@.subrange(0, i as int), b);
                assert(acc * 10 + d > u64::MAX) by (nonlinear_arith)
                    requires
                        acc > (u64::MAX - d) / 10,
                        0 <= d < 10,
                        acc <= u64::MAX,
                ;
                if forall|k: int| 0 <= k < s@.len() ==> is_digit(#[trigger] s@[k]) {
                    lemma_dec_value_prefix_le(s@, i + 1);
                    assert(dec_value(s@) >= dec_value(t1));
                }
            }
            return None;
        }
        proof {
            let t1 = s@.subrange(0, i + 1);
            assert(t1 =~= s@.subrange(0, i as int).push(b));
            lemma_dec_value_append_one(s@.subrange(0, i as int), b);
        }
        acc = acc * 10 + d;
        i = i + 1;
    }
    assert(s@.subrange(0, n as int) =~= s@);
    Some(acc)
}

} // verus!
