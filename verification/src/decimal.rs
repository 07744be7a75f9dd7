//! Decimal integer text: reading an `i64` the way `str::parse::<i64>` does,
//! and the decimal text of an integer.
use vstd::prelude::*;
use vstd::string::*;

verus! {

pub open spec fn is_digit(c: char) -> bool {
    '0' <= c && c <= '9'
}

pub open spec fn digit_value(c: char) -> int {
    (c as int) - ('0' as int)
}

pub open spec fn all_digits(s: Seq<char>) -> bool {
    forall|i: int| 0 <= i < s.len() ==> is_digit(#[trigger] s[i])
}

/// The number that a run of decimal digits denotes.
pub open spec fn digits_value(s: Seq<char>) -> int
    decreases s.len(),
{
    if s.len() == 0 {
        0
    } else {
        digits_value(s.drop_last()) * 10 + digit_value(s.last())
    }
}

/// The sign and digits of a decimal text: an optional leading `+` or `-`, then the rest.
pub open spec fn split_sign(s: Seq<char>) -> (bool, Seq<char>) {
    if s.len() > 0 && s[0] == '-' {
        (true, s.drop_first())
    } else if s.len() > 0 && s[0] == '+' {
        (false, s.drop_first())
    } else {
        (false, s)
    }
}

/// What `str::parse::<i64>` accepts and gives: an optional sign, at least one
/// ASCII digit and nothing else, denoting a number in the range of `i64`.
pub open spec fn spec_parse_i64(s: Seq<char>) -> Option<i64> {
    let (negative, digits) = split_sign(s);
    if digits.len() == 0 || !all_digits(digits) {
        None
    } else {
        let v = if negative {
            -digits_value(digits)
        } else {
            digits_value(digits)
        };
        if i64::MIN <= v && v <= i64::MAX {
            Some(v as i64)
        } else {
            None
        }
    }
}

/// The digits of a natural number, most significant first, without leading zeros.
pub open spec fn nat_digits(n: nat) -> Seq<char>
    decreases n,
{
    if n < 10 {
        seq![(('0' as int) + n) as char]
    } else {
        nat_digits(n / 10).push((('0' as int) + n % 10) as char)
    }
}

/// The decimal text of an integer, as `i64::to_string` writes it.
pub open spec fn decimal_text(i: int) -> Seq<char> {
    if i < 0 {
        seq!['-'] + nat_digits((-i) as nat)
    } else {
        nat_digits(i as nat)
    }
}

pub proof fn lemma_digits_value_nonneg(s: Seq<char>)
    requires
        all_digits(s),
    ensures
        digits_value(s) >= 0,
    decreases s.len(),
{
    if s.len() > 0 {
        assert(is_digit(s[s.len() - 1]));
        lemma_digits_value_nonneg(s.drop_last());
    }
}

/// A longer run of digits denotes at least as much as its prefix.
pub proof fn lemma_digits_value_prefix(s: Seq<char>, k: int)
    requires
        all_digits(s),
        0 <= k <= s.len(),
    ensures
        digits_value(s.take(k)) <= digits_value(s),
    decreases s.len(),
{
    if k < s.len() {
        assert(is_digit(s[s.len() - 1]));
        assert(all_digits(s.drop_last()));
        lemma_digits_value_nonneg(s.drop_last());
        lemma_digits_value_prefix(s.drop_last(), k);
        assert(s.drop_last().take(k) =~= s.take(k));
    } else {
        assert(s.take(k) =~= s);
    }
}

proof fn lemma_nat_digits(n: nat)
    ensures
        nat_digits(n).len() > 0,
        all_digits(nat_digits(n)),
        digits_value(nat_digits(n)) == n,
    decreases n,
{
    if n < 10 {
        let c = (('0' as int) + n) as char;
        assert(nat_digits(n).drop_last() =~= Seq::<char>::empty());
        assert(c as int == ('0' as int) + n);
        assert(digits_value(Seq::<char>::empty()) == 0);
        assert(nat_digits(n).last() == c);
    } else {
        lemma_nat_digits(n / 10);
        let s = nat_digits(n);
        assert(s.drop_last() =~= nat_digits(n / 10));
        assert((n / 10) * 10 + n % 10 == n) by (nonlinear_arith);
        assert(0 <= n % 10 < 10) by (nonlinear_arith);
        let c = (('0' as int) + n % 10) as char;
        assert(s.last() == c);
        assert(c as int == ('0' as int) + n % 10);
        assert(digit_value(s.last()) == n % 10);
    }
}

/// Reading back the decimal text of any `i64` gives that `i64`.
pub proof fn lemma_parse_decimal_text(i: i64)
    ensures
        spec_parse_i64(decimal_text(i as int)) == Some(i),
{
    if i < 0 {
        let n = (-(i as int)) as nat;
        lemma_nat_digits(n);
        let t = decimal_text(i as int);
        assert(t[0] == '-');
        assert(t.drop_first() =~= nat_digits(n));
    } else {
        lemma_nat_digits(i as nat);
        let t = decimal_text(i as int);
        assert(is_digit(t[0]));
    }
}

/// Reads an `i64` from decimal text: `Some` exactly when `str::parse::<i64>` succeeds, with its value.
pub fn parse_i64(s: &str) -> (r: Option<i64>)
    ensures
        r == spec_parse_i64(s@),
{
    let len = s.unicode_len();
    if len == 0 {
        return None;
    }
    let first = s.get_char(0);
    let negative = first == '-';
    let start: usize = if first == '-' || first == '+' {
        1
    } else {
        0
    };
    let ghost digits = split_sign(s@).1;
    proof {
        if start == 1 {
            assert(digits =~= s@.subrange(1, s@.len() as int));
        } else {
            assert(digits =~= s@.subrange(0, s@.len() as int));
        }
    }
    if start == len {
        return None;
    }
    // The magnitude that still fits: `i64::MAX`, or one more for a negative number.
    let limit: i128 = if negative {
        9223372036854775808i128
    } else {
        9223372036854775807i128
    };
    let mut acc: i128 = 0;
    let mut k: usize = start;
    while k < len
        invariant
            start <= k <= len,
            len == s@.len(),
            start == s@.len() - digits.len(),
            digits =~= s@.subrange(start as int, len as int),
            all_digits(digits.take(k - start)),
            acc == digits_value(digits.take(k - start)),
            0 <= acc <= limit,
            limit == if negative { 9223372036854775808i128 } else { 9223372036854775807i128 },
            negative == split_sign(s@).0,
            digits == split_sign(s@).1,
        decreases len - k,
    {
        let c = s.get_char(k);
        let ghost j = k - start;
        assert(digits[j as int] == c);
        if c < '0' || c > '9' {
            assert(!all_digits(digits));
            return None;
        }
        let d = (c as u32 - '0' as u32) as i128;
        assert(digits.take(j + 1).drop_last() =~= digits.take(j as int));
        assert(all_digits(digits.take(j + 1)));
        acc = acc * 10 + d;
        if acc > limit {
            proof {
                if all_digits(digits) {
                    lemma_digits_value_prefix(digits, j + 1);
                }
            }
            return None;
        }
        k = k + 1;
    }
    assert(digits.take(k - start) =~= digits);
    if negative {
        Some((0 - acc) as i64)
    } else {
        Some(acc as i64)
    }
}

} // verus!
