use vstd::prelude::*;
use vstd::string::StrSliceExecFns;

use crate::error::OrderError;

verus! {

/// Fixed amount withheld from every order's payment before the remainder is
/// forwarded to the operator account, in the smallest currency unit.
pub const STORAGE_FEE: u128 = 1_000_000_000_000_000_000_000;

/// `c` is a decimal digit.
pub open spec fn is_decimal_digit(c: char) -> bool {
    48 <= c as int && c as int <= 57
}

/// The numeric value of the digit `c`.
pub open spec fn digit_value(c: char) -> int {
    c as int - 48
}

/// Every character of `s` is a decimal digit.
pub open spec fn all_decimal_digits(s: Seq<char>) -> bool {
    forall|i: int| 0 <= i < s.len() ==> is_decimal_digit(#[trigger] s[i])
}

/// The number `s` denotes, read as base-ten digits.
pub open spec fn decimal_value(s: Seq<char>) -> int
    decreases s.len(),
{
    if s.len() == 0 {
        0
    } else {
        decimal_value(s.drop_last()) * 10 + digit_value(s.last())
    }
}

/// What parsing `s` as an amount yields: its denoted value when `s` is a
/// nonempty run of decimal digits whose value fits the amount type, and
/// nothing otherwise.
pub open spec fn spec_parse_amount(s: Seq<char>) -> Option<u128> {
    if s.len() > 0 && all_decimal_digits(s) && decimal_value(s) <= u128::MAX {
        Some(decimal_value(s) as u128)
    } else {
        None
    }
}

proof fn lemma_decimal_value_nonneg(s: Seq<char>)
    requires
        all_decimal_digits(s),
    ensures
        decimal_value(s) >= 0,
    decreases s.len(),
{
    if s.len() > 0 {
        assert(all_decimal_digits(s.drop_last())) by {
            assert forall|i: int|
                0 <= i < s.drop_last().len() implies is_decimal_digit(
                #[trigger] s.drop_last()[i]) by {
                assert(s.drop_last()[i] == s[i]);
            }
        }
        lemma_decimal_value_nonneg(s.drop_last());
        assert(is_decimal_digit(s[s.len() - 1]));
    }
}

proof fn lemma_decimal_value_extend(s: Seq<char>, i: int)
    requires
        0 <= i < s.len(),
    ensures
        decimal_value(s.take(i + 1)) == decimal_value(s.take(i)) * 10 + digit_value(s[i]),
{
    assert(s.take(i + 1).drop_last() =~= s.take(i));
    assert(s.take(i + 1).last() == s[i]);
}

proof fn lemma_decimal_value_prefix_le(s: Seq<char>, i: int)
    requires
        all_decimal_digits(s),
        0 <= i <= s.len(),
    ensures
        decimal_value(s.take(i)) <= decimal_value(s),
    decreases s.len() - i,
{
    if i == s.len() {
        assert(s.take(i) =~= s);
    } else {
        lemma_decimal_value_extend(s, i);
        assert(all_decimal_digits(s.take(i))) by {
            assert forall|j: int|
                0 <= j < s.take(i).len() implies is_decimal_digit(#[trigger] s.take(i)[j]) by {
                assert(s.take(i)[j] == s[j]);
            }
        }
        lemma_decimal_value_nonneg(s.take(i));
        assert(is_decimal_digit(s[i]));
        lemma_decimal_value_prefix_le(s, i + 1);
    }
}

/// Parse a declared total. Returns exactly what `spec_parse_amount` gives:
/// the value for a nonempty all-digit string that fits, nothing otherwise.
pub fn parse_amount(s: &str) -> (r: Option<u128>)
    ensures
        r == spec_parse_amount(s@),
{
    let n = s.unicode_len();
    if n == 0 {
        return None;
    }
    let mut value: u128 = 0;
    let mut i: usize = 0;
    while i < n
        invariant
            n == s@.len(),
            i <= n,
            all_decimal_digits(s@.take(i as int)),
            value == decimal_value(s@.take(i as int)),
        decreases n - i,
    {
        let c = s.get_char(i);
        let code = c as u32;
        if code < 48 || code > 57 {
            proof {
                assert(!is_decimal_digit(s@[i as int]));
            }
            return None;
        }
        let d = (code - 48) as u128;
        proof {
            lemma_decimal_value_extend(s@, i as int);
            assert(all_decimal_digits(s@.take(i as int + 1))) by {
                assert forall|j: int|
                    0 <= j < s@.take(i as int + 1).len() implies is_decimal_digit(
                    #[trigger] s@.take(i as int + 1)[j]) by {
                    if j < i as int {
                        assert(s@.take(i as int + 1)[j] == s@.take(i as int)[j]);
                    } else {
                        assert(s@.take(i as int + 1)[j] == s@[i as int]);
                    }
                }
            }
        }
        let next = match value.checked_mul(10) {
            Some(v) => v.checked_add(d),
            None => None,
        };
        match next {
            Some(v) => {
                value = v;
            }
            None => {
                proof {
                    if all_decimal_digits(s@) {
                        lemma_decimal_value_prefix_le(s@, i as int + 1);
                    }
                }
                return None;
            }
        }
        i = i + 1;
    }
    proof {
        assert(s@.take(n as int) =~= s@);
    }
    Some(value)
}

/// Decide a payment against a declared total: the payment is refused unless
/// it equals the parsed total exactly and covers the storage fee; what is
/// left after the fee is the net payout owed to the operator.
pub open spec fn spec_validate_payment(attached: u128, total: Seq<char>) -> Result<
    u128,
    OrderError,
> {
    match spec_parse_amount(total) {
        Some(t) => if attached != t {
            Err(OrderError::InvalidAmount)
        } else if attached < STORAGE_FEE {
            Err(OrderError::InsufficientAmount)
        } else {
            Ok((attached - STORAGE_FEE) as u128)
        },
        None => Err(OrderError::InvalidAmount),
    }
}

/// The Payment & Payout Engine's rule: `Ok(net)` exactly when `attached`
/// equals the declared total and is at least the storage fee, with
/// `net == attached - STORAGE_FEE`; otherwise the error that says why.
pub fn validate_payment(attached: u128, total: &str) -> (r: Result<u128, OrderError>)
    ensures
        r == spec_validate_payment(attached, total@),
        r is Ok <==> spec_parse_amount(total@) == Some(attached) && attached >= STORAGE_FEE,
        r is Ok ==> r->Ok_0 == attached - STORAGE_FEE,
{
    match parse_amount(total) {
        Some(t) => {
            if attached != t {
                Err(OrderError::InvalidAmount)
            } else if attached < STORAGE_FEE {
                Err(OrderError::InsufficientAmount)
            } else {
                Ok(attached - STORAGE_FEE)
            }
        }
        None => Err(OrderError::InvalidAmount),
    }
}

} // verus!
