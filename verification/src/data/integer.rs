use crate::glob::chars_of;
use vstd::prelude::*;

verus! {

/// Whether `c` is one of the ten decimal digits.
pub open spec fn is_digit(c: char) -> bool {
    48 <= c as u32 <= 57
}

/// The number that the decimal digit `c` stands for.
pub open spec fn digit_value(c: char) -> int {
    c as u32 - 48
}

/// Whether every character of `s` is a decimal digit.
pub open spec fn all_digits(s: Seq<char>) -> bool {
    forall|k: int| 0 <= k < s.len() ==> is_digit(#[trigger] s[k])
}

/// The number written by the decimal digits `digits`, the empty sequence standing for zero.
pub open spec fn decimal_value(digits: Seq<char>) -> int
    decreases digits.len(),
{
    if digits.len() == 0 {
        0
    } else {
        decimal_value(digits.drop_last()) * 10 + digit_value(digits.last())
    }
}

/// The integer that `s` writes: an optional sign, then at least one decimal digit and
/// nothing else, the whole within the range of `i128`. `None` for any other text.
pub open spec fn integer_of(s: Seq<char>) -> Option<int> {
    let negative = s.len() > 0 && s[0] == '-';
    let signed = s.len() > 0 && (s[0] == '-' || s[0] == '+');
    let digits = if signed {
        s.drop_first()
    } else {
        s
    };
    let value = if negative {
        -decimal_value(digits)
    } else {
        decimal_value(digits)
    };
    if digits.len() > 0 && all_digits(digits) && i128::MIN <= value <= i128::MAX {
        Some(value)
    } else {
        None
    }
}

proof fn lemma_value_not_negative(s: Seq<char>)
    requires
        all_digits(s),
    ensures
        decimal_value(s) >= 0,
    decreases s.len(),
{
    if s.len() > 0 {
        lemma_value_not_negative(s.drop_last());
    }
}

proof fn lemma_prefix_value(s: Seq<char>, k: int)
    requires
        all_digits(s),
        0 <= k <= s.len(),
    ensures
        decimal_value(s.take(k)) <= decimal_value(s),
    decreases s.len(),
{
    if k == s.len() {
        assert(s.take(k) =~= s);
    } else {
        lemma_prefix_value(s.drop_last(), k);
        assert(s.drop_last().take(k) =~= s.take(k));
        lemma_value_not_negative(s.drop_last());
    }
}

/// Reads a decimal integer with an optional sign.
#[verifier::loop_isolation(false)]
pub fn parse_integer(s: &str) -> (r: Option<i128>)
    ensures
        r matches Some(v) ==> integer_of(s@) == Some(v as int),
        r is None ==> integer_of(s@) is None,
{
    let chars = chars_of(s);
    let n = chars.len();
    if n == 0 {
        return None;
    }
    let negative = chars[0] == '-';
    let start: usize = if chars[0] == '-' || chars[0] == '+' {
        1
    } else {
        0
    };
    if start == n {
        return None;
    }
    let ghost digits = chars@.subrange(start as int, n as int);
    assert(start == 1 ==> digits =~= chars@.drop_first());
    assert(start == 0 ==> digits =~= chars@);
    let limit: u128 = if negative {
        0x8000_0000_0000_0000_0000_0000_0000_0000
    } else {
        0x7fff_ffff_ffff_ffff_ffff_ffff_ffff_ffff
    };
    let mut magnitude: u128 = 0;
    let mut k: usize = start;
    assert(digits.take(0) =~= Seq::<char>::empty());
    while k < n
        invariant
            start <= k <= n,
            n == chars.len(),
            digits == chars@.subrange(start as int, n as int),
            all_digits(digits.take(k - start)),
            magnitude == decimal_value(digits.take(k - start)),
            magnitude <= limit,
            limit <= 0x8000_0000_0000_0000_0000_0000_0000_0000,
        decreases n - k,
    {
        let c = chars[k];
        let ghost shorter = digits.take(k - start);
        let ghost longer = digits.take(k - start + 1);
        assert(longer.drop_last() =~= shorter);
        assert(longer.last() == c);
        let code: u32 = c as u32;
        if code < 48 || code > 57 {
            assert(!is_digit(digits[k - start]));
            return None;
        }
        let d: u128 = (code - 48) as u128;
        if magnitude > (limit - d) / 10 {
            proof {
                assert(decimal_value(longer) > limit);
                if all_digits(digits) {
                    lemma_prefix_value(digits, k - start + 1);
                }
            }
            return None;
        }
        magnitude = magnitude * 10 + d;
        assert forall|m: int| 0 <= m < longer.len() implies is_digit(#[trigger] longer[m]) by {
            if m < shorter.len() {
                assert(longer[m] == shorter[m]);
            }
        }
        k += 1;
    }
    assert(digits.take(n - start) =~= digits);
    if negative {
        if magnitude == 0x8000_0000_0000_0000_0000_0000_0000_0000 {
            Some(i128::MIN)
        } else {
            Some(-(magnitude as i128))
        }
    } else {
        Some(magnitude as i128)
    }
}

} // verus!
