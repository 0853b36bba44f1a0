//! Decimal text: reading unsigned numbers out of captured digit runs, and
//! rendering identifiers as the decimal strings handed to the control tool.

use vstd::prelude::*;
use vstd::string::*;

verus! {

/// An ASCII decimal digit.
pub open spec fn is_decimal_digit(c: char) -> bool {
    48 <= c as u32 <= 57
}

/// Numeric value of a decimal digit character.
pub open spec fn digit_value(c: char) -> int {
    c as u32 - 48
}

/// Every character of `s` is a decimal digit.
pub open spec fn all_digits(s: Seq<char>) -> bool {
    forall|i: int| 0 <= i < s.len() ==> is_decimal_digit(s[i])
}

/// Value of a digit string read as a base-10 number.
pub open spec fn decimal_value(s: Seq<char>) -> int
    decreases s.len(),
{
    if s.len() == 0 {
        0
    } else {
        decimal_value(s.drop_last()) * 10 + digit_value(s.last())
    }
}

pub proof fn lemma_decimal_value_nonneg(s: Seq<char>)
    requires
        all_digits(s),
    ensures
        decimal_value(s) >= 0,
    decreases s.len(),
{
    if s.len() > 0 {
        assert(all_digits(s.drop_last()));
        lemma_decimal_value_nonneg(s.drop_last());
    }
}

/// Reading more digits never shrinks the value: the value of a prefix is at
/// most the value of the whole digit string.
pub proof fn lemma_decimal_prefix_le(s: Seq<char>, i: int)
    requires
        0 <= i <= s.len(),
        all_digits(s),
    ensures
        decimal_value(s.take(i)) <= decimal_value(s),
    decreases s.len() - i,
{
    if i < s.len() {
        assert(s.take(i + 1).drop_last() =~= s.take(i));
        assert(s.take(i + 1).last() == s[i]);
        assert(all_digits(s.take(i)));
        lemma_decimal_value_nonneg(s.take(i));
        assert(decimal_value(s.take(i + 1)) >= decimal_value(s.take(i)));
        lemma_decimal_prefix_le(s, i + 1);
    } else {
        assert(s.take(i) =~= s);
    }
}

/// Reads a string of decimal digits as a `u32`.
///
/// Returns `Some` exactly when the string is non-empty, holds digits only,
/// and its value fits; discovery uses it to turn a captured digit run into
/// an identifier, dropping anything unreadable.
pub fn parse_decimal_u32(s: &str) -> (r: Option<u32>)
    ensures
        r is Some <==> (s@.len() > 0 && all_digits(s@) && decimal_value(s@) <= u32::MAX),
        r matches Some(v) ==> v == decimal_value(s@),
{
    let n = s.unicode_len();
    if n == 0 {
        return None;
    }
    let mut acc: u32 = 0;
    let mut i: usize = 0;
    while i < n
        invariant
            n == s@.len(),
            0 <= i <= n,
            forall|j: int| 0 <= j < i ==> is_decimal_digit(s@[j]),
            acc == decimal_value(s@.take(i as int)),
        decreases n - i,
    {
        let c = s.get_char(i);
        let v = c as u32;
        if v < 48 || v > 57 {
            proof {
                assert(!is_decimal_digit(s@[i as int]));
            }
            return None;
        }
        let d = v - 48;
        proof {
            assert(s@.take(i + 1).drop_last() =~= s@.take(i as int));
            assert(s@.take(i + 1).last() == s@[i as int]);
        }
        if acc > (u32::MAX - d) / 10 {
            proof {
                assert(acc * 10 + d > u32::MAX) by (nonlinear_arith)
                    requires
                        acc > (u32::MAX - d) / 10,
                        d <= 9,
                ;
                assert(decimal_value(s@.take(i + 1)) > u32::MAX);
                if all_digits(s@) {
                    lemma_decimal_prefix_le(s@, i + 1);
                }
            }
            return None;
        }
        proof {
            assert(acc * 10 + d <= u32::MAX) by (nonlinear_arith)
                requires
                    acc <= (u32::MAX - d) / 10,
                    d <= 9,
            ;
        }
        acc = acc * 10 + d;
        i += 1;
    }
    proof {
        assert(s@.take(n as int) =~= s@);
    }
    Some(acc)
}

/// Digit character for a value below ten.
pub open spec fn spec_digit_char(d: int) -> char {
    if d == 0 {
        '0'
    } else if d == 1 {
        '1'
    } else if d == 2 {
        '2'
    } else if d == 3 {
        '3'
    } else if d == 4 {
        '4'
    } else if d == 5 {
        '5'
    } else if d == 6 {
        '6'
    } else if d == 7 {
        '7'
    } else if d == 8 {
        '8'
    } else {
        '9'
    }
}

/// Decimal rendering of a non-negative number, most significant digit first.
pub open spec fn spec_udecimal(n: int) -> Seq<char>
    decreases n,
    when n >= 0
{
    if n < 10 {
        seq![spec_digit_char(n)]
    } else {
        spec_udecimal(n / 10).push(spec_digit_char(n % 10))
    }
}

/// Decimal rendering of a signed number, with a leading minus sign when
/// negative.
pub open spec fn spec_i32_decimal(n: int) -> Seq<char> {
    if n < 0 {
        seq!['-'] + spec_udecimal(-n)
    } else {
        spec_udecimal(n)
    }
}

fn digit_str(d: u32) -> (r: &'static str)
    requires
        d < 10,
    ensures
        r@ == seq![spec_digit_char(d as int)],
{
    if d == 0 {
        proof {
            reveal_strlit("0");
            assert("0"@ =~= seq![spec_digit_char(0)]);
        }
        "0"
    } else if d == 1 {
        proof {
            reveal_strlit("1");
            assert("1"@ =~= seq![spec_digit_char(1)]);
        }
        "1"
    } else if d == 2 {
        proof {
            reveal_strlit("2");
            assert("2"@ =~= seq![spec_digit_char(2)]);
        }
        "2"
    } else if d == 3 {
        proof {
            reveal_strlit("3");
            assert("3"@ =~= seq![spec_digit_char(3)]);
        }
        "3"
    } else if d == 4 {
        proof {
            reveal_strlit("4");
            assert("4"@ =~= seq![spec_digit_char(4)]);
        }
        "4"
    } else if d == 5 {
        proof {
            reveal_strlit("5");
            assert("5"@ =~= seq![spec_digit_char(5)]);
        }
        "5"
    } else if d == 6 {
        proof {
            reveal_strlit("6");
            assert("6"@ =~= seq![spec_digit_char(6)]);
        }
        "6"
    } else if d == 7 {
        proof {
            reveal_strlit("7");
            assert("7"@ =~= seq![spec_digit_char(7)]);
        }
        "7"
    } else if d == 8 {
        proof {
            reveal_strlit("8");
            assert("8"@ =~= seq![spec_digit_char(8)]);
        }
        "8"
    } else {
        proof {
            reveal_strlit("9");
            assert("9"@ =~= seq![spec_digit_char(9)]);
        }
        "9"
    }
}

/// Renders an unsigned number in decimal.
pub fn u32_to_decimal(n: u32) -> (s: String)
    ensures
        s@ == spec_udecimal(n as int),
    decreases n,
{
    if n < 10 {
        String::from_str(digit_str(n))
    } else {
        let mut s = u32_to_decimal(n / 10);
        let last = digit_str(n % 10);
        s.append(last);
        proof {
            assert(s@ =~= spec_udecimal((n / 10) as int).push(spec_digit_char((n % 10) as int)));
        }
        s
    }
}

/// Renders a signed number in decimal, as the invocation builder needs for
/// node and endpoint identifiers.
pub fn i32_to_decimal(n: i32) -> (s: String)
    ensures
        s@ == spec_i32_decimal(n as int),
{
    if n >= 0 {
        u32_to_decimal(n as u32)
    } else {
        let m: u32 = (-(n as i64)) as u32;
        proof {
            assert(m as int == -(n as int));
        }
        let mut s = String::from_str("-");
        let digits = u32_to_decimal(m);
        s.append(digits.as_str());
        proof {
            reveal_strlit("-");
            assert(s@ =~= seq!['-'] + spec_udecimal(m as int));
        }
        s
    }
}

} // verus!
