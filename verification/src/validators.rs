//! Validators for values arriving as command-line text.
//!
//! The front end validates its arguments before using them; the integer
//! validator is exact: it accepts a string precisely when the string denotes
//! an integer that fits a signed 64-bit machine word.

use vstd::prelude::*;

use vstd::string::{StrSliceExecFns, StringExecFns};

verus! {

/// The value of a string of decimal digit characters (garbage for other
/// characters; only ever applied under `all_digits`).
pub open spec fn dec_value(s: Seq<char>) -> int
    decreases s.len(),
{
    if s.len() == 0 {
        0
    } else {
        dec_value(s.drop_last()) * 10 + (s.last() as int - 48)
    }
}

/// Every character is a decimal digit.
pub open spec fn all_digits(s: Seq<char>) -> bool {
    forall|i: int| 0 <= i < s.len() ==> 48 <= (#[trigger] s[i]) as int <= 57
}

/// The digits of an integer literal: everything after an optional sign.
pub open spec fn int_digits(s: Seq<char>) -> Seq<char> {
    if s.len() > 0 && (s[0] == '+' || s[0] == '-') {
        s.skip(1)
    } else {
        s
    }
}

/// The string denotes an integer in the range of a signed 64-bit word: an
/// optional sign, at least one digit, all digits, and a magnitude within
/// range (one more below zero than above).
pub open spec fn is_i64_string(s: Seq<char>) -> bool {
    &&& int_digits(s).len() >= 1
    &&& all_digits(int_digits(s))
    &&& dec_value(int_digits(s)) <= (if s.len() > 0 && s[0] == '-' {
        0x8000_0000_0000_0000
    } else {
        0x7FFF_FFFF_FFFF_FFFF as int
    })
}

/// The value of a digit string is never negative, and no prefix exceeds it.
proof fn lemma_dec_prefix_le(s: Seq<char>, k: int)
    requires
        all_digits(s),
        0 <= k <= s.len(),
    ensures
        0 <= dec_value(s.take(k)) <= dec_value(s),
    decreases s.len(),
{
    if s.len() == 0 {
        assert(s.take(k) =~= s);
    } else if k == s.len() {
        assert(s.take(k) =~= s);
        lemma_dec_prefix_le(s.drop_last(), s.len() - 1);
        assert(s.drop_last().take(s.len() - 1) =~= s.drop_last());
    } else {
        assert(all_digits(s.drop_last()));
        lemma_dec_prefix_le(s.drop_last(), k);
        assert(s.drop_last().take(k) =~= s.take(k));
        assert(dec_value(s) == dec_value(s.drop_last()) * 10 + (s.last() as int - 48));
        assert(dec_value(s.drop_last()) * 10 >= dec_value(s.drop_last())) by (nonlinear_arith)
            requires
                dec_value(s.drop_last()) >= 0,
        ;
    }
}

/// The message a failed validation carries.
fn not_an_integer(s: &String) -> (r: String)
    ensures
        r@ == s@ + " is not an integer"@,
{
    s.clone().concat(" is not an integer")
}

/// Accept a string exactly when it denotes an integer that fits a signed
/// 64-bit word.
pub fn str_is_integer(s: String) -> (r: Result<(), String>)
    ensures
        r is Ok <==> is_i64_string(s@),
        r matches Err(e) ==> e@ == s@ + " is not an integer"@,
{
    let st = s.as_str();
    let n = st.unicode_len();
    if n == 0 {
        return Err(not_an_integer(&s));
    }
    let first = st.get_char(0);
    let neg = first == '-';
    let start: usize = if first == '-' || first == '+' {
        1
    } else {
        0
    };
    if n == start {
        return Err(not_an_integer(&s));
    }
    let ghost digits = int_digits(s@);
    proof {
        assert(digits =~= s@.skip(start as int));
    }
    let limit: u128 = if neg {
        0x8000_0000_0000_0000
    } else {
        0x7FFF_FFFF_FFFF_FFFF
    };
    let mut mag: u128 = 0;
    let mut i: usize = start;
    while i < n
        invariant
            st@ == s@,
            n == s@.len(),
            start <= i <= n,
            start <= 1,
            digits == int_digits(s@),
            digits =~= s@.skip(start as int),
            limit == (if s@.len() > 0 && s@[0] == '-' {
                0x8000_0000_0000_0000int
            } else {
                0x7FFF_FFFF_FFFF_FFFFint
            }),
            all_digits(digits.take(i - start)),
            mag == dec_value(digits.take(i - start)),
            mag <= limit,
        decreases n - i,
    {
        let c = st.get_char(i);
        let cv = c as u32;
        if cv < 48 || cv > 57 {
            proof {
                assert(digits[i as int - start as int] == s@[i as int]);
            }
            return Err(not_an_integer(&s));
        }
        proof {
            assert(digits.take(i + 1 - start).drop_last() =~= digits.take(i - start));
            assert(digits.take(i + 1 - start).last() == s@[i as int]);
        }
        mag = mag * 10 + ((cv - 48) as u128);
        i = i + 1;
        if mag > limit {
            proof {
                if is_i64_string(s@) {
                    lemma_dec_prefix_le(digits, i - start);
                }
            }
            return Err(not_an_integer(&s));
        }
    }
    proof {
        assert(digits.take(n - start) =~= digits);
    }
    Ok(())
}

} // verus!
