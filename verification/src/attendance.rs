//! Check-in parsing: an attendance badge scan arrives as a text uid of the
//! shape `u<number>` (or `U<number>`), and only a well-formed one is
//! recorded.

use vstd::prelude::*;

verus! {

/// An ASCII decimal digit.
pub open spec fn is_ascii_digit(c: char) -> bool {
    '0' as int <= c as int && c as int <= '9' as int
}

/// The numeric value of a digit character.
pub open spec fn digit_value(c: char) -> nat {
    (c as int - '0' as int) as nat
}

/// Every character is a decimal digit.
pub open spec fn all_digits(s: Seq<char>) -> bool {
    forall|i: int| 0 <= i < s.len() ==> is_ascii_digit(#[trigger] s[i])
}

/// The number the digit string denotes, most significant digit first.
pub open spec fn digits_value(s: Seq<char>) -> nat
    decreases s.len(),
{
    if s.len() == 0 {
        0
    } else {
        digits_value(s.drop_last()) * 10 + digit_value(s.last())
    }
}

/// The digits of a decimal numeral, a single optional leading plus sign
/// stripped — the shape the standard unsigned parser accepts.
pub open spec fn numeral_body(s: Seq<char>) -> Seq<char> {
    if s.len() > 0 && s[0] == '+' {
        s.drop_first()
    } else {
        s
    }
}

/// Whether `s` is a decimal numeral denoting a value a `u32` can hold.
pub open spec fn is_u32_numeral(s: Seq<char>) -> bool {
    let body = numeral_body(s);
    &&& body.len() > 0
    &&& all_digits(body)
    &&& digits_value(body) <= u32::MAX
}

/// The uid a check-in request denotes: a `u` or `U` tag followed by a
/// numeral in range, or nothing.
pub open spec fn check_in_uid(s: Seq<char>) -> Option<u32> {
    if s.len() > 0 && (s[0] == 'u' || s[0] == 'U') && is_u32_numeral(s.drop_first()) {
        Some(digits_value(numeral_body(s.drop_first())) as u32)
    } else {
        None
    }
}

proof fn lemma_digits_value_prefix_le(s: Seq<char>, j: int)
    requires
        0 <= j <= s.len(),
    ensures
        digits_value(s.take(j)) <= digits_value(s),
    decreases s.len() - j,
{
    if j == s.len() {
        assert(s.take(j) =~= s);
    } else {
        assert(s.take(j + 1).drop_last() =~= s.take(j));
        assert(s.take(j + 1).last() == s[j]);
        assert(digits_value(s.take(j)) <= digits_value(s.take(j + 1)));
        lemma_digits_value_prefix_le(s, j + 1);
    }
}

/// Reads a check-in uid: the tag character, an optional plus sign, then
/// decimal digits whose value fits a `u32`. Anything else — a missing tag,
/// an empty number, a stray character, a value out of range — is turned
/// away.
pub fn parse_check_in_uid(uid: &str) -> (r: Option<u32>)
    ensures
        r == check_in_uid(uid@),
{
    let n = uid.unicode_len();
    if n == 0 {
        return None;
    }
    let tag = uid.get_char(0);
    if tag != 'u' && tag != 'U' {
        return None;
    }
    let mut start: usize = 1;
    if n >= 2 && uid.get_char(1) == '+' {
        start = 2;
    }
    let ghost body = numeral_body(uid@.drop_first());
    proof {
        assert(body =~= uid@.skip(start as int));
    }
    if start >= n {
        return None;
    }
    let mut value: u64 = 0;
    let mut i = start;
    while i < n
        invariant
            start <= i <= n,
            n == uid@.len(),
            start < n,
            uid@[0] == 'u' || uid@[0] == 'U',
            body == uid@.skip(start as int),
            body == numeral_body(uid@.drop_first()),
            value <= u32::MAX,
            value == digits_value(body.take(i - start)),
            all_digits(body.take(i - start)),
        decreases n - i,
    {
        let c = uid.get_char(i);
        let code = c as u32;
        proof {
            assert(body[i - start] == uid@[i as int]);
            assert(body.take(i - start + 1).drop_last() =~= body.take(i - start));
            assert(body.take(i - start + 1).last() == body[i - start]);
        }
        if code < 48 || code > 57 {
            proof {
                assert(!is_ascii_digit(body[i - start]));
            }
            return None;
        }
        let digit = (code - 48) as u64;
        if value * 10 + digit > u32::MAX as u64 {
            proof {
                lemma_digits_value_prefix_le(body, i - start + 1);
            }
            return None;
        }
        value = value * 10 + digit;
        i += 1;
    }
    proof {
        assert(body.take(i - start) =~= body);
    }
    Some(value as u32)
}

} // verus!
