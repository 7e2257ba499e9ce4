//! Small executable helpers for building strings character by character.

use vstd::prelude::*;
use crate::num::dec_digits;
use crate::num::digits_of;
use crate::num::char_of_digit;

verus! {

/// Relies on std's `String::push`: appends one character to the string.
#[verifier::external_body]
pub(crate) fn push_char(s: &mut String, c: char)
    ensures
        final(s)@ == old(s)@.push(c),
{
    s.push(c);
}

/// Copies a character vector into a fresh string.
pub fn chars_to_string(v: &Vec<char>) -> (s: String)
    ensures
        s@ == v@,
{
    let mut s = String::new();
    let mut i: usize = 0;
    while i < v.len()
        invariant
            0 <= i <= v@.len(),
            s@ == v@.take(i as int),
        decreases v@.len() - i,
    {
        push_char(&mut s, v[i]);
        proof {
            assert(v@.take(i as int).push(v@[i as int]) =~= v@.take(i + 1));
        }
        i = i + 1;
    }
    proof {
        assert(v@.take(v@.len() as int) =~= v@);
    }
    s
}

/// Appends the decimal digits of a positive number.
fn push_digits_pos(s: &mut String, n: u32)
    requires
        n > 0,
    ensures
        final(s)@ == old(s)@ + digits_of(n as nat),
    decreases n,
{
    if n >= 10 {
        push_digits_pos(s, n / 10);
    } else {
        proof {
            assert(digits_of(n as nat / 10) =~= Seq::<char>::empty());
        }
    }
    push_char(s, char_of_digit(n % 10));
    proof {
        assert(old(s)@ + digits_of(n as nat)
            =~= (old(s)@ + digits_of(n as nat / 10)).push(crate::num::digit_char(n as nat % 10)));
    }
}

/// Appends the decimal spelling of `n`, with zero spelled `"0"`.
pub fn push_u32(s: &mut String, n: u32)
    ensures
        final(s)@ == old(s)@ + dec_digits(n as nat),
{
    if n == 0 {
        push_char(s, '0');
        proof {
            assert(old(s)@ + dec_digits(0nat) =~= old(s)@.push('0'));
        }
    } else {
        push_digits_pos(s, n);
    }
}

} // verus!
