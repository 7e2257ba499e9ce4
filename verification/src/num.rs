//! Decimal digit runs: their value, their canonical spelling, and the
//! executable conversions between numbers and digit characters.

use vstd::prelude::*;
use crate::errors::Error;

verus! {

/// Whether `c` is a decimal digit.
pub open spec fn is_digit(c: char) -> bool {
    48 <= c as u32 && c as u32 <= 57
}

/// The value of a digit character; zero for anything else.
pub open spec fn digit_val(c: char) -> nat {
    if is_digit(c) {
        (c as u32 - 48) as nat
    } else {
        0nat
    }
}

/// The digit character for a value below ten.
pub open spec fn digit_char(d: nat) -> char {
    if d == 0 {
        '0'
    } else if d == 1 {
        '1'
    } else if d == 2 {
        '2'
    } else if d == 3 {
        '3'
    } else if d == 4 {
        '4'
    } else if d == 5 {
        '5'
    } else if d == 6 {
        '6'
    } else if d == 7 {
        '7'
    } else if d == 8 {
        '8'
    } else {
        '9'
    }
}

/// The number a digit sequence denotes, most significant digit first.
pub open spec fn num_val(s: Seq<char>) -> nat
    decreases s.len(),
{
    if s.len() == 0 {
        0nat
    } else {
        num_val(s.drop_last()) * 10 + digit_val(s.last())
    }
}

/// The decimal spelling of `n` without leading zeros; empty for zero.
pub open spec fn digits_of(n: nat) -> Seq<char>
    decreases n,
{
    if n == 0 {
        Seq::empty()
    } else {
        digits_of(n / 10).push(digit_char(n % 10))
    }
}

/// The decimal spelling of `n`, with `0` spelled `"0"`.
pub open spec fn dec_digits(n: nat) -> Seq<char> {
    if n == 0 {
        seq!['0']
    } else {
        digits_of(n)
    }
}

/// Every character of a decimal spelling is a digit, and a positive number
/// has at least one.
pub proof fn lemma_digits_of_digits(n: nat)
    ensures
        forall|i: int| 0 <= i < digits_of(n).len() ==> is_digit(#[trigger] digits_of(n)[i]),
        n > 0 ==> digits_of(n).len() >= 1,
    decreases n,
{
    if n > 0 {
        lemma_digits_of_digits(n / 10);
        assert(is_digit(digit_char(n % 10)));
        assert forall|i: int| 0 <= i < digits_of(n).len() implies is_digit(
            #[trigger] digits_of(n)[i],
        ) by {
            if i < digits_of(n).len() - 1 {
                assert(digits_of(n)[i] == digits_of(n / 10)[i]);
            } else {
                assert(digits_of(n)[i] == digit_char(n % 10));
            }
        }
    }
}

/// Reading back the decimal spelling of `n` gives `n`.
pub proof fn lemma_digits_of_val(n: nat)
    ensures
        num_val(digits_of(n)) == n,
    decreases n,
{
    if n > 0 {
        lemma_digits_of_val(n / 10);
        let pre = digits_of(n / 10);
        let c = digit_char(n % 10);
        assert(pre.push(c).drop_last() =~= pre);
        assert(pre.push(c).last() == c);
        assert(digit_val(c) == n % 10);
    }
}

/// The canonical spelling properties carried over to `dec_digits`.
pub proof fn lemma_dec_digits(n: nat)
    ensures
        forall|i: int| 0 <= i < dec_digits(n).len() ==> is_digit(#[trigger] dec_digits(n)[i]),
        dec_digits(n).len() >= 1,
        num_val(dec_digits(n)) == n,
{
    lemma_digits_of_digits(n);
    lemma_digits_of_val(n);
    if n == 0 {
        assert(num_val(seq!['0']) == num_val(seq!['0'].drop_last()) * 10 + digit_val('0'));
        assert(seq!['0'].drop_last() =~= Seq::<char>::empty());
    }
}

/// A prefix of a digit run denotes no more than the whole run.
pub proof fn lemma_num_val_prefix(s: Seq<char>, k: int)
    requires
        0 <= k <= s.len(),
    ensures
        num_val(s.take(k)) <= num_val(s),
    decreases s.len(),
{
    if k == s.len() {
        assert(s.take(k) =~= s);
    } else {
        lemma_num_val_prefix(s.drop_last(), k);
        assert(s.take(k) =~= s.drop_last().take(k));
    }
}

/// Whether a token is a well-formed machine-word number: non-empty, all
/// digits, and within `usize` range.
pub open spec fn usize_token_ok(t: Seq<char>) -> bool {
    &&& t.len() > 0
    &&& forall|i: int| 0 <= i < t.len() ==> is_digit(#[trigger] t[i])
    &&& num_val(t) <= usize::MAX
}

/// Whether `c` is a decimal digit.
pub fn char_is_digit(c: char) -> (r: bool)
    ensures
        r == is_digit(c),
{
    let u = c as u32;
    48 <= u && u <= 57
}

/// The value of a digit character.
pub fn char_digit_val(c: char) -> (d: u32)
    requires
        is_digit(c),
    ensures
        d == digit_val(c),
        d < 10,
{
    c as u32 - 48
}

/// The digit character for a value below ten.
pub fn char_of_digit(d: u32) -> (c: char)
    requires
        d < 10,
    ensures
        c == digit_char(d as nat),
{
    if d == 0 {
        '0'
    } else if d == 1 {
        '1'
    } else if d == 2 {
        '2'
    } else if d == 3 {
        '3'
    } else if d == 4 {
        '4'
    } else if d == 5 {
        '5'
    } else if d == 6 {
        '6'
    } else if d == 7 {
        '7'
    } else if d == 8 {
        '8'
    } else {
        '9'
    }
}

/// Parses a whole token as a `usize`: it must be non-empty, all digits, and
/// fit the machine word, else the token is a malformed number.
pub fn parse_usize(t: &Vec<char>) -> (r: Result<usize, Error>)
    ensures
        usize_token_ok(t@) ==> r == Ok::<usize, Error>(num_val(t@) as usize),
        !usize_token_ok(t@) ==> r == Err::<usize, Error>(Error::BadNumber),
{
    if t.len() == 0 {
        return Err(Error::BadNumber);
    }
    let mut n: usize = 0;
    let mut i: usize = 0;
    while i < t.len()
        invariant
            0 <= i <= t@.len(),
            forall|m: int| 0 <= m < i ==> is_digit(#[trigger] t@[m]),
            n == num_val(t@.take(i as int)),
            num_val(t@.take(i as int)) <= usize::MAX,
        decreases t@.len() - i,
    {
        let c = t[i];
        if !char_is_digit(c) {
            return Err(Error::BadNumber);
        }
        let d = char_digit_val(c) as usize;
        proof {
            assert(t@.take(i + 1).drop_last() =~= t@.take(i as int));
            assert(t@.take(i + 1).last() == t@[i as int]);
        }
        if n > (usize::MAX - d) / 10 {
            proof {
                let x = (usize::MAX - d) as int / 10;
                vstd::arithmetic::div_mod::lemma_fundamental_div_mod((usize::MAX - d) as int, 10);
                assert(n * 10 >= x * 10 + 10);
                assert(num_val(t@.take(i + 1)) > usize::MAX);
                lemma_num_val_prefix(t@, i + 1);
            }
            return Err(Error::BadNumber);
        }
        n = n * 10 + d;
        i = i + 1;
    }
    proof {
        assert(t@.take(t@.len() as int) =~= t@);
    }
    Ok(n)
}

} // verus!
