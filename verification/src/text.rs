//! Line-oriented text helpers: whitespace tokenization, trimming, and the
//! executable scanners the line parsers are built on.

use vstd::prelude::*;
use crate::scan::scan;
use crate::scan::lemma_scan_bounds;
use crate::scan::lemma_scan_stop;

verus! {

/// Whether `c` separates tokens.
pub open spec fn is_ws(c: char) -> bool {
    c == ' ' || c == '\t' || c == '\n' || c == '\r'
}

/// The token predicate, under one name so every scan over a token speaks of
/// the same function.
pub open spec fn not_ws_pred() -> spec_fn(char) -> bool {
    |c: char| !is_ws(c)
}

/// The predicate of everything but a single space, for fields split on
/// spaces alone.
pub open spec fn not_space_pred() -> spec_fn(char) -> bool {
    |c: char| c != ' '
}

#[via_fn]
proof fn tokens_from_decreases(s: Seq<char>, i: int) {
    if 0 <= i < s.len() && !is_ws(s[i]) {
        lemma_scan_bounds(s, i + 1, not_ws_pred());
    }
}

/// The whitespace-separated tokens of `s` from index `i` on: each token is a
/// maximal run of non-whitespace characters.
pub open spec fn tokens_from(s: Seq<char>, i: int) -> Seq<Seq<char>>
    decreases s.len() - i,
        via tokens_from_decreases
{
    if i < 0 || i >= s.len() {
        Seq::empty()
    } else if is_ws(s[i]) {
        tokens_from(s, i + 1)
    } else {
        let j = scan(s, i, not_ws_pred());
        seq![s.subrange(i, j)] + tokens_from(s, j)
    }
}

/// The line predicate: everything but the newline that ends a line.
pub open spec fn not_nl_pred() -> spec_fn(char) -> bool {
    |c: char| c != '\n'
}

#[via_fn]
proof fn lines_from_decreases(s: Seq<char>, i: int) {
    if 0 <= i < s.len() {
        lemma_scan_bounds(s, i, not_nl_pred());
    }
}

/// The newline-separated lines of `s` from index `i` on.  A final segment
/// without a terminating newline is a line too; empty text has none.
pub open spec fn lines_from(s: Seq<char>, i: int) -> Seq<Seq<char>>
    decreases s.len() - i,
        via lines_from_decreases
{
    if i < 0 || i >= s.len() {
        Seq::empty()
    } else {
        let j = scan(s, i, not_nl_pred());
        if j == s.len() {
            seq![s.subrange(i, j)]
        } else {
            seq![s.subrange(i, j)] + lines_from(s, j + 1)
        }
    }
}

/// Splits `v` into its newline-separated lines.
pub fn split_lines(v: &Vec<char>) -> (r: Vec<Vec<char>>)
    ensures
        r@.map_values(|t: Vec<char>| t@) == lines_from(v@, 0),
{
    let ghost f = |t: Vec<char>| t@;
    let mut r: Vec<Vec<char>> = Vec::new();
    let mut i: usize = 0;
    proof {
        assert(r@.map_values(f) =~= Seq::<Seq<char>>::empty());
    }
    while i < v.len()
        invariant
            0 <= i <= v@.len(),
            r@.map_values(f) + lines_from(v@, i as int) == lines_from(v@, 0),
            f == (|t: Vec<char>| t@),
        decreases v@.len() - i,
    {
        let start = i;
        let mut t: Vec<char> = Vec::new();
        while i < v.len() && v[i] != '\n'
            invariant
                start <= i <= v@.len(),
                t@ == v@.subrange(start as int, i as int),
                forall|m: int| start <= m < i ==> v@[m] != '\n',
            decreases v@.len() - i,
        {
            t.push(v[i]);
            proof {
                assert(v@.subrange(start as int, i as int).push(v@[i as int]) =~= v@.subrange(
                    start as int,
                    i + 1,
                ));
            }
            i = i + 1;
        }
        proof {
            let p = not_nl_pred();
            assert(forall|m: int| start <= m < i ==> #[trigger] p(v@[m]));
            assert(i == v@.len() || !p(v@[i as int]));
            lemma_scan_stop(v@, start as int, i as int, p);
        }
        let ghost r_old = r@;
        r.push(t);
        proof {
            assert(r@.map_values(f) =~= r_old.map_values(f).push(t@));
        }
        if i < v.len() {
            proof {
                assert(lines_from(v@, start as int) == seq![t@] + lines_from(v@, i + 1));
                assert(r_old.map_values(f).push(t@) + lines_from(v@, i + 1) =~= r_old.map_values(f)
                    + lines_from(v@, start as int));
            }
            i = i + 1;
        } else {
            proof {
                assert(lines_from(v@, start as int) == seq![t@]);
                assert(r_old.map_values(f).push(t@) + lines_from(v@, i as int) =~= r_old.map_values(
                    f,
                ) + lines_from(v@, start as int));
            }
        }
    }
    proof {
        assert(lines_from(v@, v@.len() as int) =~= Seq::<Seq<char>>::empty());
        assert(r@.map_values(f) + Seq::<Seq<char>>::empty() =~= r@.map_values(f));
    }
    r
}

/// `s` without its trailing whitespace.
pub open spec fn trim_end(s: Seq<char>) -> Seq<char>
    decreases s.len(),
{
    if s.len() > 0 && is_ws(s.last()) {
        trim_end(s.drop_last())
    } else {
        s
    }
}

/// `s` without its leading and trailing whitespace.
pub open spec fn trim(s: Seq<char>) -> Seq<char> {
    trim_end(s).skip(scan(trim_end(s), 0, |c: char| is_ws(c)))
}

/// Whether `c` separates tokens.
pub fn char_is_ws(c: char) -> (r: bool)
    ensures
        r == is_ws(c),
{
    c == ' ' || c == '\t' || c == '\n' || c == '\r'
}

/// Copies the characters of `v` in `[a, b)`.
pub fn copy_range(v: &Vec<char>, a: usize, b: usize) -> (r: Vec<char>)
    requires
        a <= b <= v@.len(),
    ensures
        r@ == v@.subrange(a as int, b as int),
{
    let mut r: Vec<char> = Vec::new();
    let mut i: usize = a;
    while i < b
        invariant
            a <= i <= b <= v@.len(),
            r@ == v@.subrange(a as int, i as int),
        decreases b - i,
    {
        r.push(v[i]);
        proof {
            assert(v@.subrange(a as int, i as int).push(v@[i as int]) =~= v@.subrange(
                a as int,
                i + 1,
            ));
        }
        i = i + 1;
    }
    r
}

/// The index of the first space at or after `from`, or the length.
pub fn find_space(v: &Vec<char>, from: usize) -> (r: usize)
    requires
        from <= v@.len(),
    ensures
        r == scan(v@, from as int, not_space_pred()),
        from <= r <= v@.len(),
        forall|m: int| from <= m < r ==> v@[m] != ' ',
        r < v@.len() ==> v@[r as int] == ' ',
{
    let mut i: usize = from;
    while i < v.len() && v[i] != ' '
        invariant
            from <= i <= v@.len(),
            forall|m: int| from <= m < i ==> v@[m] != ' ',
        decreases v@.len() - i,
    {
        i = i + 1;
    }
    proof {
        let p = not_space_pred();
        assert(forall|m: int| from <= m < i ==> #[trigger] p(v@[m]));
        lemma_scan_stop(v@, from as int, i as int, p);
    }
    i
}

/// Splits `v` into its whitespace-separated tokens.
pub fn split_ws(v: &Vec<char>) -> (r: Vec<Vec<char>>)
    ensures
        r@.map_values(|t: Vec<char>| t@) == tokens_from(v@, 0),
{
    let ghost f = |t: Vec<char>| t@;
    let mut r: Vec<Vec<char>> = Vec::new();
    let mut i: usize = 0;
    proof {
        assert(r@.map_values(f) =~= Seq::<Seq<char>>::empty());
    }
    while i < v.len()
        invariant
            0 <= i <= v@.len(),
            r@.map_values(f) + tokens_from(v@, i as int) == tokens_from(v@, 0),
            f == (|t: Vec<char>| t@),
        decreases v@.len() - i,
    {
        if char_is_ws(v[i]) {
            i = i + 1;
        } else {
            let start = i;
            let mut t: Vec<char> = Vec::new();
            while i < v.len() && !char_is_ws(v[i])
                invariant
                    start <= i <= v@.len(),
                    t@ == v@.subrange(start as int, i as int),
                    forall|m: int| start <= m < i ==> !is_ws(#[trigger] v@[m]),
                decreases v@.len() - i,
            {
                t.push(v[i]);
                proof {
                    assert(v@.subrange(start as int, i as int).push(v@[i as int]) =~= v@.subrange(
                        start as int,
                        i + 1,
                    ));
                }
                i = i + 1;
            }
            proof {
                let p = not_ws_pred();
                assert(forall|m: int| start <= m < i ==> #[trigger] p(v@[m]));
                assert(i == v@.len() || !p(v@[i as int]));
                lemma_scan_stop(v@, start as int, i as int, p);
                assert(tokens_from(v@, start as int) == seq![v@.subrange(start as int, i as int)]
                    + tokens_from(v@, i as int));
            }
            let ghost r_old = r@;
            r.push(t);
            proof {
                assert(r@.map_values(f) =~= r_old.map_values(f).push(t@));
                assert(r_old.map_values(f).push(t@) + tokens_from(v@, i as int) =~= r_old.map_values(
                    f,
                ) + tokens_from(v@, start as int));
            }
        }
    }
    proof {
        assert(tokens_from(v@, v@.len() as int) =~= Seq::<Seq<char>>::empty());
        assert(r@.map_values(f) + Seq::<Seq<char>>::empty() =~= r@.map_values(f));
    }
    r
}

/// `v` without its leading and trailing whitespace.
pub fn trim_chars(v: &Vec<char>) -> (r: Vec<char>)
    ensures
        r@ == trim(v@),
{
    let mut b: usize = v.len();
    proof {
        assert(v@.take(v@.len() as int) =~= v@);
    }
    while b > 0 && char_is_ws(v[b - 1])
        invariant
            0 <= b <= v@.len(),
            trim_end(v@) == trim_end(v@.take(b as int)),
        decreases b,
    {
        proof {
            assert(v@.take(b as int).last() == v@[b - 1]);
            assert(v@.take(b as int).drop_last() =~= v@.take(b - 1));
        }
        b = b - 1;
    }
    proof {
        if b > 0 {
            assert(v@.take(b as int).last() == v@[b - 1]);
        }
        assert(trim_end(v@.take(b as int)) == v@.take(b as int));
    }
    let mut a: usize = 0;
    while a < b && char_is_ws(v[a])
        invariant
            0 <= a <= b <= v@.len(),
            trim_end(v@) == v@.take(b as int),
            forall|m: int| 0 <= m < a ==> is_ws(#[trigger] v@[m]),
        decreases b - a,
    {
        a = a + 1;
    }
    proof {
        let t = v@.take(b as int);
        let p = |c: char| is_ws(c);
        assert(forall|m: int| 0 <= m < a ==> #[trigger] p(t[m]));
        assert(a == t.len() || !p(t[a as int]));
        lemma_scan_stop(t, 0, a as int, p);
        assert(t.skip(a as int) =~= v@.subrange(a as int, b as int));
    }
    copy_range(v, a, b)
}

} // verus!
