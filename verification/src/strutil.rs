//! Small verified string helpers shared by the other modules: character
//! extraction, equality, decimal rendering, and a substring predicate used by
//! error-message contracts.

use vstd::prelude::*;

verus! {

/// True when `sub` occurs as a contiguous run inside `s`.
pub open spec fn contains_seq(s: Seq<char>, sub: Seq<char>) -> bool {
    exists|i: int| 0 <= i && i + sub.len() <= s.len() && #[trigger] s.subrange(i, i + sub.len()) == sub
}

/// A sequence contains any middle piece of a three-way concatenation.
pub proof fn lemma_concat_contains_middle(a: Seq<char>, b: Seq<char>, c: Seq<char>)
    ensures
        contains_seq(a + b + c, b),
{
    let s = a + b + c;
    assert(s.subrange(a.len() as int, (a.len() + b.len()) as int) =~= b);
}

/// A sequence contains its own tail piece.
pub proof fn lemma_concat_contains_suffix(a: Seq<char>, b: Seq<char>)
    ensures
        contains_seq(a + b, b),
{
    let s = a + b;
    assert(s.subrange(a.len() as int, (a.len() + b.len()) as int) =~= b);
}

/// Copies the characters of a string slice into a vector.
pub fn str_chars(s: &str) -> (v: Vec<char>)
    ensures
        v@ == s@,
{
    let n = s.unicode_len();
    let mut v: Vec<char> = Vec::new();
    let mut i: usize = 0;
    while i < n
        invariant
            n == s@.len(),
            i <= n,
            v@ == s@.subrange(0, i as int),
        decreases n - i,
    {
        v.push(s.get_char(i));
        i = i + 1;
        proof {
            assert(v@ =~= s@.subrange(0, i as int));
        }
    }
    proof {
        assert(v@ =~= s@);
    }
    v
}

/// Builds the string holding exactly the given characters.
/// Relies on `String: FromIterator<char>` from std: collecting characters
/// yields the string whose characters are exactly the collected ones.
#[verifier::external_body]
pub(crate) fn chars_to_string(v: &Vec<char>) -> (s: String)
    ensures
        s@ == v@,
{
    v.iter().collect()
}

/// Character-by-character equality of two string slices.
pub fn str_eq(a: &str, b: &str) -> (r: bool)
    ensures
        r == (a@ == b@),
{
    let n = a.unicode_len();
    if n != b.unicode_len() {
        return false;
    }
    let mut i: usize = 0;
    while i < n
        invariant
            n == a@.len(),
            n == b@.len(),
            i <= n,
            forall|j: int| 0 <= j < i ==> a@[j] == b@[j],
        decreases n - i,
    {
        if a.get_char(i) != b.get_char(i) {
            return false;
        }
        i = i + 1;
    }
    proof {
        assert(a@ =~= b@);
    }
    true
}

/// The character for a single decimal digit value.
pub open spec fn digit_char(d: nat) -> char {
    if d == 0 {
        '0'
    } else if d == 1 {
        '1'
    } else if d == 2 {
        '2'
    } else if d == 3 {
        '3'
    } else if d == 4 {
        '4'
    } else if d == 5 {
        '5'
    } else if d == 6 {
        '6'
    } else if d == 7 {
        '7'
    } else if d == 8 {
        '8'
    } else {
        '9'
    }
}

/// Decimal rendering of a natural number, most significant digit first.
pub open spec fn dec_digits(n: nat) -> Seq<char>
    decreases n,
{
    if n < 10 {
        seq![digit_char(n)]
    } else {
        dec_digits(n / 10).push(digit_char(n % 10))
    }
}

/// Renders a number in decimal.
pub fn u64_to_dec(n: u64) -> (v: Vec<char>)
    ensures
        v@ == dec_digits(n as nat),
    decreases n,
{
    if n < 10 {
        let c = match n {
            0 => '0',
            1 => '1',
            2 => '2',
            3 => '3',
            4 => '4',
            5 => '5',
            6 => '6',
            7 => '7',
            8 => '8',
            _ => '9',
        };
        let mut v: Vec<char> = Vec::new();
        v.push(c);
        proof {
            assert(v@ =~= seq![digit_char(n as nat)]);
        }
        v
    } else {
        let mut v = u64_to_dec(n / 10);
        let d = n % 10;
        let c = match d {
            0 => '0',
            1 => '1',
            2 => '2',
            3 => '3',
            4 => '4',
            5 => '5',
            6 => '6',
            7 => '7',
            8 => '8',
            _ => '9',
        };
        v.push(c);
        v
    }
}

/// Appends every character of `tail` to `out`.
pub fn push_chars(out: &mut Vec<char>, tail: &Vec<char>)
    ensures
        final(out)@ == old(out)@ + tail@,
{
    let mut i: usize = 0;
    while i < tail.len()
        invariant
            i <= tail@.len(),
            out@ == old(out)@ + tail@.subrange(0, i as int),
        decreases tail@.len() - i,
    {
        out.push(tail[i]);
        i = i + 1;
        proof {
            assert(out@ =~= old(out)@ + tail@.subrange(0, i as int));
        }
    }
    proof {
        assert(out@ =~= old(out)@ + tail@);
    }
}

/// The suffix of a vector from index `k` on.
pub fn tail_vec(v: &Vec<char>, k: usize) -> (r: Vec<char>)
    requires
        k <= v@.len(),
    ensures
        r@ == v@.skip(k as int),
{
    let mut r: Vec<char> = Vec::new();
    let mut i: usize = k;
    while i < v.len()
        invariant
            k <= i <= v@.len(),
            r@ == v@.subrange(k as int, i as int),
        decreases v@.len() - i,
    {
        r.push(v[i]);
        i = i + 1;
        proof {
            assert(r@ =~= v@.subrange(k as int, i as int));
        }
    }
    proof {
        assert(r@ =~= v@.skip(k as int));
    }
    r
}

/// The prefix of a vector up to index `k`.
pub fn take_vec(v: &Vec<char>, k: usize) -> (r: Vec<char>)
    requires
        k <= v@.len(),
    ensures
        r@ == v@.take(k as int),
{
    let mut r: Vec<char> = Vec::new();
    let mut i: usize = 0;
    while i < k
        invariant
            i <= k <= v@.len(),
            r@ == v@.subrange(0, i as int),
        decreases k - i,
    {
        r.push(v[i]);
        i = i + 1;
        proof {
            assert(r@ =~= v@.subrange(0, i as int));
        }
    }
    r
}

/// Character-by-character equality of a vector and a string slice.
pub fn chars_eq_str(v: &Vec<char>, s: &str) -> (r: bool)
    ensures
        r == (v@ == s@),
{
    let n = s.unicode_len();
    if v.len() != n {
        return false;
    }
    let mut i: usize = 0;
    while i < n
        invariant
            n == s@.len(),
            n == v@.len(),
            i <= n,
            forall|j: int| 0 <= j < i ==> v@[j] == s@[j],
        decreases n - i,
    {
        if v[i] != s.get_char(i) {
            return false;
        }
        i = i + 1;
    }
    proof {
        assert(v@ =~= s@);
    }
    true
}

} // verus!
