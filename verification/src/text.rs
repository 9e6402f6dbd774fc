//! Character-level helpers shared by the parser and the writers.
//!
//! The pipeline works over `Vec<char>` so that every step of the
//! tokeniser is in view of the verifier; the two conversions to and
//! from `String` at the boundary are the only trusted steps here.

use vstd::prelude::*;
use vstd::string::StringExecFns;

verus! {

/// Relies on str::chars: iterating a string slice yields exactly the
/// characters of its view, in order.
#[verifier::external_body]
pub fn str_chars(s: &str) -> (r: Vec<char>)
    ensures
        r@ == s@,
{
    s.chars().collect()
}

/// Relies on the FromIterator impl of String: collecting characters
/// builds the string of exactly those characters, in order.
#[verifier::external_body]
pub fn chars_to_string(v: &Vec<char>) -> (r: String)
    ensures
        r@ == v@,
{
    v.iter().collect()
}

/// Compare two string slices by their character sequences.
pub fn str_eq(a: &str, b: &str) -> (r: bool)
    ensures
        r == (a@ == b@),
{
    let sa = String::from_str(a);
    let sb = String::from_str(b);
    sa == sb
}

/// Compare a character vector against a string slice.
pub fn chars_eq_str(v: &Vec<char>, s: &str) -> (r: bool)
    ensures
        r == (v@ == s@),
{
    let sc = str_chars(s);
    if v.len() != sc.len() {
        assert(v@ != s@) by {
            assert(v@.len() != s@.len());
        }
        return false;
    }
    let n = v.len();
    let mut i: usize = 0;
    while i < n
        invariant
            n == v@.len() == sc@.len(),
            sc@ == s@,
            0 <= i <= n,
            forall|j: int| 0 <= j < i ==> v@[j] == sc@[j],
        decreases n - i,
    {
        if v[i] != sc[i] {
            return false;
        }
        i = i + 1;
    }
    assert(v@ =~= s@);
    true
}

/// An ASCII letter.
pub open spec fn spec_is_alpha(c: char) -> bool {
    (97 <= c as u32 <= 122) || (65 <= c as u32 <= 90)
}

#[verifier::when_used_as_spec(spec_is_alpha)]
pub fn is_alpha(c: char) -> (r: bool)
    ensures
        r == spec_is_alpha(c),
{
    let u = c as u32;
    (97 <= u && u <= 122) || (65 <= u && u <= 90)
}

/// An ASCII letter or digit.
pub open spec fn spec_is_alnum(c: char) -> bool {
    spec_is_alpha(c) || (48 <= c as u32 <= 57)
}

#[verifier::when_used_as_spec(spec_is_alnum)]
pub fn is_alnum(c: char) -> (r: bool)
    ensures
        r == spec_is_alnum(c),
{
    let u = c as u32;
    is_alpha(c) || (48 <= u && u <= 57)
}

/// A character with the Unicode `White_Space` property.
pub open spec fn spec_is_space(c: char) -> bool {
    let u = c as u32;
    (9 <= u <= 13) || u == 32 || u == 0x85 || u == 0xa0 || u == 0x1680 || (0x2000 <= u <= 0x200a)
        || u == 0x2028 || u == 0x2029 || u == 0x202f || u == 0x205f || u == 0x3000
}

#[verifier::when_used_as_spec(spec_is_space)]
pub fn is_space(c: char) -> (r: bool)
    ensures
        r == spec_is_space(c),
{
    let u = c as u32;
    (9 <= u && u <= 13) || u == 32 || u == 0x85 || u == 0xa0 || u == 0x1680 || (0x2000 <= u
        && u <= 0x200a) || u == 0x2028 || u == 0x2029 || u == 0x202f || u == 0x205f || u == 0x3000
}

/// The sequence with its leading white space dropped.
pub open spec fn spec_trim_front(s: Seq<char>) -> Seq<char>
    decreases s.len(),
{
    if s.len() > 0 && spec_is_space(s[0]) {
        spec_trim_front(s.drop_first())
    } else {
        s
    }
}

/// The sequence with its trailing white space dropped.
pub open spec fn spec_trim_back(s: Seq<char>) -> Seq<char>
    decreases s.len(),
{
    if s.len() > 0 && spec_is_space(s[s.len() - 1]) {
        spec_trim_back(s.drop_last())
    } else {
        s
    }
}

/// The sequence with white space dropped from both ends.
pub open spec fn spec_trim(s: Seq<char>) -> Seq<char> {
    spec_trim_back(spec_trim_front(s))
}

proof fn lemma_trim_front_range(s: Seq<char>) -> (a: int)
    ensures
        0 <= a <= s.len(),
        spec_trim_front(s) == s.subrange(a, s.len() as int),
        forall|j: int| 0 <= j < a ==> spec_is_space(s[j]),
        a < s.len() ==> !spec_is_space(s[a]),
    decreases s.len(),
{
    if s.len() > 0 && spec_is_space(s[0]) {
        let a0 = lemma_trim_front_range(s.drop_first());
        assert(s.drop_first().subrange(a0, s.drop_first().len() as int) =~= s.subrange(
            a0 + 1,
            s.len() as int,
        ));
        assert(forall|j: int| 0 <= j < a0 + 1 ==> spec_is_space(s[j])) by {
            assert(forall|j: int| 1 <= j < a0 + 1 ==> s[j] == s.drop_first()[j - 1]);
        }
        a0 + 1
    } else {
        assert(s =~= s.subrange(0, s.len() as int));
        0
    }
}

proof fn lemma_trim_back_range(s: Seq<char>) -> (b: int)
    ensures
        0 <= b <= s.len(),
        spec_trim_back(s) == s.subrange(0, b),
        forall|j: int| b <= j < s.len() ==> spec_is_space(s[j]),
        b > 0 ==> !spec_is_space(s[b - 1]),
    decreases s.len(),
{
    if s.len() > 0 && spec_is_space(s[s.len() - 1]) {
        let b0 = lemma_trim_back_range(s.drop_last());
        assert(s.drop_last().subrange(0, b0) =~= s.subrange(0, b0));
        assert(forall|j: int| b0 <= j < s.len() ==> spec_is_space(s[j])) by {
            assert(forall|j: int| b0 <= j < s.len() - 1 ==> s[j] == s.drop_last()[j]);
        }
        b0
    } else {
        assert(s =~= s.subrange(0, s.len() as int));
        s.len() as int
    }
}

/// Copy `v` with white space dropped from both ends.
pub fn trim(v: &Vec<char>) -> (r: Vec<char>)
    ensures
        r@ == spec_trim(v@),
{
    let n = v.len();
    let mut a: usize = 0;
    while a < n && is_space(v[a])
        invariant
            0 <= a <= n,
            n == v@.len(),
            forall|j: int| 0 <= j < a ==> spec_is_space(v@[j]),
        decreases n - a,
    {
        a = a + 1;
    }
    let mut b: usize = n;
    while b > a && is_space(v[b - 1])
        invariant
            a <= b <= n,
            n == v@.len(),
            forall|j: int| b <= j < n ==> spec_is_space(v@[j]),
        decreases b,
    {
        b = b - 1;
    }
    let mut r: Vec<char> = Vec::new();
    let mut i: usize = a;
    while i < b
        invariant
            a <= i <= b <= n,
            n == v@.len(),
            r@ == v@.subrange(a as int, i as int),
        decreases b - i,
    {
        let c = v[i];
        r.push(c);
        assert(r@ =~= v@.subrange(a as int, i + 1));
        i = i + 1;
    }
    proof {
        let a0 = lemma_trim_front_range(v@);
        assert(a0 == a) by {
            if a0 < a {
                assert(spec_is_space(v@[a0]));
            }
            if a < a0 {
                assert(spec_is_space(v@[a as int]));
            }
        }
        let f = spec_trim_front(v@);
        let b0 = lemma_trim_back_range(f);
        assert(f.len() == n - a);
        assert(forall|j: int| 0 <= j < f.len() ==> f[j] == v@[a + j]);
        assert(b0 == b - a) by {
            if b0 < b - a {
                // the loop stopped at b, so v[b - 1] is not white space,
                // yet it lies in the white-space tail of f
                assert(b > a);
                assert(!spec_is_space(v@[b - 1]));
                assert(spec_is_space(f[b - 1 - a]));
            }
            if b - a < b0 {
                // f keeps a character at b0 - 1 that is not white space,
                // yet the loop found only white space from b on
                assert(b0 > 0);
                assert(!spec_is_space(f[b0 - 1]));
                assert(spec_is_space(v@[a + b0 - 1]));
            }
        }
        assert(spec_trim(v@) =~= r@) by {
            assert(spec_trim(v@) == f.subrange(0, b0));
        }
    }
    r
}

} // verus!
