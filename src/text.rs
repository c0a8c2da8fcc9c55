//! Character-level helpers on strings.

use vstd::prelude::*;
use vstd::std_specs::iter::IteratorSpec;
use vstd::string::*;

verus! {

broadcast use vstd::string::group_string_axioms;

/// The characters of a string, in order.
pub fn chars_of(s: &str) -> (r: Vec<char>)
    ensures
        r@ == s@,
{
    let n = s.unicode_len();
    let mut out: Vec<char> = Vec::new();
    let mut it = s.chars();
    let mut k: usize = 0;
    while k < n
        invariant
            n == s@.len(),
            0 <= k <= n,
            out@.len() == k,
            out@ + it.remaining() == s@,
            it.obeys_prophetic_iter_laws(),
        decreases n - k,
    {
        proof {
            assert((out@ + it.remaining()).len() == n);
        }
        match it.next() {
            Some(c) => {
                out.push(c);
                proof {
                    assert(out@ + it.remaining() =~= s@);
                }
            },
            None => {
                proof {
                    assert(false);
                }
            },
        }
        k = k + 1;
    }
    proof {
        assert(out@ =~= s@);
    }
    out
}

/// Whether two strings hold the same characters.
pub fn str_eq(a: &str, b: &str) -> (r: bool)
    ensures
        r == (a@ == b@),
{
    let n = a.unicode_len();
    if n != b.unicode_len() {
        return false;
    }
    let mut i: usize = 0;
    while i < n
        invariant
            n == a@.len() == b@.len(),
            0 <= i <= n,
            forall|j: int| 0 <= j < i ==> a@[j] == b@[j],
        decreases n - i,
    {
        if a.get_char(i) != b.get_char(i) {
            return false;
        }
        i = i + 1;
    }
    proof {
        assert(a@ =~= b@);
    }
    true
}

/// Whether `c` has the Unicode White_Space property.
pub open spec fn is_ws(c: char) -> bool {
    let u = c as u32;
    (0x9 <= u <= 0xd) || u == 0x20 || u == 0x85 || u == 0xa0 || u == 0x1680 || (0x2000 <= u
        <= 0x200a) || u == 0x2028 || u == 0x2029 || u == 0x202f || u == 0x205f || u == 0x3000
}

/// Whether `c` has the Unicode White_Space property.
pub fn is_whitespace(c: char) -> (r: bool)
    ensures
        r == is_ws(c),
{
    let u = c as u32;
    (0x9 <= u && u <= 0xd) || u == 0x20 || u == 0x85 || u == 0xa0 || u == 0x1680 || (0x2000 <= u
        && u <= 0x200a) || u == 0x2028 || u == 0x2029 || u == 0x202f || u == 0x205f || u == 0x3000
}

/// `s` without its leading whitespace.
pub open spec fn trim_start(s: Seq<char>) -> Seq<char>
    decreases s.len(),
{
    if s.len() > 0 && is_ws(s[0]) {
        trim_start(s.drop_first())
    } else {
        s
    }
}

/// `s` without its trailing whitespace.
pub open spec fn trim_end(s: Seq<char>) -> Seq<char>
    decreases s.len(),
{
    if s.len() > 0 && is_ws(s.last()) {
        trim_end(s.drop_last())
    } else {
        s
    }
}

/// The index of the first character at or after `i` that is not whitespace,
/// before `end`.
pub fn skip_ws(cs: &Vec<char>, i: usize, end: usize) -> (r: usize)
    requires
        i <= end <= cs@.len(),
    ensures
        i <= r <= end,
        trim_start(cs@.subrange(i as int, end as int)) == cs@.subrange(r as int, end as int),
{
    let mut k = i;
    while k < end && is_whitespace(cs[k])
        invariant
            i <= k <= end <= cs@.len(),
            trim_start(cs@.subrange(i as int, end as int)) == trim_start(
                cs@.subrange(k as int, end as int),
            ),
        decreases end - k,
    {
        proof {
            assert(cs@.subrange(k + 1, end as int) =~= cs@.subrange(k as int, end as int).drop_first());
        }
        k = k + 1;
    }
    k
}

/// The index after the last character before `end`, at or after `i`, that is
/// not whitespace.
pub fn skip_ws_back(cs: &Vec<char>, i: usize, end: usize) -> (r: usize)
    requires
        i <= end <= cs@.len(),
    ensures
        i <= r <= end,
        trim_end(cs@.subrange(i as int, end as int)) == cs@.subrange(i as int, r as int),
{
    let mut k = end;
    while k > i && is_whitespace(cs[k - 1])
        invariant
            i <= k <= end <= cs@.len(),
            trim_end(cs@.subrange(i as int, end as int)) == trim_end(
                cs@.subrange(i as int, k as int),
            ),
        decreases k - i,
    {
        proof {
            assert(cs@.subrange(i as int, k - 1) =~= cs@.subrange(i as int, k as int).drop_last());
        }
        k = k - 1;
    }
    k
}

/// Whether `cs[i..]` starts with `pat`.
pub fn has_at(cs: &Vec<char>, i: usize, pat: &Vec<char>) -> (r: bool)
    requires
        i <= cs@.len(),
    ensures
        r == (i + pat@.len() <= cs@.len() && cs@.subrange(i as int, i + pat@.len()) == pat@),
{
    if pat.len() > cs.len() - i {
        return false;
    }
    let cl = cs.len();
    let mut k: usize = 0;
    while k < pat.len()
        invariant
            cl == cs@.len(),
            i + pat@.len() <= cs@.len(),
            0 <= k <= pat@.len(),
            forall|j: int| 0 <= j < k ==> cs@[i + j] == pat@[j],
        decreases pat@.len() - k,
    {
        if cs[i + k] != pat[k] {
            proof {
                assert(cs@.subrange(i as int, i + pat@.len())[k as int] != pat@[k as int]);
            }
            return false;
        }
        k = k + 1;
    }
    proof {
        assert(cs@.subrange(i as int, i + pat@.len()) =~= pat@);
    }
    true
}

} // verus!
