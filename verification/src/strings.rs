//! Character-level string helpers shared by the text-processing modules.
//!
//! Strings are handled through their views, sequences of `char`.  The helpers
//! here collect the characters of a `&str`, rebuild `String`s from character
//! slices, and search for a character pattern the way `str::find` does.
use vstd::prelude::*;
use vstd::std_specs::iter::IteratorSpec;

verus! {

/// `String::push` appends the given character to the end of the string, as
/// std's documentation states; the library relies on nothing more.
pub assume_specification[ std::string::String::push ](string: &mut String, ch: char)
    ensures
        final(string)@ == old(string)@.push(ch),
;

/// `pat` occurs in `s` starting at index `i`.
pub open spec fn matches_at(s: Seq<char>, pat: Seq<char>, i: int) -> bool {
    &&& 0 <= i
    &&& i + pat.len() <= s.len()
    &&& s.subrange(i, i + pat.len()) == pat
}

/// The first index at or after `i` where a non-empty `pat` occurs in `s`.
pub open spec fn find_from(s: Seq<char>, pat: Seq<char>, i: int) -> Option<int>
    decreases s.len() - i,
{
    if i < 0 || i >= s.len() || i + pat.len() > s.len() {
        None
    } else if s.subrange(i, i + pat.len()) == pat {
        Some(i)
    } else {
        find_from(s, pat, i + 1)
    }
}

/// `s` contains the non-empty pattern `pat`.
pub open spec fn contains_seq(s: Seq<char>, pat: Seq<char>) -> bool {
    find_from(s, pat, 0) is Some
}

/// What `find_from` returns: the first match at or after `i`, or no match at all.
pub proof fn lemma_find_from(s: Seq<char>, pat: Seq<char>, i: int)
    requires
        0 <= i,
        pat.len() > 0,
    ensures
        match find_from(s, pat, i) {
            Some(j) => {
                &&& i <= j
                &&& matches_at(s, pat, j)
                &&& forall|k: int| i <= k < j ==> !#[trigger] matches_at(s, pat, k)
            },
            None => forall|k: int| i <= k ==> !#[trigger] matches_at(s, pat, k),
        },
    decreases s.len() - i,
{
    if i >= s.len() || i + pat.len() > s.len() {
    } else if s.subrange(i, i + pat.len()) == pat {
    } else {
        lemma_find_from(s, pat, i + 1);
    }
}

/// Collects the characters of `s`, in order.
pub fn chars_of(s: &str) -> (v: Vec<char>)
    ensures
        v@ == s@,
{
    broadcast use vstd::string::group_string_axioms;

    let mut v: Vec<char> = Vec::new();
    let mut it = s.chars();
    let ghost full = s@;
    loop
        invariant
            v@ + it.remaining() == full,
            it.decrease() is Some,
        ensures
            v@ == full,
        decreases it.decrease()->0,
    {
        match it.next() {
            Some(c) => {
                v.push(c);
            },
            None => {
                break ;
            },
        }
    }
    v
}

/// Builds a `String` holding exactly the characters of `cs`.
pub fn string_of(cs: &[char]) -> (r: String)
    ensures
        r@ == cs@,
{
    let mut r = String::new();
    let n = cs.len();
    for k in 0..n
        invariant
            n == cs@.len(),
            r@ == cs@.subrange(0, k as int),
    {
        r.push(cs[k]);
        assert(cs@.subrange(0, k + 1) =~= cs@.subrange(0, k as int).push(cs@[k as int]));
    }
    assert(cs@.subrange(0, n as int) =~= cs@);
    r
}

/// Whether `pat` occurs in `s` at index `i`.
pub fn matches_at_exec(s: &[char], pat: &[char], i: usize) -> (b: bool)
    requires
        i <= s@.len(),
    ensures
        b == matches_at(s@, pat@, i as int),
{
    let n = pat.len();
    let len = s.len();
    if n > len - i {
        return false;
    }
    let mut k: usize = 0;
    while k < n
        invariant
            n == pat@.len(),
            i + n <= s@.len(),
            s@.len() <= usize::MAX,
            k <= n,
            forall|m: int| 0 <= m < k ==> s@[i + m] == pat@[m],
        decreases n - k,
    {
        if s[i + k] != pat[k] {
            assert(s@.subrange(i as int, i + n)[k as int] != pat@[k as int]);
            return false;
        }
        k = k + 1;
    }
    assert(s@.subrange(i as int, i + n) =~= pat@);
    true
}

/// The first index at or after `start` where `pat` occurs in `s`, as
/// `str::find` on the suffix starting at `start` reports it (shifted by `start`).
pub fn find_chars(s: &[char], pat: &[char], start: usize) -> (r: Option<usize>)
    requires
        start <= s@.len(),
    ensures
        match r {
            Some(j) => find_from(s@, pat@, start as int) == Some(j as int),
            None => find_from(s@, pat@, start as int) is None,
        },
{
    let mut i = start;
    while i < s.len()
        invariant
            start <= i <= s@.len(),
            find_from(s@, pat@, start as int) == find_from(s@, pat@, i as int),
        decreases s@.len() - i,
    {
        if pat.len() > s.len() - i {
            return None;
        }
        if matches_at_exec(s, pat, i) {
            return Some(i);
        }
        i = i + 1;
    }
    None
}

/// Whether `s` contains the pattern `pat`.
pub fn contains_chars(s: &[char], pat: &[char]) -> (b: bool)
    ensures
        b == contains_seq(s@, pat@),
{
    find_chars(s, pat, 0).is_some()
}

/// Whether two strings hold the same characters.
pub fn str_eq(a: &str, b: &str) -> (r: bool)
    ensures
        r == (a@ == b@),
{
    let x = chars_of(a);
    let y = chars_of(b);
    if x.len() != y.len() {
        return false;
    }
    let n = x.len();
    let mut k: usize = 0;
    while k < n
        invariant
            n == x@.len(),
            n == y@.len(),
            x@ == a@,
            y@ == b@,
            k <= n,
            forall|m: int| 0 <= m < k ==> x@[m] == y@[m],
        decreases n - k,
    {
        if x[k] != y[k] {
            assert(a@[k as int] != b@[k as int]);
            return false;
        }
        k = k + 1;
    }
    assert(x@ =~= y@);
    true
}

/// Whether `s` contains the character `c`.
pub fn contains_char(s: &str, c: char) -> (r: bool)
    ensures
        r == s@.contains(c),
{
    let v = chars_of(s);
    let n = v.len();
    let mut k: usize = 0;
    while k < n
        invariant
            n == v@.len(),
            v@ == s@,
            k <= n,
            forall|m: int| 0 <= m < k ==> v@[m] != c,
        decreases n - k,
    {
        if v[k] == c {
            return true;
        }
        k = k + 1;
    }
    false
}

/// Concatenates two string slices into a new `String`.
pub fn concat2(a: &str, b: &str) -> (r: String)
    ensures
        r@ == a@ + b@,
{
    let mut r = String::from_str(a);
    r.append(b);
    r
}

} // verus!
