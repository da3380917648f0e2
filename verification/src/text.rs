use vstd::prelude::*;

verus! {

/// The characters of a string, in order.
pub fn chars_of(s: &str) -> (v: Vec<char>)
    ensures
        v@ == s@,
{
    let mut v: Vec<char> = Vec::new();
    for c in it: s.chars()
        invariant
            v@ == it.seq().take(it.index() as int),
    {
        v.push(c);
    }
    v
}

/// Whether two strings hold the same characters.
pub fn str_eq(a: &str, b: &str) -> (r: bool)
    ensures
        r == (a@ == b@),
{
    let x = a.to_owned();
    let y = b.to_owned();
    x == y
}

/// Whether `pat` occurs in `s` starting at index `i`.
pub open spec fn occurs_at(s: Seq<char>, pat: Seq<char>, i: int) -> bool {
    0 <= i && i + pat.len() <= s.len() && s.subrange(i, i + pat.len()) == pat
}

/// The first index at or after `i` where `pat` occurs in `s`.
pub open spec fn first_index_from(s: Seq<char>, pat: Seq<char>, i: int) -> Option<int>
    decreases s.len() + 1 - i,
{
    if i < 0 || i + pat.len() > s.len() {
        None
    } else if occurs_at(s, pat, i) {
        Some(i)
    } else {
        first_index_from(s, pat, i + 1)
    }
}

/// The first index where `pat` occurs in `s`.
pub open spec fn first_index(s: Seq<char>, pat: Seq<char>) -> Option<int> {
    first_index_from(s, pat, 0)
}

/// The parts of `s` before and after the first occurrence of `pat`, as
/// `str::split_once` gives them.
pub open spec fn spec_split_once(s: Seq<char>, pat: Seq<char>) -> Option<(Seq<char>, Seq<char>)> {
    match first_index(s, pat) {
        Some(i) => Some((s.take(i), s.skip(i + pat.len()))),
        None => None,
    }
}

proof fn lemma_first_index_from_bounds(s: Seq<char>, pat: Seq<char>, i: int)
    ensures
        first_index_from(s, pat, i) matches Some(k) ==> i <= k && occurs_at(s, pat, k),
    decreases s.len() + 1 - i,
{
    if i < 0 || i + pat.len() > s.len() {
    } else if occurs_at(s, pat, i) {
    } else {
        lemma_first_index_from_bounds(s, pat, i + 1);
    }
}

fn occurs_at_exec(s: &Vec<char>, pat: &Vec<char>, i: usize) -> (r: bool)
    requires
        i + pat@.len() <= s@.len(),
    ensures
        r == occurs_at(s@, pat@, i as int),
{
    let n = s.len();
    let mut k: usize = 0;
    while k < pat.len()
        invariant
            n == s@.len(),
            i + pat@.len() <= s@.len(),
            k <= pat@.len(),
            forall|j: int| 0 <= j < k ==> s@[i + j] == pat@[j],
        decreases pat@.len() - k,
    {
        if s[i + k] != pat[k] {
            assert(s@.subrange(i as int, i + pat@.len())[k as int] != pat@[k as int]);
            return false;
        }
        k = k + 1;
    }
    assert(s@.subrange(i as int, i + pat@.len()) =~= pat@);
    true
}

/// The first index at or after `start` where `pat` occurs in `s`.
pub fn find_from(s: &Vec<char>, pat: &Vec<char>, start: usize) -> (r: Option<usize>)
    requires
        start <= s@.len(),
    ensures
        r matches Some(k) ==> first_index_from(s@, pat@, start as int) == Some(k as int),
        r is None ==> first_index_from(s@, pat@, start as int) is None,
{
    if pat.len() > s.len() {
        assert(first_index_from(s@, pat@, start as int) is None);
        return None;
    }
    let last = s.len() - pat.len();
    if start > last {
        return None;
    }
    let mut i = start;
    loop
        invariant
            start <= s@.len(),
            pat@.len() <= s@.len(),
            last == s@.len() - pat@.len(),
            start <= i <= last,
            first_index_from(s@, pat@, start as int) == first_index_from(s@, pat@, i as int),
        decreases last - i,
    {
        if occurs_at_exec(s, pat, i) {
            return Some(i);
        }
        if i == last {
            assert(first_index_from(s@, pat@, i + 1) is None);
            return None;
        }
        i = i + 1;
    }
}

/// Splits a string at the first occurrence of `pat`, as `str::split_once` does.
pub fn split_once(s: &str, pat: &Vec<char>) -> (r: Option<(String, String)>)
    ensures
        r matches Some((a, b)) ==> spec_split_once(s@, pat@) == Some((a@, b@)),
        r is None ==> spec_split_once(s@, pat@) is None,
{
    let v = chars_of(s);
    let n = v.len();
    match find_from(&v, pat, 0) {
        None => None,
        Some(i) => {
            proof {
                lemma_first_index_from_bounds(v@, pat@, 0);
                assert(occurs_at(v@, pat@, i as int));
            }
            let a = s.substring_char(0, i);
            let b = s.substring_char(i + pat.len(), n);
            assert(b@ =~= s@.skip(i + pat@.len()));
            assert(a@ =~= s@.take(i as int));
            Some((a.to_owned(), b.to_owned()))
        }
    }
}

} // verus!
