//! Searching the characters of a message.
use vstd::prelude::*;

verus! {

/// The characters of `s`, one per `char`.
pub fn chars_of(s: &str) -> (r: Vec<char>)
    ensures
        r@ == s@,
{
    let mut r: Vec<char> = Vec::new();
    for c in it: s.chars()
        invariant
            it.seq() == s@,
            r@ == s@.take(it.index() as int),
    {
        r.push(c);
    }
    assert(r@ =~= s@);
    r
}

/// `pattern` occurs in `s` starting at character `i`.
pub open spec fn occurs_at(s: Seq<char>, pattern: Seq<char>, i: int) -> bool {
    0 <= i && i + pattern.len() <= s.len() && s.subrange(i, i + pattern.len()) == pattern
}

/// `pattern` occurs somewhere in `s`.
pub open spec fn contains(s: Seq<char>, pattern: Seq<char>) -> bool {
    exists|i: int| occurs_at(s, pattern, i)
}

/// Where the last occurrence of `pattern` in `s` that starts at or before
/// `end` starts.
pub open spec fn last_occurrence_from(s: Seq<char>, pattern: Seq<char>, end: int) -> Option<int>
    decreases end + 1,
{
    if end < 0 {
        None
    } else if occurs_at(s, pattern, end) {
        Some(end)
    } else {
        last_occurrence_from(s, pattern, end - 1)
    }
}

/// Where the last occurrence of `pattern` in `s` starts.
pub open spec fn last_occurrence(s: Seq<char>, pattern: Seq<char>) -> Option<int> {
    last_occurrence_from(s, pattern, s.len() - pattern.len())
}

/// The last occurrence found from `end` is one, and none starts after it.
pub proof fn lemma_last_occurrence_from(s: Seq<char>, pattern: Seq<char>, end: int)
    ensures
        match last_occurrence_from(s, pattern, end) {
            Some(i) => i <= end && occurs_at(s, pattern, i) && forall|j: int|
                i < j <= end ==> !occurs_at(s, pattern, j),
            None => forall|j: int| j <= end ==> !occurs_at(s, pattern, j),
        },
    decreases end + 1,
{
    if end >= 0 && !occurs_at(s, pattern, end) {
        lemma_last_occurrence_from(s, pattern, end - 1);
    }
}

/// `pattern` occurs in `s` exactly when it has a last occurrence.
pub proof fn lemma_contains_iff_last_occurrence(s: Seq<char>, pattern: Seq<char>)
    ensures
        contains(s, pattern) <==> last_occurrence(s, pattern) is Some,
{
    lemma_last_occurrence_from(s, pattern, s.len() - pattern.len());
    if let Some(i) = last_occurrence(s, pattern) {
        assert(occurs_at(s, pattern, i));
    }
}

fn occurs_at_exec(s: &Vec<char>, pattern: &Vec<char>, i: usize) -> (r: bool)
    requires
        i + pattern.len() <= s.len(),
    ensures
        r == occurs_at(s@, pattern@, i as int),
{
    let mut k: usize = 0;
    while k < pattern.len()
        invariant
            i + pattern.len() <= s.len(),
            k <= pattern.len(),
            forall|j: int| 0 <= j < k ==> s@[i + j] == pattern@[j],
        decreases pattern.len() - k,
    {
        if s[i + k] != pattern[k] {
            assert(s@.subrange(i as int, i + pattern.len())[k as int] != pattern@[k as int]);
            return false;
        }
        k = k + 1;
    }
    assert(s@.subrange(i as int, i + pattern.len()) =~= pattern@);
    true
}

/// Where the last occurrence of `pattern` in `s` starts, if there is one.
pub fn last_occurrence_exec(s: &Vec<char>, pattern: &Vec<char>) -> (r: Option<usize>)
    ensures
        match last_occurrence(s@, pattern@) {
            Some(i) => r == Some(i as usize),
            None => r is None,
        },
{
    if pattern.len() > s.len() {
        assert(last_occurrence(s@, pattern@) is None);
        return None;
    }
    let mut i: usize = s.len() - pattern.len();
    loop
        invariant
            i + pattern.len() <= s.len(),
            last_occurrence(s@, pattern@) == last_occurrence_from(s@, pattern@, i as int),
        decreases i,
    {
        if occurs_at_exec(s, pattern, i) {
            return Some(i);
        }
        if i == 0 {
            assert(last_occurrence_from(s@, pattern@, -1) is None);
            return None;
        }
        i = i - 1;
    }
}

/// Whether `pattern` occurs in `s`.
pub fn contains_exec(s: &Vec<char>, pattern: &Vec<char>) -> (r: bool)
    ensures
        r == contains(s@, pattern@),
{
    proof {
        lemma_contains_iff_last_occurrence(s@, pattern@);
    }
    last_occurrence_exec(s, pattern).is_some()
}

} // verus!
