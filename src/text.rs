use vstd::prelude::*;

verus! {

/// `a` equals the lower-case character `b` once ASCII letters are lowered.
pub open spec fn same_ignoring_case(a: char, b: char) -> bool {
    a == b || ('A' <= a <= 'Z' && a as u32 + 32 == b as u32)
}

/// `s` equals the lower-case text `pat` once ASCII letters are lowered.
pub open spec fn equals_ignoring_case(s: Seq<char>, pat: Seq<char>) -> bool {
    &&& s.len() == pat.len()
    &&& forall|i: int| 0 <= i < s.len() ==> same_ignoring_case(#[trigger] s[i], pat[i])
}

/// `s`, with ASCII letters lowered, ends with the lower-case text `pat`.
pub open spec fn ends_with_ignoring_case(s: Seq<char>, pat: Seq<char>) -> bool {
    s.len() >= pat.len() && equals_ignoring_case(s.subrange(s.len() - pat.len(), s.len() as int), pat)
}

/// `s`, with ASCII letters lowered, holds the lower-case text `pat` at `i`.
pub open spec fn holds_at_ignoring_case(s: Seq<char>, pat: Seq<char>, i: int) -> bool {
    0 <= i && i + pat.len() <= s.len() && equals_ignoring_case(s.subrange(i, i + pat.len()), pat)
}

/// `s`, with ASCII letters lowered, contains the lower-case text `pat`.
pub open spec fn contains_ignoring_case(s: Seq<char>, pat: Seq<char>) -> bool {
    exists|i: int| holds_at_ignoring_case(s, pat, i)
}

/// `s` begins with `pat`.
pub open spec fn starts_with(s: Seq<char>, pat: Seq<char>) -> bool {
    s.len() >= pat.len() && s.subrange(0, pat.len() as int) == pat
}

/// The characters of `s`.
pub fn chars_of(s: &str) -> (r: Vec<char>)
    ensures
        r@ == s@,
{
    let n = s.unicode_len();
    let mut r: Vec<char> = Vec::new();
    let mut i: usize = 0;
    while i < n
        invariant
            n == s@.len(),
            i <= n,
            r@ == s@.subrange(0, i as int),
        decreases n - i,
    {
        r.push(s.get_char(i));
        i = i + 1;
        assert(r@ =~= s@.subrange(0, i as int));
    }
    r
}

fn char_matches(a: char, b: char) -> (r: bool)
    ensures
        r == same_ignoring_case(a, b),
{
    a == b || ('A' <= a && a <= 'Z' && (a as u32) + 32 == (b as u32))
}

/// Whether `s[at..at + pat.len()]` equals `pat` once ASCII letters are lowered.
fn matches_at(s: &Vec<char>, pat: &Vec<char>, at: usize) -> (r: bool)
    requires
        at + pat@.len() <= s@.len(),
    ensures
        r == equals_ignoring_case(s@.subrange(at as int, at + pat@.len()), pat@),
{
    let mut i: usize = 0;
    assert(s@.len() == s.len());
    while i < pat.len()
        invariant
            at + pat@.len() <= s@.len(),
            s@.len() == s.len(),
            i <= pat@.len(),
            forall|j: int| 0 <= j < i ==> same_ignoring_case(s@[at + j], pat@[j]),
        decreases pat@.len() - i,
    {
        if !char_matches(s[at + i], pat[i]) {
            proof {
                let w = s@.subrange(at as int, at + pat@.len());
                assert(w[i as int] == s@[at + i]);
            }
            return false;
        }
        i = i + 1;
    }
    proof {
        let w = s@.subrange(at as int, at + pat@.len());
        assert forall|j: int| 0 <= j < w.len() implies same_ignoring_case(w[j], pat@[j]) by {
            assert(w[j] == s@[at + j]);
        }
    }
    true
}

/// Whether `s` ends with the lower-case text `pat`, ignoring ASCII case.
pub fn ends_with_ci(s: &Vec<char>, pat: &str) -> (r: bool)
    ensures
        r == ends_with_ignoring_case(s@, pat@),
{
    let p = chars_of(pat);
    if p.len() > s.len() {
        return false;
    }
    matches_at(s, &p, s.len() - p.len())
}

/// Whether `s` contains the lower-case text `pat`, ignoring ASCII case.
pub fn contains_ci(s: &Vec<char>, pat: &str) -> (r: bool)
    ensures
        r == contains_ignoring_case(s@, pat@),
{
    let p = chars_of(pat);
    if p.len() > s.len() {
        proof {
            assert forall|i: int| !holds_at_ignoring_case(s@, pat@, i) by {}
        }
        return false;
    }
    if p.len() == 0 {
        proof {
            assert(s@.subrange(0, 0) =~= pat@);
            assert(holds_at_ignoring_case(s@, pat@, 0));
        }
        return true;
    }
    let last = s.len() - p.len();
    let mut at: usize = 0;
    while at <= last
        invariant
            p@ == pat@,
            p@.len() > 0,
            s@.len() == s.len(),
            last + p@.len() == s@.len(),
            at <= last + 1,
            forall|i: int| 0 <= i < at ==> !holds_at_ignoring_case(s@, pat@, i),
        decreases last + 1 - at,
    {
        if matches_at(s, &p, at) {
            proof {
                assert(holds_at_ignoring_case(s@, pat@, at as int));
            }
            return true;
        }
        at = at + 1;
    }
    false
}

/// Whether `s` begins with `pat`.
pub fn starts_with_str(s: &Vec<char>, pat: &str) -> (r: bool)
    ensures
        r == starts_with(s@, pat@),
{
    let p = chars_of(pat);
    if p.len() > s.len() {
        return false;
    }
    let mut i: usize = 0;
    while i < p.len()
        invariant
            p@ == pat@,
            p@.len() <= s@.len(),
            i <= p@.len(),
            forall|j: int| 0 <= j < i ==> s@[j] == p@[j],
        decreases p@.len() - i,
    {
        if s[i] != p[i] {
            proof {
                assert(s@.subrange(0, p@.len() as int)[i as int] != p@[i as int]);
                assert(!starts_with(s@, pat@));
            }
            return false;
        }
        i = i + 1;
    }
    proof {
        assert(s@.subrange(0, p@.len() as int) =~= p@);
    }
    true
}

/// Whether `s` and `t` are the same text.
pub fn same_text(s: &Vec<char>, t: &str) -> (r: bool)
    ensures
        r == (s@ == t@),
{
    let p = chars_of(t);
    if p.len() != s.len() {
        return false;
    }
    let b = starts_with_str(s, t);
    proof {
        assert(s@.subrange(0, s@.len() as int) =~= s@);
    }
    b
}


/// Index of the first `c` in `s`, or `s.len()` when there is none.
pub open spec fn index_of(s: Seq<char>, c: char) -> nat
    decreases s.len(),
{
    if s.len() == 0 {
        0
    } else if s[0] == c {
        0
    } else {
        1 + index_of(s.drop_first(), c)
    }
}

/// How many `c` begin `s`.
pub open spec fn leading(s: Seq<char>, c: char) -> nat
    decreases s.len(),
{
    if s.len() > 0 && s[0] == c {
        1 + leading(s.drop_first(), c)
    } else {
        0
    }
}

/// How many `c` end `s`.
pub open spec fn trailing(s: Seq<char>, c: char) -> nat
    decreases s.len(),
{
    if s.len() > 0 && s.last() == c {
        1 + trailing(s.drop_last(), c)
    } else {
        0
    }
}

/// `s` without its leading `c`.
pub open spec fn trim_start(s: Seq<char>, c: char) -> Seq<char> {
    s.subrange(leading(s, c) as int, s.len() as int)
}

/// `s` without its trailing `c`.
pub open spec fn trim_end(s: Seq<char>, c: char) -> Seq<char> {
    s.subrange(0, s.len() - trailing(s, c))
}

pub proof fn lemma_index_of(s: Seq<char>, c: char, i: int)
    requires
        0 <= i <= s.len(),
        forall|j: int| 0 <= j < i ==> s[j] != c,
        i < s.len() ==> s[i] == c,
    ensures
        index_of(s, c) == i,
    decreases s.len(),
{
    if s.len() > 0 && i > 0 {
        lemma_index_of(s.drop_first(), c, i - 1);
    }
}

pub proof fn lemma_leading(s: Seq<char>, c: char, i: int)
    requires
        0 <= i <= s.len(),
        forall|j: int| 0 <= j < i ==> s[j] == c,
        i < s.len() ==> s[i] != c,
    ensures
        leading(s, c) == i,
    decreases s.len(),
{
    if s.len() > 0 && i > 0 {
        lemma_leading(s.drop_first(), c, i - 1);
    }
}

proof fn lemma_trailing(s: Seq<char>, c: char, k: int)
    requires
        0 <= k <= s.len(),
        forall|j: int| s.len() - k <= j < s.len() ==> s[j] == c,
        k < s.len() ==> s[s.len() - k - 1] != c,
    ensures
        trailing(s, c) == k,
    decreases s.len(),
{
    if s.len() > 0 && k > 0 {
        lemma_trailing(s.drop_last(), c, k - 1);
    }
}

/// Index of the first `c` in `s`, or its length.
pub fn find_char(s: &Vec<char>, c: char) -> (r: usize)
    ensures
        r == index_of(s@, c),
        r <= s@.len(),
{
    let mut i: usize = 0;
    while i < s.len() && s[i] != c
        invariant
            i <= s@.len(),
            forall|j: int| 0 <= j < i ==> s@[j] != c,
        decreases s@.len() - i,
    {
        i = i + 1;
    }
    proof {
        lemma_index_of(s@, c, i as int);
    }
    i
}

/// How many `c` begin `s`.
pub fn count_leading(s: &Vec<char>, c: char) -> (r: usize)
    ensures
        r == leading(s@, c),
        r <= s@.len(),
{
    let mut i: usize = 0;
    while i < s.len() && s[i] == c
        invariant
            i <= s@.len(),
            forall|j: int| 0 <= j < i ==> s@[j] == c,
        decreases s@.len() - i,
    {
        i = i + 1;
    }
    proof {
        lemma_leading(s@, c, i as int);
    }
    i
}

/// How many `c` end `s[..end]`.
pub fn count_trailing(s: &Vec<char>, end: usize, c: char) -> (r: usize)
    requires
        end <= s@.len(),
    ensures
        r == trailing(s@.subrange(0, end as int), c),
        r <= end,
{
    let ghost t = s@.subrange(0, end as int);
    let mut k: usize = 0;
    while k < end && s[end - k - 1] == c
        invariant
            k <= end <= s@.len(),
            t == s@.subrange(0, end as int),
            forall|j: int| end - k <= j < end ==> t[j] == c,
        decreases end - k,
    {
        k = k + 1;
    }
    proof {
        if k < end {
            assert(t[end - k - 1] == s@[end - k - 1]);
        }
        lemma_trailing(t, c, k as int);
    }
    k
}

} // verus!
