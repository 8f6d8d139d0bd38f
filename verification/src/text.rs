//! Character-level string helpers with their mathematical meaning.
use vstd::prelude::*;
use vstd::string::*;

verus! {

/// `p` occurs in `s` starting at character index `i`.
pub open spec fn occurs_at(s: Seq<char>, p: Seq<char>, i: int) -> bool {
    &&& 0 <= i
    &&& i + p.len() <= s.len()
    &&& s.subrange(i, i + p.len()) == p
}

/// Index of the leftmost occurrence of `p` in `s` at or after `from`.
pub open spec fn first_occurrence_from(s: Seq<char>, p: Seq<char>, from: nat) -> Option<nat>
    decreases s.len() + 1 - from,
{
    if from + p.len() > s.len() {
        None
    } else if s.subrange(from as int, (from + p.len()) as int) == p {
        Some(from)
    } else {
        first_occurrence_from(s, p, from + 1)
    }
}

/// Index of the leftmost occurrence of `p` in `s`.
pub open spec fn first_occurrence(s: Seq<char>, p: Seq<char>) -> Option<nat> {
    first_occurrence_from(s, p, 0)
}

/// What `str::split_once` gives: the text before and after the leftmost
/// occurrence of the separator, or `None` when it does not occur.
pub open spec fn split_once(s: Seq<char>, p: Seq<char>) -> Option<(Seq<char>, Seq<char>)> {
    match first_occurrence(s, p) {
        Some(i) => Some((s.subrange(0, i as int), s.subrange((i + p.len()) as int, s.len() as int))),
        None => None,
    }
}

/// The search from `from` finds the leftmost occurrence at or after `from`.
pub proof fn lemma_first_occurrence_from(s: Seq<char>, p: Seq<char>, from: nat)
    ensures
        match first_occurrence_from(s, p, from) {
            Some(i) => from <= i && occurs_at(s, p, i as int) && forall|j: int|
                from <= j < i ==> !#[trigger] occurs_at(s, p, j),
            None => forall|j: int| from <= j ==> !#[trigger] occurs_at(s, p, j),
        },
    decreases s.len() + 1 - from,
{
    if from + p.len() > s.len() {
    } else if s.subrange(from as int, (from + p.len()) as int) == p {
    } else {
        lemma_first_occurrence_from(s, p, from + 1);
        assert(!occurs_at(s, p, from as int));
    }
}

/// The leftmost occurrence is at `i` when `p` occurs there and nowhere before.
pub proof fn lemma_first_occurrence_is(s: Seq<char>, p: Seq<char>, i: int)
    requires
        occurs_at(s, p, i),
        forall|j: int| 0 <= j < i ==> !#[trigger] occurs_at(s, p, j),
    ensures
        first_occurrence(s, p) == Some(i as nat),
{
    lemma_first_occurrence_from(s, p, 0);
    match first_occurrence(s, p) {
        Some(k) => {
            if k < i {
                assert(!occurs_at(s, p, k as int));
            }
            if k > i {
                assert(!occurs_at(s, p, i));
            }
        },
        None => {
            assert(!occurs_at(s, p, i));
        },
    }
}

/// `split_once` cuts the text into the part before, the separator and the part after,
/// and the part before holds no occurrence of the separator.
pub proof fn lemma_split_once(s: Seq<char>, p: Seq<char>)
    requires
        p.len() > 0,
    ensures
        match split_once(s, p) {
            Some((before, after)) => {
                &&& s == before + p + after
                &&& forall|j: int| 0 <= j && j + p.len() <= before.len() ==> !#[trigger] occurs_at(
                    before,
                    p,
                    j,
                )
            },
            None => forall|j: int| !#[trigger] occurs_at(s, p, j),
        },
{
    lemma_first_occurrence_from(s, p, 0);
    match first_occurrence(s, p) {
        Some(i) => {
            let before = s.subrange(0, i as int);
            let after = s.subrange((i + p.len()) as int, s.len() as int);
            assert(s =~= before + p + after);
            assert forall|j: int| 0 <= j && j + p.len() <= before.len() implies !#[trigger] occurs_at(
                before,
                p,
                j,
            ) by {
                assert(before.subrange(j, j + p.len()) =~= s.subrange(j, j + p.len()));
                assert(!occurs_at(s, p, j));
            }
        },
        None => {
            assert forall|j: int| !#[trigger] occurs_at(s, p, j) by {
                if 0 <= j {
                    assert(!occurs_at(s, p, j));
                }
            }
        },
    }
}

/// Whether `p` occurs in `s` at character index `i`.
fn occurs_at_exec(s: &str, p: &str, i: usize, n: usize, m: usize) -> (found: bool)
    requires
        n == s@.len(),
        m == p@.len(),
        i + m <= n,
    ensures
        found == (s@.subrange(i as int, i + m) == p@),
{
    let mut k: usize = 0;
    while k < m
        invariant
            n == s@.len(),
            m == p@.len(),
            i + m <= n,
            k <= m,
            forall|j: int| 0 <= j < k ==> s@[i + j] == p@[j],
        decreases m - k,
    {
        if s.get_char(i + k) != p.get_char(k) {
            assert(s@.subrange(i as int, i + m)[k as int] != p@[k as int]);
            return false;
        }
        k = k + 1;
    }
    assert(s@.subrange(i as int, i + m) =~= p@);
    true
}

/// `str::split_once` on characters: the leftmost occurrence of `p` splits `s`.
pub fn split_once_str<'a>(s: &'a str, p: &str) -> (parts: Option<(&'a str, &'a str)>)
    ensures
        match split_once(s@, p@) {
            Some((before, after)) => parts matches Some((b, a)) && b@ == before && a@ == after,
            None => parts is None,
        },
{
    let n = s.unicode_len();
    let m = p.unicode_len();
    if m > n {
        assert(first_occurrence_from(s@, p@, 0) is None);
        return None;
    }
    let last = n - m;
    let mut i: usize = 0;
    loop
        invariant
            n == s@.len(),
            m == p@.len(),
            last == n - m,
            i <= last,
            first_occurrence_from(s@, p@, 0) == first_occurrence_from(s@, p@, i as nat),
        decreases last - i,
    {
        if occurs_at_exec(s, p, i, n, m) {
            let before = s.substring_char(0, i);
            let after = s.substring_char(i + m, n);
            return Some((before, after));
        }
        if i == last {
            assert(first_occurrence_from(s@, p@, (i + 1) as nat) is None);
            return None;
        }
        i = i + 1;
    }
}

/// The code point of `c` after ASCII lower-casing.
pub open spec fn ascii_lower(c: char) -> int {
    if 'A' <= c && c <= 'Z' {
        (c as u32) + 32
    } else {
        c as int
    }
}

/// What `str::eq_ignore_ascii_case` decides, on characters.
pub open spec fn eq_ignore_ascii_case(a: Seq<char>, b: Seq<char>) -> bool {
    &&& a.len() == b.len()
    &&& forall|i: int| 0 <= i < a.len() ==> ascii_lower(#[trigger] a[i]) == ascii_lower(b[i])
}

fn ascii_lower_exec(c: char) -> (r: u32)
    ensures
        r == ascii_lower(c),
{
    if 'A' <= c && c <= 'Z' {
        (c as u32) + 32
    } else {
        c as u32
    }
}

/// Compares two texts, ignoring the case of ASCII letters.
pub fn eq_ignore_ascii_case_str(a: &str, b: &str) -> (same: bool)
    ensures
        same == eq_ignore_ascii_case(a@, b@),
{
    let n = a.unicode_len();
    if n != b.unicode_len() {
        return false;
    }
    let mut i: usize = 0;
    while i < n
        invariant
            n == a@.len(),
            n == b@.len(),
            i <= n,
            forall|j: int| 0 <= j < i ==> ascii_lower(#[trigger] a@[j]) == ascii_lower(b@[j]),
        decreases n - i,
    {
        if ascii_lower_exec(a.get_char(i)) != ascii_lower_exec(b.get_char(i)) {
            return false;
        }
        i = i + 1;
    }
    true
}

/// Whether two texts are the same.
pub fn eq_str(a: &str, b: &str) -> (same: bool)
    ensures
        same == (a@ == b@),
{
    let n = a.unicode_len();
    if n != b.unicode_len() {
        return false;
    }
    let mut i: usize = 0;
    while i < n
        invariant
            n == a@.len(),
            n == b@.len(),
            i <= n,
            forall|j: int| 0 <= j < i ==> #[trigger] a@[j] == b@[j],
        decreases n - i,
    {
        if a.get_char(i) != b.get_char(i) {
            return false;
        }
        i = i + 1;
    }
    assert(a@ =~= b@);
    true
}

/// The concatenation of two texts as a new `String`.
pub fn concat_str(a: &str, b: &str) -> (r: String)
    ensures
        r@ == a@ + b@,
{
    let s = String::from_str(a);
    s.concat(b)
}

} // verus!
