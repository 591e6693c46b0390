use vstd::prelude::*;
use vstd::string::*;

verus! {

/// Index of the first occurrence of `c` in `s`, or `s.len()` when `c` does
/// not occur.
pub open spec fn first_at(s: Seq<char>, c: char) -> int
    decreases s.len(),
{
    if s.len() == 0 {
        0
    } else if s[0] == c {
        0
    } else {
        1 + first_at(s.skip(1), c)
    }
}

pub proof fn lemma_first_at(s: Seq<char>, c: char)
    ensures
        0 <= first_at(s, c) <= s.len(),
        first_at(s, c) < s.len() ==> s[first_at(s, c)] == c,
        forall|j: int| 0 <= j < first_at(s, c) ==> s[j] != c,
    decreases s.len(),
{
    if s.len() > 0 && s[0] != c {
        lemma_first_at(s.skip(1), c);
        assert forall|j: int| 0 <= j < first_at(s, c) implies s[j] != c by {
            if j > 0 {
                assert(s.skip(1)[j - 1] == s[j]);
            }
        }
    }
}

pub proof fn lemma_first_at_is(s: Seq<char>, c: char, i: int)
    requires
        0 <= i <= s.len(),
        forall|j: int| 0 <= j < i ==> s[j] != c,
        i < s.len() ==> s[i] == c,
    ensures
        first_at(s, c) == i,
    decreases s.len(),
{
    if s.len() > 0 && s[0] != c {
        assert(s[0] != c);
        assert(i >= 1);
        lemma_first_at_is(s.skip(1), c, i - 1);
    }
}

/// First index of `c` in `s`, or the character length of `s` when absent.
pub fn find_char(s: &str, c: char) -> (i: usize)
    ensures
        i == first_at(s@, c),
{
    let n = s.unicode_len();
    let mut i: usize = 0;
    while i < n
        invariant
            0 <= i <= n,
            n == s@.len(),
            forall|j: int| 0 <= j < i ==> s@[j] != c,
        decreases n - i,
    {
        if s.get_char(i) == c {
            proof {
                lemma_first_at_is(s@, c, i as int);
            }
            return i;
        }
        i += 1;
    }
    proof {
        lemma_first_at_is(s@, c, n as int);
    }
    n
}

/// Whether `c` occurs in `s`.
pub fn contains_char(s: &str, c: char) -> (r: bool)
    ensures
        r == s@.contains(c),
{
    let n = s.unicode_len();
    let i = find_char(s, c);
    proof {
        lemma_first_at(s@, c);
        if i < n {
            assert(s@[i as int] == c);
        } else {
            assert(forall|j: int| 0 <= j < s@.len() ==> s@[j] != c);
        }
    }
    i < n
}

/// Whether two string slices hold the same characters.
pub fn str_eq(a: &str, b: &str) -> (r: bool)
    ensures
        r == (a@ == b@),
{
    let na = a.unicode_len();
    let nb = b.unicode_len();
    if na != nb {
        return false;
    }
    let mut i: usize = 0;
    while i < na
        invariant
            0 <= i <= na,
            na == a@.len(),
            na == b@.len(),
            forall|j: int| 0 <= j < i ==> a@[j] == b@[j],
        decreases na - i,
    {
        if a.get_char(i) != b.get_char(i) {
            return false;
        }
        i += 1;
    }
    proof {
        assert(a@ =~= b@);
    }
    true
}

/// Whether `p` is a prefix of `s`.
pub fn starts_with_str(s: &str, p: &str) -> (r: bool)
    ensures
        r == p@.is_prefix_of(s@),
{
    let ns = s.unicode_len();
    let np = p.unicode_len();
    if np > ns {
        return false;
    }
    let mut i: usize = 0;
    while i < np
        invariant
            0 <= i <= np,
            np <= ns,
            ns == s@.len(),
            np == p@.len(),
            forall|j: int| 0 <= j < i ==> s@[j] == p@[j],
        decreases np - i,
    {
        if s.get_char(i) != p.get_char(i) {
            assert(!p@.is_prefix_of(s@)) by {
                assert(s@[i as int] != p@[i as int]);
            }
            return false;
        }
        i += 1;
    }
    proof {
        assert(p@ =~= s@.subrange(0, p@.len() as int));
    }
    true
}

/// Copy of `s` with the first `n` characters removed.
pub fn skip_chars<'a>(s: &'a str, n: usize) -> (r: &'a str)
    requires
        n <= s@.len(),
    ensures
        r@ == s@.skip(n as int),
{
    let len = s.unicode_len();
    let r = s.substring_char(n, len);
    proof {
        assert(r@ =~= s@.skip(n as int));
    }
    r
}

/// The head of `path` up to (not including) its first `/`, or all of
/// `path` when it has none.
pub open spec fn seg_head(path: Seq<char>) -> Seq<char> {
    path.take(first_at(path, '/'))
}

/// What remains of `path` after its first `/`, or the empty sequence when
/// it has none.
pub open spec fn seg_tail(path: Seq<char>) -> Seq<char> {
    if first_at(path, '/') == path.len() {
        Seq::empty()
    } else {
        path.skip(first_at(path, '/') + 1)
    }
}

/// Split `path` at its first `/`: the pair of what stands before it and
/// what follows it. A path with no `/` splits into itself and "".
pub fn split_segment<'a>(path: &'a str) -> (r: (&'a str, &'a str))
    ensures
        r.0@ == seg_head(path@),
        r.1@ == seg_tail(path@),
{
    let n = path.unicode_len();
    let i = find_char(path, '/');
    proof {
        lemma_first_at(path@, '/');
    }
    let head = path.substring_char(0, i);
    proof {
        assert(head@ =~= seg_head(path@));
    }
    if i == n {
        let tail = path.substring_char(n, n);
        proof {
            assert(tail@ =~= seg_tail(path@));
        }
        (head, tail)
    } else {
        let tail = path.substring_char(i + 1, n);
        proof {
            assert(tail@ =~= seg_tail(path@));
        }
        (head, tail)
    }
}

/// `s` with every trailing `/` removed.
pub open spec fn trim_slashes(s: Seq<char>) -> Seq<char>
    decreases s.len(),
{
    if s.len() > 0 && s[s.len() - 1] == '/' {
        trim_slashes(s.drop_last())
    } else {
        s
    }
}

proof fn lemma_trim_slashes_at(s: Seq<char>, k: int)
    requires
        0 <= k <= s.len(),
        forall|j: int| k <= j < s.len() ==> s[j] == '/',
        k > 0 ==> s[k - 1] != '/',
    ensures
        trim_slashes(s) == s.take(k),
    decreases s.len(),
{
    if s.len() > 0 && s[s.len() - 1] == '/' {
        lemma_trim_slashes_at(s.drop_last(), k);
        assert(s.drop_last().take(k) =~= s.take(k));
    } else {
        assert(k == s.len());
        assert(s.take(k) =~= s);
    }
}

/// Copy of `s` with every trailing `/` removed.
pub fn trim_end_slashes(s: &str) -> (r: String)
    ensures
        r@ == trim_slashes(s@),
{
    let n = s.unicode_len();
    let mut k: usize = n;
    while k > 0 && s.get_char(k - 1) == '/'
        invariant
            0 <= k <= n,
            n == s@.len(),
            forall|j: int| k <= j < s@.len() ==> s@[j] == '/',
        decreases k,
    {
        k -= 1;
    }
    proof {
        lemma_trim_slashes_at(s@, k as int);
    }
    let r = s.substring_char(0, k);
    proof {
        assert(r@ =~= s@.take(k as int));
    }
    String::from_str(r)
}

/// Removing one trailing `/` does not change the trimmed form: trimming
/// `s + "/"` and trimming `s` give the same sequence.
pub proof fn lemma_trim_extra_slash(s: Seq<char>)
    ensures
        trim_slashes(s.push('/')) == trim_slashes(s),
{
    assert(s.push('/').drop_last() =~= s);
}

} // verus!
