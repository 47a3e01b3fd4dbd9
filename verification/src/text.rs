use vstd::prelude::*;
use vstd::string::StrSliceExecFns;

verus! {

/// The whitespace characters that type-expression text may carry around
/// punctuation; trimming removes them from both ends.
pub open spec fn is_space_char(c: char) -> bool {
    c == ' ' || c == '\t' || c == '\n' || c == '\r'
}

/// The character sequence with leading and trailing whitespace removed.
pub open spec fn trim_spec(t: Seq<char>) -> Seq<char>
    decreases t.len(),
{
    if t.len() > 0 && is_space_char(t[0]) {
        trim_spec(t.subrange(1, t.len() as int))
    } else if t.len() > 0 && is_space_char(t[t.len() - 1]) {
        trim_spec(t.subrange(0, t.len() - 1))
    } else {
        t
    }
}

pub proof fn lemma_trim_len(t: Seq<char>)
    ensures
        trim_spec(t).len() <= t.len(),
    decreases t.len(),
{
    if t.len() > 0 && is_space_char(t[0]) {
        lemma_trim_len(t.subrange(1, t.len() as int));
    } else if t.len() > 0 && is_space_char(t[t.len() - 1]) {
        lemma_trim_len(t.subrange(0, t.len() - 1));
    }
}

/// Whether the character `c` occurs anywhere in `t`.
pub open spec fn has_char(t: Seq<char>, c: char) -> bool {
    exists|i: int| 0 <= i < t.len() && t[i] == c
}

/// The index of the first occurrence of `c` in `t` (meaningful only when
/// `has_char(t, c)` holds).
pub open spec fn first_idx(t: Seq<char>, c: char) -> int
    decreases t.len(),
{
    if t.len() == 0 {
        0
    } else if t[0] == c {
        0
    } else {
        1 + first_idx(t.subrange(1, t.len() as int), c)
    }
}

/// The index of the last occurrence of `c` in `t` (meaningful only when
/// `has_char(t, c)` holds).
pub open spec fn rfind_idx(t: Seq<char>, c: char) -> int
    decreases t.len(),
{
    if t.len() == 0 {
        0
    } else if t[t.len() - 1] == c {
        t.len() - 1
    } else {
        rfind_idx(t.drop_last(), c)
    }
}

pub proof fn lemma_first_idx_is(t: Seq<char>, c: char, i: int)
    requires
        0 <= i < t.len(),
        t[i] == c,
        forall|j: int| 0 <= j < i ==> t[j] != c,
    ensures
        has_char(t, c),
        first_idx(t, c) == i,
    decreases i,
{
    if i == 0 {
    } else {
        assert(t[0] != c);
        let t1 = t.subrange(1, t.len() as int);
        assert(t1[i - 1] == c);
        assert(forall|j: int| 0 <= j < i - 1 ==> t1[j] == t[j + 1] && t[j + 1] != c);
        lemma_first_idx_is(t1, c, i - 1);
    }
}

pub proof fn lemma_rfind_idx_is(t: Seq<char>, c: char, i: int)
    requires
        0 <= i < t.len(),
        t[i] == c,
        forall|j: int| i < j < t.len() ==> t[j] != c,
    ensures
        has_char(t, c),
        rfind_idx(t, c) == i,
    decreases t.len(),
{
    if i == t.len() - 1 {
    } else {
        assert(t[t.len() - 1] != c);
        let t1 = t.drop_last();
        assert(t1[i] == c);
        lemma_rfind_idx_is(t1, c, i);
    }
}

/// Whether `p` occurs in `t` as a contiguous subsequence starting at `i`.
pub open spec fn is_substring_at(t: Seq<char>, p: Seq<char>, i: int) -> bool {
    0 <= i && i + p.len() <= t.len() && t.subrange(i, i + p.len()) == p
}

/// Whether `p` occurs anywhere in `t` as a contiguous subsequence.
pub open spec fn contains_seq(t: Seq<char>, p: Seq<char>) -> bool {
    exists|i: int| is_substring_at(t, p, i)
}

/// Whether `t` starts with `p`.
pub open spec fn has_prefix(t: Seq<char>, p: Seq<char>) -> bool {
    p.len() <= t.len() && t.subrange(0, p.len() as int) == p
}

/// Whether two strings hold the same characters.
pub fn string_eq(a: &String, b: &String) -> (r: bool)
    ensures
        r == (a@ == b@),
{
    a.eq(b)
}

/// Whether two string slices hold the same characters.
pub fn str_eq_str(a: &str, b: &str) -> (r: bool)
    ensures
        r == (a@ == b@),
{
    let ac = chars_vec(a);
    let bc = chars_vec(b);
    let n = ac.len();
    if n != bc.len() {
        return false;
    }
    let mut i: usize = 0;
    while i < n
        invariant
            ac@ == a@,
            bc@ == b@,
            n == a@.len(),
            n == b@.len(),
            i <= n,
            forall|j: int| 0 <= j < i ==> a@[j] == b@[j],
        decreases n - i,
    {
        if ac[i] != bc[i] {
            return false;
        }
        i += 1;
    }
    proof {
        assert(a@ =~= b@);
    }
    true
}

/// Collects the characters of a string slice into a vector.
pub fn chars_vec(s: &str) -> (v: Vec<char>)
    ensures
        v@ == s@,
{
    let n = s.unicode_len();
    let mut v: Vec<char> = Vec::new();
    let mut i: usize = 0;
    while i < n
        invariant
            n == s@.len(),
            i <= n,
            v@ =~= s@.take(i as int),
        decreases n - i,
    {
        v.push(s.get_char(i));
        i += 1;
    }
    proof {
        assert(v@ =~= s@);
    }
    v
}

/// Whether `c` is one of the whitespace characters.
pub fn is_space(c: char) -> (r: bool)
    ensures
        r == is_space_char(c),
{
    c == ' ' || c == '\t' || c == '\n' || c == '\r'
}

/// Narrows `[lo, hi)` to the subrange left after trimming whitespace from
/// both ends.
pub fn trim_range(chars: &Vec<char>, lo: usize, hi: usize) -> (r: (usize, usize))
    requires
        lo <= hi <= chars@.len(),
    ensures
        lo <= r.0 <= r.1 <= hi,
        chars@.subrange(r.0 as int, r.1 as int) == trim_spec(
            chars@.subrange(lo as int, hi as int),
        ),
{
    let mut a = lo;
    let mut b = hi;
    while a < b && is_space(chars[a])
        invariant
            lo <= a <= b <= hi <= chars@.len(),
            trim_spec(chars@.subrange(lo as int, hi as int)) == trim_spec(
                chars@.subrange(a as int, b as int),
            ),
        decreases b - a,
    {
        proof {
            let t = chars@.subrange(a as int, b as int);
            assert(t[0] == chars@[a as int]);
            assert(t.subrange(1, t.len() as int) =~= chars@.subrange(a + 1, b as int));
        }
        a += 1;
    }
    while a < b && is_space(chars[b - 1])
        invariant
            lo <= a <= b <= hi <= chars@.len(),
            trim_spec(chars@.subrange(lo as int, hi as int)) == trim_spec(
                chars@.subrange(a as int, b as int),
            ),
            a == b || !is_space_char(chars@[a as int]),
        decreases b - a,
    {
        proof {
            let t = chars@.subrange(a as int, b as int);
            assert(t[0] == chars@[a as int]);
            assert(t[t.len() - 1] == chars@[b - 1]);
            assert(t.subrange(0, t.len() - 1) =~= chars@.subrange(a as int, b - 1));
        }
        b -= 1;
    }
    proof {
        let t = chars@.subrange(a as int, b as int);
        if t.len() > 0 {
            assert(t[0] == chars@[a as int]);
            assert(t[t.len() - 1] == chars@[b - 1]);
        }
        assert(trim_spec(t) == t);
    }
    (a, b)
}

/// Finds the first occurrence of `c` within `[lo, hi)`.
pub fn find_char(chars: &Vec<char>, lo: usize, hi: usize, c: char) -> (r: Option<usize>)
    requires
        lo <= hi <= chars@.len(),
    ensures
        match r {
            Some(p) => {
                &&& lo <= p < hi
                &&& chars@[p as int] == c
                &&& has_char(chars@.subrange(lo as int, hi as int), c)
                &&& first_idx(chars@.subrange(lo as int, hi as int), c) == p - lo
            },
            None => !has_char(chars@.subrange(lo as int, hi as int), c),
        },
{
    let ghost t = chars@.subrange(lo as int, hi as int);
    let mut i = lo;
    while i < hi
        invariant
            lo <= i <= hi <= chars@.len(),
            t == chars@.subrange(lo as int, hi as int),
            forall|j: int| lo <= j < i ==> chars@[j] != c,
        decreases hi - i,
    {
        if chars[i] == c {
            proof {
                assert(t[i - lo] == chars@[i as int]);
                assert(forall|j: int| 0 <= j < i - lo ==> t[j] == chars@[j + lo] && chars@[j + lo]
                    != c);
                lemma_first_idx_is(t, c, i - lo);
            }
            return Some(i);
        }
        i += 1;
    }
    proof {
        assert(forall|j: int| 0 <= j < t.len() ==> t[j] == chars@[j + lo] && chars@[j + lo] != c);
    }
    None
}

/// Finds the last occurrence of `c` within `[lo, hi)`.
pub fn rfind_char(chars: &Vec<char>, lo: usize, hi: usize, c: char) -> (r: Option<usize>)
    requires
        lo <= hi <= chars@.len(),
    ensures
        match r {
            Some(p) => {
                &&& lo <= p < hi
                &&& chars@[p as int] == c
                &&& has_char(chars@.subrange(lo as int, hi as int), c)
                &&& rfind_idx(chars@.subrange(lo as int, hi as int), c) == p - lo
            },
            None => !has_char(chars@.subrange(lo as int, hi as int), c),
        },
{
    let ghost t = chars@.subrange(lo as int, hi as int);
    let mut i = hi;
    while i > lo
        invariant
            lo <= i <= hi <= chars@.len(),
            t == chars@.subrange(lo as int, hi as int),
            forall|j: int| i <= j < hi ==> chars@[j] != c,
        decreases i - lo,
    {
        i -= 1;
        if chars[i] == c {
            proof {
                assert(t[i - lo] == chars@[i as int]);
                assert(forall|j: int| i - lo < j < t.len() ==> t[j] == chars@[j + lo] && chars@[j
                    + lo] != c);
                lemma_rfind_idx_is(t, c, i - lo);
            }
            return Some(i);
        }
    }
    proof {
        assert(forall|j: int| 0 <= j < t.len() ==> t[j] == chars@[j + lo] && chars@[j + lo] != c);
    }
    None
}

/// Whether the pattern `p` occurs anywhere inside `t` as contiguous text.
pub fn str_contains(t: &str, p: &str) -> (b: bool)
    ensures
        b == contains_seq(t@, p@),
{
    let tc = chars_vec(t);
    let pc = chars_vec(p);
    let tn = tc.len();
    let pn = pc.len();
    if pn > tn {
        proof {
            assert(forall|i: int| is_substring_at(t@, p@, i) ==> i + p@.len() <= t@.len() && i
                >= 0);
        }
        return false;
    }
    if pn == 0 {
        proof {
            assert(t@.subrange(0, 0) =~= p@);
            assert(is_substring_at(t@, p@, 0));
        }
        return true;
    }
    let mut i: usize = 0;
    while i <= tn - pn
        invariant
            tc@ == t@,
            pc@ == p@,
            tn == t@.len(),
            pn == p@.len(),
            1 <= pn <= tn,
            i <= tn - pn + 1,
            forall|k: int| 0 <= k < i ==> !is_substring_at(t@, p@, k),
        decreases tn - i,
    {
        let mut j: usize = 0;
        let mut matched = true;
        while j < pn
            invariant
                tc@ == t@,
                pc@ == p@,
                tn == t@.len(),
                pn == p@.len(),
                pn <= tn,
                i + pn <= tn,
                j <= pn,
                matched ==> forall|k: int| 0 <= k < j ==> t@[i + k] == p@[k],
                !matched ==> !is_substring_at(t@, p@, i as int),
            decreases pn - j,
        {
            if tc[i + j] != pc[j] {
                proof {
                    if is_substring_at(t@, p@, i as int) {
                        assert(t@.subrange(i as int, i + p@.len())[j as int] == t@[i + j]);
                    }
                }
                matched = false;
                j = pn;
            } else {
                j += 1;
            }
        }
        if matched {
            proof {
                assert(t@.subrange(i as int, i + p@.len()) =~= p@);
                assert(is_substring_at(t@, p@, i as int));
            }
            return true;
        }
        i += 1;
    }
    proof {
        assert(forall|k: int| is_substring_at(t@, p@, k) ==> 0 <= k <= tn - pn);
    }
    false
}

/// Whether `t` starts with the pattern `p`.
pub fn str_has_prefix(t: &str, p: &str) -> (b: bool)
    ensures
        b == has_prefix(t@, p@),
{
    let tc = chars_vec(t);
    let pc = chars_vec(p);
    let tn = tc.len();
    let pn = pc.len();
    if pn > tn {
        return false;
    }
    let mut j: usize = 0;
    while j < pn
        invariant
            tc@ == t@,
            pc@ == p@,
            tn == t@.len(),
            pn == p@.len(),
            pn <= tn,
            j <= pn,
            forall|k: int| 0 <= k < j ==> t@[k] == p@[k],
        decreases pn - j,
    {
        if tc[j] != pc[j] {
            proof {
                if has_prefix(t@, p@) {
                    assert(t@.subrange(0, p@.len() as int)[j as int] == t@[j as int]);
                }
            }
            return false;
        }
        j += 1;
    }
    proof {
        assert(t@.subrange(0, p@.len() as int) =~= p@);
    }
    true
}

/// Appends a name to the collection unless it is already present.
pub open spec fn push_unique(acc: Seq<Seq<char>>, n: Seq<char>) -> Seq<Seq<char>> {
    if acc.contains(n) {
        acc
    } else {
        acc.push(n)
    }
}

/// Appends the name to the vector unless an equal string is already there.
pub fn insert_unique(v: &mut Vec<String>, name: &String)
    ensures
        final(v).deep_view() == push_unique(old(v).deep_view(), name@),
{
    let n = v.len();
    let mut i: usize = 0;
    while i < n
        invariant
            v == old(v),
            n == v@.len(),
            i <= n,
            forall|j: int| 0 <= j < i ==> v.deep_view()[j] != name@,
        decreases n - i,
    {
        if string_eq(&v[i], name) {
            proof {
                assert(v.deep_view()[i as int] == name@);
            }
            return ;
        }
        i += 1;
    }
    proof {
        assert(!old(v).deep_view().contains(name@));
    }
    v.push(name.clone());
    proof {
        assert(v.deep_view() =~= old(v).deep_view().push(name@));
    }
}

} // verus!
