//! Character-level helpers: file stems, extensions and substring search.
use vstd::prelude::*;

verus! {

/// Index of the last `.` in `s`, or -1 when there is none.
pub open spec fn last_dot(s: Seq<char>) -> int
    decreases s.len(),
{
    if s.len() == 0 {
        -1
    } else if s.last() == '.' {
        s.len() - 1
    } else {
        last_dot(s.drop_last())
    }
}

/// The file stem of a name: the part before its last dot, unless that dot
/// is the name's first character (a hidden file) or there is none.
pub open spec fn stem(s: Seq<char>) -> Seq<char> {
    if last_dot(s) > 0 {
        s.take(last_dot(s))
    } else {
        s
    }
}

/// The name ends in the extension `rs`.
pub open spec fn has_rs_extension(s: Seq<char>) -> bool {
    last_dot(s) > 0 && s.skip(last_dot(s) + 1) == seq!['r', 's']
}

/// `pat` occurs in `s` as a contiguous run of characters.
pub open spec fn occurs_in(pat: Seq<char>, s: Seq<char>) -> bool {
    exists|i: int| 0 <= i <= s.len() - pat.len() && #[trigger] s.subrange(i, i + pat.len()) == pat
}

/// The dot at `k` (or none, for `k == -1`) is the last one of `s`.
pub proof fn lemma_last_dot(s: Seq<char>, k: int)
    requires
        -1 <= k < s.len(),
        k >= 0 ==> s[k] == '.',
        forall|j: int| k < j < s.len() ==> s[j] != '.',
    ensures
        last_dot(s) == k,
    decreases s.len(),
{
    if s.len() > 0 && k != s.len() - 1 {
        lemma_last_dot(s.drop_last(), k);
    }
}

/// The characters of `s`, in order.
pub fn chars_of(s: &str) -> (r: Vec<char>)
    ensures
        r@ == s@,
{
    let mut r: Vec<char> = Vec::new();
    for c in it: s.chars()
        invariant
            r@ == it.seq().take(it.index() as int),
    {
        r.push(c);
    }
    r
}

/// Position of the last dot of `s`, as `last_dot` gives it.
pub fn find_last_dot(s: &Vec<char>) -> (r: Option<usize>)
    ensures
        r is None <==> last_dot(s@) == -1,
        r matches Some(k) ==> k as int == last_dot(s@) && k < s.len() && s@[k as int] == '.',
{
    let mut i: usize = s.len();
    while i > 0
        invariant
            i <= s.len(),
            forall|j: int| i <= j < s.len() ==> s@[j] != '.',
        decreases i,
    {
        if s[i - 1] == '.' {
            proof {
                lemma_last_dot(s@, i - 1);
            }
            return Some(i - 1);
        }
        i = i - 1;
    }
    proof {
        lemma_last_dot(s@, -1);
    }
    None
}

/// The file stem of `name`.
pub fn file_stem(name: &str) -> (r: String)
    ensures
        r@ == stem(name@),
{
    let cs = chars_of(name);
    match find_last_dot(&cs) {
        Some(k) if k > 0 => name.substring_char(0, k).to_owned(),
        _ => name.to_owned(),
    }
}

/// Whether `name` carries the extension `rs`.
pub fn is_rs_file_name(name: &str) -> (r: bool)
    ensures
        r == has_rs_extension(name@),
{
    let cs = chars_of(name);
    match find_last_dot(&cs) {
        Some(k) if k > 0 => {
            let n = cs.len();
            let r = n - k == 3 && cs[k + 1] == 'r' && cs[k + 2] == 's';
            proof {
                let tail = cs@.skip(k + 1);
                assert(tail.len() == n - k - 1);
                if n - k == 3 {
                    assert(tail[0] == cs@[k + 1]);
                    assert(tail[1] == cs@[k + 2]);
                }
                if r {
                    assert(tail =~= seq!['r', 's']);
                }
            }
            r
        },
        _ => false,
    }
}

/// Whether `pat` occurs in `s`.
pub fn occurs(pat: &Vec<char>, s: &Vec<char>) -> (r: bool)
    ensures
        r == occurs_in(pat@, s@),
{
    if pat.len() > s.len() {
        return false;
    }
    let last: usize = s.len() - pat.len();
    let mut i: usize = 0;
    while i <= last
        invariant
            last == s.len() - pat.len(),
            pat.len() <= s.len(),
            forall|k: int| 0 <= k < i ==> #[trigger] s@.subrange(k, k + pat.len()) != pat@,
        decreases last + 1 - i,
    {
        let mut j: usize = 0;
        while j < pat.len() && s[i + j] == pat[j]
            invariant
                i <= last,
                last == s.len() - pat.len(),
                j <= pat.len(),
                forall|m: int| 0 <= m < j ==> s@[i + m] == pat@[m],
            decreases pat.len() - j,
        {
            j = j + 1;
        }
        if j == pat.len() {
            assert(s@.subrange(i as int, i + pat.len()) =~= pat@);
            return true;
        }
        assert(s@.subrange(i as int, i + pat.len())[j as int] != pat@[j as int]);
        i = i + 1;
    }
    false
}

/// Whether the characters of `a` are those of `b`.
pub fn same_chars(a: &Vec<char>, b: &str) -> (r: bool)
    ensures
        r == (a@ == b@),
{
    let bs = chars_of(b);
    if a.len() != bs.len() {
        return false;
    }
    let mut i: usize = 0;
    while i < a.len()
        invariant
            a.len() == bs.len(),
            bs@ == b@,
            forall|k: int| 0 <= k < i ==> a@[k] == bs@[k],
        decreases a.len() - i,
    {
        if a[i] != bs[i] {
            assert(a@[i as int] != bs@[i as int]);
            return false;
        }
        i = i + 1;
    }
    assert(a@ =~= bs@);
    true
}

} // verus!
