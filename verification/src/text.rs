//! Character-level text helpers: Unicode whitespace, trimming, and line
//! matching over command output.

use vstd::prelude::*;

verus! {

/// Whether `c` has the Unicode `White_Space` property.
pub open spec fn is_white_space(c: char) -> bool {
    let u = c as u32;
    ||| 0x9 <= u <= 0xd
    ||| u == 0x20
    ||| u == 0x85
    ||| u == 0xa0
    ||| u == 0x1680
    ||| 0x2000 <= u <= 0x200a
    ||| u == 0x2028
    ||| u == 0x2029
    ||| u == 0x202f
    ||| u == 0x205f
    ||| u == 0x3000
}

/// Whether `c` is Unicode whitespace (the set `str::trim` strips).
pub fn white_space(c: char) -> (r: bool)
    ensures
        r == is_white_space(c),
{
    let u = c as u32;
    (0x9 <= u && u <= 0xd) || u == 0x20 || u == 0x85 || u == 0xa0 || u == 0x1680 || (0x2000 <= u
        && u <= 0x200a) || u == 0x2028 || u == 0x2029 || u == 0x202f || u == 0x205f || u == 0x3000
}

} // verus!

verus! {

/// `s` with leading whitespace removed.
pub open spec fn trim_front(s: Seq<char>) -> Seq<char>
    decreases s.len(),
{
    if s.len() > 0 && is_white_space(s[0]) {
        trim_front(s.drop_first())
    } else {
        s
    }
}

/// `s` with trailing whitespace removed.
pub open spec fn trim_back(s: Seq<char>) -> Seq<char>
    decreases s.len(),
{
    if s.len() > 0 && is_white_space(s.last()) {
        trim_back(s.drop_last())
    } else {
        s
    }
}

/// `s` with leading and trailing whitespace removed, as `str::trim` does.
pub open spec fn trim(s: Seq<char>) -> Seq<char> {
    trim_back(trim_front(s))
}

proof fn lemma_trim_front(s: Seq<char>, i: int)
    requires
        0 <= i <= s.len(),
        forall|k: int| 0 <= k < i ==> is_white_space(#[trigger] s[k]),
        i == s.len() || !is_white_space(s[i]),
    ensures
        trim_front(s) == s.skip(i),
    decreases i,
{
    if i == 0 {
        assert(s.skip(0) =~= s);
    } else {
        assert(is_white_space(s[0]));
        let t = s.drop_first();
        assert forall|k: int| 0 <= k < i - 1 implies is_white_space(#[trigger] t[k]) by {
            assert(t[k] == s[k + 1]);
        }
        lemma_trim_front(t, i - 1);
        assert(t.skip(i - 1) =~= s.skip(i));
    }
}

proof fn lemma_trim_back(s: Seq<char>, j: int)
    requires
        0 <= j <= s.len(),
        forall|k: int| j <= k < s.len() ==> is_white_space(#[trigger] s[k]),
        j == 0 || !is_white_space(s[j - 1]),
    ensures
        trim_back(s) == s.take(j),
    decreases s.len() - j,
{
    if j == s.len() {
        assert(s.take(j) =~= s);
    } else {
        assert(is_white_space(s.last()));
        let t = s.drop_last();
        assert forall|k: int| j <= k < t.len() implies is_white_space(#[trigger] t[k]) by {
            assert(t[k] == s[k]);
        }
        lemma_trim_back(t, j);
        assert(t.take(j) =~= s.take(j));
    }
}

/// The characters of `s`, in order.
pub fn chars_of(s: &str) -> (r: Vec<char>)
    ensures
        r@ == s@,
{
    let n = s.unicode_len();
    let mut r: Vec<char> = Vec::new();
    let mut i: usize = 0;
    while i < n
        invariant
            n == s@.len(),
            i <= n,
            r@ == s@.take(i as int),
        decreases n - i,
    {
        r.push(s.get_char(i));
        i = i + 1;
        assert(r@ =~= s@.take(i as int));
    }
    assert(r@ =~= s@);
    r
}

/// The bounds, inside `lo..hi`, of `v[lo..hi]` with surrounding whitespace
/// removed.
pub fn trim_bounds(v: &Vec<char>, lo: usize, hi: usize) -> (r: (usize, usize))
    requires
        lo <= hi <= v@.len(),
    ensures
        lo <= r.0 <= r.1 <= hi,
        v@.subrange(r.0 as int, r.1 as int) == trim(v@.subrange(lo as int, hi as int)),
{
    let mut a = lo;
    while a < hi && white_space(v[a])
        invariant
            lo <= a <= hi <= v@.len(),
            forall|k: int| lo <= k < a ==> is_white_space(#[trigger] v@[k]),
        decreases hi - a,
    {
        a = a + 1;
    }
    let mut b = hi;
    while b > a && white_space(v[b - 1])
        invariant
            lo <= a <= b <= hi <= v@.len(),
            forall|k: int| b <= k < hi ==> is_white_space(#[trigger] v@[k]),
        decreases b - a,
    {
        b = b - 1;
    }
    proof {
        let s = v@.subrange(lo as int, hi as int);
        assert forall|k: int| 0 <= k < a - lo implies is_white_space(#[trigger] s[k]) by {
            assert(s[k] == v@[lo + k]);
        }
        if a < hi {
            assert(s[a - lo] == v@[a as int]);
        }
        lemma_trim_front(s, a - lo);
        let t = v@.subrange(a as int, hi as int);
        assert(s.skip(a - lo) =~= t);
        assert forall|k: int| b - a <= k < t.len() implies is_white_space(#[trigger] t[k]) by {
            assert(t[k] == v@[a + k]);
        }
        if b > a {
            assert(t[b - a - 1] == v@[b - 1]);
        }
        lemma_trim_back(t, b - a);
        assert(t.take(b - a) =~= v@.subrange(a as int, b as int));
    }
    (a, b)
}

/// Whether `v[lo..hi]` equals the characters of `lit`.
pub fn range_eq_str(v: &Vec<char>, lo: usize, hi: usize, lit: &str) -> (r: bool)
    requires
        lo <= hi <= v@.len(),
    ensures
        r == (v@.subrange(lo as int, hi as int) == lit@),
{
    let n = lit.unicode_len();
    if hi - lo != n {
        assert(v@.subrange(lo as int, hi as int).len() != lit@.len());
        return false;
    }
    let mut i: usize = 0;
    while i < n
        invariant
            n == lit@.len(),
            hi - lo == n,
            lo <= hi <= v@.len(),
            i <= n,
            forall|k: int| 0 <= k < i ==> v@[lo + k] == lit@[k],
        decreases n - i,
    {
        if v[lo + i] != lit.get_char(i) {
            assert(v@.subrange(lo as int, hi as int)[i as int] != lit@[i as int]);
            return false;
        }
        i = i + 1;
    }
    assert(v@.subrange(lo as int, hi as int) =~= lit@);
    true
}

/// Whether `s` and `t` hold the same characters.
pub fn str_eq(s: &str, t: &str) -> (r: bool)
    ensures
        r == (s@ == t@),
{
    let v = chars_of(s);
    assert(v@.subrange(0, v@.len() as int) =~= v@);
    range_eq_str(&v, 0, v.len(), t)
}

/// Whether `s`, with surrounding whitespace removed, equals `lit`.
pub fn trimmed_eq(s: &str, lit: &str) -> (r: bool)
    ensures
        r == (trim(s@) == lit@),
{
    let v = chars_of(s);
    assert(v@.subrange(0, v@.len() as int) =~= v@);
    let (a, b) = trim_bounds(&v, 0, v.len());
    range_eq_str(&v, a, b, lit)
}

} // verus!

verus! {

/// `s[i..j]` is one line of `s`: it starts at the beginning of `s` or just
/// after a newline, ends at the end of `s` or at a newline, and holds none.
pub open spec fn is_line(s: Seq<char>, i: int, j: int) -> bool {
    &&& 0 <= i <= j <= s.len()
    &&& (i == 0 || s[i - 1] == '\n')
    &&& (j == s.len() || s[j] == '\n')
    &&& forall|k: int| i <= k < j ==> s[k] != '\n'
}

/// Some line of `s`, with surrounding whitespace removed, equals `target`.
pub open spec fn has_trimmed_line(s: Seq<char>, target: Seq<char>) -> bool {
    exists|i: int, j: int| #[trigger] is_line(s, i, j) && trim(s.subrange(i, j)) == target
}

/// A line that ends where the current one ends starts where it starts.
proof fn lemma_line_start_unique(s: Seq<char>, start: int, i: int, j: int)
    requires
        is_line(s, i, j),
        0 <= start <= j,
        start == 0 || s[start - 1] == '\n',
        forall|k: int| start <= k < j ==> s[k] != '\n',
    ensures
        i == start,
{
    if i < start {
        assert(s[start - 1] != '\n');
    } else if i > start {
        assert(s[i - 1] != '\n');
    }
}

/// Whether some line of `s`, with surrounding whitespace removed, equals
/// `target`.
pub fn has_line(s: &str, target: &str) -> (r: bool)
    ensures
        r == has_trimmed_line(s@, target@),
{
    let v = chars_of(s);
    let n = v.len();
    let mut start: usize = 0;
    let mut pos: usize = 0;
    while pos < n
        invariant
            v@ == s@,
            n == v@.len(),
            start <= pos <= n,
            start == 0 || v@[start - 1] == '\n',
            forall|k: int| start <= k < pos ==> v@[k] != '\n',
            forall|i: int, j: int|
                #[trigger] is_line(v@, i, j) && j < pos ==> trim(v@.subrange(i, j)) != target@,
        decreases n - pos,
    {
        if v[pos] == '\n' {
            let (a, b) = trim_bounds(&v, start, pos);
            if range_eq_str(&v, a, b, target) {
                assert(is_line(v@, start as int, pos as int));
                return true;
            }
            assert forall|i: int, j: int|
                #[trigger] is_line(v@, i, j) && j < pos + 1 implies trim(v@.subrange(i, j))
                != target@ by {
                if j == pos {
                    lemma_line_start_unique(v@, start as int, i, j);
                }
            }
            start = pos + 1;
        }
        pos = pos + 1;
    }
    let (a, b) = trim_bounds(&v, start, n);
    let found = range_eq_str(&v, a, b, target);
    proof {
        if found {
            assert(is_line(v@, start as int, n as int));
        } else {
            assert forall|i: int, j: int| #[trigger]
                is_line(v@, i, j) implies trim(v@.subrange(i, j)) != target@ by {
                if j == n {
                    lemma_line_start_unique(v@, start as int, i, j);
                }
            }
        }
    }
    found
}

/// Whether `s` begins with the characters of `prefix`.
pub fn starts_with(s: &str, prefix: &str) -> (r: bool)
    ensures
        r == (prefix@.len() <= s@.len() && s@.take(prefix@.len() as int) == prefix@),
{
    let v = chars_of(s);
    let n = prefix.unicode_len();
    if n > v.len() {
        return false;
    }
    assert(v@.subrange(0, n as int) =~= v@.take(n as int));
    range_eq_str(&v, 0, n, prefix)
}

} // verus!
