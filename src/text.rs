//! Character-level text helpers: substring search, character counts and
//! whitespace-separated word counts, each proved against a spec function.
use vstd::prelude::*;
use vstd::string::*;
use crate::trusted::{alnum, is_alnum};

verus! {

/// `n` occurs in `h` at position `i`.
pub open spec fn occurs_at(n: Seq<char>, h: Seq<char>, i: int) -> bool {
    0 <= i && i + n.len() <= h.len() && h.subrange(i, i + n.len()) == n
}

/// `n` is a contiguous piece of `h` (the empty sequence is a piece of every text).
pub open spec fn is_substring(n: Seq<char>, h: Seq<char>) -> bool {
    exists|i: int| occurs_at(n, h, i)
}

/// The characters of `s`, one by one.
pub fn chars_of(s: &str) -> (r: Vec<char>)
    ensures
        r@ == s@,
{
    let n = s.unicode_len();
    let mut r: Vec<char> = Vec::new();
    let mut i: usize = 0;
    while i < n
        invariant
            n == s@.len(),
            i <= n,
            r@ == s@.subrange(0, i as int),
        decreases n - i,
    {
        r.push(s.get_char(i));
        i = i + 1;
    }
    assert(r@ =~= s@);
    r
}

fn occurs_at_exec(n: &Vec<char>, h: &Vec<char>, i: usize) -> (r: bool)
    requires
        i + n@.len() <= h@.len(),
    ensures
        r == occurs_at(n@, h@, i as int),
{
    let hl = h.len();
    let mut j: usize = 0;
    while j < n.len()
        invariant
            i + n@.len() <= h@.len(),
            hl == h@.len(),
            j <= n@.len(),
            forall|k: int| 0 <= k < j ==> h@[i + k] == n@[k],
        decreases n@.len() - j,
    {
        if h[i + j] != n[j] {
            assert(h@.subrange(i as int, i + n@.len())[j as int] != n@[j as int]);
            return false;
        }
        j = j + 1;
    }
    assert(h@.subrange(i as int, i + n@.len()) =~= n@);
    true
}

/// Whether the character sequence `n` occurs in `h`.
pub fn seq_contains(h: &Vec<char>, n: &Vec<char>) -> (r: bool)
    ensures
        r == is_substring(n@, h@),
{
    if n.len() == 0 {
        assert(h@.subrange(0, 0) =~= n@);
        assert(occurs_at(n@, h@, 0));
        return true;
    }
    if n.len() > h.len() {
        return false;
    }
    let starts = h.len() - n.len() + 1;
    let mut i: usize = 0;
    while i < starts
        invariant
            starts == h@.len() - n@.len() + 1,
            i <= starts,
            forall|k: int| 0 <= k < i ==> !occurs_at(n@, h@, k),
        decreases starts - i,
    {
        if occurs_at_exec(n, h, i) {
            return true;
        }
        i = i + 1;
    }
    assert forall|k: int| !occurs_at(n@, h@, k) by {
        if 0 <= k && k + n@.len() <= h@.len() {
            assert(k < starts);
        }
    }
    false
}

/// Whether `needle` occurs in `hay`, by characters.
pub fn str_contains(hay: &str, needle: &str) -> (r: bool)
    ensures
        r == is_substring(needle@, hay@),
{
    let h = chars_of(hay);
    let n = chars_of(needle);
    seq_contains(&h, &n)
}

/// How many characters of `s` satisfy `f`.
pub open spec fn count_where(s: Seq<char>, f: spec_fn(char) -> bool) -> nat
    decreases s.len(),
{
    if s.len() == 0 {
        0
    } else {
        count_where(s.drop_last(), f) + if f(s.last()) { 1nat } else { 0nat }
    }
}

/// An exclamation mark, ASCII or full-width.
pub open spec fn is_exclamation(c: char) -> bool {
    c == '!' || c == '！'
}

/// A count of characters is at most the length.
pub proof fn lemma_count_where_bound(s: Seq<char>, f: spec_fn(char) -> bool)
    ensures
        count_where(s, f) <= s.len(),
    decreases s.len(),
{
    if s.len() > 0 {
        lemma_count_where_bound(s.drop_last(), f);
    }
}

/// The number of exclamation marks in `s`.
pub open spec fn exclamation_count(s: Seq<char>) -> nat {
    count_where(s, |c: char| is_exclamation(c))
}

/// The number of `.` characters in `s`.
pub open spec fn period_count(s: Seq<char>) -> nat {
    count_where(s, |c: char| c == '.')
}

/// A character with the Unicode `White_Space` property.
pub open spec fn is_space(c: char) -> bool {
    let u = c as u32;
    (0x9 <= u <= 0xd) || u == 0x20 || u == 0x85 || u == 0xa0 || u == 0x1680 || (0x2000 <= u
        <= 0x200a) || u == 0x2028 || u == 0x2029 || u == 0x202f || u == 0x205f || u == 0x3000
}

/// Position `i` of `s` begins a run of non-whitespace characters.
pub open spec fn starts_word(s: Seq<char>, i: int) -> bool {
    !is_space(s[i]) && (i == 0 || is_space(s[i - 1]))
}

/// The number of maximal runs of non-whitespace characters in `s`.
pub open spec fn word_count(s: Seq<char>) -> nat
    decreases s.len(),
{
    if s.len() == 0 {
        0
    } else {
        word_count(s.drop_last()) + if starts_word(s, s.len() - 1) { 1nat } else { 0nat }
    }
}

/// Whether `c` has the Unicode `White_Space` property.
pub fn is_space_char(c: char) -> (r: bool)
    ensures
        r == is_space(c),
{
    let u = c as u32;
    (0x9 <= u && u <= 0xd) || u == 0x20 || u == 0x85 || u == 0xa0 || u == 0x1680 || (0x2000 <= u
        && u <= 0x200a) || u == 0x2028 || u == 0x2029 || u == 0x202f || u == 0x205f || u == 0x3000
}

proof fn lemma_prefix_step(s: Seq<char>, i: int)
    requires
        0 <= i < s.len(),
    ensures
        s.subrange(0, i + 1).drop_last() == s.subrange(0, i),
        s.subrange(0, i + 1).last() == s[i],
{
    assert(s.subrange(0, i + 1).drop_last() =~= s.subrange(0, i));
}

/// The number of exclamation marks (`!` or `！`) in `s`.
pub fn count_exclamations(s: &str) -> (r: usize)
    ensures
        r == exclamation_count(s@),
{
    let cs = chars_of(s);
    let mut r: usize = 0;
    let mut i: usize = 0;
    while i < cs.len()
        invariant
            cs@ == s@,
            i <= cs@.len(),
            r == exclamation_count(cs@.subrange(0, i as int)),
            r <= i,
        decreases cs@.len() - i,
    {
        proof {
            lemma_prefix_step(cs@, i as int);
        }
        if cs[i] == '!' || cs[i] == '！' {
            r = r + 1;
        }
        i = i + 1;
    }
    assert(cs@.subrange(0, cs@.len() as int) =~= cs@);
    r
}

/// The number of `.` characters in `s`.
pub fn count_periods(s: &str) -> (r: usize)
    ensures
        r == period_count(s@),
{
    let cs = chars_of(s);
    let mut r: usize = 0;
    let mut i: usize = 0;
    while i < cs.len()
        invariant
            cs@ == s@,
            i <= cs@.len(),
            r == period_count(cs@.subrange(0, i as int)),
            r <= i,
        decreases cs@.len() - i,
    {
        proof {
            lemma_prefix_step(cs@, i as int);
        }
        if cs[i] == '.' {
            r = r + 1;
        }
        i = i + 1;
    }
    assert(cs@.subrange(0, cs@.len() as int) =~= cs@);
    r
}

/// The number of whitespace-separated words in `s`.
pub fn count_words(s: &str) -> (r: usize)
    ensures
        r == word_count(s@),
{
    let cs = chars_of(s);
    let mut r: usize = 0;
    let mut i: usize = 0;
    while i < cs.len()
        invariant
            cs@ == s@,
            i <= cs@.len(),
            r == word_count(cs@.subrange(0, i as int)),
            r <= i,
        decreases cs@.len() - i,
    {
        proof {
            lemma_prefix_step(cs@, i as int);
            let p = cs@.subrange(0, i + 1);
            assert(p[i as int] == cs@[i as int]);
            if i > 0 {
                assert(p[i - 1] == cs@[i - 1]);
            }
        }
        if !is_space_char(cs[i]) && (i == 0 || is_space_char(cs[i - 1])) {
            r = r + 1;
        }
        i = i + 1;
    }
    assert(cs@.subrange(0, cs@.len() as int) =~= cs@);
    r
}

/// Whether `a` and `b` hold the same text.
pub fn same_text(a: &str, b: &str) -> (r: bool)
    ensures
        r == (a@ == b@),
{
    a.to_string() == b.to_string()
}

/// `a` and `b` joined by one space.
pub fn spaced(a: &str, b: &str) -> (r: String)
    ensures
        r@ == a@ + " "@ + b@,
{
    let mut r = String::from_str(a);
    r.append(" ");
    r.append(b);
    r
}

/// Positions `i` to `j` of `s` hold one whole whitespace-separated word.
pub open spec fn word_at(s: Seq<char>, i: int, j: int) -> bool {
    &&& 0 <= i < j <= s.len()
    &&& forall|k: int| i <= k < j ==> !is_space(#[trigger] s[k])
    &&& i == 0 || is_space(s[i - 1])
    &&& j == s.len() || is_space(s[j])
}

/// A word has one start for each end.
pub proof fn lemma_word_start_unique(s: Seq<char>, i: int, i2: int, j: int)
    requires
        word_at(s, i, j),
        word_at(s, i2, j),
    ensures
        i == i2,
{
    if i < i2 {
        assert(!is_space(s[i2 - 1]));
    } else if i2 < i {
        assert(!is_space(s[i - 1]));
    }
}

/// `w` without its leading non-alphanumeric characters.
pub open spec fn trim_start(w: Seq<char>) -> Seq<char>
    decreases w.len(),
{
    if w.len() > 0 && !alnum(w[0]) {
        trim_start(w.drop_first())
    } else {
        w
    }
}

/// `w` without its trailing non-alphanumeric characters.
pub open spec fn trim_end(w: Seq<char>) -> Seq<char>
    decreases w.len(),
{
    if w.len() > 0 && !alnum(w.last()) {
        trim_end(w.drop_last())
    } else {
        w
    }
}

/// `w` without non-alphanumeric characters at either end.
pub open spec fn trimmed(w: Seq<char>) -> Seq<char> {
    trim_end(trim_start(w))
}

/// The bounds within `lo..hi` of `s` of that piece with its non-alphanumeric
/// characters at either end taken off.
pub fn trim_bounds(s: &Vec<char>, lo: usize, hi: usize) -> (r: (usize, usize))
    requires
        lo <= hi <= s@.len(),
    ensures
        lo <= r.0 <= r.1 <= hi,
        s@.subrange(r.0 as int, r.1 as int) == trimmed(s@.subrange(lo as int, hi as int)),
{
    let mut a = lo;
    while a < hi && !is_alnum(s[a])
        invariant
            lo <= a <= hi <= s@.len(),
            trim_start(s@.subrange(lo as int, hi as int)) == trim_start(s@.subrange(a as int, hi as int)),
        decreases hi - a,
    {
        assert(s@.subrange(a as int, hi as int).drop_first() =~= s@.subrange(a + 1, hi as int));
        a = a + 1;
    }
    let mut b = hi;
    while b > a && !is_alnum(s[b - 1])
        invariant
            lo <= a <= b <= hi <= s@.len(),
            trim_end(s@.subrange(a as int, hi as int)) == trim_end(s@.subrange(a as int, b as int)),
        decreases b - a,
    {
        assert(s@.subrange(a as int, b as int).drop_last() =~= s@.subrange(a as int, b - 1));
        b = b - 1;
    }
    (a, b)
}

/// The number of bytes that `c` takes in UTF-8.
pub open spec fn utf8_width(c: char) -> nat {
    let u = c as u32;
    if u < 0x80 {
        1
    } else if u < 0x800 {
        2
    } else if u < 0x10000 {
        3
    } else {
        4
    }
}

/// The number of bytes that `s` takes in UTF-8.
pub open spec fn utf8_len(s: Seq<char>) -> nat
    decreases s.len(),
{
    if s.len() == 0 {
        0
    } else {
        utf8_len(s.drop_last()) + utf8_width(s.last())
    }
}

/// The number of bytes that positions `lo..hi` of `s` take in UTF-8.
pub fn utf8_len_of(s: &Vec<char>, lo: usize, hi: usize) -> (r: u128)
    requires
        lo <= hi <= s@.len(),
    ensures
        r == utf8_len(s@.subrange(lo as int, hi as int)),
{
    let mut r: u128 = 0;
    let mut k = lo;
    while k < hi
        invariant
            lo <= k <= hi <= s@.len(),
            r == utf8_len(s@.subrange(lo as int, k as int)),
            r <= 4 * (k - lo),
        decreases hi - k,
    {
        assert(s@.subrange(lo as int, k + 1).drop_last() =~= s@.subrange(lo as int, k as int));
        let u = s[k] as u32;
        let w: u128 = if u < 0x80 {
            1
        } else if u < 0x800 {
            2
        } else if u < 0x10000 {
            3
        } else {
            4
        };
        r = r + w;
        k = k + 1;
    }
    r
}

} // verus!
