//! Lexicographic order on texts by code point, and a sorted list of the
//! smallest distinct texts seen, kept to a bound.
use vstd::prelude::*;
use crate::nlp::texts;
use crate::text::chars_of;

verus! {

/// `a` comes before `b`, comparing code points from the front; a proper prefix
/// comes first.
pub open spec fn lex_lt(a: Seq<char>, b: Seq<char>) -> bool
    decreases a.len(),
{
    if a.len() == 0 {
        b.len() > 0
    } else if b.len() == 0 {
        false
    } else if a[0] != b[0] {
        (a[0] as int) < (b[0] as int)
    } else {
        lex_lt(a.drop_first(), b.drop_first())
    }
}

/// The order is transitive.
pub proof fn lemma_lex_transitive(a: Seq<char>, b: Seq<char>, c: Seq<char>)
    requires
        lex_lt(a, b),
        lex_lt(b, c),
    ensures
        lex_lt(a, c),
    decreases a.len(),
{
    if a.len() > 0 && b.len() > 0 && c.len() > 0 && a[0] == b[0] && b[0] == c[0] {
        lemma_lex_transitive(a.drop_first(), b.drop_first(), c.drop_first());
    }
}

/// Of two different texts, one comes first.
pub proof fn lemma_lex_total(a: Seq<char>, b: Seq<char>)
    requires
        a != b,
    ensures
        lex_lt(a, b) || lex_lt(b, a),
    decreases a.len(),
{
    if a.len() > 0 && b.len() > 0 && a[0] == b[0] {
        if a.drop_first() == b.drop_first() {
            assert(a =~= seq![a[0]] + a.drop_first());
            assert(b =~= seq![b[0]] + b.drop_first());
        }
        lemma_lex_total(a.drop_first(), b.drop_first());
    } else if a.len() == 0 && b.len() == 0 {
        assert(a =~= b);
    }
}

/// Whether `a` comes before `b` (see `lex_lt`).
pub fn lex_less(a: &str, b: &str) -> (r: bool)
    ensures
        r == lex_lt(a@, b@),
{
    let x = chars_of(a);
    let y = chars_of(b);
    let mut i: usize = 0;
    assert(x@.subrange(0, x@.len() as int) =~= x@);
    assert(y@.subrange(0, y@.len() as int) =~= y@);
    while i < x.len() && i < y.len() && x[i] == y[i]
        invariant
            i <= x@.len(),
            i <= y@.len(),
            lex_lt(x@, y@) == lex_lt(x@.subrange(i as int, x@.len() as int), y@.subrange(i as int, y@.len() as int)),
        decreases x@.len() - i,
    {
        proof {
            let xs = x@.subrange(i as int, x@.len() as int);
            let ys = y@.subrange(i as int, y@.len() as int);
            assert(xs.drop_first() =~= x@.subrange(i + 1, x@.len() as int));
            assert(ys.drop_first() =~= y@.subrange(i + 1, y@.len() as int));
        }
        i = i + 1;
    }
    let ghost xs = x@.subrange(i as int, x@.len() as int);
    let ghost ys = y@.subrange(i as int, y@.len() as int);
    if i == x.len() {
        i < y.len()
    } else if i == y.len() {
        false
    } else {
        assert(xs[0] == x@[i as int] && ys[0] == y@[i as int]);
        x[i] < y[i]
    }
}

/// Strictly increasing.
pub open spec fn increasing(s: Seq<Seq<char>>) -> bool {
    forall|k: int, l: int| 0 <= k < l < s.len() ==> lex_lt(s[k], s[l])
}

/// `acc` holds, in increasing order, the smallest `bound` distinct texts of
/// `seen` (all of them where there are fewer).
pub open spec fn smallest_of(acc: Seq<Seq<char>>, seen: Set<Seq<char>>, bound: nat) -> bool {
    &&& increasing(acc)
    &&& acc.len() <= bound
    &&& forall|k: int| 0 <= k < acc.len() ==> seen.contains(#[trigger] acc[k])
    &&& forall|c: Seq<char>|
        seen.contains(c) ==> acc.contains(c) || (acc.len() == bound && lex_lt(acc.last(), c))
}

/// Takes `c` into the smallest texts kept in `acc`.
pub fn insert_bounded(acc: &mut Vec<String>, c: &str, bound: usize, Ghost(seen): Ghost<Set<Seq<char>>>)
    requires
        bound > 0,
        smallest_of(texts(old(acc)@), seen, bound as nat),
    ensures
        smallest_of(texts(final(acc)@), seen.insert(c@), bound as nat),
{
    let ghost a0 = texts(acc@);
    let n = acc.len();
    let mut p: usize = 0;
    while p < n && lex_less(acc[p].as_str(), c)
        invariant
            n == acc@.len(),
            a0 == texts(acc@),
            p <= n,
            forall|k: int| 0 <= k < p ==> lex_lt(a0[k], c@),
        decreases n - p,
    {
        p = p + 1;
    }
    if p < n && acc[p] == c.to_string() {
        assert(a0[p as int] == c@);
        return;
    }
    if p == bound {
        assert(n == bound);
        proof {
            assert forall|x: Seq<char>| seen.insert(c@).contains(x) implies a0.contains(x) || (a0.len() == bound
                && lex_lt(a0.last(), x)) by {
                if x == c@ {
                    assert(lex_lt(a0[n - 1], c@));
                }
            }
        }
        return;
    }
    proof {
        if p < n {
            assert(!lex_lt(a0[p as int], c@));
            assert(a0[p as int] != c@);
            lemma_lex_total(a0[p as int], c@);
        }
    }
    acc.insert(p, c.to_string());
    let ghost a1 = texts(acc@);
    proof {
        assert(a1 =~= a0.insert(p as int, c@));
        assert forall|k: int, l: int| 0 <= k < l < a1.len() implies lex_lt(a1[k], a1[l]) by {
            if k < p && l == p {
            } else if k < p && l > p {
                assert(a1[l] == a0[l - 1]);
                if l - 1 > p {
                    lemma_lex_transitive(c@, a0[p as int], a0[l - 1]);
                }
                lemma_lex_transitive(a0[k], c@, a0[l - 1]);
            } else if k == p {
                if l - 1 > p {
                    lemma_lex_transitive(c@, a0[p as int], a0[l - 1]);
                }
            } else if k > p {
                assert(a1[k] == a0[k - 1] && a1[l] == a0[l - 1]);
            } else {
                assert(a1[k] == a0[k] && a1[l] == a0[l]);
            }
        }
    }
    if acc.len() > bound {
        let ghost dropped = a1.last();
        acc.pop();
        let ghost a2 = texts(acc@);
        proof {
            assert(a2 =~= a1.drop_last());
            assert(a1.len() == bound + 1);
            assert forall|x: Seq<char>| seen.insert(c@).contains(x) implies a2.contains(x) || (a2.len() == bound
                && lex_lt(a2.last(), x)) by {
                assert(lex_lt(a2.last(), dropped));
                assert(a1[p as int] == c@);
                if a1.contains(x) {
                    let j = choose|j: int| 0 <= j < a1.len() && a1[j] == x;
                    if j == bound {
                    } else {
                        assert(a2[j] == x);
                    }
                } else {
                    assert(x != c@);
                    assert(a0.len() == bound && lex_lt(a0.last(), x)) by {
                        if !a0.contains(x) {
                        } else {
                            let j = choose|j: int| 0 <= j < a0.len() && a0[j] == x;
                            if j < p {
                                assert(a1[j] == x);
                            } else {
                                assert(a1[j + 1] == x);
                            }
                        }
                    }
                    assert(a0.last() == dropped);
                    lemma_lex_transitive(a2.last(), dropped, x);
                }
            }
            assert forall|k: int| 0 <= k < a2.len() implies seen.insert(c@).contains(#[trigger] a2[k]) by {
                if k < p {
                    assert(a2[k] == a0[k]);
                } else if k > p {
                    assert(a2[k] == a0[k - 1]);
                }
            }
        }
    } else {
        proof {
            assert forall|x: Seq<char>| seen.insert(c@).contains(x) implies a1.contains(x) || (a1.len() == bound
                && lex_lt(a1.last(), x)) by {
                if x == c@ {
                    assert(a1[p as int] == x);
                } else {
                    assert(a0.contains(x)) by {
                        if !a0.contains(x) {
                            assert(a0.len() == bound);
                        }
                    }
                    let j = choose|j: int| 0 <= j < a0.len() && a0[j] == x;
                    if j < p {
                        assert(a1[j] == x);
                    } else {
                        assert(a1[j + 1] == x);
                    }
                }
            }
            assert forall|k: int| 0 <= k < a1.len() implies seen.insert(c@).contains(#[trigger] a1[k]) by {
                if k < p {
                    assert(a1[k] == a0[k]);
                } else if k > p {
                    assert(a1[k] == a0[k - 1]);
                }
            }
        }
    }
}

} // verus!
