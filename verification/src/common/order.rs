//! The order in which `str` compares texts, and sorted lists of texts.
//!
//! `str` compares the UTF-8 bytes lexicographically; since UTF-8 keeps the
//! order of code points, that is the lexicographic order of the characters by
//! their code points, which is what `text_lt` states.

use vstd::prelude::*;

use crate::common::text::texts;

verus! {

/// `a` sorts strictly before `b`.
pub open spec fn text_lt(a: Seq<char>, b: Seq<char>) -> bool
    decreases a.len(),
{
    if a.len() == 0 {
        b.len() > 0
    } else if b.len() == 0 {
        false
    } else if (a[0] as int) < (b[0] as int) {
        true
    } else if a[0] == b[0] {
        text_lt(a.drop_first(), b.drop_first())
    } else {
        false
    }
}

/// No text sorts before itself.
pub proof fn lemma_text_lt_irreflexive(a: Seq<char>)
    ensures
        !text_lt(a, a),
    decreases a.len(),
{
    if a.len() > 0 {
        lemma_text_lt_irreflexive(a.drop_first());
    }
}

/// The order is transitive.
pub proof fn lemma_text_lt_transitive(a: Seq<char>, b: Seq<char>, c: Seq<char>)
    requires
        text_lt(a, b),
        text_lt(b, c),
    ensures
        text_lt(a, c),
    decreases a.len(),
{
    if a.len() > 0 && b.len() > 0 && c.len() > 0 && a[0] == b[0] && b[0] == c[0] {
        lemma_text_lt_transitive(a.drop_first(), b.drop_first(), c.drop_first());
    }
}

/// Any two different texts are ordered one way.
pub proof fn lemma_text_lt_total(a: Seq<char>, b: Seq<char>)
    ensures
        a == b || text_lt(a, b) || text_lt(b, a),
    decreases a.len(),
{
    if a.len() == 0 {
        if b.len() == 0 {
            assert(a =~= b);
        }
    } else if b.len() > 0 && a[0] == b[0] {
        lemma_text_lt_total(a.drop_first(), b.drop_first());
        if a.drop_first() == b.drop_first() {
            assert(a =~= seq![a[0]] + a.drop_first());
            assert(b =~= seq![b[0]] + b.drop_first());
        }
    }
}

/// `a` sorts before `b` or equals it.
pub open spec fn text_le(a: Seq<char>, b: Seq<char>) -> bool {
    a == b || text_lt(a, b)
}

/// Each text sorts strictly before the next: sorted, with no repeats.
pub open spec fn strictly_sorted(s: Seq<Seq<char>>) -> bool {
    forall|i: int, j: int| 0 <= i < j < s.len() ==> text_lt(#[trigger] s[i], #[trigger] s[j])
}

/// Each text sorts before the next or equals it.
pub open spec fn sorted(s: Seq<Seq<char>>) -> bool {
    forall|i: int, j: int| 0 <= i < j < s.len() ==> text_le(#[trigger] s[i], #[trigger] s[j])
}

/// Whether `a` sorts strictly before `b`.
pub fn text_less(a: &str, b: &str) -> (r: bool)
    ensures
        r == text_lt(a@, b@),
{
    let n = a.unicode_len();
    let m = b.unicode_len();
    let mut i: usize = 0;
    assert(a@.skip(0) =~= a@);
    assert(b@.skip(0) =~= b@);
    while i < n && i < m
        invariant
            i <= n,
            i <= m,
            n == a@.len(),
            m == b@.len(),
            text_lt(a@, b@) == text_lt(a@.skip(i as int), b@.skip(i as int)),
        decreases n - i,
    {
        let x = a.get_char(i);
        let y = b.get_char(i);
        assert(a@.skip(i as int)[0] == x);
        assert(b@.skip(i as int)[0] == y);
        if (x as u32) < (y as u32) {
            assert((x as int) < (y as int));
            return true;
        }
        if x != y {
            return false;
        }
        assert(a@.skip(i as int).drop_first() =~= a@.skip(i + 1));
        assert(b@.skip(i as int).drop_first() =~= b@.skip(i + 1));
        i = i + 1;
    }
    i < m && i == n
}

/// Inserts `x` into a list kept sorted without repeats; a text already there
/// is not added again.
pub fn insert_sorted_unique(v: &mut Vec<String>, x: String)
    requires
        strictly_sorted(texts(old(v)@)),
    ensures
        strictly_sorted(texts(final(v)@)),
        texts(final(v)@).to_set() == texts(old(v)@).to_set().insert(x@),
{
    let ghost old_texts = texts(v@);
    let mut p: usize = 0;
    loop
        invariant
            p <= v.len(),
            v@ == old(v)@,
            forall|k: int| 0 <= k < p ==> text_lt(#[trigger] texts(v@)[k], x@),
        ensures
            p <= v.len(),
            v@ == old(v)@,
            forall|k: int| 0 <= k < p ==> text_lt(#[trigger] texts(v@)[k], x@),
            p < v.len() ==> !text_lt(texts(v@)[p as int], x@),
        decreases v.len() - p,
    {
        if p >= v.len() {
            break;
        }
        if !text_less(v[p].as_str(), x.as_str()) {
            break;
        }
        p = p + 1;
    }
    if p < v.len() && crate::common::text::str_eq(v[p].as_str(), x.as_str()) {
        assert(texts(v@).to_set() =~= texts(v@).to_set().insert(x@)) by {
            assert(texts(v@)[p as int] == x@);
        }
        return;
    }
    proof {
        if p < v.len() {
            lemma_text_lt_total(texts(v@)[p as int], x@);
        }
    }
    let ghost xv = x@;
    v.insert(p, x);
    proof {
        let s = texts(v@);
        assert(s =~= old_texts.insert(p as int, xv));
        old_texts.insert_ensures(p as int, xv);
        assert forall|i: int, j: int| 0 <= i < j < s.len() implies text_lt(#[trigger] s[i], #[trigger] s[j]) by {
            if j < p {
            } else if j == p {
            } else if i < p {
                assert(s[j] == old_texts[j - 1]);
                if j - 1 > p {
                    lemma_text_lt_transitive(xv, old_texts[p as int], old_texts[j - 1]);
                }
                assert(text_lt(old_texts[i], xv));
                lemma_text_lt_transitive(s[i], xv, s[j]);
            } else if i == p {
                assert(s[j] == old_texts[j - 1]);
                if j - 1 > p {
                    lemma_text_lt_transitive(xv, old_texts[p as int], old_texts[j - 1]);
                }
            } else {
                assert(s[i] == old_texts[i - 1]);
                assert(s[j] == old_texts[j - 1]);
            }
        }
        assert forall|t: Seq<char>| s.contains(t) <==> old_texts.contains(t) || t == xv by {
            if s.contains(t) {
                let k = choose|k: int| 0 <= k < s.len() && s[k] == t;
                if k < p {
                    assert(old_texts[k] == t);
                } else if k > p {
                    assert(old_texts[k - 1] == t);
                }
            }
            if old_texts.contains(t) {
                let k = choose|k: int| 0 <= k < old_texts.len() && old_texts[k] == t;
                if k < p {
                    assert(s[k] == t);
                } else {
                    assert(s[k + 1] == t);
                }
            }
            if t == xv {
                assert(s[p as int] == t);
            }
        }
        assert(s.to_set() =~= old_texts.to_set().insert(xv));
    }
}


/// `text_le` is transitive.
pub proof fn lemma_text_le_transitive(a: Seq<char>, b: Seq<char>, c: Seq<char>)
    requires
        text_le(a, b),
        text_le(b, c),
    ensures
        text_le(a, c),
{
    if a != b && b != c {
        lemma_text_lt_transitive(a, b, c);
    }
}

/// Inserts `x` into a sorted list, before the first text that does not sort
/// before it; repeats are kept.
pub fn insert_sorted(v: &mut Vec<String>, x: String)
    requires
        sorted(texts(old(v)@)),
    ensures
        sorted(texts(final(v)@)),
        texts(final(v)@).to_multiset() == texts(old(v)@).to_multiset().insert(x@),
{
    let ghost old_texts = texts(v@);
    let mut p: usize = 0;
    loop
        invariant
            p <= v.len(),
            v@ == old(v)@,
            forall|k: int| 0 <= k < p ==> text_lt(#[trigger] texts(v@)[k], x@),
        ensures
            p <= v.len(),
            v@ == old(v)@,
            forall|k: int| 0 <= k < p ==> text_lt(#[trigger] texts(v@)[k], x@),
            p < v.len() ==> !text_lt(texts(v@)[p as int], x@),
        decreases v.len() - p,
    {
        if p >= v.len() {
            break;
        }
        if !text_less(v[p].as_str(), x.as_str()) {
            break;
        }
        p = p + 1;
    }
    proof {
        if p < v.len() {
            lemma_text_lt_total(texts(v@)[p as int], x@);
        }
    }
    let ghost xv = x@;
    v.insert(p, x);
    proof {
        let s = texts(v@);
        assert(s =~= old_texts.insert(p as int, xv));
        old_texts.insert_ensures(p as int, xv);
        assert forall|i: int, j: int| 0 <= i < j < s.len() implies text_le(#[trigger] s[i], #[trigger] s[j]) by {
            if j < p {
            } else if j == p {
            } else {
                assert(s[j] == old_texts[j - 1]);
                assert(text_le(xv, old_texts[p as int]));
                if j - 1 > p {
                    lemma_text_le_transitive(xv, old_texts[p as int], old_texts[j - 1]);
                }
                assert(text_le(xv, s[j]));
                if i < p {
                    assert(s[i] == old_texts[i]);
                    lemma_text_le_transitive(s[i], xv, s[j]);
                } else if i > p {
                    assert(s[i] == old_texts[i - 1]);
                }
            }
        }
        vstd::seq_lib::to_multiset_insert(old_texts, p as int, xv);
    }
}

} // verus!
