//! Lexicographic order on texts and sorting of text lists.
use vstd::prelude::*;
use vstd::string::*;

verus! {

/// Lexicographic order by character code: `a` is not after `b`.
pub open spec fn text_le(a: Seq<char>, b: Seq<char>) -> bool
    decreases a.len(),
{
    if a.len() == 0 {
        true
    } else if b.len() == 0 {
        false
    } else if a[0] != b[0] {
        a[0] < b[0]
    } else {
        text_le(a.drop_first(), b.drop_first())
    }
}

/// Every text is not after every later one.
pub open spec fn texts_sorted(s: Seq<Seq<char>>) -> bool {
    forall|i: int, j: int| 0 <= i < j < s.len() ==> text_le(#[trigger] s[i], #[trigger] s[j])
}

/// The texts of a list of strings.
pub open spec fn texts(v: Seq<String>) -> Seq<Seq<char>> {
    v.map_values(|s: String| s@)
}

pub proof fn lemma_text_le_total(a: Seq<char>, b: Seq<char>)
    ensures
        text_le(a, b) || text_le(b, a),
    decreases a.len(),
{
    if a.len() > 0 && b.len() > 0 && a[0] == b[0] {
        lemma_text_le_total(a.drop_first(), b.drop_first());
    }
}

pub proof fn lemma_text_le_transitive(a: Seq<char>, b: Seq<char>, c: Seq<char>)
    requires
        text_le(a, b),
        text_le(b, c),
    ensures
        text_le(a, c),
    decreases a.len(),
{
    if a.len() > 0 && b.len() > 0 && c.len() > 0 && a[0] == b[0] && b[0] == c[0] {
        lemma_text_le_transitive(a.drop_first(), b.drop_first(), c.drop_first());
    }
}

/// Whether `a` is not after `b`.
pub fn text_le_exec(a: &str, b: &str) -> (r: bool)
    ensures
        r == text_le(a@, b@),
{
    let n = a.unicode_len();
    let m = b.unicode_len();
    let mut i: usize = 0;
    assert(a@.skip(0) =~= a@);
    assert(b@.skip(0) =~= b@);
    while i < n && i < m && a.get_char(i) == b.get_char(i)
        invariant
            i <= n,
            i <= m,
            n == a@.len(),
            m == b@.len(),
            text_le(a@, b@) == text_le(a@.skip(i as int), b@.skip(i as int)),
        decreases n - i,
    {
        proof {
            assert(a@.skip(i as int).drop_first() =~= a@.skip(i + 1));
            assert(b@.skip(i as int).drop_first() =~= b@.skip(i + 1));
        }
        i = i + 1;
    }
    if i == n {
        true
    } else if i == m {
        false
    } else {
        a.get_char(i) < b.get_char(i)
    }
}

/// Sorts texts into lexicographic order by character code (for UTF-8
/// strings the same order as comparing their bytes).
pub fn sort_texts(v: Vec<String>) -> (r: Vec<String>)
    ensures
        texts_sorted(texts(r@)),
        texts(r@).to_multiset() == texts(v@).to_multiset(),
{
    let mut r: Vec<String> = Vec::new();
    let mut pending = v;
    proof {
        broadcast use vstd::multiset::group_multiset_axioms;
        broadcast use vstd::seq_lib::group_to_multiset_ensures;
        assert(texts(r@) =~= Seq::<Seq<char>>::empty());
        assert(texts(r@).to_multiset() =~= vstd::multiset::Multiset::empty());
        assert(texts(r@).to_multiset().add(texts(pending@).to_multiset()) =~= texts(pending@).to_multiset());
    }
    let ghost all = texts(pending@).to_multiset();
    while pending.len() > 0
        invariant
            texts_sorted(texts(r@)),
            texts(r@).to_multiset().add(texts(pending@).to_multiset()) == all,
        decreases pending.len(),
    {
        let ghost before_p = pending@;
        let ghost before_r = r@;
        let s = pending.pop().unwrap();
        let mut k: usize = 0;
        while k < r.len() && text_le_exec(r[k].as_str(), s.as_str())
            invariant
                k <= r@.len(),
                r@ == before_r,
                texts_sorted(texts(r@)),
                forall|j: int| 0 <= j < k ==> text_le(#[trigger] r@[j]@, s@),
            decreases r.len() - k,
        {
            k = k + 1;
        }
        proof {
            if k < r@.len() {
                lemma_text_le_total(r@[k as int]@, s@);
            }
        }
        r.insert(k, s);
        proof {
            assert(texts(r@) =~= texts(before_r).insert(k as int, s@));
            assert forall|a: int, b: int| 0 <= a < b < texts(r@).len() implies text_le(#[trigger] texts(r@)[a], #[trigger] texts(r@)[b]) by {
                if a < k && b == k {
                } else if a < k && b > k {
                    assert(text_le(texts(before_r)[a], texts(before_r)[b - 1]));
                } else if a == k && b > k {
                    if b - 1 > k {
                        assert(text_le(texts(before_r)[k as int], texts(before_r)[b - 1]));
                        lemma_text_le_transitive(s@, texts(before_r)[k as int], texts(before_r)[b - 1]);
                    }
                } else if a > k {
                    assert(text_le(texts(before_r)[a - 1], texts(before_r)[b - 1]));
                } else {
                    assert(text_le(texts(before_r)[a], texts(before_r)[b]));
                }
            }
            vstd::seq_lib::to_multiset_insert(texts(before_r), k as int, s@);
            assert(before_p =~= pending@.push(s));
            assert(texts(before_p) =~= texts(pending@).push(s@));
            vstd::seq_lib::to_multiset_build(texts(pending@), s@);
            broadcast use vstd::multiset::group_multiset_axioms;
            assert(texts(r@).to_multiset().add(texts(pending@).to_multiset()) =~= all);
        }
    }
    proof {
        assert(texts(pending@) =~= Seq::<Seq<char>>::empty());
        broadcast use vstd::multiset::group_multiset_axioms;
        broadcast use vstd::seq_lib::group_to_multiset_ensures;
        assert(texts(pending@).to_multiset() =~= vstd::multiset::Multiset::empty());
        assert(texts(r@).to_multiset() =~= all);
    }
    r
}

} // verus!
