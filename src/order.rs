use vstd::prelude::*;
use vstd::seq_lib::*;

use crate::article::Article;
use crate::text::{lemma_lex_asym, lemma_lex_irrefl, lemma_lex_le_trans, lemma_lex_total, lex_lt, str_lt};

verus! {

/// Each article's page name is at or after those of the articles before it.
pub open spec fn sorted_by_filename(s: Seq<Article>) -> bool {
    forall|i: int, j: int| 0 <= i < j < s.len() ==> !lex_lt(#[trigger] s[j].filename@, #[trigger] s[i].filename@)
}

pub open spec fn has_filename(k: Seq<char>) -> spec_fn(Article) -> bool {
    |a: Article| a.filename@ == k
}

/// The articles of `s` whose page name is `k`, in their order in `s`.
pub open spec fn with_filename(s: Seq<Article>, k: Seq<char>) -> Seq<Article> {
    s.filter(has_filename(k))
}

proof fn lemma_filter_single(x: Article, k: Seq<char>)
    ensures
        with_filename(seq![x], k) == (if x.filename@ == k {
            seq![x]
        } else {
            Seq::<Article>::empty()
        }),
{
    let e = Seq::<Article>::empty();
    e.lemma_filter_prepend(x, has_filename(k));
    e.lemma_filter_len(has_filename(k));
    assert(seq![x] + e =~= seq![x]);
    assert(e.filter(has_filename(k)) =~= e);
    if x.filename@ != k {
        assert(e + e =~= e);
    }
}

/// No two articles of `s` share a page name.
pub open spec fn distinct_filenames(s: Seq<Article>) -> bool {
    forall|i: int, j: int| 0 <= i < s.len() && 0 <= j < s.len() && i != j ==> #[trigger] s[i].filename@ != #[trigger] s[j].filename@
}

proof fn lemma_filter_before(front: Seq<Article>, x: Article, k: Seq<char>)
    requires
        forall|i: int| 0 <= i < front.len() ==> lex_lt(#[trigger] front[i].filename@, x.filename@),
    ensures
        with_filename(front, k) + with_filename(seq![x], k) == with_filename(seq![x], k) + with_filename(front, k),
{
    let pred = has_filename(k);
    lemma_filter_single(x, k);
    if x.filename@ == k {
        assert forall|i: int| 0 <= i < front.len() implies !pred(#[trigger] front[i]) by {
            lemma_lex_irrefl(x.filename@);
        }
        front.lemma_all_neg_filter_empty(pred);
        assert(with_filename(front, k) =~= Seq::<Article>::empty());
        assert(with_filename(front, k) + with_filename(seq![x], k) =~= with_filename(seq![x], k));
        assert(with_filename(seq![x], k) + with_filename(front, k) =~= with_filename(seq![x], k));
    } else {
        assert(with_filename(front, k) + with_filename(seq![x], k) =~= with_filename(front, k));
        assert(with_filename(seq![x], k) + with_filename(front, k) =~= with_filename(front, k));
    }
}

/// Sorts articles by page name, in lexicographic order of code points; the
/// sort is stable: articles of one page name keep their order.
pub fn sort_articles(articles: &mut Vec<Article>)
    ensures
        sorted_by_filename(final(articles)@),
        final(articles)@.to_multiset() == old(articles)@.to_multiset(),
        forall|k: Seq<char>| #[trigger] with_filename(final(articles)@, k) == with_filename(old(articles)@, k),
{
    broadcast use group_to_multiset_ensures;

    let ghost orig = articles@;
    let mut out: Vec<Article> = Vec::new();
    assert(orig.skip(orig.len() as int) =~= Seq::<Article>::empty());
    assert(orig.take(orig.len() as int) =~= orig);
    while articles.len() > 0
        invariant
            articles@ == orig.take(articles.len() as int),
            articles.len() <= orig.len(),
            sorted_by_filename(out@),
            out@.to_multiset() == orig.skip(articles.len() as int).to_multiset(),
            forall|k: Seq<char>| #[trigger] with_filename(out@, k) == with_filename(orig.skip(articles.len() as int), k),
        decreases articles.len(),
    {
        let ghost before = out@;
        let x = articles.pop().unwrap();
        let ghost n = articles.len() as int;
        assert(articles@ =~= orig.take(n));
        assert(orig.skip(n) =~= seq![x] + orig.skip(n + 1));
        let mut p: usize = 0;
        while p < out.len() && str_lt(out[p].filename.as_str(), x.filename.as_str())
            invariant
                out@ == before,
                p <= out.len(),
                forall|i: int| 0 <= i < p ==> lex_lt(#[trigger] out@[i].filename@, x.filename@),
            decreases out.len() - p,
        {
            p = p + 1;
        }
        let ghost front = before.subrange(0, p as int);
        let ghost back = before.subrange(p as int, before.len() as int);
        out.insert(p, x);
        proof {
            assert(out@ =~= front + seq![x] + back);
            assert(before =~= front + back);
            lemma_multiset_commutative(front + seq![x], back);
            lemma_multiset_commutative(front, seq![x]);
            lemma_multiset_commutative(front, back);
            lemma_multiset_commutative(seq![x], orig.skip(n + 1));
            assert(out@.to_multiset() =~= orig.skip(n).to_multiset());
            assert forall|k: Seq<char>| #[trigger] with_filename(out@, k) == with_filename(orig.skip(n), k) by {
                let pred = has_filename(k);
                Seq::filter_distributes_over_add(front + seq![x], back, pred);
                Seq::filter_distributes_over_add(front, seq![x], pred);
                Seq::filter_distributes_over_add(front, back, pred);
                Seq::filter_distributes_over_add(seq![x], orig.skip(n + 1), pred);
                lemma_filter_before(front, x, k);
                assert(with_filename(before, k) == with_filename(orig.skip(n + 1), k));
                let fx = with_filename(seq![x], k);
                let ff = with_filename(front, k);
                let fb = with_filename(back, k);
                assert(with_filename(out@, k) == ff + fx + fb);
                assert(ff + fx + fb =~= fx + (ff + fb));
                assert(with_filename(before, k) == ff + fb);
                assert(with_filename(orig.skip(n), k) == fx + with_filename(orig.skip(n + 1), k));
            }
            assert forall|i: int, j: int| 0 <= i < j < out@.len() implies !lex_lt(#[trigger] out@[j].filename@, #[trigger] out@[i].filename@) by {
                if j < p {
                    assert(out@[i] == before[i] && out@[j] == before[j]);
                } else if j == p {
                    assert(out@[i] == before[i]);
                    lemma_lex_asym(before[i].filename@, x.filename@);
                } else if i > p {
                    assert(out@[i] == before[i - 1] && out@[j] == before[j - 1]);
                } else if i == p {
                    assert(out@[j] == before[j - 1]);
                    assert(!lex_lt(before[p as int].filename@, x.filename@));
                    if j - 1 > p {
                        lemma_lex_le_trans(x.filename@, before[p as int].filename@, before[j - 1].filename@);
                    }
                } else {
                    assert(out@[i] == before[i] && out@[j] == before[j - 1]);
                    assert(!lex_lt(before[p as int].filename@, x.filename@));
                    lemma_lex_asym(before[i].filename@, x.filename@);
                    if j - 1 > p {
                        lemma_lex_le_trans(x.filename@, before[p as int].filename@, before[j - 1].filename@);
                    }
                    lemma_lex_le_trans(before[i].filename@, x.filename@, before[j - 1].filename@);
                }
            }
        }
    }
    assert(orig.skip(0) =~= orig);
    *articles = out;
}

/// Sorting decides the order alone: two sorted collections that hold the same
/// articles, with distinct page names, are equal, whatever order they were
/// listed in before.
pub proof fn lemma_sorted_unique(s1: Seq<Article>, s2: Seq<Article>)
    requires
        sorted_by_filename(s1),
        sorted_by_filename(s2),
        s1.to_multiset() == s2.to_multiset(),
        distinct_filenames(s1),
    ensures
        s1 == s2,
    decreases s1.len(),
{
    broadcast use group_to_multiset_ensures;

    assert(s1.to_multiset().len() == s1.len());
    assert(s2.to_multiset().len() == s2.len());
    if s1.len() == 0 {
        assert(s2.len() == 0);
        assert(s1 =~= s2);
    } else {
        assert(s2.len() == s1.len());
        assert(s2.to_multiset().count(s1[0]) > 0);
        assert(s1.to_multiset().count(s2[0]) > 0);
        let i = choose|i: int| 0 <= i < s1.len() && s1[i] == s2[0];
        let j = choose|j: int| 0 <= j < s2.len() && s2[j] == s1[0];
        if i != 0 {
            assert(!lex_lt(s1[i].filename@, s1[0].filename@));
            if j != 0 {
                assert(!lex_lt(s2[j].filename@, s2[0].filename@));
            }
            lemma_lex_total(s1[0].filename@, s1[i].filename@);
            assert(false);
        }
        assert(s1[0] == s2[0]);
        let t1 = s1.drop_first();
        let t2 = s2.drop_first();
        assert(s1.remove(0) =~= t1);
        assert(s2.remove(0) =~= t2);
        assert(sorted_by_filename(t1)) by {
            assert forall|a: int, b: int| 0 <= a < b < t1.len() implies !lex_lt(#[trigger] t1[b].filename@, #[trigger] t1[a].filename@) by {
                assert(t1[a] == s1[a + 1] && t1[b] == s1[b + 1]);
            }
        }
        assert(sorted_by_filename(t2)) by {
            assert forall|a: int, b: int| 0 <= a < b < t2.len() implies !lex_lt(#[trigger] t2[b].filename@, #[trigger] t2[a].filename@) by {
                assert(t2[a] == s2[a + 1] && t2[b] == s2[b + 1]);
            }
        }
        assert(distinct_filenames(t1)) by {
            assert forall|a: int, b: int| 0 <= a < t1.len() && 0 <= b < t1.len() && a != b implies #[trigger] t1[a].filename@ != #[trigger] t1[b].filename@ by {
                assert(t1[a] == s1[a + 1] && t1[b] == s1[b + 1]);
            }
        }
        lemma_sorted_unique(t1, t2);
        assert forall|a: int| 0 <= a < s1.len() implies s1[a] == s2[a] by {
            if a > 0 {
                assert(s1[a] == t1[a - 1] && s2[a] == t2[a - 1]);
            }
        }
        assert(s1 =~= s2);
    }
}

} // verus!
