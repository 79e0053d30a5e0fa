//! Ordering by title: a stable insertion sort for anything that carries a
//! title, and the uniqueness of a sorted arrangement.
use vstd::prelude::*;
use vstd::multiset::Multiset;
use vstd::seq_lib::lemma_multiset_commutative;
use crate::text::{lemma_text_le_total, lemma_text_le_transitive, text_le, text_le_exec};

verus! {

broadcast use vstd::seq_lib::group_to_multiset_ensures;

/// Something displayed under a title.
pub trait Titled {
    spec fn title_view(&self) -> Seq<char>;

    fn title_str(&self) -> (r: &str)
        ensures
            r@ == self.title_view(),
    ;
}

impl Titled for String {
    open spec fn title_view(&self) -> Seq<char> {
        self@
    }

    fn title_str(&self) -> (r: &str) {
        self.as_str()
    }
}

/// Titles never decrease along `s`.
pub open spec fn sorted_by_title<T: Titled>(s: Seq<T>) -> bool {
    forall|i: int, j: int|
        0 <= i < j < s.len() ==> text_le(#[trigger] s[i].title_view(), #[trigger] s[j].title_view())
}

/// Sorts by title, ascending; entries with equal titles keep their order.
pub fn sort_by_title<T: Titled>(v: Vec<T>) -> (r: Vec<T>)
    ensures
        sorted_by_title(r@),
        r@.to_multiset() == v@.to_multiset(),
{
    let mut src = v;
    let ghost whole = src@;
    let mut r: Vec<T> = Vec::new();
    while src.len() > 0
        invariant
            sorted_by_title(r@),
            r@.to_multiset().add(src@.to_multiset()) == whole.to_multiset(),
        decreases src@.len(),
    {
        let ghost before = src@;
        let x = src.remove(0);
        proof {
            assert(before =~= seq![x] + src@);
            lemma_multiset_commutative(seq![x], src@);
        }
        let mut p: usize = r.len();
        while p > 0 && !text_le_exec(r[p - 1].title_str(), x.title_str())
            invariant
                p <= r@.len(),
                sorted_by_title(r@),
                forall|j: int| p <= j < r@.len() ==> !text_le(#[trigger] r@[j].title_view(), x.title_view()),
            decreases p,
        {
            p -= 1;
        }
        proof {
            let s = r@;
            assert forall|j: int| 0 <= j < p implies text_le(#[trigger] s[j].title_view(), x.title_view()) by {
                if j < p - 1 {
                    lemma_text_le_transitive(s[j].title_view(), s[p - 1].title_view(), x.title_view());
                }
            }
            assert forall|j: int| p <= j < s.len() implies text_le(x.title_view(), #[trigger] s[j].title_view()) by {
                lemma_text_le_total(x.title_view(), s[j].title_view());
            }
            let t = s.insert(p as int, x);
            assert forall|i: int, j: int| 0 <= i < j < t.len() implies text_le(
                #[trigger] t[i].title_view(),
                #[trigger] t[j].title_view(),
            ) by {
                if j < p {
                } else if j == p {
                } else if i < p {
                    lemma_text_le_transitive(s[i].title_view(), x.title_view(), s[j - 1].title_view());
                } else if i == p {
                } else {
                }
            }
            assert(t =~= s.subrange(0, p as int) + seq![x] + s.subrange(p as int, s.len() as int));
            assert(s =~= s.subrange(0, p as int) + s.subrange(p as int, s.len() as int));
            lemma_multiset_commutative(s.subrange(0, p as int) + seq![x], s.subrange(p as int, s.len() as int));
            lemma_multiset_commutative(s.subrange(0, p as int), seq![x]);
            lemma_multiset_commutative(s.subrange(0, p as int), s.subrange(p as int, s.len() as int));
        }
        r.insert(p, x);
    }
    proof {
        assert(src@.to_multiset() =~= Multiset::empty());
        assert(r@.to_multiset().add(Multiset::empty()) =~= r@.to_multiset());
    }
    r
}

/// Mapping two sequences that hold the same elements gives two sequences
/// that hold the same elements.
pub proof fn lemma_map_multiset<A, B>(a: Seq<A>, b: Seq<A>, f: spec_fn(A) -> B)
    requires
        a.to_multiset() == b.to_multiset(),
    ensures
        a.map_values(f).to_multiset() == b.map_values(f).to_multiset(),
    decreases a.len(),
{
    a.to_multiset_ensures();
    b.to_multiset_ensures();
    if a.len() == 0 {
        assert(b.len() == 0);
        assert(a.map_values(f) =~= b.map_values(f));
    } else {
        assert(a.to_multiset().count(a[0]) > 0);
        assert(b.contains(a[0]));
        let j = choose|j: int| 0 <= j < b.len() && b[j] == a[0];
        let a1 = a.drop_first();
        let b1 = b.remove(j);
        assert(a.remove(0) =~= a1);
        assert(a1.to_multiset() == b1.to_multiset());
        lemma_map_multiset(a1, b1, f);
        let fa = a.map_values(f);
        let fb = b.map_values(f);
        fa.to_multiset_ensures();
        fb.to_multiset_ensures();
        assert(fa.remove(0) =~= a1.map_values(f));
        assert(fb.remove(j) =~= b1.map_values(f));
        assert(fa.to_multiset().count(fa[0]) > 0);
        assert(fb.to_multiset().count(fb[j]) > 0);
        assert(fa.to_multiset() =~= fa.to_multiset().remove(fa[0]).insert(fa[0]));
        assert(fb.to_multiset() =~= fb.to_multiset().remove(fb[j]).insert(fb[j]));
    }
}

} // verus!
