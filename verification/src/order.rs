//! Sorting by name: every listing of the library (skills, prompt patches,
//! tools, MCP servers) is ordered by its name string.
use vstd::prelude::*;
use vstd::multiset::Multiset;

use crate::text::{
    lemma_seq_lt_asymmetric, lemma_seq_lt_irreflexive, lemma_seq_lt_total, lemma_seq_lt_transitive, seq_le, seq_lt,
    str_lt,
};

verus! {

broadcast use vstd::seq_lib::group_to_multiset_ensures;

/// Values ordered by a name.
pub trait Named {
    /// The name the value is sorted by.
    spec fn name_view(&self) -> Seq<char>;

    /// The name, as a string slice.
    fn name_str(&self) -> (r: &str)
        ensures
            r@ == self.name_view(),
    ;
}

impl Named for String {
    open spec fn name_view(&self) -> Seq<char> {
        self@
    }

    fn name_str(&self) -> (r: &str) {
        self.as_str()
    }
}

/// `s` is sorted by name (non-decreasing).
pub open spec fn sorted_by_name<T: Named>(s: Seq<T>) -> bool {
    forall|i: int, j: int|
        0 <= i < j < s.len() ==> seq_le(#[trigger] s[i].name_view(), #[trigger] s[j].name_view())
}

pub proof fn lemma_seq_le_transitive(a: Seq<char>, b: Seq<char>, c: Seq<char>)
    requires
        seq_le(a, b),
        seq_le(b, c),
    ensures
        seq_le(a, c),
{
    lemma_seq_lt_total(a, b);
    lemma_seq_lt_total(b, c);
    if seq_lt(c, a) {
        if seq_lt(a, b) {
            lemma_seq_lt_transitive(c, a, b);
        }
    }
}

pub proof fn lemma_seq_lt_le(a: Seq<char>, b: Seq<char>, c: Seq<char>)
    requires
        seq_lt(a, b),
        seq_le(b, c),
    ensures
        seq_lt(a, c),
{
    lemma_seq_lt_total(b, c);
    if seq_lt(b, c) {
        lemma_seq_lt_transitive(a, b, c);
    }
}

/// Insert `x` into the sorted `out`, after every element whose name is not
/// greater than `x`'s.
pub fn insert_sorted<T: Named>(out: &mut Vec<T>, x: T)
    requires
        sorted_by_name(old(out)@),
    ensures
        sorted_by_name(final(out)@),
        final(out)@.to_multiset() == old(out)@.to_multiset().insert(x),
        final(out)@.len() == old(out)@.len() + 1,
{
    let mut p: usize = 0;
    while p < out.len() && !str_lt(x.name_str(), out[p].name_str())
        invariant
            0 <= p <= out@.len(),
            forall|k: int| 0 <= k < p ==> seq_le(#[trigger] out@[k].name_view(), x.name_view()),
        decreases out.len() - p,
    {
        proof {
            lemma_seq_lt_total(x.name_view(), out@[p as int].name_view());
            lemma_seq_lt_asymmetric(x.name_view(), out@[p as int].name_view());
        }
        p += 1;
    }
    let ghost old_s = out@;
    out.insert(p, x);
    proof {
        let s = out@;
        assert(s == old_s.insert(p as int, x));
        assert forall|i: int, j: int| 0 <= i < j < s.len() implies seq_le(
            #[trigger] s[i].name_view(),
            #[trigger] s[j].name_view(),
        ) by {
            if j < p {
                assert(s[i] == old_s[i] && s[j] == old_s[j]);
            } else if j == p {
                assert(s[i] == old_s[i]);
            } else if i > p {
                assert(s[i] == old_s[i - 1] && s[j] == old_s[j - 1]);
            } else if i == p {
                // x < old_s[p] <= old_s[j - 1]
                assert(s[j] == old_s[j - 1]);
                if j - 1 > p {
                    assert(seq_le(old_s[p as int].name_view(), old_s[j - 1].name_view()));
                } else {
                    lemma_seq_lt_irreflexive(old_s[p as int].name_view());
                }
                lemma_seq_lt_le(
                    x.name_view(),
                    old_s[p as int].name_view(),
                    old_s[j - 1].name_view(),
                );
                lemma_seq_lt_asymmetric(x.name_view(), old_s[j - 1].name_view());
            } else {
                // i < p < j
                assert(s[i] == old_s[i] && s[j] == old_s[j - 1]);
                assert(seq_le(old_s[i].name_view(), x.name_view()));
                if j - 1 > p {
                    assert(seq_le(old_s[p as int].name_view(), old_s[j - 1].name_view()));
                } else {
                    lemma_seq_lt_irreflexive(old_s[p as int].name_view());
                }
                lemma_seq_lt_le(
                    x.name_view(),
                    old_s[p as int].name_view(),
                    old_s[j - 1].name_view(),
                );
                lemma_seq_lt_asymmetric(x.name_view(), old_s[j - 1].name_view());
                lemma_seq_le_transitive(
                    old_s[i].name_view(),
                    x.name_view(),
                    old_s[j - 1].name_view(),
                );
            }
        }
    }
}

/// The elements of `v` ordered by name (a stable insertion sort).
pub fn sort_by_name<T: Named>(v: Vec<T>) -> (r: Vec<T>)
    ensures
        sorted_by_name(r@),
        r@.to_multiset() == v@.to_multiset(),
        r@.len() == v@.len(),
{
    let mut rest = v;
    let ghost orig = rest@;
    let mut out: Vec<T> = Vec::new();
    while rest.len() > 0
        invariant
            sorted_by_name(out@),
            out@.to_multiset().add(rest@.to_multiset()) == orig.to_multiset(),
            out@.len() + rest@.len() == orig.len(),
        decreases rest.len(),
    {
        let ghost before = rest@;
        let x = rest.remove(0);
        proof {
            assert(before.remove(0).to_multiset() == before.to_multiset().remove(before[0]));
            assert(before.to_multiset().contains(before[0]));
        }
        insert_sorted(&mut out, x);
        proof {
            assert(out@.to_multiset().add(rest@.to_multiset()) =~= orig.to_multiset());
        }
    }
    proof {
        assert(rest@.to_multiset() =~= Multiset::empty());
        assert(out@.to_multiset().add(rest@.to_multiset()) =~= out@.to_multiset());
    }
    out
}

} // verus!
