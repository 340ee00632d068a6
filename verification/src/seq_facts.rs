//! Sequence and multiset facts behind the partition-closure proofs.
//!
//! The transaction moves patches between partitions by filtering; these
//! lemmas connect filtering to the multiset of patch names, which no
//! pop or push operation may change.

use vstd::prelude::*;
use vstd::seq_lib::lemma_multiset_commutative;
use vstd::set_lib::lemma_len_subset;

use crate::patch::{Patch, name_seq};

verus! {

/// The complement of a predicate.
pub open spec fn not_pred<A>(pred: spec_fn(A) -> bool) -> spec_fn(A) -> bool {
    |x: A| !pred(x)
}

/// Filtering a sequence extended by one element.
pub proof fn lemma_filter_push<A>(s: Seq<A>, x: A, pred: spec_fn(A) -> bool)
    ensures
        s.push(x).filter(pred) == (if pred(x) {
            s.filter(pred).push(x)
        } else {
            s.filter(pred)
        }),
{
    reveal(Seq::filter);
    assert(s.push(x).drop_last() =~= s);
    assert(s.push(x).last() == x);
}

/// A filter whose predicate holds everywhere keeps the whole sequence.
pub proof fn lemma_filter_all<A>(s: Seq<A>, pred: spec_fn(A) -> bool)
    requires
        forall|i: int| 0 <= i < s.len() ==> pred(#[trigger] s[i]),
    ensures
        s.filter(pred) =~= s,
    decreases s.len(),
{
    reveal(Seq::filter);
    if s.len() > 0 {
        let d = s.drop_last();
        assert(forall|i: int| 0 <= i < d.len() ==> pred(#[trigger] d[i])) by {
            assert(forall|i: int| 0 <= i < d.len() ==> d[i] == s[i]);
        }
        lemma_filter_all(d, pred);
        assert(pred(s.last()));
    }
}

/// Names of a sequence extended by one patch.
pub proof fn lemma_name_seq_push(s: Seq<Patch>, x: Patch)
    ensures
        name_seq(s.push(x)) =~= name_seq(s).push(x.name@),
{
}

/// Names distribute over concatenation.
pub proof fn lemma_name_seq_add(a: Seq<Patch>, b: Seq<Patch>)
    ensures
        name_seq(a + b) =~= name_seq(a) + name_seq(b),
{
}

/// A filter partition splits the multiset of names: the names of the
/// patches a predicate selects and of those it rejects together are
/// exactly the names of the whole sequence.
pub proof fn lemma_filter_partition_names(s: Seq<Patch>, pred: spec_fn(Patch) -> bool)
    ensures
        name_seq(s.filter(pred)).to_multiset().add(
            name_seq(s.filter(not_pred(pred))).to_multiset(),
        ) =~= name_seq(s).to_multiset(),
    decreases s.len(),
{
    broadcast use vstd::seq_lib::group_to_multiset_ensures;
    broadcast use vstd::multiset::group_multiset_axioms;

    reveal(Seq::filter);
    let npred = not_pred(pred);
    if s.len() == 0 {
        assert(name_seq(s.filter(pred)) =~= Seq::<Seq<char>>::empty());
        assert(name_seq(s.filter(npred)) =~= Seq::<Seq<char>>::empty());
        assert(name_seq(s) =~= Seq::<Seq<char>>::empty());
    } else {
        let d = s.drop_last();
        let l = s.last();
        lemma_filter_partition_names(d, pred);
        assert(s =~= d.push(l));
        assert(s.filter(pred) == (if pred(l) {
            d.filter(pred).push(l)
        } else {
            d.filter(pred)
        }));
        assert(s.filter(npred) == (if npred(l) {
            d.filter(npred).push(l)
        } else {
            d.filter(npred)
        }));
        lemma_name_seq_push(d, l);
        lemma_name_seq_push(d.filter(pred), l);
        lemma_name_seq_push(d.filter(npred), l);
        assert(name_seq(s).to_multiset() =~= name_seq(d).to_multiset().insert(l.name@));
        if pred(l) {
            assert(name_seq(s.filter(pred)).to_multiset() =~= name_seq(
                d.filter(pred),
            ).to_multiset().insert(l.name@));
        } else {
            assert(name_seq(s.filter(npred)).to_multiset() =~= name_seq(
                d.filter(npred),
            ).to_multiset().insert(l.name@));
        }
    }
}

/// Two duplicate-free sequences with the same members have equal multisets.
pub proof fn lemma_no_dup_same_membership_multiset<A>(a: Seq<A>, b: Seq<A>)
    requires
        a.no_duplicates(),
        b.no_duplicates(),
        forall|x: A| a.contains(x) <==> b.contains(x),
    ensures
        a.to_multiset() =~= b.to_multiset(),
{
    broadcast use vstd::seq_lib::group_to_multiset_ensures;

    a.lemma_multiset_has_no_duplicates();
    b.lemma_multiset_has_no_duplicates();
    assert forall|x: A| a.to_multiset().count(x) == b.to_multiset().count(x) by {
        if a.contains(x) {
            assert(a.to_multiset().contains(x) && b.to_multiset().contains(x));
        } else {
            assert(a.to_multiset().count(x) == 0 && b.to_multiset().count(x) == 0);
        }
    }
}

/// A duplicate-free sequence is no longer than any sequence that contains
/// all of its elements.
pub proof fn lemma_no_dup_subset_len<A>(a: Seq<A>, b: Seq<A>)
    requires
        a.no_duplicates(),
        forall|x: A| a.contains(x) ==> b.contains(x),
    ensures
        a.len() <= b.len(),
{
    broadcast use vstd::set::group_set_axioms;
    broadcast use vstd::seq_lib::seq_to_set_is_finite;

    a.unique_seq_to_set();
    b.lemma_cardinality_of_set();
    assert(a.to_set().subset_of(b.to_set()));
    lemma_len_subset(a.to_set(), b.to_set());
}

/// A multiset equality transports freedom from duplicates between name
/// sequences.
pub proof fn lemma_no_dup_from_multiset<A>(a: Seq<A>, b: Seq<A>)
    requires
        a.no_duplicates(),
        a.to_multiset() == b.to_multiset(),
    ensures
        b.no_duplicates(),
{
    a.lemma_multiset_has_no_duplicates();
    b.lemma_multiset_has_no_duplicates_conv();
}

/// The names of all patches, split at the partition boundary and around a
/// filter: used to rebuild a stack's name multiset from its pieces.
pub proof fn lemma_multiset_of_three(a: Seq<Patch>, b: Seq<Patch>, c: Seq<Patch>)
    ensures
        name_seq(a + b + c).to_multiset() =~= name_seq(a).to_multiset().add(
            name_seq(b).to_multiset(),
        ).add(name_seq(c).to_multiset()),
{
    lemma_name_seq_add(a + b, c);
    lemma_name_seq_add(a, b);
    lemma_multiset_commutative(name_seq(a + b), name_seq(c));
    lemma_multiset_commutative(name_seq(a), name_seq(b));
    assert(name_seq(a + b) =~= name_seq(a) + name_seq(b));
}

} // verus!
