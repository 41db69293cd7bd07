//! Lists of strings: the two adaptors of `itertools` that the write path
//! needs, with what they compute stated over sequences.
use itertools::Itertools;
use vstd::prelude::*;

verus! {

/// The elements of `first` and `second` in turn, beginning with `first`; when
/// one of them has run out, the rest of the other.
pub open spec fn interleaved<T>(first: Seq<T>, second: Seq<T>) -> Seq<T>
    decreases first.len() + second.len(),
{
    if first.len() == 0 {
        second
    } else {
        seq![first[0]] + interleaved(second, first.drop_first())
    }
}

/// Of two lists of one length, the result holds the pairs in their order: an
/// element of the first, then the element of the second at the same place.
pub proof fn interleaved_pairs<T>(first: Seq<T>, second: Seq<T>)
    requires
        first.len() == second.len(),
    ensures
        interleaved(first, second).len() == 2 * first.len(),
        forall|i: int|
            0 <= i < first.len() ==> #[trigger] interleaved(first, second)[2 * i] == first[i],
        forall|i: int|
            0 <= i < first.len() ==> #[trigger] interleaved(first, second)[2 * i + 1] == second[i],
    decreases first.len(),
{
    if first.len() > 0 {
        let rest_first = first.drop_first();
        let rest_second = second.drop_first();
        interleaved_pairs(rest_first, rest_second);
        let rest = interleaved(rest_first, rest_second);
        assert(interleaved(second, rest_first) =~= seq![second[0]] + rest);
        assert(interleaved(first, second) =~= seq![first[0], second[0]] + rest);
        assert forall|i: int| 0 <= i < first.len() implies #[trigger] interleaved(
            first,
            second,
        )[2 * i] == first[i] by {
            if i > 0 {
                assert(rest[2 * (i - 1)] == rest_first[i - 1]);
            }
        }
        assert forall|i: int| 0 <= i < first.len() implies #[trigger] interleaved(
            first,
            second,
        )[2 * i + 1] == second[i] by {
            if i > 0 {
                assert(rest[2 * (i - 1) + 1] == rest_second[i - 1]);
            }
        }
    }
}

/// `itertools::interleave` on two lists of strings, collected. As the crate
/// documents and implements it, the result alternates between the two lists,
/// beginning with the first, until both have run out.
#[verifier::external_body]
pub(crate) fn interleave_strings(first: &Vec<String>, second: &Vec<String>) -> (mixed: Vec<String>)
    ensures
        mixed.deep_view() == interleaved(first.deep_view(), second.deep_view()),
{
    itertools::interleave(first, second).cloned().collect()
}

/// `Itertools::unique` on a list of strings, and the `count` of what it
/// yields. The adaptor yields each string the first time it occurs and never
/// again, so the count is the number of different strings in the list.
#[verifier::external_body]
pub(crate) fn count_unique(texts: &Vec<String>) -> (count: usize)
    ensures
        count == texts.deep_view().to_set().len(),
{
    texts.iter().unique().count()
}

/// Whether no string occurs twice in the list.
pub fn all_different(texts: &Vec<String>) -> (different: bool)
    ensures
        different == texts.deep_view().no_duplicates(),
{
    let count = count_unique(texts);
    proof {
        let views = texts.deep_view();
        if views.no_duplicates() {
            views.unique_seq_to_set();
        }
        if views.to_set().len() == views.len() {
            views.lemma_no_dup_set_cardinality();
        }
    }
    texts.len() == count
}

/// A copy of the strings of `texts` from `from` up to `to`.
pub(crate) fn copy_range(texts: &Vec<String>, from: usize, to: usize) -> (copy: Vec<String>)
    requires
        from <= to <= texts.len(),
    ensures
        copy.deep_view() == texts.deep_view().subrange(from as int, to as int),
{
    let mut copy: Vec<String> = Vec::new();
    let mut i: usize = from;
    while i < to
        invariant
            from <= i <= to <= texts.len(),
            copy.len() == i - from,
            forall|j: int| 0 <= j < i - from ==> copy[j]@ == texts[from + j]@,
        decreases to - i,
    {
        copy.push(texts[i].clone());
        i += 1;
    }
    assert(copy.deep_view() =~= texts.deep_view().subrange(from as int, to as int));
    copy
}

} // verus!
