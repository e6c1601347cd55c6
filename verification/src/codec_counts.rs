//! What the counts of first parts of names say of the names.
use crate::codec_registry::{component_of, count_with, part_counts, with_part};
use crate::gguf::TensorView;
use crate::text::{text_le, text_order_is_total};
use vstd::prelude::*;

verus! {

/// The count that is listed for a part; none is listed for a part that is missing.
pub open spec fn listed_for(list: Seq<(Seq<char>, nat)>, part: Seq<char>) -> nat
    decreases list.len(),
{
    if list.len() == 0 {
        0
    } else if list.last().0 == part {
        list.last().1
    } else {
        listed_for(list.drop_last(), part)
    }
}

/// All counts together.
pub open spec fn all_counts(list: Seq<(Seq<char>, nat)>) -> nat
    decreases list.len(),
{
    if list.len() == 0 {
        0
    } else {
        all_counts(list.drop_last()) + list.last().1
    }
}

/// Whether the parts are listed in order, each once and with a count.
pub open spec fn is_count_list(list: Seq<(Seq<char>, nat)>) -> bool {
    &&& forall|i: int, j: int|
        0 <= i < j < list.len() ==> text_le(#[trigger] list[i].0, #[trigger] list[j].0)
            && list[i].0 != list[j].0
    &&& forall|i: int| 0 <= i < list.len() ==> (#[trigger] list[i]).1 > 0
}

proof fn lemma_one_more(list: Seq<(Seq<char>, nat)>, part: Seq<char>)
    requires
        is_count_list(list),
    ensures
        is_count_list(with_part(list, part)),
        all_counts(with_part(list, part)) == all_counts(list) + 1,
        forall|p: Seq<char>| #[trigger]
            listed_for(with_part(list, part), p) == listed_for(list, p) + (if p == part {
                1nat
            } else {
                0nat
            }),
        forall|k: int|
            0 <= k < with_part(list, part).len() ==> (#[trigger] with_part(list, part)[k]).0 == part
                || exists|i: int| 0 <= i < list.len() && #[trigger] list[i].0 == with_part(
                list,
                part,
            )[k].0,
    decreases list.len(),
{
    let more = with_part(list, part);
    if list.len() == 0 {
        assert(more.drop_last() =~= Seq::empty());
        assert forall|p: Seq<char>| #[trigger] listed_for(more, p) == listed_for(list, p) + (if p
            == part {
            1nat
        } else {
            0nat
        }) by {
            assert(listed_for(more.drop_last(), p) == 0);
        }
        assert(all_counts(more.drop_last()) == 0);
    } else {
        let front = list.drop_last();
        assert(is_count_list(front)) by {
            assert forall|i: int, j: int| 0 <= i < j < front.len() implies text_le(
                #[trigger] front[i].0,
                #[trigger] front[j].0,
            ) && front[i].0 != front[j].0 by {
                assert(front[i] == list[i] && front[j] == list[j]);
            }
        }
        if list.last().0 == part {
            assert(more.drop_last() =~= front);
            assert forall|p: Seq<char>| #[trigger] listed_for(more, p) == listed_for(list, p) + (if p
                == part {
                1nat
            } else {
                0nat
            }) by {}
        } else if text_le(list.last().0, part) {
            assert(more.drop_last() =~= list);
            lemma_missing(list, part);
            assert forall|i: int, j: int| 0 <= i < j < more.len() implies text_le(
                #[trigger] more[i].0,
                #[trigger] more[j].0,
            ) && more[i].0 != more[j].0 by {
                text_order_is_total(more[i].0, list.last().0, part);
                text_order_is_total(list.last().0, part, part);
                if j == list.len() && i < list.len() - 1 {
                    assert(text_le(list[i].0, list[list.len() - 1].0));
                }
            }
            assert forall|p: Seq<char>| #[trigger] listed_for(more, p) == listed_for(list, p) + (if p
                == part {
                1nat
            } else {
                0nat
            }) by {}
        } else {
            lemma_one_more(front, part);
            let before = with_part(front, part);
            assert(more.drop_last() =~= before);
            text_order_is_total(list.last().0, part, part);
            assert forall|i: int, j: int| 0 <= i < j < more.len() implies text_le(
                #[trigger] more[i].0,
                #[trigger] more[j].0,
            ) && more[i].0 != more[j].0 by {
                if j < before.len() {
                    assert(more[i] == before[i] && more[j] == before[j]);
                } else {
                    assert(more[i] == before[i]);
                    if before[i].0 != part {
                        let k = choose|k: int|
                            0 <= k < front.len() && #[trigger] front[k].0 == before[i].0;
                        assert(list[k].0 == before[i].0);
                        assert(text_le(list[k].0, list[list.len() - 1].0));
                    }
                }
            }
            assert forall|k: int| 0 <= k < more.len() implies (#[trigger] more[k]).0 == part || exists|
                i: int,
            | 0 <= i < list.len() && #[trigger] list[i].0 == more[k].0 by {
                if k < before.len() {
                    assert(more[k] == before[k]);
                    if before[k].0 != part {
                        let i = choose|i: int|
                            0 <= i < front.len() && #[trigger] front[i].0 == before[k].0;
                        assert(list[i].0 == more[k].0);
                    }
                } else {
                    assert(list[list.len() - 1].0 == more[k].0);
                }
            }
            assert forall|p: Seq<char>| #[trigger] listed_for(more, p) == listed_for(list, p) + (if p
                == part {
                1nat
            } else {
                0nat
            }) by {
                assert(listed_for(before, p) == listed_for(front, p) + (if p == part {
                    1nat
                } else {
                    0nat
                }));
            }
        }
    }
}

/// A part behind all that are listed is not listed.
proof fn lemma_missing(list: Seq<(Seq<char>, nat)>, part: Seq<char>)
    requires
        is_count_list(list),
        list.len() > 0 ==> text_le(list.last().0, part) && list.last().0 != part,
    ensures
        listed_for(list, part) == 0,
    decreases list.len(),
{
    if list.len() > 0 {
        let front = list.drop_last();
        if front.len() > 0 {
            let n = list.len() - 1;
            assert(text_le(list[n - 1].0, list[n].0) && list[n - 1].0 != list[n].0);
            text_order_is_total(list[n - 1].0, list[n].0, part);
            text_order_is_total(list[n].0, part, part);
            if list[n - 1].0 == part {
                text_order_is_total(part, list[n].0, part);
            }
        }
        lemma_missing(front, part);
    }
}

proof fn lemma_counts(tensors: Seq<TensorView>, n: int)
    requires
        0 <= n <= tensors.len(),
    ensures
        is_count_list(part_counts(tensors, n)),
        all_counts(part_counts(tensors, n)) == n,
        forall|p: Seq<char>| #[trigger]
            listed_for(part_counts(tensors, n), p) == count_with(tensors, p, n),
    decreases n,
{
    if n > 0 {
        lemma_counts(tensors, n - 1);
        let before = part_counts(tensors, n - 1);
        let part = component_of(tensors[n - 1].name);
        lemma_one_more(before, part);
        assert forall|p: Seq<char>| #[trigger]
            listed_for(part_counts(tensors, n), p) == count_with(tensors, p, n) by {
            assert(listed_for(before, p) == count_with(tensors, p, n - 1));
        }
    }
}

proof fn lemma_listed(list: Seq<(Seq<char>, nat)>, k: int)
    requires
        is_count_list(list),
        0 <= k < list.len(),
    ensures
        listed_for(list, list[k].0) == list[k].1,
    decreases list.len(),
{
    if k < list.len() - 1 {
        assert(list[k].0 != list[list.len() - 1].0);
        lemma_listed(list.drop_last(), k);
    }
}

proof fn lemma_found(list: Seq<(Seq<char>, nat)>, part: Seq<char>)
    requires
        listed_for(list, part) > 0,
    ensures
        exists|k: int| 0 <= k < list.len() && #[trigger] list[k].0 == part,
    decreases list.len(),
{
    if list.last().0 == part {
        assert(list[list.len() - 1].0 == part);
    } else {
        lemma_found(list.drop_last(), part);
        let k = choose|k: int|
            0 <= k < list.drop_last().len() && #[trigger] list.drop_last()[k].0 == part;
        assert(list[k].0 == part);
    }
}

/// Each count is the number of names with that first part, a part is listed if and only if some
/// name begins with it, no part is listed twice, and the counts add up to the number of names.
pub proof fn counts_are_those_of_names(tensors: Seq<TensorView>)
    ensures
        ({
            let counts = part_counts(tensors, tensors.len() as int);
            &&& forall|k: int|
                0 <= k < counts.len() ==> (#[trigger] counts[k]).1 > 0 && counts[k].1
                    == count_with(tensors, counts[k].0, tensors.len() as int)
            &&& forall|part: Seq<char>| #[trigger]
                count_with(tensors, part, tensors.len() as int) > 0 ==> exists|k: int|
                    0 <= k < counts.len() && #[trigger] counts[k].0 == part
            &&& forall|i: int, j: int|
                0 <= i < j < counts.len() ==> #[trigger] counts[i].0 != #[trigger] counts[j].0
            &&& all_counts(counts) == tensors.len()
        }),
{
    let n = tensors.len() as int;
    let counts = part_counts(tensors, n);
    lemma_counts(tensors, n);
    assert forall|k: int| 0 <= k < counts.len() implies (#[trigger] counts[k]).1 > 0 && counts[k].1
        == count_with(tensors, counts[k].0, n) by {
        lemma_listed(counts, k);
        assert(listed_for(counts, counts[k].0) == count_with(tensors, counts[k].0, n));
    }
    assert forall|part: Seq<char>| #[trigger] count_with(tensors, part, n) > 0 implies exists|
        k: int,
    | 0 <= k < counts.len() && #[trigger] counts[k].0 == part by {
        assert(listed_for(counts, part) == count_with(tensors, part, n));
        lemma_found(counts, part);
    }
}

} // verus!
