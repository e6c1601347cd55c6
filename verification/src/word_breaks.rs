//! Encoding a text whose parts meet before a blank.
use crate::order::{an_order_exists, order_of};
use crate::text::occurs_at;
use crate::tokenizer_s2cpp::{
    all_places, encoded, lemma_next_at, lemma_places_compare, parts_ids, place_le, places_of,
    recognised, starts_word, text_parts, words, words_ids, BpeView,
};
use vstd::prelude::*;

verus! {

/// Whether no special token stands in a text.
pub open spec fn has_no_special(text: Seq<char>, specials: Seq<(Seq<char>, u32)>) -> bool {
    forall|k: int, j: int|
        0 <= k < specials.len() && specials[k].0.len() > 0 ==> !#[trigger] occurs_at(
            text,
            specials[k].0,
            j,
        )
}

proof fn lemma_words_meet(a: Seq<char>, b: Seq<char>)
    requires
        b.len() > 0,
        starts_word(b[0]),
    ensures
        words(a + b) == words(a) + words(b),
        words(b).len() > 0,
    decreases b.len(),
{
    let whole = a + b;
    assert(whole.drop_last() =~= a + b.drop_last());
    assert(whole.last() == b.last());
    if b.len() == 1 {
        assert(b.drop_last() =~= Seq::<char>::empty());
        assert(a + b.drop_last() =~= a);
        assert(words(b.drop_last()) =~= Seq::<Seq<char>>::empty());
        assert(words(b) =~= seq![seq![b.last()]]);
        assert(words(whole) =~= words(a).push(seq![b.last()]));
        assert(words(whole) =~= words(a) + words(b));
    } else {
        let front = b.drop_last();
        lemma_words_meet(a, front);
        assert((words(a) + words(front)).last() == words(front).last());
        assert((words(a) + words(front)).drop_last() =~= words(a) + words(front).drop_last());
        assert(words(whole) =~= words(a) + words(b));
    }
}

proof fn lemma_ids_meet(t: BpeView, v: Seq<Seq<char>>, w: Seq<Seq<char>>, n: int)
    requires
        0 <= n <= w.len(),
    ensures
        words_ids(t, v + w, v.len() + n) == words_ids(t, v, v.len() as int) + words_ids(t, w, n),
    decreases n,
{
    if n == 0 {
        lemma_same_ids(t, v + w, v, v.len() as int);
        assert(words_ids(t, w, 0) =~= Seq::empty());
        assert(words_ids(t, v, v.len() as int) + words_ids(t, w, 0) =~= words_ids(
            t,
            v,
            v.len() as int,
        ));
    } else {
        lemma_ids_meet(t, v, w, n - 1);
        assert((v + w)[v.len() + n - 1] == w[n - 1]);
        assert(words_ids(t, v + w, v.len() + n) =~= words_ids(t, v, v.len() as int) + words_ids(
            t,
            w,
            n,
        ));
    }
}

proof fn lemma_same_ids(t: BpeView, v: Seq<Seq<char>>, w: Seq<Seq<char>>, n: int)
    requires
        0 <= n <= v.len(),
        n <= w.len(),
        forall|k: int| 0 <= k < n ==> v[k] == w[k],
    ensures
        words_ids(t, v, n) == words_ids(t, w, n),
    decreases n,
{
    if n > 0 {
        lemma_same_ids(t, v, w, n - 1);
    }
}

proof fn lemma_no_places(text: Seq<char>, specials: Seq<(Seq<char>, u32)>, k: int)
    requires
        0 <= k,
        has_no_special(text, specials),
    ensures
        all_places(text, specials, k, Seq::empty()) =~= Seq::empty(),
    decreases specials.len() - k,
{
    if k < specials.len() {
        let token = specials[k].0;
        lemma_next_at(text, token, 0);
        assert(places_of(text, token, specials[k].1, 0, Seq::empty()) =~= Seq::empty());
        lemma_no_places(text, specials, k + 1);
    }
}

proof fn lemma_encoded_by_words(t: BpeView, text: Seq<char>)
    requires
        has_no_special(text, t.specials),
    ensures
        encoded(t, text) == words_ids(t, words(text), words(text).len() as int),
{
    if text.len() == 0 {
        assert(words(text) =~= Seq::empty());
        assert(encoded(t, text) =~= words_ids(t, words(text), 0));
    } else {
        let all = all_places(text, t.specials, 0, Seq::empty());
        lemma_no_places(text, t.specials, 0);
        lemma_places_compare();
        an_order_exists(all, place_le());
        assert(order_of(all, place_le()).len() == 0);
        assert(recognised(text, t.specials) =~= Seq::empty());
        assert(text.skip(0) =~= text);
        let parts = text_parts(text, t.specials);
        assert(parts =~= seq![(text, None::<u32>)]);
        reveal_with_fuel(parts_ids, 2);
        assert(parts_ids(t, parts, 1) =~= words_ids(t, words(text), words(text).len() as int));
    }
}

/// A text without special tokens that is broken before a blank is encoded as its two parts are,
/// one after the other: each blank starts a new word, and words are encoded by themselves.
pub proof fn encoding_breaks_before_blanks(t: BpeView, a: Seq<char>, b: Seq<char>)
    requires
        has_no_special(a + b, t.specials),
        b.len() > 0,
        starts_word(b[0]),
    ensures
        encoded(t, a + b) == encoded(t, a) + encoded(t, b),
{
    let whole = a + b;
    assert(has_no_special(a, t.specials)) by {
        assert forall|k: int, j: int|
            0 <= k < t.specials.len() && t.specials[k].0.len() > 0 implies !#[trigger] occurs_at(
            a,
            t.specials[k].0,
            j,
        ) by {
            if occurs_at(a, t.specials[k].0, j) {
                let n = t.specials[k].0.len();
                assert(whole.subrange(j, j + n) =~= a.subrange(j, j + n));
                assert(occurs_at(whole, t.specials[k].0, j));
            }
        }
    }
    assert(has_no_special(b, t.specials)) by {
        assert forall|k: int, j: int|
            0 <= k < t.specials.len() && t.specials[k].0.len() > 0 implies !#[trigger] occurs_at(
            b,
            t.specials[k].0,
            j,
        ) by {
            if occurs_at(b, t.specials[k].0, j) {
                let n = t.specials[k].0.len();
                assert(whole.subrange(a.len() + j, a.len() + j + n) =~= b.subrange(j, j + n));
                assert(occurs_at(whole, t.specials[k].0, a.len() + j));
            }
        }
    }
    lemma_encoded_by_words(t, whole);
    lemma_encoded_by_words(t, a);
    lemma_encoded_by_words(t, b);
    lemma_words_meet(a, b);
    lemma_ids_meet(t, words(a), words(b), words(b).len() as int);
}

} // verus!
