//! What encoding text comes to.
use crate::order::{an_order_exists, listed, order_of};
use crate::text::occurs_at;
use crate::tokenizer::{byte_code, dialogue_ids, S2TokenizerConfig};
use crate::tokenizer_s2cpp::{
    added_specials, added_vocab, all_places, can_merge, encoded, is_best, kept_places, known_ids,
    lemma_next_at, lemma_places_compare, longest_first, merge_at, merge_text, merged, next_at, parts_ids, place_le, places_of, rank_at,
    ranks_of, recognised, single_chars, text_parts, with_entries, word_ids, words, words_ids,
    AddedToken, BpeView, MergeEntry, SpecialMatch,
};
use vstd::prelude::*;

verus! {

// ---------------------------------------------------------------------
// Merging
// ---------------------------------------------------------------------

/// Whether the symbol at a place merges with the next one.
pub open spec fn merges(symbols: Seq<Seq<char>>, ranks: Map<Seq<char>, i32>, p: int) -> bool {
    ranks.contains_key(symbols[p] + symbols[p + 1]) && ranks[symbols[p] + symbols[p + 1]]
        < i32::MAX
}

/// Whether the merge at a place comes first: no merge has a lower rank, and none before it the same.
pub open spec fn merges_first(symbols: Seq<Seq<char>>, ranks: Map<Seq<char>, i32>, p: int) -> bool {
    &&& 0 <= p < symbols.len() - 1
    &&& merges(symbols, ranks, p)
    &&& forall|q: int|
        0 <= q < symbols.len() - 1 && #[trigger] merges(symbols, ranks, q) ==> {
            &&& ranks[symbols[p] + symbols[p + 1]] <= ranks[symbols[q] + symbols[q + 1]]
            &&& q < p ==> ranks[symbols[p] + symbols[p + 1]] < ranks[symbols[q] + symbols[q + 1]]
        }
}

/// Merging goes on with the first merge of the lowest rank: its two symbols become one.
pub proof fn lowest_rank_merges_first(
    symbols: Seq<Seq<char>>,
    ranks: Map<Seq<char>, i32>,
    p: int,
)
    requires
        merges_first(symbols, ranks, p),
    ensures
        merged(symbols, ranks) == merged(
            symbols.take(p).push(symbols[p] + symbols[p + 1]) + symbols.skip(p + 2),
            ranks,
        ),
{
    assert forall|q: int| 0 <= q < symbols.len() - 1 && (#[trigger] rank_at(
        symbols,
        ranks,
        q,
    )) is Some implies rank_at(symbols, ranks, p)->0 < rank_at(symbols, ranks, q)->0 || (rank_at(
        symbols,
        ranks,
        p,
    ) == rank_at(symbols, ranks, q) && p <= q) by {
        assert(merges(symbols, ranks, q));
    }
    assert(rank_at(symbols, ranks, p) is Some);
    assert(is_best(symbols, ranks, p));
    assert(can_merge(symbols, ranks, symbols.len() - 1));
    let c = choose|c: int| is_best(symbols, ranks, c);
    assert(is_best(symbols, ranks, c));
    assert(rank_at(symbols, ranks, c) is Some);
    assert(c == p);
    assert(merge_at(symbols, p) =~= symbols.take(p).push(symbols[p] + symbols[p + 1])
        + symbols.skip(p + 2));
}

/// Merging leaves no two symbols next to each other that merge.
pub proof fn merging_ends_when_nothing_merges(
    symbols: Seq<Seq<char>>,
    ranks: Map<Seq<char>, i32>,
    q: int,
)
    requires
        0 <= q < merged(symbols, ranks).len() - 1,
    ensures
        !merges(merged(symbols, ranks), ranks, q),
    decreases symbols.len(),
{
    if can_merge(symbols, ranks, symbols.len() - 1) {
        let c = choose|c: int| is_best(symbols, ranks, c);
        let p = lemma_best(symbols, ranks, symbols.len() - 1);
        assert(is_best(symbols, ranks, p));
        assert(is_best(symbols, ranks, c));
        merging_ends_when_nothing_merges(merge_at(symbols, c), ranks, q);
    } else {
        assert(!(rank_at(symbols, ranks, q) is Some));
    }
}

proof fn lemma_best(symbols: Seq<Seq<char>>, ranks: Map<Seq<char>, i32>, n: int) -> (p: int)
    requires
        can_merge(symbols, ranks, n),
    ensures
        crate::tokenizer_s2cpp::is_best_merge(symbols, ranks, n, p),
    decreases n,
{
    let k = choose|k: int| 0 <= k < n && (#[trigger] rank_at(symbols, ranks, k)) is Some;
    if can_merge(symbols, ranks, n - 1) {
        let best = lemma_best(symbols, ranks, n - 1);
        if rank_at(symbols, ranks, n - 1) is Some && rank_at(symbols, ranks, n - 1)->0 < rank_at(
            symbols,
            ranks,
            best,
        )->0 {
            n - 1
        } else {
            best
        }
    } else {
        assert(k == n - 1);
        assert forall|q: int| 0 <= q < n && (#[trigger] rank_at(symbols, ranks, q)) is Some implies q
            == n - 1 by {}
        n - 1
    }
}

// ---------------------------------------------------------------------
// Words
// ---------------------------------------------------------------------

/// A word that the vocabulary knows, in the byte alphabet, has its own identifier alone. Any other
/// word has those of the symbols that merging leaves of its letters.
pub proof fn words_have_the_ids_of_their_symbols(t: BpeView, word: Seq<char>, k: int)
    requires
        word.len() > 0,
    ensures
        ({
            let letters = crate::tokenizer::in_byte_alphabet(word);
            let symbols = merged(Seq::new(letters.len(), |i: int| seq![letters[i]]), t.ranks);
            &&& t.vocab.contains_key(letters) ==> word_ids(t, word) == seq![t.vocab[letters]]
            &&& !t.vocab.contains_key(letters) && 0 <= k < symbols.len() && (forall|i: int|
                0 <= i < symbols.len() ==> t.vocab.contains_key(#[trigger] symbols[i])) ==> {
                &&& word_ids(t, word).len() == symbols.len()
                &&& word_ids(t, word)[k] == t.vocab[symbols[k]]
            }
        }),
{
    let letters = crate::tokenizer::in_byte_alphabet(word);
    assert(single_chars(letters) =~= Seq::new(letters.len(), |i: int| seq![letters[i]]));
    let symbols = merged(single_chars(letters), t.ranks);
    if forall|i: int| 0 <= i < symbols.len() ==> t.vocab.contains_key(#[trigger] symbols[i]) {
        lemma_all_known(symbols, t.vocab, symbols.len() as int);
    }
}

proof fn lemma_all_known(symbols: Seq<Seq<char>>, vocab: Map<Seq<char>, u32>, n: int)
    requires
        0 <= n <= symbols.len(),
        forall|i: int| 0 <= i < symbols.len() ==> vocab.contains_key(#[trigger] symbols[i]),
    ensures
        known_ids(symbols, vocab, n).len() == n,
        forall|i: int| 0 <= i < n ==> #[trigger] known_ids(symbols, vocab, n)[i] == vocab[symbols[i]],
    decreases n,
{
    if n > 0 {
        lemma_all_known(symbols, vocab, n - 1);
        let _ = symbols[n - 1];
    }
}

/// Symbols that the vocabulary does not know have no identifiers, and leave the others as they are.
pub proof fn unknown_symbols_are_passed_over(
    a: Seq<Seq<char>>,
    symbol: Seq<char>,
    vocab: Map<Seq<char>, u32>,
)
    ensures
        known_ids(a.push(symbol), vocab, (a.len() + 1) as int) == (if vocab.contains_key(symbol) {
            known_ids(a, vocab, a.len() as int).push(vocab[symbol])
        } else {
            known_ids(a, vocab, a.len() as int)
        }),
{
    lemma_known_of_longer(a, symbol, vocab, a.len() as int);
}

proof fn lemma_known_of_longer(
    a: Seq<Seq<char>>,
    symbol: Seq<char>,
    vocab: Map<Seq<char>, u32>,
    n: int,
)
    requires
        0 <= n <= a.len(),
    ensures
        known_ids(a.push(symbol), vocab, n) == known_ids(a, vocab, n),
    decreases n,
{
    if n > 0 {
        lemma_known_of_longer(a, symbol, vocab, n - 1);
    }
}

/// The identifiers of words stand in the order of the words.
pub proof fn words_are_encoded_in_order(t: BpeView, list: Seq<Seq<char>>, word: Seq<char>)
    ensures
        words_ids(t, list.push(word), (list.len() + 1) as int) == words_ids(t, list, list.len() as int)
            + word_ids(t, word),
        words_ids(t, Seq::empty(), 0) == Seq::<u32>::empty(),
{
    lemma_words_of_longer(t, list, word, list.len() as int);
}

proof fn lemma_words_of_longer(t: BpeView, list: Seq<Seq<char>>, word: Seq<char>, n: int)
    requires
        0 <= n <= list.len(),
    ensures
        words_ids(t, list.push(word), n) == words_ids(t, list, n),
    decreases n,
{
    if n > 0 {
        lemma_words_of_longer(t, list, word, n - 1);
    }
}

// ---------------------------------------------------------------------
// Special tokens
// ---------------------------------------------------------------------

/// The identifiers of a text are those of its parts, in order: the identifier of a special token, and
/// those of the words of what stands between.
pub proof fn parts_are_encoded_in_order(
    t: BpeView,
    parts: Seq<(Seq<char>, Option<u32>)>,
    part: (Seq<char>, Option<u32>),
)
    ensures
        parts_ids(t, parts.push(part), (parts.len() + 1) as int) == parts_ids(t, parts, parts.len() as int)
            + (if part.1 is Some {
            seq![part.1->0]
        } else {
            words_ids(t, words(part.0), words(part.0).len() as int)
        }),
        parts_ids(t, Seq::empty(), 0) == Seq::<u32>::empty(),
{
    lemma_parts_of_longer(t, parts, part, parts.len() as int);
}

proof fn lemma_parts_of_longer(
    t: BpeView,
    parts: Seq<(Seq<char>, Option<u32>)>,
    part: (Seq<char>, Option<u32>),
    n: int,
)
    requires
        0 <= n <= parts.len(),
    ensures
        parts_ids(t, parts.push(part), n) == parts_ids(t, parts, n),
    decreases n,
{
    if n > 0 {
        lemma_parts_of_longer(t, parts, part, n - 1);
    }
}

/// The identifiers of a text are those of all its parts.
pub proof fn texts_have_the_ids_of_their_parts(t: BpeView, text: Seq<char>)
    ensures
        text.len() == 0 ==> encoded(t, text) == Seq::<u32>::empty(),
        text.len() > 0 ==> encoded(t, text) == parts_ids(
            t,
            text_parts(text, t.specials),
            text_parts(text, t.specials).len() as int,
        ),
{
}

/// The first special token that is recognised stands where the first one of all stands, and none
/// that stands there is longer. So one is recognised wherever one stands.
pub proof fn first_special_token_is_recognised(
    text: Seq<char>,
    names: Seq<(Seq<char>, u32)>,
    k: int,
    p: int,
)
    requires
        text.len() <= usize::MAX,
        all_places(text, names, 0, Seq::empty()).len() <= usize::MAX,
        0 <= k < names.len(),
        names[k].0.len() > 0,
        occurs_at(text, names[k].0, p),
        0 <= p,
    ensures
        recognised(text, names).len() > 0,
        recognised(text, names)[0].pos <= p,
        recognised(text, names)[0].pos == p ==> recognised(text, names)[0].len
            >= names[k].0.len(),
{
    let token = names[k].0;
    lemma_next_at(text, token, 0);
    let q = next_at(text, token, 0)->0;
    let m = SpecialMatch { pos: q as usize, len: token.len() as usize, id: names[k].1 };
    lemma_place_is_listed(text, names, 0, Seq::empty(), k, m);
    let all = all_places(text, names, 0, Seq::empty());
    lemma_places_compare();
    an_order_exists(all, place_le());
    let o = order_of(all, place_le());
    let i = choose|i: int| 0 <= i < all.len() && all[i] == m;
    crate::order::order_lists_each_position_once(o, all, place_le(), i as usize);
    let j = choose|j: int| 0 <= j < o.len() && o[j] == i as usize;
    let sorted = listed(all, o);
    assert(sorted[j] == m);
    if j > 0 {
        assert(crate::order::comes_before(all, place_le(), o[0], o[j]));
    }
    assert(place_le()(sorted[0], m));
    lemma_kept_grows(sorted, 1, sorted[0].pos + sorted[0].len, seq![sorted[0]]);
    assert(Seq::<SpecialMatch>::empty().push(sorted[0]) =~= seq![sorted[0]]);
}

proof fn lemma_kept_grows(places: Seq<SpecialMatch>, i: int, end: int, kept: Seq<SpecialMatch>)
    requires
        kept.len() > 0,
    ensures
        kept_places(places, i, end, kept).len() > 0,
        kept_places(places, i, end, kept)[0] == kept[0],
    decreases places.len() - i,
{
    if 0 <= i < places.len() {
        if places[i].pos >= end {
            lemma_kept_grows(places, i + 1, places[i].pos + places[i].len, kept.push(places[i]));
        } else {
            lemma_kept_grows(places, i + 1, end, kept);
        }
    }
}

proof fn lemma_places_grow(
    text: Seq<char>,
    token: Seq<char>,
    id: u32,
    from: int,
    found: Seq<SpecialMatch>,
    m: SpecialMatch,
)
    requires
        found.contains(m),
    ensures
        places_of(text, token, id, from, found).contains(m),
    decreases text.len() - from,
{
    match next_at(text, token, from) {
        None => {},
        Some(p) => {
            if !(token.len() == 0 || p < from || p + token.len() > text.len()) {
                let more = found.push(
                    SpecialMatch { pos: p as usize, len: token.len() as usize, id },
                );
                let i = choose|i: int| 0 <= i < found.len() && found[i] == m;
                assert(more[i] == m);
                lemma_places_grow(text, token, id, p + token.len(), more, m);
            }
        },
    }
}

proof fn lemma_all_places_grow(
    text: Seq<char>,
    names: Seq<(Seq<char>, u32)>,
    k: int,
    found: Seq<SpecialMatch>,
    m: SpecialMatch,
)
    requires
        found.contains(m),
    ensures
        all_places(text, names, k, found).contains(m),
    decreases names.len() - k,
{
    if 0 <= k < names.len() {
        lemma_places_grow(text, names[k].0, names[k].1, 0, found, m);
        lemma_all_places_grow(
            text,
            names,
            k + 1,
            places_of(text, names[k].0, names[k].1, 0, found),
            m,
        );
    }
}

proof fn lemma_place_is_listed(
    text: Seq<char>,
    names: Seq<(Seq<char>, u32)>,
    at: int,
    found: Seq<SpecialMatch>,
    k: int,
    m: SpecialMatch,
)
    requires
        0 <= at <= k < names.len(),
        names[k].0.len() > 0,
        next_at(text, names[k].0, 0) is Some,
        next_at(text, names[k].0, 0)->0 >= 0,
        next_at(text, names[k].0, 0)->0 + names[k].0.len() <= text.len(),
        m == (SpecialMatch {
            pos: next_at(text, names[k].0, 0)->0 as usize,
            len: names[k].0.len() as usize,
            id: names[k].1,
        }),
    ensures
        all_places(text, names, at, found).contains(m),
    decreases k - at,
{
    let next = places_of(text, names[at].0, names[at].1, 0, found);
    if at == k {
        let more = found.push(m);
        assert(more[found.len() as int] == m);
        lemma_places_grow(
            text,
            names[k].0,
            names[k].1,
            next_at(text, names[k].0, 0)->0 + names[k].0.len(),
            more,
            m,
        );
        lemma_all_places_grow(text, names, at + 1, next, m);
    } else {
        lemma_place_is_listed(text, names, at + 1, next, k, m);
    }
}

// ---------------------------------------------------------------------
// The tokenizer of a document
// ---------------------------------------------------------------------

/// The rank of a merge is its place among the merges, the last one of the same text counting.
pub proof fn merges_rank_by_their_place(entries: Seq<MergeEntry>, n: int, i: int)
    requires
        0 <= i < n <= entries.len() <= i32::MAX,
        ranks_of(entries, n) is Ok,
        forall|j: int|
            i < j < n ==> merge_text(#[trigger] entries[j]) != merge_text(entries[i]),
    ensures
        merge_text(entries[i]) is Some,
        ranks_of(entries, n)->Ok_0.contains_key(merge_text(entries[i])->0),
        ranks_of(entries, n)->Ok_0[merge_text(entries[i])->0] == i,
    decreases n,
{
    if i < n - 1 {
        merges_rank_by_their_place(entries, n - 1, i);
        assert(merge_text(entries[n - 1]) != merge_text(entries[i]));
    }
}

/// A pair merges into the text of both, and a line into the text without its first space.
pub proof fn merges_join_their_halves(entry: MergeEntry, p: int)
    ensures
        entry matches MergeEntry::Pair(a, b) ==> merge_text(entry) == Some(a@ + b@),
        entry matches MergeEntry::Line(line) ==> (0 <= p < line@.len() && line@[p] == ' ' && (forall|
            j: int,
        |
            0 <= j < p ==> #[trigger] line@[j] != ' ') ==> merge_text(entry) == Some(
            line@.take(p) + line@.skip(p + 1),
        )),
{
    if let MergeEntry::Line(line) = entry {
        if 0 <= p < line@.len() && line@[p] == ' ' && (forall|j: int|
            0 <= j < p ==> #[trigger] line@[j] != ' ') {
            lemma_next_at(line@, seq![' '], 0);
            assert(line@.subrange(p, p + 1) =~= seq![' ']);
            assert(occurs_at(line@, seq![' '], p));
            let q = next_at(line@, seq![' '], 0)->0;
            assert(line@.subrange(q, q + 1) =~= seq![' ']);
            assert(line@.subrange(q, q + 1)[0] == line@[q]);
        }
    }
}

/// The last added token of a name gives the name its identifier.
pub proof fn added_tokens_are_known(tokens: Seq<AddedToken>, n: int, i: int)
    requires
        0 <= i < n <= tokens.len(),
        tokens[i].content@.len() > 0,
        forall|j: int| i < j < n ==> (#[trigger] tokens[j]).content@ != tokens[i].content@,
    ensures
        added_vocab(tokens, n).contains_key(tokens[i].content@),
        added_vocab(tokens, n)[tokens[i].content@] == tokens[i].id,
    decreases n,
{
    if i < n - 1 {
        added_tokens_are_known(tokens, n - 1, i);
        assert(tokens[n - 1].content@ != tokens[i].content@);
    }
}

/// The entries of a vocabulary leave the names that are known already, and the first entry of any
/// other name gives the name its identifier.
pub proof fn first_entries_are_known(
    vocab: Map<Seq<char>, u32>,
    entries: Seq<(String, u32)>,
    n: int,
    i: int,
    name: Seq<char>,
)
    requires
        0 <= i < n <= entries.len(),
        forall|j: int| 0 <= j < i ==> (#[trigger] entries[j]).0@ != entries[i].0@,
    ensures
        vocab.contains_key(name) ==> with_entries(vocab, entries, n).contains_key(name)
            && with_entries(vocab, entries, n)[name] == vocab[name],
        !vocab.contains_key(entries[i].0@) ==> with_entries(vocab, entries, n).contains_key(
            entries[i].0@,
        ) && with_entries(vocab, entries, n)[entries[i].0@] == entries[i].1,
{
    lemma_known_stays(vocab, entries, n, name);
    if !vocab.contains_key(entries[i].0@) {
        lemma_first_entry(vocab, entries, n, i);
    }
}

proof fn lemma_known_stays(
    vocab: Map<Seq<char>, u32>,
    entries: Seq<(String, u32)>,
    n: int,
    name: Seq<char>,
)
    requires
        0 <= n <= entries.len(),
    ensures
        vocab.contains_key(name) ==> with_entries(vocab, entries, n).contains_key(name)
            && with_entries(vocab, entries, n)[name] == vocab[name],
    decreases n,
{
    if n > 0 {
        lemma_known_stays(vocab, entries, n - 1, name);
    }
}

proof fn lemma_not_yet_known(
    vocab: Map<Seq<char>, u32>,
    entries: Seq<(String, u32)>,
    n: int,
    name: Seq<char>,
)
    requires
        0 <= n <= entries.len(),
        !vocab.contains_key(name),
        forall|j: int| 0 <= j < n ==> (#[trigger] entries[j]).0@ != name,
    ensures
        !with_entries(vocab, entries, n).contains_key(name),
    decreases n,
{
    if n > 0 {
        lemma_not_yet_known(vocab, entries, n - 1, name);
        assert(entries[n - 1].0@ != name);
    }
}

proof fn lemma_first_entry(
    vocab: Map<Seq<char>, u32>,
    entries: Seq<(String, u32)>,
    n: int,
    i: int,
)
    requires
        0 <= i < n <= entries.len(),
        forall|j: int| 0 <= j < i ==> (#[trigger] entries[j]).0@ != entries[i].0@,
        !vocab.contains_key(entries[i].0@),
    ensures
        with_entries(vocab, entries, n).contains_key(entries[i].0@),
        with_entries(vocab, entries, n)[entries[i].0@] == entries[i].1,
    decreases n,
{
    if i == n - 1 {
        lemma_not_yet_known(vocab, entries, n - 1, entries[i].0@);
    } else {
        lemma_first_entry(vocab, entries, n - 1, i);
    }
}

/// Exactly the added tokens that are special and have a name are special tokens, each under its own
/// identifier.
pub proof fn special_tokens_are_the_added_ones(
    tokens: Seq<AddedToken>,
    n: int,
    name: Seq<char>,
    id: u32,
)
    requires
        0 <= n <= tokens.len(),
    ensures
        added_specials(tokens, n).contains((name, id)) <==> exists|i: int|
            {
                &&& 0 <= i < n
                &&& (#[trigger] tokens[i]).content@ == name
                &&& tokens[i].id == id
                &&& tokens[i].special
                &&& name.len() > 0
            },
    decreases n,
{
    if n > 0 {
        special_tokens_are_the_added_ones(tokens, n - 1, name, id);
        let before = added_specials(tokens, n - 1);
        let t = tokens[n - 1];
        if t.content@.len() > 0 && t.special {
            let now = before.push((t.content@, t.id));
            assert(now[before.len() as int] == (t.content@, t.id));
            if before.contains((name, id)) {
                let k = choose|k: int| 0 <= k < before.len() && before[k] == (name, id);
                assert(now[k] == (name, id));
            }
            if now.contains((name, id)) && !before.contains((name, id)) {
                let k = choose|k: int| 0 <= k < now.len() && now[k] == (name, id);
                assert(k == before.len());
            }
        }
    }
}

/// The tokens that structure a dialogue have the identifiers of their names.
pub proof fn dialogue_tokens_have_their_names(vocab: Map<Seq<char>, u32>, c: S2TokenizerConfig)
    requires
        dialogue_ids(vocab) == Ok::<S2TokenizerConfig, crate::error::ErrorView>(c),
    ensures
        c.im_start_id == vocab["<|im_start|>"@],
        c.im_end_id == vocab["<|im_end|>"@],
        c.voice_id == vocab["<|voice|>"@],
        vocab.contains_key("<|im_start|>"@),
        vocab.contains_key("<|im_end|>"@),
        vocab.contains_key("<|voice|>"@),
{
}

/// In the byte alphabet, a byte that can be printed stands for itself; all others follow each other
/// from 256 on, in their order.
pub proof fn byte_alphabet_is_in_order(a: u8, b: u8)
    ensures
        33 <= a <= 126 || 161 <= a <= 172 || a >= 174 ==> byte_code(a) == a,
        !(33 <= a <= 126 || 161 <= a <= 172 || a >= 174) ==> 256 <= byte_code(a) < 256 + 68,
        !(33 <= a <= 126 || 161 <= a <= 172 || a >= 174) && !(33 <= b <= 126 || 161 <= b <= 172 || b
            >= 174) && a < b ==> byte_code(a) < byte_code(b),
{
}

/// A blank starts a new word; any other character goes on with the word before it, or starts the
/// first.
pub proof fn blanks_start_words(s: Seq<char>, c: char)
    ensures
        c == ' ' || c == '\t' || c == '\n' || c == '\r' ==> words(s.push(c)) == words(s).push(
            seq![c],
        ),
        !(c == ' ' || c == '\t' || c == '\n' || c == '\r') && s.len() > 0 ==> words(s.push(c))
            == words(s).drop_last().push(words(s).last().push(c)),
        words(seq![c]) == seq![seq![c]],
        words(Seq::<char>::empty()) == Seq::<Seq<char>>::empty(),
{
    assert(s.push(c).drop_last() =~= s);
    assert(seq![c].drop_last() =~= Seq::<char>::empty());
    assert(words(Seq::<char>::empty()) =~= Seq::<Seq<char>>::empty());
    assert(words(seq![c]) =~= seq![seq![c]]);
    if s.len() > 0 {
        lemma_some_word(s);
    }
}

proof fn lemma_some_word(s: Seq<char>)
    requires
        s.len() > 0,
    ensures
        words(s).len() > 0,
{
}

/// Special tokens are searched with the longest name first.
pub proof fn longest_names_come_first(tokens: Seq<(Seq<char>, u32)>, i: int, j: int)
    requires
        tokens.len() <= usize::MAX,
        0 <= i <= j < tokens.len(),
        forall|k: int|
            0 <= k < tokens.len() ==> vstd::utf8::encode_utf8((#[trigger] tokens[k]).0).len()
                <= usize::MAX,
    ensures
        longest_first(tokens).len() == tokens.len(),
        vstd::utf8::encode_utf8(longest_first(tokens)[i].0).len() >= vstd::utf8::encode_utf8(
            longest_first(tokens)[j].0,
        ).len(),
        tokens.contains(longest_first(tokens)[i]),
{
    let lens = crate::tokenizer_s2cpp::byte_lengths(tokens);
    let rel = crate::tokenizer_s2cpp::longer_first();
    assert(crate::order::compares(rel));
    an_order_exists(lens, rel);
    let o = order_of(lens, rel);
    assert(o[i] < lens.len() && o[j] < lens.len());
    if i < j {
        assert(crate::order::comes_before(lens, rel, o[i], o[j]));
    }
    assert(longest_first(tokens)[i] == tokens[o[i] as int]);
    assert(longest_first(tokens)[j] == tokens[o[j] as int]);
}

} // verus!
