//! Byte-pair encoding of prompts.
use crate::error::{message, ErrorView, InferError};
use crate::order::{compares, is_order_of, listed, order_of, stable_order};
use crate::text::{chars_occur_at, from_chars, occurs_at, strings, to_chars};
use crate::tokenizer::{bytelevel_encode_utf8, in_byte_alphabet};
use vstd::hash_map::StringHashMap;
use vstd::prelude::*;
use vstd::slice::slice_subrange;
use vstd::string::*;
use vstd::utf8::encode_utf8;

verus! {

/// A token added to the vocabulary.
#[derive(Debug)]
pub struct AddedToken {
    pub content: String,
    pub id: u32,
    pub special: bool,
}

/// Two symbols that are merged: as a pair, or as one line with a space between them.
#[derive(Debug)]
pub enum MergeEntry {
    Pair(String, String),
    Line(String),
}

/// The vocabulary and the merges, in the order of their rank.
#[derive(Debug)]
pub struct TokenizerModel {
    pub vocab: Vec<(String, u32)>,
    pub merges: Vec<MergeEntry>,
}

/// What a tokenizer file says.
#[derive(Debug)]
pub struct TokenizerDocument {
    pub added_tokens: Option<Vec<AddedToken>>,
    pub model: Option<TokenizerModel>,
}

/// Encodes text by byte pairs.
pub struct S2CppBpeTokenizer {
    vocab: StringHashMap<u32>,
    merge_rank: StringHashMap<i32>,
    special_tokens: Vec<(String, u32)>,
}

/// Named numbers as mathematical values.
pub open spec fn named(v: Seq<(String, u32)>) -> Seq<(Seq<char>, u32)> {
    v.map_values(|e: (String, u32)| (e.0@, e.1))
}

/// The texts put together.
pub open spec fn glued(parts: Seq<Seq<char>>) -> Seq<char>
    decreases parts.len(),
{
    if parts.len() == 0 {
        Seq::empty()
    } else {
        glued(parts.drop_last()) + parts.last()
    }
}

// ---------------------------------------------------------------------
// Words and characters
// ---------------------------------------------------------------------

/// Each character as a text of its own.
pub open spec fn single_chars(s: Seq<char>) -> Seq<Seq<char>> {
    s.map_values(|c: char| seq![c])
}

/// Each character of a text as a text of its own.
pub fn utf8_chars(text: &str) -> (r: Vec<String>)
    ensures
        strings(r@) == single_chars(text@),
{
    let chars = to_chars(text);
    let mut out: Vec<String> = Vec::new();
    let mut i: usize = 0;
    while i < chars.len()
        invariant
            i <= chars@.len(),
            chars@ == text@,
            strings(out@) == single_chars(text@).take(i as int),
        decreases chars@.len() - i,
    {
        let ghost before = out@;
        let mut s = String::new();
        s.push(chars[i]);
        assert(s@ =~= seq![chars@[i as int]]);
        out.push(s);
        assert(strings(out@) =~= strings(before).push(seq![text@[i as int]]));
        assert(single_chars(text@).take(i as int + 1) =~= single_chars(text@).take(i as int).push(
            seq![text@[i as int]],
        ));
        i = i + 1;
    }
    assert(single_chars(text@).take(i as int) =~= single_chars(text@));
    out
}

/// Whether a character starts a new word.
pub open spec fn starts_word(c: char) -> bool {
    c == ' ' || c == '\t' || c == '\n' || c == '\r'
}

/// The words of a text: each blank begins a new one and belongs to it.
pub open spec fn words(s: Seq<char>) -> Seq<Seq<char>>
    decreases s.len(),
{
    if s.len() == 0 {
        Seq::empty()
    } else {
        let before = words(s.drop_last());
        if starts_word(s.last()) || before.len() == 0 {
            before.push(seq![s.last()])
        } else {
            before.drop_last().push(before.last().push(s.last()))
        }
    }
}

proof fn lemma_words_nonempty(s: Seq<char>)
    ensures
        (words(s).len() == 0) == (s.len() == 0),
        forall|i: int| 0 <= i < words(s).len() ==> (#[trigger] words(s)[i]).len() > 0,
    decreases s.len(),
{
    if s.len() > 0 {
        lemma_words_nonempty(s.drop_last());
    }
}

/// The words of a text, put together, are the text; none is empty, and blanks stand only at the
/// start of a word.
pub proof fn words_make_up_the_text(s: Seq<char>)
    ensures
        glued(words(s)) == s,
        forall|i: int| 0 <= i < words(s).len() ==> (#[trigger] words(s)[i]).len() > 0,
        forall|i: int, k: int|
            0 <= i < words(s).len() && 0 < k < words(s)[i].len() ==> !starts_word(
                #[trigger] words(s)[i][k],
            ),
    decreases s.len(),
{
    lemma_words_nonempty(s);
    if s.len() > 0 {
        let init = s.drop_last();
        let before = words(init);
        words_make_up_the_text(init);
        assert(s =~= init.push(s.last()));
        if starts_word(s.last()) || before.len() == 0 {
            assert(words(s).drop_last() =~= before);
            assert(glued(words(s)) =~= init + seq![s.last()]);
        } else {
            assert(words(s).drop_last() =~= before.drop_last());
            assert(glued(words(s)) =~= glued(before.drop_last()) + before.last().push(s.last()));
            assert(glued(before) =~= glued(before.drop_last()) + before.last());
            assert(glued(words(s)) =~= s);
        }
        assert forall|i: int, k: int|
            0 <= i < words(s).len() && 0 < k < words(s)[i].len() implies !starts_word(
            #[trigger] words(s)[i][k],
        ) by {
            if i < before.len() && words(s)[i] == before[i] {
                assert(!starts_word(before[i][k]));
            } else if !(starts_word(s.last()) || before.len() == 0) {
                if k < before.last().len() {
                    assert(before.last()[k] == before[before.len() - 1][k]);
                }
            }
        }
    } else {
        assert(glued(words(s)) =~= s);
    }
}

/// The words of a text.
pub fn pre_tokenize(text: &str) -> (r: Vec<String>)
    ensures
        strings(r@) == words(text@),
{
    let chars = to_chars(text);
    let mut out: Vec<String> = Vec::new();
    let mut current = String::new();
    let mut i: usize = 0;
    assert(text@.take(0) =~= Seq::<char>::empty());
    assert(strings(out@) =~= words(text@.take(0)));
    while i < chars.len()
        invariant
            i <= chars@.len(),
            chars@ == text@,
            current@.len() == 0 ==> i == 0,
            words(text@.take(i as int)) == (if current@.len() == 0 {
                strings(out@)
            } else {
                strings(out@).push(current@)
            }),
        decreases chars@.len() - i,
    {
        let c = chars[i];
        let ghost sofar = text@.take(i as int);
        let ghost next = text@.take(i as int + 1);
        let ghost old_out = out@;
        let ghost old_current = current@;
        proof {
            assert(next.drop_last() =~= sofar);
            assert(next.last() == c);
            lemma_words_nonempty(sofar);
        }
        if c == ' ' || c == '\t' || c == '\n' || c == '\r' {
            if !current.as_str().is_empty() {
                out.push(current);
                assert(strings(out@) =~= strings(old_out).push(old_current));
            }
            current = String::new();
            current.push(c);
            assert(current@ =~= seq![c]);
        } else {
            current.push(c);
            proof {
                if old_current.len() == 0 {
                    assert(current@ =~= seq![c]);
                } else {
                    let before = words(sofar);
                    assert(before.drop_last() =~= strings(old_out));
                    assert(before.last() == old_current);
                }
            }
        }
        i = i + 1;
    }
    assert(text@.take(i as int) =~= text@);
    if !current.as_str().is_empty() {
        let ghost before = out@;
        let ghost tail = current@;
        out.push(current);
        assert(strings(out@) =~= strings(before).push(tail));
    }
    out
}

// ---------------------------------------------------------------------
// Merging
// ---------------------------------------------------------------------

/// The rank of merging the symbol at `i` with the next one, if they merge.
pub open spec fn rank_at(symbols: Seq<Seq<char>>, ranks: Map<Seq<char>, i32>, i: int) -> Option<
    i32,
> {
    let pair = symbols[i] + symbols[i + 1];
    if ranks.contains_key(pair) && ranks[pair] < i32::MAX {
        Some(ranks[pair])
    } else {
        None
    }
}

/// Whether the merge at `p` has the lowest rank among the first `n` places, and is the first of it.
pub open spec fn is_best_merge(
    symbols: Seq<Seq<char>>,
    ranks: Map<Seq<char>, i32>,
    n: int,
    p: int,
) -> bool {
    &&& 0 <= p < n
    &&& rank_at(symbols, ranks, p) is Some
    &&& forall|q: int|
        0 <= q < n && (#[trigger] rank_at(symbols, ranks, q)) is Some ==> rank_at(
            symbols,
            ranks,
            p,
        )->0 < rank_at(symbols, ranks, q)->0 || (rank_at(symbols, ranks, p) == rank_at(
            symbols,
            ranks,
            q,
        ) && p <= q)
}

/// Whether the merge at `p` has the lowest rank of all, and is the first of it.
pub open spec fn is_best(symbols: Seq<Seq<char>>, ranks: Map<Seq<char>, i32>, p: int) -> bool {
    is_best_merge(symbols, ranks, symbols.len() - 1, p)
}

/// Whether any of the first `n` places can be merged.
pub open spec fn can_merge(symbols: Seq<Seq<char>>, ranks: Map<Seq<char>, i32>, n: int) -> bool {
    exists|p: int| 0 <= p < n && (#[trigger] rank_at(symbols, ranks, p)) is Some
}

/// The symbols after merging the one at `p` with the next.
pub open spec fn merge_at(symbols: Seq<Seq<char>>, p: int) -> Seq<Seq<char>> {
    symbols.remove(p + 1).update(p, symbols[p] + symbols[p + 1])
}

/// The symbols after merging while anything merges, always where the rank is lowest.
pub open spec fn merged(symbols: Seq<Seq<char>>, ranks: Map<Seq<char>, i32>) -> Seq<Seq<char>>
    decreases symbols.len(),
{
    if can_merge(symbols, ranks, symbols.len() - 1) {
        let p = choose|p: int| is_best(symbols, ranks, p);
        if 0 <= p < symbols.len() - 1 {
            merged(merge_at(symbols, p), ranks)
        } else {
            symbols
        }
    } else {
        symbols
    }
}

proof fn lemma_glued_push(parts: Seq<Seq<char>>, last: Seq<char>)
    ensures
        glued(parts.push(last)) == glued(parts) + last,
{
    assert(parts.push(last).drop_last() =~= parts);
}

proof fn lemma_glued_add(a: Seq<Seq<char>>, b: Seq<Seq<char>>)
    ensures
        glued(a + b) == glued(a) + glued(b),
    decreases b.len(),
{
    if b.len() == 0 {
        assert(a + b =~= a);
        assert(glued(a) + Seq::<char>::empty() =~= glued(a));
    } else {
        lemma_glued_add(a, b.drop_last());
        assert((a + b).drop_last() =~= a + b.drop_last());
        assert((a + b).last() == b.last());
        assert(glued(a + b) =~= glued(a) + glued(b));
    }
}

proof fn lemma_merge_at_keeps_text(symbols: Seq<Seq<char>>, p: int)
    requires
        0 <= p < symbols.len() - 1,
    ensures
        glued(merge_at(symbols, p)) == glued(symbols),
{
    let front = symbols.take(p);
    let back = symbols.skip(p + 2);
    let pair = seq![symbols[p], symbols[p + 1]];
    let one = seq![symbols[p] + symbols[p + 1]];
    assert(symbols =~= front + pair + back);
    assert(merge_at(symbols, p) =~= front + one + back);
    lemma_glued_add(front + pair, back);
    lemma_glued_add(front, pair);
    lemma_glued_add(front + one, back);
    lemma_glued_add(front, one);
    assert(glued(pair) =~= symbols[p] + symbols[p + 1]) by {
        reveal_with_fuel(glued, 4);
        assert(pair.drop_last() =~= seq![symbols[p]]);
        assert(pair.drop_last().drop_last() =~= Seq::<Seq<char>>::empty());
    }
    assert(glued(one) =~= symbols[p] + symbols[p + 1]) by {
        reveal_with_fuel(glued, 3);
        assert(one.drop_last() =~= Seq::<Seq<char>>::empty());
    }
}

/// Merging keeps the text that the symbols make up.
pub proof fn merging_keeps_the_text(symbols: Seq<Seq<char>>, ranks: Map<Seq<char>, i32>)
    ensures
        glued(merged(symbols, ranks)) == glued(symbols),
    decreases symbols.len(),
{
    if can_merge(symbols, ranks, symbols.len() - 1) {
        let p = choose|p: int| is_best(symbols, ranks, p);
        if 0 <= p < symbols.len() - 1 {
            lemma_merge_at_keeps_text(symbols, p);
            merging_keeps_the_text(merge_at(symbols, p), ranks);
        }
    }
}

proof fn lemma_best_merge_unique(
    symbols: Seq<Seq<char>>,
    ranks: Map<Seq<char>, i32>,
    n: int,
    p: int,
    q: int,
)
    requires
        is_best_merge(symbols, ranks, n, p),
        is_best_merge(symbols, ranks, n, q),
    ensures
        p == q,
{
    assert(rank_at(symbols, ranks, p) is Some);
    assert(rank_at(symbols, ranks, q) is Some);
}

/// The identifiers of the symbols that the vocabulary knows, among the first `n`.
pub open spec fn known_ids(symbols: Seq<Seq<char>>, vocab: Map<Seq<char>, u32>, n: int) -> Seq<u32>
    decreases n,
{
    if n <= 0 {
        Seq::empty()
    } else if vocab.contains_key(symbols[n - 1]) {
        known_ids(symbols, vocab, n - 1).push(vocab[symbols[n - 1]])
    } else {
        known_ids(symbols, vocab, n - 1)
    }
}

/// What encoding depends on.
pub ghost struct BpeView {
    pub vocab: Map<Seq<char>, u32>,
    pub ranks: Map<Seq<char>, i32>,
    pub specials: Seq<(Seq<char>, u32)>,
}

/// The identifiers of a word.
pub open spec fn word_ids(t: BpeView, word: Seq<char>) -> Seq<u32> {
    let letters = in_byte_alphabet(word);
    if word.len() == 0 {
        Seq::empty()
    } else if t.vocab.contains_key(letters) {
        seq![t.vocab[letters]]
    } else {
        let symbols = merged(single_chars(letters), t.ranks);
        known_ids(symbols, t.vocab, symbols.len() as int)
    }
}

/// The identifiers of the first `n` words.
pub open spec fn words_ids(t: BpeView, list: Seq<Seq<char>>, n: int) -> Seq<u32>
    decreases n,
{
    if n <= 0 {
        Seq::empty()
    } else {
        words_ids(t, list, n - 1) + word_ids(t, list[n - 1])
    }
}

// ---------------------------------------------------------------------
// Special tokens in a text
// ---------------------------------------------------------------------

/// Where a special token stands in a text, in characters.
#[derive(Debug, Clone, Copy, PartialEq, Eq, Structural)]
pub struct SpecialMatch {
    pub pos: usize,
    pub len: usize,
    pub id: u32,
}

/// The first place from `i` on at which a token stands.
pub open spec fn next_at(text: Seq<char>, token: Seq<char>, i: int) -> Option<int>
    decreases text.len() + 1 - i,
{
    if i < 0 || i + token.len() > text.len() || i > text.len() {
        None
    } else if occurs_at(text, token, i) {
        Some(i)
    } else {
        next_at(text, token, i + 1)
    }
}

/// The place that is found is the first one at which the token stands.
pub proof fn lemma_next_at(text: Seq<char>, token: Seq<char>, i: int)
    requires
        0 <= i,
    ensures
        match next_at(text, token, i) {
            Some(p) => i <= p && occurs_at(text, token, p) && forall|j: int|
                i <= j < p ==> !occurs_at(text, token, j),
            None => forall|j: int| i <= j ==> !occurs_at(text, token, j),
        },
    decreases text.len() + 1 - i,
{
    if i + token.len() <= text.len() && !occurs_at(text, token, i) {
        lemma_next_at(text, token, i + 1);
    }
}

/// The places of one token from `from` on, none overlapping the one before, behind those found.
pub open spec fn places_of(
    text: Seq<char>,
    token: Seq<char>,
    id: u32,
    from: int,
    found: Seq<SpecialMatch>,
) -> Seq<SpecialMatch>
    decreases text.len() - from,
{
    match next_at(text, token, from) {
        None => found,
        Some(p) => if token.len() == 0 || p < from || p + token.len() > text.len() {
            found
        } else {
            places_of(
                text,
                token,
                id,
                p + token.len(),
                found.push(SpecialMatch { pos: p as usize, len: token.len() as usize, id }),
            )
        },
    }
}

/// The places of the tokens from the `k`-th on, token by token, behind those found.
pub open spec fn all_places(
    text: Seq<char>,
    specials: Seq<(Seq<char>, u32)>,
    k: int,
    found: Seq<SpecialMatch>,
) -> Seq<SpecialMatch>
    decreases specials.len() - k,
{
    if k < 0 || k >= specials.len() {
        found
    } else {
        all_places(
            text,
            specials,
            k + 1,
            places_of(text, specials[k].0, specials[k].1, 0, found),
        )
    }
}

/// The order of places: the earlier one first, and at one place the longer one.
pub open spec fn place_le() -> spec_fn(SpecialMatch, SpecialMatch) -> bool {
    |a: SpecialMatch, b: SpecialMatch| a.pos < b.pos || (a.pos == b.pos && a.len >= b.len)
}

/// The places from the `i`-th on that do not reach into a kept one before them, behind those kept.
pub open spec fn kept_places(
    places: Seq<SpecialMatch>,
    i: int,
    end: int,
    kept: Seq<SpecialMatch>,
) -> Seq<SpecialMatch>
    decreases places.len() - i,
{
    if i < 0 || i >= places.len() {
        kept
    } else if places[i].pos >= end {
        kept_places(places, i + 1, places[i].pos + places[i].len, kept.push(places[i]))
    } else {
        kept_places(places, i + 1, end, kept)
    }
}

/// The parts of a text from `pos` on: special tokens with their identifiers, and what is between.
pub open spec fn parts_from(
    text: Seq<char>,
    kept: Seq<SpecialMatch>,
    i: int,
    pos: int,
    found: Seq<(Seq<char>, Option<u32>)>,
) -> Seq<(Seq<char>, Option<u32>)>
    decreases kept.len() - i,
{
    if i < 0 || i >= kept.len() {
        if pos < text.len() {
            found.push((text.skip(pos), None))
        } else {
            found
        }
    } else {
        let m = kept[i];
        let before = if m.pos > pos {
            found.push((text.subrange(pos, m.pos as int), None))
        } else {
            found
        };
        parts_from(
            text,
            kept,
            i + 1,
            m.pos + m.len,
            before.push((text.subrange(m.pos as int, m.pos + m.len), Some(m.id))),
        )
    }
}

/// The places at which special tokens are recognised, in the order of the text.
pub open spec fn recognised(text: Seq<char>, specials: Seq<(Seq<char>, u32)>) -> Seq<SpecialMatch> {
    let all = all_places(text, specials, 0, Seq::empty());
    kept_places(listed(all, order_of(all, place_le())), 0, 0, Seq::empty())
}

/// The parts of a text: special tokens with their identifiers, and what is between.
pub open spec fn text_parts(text: Seq<char>, specials: Seq<(Seq<char>, u32)>) -> Seq<
    (Seq<char>, Option<u32>),
> {
    parts_from(text, recognised(text, specials), 0, 0, Seq::empty())
}

/// The texts of the parts.
pub open spec fn part_texts(parts: Seq<(Seq<char>, Option<u32>)>) -> Seq<Seq<char>> {
    parts.map_values(|p: (Seq<char>, Option<u32>)| p.0)
}

/// The identifiers of the parts.
pub open spec fn part_ids(parts: Seq<(Seq<char>, Option<u32>)>) -> Seq<Option<u32>> {
    parts.map_values(|p: (Seq<char>, Option<u32>)| p.1)
}

/// Whether every place lies in the text.
pub open spec fn places_inside(places: Seq<SpecialMatch>, len: nat) -> bool {
    forall|i: int|
        0 <= i < places.len() ==> (#[trigger] places[i]).pos + places[i].len <= len && places[i].len
            > 0
}

/// The first place from a position on at which a token stands.
pub(crate) fn find_from(text: &Vec<char>, token: &Vec<char>, from: usize) -> (r: Option<usize>)
    requires
        from <= text@.len(),
    ensures
        match r {
            Some(p) => next_at(text@, token@, from as int) == Some(p as int),
            None => next_at(text@, token@, from as int) is None,
        },
{
    let mut i: usize = from;
    while i <= text.len() && token.len() <= text.len() - i
        invariant
            from <= i <= text@.len() + 1,
            next_at(text@, token@, from as int) == next_at(text@, token@, i as int),
        decreases text@.len() + 1 - i,
    {
        if chars_occur_at(text.as_slice(), token.as_slice(), i) {
            return Some(i);
        }
        if i == text.len() {
            assert(next_at(text@, token@, i as int + 1) is None);
            return None;
        }
        i = i + 1;
    }
    None
}

pub(crate) proof fn lemma_places_compare()
    ensures
        compares(place_le()),
{
}

fn find_places(text: &Vec<char>, specials: &[(String, u32)]) -> (r: Vec<SpecialMatch>)
    requires
        forall|k: int| 0 <= k < specials@.len() ==> (#[trigger] specials@[k]).0@.len() > 0,
    ensures
        r@ == all_places(text@, named(specials@), 0, Seq::empty()),
        places_inside(r@, text@.len()),
{
    let ghost list = named(specials@);
    let mut found: Vec<SpecialMatch> = Vec::new();
    let mut k: usize = 0;
    while k < specials.len()
        invariant
            k <= specials@.len(),
            list == named(specials@),
            forall|k: int| 0 <= k < specials@.len() ==> (#[trigger] specials@[k]).0@.len() > 0,
            all_places(text@, list, 0, Seq::empty()) == all_places(
                text@,
                list,
                k as int,
                found@,
            ),
            places_inside(found@, text@.len()),
        decreases specials@.len() - k,
    {
        let token = to_chars(specials[k].0.as_str());
        let id: u32 = specials[k].1;
        let ghost start = found@;
        assert(list[k as int] == (token@, id));
        let mut pos: usize = 0;
        let mut done: bool = false;
        let limit: usize = text.len();
        while !done
            invariant
                limit == text@.len(),
                pos <= text@.len(),
                token@.len() > 0,
                places_inside(found@, text@.len()),
                done ==> found@ == places_of(text@, token@, id, 0, start),
                !done ==> places_of(text@, token@, id, 0, start) == places_of(
                    text@,
                    token@,
                    id,
                    pos as int,
                    found@,
                ),
            decreases (if done {
                0
            } else {
                text@.len() - pos + 1
            }),
        {
            proof {
                lemma_next_at(text@, token@, pos as int);
            }
            match find_from(text, &token, pos) {
                None => {
                    done = true;
                },
                Some(p) => {
                    found.push(SpecialMatch { pos: p, len: token.len(), id });
                    pos = p + token.len();
                },
            }
        }
        k = k + 1;
    }
    found
}

proof fn lemma_kept_inside(
    places: Seq<SpecialMatch>,
    i: int,
    end: int,
    kept: Seq<SpecialMatch>,
    len: nat,
)
    requires
        0 <= i,
        places_inside(places, len),
        places_inside(kept, len),
        disjoint(kept),
        kept.len() > 0 ==> end == kept.last().pos + kept.last().len,
    ensures
        places_inside(kept_places(places, i, end, kept), len),
        disjoint(kept_places(places, i, end, kept)),
    decreases places.len() - i,
{
    if i < places.len() {
        if places[i].pos >= end {
            let next = kept.push(places[i]);
            lemma_kept_inside(places, i + 1, places[i].pos + places[i].len, next, len);
        } else {
            lemma_kept_inside(places, i + 1, end, kept, len);
        }
    }
}

/// Whether each place ends before the next one starts.
pub open spec fn disjoint(places: Seq<SpecialMatch>) -> bool {
    forall|i: int|
        0 < i < places.len() ==> places[i - 1].pos + places[i - 1].len <= (#[trigger] places[i]).pos
}

/// Splits a text at its special tokens.
pub fn split_on_specials(text: &str, specials: &[(String, u32)]) -> (r: (
    Vec<String>,
    Vec<Option<u32>>,
))
    requires
        forall|k: int| 0 <= k < specials@.len() ==> (#[trigger] specials@[k]).0@.len() > 0,
    ensures
        strings(r.0@) == part_texts(text_parts(text@, named(specials@))),
        r.1@ == part_ids(text_parts(text@, named(specials@))),
{
    let chars = to_chars(text);
    let places = find_places(&chars, specials);
    let ghost all = places@;
    proof {
        lemma_places_compare();
    }
    let ghost rel = place_le();
    let le = |a: &SpecialMatch, b: &SpecialMatch| -> (v: bool)
        ensures
            v == (a.pos < b.pos || (a.pos == b.pos && a.len >= b.len)),
    { a.pos < b.pos || (a.pos == b.pos && a.len >= b.len) };
    let order = stable_order(&places, le, Ghost(rel));
    let ghost sorted = listed(all, order@);
    assert(places_inside(sorted, text@.len()));
    let mut kept: Vec<SpecialMatch> = Vec::new();
    let limit: usize = chars.len();
    let mut end: usize = 0;
    let mut i: usize = 0;
    while i < order.len()
        invariant
            limit == chars@.len(),
            i <= order@.len(),
            order@.len() == places@.len(),
            crate::order::all_within(order@, 0, places@.len() as int),
            sorted == listed(places@, order@),
            places_inside(sorted, chars@.len()),
            kept_places(sorted, 0, 0, Seq::empty()) == kept_places(
                sorted,
                i as int,
                end as int,
                kept@,
            ),
        decreases order@.len() - i,
    {
        let m = places[order[i]];
        assert(m == sorted[i as int]);
        if m.pos >= end {
            kept.push(m);
            end = m.pos + m.len;
        }
        i = i + 1;
    }
    proof {
        lemma_kept_inside(sorted, 0, 0, Seq::empty(), chars@.len());
    }
    let mut segments: Vec<String> = Vec::new();
    let mut ids: Vec<Option<u32>> = Vec::new();
    let ghost mut parts: Seq<(Seq<char>, Option<u32>)> = Seq::empty();
    let mut pos: usize = 0;
    let mut k: usize = 0;
    assert(strings(segments@) =~= part_texts(parts));
    assert(ids@ =~= part_ids(parts));
    while k < kept.len()
        invariant
            limit == chars@.len(),
            k <= kept@.len(),
            chars@ == text@,
            pos <= chars@.len(),
            places_inside(kept@, chars@.len()),
            disjoint(kept@),
            k > 0 ==> pos == kept@[k - 1].pos + kept@[k - 1].len,
            k == 0 ==> pos == 0,
            parts_from(text@, kept@, 0, 0, Seq::empty()) == parts_from(
                text@,
                kept@,
                k as int,
                pos as int,
                parts,
            ),
            strings(segments@) == part_texts(parts),
            ids@ == part_ids(parts),
        decreases kept@.len() - k,
    {
        let m = kept[k];
        if m.pos > pos {
            let ghost before = segments@;
            let ghost before_parts = parts;
            let s = from_chars(slice_subrange(chars.as_slice(), pos, m.pos));
            let ghost piece = s@;
            segments.push(s);
            ids.push(None);
            proof {
                parts = parts.push((piece, None));
                assert(strings(segments@) =~= strings(before).push(piece));
                assert(part_texts(parts) =~= part_texts(before_parts).push(piece));
                assert(part_ids(parts) =~= part_ids(before_parts).push(None));
            }
        }
        let ghost before = segments@;
        let ghost before_parts = parts;
        let s = from_chars(slice_subrange(chars.as_slice(), m.pos, m.pos + m.len));
        let ghost piece = s@;
        segments.push(s);
        ids.push(Some(m.id));
        proof {
            parts = parts.push((piece, Some(m.id)));
            assert(strings(segments@) =~= strings(before).push(piece));
            assert(part_texts(parts) =~= part_texts(before_parts).push(piece));
            assert(part_ids(parts) =~= part_ids(before_parts).push(Some(m.id)));
        }
        pos = m.pos + m.len;
        k = k + 1;
    }
    if pos < chars.len() {
        let ghost before = segments@;
        let ghost before_parts = parts;
        let s = from_chars(slice_subrange(chars.as_slice(), pos, chars.len()));
        let ghost piece = s@;
        segments.push(s);
        ids.push(None);
        proof {
            parts = parts.push((piece, None));
            assert(piece =~= text@.skip(pos as int));
            assert(strings(segments@) =~= strings(before).push(piece));
            assert(part_texts(parts) =~= part_texts(before_parts).push(piece));
            assert(part_ids(parts) =~= part_ids(before_parts).push(None));
        }
    }
    (segments, ids)
}

// ---------------------------------------------------------------------
// The tokenizer
// ---------------------------------------------------------------------

impl View for S2CppBpeTokenizer {
    type V = BpeView;

    closed spec fn view(&self) -> BpeView {
        BpeView {
            vocab: self.vocab@,
            ranks: self.merge_rank@,
            specials: named(self.special_tokens@),
        }
    }
}

/// The vocabulary after the first `n` added tokens; nameless ones are passed over.
pub open spec fn added_vocab(tokens: Seq<AddedToken>, n: int) -> Map<Seq<char>, u32>
    decreases n,
{
    if n <= 0 {
        Map::empty()
    } else if tokens[n - 1].content@.len() == 0 {
        added_vocab(tokens, n - 1)
    } else {
        added_vocab(tokens, n - 1).insert(tokens[n - 1].content@, tokens[n - 1].id)
    }
}

/// The special ones among the first `n` added tokens; nameless ones are passed over.
pub open spec fn added_specials(tokens: Seq<AddedToken>, n: int) -> Seq<(Seq<char>, u32)>
    decreases n,
{
    if n <= 0 {
        Seq::empty()
    } else if tokens[n - 1].content@.len() > 0 && tokens[n - 1].special {
        added_specials(tokens, n - 1).push((tokens[n - 1].content@, tokens[n - 1].id))
    } else {
        added_specials(tokens, n - 1)
    }
}

/// The vocabulary with the first `n` entries added that it did not have.
pub open spec fn with_entries(
    vocab: Map<Seq<char>, u32>,
    entries: Seq<(String, u32)>,
    n: int,
) -> Map<Seq<char>, u32>
    decreases n,
{
    if n <= 0 {
        vocab
    } else {
        let before = with_entries(vocab, entries, n - 1);
        if before.contains_key(entries[n - 1].0@) {
            before
        } else {
            before.insert(entries[n - 1].0@, entries[n - 1].1)
        }
    }
}

/// The text that a merge makes, where its line has a space to split at.
pub open spec fn merge_text(entry: MergeEntry) -> Option<Seq<char>> {
    match entry {
        MergeEntry::Pair(a, b) => Some(a@ + b@),
        MergeEntry::Line(line) => match next_at(line@, seq![' '], 0) {
            None => None,
            Some(p) => Some(line@.take(p) + line@.skip(p + 1)),
        },
    }
}

/// The ranks of the first `n` merges by the text that they make; the last one of a text counts.
pub open spec fn ranks_of(entries: Seq<MergeEntry>, n: int) -> Result<
    Map<Seq<char>, i32>,
    ErrorView,
>
    decreases n,
{
    if n <= 0 {
        Ok(Map::empty())
    } else {
        match ranks_of(entries, n - 1) {
            Err(e) => Err(e),
            Ok(before) => match merge_text(entries[n - 1]) {
                None => Err(message("invalid merge line"@)),
                Some(text) => Ok(before.insert(text, (n - 1) as i32)),
            },
        }
    }
}

/// The lengths of the names in bytes.
pub open spec fn byte_lengths(tokens: Seq<(Seq<char>, u32)>) -> Seq<usize> {
    tokens.map_values(|t: (Seq<char>, u32)| encode_utf8(t.0).len() as usize)
}

/// The order of lengths, the longer one first.
pub open spec fn longer_first() -> spec_fn(usize, usize) -> bool {
    |a: usize, b: usize| a >= b
}

/// The tokens by the length of their names, the longest first.
pub open spec fn longest_first(tokens: Seq<(Seq<char>, u32)>) -> Seq<(Seq<char>, u32)> {
    listed(tokens, order_of(byte_lengths(tokens), longer_first()))
}

/// The added tokens of a document.
pub open spec fn tokens_of(doc: TokenizerDocument) -> Seq<AddedToken> {
    match doc.added_tokens {
        Some(v) => v@,
        None => Seq::empty(),
    }
}

/// The merges of a document.
pub open spec fn merges_of(doc: TokenizerDocument) -> Seq<MergeEntry> {
    match doc.model {
        Some(m) => m.merges@,
        None => Seq::empty(),
    }
}

/// The vocabulary entries of a document.
pub open spec fn entries_of(doc: TokenizerDocument) -> Seq<(String, u32)> {
    match doc.model {
        Some(m) => m.vocab@,
        None => Seq::empty(),
    }
}

/// The tokenizer that a document describes.
pub open spec fn described(doc: TokenizerDocument) -> Result<BpeView, ErrorView> {
    let tokens = tokens_of(doc);
    let entries = entries_of(doc);
    match ranks_of(merges_of(doc), merges_of(doc).len() as int) {
        Err(e) => Err(e),
        Ok(ranks) => Ok(
            BpeView {
                vocab: with_entries(
                    added_vocab(tokens, tokens.len() as int),
                    entries,
                    entries.len() as int,
                ),
                ranks,
                specials: longest_first(added_specials(tokens, tokens.len() as int)),
            },
        ),
    }
}

proof fn lemma_ranks_error(entries: Seq<MergeEntry>, n: int, m: int)
    requires
        0 <= n <= m,
        ranks_of(entries, n) is Err,
    ensures
        ranks_of(entries, m) == ranks_of(entries, n),
    decreases m - n,
{
    if n < m {
        lemma_ranks_error(entries, n, m - 1);
    }
}

fn merge_ranks(entries: &Vec<MergeEntry>) -> (r: Result<StringHashMap<i32>, InferError>)
    requires
        entries@.len() <= 0x8000_0000,
    ensures
        match r {
            Ok(m) => ranks_of(entries@, entries@.len() as int) == Ok::<
                Map<Seq<char>, i32>,
                ErrorView,
            >(m@),
            Err(e) => ranks_of(entries@, entries@.len() as int) == Err::<
                Map<Seq<char>, i32>,
                ErrorView,
            >(e@),
        },
{
    let mut ranks: StringHashMap<i32> = StringHashMap::new();
    let mut i: usize = 0;
    while i < entries.len()
        invariant
            i <= entries@.len() <= 0x8000_0000,
            ranks_of(entries@, i as int) == Ok::<Map<Seq<char>, i32>, ErrorView>(ranks@),
        decreases entries@.len() - i,
    {
        let text = match &entries[i] {
            MergeEntry::Pair(a, b) => a.clone().concat(b.as_str()),
            MergeEntry::Line(line) => {
                let chars = to_chars(line.as_str());
                let mut space: Vec<char> = Vec::new();
                space.push(' ');
                assert(space@ =~= seq![' ']);
                match find_from(&chars, &space, 0) {
                    None => {
                        proof {
                            lemma_ranks_error(entries@, i as int + 1, entries@.len() as int);
                        }
                        return Err(InferError::text("invalid merge line"));
                    },
                    Some(p) => {
                        proof {
                            lemma_next_at(chars@, space@, 0);
                        }
                        let end: usize = chars.len();
                        let a = from_chars(slice_subrange(chars.as_slice(), 0, p));
                        let b = from_chars(slice_subrange(chars.as_slice(), p + 1, end));
                        assert(a@ =~= line@.take(p as int));
                        assert(b@ =~= line@.skip(p as int + 1));
                        a.concat(b.as_str())
                    },
                }
            },
        };
        ranks.insert(text, i as i32);
        i = i + 1;
    }
    Ok(ranks)
}

fn sort_specials(tokens: Vec<(String, u32)>) -> (r: Vec<(String, u32)>)
    ensures
        named(r@) == longest_first(named(tokens@)),
{
    let mut lengths: Vec<usize> = Vec::new();
    let mut i: usize = 0;
    while i < tokens.len()
        invariant
            i <= tokens@.len(),
            lengths@ == byte_lengths(named(tokens@)).take(i as int),
        decreases tokens@.len() - i,
    {
        let n: usize = tokens[i].0.as_str().as_bytes().len();
        lengths.push(n);
        assert(named(tokens@)[i as int] == (tokens@[i as int].0@, tokens@[i as int].1));
        assert(byte_lengths(named(tokens@)).take(i as int + 1) =~= byte_lengths(
            named(tokens@),
        ).take(i as int).push(n));
        i = i + 1;
    }
    assert(lengths@ =~= byte_lengths(named(tokens@)));
    let ghost rel = longer_first();
    let le = |a: &usize, b: &usize| -> (v: bool)
        ensures
            v == (*a >= *b),
    { *a >= *b };
    let order = stable_order(&lengths, le, Ghost(rel));
    let ghost sorted = listed(named(tokens@), order@);
    let mut out: Vec<(String, u32)> = Vec::new();
    let mut k: usize = 0;
    while k < order.len()
        invariant
            k <= order@.len(),
            order@.len() == tokens@.len(),
            crate::order::all_within(order@, 0, tokens@.len() as int),
            sorted == listed(named(tokens@), order@),
            named(out@) == sorted.take(k as int),
        decreases order@.len() - k,
    {
        let ghost before = out@;
        let at: usize = order[k];
        out.push((tokens[at].0.clone(), tokens[at].1));
        proof {
            let item = (tokens@[at as int].0@, tokens@[at as int].1);
            assert(named(tokens@)[at as int] == item);
            assert(named(out@) =~= named(before).push(item));
            assert(sorted.take(k as int + 1) =~= sorted.take(k as int).push(item));
        }
        k = k + 1;
    }
    assert(sorted.take(k as int) =~= sorted);
    out
}

proof fn lemma_specials_named(tokens: Seq<AddedToken>, n: int, k: int)
    requires
        0 <= k < added_specials(tokens, n).len(),
    ensures
        added_specials(tokens, n)[k].0.len() > 0,
    decreases n,
{
    if n > 0 && k < added_specials(tokens, n - 1).len() {
        lemma_specials_named(tokens, n - 1, k);
    }
}

impl S2CppBpeTokenizer {
    #[verifier::type_invariant]
    spec fn well_formed(self) -> bool {
        forall|k: int|
            0 <= k < self.special_tokens@.len() ==> (#[trigger] self.special_tokens@[k]).0@.len()
                > 0
    }

    /// The tokenizer that a document describes.
    pub fn from_document(doc: TokenizerDocument) -> (r: Result<S2CppBpeTokenizer, InferError>)
        requires
            merges_of(doc).len() <= 0x8000_0000,
        ensures
            match r {
                Ok(t) => described(doc) == Ok::<BpeView, ErrorView>(t@),
                Err(e) => described(doc) == Err::<BpeView, ErrorView>(e@),
            },
    {
        let ghost tokens = tokens_of(doc);
        let ghost entries = entries_of(doc);
        let mut vocab: StringHashMap<u32> = StringHashMap::new();
        let mut specials: Vec<(String, u32)> = Vec::new();
        assert(named(specials@) =~= added_specials(tokens, 0));
        if let Some(added) = &doc.added_tokens {
            let mut i: usize = 0;
            while i < added.len()
                invariant
                    i <= added@.len(),
                    tokens == added@,
                    vocab@ == added_vocab(tokens, i as int),
                    named(specials@) == added_specials(tokens, i as int),
                decreases added@.len() - i,
            {
                let token = &added[i];
                if !token.content.as_str().is_empty() {
                    vocab.insert(token.content.clone(), token.id);
                    if token.special {
                        let ghost before = specials@;
                        specials.push((token.content.clone(), token.id));
                        assert(named(specials@) =~= named(before).push((token.content@, token.id)));
                    }
                }
                i = i + 1;
            }
        }
        let ghost base = vocab@;
        let ranks: StringHashMap<i32> = match &doc.model {
            None => {
                let m: StringHashMap<i32> = StringHashMap::new();
                m
            },
            Some(model) => {
                let mut i: usize = 0;
                while i < model.vocab.len()
                    invariant
                        i <= model.vocab@.len(),
                        entries == model.vocab@,
                        vocab@ == with_entries(base, entries, i as int),
                    decreases model.vocab@.len() - i,
                {
                    if !vocab.contains_key(model.vocab[i].0.as_str()) {
                        vocab.insert(model.vocab[i].0.clone(), model.vocab[i].1);
                    }
                    i = i + 1;
                }
                match merge_ranks(&model.merges) {
                    Err(e) => {
                        return Err(e);
                    },
                    Ok(m) => m,
                }
            },
        };
        let ghost unsorted = named(specials@);
        let count: usize = specials.len();
        let special_tokens = sort_specials(specials);
        proof {
            let lens = byte_lengths(unsorted);
            assert(lens.len() == count);
            let order = order_of(lens, longer_first());
            lemma_lengths_have_order(lens);
            assert forall|k: int| 0 <= k < special_tokens@.len() implies (
            #[trigger] special_tokens@[k]).0@.len() > 0 by {
                assert(named(special_tokens@).len() == special_tokens@.len());
                assert(named(special_tokens@)[k].0 == special_tokens@[k].0@);
                assert(longest_first(unsorted).len() == order.len());
                assert(longest_first(unsorted)[k] == unsorted[order[k] as int]);
                assert(0 <= order[k] < lens.len());
                lemma_specials_named(tokens, tokens.len() as int, order[k] as int);
            }
        }
        Ok(S2CppBpeTokenizer { vocab, merge_rank: ranks, special_tokens })
    }

    /// The identifier of a token.
    pub fn token_to_id(&self, token: &str) -> (r: Option<u32>)
        ensures
            r == (if self@.vocab.contains_key(token@) {
                Some(self@.vocab[token@])
            } else {
                None::<u32>
            }),
    {
        match self.vocab.get(token) {
            Some(id) => Some(*id),
            None => None,
        }
    }

    /// The identifiers of a word.
    pub fn bpe_encode_word(&self, word: &str) -> (r: Vec<u32>)
        ensures
            r@ == word_ids(self@, word@),
    {
        let mut ids: Vec<u32> = Vec::new();
        if word.is_empty() {
            assert(ids@ =~= word_ids(self@, word@));
            return ids;
        }
        let letters = bytelevel_encode_utf8(word);
        if let Some(id) = self.vocab.get(letters.as_str()) {
            ids.push(*id);
            assert(ids@ =~= word_ids(self@, word@));
            return ids;
        }
        let symbols = self.merge_symbols(utf8_chars(letters.as_str()));
        let ghost texts = strings(symbols@);
        let mut i: usize = 0;
        while i < symbols.len()
            invariant
                i <= symbols@.len(),
                texts == strings(symbols@),
                ids@ == known_ids(texts, self.vocab@, i as int),
            decreases symbols@.len() - i,
        {
            assert(texts[i as int] == symbols@[i as int]@);
            if let Some(id) = self.vocab.get(symbols[i].as_str()) {
                ids.push(*id);
            }
            i = i + 1;
        }
        ids
    }

    fn best_merge(&self, symbols: &Vec<String>) -> (r: Option<usize>)
        ensures
            match r {
                Some(p) => p < symbols@.len() - 1 && is_best(
                    strings(symbols@),
                    self.merge_rank@,
                    p as int,
                ),
                None => !can_merge(
                    strings(symbols@),
                    self.merge_rank@,
                    symbols@.len() - 1,
                ),
            },
    {
        let ghost texts = strings(symbols@);
        let ghost ranks = self.merge_rank@;
        let mut best_rank: i32 = i32::MAX;
        let mut best_pos: Option<usize> = None;
        let count: usize = symbols.len();
        let mut i: usize = 0;
        while i < count && i + 1 < count
            invariant
                count == symbols@.len(),
                i <= symbols@.len(),
                i > 0 ==> i < symbols@.len(),
                texts == strings(symbols@),
                ranks == self.merge_rank@,
                match best_pos {
                    Some(p) => is_best_merge(texts, ranks, i as int, p as int) && rank_at(
                        texts,
                        ranks,
                        p as int,
                    ) == Some(best_rank),
                    None => best_rank == i32::MAX && !can_merge(texts, ranks, i as int),
                },
            decreases symbols@.len() - i,
        {
            let pair = symbols[i].clone().concat(symbols[i + 1].as_str());
            assert(pair@ == texts[i as int] + texts[i as int + 1]);
            if let Some(rank) = self.merge_rank.get(pair.as_str()) {
                if *rank < best_rank {
                    best_rank = *rank;
                    best_pos = Some(i);
                    assert(rank_at(texts, ranks, i as int) == Some(best_rank));
                }
            }
            i = i + 1;
        }
        best_pos
    }

    fn merge_symbols(&self, start: Vec<String>) -> (r: Vec<String>)
        ensures
            strings(r@) == merged(strings(start@), self.merge_rank@),
    {
        let ghost first = strings(start@);
        let mut symbols = start;
        let mut done: bool = false;
        while !done
            invariant
                done ==> strings(symbols@) == merged(first, self.merge_rank@),
                !done ==> merged(first, self.merge_rank@) == merged(
                    strings(symbols@),
                    self.merge_rank@,
                ),
            decreases (if done {
                0
            } else {
                symbols@.len() + 1
            }),
        {
            let ghost texts = strings(symbols@);
            let count: usize = symbols.len();
            match self.best_merge(&symbols) {
                None => {
                    done = true;
                },
                Some(p) => {
                    proof {
                        let q = choose|q: int| is_best(texts, self.merge_rank@, q);
                        assert(is_best(texts, self.merge_rank@, p as int));
                        lemma_best_merge_unique(
                            texts,
                            self.merge_rank@,
                            texts.len() - 1,
                            p as int,
                            q,
                        );
                        assert(can_merge(texts, self.merge_rank@, texts.len() - 1));
                    }
                    let right = symbols.remove(p + 1);
                    let both = symbols[p].clone().concat(right.as_str());
                    let ghost both_text = both@;
                    symbols.set(p, both);
                    proof {
                        assert(both_text == texts[p as int] + texts[p as int + 1]);
                        assert(strings(symbols@) =~= merge_at(texts, p as int));
                    }
                },
            }
        }
        symbols
    }

    /// The identifiers of a text.
    pub fn encode(&self, text: &str) -> (r: Vec<u32>)
        ensures
            r@ == encoded(self@, text@),
    {
        proof {
            use_type_invariant(self);
        }
        let mut ids: Vec<u32> = Vec::new();
        if text.is_empty() {
            assert(ids@ =~= encoded(self@, text@));
            return ids;
        }
        let (segments, special_ids) = split_on_specials(text, self.special_tokens.as_slice());
        let ghost parts = text_parts(text@, self@.specials);
        proof {
            assert(part_texts(parts).len() == parts.len());
            assert(part_ids(parts).len() == parts.len());
        }
        let mut i: usize = 0;
        while i < segments.len()
            invariant
                i <= segments@.len(),
                segments@.len() == parts.len(),
                special_ids@.len() == parts.len(),
                strings(segments@) == part_texts(parts),
                special_ids@ == part_ids(parts),
                ids@ == parts_ids(self@, parts, i as int),
            decreases segments@.len() - i,
        {
            proof {
                assert(strings(segments@)[i as int] == segments@[i as int]@);
                assert(part_texts(parts)[i as int] == parts[i as int].0);
                assert(part_ids(parts)[i as int] == parts[i as int].1);
            }
            match special_ids[i] {
                Some(id) => {
                    let ghost before = ids@;
                    ids.push(id);
                    assert(ids@ =~= before + seq![id]);
                },
                None => {
                    let list = pre_tokenize(segments[i].as_str());
                    let ghost texts = strings(list@);
                    let ghost before = ids@;
                    let mut k: usize = 0;
                    assert(before + Seq::<u32>::empty() =~= before);
                    while k < list.len()
                        invariant
                            k <= list@.len(),
                            texts == strings(list@),
                            ids@ == before + words_ids(self@, texts, k as int),
                        decreases list@.len() - k,
                    {
                        assert(texts[k as int] == list@[k as int]@);
                        let mut more = self.bpe_encode_word(list[k].as_str());
                        let ghost old_ids = ids@;
                        let ghost added = more@;
                        ids.append(&mut more);
                        assert(ids@ =~= before + (words_ids(self@, texts, k as int) + added));
                        k = k + 1;
                    }
                },
            }
            i = i + 1;
        }
        ids
    }
}

proof fn lemma_lengths_have_order(lens: Seq<usize>)
    requires
        lens.len() <= usize::MAX,
    ensures
        is_order_of(order_of(lens, longer_first()), lens, longer_first()),
{
    crate::order::an_order_exists(lens, longer_first());
}

/// The identifiers of the first `n` parts of a text.
pub open spec fn parts_ids(t: BpeView, parts: Seq<(Seq<char>, Option<u32>)>, n: int) -> Seq<u32>
    decreases n,
{
    if n <= 0 {
        Seq::empty()
    } else {
        let part = parts[n - 1];
        parts_ids(t, parts, n - 1) + (match part.1 {
            Some(id) => seq![id],
            None => words_ids(t, words(part.0), words(part.0).len() as int),
        })
    }
}

/// The identifiers of a text: those of its special tokens, and those of the words between them.
pub open spec fn encoded(t: BpeView, text: Seq<char>) -> Seq<u32> {
    if text.len() == 0 {
        Seq::empty()
    } else {
        let parts = text_parts(text, t.specials);
        parts_ids(t, parts, parts.len() as int)
    }
}

// ---------------------------------------------------------------------
// What holds of encoding
// ---------------------------------------------------------------------

proof fn lemma_glue_part(
    text: Seq<char>,
    found: Seq<(Seq<char>, Option<u32>)>,
    pos: int,
    end: int,
    id: Option<u32>,
)
    requires
        0 <= pos <= end <= text.len(),
        glued(part_texts(found)) == text.take(pos),
    ensures
        glued(part_texts(found.push((text.subrange(pos, end), id)))) == text.take(end),
{
    let piece = text.subrange(pos, end);
    assert(part_texts(found.push((piece, id))) =~= part_texts(found).push(piece));
    lemma_glued_push(part_texts(found), piece);
    assert(text.take(pos) + piece =~= text.take(end));
}

proof fn lemma_parts_glue(
    text: Seq<char>,
    kept: Seq<SpecialMatch>,
    i: int,
    pos: int,
    found: Seq<(Seq<char>, Option<u32>)>,
)
    requires
        0 <= i <= kept.len(),
        0 <= pos <= text.len(),
        places_inside(kept, text.len()),
        disjoint(kept),
        i > 0 ==> pos == kept[i - 1].pos + kept[i - 1].len,
        i == 0 ==> pos == 0,
        glued(part_texts(found)) == text.take(pos),
    ensures
        glued(part_texts(parts_from(text, kept, i, pos, found))) == text,
    decreases kept.len() - i,
{
    if i < kept.len() {
        let m = kept[i];
        assert(pos <= m.pos);
        let before = if m.pos > pos {
            found.push((text.subrange(pos, m.pos as int), None::<u32>))
        } else {
            found
        };
        if m.pos > pos {
            lemma_glue_part(text, found, pos, m.pos as int, None);
        }
        let next = before.push((text.subrange(m.pos as int, m.pos + m.len), Some(m.id)));
        lemma_glue_part(text, before, m.pos as int, m.pos + m.len, Some(m.id));
        lemma_parts_glue(text, kept, i + 1, m.pos + m.len, next);
    } else {
        assert(text.take(text.len() as int) =~= text);
        if pos < text.len() {
            assert(text.skip(pos) =~= text.subrange(pos, text.len() as int));
            lemma_glue_part(text, found, pos, text.len() as int, None);
        }
    }
}

proof fn lemma_places_inside(
    text: Seq<char>,
    token: Seq<char>,
    id: u32,
    from: int,
    found: Seq<SpecialMatch>,
    names: Seq<(Seq<char>, u32)>,
)
    requires
        0 <= from,
        text.len() <= usize::MAX,
        names.contains((token, id)),
        all_stand(text, names, found),
    ensures
        all_stand(text, names, places_of(text, token, id, from, found)),
    decreases text.len() - from,
{
    lemma_next_at(text, token, from);
    match next_at(text, token, from) {
        None => {},
        Some(p) => {
            if !(token.len() == 0 || p < from || p + token.len() > text.len()) {
                let m = SpecialMatch { pos: p as usize, len: token.len() as usize, id };
                let next = found.push(m);
                assert(text.subrange(p, p + token.len()) == token);
                assert(is_place_of(text, names, m));
                assert(all_stand(text, names, next));
                lemma_places_inside(text, token, id, p + token.len(), next, names);
            }
        },
    }
}

/// Whether one of the named tokens stands at the place, under its identifier.
pub open spec fn is_place_of(
    text: Seq<char>,
    names: Seq<(Seq<char>, u32)>,
    m: SpecialMatch,
) -> bool {
    &&& m.len > 0
    &&& m.pos + m.len <= text.len()
    &&& names.contains((text.subrange(m.pos as int, m.pos + m.len), m.id))
}

/// Whether a named token stands at each of the places.
pub open spec fn all_stand(
    text: Seq<char>,
    names: Seq<(Seq<char>, u32)>,
    places: Seq<SpecialMatch>,
) -> bool {
    forall|i: int| 0 <= i < places.len() ==> is_place_of(text, names, #[trigger] places[i])
}

proof fn lemma_all_places(
    text: Seq<char>,
    names: Seq<(Seq<char>, u32)>,
    k: int,
    found: Seq<SpecialMatch>,
)
    requires
        0 <= k,
        text.len() <= usize::MAX,
        all_stand(text, names, found),
    ensures
        all_stand(text, names, all_places(text, names, k, found)),
    decreases names.len() - k,
{
    if k < names.len() {
        assert(names[k] == (names[k].0, names[k].1));
        lemma_places_inside(text, names[k].0, names[k].1, 0, found, names);
        lemma_all_places(
            text,
            names,
            k + 1,
            places_of(text, names[k].0, names[k].1, 0, found),
        );
    }
}

proof fn lemma_kept_from(
    places: Seq<SpecialMatch>,
    i: int,
    end: int,
    kept: Seq<SpecialMatch>,
    text: Seq<char>,
    names: Seq<(Seq<char>, u32)>,
)
    requires
        0 <= i,
        all_stand(text, names, places),
        all_stand(text, names, kept),
    ensures
        all_stand(text, names, kept_places(places, i, end, kept)),
    decreases places.len() - i,
{
    if i < places.len() {
        if places[i].pos >= end {
            let next = kept.push(places[i]);
            assert(is_place_of(text, names, places[i]));
            assert(all_stand(text, names, next));
            lemma_kept_from(places, i + 1, places[i].pos + places[i].len, next, text, names);
        } else {
            lemma_kept_from(places, i + 1, end, kept, text, names);
        }
    }
}

/// Special tokens are recognised only where they stand in the text, under their own identifiers,
/// and no two recognised ones overlap.
pub proof fn recognised_tokens_stand_in_the_text(text: Seq<char>, names: Seq<(Seq<char>, u32)>)
    requires
        text.len() <= usize::MAX,
        all_places(text, names, 0, Seq::empty()).len() <= usize::MAX,
    ensures
        all_stand(text, names, recognised(text, names)),
        disjoint(recognised(text, names)),
{
    let all = all_places(text, names, 0, Seq::empty());
    lemma_all_places(text, names, 0, Seq::empty());
    lemma_places_compare();
    crate::order::an_order_exists(all, place_le());
    let order = order_of(all, place_le());
    let sorted = listed(all, order);
    assert(all_stand(text, names, sorted)) by {
        assert forall|k: int| 0 <= k < sorted.len() implies is_place_of(
            text,
            names,
            #[trigger] sorted[k],
        ) by {
            assert(sorted[k] == all[order[k] as int]);
        }
    }
    lemma_kept_from(sorted, 0, 0, Seq::empty(), text, names);
    assert(places_inside(sorted, text.len()));
    lemma_kept_inside(sorted, 0, 0, Seq::empty(), text.len());
}

/// The parts of a text, put together, are the text.
pub proof fn parts_make_up_the_text(text: Seq<char>, names: Seq<(Seq<char>, u32)>)
    requires
        text.len() <= usize::MAX,
        all_places(text, names, 0, Seq::empty()).len() <= usize::MAX,
    ensures
        glued(part_texts(text_parts(text, names))) == text,
{
    recognised_tokens_stand_in_the_text(text, names);
    let kept = recognised(text, names);
    assert(places_inside(kept, text.len())) by {
        assert forall|i: int| 0 <= i < kept.len() implies (#[trigger] kept[i]).pos + kept[i].len
            <= text.len() && kept[i].len > 0 by {
            assert(is_place_of(text, names, kept[i]));
        }
    }
    assert(part_texts(Seq::<(Seq<char>, Option<u32>)>::empty()) =~= Seq::<Seq<char>>::empty());
    assert(text.take(0) =~= Seq::<char>::empty());
    lemma_parts_glue(text, kept, 0, 0, Seq::empty());
}

} // verus!
