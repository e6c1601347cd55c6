//! What a tokenizer file must be like for the outside tokenizer to take it without panicking.
use crate::json::{member, names_once, Json, JsonView};
use crate::patterns::{can_be_run, check_pattern, patterns_compile};
use crate::text::{from_chars, to_chars};
use crate::tokenizer_s2cpp::{find_from, lemma_next_at, next_at};
use vstd::prelude::*;
use vstd::string::*;
use vstd::utf8::{encode_utf8, is_char_boundary};

verus! {

/// The most bytes that a tokenizer file can have: the automaton that finds its added tokens counts
/// its states in 31 bits, and a normalizer can make a token eleven times as long.
pub const LARGEST_FILE: usize = 0x400_0000;

/// Whether a part of a file says that it is of a kind.
pub open spec fn is_typed(j: JsonView, name: Seq<char>) -> bool {
    member(j, "type"@) == JsonView::Text(name)
}

fn typed(j: &Json, name: &str) -> (r: bool)
    ensures
        r == is_typed(j.shown(), name@),
{
    j.get("type").is_text(name)
}

// ---------------------------------------------------------------------
// The model
// ---------------------------------------------------------------------

/// The right part of a merge, where the merge has one.
pub open spec fn right_part(merge: JsonView) -> Option<Seq<char>> {
    match merge {
        JsonView::List(v) => if v.len() == 2 {
            match v[1] {
                JsonView::Text(t) => Some(t),
                _ => None,
            }
        } else {
            None
        },
        JsonView::Text(line) => match next_at(line, seq![' '], 0) {
            None => None,
            Some(p) => Some(line.skip(p + 1)),
        },
        _ => None,
    }
}

/// How many bytes are cut off the right part of each merge.
pub open spec fn prefix_size(model: JsonView) -> nat {
    match member(model, "continuing_subword_prefix"@) {
        JsonView::Text(p) => encode_utf8(p).len(),
        _ => 0,
    }
}

/// Whether a number of bytes can be cut off the right part of a merge.
pub open spec fn can_be_cut(merge: JsonView, size: nat) -> bool {
    right_part(merge) matches Some(t) ==> is_char_boundary(encode_utf8(t), size as int)
}

/// Whether the number of an entry leaves room for those of added tokens.
pub open spec fn has_room(entry: (Seq<char>, JsonView)) -> bool {
    entry.1 matches JsonView::Number(Some(n)) ==> n < 0x8000_0000
}

/// Whether a model merges pairs, each by parts that can be cut, under numbers that leave room.
pub open spec fn model_is_sound(model: JsonView) -> bool {
    &&& member(model, "type"@) == JsonView::Null || is_typed(model, "BPE"@)
    &&& match member(model, "vocab"@) {
        JsonView::Table(v) => forall|i: int| 0 <= i < v.len() ==> has_room(#[trigger] v[i]),
        _ => false,
    }
    &&& match member(model, "merges"@) {
        JsonView::List(v) => forall|i: int|
            0 <= i < v.len() ==> can_be_cut(#[trigger] v[i], prefix_size(model)),
        _ => false,
    }
}

fn right_of(merge: &Json) -> (r: Option<String>)
    ensures
        match r {
            Some(t) => right_part(merge.shown()) == Some(t@),
            None => right_part(merge.shown()) is None,
        },
{
    match merge {
        Json::List(v) => {
            if v.len() != 2 {
                return None;
            }
            assert(merge.shown()->List_0[1] == v@[1].shown());
            match &v[1] {
                Json::Text(t) => Some(t.clone()),
                _ => None,
            }
        },
        Json::Text(line) => {
            let chars = to_chars(line.as_str());
            let n: usize = chars.len();
            let mut space: Vec<char> = Vec::new();
            space.push(' ');
            assert(space@ =~= seq![' ']);
            match find_from(&chars, &space, 0) {
                None => None,
                Some(p) => {
                    proof {
                        lemma_next_at(line@, seq![' '], 0);
                    }
                    let rest = vstd::slice::slice_subrange(chars.as_slice(), p + 1, n);
                    assert(rest@ =~= line@.skip(p + 1));
                    Some(from_chars(rest))
                },
            }
        },
        _ => None,
    }
}

fn check_model(model: &Json) -> (r: bool)
    ensures
        r == model_is_sound(model.shown()),
{
    let kind = model.get("type");
    if !kind.is_nothing() && !kind.is_text("BPE") {
        return false;
    }
    let vocab = model.get("vocab");
    match vocab {
        Json::Table(v) => {
            let ghost views = vocab.shown()->Table_0;
            let mut i: usize = 0;
            while i < v.len()
                invariant
                    i <= v@.len(),
                    *vocab == Json::Table(*v),
                    views == vocab.shown()->Table_0,
                    vocab.shown() == member(model.shown(), "vocab"@),
                    forall|k: int| 0 <= k < i ==> has_room(#[trigger] views[k]),
                decreases v@.len() - i,
            {
                assert(views[i as int] == (v@[i as int].0@, v@[i as int].1.shown()));
                if let Json::Number(Some(n)) = &v[i].1 {
                    if *n >= 0x8000_0000 {
                        assert(!has_room(views[i as int]));
                        return false;
                    }
                }
                i = i + 1;
            }
        },
        _ => {
            return false;
        },
    }
    let size: usize = match model.get("continuing_subword_prefix") {
        Json::Text(p) => p.as_str().as_bytes().len(),
        _ => 0,
    };
    assert(size == prefix_size(model.shown()));
    let merges = model.get("merges");
    match merges {
        Json::List(v) => {
            let ghost views = merges.shown()->List_0;
            let mut i: usize = 0;
            while i < v.len()
                invariant
                    i <= v@.len(),
                    *merges == Json::List(*v),
                    views == merges.shown()->List_0,
                    merges.shown() == member(model.shown(), "merges"@),
                    size == prefix_size(model.shown()),
                    forall|k: int| 0 <= k < i ==> can_be_cut(#[trigger] views[k], size as nat),
                decreases v@.len() - i,
            {
                assert(views[i as int] == v@[i as int].shown());
                if let Some(t) = right_of(&v[i]) {
                    if !t.as_str().is_char_boundary(size) {
                        assert(!can_be_cut(views[i as int], size as nat));
                        return false;
                    }
                }
                i = i + 1;
            }
        },
        _ => {
            return false;
        },
    }
    true
}

// ---------------------------------------------------------------------
// The normalizer and the added tokens
// ---------------------------------------------------------------------

/// Whether texts stay as they are, or each of their characters is rewritten by itself or with
/// those that combine with it.
pub open spec fn is_plain_normalizer(j: JsonView) -> bool {
    ||| j == JsonView::Null
    ||| is_typed(j, "NFC"@)
    ||| is_typed(j, "NFD"@)
    ||| is_typed(j, "NFKC"@)
    ||| is_typed(j, "NFKD"@)
    ||| is_typed(j, "Lowercase"@)
}

/// Whether a normalizer is the one of BERT, with all that it has to say.
pub open spec fn is_bert_normalizer(j: JsonView) -> bool {
    &&& is_typed(j, "BertNormalizer"@)
    &&& member(j, "clean_text"@) is Flag
    &&& member(j, "handle_chinese_chars"@) is Flag
    &&& member(j, "strip_accents"@) is Flag || member(j, "strip_accents"@) == JsonView::Null
    &&& member(j, "lowercase"@) is Flag
}

/// Whether a normalizer is of a kind that can be read, whatever else it says.
pub open spec fn is_known_normalizer(j: JsonView) -> bool {
    ||| is_plain_normalizer(j)
    ||| is_bert_normalizer(j)
    ||| is_typed(j, "Strip"@)
    ||| is_typed(j, "StripAccents"@)
    ||| is_typed(j, "Nmt"@)
    ||| is_typed(j, "Replace"@)
    ||| is_typed(j, "Prepend"@)
    ||| is_typed(j, "ByteLevel"@)
}

/// Whether a normalizer, or each one in a sequence of them, is of a kind that can be read.
pub open spec fn can_be_read(j: JsonView) -> bool {
    ||| is_known_normalizer(j)
    ||| is_typed(j, "Sequence"@) && match member(j, "normalizers"@) {
        JsonView::List(v) => forall|i: int|
            0 <= i < v.len() ==> is_known_normalizer(#[trigger] v[i]),
        _ => false,
    }
}

/// Whether an added token of a file says something of itself.
pub open spec fn says(token: JsonView, name: Seq<char>) -> bool {
    member(token, name) == JsonView::Flag(true)
}

/// Whether no added token of a file says something of itself.
pub open spec fn none_says(file: JsonView, name: Seq<char>) -> bool {
    match member(file, "added_tokens"@) {
        JsonView::List(v) => forall|i: int| 0 <= i < v.len() ==> !says(#[trigger] v[i], name),
        _ => true,
    }
}

fn check_plain(j: &Json) -> (r: bool)
    ensures
        r == is_plain_normalizer(j.shown()),
{
    j.is_nothing() || typed(j, "NFC") || typed(j, "NFD") || typed(j, "NFKC") || typed(j, "NFKD")
        || typed(j, "Lowercase")
}

fn is_flag(j: &Json) -> (r: bool)
    ensures
        r == (j.shown() is Flag),
{
    match j {
        Json::Flag(_) => true,
        _ => false,
    }
}

fn check_bert(j: &Json) -> (r: bool)
    ensures
        r == is_bert_normalizer(j.shown()),
{
    let accents = j.get("strip_accents");
    typed(j, "BertNormalizer") && is_flag(j.get("clean_text")) && is_flag(
        j.get("handle_chinese_chars"),
    ) && (is_flag(accents) || accents.is_nothing()) && is_flag(j.get("lowercase"))
}

fn check_known(j: &Json) -> (r: bool)
    ensures
        r == is_known_normalizer(j.shown()),
{
    check_plain(j) || check_bert(j) || typed(j, "Strip") || typed(j, "StripAccents") || typed(
        j,
        "Nmt",
    ) || typed(j, "Replace") || typed(j, "Prepend") || typed(j, "ByteLevel")
}

fn check_readable(j: &Json) -> (r: bool)
    ensures
        r == can_be_read(j.shown()),
{
    if check_known(j) {
        return true;
    }
    if !typed(j, "Sequence") {
        return false;
    }
    let parts = j.get("normalizers");
    match parts {
        Json::List(v) => {
            let ghost views = parts.shown()->List_0;
            let mut i: usize = 0;
            while i < v.len()
                invariant
                    i <= v@.len(),
                    *parts == Json::List(*v),
                    views == parts.shown()->List_0,
                    parts.shown() == member(j.shown(), "normalizers"@),
                    !is_known_normalizer(j.shown()),
                    forall|k: int| 0 <= k < i ==> is_known_normalizer(#[trigger] views[k]),
                decreases v@.len() - i,
            {
                assert(views[i as int] == v@[i as int].shown());
                if !check_known(&v[i]) {
                    return false;
                }
                i = i + 1;
            }
            true
        },
        _ => false,
    }
}

fn check_none_says(file: &Json, name: &str) -> (r: bool)
    ensures
        r == none_says(file.shown(), name@),
{
    let tokens = file.get("added_tokens");
    match tokens {
        Json::List(v) => {
            let ghost views = tokens.shown()->List_0;
            let mut i: usize = 0;
            while i < v.len()
                invariant
                    i <= v@.len(),
                    *tokens == Json::List(*v),
                    views == tokens.shown()->List_0,
                    tokens.shown() == member(file.shown(), "added_tokens"@),
                    forall|k: int| 0 <= k < i ==> !says(#[trigger] views[k], name@),
                decreases v@.len() - i,
            {
                assert(views[i as int] == v@[i as int].shown());
                if let Json::Flag(true) = v[i].get(name) {
                    assert(says(views[i as int], name@));
                    return false;
                }
                i = i + 1;
            }
            true
        },
        _ => true,
    }
}

// ---------------------------------------------------------------------
// Loading
// ---------------------------------------------------------------------

/// Whether the outside tokenizer loads or refuses a file, and does not panic: each name stands once,
/// the model is sound, each pattern can be compiled, and no normalizer is run on an added token but a
/// plain one.
pub open spec fn can_be_loaded(bytes: Seq<u8>, file: JsonView) -> bool {
    &&& bytes.len() <= LARGEST_FILE
    &&& names_once(bytes, file)
    &&& model_is_sound(member(file, "model"@))
    &&& patterns_compile(member(file, "normalizer"@))
    &&& patterns_compile(member(file, "pre_tokenizer"@))
    &&& patterns_compile(member(file, "decoder"@))
    &&& can_be_read(member(file, "normalizer"@))
    &&& is_plain_normalizer(member(file, "normalizer"@)) || none_says(file, "normalized"@)
}

/// Tests whether a file can be loaded.
pub fn check_loading(bytes: &[u8], file: &Json) -> (r: bool)
    ensures
        r == can_be_loaded(bytes@, file.shown()),
{
    let normalizer = file.get("normalizer");
    bytes.len() <= LARGEST_FILE && file.has_names_once(bytes) && check_model(file.get("model"))
        && normalizer.has_sound_patterns() && file.get("pre_tokenizer").has_sound_patterns()
        && file.get("decoder").has_sound_patterns() && check_readable(normalizer) && (
    check_plain(normalizer) || check_none_says(file, "normalized"))
}

// ---------------------------------------------------------------------
// Encoding
// ---------------------------------------------------------------------

/// Whether a part of a file turns texts into the letters of their bytes.
pub open spec fn is_byte_level(j: JsonView) -> bool {
    &&& is_typed(j, "ByteLevel"@)
    &&& member(j, "add_prefix_space"@) is Flag
    &&& member(j, "trim_offsets"@) is Flag
    &&& member(j, "sep"@) == JsonView::Null
}

/// Whether a part of a file splits texts by a pattern that can be run on any of them.
pub open spec fn is_split(j: JsonView) -> bool {
    &&& is_typed(j, "Split"@)
    &&& match member(member(j, "pattern"@), "Regex"@) {
        JsonView::Text(p) => can_be_run(p),
        _ => true,
    }
}

/// Whether a part of a file splits texts between characters, by what each of them is, or turns them
/// into the letters of their bytes.
pub open spec fn is_splitting_step(j: JsonView) -> bool {
    ||| is_byte_level(j)
    ||| is_split(j)
    ||| is_typed(j, "Whitespace"@)
    ||| is_typed(j, "WhitespaceSplit"@)
    ||| is_typed(j, "Punctuation"@)
    ||| is_typed(j, "Digits"@)
    ||| is_typed(j, "BertPreTokenizer"@)
}

/// Whether texts are split, if at all, by steps of the kinds above.
pub open spec fn is_plain_splitter(j: JsonView) -> bool {
    ||| j == JsonView::Null
    ||| is_splitting_step(j)
    ||| is_typed(j, "Sequence"@) && match member(j, "pretokenizers"@) {
        JsonView::List(v) => forall|i: int| 0 <= i < v.len() ==> is_splitting_step(#[trigger] v[i]),
        _ => false,
    }
}

/// Whether a piece of a template stands for a text.
pub open spec fn stands_for_text(piece: JsonView) -> bool {
    member(piece, "Sequence"@) != JsonView::Null
}

/// Whether a template puts one text between special tokens, at most once.
pub open spec fn is_template(j: JsonView) -> bool {
    &&& is_typed(j, "TemplateProcessing"@)
    &&& member(j, "sep"@) == JsonView::Null
    &&& match member(j, "single"@) {
        JsonView::List(v) => {
            &&& forall|i: int|
                0 <= i < v.len() && stands_for_text(#[trigger] v[i]) ==> member(
                    member(v[i], "Sequence"@),
                    "id"@,
                ) == JsonView::Text("A"@)
            &&& forall|i: int, k: int|
                0 <= i < k < v.len() ==> !(stands_for_text(#[trigger] v[i]) && stands_for_text(
                    #[trigger] v[k],
                ))
        },
        _ => false,
    }
}

/// Whether encodings are finished, if at all, in a way that does not fail on one text.
pub open spec fn is_plain_processor(j: JsonView) -> bool {
    j == JsonView::Null || is_byte_level(j) || is_template(j)
}

/// Whether encodings are filled up, if at all, to the length of the longest.
pub open spec fn is_plain_padding(j: JsonView) -> bool {
    ||| j == JsonView::Null
    ||| member(j, "strategy"@) == JsonView::Text("BatchLongest"@) && member(
        j,
        "pad_to_multiple_of"@,
    ) == JsonView::Null
}

/// Whether encodings are cut, if at all, into pieces that overlap by less than their length.
pub open spec fn is_sound_cut(j: JsonView) -> bool {
    ||| j == JsonView::Null
    ||| match (member(j, "max_length"@), member(j, "stride"@)) {
        (JsonView::Number(Some(m)), JsonView::Number(Some(s))) => m == 0 || s < m,
        _ => false,
    }
}

/// Whether the outside tokenizer, loaded from a file, encodes any text without panicking.
pub open spec fn can_encode(file: JsonView) -> bool {
    &&& is_typed(member(file, "model"@), "BPE"@)
    &&& is_plain_normalizer(member(file, "normalizer"@))
    &&& none_says(file, "lstrip"@) || none_says(file, "rstrip"@)
    &&& is_plain_splitter(member(file, "pre_tokenizer"@))
    &&& is_plain_processor(member(file, "post_processor"@))
    &&& is_sound_cut(member(file, "truncation"@))
    &&& is_plain_padding(member(file, "padding"@))
}

/// Whether no merge is dropped by chance.
pub open spec fn is_steady(file: JsonView) -> bool {
    member(member(file, "model"@), "dropout"@) == JsonView::Null
}

/// Whether the vocabulary gives no number twice.
pub open spec fn numbers_once(file: JsonView) -> bool {
    match member(member(file, "model"@), "vocab"@) {
        JsonView::Table(v) => forall|i: int, k: int|
            0 <= i < k < v.len() ==> (#[trigger] v[i]).1 != (#[trigger] v[k]).1,
        _ => true,
    }
}

fn check_byte_level(j: &Json) -> (r: bool)
    ensures
        r == is_byte_level(j.shown()),
{
    typed(j, "ByteLevel") && is_flag(j.get("add_prefix_space")) && is_flag(j.get("trim_offsets"))
        && j.get("sep").is_nothing()
}

fn check_split(j: &Json) -> (r: bool)
    ensures
        r == is_split(j.shown()),
{
    typed(j, "Split") && match j.get("pattern").get("Regex") {
        Json::Text(p) => check_pattern(p.as_str()),
        _ => true,
    }
}

fn check_step(j: &Json) -> (r: bool)
    ensures
        r == is_splitting_step(j.shown()),
{
    check_byte_level(j) || check_split(j) || typed(j, "Whitespace") || typed(j, "WhitespaceSplit")
        || typed(j, "Punctuation") || typed(j, "Digits") || typed(j, "BertPreTokenizer")
}

fn check_splitter(j: &Json) -> (r: bool)
    ensures
        r == is_plain_splitter(j.shown()),
{
    if j.is_nothing() || check_step(j) {
        return true;
    }
    if !typed(j, "Sequence") {
        return false;
    }
    let parts = j.get("pretokenizers");
    match parts {
        Json::List(v) => {
            let ghost views = parts.shown()->List_0;
            let mut i: usize = 0;
            while i < v.len()
                invariant
                    i <= v@.len(),
                    *parts == Json::List(*v),
                    views == parts.shown()->List_0,
                    parts.shown() == member(j.shown(), "pretokenizers"@),
                    j.shown() != JsonView::Null && !is_splitting_step(j.shown()),
                    forall|k: int| 0 <= k < i ==> is_splitting_step(#[trigger] views[k]),
                decreases v@.len() - i,
            {
                assert(views[i as int] == v@[i as int].shown());
                if !check_step(&v[i]) {
                    return false;
                }
                i = i + 1;
            }
            true
        },
        _ => false,
    }
}

fn check_template(j: &Json) -> (r: bool)
    ensures
        r == is_template(j.shown()),
{
    if !typed(j, "TemplateProcessing") || !j.get("sep").is_nothing() {
        return false;
    }
    let pieces = j.get("single");
    match pieces {
        Json::List(v) => {
            let ghost views = pieces.shown()->List_0;
            let mut found: Option<usize> = None;
            let mut i: usize = 0;
            while i < v.len()
                invariant
                    i <= v@.len(),
                    *pieces == Json::List(*v),
                    views == pieces.shown()->List_0,
                    pieces.shown() == member(j.shown(), "single"@),
                    forall|k: int|
                        0 <= k < i && stands_for_text(#[trigger] views[k]) ==> member(
                            member(views[k], "Sequence"@),
                            "id"@,
                        ) == JsonView::Text("A"@) && found == Some(k as usize),
                    match found {
                        Some(k) => k < i && stands_for_text(views[k as int]),
                        None => true,
                    },
                decreases v@.len() - i,
            {
                assert(views[i as int] == v@[i as int].shown());
                let piece = v[i].get("Sequence");
                if !piece.is_nothing() {
                    if !piece.get("id").is_text("A") {
                        return false;
                    }
                    if let Some(k) = found {
                        assert(stands_for_text(views[k as int]) && stands_for_text(
                            views[i as int],
                        ));
                        return false;
                    }
                    found = Some(i);
                }
                i = i + 1;
            }
            true
        },
        _ => false,
    }
}

fn check_padding(j: &Json) -> (r: bool)
    ensures
        r == is_plain_padding(j.shown()),
{
    j.is_nothing() || (j.get("strategy").is_text("BatchLongest") && j.get(
        "pad_to_multiple_of",
    ).is_nothing())
}

fn check_cut(j: &Json) -> (r: bool)
    ensures
        r == is_sound_cut(j.shown()),
{
    if j.is_nothing() {
        return true;
    }
    match (j.get("max_length"), j.get("stride")) {
        (Json::Number(Some(m)), Json::Number(Some(s))) => *m == 0 || *s < *m,
        _ => false,
    }
}

/// Tests whether any text can be encoded after a file.
pub fn check_encoding(file: &Json) -> (r: bool)
    ensures
        r == can_encode(file.shown()),
{
    let processor = file.get("post_processor");
    typed(file.get("model"), "BPE") && check_plain(file.get("normalizer")) && (check_none_says(
        file,
        "lstrip",
    ) || check_none_says(file, "rstrip")) && check_splitter(file.get("pre_tokenizer")) && (
    processor.is_nothing() || check_byte_level(processor) || check_template(processor))
        && check_cut(file.get("truncation")) && check_padding(file.get("padding"))
}

} // verus!
