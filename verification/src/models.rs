//! Model files found on disk and how transformers and codecs go together.
use crate::error::{message, CoreError, ErrorView};
use crate::gguf_summary::{GgufSummary, SummaryView};
use crate::order::{all_within, compares, in_order, is_order_of, stable_order};
use crate::paths::{
    file_name_or_empty, is_same_path, name_or_empty, path_le, path_not_behind, path_order_is_total,
    same_path,
};
use crate::text::{
    contains, contains_text, ends_in, ends_with, is_dash, lower, remove_all, str_eq, strip_both,
    to_ascii_lowercase, trim_dashes, without,
};
use vstd::prelude::*;
use vstd::string::*;

verus! {

/// What a model file holds, by its name.
#[derive(Debug, Clone, Copy, PartialEq, Eq, Structural)]
pub enum ModelKind {
    Unified,
    TransformerOnly,
    CodecOnly,
    Unknown,
}

/// What the file with the given name holds.
pub open spec fn kind_by_name(name: Seq<char>) -> ModelKind {
    let low = lower(name);
    if contains_text(low, "codec-only"@) || contains_text(low, "codec_only"@) {
        ModelKind::CodecOnly
    } else if contains_text(low, "transformer-only"@) || contains_text(low, "transformer_only"@) {
        ModelKind::TransformerOnly
    } else if ends_in(low, ".gguf"@) {
        ModelKind::Unified
    } else {
        ModelKind::Unknown
    }
}

impl ModelKind {
    /// What the file with the given name holds.
    pub fn from_filename(name: &str) -> (r: ModelKind)
        ensures
            r == kind_by_name(name@),
    {
        let low = to_ascii_lowercase(name);
        let l = low.as_str();
        if contains(l, "codec-only") || contains(l, "codec_only") {
            ModelKind::CodecOnly
        } else if contains(l, "transformer-only") || contains(l, "transformer_only") {
            ModelKind::TransformerOnly
        } else if ends_with(l, ".gguf") {
            ModelKind::Unified
        } else {
            ModelKind::Unknown
        }
    }
}

/// A model file.
#[derive(Debug)]
pub struct ModelEntry {
    pub path: String,
    pub kind: ModelKind,
    pub summary: Option<GgufSummary>,
}

/// A model file as a mathematical value.
pub ghost struct EntryView {
    pub path: Seq<char>,
    pub kind: ModelKind,
    pub summary: Option<SummaryView>,
}

impl View for ModelEntry {
    type V = EntryView;

    open spec fn view(&self) -> EntryView {
        EntryView {
            path: self.path@,
            kind: self.kind,
            summary: match self.summary {
                Some(s) => Some(s@),
                None => None,
            },
        }
    }
}

impl ModelEntry {
    /// A second entry with the same contents.
    pub fn duplicate(&self) -> (r: ModelEntry)
        ensures
            r@ == self@,
    {
        ModelEntry {
            path: self.path.clone(),
            kind: self.kind,
            summary: match &self.summary {
                Some(s) => Some(s.duplicate()),
                None => None,
            },
        }
    }
}

/// A transformer together with a codec.
#[derive(Debug)]
pub struct ModelPair {
    pub id: String,
    pub label: String,
    pub transformer: ModelEntry,
    pub codec: ModelEntry,
}

/// A transformer together with a codec, as a mathematical value.
pub ghost struct PairView {
    pub id: Seq<char>,
    pub label: Seq<char>,
    pub transformer: EntryView,
    pub codec: EntryView,
}

impl View for ModelPair {
    type V = PairView;

    open spec fn view(&self) -> PairView {
        PairView {
            id: self.id@,
            label: self.label@,
            transformer: self.transformer@,
            codec: self.codec@,
        }
    }
}

/// Entries as mathematical values.
pub open spec fn entry_list(entries: Seq<ModelEntry>) -> Seq<EntryView> {
    entries.map_values(|e: ModelEntry| e@)
}

/// Pairs as mathematical values.
pub open spec fn pair_list(pairs: Seq<ModelPair>) -> Seq<PairView> {
    pairs.map_values(|p: ModelPair| p@)
}

/// What the names of a transformer and of its codec have in common.
pub open spec fn stem_of(name: Seq<char>) -> Seq<char> {
    let low = lower(name);
    let a = without(low, "transformer-only"@);
    let b = without(a, "transformer_only"@);
    let c = without(b, "codec-only"@);
    let d = without(c, "codec_only"@);
    let e = without(d, ".gguf"@);
    strip_both(e, |c: char| is_dash(c))
}

/// What the names of a transformer and of its codec have in common.
pub fn stem_key(name: &str) -> (r: String)
    ensures
        r@ == stem_of(name@),
{
    let low = to_ascii_lowercase(name);
    let a = remove_all(low.as_str(), "transformer-only");
    let b = remove_all(a.as_str(), "transformer_only");
    let c = remove_all(b.as_str(), "codec-only");
    let d = remove_all(c.as_str(), "codec_only");
    let e = remove_all(d.as_str(), ".gguf");
    trim_dashes(e.as_str())
}

/// Whether a file can serve as transformer.
pub open spec fn has_transformer(e: EntryView) -> bool {
    e.kind == ModelKind::TransformerOnly || e.kind == ModelKind::Unified
}

/// Whether a file can serve as codec.
pub open spec fn has_codec(e: EntryView) -> bool {
    e.kind == ModelKind::CodecOnly || e.kind == ModelKind::Unified
}

/// Whether a codec goes with a transformer.
pub open spec fn goes_with(codec: EntryView, tr: EntryView) -> bool {
    has_codec(codec) && (if codec.kind == ModelKind::Unified && tr.kind == ModelKind::Unified {
        same_path(codec.path, tr.path)
    } else {
        stem_of(name_or_empty(codec.path)) == stem_of(name_or_empty(tr.path)) && !same_path(
            codec.path,
            tr.path,
        )
    })
}

/// The position of the first entry from `i` on whose codec goes with the transformer.
pub open spec fn codec_for(entries: Seq<EntryView>, tr: EntryView, i: int) -> Option<int>
    decreases entries.len() - i,
{
    if i < 0 || i >= entries.len() {
        None
    } else if goes_with(entries[i], tr) {
        Some(i)
    } else {
        codec_for(entries, tr, i + 1)
    }
}

/// The pair that an entry forms as transformer, if it does.
pub open spec fn pair_for(entries: Seq<EntryView>, tr: EntryView) -> Option<PairView> {
    if !has_transformer(tr) {
        None
    } else {
        match codec_for(entries, tr, 0) {
            Some(k) => Some(
                PairView {
                    id: tr.path + "|"@ + entries[k].path,
                    label: name_or_empty(tr.path) + " + "@ + name_or_empty(entries[k].path),
                    transformer: tr,
                    codec: entries[k],
                },
            ),
            None => if tr.kind == ModelKind::Unified {
                Some(
                    PairView {
                        id: tr.path,
                        label: name_or_empty(tr.path),
                        transformer: tr,
                        codec: tr,
                    },
                )
            } else {
                None
            },
        }
    }
}

/// The pairs that the first `n` entries form as transformers, in the order of the entries.
pub open spec fn pairs_of(entries: Seq<EntryView>, n: int) -> Seq<PairView>
    decreases n,
{
    if n <= 0 {
        Seq::empty()
    } else {
        match pair_for(entries, entries[n - 1]) {
            Some(p) => pairs_of(entries, n - 1).push(p),
            None => pairs_of(entries, n - 1),
        }
    }
}

fn find_codec(entries: &[ModelEntry], tr: &ModelEntry) -> (r: Option<usize>)
    ensures
        match r {
            Some(k) => k < entries@.len() && codec_for(entry_list(entries@), tr@, 0) == Some(
                k as int,
            ),
            None => codec_for(entry_list(entries@), tr@, 0) is None,
        },
{
    let ghost views = entry_list(entries@);
    let name = file_name_or_empty(tr.path.as_str());
    let stem = stem_key(name.as_str());
    let mut i: usize = 0;
    while i < entries.len()
        invariant
            i <= entries@.len(),
            views == entry_list(entries@),
            stem@ == stem_of(name_or_empty(tr@.path)),
            codec_for(views, tr@, 0) == codec_for(views, tr@, i as int),
        decreases entries@.len() - i,
    {
        let c = &entries[i];
        assert(views[i as int] == c@);
        if c.kind == ModelKind::CodecOnly || c.kind == ModelKind::Unified {
            if c.kind == ModelKind::Unified && tr.kind == ModelKind::Unified {
                if is_same_path(c.path.as_str(), tr.path.as_str()) {
                    return Some(i);
                }
            } else {
                let c_name = file_name_or_empty(c.path.as_str());
                let c_stem = stem_key(c_name.as_str());
                if str_eq(c_stem.as_str(), stem.as_str()) && !is_same_path(
                    c.path.as_str(),
                    tr.path.as_str(),
                ) {
                    return Some(i);
                }
            }
        }
        i = i + 1;
    }
    None
}

/// The pairs that the entries form, in the order of their transformers.
pub fn build_pairs(entries: &[ModelEntry]) -> (r: Vec<ModelPair>)
    ensures
        pair_list(r@) == pairs_of(entry_list(entries@), entries@.len() as int),
{
    let ghost views = entry_list(entries@);
    let mut pairs: Vec<ModelPair> = Vec::new();
    let mut i: usize = 0;
    assert(pair_list(pairs@) =~= pairs_of(views, 0));
    while i < entries.len()
        invariant
            i <= entries@.len(),
            views == entry_list(entries@),
            pair_list(pairs@) == pairs_of(views, i as int),
        decreases entries@.len() - i,
    {
        let tr = &entries[i];
        assert(views[i as int] == tr@);
        let ghost before = pairs@;
        if tr.kind == ModelKind::TransformerOnly || tr.kind == ModelKind::Unified {
            let tr_name = file_name_or_empty(tr.path.as_str());
            match find_codec(entries, tr) {
                None => {
                    if tr.kind == ModelKind::Unified {
                        let pair = ModelPair {
                            id: tr.path.clone(),
                            label: tr_name,
                            transformer: tr.duplicate(),
                            codec: tr.duplicate(),
                        };
                        let ghost view = pair@;
                        pairs.push(pair);
                        assert(pair_list(pairs@) =~= pair_list(before).push(view));
                    }
                },
                Some(k) => {
                    let codec = &entries[k];
                    assert(views[k as int] == codec@);
                    let codec_name = file_name_or_empty(codec.path.as_str());
                    let pair = ModelPair {
                        id: tr.path.clone().concat("|").concat(codec.path.as_str()),
                        label: tr_name.concat(" + ").concat(codec_name.as_str()),
                        transformer: tr.duplicate(),
                        codec: codec.duplicate(),
                    };
                    let ghost view = pair@;
                    pairs.push(pair);
                    assert(pair_list(pairs@) =~= pair_list(before).push(view));
                },
            }
        }
        i = i + 1;
    }
    pairs
}

/// A file name that ends in the extension of model files.
pub open spec fn has_model_extension(name: Seq<char>) -> bool {
    ends_in(lower(name), ".gguf"@) && name.len() > 5
}

/// The models found below a directory.
#[derive(Debug)]
pub struct ScannedModels {
    pub entries: Vec<ModelEntry>,
    pub pairs: Vec<ModelPair>,
}

/// A file found below a directory, with its brief description where it could be read.
#[derive(Debug)]
pub struct FoundFile {
    pub path: String,
    pub summary: Option<GgufSummary>,
}

/// The entry of a found file.
pub open spec fn entry_of(f: FoundFile) -> EntryView {
    EntryView {
        path: f.path@,
        kind: kind_by_name(name_or_empty(f.path@)),
        summary: match f.summary {
            Some(s) => Some(s@),
            None => None,
        },
    }
}

/// The entries of the first `n` found files that are model files, in the order found.
pub open spec fn model_entries(files: Seq<FoundFile>, n: int) -> Seq<EntryView>
    decreases n,
{
    if n <= 0 {
        Seq::empty()
    } else if has_model_extension(name_or_empty(files[n - 1].path@)) {
        model_entries(files, n - 1).push(entry_of(files[n - 1]))
    } else {
        model_entries(files, n - 1)
    }
}

/// Whether one path does not come behind another.
pub open spec fn string_path_le() -> spec_fn(String, String) -> bool {
    |a: String, b: String| path_le(a@, b@)
}

/// Whether one entry's path does not come behind another's.
pub open spec fn entry_path_le() -> spec_fn(EntryView, EntryView) -> bool {
    |a: EntryView, b: EntryView| path_le(a.path, b.path)
}

/// The entries as listed in the given order.
pub open spec fn reordered(entries: Seq<EntryView>, order: Seq<usize>) -> Seq<EntryView> {
    Seq::new(order.len(), |i: int| entries[order[i] as int])
}

/// Whether the second list is the first one sorted by path, equal paths in the order found.
pub open spec fn sorted_by_path(found: Seq<EntryView>, sorted: Seq<EntryView>) -> bool {
    exists|order: Seq<usize>| #[trigger]
        is_order_of(order, found, entry_path_le()) && sorted == reordered(found, order)
}

proof fn lemma_string_paths_compare()
    ensures
        compares(string_path_le()),
{
    let rel = string_path_le();
    assert forall|a: String, b: String| #[trigger] rel(a, b) || rel(b, a) by {
        path_order_is_total(a@, b@, a@);
    }
    assert forall|a: String, b: String, c: String| #[trigger] rel(a, b) && #[trigger] rel(
        b,
        c,
    ) implies rel(a, c) by {
        path_order_is_total(a@, b@, c@);
    }
}

impl ScannedModels {
    /// No models.
    pub fn empty() -> (r: ScannedModels)
        ensures
            r.entries@.len() == 0,
            r.pairs@.len() == 0,
    {
        ScannedModels { entries: Vec::new(), pairs: Vec::new() }
    }

    /// The models among the files found below a directory: those with the extension of model
    /// files, sorted by path, and the pairs they form.
    pub fn from_files(files: Vec<FoundFile>) -> (r: ScannedModels)
        ensures
            sorted_by_path(
                model_entries(files@, files@.len() as int),
                entry_list(r.entries@),
            ),
            pair_list(r.pairs@) == pairs_of(entry_list(r.entries@), r.entries@.len() as int),
    {
        let mut found: Vec<ModelEntry> = Vec::new();
        let mut paths: Vec<String> = Vec::new();
        let mut i: usize = 0;
        assert(entry_list(found@) =~= model_entries(files@, 0));
        while i < files.len()
            invariant
                i <= files@.len(),
                entry_list(found@) == model_entries(files@, i as int),
                paths@.len() == found@.len(),
                forall|k: int| 0 <= k < found@.len() ==> (#[trigger] paths@[k])@ == found@[k]@.path,
            decreases files@.len() - i,
        {
            let name = file_name_or_empty(files[i].path.as_str());
            let low = to_ascii_lowercase(name.as_str());
            let ghost before = found@;
            if ends_with(low.as_str(), ".gguf") && name.as_str().unicode_len() > 5 {
                let entry = ModelEntry {
                    path: files[i].path.clone(),
                    kind: ModelKind::from_filename(name.as_str()),
                    summary: match &files[i].summary {
                        Some(s) => Some(s.duplicate()),
                        None => None,
                    },
                };
                let ghost view = entry@;
                paths.push(files[i].path.clone());
                found.push(entry);
                assert(view == entry_of(files@[i as int]));
                assert(entry_list(found@) =~= entry_list(before).push(view));
            }
            i = i + 1;
        }
        let ghost rel = string_path_le();
        proof {
            lemma_string_paths_compare();
        }
        let le = |a: &String, b: &String| -> (v: bool)
            ensures
                v == path_le(a@, b@),
        { path_not_behind(a.as_str(), b.as_str()) };
        let order = stable_order(&paths, le, Ghost(rel));
        let ghost views = entry_list(found@);
        let mut entries: Vec<ModelEntry> = Vec::new();
        let mut k: usize = 0;
        while k < order.len()
            invariant
                k <= order@.len(),
                order@.len() == found@.len(),
                all_within(order@, 0, found@.len() as int),
                views == entry_list(found@),
                entry_list(entries@) == reordered(views, order@).take(k as int),
            decreases order@.len() - k,
        {
            let ghost before = entries@;
            let entry = found[order[k]].duplicate();
            let ghost view = entry@;
            entries.push(entry);
            proof {
                assert(view == views[order@[k as int] as int]);
                assert(entry_list(entries@) =~= entry_list(before).push(view));
                assert(reordered(views, order@).take(k as int + 1) =~= reordered(
                    views,
                    order@,
                ).take(k as int).push(view));
            }
            k = k + 1;
        }
        proof {
            assert(reordered(views, order@).take(k as int) =~= reordered(views, order@));
            let by_path = entry_path_le();
            assert(in_order(order@, views, by_path)) by {
                assert forall|a: int, b: int| 0 <= a < b < order@.len() implies #[trigger]
                    crate::order::comes_before(views, by_path, order@[a], order@[b]) by {
                    assert(crate::order::comes_before(paths@, rel, order@[a], order@[b]));
                    assert(paths@[order@[a] as int]@ == views[order@[a] as int].path);
                    assert(paths@[order@[b] as int]@ == views[order@[b] as int].path);
                }
            }
            assert(is_order_of(order@, views, by_path));
        }
        let pairs = build_pairs(entries.as_slice());
        ScannedModels { entries, pairs }
    }
}

/// What is missing of a pair's files, given which of them exist.
pub open spec fn missing_file(
    pair: PairView,
    transformer_exists: bool,
    codec_exists: bool,
) -> Option<ErrorView> {
    if !transformer_exists {
        Some(message("transformer model missing: "@ + pair.transformer.path))
    } else if !codec_exists {
        Some(message("codec model missing: "@ + pair.codec.path))
    } else {
        None
    }
}

/// Checks that both files of a pair exist.
pub fn validate_pair(pair: &ModelPair, transformer_exists: bool, codec_exists: bool) -> (r: Result<
    (),
    CoreError,
>)
    ensures
        match r {
            Ok(_) => missing_file(pair@, transformer_exists, codec_exists) is None,
            Err(e) => missing_file(pair@, transformer_exists, codec_exists) == Some(e@),
        },
{
    if !transformer_exists {
        return Err(
            CoreError::Message(
                String::from_str("transformer model missing: ").concat(
                    pair.transformer.path.as_str(),
                ),
            ),
        );
    }
    if !codec_exists {
        return Err(
            CoreError::Message(
                String::from_str("codec model missing: ").concat(pair.codec.path.as_str()),
            ),
        );
    }
    Ok(())
}

// ---------------------------------------------------------------------
// What holds of pairs
// ---------------------------------------------------------------------

proof fn lemma_codec_for(entries: Seq<EntryView>, tr: EntryView, i: int)
    requires
        0 <= i,
    ensures
        match codec_for(entries, tr, i) {
            Some(k) => i <= k < entries.len() && goes_with(entries[k], tr) && forall|j: int|
                i <= j < k ==> !goes_with(#[trigger] entries[j], tr),
            None => forall|j: int|
                i <= j < entries.len() ==> !goes_with(#[trigger] entries[j], tr),
        },
    decreases entries.len() - i,
{
    if i < entries.len() && !goes_with(entries[i], tr) {
        lemma_codec_for(entries, tr, i + 1);
    }
}

/// In every pair the first file can serve as transformer and the second as codec, both are among
/// the entries, and they are one unified file or share their stem.
pub proof fn pairs_are_matched(entries: Seq<EntryView>, n: int, p: int)
    requires
        0 <= n <= entries.len(),
        0 <= p < pairs_of(entries, n).len(),
    ensures
        has_transformer(pairs_of(entries, n)[p].transformer),
        has_codec(pairs_of(entries, n)[p].codec),
        entries.contains(pairs_of(entries, n)[p].transformer),
        entries.contains(pairs_of(entries, n)[p].codec),
        same_path(
            pairs_of(entries, n)[p].transformer.path,
            pairs_of(entries, n)[p].codec.path,
        ) || stem_of(name_or_empty(pairs_of(entries, n)[p].transformer.path)) == stem_of(
            name_or_empty(pairs_of(entries, n)[p].codec.path),
        ),
    decreases n,
{
    let before = pairs_of(entries, n - 1);
    if p < before.len() {
        pairs_are_matched(entries, n - 1, p);
    } else {
        let tr = entries[n - 1];
        lemma_codec_for(entries, tr, 0);
        assert(entries.contains(tr));
    }
}

proof fn lemma_pair_listed(entries: Seq<EntryView>, n: int, k: int)
    requires
        0 <= k < n <= entries.len(),
        pair_for(entries, entries[k]) is Some,
    ensures
        pairs_of(entries, n).contains(pair_for(entries, entries[k])->0),
    decreases n,
{
    let pairs = pairs_of(entries, n);
    let p = pair_for(entries, entries[k])->0;
    if k == n - 1 {
        assert(pairs[pairs.len() - 1] == p);
    } else {
        lemma_pair_listed(entries, n - 1, k);
        let before = pairs_of(entries, n - 1);
        let j = choose|j: int| 0 <= j < before.len() && before[j] == p;
        assert(pairs[j] == p);
    }
}

/// A file that holds both parts is always in some pair, as its transformer.
pub proof fn unified_files_are_paired(entries: Seq<EntryView>, k: int)
    requires
        0 <= k < entries.len(),
        entries[k].kind == ModelKind::Unified,
    ensures
        exists|p: int|
            0 <= p < pairs_of(entries, entries.len() as int).len() && #[trigger] pairs_of(
                entries,
                entries.len() as int,
            )[p].transformer == entries[k],
{
    lemma_pair_listed(entries, entries.len() as int, k);
    let pairs = pairs_of(entries, entries.len() as int);
    let p = pair_for(entries, entries[k])->0;
    let j = choose|j: int| 0 <= j < pairs.len() && pairs[j] == p;
    assert(pairs[j].transformer == entries[k]);
}

} // verus!
