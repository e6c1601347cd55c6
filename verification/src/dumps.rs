//! What the programs list, choose and compare.
use crate::args::ServerArgs;
use crate::codec_registry::{format_codec_dimensions, CodecTensorDumpRow};
use crate::engine::EngineConfig;
use crate::error::{message, CoreError, ErrorView, InferError};
use crate::gguf::{
    element_count_of, ggml_name, tensor_byte_len, tensor_views, GgufTensorInfo, TensorView,
};
use crate::order::{compares, is_order_of, order_of, stable_order};
use crate::paths::{
    file_name_or_empty, name_or_empty, path_le, path_not_behind, path_order_is_total,
};
use crate::prompt::{codes_error, PromptCodes, PromptCodesFile};
use crate::text::{
    contains, contains_text, dec, dec_u64, dec_usize, decimals, ends_in, ends_with, joined, longs,
    lower, show_longs_by_x, strings, to_ascii_lowercase,
};
use vstd::prelude::*;
use vstd::string::*;

verus! {

// ---------------------------------------------------------------------
// Tables
// ---------------------------------------------------------------------

/// Whether a name holds a text that is looked for, if one is.
pub open spec fn is_wanted(name: Seq<char>, part: Option<Seq<char>>) -> bool {
    match part {
        Some(p) => contains_text(name, p),
        None => true,
    }
}

/// A text that may be missing.
pub open spec fn maybe_str(t: Option<&str>) -> Option<Seq<char>> {
    match t {
        Some(s) => Some(s@),
        None => None,
    }
}

fn wants(name: &str, part: Option<&str>) -> (r: bool)
    ensures
        r == is_wanted(name@, maybe_str(part)),
{
    match part {
        Some(p) => contains(name, p),
        None => true,
    }
}

/// Whether no more rows are wanted.
pub open spec fn is_full(written: nat, limit: Option<usize>) -> bool {
    limit matches Some(n) && written >= n
}

fn full(written: usize, limit: Option<usize>) -> (r: bool)
    ensures
        r == is_full(written as nat, limit),
{
    match limit {
        Some(n) => written >= n,
        None => false,
    }
}

/// The first line of the list of a model's tensors.
pub fn gguf_dump_header() -> (r: String)
    ensures
        r@ == "index\tname\ttype\tdimensions\telements\tbytes\trelative_offset\tabsolute_offset"@,
{
    String::from_str(
        "index\tname\ttype\tdimensions\telements\tbytes\trelative_offset\tabsolute_offset",
    )
}

/// The line of a tensor.
pub open spec fn tensor_line(i: nat, t: TensorView, elements: u64, bytes: usize, start: u64) -> Seq<
    char,
> {
    dec(i) + "\t"@ + t.name + "\t"@ + ggml_name(t.ggml_type) + "\t"@ + joined(
        decimals(longs(t.dimensions)),
        "x"@,
    ) + "\t"@ + dec(elements as nat) + "\t"@ + dec(bytes as nat) + "\t"@ + dec(
        t.relative_offset as nat,
    ) + "\t"@ + dec((start + t.relative_offset) as nat)
}

/// The lines of the tensors from `i` on that are wanted, and the error at which the list ends, if
/// any.
pub open spec fn tensor_lines(
    tensors: Seq<TensorView>,
    start: u64,
    part: Option<Seq<char>>,
    limit: Option<usize>,
    i: int,
    written: nat,
) -> (Seq<Seq<char>>, Option<ErrorView>)
    decreases tensors.len() - i,
{
    if i < 0 || i >= tensors.len() {
        (Seq::empty(), None)
    } else {
        let t = tensors[i];
        if !is_wanted(t.name, part) {
            tensor_lines(tensors, start, part, limit, i + 1, written)
        } else if is_full(written, limit) {
            (Seq::empty(), None)
        } else {
            match element_count_of(t) {
                Err(e) => (Seq::empty(), Some(e)),
                Ok(elements) => match tensor_byte_len(t) {
                    Err(e) => (Seq::empty(), Some(e)),
                    Ok(bytes) => {
                        let rest = tensor_lines(tensors, start, part, limit, i + 1, written + 1);
                        (
                            seq![tensor_line(i as nat, t, elements, bytes, start)] + rest.0,
                            rest.1,
                        )
                    },
                },
            }
        }
    }
}

/// Lists the tensors of a model that are wanted. Where one has no size, the list ends before it.
pub fn gguf_dump_lines(
    tensors: &Vec<GgufTensorInfo>,
    start: u64,
    part: Option<&str>,
    limit: Option<usize>,
) -> (r: (Vec<String>, Option<CoreError>))
    requires
        forall|i: int|
            0 <= i < tensors@.len() ==> start + (#[trigger] tensors@[i]).relative_offset
                <= u64::MAX,
    ensures
        ({
            let want = tensor_lines(tensor_views(tensors@), start, maybe_str(part), limit, 0, 0);
            &&& strings(r.0@) == want.0
            &&& match r.1 {
                None => want.1 is None,
                Some(e) => want.1 == Some(e@),
            }
        }),
{
    let ghost views = tensor_views(tensors@);
    let ghost want = tensor_lines(views, start, maybe_str(part), limit, 0, 0);
    let mut lines: Vec<String> = Vec::new();
    let mut written: usize = 0;
    let mut i: usize = 0;
    assert(strings(lines@) + want.0 =~= want.0);
    while i < tensors.len()
        invariant
            i <= tensors@.len(),
            written <= i,
            views == tensor_views(tensors@),
            forall|k: int|
                0 <= k < tensors@.len() ==> start + (#[trigger] tensors@[k]).relative_offset
                    <= u64::MAX,
            want == tensor_lines(views, start, maybe_str(part), limit, 0, 0),
            ({
                let rest = tensor_lines(
                    views,
                    start,
                    maybe_str(part),
                    limit,
                    i as int,
                    written as nat,
                );
                &&& want.0 == strings(lines@) + rest.0
                &&& want.1 == rest.1
            }),
        decreases tensors@.len() - i,
    {
        let t = &tensors[i];
        let ghost before = strings(lines@);
        assert(views[i as int] == t@);
        if wants(t.name.as_str(), part) {
            if full(written, limit) {
                assert(want.0 =~= strings(lines@));
                return (lines, None);
            }
            let elements: u64 = match t.element_count() {
                Err(e) => {
                    assert(want.0 =~= strings(lines@));
                    return (lines, Some(e));
                },
                Ok(n) => n,
            };
            let bytes: usize = match t.byte_len() {
                Err(e) => {
                    assert(want.0 =~= strings(lines@));
                    return (lines, Some(e));
                },
                Ok(n) => n,
            };
            let index = dec_usize(i);
            let kind: &str = t.ggml_type.name();
            let dims = show_longs_by_x(t.dimensions.as_slice());
            let a = dec_u64(elements);
            let b = dec_usize(bytes);
            let c = dec_u64(t.relative_offset);
            let d = dec_u64(t.absolute_offset(start));
            let line = index.concat("\t").concat(t.name.as_str()).concat("\t").concat(
                kind,
            ).concat("\t").concat(dims.as_str()).concat("\t").concat(a.as_str()).concat(
                "\t",
            ).concat(b.as_str()).concat("\t").concat(c.as_str()).concat("\t").concat(d.as_str());
            let ghost shown = line@;
            let ghost rest = tensor_lines(
                views,
                start,
                maybe_str(part),
                limit,
                i as int + 1,
                written as nat + 1,
            );
            lines.push(line);
            proof {
                assert(shown == tensor_line(i as nat, t@, elements, bytes, start));
                assert(strings(lines@) =~= before.push(shown));
                assert(before + (seq![shown] + rest.0) =~= before.push(shown) + rest.0);
            }
            written = written + 1;
        }
        i = i + 1;
    }
    assert(want.0 =~= strings(lines@));
    (lines, None)
}

/// The first line of the list of a codec's tensors.
pub fn codec_dump_header() -> (r: String)
    ensures
        r@
            == "index\tcomponent\trole\tmodule\tlayer\tquantizer_index\tname\ttype\tdimensions\telements\tbytes\trelative_offset\tabsolute_offset"@,
{
    String::from_str(
        "index\tcomponent\trole\tmodule\tlayer\tquantizer_index\tname\ttype\tdimensions\telements\tbytes\trelative_offset\tabsolute_offset",
    )
}

/// A number that may be missing, as a text.
pub open spec fn number_or_nothing(n: Option<usize>) -> Seq<char> {
    match n {
        Some(v) => dec(v as nat),
        None => Seq::empty(),
    }
}

/// A number that may be missing, as a text.
pub fn optional_usize(value: Option<usize>) -> (r: String)
    ensures
        r@ == number_or_nothing(value),
{
    match value {
        Some(v) => dec_usize(v),
        None => String::new(),
    }
}

/// The line of a codec's tensor.
pub open spec fn codec_line(r: CodecTensorDumpRow) -> Seq<char> {
    dec(r.index as nat) + "\t"@ + r.component@ + "\t"@ + r.role@ + "\t"@ + (match r.module {
        Some(m) => m@,
        None => ""@,
    }) + "\t"@ + number_or_nothing(r.layer) + "\t"@ + number_or_nothing(r.quantizer_index) + "\t"@
        + r.name@ + "\t"@ + ggml_name(r.ggml_type) + "\t"@ + joined(
        decimals(longs(r.dimensions@)),
        "x"@,
    ) + "\t"@ + dec(r.elements as nat) + "\t"@ + dec(r.bytes as nat) + "\t"@ + dec(
        r.relative_offset as nat,
    ) + "\t"@ + dec(r.absolute_offset as nat)
}

fn show_codec_row(r: &CodecTensorDumpRow) -> (t: String)
    ensures
        t@ == codec_line(*r),
{
    let index = dec_usize(r.index);
    let module = match &r.module {
        Some(m) => m.as_str(),
        None => "",
    };
    let layer = optional_usize(r.layer);
    let quantizer = optional_usize(r.quantizer_index);
    let kind: &str = r.ggml_type.name();
    let dims = format_codec_dimensions(r.dimensions.as_slice());
    let a = dec_u64(r.elements);
    let b = dec_usize(r.bytes);
    let c = dec_u64(r.relative_offset);
    let d = dec_u64(r.absolute_offset);
    index.concat("\t").concat(r.component.as_str()).concat("\t").concat(r.role.as_str()).concat(
        "\t",
    ).concat(module).concat("\t").concat(layer.as_str()).concat("\t").concat(
        quantizer.as_str(),
    ).concat("\t").concat(r.name.as_str()).concat("\t").concat(kind).concat("\t").concat(
        dims.as_str(),
    ).concat("\t").concat(a.as_str()).concat("\t").concat(b.as_str()).concat("\t").concat(
        c.as_str(),
    ).concat("\t").concat(d.as_str())
}

/// The lines of the codec's tensors from `i` on that are wanted.
pub open spec fn codec_lines(
    rows: Seq<CodecTensorDumpRow>,
    part: Option<Seq<char>>,
    limit: Option<usize>,
    i: int,
    written: nat,
) -> Seq<Seq<char>>
    decreases rows.len() - i,
{
    if i < 0 || i >= rows.len() {
        Seq::empty()
    } else if !is_wanted(rows[i].name@, part) {
        codec_lines(rows, part, limit, i + 1, written)
    } else if is_full(written, limit) {
        Seq::empty()
    } else {
        seq![codec_line(rows[i])] + codec_lines(rows, part, limit, i + 1, written + 1)
    }
}

/// Lists the tensors of a codec that are wanted.
pub fn codec_dump_lines(
    rows: &Vec<CodecTensorDumpRow>,
    part: Option<&str>,
    limit: Option<usize>,
) -> (r: Vec<String>)
    ensures
        strings(r@) == codec_lines(rows@, maybe_str(part), limit, 0, 0),
{
    let ghost want = codec_lines(rows@, maybe_str(part), limit, 0, 0);
    let mut lines: Vec<String> = Vec::new();
    let mut written: usize = 0;
    let mut i: usize = 0;
    assert(strings(lines@) + want =~= want);
    while i < rows.len()
        invariant
            i <= rows@.len(),
            written <= i,
            want == codec_lines(rows@, maybe_str(part), limit, 0, 0),
            want == strings(lines@) + codec_lines(
                rows@,
                maybe_str(part),
                limit,
                i as int,
                written as nat,
            ),
        decreases rows@.len() - i,
    {
        let ghost before = strings(lines@);
        if wants(rows[i].name.as_str(), part) {
            if full(written, limit) {
                assert(want =~= strings(lines@));
                return lines;
            }
            let line = show_codec_row(&rows[i]);
            let ghost shown = line@;
            let ghost rest = codec_lines(
                rows@,
                maybe_str(part),
                limit,
                i as int + 1,
                written as nat + 1,
            );
            lines.push(line);
            proof {
                assert(strings(lines@) =~= before.push(shown));
                assert(before + (seq![shown] + rest) =~= before.push(shown) + rest);
            }
            written = written + 1;
        }
        i = i + 1;
    }
    assert(want =~= strings(lines@));
    lines
}

// ---------------------------------------------------------------------
// Models for the server
// ---------------------------------------------------------------------

/// Whether a file is the transformer of a pair.
pub open spec fn is_transformer_file(path: Seq<char>) -> bool {
    let name = lower(name_or_empty(path));
    ends_in(name, ".gguf"@) && (contains_text(name, "transformer-only"@) || contains_text(
        name,
        "transformer_only"@,
    ))
}

/// Whether a file is the codec of a pair, and no transformer.
pub open spec fn is_codec_file(path: Seq<char>) -> bool {
    let name = lower(name_or_empty(path));
    ends_in(name, ".gguf"@) && !is_transformer_file(path) && (contains_text(name, "codec-only"@)
        || contains_text(name, "codec_only"@))
}

/// Which of the first `n` files comes first in the order of paths, of transformers or of codecs.
pub open spec fn first_file(files: Seq<Seq<char>>, codec: bool, n: int) -> Option<Seq<char>>
    decreases n,
{
    if n <= 0 {
        None
    } else {
        let prev = first_file(files, codec, n - 1);
        let path = files[n - 1];
        if !(if codec {
            is_codec_file(path)
        } else {
            is_transformer_file(path)
        }) {
            prev
        } else {
            match prev {
                None => Some(path),
                Some(best) => if path_le(best, path) {
                    prev
                } else {
                    Some(path)
                },
            }
        }
    }
}

/// The pair that is found among files.
pub open spec fn discovered_pair(files: Seq<Seq<char>>) -> Result<
    (Seq<char>, Seq<char>),
    ErrorView,
> {
    match first_file(files, false, files.len() as int) {
        None => Err(message("no *-transformer-only.gguf in models/"@)),
        Some(t) => match first_file(files, true, files.len() as int) {
            None => Err(message("no *-codec-only.gguf in models/"@)),
            Some(c) => Ok((t, c)),
        },
    }
}

fn has_place(path: &str) -> (r: (bool, bool))
    ensures
        r.0 == is_transformer_file(path@),
        r.1 == is_codec_file(path@),
{
    let plain = file_name_or_empty(path);
    let low = to_ascii_lowercase(plain.as_str());
    let name = low.as_str();
    let model = ends_with(name, ".gguf");
    let transformer = model && (contains(name, "transformer-only") || contains(
        name,
        "transformer_only",
    ));
    let codec = model && !transformer && (contains(name, "codec-only") || contains(
        name,
        "codec_only",
    ));
    (transformer, codec)
}

/// Finds the first transformer and the first codec among files.
pub fn auto_discover_pair(files: &Vec<String>) -> (r: Result<(String, String), InferError>)
    ensures
        match r {
            Ok(p) => discovered_pair(strings(files@)) == Ok::<(Seq<char>, Seq<char>), ErrorView>(
                (p.0@, p.1@),
            ),
            Err(e) => discovered_pair(strings(files@)) == Err::<
                (Seq<char>, Seq<char>),
                ErrorView,
            >(e@),
        },
{
    let ghost texts = strings(files@);
    let mut transformer: Option<String> = None;
    let mut codec: Option<String> = None;
    let mut i: usize = 0;
    while i < files.len()
        invariant
            i <= files@.len(),
            texts == strings(files@),
            match transformer {
                None => first_file(texts, false, i as int) is None,
                Some(t) => first_file(texts, false, i as int) == Some(t@),
            },
            match codec {
                None => first_file(texts, true, i as int) is None,
                Some(c) => first_file(texts, true, i as int) == Some(c@),
            },
        decreases files@.len() - i,
    {
        let path = files[i].as_str();
        assert(texts[i as int] == path@);
        let (is_transformer, is_codec) = has_place(path);
        if is_transformer {
            let better: bool = match &transformer {
                None => true,
                Some(best) => !path_not_behind(best.as_str(), path),
            };
            if better {
                transformer = Some(files[i].clone());
            }
        } else if is_codec {
            let better: bool = match &codec {
                None => true,
                Some(best) => !path_not_behind(best.as_str(), path),
            };
            if better {
                codec = Some(files[i].clone());
            }
        }
        i = i + 1;
    }
    match transformer {
        None => Err(InferError::text("no *-transformer-only.gguf in models/")),
        Some(t) => match codec {
            None => Err(InferError::text("no *-codec-only.gguf in models/")),
            Some(c) => Ok((t, c)),
        },
    }
}

impl ServerArgs {
    /// Changes what an engine is started with as the arguments say.
    pub fn apply(&self, config: &mut EngineConfig)
        ensures
            final(config).backend == (match self.backend {
                Some(b) => b,
                None => old(config).backend,
            }),
            final(config).generate_params.max_new_tokens == (match self.max_new_tokens {
                Some(n) => n,
                None => old(config).generate_params.max_new_tokens,
            }),
            *final(config) == (EngineConfig {
                backend: final(config).backend,
                generate_params: crate::generate::GenerateParams {
                    max_new_tokens: final(config).generate_params.max_new_tokens,
                    ..old(config).generate_params
                },
                ..*old(config)
            }),
    {
        if let Some(b) = self.backend {
            config.backend = b;
        }
        if let Some(n) = self.max_new_tokens {
            config.generate_params.max_new_tokens = n;
        }
    }
}

// ---------------------------------------------------------------------
// Voices from files
// ---------------------------------------------------------------------

/// What is wrong with the voice that arguments describe, if anything.
pub open spec fn voice_error(text: bool, file: Option<PromptCodesFile>) -> Option<ErrorView> {
    match file {
        Some(f) => codes_error(f),
        None => if text {
            Some(message("--prompt-text requires --prompt-codes"@))
        } else {
            None
        },
    }
}

/// The voice that arguments describe: the codes of a file, with the text of the arguments where
/// they give one and that of the file else.
pub fn choose_voice(prompt_text: Option<String>, file: Option<PromptCodesFile>) -> (r: Result<
    Option<(String, PromptCodes)>,
    InferError,
>)
    ensures
        match r {
            Err(e) => voice_error(prompt_text is Some, file) == Some(e@),
            Ok(None) => voice_error(prompt_text is Some, file) is None && file is None,
            Ok(Some(v)) => {
                &&& voice_error(prompt_text is Some, file) is None
                &&& file matches Some(f) && {
                    &&& v.0@ == (match prompt_text {
                        Some(t) => t@,
                        None => f.prompt_text@,
                    })
                    &&& v.1.num_codebooks == f.num_codebooks
                    &&& v.1.cols == f.cols
                    &&& v.1.data@ == f.codes@
                }
            },
        },
{
    match file {
        None => {
            if prompt_text.is_some() {
                return Err(InferError::text("--prompt-text requires --prompt-codes"));
            }
            Ok(None)
        },
        Some(f) => match f.to_prompt_codes() {
            Err(e) => Err(e),
            Ok(codes) => {
                let text = match prompt_text {
                    Some(t) => t,
                    None => f.prompt_text,
                };
                Ok(Some((text, codes)))
            },
        },
    }
}

// ---------------------------------------------------------------------
// The largest logits
// ---------------------------------------------------------------------

/// The place of a single-precision number, given by its bits, in the order that tells all bit
/// patterns apart.
pub open spec fn total_place(bits: u32) -> int {
    if bits < 0x8000_0000 {
        bits as int
    } else {
        0x7fff_ffff - (bits as int)
    }
}

/// The larger number first.
pub open spec fn larger_place_first() -> spec_fn(u32, u32) -> bool {
    |a: u32, b: u32| total_place(a) >= total_place(b)
}

fn place_in_all(bits: u32) -> (r: i64)
    ensures
        r == total_place(bits),
{
    if bits < 0x8000_0000 {
        bits as i64
    } else {
        0x7fff_ffff - (bits as i64)
    }
}

/// The positions of the largest logits, given by their bits; among equals the first one comes
/// first.
pub fn top_logits(values: &Vec<u32>, count: usize) -> (r: Vec<usize>)
    ensures
        r@ == order_of(values@, larger_place_first()).take(
            if count < values@.len() {
                count as int
            } else {
                values@.len() as int
            },
        ),
        is_order_of(
            order_of(values@, larger_place_first()),
            values@,
            larger_place_first(),
        ),
{
    let ghost rel = larger_place_first();
    assert(compares(rel));
    let le = |a: &u32, b: &u32| -> (v: bool)
        ensures
            v == (total_place(*a) >= total_place(*b)),
    { place_in_all(*a) >= place_in_all(*b) };
    let mut order = stable_order(values, le, Ghost(rel));
    if count < order.len() {
        order.truncate(count);
    } else {
        assert(order@.take(order@.len() as int) =~= order@);
    }
    order
}

/// The file that is found comes behind no other of its sort, in the order of paths.
pub proof fn discovered_file_comes_first(files: Seq<Seq<char>>, codec: bool, n: int)
    requires
        0 <= n <= files.len(),
    ensures
        match first_file(files, codec, n) {
            None => forall|i: int|
                0 <= i < n ==> !(#[trigger] is_sort(files[i], codec)),
            Some(best) => {
                &&& is_sort(best, codec)
                &&& forall|i: int|
                    0 <= i < n && #[trigger] is_sort(files[i], codec) ==> path_le(best, files[i])
            },
        },
    decreases n,
{
    if n > 0 {
        discovered_file_comes_first(files, codec, n - 1);
        let path = files[n - 1];
        path_order_is_total(path, path, path);
        match first_file(files, codec, n - 1) {
            None => {},
            Some(best) => {
                path_order_is_total(best, path, path);
                assert forall|i: int| 0 <= i < n && #[trigger] is_sort(files[i], codec) implies path_le(
                    first_file(files, codec, n)->0,
                    files[i],
                ) by {
                    path_order_is_total(path, best, files[i]);
                }
            },
        }
    }
}

/// Whether a file is a codec, or a transformer.
pub open spec fn is_sort(path: Seq<char>, codec: bool) -> bool {
    if codec {
        is_codec_file(path)
    } else {
        is_transformer_file(path)
    }
}

} // verus!
