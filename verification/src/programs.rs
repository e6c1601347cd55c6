//! The flags that each program takes.
use crate::cli::{Flag, FlagId, FlagKind, Wording};
use vstd::prelude::*;

verus! {

/// The flags of the program that writes speech with its sound.
pub open spec fn e2e_table() -> Seq<Flag> {
    seq![
        Flag {
            name: "--transformer",
            short: "--transformer",
            id: FlagId::Transformer,
            kind: FlagKind::Text,
            missing: Some("missing --transformer"),
            wording: Wording::Plain,
        },
        Flag {
            name: "--codec",
            short: "--codec",
            id: FlagId::Codec,
            kind: FlagKind::Text,
            missing: Some("missing --codec"),
            wording: Wording::Plain,
        },
        Flag {
            name: "--tokenizer",
            short: "--tokenizer",
            id: FlagId::Tokenizer,
            kind: FlagKind::Text,
            missing: Some("missing --tokenizer"),
            wording: Wording::Plain,
        },
        Flag {
            name: "--text",
            short: "--text",
            id: FlagId::Text,
            kind: FlagKind::Text,
            missing: Some("missing --text"),
            wording: Wording::Plain,
        },
        Flag {
            name: "--prompt-text",
            short: "--prompt-text",
            id: FlagId::PromptText,
            kind: FlagKind::Text,
            missing: Some("missing --prompt-text"),
            wording: Wording::Plain,
        },
        Flag {
            name: "--prompt-codes",
            short: "--prompt-codes",
            id: FlagId::PromptCodes,
            kind: FlagKind::Text,
            missing: Some("missing --prompt-codes"),
            wording: Wording::Plain,
        },
        Flag {
            name: "--output",
            short: "--output",
            id: FlagId::Output,
            kind: FlagKind::Text,
            missing: Some("missing --output"),
            wording: Wording::Plain,
        },
        Flag {
            name: "--codes",
            short: "--codes",
            id: FlagId::Codes,
            kind: FlagKind::Text,
            missing: Some("missing --codes"),
            wording: Wording::Plain,
        },
        Flag {
            name: "--wav",
            short: "--wav",
            id: FlagId::Wav,
            kind: FlagKind::Text,
            missing: Some("missing --wav"),
            wording: Wording::Plain,
        },
        Flag {
            name: "--max-new-tokens",
            short: "--max-new-tokens",
            id: FlagId::MaxNewTokens,
            kind: FlagKind::Unsigned(0xffff_ffff),
            missing: Some("missing --max-new-tokens"),
            wording: Wording::Plain,
        },
        Flag {
            name: "--temperature",
            short: "--temperature",
            id: FlagId::Temperature,
            kind: FlagKind::Float,
            missing: Some("missing --temperature"),
            wording: Wording::Plain,
        },
        Flag {
            name: "--top-p",
            short: "--top-p",
            id: FlagId::TopP,
            kind: FlagKind::Float,
            missing: Some("missing --top-p"),
            wording: Wording::Plain,
        },
        Flag {
            name: "--top-k",
            short: "--top-k",
            id: FlagId::TopK,
            kind: FlagKind::Signed,
            missing: Some("missing --top-k"),
            wording: Wording::Plain,
        },
        Flag {
            name: "--min-tokens-before-end",
            short: "--min-tokens-before-end",
            id: FlagId::MinTokensBeforeEnd,
            kind: FlagKind::Unsigned(0xffff_ffff),
            missing: Some("missing --min-tokens-before-end"),
            wording: Wording::Plain,
        },
        Flag {
            name: "--seed",
            short: "--seed",
            id: FlagId::Seed,
            kind: FlagKind::Unsigned(0xffff_ffff_ffff_ffff),
            missing: Some("missing --seed"),
            wording: Wording::Plain,
        },
    ]
}

/// The flags of the program that writes speech with its sound.
pub fn e2e_flags() -> (r: Vec<Flag>)
    ensures
        r@ == e2e_table(),
{
    let mut v: Vec<Flag> = Vec::new();
    v.push(
        Flag {
            name: "--transformer",
            short: "--transformer",
            id: FlagId::Transformer,
            kind: FlagKind::Text,
            missing: Some("missing --transformer"),
            wording: Wording::Plain,
        },
    );
    v.push(
        Flag {
            name: "--codec",
            short: "--codec",
            id: FlagId::Codec,
            kind: FlagKind::Text,
            missing: Some("missing --codec"),
            wording: Wording::Plain,
        },
    );
    v.push(
        Flag {
            name: "--tokenizer",
            short: "--tokenizer",
            id: FlagId::Tokenizer,
            kind: FlagKind::Text,
            missing: Some("missing --tokenizer"),
            wording: Wording::Plain,
        },
    );
    v.push(
        Flag {
            name: "--text",
            short: "--text",
            id: FlagId::Text,
            kind: FlagKind::Text,
            missing: Some("missing --text"),
            wording: Wording::Plain,
        },
    );
    v.push(
        Flag {
            name: "--prompt-text",
            short: "--prompt-text",
            id: FlagId::PromptText,
            kind: FlagKind::Text,
            missing: Some("missing --prompt-text"),
            wording: Wording::Plain,
        },
    );
    v.push(
        Flag {
            name: "--prompt-codes",
            short: "--prompt-codes",
            id: FlagId::PromptCodes,
            kind: FlagKind::Text,
            missing: Some("missing --prompt-codes"),
            wording: Wording::Plain,
        },
    );
    v.push(
        Flag {
            name: "--output",
            short: "--output",
            id: FlagId::Output,
            kind: FlagKind::Text,
            missing: Some("missing --output"),
            wording: Wording::Plain,
        },
    );
    v.push(
        Flag {
            name: "--codes",
            short: "--codes",
            id: FlagId::Codes,
            kind: FlagKind::Text,
            missing: Some("missing --codes"),
            wording: Wording::Plain,
        },
    );
    v.push(
        Flag {
            name: "--wav",
            short: "--wav",
            id: FlagId::Wav,
            kind: FlagKind::Text,
            missing: Some("missing --wav"),
            wording: Wording::Plain,
        },
    );
    v.push(
        Flag {
            name: "--max-new-tokens",
            short: "--max-new-tokens",
            id: FlagId::MaxNewTokens,
            kind: FlagKind::Unsigned(0xffff_ffff),
            missing: Some("missing --max-new-tokens"),
            wording: Wording::Plain,
        },
    );
    v.push(
        Flag {
            name: "--temperature",
            short: "--temperature",
            id: FlagId::Temperature,
            kind: FlagKind::Float,
            missing: Some("missing --temperature"),
            wording: Wording::Plain,
        },
    );
    v.push(
        Flag {
            name: "--top-p",
            short: "--top-p",
            id: FlagId::TopP,
            kind: FlagKind::Float,
            missing: Some("missing --top-p"),
            wording: Wording::Plain,
        },
    );
    v.push(
        Flag {
            name: "--top-k",
            short: "--top-k",
            id: FlagId::TopK,
            kind: FlagKind::Signed,
            missing: Some("missing --top-k"),
            wording: Wording::Plain,
        },
    );
    v.push(
        Flag {
            name: "--min-tokens-before-end",
            short: "--min-tokens-before-end",
            id: FlagId::MinTokensBeforeEnd,
            kind: FlagKind::Unsigned(0xffff_ffff),
            missing: Some("missing --min-tokens-before-end"),
            wording: Wording::Plain,
        },
    );
    v.push(
        Flag {
            name: "--seed",
            short: "--seed",
            id: FlagId::Seed,
            kind: FlagKind::Unsigned(0xffff_ffff_ffff_ffff),
            missing: Some("missing --seed"),
            wording: Wording::Plain,
        },
    );
    assert(v@ =~= e2e_table());
    v
}

/// The flags of the program that writes speech codes.
pub open spec fn codes_table() -> Seq<Flag> {
    seq![
        Flag {
            name: "--transformer",
            short: "--transformer",
            id: FlagId::Transformer,
            kind: FlagKind::Text,
            missing: Some("missing --transformer"),
            wording: Wording::Plain,
        },
        Flag {
            name: "--tokenizer",
            short: "--tokenizer",
            id: FlagId::Tokenizer,
            kind: FlagKind::Text,
            missing: Some("missing --tokenizer"),
            wording: Wording::Plain,
        },
        Flag {
            name: "--text",
            short: "--text",
            id: FlagId::Text,
            kind: FlagKind::Text,
            missing: Some("missing --text"),
            wording: Wording::Plain,
        },
        Flag {
            name: "--prompt-text",
            short: "--prompt-text",
            id: FlagId::PromptText,
            kind: FlagKind::Text,
            missing: Some("missing --prompt-text"),
            wording: Wording::Plain,
        },
        Flag {
            name: "--prompt-codes",
            short: "--prompt-codes",
            id: FlagId::PromptCodes,
            kind: FlagKind::Text,
            missing: Some("missing --prompt-codes"),
            wording: Wording::Plain,
        },
        Flag {
            name: "--output",
            short: "--output",
            id: FlagId::Output,
            kind: FlagKind::Text,
            missing: Some("missing --output"),
            wording: Wording::Plain,
        },
        Flag {
            name: "--max-new-tokens",
            short: "--max-new-tokens",
            id: FlagId::MaxNewTokens,
            kind: FlagKind::Unsigned(0xffff_ffff),
            missing: Some("missing --max-new-tokens"),
            wording: Wording::Plain,
        },
        Flag {
            name: "--temperature",
            short: "--temperature",
            id: FlagId::Temperature,
            kind: FlagKind::Float,
            missing: Some("missing --temperature"),
            wording: Wording::Plain,
        },
        Flag {
            name: "--top-p",
            short: "--top-p",
            id: FlagId::TopP,
            kind: FlagKind::Float,
            missing: Some("missing --top-p"),
            wording: Wording::Plain,
        },
        Flag {
            name: "--top-k",
            short: "--top-k",
            id: FlagId::TopK,
            kind: FlagKind::Signed,
            missing: Some("missing --top-k"),
            wording: Wording::Plain,
        },
        Flag {
            name: "--min-tokens-before-end",
            short: "--min-tokens-before-end",
            id: FlagId::MinTokensBeforeEnd,
            kind: FlagKind::Unsigned(0xffff_ffff),
            missing: Some("missing --min-tokens-before-end"),
            wording: Wording::Plain,
        },
        Flag {
            name: "--seed",
            short: "--seed",
            id: FlagId::Seed,
            kind: FlagKind::Unsigned(0xffff_ffff_ffff_ffff),
            missing: Some("missing --seed"),
            wording: Wording::Plain,
        },
    ]
}

/// The flags of the program that writes speech codes.
pub fn codes_flags() -> (r: Vec<Flag>)
    ensures
        r@ == codes_table(),
{
    let mut v: Vec<Flag> = Vec::new();
    v.push(
        Flag {
            name: "--transformer",
            short: "--transformer",
            id: FlagId::Transformer,
            kind: FlagKind::Text,
            missing: Some("missing --transformer"),
            wording: Wording::Plain,
        },
    );
    v.push(
        Flag {
            name: "--tokenizer",
            short: "--tokenizer",
            id: FlagId::Tokenizer,
            kind: FlagKind::Text,
            missing: Some("missing --tokenizer"),
            wording: Wording::Plain,
        },
    );
    v.push(
        Flag {
            name: "--text",
            short: "--text",
            id: FlagId::Text,
            kind: FlagKind::Text,
            missing: Some("missing --text"),
            wording: Wording::Plain,
        },
    );
    v.push(
        Flag {
            name: "--prompt-text",
            short: "--prompt-text",
            id: FlagId::PromptText,
            kind: FlagKind::Text,
            missing: Some("missing --prompt-text"),
            wording: Wording::Plain,
        },
    );
    v.push(
        Flag {
            name: "--prompt-codes",
            short: "--prompt-codes",
            id: FlagId::PromptCodes,
            kind: FlagKind::Text,
            missing: Some("missing --prompt-codes"),
            wording: Wording::Plain,
        },
    );
    v.push(
        Flag {
            name: "--output",
            short: "--output",
            id: FlagId::Output,
            kind: FlagKind::Text,
            missing: Some("missing --output"),
            wording: Wording::Plain,
        },
    );
    v.push(
        Flag {
            name: "--max-new-tokens",
            short: "--max-new-tokens",
            id: FlagId::MaxNewTokens,
            kind: FlagKind::Unsigned(0xffff_ffff),
            missing: Some("missing --max-new-tokens"),
            wording: Wording::Plain,
        },
    );
    v.push(
        Flag {
            name: "--temperature",
            short: "--temperature",
            id: FlagId::Temperature,
            kind: FlagKind::Float,
            missing: Some("missing --temperature"),
            wording: Wording::Plain,
        },
    );
    v.push(
        Flag {
            name: "--top-p",
            short: "--top-p",
            id: FlagId::TopP,
            kind: FlagKind::Float,
            missing: Some("missing --top-p"),
            wording: Wording::Plain,
        },
    );
    v.push(
        Flag {
            name: "--top-k",
            short: "--top-k",
            id: FlagId::TopK,
            kind: FlagKind::Signed,
            missing: Some("missing --top-k"),
            wording: Wording::Plain,
        },
    );
    v.push(
        Flag {
            name: "--min-tokens-before-end",
            short: "--min-tokens-before-end",
            id: FlagId::MinTokensBeforeEnd,
            kind: FlagKind::Unsigned(0xffff_ffff),
            missing: Some("missing --min-tokens-before-end"),
            wording: Wording::Plain,
        },
    );
    v.push(
        Flag {
            name: "--seed",
            short: "--seed",
            id: FlagId::Seed,
            kind: FlagKind::Unsigned(0xffff_ffff_ffff_ffff),
            missing: Some("missing --seed"),
            wording: Wording::Plain,
        },
    );
    assert(v@ =~= codes_table());
    v
}

/// The flags of the program that writes speech tokens.
pub open spec fn semantic_table() -> Seq<Flag> {
    seq![
        Flag {
            name: "--transformer",
            short: "--transformer",
            id: FlagId::Transformer,
            kind: FlagKind::Text,
            missing: Some("missing --transformer"),
            wording: Wording::Plain,
        },
        Flag {
            name: "--tokenizer",
            short: "--tokenizer",
            id: FlagId::Tokenizer,
            kind: FlagKind::Text,
            missing: Some("missing --tokenizer"),
            wording: Wording::Plain,
        },
        Flag {
            name: "--text",
            short: "--text",
            id: FlagId::Text,
            kind: FlagKind::Text,
            missing: Some("missing --text"),
            wording: Wording::Plain,
        },
        Flag {
            name: "--output",
            short: "--output",
            id: FlagId::Output,
            kind: FlagKind::Text,
            missing: Some("missing --output"),
            wording: Wording::Plain,
        },
        Flag {
            name: "--max-new-tokens",
            short: "--max-new-tokens",
            id: FlagId::MaxNewTokens,
            kind: FlagKind::Unsigned(0xffff_ffff),
            missing: Some("missing --max-new-tokens"),
            wording: Wording::Plain,
        },
        Flag {
            name: "--temperature",
            short: "--temperature",
            id: FlagId::Temperature,
            kind: FlagKind::Float,
            missing: Some("missing --temperature"),
            wording: Wording::Plain,
        },
        Flag {
            name: "--top-p",
            short: "--top-p",
            id: FlagId::TopP,
            kind: FlagKind::Float,
            missing: Some("missing --top-p"),
            wording: Wording::Plain,
        },
        Flag {
            name: "--top-k",
            short: "--top-k",
            id: FlagId::TopK,
            kind: FlagKind::Signed,
            missing: Some("missing --top-k"),
            wording: Wording::Plain,
        },
        Flag {
            name: "--min-tokens-before-end",
            short: "--min-tokens-before-end",
            id: FlagId::MinTokensBeforeEnd,
            kind: FlagKind::Unsigned(0xffff_ffff),
            missing: Some("missing --min-tokens-before-end"),
            wording: Wording::Plain,
        },
        Flag {
            name: "--seed",
            short: "--seed",
            id: FlagId::Seed,
            kind: FlagKind::Unsigned(0xffff_ffff_ffff_ffff),
            missing: Some("missing --seed"),
            wording: Wording::Plain,
        },
    ]
}

/// The flags of the program that writes speech tokens.
pub fn semantic_flags() -> (r: Vec<Flag>)
    ensures
        r@ == semantic_table(),
{
    let mut v: Vec<Flag> = Vec::new();
    v.push(
        Flag {
            name: "--transformer",
            short: "--transformer",
            id: FlagId::Transformer,
            kind: FlagKind::Text,
            missing: Some("missing --transformer"),
            wording: Wording::Plain,
        },
    );
    v.push(
        Flag {
            name: "--tokenizer",
            short: "--tokenizer",
            id: FlagId::Tokenizer,
            kind: FlagKind::Text,
            missing: Some("missing --tokenizer"),
            wording: Wording::Plain,
        },
    );
    v.push(
        Flag {
            name: "--text",
            short: "--text",
            id: FlagId::Text,
            kind: FlagKind::Text,
            missing: Some("missing --text"),
            wording: Wording::Plain,
        },
    );
    v.push(
        Flag {
            name: "--output",
            short: "--output",
            id: FlagId::Output,
            kind: FlagKind::Text,
            missing: Some("missing --output"),
            wording: Wording::Plain,
        },
    );
    v.push(
        Flag {
            name: "--max-new-tokens",
            short: "--max-new-tokens",
            id: FlagId::MaxNewTokens,
            kind: FlagKind::Unsigned(0xffff_ffff),
            missing: Some("missing --max-new-tokens"),
            wording: Wording::Plain,
        },
    );
    v.push(
        Flag {
            name: "--temperature",
            short: "--temperature",
            id: FlagId::Temperature,
            kind: FlagKind::Float,
            missing: Some("missing --temperature"),
            wording: Wording::Plain,
        },
    );
    v.push(
        Flag {
            name: "--top-p",
            short: "--top-p",
            id: FlagId::TopP,
            kind: FlagKind::Float,
            missing: Some("missing --top-p"),
            wording: Wording::Plain,
        },
    );
    v.push(
        Flag {
            name: "--top-k",
            short: "--top-k",
            id: FlagId::TopK,
            kind: FlagKind::Signed,
            missing: Some("missing --top-k"),
            wording: Wording::Plain,
        },
    );
    v.push(
        Flag {
            name: "--min-tokens-before-end",
            short: "--min-tokens-before-end",
            id: FlagId::MinTokensBeforeEnd,
            kind: FlagKind::Unsigned(0xffff_ffff),
            missing: Some("missing --min-tokens-before-end"),
            wording: Wording::Plain,
        },
    );
    v.push(
        Flag {
            name: "--seed",
            short: "--seed",
            id: FlagId::Seed,
            kind: FlagKind::Unsigned(0xffff_ffff_ffff_ffff),
            missing: Some("missing --seed"),
            wording: Wording::Plain,
        },
    );
    assert(v@ =~= semantic_table());
    v
}

/// The flags of the program that writes the first frame of speech.
pub open spec fn fast_ar_table() -> Seq<Flag> {
    seq![
        Flag {
            name: "--transformer",
            short: "--transformer",
            id: FlagId::Transformer,
            kind: FlagKind::Text,
            missing: Some("missing --transformer value"),
            wording: Wording::Plain,
        },
        Flag {
            name: "--tokenizer",
            short: "--tokenizer",
            id: FlagId::Tokenizer,
            kind: FlagKind::Text,
            missing: Some("missing --tokenizer value"),
            wording: Wording::Plain,
        },
        Flag {
            name: "--text",
            short: "--text",
            id: FlagId::Text,
            kind: FlagKind::Text,
            missing: Some("missing --text value"),
            wording: Wording::Plain,
        },
        Flag {
            name: "--output",
            short: "--output",
            id: FlagId::Output,
            kind: FlagKind::Text,
            missing: Some("missing --output value"),
            wording: Wording::Plain,
        },
        Flag {
            name: "--temperature",
            short: "--temperature",
            id: FlagId::Temperature,
            kind: FlagKind::Float,
            missing: Some("missing --temperature"),
            wording: Wording::Behind("--temperature: "),
        },
        Flag {
            name: "--top-p",
            short: "--top-p",
            id: FlagId::TopP,
            kind: FlagKind::Float,
            missing: Some("missing --top-p"),
            wording: Wording::Behind("--top-p: "),
        },
        Flag {
            name: "--top-k",
            short: "--top-k",
            id: FlagId::TopK,
            kind: FlagKind::Signed,
            missing: Some("missing --top-k"),
            wording: Wording::Behind("--top-k: "),
        },
        Flag {
            name: "--min-tokens-before-end",
            short: "--min-tokens-before-end",
            id: FlagId::MinTokensBeforeEnd,
            kind: FlagKind::Unsigned(0xffff_ffff),
            missing: Some("missing --min-tokens-before-end"),
            wording: Wording::Behind("--min-tokens-before-end: "),
        },
        Flag {
            name: "--seed",
            short: "--seed",
            id: FlagId::Seed,
            kind: FlagKind::Unsigned(0xffff_ffff_ffff_ffff),
            missing: Some("missing --seed"),
            wording: Wording::Behind("--seed: "),
        },
    ]
}

/// The flags of the program that writes the first frame of speech.
pub fn fast_ar_flags() -> (r: Vec<Flag>)
    ensures
        r@ == fast_ar_table(),
{
    let mut v: Vec<Flag> = Vec::new();
    v.push(
        Flag {
            name: "--transformer",
            short: "--transformer",
            id: FlagId::Transformer,
            kind: FlagKind::Text,
            missing: Some("missing --transformer value"),
            wording: Wording::Plain,
        },
    );
    v.push(
        Flag {
            name: "--tokenizer",
            short: "--tokenizer",
            id: FlagId::Tokenizer,
            kind: FlagKind::Text,
            missing: Some("missing --tokenizer value"),
            wording: Wording::Plain,
        },
    );
    v.push(
        Flag {
            name: "--text",
            short: "--text",
            id: FlagId::Text,
            kind: FlagKind::Text,
            missing: Some("missing --text value"),
            wording: Wording::Plain,
        },
    );
    v.push(
        Flag {
            name: "--output",
            short: "--output",
            id: FlagId::Output,
            kind: FlagKind::Text,
            missing: Some("missing --output value"),
            wording: Wording::Plain,
        },
    );
    v.push(
        Flag {
            name: "--temperature",
            short: "--temperature",
            id: FlagId::Temperature,
            kind: FlagKind::Float,
            missing: Some("missing --temperature"),
            wording: Wording::Behind("--temperature: "),
        },
    );
    v.push(
        Flag {
            name: "--top-p",
            short: "--top-p",
            id: FlagId::TopP,
            kind: FlagKind::Float,
            missing: Some("missing --top-p"),
            wording: Wording::Behind("--top-p: "),
        },
    );
    v.push(
        Flag {
            name: "--top-k",
            short: "--top-k",
            id: FlagId::TopK,
            kind: FlagKind::Signed,
            missing: Some("missing --top-k"),
            wording: Wording::Behind("--top-k: "),
        },
    );
    v.push(
        Flag {
            name: "--min-tokens-before-end",
            short: "--min-tokens-before-end",
            id: FlagId::MinTokensBeforeEnd,
            kind: FlagKind::Unsigned(0xffff_ffff),
            missing: Some("missing --min-tokens-before-end"),
            wording: Wording::Behind("--min-tokens-before-end: "),
        },
    );
    v.push(
        Flag {
            name: "--seed",
            short: "--seed",
            id: FlagId::Seed,
            kind: FlagKind::Unsigned(0xffff_ffff_ffff_ffff),
            missing: Some("missing --seed"),
            wording: Wording::Behind("--seed: "),
        },
    );
    assert(v@ =~= fast_ar_table());
    v
}

/// The flags of the program that writes layers of the slow transformer.
pub open spec fn slow_ar_table() -> Seq<Flag> {
    seq![
        Flag {
            name: "--transformer",
            short: "--transformer",
            id: FlagId::Transformer,
            kind: FlagKind::Text,
            missing: None,
            wording: Wording::Plain,
        },
        Flag {
            name: "--output",
            short: "--output",
            id: FlagId::Output,
            kind: FlagKind::Text,
            missing: None,
            wording: Wording::Plain,
        },
        Flag {
            name: "--layer",
            short: "--layer",
            id: FlagId::Layer,
            kind: FlagKind::Unsigned(usize::MAX as u64),
            missing: Some("missing value for --layer"),
            wording: Wording::Quoting("invalid --layer value "),
        },
        Flag {
            name: "--layers",
            short: "--layers",
            id: FlagId::Layers,
            kind: FlagKind::Positive(usize::MAX as u64),
            missing: Some("missing value for --layers"),
            wording: Wording::Quoting("invalid --layers value "),
        },
        Flag {
            name: "--position",
            short: "--position",
            id: FlagId::Position,
            kind: FlagKind::Unsigned(usize::MAX as u64),
            missing: Some("missing value for --position"),
            wording: Wording::Quoting("invalid --position value "),
        },
        Flag {
            name: "--tokens",
            short: "--tokens",
            id: FlagId::Tokens,
            kind: FlagKind::Positive(usize::MAX as u64),
            missing: Some("missing value for --tokens"),
            wording: Wording::Quoting("invalid --tokens value "),
        },
        Flag {
            name: "--logits",
            short: "--logits",
            id: FlagId::Logits,
            kind: FlagKind::Switch,
            missing: None,
            wording: Wording::Plain,
        },
        Flag {
            name: "--top-k",
            short: "--top-k",
            id: FlagId::TopK,
            kind: FlagKind::Positive(usize::MAX as u64),
            missing: Some("missing value for --top-k"),
            wording: Wording::Quoting("invalid --top-k value "),
        },
    ]
}

/// The flags of the program that writes layers of the slow transformer.
pub fn slow_ar_flags() -> (r: Vec<Flag>)
    ensures
        r@ == slow_ar_table(),
{
    let mut v: Vec<Flag> = Vec::new();
    v.push(
        Flag {
            name: "--transformer",
            short: "--transformer",
            id: FlagId::Transformer,
            kind: FlagKind::Text,
            missing: None,
            wording: Wording::Plain,
        },
    );
    v.push(
        Flag {
            name: "--output",
            short: "--output",
            id: FlagId::Output,
            kind: FlagKind::Text,
            missing: None,
            wording: Wording::Plain,
        },
    );
    v.push(
        Flag {
            name: "--layer",
            short: "--layer",
            id: FlagId::Layer,
            kind: FlagKind::Unsigned(usize::MAX as u64),
            missing: Some("missing value for --layer"),
            wording: Wording::Quoting("invalid --layer value "),
        },
    );
    v.push(
        Flag {
            name: "--layers",
            short: "--layers",
            id: FlagId::Layers,
            kind: FlagKind::Positive(usize::MAX as u64),
            missing: Some("missing value for --layers"),
            wording: Wording::Quoting("invalid --layers value "),
        },
    );
    v.push(
        Flag {
            name: "--position",
            short: "--position",
            id: FlagId::Position,
            kind: FlagKind::Unsigned(usize::MAX as u64),
            missing: Some("missing value for --position"),
            wording: Wording::Quoting("invalid --position value "),
        },
    );
    v.push(
        Flag {
            name: "--tokens",
            short: "--tokens",
            id: FlagId::Tokens,
            kind: FlagKind::Positive(usize::MAX as u64),
            missing: Some("missing value for --tokens"),
            wording: Wording::Quoting("invalid --tokens value "),
        },
    );
    v.push(
        Flag {
            name: "--logits",
            short: "--logits",
            id: FlagId::Logits,
            kind: FlagKind::Switch,
            missing: None,
            wording: Wording::Plain,
        },
    );
    v.push(
        Flag {
            name: "--top-k",
            short: "--top-k",
            id: FlagId::TopK,
            kind: FlagKind::Positive(usize::MAX as u64),
            missing: Some("missing value for --top-k"),
            wording: Wording::Quoting("invalid --top-k value "),
        },
    );
    assert(v@ =~= slow_ar_table());
    v
}

/// The flags of the program that writes the tensors of a codec.
pub open spec fn codec_dump_table() -> Seq<Flag> {
    seq![
        Flag {
            name: "--codec",
            short: "--codec",
            id: FlagId::Codec,
            kind: FlagKind::Text,
            missing: Some("missing --codec"),
            wording: Wording::Plain,
        },
        Flag {
            name: "--output",
            short: "--output",
            id: FlagId::Output,
            kind: FlagKind::Text,
            missing: Some("missing --output"),
            wording: Wording::Plain,
        },
        Flag {
            name: "--metadata-output",
            short: "--metadata-output",
            id: FlagId::MetadataOutput,
            kind: FlagKind::Text,
            missing: Some("missing --metadata-output"),
            wording: Wording::Plain,
        },
        Flag {
            name: "--contains",
            short: "--contains",
            id: FlagId::Contains,
            kind: FlagKind::Text,
            missing: Some("missing --contains"),
            wording: Wording::Plain,
        },
        Flag {
            name: "--limit",
            short: "--limit",
            id: FlagId::Limit,
            kind: FlagKind::Unsigned(usize::MAX as u64),
            missing: Some("missing --limit"),
            wording: Wording::Behind("invalid --limit: "),
        },
    ]
}

/// The flags of the program that writes the tensors of a codec.
pub fn codec_dump_flags() -> (r: Vec<Flag>)
    ensures
        r@ == codec_dump_table(),
{
    let mut v: Vec<Flag> = Vec::new();
    v.push(
        Flag {
            name: "--codec",
            short: "--codec",
            id: FlagId::Codec,
            kind: FlagKind::Text,
            missing: Some("missing --codec"),
            wording: Wording::Plain,
        },
    );
    v.push(
        Flag {
            name: "--output",
            short: "--output",
            id: FlagId::Output,
            kind: FlagKind::Text,
            missing: Some("missing --output"),
            wording: Wording::Plain,
        },
    );
    v.push(
        Flag {
            name: "--metadata-output",
            short: "--metadata-output",
            id: FlagId::MetadataOutput,
            kind: FlagKind::Text,
            missing: Some("missing --metadata-output"),
            wording: Wording::Plain,
        },
    );
    v.push(
        Flag {
            name: "--contains",
            short: "--contains",
            id: FlagId::Contains,
            kind: FlagKind::Text,
            missing: Some("missing --contains"),
            wording: Wording::Plain,
        },
    );
    v.push(
        Flag {
            name: "--limit",
            short: "--limit",
            id: FlagId::Limit,
            kind: FlagKind::Unsigned(usize::MAX as u64),
            missing: Some("missing --limit"),
            wording: Wording::Behind("invalid --limit: "),
        },
    );
    assert(v@ =~= codec_dump_table());
    v
}

/// The flags of the program that writes work on generated codes.
pub open spec fn codes_input_table() -> Seq<Flag> {
    seq![
        Flag {
            name: "--codec",
            short: "--codec",
            id: FlagId::Codec,
            kind: FlagKind::Text,
            missing: Some("missing --codec"),
            wording: Wording::Plain,
        },
        Flag {
            name: "--codes",
            short: "--codes",
            id: FlagId::Codes,
            kind: FlagKind::Text,
            missing: Some("missing --codes"),
            wording: Wording::Plain,
        },
        Flag {
            name: "--output",
            short: "--output",
            id: FlagId::Output,
            kind: FlagKind::Text,
            missing: Some("missing --output"),
            wording: Wording::Plain,
        },
    ]
}

/// The flags of the program that writes work on generated codes.
pub fn codes_input_flags() -> (r: Vec<Flag>)
    ensures
        r@ == codes_input_table(),
{
    let mut v: Vec<Flag> = Vec::new();
    v.push(
        Flag {
            name: "--codec",
            short: "--codec",
            id: FlagId::Codec,
            kind: FlagKind::Text,
            missing: Some("missing --codec"),
            wording: Wording::Plain,
        },
    );
    v.push(
        Flag {
            name: "--codes",
            short: "--codes",
            id: FlagId::Codes,
            kind: FlagKind::Text,
            missing: Some("missing --codes"),
            wording: Wording::Plain,
        },
    );
    v.push(
        Flag {
            name: "--output",
            short: "--output",
            id: FlagId::Output,
            kind: FlagKind::Text,
            missing: Some("missing --output"),
            wording: Wording::Plain,
        },
    );
    assert(v@ =~= codes_input_table());
    v
}

/// The flags of the program that writes the sound of generated codes.
pub open spec fn waveform_table() -> Seq<Flag> {
    seq![
        Flag {
            name: "--codec",
            short: "--codec",
            id: FlagId::Codec,
            kind: FlagKind::Text,
            missing: Some("missing --codec"),
            wording: Wording::Plain,
        },
        Flag {
            name: "--codes",
            short: "--codes",
            id: FlagId::Codes,
            kind: FlagKind::Text,
            missing: Some("missing --codes"),
            wording: Wording::Plain,
        },
        Flag {
            name: "--output",
            short: "--output",
            id: FlagId::Output,
            kind: FlagKind::Text,
            missing: Some("missing --output"),
            wording: Wording::Plain,
        },
        Flag {
            name: "--wav",
            short: "--wav",
            id: FlagId::Wav,
            kind: FlagKind::Text,
            missing: Some("missing --wav"),
            wording: Wording::Plain,
        },
    ]
}

/// The flags of the program that writes the sound of generated codes.
pub fn waveform_flags() -> (r: Vec<Flag>)
    ensures
        r@ == waveform_table(),
{
    let mut v: Vec<Flag> = Vec::new();
    v.push(
        Flag {
            name: "--codec",
            short: "--codec",
            id: FlagId::Codec,
            kind: FlagKind::Text,
            missing: Some("missing --codec"),
            wording: Wording::Plain,
        },
    );
    v.push(
        Flag {
            name: "--codes",
            short: "--codes",
            id: FlagId::Codes,
            kind: FlagKind::Text,
            missing: Some("missing --codes"),
            wording: Wording::Plain,
        },
    );
    v.push(
        Flag {
            name: "--output",
            short: "--output",
            id: FlagId::Output,
            kind: FlagKind::Text,
            missing: Some("missing --output"),
            wording: Wording::Plain,
        },
    );
    v.push(
        Flag {
            name: "--wav",
            short: "--wav",
            id: FlagId::Wav,
            kind: FlagKind::Text,
            missing: Some("missing --wav"),
            wording: Wording::Plain,
        },
    );
    assert(v@ =~= waveform_table());
    v
}

/// The flags of the program that writes the codec's encoder.
pub open spec fn encoder_stage_table() -> Seq<Flag> {
    seq![
        Flag {
            name: "--codec",
            short: "--codec",
            id: FlagId::Codec,
            kind: FlagKind::Text,
            missing: Some("missing --codec"),
            wording: Wording::Plain,
        },
        Flag {
            name: "--output",
            short: "--output",
            id: FlagId::Output,
            kind: FlagKind::Text,
            missing: Some("missing --output"),
            wording: Wording::Plain,
        },
        Flag {
            name: "--samples",
            short: "--samples",
            id: FlagId::Samples,
            kind: FlagKind::Unsigned(usize::MAX as u64),
            missing: Some("missing --samples"),
            wording: Wording::Quoting("invalid --samples "),
        },
    ]
}

/// The flags of the program that writes the codec's encoder.
pub fn encoder_stage_flags() -> (r: Vec<Flag>)
    ensures
        r@ == encoder_stage_table(),
{
    let mut v: Vec<Flag> = Vec::new();
    v.push(
        Flag {
            name: "--codec",
            short: "--codec",
            id: FlagId::Codec,
            kind: FlagKind::Text,
            missing: Some("missing --codec"),
            wording: Wording::Plain,
        },
    );
    v.push(
        Flag {
            name: "--output",
            short: "--output",
            id: FlagId::Output,
            kind: FlagKind::Text,
            missing: Some("missing --output"),
            wording: Wording::Plain,
        },
    );
    v.push(
        Flag {
            name: "--samples",
            short: "--samples",
            id: FlagId::Samples,
            kind: FlagKind::Unsigned(usize::MAX as u64),
            missing: Some("missing --samples"),
            wording: Wording::Quoting("invalid --samples "),
        },
    );
    assert(v@ =~= encoder_stage_table());
    v
}

/// The flags of the program that writes the codes of a voice.
pub open spec fn reference_table() -> Seq<Flag> {
    seq![
        Flag {
            name: "--codec",
            short: "--codec",
            id: FlagId::Codec,
            kind: FlagKind::Text,
            missing: Some("missing --codec"),
            wording: Wording::Plain,
        },
        Flag {
            name: "--output",
            short: "--output",
            id: FlagId::Output,
            kind: FlagKind::Text,
            missing: Some("missing --output"),
            wording: Wording::Plain,
        },
        Flag {
            name: "--wav-input",
            short: "--wav-input",
            id: FlagId::WavInput,
            kind: FlagKind::Text,
            missing: Some("missing --wav-input"),
            wording: Wording::Plain,
        },
        Flag {
            name: "--samples",
            short: "--samples",
            id: FlagId::Samples,
            kind: FlagKind::Unsigned(usize::MAX as u64),
            missing: Some("missing --samples"),
            wording: Wording::Quoting("invalid --samples "),
        },
        Flag {
            name: "--prompt-text",
            short: "--prompt-text",
            id: FlagId::PromptText,
            kind: FlagKind::Text,
            missing: Some("missing --prompt-text"),
            wording: Wording::Plain,
        },
        Flag {
            name: "--prompt-text-file",
            short: "--prompt-text-file",
            id: FlagId::PromptTextFile,
            kind: FlagKind::Text,
            missing: Some("missing --prompt-text-file"),
            wording: Wording::Plain,
        },
        Flag {
            name: "--prompt-codes-format",
            short: "--prompt-codes-format",
            id: FlagId::PromptCodesFormat,
            kind: FlagKind::Switch,
            missing: None,
            wording: Wording::Plain,
        },
    ]
}

/// The flags of the program that writes the codes of a voice.
pub fn reference_flags() -> (r: Vec<Flag>)
    ensures
        r@ == reference_table(),
{
    let mut v: Vec<Flag> = Vec::new();
    v.push(
        Flag {
            name: "--codec",
            short: "--codec",
            id: FlagId::Codec,
            kind: FlagKind::Text,
            missing: Some("missing --codec"),
            wording: Wording::Plain,
        },
    );
    v.push(
        Flag {
            name: "--output",
            short: "--output",
            id: FlagId::Output,
            kind: FlagKind::Text,
            missing: Some("missing --output"),
            wording: Wording::Plain,
        },
    );
    v.push(
        Flag {
            name: "--wav-input",
            short: "--wav-input",
            id: FlagId::WavInput,
            kind: FlagKind::Text,
            missing: Some("missing --wav-input"),
            wording: Wording::Plain,
        },
    );
    v.push(
        Flag {
            name: "--samples",
            short: "--samples",
            id: FlagId::Samples,
            kind: FlagKind::Unsigned(usize::MAX as u64),
            missing: Some("missing --samples"),
            wording: Wording::Quoting("invalid --samples "),
        },
    );
    v.push(
        Flag {
            name: "--prompt-text",
            short: "--prompt-text",
            id: FlagId::PromptText,
            kind: FlagKind::Text,
            missing: Some("missing --prompt-text"),
            wording: Wording::Plain,
        },
    );
    v.push(
        Flag {
            name: "--prompt-text-file",
            short: "--prompt-text-file",
            id: FlagId::PromptTextFile,
            kind: FlagKind::Text,
            missing: Some("missing --prompt-text-file"),
            wording: Wording::Plain,
        },
    );
    v.push(
        Flag {
            name: "--prompt-codes-format",
            short: "--prompt-codes-format",
            id: FlagId::PromptCodesFormat,
            kind: FlagKind::Switch,
            missing: None,
            wording: Wording::Plain,
        },
    );
    assert(v@ =~= reference_table());
    v
}

/// The flags of the server.
pub open spec fn server_table() -> Seq<Flag> {
    seq![
        Flag {
            name: "--transformer",
            short: "-t",
            id: FlagId::Transformer,
            kind: FlagKind::Text,
            missing: Some("missing --transformer path"),
            wording: Wording::Plain,
        },
        Flag {
            name: "--codec",
            short: "-c",
            id: FlagId::Codec,
            kind: FlagKind::Text,
            missing: Some("missing --codec path"),
            wording: Wording::Plain,
        },
        Flag {
            name: "--port",
            short: "-p",
            id: FlagId::Port,
            kind: FlagKind::Unsigned(65535),
            missing: Some("missing --port"),
            wording: Wording::Fixed("invalid port"),
        },
        Flag {
            name: "--backend",
            short: "--backend",
            id: FlagId::Backend,
            kind: FlagKind::Backend,
            missing: Some("missing --backend"),
            wording: Wording::Plain,
        },
        Flag {
            name: "--max-new-tokens",
            short: "--max-new-tokens",
            id: FlagId::MaxNewTokens,
            kind: FlagKind::Unsigned(0xffff_ffff),
            missing: Some("missing --max-new-tokens"),
            wording: Wording::Fixed("invalid --max-new-tokens"),
        },
        Flag {
            name: "--print-paths",
            short: "--print-paths",
            id: FlagId::PrintPaths,
            kind: FlagKind::Switch,
            missing: None,
            wording: Wording::Plain,
        },
    ]
}

/// The flags of the server.
pub fn server_flags() -> (r: Vec<Flag>)
    ensures
        r@ == server_table(),
{
    let mut v: Vec<Flag> = Vec::new();
    v.push(
        Flag {
            name: "--transformer",
            short: "-t",
            id: FlagId::Transformer,
            kind: FlagKind::Text,
            missing: Some("missing --transformer path"),
            wording: Wording::Plain,
        },
    );
    v.push(
        Flag {
            name: "--codec",
            short: "-c",
            id: FlagId::Codec,
            kind: FlagKind::Text,
            missing: Some("missing --codec path"),
            wording: Wording::Plain,
        },
    );
    v.push(
        Flag {
            name: "--port",
            short: "-p",
            id: FlagId::Port,
            kind: FlagKind::Unsigned(65535),
            missing: Some("missing --port"),
            wording: Wording::Fixed("invalid port"),
        },
    );
    v.push(
        Flag {
            name: "--backend",
            short: "--backend",
            id: FlagId::Backend,
            kind: FlagKind::Backend,
            missing: Some("missing --backend"),
            wording: Wording::Plain,
        },
    );
    v.push(
        Flag {
            name: "--max-new-tokens",
            short: "--max-new-tokens",
            id: FlagId::MaxNewTokens,
            kind: FlagKind::Unsigned(0xffff_ffff),
            missing: Some("missing --max-new-tokens"),
            wording: Wording::Fixed("invalid --max-new-tokens"),
        },
    );
    v.push(
        Flag {
            name: "--print-paths",
            short: "--print-paths",
            id: FlagId::PrintPaths,
            kind: FlagKind::Switch,
            missing: None,
            wording: Wording::Plain,
        },
    );
    assert(v@ =~= server_table());
    v
}

/// The flags of the program that writes the tensors of a model.
pub open spec fn gguf_dump_table() -> Seq<Flag> {
    seq![
        Flag {
            name: "--limit",
            short: "--limit",
            id: FlagId::Limit,
            kind: FlagKind::Unsigned(usize::MAX as u64),
            missing: Some("usage: fish_s2_gguf_dump <model.gguf> [--limit N] [--contains TEXT] [--output tensors.tsv]"),
            wording: Wording::Behind("invalid --limit value: "),
        },
        Flag {
            name: "--contains",
            short: "--contains",
            id: FlagId::Contains,
            kind: FlagKind::Text,
            missing: Some("usage: fish_s2_gguf_dump <model.gguf> [--limit N] [--contains TEXT] [--output tensors.tsv]"),
            wording: Wording::Plain,
        },
        Flag {
            name: "--output",
            short: "--output",
            id: FlagId::Output,
            kind: FlagKind::Text,
            missing: Some("usage: fish_s2_gguf_dump <model.gguf> [--limit N] [--contains TEXT] [--output tensors.tsv]"),
            wording: Wording::Plain,
        },
    ]
}

/// The flags of the program that writes the tensors of a model.
pub fn gguf_dump_flags() -> (r: Vec<Flag>)
    ensures
        r@ == gguf_dump_table(),
{
    let mut v: Vec<Flag> = Vec::new();
    v.push(
        Flag {
            name: "--limit",
            short: "--limit",
            id: FlagId::Limit,
            kind: FlagKind::Unsigned(usize::MAX as u64),
            missing: Some("usage: fish_s2_gguf_dump <model.gguf> [--limit N] [--contains TEXT] [--output tensors.tsv]"),
            wording: Wording::Behind("invalid --limit value: "),
        },
    );
    v.push(
        Flag {
            name: "--contains",
            short: "--contains",
            id: FlagId::Contains,
            kind: FlagKind::Text,
            missing: Some("usage: fish_s2_gguf_dump <model.gguf> [--limit N] [--contains TEXT] [--output tensors.tsv]"),
            wording: Wording::Plain,
        },
    );
    v.push(
        Flag {
            name: "--output",
            short: "--output",
            id: FlagId::Output,
            kind: FlagKind::Text,
            missing: Some("usage: fish_s2_gguf_dump <model.gguf> [--limit N] [--contains TEXT] [--output tensors.tsv]"),
            wording: Wording::Plain,
        },
    );
    assert(v@ =~= gguf_dump_table());
    v
}

} // verus!
