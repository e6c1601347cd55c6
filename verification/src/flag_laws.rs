//! What flags mean, whichever program they are given to.
use crate::cli::{Flag, FlagId};
use crate::programs::{
    codec_dump_table, codes_input_table, codes_table, e2e_table, encoder_stage_table, fast_ar_table,
    gguf_dump_table, reference_table, semantic_table, server_table, slow_ar_table, waveform_table,
};
use vstd::prelude::*;

verus! {

/// The name of the flag about a thing.
pub open spec fn flag_about(id: FlagId) -> Seq<char> {
    match id {
        FlagId::Transformer => "--transformer"@,
        FlagId::Codec => "--codec"@,
        FlagId::Tokenizer => "--tokenizer"@,
        FlagId::Text => "--text"@,
        FlagId::PromptText => "--prompt-text"@,
        FlagId::PromptTextFile => "--prompt-text-file"@,
        FlagId::PromptCodes => "--prompt-codes"@,
        FlagId::PromptCodesFormat => "--prompt-codes-format"@,
        FlagId::Output => "--output"@,
        FlagId::MetadataOutput => "--metadata-output"@,
        FlagId::Codes => "--codes"@,
        FlagId::Wav => "--wav"@,
        FlagId::WavInput => "--wav-input"@,
        FlagId::MaxNewTokens => "--max-new-tokens"@,
        FlagId::Temperature => "--temperature"@,
        FlagId::TopP => "--top-p"@,
        FlagId::TopK => "--top-k"@,
        FlagId::MinTokensBeforeEnd => "--min-tokens-before-end"@,
        FlagId::Seed => "--seed"@,
        FlagId::Samples => "--samples"@,
        FlagId::Contains => "--contains"@,
        FlagId::Limit => "--limit"@,
        FlagId::Layer => "--layer"@,
        FlagId::Layers => "--layers"@,
        FlagId::Position => "--position"@,
        FlagId::Tokens => "--tokens"@,
        FlagId::Logits => "--logits"@,
        FlagId::Port => "--port"@,
        FlagId::Backend => "--backend"@,
        FlagId::PrintPaths => "--print-paths"@,
    }
}

/// Whether every flag of a table has the name of what it is about.
pub open spec fn are_named_by_their_thing(table: Seq<Flag>) -> bool {
    forall|k: int| 0 <= k < table.len() ==> (#[trigger] table[k]).name@ == flag_about(table[k].id)
}

/// A flag is about the same thing in every program, and is named after it.
pub proof fn flags_mean_the_same_everywhere()
    ensures
        are_named_by_their_thing(e2e_table()),
        are_named_by_their_thing(codes_table()),
        are_named_by_their_thing(semantic_table()),
        are_named_by_their_thing(fast_ar_table()),
        are_named_by_their_thing(slow_ar_table()),
        are_named_by_their_thing(codec_dump_table()),
        are_named_by_their_thing(codes_input_table()),
        are_named_by_their_thing(waveform_table()),
        are_named_by_their_thing(encoder_stage_table()),
        are_named_by_their_thing(reference_table()),
        are_named_by_their_thing(server_table()),
        are_named_by_their_thing(gguf_dump_table()),
{
    lemma_e2e_table();
    lemma_codes_table();
    lemma_semantic_table();
    lemma_fast_ar_table();
    lemma_slow_ar_table();
    lemma_codec_dump_table();
    lemma_codes_input_table();
    lemma_waveform_table();
    lemma_encoder_stage_table();
    lemma_reference_table();
    lemma_server_table();
    lemma_gguf_dump_table();
}

proof fn lemma_e2e_table()
    ensures
        are_named_by_their_thing(e2e_table()),
{
    let table = e2e_table();
    assert(table.len() == 15);
    assert(table[0].name@ == flag_about(table[0].id));
    assert(table[1].name@ == flag_about(table[1].id));
    assert(table[2].name@ == flag_about(table[2].id));
    assert(table[3].name@ == flag_about(table[3].id));
    assert(table[4].name@ == flag_about(table[4].id));
    assert(table[5].name@ == flag_about(table[5].id));
    assert(table[6].name@ == flag_about(table[6].id));
    assert(table[7].name@ == flag_about(table[7].id));
    assert(table[8].name@ == flag_about(table[8].id));
    assert(table[9].name@ == flag_about(table[9].id));
    assert(table[10].name@ == flag_about(table[10].id));
    assert(table[11].name@ == flag_about(table[11].id));
    assert(table[12].name@ == flag_about(table[12].id));
    assert(table[13].name@ == flag_about(table[13].id));
    assert(table[14].name@ == flag_about(table[14].id));
}

proof fn lemma_codes_table()
    ensures
        are_named_by_their_thing(codes_table()),
{
    let table = codes_table();
    assert(table.len() == 12);
    assert(table[0].name@ == flag_about(table[0].id));
    assert(table[1].name@ == flag_about(table[1].id));
    assert(table[2].name@ == flag_about(table[2].id));
    assert(table[3].name@ == flag_about(table[3].id));
    assert(table[4].name@ == flag_about(table[4].id));
    assert(table[5].name@ == flag_about(table[5].id));
    assert(table[6].name@ == flag_about(table[6].id));
    assert(table[7].name@ == flag_about(table[7].id));
    assert(table[8].name@ == flag_about(table[8].id));
    assert(table[9].name@ == flag_about(table[9].id));
    assert(table[10].name@ == flag_about(table[10].id));
    assert(table[11].name@ == flag_about(table[11].id));
}

proof fn lemma_semantic_table()
    ensures
        are_named_by_their_thing(semantic_table()),
{
    let table = semantic_table();
    assert(table.len() == 10);
    assert(table[0].name@ == flag_about(table[0].id));
    assert(table[1].name@ == flag_about(table[1].id));
    assert(table[2].name@ == flag_about(table[2].id));
    assert(table[3].name@ == flag_about(table[3].id));
    assert(table[4].name@ == flag_about(table[4].id));
    assert(table[5].name@ == flag_about(table[5].id));
    assert(table[6].name@ == flag_about(table[6].id));
    assert(table[7].name@ == flag_about(table[7].id));
    assert(table[8].name@ == flag_about(table[8].id));
    assert(table[9].name@ == flag_about(table[9].id));
}

proof fn lemma_fast_ar_table()
    ensures
        are_named_by_their_thing(fast_ar_table()),
{
    let table = fast_ar_table();
    assert(table.len() == 9);
    assert(table[0].name@ == flag_about(table[0].id));
    assert(table[1].name@ == flag_about(table[1].id));
    assert(table[2].name@ == flag_about(table[2].id));
    assert(table[3].name@ == flag_about(table[3].id));
    assert(table[4].name@ == flag_about(table[4].id));
    assert(table[5].name@ == flag_about(table[5].id));
    assert(table[6].name@ == flag_about(table[6].id));
    assert(table[7].name@ == flag_about(table[7].id));
    assert(table[8].name@ == flag_about(table[8].id));
}

proof fn lemma_slow_ar_table()
    ensures
        are_named_by_their_thing(slow_ar_table()),
{
    let table = slow_ar_table();
    assert(table.len() == 8);
    assert(table[0].name@ == flag_about(table[0].id));
    assert(table[1].name@ == flag_about(table[1].id));
    assert(table[2].name@ == flag_about(table[2].id));
    assert(table[3].name@ == flag_about(table[3].id));
    assert(table[4].name@ == flag_about(table[4].id));
    assert(table[5].name@ == flag_about(table[5].id));
    assert(table[6].name@ == flag_about(table[6].id));
    assert(table[7].name@ == flag_about(table[7].id));
}

proof fn lemma_codec_dump_table()
    ensures
        are_named_by_their_thing(codec_dump_table()),
{
    let table = codec_dump_table();
    assert(table.len() == 5);
    assert(table[0].name@ == flag_about(table[0].id));
    assert(table[1].name@ == flag_about(table[1].id));
    assert(table[2].name@ == flag_about(table[2].id));
    assert(table[3].name@ == flag_about(table[3].id));
    assert(table[4].name@ == flag_about(table[4].id));
}

proof fn lemma_codes_input_table()
    ensures
        are_named_by_their_thing(codes_input_table()),
{
    let table = codes_input_table();
    assert(table.len() == 3);
    assert(table[0].name@ == flag_about(table[0].id));
    assert(table[1].name@ == flag_about(table[1].id));
    assert(table[2].name@ == flag_about(table[2].id));
}

proof fn lemma_waveform_table()
    ensures
        are_named_by_their_thing(waveform_table()),
{
    let table = waveform_table();
    assert(table.len() == 4);
    assert(table[0].name@ == flag_about(table[0].id));
    assert(table[1].name@ == flag_about(table[1].id));
    assert(table[2].name@ == flag_about(table[2].id));
    assert(table[3].name@ == flag_about(table[3].id));
}

proof fn lemma_encoder_stage_table()
    ensures
        are_named_by_their_thing(encoder_stage_table()),
{
    let table = encoder_stage_table();
    assert(table.len() == 3);
    assert(table[0].name@ == flag_about(table[0].id));
    assert(table[1].name@ == flag_about(table[1].id));
    assert(table[2].name@ == flag_about(table[2].id));
}

proof fn lemma_reference_table()
    ensures
        are_named_by_their_thing(reference_table()),
{
    let table = reference_table();
    assert(table.len() == 7);
    assert(table[0].name@ == flag_about(table[0].id));
    assert(table[1].name@ == flag_about(table[1].id));
    assert(table[2].name@ == flag_about(table[2].id));
    assert(table[3].name@ == flag_about(table[3].id));
    assert(table[4].name@ == flag_about(table[4].id));
    assert(table[5].name@ == flag_about(table[5].id));
    assert(table[6].name@ == flag_about(table[6].id));
}

proof fn lemma_server_table()
    ensures
        are_named_by_their_thing(server_table()),
{
    let table = server_table();
    assert(table.len() == 6);
    assert(table[0].name@ == flag_about(table[0].id));
    assert(table[1].name@ == flag_about(table[1].id));
    assert(table[2].name@ == flag_about(table[2].id));
    assert(table[3].name@ == flag_about(table[3].id));
    assert(table[4].name@ == flag_about(table[4].id));
    assert(table[5].name@ == flag_about(table[5].id));
}

proof fn lemma_gguf_dump_table()
    ensures
        are_named_by_their_thing(gguf_dump_table()),
{
    let table = gguf_dump_table();
    assert(table.len() == 3);
    assert(table[0].name@ == flag_about(table[0].id));
    assert(table[1].name@ == flag_about(table[1].id));
    assert(table[2].name@ == flag_about(table[2].id));
}

} // verus!
