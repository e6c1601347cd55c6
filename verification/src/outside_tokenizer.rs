//! The outside tokenizer, and what is known of it.
use crate::json::json_of;
use crate::text::strings;
use crate::tokenizer_file::{can_be_loaded, can_encode, is_steady, numbers_once};
use tokenizers::Tokenizer;
use vstd::prelude::*;

verus! {

/// `tokenizers::Tokenizer`, carried as a whole.
#[verifier::external_type_specification]
#[verifier::external_body]
pub struct ExTokenizer(tokenizers::Tokenizer);

/// An outside tokenizer together with the bytes that it was loaded from.
pub struct LoadedTokenizer {
    tokenizer: Tokenizer,
    source: Ghost<Seq<u8>>,
}

impl LoadedTokenizer {
    /// The bytes that the tokenizer was loaded from.
    pub closed spec fn source(&self) -> Seq<u8> {
        self.source@
    }
}

/// Why `tokenizers::Tokenizer::from_bytes` refuses the bytes of a file, if it does.
pub uninterp spec fn tokenizer_refusal(bytes: Seq<u8>) -> Option<Seq<char>>;

/// The identifiers and the token texts that `tokenizers::Tokenizer::encode` finds for a text, by the
/// bytes that the tokenizer was loaded from, or what it says where it fails.
pub uninterp spec fn outside_encoding(bytes: Seq<u8>, text: Seq<char>) -> Result<
    (Seq<u32>, Seq<Seq<char>>),
    Seq<char>,
>;

/// Whether bytes are a tokenizer file that can be loaded.
pub open spec fn is_loadable(bytes: Seq<u8>) -> bool {
    json_of(bytes) is Ok && can_be_loaded(bytes, json_of(bytes)->Ok_0)
}

/// `tokenizers::Tokenizer::from_bytes` reads a tokenizer file. Whether it accepts the bytes, and
/// what it says of those it refuses, depends on the bytes alone; of the tokenizer that it gives
/// nothing is claimed but where it comes from. On some files that are left out here it panics:
/// where the continuing prefix cannot be cut off the right part of a merge, where the bytes are no
/// JSON, where a normalizer cannot be read or fails on an added token, where added tokens leave
/// no room for their numbers or for the automaton that finds them, and where the counts of a pattern
/// do not fit a machine word when they are multiplied.
#[verifier::external_body]
pub(crate) fn load_tokenizer(bytes: &[u8]) -> (r: Result<LoadedTokenizer, String>)
    requires
        is_loadable(bytes@),
    ensures
        match r {
            Ok(t) => tokenizer_refusal(bytes@) is None && t.source() == bytes@,
            Err(m) => tokenizer_refusal(bytes@) == Some(m@),
        },
{
    let tokenizer = Tokenizer::from_bytes(bytes).map_err(|e| e.to_string())?;
    Ok(LoadedTokenizer { tokenizer, source: Ghost(bytes@) })
}

/// `tokenizers::Tokenizer::encode`, without special tokens: identifiers and token texts, as many of
/// one as of the other. The identifiers depend on the file and the text alone, unless the file asks
/// for merges to be dropped at random. So do the token texts where no two tokens of the vocabulary
/// share a number; where they do, either text can come. After some files that are left out here it
/// panics or does not return, such as those whose truncation overlaps by its whole length, whose
/// padding is too long, whose template asks for a second text, whose added tokens take blanks on both
/// sides, or whose pattern refers to a group, moves the start of what it finds or repeats nothing
/// very often.
#[verifier::external_body]
pub(crate) fn run_tokenizer(tokenizer: &LoadedTokenizer, text: &str) -> (r: Result<
    (Vec<u32>, Vec<String>),
    String,
>)
    requires
        is_loadable(tokenizer.source()),
        can_encode(json_of(tokenizer.source())->Ok_0),
    ensures
        r matches Ok((ids, tokens)) ==> ids@.len() == tokens@.len(),
        is_steady(json_of(tokenizer.source())->Ok_0) ==> match r {
            Ok((ids, tokens)) => {
                &&& outside_encoding(tokenizer.source(), text@) is Ok
                &&& ids@ == outside_encoding(tokenizer.source(), text@)->Ok_0.0
                &&& numbers_once(json_of(tokenizer.source())->Ok_0) ==> strings(tokens@)
                    == outside_encoding(tokenizer.source(), text@)->Ok_0.1
            },
            Err(m) => outside_encoding(tokenizer.source(), text@) == Err::<
                (Seq<u32>, Seq<Seq<char>>),
                Seq<char>,
            >(m@),
        },
{
    let encoding = tokenizer.tokenizer.encode(text, false).map_err(|e| e.to_string())?;
    Ok((encoding.get_ids().to_vec(), encoding.get_tokens().to_vec()))
}

} // verus!
