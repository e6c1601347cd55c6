//! Tokens of the text model: the byte alphabet, lists of identifiers, special tokens.
use crate::error::{message, ErrorView, InferError};
use crate::json::{json_of, read_json, JsonView};
use crate::number::{parse_error_text, parse_u32, unsigned_value};
use crate::outside_tokenizer::{
    is_loadable, load_tokenizer, outside_encoding, run_tokenizer, tokenizer_refusal, LoadedTokenizer,
};
use crate::text::{char_lists, from_chars, pieces, split_chars, strings, to_chars, trim, trimmed};
use crate::tokenizer_file::{
    can_be_loaded, can_encode, check_encoding, check_loading, is_steady, numbers_once,
};
use crate::tokenizer_s2cpp::{
    described, encoded, merges_of, BpeView, S2CppBpeTokenizer, TokenizerDocument,
};
use vstd::prelude::*;
use vstd::string::*;
use vstd::utf8::encode_utf8;

verus! {

/// The token that stands for a line break.
pub const S2CPP_NEWLINE_TOKEN_ID: u32 = 198;

/// A tokenized text.
#[derive(Debug)]
pub struct TokenizedText {
    pub ids: Vec<u32>,
    pub tokens: Vec<String>,
}

/// The identifiers of the tokens that structure a dialogue.
#[derive(Debug, Clone, Copy, PartialEq, Eq, Structural)]
pub struct S2TokenizerConfig {
    pub im_start_id: u32,
    pub im_end_id: u32,
    pub voice_id: u32,
}

// ---------------------------------------------------------------------
// The byte alphabet
// ---------------------------------------------------------------------

/// Whether a byte stands for itself in the byte alphabet.
pub open spec fn stands_for_itself(b: u8) -> bool {
    33 <= b <= 126 || 161 <= b <= 172 || 174 <= b
}

/// The code point that a byte has in the byte alphabet: its own where it can be printed; the
/// others follow each other from 256 on.
pub open spec fn byte_code(b: u8) -> u32 {
    if stands_for_itself(b) {
        b as u32
    } else if b <= 32 {
        (256 + b) as u32
    } else if b <= 160 {
        (256 + 33 + (b - 127)) as u32
    } else {
        323
    }
}

/// The character that a byte has in the byte alphabet.
pub open spec fn byte_char(b: u8) -> char {
    byte_code(b) as char
}

/// `char::from_u32` gives the character with a code point, where there is one.
pub assume_specification[ char::from_u32 ](i: u32) -> (r: Option<char>)
    ensures
        r is Some <==> (i < 0xd800 || (0xe000 <= i && i <= 0x10_ffff)),
        r matches Some(c) ==> c as u32 == i,
;

/// The character of each byte in the byte alphabet.
pub fn gpt2_byte_to_unicode() -> (r: Vec<char>)
    ensures
        r@.len() == 256,
        forall|b: u8| r@[b as int] == #[trigger] byte_char(b),
{
    let mut table: Vec<char> = Vec::new();
    let mut next: u32 = 0;
    let mut byte: u32 = 0;
    while byte < 256
        invariant
            byte <= 256,
            table@.len() == byte,
            next == (if byte <= 33 {
                byte as int
            } else if byte <= 127 {
                33
            } else if byte <= 161 {
                33 + (byte - 127)
            } else if byte <= 173 {
                67
            } else {
                68
            }),
            forall|b: u8| b < byte ==> table@[b as int] == #[trigger] byte_char(b),
        decreases 256 - byte,
    {
        let own = (33 <= byte && byte <= 126) || (161 <= byte && byte <= 172) || 174 <= byte;
        let code: u32 = if own {
            byte
        } else {
            256 + next
        };
        assert(code == byte_code(byte as u8));
        match char::from_u32(code) {
            Some(c) => {
                proof {
                    vstd::utf8::char_u32_cast(c, code);
                    assert(c == byte_char(byte as u8));
                }
                table.push(c);
            },
            None => {
                assert(false);
            },
        }
        if !own {
            next = next + 1;
        }
        byte = byte + 1;
    }
    table
}

/// No two bytes have the same character in the byte alphabet.
pub proof fn byte_chars_are_distinct(a: u8, b: u8)
    requires
        byte_char(a) == byte_char(b),
    ensures
        a == b,
{
}

/// A text written in the byte alphabet: one character for each byte of its UTF-8 form.
pub open spec fn in_byte_alphabet(s: Seq<char>) -> Seq<char> {
    encode_utf8(s).map_values(|b: u8| byte_char(b))
}

/// A text written in the byte alphabet.
pub fn bytelevel_encode_utf8(text: &str) -> (r: String)
    ensures
        r@ == in_byte_alphabet(text@),
{
    let table = gpt2_byte_to_unicode();
    let bytes = text.as_bytes();
    let mut out = String::new();
    let mut i: usize = 0;
    while i < bytes.len()
        invariant
            i <= bytes@.len(),
            bytes@ == encode_utf8(text@),
            table@.len() == 256,
            forall|b: u8| table@[b as int] == #[trigger] byte_char(b),
            out@ == in_byte_alphabet(text@).take(i as int),
        decreases bytes@.len() - i,
    {
        assert(table@[bytes@[i as int] as int] == byte_char(bytes@[i as int]));
        out.push(table[bytes[i] as usize]);
        assert(in_byte_alphabet(text@).take(i as int + 1) =~= in_byte_alphabet(text@).take(
            i as int,
        ).push(byte_char(bytes@[i as int])));
        i = i + 1;
    }
    assert(in_byte_alphabet(text@).take(i as int) =~= in_byte_alphabet(text@));
    out
}

/// Texts that are the same in the byte alphabet are the same.
pub proof fn byte_alphabet_keeps_texts_apart(a: Seq<char>, b: Seq<char>)
    requires
        in_byte_alphabet(a) == in_byte_alphabet(b),
    ensures
        a == b,
{
    let x = encode_utf8(a);
    let y = encode_utf8(b);
    assert(x.len() == in_byte_alphabet(a).len());
    assert(y.len() == in_byte_alphabet(b).len());
    assert forall|i: int| 0 <= i < x.len() implies x[i] == y[i] by {
        assert(in_byte_alphabet(a)[i] == byte_char(x[i]));
        assert(in_byte_alphabet(b)[i] == byte_char(y[i]));
        byte_chars_are_distinct(x[i], y[i]);
    }
    assert(x =~= y);
    vstd::utf8::encode_utf8_decode_utf8(a);
    vstd::utf8::encode_utf8_decode_utf8(b);
}

// ---------------------------------------------------------------------
// Lists of identifiers
// ---------------------------------------------------------------------

/// The identifiers in the pieces from `i` on, behind those found; blank pieces are passed over.
pub open spec fn ids_in(parts: Seq<Seq<char>>, i: int, found: Seq<u32>) -> Result<
    Seq<u32>,
    ErrorView,
>
    decreases parts.len() - i,
{
    if i < 0 || i >= parts.len() {
        Ok(found)
    } else if trimmed(parts[i]).len() == 0 {
        ids_in(parts, i + 1, found)
    } else {
        match unsigned_value(trimmed(parts[i]), u32::MAX as nat) {
            Ok(v) => ids_in(parts, i + 1, found.push(v as u32)),
            Err(e) => Err(
                message(
                    "invalid token id '"@ + parts[i] + "' in fixture: "@ + parse_error_text(e),
                ),
            ),
        }
    }
}

/// Reads a list of identifiers with commas between them.
pub fn parse_token_ids_csv(value: &str) -> (r: Result<Vec<u32>, InferError>)
    ensures
        match r {
            Ok(v) => ids_in(pieces(value@, ','), 0, Seq::empty()) == Ok::<Seq<u32>, ErrorView>(
                v@,
            ),
            Err(e) => ids_in(pieces(value@, ','), 0, Seq::empty()) == Err::<Seq<u32>, ErrorView>(
                e@,
            ),
        },
{
    let parts = split_chars(to_chars(value).as_slice(), ',');
    let ghost lists = char_lists(parts@);
    let mut out: Vec<u32> = Vec::new();
    let mut i: usize = 0;
    while i < parts.len()
        invariant
            i <= parts@.len(),
            lists == char_lists(parts@),
            lists == pieces(value@, ','),
            ids_in(lists, 0, Seq::empty()) == ids_in(lists, i as int, out@),
        decreases parts@.len() - i,
    {
        assert(lists[i as int] == parts@[i as int]@);
        let part = from_chars(parts[i].as_slice());
        let text = trim(part.as_str());
        if !text.as_str().is_empty() {
            match parse_u32(text.as_str()) {
                Ok(v) => {
                    out.push(v);
                },
                Err(e) => {
                    let reason = e.message();
                    return Err(
                        InferError::Message(
                            String::from_str("invalid token id '").concat(part.as_str()).concat(
                                "' in fixture: ",
                            ).concat(reason.as_str()),
                        ),
                    );
                },
            }
        }
        i = i + 1;
    }
    Ok(out)
}

// ---------------------------------------------------------------------
// The tokenizer of a model
// ---------------------------------------------------------------------

/// The tokenizer of a model.
pub struct S2Tokenizer {
    tokenizer: LoadedTokenizer,
    encodes: bool,
    cpp_bpe: S2CppBpeTokenizer,
    config: S2TokenizerConfig,
}

/// What is said of a special token that a vocabulary lacks.
pub open spec fn missing_special(token: Seq<char>) -> ErrorView {
    message("missing special token id for \""@ + token + "\""@)
}

/// The identifiers of the tokens that structure a dialogue, out of a vocabulary.
pub open spec fn dialogue_ids(vocab: Map<Seq<char>, u32>) -> Result<S2TokenizerConfig, ErrorView> {
    if !vocab.contains_key("<|im_start|>"@) {
        Err(missing_special("<|im_start|>"@))
    } else if !vocab.contains_key("<|im_end|>"@) {
        Err(missing_special("<|im_end|>"@))
    } else if !vocab.contains_key("<|voice|>"@) {
        Err(missing_special("<|voice|>"@))
    } else {
        Ok(
            S2TokenizerConfig {
                im_start_id: vocab["<|im_start|>"@],
                im_end_id: vocab["<|im_end|>"@],
                voice_id: vocab["<|voice|>"@],
            },
        )
    }
}

/// What a tokenizer file comes to: its byte-pair tokenizer and its dialogue tokens.
pub open spec fn tokenizer_of(
    path: Seq<char>,
    bytes: Seq<u8>,
    document: Result<TokenizerDocument, String>,
) -> Result<(BpeView, S2TokenizerConfig), ErrorView> {
    match json_of(bytes) {
        Err(reason) => Err(message("failed to load tokenizer "@ + path + ": "@ + reason)),
        Ok(file) => if !can_be_loaded(bytes, file) {
            Err(message("failed to load tokenizer "@ + path + ": its parts are not supported"@))
        } else {
            match tokenizer_refusal(bytes) {
                Some(reason) => Err(message("failed to load tokenizer "@ + path + ": "@ + reason)),
                None => opened_tokenizer(document),
            }
        },
    }
}

/// What a tokenizer file that could be loaded comes to, given what it says where it could be read.
pub open spec fn opened_tokenizer(document: Result<TokenizerDocument, String>) -> Result<
    (BpeView, S2TokenizerConfig),
    ErrorView,
> {
    match document {
        Err(reason) => Err(message("parse tokenizer json: "@ + reason@)),
        Ok(doc) => match described(doc) {
            Err(e) => Err(e),
            Ok(bpe) => match dialogue_ids(bpe.vocab) {
                Err(e) => Err(e),
                Ok(config) => Ok((bpe, config)),
            },
        },
    }
}

fn special_id(bpe: &S2CppBpeTokenizer, token: &str) -> (r: Result<u32, InferError>)
    ensures
        match r {
            Ok(id) => bpe@.vocab.contains_key(token@) && id == bpe@.vocab[token@],
            Err(e) => !bpe@.vocab.contains_key(token@) && e@ == missing_special(token@),
        },
{
    match bpe.token_to_id(token) {
        Some(id) => Ok(id),
        None => Err(
            InferError::Message(
                String::from_str("missing special token id for \"").concat(token).concat("\""),
            ),
        ),
    }
}

/// The byte-pair tokenizer and the dialogue tokens of a document.
pub fn open_document(document: Result<TokenizerDocument, String>) -> (r: Result<
    (S2CppBpeTokenizer, S2TokenizerConfig),
    InferError,
>)
    requires
        document matches Ok(doc) ==> merges_of(doc).len() <= 0x8000_0000,
    ensures
        match r {
            Ok((bpe, config)) => opened_tokenizer(document) == Ok::<
                (BpeView, S2TokenizerConfig),
                ErrorView,
            >((bpe@, config)),
            Err(e) => opened_tokenizer(document) == Err::<(BpeView, S2TokenizerConfig), ErrorView>(
                e@,
            ),
        },
{
    let doc = match document {
        Err(reason) => {
            return Err(
                InferError::Message(
                    String::from_str("parse tokenizer json: ").concat(reason.as_str()),
                ),
            );
        },
        Ok(doc) => doc,
    };
    let bpe = match S2CppBpeTokenizer::from_document(doc) {
        Err(e) => {
            return Err(e);
        },
        Ok(t) => t,
    };
    let im_start_id: u32 = match special_id(&bpe, "<|im_start|>") {
        Err(e) => {
            return Err(e);
        },
        Ok(id) => id,
    };
    let im_end_id: u32 = match special_id(&bpe, "<|im_end|>") {
        Err(e) => {
            return Err(e);
        },
        Ok(id) => id,
    };
    let voice_id: u32 = match special_id(&bpe, "<|voice|>") {
        Err(e) => {
            return Err(e);
        },
        Ok(id) => id,
    };
    Ok((bpe, S2TokenizerConfig { im_start_id, im_end_id, voice_id }))
}

/// What an encoding comes to, given what the outside tokenizer said.
pub fn encoding_result(encoding: Result<(Vec<u32>, Vec<String>), String>) -> (r: Result<
    TokenizedText,
    InferError,
>)
    ensures
        match encoding {
            Ok((ids, tokens)) => r is Ok && r->Ok_0.ids == ids && r->Ok_0.tokens == tokens,
            Err(reason) => r is Err && r->Err_0@ == message(
                "tokenizer encode failed: "@ + reason@,
            ),
        },
{
    match encoding {
        Ok((ids, tokens)) => Ok(TokenizedText { ids, tokens }),
        Err(reason) => Err(
            InferError::Message(
                String::from_str("tokenizer encode failed: ").concat(reason.as_str()),
            ),
        ),
    }
}

fn load_failure(path: &str, reason: &str) -> (r: InferError)
    ensures
        r@ == message("failed to load tokenizer "@ + path@ + ": "@ + reason@),
{
    InferError::Message(
        String::from_str("failed to load tokenizer ").concat(path).concat(": ").concat(reason),
    )
}

impl S2Tokenizer {
    #[verifier::type_invariant]
    closed spec fn is_consistent(&self) -> bool {
        &&& is_loadable(self.tokenizer.source())
        &&& self.encodes == can_encode(json_of(self.tokenizer.source())->Ok_0)
    }

    /// The bytes of the file that the tokenizer was loaded from.
    pub closed spec fn source(&self) -> Seq<u8> {
        self.tokenizer.source()
    }

    /// What the file says that the tokenizer was loaded from.
    pub open spec fn file(&self) -> JsonView {
        json_of(self.source())->Ok_0
    }

    /// What encoding of prompts depends on.
    pub closed spec fn bpe(&self) -> BpeView {
        self.cpp_bpe@
    }

    /// The identifiers of the tokens that structure a dialogue.
    pub closed spec fn ids(&self) -> S2TokenizerConfig {
        self.config
    }

    /// The tokenizer in a file, given the file's bytes and what they say where they could be read.
    pub fn from_bytes(
        path: &str,
        bytes: &[u8],
        document: Result<TokenizerDocument, String>,
    ) -> (r: Result<S2Tokenizer, InferError>)
        requires
            document matches Ok(doc) ==> merges_of(doc).len() <= 0x8000_0000,
        ensures
            match r {
                Ok(t) => t.source() == bytes@ && tokenizer_of(path@, bytes@, document) == Ok::<
                    (BpeView, S2TokenizerConfig),
                    ErrorView,
                >((t.bpe(), t.ids())),
                Err(e) => tokenizer_of(path@, bytes@, document) == Err::<
                    (BpeView, S2TokenizerConfig),
                    ErrorView,
                >(e@),
            },
    {
        let file = match read_json(bytes) {
            Err(reason) => {
                return Err(load_failure(path, reason.as_str()));
            },
            Ok(j) => j,
        };
        if !check_loading(bytes, &file) {
            let reason = "its parts are not supported";
            proof {
                reveal_strlit(": ");
                reveal_strlit("its parts are not supported");
                reveal_strlit(": its parts are not supported");
                assert(": "@ + reason@ =~= ": its parts are not supported"@);
                assert("failed to load tokenizer "@ + path@ + ": "@ + reason@
                    =~= "failed to load tokenizer "@ + path@ + ": its parts are not supported"@);
            }
            return Err(load_failure(path, reason));
        }
        let encodes: bool = check_encoding(&file);
        let tokenizer = match load_tokenizer(bytes) {
            Err(reason) => {
                return Err(load_failure(path, reason.as_str()));
            },
            Ok(t) => t,
        };
        match open_document(document) {
            Err(e) => Err(e),
            Ok((cpp_bpe, config)) => Ok(S2Tokenizer { tokenizer, encodes, cpp_bpe, config }),
        }
    }

    /// The identifiers of the tokens that structure a dialogue.
    pub fn config(&self) -> (r: S2TokenizerConfig)
        ensures
            r == self.ids(),
    {
        self.config
    }

    /// The token of a line break, alone.
    pub fn encode_newline(&self) -> (r: Vec<u32>)
        ensures
            r@ == seq![198u32],
    {
        let mut ids: Vec<u32> = Vec::new();
        ids.push(S2CPP_NEWLINE_TOKEN_ID);
        assert(ids@ =~= seq![198u32]);
        ids
    }

    /// The identifiers of a prompt's text.
    pub fn encode_s2cpp(&self, text: &str) -> (r: TokenizedText)
        ensures
            r.ids@ == encoded(self.bpe(), text@),
            r.tokens@.len() == 0,
    {
        TokenizedText { ids: self.cpp_bpe.encode(text), tokens: Vec::new() }
    }

    /// The encoding of a text by the outside tokenizer. After a file that asks for merges to be
    /// dropped at random, what it finds is not known beforehand; where two tokens of the vocabulary
    /// share a number, the text of either can come.
    pub fn encode(&self, text: &str) -> (r: Result<TokenizedText, InferError>)
        ensures
            !can_encode(self.file()) ==> r is Err && r->Err_0@ == message(
                "tokenizer encode failed: the parts of its file are not supported"@,
            ),
            can_encode(self.file()) && is_steady(self.file()) ==> match outside_encoding(
                self.source(),
                text@,
            ) {
                Ok((ids, tokens)) => r is Ok && r->Ok_0.ids@ == ids && (numbers_once(self.file())
                    ==> strings(r->Ok_0.tokens@) == tokens),
                Err(reason) => r is Err && r->Err_0@ == message(
                    "tokenizer encode failed: "@ + reason,
                ),
            },
            r matches Ok(t) ==> t.ids@.len() == t.tokens@.len(),
            r matches Err(e) ==> exists|reason: Seq<char>|
                e@ == #[trigger] message("tokenizer encode failed: "@ + reason),
    {
        proof {
            use_type_invariant(self);
        }
        if !self.encodes {
            proof {
                reveal_strlit("tokenizer encode failed: ");
                reveal_strlit("the parts of its file are not supported");
                reveal_strlit("tokenizer encode failed: the parts of its file are not supported");
                assert("tokenizer encode failed: "@ + "the parts of its file are not supported"@
                    =~= "tokenizer encode failed: the parts of its file are not supported"@);
            }
            return Err(
                InferError::text(
                    "tokenizer encode failed: the parts of its file are not supported",
                ),
            );
        }
        let encoding = run_tokenizer(&self.tokenizer, text);
        encoding_result(encoding)
    }
}

} // verus!
