//! Control tags for the tone of speech.
use vstd::prelude::*;
use vstd::string::*;
use vstd::utf8::{decode_utf8, encode_utf8, encode_utf8_decode_utf8, is_char_boundary};

verus! {

/// A tag: what it is called and how it is written.
#[derive(Debug)]
pub struct ControlTag {
    pub label: String,
    pub token: String,
}

/// The names and spellings of the common tags.
pub open spec fn tag_table() -> Seq<(Seq<char>, Seq<char>)> {
    seq![
        ("停頓"@, "[pause]"@),
        ("強調"@, "[emphasis]"@),
        ("笑"@, "[laughing]"@),
        ("輕笑"@, "[chuckle]"@),
        ("耳語"@, "[whisper]"@),
        ("低聲"@, "[low voice]"@),
        ("興奮"@, "[excited]"@),
        ("悲傷"@, "[sad]"@),
        ("憤怒"@, "[angry]"@),
        ("驚訝"@, "[surprised]"@),
        ("嘆息"@, "[sigh]"@),
        ("吸氣"@, "[inhale]"@),
        ("呼氣"@, "[exhale]"@),
        ("音量↑"@, "[volume up]"@),
        ("音量↓"@, "[volume down]"@),
        ("唱歌"@, "[singing]"@),
    ]
}

/// Tags as pairs of texts.
pub open spec fn tag_pairs(tags: Seq<ControlTag>) -> Seq<(Seq<char>, Seq<char>)> {
    tags.map_values(|t: ControlTag| (t.label@, t.token@))
}

fn tag(label: &str, token: &str) -> (r: ControlTag)
    ensures
        r.label@ == label@,
        r.token@ == token@,
{
    ControlTag { label: String::from_str(label), token: String::from_str(token) }
}

/// The common tags.
pub fn control_tags() -> (r: Vec<ControlTag>)
    ensures
        tag_pairs(r@) == tag_table(),
{
    let mut tags: Vec<ControlTag> = Vec::new();
    tags.push(tag("停頓", "[pause]"));
    tags.push(tag("強調", "[emphasis]"));
    tags.push(tag("笑", "[laughing]"));
    tags.push(tag("輕笑", "[chuckle]"));
    tags.push(tag("耳語", "[whisper]"));
    tags.push(tag("低聲", "[low voice]"));
    tags.push(tag("興奮", "[excited]"));
    tags.push(tag("悲傷", "[sad]"));
    tags.push(tag("憤怒", "[angry]"));
    tags.push(tag("驚訝", "[surprised]"));
    tags.push(tag("嘆息", "[sigh]"));
    tags.push(tag("吸氣", "[inhale]"));
    tags.push(tag("呼氣", "[exhale]"));
    tags.push(tag("音量↑", "[volume up]"));
    tags.push(tag("音量↓", "[volume down]"));
    tags.push(tag("唱歌", "[singing]"));
    assert(tag_pairs(tags@) =~= tag_table());
    tags
}

/// A byte position in a text, no further than its end.
pub open spec fn clamped(text: Seq<char>, cursor: nat) -> nat {
    if cursor <= encode_utf8(text).len() {
        cursor
    } else {
        encode_utf8(text).len()
    }
}

/// The part of a text before a byte position.
pub open spec fn before_cursor(text: Seq<char>, cursor: nat) -> Seq<char> {
    decode_utf8(encode_utf8(text).subrange(0, clamped(text, cursor) as int))
}

/// The part of a text from a byte position on.
pub open spec fn from_cursor(text: Seq<char>, cursor: nat) -> Seq<char> {
    decode_utf8(
        encode_utf8(text).subrange(
            clamped(text, cursor) as int,
            encode_utf8(text).len() as int,
        ),
    )
}

/// The text with the tag inserted at the cursor, set off by spaces from what stands around it.
pub open spec fn with_tag(text: Seq<char>, cursor: nat, tag: Seq<char>) -> Seq<char> {
    let before = before_cursor(text, cursor);
    let after = from_cursor(text, cursor);
    let lead = if tag.len() > 0 && before.len() > 0 && before.last() != ' ' {
        " "@
    } else {
        Seq::empty()
    };
    let trail = if clamped(text, cursor) < encode_utf8(text).len() && !(after.len() > 0 && after[0]
        == ' ') {
        " "@
    } else {
        Seq::empty()
    };
    before + lead + tag + trail + after
}

/// Inserts a tag at a byte position of a text, and gives the byte position at the text's new end.
pub fn insert_tag_at_cursor(text: &str, cursor: usize, tag: &str) -> (r: (String, usize))
    requires
        is_char_boundary(encode_utf8(text@), clamped(text@, cursor as nat) as int),
    ensures
        r.0@ == with_tag(text@, cursor as nat, tag@),
        r.1 == encode_utf8(r.0@).len(),
{
    let len: usize = text.as_bytes().len();
    let at: usize = if cursor <= len {
        cursor
    } else {
        len
    };
    let (before, after) = text.split_at(at);
    proof {
        encode_utf8_decode_utf8(before@);
        encode_utf8_decode_utf8(after@);
    }
    let mut out = String::from_str(before);
    let n: usize = before.unicode_len();
    if tag.unicode_len() > 0 && n > 0 && before.get_char(n - 1) != ' ' {
        out = out.concat(" ");
    } else {
        assert(before@ + Seq::<char>::empty() =~= before@);
    }
    out = out.concat(tag);
    if at < len && !(after.unicode_len() > 0 && after.get_char(0) == ' ') {
        out = out.concat(" ");
    } else {
        assert(out@ + Seq::<char>::empty() =~= out@);
    }
    out = out.concat(after);
    let end: usize = out.as_str().as_bytes().len();
    (out, end)
}

/// The two parts around the cursor are the whole text: inserting keeps every character of it.
pub proof fn parts_around_cursor_are_the_text(text: Seq<char>, cursor: nat)
    requires
        is_char_boundary(encode_utf8(text), clamped(text, cursor) as int),
    ensures
        before_cursor(text, cursor) + from_cursor(text, cursor) == text,
{
    let bytes = encode_utf8(text);
    let at = clamped(text, cursor) as int;
    vstd::utf8::encode_utf8_valid_utf8(text);
    encode_utf8_decode_utf8(text);
    vstd::utf8::decode_utf8_split(bytes, at);
}

} // verus!
