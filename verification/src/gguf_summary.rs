//! What a model file is, in brief.
use crate::arith::nearest_even;
use crate::gguf::{text_pairs, FileView, GgufFile};
use crate::number::{parse_u64, unsigned_value};
use crate::paths::{file_name, file_name_of};
use crate::text::{contains, contains_text, dec, dec_u64, digit_char, str_eq};
use vstd::prelude::*;
use vstd::string::*;

verus! {

/// A model file in brief.
#[derive(Debug)]
pub struct GgufSummary {
    pub path: String,
    pub version: u32,
    pub tensor_count: u64,
    pub metadata: Vec<(String, String)>,
    pub architecture: Option<String>,
    pub kind: Option<String>,
    pub parameter_count: Option<u64>,
    pub file_size_bytes: u64,
}

/// A model file in brief, as a mathematical value.
pub ghost struct SummaryView {
    pub path: Seq<char>,
    pub version: u32,
    pub tensor_count: u64,
    pub metadata: Seq<(Seq<char>, Seq<char>)>,
    pub architecture: Option<Seq<char>>,
    pub kind: Option<Seq<char>>,
    pub parameter_count: Option<u64>,
    pub file_size_bytes: u64,
}

/// An optional text as an optional sequence of characters.
pub open spec fn optional_text(t: Option<String>) -> Option<Seq<char>> {
    match t {
        Some(s) => Some(s@),
        None => None,
    }
}

impl View for GgufSummary {
    type V = SummaryView;

    open spec fn view(&self) -> SummaryView {
        SummaryView {
            path: self.path@,
            version: self.version,
            tensor_count: self.tensor_count,
            metadata: text_pairs(self.metadata@),
            architecture: optional_text(self.architecture),
            kind: optional_text(self.kind),
            parameter_count: self.parameter_count,
            file_size_bytes: self.file_size_bytes,
        }
    }
}

/// The value of the first entry from `i` on with the given key.
pub open spec fn value_of(
    entries: Seq<(Seq<char>, Seq<char>)>,
    key: Seq<char>,
    i: int,
) -> Option<Seq<char>>
    decreases entries.len() - i,
{
    if i < 0 || i >= entries.len() {
        None
    } else if entries[i].0 == key {
        Some(entries[i].1)
    } else {
        value_of(entries, key, i + 1)
    }
}

/// The first entry from `i` on whose key speaks of a model or a codec, as one text.
pub open spec fn kind_of(entries: Seq<(Seq<char>, Seq<char>)>, i: int) -> Option<Seq<char>>
    decreases entries.len() - i,
{
    if i < 0 || i >= entries.len() {
        None
    } else if contains_text(entries[i].0, "model"@) || contains_text(entries[i].0, "codec"@) {
        Some(entries[i].0 + "="@ + entries[i].1)
    } else {
        kind_of(entries, i + 1)
    }
}

/// The value of the first entry with the given key.
pub fn metadata_value(entries: &Vec<(String, String)>, key: &str) -> (r: Option<String>)
    ensures
        optional_text(r) == value_of(text_pairs(entries@), key@, 0),
{
    let ghost views = text_pairs(entries@);
    let mut i: usize = 0;
    while i < entries.len()
        invariant
            i <= entries@.len(),
            views == text_pairs(entries@),
            value_of(views, key@, 0) == value_of(views, key@, i as int),
        decreases entries@.len() - i,
    {
        assert(views[i as int] == (entries@[i as int].0@, entries@[i as int].1@));
        if str_eq(entries[i].0.as_str(), key) {
            return Some(entries[i].1.clone());
        }
        i = i + 1;
    }
    None
}

fn metadata_kind(entries: &Vec<(String, String)>) -> (r: Option<String>)
    ensures
        optional_text(r) == kind_of(text_pairs(entries@), 0),
{
    let ghost views = text_pairs(entries@);
    let mut i: usize = 0;
    while i < entries.len()
        invariant
            i <= entries@.len(),
            views == text_pairs(entries@),
            kind_of(views, 0) == kind_of(views, i as int),
        decreases entries@.len() - i,
    {
        assert(views[i as int] == (entries@[i as int].0@, entries@[i as int].1@));
        let key = entries[i].0.as_str();
        if contains(key, "model") || contains(key, "codec") {
            return Some(String::from_str(key).concat("=").concat(entries[i].1.as_str()));
        }
        i = i + 1;
    }
    None
}

/// The parameter count that metadata gives, where it is a number.
pub open spec fn parameter_count_of(entries: Seq<(Seq<char>, Seq<char>)>) -> Option<u64> {
    match value_of(entries, "general.parameter_count"@, 0) {
        None => None,
        Some(t) => match unsigned_value(t, u64::MAX as nat) {
            Ok(v) => Some(v as u64),
            Err(_) => None,
        },
    }
}

/// The brief description of a file.
pub open spec fn summary_of(f: FileView) -> SummaryView {
    SummaryView {
        path: f.path,
        version: f.version,
        tensor_count: f.tensors.len() as u64,
        metadata: f.metadata,
        architecture: value_of(f.metadata, "general.architecture"@, 0),
        kind: kind_of(f.metadata, 0),
        parameter_count: parameter_count_of(f.metadata),
        file_size_bytes: f.file_size_bytes,
    }
}

/// The name a file is listed under.
pub open spec fn display_name_of(path: Seq<char>) -> Seq<char> {
    match file_name_of(path) {
        Some(n) => n,
        None => "unknown.gguf"@,
    }
}

impl GgufSummary {
    /// The brief description of a file.
    pub fn inspect(gguf: GgufFile) -> (r: GgufSummary)
        ensures
            r@ == summary_of(gguf@),
    {
        let metadata = gguf.metadata;
        let architecture = metadata_value(&metadata, "general.architecture");
        let kind = metadata_kind(&metadata);
        let parameter_count: Option<u64> = match metadata_value(
            &metadata,
            "general.parameter_count",
        ) {
            None => None,
            Some(t) => match parse_u64(t.as_str()) {
                Ok(v) => Some(v),
                Err(_) => None,
            },
        };
        GgufSummary {
            path: gguf.path,
            version: gguf.version,
            tensor_count: gguf.tensors.len() as u64,
            metadata,
            architecture,
            kind,
            parameter_count,
            file_size_bytes: gguf.file_size_bytes,
        }
    }

    /// The name the file is listed under.
    pub fn display_name(&self) -> (r: String)
        ensures
            r@ == display_name_of(self@.path),
    {
        match file_name(self.path.as_str()) {
            Some(n) => n,
            None => String::from_str("unknown.gguf"),
        }
    }

    /// The size of the file as people read it.
    pub fn size_human(&self) -> (r: String)
        ensures
            r@ == human_size(self.file_size_bytes as nat),
    {
        human_bytes(self.file_size_bytes)
    }

    /// A second description with the same contents.
    pub fn duplicate(&self) -> (r: GgufSummary)
        ensures
            r@ == self@,
    {
        GgufSummary {
            path: self.path.clone(),
            version: self.version,
            tensor_count: self.tensor_count,
            metadata: copy_pairs(&self.metadata),
            architecture: copy_optional(&self.architecture),
            kind: copy_optional(&self.kind),
            parameter_count: self.parameter_count,
            file_size_bytes: self.file_size_bytes,
        }
    }
}

/// A copy of an optional text.
pub fn copy_optional(t: &Option<String>) -> (r: Option<String>)
    ensures
        optional_text(r) == optional_text(*t),
{
    match t {
        Some(s) => Some(s.clone()),
        None => None,
    }
}

/// A copy of pairs of texts.
pub fn copy_pairs(v: &Vec<(String, String)>) -> (r: Vec<(String, String)>)
    ensures
        text_pairs(r@) == text_pairs(v@),
{
    let mut out: Vec<(String, String)> = Vec::new();
    let mut i: usize = 0;
    while i < v.len()
        invariant
            i <= v@.len(),
            text_pairs(out@) == text_pairs(v@).take(i as int),
        decreases v@.len() - i,
    {
        let ghost before = out@;
        out.push((v[i].0.clone(), v[i].1.clone()));
        assert(text_pairs(out@) =~= text_pairs(before).push((v@[i as int].0@, v@[i as int].1@)));
        assert(text_pairs(v@).take(i as int + 1) =~= text_pairs(v@).take(i as int).push(
            (v@[i as int].0@, v@[i as int].1@),
        ));
        i = i + 1;
    }
    assert(text_pairs(v@).take(i as int) =~= text_pairs(v@));
    out
}

// ---------------------------------------------------------------------
// Sizes for people
// ---------------------------------------------------------------------

/// How far apart the numbers with 53 significant bits lie around `n`, for `n` below 2 to the 64.
pub open spec fn double_spacing(n: nat) -> nat {
    if n < 0x20_0000_0000_0000 {
        1
    } else if n < 0x40_0000_0000_0000 {
        2
    } else if n < 0x80_0000_0000_0000 {
        4
    } else if n < 0x100_0000_0000_0000 {
        8
    } else if n < 0x200_0000_0000_0000 {
        16
    } else if n < 0x400_0000_0000_0000 {
        32
    } else if n < 0x800_0000_0000_0000 {
        64
    } else if n < 0x1000_0000_0000_0000 {
        128
    } else if n < 0x2000_0000_0000_0000 {
        256
    } else if n < 0x4000_0000_0000_0000 {
        512
    } else if n < 0x8000_0000_0000_0000 {
        1024
    } else {
        2048
    }
}

/// The number nearest to `n` with 53 significant bits.
pub open spec fn as_double(n: nat) -> nat {
    nearest_even(n, double_spacing(n)) * double_spacing(n)
}

/// The name of a unit of 1024 to the given power, and how many bytes it is.
pub open spec fn unit_of(n: nat) -> (Seq<char>, nat) {
    if n < 0x10_0000 {
        ("KB"@, 0x400)
    } else if n < 0x4000_0000 {
        ("MB"@, 0x10_0000)
    } else if n < 0x100_0000_0000 {
        ("GB"@, 0x4000_0000)
    } else {
        ("TB"@, 0x100_0000_0000)
    }
}

/// A number of hundredths, written with two decimals.
pub open spec fn two_decimals(hundredths: nat) -> Seq<char> {
    dec(hundredths / 100) + "."@ + seq![digit_char((hundredths / 10) % 10)] + seq![
        digit_char(hundredths % 10),
    ]
}

/// A size as people read it: whole bytes below a kilobyte, else two decimals of the largest unit
/// that the size reaches.
pub open spec fn human_size(n: nat) -> Seq<char> {
    if n < 1024 {
        dec(n) + " B"@
    } else {
        two_decimals(nearest_even(100 * as_double(n), unit_of(n).1)) + " "@ + unit_of(n).0
    }
}

fn round_nearest_even(a: u128, b: u128) -> (r: u128)
    requires
        0 < b <= 0x100_0000_0000,
    ensures
        r as nat == nearest_even(a as nat, b as nat),
        r <= a / b + 1,
{
    let q: u128 = a / b;
    let rest: u128 = a % b;
    assert(q <= a) by {
        vstd::arithmetic::div_mod::lemma_div_is_ordered_by_denominator(a as int, 1, b as int);
    }
    if 2 * rest > b || (2 * rest == b && q % 2 == 1) {
        assert(q < a) by {
            vstd::arithmetic::div_mod::lemma_fundamental_div_mod(a as int, b as int);
            assert(b as int * q as int >= q as int) by (nonlinear_arith)
                requires
                    b >= 1,
                    q >= 0,
            ;
        }
        q + 1
    } else {
        q
    }
}

/// A size as people read it.
pub fn human_bytes(bytes: u64) -> (r: String)
    ensures
        r@ == human_size(bytes as nat),
{
    if bytes < 1024 {
        return dec_u64(bytes).concat(" B");
    }
    let spacing: u128 = if bytes < 0x20_0000_0000_0000 {
        1
    } else if bytes < 0x40_0000_0000_0000 {
        2
    } else if bytes < 0x80_0000_0000_0000 {
        4
    } else if bytes < 0x100_0000_0000_0000 {
        8
    } else if bytes < 0x200_0000_0000_0000 {
        16
    } else if bytes < 0x400_0000_0000_0000 {
        32
    } else if bytes < 0x800_0000_0000_0000 {
        64
    } else if bytes < 0x1000_0000_0000_0000 {
        128
    } else if bytes < 0x2000_0000_0000_0000 {
        256
    } else if bytes < 0x4000_0000_0000_0000 {
        512
    } else if bytes < 0x8000_0000_0000_0000 {
        1024
    } else {
        2048
    };
    let steps: u128 = round_nearest_even(bytes as u128, spacing);
    assert(steps * spacing <= bytes + spacing) by {
        vstd::arithmetic::div_mod::lemma_fundamental_div_mod(bytes as int, spacing as int);
        let q = bytes as int / spacing as int;
        assert(spacing as int * q <= bytes);
        assert(steps as int <= q + 1);
        assert(steps as int * spacing as int <= (q + 1) * spacing as int) by (nonlinear_arith)
            requires
                steps as int <= q + 1,
                spacing >= 0,
        ;
        assert((q + 1) * spacing as int == spacing as int * q + spacing as int)
            by (nonlinear_arith);
    }
    let value: u128 = steps * spacing;
    let (name, unit): (&str, u128) = if bytes < 0x10_0000 {
        ("KB", 0x400)
    } else if bytes < 0x4000_0000 {
        ("MB", 0x10_0000)
    } else if bytes < 0x100_0000_0000 {
        ("GB", 0x4000_0000)
    } else {
        ("TB", 0x100_0000_0000)
    };
    let hundredths: u128 = round_nearest_even(100 * value, unit);
    assert(hundredths < 0x1_0000_0000_0000_0000) by {
        assert((100 * value) as int / unit as int <= (100 * value) as int / 0x400) by {
            vstd::arithmetic::div_mod::lemma_div_is_ordered_by_denominator(
                (100 * value) as int,
                0x400,
                unit as int,
            );
        }
    }
    let h: u64 = hundredths as u64;
    let mut text = dec_u64(h / 100).concat(".");
    let tens: u64 = (h / 10) % 10;
    let ones: u64 = h % 10;
    let ghost before = text@;
    text.push(crate::text::digit_to_char(tens as u8));
    text.push(crate::text::digit_to_char(ones as u8));
    assert(text@ =~= two_decimals(h as nat));
    text.concat(" ").concat(name)
}

} // verus!
