//! Reading the header of a GGUF file from its bytes.
use crate::bytes::{le16, le32, le64, read_u16_le, read_u32_le, read_u64_le};
use crate::error::{end_of_file, message, CoreError, ErrorView};
use crate::gguf::{
    align_to, aligned, first_place_error, tensor_views, type_of_code, validate_tensor_bounds,
    GgmlType, GgufTensorInfo, TensorView,
};
use crate::text::{dec, dec_i64, dec_int, dec_u64};
use vstd::prelude::*;
use vstd::slice::slice_subrange;
use vstd::string::*;
use vstd::utf8::{decode_utf8, valid_utf8};

verus! {

/// A metadata value: its text, or the bits of a floating-point number still to be shown as text.
#[derive(Debug)]
pub enum MetadataValue {
    Text(String),
    Single(u32),
    Double(u64),
}

/// A metadata value as a mathematical value.
pub ghost enum ValueView {
    Text(Seq<char>),
    Single(u32),
    Double(u64),
}

impl View for MetadataValue {
    type V = ValueView;

    open spec fn view(&self) -> ValueView {
        match self {
            MetadataValue::Text(t) => ValueView::Text(t@),
            MetadataValue::Single(b) => ValueView::Single(*b),
            MetadataValue::Double(b) => ValueView::Double(*b),
        }
    }
}

// ---------------------------------------------------------------------
// Fixed-width numbers
// ---------------------------------------------------------------------

/// The byte at a position, and the position behind it.
pub open spec fn byte_at(b: Seq<u8>, pos: int) -> Result<(u8, int), ErrorView> {
    if pos + 1 <= b.len() {
        Ok((b[pos], pos + 1))
    } else {
        Err(end_of_file())
    }
}

/// The two-byte number at a position, and the position behind it.
pub open spec fn u16_at(b: Seq<u8>, pos: int) -> Result<(u16, int), ErrorView> {
    if pos + 2 <= b.len() {
        Ok((le16(b.subrange(pos, pos + 2)) as u16, pos + 2))
    } else {
        Err(end_of_file())
    }
}

/// The four-byte number at a position, and the position behind it.
pub open spec fn u32_at(b: Seq<u8>, pos: int) -> Result<(u32, int), ErrorView> {
    if pos + 4 <= b.len() {
        Ok((le32(b.subrange(pos, pos + 4)) as u32, pos + 4))
    } else {
        Err(end_of_file())
    }
}

/// The eight-byte number at a position, and the position behind it.
pub open spec fn u64_at(b: Seq<u8>, pos: int) -> Result<(u64, int), ErrorView> {
    if pos + 8 <= b.len() {
        Ok((le64(b.subrange(pos, pos + 8)) as u64, pos + 8))
    } else {
        Err(end_of_file())
    }
}

/// Whether an executable read found what the mathematical one finds.
pub open spec fn read_outcome<T>(
    r: Result<(T, usize), CoreError>,
    s: Result<(T, int), ErrorView>,
) -> bool {
    match r {
        Ok((v, p)) => s == Ok::<(T, int), ErrorView>((v, p as int)),
        Err(e) => s == Err::<(T, int), ErrorView>(e@),
    }
}

fn take_byte(b: &[u8], pos: usize) -> (r: Result<(u8, usize), CoreError>)
    requires
        pos <= b@.len(),
    ensures
        read_outcome(r, byte_at(b@, pos as int)),
        r matches Ok((_, p)) ==> pos < p <= b@.len(),
{
    if b.len() - pos < 1 {
        return Err(CoreError::end_of_file());
    }
    Ok((b[pos], pos + 1))
}

fn take_u16(b: &[u8], pos: usize) -> (r: Result<(u16, usize), CoreError>)
    requires
        pos <= b@.len(),
    ensures
        read_outcome(r, u16_at(b@, pos as int)),
        r matches Ok((_, p)) ==> pos < p <= b@.len(),
{
    if b.len() - pos < 2 {
        return Err(CoreError::end_of_file());
    }
    let v: u16 = read_u16_le(slice_subrange(b, pos, pos + 2));
    Ok((v, pos + 2))
}

fn take_u32(b: &[u8], pos: usize) -> (r: Result<(u32, usize), CoreError>)
    requires
        pos <= b@.len(),
    ensures
        read_outcome(r, u32_at(b@, pos as int)),
        r matches Ok((_, p)) ==> pos < p <= b@.len(),
{
    if b.len() - pos < 4 {
        return Err(CoreError::end_of_file());
    }
    let v: u32 = read_u32_le(slice_subrange(b, pos, pos + 4));
    Ok((v, pos + 4))
}

fn take_u64(b: &[u8], pos: usize) -> (r: Result<(u64, usize), CoreError>)
    requires
        pos <= b@.len(),
    ensures
        read_outcome(r, u64_at(b@, pos as int)),
        r matches Ok((_, p)) ==> pos < p <= b@.len(),
{
    if b.len() - pos < 8 {
        return Err(CoreError::end_of_file());
    }
    let v: u64 = read_u64_le(slice_subrange(b, pos, pos + 8));
    Ok((v, pos + 8))
}

// ---------------------------------------------------------------------
// Strings
// ---------------------------------------------------------------------

/// What `std::string::FromUtf8Error` says of bytes that are no UTF-8 text.
pub uninterp spec fn utf8_error_text(bytes: Seq<u8>) -> Seq<char>;

/// `String::from_utf8` accepts exactly the valid UTF-8 texts and gives their characters. Of the
/// text of the error nothing is claimed but that the bytes determine it.
#[verifier::external_body]
fn string_from_utf8(bytes: Vec<u8>) -> (r: Result<String, String>)
    ensures
        match r {
            Ok(s) => valid_utf8(bytes@) && s@ == decode_utf8(bytes@),
            Err(m) => !valid_utf8(bytes@) && m@ == utf8_error_text(bytes@),
        },
{
    String::from_utf8(bytes).map_err(|e| e.to_string())
}

/// The text that bytes stand for, or the error of bytes that are no text.
pub open spec fn text_of_bytes(bytes: Seq<u8>) -> Result<Seq<char>, ErrorView> {
    if valid_utf8(bytes) {
        Ok(decode_utf8(bytes))
    } else {
        Err(message(utf8_error_text(bytes)))
    }
}

/// The length-prefixed string at a position, and the position behind it.
pub open spec fn string_at(b: Seq<u8>, pos: int) -> Result<(Seq<char>, int), ErrorView> {
    match u64_at(b, pos) {
        Err(e) => Err(e),
        Ok((len, p)) => {
            if p + len > b.len() {
                Err(end_of_file())
            } else {
                match text_of_bytes(b.subrange(p, p + len)) {
                    Err(e) => Err(e),
                    Ok(t) => Ok((t, p + len)),
                }
            }
        },
    }
}

fn text_of(bytes: &[u8]) -> (r: Result<String, CoreError>)
    ensures
        match r {
            Ok(s) => text_of_bytes(bytes@) == Ok::<Seq<char>, ErrorView>(s@),
            Err(e) => text_of_bytes(bytes@) == Err::<Seq<char>, ErrorView>(e@),
        },
{
    match string_from_utf8(vstd::slice::slice_to_vec(bytes)) {
        Ok(s) => Ok(s),
        Err(m) => Err(CoreError::Message(m)),
    }
}

/// Reads the length-prefixed string at a position.
pub fn read_gguf_string(b: &[u8], pos: usize) -> (r: Result<(String, usize), CoreError>)
    requires
        pos <= b@.len(),
    ensures
        match r {
            Ok((s, p)) => string_at(b@, pos as int) == Ok::<(Seq<char>, int), ErrorView>(
                (s@, p as int),
            ) && pos < p <= b@.len(),
            Err(e) => string_at(b@, pos as int) == Err::<(Seq<char>, int), ErrorView>(e@),
        },
{
    match take_u64(b, pos) {
        Err(e) => Err(e),
        Ok((len, p)) => {
            if len > (b.len() - p) as u64 {
                return Err(CoreError::end_of_file());
            }
            let end: usize = p + len as usize;
            match text_of(slice_subrange(b, p, end)) {
                Err(e) => Err(e),
                Ok(s) => Ok((s, end)),
            }
        },
    }
}

// ---------------------------------------------------------------------
// Values inside arrays, which are passed over
// ---------------------------------------------------------------------

/// The position behind the value of the given type at a position.
pub open spec fn value_end(b: Seq<u8>, pos: int, value_type: u32) -> Result<int, ErrorView>
    decreases b.len() - pos, 0nat,
{
    if value_type == 0 || value_type == 1 || value_type == 7 {
        end_of(byte_at(b, pos))
    } else if value_type == 2 || value_type == 3 {
        end_of(u16_at(b, pos))
    } else if value_type == 4 || value_type == 5 || value_type == 6 {
        end_of(u32_at(b, pos))
    } else if value_type == 10 || value_type == 11 || value_type == 12 {
        end_of(u64_at(b, pos))
    } else if value_type == 8 {
        end_of(string_at(b, pos))
    } else if value_type == 9 {
        match u32_at(b, pos) {
            Err(e) => Err(e),
            Ok((elem_type, p)) => match u64_at(b, p) {
                Err(e) => Err(e),
                Ok((len, q)) => values_end(b, q, elem_type, len as nat),
            },
        }
    } else {
        Err(message("unknown type "@ + dec(value_type as nat)))
    }
}

/// The position behind `count` values of the given type that start at a position.
pub open spec fn values_end(b: Seq<u8>, pos: int, value_type: u32, count: nat) -> Result<
    int,
    ErrorView,
>
    decreases b.len() - pos, count + 1,
{
    if count == 0 {
        Ok(pos)
    } else {
        match value_end(b, pos, value_type) {
            Err(e) => Err(e),
            Ok(p) => if pos <= p <= b.len() {
                values_end(b, p, value_type, (count - 1) as nat)
            } else {
                Err(end_of_file())
            },
        }
    }
}

/// The position part of what a read found.
pub open spec fn end_of<T>(r: Result<(T, int), ErrorView>) -> Result<int, ErrorView> {
    match r {
        Ok((_, p)) => Ok(p),
        Err(e) => Err(e),
    }
}

/// Whether an executable position is the mathematical one.
pub open spec fn end_outcome(r: Result<usize, CoreError>, s: Result<int, ErrorView>) -> bool {
    match r {
        Ok(p) => s == Ok::<int, ErrorView>(p as int),
        Err(e) => s == Err::<int, ErrorView>(e@),
    }
}

fn skip_array(b: &[u8], pos: usize) -> (r: Result<(u64, usize), CoreError>)
    requires
        pos <= b@.len(),
    ensures
        match r {
            Ok((len, p)) => pos < p <= b@.len() && array_at(b@, pos as int) == Ok::<
                (u64, int),
                ErrorView,
            >((len, p as int)),
            Err(e) => array_at(b@, pos as int) == Err::<(u64, int), ErrorView>(e@),
        },
    decreases b@.len() - pos, 1nat,
{
    let (elem_type, p): (u32, usize) = match take_u32(b, pos) {
        Err(e) => {
            return Err(e);
        },
        Ok(v) => v,
    };
    let (len, q): (u64, usize) = match take_u64(b, p) {
        Err(e) => {
            return Err(e);
        },
        Ok(v) => v,
    };
    let mut i: u64 = 0;
    let mut cur: usize = q;
    while i < len
        invariant
            i <= len,
            pos < q <= cur <= b@.len(),
            values_end(b@, q as int, elem_type, len as nat) == values_end(
                b@,
                cur as int,
                elem_type,
                (len - i) as nat,
            ),
            u32_at(b@, pos as int) == Ok::<(u32, int), ErrorView>((elem_type, p as int)),
            u64_at(b@, p as int) == Ok::<(u64, int), ErrorView>((len, q as int)),
        decreases len - i,
    {
        match read_gguf_value_with_type(b, cur, elem_type) {
            Err(e) => {
                return Err(e);
            },
            Ok(next) => {
                cur = next;
            },
        }
        i = i + 1;
    }
    Ok((len, cur))
}

/// The length of the array at a position, and the position behind its last element.
pub open spec fn array_at(b: Seq<u8>, pos: int) -> Result<(u64, int), ErrorView> {
    match u32_at(b, pos) {
        Err(e) => Err(e),
        Ok((elem_type, p)) => match u64_at(b, p) {
            Err(e) => Err(e),
            Ok((len, q)) => match values_end(b, q, elem_type, len as nat) {
                Err(e) => Err(e),
                Ok(end) => Ok((len, end)),
            },
        },
    }
}

/// Passes over the value of the given type at a position.
pub fn read_gguf_value_with_type(b: &[u8], pos: usize, value_type: u32) -> (r: Result<usize, CoreError>)
    requires
        pos <= b@.len(),
    ensures
        end_outcome(r, value_end(b@, pos as int, value_type)),
        r matches Ok(p) ==> pos < p <= b@.len(),
    decreases b@.len() - pos, 2nat,
{
    if value_type == 0 || value_type == 1 || value_type == 7 {
        match take_byte(b, pos) {
            Err(e) => Err(e),
            Ok((_, p)) => Ok(p),
        }
    } else if value_type == 2 || value_type == 3 {
        match take_u16(b, pos) {
            Err(e) => Err(e),
            Ok((_, p)) => Ok(p),
        }
    } else if value_type == 4 || value_type == 5 || value_type == 6 {
        match take_u32(b, pos) {
            Err(e) => Err(e),
            Ok((_, p)) => Ok(p),
        }
    } else if value_type == 10 || value_type == 11 || value_type == 12 {
        match take_u64(b, pos) {
            Err(e) => Err(e),
            Ok((_, p)) => Ok(p),
        }
    } else if value_type == 8 {
        match read_gguf_string(b, pos) {
            Err(e) => Err(e),
            Ok((_, p)) => Ok(p),
        }
    } else if value_type == 9 {
        match skip_array(b, pos) {
            Err(e) => Err(e),
            Ok((_, p)) => Ok(p),
        }
    } else {
        let digits = dec_u64(value_type as u64);
        Err(CoreError::Message(String::from_str("unknown type ").concat(digits.as_str())))
    }
}

// ---------------------------------------------------------------------
// Typed values
// ---------------------------------------------------------------------

/// The signed number that an unsigned one of the given width (as a power of two) stands for.
pub open spec fn signed(v: nat, width: nat) -> int {
    if v < width / 2 {
        v as int
    } else {
        v - width
    }
}

fn signed_small(v: u32, half: u32) -> (r: i64)
    requires
        half <= 0x8000_0000,
        v <= 2 * half - 1,
    ensures
        r as int == signed(v as nat, (2 * half) as nat),
{
    if v < half {
        v as i64
    } else {
        v as i64 - 2 * (half as i64)
    }
}

fn signed_wide(v: u64) -> (r: i64)
    ensures
        r as int == signed(v as nat, 0x1_0000_0000_0000_0000),
{
    if v < 0x8000_0000_0000_0000 {
        v as i64
    } else {
        -((0xffff_ffff_ffff_ffff - v) as i64) - 1
    }
}

/// The text of a truth value.
pub open spec fn bool_text(v: bool) -> Seq<char> {
    if v {
        "true"@
    } else {
        "false"@
    }
}

/// A text found at a position, as a metadata value.
pub open spec fn text_value<T>(r: Result<(T, int), ErrorView>, text: spec_fn(T) -> Seq<char>)
    -> Result<(ValueView, int), ErrorView> {
    match r {
        Ok((v, p)) => Ok((ValueView::Text(text(v)), p)),
        Err(e) => Err(e),
    }
}

/// The metadata value of the given type at a position, and the position behind it.
pub open spec fn typed_value_at(b: Seq<u8>, pos: int, value_type: u32) -> Result<
    (ValueView, int),
    ErrorView,
> {
    if value_type == 0 {
        text_value(byte_at(b, pos), |v: u8| dec(v as nat))
    } else if value_type == 1 {
        text_value(byte_at(b, pos), |v: u8| dec_int(signed(v as nat, 256)))
    } else if value_type == 2 {
        text_value(u16_at(b, pos), |v: u16| dec(v as nat))
    } else if value_type == 3 {
        text_value(u16_at(b, pos), |v: u16| dec_int(signed(v as nat, 65536)))
    } else if value_type == 4 {
        text_value(u32_at(b, pos), |v: u32| dec(v as nat))
    } else if value_type == 5 {
        text_value(u32_at(b, pos), |v: u32| dec_int(signed(v as nat, 0x1_0000_0000)))
    } else if value_type == 6 {
        match u32_at(b, pos) {
            Ok((v, p)) => Ok((ValueView::Single(v), p)),
            Err(e) => Err(e),
        }
    } else if value_type == 7 {
        text_value(byte_at(b, pos), |v: u8| bool_text(v != 0))
    } else if value_type == 8 {
        text_value(string_at(b, pos), |t: Seq<char>| t)
    } else if value_type == 9 {
        text_value(array_at(b, pos), |n: u64| "[array len="@ + dec(n as nat) + "]"@)
    } else if value_type == 10 {
        text_value(u64_at(b, pos), |v: u64| dec(v as nat))
    } else if value_type == 11 {
        text_value(u64_at(b, pos), |v: u64| dec_int(signed(v as nat, 0x1_0000_0000_0000_0000)))
    } else if value_type == 12 {
        match u64_at(b, pos) {
            Ok((v, p)) => Ok((ValueView::Double(v), p)),
            Err(e) => Err(e),
        }
    } else {
        Err(message("unknown GGUF value type: "@ + dec(value_type as nat)))
    }
}

/// The metadata value at a position, led by its type, and the position behind it.
pub open spec fn value_at(b: Seq<u8>, pos: int) -> Result<(ValueView, int), ErrorView> {
    match u32_at(b, pos) {
        Err(e) => Err(e),
        Ok((value_type, p)) => typed_value_at(b, p, value_type),
    }
}

/// Whether an executable value read found what the mathematical one finds, further on.
pub open spec fn value_outcome(
    b: Seq<u8>,
    pos: int,
    r: Result<(MetadataValue, usize), CoreError>,
    s: Result<(ValueView, int), ErrorView>,
) -> bool {
    match r {
        Ok((v, p)) => s == Ok::<(ValueView, int), ErrorView>((v@, p as int)) && pos < p <= b.len(),
        Err(e) => s == Err::<(ValueView, int), ErrorView>(e@),
    }
}

fn read_small_value(b: &[u8], pos: usize, value_type: u32) -> (r: Result<
    (MetadataValue, usize),
    CoreError,
>)
    requires
        pos <= b@.len(),
        value_type < 4 || value_type == 7,
    ensures
        value_outcome(b@, pos as int, r, typed_value_at(b@, pos as int, value_type)),
{
    if value_type == 0 || value_type == 1 || value_type == 7 {
        match take_byte(b, pos) {
            Err(e) => Err(e),
            Ok((v, p)) => {
                let text = if value_type == 0 {
                    dec_u64(v as u64)
                } else if value_type == 1 {
                    dec_i64(signed_small(v as u32, 128))
                } else if v != 0 {
                    String::from_str("true")
                } else {
                    String::from_str("false")
                };
                Ok((MetadataValue::Text(text), p))
            },
        }
    } else {
        match take_u16(b, pos) {
            Err(e) => Err(e),
            Ok((v, p)) => {
                let text = if value_type == 2 {
                    dec_u64(v as u64)
                } else {
                    dec_i64(signed_small(v as u32, 32768))
                };
                Ok((MetadataValue::Text(text), p))
            },
        }
    }
}

fn read_wide_value(b: &[u8], pos: usize, value_type: u32) -> (r: Result<
    (MetadataValue, usize),
    CoreError,
>)
    requires
        pos <= b@.len(),
        4 <= value_type <= 6 || 10 <= value_type <= 12,
    ensures
        value_outcome(b@, pos as int, r, typed_value_at(b@, pos as int, value_type)),
{
    if value_type <= 6 {
        match take_u32(b, pos) {
            Err(e) => Err(e),
            Ok((v, p)) => {
                let value = if value_type == 4 {
                    MetadataValue::Text(dec_u64(v as u64))
                } else if value_type == 5 {
                    MetadataValue::Text(dec_i64(signed_small(v, 0x8000_0000)))
                } else {
                    MetadataValue::Single(v)
                };
                Ok((value, p))
            },
        }
    } else {
        match take_u64(b, pos) {
            Err(e) => Err(e),
            Ok((v, p)) => {
                let value = if value_type == 10 {
                    MetadataValue::Text(dec_u64(v))
                } else if value_type == 11 {
                    MetadataValue::Text(dec_i64(signed_wide(v)))
                } else {
                    MetadataValue::Double(v)
                };
                Ok((value, p))
            },
        }
    }
}

/// Reads the metadata value at a position, led by its type.
pub fn read_gguf_value_as_string(b: &[u8], pos: usize) -> (r: Result<
    (MetadataValue, usize),
    CoreError,
>)
    requires
        pos <= b@.len(),
    ensures
        value_outcome(b@, pos as int, r, value_at(b@, pos as int)),
{
    let (value_type, p): (u32, usize) = match take_u32(b, pos) {
        Err(e) => {
            return Err(e);
        },
        Ok(v) => v,
    };
    if value_type < 4 || value_type == 7 {
        read_small_value(b, p, value_type)
    } else if value_type <= 6 || (10 <= value_type && value_type <= 12) {
        read_wide_value(b, p, value_type)
    } else if value_type == 8 {
        match read_gguf_string(b, p) {
            Err(e) => Err(e),
            Ok((s, q)) => Ok((MetadataValue::Text(s), q)),
        }
    } else if value_type == 9 {
        match skip_array(b, p) {
            Err(e) => Err(e),
            Ok((len, q)) => {
                let digits = dec_u64(len);
                let text = String::from_str("[array len=").concat(digits.as_str()).concat("]");
                Ok((MetadataValue::Text(text), q))
            },
        }
    } else {
        let digits = dec_u64(value_type as u64);
        Err(
            CoreError::Message(
                String::from_str("unknown GGUF value type: ").concat(digits.as_str()),
            ),
        )
    }
}

// ---------------------------------------------------------------------
// The directory
// ---------------------------------------------------------------------

/// Metadata entries as mathematical values.
pub open spec fn entry_views(entries: Seq<(String, MetadataValue)>) -> Seq<
    (Seq<char>, ValueView),
> {
    entries.map_values(|e: (String, MetadataValue)| (e.0@, e.1@))
}

/// `count` metadata entries from a position on, behind those already found.
pub open spec fn entries_at(
    b: Seq<u8>,
    pos: int,
    count: nat,
    found: Seq<(Seq<char>, ValueView)>,
) -> Result<(Seq<(Seq<char>, ValueView)>, int), ErrorView>
    decreases count,
{
    if count == 0 {
        Ok((found, pos))
    } else {
        match string_at(b, pos) {
            Err(e) => Err(e),
            Ok((key, p)) => match value_at(b, p) {
                Err(e) => Err(e),
                Ok((value, q)) => entries_at(b, q, (count - 1) as nat, found.push((key, value))),
            },
        }
    }
}

fn read_entries(b: &[u8], pos: usize, count: u64) -> (r: Result<
    (Vec<(String, MetadataValue)>, usize),
    CoreError,
>)
    requires
        pos <= b@.len(),
    ensures
        match r {
            Ok((v, p)) => p <= b@.len() && entries_at(b@, pos as int, count as nat, Seq::empty())
                == Ok::<(Seq<(Seq<char>, ValueView)>, int), ErrorView>(
                (entry_views(v@), p as int),
            ),
            Err(e) => entries_at(b@, pos as int, count as nat, Seq::empty()) == Err::<
                (Seq<(Seq<char>, ValueView)>, int),
                ErrorView,
            >(e@),
        },
{
    let mut out: Vec<(String, MetadataValue)> = Vec::new();
    let mut cur: usize = pos;
    let mut i: u64 = 0;
    assert(entry_views(out@) =~= Seq::<(Seq<char>, ValueView)>::empty());
    while i < count
        invariant
            i <= count,
            cur <= b@.len(),
            entries_at(b@, pos as int, count as nat, Seq::empty()) == entries_at(
                b@,
                cur as int,
                (count - i) as nat,
                entry_views(out@),
            ),
        decreases count - i,
    {
        let (key, p): (String, usize) = match read_gguf_string(b, cur) {
            Err(e) => {
                return Err(e);
            },
            Ok(v) => v,
        };
        let (value, q): (MetadataValue, usize) = match read_gguf_value_as_string(b, p) {
            Err(e) => {
                return Err(e);
            },
            Ok(v) => v,
        };
        let ghost before = out@;
        let ghost entry = (key@, value@);
        out.push((key, value));
        assert(entry_views(out@) =~= entry_views(before).push(entry));
        cur = q;
        i = i + 1;
    }
    Ok((out, cur))
}

/// `count` dimensions from a position on, behind those already found.
pub open spec fn dimensions_at(b: Seq<u8>, pos: int, count: nat, found: Seq<u64>) -> Result<
    (Seq<u64>, int),
    ErrorView,
>
    decreases count,
{
    if count == 0 {
        Ok((found, pos))
    } else {
        match u64_at(b, pos) {
            Err(e) => Err(e),
            Ok((d, p)) => dimensions_at(b, p, (count - 1) as nat, found.push(d)),
        }
    }
}

fn read_dimensions(b: &[u8], pos: usize, count: u32) -> (r: Result<(Vec<u64>, usize), CoreError>)
    requires
        pos <= b@.len(),
    ensures
        match r {
            Ok((v, p)) => pos <= p <= b@.len() && dimensions_at(
                b@,
                pos as int,
                count as nat,
                Seq::empty(),
            ) == Ok::<(Seq<u64>, int), ErrorView>((v@, p as int)),
            Err(e) => dimensions_at(b@, pos as int, count as nat, Seq::empty()) == Err::<
                (Seq<u64>, int),
                ErrorView,
            >(e@),
        },
{
    let mut out: Vec<u64> = Vec::new();
    let mut cur: usize = pos;
    let mut i: u32 = 0;
    while i < count
        invariant
            i <= count,
            pos <= cur <= b@.len(),
            dimensions_at(b@, pos as int, count as nat, Seq::empty()) == dimensions_at(
                b@,
                cur as int,
                (count - i) as nat,
                out@,
            ),
        decreases count - i,
    {
        match take_u64(b, cur) {
            Err(e) => {
                return Err(e);
            },
            Ok((d, p)) => {
                out.push(d);
                cur = p;
            },
        }
        i = i + 1;
    }
    Ok((out, cur))
}

/// The tensor directory entry at a position, and the position behind it.
pub open spec fn tensor_info_at(b: Seq<u8>, pos: int) -> Result<(TensorView, int), ErrorView> {
    match string_at(b, pos) {
        Err(e) => Err(e),
        Ok((name, p)) => match u32_at(b, p) {
            Err(e) => Err(e),
            Ok((count, q)) => match dimensions_at(b, q, count as nat, Seq::empty()) {
                Err(e) => Err(e),
                Ok((dimensions, r)) => match u32_at(b, r) {
                    Err(e) => Err(e),
                    Ok((code, s)) => match type_of_code(code) {
                        Err(e) => Err(e),
                        Ok(ggml_type) => match u64_at(b, s) {
                            Err(e) => Err(e),
                            Ok((relative_offset, t)) => Ok(
                                (TensorView { name, dimensions, ggml_type, relative_offset }, t),
                            ),
                        },
                    },
                },
            },
        },
    }
}

/// Reads the tensor directory entry at a position.
pub fn read_tensor_info(b: &[u8], pos: usize) -> (r: Result<(GgufTensorInfo, usize), CoreError>)
    requires
        pos <= b@.len(),
    ensures
        match r {
            Ok((t, p)) => pos < p <= b@.len() && tensor_info_at(b@, pos as int) == Ok::<
                (TensorView, int),
                ErrorView,
            >((t@, p as int)),
            Err(e) => tensor_info_at(b@, pos as int) == Err::<(TensorView, int), ErrorView>(e@),
        },
{
    let (name, p): (String, usize) = match read_gguf_string(b, pos) {
        Err(e) => {
            return Err(e);
        },
        Ok(v) => v,
    };
    let (dimension_count, q): (u32, usize) = match take_u32(b, p) {
        Err(e) => {
            return Err(e);
        },
        Ok(v) => v,
    };
    let (dimensions, r): (Vec<u64>, usize) = match read_dimensions(b, q, dimension_count) {
        Err(e) => {
            return Err(e);
        },
        Ok(v) => v,
    };
    let (code, s): (u32, usize) = match take_u32(b, r) {
        Err(e) => {
            return Err(e);
        },
        Ok(v) => v,
    };
    let ggml_type: GgmlType = match GgmlType::from_u32(code) {
        Err(e) => {
            return Err(e);
        },
        Ok(v) => v,
    };
    let (relative_offset, t): (u64, usize) = match take_u64(b, s) {
        Err(e) => {
            return Err(e);
        },
        Ok(v) => v,
    };
    Ok((GgufTensorInfo { name, dimensions, ggml_type, relative_offset }, t))
}

/// `count` tensor directory entries from a position on, behind those already found.
pub open spec fn tensors_at(b: Seq<u8>, pos: int, count: nat, found: Seq<TensorView>) -> Result<
    (Seq<TensorView>, int),
    ErrorView,
>
    decreases count,
{
    if count == 0 {
        Ok((found, pos))
    } else {
        match tensor_info_at(b, pos) {
            Err(e) => Err(e),
            Ok((t, p)) => tensors_at(b, p, (count - 1) as nat, found.push(t)),
        }
    }
}

fn read_tensors(b: &[u8], pos: usize, count: u64) -> (r: Result<
    (Vec<GgufTensorInfo>, usize),
    CoreError,
>)
    requires
        pos <= b@.len(),
    ensures
        match r {
            Ok((v, p)) => p <= b@.len() && tensors_at(b@, pos as int, count as nat, Seq::empty())
                == Ok::<(Seq<TensorView>, int), ErrorView>((tensor_views(v@), p as int)),
            Err(e) => tensors_at(b@, pos as int, count as nat, Seq::empty()) == Err::<
                (Seq<TensorView>, int),
                ErrorView,
            >(e@),
        },
{
    let mut out: Vec<GgufTensorInfo> = Vec::new();
    let mut cur: usize = pos;
    let mut i: u64 = 0;
    assert(tensor_views(out@) =~= Seq::<TensorView>::empty());
    while i < count
        invariant
            i <= count,
            cur <= b@.len(),
            tensors_at(b@, pos as int, count as nat, Seq::empty()) == tensors_at(
                b@,
                cur as int,
                (count - i) as nat,
                tensor_views(out@),
            ),
        decreases count - i,
    {
        let (info, p): (GgufTensorInfo, usize) = match read_tensor_info(b, cur) {
            Err(e) => {
                return Err(e);
            },
            Ok(v) => v,
        };
        let ghost before = out@;
        let ghost view = info@;
        out.push(info);
        assert(tensor_views(out@) =~= tensor_views(before).push(view));
        cur = p;
        i = i + 1;
    }
    Ok((out, cur))
}

/// What the header of a file says.
#[derive(Debug)]
pub struct GgufDirectory {
    pub version: u32,
    pub metadata: Vec<(String, MetadataValue)>,
    pub tensors: Vec<GgufTensorInfo>,
    pub tensor_data_start: u64,
}

/// What the header of a file says, as a mathematical value.
pub ghost struct DirectoryView {
    pub version: u32,
    pub metadata: Seq<(Seq<char>, ValueView)>,
    pub tensors: Seq<TensorView>,
    pub tensor_data_start: u64,
}

impl View for GgufDirectory {
    type V = DirectoryView;

    open spec fn view(&self) -> DirectoryView {
        DirectoryView {
            version: self.version,
            metadata: entry_views(self.metadata@),
            tensors: tensor_views(self.tensors@),
            tensor_data_start: self.tensor_data_start,
        }
    }
}

/// Whether the bytes start with the four letters of the format.
pub open spec fn has_magic(b: Seq<u8>) -> bool {
    b.len() >= 4 && b[0] == 71 && b[1] == 71 && b[2] == 85 && b[3] == 70
}

/// The directory of the file with the given name, size and leading bytes.
pub open spec fn directory_of(path: Seq<char>, b: Seq<u8>, file_size: u64) -> Result<
    DirectoryView,
    ErrorView,
> {
    if b.len() < 4 {
        Err(end_of_file())
    } else if !has_magic(b) {
        Err(message("not a GGUF file: "@ + path))
    } else {
        match u32_at(b, 4) {
            Err(e) => Err(e),
            Ok((version, p)) => match u64_at(b, p) {
                Err(e) => Err(e),
                Ok((tensor_count, q)) => match u64_at(b, q) {
                    Err(e) => Err(e),
                    Ok((entry_count, r)) => match entries_at(
                        b,
                        r,
                        entry_count as nat,
                        Seq::empty(),
                    ) {
                        Err(e) => Err(e),
                        Ok((metadata, s)) => match tensors_at(
                            b,
                            s,
                            tensor_count as nat,
                            Seq::empty(),
                        ) {
                            Err(e) => Err(e),
                            Ok((tensors, t)) => {
                                let tensor_data_start = aligned(t as nat) as u64;
                                match first_place_error(
                                    tensors,
                                    0,
                                    tensor_data_start,
                                    file_size,
                                ) {
                                    Some(e) => Err(e),
                                    None => Ok(
                                        DirectoryView {
                                            version,
                                            metadata,
                                            tensors,
                                            tensor_data_start,
                                        },
                                    ),
                                }
                            },
                        },
                    },
                },
            },
        }
    }
}

/// Reads the directory of a file from its leading bytes. Where the bytes end before the directory
/// does, the error is that of reading past the end of the file.
pub fn read_directory(path: &str, b: &[u8], file_size_bytes: u64) -> (r: Result<
    GgufDirectory,
    CoreError,
>)
    requires
        b@.len() <= isize::MAX,
    ensures
        match r {
            Ok(d) => directory_of(path@, b@, file_size_bytes) == Ok::<DirectoryView, ErrorView>(
                d@,
            ),
            Err(e) => directory_of(path@, b@, file_size_bytes) == Err::<DirectoryView, ErrorView>(
                e@,
            ),
        },
{
    if b.len() < 4 {
        return Err(CoreError::end_of_file());
    }
    if b[0] != 71 || b[1] != 71 || b[2] != 85 || b[3] != 70 {
        return Err(CoreError::Message(String::from_str("not a GGUF file: ").concat(path)));
    }
    let (version, p): (u32, usize) = match take_u32(b, 4) {
        Err(e) => {
            return Err(e);
        },
        Ok(v) => v,
    };
    let (tensor_count, q): (u64, usize) = match take_u64(b, p) {
        Err(e) => {
            return Err(e);
        },
        Ok(v) => v,
    };
    let (entry_count, r): (u64, usize) = match take_u64(b, q) {
        Err(e) => {
            return Err(e);
        },
        Ok(v) => v,
    };
    let (metadata, s): (Vec<(String, MetadataValue)>, usize) = match read_entries(
        b,
        r,
        entry_count,
    ) {
        Err(e) => {
            return Err(e);
        },
        Ok(v) => v,
    };
    let (tensors, t): (Vec<GgufTensorInfo>, usize) = match read_tensors(b, s, tensor_count) {
        Err(e) => {
            return Err(e);
        },
        Ok(v) => v,
    };
    let tensor_data_start: u64 = align_to(t as u64);
    match validate_tensor_bounds(tensors.as_slice(), tensor_data_start, file_size_bytes) {
        Err(e) => Err(e),
        Ok(_) => Ok(GgufDirectory { version, metadata, tensors, tensor_data_start }),
    }
}

} // verus!
