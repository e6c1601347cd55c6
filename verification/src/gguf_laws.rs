//! What reading a model file comes to, byte by byte.
use crate::bytes::{le16, le32};
use crate::error::ErrorView;
use crate::gguf::{
    aligned, block_layout, storage_bytes, tensor_byte_len, tensor_read_of, type_code, type_of_code,
    FileView, GgmlType, TensorView,
};
use crate::gguf_read::{
    dimensions_at, directory_of, entries_at, string_at, tensor_info_at, tensors_at,
    typed_value_at, u16_at, u32_at, u64_at, value_at, DirectoryView, ValueView,
};
use crate::half::widened;
use crate::numeric::{gathered, pairs, Calc, Op};
use crate::sums::{adds_up, sums_add_products};
use crate::tensor::{f16_parts, is_half_product, is_half_row};
use crate::text::{dec, dec_int};
use crate::wav_laws::{four_at, two_at};
use vstd::prelude::*;
use vstd::utf8::encode_utf8;

verus! {

// ---------------------------------------------------------------------
// Numbers and texts
// ---------------------------------------------------------------------

/// Numbers of two, four and eight bytes have their lowest byte first, and reading one leads right
/// behind it.
pub proof fn numbers_have_their_lowest_byte_first(b: Seq<u8>, pos: int)
    requires
        0 <= pos,
    ensures
        pos + 2 <= b.len() ==> u16_at(b, pos) is Ok && u16_at(b, pos)->Ok_0.0 == two_at(b, pos)
            && u16_at(b, pos)->Ok_0.1 == pos + 2,
        pos + 4 <= b.len() ==> u32_at(b, pos) is Ok && u32_at(b, pos)->Ok_0.0 == four_at(b, pos)
            && u32_at(b, pos)->Ok_0.1 == pos + 4,
        pos + 8 <= b.len() ==> u64_at(b, pos) is Ok && u64_at(b, pos)->Ok_0.0 == four_at(b, pos)
            + 0x1_0000_0000 * four_at(b, pos + 4) && u64_at(b, pos)->Ok_0.1 == pos + 8,
        pos + 2 > b.len() ==> u16_at(b, pos) is Err,
        pos + 4 > b.len() ==> u32_at(b, pos) is Err,
        pos + 8 > b.len() ==> u64_at(b, pos) is Err,
{
    if pos + 4 <= b.len() {
        lemma_four(b, b.subrange(pos, pos + 4), pos, 4);
    }
    if pos + 8 <= b.len() {
        let s = b.subrange(pos, pos + 8);
        lemma_four(b, s, pos, 8);
        assert(s.skip(4) =~= b.subrange(pos + 4, pos + 4 + 4));
        lemma_four(b, s.skip(4), pos + 4, 4);
        assert(four_at(b, pos) >= 0 && four_at(b, pos) < 0x1_0000_0000);
    }
}

proof fn lemma_four(b: Seq<u8>, s: Seq<u8>, pos: int, n: int)
    requires
        0 <= pos,
        4 <= n,
        pos + n <= b.len(),
        s == b.subrange(pos, pos + n),
    ensures
        le32(s) == four_at(b, pos),
{
    assert(s[0] == b[pos] && s[1] == b[pos + 1]);
    assert(s.skip(2)[0] == b[pos + 2] && s.skip(2)[1] == b[pos + 3]);
}

/// A text is led by how many bytes it has in UTF-8, and these follow.
pub proof fn texts_are_led_by_their_length(b: Seq<u8>, pos: int, t: Seq<char>, p: int)
    requires
        0 <= pos,
        string_at(b, pos) == Ok::<(Seq<char>, int), ErrorView>((t, p)),
    ensures
        pos + 8 <= p <= b.len(),
        p - pos - 8 == four_at(b, pos) + 0x1_0000_0000 * four_at(b, pos + 4),
        encode_utf8(t) == b.subrange(pos + 8, p),
{
    numbers_have_their_lowest_byte_first(b, pos);
    vstd::utf8::decode_utf8_encode_utf8(b.subrange(pos + 8, p));
}

// ---------------------------------------------------------------------
// Metadata
// ---------------------------------------------------------------------

/// A value is led by its type. A whole number is shown by its digits, with a sign where its type has
/// one; floating-point numbers are kept as their bits; a truth value is false where its byte is zero.
pub proof fn values_are_read_by_their_type(b: Seq<u8>, pos: int)
    requires
        0 <= pos,
        pos + 8 <= b.len(),
    ensures
        typed_value_at(b, pos, 0) == Ok::<(ValueView, int), ErrorView>(
            (ValueView::Text(dec(b[pos] as nat)), pos + 1),
        ),
        typed_value_at(b, pos, 1) == Ok::<(ValueView, int), ErrorView>(
            (
                ValueView::Text(
                    dec_int(
                        if b[pos] < 128 {
                            b[pos] as int
                        } else {
                            b[pos] - 256
                        },
                    ),
                ),
                pos + 1,
            ),
        ),
        typed_value_at(b, pos, 2) == Ok::<(ValueView, int), ErrorView>(
            (ValueView::Text(dec(two_at(b, pos) as nat)), pos + 2),
        ),
        typed_value_at(b, pos, 3) == Ok::<(ValueView, int), ErrorView>(
            (
                ValueView::Text(
                    dec_int(
                        if two_at(b, pos) < 32768 {
                            two_at(b, pos)
                        } else {
                            two_at(b, pos) - 65536
                        },
                    ),
                ),
                pos + 2,
            ),
        ),
        typed_value_at(b, pos, 4) == Ok::<(ValueView, int), ErrorView>(
            (ValueView::Text(dec(four_at(b, pos) as nat)), pos + 4),
        ),
        typed_value_at(b, pos, 5) == Ok::<(ValueView, int), ErrorView>(
            (
                ValueView::Text(
                    dec_int(
                        if four_at(b, pos) < 0x8000_0000 {
                            four_at(b, pos)
                        } else {
                            four_at(b, pos) - 0x1_0000_0000
                        },
                    ),
                ),
                pos + 4,
            ),
        ),
        typed_value_at(b, pos, 6) == Ok::<(ValueView, int), ErrorView>(
            (ValueView::Single(four_at(b, pos) as u32), pos + 4),
        ),
        typed_value_at(b, pos, 7) == Ok::<(ValueView, int), ErrorView>(
            (
                ValueView::Text(
                    if b[pos] == 0 {
                        "false"@
                    } else {
                        "true"@
                    },
                ),
                pos + 1,
            ),
        ),
        typed_value_at(b, pos, 10) == Ok::<(ValueView, int), ErrorView>(
            (
                ValueView::Text(
                    dec((four_at(b, pos) + 0x1_0000_0000 * four_at(b, pos + 4)) as nat),
                ),
                pos + 8,
            ),
        ),
        typed_value_at(b, pos, 12) == Ok::<(ValueView, int), ErrorView>(
            (
                ValueView::Double(
                    (four_at(b, pos) + 0x1_0000_0000 * four_at(b, pos + 4)) as u64,
                ),
                pos + 8,
            ),
        ),
{
    numbers_have_their_lowest_byte_first(b, pos);
}

/// A text value is the text itself, and an array is shown by its length alone.
pub proof fn texts_and_arrays_are_shown(b: Seq<u8>, pos: int, v: ValueView, p: int)
    requires
        0 <= pos,
    ensures
        typed_value_at(b, pos, 8) == Ok::<(ValueView, int), ErrorView>((v, p)) ==> exists|
            t: Seq<char>,
        |
            v == ValueView::Text(t) && #[trigger] string_at(b, pos) == Ok::<
                (Seq<char>, int),
                ErrorView,
            >((t, p)),
        typed_value_at(b, pos, 9) == Ok::<(ValueView, int), ErrorView>((v, p)) && pos + 12
            <= b.len() ==> v == ValueView::Text(
            "[array len="@ + dec(
                (four_at(b, pos + 4) + 0x1_0000_0000 * four_at(b, pos + 8)) as nat,
            ) + "]"@,
        ),
{
    numbers_have_their_lowest_byte_first(b, pos);
    if pos + 12 <= b.len() {
        numbers_have_their_lowest_byte_first(b, pos + 4);
    }
}

/// Whether entries follow each other in a file, each a text and a value right behind it.
pub open spec fn entries_follow(
    b: Seq<u8>,
    entries: Seq<(Seq<char>, ValueView)>,
    places: Seq<int>,
) -> bool {
    &&& places.len() == entries.len() + 1
    &&& forall|i: int|
        0 <= i < entries.len() ==> entry_lies(
            b,
            places[i],
            #[trigger] entries[i],
            places[i + 1],
        )
}

/// Whether an entry lies between two places: a text, the number of a type, and a value of the type.
pub open spec fn entry_lies(b: Seq<u8>, at: int, entry: (Seq<char>, ValueView), end: int) -> bool {
    exists|p: int|
        {
            &&& #[trigger] string_at(b, at) == Ok::<(Seq<char>, int), ErrorView>((entry.0, p))
            &&& p + 4 <= b.len()
            &&& typed_value_at(b, p + 4, four_at(b, p) as u32) == Ok::<
                (ValueView, int),
                ErrorView,
            >((entry.1, end))
        }
}

proof fn lemma_entry_lies(b: Seq<u8>, at: int, key: Seq<char>, p: int, value: ValueView, end: int)
    requires
        0 <= at,
        string_at(b, at) == Ok::<(Seq<char>, int), ErrorView>((key, p)),
        value_at(b, p) == Ok::<(ValueView, int), ErrorView>((value, end)),
    ensures
        entry_lies(b, at, (key, value), end),
{
    texts_are_led_by_their_length(b, at, key, p);
    numbers_have_their_lowest_byte_first(b, p);
}

/// The metadata of a file are its entries in their order.
pub proof fn entries_are_read_in_order(
    b: Seq<u8>,
    pos: int,
    count: nat,
    entries: Seq<(Seq<char>, ValueView)>,
    end: int,
)
    requires
        0 <= pos,
        entries_at(b, pos, count, Seq::empty()) == Ok::<
            (Seq<(Seq<char>, ValueView)>, int),
            ErrorView,
        >((entries, end)),
    ensures
        entries.len() == count,
        exists|places: Seq<int>|
            #[trigger] entries_follow(b, entries, places) && places[0] == pos && places.last()
                == end,
{
    let places = lemma_entries(b, pos, count, Seq::empty(), seq![pos], entries, end);
    assert(entries_follow(b, entries, places));
}

proof fn lemma_entries(
    b: Seq<u8>,
    pos: int,
    count: nat,
    found: Seq<(Seq<char>, ValueView)>,
    places: Seq<int>,
    entries: Seq<(Seq<char>, ValueView)>,
    end: int,
) -> (all: Seq<int>)
    requires
        0 <= pos,
        entries_at(b, pos, count, found) == Ok::<(Seq<(Seq<char>, ValueView)>, int), ErrorView>(
            (entries, end),
        ),
        entries_follow(b, found, places),
        places.last() == pos,
    ensures
        entries.len() == found.len() + count,
        entries_follow(b, entries, all),
        all[0] == places[0],
        all.last() == end,
    decreases count,
{
    if count == 0 {
        places
    } else {
        let (key, p) = string_at(b, pos)->Ok_0;
        let (value, q) = value_at(b, p)->Ok_0;
        lemma_entry_lies(b, pos, key, p, value, q);
        texts_are_led_by_their_length(b, pos, key, p);
        lemma_value_is_behind(b, p);
        let more = found.push((key, value));
        let next = places.push(q);
        assert forall|i: int| 0 <= i < more.len() implies entry_lies(
            b,
            next[i],
            #[trigger] more[i],
            next[i + 1],
        ) by {
            if i < found.len() {
                let _ = found[i];
            }
        }
        lemma_entries(b, q, (count - 1) as nat, more, next, entries, end)
    }
}

proof fn lemma_values_are_behind(b: Seq<u8>, pos: int, value_type: u32, count: nat)
    requires
        0 <= pos,
    ensures
        crate::gguf_read::values_end(b, pos, value_type, count) matches Ok(p) ==> p >= pos,
    decreases count,
{
    if count > 0 {
        match crate::gguf_read::value_end(b, pos, value_type) {
            Err(_) => {},
            Ok(p) => {
                if pos <= p <= b.len() {
                    lemma_values_are_behind(b, p, value_type, (count - 1) as nat);
                }
            },
        }
    }
}

proof fn lemma_value_is_behind(b: Seq<u8>, pos: int)
    requires
        0 <= pos,
    ensures
        value_at(b, pos) matches Ok((v, p)) ==> p >= pos,
{
    numbers_have_their_lowest_byte_first(b, pos);
    if pos + 4 <= b.len() {
        let at = pos + 4;
        if let Ok((t, p)) = string_at(b, at) {
            texts_are_led_by_their_length(b, at, t, p);
        }
        numbers_have_their_lowest_byte_first(b, at);
        if at + 12 <= b.len() {
            numbers_have_their_lowest_byte_first(b, at + 4);
        }
        if let Ok((elem, p)) = u32_at(b, at) {
            if let Ok((len, q)) = u64_at(b, p) {
                lemma_values_are_behind(b, q, elem, len as nat);
            }
        }
    }
}

// ---------------------------------------------------------------------
// Tensors
// ---------------------------------------------------------------------

/// Whether a directory entry lies between two places: its name, how many dimensions it has, the
/// dimensions of eight bytes each, the number of its type, and where its data lie.
pub open spec fn tensor_lies(b: Seq<u8>, at: int, t: TensorView, end: int) -> bool {
    exists|p: int|
        {
            &&& #[trigger] string_at(b, at) == Ok::<(Seq<char>, int), ErrorView>((t.name, p))
            &&& at <= p
            &&& end == p + 4 + 8 * t.dimensions.len() + 12
            &&& end <= b.len()
            &&& t.dimensions.len() == four_at(b, p)
            &&& forall|i: int|
                0 <= i < t.dimensions.len() ==> #[trigger] t.dimensions[i] == four_at(
                    b,
                    p + 4 + 8 * i,
                ) + 0x1_0000_0000 * four_at(b, p + 8 + 8 * i)
            &&& type_code(t.ggml_type) == four_at(b, end - 12)
            &&& t.relative_offset == four_at(b, end - 8) + 0x1_0000_0000 * four_at(b, end - 4)
        }
}

/// A directory entry tells the tensor that its bytes describe.
pub proof fn directory_entries_tell_their_tensor(b: Seq<u8>, at: int, t: TensorView, end: int)
    requires
        0 <= at,
        tensor_info_at(b, at) == Ok::<(TensorView, int), ErrorView>((t, end)),
    ensures
        tensor_lies(b, at, t, end),
{
    let (name, p) = string_at(b, at)->Ok_0;
    texts_are_led_by_their_length(b, at, name, p);
    numbers_have_their_lowest_byte_first(b, p);
    let (count, q) = u32_at(b, p)->Ok_0;
    lemma_dimensions(b, q, count as nat, Seq::empty(), q);
    let (dims, r) = dimensions_at(b, q, count as nat, Seq::empty())->Ok_0;
    numbers_have_their_lowest_byte_first(b, r);
    let (code, s) = u32_at(b, r)->Ok_0;
    numbers_have_their_lowest_byte_first(b, s);
    assert(type_code(type_of_code(code)->Ok_0) == code);
    assert(string_at(b, at) == Ok::<(Seq<char>, int), ErrorView>((t.name, p)));
}

proof fn lemma_dimensions(b: Seq<u8>, pos: int, count: nat, found: Seq<u64>, start: int)
    requires
        0 <= start,
        pos == start + 8 * found.len(),
        forall|i: int|
            0 <= i < found.len() ==> #[trigger] found[i] == four_at(b, start + 8 * i)
                + 0x1_0000_0000 * four_at(b, start + 4 + 8 * i),
    ensures
        dimensions_at(b, pos, count, found) matches Ok((dims, end)) ==> {
            &&& dims.len() == found.len() + count
            &&& end == start + 8 * dims.len()
            &&& forall|i: int|
                0 <= i < dims.len() ==> #[trigger] dims[i] == four_at(b, start + 8 * i)
                    + 0x1_0000_0000 * four_at(b, start + 4 + 8 * i)
        },
    decreases count,
{
    if count > 0 {
        numbers_have_their_lowest_byte_first(b, pos);
        if let Ok((d, p)) = u64_at(b, pos) {
            lemma_dimensions(b, p, (count - 1) as nat, found.push(d), start);
        }
    }
}

/// Whether directory entries follow each other in a file.
pub open spec fn tensors_follow(b: Seq<u8>, tensors: Seq<TensorView>, places: Seq<int>) -> bool {
    &&& places.len() == tensors.len() + 1
    &&& forall|i: int|
        0 <= i < tensors.len() ==> tensor_lies(b, places[i], #[trigger] tensors[i], places[i + 1])
}

/// The tensors of a file are its directory entries in their order.
pub proof fn tensors_are_read_in_order(
    b: Seq<u8>,
    pos: int,
    count: nat,
    tensors: Seq<TensorView>,
    end: int,
)
    requires
        0 <= pos,
        tensors_at(b, pos, count, Seq::empty()) == Ok::<(Seq<TensorView>, int), ErrorView>(
            (tensors, end),
        ),
    ensures
        tensors.len() == count,
        exists|places: Seq<int>|
            #[trigger] tensors_follow(b, tensors, places) && places[0] == pos && places.last()
                == end,
{
    let places = lemma_tensors(b, pos, count, Seq::empty(), seq![pos], tensors, end);
    assert(tensors_follow(b, tensors, places));
}

proof fn lemma_tensors(
    b: Seq<u8>,
    pos: int,
    count: nat,
    found: Seq<TensorView>,
    places: Seq<int>,
    tensors: Seq<TensorView>,
    end: int,
) -> (all: Seq<int>)
    requires
        0 <= pos,
        tensors_at(b, pos, count, found) == Ok::<(Seq<TensorView>, int), ErrorView>(
            (tensors, end),
        ),
        tensors_follow(b, found, places),
        places.last() == pos,
    ensures
        tensors.len() == found.len() + count,
        tensors_follow(b, tensors, all),
        all[0] == places[0],
        all.last() == end,
    decreases count,
{
    if count == 0 {
        places
    } else {
        let (t, p) = tensor_info_at(b, pos)->Ok_0;
        directory_entries_tell_their_tensor(b, pos, t, p);
        let more = found.push(t);
        let next = places.push(p);
        assert forall|i: int| 0 <= i < more.len() implies tensor_lies(
            b,
            next[i],
            #[trigger] more[i],
            next[i + 1],
        ) by {
            if i < found.len() {
                let _ = found[i];
            }
        }
        lemma_tensors(b, p, (count - 1) as nat, more, next, tensors, end)
    }
}

/// A file starts with its four letters, its version, how many tensors and how many entries it has.
/// The entries follow, then the tensors, and the data from the next multiple of 32 on.
pub proof fn files_are_laid_out(path: Seq<char>, b: Seq<u8>, size: u64, d: DirectoryView)
    requires
        directory_of(path, b, size) == Ok::<DirectoryView, ErrorView>(d),
    ensures
        b.len() >= 24,
        b[0] == 71 && b[1] == 71 && b[2] == 85 && b[3] == 70,
        d.version == four_at(b, 4),
        d.tensors.len() == four_at(b, 8) + 0x1_0000_0000 * four_at(b, 12),
        d.metadata.len() == four_at(b, 16) + 0x1_0000_0000 * four_at(b, 20),
        exists|places: Seq<int>, more: Seq<int>|
            {
                &&& #[trigger] entries_follow(b, d.metadata, places)
                &&& #[trigger] tensors_follow(b, d.tensors, more)
                &&& places[0] == 24
                &&& more[0] == places.last()
                &&& d.tensor_data_start == aligned(more.last() as nat) as u64
            },
{
    numbers_have_their_lowest_byte_first(b, 4);
    numbers_have_their_lowest_byte_first(b, 8);
    numbers_have_their_lowest_byte_first(b, 16);
    let n = u64_at(b, 8)->Ok_0.0 as nat;
    let m = u64_at(b, 16)->Ok_0.0 as nat;
    let (metadata, s) = entries_at(b, 24, m, Seq::empty())->Ok_0;
    entries_are_read_in_order(b, 24, m, metadata, s);
    let places = choose|places: Seq<int>|
        #[trigger] entries_follow(b, metadata, places) && places[0] == 24 && places.last() == s;
    lemma_entries_lie_behind(b, 24, m, Seq::empty());
    let (tensors, t) = tensors_at(b, s, n, Seq::empty())->Ok_0;
    tensors_are_read_in_order(b, s, n, tensors, t);
    let more = choose|more: Seq<int>|
        #[trigger] tensors_follow(b, tensors, more) && more[0] == s && more.last() == t;
    assert(entries_follow(b, d.metadata, places));
    assert(tensors_follow(b, d.tensors, more));
}

proof fn lemma_entries_lie_behind(
    b: Seq<u8>,
    pos: int,
    count: nat,
    found: Seq<(Seq<char>, ValueView)>,
)
    requires
        0 <= pos,
    ensures
        entries_at(b, pos, count, found) matches Ok((entries, end)) ==> end >= pos,
    decreases count,
{
    if count > 0 {
        if let Ok((key, p)) = string_at(b, pos) {
            texts_are_led_by_their_length(b, pos, key, p);
            lemma_value_is_behind(b, p);
            if let Ok((value, q)) = value_at(b, p) {
                lemma_entries_lie_behind(b, q, (count - 1) as nat, found.push((key, value)));
            }
        }
    }
}

// ---------------------------------------------------------------------
// Data
// ---------------------------------------------------------------------

/// A tensor is read from where its data start, counted from the start of all data, as many bytes as
/// its elements take or as are asked for.
pub proof fn tensors_are_read_from_their_place(f: FileView, name: Seq<char>, k: int, most: nat)
    requires
        0 <= k < f.tensors.len(),
        f.tensors[k].name == name,
        forall|j: int| 0 <= j < k ==> (#[trigger] f.tensors[j]).name != name,
        tensor_byte_len(f.tensors[k]) is Ok,
        f.tensor_data_start + f.tensors[k].relative_offset <= u64::MAX,
    ensures
        tensor_read_of(f, name, most) is Ok,
        tensor_read_of(f, name, most)->Ok_0.offset == f.tensor_data_start
            + f.tensors[k].relative_offset,
        tensor_byte_len(f.tensors[k])->Ok_0 <= most ==> tensor_read_of(f, name, most)->Ok_0.len
            == tensor_byte_len(f.tensors[k])->Ok_0,
        tensor_byte_len(f.tensors[k])->Ok_0 > most ==> tensor_read_of(f, name, most)->Ok_0.len
            == most,
{
    crate::gguf::tensor_named_is_first(f.tensors, name, 0);
}

/// Element `i` of a half-precision tensor is the number of its two bytes, widened.
pub proof fn elements_are_widened_in_order(
    f: FileView,
    file: Seq<u8>,
    name: Seq<char>,
    i: int,
)
    requires
        f16_parts(f, file, name) is Ok,
        0 <= i < f16_parts(f, file, name)->Ok_0.1.len() / 2,
    ensures
        crate::slow_weights::wide_of(f, file, name) is Ok,
        ({
            let bytes = f16_parts(f, file, name)->Ok_0.1;
            let wide = crate::slow_weights::wide_of(f, file, name)->Ok_0;
            &&& wide.name == name
            &&& wide.dimensions == f16_parts(f, file, name)->Ok_0.0
            &&& wide.values.len() == bytes.len() / 2
            &&& wide.values[i] == widened(two_at(bytes, 2 * i) as u16) as u32
        }),
{
    let bytes = f16_parts(f, file, name)->Ok_0.1;
    let s = bytes.subrange(2 * i, 2 * i + 2);
    assert(s[0] == bytes[2 * i] && s[1] == bytes[2 * i + 1]);
    assert(le16(s) == two_at(bytes, 2 * i));
}

/// Whether values are those of row `o` of a half-precision table, two bytes each.
pub open spec fn are_halves_of_row<T: Copy, F: Fn(Op, T, T, T) -> T>(
    weight: Seq<u8>,
    o: int,
    width: int,
    calc: Calc<T, F>,
    line: Seq<T>,
) -> bool {
    &&& line.len() == width
    &&& forall|i: int|
        0 <= i < width ==> calc.gives(
            Op::Half(two_at(weight, 2 * (o * width + i)) as u16),
            calc.zero,
            calc.zero,
            calc.zero,
            #[trigger] line[i],
        )
}

/// The product with row `o` of a half-precision table meets the values of that row.
pub proof fn half_products_meet_their_row<T: Copy, F: Fn(Op, T, T, T) -> T>(
    input: Seq<T>,
    weight: Seq<u8>,
    o: int,
    calc: Calc<T, F>,
    r: T,
)
    requires
        is_half_product(input, weight, o, calc, r),
        0 <= o,
        2 * (o * input.len() + input.len()) <= weight.len(),
    ensures
        exists|line: Seq<T>|
            #[trigger] are_halves_of_row(weight, o, input.len() as int, calc, line) && adds_up(
                calc.zero,
                input,
                line,
                calc,
                r,
            ),
{
    let width = input.len() as int;
    let line = choose|line: Seq<T>|
        #[trigger] is_half_row(line, weight, o, width, calc) && gathered(
            pairs(input, line),
            calc.zero,
            calc,
            r,
        );
    sums_add_products(pairs(input, line), calc.zero, calc, input, line, r);
    assert(0 <= o * width) by (nonlinear_arith)
        requires
            0 <= o,
            0 <= width,
    ;
    assert forall|i: int| 0 <= i < width implies calc.gives(
        Op::Half(two_at(weight, 2 * (o * width + i)) as u16),
        calc.zero,
        calc.zero,
        calc.zero,
        #[trigger] line[i],
    ) by {
        let at = o * width + i;
        let s = weight.subrange(2 * at, 2 * at + 2);
        assert(s[0] == weight[2 * at] && s[1] == weight[2 * at + 1]);
    }
    assert(are_halves_of_row(weight, o, width, calc, line));
}

/// Elements that are stored one by one take as many bytes as their type says; half-precision numbers
/// take two, single-precision ones four.
pub proof fn plain_elements_take_their_bytes(n: nat)
    ensures
        storage_bytes(GgmlType::F16, n) == 2 * n,
        storage_bytes(GgmlType::BF16, n) == 2 * n,
        storage_bytes(GgmlType::F32, n) == 4 * n,
        storage_bytes(GgmlType::F64, n) == 8 * n,
        storage_bytes(GgmlType::I8, n) == n,
        type_code(GgmlType::F32) == 0,
        type_code(GgmlType::F16) == 1,
        block_layout(GgmlType::Q8_0) == (32nat, 34nat),
        type_code(GgmlType::Q8_0) == 8,
{
    crate::gguf::plain_types_take_fixed_bytes(GgmlType::F16, n);
    crate::gguf::plain_types_take_fixed_bytes(GgmlType::BF16, n);
    crate::gguf::plain_types_take_fixed_bytes(GgmlType::F32, n);
    crate::gguf::plain_types_take_fixed_bytes(GgmlType::F64, n);
    crate::gguf::plain_types_take_fixed_bytes(GgmlType::I8, n);
    assert(n * 1 == n);
}

} // verus!
