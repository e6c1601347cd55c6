//! What the beginning of a GGUF file says of the whole.
use crate::error::{end_of_file, ErrorView};
use crate::gguf::{aligned, first_place_error, TensorView};
use crate::gguf_read::{
    array_at, byte_at, dimensions_at, directory_of, entries_at, has_magic, string_at,
    tensor_info_at, tensors_at, typed_value_at, u16_at, u32_at, u64_at, value_at, value_end, values_end,
    DirectoryView, ValueView,
};
use vstd::prelude::*;

verus! {

/// Whether a read from the beginning of a file is the read from the whole, or ran out of bytes.
pub open spec fn same_or_short<V>(
    beginning: Result<V, ErrorView>,
    whole: Result<V, ErrorView>,
) -> bool {
    beginning == whole || beginning == Err::<V, ErrorView>(end_of_file())
}

proof fn lemma_numbers(a: Seq<u8>, b: Seq<u8>, pos: int)
    requires
        a.is_prefix_of(b),
        0 <= pos,
    ensures
        same_or_short(byte_at(a, pos), byte_at(b, pos)),
        same_or_short(u16_at(a, pos), u16_at(b, pos)),
        same_or_short(u32_at(a, pos), u32_at(b, pos)),
        same_or_short(u64_at(a, pos), u64_at(b, pos)),
{
    assert forall|n: int| 0 <= n && pos + n <= a.len() implies #[trigger] a.subrange(pos, pos + n)
        == b.subrange(pos, pos + n) by {
        assert(a.subrange(pos, pos + n) =~= b.subrange(pos, pos + n));
    }
    if pos + 2 <= a.len() {
        assert(a.subrange(pos, pos + 2) == b.subrange(pos, pos + 2));
    }
    if pos + 4 <= a.len() {
        assert(a.subrange(pos, pos + 4) == b.subrange(pos, pos + 4));
    }
    if pos + 8 <= a.len() {
        assert(a.subrange(pos, pos + 8) == b.subrange(pos, pos + 8));
    }
}

proof fn lemma_string(a: Seq<u8>, b: Seq<u8>, pos: int)
    requires
        a.is_prefix_of(b),
        0 <= pos,
    ensures
        same_or_short(string_at(a, pos), string_at(b, pos)),
        string_at(a, pos) matches Ok((_, p)) ==> pos < p <= a.len(),
{
    lemma_numbers(a, b, pos);
    if let Ok((len, p)) = u64_at(a, pos) {
        if p + len <= a.len() {
            assert(a.subrange(p, p + len) =~= b.subrange(p, p + len));
        }
    }
}

proof fn lemma_value_end(a: Seq<u8>, b: Seq<u8>, pos: int, value_type: u32)
    requires
        a.is_prefix_of(b),
        0 <= pos,
    ensures
        same_or_short(value_end(a, pos, value_type), value_end(b, pos, value_type)),
    decreases a.len() - pos, 0nat,
{
    lemma_numbers(a, b, pos);
    lemma_string(a, b, pos);
    if value_type == 9 {
        if let Ok((elem_type, p)) = u32_at(a, pos) {
            lemma_numbers(a, b, p);
            if let Ok((len, q)) = u64_at(a, p) {
                lemma_values_end(a, b, q, elem_type, len as nat);
            }
        }
    }
}

proof fn lemma_values_end(a: Seq<u8>, b: Seq<u8>, pos: int, value_type: u32, count: nat)
    requires
        a.is_prefix_of(b),
        0 <= pos,
    ensures
        same_or_short(values_end(a, pos, value_type, count), values_end(b, pos, value_type, count)),
        values_end(a, pos, value_type, count) matches Ok(p) ==> pos <= p,
    decreases a.len() - pos, count + 1,
{
    if count > 0 {
        lemma_value_end(a, b, pos, value_type);
        if let Ok(p) = value_end(a, pos, value_type) {
            if pos <= p <= a.len() {
                lemma_values_end(a, b, p, value_type, (count - 1) as nat);
            }
        }
    }
}

proof fn lemma_array(a: Seq<u8>, b: Seq<u8>, pos: int)
    requires
        a.is_prefix_of(b),
        0 <= pos,
    ensures
        same_or_short(array_at(a, pos), array_at(b, pos)),
        array_at(a, pos) matches Ok((_, p)) ==> pos <= p,
{
    lemma_numbers(a, b, pos);
    if let Ok((elem_type, p)) = u32_at(a, pos) {
        lemma_numbers(a, b, p);
        if let Ok((len, q)) = u64_at(a, p) {
            lemma_values_end(a, b, q, elem_type, len as nat);
        }
    }
}

proof fn lemma_typed_value(a: Seq<u8>, b: Seq<u8>, pos: int, value_type: u32)
    requires
        a.is_prefix_of(b),
        0 <= pos,
    ensures
        same_or_short(typed_value_at(a, pos, value_type), typed_value_at(b, pos, value_type)),
        typed_value_at(a, pos, value_type) matches Ok((_, p)) ==> pos <= p,
{
    if value_type == 8 {
        lemma_string(a, b, pos);
    } else if value_type == 9 {
        lemma_array(a, b, pos);
    } else {
        lemma_numbers(a, b, pos);
    }
}

proof fn lemma_value(a: Seq<u8>, b: Seq<u8>, pos: int)
    requires
        a.is_prefix_of(b),
        0 <= pos,
    ensures
        same_or_short(value_at(a, pos), value_at(b, pos)),
        value_at(a, pos) matches Ok((_, p)) ==> pos <= p,
{
    lemma_numbers(a, b, pos);
    if let Ok((value_type, p)) = u32_at(a, pos) {
        lemma_typed_value(a, b, p, value_type);
    }
}

proof fn lemma_entries(
    a: Seq<u8>,
    b: Seq<u8>,
    pos: int,
    count: nat,
    found: Seq<(Seq<char>, ValueView)>,
)
    requires
        a.is_prefix_of(b),
        0 <= pos,
    ensures
        same_or_short(entries_at(a, pos, count, found), entries_at(b, pos, count, found)),
        entries_at(a, pos, count, found) matches Ok((_, p)) ==> pos <= p,
    decreases count,
{
    if count > 0 {
        lemma_string(a, b, pos);
        if let Ok((key, p)) = string_at(a, pos) {
            lemma_value(a, b, p);
            if let Ok((value, q)) = value_at(a, p) {
                lemma_entries(a, b, q, (count - 1) as nat, found.push((key, value)));
            }
        }
    }
}

proof fn lemma_dimensions(a: Seq<u8>, b: Seq<u8>, pos: int, count: nat, found: Seq<u64>)
    requires
        a.is_prefix_of(b),
        0 <= pos,
    ensures
        same_or_short(dimensions_at(a, pos, count, found), dimensions_at(b, pos, count, found)),
        dimensions_at(a, pos, count, found) matches Ok((_, p)) ==> pos <= p,
    decreases count,
{
    if count > 0 {
        lemma_numbers(a, b, pos);
        if let Ok((d, p)) = u64_at(a, pos) {
            lemma_dimensions(a, b, p, (count - 1) as nat, found.push(d));
        }
    }
}

proof fn lemma_tensor_info(a: Seq<u8>, b: Seq<u8>, pos: int)
    requires
        a.is_prefix_of(b),
        0 <= pos,
    ensures
        same_or_short(tensor_info_at(a, pos), tensor_info_at(b, pos)),
        tensor_info_at(a, pos) matches Ok((_, p)) ==> pos <= p,
{
    lemma_string(a, b, pos);
    if let Ok((_, p)) = string_at(a, pos) {
        lemma_numbers(a, b, p);
        if let Ok((count, q)) = u32_at(a, p) {
            lemma_dimensions(a, b, q, count as nat, Seq::empty());
            if let Ok((_, r)) = dimensions_at(a, q, count as nat, Seq::empty()) {
                lemma_numbers(a, b, r);
                if let Ok((_, s)) = u32_at(a, r) {
                    lemma_numbers(a, b, s);
                }
            }
        }
    }
}

proof fn lemma_tensors(a: Seq<u8>, b: Seq<u8>, pos: int, count: nat, found: Seq<TensorView>)
    requires
        a.is_prefix_of(b),
        0 <= pos,
    ensures
        same_or_short(tensors_at(a, pos, count, found), tensors_at(b, pos, count, found)),
    decreases count,
{
    if count > 0 {
        lemma_tensor_info(a, b, pos);
        if let Ok((t, p)) = tensor_info_at(a, pos) {
            lemma_tensors(a, b, p, (count - 1) as nat, found.push(t));
        }
    }
}

/// What follows the letters of the format and the version.
spec fn listed(b: Seq<u8>, pos: int) -> Result<
    (Seq<(Seq<char>, ValueView)>, Seq<TensorView>, int),
    ErrorView,
> {
    match u64_at(b, pos) {
        Err(e) => Err(e),
        Ok((tensor_count, q)) => match u64_at(b, q) {
            Err(e) => Err(e),
            Ok((entry_count, r)) => match entries_at(b, r, entry_count as nat, Seq::empty()) {
                Err(e) => Err(e),
                Ok((metadata, s)) => match tensors_at(b, s, tensor_count as nat, Seq::empty()) {
                    Err(e) => Err(e),
                    Ok((tensors, t)) => Ok((metadata, tensors, t)),
                },
            },
        },
    }
}

proof fn lemma_listed(a: Seq<u8>, b: Seq<u8>, pos: int)
    requires
        a.is_prefix_of(b),
        0 <= pos,
    ensures
        same_or_short(listed(a, pos), listed(b, pos)),
{
    lemma_numbers(a, b, pos);
    if let Ok((tensor_count, q)) = u64_at(a, pos) {
        lemma_numbers(a, b, q);
        if let Ok((entry_count, r)) = u64_at(a, q) {
            lemma_entries(a, b, r, entry_count as nat, Seq::empty());
            if let Ok((_, s)) = entries_at(a, r, entry_count as nat, Seq::empty()) {
                lemma_tensors(a, b, s, tensor_count as nat, Seq::empty());
            }
        }
    }
}

spec fn after_version(path: Seq<char>, b: Seq<u8>, file_size: u64) -> Result<
    DirectoryView,
    ErrorView,
> {
    match u32_at(b, 4) {
        Err(e) => Err(e),
        Ok((version, p)) => match listed(b, p) {
            Err(e) => Err(e),
            Ok((metadata, tensors, t)) => {
                let tensor_data_start = aligned(t as nat) as u64;
                match first_place_error(tensors, 0, tensor_data_start, file_size) {
                    Some(e) => Err(e),
                    None => Ok(DirectoryView { version, metadata, tensors, tensor_data_start }),
                }
            },
        },
    }
}

proof fn lemma_directory(path: Seq<char>, b: Seq<u8>, file_size: u64)
    ensures
        has_magic(b) ==> directory_of(path, b, file_size) == after_version(path, b, file_size),
{
}

/// Reading the directory of a file from some of its leading bytes comes to what reading it from
/// the whole file comes to, unless those bytes end before the directory does.
pub proof fn leading_bytes_tell_the_directory(
    path: Seq<char>,
    beginning: Seq<u8>,
    whole: Seq<u8>,
    file_size: u64,
)
    requires
        beginning.is_prefix_of(whole),
    ensures
        directory_of(path, beginning, file_size) == directory_of(path, whole, file_size)
            || directory_of(path, beginning, file_size) == Err::<DirectoryView, ErrorView>(
            end_of_file(),
        ),
{
    lemma_directory(path, beginning, file_size);
    lemma_directory(path, whole, file_size);
    lemma_numbers(beginning, whole, 4);
    if beginning.len() >= 4 {
        assert(has_magic(beginning) == has_magic(whole));
    }
    if let Ok((_, p)) = u32_at(beginning, 4) {
        lemma_listed(beginning, whole, p);
    }
}

} // verus!
