//! The GGUF model file: tensor types, the tensor directory and where tensors lie.
use crate::error::{core_outcome, end_of_file, message, CoreError, ErrorView};
use crate::gguf_read::{
    directory_of, entry_views, DirectoryView, GgufDirectory, MetadataValue, ValueView,
};
use crate::text::{dec, dec_u64, str_eq};
use vstd::prelude::*;
use vstd::slice::{slice_subrange, slice_to_vec};
use vstd::string::*;

verus! {

/// Tensor data starts at a multiple of this many bytes.
pub const GGUF_ALIGNMENT: u64 = 32;

/// Storage types of tensor elements.
#[derive(Debug, Clone, Copy, PartialEq, Eq, Structural)]
pub enum GgmlType {
    F32,
    F16,
    Q4_0,
    Q4_1,
    Q5_0,
    Q5_1,
    Q8_0,
    Q8_1,
    Q2K,
    Q3K,
    Q4K,
    Q5K,
    Q6K,
    Q8K,
    I8,
    I16,
    I32,
    I64,
    F64,
    IQ1S,
    IQ1M,
    BF16,
}

/// The number by which a file names a storage type.
pub open spec fn type_code(t: GgmlType) -> u32 {
    match t {
        GgmlType::F32 => 0,
        GgmlType::F16 => 1,
        GgmlType::Q4_0 => 2,
        GgmlType::Q4_1 => 3,
        GgmlType::Q5_0 => 6,
        GgmlType::Q5_1 => 7,
        GgmlType::Q8_0 => 8,
        GgmlType::Q8_1 => 9,
        GgmlType::Q2K => 10,
        GgmlType::Q3K => 11,
        GgmlType::Q4K => 12,
        GgmlType::Q5K => 13,
        GgmlType::Q6K => 14,
        GgmlType::Q8K => 15,
        GgmlType::I8 => 16,
        GgmlType::I16 => 17,
        GgmlType::I32 => 18,
        GgmlType::I64 => 19,
        GgmlType::F64 => 20,
        GgmlType::IQ1S => 21,
        GgmlType::IQ1M => 22,
        GgmlType::BF16 => 30,
    }
}

/// The storage type that a number names.
pub open spec fn type_of_code(code: u32) -> Result<GgmlType, ErrorView> {
    if exists|t: GgmlType| type_code(t) == code {
        Ok(choose|t: GgmlType| type_code(t) == code)
    } else {
        Err(message("unknown GGML tensor type: "@ + dec(code as nat)))
    }
}

/// No two storage types have the same number.
pub proof fn type_codes_are_distinct(a: GgmlType, b: GgmlType)
    requires
        type_code(a) == type_code(b),
    ensures
        a == b,
{
}

/// The name of a storage type.
pub open spec fn ggml_name(t: GgmlType) -> Seq<char> {
    match t {
        GgmlType::F32 => "F32"@,
        GgmlType::F16 => "F16"@,
        GgmlType::Q4_0 => "Q4_0"@,
        GgmlType::Q4_1 => "Q4_1"@,
        GgmlType::Q5_0 => "Q5_0"@,
        GgmlType::Q5_1 => "Q5_1"@,
        GgmlType::Q8_0 => "Q8_0"@,
        GgmlType::Q8_1 => "Q8_1"@,
        GgmlType::Q2K => "Q2K"@,
        GgmlType::Q3K => "Q3K"@,
        GgmlType::Q4K => "Q4K"@,
        GgmlType::Q5K => "Q5K"@,
        GgmlType::Q6K => "Q6K"@,
        GgmlType::Q8K => "Q8K"@,
        GgmlType::I8 => "I8"@,
        GgmlType::I16 => "I16"@,
        GgmlType::I32 => "I32"@,
        GgmlType::I64 => "I64"@,
        GgmlType::F64 => "F64"@,
        GgmlType::IQ1S => "IQ1S"@,
        GgmlType::IQ1M => "IQ1M"@,
        GgmlType::BF16 => "BF16"@,
    }
}

/// How many elements one storage block holds, and how many bytes it takes.
pub open spec fn block_layout(t: GgmlType) -> (nat, nat) {
    match t {
        GgmlType::F32 | GgmlType::I32 => (1, 4),
        GgmlType::F16 | GgmlType::I16 | GgmlType::BF16 => (1, 2),
        GgmlType::I8 => (1, 1),
        GgmlType::I64 | GgmlType::F64 => (1, 8),
        GgmlType::Q4_0 => (32, 18),
        GgmlType::Q4_1 => (32, 20),
        GgmlType::Q5_0 => (32, 22),
        GgmlType::Q5_1 => (32, 24),
        GgmlType::Q8_0 => (32, 34),
        GgmlType::Q8_1 => (32, 40),
        GgmlType::Q2K => (256, 84),
        GgmlType::Q3K => (256, 110),
        GgmlType::Q4K => (256, 144),
        GgmlType::Q5K => (256, 176),
        GgmlType::Q6K => (256, 210),
        GgmlType::Q8K => (256, 292),
        GgmlType::IQ1S => (256, 44),
        GgmlType::IQ1M => (256, 56),
    }
}

/// How many blocks of `block` elements hold `n` elements.
pub open spec fn blocks_for(n: nat, block: nat) -> nat {
    ((n + block - 1) / block as int) as nat
}

/// How many bytes `n` elements take when stored in blocks.
pub open spec fn storage_bytes(t: GgmlType, n: nat) -> nat {
    blocks_for(n, block_layout(t).0) * block_layout(t).1
}

/// The byte length of `n` elements, where it can be computed and addressed.
pub open spec fn type_byte_len(t: GgmlType, n: u64) -> Result<usize, ErrorView> {
    if n + block_layout(t).0 - 1 > u64::MAX || storage_bytes(t, n as nat) > u64::MAX {
        Err(message("tensor byte length overflow"@))
    } else if storage_bytes(t, n as nat) > usize::MAX {
        Err(message("tensor byte length does not fit usize"@))
    } else {
        Ok(storage_bytes(t, n as nat) as usize)
    }
}

/// Blocks are the fewest that hold all elements.
pub proof fn blocks_hold_all_elements(n: nat, block: nat)
    requires
        block > 0,
    ensures
        n <= blocks_for(n, block) * block < n + block,
{
    let x: int = n + block - 1;
    let q: int = x / (block as int);
    vstd::arithmetic::div_mod::lemma_fundamental_div_mod(x, block as int);
    vstd::arithmetic::div_mod::lemma_mod_bound(x, block as int);
    assert(q >= 0) by {
        vstd::arithmetic::div_mod::lemma_div_pos_is_pos(x, block as int);
    }
    assert(block as int * q == q * block as int) by (nonlinear_arith);
}

/// Whole-element types take a fixed number of bytes per element.
pub proof fn plain_types_take_fixed_bytes(t: GgmlType, n: nat)
    requires
        block_layout(t).0 == 1,
    ensures
        storage_bytes(t, n) == n * block_layout(t).1,
{
}

fn block_bytes(element_count: u64, block_size: u64, bytes_per_block: u64) -> (r: Option<u64>)
    requires
        block_size > 0,
    ensures
        r == (if element_count + block_size - 1 > u64::MAX || blocks_for(
            element_count as nat,
            block_size as nat,
        ) * bytes_per_block > u64::MAX {
            None::<u64>
        } else {
            Some(
                (blocks_for(element_count as nat, block_size as nat) * bytes_per_block) as u64,
            )
        }),
{
    match element_count.checked_add(block_size - 1) {
        None => None,
        Some(sum) => {
            let blocks: u64 = sum / block_size;
            blocks.checked_mul(bytes_per_block)
        },
    }
}

impl GgmlType {
    /// The storage type that a number in a file names.
    pub fn from_u32(value: u32) -> (r: Result<GgmlType, CoreError>)
        ensures
            core_outcome(r, type_of_code(value)),
    {
        let t = match value {
            0 => GgmlType::F32,
            1 => GgmlType::F16,
            2 => GgmlType::Q4_0,
            3 => GgmlType::Q4_1,
            6 => GgmlType::Q5_0,
            7 => GgmlType::Q5_1,
            8 => GgmlType::Q8_0,
            9 => GgmlType::Q8_1,
            10 => GgmlType::Q2K,
            11 => GgmlType::Q3K,
            12 => GgmlType::Q4K,
            13 => GgmlType::Q5K,
            14 => GgmlType::Q6K,
            15 => GgmlType::Q8K,
            16 => GgmlType::I8,
            17 => GgmlType::I16,
            18 => GgmlType::I32,
            19 => GgmlType::I64,
            20 => GgmlType::F64,
            21 => GgmlType::IQ1S,
            22 => GgmlType::IQ1M,
            30 => GgmlType::BF16,
            other => {
                let digits = dec_u64(other as u64);
                let text = String::from_str("unknown GGML tensor type: ").concat(digits.as_str());
                assert(forall|t: GgmlType| type_code(t) != value);
                return Err(CoreError::Message(text));
            },
        };
        proof {
            assert(type_code(t) == value);
            let u = choose|u: GgmlType| type_code(u) == value;
            type_codes_are_distinct(t, u);
        }
        Ok(t)
    }

    /// The number by which a file names the type.
    pub fn to_u32(self) -> (r: u32)
        ensures
            r == type_code(self),
    {
        match self {
            GgmlType::F32 => 0,
            GgmlType::F16 => 1,
            GgmlType::Q4_0 => 2,
            GgmlType::Q4_1 => 3,
            GgmlType::Q5_0 => 6,
            GgmlType::Q5_1 => 7,
            GgmlType::Q8_0 => 8,
            GgmlType::Q8_1 => 9,
            GgmlType::Q2K => 10,
            GgmlType::Q3K => 11,
            GgmlType::Q4K => 12,
            GgmlType::Q5K => 13,
            GgmlType::Q6K => 14,
            GgmlType::Q8K => 15,
            GgmlType::I8 => 16,
            GgmlType::I16 => 17,
            GgmlType::I32 => 18,
            GgmlType::I64 => 19,
            GgmlType::F64 => 20,
            GgmlType::IQ1S => 21,
            GgmlType::IQ1M => 22,
            GgmlType::BF16 => 30,
        }
    }

    /// The name of the type.
    pub fn name(self) -> (r: &'static str)
        ensures
            r@ == ggml_name(self),
    {
        match self {
            GgmlType::F32 => "F32",
            GgmlType::F16 => "F16",
            GgmlType::Q4_0 => "Q4_0",
            GgmlType::Q4_1 => "Q4_1",
            GgmlType::Q5_0 => "Q5_0",
            GgmlType::Q5_1 => "Q5_1",
            GgmlType::Q8_0 => "Q8_0",
            GgmlType::Q8_1 => "Q8_1",
            GgmlType::Q2K => "Q2K",
            GgmlType::Q3K => "Q3K",
            GgmlType::Q4K => "Q4K",
            GgmlType::Q5K => "Q5K",
            GgmlType::Q6K => "Q6K",
            GgmlType::Q8K => "Q8K",
            GgmlType::I8 => "I8",
            GgmlType::I16 => "I16",
            GgmlType::I32 => "I32",
            GgmlType::I64 => "I64",
            GgmlType::F64 => "F64",
            GgmlType::IQ1S => "IQ1S",
            GgmlType::IQ1M => "IQ1M",
            GgmlType::BF16 => "BF16",
        }
    }

    /// How many bytes `element_count` elements of the type take.
    pub fn byte_len(self, element_count: u64) -> (r: Result<usize, CoreError>)
        ensures
            core_outcome(r, type_byte_len(self, element_count)),
    {
        let (block_size, bytes_per_block): (u64, u64) = match self {
            GgmlType::F32 | GgmlType::I32 => (1, 4),
            GgmlType::F16 | GgmlType::I16 | GgmlType::BF16 => (1, 2),
            GgmlType::I8 => (1, 1),
            GgmlType::I64 | GgmlType::F64 => (1, 8),
            GgmlType::Q4_0 => (32, 18),
            GgmlType::Q4_1 => (32, 20),
            GgmlType::Q5_0 => (32, 22),
            GgmlType::Q5_1 => (32, 24),
            GgmlType::Q8_0 => (32, 34),
            GgmlType::Q8_1 => (32, 40),
            GgmlType::Q2K => (256, 84),
            GgmlType::Q3K => (256, 110),
            GgmlType::Q4K => (256, 144),
            GgmlType::Q5K => (256, 176),
            GgmlType::Q6K => (256, 210),
            GgmlType::Q8K => (256, 292),
            GgmlType::IQ1S => (256, 44),
            GgmlType::IQ1M => (256, 56),
        };
        let bytes: Option<u64> = block_bytes(element_count, block_size, bytes_per_block);
        match bytes {
            None => Err(CoreError::text("tensor byte length overflow")),
            Some(b) => {
                if b > usize::MAX as u64 {
                    Err(CoreError::text("tensor byte length does not fit usize"))
                } else {
                    Ok(b as usize)
                }
            },
        }
    }
}

// ---------------------------------------------------------------------
// Tensors and their place in the file
// ---------------------------------------------------------------------

/// One entry of the tensor directory.
#[derive(Debug)]
pub struct GgufTensorInfo {
    pub name: String,
    pub dimensions: Vec<u64>,
    pub ggml_type: GgmlType,
    pub relative_offset: u64,
}

/// A directory entry as a mathematical value.
pub ghost struct TensorView {
    pub name: Seq<char>,
    pub dimensions: Seq<u64>,
    pub ggml_type: GgmlType,
    pub relative_offset: u64,
}

impl View for GgufTensorInfo {
    type V = TensorView;

    open spec fn view(&self) -> TensorView {
        TensorView {
            name: self.name@,
            dimensions: self.dimensions@,
            ggml_type: self.ggml_type,
            relative_offset: self.relative_offset,
        }
    }
}

/// The product of the dimensions; one for no dimension.
pub open spec fn product(dims: Seq<u64>) -> nat
    decreases dims.len(),
{
    if dims.len() == 0 {
        1
    } else {
        product(dims.drop_last()) * (dims.last() as nat)
    }
}

/// Whether the product over some leading dimensions exceeds 64 bits.
pub open spec fn product_overflows(dims: Seq<u64>) -> bool {
    exists|k: int| 0 <= k <= dims.len() && #[trigger] product(dims.take(k)) > u64::MAX
}

/// How many elements a tensor has.
pub open spec fn element_count_of(t: TensorView) -> Result<u64, ErrorView> {
    if product_overflows(t.dimensions) {
        Err(message("tensor element count overflow: "@ + t.name))
    } else {
        Ok(product(t.dimensions) as u64)
    }
}

/// How many bytes a tensor takes.
pub open spec fn tensor_byte_len(t: TensorView) -> Result<usize, ErrorView> {
    match element_count_of(t) {
        Err(e) => Err(e),
        Ok(n) => type_byte_len(t.ggml_type, n),
    }
}

impl GgufTensorInfo {
    /// A second entry with the same contents.
    pub fn duplicate(&self) -> (r: GgufTensorInfo)
        ensures
            r@ == self@,
    {
        GgufTensorInfo {
            name: self.name.clone(),
            dimensions: copy_dimensions(&self.dimensions),
            ggml_type: self.ggml_type,
            relative_offset: self.relative_offset,
        }
    }

    /// How many elements the tensor has.
    pub fn element_count(&self) -> (r: Result<u64, CoreError>)
        ensures
            core_outcome(r, element_count_of(self@)),
    {
        let ghost dims = self.dimensions@;
        let mut acc: u64 = 1;
        let mut i: usize = 0;
        assert(dims.take(0) =~= Seq::<u64>::empty());
        while i < self.dimensions.len()
            invariant
                i <= self.dimensions.len(),
                dims == self.dimensions@,
                acc as nat == product(dims.take(i as int)),
                forall|k: int| 0 <= k <= i ==> #[trigger] product(dims.take(k)) <= u64::MAX,
            decreases self.dimensions.len() - i,
        {
            proof {
                let next = dims.take(i as int + 1);
                assert(next.drop_last() =~= dims.take(i as int));
                assert(next.last() == dims[i as int]);
                assert(product(next) == product(dims.take(i as int)) * (dims[i as int] as nat));
            }
            match acc.checked_mul(self.dimensions[i]) {
                None => {
                    assert(product(dims.take(i as int + 1)) > u64::MAX);
                    let text = String::from_str("tensor element count overflow: ").concat(
                        self.name.as_str(),
                    );
                    return Err(CoreError::Message(text));
                },
                Some(v) => {
                    acc = v;
                },
            }
            i = i + 1;
        }
        assert(dims.take(i as int) =~= dims);
        Ok(acc)
    }

    /// How many bytes the tensor takes.
    pub fn byte_len(&self) -> (r: Result<usize, CoreError>)
        ensures
            core_outcome(r, tensor_byte_len(self@)),
    {
        match self.element_count() {
            Err(e) => Err(e),
            Ok(n) => self.ggml_type.byte_len(n),
        }
    }

    /// Where in the file the tensor starts.
    pub fn absolute_offset(&self, tensor_data_start: u64) -> (r: u64)
        requires
            tensor_data_start + self.relative_offset <= u64::MAX,
        ensures
            r == tensor_data_start + self.relative_offset,
    {
        tensor_data_start + self.relative_offset
    }
}

/// A copy of directory entries.
pub fn copy_tensors(tensors: &Vec<GgufTensorInfo>) -> (r: Vec<GgufTensorInfo>)
    ensures
        tensor_views(r@) == tensor_views(tensors@),
{
    let mut out: Vec<GgufTensorInfo> = Vec::new();
    let mut i: usize = 0;
    while i < tensors.len()
        invariant
            i <= tensors@.len(),
            tensor_views(out@) == tensor_views(tensors@).take(i as int),
        decreases tensors@.len() - i,
    {
        let ghost before = out@;
        out.push(tensors[i].duplicate());
        assert(tensor_views(out@) =~= tensor_views(before).push(tensors@[i as int]@));
        assert(tensor_views(tensors@).take(i as int + 1) =~= tensor_views(tensors@).take(
            i as int,
        ).push(tensors@[i as int]@));
        i = i + 1;
    }
    assert(tensor_views(tensors@).take(i as int) =~= tensor_views(tensors@));
    out
}

/// The directory entries as mathematical values.
pub open spec fn tensor_views(tensors: Seq<GgufTensorInfo>) -> Seq<TensorView> {
    tensors.map_values(|t: GgufTensorInfo| t@)
}

/// What is wrong with where a tensor lies in a file, if anything.
pub open spec fn tensor_place_error(t: TensorView, start: u64, file_size: u64) -> Option<
    ErrorView,
> {
    match tensor_byte_len(t) {
        Err(e) => Some(e),
        Ok(len) => {
            let end = start + t.relative_offset + len;
            if end > u64::MAX {
                Some(message("tensor offset overflow: "@ + t.name))
            } else if end > file_size {
                Some(
                    message(
                        "tensor "@ + t.name + " extends past file end: "@ + dec(end as nat)
                            + " > "@ + dec(file_size as nat),
                    ),
                )
            } else {
                None
            }
        },
    }
}

/// The first thing wrong with where tensors lie, from the `i`-th tensor on.
pub open spec fn first_place_error(
    tensors: Seq<TensorView>,
    i: int,
    start: u64,
    file_size: u64,
) -> Option<ErrorView>
    decreases tensors.len() - i,
{
    if i < 0 || i >= tensors.len() {
        None
    } else if tensor_place_error(tensors[i], start, file_size) is Some {
        tensor_place_error(tensors[i], start, file_size)
    } else {
        first_place_error(tensors, i + 1, start, file_size)
    }
}

/// Checks that every tensor lies inside the file.
pub fn validate_tensor_bounds(
    tensors: &[GgufTensorInfo],
    tensor_data_start: u64,
    file_size_bytes: u64,
) -> (r: Result<(), CoreError>)
    ensures
        match r {
            Ok(_) => first_place_error(
                tensor_views(tensors@),
                0,
                tensor_data_start,
                file_size_bytes,
            ) is None,
            Err(e) => first_place_error(
                tensor_views(tensors@),
                0,
                tensor_data_start,
                file_size_bytes,
            ) == Some(e@),
        },
{
    let ghost views = tensor_views(tensors@);
    let mut i: usize = 0;
    while i < tensors.len()
        invariant
            i <= tensors.len(),
            views == tensor_views(tensors@),
            first_place_error(views, 0, tensor_data_start, file_size_bytes) == first_place_error(
                views,
                i as int,
                tensor_data_start,
                file_size_bytes,
            ),
        decreases tensors.len() - i,
    {
        let tensor = &tensors[i];
        assert(views[i as int] == tensor@);
        let byte_len: u64 = match tensor.byte_len() {
            Err(e) => {
                return Err(e);
            },
            Ok(n) => n as u64,
        };
        let end: Option<u64> = match tensor_data_start.checked_add(tensor.relative_offset) {
            None => None,
            Some(start) => start.checked_add(byte_len),
        };
        match end {
            None => {
                let text = String::from_str("tensor offset overflow: ").concat(
                    tensor.name.as_str(),
                );
                return Err(CoreError::Message(text));
            },
            Some(end) => {
                if end > file_size_bytes {
                    let a = dec_u64(end);
                    let b = dec_u64(file_size_bytes);
                    let text = String::from_str("tensor ").concat(tensor.name.as_str()).concat(
                        " extends past file end: ",
                    ).concat(a.as_str()).concat(" > ").concat(b.as_str());
                    return Err(CoreError::Message(text));
                }
            },
        }
        i = i + 1;
    }
    Ok(())
}

/// Where every tensor passed the check, each one lies inside the file.
pub proof fn checked_tensors_lie_inside(
    tensors: Seq<TensorView>,
    start: u64,
    file_size: u64,
    i: int,
    k: int,
)
    requires
        0 <= i <= k < tensors.len(),
        first_place_error(tensors, i, start, file_size) is None,
    ensures
        tensor_byte_len(tensors[k]) is Ok,
        start + tensors[k].relative_offset + tensor_byte_len(tensors[k])->Ok_0 <= file_size,
    decreases k - i,
{
    if i < k {
        checked_tensors_lie_inside(tensors, start, file_size, i + 1, k);
    }
}

/// The next multiple of the alignment, or the offset itself where it is one.
pub fn align_to(offset: u64) -> (r: u64)
    requires
        offset + GGUF_ALIGNMENT - 1 <= u64::MAX,
    ensures
        r as nat == aligned(offset as nat),
{
    let past: u64 = offset % 32;
    assert(offset as int == 32 * (offset as int / 32) + past);
    if past == 0 {
        offset
    } else {
        offset + (32 - past)
    }
}

/// The least multiple of the alignment that is not below `offset`.
pub open spec fn aligned(offset: nat) -> nat {
    (((offset + 31) / 32) * 32) as nat
}

/// Aligning gives a multiple of the alignment, the nearest from above, and keeps multiples.
pub proof fn aligned_is_nearest_multiple(offset: nat)
    ensures
        aligned(offset) % 32 == 0,
        offset <= aligned(offset) < offset + 32,
        aligned(aligned(offset)) == aligned(offset),
{
}

// ---------------------------------------------------------------------
// The opened file
// ---------------------------------------------------------------------

/// A model file: what its header says and where its tensors lie.
#[derive(Debug)]
pub struct GgufFile {
    pub path: String,
    pub version: u32,
    pub metadata: Vec<(String, String)>,
    pub tensors: Vec<GgufTensorInfo>,
    pub tensor_data_start: u64,
    pub file_size_bytes: u64,
}

/// A model file as a mathematical value.
pub ghost struct FileView {
    pub path: Seq<char>,
    pub version: u32,
    pub metadata: Seq<(Seq<char>, Seq<char>)>,
    pub tensors: Seq<TensorView>,
    pub tensor_data_start: u64,
    pub file_size_bytes: u64,
}

/// Pairs of texts as sequences of characters.
pub open spec fn text_pairs(v: Seq<(String, String)>) -> Seq<(Seq<char>, Seq<char>)> {
    v.map_values(|e: (String, String)| (e.0@, e.1@))
}

impl View for GgufFile {
    type V = FileView;

    open spec fn view(&self) -> FileView {
        FileView {
            path: self.path@,
            version: self.version,
            metadata: text_pairs(self.metadata@),
            tensors: tensor_views(self.tensors@),
            tensor_data_start: self.tensor_data_start,
            file_size_bytes: self.file_size_bytes,
        }
    }
}

/// Whether every tensor of the file lies inside it.
pub open spec fn tensors_inside(f: FileView) -> bool {
    first_place_error(f.tensors, 0, f.tensor_data_start, f.file_size_bytes) is None
}

/// The text of a metadata value, given the text of a floating-point one.
pub open spec fn shown(v: ValueView, float_text: Seq<char>) -> Seq<char> {
    match v {
        ValueView::Text(t) => t,
        _ => float_text,
    }
}

/// The metadata as text, given for each entry the text it has if it is a floating-point number.
pub open spec fn shown_metadata(
    entries: Seq<(Seq<char>, ValueView)>,
    float_texts: Seq<Seq<char>>,
) -> Seq<(Seq<char>, Seq<char>)> {
    Seq::new(entries.len(), |i: int| (entries[i].0, shown(entries[i].1, float_texts[i])))
}

/// The position of the first tensor from `i` on that has the given name.
pub open spec fn tensor_named(tensors: Seq<TensorView>, name: Seq<char>, i: int) -> Option<int>
    decreases tensors.len() - i,
{
    if i < 0 || i >= tensors.len() {
        None
    } else if tensors[i].name == name {
        Some(i)
    } else {
        tensor_named(tensors, name, i + 1)
    }
}

/// The tensor that is found under a name is one of that name, and no earlier one has it.
pub proof fn tensor_named_is_first(tensors: Seq<TensorView>, name: Seq<char>, i: int)
    requires
        0 <= i,
    ensures
        match tensor_named(tensors, name, i) {
            Some(k) => i <= k < tensors.len() && tensors[k].name == name && forall|j: int|
                i <= j < k ==> (#[trigger] tensors[j]).name != name,
            None => forall|j: int|
                i <= j < tensors.len() ==> (#[trigger] tensors[j]).name != name,
        },
    decreases tensors.len() - i,
{
    if i < tensors.len() && tensors[i].name != name {
        tensor_named_is_first(tensors, name, i + 1);
    }
}

/// Which bytes of a file hold a tensor: where they start and how many they are.
#[derive(Debug, Clone, Copy, PartialEq, Eq, Structural)]
pub struct TensorRead {
    pub offset: u64,
    pub len: usize,
}

/// The bytes to read for up to `max_len` bytes of the tensor with the given name.
pub open spec fn tensor_read_of(f: FileView, name: Seq<char>, max_len: nat) -> Result<
    TensorRead,
    ErrorView,
> {
    match tensor_named(f.tensors, name, 0) {
        None => Err(message("tensor not found: "@ + name)),
        Some(k) => match tensor_byte_len(f.tensors[k]) {
            Err(e) => Err(e),
            Ok(len) => Ok(
                TensorRead {
                    offset: (f.tensor_data_start + f.tensors[k].relative_offset) as u64,
                    len: if len <= max_len {
                        len
                    } else {
                        max_len as usize
                    },
                },
            ),
        },
    }
}

/// The bytes of a file at an offset, or the error of reading past its end.
pub open spec fn bytes_at(file: Seq<u8>, offset: nat, len: nat) -> Result<Seq<u8>, ErrorView> {
    if offset + len > file.len() && len > 0 {
        Err(end_of_file())
    } else if len == 0 {
        Ok(Seq::empty())
    } else {
        Ok(file.subrange(offset as int, (offset + len) as int))
    }
}

/// Whether executable bytes are the mathematical ones.
pub open spec fn bytes_outcome(
    r: Result<Vec<u8>, CoreError>,
    s: Result<Seq<u8>, ErrorView>,
) -> bool {
    match r {
        Ok(v) => s == Ok::<Seq<u8>, ErrorView>(v@),
        Err(e) => s == Err::<Seq<u8>, ErrorView>(e@),
    }
}

fn read_bytes_at(file: &[u8], offset: u64, len: usize) -> (r: Result<Vec<u8>, CoreError>)
    ensures
        bytes_outcome(r, bytes_at(file@, offset as nat, len as nat)),
{
    if len == 0 {
        return Ok(Vec::new());
    }
    if offset > file.len() as u64 || len > file.len() - offset as usize {
        return Err(CoreError::end_of_file());
    }
    let start: usize = offset as usize;
    Ok(slice_to_vec(slice_subrange(file, start, start + len)))
}

/// The bytes that a planned read finds in a file.
pub open spec fn read_outcome_of(file: Seq<u8>, plan: Result<TensorRead, ErrorView>) -> Result<
    Seq<u8>,
    ErrorView,
> {
    match plan {
        Err(e) => Err(e),
        Ok(p) => bytes_at(file, p.offset as nat, p.len as nat),
    }
}

fn copy_dimensions(dims: &Vec<u64>) -> (r: Vec<u64>)
    ensures
        r@ == dims@,
{
    slice_to_vec(dims.as_slice())
}

impl GgufFile {
    /// The file with the given directory. Floating-point metadata is shown with the texts given,
    /// one for each entry.
    pub fn from_directory(
        path: String,
        directory: GgufDirectory,
        float_texts: Vec<String>,
        file_size_bytes: u64,
    ) -> (r: GgufFile)
        requires
            float_texts@.len() == directory.metadata@.len(),
        ensures
            r@ == (FileView {
                path: path@,
                version: directory@.version,
                metadata: shown_metadata(
                    directory@.metadata,
                    crate::text::strings(float_texts@),
                ),
                tensors: directory@.tensors,
                tensor_data_start: directory@.tensor_data_start,
                file_size_bytes,
            }),
    {
        let mut metadata: Vec<(String, String)> = Vec::new();
        let entries = &directory.metadata;
        let ghost views = entry_views(entries@);
        let ghost texts = crate::text::strings(float_texts@);
        let mut i: usize = 0;
        while i < entries.len()
            invariant
                i <= entries@.len(),
                float_texts@.len() == entries@.len(),
                views == entry_views(entries@),
                texts == crate::text::strings(float_texts@),
                text_pairs(metadata@) == shown_metadata(views, texts).take(i as int),
            decreases entries@.len() - i,
        {
            let key = entries[i].0.clone();
            let value = match &entries[i].1 {
                MetadataValue::Text(t) => t.clone(),
                MetadataValue::Single(_) => float_texts[i].clone(),
                MetadataValue::Double(_) => float_texts[i].clone(),
            };
            let ghost before = metadata@;
            let ghost entry = (key@, value@);
            metadata.push((key, value));
            proof {
                assert(views[i as int] == (entries@[i as int].0@, entries@[i as int].1@));
                assert(texts[i as int] == float_texts@[i as int]@);
                assert(entry == shown_metadata(views, texts)[i as int]);
                assert(text_pairs(metadata@) =~= text_pairs(before).push(entry));
                assert(shown_metadata(views, texts).take(i as int + 1) =~= shown_metadata(
                    views,
                    texts,
                ).take(i as int).push(entry));
            }
            i = i + 1;
        }
        assert(shown_metadata(views, texts).take(i as int) =~= shown_metadata(views, texts));
        GgufFile {
            path,
            version: directory.version,
            metadata,
            tensors: directory.tensors,
            tensor_data_start: directory.tensor_data_start,
            file_size_bytes,
        }
    }

    /// The first tensor with the given name.
    pub fn tensor(&self, name: &str) -> (r: Option<&GgufTensorInfo>)
        ensures
            match r {
                Some(t) => tensor_named(self@.tensors, name@, 0) is Some && t@
                    == self@.tensors[tensor_named(self@.tensors, name@, 0)->0],
                None => tensor_named(self@.tensors, name@, 0) is None,
            },
    {
        match self.tensor_position(name) {
            Some(k) => Some(&self.tensors[k]),
            None => None,
        }
    }

    fn tensor_position(&self, name: &str) -> (r: Option<usize>)
        ensures
            match r {
                Some(k) => k < self.tensors@.len() && tensor_named(self@.tensors, name@, 0)
                    == Some(k as int),
                None => tensor_named(self@.tensors, name@, 0) is None,
            },
    {
        let ghost views = self@.tensors;
        let mut i: usize = 0;
        while i < self.tensors.len()
            invariant
                i <= self.tensors@.len(),
                views == tensor_views(self.tensors@),
                views == self@.tensors,
                tensor_named(views, name@, 0) == tensor_named(views, name@, i as int),
            decreases self.tensors@.len() - i,
        {
            assert(views[i as int] == self.tensors@[i as int]@);
            if str_eq(self.tensors[i].name.as_str(), name) {
                return Some(i);
            }
            i = i + 1;
        }
        None
    }

    /// The names of the tensors, in the order of the directory.
    pub fn tensor_names(&self) -> (r: Vec<String>)
        ensures
            r@.len() == self.tensors@.len(),
            forall|i: int| 0 <= i < r@.len() ==> (#[trigger] r@[i])@ == self@.tensors[i].name,
    {
        let mut out: Vec<String> = Vec::new();
        let mut i: usize = 0;
        while i < self.tensors.len()
            invariant
                i <= self.tensors@.len(),
                out@.len() == i,
                forall|k: int| 0 <= k < i ==> (#[trigger] out@[k])@ == self@.tensors[k].name,
            decreases self.tensors@.len() - i,
        {
            assert(self@.tensors[i as int] == self.tensors@[i as int]@);
            out.push(self.tensors[i].name.clone());
            i = i + 1;
        }
        out
    }

    /// Which bytes to read for up to `max_len` bytes of a tensor.
    pub fn tensor_read(&self, name: &str, max_len: usize) -> (r: Result<TensorRead, CoreError>)
        requires
            tensors_inside(self@),
        ensures
            core_outcome(r, tensor_read_of(self@, name@, max_len as nat)),
    {
        match self.tensor_position(name) {
            None => Err(
                CoreError::Message(String::from_str("tensor not found: ").concat(name)),
            ),
            Some(k) => {
                let tensor = &self.tensors[k];
                proof {
                    assert(self@.tensors[k as int] == tensor@);
                    checked_tensors_lie_inside(
                        self@.tensors,
                        self.tensor_data_start,
                        self.file_size_bytes,
                        0,
                        k as int,
                    );
                }
                match tensor.byte_len() {
                    Err(e) => Err(e),
                    Ok(len) => {
                        let offset: u64 = tensor.absolute_offset(self.tensor_data_start);
                        Ok(
                            TensorRead {
                                offset,
                                len: if len <= max_len {
                                    len
                                } else {
                                    max_len
                                },
                            },
                        )
                    },
                }
            },
        }
    }

    /// The bytes of the tensor with the given name, out of the file's bytes.
    pub fn tensor_bytes(&self, file: &[u8], name: &str) -> (r: Result<Vec<u8>, CoreError>)
        requires
            tensors_inside(self@),
        ensures
            bytes_outcome(
                r,
                read_outcome_of(file@, tensor_read_of(self@, name@, usize::MAX as nat)),
            ),
    {
        self.tensor_bytes_prefix(file, name, usize::MAX)
    }

    /// Up to `max_len` leading bytes of the tensor with the given name, out of the file's bytes.
    pub fn tensor_bytes_prefix(&self, file: &[u8], name: &str, max_len: usize) -> (r: Result<
        Vec<u8>,
        CoreError,
    >)
        requires
            tensors_inside(self@),
        ensures
            bytes_outcome(
                r,
                read_outcome_of(file@, tensor_read_of(self@, name@, max_len as nat)),
            ),
    {
        match self.tensor_read(name, max_len) {
            Err(e) => Err(e),
            Ok(plan) => read_bytes_at(file, plan.offset, plan.len),
        }
    }

    /// A description of the tensor with the given name that can be read on its own.
    pub fn mapped_tensor_view(&self, name: &str) -> (r: Result<MappedTensorView, CoreError>)
        requires
            tensors_inside(self@),
        ensures
            match r {
                Ok(v) => mapped_view_of(self@, name@) == Ok::<MappedView, ErrorView>(v@),
                Err(e) => mapped_view_of(self@, name@) == Err::<MappedView, ErrorView>(e@),
            },
    {
        match self.tensor_position(name) {
            None => Err(
                CoreError::Message(String::from_str("tensor not found: ").concat(name)),
            ),
            Some(k) => {
                let tensor = &self.tensors[k];
                proof {
                    assert(self@.tensors[k as int] == tensor@);
                    checked_tensors_lie_inside(
                        self@.tensors,
                        self.tensor_data_start,
                        self.file_size_bytes,
                        0,
                        k as int,
                    );
                }
                let byte_len: usize = match tensor.byte_len() {
                    Err(e) => {
                        return Err(e);
                    },
                    Ok(n) => n,
                };
                Ok(
                    MappedTensorView {
                        file_path: self.path.clone(),
                        name: tensor.name.clone(),
                        dimensions: copy_dimensions(&tensor.dimensions),
                        ggml_type: tensor.ggml_type,
                        absolute_offset: tensor.absolute_offset(self.tensor_data_start),
                        byte_len,
                    },
                )
            },
        }
    }
}

/// A tensor together with the place of its bytes.
#[derive(Debug)]
pub struct MappedTensorView {
    pub file_path: String,
    pub name: String,
    pub dimensions: Vec<u64>,
    pub ggml_type: GgmlType,
    pub absolute_offset: u64,
    pub byte_len: usize,
}

/// A tensor together with the place of its bytes, as a mathematical value.
pub ghost struct MappedView {
    pub file_path: Seq<char>,
    pub tensor: TensorView,
    pub absolute_offset: u64,
    pub byte_len: usize,
}

impl View for MappedTensorView {
    type V = MappedView;

    open spec fn view(&self) -> MappedView {
        MappedView {
            file_path: self.file_path@,
            tensor: TensorView {
                name: self.name@,
                dimensions: self.dimensions@,
                ggml_type: self.ggml_type,
                relative_offset: 0,
            },
            absolute_offset: self.absolute_offset,
            byte_len: self.byte_len,
        }
    }
}

/// The description of the tensor with the given name.
pub open spec fn mapped_view_of(f: FileView, name: Seq<char>) -> Result<MappedView, ErrorView> {
    match tensor_named(f.tensors, name, 0) {
        None => Err(message("tensor not found: "@ + name)),
        Some(k) => match tensor_byte_len(f.tensors[k]) {
            Err(e) => Err(e),
            Ok(byte_len) => Ok(
                MappedView {
                    file_path: f.path,
                    tensor: TensorView { relative_offset: 0, ..f.tensors[k] },
                    absolute_offset: (f.tensor_data_start + f.tensors[k].relative_offset) as u64,
                    byte_len,
                },
            ),
        },
    }
}

impl MappedTensorView {
    /// The bytes of the tensor, out of the file's bytes.
    pub fn read_bytes(&self, file: &[u8]) -> (r: Result<Vec<u8>, CoreError>)
        ensures
            bytes_outcome(r, bytes_at(file@, self.absolute_offset as nat, self.byte_len as nat)),
    {
        self.read_bytes_prefix(file, self.byte_len)
    }

    /// Up to `max_len` leading bytes of the tensor, out of the file's bytes.
    pub fn read_bytes_prefix(&self, file: &[u8], max_len: usize) -> (r: Result<Vec<u8>, CoreError>)
        ensures
            bytes_outcome(
                r,
                bytes_at(
                    file@,
                    self.absolute_offset as nat,
                    if self.byte_len <= max_len {
                        self.byte_len as nat
                    } else {
                        max_len as nat
                    },
                ),
            ),
    {
        let len: usize = if self.byte_len <= max_len {
            self.byte_len
        } else {
            max_len
        };
        read_bytes_at(file, self.absolute_offset, len)
    }
}

/// A description of a tensor reads the same bytes as the file does by the tensor's name.
pub proof fn mapped_view_reads_same_bytes(f: FileView, file: Seq<u8>, name: Seq<char>)
    ensures
        match mapped_view_of(f, name) {
            Ok(v) => bytes_at(file, v.absolute_offset as nat, v.byte_len as nat)
                == read_outcome_of(file, tensor_read_of(f, name, usize::MAX as nat)),
            Err(e) => read_outcome_of(file, tensor_read_of(f, name, usize::MAX as nat)) == Err::<
                Seq<u8>,
                ErrorView,
            >(e),
        },
{
}

/// In a file of the size its directory was checked against, every listed tensor can be read, and
/// all its bytes are there.
pub proof fn listed_tensors_can_be_read(f: FileView, file: Seq<u8>, k: int)
    requires
        tensors_inside(f),
        0 <= k < f.tensors.len(),
        file.len() == f.file_size_bytes,
    ensures
        tensor_byte_len(f.tensors[k]) is Ok,
        read_outcome_of(file, tensor_read_of(f, f.tensors[k].name, usize::MAX as nat)) is Ok,
{
    checked_tensors_lie_inside(f.tensors, f.tensor_data_start, f.file_size_bytes, 0, k);
    tensor_named_is_first(f.tensors, f.tensors[k].name, 0);
    let j = tensor_named(f.tensors, f.tensors[k].name, 0)->0;
    checked_tensors_lie_inside(f.tensors, f.tensor_data_start, f.file_size_bytes, 0, j);
}

/// A file that was opened has all its tensors inside it.
pub proof fn opened_tensors_lie_inside(path: Seq<char>, b: Seq<u8>, f: FileView, d: DirectoryView)
    requires
        directory_of(path, b, f.file_size_bytes) == Ok::<DirectoryView, ErrorView>(d),
        f.tensors == d.tensors,
        f.tensor_data_start == d.tensor_data_start,
    ensures
        tensors_inside(f),
{
}

} // verus!
