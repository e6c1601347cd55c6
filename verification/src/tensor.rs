//! Half-precision tensors, and looking rows up in tables.
use crate::arith::{lemma_next_row, lemma_rows_monotone};
use crate::backend::{is_norm, linear_error, norm_error, rms_norm_f32, CpuMatmulBackend};
use crate::bytes::{le16, read_u16_le};
use crate::error::{
    core_error_text, message, mismatch, size_mismatch, ErrorView, InferError,
};
use crate::gguf::{
    ggml_name, read_outcome_of, tensor_named, tensor_read_of, tensors_inside, FileView, GgmlType,
    GgufFile, GgufTensorInfo,
};
use crate::half::{f16_bits_to_f32, widened};
use crate::matmul::linear_with_backend;
use crate::numeric::{dot, gathered, is_linear, pairs, row, row_of, Calc, Op};
use crate::text::{dec, dec_u64, dec_usize};
use vstd::prelude::*;
use vstd::slice::{slice_subrange, slice_to_vec};
use vstd::string::*;

verus! {

// ---------------------------------------------------------------------
// Tensors
// ---------------------------------------------------------------------

/// The product of sizes; one for none.
pub open spec fn size_product(dims: Seq<usize>) -> nat
    decreases dims.len(),
{
    if dims.len() == 0 {
        1
    } else {
        size_product(dims.drop_last()) * (dims.last() as nat)
    }
}

/// Whether the product over some leading sizes exceeds what can be counted.
pub open spec fn size_overflows(dims: Seq<usize>) -> bool {
    exists|k: int| 0 <= k <= dims.len() && #[trigger] size_product(dims.take(k)) > usize::MAX
}

/// What is wrong with a half-precision tensor of the given sizes and bytes, if anything.
pub open spec fn f16_error(dims: Seq<usize>, byte_count: nat) -> Option<ErrorView> {
    if size_overflows(dims) {
        Some(message("F16 tensor element count overflow"@))
    } else if size_product(dims) * 2 > usize::MAX {
        Some(message("F16 tensor byte length overflow"@))
    } else if byte_count != size_product(dims) * 2 {
        Some(mismatch("F16 tensor byte length"@, size_product(dims) * 2, byte_count))
    } else {
        None
    }
}

fn check_f16(dims: &Vec<usize>, byte_count: usize) -> (r: Option<InferError>)
    ensures
        match r {
            Some(e) => f16_error(dims@, byte_count as nat) == Some(e@),
            None => f16_error(dims@, byte_count as nat) is None,
        },
{
    let ghost all = dims@;
    let mut count: usize = 1;
    let mut i: usize = 0;
    assert(all.take(0) =~= Seq::<usize>::empty());
    while i < dims.len()
        invariant
            i <= dims@.len(),
            all == dims@,
            count as nat == size_product(all.take(i as int)),
            forall|k: int| 0 <= k <= i ==> #[trigger] size_product(all.take(k)) <= usize::MAX,
        decreases dims@.len() - i,
    {
        proof {
            let next = all.take(i as int + 1);
            assert(next.drop_last() =~= all.take(i as int));
            assert(next.last() == all[i as int]);
        }
        match count.checked_mul(dims[i]) {
            None => {
                assert(size_product(all.take(i as int + 1)) > usize::MAX);
                return Some(InferError::text("F16 tensor element count overflow"));
            },
            Some(v) => {
                count = v;
            },
        }
        i = i + 1;
    }
    assert(all.take(i as int) =~= all);
    match count.checked_mul(2) {
        None => Some(InferError::text("F16 tensor byte length overflow")),
        Some(expected) => if byte_count != expected {
            Some(size_mismatch("F16 tensor byte length", expected, byte_count))
        } else {
            None
        },
    }
}

/// A half-precision tensor, its elements kept as bytes.
#[derive(Debug)]
pub struct F16TensorBytes {
    name: String,
    dimensions: Vec<usize>,
    bytes: Vec<u8>,
}

/// A half-precision tensor as a mathematical value.
pub ghost struct F16View {
    pub name: Seq<char>,
    pub dimensions: Seq<usize>,
    pub bytes: Seq<u8>,
}

impl View for F16TensorBytes {
    type V = F16View;

    closed spec fn view(&self) -> F16View {
        F16View { name: self.name@, dimensions: self.dimensions@, bytes: self.bytes@ }
    }
}

/// A half-precision tensor, its elements widened to single precision and kept as bits.
#[derive(Debug)]
pub struct F16TensorView {
    name: String,
    dimensions: Vec<usize>,
    values: Vec<u32>,
}

/// A widened tensor as a mathematical value.
pub ghost struct WideView {
    pub name: Seq<char>,
    pub dimensions: Seq<usize>,
    pub values: Seq<u32>,
}

impl View for F16TensorView {
    type V = WideView;

    closed spec fn view(&self) -> WideView {
        WideView { name: self.name@, dimensions: self.dimensions@, values: self.values@ }
    }
}

/// The half-precision element at a position.
pub open spec fn half_at(bytes: Seq<u8>, i: int) -> u16 {
    le16(bytes.subrange(2 * i, 2 * i + 2)) as u16
}

/// The elements of a half-precision tensor, widened.
pub open spec fn widened_values(bytes: Seq<u8>) -> Seq<u32> {
    Seq::new(bytes.len() / 2, |i: int| widened(half_at(bytes, i)) as u32)
}

/// Reads the half-precision element at a position.
pub fn read_half(bytes: &[u8], i: usize) -> (r: u16)
    requires
        2 * i + 2 <= bytes.len(),
    ensures
        r == half_at(bytes@, i as int),
{
    read_u16_le(slice_subrange(bytes, 2 * i, 2 * i + 2))
}

/// The sizes as machine sizes, or none if one is too large.
pub open spec fn machine_sizes(dims: Seq<u64>) -> Option<Seq<usize>> {
    if exists|i: int| 0 <= i < dims.len() && #[trigger] dims[i] > usize::MAX {
        None
    } else {
        Some(dims.map_values(|d: u64| d as usize))
    }
}

fn to_machine_sizes(dims: &Vec<u64>) -> (r: Option<Vec<usize>>)
    ensures
        match r {
            Some(v) => machine_sizes(dims@) == Some(v@),
            None => machine_sizes(dims@) is None,
        },
{
    let mut out: Vec<usize> = Vec::new();
    let mut i: usize = 0;
    while i < dims.len()
        invariant
            i <= dims@.len(),
            out@.len() == i,
            forall|k: int| 0 <= k < i ==> #[trigger] dims@[k] <= usize::MAX,
            forall|k: int| 0 <= k < i ==> #[trigger] out@[k] == dims@[k] as usize,
        decreases dims@.len() - i,
    {
        if dims[i] > usize::MAX as u64 {
            assert(dims@[i as int] > usize::MAX);
            return None;
        }
        out.push(dims[i] as usize);
        i = i + 1;
    }
    assert(out@ =~= dims@.map_values(|d: u64| d as usize));
    Some(out)
}

/// The sizes and bytes of a half-precision tensor of a file.
pub open spec fn f16_parts(f: FileView, file: Seq<u8>, name: Seq<char>) -> Result<
    (Seq<usize>, Seq<u8>),
    ErrorView,
> {
    match tensor_named(f.tensors, name, 0) {
        None => Err(message("tensor not found: "@ + name)),
        Some(k) => if f.tensors[k].ggml_type != GgmlType::F16 {
            Err(
                message(
                    "expected F16 tensor "@ + name + ", got "@ + ggml_name(f.tensors[k].ggml_type),
                ),
            )
        } else {
            match machine_sizes(f.tensors[k].dimensions) {
                None => Err(message("tensor dimension overflows usize: "@ + name)),
                Some(dims) => match read_outcome_of(
                    file,
                    tensor_read_of(f, name, usize::MAX as nat),
                ) {
                    Err(e) => Err(message(core_error_text(e))),
                    Ok(bytes) => match f16_error(dims, bytes.len()) {
                        Some(e) => Err(e),
                        None => Ok((dims, bytes)),
                    },
                },
            }
        },
    }
}

fn read_f16(gguf: &GgufFile, file: &[u8], name: &str) -> (r: Result<
    (Vec<usize>, Vec<u8>),
    InferError,
>)
    requires
        tensors_inside(gguf@),
    ensures
        match r {
            Ok(p) => f16_parts(gguf@, file@, name@) == Ok::<(Seq<usize>, Seq<u8>), ErrorView>(
                (p.0@, p.1@),
            ),
            Err(e) => f16_parts(gguf@, file@, name@) == Err::<(Seq<usize>, Seq<u8>), ErrorView>(
                e@,
            ),
        },
{
    let tensor: &GgufTensorInfo = match gguf.tensor(name) {
        None => {
            return Err(
                InferError::Message(String::from_str("tensor not found: ").concat(name)),
            );
        },
        Some(t) => t,
    };
    if tensor.ggml_type != GgmlType::F16 {
        return Err(
            InferError::Message(
                String::from_str("expected F16 tensor ").concat(name).concat(", got ").concat(
                    tensor.ggml_type.name(),
                ),
            ),
        );
    }
    let dims = match to_machine_sizes(&tensor.dimensions) {
        None => {
            return Err(
                InferError::Message(
                    String::from_str("tensor dimension overflows usize: ").concat(name),
                ),
            );
        },
        Some(d) => d,
    };
    let bytes = match gguf.tensor_bytes(file, name) {
        Err(e) => {
            return Err(InferError::from_core(&e));
        },
        Ok(b) => b,
    };
    match check_f16(&dims, bytes.len()) {
        Some(e) => Err(e),
        None => Ok((dims, bytes)),
    }
}

/// Whether the tensor is of the given name, sizes and bytes.
pub open spec fn bytes_tensor_outcome(
    r: Result<F16TensorBytes, InferError>,
    name: Seq<char>,
    s: Result<(Seq<usize>, Seq<u8>), ErrorView>,
) -> bool {
    match r {
        Ok(t) => s matches Ok(p) && t@ == (F16View { name, dimensions: p.0, bytes: p.1 }),
        Err(e) => s == Err::<(Seq<usize>, Seq<u8>), ErrorView>(e@),
    }
}

/// Whether the widened tensor is of the given name, sizes and bytes.
pub open spec fn wide_tensor_outcome(
    r: Result<F16TensorView, InferError>,
    name: Seq<char>,
    s: Result<(Seq<usize>, Seq<u8>), ErrorView>,
) -> bool {
    match r {
        Ok(t) => s matches Ok(p) && t@ == (WideView {
            name,
            dimensions: p.0,
            values: widened_values(p.1),
        }),
        Err(e) => s == Err::<(Seq<usize>, Seq<u8>), ErrorView>(e@),
    }
}

/// Sizes and bytes that fit together, or what is wrong with them.
pub open spec fn given_parts(dims: Seq<usize>, bytes: Seq<u8>) -> Result<
    (Seq<usize>, Seq<u8>),
    ErrorView,
> {
    match f16_error(dims, bytes.len()) {
        Some(e) => Err(e),
        None => Ok((dims, bytes)),
    }
}

impl F16TensorBytes {
    /// The half-precision tensor of the given name, out of a model file's bytes.
    pub fn from_gguf(gguf: &GgufFile, file: &[u8], name: &str) -> (r: Result<
        F16TensorBytes,
        InferError,
    >)
        requires
            tensors_inside(gguf@),
        ensures
            bytes_tensor_outcome(r, name@, f16_parts(gguf@, file@, name@)),
    {
        match read_f16(gguf, file, name) {
            Err(e) => Err(e),
            Ok((dimensions, bytes)) => Ok(
                F16TensorBytes { name: String::from_str(name), dimensions, bytes },
            ),
        }
    }

    /// A tensor of the given sizes from bytes.
    pub fn from_f16_le_bytes(name: String, dimensions: Vec<usize>, bytes: Vec<u8>) -> (r: Result<
        F16TensorBytes,
        InferError,
    >)
        ensures
            bytes_tensor_outcome(r, name@, given_parts(dimensions@, bytes@)),
    {
        match check_f16(&dimensions, bytes.len()) {
            Some(e) => Err(e),
            None => Ok(F16TensorBytes { name, dimensions, bytes }),
        }
    }

    /// The name of the tensor.
    pub fn name(&self) -> (r: &str)
        ensures
            r@ == self@.name,
    {
        self.name.as_str()
    }

    /// The sizes of the tensor, as the file lists them.
    pub fn dimensions(&self) -> (r: &[usize])
        ensures
            r@ == self@.dimensions,
    {
        self.dimensions.as_slice()
    }

    /// The bytes of the values.
    pub fn bytes(&self) -> (r: &[u8])
        ensures
            r@ == self@.bytes,
    {
        self.bytes.as_slice()
    }
}

fn widen_all(bytes: &[u8]) -> (r: Vec<u32>)
    ensures
        r@ == widened_values(bytes@),
{
    let mut out: Vec<u32> = Vec::new();
    let size: usize = bytes.len();
    let count: usize = size / 2;
    let mut i: usize = 0;
    while i < count
        invariant
            i <= count,
            size == bytes@.len(),
            count == size / 2,
            out@ == widened_values(bytes@).take(i as int),
        decreases count - i,
    {
        let v: u32 = f16_bits_to_f32(read_half(bytes, i));
        out.push(v);
        assert(widened_values(bytes@).take(i as int + 1) =~= widened_values(bytes@).take(
            i as int,
        ).push(v));
        i = i + 1;
    }
    assert(widened_values(bytes@).take(i as int) =~= widened_values(bytes@));
    out
}

impl F16TensorView {
    /// The half-precision tensor of the given name, out of a model file's bytes, widened.
    pub fn from_gguf(gguf: &GgufFile, file: &[u8], name: &str) -> (r: Result<
        F16TensorView,
        InferError,
    >)
        requires
            tensors_inside(gguf@),
        ensures
            wide_tensor_outcome(r, name@, f16_parts(gguf@, file@, name@)),
    {
        match read_f16(gguf, file, name) {
            Err(e) => Err(e),
            Ok((dimensions, bytes)) => {
                let values = widen_all(bytes.as_slice());
                Ok(F16TensorView { name: String::from_str(name), dimensions, values })
            },
        }
    }

    /// A tensor of the given sizes from half-precision bytes, widened.
    pub fn from_f16_le_bytes(name: String, dimensions: Vec<usize>, bytes: &[u8]) -> (r: Result<
        F16TensorView,
        InferError,
    >)
        ensures
            wide_tensor_outcome(r, name@, given_parts(dimensions@, bytes@)),
    {
        match check_f16(&dimensions, bytes.len()) {
            Some(e) => Err(e),
            None => {
                let values = widen_all(bytes);
                Ok(F16TensorView { name, dimensions, values })
            },
        }
    }

    /// The name of the tensor.
    pub fn name(&self) -> (r: &str)
        ensures
            r@ == self@.name,
    {
        self.name.as_str()
    }

    /// The sizes of the tensor, as the file lists them.
    pub fn dimensions(&self) -> (r: &[usize])
        ensures
            r@ == self@.dimensions,
    {
        self.dimensions.as_slice()
    }

    /// The elements as single-precision bits.
    pub fn values(&self) -> (r: &[u32])
        ensures
            r@ == self@.values,
    {
        self.values.as_slice()
    }
}

/// A tensor has as many elements as its sizes say.
pub proof fn widened_tensor_is_full(dims: Seq<usize>, bytes: Seq<u8>)
    requires
        given_parts(dims, bytes) is Ok,
    ensures
        widened_values(bytes).len() == size_product(dims),
{
}

// ---------------------------------------------------------------------
// Tables
// ---------------------------------------------------------------------

/// What is wrong with a lookup in a table, if anything.
pub open spec fn lookup_error(
    weight: nat,
    hidden_dim: usize,
    vocab_dim: usize,
    indices: Seq<u32>,
) -> Option<ErrorView> {
    if hidden_dim * vocab_dim > usize::MAX {
        Some(message("embedding weight length overflow"@))
    } else if weight != hidden_dim * vocab_dim {
        Some(mismatch("embedding weight length"@, (hidden_dim * vocab_dim) as nat, weight))
    } else {
        index_error(vocab_dim, indices, 0)
    }
}

/// The error of the first index from position `i` on that lies outside the table.
pub open spec fn index_error(vocab_dim: usize, indices: Seq<u32>, i: int) -> Option<ErrorView>
    decreases indices.len() - i,
{
    if i < 0 || i >= indices.len() {
        None
    } else if indices[i] >= vocab_dim {
        Some(
            message(
                "embedding index "@ + dec(indices[i] as nat) + " out of range for vocab_dim "@
                    + dec(vocab_dim as nat),
            ),
        )
    } else {
        index_error(vocab_dim, indices, i + 1)
    }
}

/// Where nothing is wrong with a lookup, every index lies inside the table.
pub proof fn lemma_lookup_inside(
    hidden_dim: usize,
    vocab_dim: usize,
    indices: Seq<u32>,
    weight: nat,
    i: int,
)
    requires
        lookup_error(weight, hidden_dim, vocab_dim, indices) is None,
        0 <= i < indices.len(),
    ensures
        indices[i] < vocab_dim,
        weight == hidden_dim * vocab_dim,
{
    lemma_index_inside(vocab_dim, indices, 0, i);
}

proof fn lemma_index_inside(vocab_dim: usize, indices: Seq<u32>, from: int, i: int)
    requires
        index_error(vocab_dim, indices, from) is None,
        0 <= from <= i < indices.len(),
    ensures
        indices[i] < vocab_dim,
    decreases i - from,
{
    if from < i {
        lemma_index_inside(vocab_dim, indices, from + 1, i);
    }
}

/// The rows of a table that the indices name.
pub fn embedding_lookup_rows<T: Copy>(
    weight: &[T],
    hidden_dim: usize,
    vocab_dim: usize,
    indices: &[u32],
) -> (r: Result<Vec<Vec<T>>, InferError>)
    ensures
        match r {
            Ok(rows) => lookup_error(weight@.len(), hidden_dim, vocab_dim, indices@) is None
                && rows@.len() == indices@.len() && forall|i: int|
                0 <= i < rows@.len() ==> (#[trigger] rows@[i])@ == row(
                    weight@,
                    indices@[i] as int,
                    hidden_dim as int,
                ),
            Err(e) => lookup_error(weight@.len(), hidden_dim, vocab_dim, indices@) == Some(e@),
        },
{
    let expected: usize = match hidden_dim.checked_mul(vocab_dim) {
        None => {
            return Err(InferError::text("embedding weight length overflow"));
        },
        Some(n) => n,
    };
    let size: usize = weight.len();
    if size != expected {
        return Err(size_mismatch("embedding weight length", expected, size));
    }
    proof {
        vstd::arithmetic::mul::lemma_mul_is_commutative(hidden_dim as int, vocab_dim as int);
    }
    let mut out: Vec<Vec<T>> = Vec::new();
    let mut i: usize = 0;
    while i < indices.len()
        invariant
            i <= indices@.len(),
            size == weight@.len(),
            size == vocab_dim * hidden_dim,
            hidden_dim * vocab_dim == vocab_dim * hidden_dim,
            lookup_error(weight@.len(), hidden_dim, vocab_dim, indices@) == index_error(
                vocab_dim,
                indices@,
                i as int,
            ),
            out@.len() == i,
            forall|k: int|
                0 <= k < i ==> (#[trigger] out@[k])@ == row(
                    weight@,
                    indices@[k] as int,
                    hidden_dim as int,
                ),
        decreases indices@.len() - i,
    {
        let index: u32 = indices[i];
        if index as u64 >= vocab_dim as u64 {
            let a = dec_u64(index as u64);
            let b = dec_usize(vocab_dim);
            return Err(
                InferError::Message(
                    String::from_str("embedding index ").concat(a.as_str()).concat(
                        " out of range for vocab_dim ",
                    ).concat(b.as_str()),
                ),
            );
        }
        let line = row_of(weight, index as usize, hidden_dim, Ghost(vocab_dim as int));
        out.push(slice_to_vec(line));
        i = i + 1;
    }
    Ok(out)
}

/// What is wrong with the sizes of a vector and a half-precision table, if anything.
pub open spec fn matvec_error(
    input: nat,
    weight: nat,
    input_dim: usize,
    output_dim: usize,
) -> Option<ErrorView> {
    if input != input_dim {
        Some(mismatch("matvec_f16_streaming input length"@, input_dim as nat, input))
    } else if input_dim * output_dim > usize::MAX || input_dim * output_dim * 2 > usize::MAX {
        Some(message("matvec_f16_streaming weight length overflow"@))
    } else if weight != input_dim * output_dim * 2 {
        Some(
            mismatch(
                "matvec_f16_streaming weight byte length"@,
                (input_dim * output_dim * 2) as nat,
                weight,
            ),
        )
    } else if input_dim * 2 > usize::MAX {
        Some(message("matvec_f16_streaming row stride overflow"@))
    } else {
        None
    }
}

/// The pairs of an input with the half-precision elements of row `o`, widened by `widen`.
pub open spec fn is_half_row<T: Copy, F: Fn(Op, T, T, T) -> T>(
    line: Seq<T>,
    weight: Seq<u8>,
    o: int,
    width: int,
    calc: Calc<T, F>,
) -> bool {
    &&& line.len() == width
    &&& forall|i: int|
        0 <= i < width ==> calc.reads_half(half_at(weight, o * width + i), #[trigger] line[i])
}

/// Whether a value is the product of the input with row `o` of a half-precision table.
pub open spec fn is_half_product<T: Copy, F: Fn(Op, T, T, T) -> T>(
    input: Seq<T>,
    weight: Seq<u8>,
    o: int,
    calc: Calc<T, F>,
    r: T,
) -> bool {
    exists|line: Seq<T>|
        #[trigger] is_half_row(line, weight, o, input.len() as int, calc) && gathered(
            pairs(input, line),
            calc.zero,
            calc,
            r,
        )
}

/// The product of a vector with every row of a half-precision table that stays as bytes.
pub fn matvec_f16_streaming<T: Copy, F: Fn(Op, T, T, T) -> T>(
    input: &[T],
    weight_f16_le: &[u8],
    input_dim: usize,
    output_dim: usize,
    calc: &Calc<T, F>,
) -> (r: Result<Vec<T>, InferError>)
    requires
        calc.works(),
    ensures
        match r {
            Ok(v) => matvec_error(input@.len(), weight_f16_le@.len(), input_dim, output_dim) is None
                && v@.len() == output_dim && forall|o: int|
                0 <= o < output_dim ==> is_half_product(
                    input@,
                    weight_f16_le@,
                    o,
                    *calc,
                    #[trigger] v@[o],
                ),
            Err(e) => matvec_error(input@.len(), weight_f16_le@.len(), input_dim, output_dim)
                == Some(e@),
        },
{
    let found: usize = input.len();
    if found != input_dim {
        return Err(size_mismatch("matvec_f16_streaming input length", input_dim, found));
    }
    let elements: usize = match input_dim.checked_mul(output_dim) {
        None => {
            return Err(InferError::text("matvec_f16_streaming weight length overflow"));
        },
        Some(n) => n,
    };
    let expected: usize = match elements.checked_mul(2) {
        None => {
            return Err(InferError::text("matvec_f16_streaming weight length overflow"));
        },
        Some(n) => n,
    };
    let size: usize = weight_f16_le.len();
    if size != expected {
        return Err(size_mismatch("matvec_f16_streaming weight byte length", expected, size));
    }
    if input_dim > usize::MAX / 2 {
        return Err(InferError::text("matvec_f16_streaming row stride overflow"));
    }
    proof {
        vstd::arithmetic::mul::lemma_mul_is_commutative(input_dim as int, output_dim as int);
    }
    let mut out: Vec<T> = Vec::new();
    let mut o: usize = 0;
    while o < output_dim
        invariant
            o <= output_dim,
            out@.len() == o,
            input@.len() == input_dim,
            size == weight_f16_le@.len(),
            size == 2 * (output_dim * input_dim),
            calc.works(),
            forall|k: int|
                0 <= k < o ==> is_half_product(
                    input@,
                    weight_f16_le@,
                    k,
                    *calc,
                    #[trigger] out@[k],
                ),
        decreases output_dim - o,
    {
        proof {
            lemma_rows_monotone(o as int + 1, output_dim as int, input_dim as int);
            lemma_next_row(o as int, input_dim as int);
            lemma_rows_monotone(0, o as int, input_dim as int);
        }
        let first: usize = o * input_dim;
        let mut line: Vec<T> = Vec::new();
        let mut i: usize = 0;
        while i < input_dim
            invariant
                i <= input_dim,
                first == o * input_dim,
                first + input_dim <= output_dim * input_dim,
                size == weight_f16_le@.len(),
                size == 2 * (output_dim * input_dim),
                line@.len() == i,
                calc.works(),
                forall|k: int|
                    0 <= k < i ==> calc.reads_half(half_at(weight_f16_le@, o * input_dim + k), #[trigger] line@[k]),
            decreases input_dim - i,
        {
            let v: T = calc.constant(Op::Half(read_half(weight_f16_le, first + i)));
            line.push(v);
            i = i + 1;
        }
        let sum: T = dot(input, line.as_slice(), calc);
        assert(is_half_row(line@, weight_f16_le@, o as int, input@.len() as int, *calc));
        assert(is_half_product(input@, weight_f16_le@, o as int, *calc, sum));
        out.push(sum);
        o = o + 1;
    }
    Ok(out)
}

// ---------------------------------------------------------------------
// Products and norms
// ---------------------------------------------------------------------

/// A list of values times a table.
pub fn linear<T: Copy, F: Fn(Op, T, T, T) -> T>(
    input: &[T],
    weight: &[T],
    input_dim: usize,
    output_dim: usize,
    calc: &Calc<T, F>,
) -> (r: Result<Vec<T>, InferError>)
    requires
        calc.works(),
    ensures
        match r {
            Ok(v) => linear_error(input@.len(), weight@.len(), input_dim, output_dim) is None
                && v@.len() == output_dim && is_linear(input@, weight@, *calc, v@),
            Err(e) => linear_error(input@.len(), weight@.len(), input_dim, output_dim) == Some(e@),
        },
{
    linear_with_backend(&CpuMatmulBackend::new(), input, weight, input_dim, output_dim, calc)
}

/// A list of values, each divided by the root of their mean square and weighed.
pub fn rms_norm<T: Copy, F: Fn(Op, T, T, T) -> T>(
    input: &[T],
    weight: &[T],
    eps: u32,
    calc: &Calc<T, F>,
) -> (r: Result<Vec<T>, InferError>)
    requires
        calc.works(),
    ensures
        match r {
            Ok(v) => norm_error(input@.len(), weight@.len()) is None && is_norm(
                input@,
                weight@,
                eps,
                *calc,
                v@,
            ),
            Err(e) => norm_error(input@.len(), weight@.len()) == Some(e@),
        },
{
    rms_norm_f32(input, weight, eps, calc)
}

} // verus!
