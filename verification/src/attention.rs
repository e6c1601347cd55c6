//! Attention over cached keys and values.
use crate::arith::{lemma_cell, lemma_next_row, lemma_rows_monotone};
use crate::backend::CpuMatmulBackend;
use crate::error::{message, mismatch, size_mismatch, ErrorView, InferError};
use crate::flow::outcome;
use crate::graph::KvCacheSpec;
use crate::matmul::MatmulBackend;
use crate::numeric::{
    dot, gathered, lemma_gather_none, lemma_gather_one, pairs, row, row_of, Calc, Op,
};
use crate::text::{dec, dec_usize};
use vstd::prelude::*;
use vstd::slice::slice_subrange;
use vstd::string::*;

verus! {

// ---------------------------------------------------------------------
// The cache
// ---------------------------------------------------------------------

/// Keys and values of every layer and token.
#[derive(Debug)]
pub struct SlowArKvCache<T> {
    head_dim: usize,
    head_count_kv: usize,
    max_seq_len: usize,
    block_count: usize,
    keys: Vec<T>,
    values: Vec<T>,
}

/// A cache as a mathematical value.
pub ghost struct CacheView<T> {
    pub head_dim: usize,
    pub head_count_kv: usize,
    pub max_seq_len: usize,
    pub block_count: usize,
    pub keys: Seq<T>,
    pub values: Seq<T>,
}

impl<T> View for SlowArKvCache<T> {
    type V = CacheView<T>;

    closed spec fn view(&self) -> CacheView<T> {
        CacheView {
            head_dim: self.head_dim,
            head_count_kv: self.head_count_kv,
            max_seq_len: self.max_seq_len,
            block_count: self.block_count,
            keys: self.keys@,
            values: self.values@,
        }
    }
}

impl<T> CacheView<T> {
    /// How many values stand for one token.
    pub open spec fn width(self) -> int {
        self.head_dim * self.head_count_kv
    }

    /// Whether there is room for every token of every layer, and no more.
    pub open spec fn full(self) -> bool {
        &&& self.width() <= usize::MAX
        &&& self.keys.len() == (self.block_count * self.max_seq_len) * self.width()
        &&& self.values.len() == self.keys.len()
    }

    /// The row in which a token of a layer stands.
    pub open spec fn row_number(self, layer: usize, token: usize) -> int {
        layer * self.max_seq_len + token
    }

    /// The key of a token of a layer.
    pub open spec fn key(self, layer: usize, token: usize) -> Seq<T> {
        row(self.keys, self.row_number(layer, token), self.width())
    }

    /// The value of a token of a layer.
    pub open spec fn value(self, layer: usize, token: usize) -> Seq<T> {
        row(self.values, self.row_number(layer, token), self.width())
    }

    /// Whether the cache has such a token.
    pub open spec fn has(self, layer: usize, token: usize) -> bool {
        &&& layer < self.block_count
        &&& token < self.max_seq_len
        &&& self.head_count_kv > 0
        &&& self.head_dim > 0
    }

    /// Whether both caches have the same dimensions.
    pub open spec fn shaped_as(self, other: CacheView<T>) -> bool {
        &&& self.head_dim == other.head_dim
        &&& self.head_count_kv == other.head_count_kv
        &&& self.max_seq_len == other.max_seq_len
        &&& self.block_count == other.block_count
    }
}

/// A table with one row replaced.
pub open spec fn with_row<T>(table: Seq<T>, i: int, width: int, line: Seq<T>) -> Seq<T> {
    table.take(i * width) + line + table.skip((i + 1) * width)
}

/// The cache after a token was written.
pub open spec fn written<T>(
    c: CacheView<T>,
    layer: usize,
    token: usize,
    key: Seq<T>,
    value: Seq<T>,
) -> CacheView<T> {
    CacheView {
        head_dim: c.head_dim,
        head_count_kv: c.head_count_kv,
        max_seq_len: c.max_seq_len,
        block_count: c.block_count,
        keys: with_row(c.keys, c.row_number(layer, token), c.width(), key),
        values: with_row(c.values, c.row_number(layer, token), c.width(), value),
    }
}

/// The error of a token that the cache does not have.
pub open spec fn no_token(layer: usize, token: usize) -> ErrorView {
    message(
        "KV cache index out of bounds: layer="@ + dec(layer as nat) + ", token="@ + dec(
            token as nat,
        ) + ", kv_head=0, dim=0"@,
    )
}

/// What is wrong with writing a token, if anything.
pub open spec fn write_error<T>(
    c: CacheView<T>,
    layer: usize,
    token: usize,
    key: nat,
    value: nat,
) -> Option<ErrorView> {
    if key != c.width() || value != c.width() {
        Some(
            message(
                "KV token width mismatch: expected "@ + dec(c.width() as nat) + ", got key="@ + dec(
                    key,
                ) + " value="@ + dec(value),
            ),
        )
    } else if !c.has(layer, token) {
        Some(no_token(layer, token))
    } else {
        None
    }
}

pub(crate) proof fn lemma_row_inside<T>(c: CacheView<T>, layer: usize, token: usize)
    requires
        c.full(),
        c.has(layer, token),
    ensures
        0 <= c.row_number(layer, token) < c.block_count * c.max_seq_len,
        c.width() > 0,
        c.block_count * c.max_seq_len <= c.keys.len(),
        0 <= layer * c.max_seq_len <= c.row_number(layer, token),
        0 <= c.row_number(layer, token) * c.width(),
        c.row_number(layer, token) * c.width() + c.width() == (c.row_number(layer, token) + 1)
            * c.width(),
        (c.row_number(layer, token) + 1) * c.width() <= c.keys.len(),
{
    lemma_cell(layer as int, c.block_count as int, token as int, c.max_seq_len as int);
    assert(c.width() > 0) by (nonlinear_arith)
        requires
            c.width() == c.head_dim * c.head_count_kv,
            c.head_dim > 0,
            c.head_count_kv > 0,
    ;
    let rows = c.block_count * c.max_seq_len;
    let w = c.width();
    assert(rows <= rows * w) by (nonlinear_arith)
        requires
            rows >= 0,
            w >= 1,
    ;
    lemma_rows_monotone(layer as int, layer as int, c.max_seq_len as int);
    lemma_next_row(c.row_number(layer, token), w);
    lemma_rows_monotone(c.row_number(layer, token) + 1, rows, w);
    lemma_rows_monotone(0, c.row_number(layer, token), w);
}

fn put_row<T: Copy>(table: &mut Vec<T>, start: usize, line: &[T])
    requires
        start + line@.len() <= old(table)@.len(),
    ensures
        final(table)@ == old(table)@.take(start as int) + line@ + old(table)@.skip(
            start + line@.len(),
        ),
{
    let ghost before = table@;
    let size: usize = table.len();
    let mut i: usize = 0;
    while i < line.len()
        invariant
            i <= line@.len(),
            before.len() == size,
            table@.len() == before.len(),
            start + line@.len() <= before.len(),
            forall|k: int| 0 <= k < i ==> #[trigger] table@[start + k] == line@[k],
            forall|k: int|
                0 <= k < before.len() && !(start <= k < start + i) ==> #[trigger] table@[k]
                    == before[k],
        decreases line@.len() - i,
    {
        let ghost last = table@;
        table.set(start + i, line[i]);
        assert forall|k: int| 0 <= k < i + 1 implies #[trigger] table@[start + k] == line@[k] by {
            if k < i {
                assert(last[start + k] == line@[k]);
            }
        }
        i = i + 1;
    }
    let ghost wanted = before.take(start as int) + line@ + before.skip(start + line@.len());
    assert forall|k: int| 0 <= k < wanted.len() implies #[trigger] table@[k] == wanted[k] by {
        if start <= k < start + line@.len() {
            assert(table@[start + (k - start)] == line@[k - start]);
        }
    }
    assert(table@ =~= wanted);
}

/// What is wrong with the size of a cache, if anything.
pub open spec fn cache_size_error(spec: KvCacheSpec, max_seq_len: usize) -> Option<ErrorView> {
    let w = spec.head_dim * spec.head_count_kv;
    if spec.head_dim > usize::MAX {
        Some(message("KV cache head_dim overflows usize"@))
    } else if spec.head_count_kv > usize::MAX {
        Some(message("KV cache head_count_kv overflows usize"@))
    } else if spec.block_count > usize::MAX {
        Some(message("KV cache block_count overflows usize"@))
    } else if w > usize::MAX || w * max_seq_len > usize::MAX || (w * max_seq_len) * spec.block_count
        > usize::MAX {
        Some(message("KV cache length overflow"@))
    } else {
        None
    }
}

fn filled<T: Copy>(value: T, count: usize) -> (r: Vec<T>)
    ensures
        r@ == Seq::new(count as nat, |i: int| value),
{
    let mut out: Vec<T> = Vec::new();
    let mut i: usize = 0;
    while i < count
        invariant
            i <= count,
            out@ == Seq::new(i as nat, |k: int| value),
        decreases count - i,
    {
        out.push(value);
        i = i + 1;
        assert(out@ =~= Seq::new(i as nat, |k: int| value));
    }
    out
}

fn no_token_error(layer: usize, token: usize) -> (r: InferError)
    ensures
        r@ == no_token(layer, token),
{
    let a = dec_usize(layer);
    let b = dec_usize(token);
    InferError::Message(
        String::from_str("KV cache index out of bounds: layer=").concat(a.as_str()).concat(
            ", token=",
        ).concat(b.as_str()).concat(", kv_head=0, dim=0"),
    )
}

impl<T: Copy> SlowArKvCache<T> {
    /// A cache for `max_seq_len` tokens, all of it zero.
    pub fn new(spec: KvCacheSpec, max_seq_len: usize, zero: T) -> (r: Result<
        SlowArKvCache<T>,
        InferError,
    >)
        ensures
            match r {
                Ok(c) => {
                    &&& cache_size_error(spec, max_seq_len) is None
                    &&& c@.head_dim == spec.head_dim
                    &&& c@.head_count_kv == spec.head_count_kv
                    &&& c@.max_seq_len == max_seq_len
                    &&& c@.block_count == spec.block_count
                    &&& c@.full()
                    &&& forall|i: int| 0 <= i < c@.keys.len() ==> #[trigger] c@.keys[i] == zero
                    &&& forall|i: int| 0 <= i < c@.values.len() ==> #[trigger] c@.values[i] == zero
                },
                Err(e) => cache_size_error(spec, max_seq_len) == Some(e@),
            },
    {
        if spec.head_dim as u64 > usize::MAX as u64 {
            return Err(InferError::text("KV cache head_dim overflows usize"));
        }
        if spec.head_count_kv as u64 > usize::MAX as u64 {
            return Err(InferError::text("KV cache head_count_kv overflows usize"));
        }
        if spec.block_count as u64 > usize::MAX as u64 {
            return Err(InferError::text("KV cache block_count overflows usize"));
        }
        let head_dim: usize = spec.head_dim as usize;
        let head_count_kv: usize = spec.head_count_kv as usize;
        let block_count: usize = spec.block_count as usize;
        let width: usize = match head_dim.checked_mul(head_count_kv) {
            None => {
                return Err(InferError::text("KV cache length overflow"));
            },
            Some(n) => n,
        };
        let per_layer: usize = match width.checked_mul(max_seq_len) {
            None => {
                return Err(InferError::text("KV cache length overflow"));
            },
            Some(n) => n,
        };
        let len: usize = match per_layer.checked_mul(block_count) {
            None => {
                return Err(InferError::text("KV cache length overflow"));
            },
            Some(n) => n,
        };
        assert((width * max_seq_len) * block_count == (block_count * max_seq_len) * width)
            by (nonlinear_arith);
        Ok(
            SlowArKvCache {
                head_dim,
                head_count_kv,
                max_seq_len,
                block_count,
                keys: filled(zero, len),
                values: filled(zero, len),
            },
        )
    }

    /// Values for each head, heads for each token, tokens for each layer, and layers.
    pub fn dimensions(&self) -> (r: [usize; 4])
        ensures
            r@ == seq![
                self@.head_dim,
                self@.head_count_kv,
                self@.max_seq_len,
                self@.block_count,
            ],
    {
        let r: [usize; 4] = [
            self.head_dim,
            self.head_count_kv,
            self.max_seq_len,
            self.block_count,
        ];
        assert(r@ =~= seq![
            self@.head_dim,
            self@.head_count_kv,
            self@.max_seq_len,
            self@.block_count,
        ]);
        r
    }

    fn start_of(&self, layer: usize, token: usize) -> (r: usize)
        requires
            self@.full(),
            self@.has(layer, token),
            self@.keys.len() <= usize::MAX,
        ensures
            r == self@.row_number(layer, token) * self@.width(),
    {
        proof {
            lemma_row_inside(self@, layer, token);
        }
        let number: usize = layer * self.max_seq_len + token;
        number * (self.head_dim * self.head_count_kv)
    }

    fn has_token(&self, layer: usize, token: usize) -> (r: bool)
        ensures
            r == self@.has(layer, token),
    {
        layer < self.block_count && token < self.max_seq_len && self.head_count_kv > 0
            && self.head_dim > 0
    }

    /// Writes key and value of a token.
    pub fn write_token(
        &mut self,
        layer: usize,
        token: usize,
        key_heads: &[T],
        value_heads: &[T],
    ) -> (r: Result<(), InferError>)
        requires
            old(self)@.full(),
        ensures
            final(self)@.full(),
            match r {
                Ok(_) => write_error(
                    old(self)@,
                    layer,
                    token,
                    key_heads@.len(),
                    value_heads@.len(),
                ) is None && final(self)@ == written(
                    old(self)@,
                    layer,
                    token,
                    key_heads@,
                    value_heads@,
                ),
                Err(e) => write_error(
                    old(self)@,
                    layer,
                    token,
                    key_heads@.len(),
                    value_heads@.len(),
                ) == Some(e@) && final(self)@ == old(self)@,
            },
    {
        let width: usize = self.head_dim * self.head_count_kv;
        if key_heads.len() != width || value_heads.len() != width {
            let a = dec_usize(width);
            let b = dec_usize(key_heads.len());
            let c = dec_usize(value_heads.len());
            return Err(
                InferError::Message(
                    String::from_str("KV token width mismatch: expected ").concat(
                        a.as_str(),
                    ).concat(", got key=").concat(b.as_str()).concat(" value=").concat(c.as_str()),
                ),
            );
        }
        if !self.has_token(layer, token) {
            return Err(no_token_error(layer, token));
        }
        let size: usize = self.keys.len();
        proof {
            lemma_row_inside(self@, layer, token);
        }
        let start: usize = self.start_of(layer, token);
        put_row(&mut self.keys, start, key_heads);
        put_row(&mut self.values, start, value_heads);
        Ok(())
    }

    /// The key of a token.
    pub fn key_token(&self, layer: usize, token: usize) -> (r: Result<&[T], InferError>)
        requires
            self@.full(),
        ensures
            match r {
                Ok(s) => self@.has(layer, token) && s@ == self@.key(layer, token),
                Err(e) => !self@.has(layer, token) && e@ == no_token(layer, token),
            },
    {
        if !self.has_token(layer, token) {
            return Err(no_token_error(layer, token));
        }
        let size: usize = self.keys.len();
        proof {
            lemma_row_inside(self@, layer, token);
        }
        let start: usize = self.start_of(layer, token);
        Ok(
            slice_subrange(
                self.keys.as_slice(),
                start,
                start + self.head_dim * self.head_count_kv,
            ),
        )
    }

    /// The value of a token.
    pub fn value_token(&self, layer: usize, token: usize) -> (r: Result<&[T], InferError>)
        requires
            self@.full(),
        ensures
            match r {
                Ok(s) => self@.has(layer, token) && s@ == self@.value(layer, token),
                Err(e) => !self@.has(layer, token) && e@ == no_token(layer, token),
            },
    {
        if !self.has_token(layer, token) {
            return Err(no_token_error(layer, token));
        }
        let size: usize = self.keys.len();
        proof {
            lemma_row_inside(self@, layer, token);
        }
        let start: usize = self.start_of(layer, token);
        Ok(
            slice_subrange(
                self.values.as_slice(),
                start,
                start + self.head_dim * self.head_count_kv,
            ),
        )
    }
}

proof fn lemma_row_replaced<T>(table: Seq<T>, count: int, i: int, width: int, line: Seq<T>, k: int)
    requires
        table.len() == count * width,
        0 <= i < count,
        0 <= k < count,
        0 <= width,
        line.len() == width,
    ensures
        with_row(table, i, width, line).len() == table.len(),
        row(with_row(table, i, width, line), k, width) == (if k == i {
            line
        } else {
            row(table, k, width)
        }),
{
    let after = with_row(table, i, width, line);
    lemma_next_row(i, width);
    lemma_next_row(k, width);
    lemma_rows_monotone(i + 1, count, width);
    lemma_rows_monotone(k + 1, count, width);
    lemma_rows_monotone(0, i, width);
    lemma_rows_monotone(0, k, width);
    if k == i {
        assert(row(after, k, width) =~= line);
    } else if k < i {
        lemma_rows_monotone(k + 1, i, width);
        assert(row(after, k, width) =~= row(table, k, width));
    } else {
        lemma_rows_monotone(i + 1, k, width);
        assert(row(after, k, width) =~= row(table, k, width));
    }
}

/// What was written for a token is what is read for it; every other token keeps what it had.
pub proof fn tokens_are_kept_apart<T>(
    c: CacheView<T>,
    layer: usize,
    token: usize,
    key: Seq<T>,
    value: Seq<T>,
    other_layer: usize,
    other_token: usize,
)
    requires
        c.full(),
        write_error(c, layer, token, key.len(), value.len()) is None,
        c.has(other_layer, other_token),
    ensures
        written(c, layer, token, key, value).full(),
        written(c, layer, token, key, value).key(layer, token) == key,
        written(c, layer, token, key, value).value(layer, token) == value,
        (layer, token) != (other_layer, other_token) ==> written(
            c,
            layer,
            token,
            key,
            value,
        ).key(other_layer, other_token) == c.key(other_layer, other_token) && written(
            c,
            layer,
            token,
            key,
            value,
        ).value(other_layer, other_token) == c.value(other_layer, other_token),
{
    lemma_row_inside(c, layer, token);
    lemma_row_inside(c, other_layer, other_token);
    let i = c.row_number(layer, token);
    let k = c.row_number(other_layer, other_token);
    let rows = c.block_count * c.max_seq_len;
    lemma_cell(layer as int, c.block_count as int, token as int, c.max_seq_len as int);
    lemma_cell(other_layer as int, c.block_count as int, other_token as int, c.max_seq_len as int);
    lemma_row_replaced(c.keys, rows, i, c.width(), key, i);
    lemma_row_replaced(c.values, rows, i, c.width(), value, i);
    lemma_row_replaced(c.keys, rows, i, c.width(), key, k);
    lemma_row_replaced(c.values, rows, i, c.width(), value, k);
}

// ---------------------------------------------------------------------
// Positions
// ---------------------------------------------------------------------

/// Whether a rotary base, given by its bits, is zero or negative.
pub open spec fn base_refused(bits: u32) -> bool {
    bits == 0 || 0x8000_0000 <= bits <= 0xff80_0000
}

/// What is wrong with turning values by their position, if anything.
pub open spec fn rope_error(
    size: nat,
    head_dim: usize,
    base: u32,
    base_text: Seq<char>,
) -> Option<ErrorView> {
    if head_dim == 0 || head_dim % 2 != 0 {
        Some(message("RoPE head_dim must be non-zero and even, got "@ + dec(head_dim as nat)))
    } else if size % (head_dim as nat) != 0 {
        Some(
            message(
                "RoPE values length "@ + dec(size) + " is not a multiple of head_dim "@ + dec(
                    head_dim as nat,
                ),
            ),
        )
    } else if base_refused(base) {
        Some(message("RoPE base must be positive, got "@ + base_text))
    } else {
        None
    }
}

/// Whether two values are turned by an angle given by its cosine and sine: the first times the
/// cosine less the second times the sine, and the first times the sine plus the second times the
/// cosine.
pub open spec fn is_turn<T: Copy, F: Fn(Op, T, T, T) -> T>(
    x: T,
    y: T,
    cos: T,
    sin: T,
    calc: Calc<T, F>,
    first: T,
    second: T,
) -> bool {
    exists|xc: T, ys: T, xs: T, yc: T|
        {
            &&& #[trigger] calc.gives(Op::Times, x, cos, calc.zero, xc)
            &&& #[trigger] calc.gives(Op::Times, y, sin, calc.zero, ys)
            &&& calc.gives(Op::Minus, xc, ys, calc.zero, first)
            &&& #[trigger] calc.gives(Op::Times, x, sin, calc.zero, xs)
            &&& #[trigger] calc.gives(Op::Times, y, cos, calc.zero, yc)
            &&& calc.gives(Op::Plus, xs, yc, calc.zero, second)
        }
}

/// Whether the pair at place `k` was turned by the angle of its position.
pub open spec fn is_turned<T: Copy, F: Fn(Op, T, T, T) -> T>(
    before: Seq<T>,
    after: Seq<T>,
    k: int,
    head_dim: usize,
    position: usize,
    base: u32,
    calc: Calc<T, F>,
) -> bool {
    let place = (k % (head_dim as int)) as usize;
    exists|cos: T, sin: T|
        #![trigger is_turn(before[k], before[k + 1], cos, sin, calc, after[k], after[k + 1])]
        {
            &&& calc.gives(
                Op::Cos(position, place, head_dim, base),
                calc.zero,
                calc.zero,
                calc.zero,
                cos,
            )
            &&& calc.gives(
                Op::Sin(position, place, head_dim, base),
                calc.zero,
                calc.zero,
                calc.zero,
                sin,
            )
            &&& is_turn(before[k], before[k + 1], cos, sin, calc, after[k], after[k + 1])
        }
}

fn turn<T: Copy, F: Fn(Op, T, T, T) -> T>(x: T, y: T, cos: T, sin: T, calc: &Calc<T, F>) -> (r: (
    T,
    T,
))
    requires
        calc.works(),
    ensures
        is_turn(x, y, cos, sin, *calc, r.0, r.1),
{
    let xc: T = calc.two(Op::Times, x, cos);
    let ys: T = calc.two(Op::Times, y, sin);
    let first: T = calc.two(Op::Minus, xc, ys);
    let xs: T = calc.two(Op::Times, x, sin);
    let yc: T = calc.two(Op::Times, y, cos);
    let second: T = calc.two(Op::Plus, xs, yc);
    (first, second)
}

/// Whether all pairs are turned by the angles of their position.
pub open spec fn all_turned<T: Copy, F: Fn(Op, T, T, T) -> T>(
    before: Seq<T>,
    after: Seq<T>,
    head_dim: usize,
    position: usize,
    base: u32,
    calc: Calc<T, F>,
) -> bool {
    &&& after.len() == before.len()
    &&& forall|k: int|
        0 <= k < before.len() && k % 2 == 0 ==> #[trigger] is_turned(
            before,
            after,
            k,
            head_dim,
            position,
            base,
            calc,
        )
}

/// Turns each pair of neighbouring values by an angle that goes by the position and by the place
/// of the pair in its head. The base is given by its bits and the text it is shown with.
pub fn apply_rope_normal<T: Copy, F: Fn(Op, T, T, T) -> T>(
    values: &mut Vec<T>,
    head_dim: usize,
    position: usize,
    rope_base: u32,
    base_text: &str,
    calc: &Calc<T, F>,
) -> (r: Result<(), InferError>)
    requires
        calc.works(),
    ensures
        match r {
            Ok(_) => rope_error(old(values)@.len(), head_dim, rope_base, base_text@) is None
                && all_turned(old(values)@, final(values)@, head_dim, position, rope_base, *calc),
            Err(e) => rope_error(old(values)@.len(), head_dim, rope_base, base_text@) == Some(e@)
                && final(values)@ == old(values)@,
        },
{
    if head_dim == 0 || head_dim % 2 != 0 {
        let a = dec_usize(head_dim);
        return Err(
            InferError::Message(
                String::from_str("RoPE head_dim must be non-zero and even, got ").concat(
                    a.as_str(),
                ),
            ),
        );
    }
    let size: usize = values.len();
    if size % head_dim != 0 {
        let a = dec_usize(size);
        let b = dec_usize(head_dim);
        return Err(
            InferError::Message(
                String::from_str("RoPE values length ").concat(a.as_str()).concat(
                    " is not a multiple of head_dim ",
                ).concat(b.as_str()),
            ),
        );
    }
    if rope_base == 0 || (rope_base >= 0x8000_0000 && rope_base <= 0xff80_0000) {
        return Err(
            InferError::Message(
                String::from_str("RoPE base must be positive, got ").concat(base_text),
            ),
        );
    }
    let ghost before = values@;
    assert(size % 2 == 0) by {
        let q = size as int / head_dim as int;
        let half = head_dim as int / 2;
        vstd::arithmetic::div_mod::lemma_fundamental_div_mod(size as int, head_dim as int);
        assert(head_dim * q == 2 * (half * q)) by (nonlinear_arith)
            requires
                head_dim == 2 * half,
        ;
    }
    let mut k: usize = 0;
    while k < size
        invariant
            k <= size,
            k % 2 == 0,
            size % 2 == 0,
            head_dim > 0,
            before.len() == size,
            values@.len() == size,
            calc.works(),
            forall|j: int| k <= j < size ==> #[trigger] values@[j] == before[j],
            forall|j: int|
                0 <= j < k && j % 2 == 0 ==> #[trigger] is_turned(
                    before,
                    values@,
                    j,
                    head_dim,
                    position,
                    rope_base,
                    *calc,
                ),
        decreases size - k,
    {
        let ghost last = values@;
        let cos: T = calc.constant(Op::Cos(position, k % head_dim, head_dim, rope_base));
        let sin: T = calc.constant(Op::Sin(position, k % head_dim, head_dim, rope_base));
        let turned: (T, T) = turn(values[k], values[k + 1], cos, sin, calc);
        values.set(k, turned.0);
        values.set(k + 1, turned.1);
        assert forall|j: int| 0 <= j < k + 2 && j % 2 == 0 implies #[trigger] is_turned(
            before,
            values@,
            j,
            head_dim,
            position,
            rope_base,
            *calc,
        ) by {
            if j < k {
                assert(is_turned(before, last, j, head_dim, position, rope_base, *calc));
                assert(last[j] == values@[j] && last[j + 1] == values@[j + 1]);
            } else {
                assert(is_turn(
                    before[j],
                    before[j + 1],
                    cos,
                    sin,
                    *calc,
                    values@[j],
                    values@[j + 1],
                ));
            }
        }
        k = k + 2;
    }
    Ok(())
}

// ---------------------------------------------------------------------
// Attention
// ---------------------------------------------------------------------

/// Whether these are the results of taking in the items one after another, from `start` on.
pub open spec fn folded<T: Copy, F: Fn(Op, T, T, T) -> T>(
    chain: Seq<T>,
    items: Seq<T>,
    start: T,
    o: Op,
    calc: Calc<T, F>,
) -> bool {
    &&& 0 < chain.len() <= items.len() + 1
    &&& chain[0] == start
    &&& forall|i: int|
        0 <= i < chain.len() - 1 ==> calc.gives(
            o,
            #[trigger] chain[i],
            items[i],
            calc.zero,
            chain[i + 1],
        )
}

/// Whether the shares are the values, each raised by its distance from the largest, and divided by
/// the sum of what was raised.
pub open spec fn are_shares<T: Copy, F: Fn(Op, T, T, T) -> T>(
    values: Seq<T>,
    calc: Calc<T, F>,
    shares: Seq<T>,
) -> bool {
    &&& shares.len() == values.len()
    &&& exists|lowest: T, maxes: Seq<T>, raised: Seq<T>, totals: Seq<T>|
        {
            &&& calc.gives(
                Op::Single(0xff80_0000),
                calc.zero,
                calc.zero,
                calc.zero,
                lowest,
            )
            &&& #[trigger] folded(maxes, values, lowest, Op::Larger, calc)
            &&& maxes.len() == values.len() + 1
            &&& raised.len() == values.len()
            &&& forall|i: int|
                0 <= i < values.len() ==> calc.gives(
                    Op::Raise,
                    values[i],
                    maxes.last(),
                    calc.zero,
                    #[trigger] raised[i],
                )
            &&& #[trigger] folded(totals, raised, calc.zero, Op::Plus, calc)
            &&& totals.len() == values.len() + 1
            &&& forall|i: int|
                0 <= i < values.len() ==> calc.gives(
                    Op::Over,
                    raised[i],
                    totals.last(),
                    calc.zero,
                    #[trigger] shares[i],
                )
        }
}

/// One more item taken in.
pub proof fn lemma_fold_one<T: Copy, F: Fn(Op, T, T, T) -> T>(
    chain: Seq<T>,
    items: Seq<T>,
    start: T,
    o: Op,
    calc: Calc<T, F>,
    next: T,
)
    requires
        folded(chain, items, start, o, calc),
        chain.len() <= items.len(),
        calc.gives(o, chain.last(), items[chain.len() - 1], calc.zero, next),
    ensures
        folded(chain.push(next), items, start, o, calc),
{
    let longer = chain.push(next);
    assert forall|i: int| 0 <= i < longer.len() - 1 implies calc.gives(
        o,
        #[trigger] longer[i],
        items[i],
        calc.zero,
        longer[i + 1],
    ) by {
        assert(longer[i] == chain[i]);
        if i < chain.len() - 1 {
            assert(longer[i + 1] == chain[i + 1]);
        }
    }
}

pub(crate) fn fold_all<T: Copy, F: Fn(Op, T, T, T) -> T>(
    items: &Vec<T>,
    start: T,
    o: Op,
    calc: &Calc<T, F>,
) -> (r: (T, Ghost<Seq<T>>))
    requires
        calc.works(),
    ensures
        folded(r.1@, items@, start, o, *calc),
        r.1@.len() == items@.len() + 1,
        r.1@.last() == r.0,
{
    let mut total: T = start;
    let ghost mut chain: Seq<T> = seq![start];
    let mut i: usize = 0;
    while i < items.len()
        invariant
            i <= items@.len(),
            calc.works(),
            folded(chain, items@, start, o, *calc),
            chain.len() == i + 1,
            chain.last() == total,
        decreases items@.len() - i,
    {
        let next: T = calc.two(o, total, items[i]);
        proof {
            lemma_fold_one(chain, items@, start, o, *calc, next);
            chain = chain.push(next);
        }
        total = next;
        i = i + 1;
    }
    (total, Ghost(chain))
}

pub(crate) fn map_with<T: Copy, F: Fn(Op, T, T, T) -> T>(
    items: &Vec<T>,
    with: T,
    o: Op,
    calc: &Calc<T, F>,
) -> (r: Vec<T>)
    requires
        calc.works(),
    ensures
        r@.len() == items@.len(),
        forall|i: int|
            0 <= i < items@.len() ==> calc.gives(
                o,
                items@[i],
                with,
                calc.zero,
                #[trigger] r@[i],
            ),
{
    let mut out: Vec<T> = Vec::new();
    let mut i: usize = 0;
    while i < items.len()
        invariant
            i <= items@.len(),
            out@.len() == i,
            calc.works(),
            forall|k: int|
                0 <= k < i ==> calc.gives(o, items@[k], with, calc.zero, #[trigger] out@[k]),
        decreases items@.len() - i,
    {
        let v: T = calc.two(o, items[i], with);
        out.push(v);
        i = i + 1;
    }
    out
}

/// Turns scores into shares: each raised by its distance from the largest, and divided by the sum
/// of what was raised.
pub fn softmax<T: Copy, F: Fn(Op, T, T, T) -> T>(values: &Vec<T>, calc: &Calc<T, F>) -> (r: Vec<T>)
    requires
        calc.works(),
    ensures
        are_shares(values@, *calc, r@),
{
    let lowest: T = calc.constant(Op::Single(0xff80_0000));
    let largest = fold_all(values, lowest, Op::Larger, calc);
    let raised = map_with(values, largest.0, Op::Raise, calc);
    let total = fold_all(&raised, calc.zero, Op::Plus, calc);
    let out = map_with(&raised, total.0, Op::Over, calc);
    proof {
        let maxes = largest.1@;
        let totals = total.1@;
        assert(folded(maxes, values@, lowest, Op::Larger, *calc));
        assert(folded(totals, raised@, calc.zero, Op::Plus, *calc));
    }
    out
}

/// By what the scores of an attention are multiplied: one over the root of the size of a head, or a
/// number given by its bits.
#[derive(Debug, Clone, Copy, PartialEq, Eq, Structural)]
pub enum AttentionScale {
    OfHead(usize),
    Number(u32),
}

impl AttentionScale {
    /// What is done to a score.
    pub open spec fn op(self) -> Op {
        match self {
            AttentionScale::OfHead(size) => Op::HeadScale(size),
            AttentionScale::Number(bits) => Op::ScaleBy(bits),
        }
    }

    fn scaling(self) -> (r: Op)
        ensures
            r == self.op(),
    {
        match self {
            AttentionScale::OfHead(size) => Op::HeadScale(size),
            AttentionScale::Number(bits) => Op::ScaleBy(bits),
        }
    }
}

/// How many heads ask, how many answer, how large a head is, how many tokens there are, and how
/// scores are scaled.
#[derive(Debug, Clone, Copy, PartialEq, Eq, Structural)]
pub struct GqaAttentionShape {
    pub head_count: usize,
    pub head_count_kv: usize,
    pub head_dim: usize,
    pub token_count: usize,
    pub attn_scale: AttentionScale,
}

/// What is wrong with the sizes of an attention, if anything.
pub open spec fn gqa_error(
    query: nat,
    key: nat,
    value: nat,
    s: GqaAttentionShape,
) -> Option<ErrorView> {
    let kv = s.token_count * s.head_count_kv;
    if s.head_count_kv == 0 || s.head_count % s.head_count_kv != 0 {
        Some(
            message(
                "invalid GQA split: heads="@ + dec(s.head_count as nat) + ", kv_heads="@ + dec(
                    s.head_count_kv as nat,
                ),
            ),
        )
    } else if s.head_dim == 0 || s.token_count == 0 {
        Some(
            message(
                "invalid attention dims: head_dim="@ + dec(s.head_dim as nat) + ", token_count="@
                    + dec(s.token_count as nat),
            ),
        )
    } else if s.head_count * s.head_dim > usize::MAX {
        Some(message("query length overflow"@))
    } else if kv > usize::MAX || kv * s.head_dim > usize::MAX {
        Some(message("KV length overflow"@))
    } else if query != s.head_count * s.head_dim {
        Some(mismatch("query length"@, (s.head_count * s.head_dim) as nat, query))
    } else if key != kv * s.head_dim || value != kv * s.head_dim {
        Some(
            message(
                "KV length mismatch: expected "@ + dec((kv * s.head_dim) as nat) + ", got key="@
                    + dec(key) + " value="@ + dec(value),
            ),
        )
    } else {
        None
    }
}

/// Checks the sizes of an attention.
pub fn validate_gqa_shapes<T>(
    query_heads: &[T],
    key_tokens: &[T],
    value_tokens: &[T],
    shape: GqaAttentionShape,
) -> (r: Result<(), InferError>)
    ensures
        match r {
            Ok(_) => gqa_error(
                query_heads@.len(),
                key_tokens@.len(),
                value_tokens@.len(),
                shape,
            ) is None,
            Err(e) => gqa_error(
                query_heads@.len(),
                key_tokens@.len(),
                value_tokens@.len(),
                shape,
            ) == Some(e@),
        },
{
    if shape.head_count_kv == 0 || shape.head_count % shape.head_count_kv != 0 {
        let a = dec_usize(shape.head_count);
        let b = dec_usize(shape.head_count_kv);
        return Err(
            InferError::Message(
                String::from_str("invalid GQA split: heads=").concat(a.as_str()).concat(
                    ", kv_heads=",
                ).concat(b.as_str()),
            ),
        );
    }
    if shape.head_dim == 0 || shape.token_count == 0 {
        let a = dec_usize(shape.head_dim);
        let b = dec_usize(shape.token_count);
        return Err(
            InferError::Message(
                String::from_str("invalid attention dims: head_dim=").concat(a.as_str()).concat(
                    ", token_count=",
                ).concat(b.as_str()),
            ),
        );
    }
    let query: usize = match shape.head_count.checked_mul(shape.head_dim) {
        None => {
            return Err(InferError::text("query length overflow"));
        },
        Some(n) => n,
    };
    let rows: usize = match shape.token_count.checked_mul(shape.head_count_kv) {
        None => {
            return Err(InferError::text("KV length overflow"));
        },
        Some(n) => n,
    };
    let kv: usize = match rows.checked_mul(shape.head_dim) {
        None => {
            return Err(InferError::text("KV length overflow"));
        },
        Some(n) => n,
    };
    let found: usize = query_heads.len();
    if found != query {
        return Err(size_mismatch("query length", query, found));
    }
    if key_tokens.len() != kv || value_tokens.len() != kv {
        let a = dec_usize(kv);
        let b = dec_usize(key_tokens.len());
        let c = dec_usize(value_tokens.len());
        return Err(
            InferError::Message(
                String::from_str("KV length mismatch: expected ").concat(a.as_str()).concat(
                    ", got key=",
                ).concat(b.as_str()).concat(" value=").concat(c.as_str()),
            ),
        );
    }
    Ok(())
}

/// Whether a score is that of a token: key times query, scaled.
pub open spec fn is_score<T: Copy, F: Fn(Op, T, T, T) -> T>(
    query: Seq<T>,
    key: Seq<T>,
    scale: AttentionScale,
    calc: Calc<T, F>,
    r: T,
) -> bool {
    exists|s: T|
        #[trigger] gathered(pairs(query, key), calc.zero, calc, s) && calc.gives(
            scale.op(),
            s,
            calc.zero,
            calc.zero,
            r,
        )
}

/// Whether these are the scores of all tokens for the head that answers.
pub open spec fn are_scores<T: Copy, F: Fn(Op, T, T, T) -> T>(
    query: Seq<T>,
    keys: Seq<T>,
    kv_head: int,
    s: GqaAttentionShape,
    calc: Calc<T, F>,
    scores: Seq<T>,
) -> bool {
    forall|t: int|
        0 <= t < scores.len() ==> is_score(
            query,
            row(keys, t * s.head_count_kv + kv_head, s.head_dim as int),
            s.attn_scale,
            calc,
            #[trigger] scores[t],
        )
}

/// The shares of the tokens with what each token holds at one place of a head.
pub open spec fn value_terms<T>(
    shares: Seq<T>,
    values: Seq<T>,
    kv_head: int,
    s: GqaAttentionShape,
    d: int,
) -> Seq<(T, T)> {
    Seq::new(
        shares.len(),
        |t: int| (shares[t], row(values, t * s.head_count_kv + kv_head, s.head_dim as int)[d]),
    )
}

/// Whether these are the tokens' values, mixed by their shares.
pub open spec fn is_mixed<T: Copy, F: Fn(Op, T, T, T) -> T>(
    shares: Seq<T>,
    values: Seq<T>,
    kv_head: int,
    s: GqaAttentionShape,
    calc: Calc<T, F>,
    out: Seq<T>,
) -> bool {
    forall|d: int|
        0 <= d < out.len() ==> gathered(
            value_terms(shares, values, kv_head, s, d),
            calc.zero,
            calc,
            #[trigger] out[d],
        )
}

/// Whether a head's answer is the tokens' values, mixed by shares that come from the scores.
pub open spec fn is_answer<T: Copy, F: Fn(Op, T, T, T) -> T>(
    query: Seq<T>,
    keys: Seq<T>,
    values: Seq<T>,
    kv_head: int,
    s: GqaAttentionShape,
    calc: Calc<T, F>,
    out: Seq<T>,
) -> bool {
    &&& out.len() == s.head_dim
    &&& exists|scores: Seq<T>, shares: Seq<T>|
        {
            &&& scores.len() == s.token_count
            &&& are_scores(query, keys, kv_head, s, calc, scores)
            &&& #[trigger] are_shares(scores, calc, shares)
            &&& is_mixed(shares, values, kv_head, s, calc, out)
        }
}

proof fn lemma_token_row(t: int, h: int, s: GqaAttentionShape, size: nat)
    requires
        0 <= t < s.token_count,
        0 <= h < s.head_count_kv,
        size == (s.token_count * s.head_count_kv) * s.head_dim,
    ensures
        0 <= t * s.head_count_kv + h < s.token_count * s.head_count_kv,
        0 <= (t * s.head_count_kv + h) * s.head_dim,
        (t * s.head_count_kv + h + 1) * s.head_dim == (t * s.head_count_kv + h) * s.head_dim
            + s.head_dim,
        (t * s.head_count_kv + h + 1) * s.head_dim <= size,
        0 <= t * s.head_count_kv <= t * s.head_count_kv + h,
{
    lemma_cell(t, s.token_count as int, h, s.head_count_kv as int);
    let i = t * s.head_count_kv + h;
    lemma_rows_monotone(0, t, s.head_count_kv as int);
    lemma_rows_monotone(0, i, s.head_dim as int);
    lemma_next_row(i, s.head_dim as int);
    lemma_rows_monotone(i + 1, s.token_count * s.head_count_kv, s.head_dim as int);
}

fn score_tokens<T: Copy, F: Fn(Op, T, T, T) -> T>(
    query: &[T],
    keys: &[T],
    kv_head: usize,
    shape: GqaAttentionShape,
    calc: &Calc<T, F>,
) -> (r: Vec<T>)
    requires
        kv_head < shape.head_count_kv,
        keys.len() == (shape.token_count * shape.head_count_kv) * shape.head_dim,
        shape.token_count * shape.head_count_kv <= usize::MAX,
        calc.works(),
    ensures
        r@.len() == shape.token_count,
        are_scores(query@, keys@, kv_head as int, shape, *calc, r@),
{
    let mut scores: Vec<T> = Vec::new();
    let mut t: usize = 0;
    while t < shape.token_count
        invariant
            t <= shape.token_count,
            kv_head < shape.head_count_kv,
            keys.len() == (shape.token_count * shape.head_count_kv) * shape.head_dim,
            shape.token_count * shape.head_count_kv <= usize::MAX,
            calc.works(),
            scores@.len() == t,
            are_scores(query@, keys@, kv_head as int, shape, *calc, scores@),
        decreases shape.token_count - t,
    {
        proof {
            lemma_token_row(t as int, kv_head as int, shape, keys@.len());
        }
        let key = row_of(
            keys,
            t * shape.head_count_kv + kv_head,
            shape.head_dim,
            Ghost(shape.token_count * shape.head_count_kv),
        );
        let s: T = dot(query, key, calc);
        let score: T = calc.one(shape.attn_scale.scaling(), s);
        let ghost before = scores@;
        scores.push(score);
        assert(is_score(query@, key@, shape.attn_scale, *calc, score));
        assert forall|k: int| 0 <= k < scores@.len() implies is_score(
            query@,
            row(keys@, k * shape.head_count_kv + kv_head, shape.head_dim as int),
            shape.attn_scale,
            *calc,
            #[trigger] scores@[k],
        ) by {
            if k < t {
                assert(scores@[k] == before[k]);
            }
        }
        t = t + 1;
    }
    scores
}

fn mix_values<T: Copy, F: Fn(Op, T, T, T) -> T>(
    shares: &Vec<T>,
    values: &[T],
    kv_head: usize,
    shape: GqaAttentionShape,
    calc: &Calc<T, F>,
) -> (r: Vec<T>)
    requires
        kv_head < shape.head_count_kv,
        shares@.len() == shape.token_count,
        values.len() == (shape.token_count * shape.head_count_kv) * shape.head_dim,
        shape.token_count * shape.head_count_kv <= usize::MAX,
        calc.works(),
    ensures
        r@.len() == shape.head_dim,
        is_mixed(shares@, values@, kv_head as int, shape, *calc, r@),
{
    let mut out: Vec<T> = Vec::new();
    let mut d: usize = 0;
    while d < shape.head_dim
        invariant
            d <= shape.head_dim,
            kv_head < shape.head_count_kv,
            shares@.len() == shape.token_count,
            values.len() == (shape.token_count * shape.head_count_kv) * shape.head_dim,
            shape.token_count * shape.head_count_kv <= usize::MAX,
            calc.works(),
            out@.len() == d,
            is_mixed(shares@, values@, kv_head as int, shape, *calc, out@),
        decreases shape.head_dim - d,
    {
        let ghost terms = value_terms(shares@, values@, kv_head as int, shape, d as int);
        let mut sum: T = calc.zero;
        proof {
            lemma_gather_none(terms.take(0), calc.zero, *calc);
        }
        let mut t: usize = 0;
        while t < shape.token_count
            invariant
                t <= shape.token_count,
                d < shape.head_dim,
                kv_head < shape.head_count_kv,
                shares@.len() == shape.token_count,
                values.len() == (shape.token_count * shape.head_count_kv) * shape.head_dim,
                shape.token_count * shape.head_count_kv <= usize::MAX,
                calc.works(),
                terms == value_terms(shares@, values@, kv_head as int, shape, d as int),
                gathered(terms.take(t as int), calc.zero, *calc, sum),
            decreases shape.token_count - t,
        {
            proof {
                lemma_token_row(t as int, kv_head as int, shape, values@.len());
            }
            let line = row_of(
                values,
                t * shape.head_count_kv + kv_head,
                shape.head_dim,
                Ghost(shape.token_count * shape.head_count_kv),
            );
            let next: T = calc.run(Op::MulAdd, sum, shares[t], line[d]);
            proof {
                let term = (shares@[t as int], line@[d as int]);
                lemma_gather_one(terms.take(t as int), calc.zero, *calc, sum, term.0, term.1, next);
                assert(terms[t as int] == term);
                assert(terms.take(t as int).push(term) =~= terms.take(t as int + 1));
            }
            sum = next;
            t = t + 1;
        }
        assert(terms.take(t as int) =~= terms);
        let ghost before = out@;
        out.push(sum);
        assert forall|k: int| 0 <= k < out@.len() implies gathered(
            value_terms(shares@, values@, kv_head as int, shape, k),
            calc.zero,
            *calc,
            #[trigger] out@[k],
        ) by {
            if k < d {
                assert(out@[k] == before[k]);
            }
        }
        d = d + 1;
    }
    out
}

/// Whether these are the answers of all heads, each by the head that answers for it.
pub open spec fn are_answers<T: Copy, F: Fn(Op, T, T, T) -> T>(
    query: Seq<T>,
    keys: Seq<T>,
    values: Seq<T>,
    s: GqaAttentionShape,
    calc: Calc<T, F>,
    out: Seq<T>,
    count: int,
) -> bool {
    &&& out.len() == count * s.head_dim
    &&& forall|h: int|
        0 <= h < count ==> is_answer(
            #[trigger] row(query, h, s.head_dim as int),
            keys,
            values,
            h / (s.head_count as int / s.head_count_kv as int),
            s, calc,
            row(out, h, s.head_dim as int),
        )
}

/// Lets every head of a query ask all tokens. Heads next to each other share the head that
/// answers.
pub fn gqa_decode_attention<T: Copy, F: Fn(Op, T, T, T) -> T>(
    query_heads: &[T],
    key_tokens: &[T],
    value_tokens: &[T],
    shape: GqaAttentionShape,
    calc: &Calc<T, F>,
) -> (r: Result<Vec<T>, InferError>)
    requires
        calc.works(),
    ensures
        match r {
            Ok(out) => gqa_error(
                query_heads@.len(),
                key_tokens@.len(),
                value_tokens@.len(),
                shape,
            ) is None && are_answers(
                query_heads@,
                key_tokens@,
                value_tokens@,
                shape, *calc,
                out@,
                shape.head_count as int,
            ),
            Err(e) => gqa_error(
                query_heads@.len(),
                key_tokens@.len(),
                value_tokens@.len(),
                shape,
            ) == Some(e@),
        },
{
    match validate_gqa_shapes(query_heads, key_tokens, value_tokens, shape) {
        Err(e) => {
            return Err(e);
        },
        Ok(_) => {},
    }
    let repeat: usize = shape.head_count / shape.head_count_kv;
    let size: usize = query_heads.len();
    proof {
        vstd::arithmetic::div_mod::lemma_fundamental_div_mod(
            shape.head_count as int,
            shape.head_count_kv as int,
        );
        vstd::arithmetic::mul::lemma_mul_is_commutative(
            repeat as int,
            shape.head_count_kv as int,
        );
    }
    let mut out: Vec<T> = Vec::new();
    let mut h: usize = 0;
    while h < shape.head_count
        invariant
            h <= shape.head_count,
            shape.head_count_kv > 0,
            repeat == shape.head_count as int / shape.head_count_kv as int,
            shape.head_count == shape.head_count_kv * repeat,
            size == query_heads@.len(),
            size == shape.head_count * shape.head_dim,
            key_tokens.len() == (shape.token_count * shape.head_count_kv) * shape.head_dim,
            value_tokens.len() == (shape.token_count * shape.head_count_kv) * shape.head_dim,
            shape.token_count * shape.head_count_kv <= usize::MAX,
            calc.works(),
            are_answers(
                query_heads@,
                key_tokens@,
                value_tokens@,
                shape, *calc,
                out@,
                h as int,
            ),
        decreases shape.head_count - h,
    {
        proof {
            if repeat == 0 {
                assert(shape.head_count_kv * repeat == 0) by (nonlinear_arith)
                    requires
                        repeat == 0,
                ;
            }
            crate::arith::lemma_place(
                h as int,
                shape.head_count_kv as int,
                repeat as int,
            );
        }
        let kv_head: usize = h / repeat;
        let query = row_of(query_heads, h, shape.head_dim, Ghost(shape.head_count as int));
        let scores = score_tokens(query, key_tokens, kv_head, shape, calc);
        let shares: Vec<T> = softmax(&scores, calc);
        let mut answer = mix_values(&shares, value_tokens, kv_head, shape, calc);
        let ghost before = out@;
        let ghost new = answer@;
        out.append(&mut answer);
        proof {
            assert(are_shares(scores@, *calc, shares@));
            assert(is_answer(
                query@,
                key_tokens@,
                value_tokens@,
                kv_head as int,
                shape, *calc,
                new,
            ));
            lemma_next_row(h as int, shape.head_dim as int);
            crate::numeric::lemma_rows_of_longer(before, new, h as int, shape.head_dim as int);
        }
        h = h + 1;
    }
    Ok(out)
}

/// What is wrong with reading the first tokens of a layer, if anything.
pub open spec fn cache_slot_error<T>(
    c: CacheView<T>,
    layer: usize,
    token_count: usize,
) -> Option<ErrorView> {
    if token_count > c.max_seq_len {
        Some(
            message(
                "token_count "@ + dec(token_count as nat) + " exceeds KV cache max_seq_len "@ + dec(
                    c.max_seq_len as nat,
                ),
            ),
        )
    } else if layer >= c.block_count {
        Some(
            message(
                "layer "@ + dec(layer as nat) + " exceeds KV cache block_count "@ + dec(
                    c.block_count as nat,
                ),
            ),
        )
    } else if token_count > 0 && !c.has(layer, 0) {
        Some(no_token(layer, 0))
    } else {
        None
    }
}

/// What is wrong with attention over a cache, if anything.
pub open spec fn cache_attention_error<T>(
    c: CacheView<T>,
    layer: usize,
    token_count: usize,
    query: nat,
    head_count: usize,
) -> Option<ErrorView> {
    match cache_slot_error(c, layer, token_count) {
        Some(e) => Some(e),
        None => gqa_error(
            query,
            (token_count * c.width()) as nat,
            (token_count * c.width()) as nat,
            cache_shape(c, head_count, token_count, AttentionScale::OfHead(c.head_dim)),
        ),
    }
}

proof fn lemma_no_rows<T>(c: CacheView<T>, layer: usize)
    requires
        layer < c.block_count,
        !c.has(layer, 0),
    ensures
        c.row_number(layer, 0) * c.width() == 0,
{
    let w = c.width();
    let n = c.row_number(layer, 0);
    if c.max_seq_len == 0 {
        assert(n == 0) by (nonlinear_arith)
            requires
                n == layer * c.max_seq_len + 0,
                c.max_seq_len == 0,
        ;
        assert(0 * w == 0);
    } else {
        assert(w == 0) by (nonlinear_arith)
            requires
                w == c.head_dim * c.head_count_kv,
                c.head_dim == 0 || c.head_count_kv == 0,
        ;
        assert(n * 0 == 0);
    }
}

/// The shape of attention over a cache.
pub open spec fn cache_shape<T>(
    c: CacheView<T>,
    head_count: usize,
    token_count: usize,
    attn_scale: AttentionScale,
) -> GqaAttentionShape {
    GqaAttentionShape {
        head_count,
        head_count_kv: c.head_count_kv,
        head_dim: c.head_dim,
        token_count,
        attn_scale,
    }
}

/// The keys of the first tokens of a layer.
pub open spec fn first_rows<T>(
    c: CacheView<T>,
    table: Seq<T>,
    layer: usize,
    token_count: int,
) -> Seq<T> {
    table.subrange(
        c.row_number(layer, 0) * c.width(),
        (c.row_number(layer, 0) + token_count) * c.width(),
    )
}

pub(crate) proof fn lemma_first_rows<T>(c: CacheView<T>, layer: usize, token_count: usize)
    requires
        c.full(),
        cache_slot_error(c, layer, token_count) is None,
    ensures
        first_rows(c, c.keys, layer, token_count as int).len() == token_count * c.width(),
        first_rows(c, c.values, layer, token_count as int).len() == token_count * c.width(),
{
    let w = c.width();
    let n = c.row_number(layer, 0);
    if token_count == 0 {
        assert(0 * w == 0);
        if c.has(layer, 0) {
            lemma_row_inside(c, layer, 0);
        } else {
            lemma_no_rows(c, layer);
        }
    } else {
        lemma_row_inside(c, layer, 0);
        lemma_row_inside(c, layer, (token_count - 1) as usize);
        assert((n + token_count) * w == n * w + token_count * w) by (nonlinear_arith);
        lemma_rows_monotone(0, token_count as int, w);
    }
}

impl<T: Copy> SlowArKvCache<T> {
    /// Lets every head of a query ask the first tokens of a layer.
    pub fn decode_attention<F: Fn(Op, T, T, T) -> T>(
        &self,
        layer: usize,
        token_count: usize,
        query_heads: &[T],
        head_count: usize,
        attn_scale: AttentionScale,
        calc: &Calc<T, F>,
    ) -> (r: Result<Vec<T>, InferError>)
        requires
            self@.full(),
            calc.works(),
        ensures
            match r {
                Ok(out) => cache_attention_error(
                    self@,
                    layer,
                    token_count,
                    query_heads@.len(),
                    head_count,
                ) is None && are_answers(
                    query_heads@,
                    first_rows(self@, self@.keys, layer, token_count as int),
                    first_rows(self@, self@.values, layer, token_count as int),
                    cache_shape(self@, head_count, token_count, attn_scale),
                    *calc,
                    out@,
                    head_count as int,
                ),
                Err(e) => cache_attention_error(
                    self@,
                    layer,
                    token_count,
                    query_heads@.len(),
                    head_count,
                ) == Some(e@),
            },
    {
        self.decode_attention_with_backend(
            &CpuMatmulBackend::new(),
            layer,
            token_count,
            query_heads,
            head_count,
            attn_scale,
            calc,
        )
    }

    /// Lets every head of a query ask the first tokens of a layer, by a backend.
    pub fn decode_attention_with_backend<F: Fn(Op, T, T, T) -> T, B: MatmulBackend<T, F>>(
        &self,
        backend: &B,
        layer: usize,
        token_count: usize,
        query_heads: &[T],
        head_count: usize,
        attn_scale: AttentionScale,
        calc: &Calc<T, F>,
    ) -> (r: Result<Vec<T>, InferError>)
        requires
            self@.full(),
            calc.works(),
        ensures
            match cache_slot_error(self@, layer, token_count) {
                Some(e) => r is Err && r->Err_0@ == e,
                None => {
                    &&& backend.attention_gives(
                        query_heads@,
                        first_rows(self@, self@.keys, layer, token_count as int),
                        first_rows(self@, self@.values, layer, token_count as int),
                        cache_shape(self@, head_count, token_count, attn_scale),
                        *calc,
                        outcome(r),
                    )
                    &&& first_rows(self@, self@.keys, layer, token_count as int).len()
                        == token_count * self@.width()
                    &&& first_rows(self@, self@.values, layer, token_count as int).len()
                        == token_count * self@.width()
                },
            },
    {
        if token_count > self.max_seq_len {
            let a = dec_usize(token_count);
            let b = dec_usize(self.max_seq_len);
            return Err(
                InferError::Message(
                    String::from_str("token_count ").concat(a.as_str()).concat(
                        " exceeds KV cache max_seq_len ",
                    ).concat(b.as_str()),
                ),
            );
        }
        if layer >= self.block_count {
            let a = dec_usize(layer);
            let b = dec_usize(self.block_count);
            return Err(
                InferError::Message(
                    String::from_str("layer ").concat(a.as_str()).concat(
                        " exceeds KV cache block_count ",
                    ).concat(b.as_str()),
                ),
            );
        }
        let shape = GqaAttentionShape {
            head_count,
            head_count_kv: self.head_count_kv,
            head_dim: self.head_dim,
            token_count,
            attn_scale,
        };
        if token_count == 0 {
            let none: Vec<T> = Vec::new();
            proof {
                assert(0 * self@.width() == 0);
                if self@.has(layer, 0) {
                    lemma_row_inside(self@, layer, 0);
                } else {
                    lemma_no_rows(self@, layer);
                }
                assert(none@ =~= first_rows(self@, self@.keys, layer, 0));
                assert(none@ =~= first_rows(self@, self@.values, layer, 0));
            }
            return backend.gqa_decode_attention(
                query_heads,
                none.as_slice(),
                none.as_slice(),
                shape,
                calc,
            );
        }
        if !self.has_token(layer, 0) {
            return Err(no_token_error(layer, 0));
        }
        let size: usize = self.keys.len();
        proof {
            let last = (token_count - 1) as usize;
            lemma_row_inside(self@, layer, 0);
            lemma_row_inside(self@, layer, last);
            let n = self@.row_number(layer, 0);
            let w = self@.width();
            assert((n + token_count) * w == n * w + token_count * w) by (nonlinear_arith);
            assert(token_count * (self.head_dim * self.head_count_kv) == (token_count
                * self.head_count_kv) * self.head_dim) by (nonlinear_arith);
            lemma_rows_monotone(0, token_count as int, w);
        }
        let start: usize = self.start_of(layer, 0);
        let count: usize = token_count * (self.head_dim * self.head_count_kv);
        let keys = slice_subrange(self.keys.as_slice(), start, start + count);
        let values = slice_subrange(self.values.as_slice(), start, start + count);
        backend.gqa_decode_attention(query_heads, keys, values, shape, calc)
    }
}

} // verus!
