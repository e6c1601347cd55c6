//! The slow transformer: shapes, weights, time spent.
use crate::attention::{base_refused, AttentionScale};
use crate::error::{infer_outcome, message, ErrorView, InferError};
use crate::graph::ArGraphSpec;
use crate::order::{order_of, stable_order};
use crate::sizes::{checked_mul, is_finding, product_of};
use crate::text::{dec, dec_usize};
use std::time::Instant;
use vstd::prelude::*;
use vstd::string::*;

verus! {

// ---------------------------------------------------------------------
// Time spent
// ---------------------------------------------------------------------

/// `std::time::Instant`, carried as a whole.
#[verifier::external_type_specification]
#[verifier::external_body]
pub struct ExInstant(std::time::Instant);

/// `std::time::Instant::now`. Nothing is claimed of the moment.
#[verifier::external_body]
pub(crate) fn this_moment() -> (r: Instant) {
    Instant::now()
}

/// `std::time::Instant::elapsed`, in nanoseconds. Nothing is claimed of the time.
#[verifier::external_body]
fn nanoseconds_since(since: &Instant) -> (r: u64) {
    since.elapsed().as_nanos() as u64
}

/// Time spent in the parts of decoding, in nanoseconds.
#[derive(Debug, Clone, Copy, PartialEq, Eq, Structural)]
pub struct SlowArDecodeProfile {
    pub rms_norm: u64,
    pub linear: u64,
    pub gqa_attention: u64,
    pub rope: u64,
    pub kv_write: u64,
    pub swiglu: u64,
    pub output_head: u64,
}

/// The parts of decoding.
#[derive(Debug, Clone, Copy, PartialEq, Eq, Structural)]
pub enum SlowArProfileOp {
    RmsNorm,
    Linear,
    GqaAttention,
    Rope,
    KvWrite,
    Swiglu,
    OutputHead,
}

/// The time spent in one part.
pub open spec fn time_in(p: SlowArDecodeProfile, op: SlowArProfileOp) -> u64 {
    match op {
        SlowArProfileOp::RmsNorm => p.rms_norm,
        SlowArProfileOp::Linear => p.linear,
        SlowArProfileOp::GqaAttention => p.gqa_attention,
        SlowArProfileOp::Rope => p.rope,
        SlowArProfileOp::KvWrite => p.kv_write,
        SlowArProfileOp::Swiglu => p.swiglu,
        SlowArProfileOp::OutputHead => p.output_head,
    }
}

/// Two times together, as far as there is room for them.
pub open spec fn both_times(a: u64, b: u64) -> u64 {
    if a + b <= u64::MAX {
        (a + b) as u64
    } else {
        u64::MAX
    }
}

/// Whether time was spent between two profiles, and in no other parts than these.
pub open spec fn spent_in(
    before: SlowArDecodeProfile,
    after: SlowArDecodeProfile,
    parts: Set<SlowArProfileOp>,
) -> bool {
    forall|op: SlowArProfileOp|
        {
            &&& #[trigger] time_in(after, op) >= time_in(before, op)
            &&& !parts.contains(op) ==> time_in(after, op) == time_in(before, op)
        }
}

/// The parts of attention to one token.
pub open spec fn attention_ops() -> Set<SlowArProfileOp> {
    set![
        SlowArProfileOp::RmsNorm,
        SlowArProfileOp::Linear,
        SlowArProfileOp::GqaAttention,
        SlowArProfileOp::Rope,
        SlowArProfileOp::KvWrite,
    ]
}

/// The parts of the feed-forward work on one token.
pub open spec fn feed_forward_ops() -> Set<SlowArProfileOp> {
    set![SlowArProfileOp::RmsNorm, SlowArProfileOp::Linear, SlowArProfileOp::Swiglu]
}

/// The parts of the work of a layer on one token.
pub open spec fn layer_ops() -> Set<SlowArProfileOp> {
    attention_ops().union(feed_forward_ops())
}

/// The time spent in all parts.
pub open spec fn time_in_all(p: SlowArDecodeProfile) -> nat {
    (p.rms_norm + p.linear + p.gqa_attention + p.rope + p.kv_write + p.swiglu + p.output_head) as nat
}

/// The parts with their times, as they stand before sorting.
pub open spec fn listed_times(p: SlowArDecodeProfile) -> Seq<(Seq<char>, u64)> {
    seq![
        ("linear"@, p.linear),
        ("rms_norm"@, p.rms_norm),
        ("gqa_attention"@, p.gqa_attention),
        ("rope"@, p.rope),
        ("kv_write"@, p.kv_write),
        ("swiglu"@, p.swiglu),
        ("output_head"@, p.output_head),
    ]
}

/// The times of the parts, as they stand before sorting.
pub open spec fn times(p: SlowArDecodeProfile) -> Seq<u64> {
    seq![p.linear, p.rms_norm, p.gqa_attention, p.rope, p.kv_write, p.swiglu, p.output_head]
}

/// Longer times come first.
pub open spec fn longer_first() -> spec_fn(u64, u64) -> bool {
    |a: u64, b: u64| a >= b
}

fn name_at(i: usize) -> (r: &'static str)
    requires
        i < 7,
    ensures
        forall|p: SlowArDecodeProfile| (#[trigger] listed_times(p))[i as int].0 == r@,
{
    if i == 0 {
        "linear"
    } else if i == 1 {
        "rms_norm"
    } else if i == 2 {
        "gqa_attention"
    } else if i == 3 {
        "rope"
    } else if i == 4 {
        "kv_write"
    } else if i == 5 {
        "swiglu"
    } else {
        "output_head"
    }
}

impl SlowArDecodeProfile {
    /// No time spent.
    pub fn zero() -> (r: SlowArDecodeProfile)
        ensures
            time_in_all(r) == 0,
    {
        SlowArDecodeProfile {
            rms_norm: 0,
            linear: 0,
            gqa_attention: 0,
            rope: 0,
            kv_write: 0,
            swiglu: 0,
            output_head: 0,
        }
    }

    /// The time spent in all parts.
    pub fn total(self) -> (r: u64)
        requires
            time_in_all(self) <= u64::MAX,
        ensures
            r == time_in_all(self),
    {
        self.rms_norm + self.linear + self.gqa_attention + self.rope + self.kv_write + self.swiglu
            + self.output_head
    }

    /// The parts that took longest, the longest first; of equal ones the one listed first.
    pub fn top_ops(self, limit: usize) -> (r: Vec<(&'static str, u64)>)
        ensures
            r@.len() == (if limit < 7 {
                limit as int
            } else {
                7
            }),
            forall|i: int|
                0 <= i < r@.len() ==> ((#[trigger] r@[i]).0@, r@[i].1) == listed_times(
                    self,
                )[order_of(times(self), longer_first())[i] as int],
    {
        let mut list: Vec<u64> = Vec::new();
        list.push(self.linear);
        list.push(self.rms_norm);
        list.push(self.gqa_attention);
        list.push(self.rope);
        list.push(self.kv_write);
        list.push(self.swiglu);
        list.push(self.output_head);
        assert(list@ =~= times(self));
        let le = |a: &u64, b: &u64| -> (r: bool)
            ensures
                r == (*a >= *b),
            { *a >= *b };
        let order = stable_order(&list, le, Ghost(longer_first()));
        let count: usize = if limit < 7 {
            limit
        } else {
            7
        };
        let mut out: Vec<(&'static str, u64)> = Vec::new();
        let mut i: usize = 0;
        while i < count
            invariant
                i <= count <= 7,
                list@ == times(self),
                order@.len() == 7,
                order@ == order_of(times(self), longer_first()),
                forall|k: int| 0 <= k < 7 ==> #[trigger] order@[k] < 7,
                out@.len() == i,
                forall|k: int|
                    0 <= k < i ==> ((#[trigger] out@[k]).0@, out@[k].1) == listed_times(
                        self,
                    )[order@[k] as int],
            decreases count - i,
        {
            let at: usize = order[i];
            let name: &'static str = name_at(at);
            assert(listed_times(self)[at as int].0 == name@);
            assert(listed_times(self)[at as int].1 == list@[at as int]);
            out.push((name, list[at]));
            i = i + 1;
        }
        out
    }

    /// Adds time to one part, as far as there is room for it.
    pub fn charge(&mut self, op: SlowArProfileOp, elapsed: u64)
        ensures
            time_in(*final(self), op) == both_times(time_in(*old(self), op), elapsed),
            forall|other: SlowArProfileOp|
                other != op ==> #[trigger] time_in(*final(self), other) == time_in(
                    *old(self),
                    other,
                ),
    {
        match op {
            SlowArProfileOp::RmsNorm => {
                self.rms_norm = self.rms_norm.saturating_add(elapsed);
            },
            SlowArProfileOp::Linear => {
                self.linear = self.linear.saturating_add(elapsed);
            },
            SlowArProfileOp::GqaAttention => {
                self.gqa_attention = self.gqa_attention.saturating_add(elapsed);
            },
            SlowArProfileOp::Rope => {
                self.rope = self.rope.saturating_add(elapsed);
            },
            SlowArProfileOp::KvWrite => {
                self.kv_write = self.kv_write.saturating_add(elapsed);
            },
            SlowArProfileOp::Swiglu => {
                self.swiglu = self.swiglu.saturating_add(elapsed);
            },
            SlowArProfileOp::OutputHead => {
                self.output_head = self.output_head.saturating_add(elapsed);
            },
        }
    }

    /// Adds the time since a moment to one part.
    pub(crate) fn spend(&mut self, op: SlowArProfileOp, since: &Instant)
        ensures
            spent_in(*old(self), *final(self), set![op]),
    {
        self.charge(op, nanoseconds_since(since));
    }

    /// Adds the times of another profile, part by part, as far as there is room for them.
    pub fn add_assign(&mut self, rhs: SlowArDecodeProfile)
        ensures
            forall|op: SlowArProfileOp|
                #[trigger] time_in(*final(self), op) == both_times(
                    time_in(*old(self), op),
                    time_in(rhs, op),
                ),
    {
        *self = SlowArDecodeProfile {
            rms_norm: self.rms_norm.saturating_add(rhs.rms_norm),
            linear: self.linear.saturating_add(rhs.linear),
            gqa_attention: self.gqa_attention.saturating_add(rhs.gqa_attention),
            rope: self.rope.saturating_add(rhs.rope),
            kv_write: self.kv_write.saturating_add(rhs.kv_write),
            swiglu: self.swiglu.saturating_add(rhs.swiglu),
            output_head: self.output_head.saturating_add(rhs.output_head),
        };
    }
}

// ---------------------------------------------------------------------
// Shapes
// ---------------------------------------------------------------------

/// The sizes of a slow layer. Rotary base and norm epsilon are kept as bits.
#[derive(Debug, Clone, Copy, PartialEq, Eq, Structural)]
pub struct SlowArLayerShape {
    pub hidden_size: usize,
    pub feed_forward_size: usize,
    pub head_count: usize,
    pub head_count_kv: usize,
    pub head_dim: usize,
    pub rope_base: u32,
    pub rms_norm_eps: u32,
}

/// The size of joined queries, keys and values, from that of the queries and that of the keys.
pub open spec fn joined_size(
    q: Result<usize, ErrorView>,
    kv: Result<usize, ErrorView>,
) -> Result<usize, ErrorView> {
    match q {
        Err(e) => Err(e),
        Ok(a) => match kv {
            Err(e) => Err(e),
            Ok(b) => if a + 2 * b > usize::MAX {
                Err(message("WQKV output size overflow"@))
            } else {
                Ok((a + 2 * b) as usize)
            },
        },
    }
}

/// The size of joined queries, keys and values.
pub(crate) fn joined(q: Result<usize, InferError>, kv: Result<usize, InferError>) -> (r: Result<
    usize,
    InferError,
>)
    ensures
        forall|qs: Result<usize, ErrorView>, kvs: Result<usize, ErrorView>|
            infer_outcome(q, qs) && infer_outcome(kv, kvs) ==> infer_outcome(
                r,
                #[trigger] joined_size(qs, kvs),
            ),
{
    let a: usize = match q {
        Err(e) => {
            return Err(e);
        },
        Ok(n) => n,
    };
    let b: usize = match kv {
        Err(e) => {
            return Err(e);
        },
        Ok(n) => n,
    };
    match b.checked_mul(2) {
        None => Err(InferError::text("WQKV output size overflow")),
        Some(two) => match a.checked_add(two) {
            None => Err(InferError::text("WQKV output size overflow")),
            Some(n) => Ok(n),
        },
    }
}

impl SlowArLayerShape {
    /// The size of all queries.
    pub open spec fn queries(self) -> Result<usize, ErrorView> {
        product_of(self.head_count as nat, self.head_dim as nat, "q_size"@)
    }

    /// The size of all keys, and that of all values.
    pub open spec fn keys(self) -> Result<usize, ErrorView> {
        product_of(self.head_count_kv as nat, self.head_dim as nat, "kv_size"@)
    }

    /// The size of queries, keys and values.
    pub open spec fn all(self) -> Result<usize, ErrorView> {
        joined_size(self.queries(), self.keys())
    }

    /// What is wrong with the sizes, if anything. The base is shown as the given text.
    pub open spec fn error(self, base_text: Seq<char>) -> Option<ErrorView> {
        if self.hidden_size == 0 {
            Some(message("hidden_size must be non-zero"@))
        } else if self.feed_forward_size == 0 {
            Some(message("feed_forward_size must be non-zero"@))
        } else if self.head_count_kv == 0 || self.head_count % self.head_count_kv != 0 {
            Some(
                message(
                    "invalid GQA split: heads="@ + dec(self.head_count as nat) + ", kv_heads="@
                        + dec(self.head_count_kv as nat),
                ),
            )
        } else if self.head_dim == 0 || self.head_dim % 2 != 0 {
            Some(message("head_dim must be non-zero and even, got "@ + dec(self.head_dim as nat)))
        } else if base_refused(self.rope_base) {
            Some(message("rope_base must be positive, got "@ + base_text))
        } else {
            match self.all() {
                Err(e) => Some(e),
                Ok(_) => None,
            }
        }
    }

    /// The shape of the layers of a transformer.
    pub open spec fn of(spec: ArGraphSpec) -> SlowArLayerShape {
        SlowArLayerShape {
            hidden_size: spec.embedding_length as usize,
            feed_forward_size: spec.feed_forward_length as usize,
            head_count: spec.head_count as usize,
            head_count_kv: spec.head_count_kv as usize,
            head_dim: spec.head_dim as usize,
            rope_base: spec.rope_freq_base,
            rms_norm_eps: spec.rms_norm_eps,
        }
    }

    /// The shape of the layers of a transformer.
    pub fn from_ar_graph_spec(spec: &ArGraphSpec) -> (r: Result<SlowArLayerShape, InferError>)
        ensures
            r == Ok::<SlowArLayerShape, InferError>(SlowArLayerShape::of(*spec)),
    {
        Ok(
            SlowArLayerShape {
                hidden_size: spec.embedding_length as usize,
                feed_forward_size: spec.feed_forward_length as usize,
                head_count: spec.head_count as usize,
                head_count_kv: spec.head_count_kv as usize,
                head_dim: spec.head_dim as usize,
                rope_base: spec.rope_freq_base,
                rms_norm_eps: spec.rms_norm_eps,
            },
        )
    }

    /// By what scores are multiplied.
    pub open spec fn scale(self) -> AttentionScale {
        AttentionScale::OfHead(self.head_dim)
    }

    /// By what scores are multiplied: one over the root of the size of a head.
    pub fn attn_scale(self) -> (r: AttentionScale)
        ensures
            r == self.scale(),
    {
        AttentionScale::OfHead(self.head_dim)
    }

    /// The size of all query heads together.
    pub fn q_size(self) -> (r: Result<usize, InferError>)
        ensures
            infer_outcome(r, self.queries()),
    {
        checked_mul(self.head_count, self.head_dim, "q_size")
    }

    /// The size of all key heads together.
    pub fn kv_size(self) -> (r: Result<usize, InferError>)
        ensures
            infer_outcome(r, self.keys()),
    {
        checked_mul(self.head_count_kv, self.head_dim, "kv_size")
    }

    /// The size of all query, key and value heads together.
    pub fn wqkv_out(self) -> (r: Result<usize, InferError>)
        ensures
            infer_outcome(r, self.all()),
    {
        joined(self.q_size(), self.kv_size())
    }

    /// Checks the sizes. The base is shown as the given text.
    pub fn validate(self, base_text: &str) -> (r: Result<(), InferError>)
        ensures
            is_finding(r, self.error(base_text@)),
    {
        if self.hidden_size == 0 {
            return Err(InferError::text("hidden_size must be non-zero"));
        }
        if self.feed_forward_size == 0 {
            return Err(InferError::text("feed_forward_size must be non-zero"));
        }
        if self.head_count_kv == 0 || self.head_count % self.head_count_kv != 0 {
            let a = dec_usize(self.head_count);
            let b = dec_usize(self.head_count_kv);
            return Err(
                InferError::Message(
                    String::from_str("invalid GQA split: heads=").concat(a.as_str()).concat(
                        ", kv_heads=",
                    ).concat(b.as_str()),
                ),
            );
        }
        if self.head_dim == 0 || self.head_dim % 2 != 0 {
            let a = dec_usize(self.head_dim);
            return Err(
                InferError::Message(
                    String::from_str("head_dim must be non-zero and even, got ").concat(
                        a.as_str(),
                    ),
                ),
            );
        }
        if self.rope_base == 0 || (self.rope_base >= 0x8000_0000 && self.rope_base <= 0xff80_0000) {
            return Err(
                InferError::Message(
                    String::from_str("rope_base must be positive, got ").concat(base_text),
                ),
            );
        }
        match self.wqkv_out() {
            Err(e) => Err(e),
            Ok(_) => Ok(()),
        }
    }
}

} // verus!
