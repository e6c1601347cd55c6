//! What sound in files comes to, byte by byte and sample by sample.
use crate::attention::folded;
use crate::bytes::le32;
use crate::numeric::{row, Calc, Op};
use crate::sums::part;
use crate::wav::{chunks_from, decoded, format_at, wav_file, SamplesView, WavFormat};
use crate::wav_check::survey;
use crate::wav_mono::{are_sample_values, is_mean, is_mono};
use vstd::prelude::*;

verus! {

/// The number that two bytes of a file stand for.
pub open spec fn two_at(b: Seq<u8>, at: int) -> int {
    b[at] + 256 * b[at + 1]
}

/// The number that four bytes of a file stand for.
pub open spec fn four_at(b: Seq<u8>, at: int) -> int {
    b[at] + 256 * b[at + 1] + 65536 * b[at + 2] + 16777216 * b[at + 3]
}

/// Whether four bytes of a file are these.
pub open spec fn has_at(b: Seq<u8>, at: int, x: u8, y: u8, z: u8, w: u8) -> bool {
    &&& b[at] == x
    &&& b[at + 1] == y
    &&& b[at + 2] == z
    &&& b[at + 3] == w
}

/// A file with sound has a header of 44 bytes, which says how long the file is, that the samples have
/// 16 bits on one channel, how many there are in a second, and how many bytes they take. The samples
/// follow, two bytes each.
pub proof fn files_say_what_they_hold(samples: Seq<i16>, rate: u32)
    requires
        44 + 2 * samples.len() <= u32::MAX,
        rate * 2 <= u32::MAX,
    ensures
        ({
            let b = wav_file(samples, rate);
            &&& b.len() == 44 + 2 * samples.len()
            &&& has_at(b, 0, 82, 73, 70, 70)
            &&& four_at(b, 4) == 44 + 2 * samples.len()
            &&& has_at(b, 8, 87, 65, 86, 69)
            &&& has_at(b, 12, 102, 109, 116, 32)
            &&& four_at(b, 16) == 16
            &&& two_at(b, 20) == 1
            &&& two_at(b, 22) == 1
            &&& four_at(b, 24) == rate
            &&& four_at(b, 28) == 2 * rate
            &&& two_at(b, 32) == 2
            &&& two_at(b, 34) == 16
            &&& has_at(b, 36, 100, 97, 116, 97)
            &&& four_at(b, 40) == 2 * samples.len()
        }),
{
    lemma_bytes_of(44 + 2 * samples.len());
    lemma_bytes_of(16);
    lemma_bytes_of(rate as nat);
    lemma_bytes_of((rate * 2) as nat);
    lemma_bytes_of(2 * samples.len());
    let h = crate::wav::wav_header(samples.len(), rate);
    assert(h.len() == 44);
    let b = wav_file(samples, rate);
    assert forall|k: int| 0 <= k < 44 implies #[trigger] b[k] == h[k] by {}
}

proof fn lemma_bytes_of(v: nat)
    requires
        v <= u32::MAX,
    ensures
        four_at(crate::bytes::bytes32(v), 0) == v,
{
    let b = crate::bytes::bytes32(v);
    assert(b[0] == v % 256);
    assert(b[1] == v / 256 % 256);
    assert(b[2] == v / 65536 % 256);
    assert(b[3] == v / 16777216 % 256);
}

/// Sample `i` of 8 bits is byte `i`.
pub proof fn samples_of_one_byte(f: WavFormat, b: Seq<u8>)
    requires
        f.audio_format == 1,
        f.bits_per_sample == 8,
    ensures
        decoded(f, b) is Ok,
        decoded(f, b)->Ok_0 == SamplesView::Unsigned8(b),
{
}

/// Sample `i` of 16 bits is the number of two bytes, taken as a signed one.
pub proof fn samples_of_two_bytes(f: WavFormat, b: Seq<u8>, i: int)
    requires
        f.audio_format == 1,
        f.bits_per_sample == 16,
        b.len() % 2 == 0,
        0 <= i < b.len() / 2,
    ensures
        decoded(f, b) matches Ok(SamplesView::Signed16(v)) && v.len() * 2 == b.len() && v[i] == (
        if b[2 * i + 1] < 128 {
            two_at(b, 2 * i)
        } else {
            two_at(b, 2 * i) - 65536
        }),
{
}

/// Sample `i` of 24 bits is the number of three bytes, taken as a signed one.
pub proof fn samples_of_three_bytes(f: WavFormat, b: Seq<u8>, i: int)
    requires
        f.audio_format == 1,
        f.bits_per_sample == 24,
        b.len() % 3 == 0,
        0 <= i < b.len() / 3,
    ensures
        decoded(f, b) matches Ok(SamplesView::Signed24(v)) && v.len() * 3 == b.len() && v[i] == (
        if b[3 * i + 2] < 128 {
            two_at(b, 3 * i) + 65536 * b[3 * i + 2]
        } else {
            two_at(b, 3 * i) + 65536 * b[3 * i + 2] - 16777216
        }),
{
}

/// Sample `i` of 32 bits is the number of four bytes, taken as a signed one, or the pattern of a
/// number in single precision.
pub proof fn samples_of_four_bytes(f: WavFormat, b: Seq<u8>, i: int)
    requires
        f.audio_format == 1 || f.audio_format == 3,
        f.bits_per_sample == 32,
        b.len() % 4 == 0,
        0 <= i < b.len() / 4,
    ensures
        f.audio_format == 1 ==> (decoded(f, b) matches Ok(SamplesView::Signed32(v)) && v.len() * 4
            == b.len() && v[i] == (if b[4 * i + 3] < 128 {
            four_at(b, 4 * i)
        } else {
            four_at(b, 4 * i) - 0x1_0000_0000
        })),
        f.audio_format == 3 ==> (decoded(f, b) matches Ok(SamplesView::Float32(v)) && v.len() * 4
            == b.len() && v[i] == four_at(b, 4 * i)),
{
    let s = b.subrange(4 * i, 4 * i + 4);
    assert(le32(s) == four_at(b, 4 * i)) by {
        assert(s.skip(2)[0] == b[4 * i + 2]);
        assert(s.skip(2)[1] == b[4 * i + 3]);
    }
}

/// Where a chunk ends: behind its letters, its length and its bytes, and one more where these are odd
/// in number.
pub open spec fn chunk_end(b: Seq<u8>, at: int) -> int {
    at + 8 + four_at(b, at + 4) + four_at(b, at + 4) % 2
}

/// The chunks of a file are read one after the other: the format and the place of the sound are taken
/// where they stand, and other chunks are passed over.
pub proof fn chunks_are_read_in_order(
    b: Seq<u8>,
    at: int,
    format: Option<WavFormat>,
    data: Option<(int, int)>,
)
    requires
        0 <= at,
        at + 8 <= b.len(),
        at + 8 + four_at(b, at + 4) <= b.len(),
        b.len() <= usize::MAX,
    ensures
        !has_at(b, at, 102, 109, 116, 32) && !has_at(b, at, 100, 97, 116, 97) ==> chunks_from(
            b,
            at,
            format,
            data,
        ) == chunks_from(b, chunk_end(b, at), format, data) && survey(b, at, format, data)
            == survey(b, chunk_end(b, at), format, data),
        has_at(b, at, 100, 97, 116, 97) ==> chunks_from(b, at, format, data) == chunks_from(
            b,
            chunk_end(b, at),
            format,
            Some((at + 8, at + 8 + four_at(b, at + 4))),
        ) && survey(b, at, format, data) == survey(
            b,
            chunk_end(b, at),
            format,
            Some((at + 8, at + 8 + four_at(b, at + 4))),
        ),
        has_at(b, at, 102, 109, 116, 32) && four_at(b, at + 4) >= 16 ==> chunks_from(
            b,
            at,
            format,
            data,
        ) == chunks_from(b, chunk_end(b, at), Some(format_at(b, at + 8)), data) && survey(
            b,
            at,
            format,
            data,
        ) == survey(b, chunk_end(b, at), Some(format_at(b, at + 8)), data),
{
    lemma_four_at(b, at + 4);
    let tag = crate::wav::tag_at(b, at);
    assert(tag[0] == b[at] && tag[1] == b[at + 1] && tag[2] == b[at + 2] && tag[3] == b[at + 3]);
    assert(has_at(b, at, 102, 109, 116, 32) ==> tag =~= crate::wav::fmt_tag());
    assert(has_at(b, at, 100, 97, 116, 97) ==> tag =~= crate::wav::data_tag());
    assert(crate::wav::fmt_tag()[0] == 102);
    assert(crate::wav::data_tag()[0] == 100);
}

proof fn lemma_four_at(b: Seq<u8>, at: int)
    requires
        0 <= at,
        at + 4 <= b.len(),
    ensures
        crate::wav::n32(b, at) == four_at(b, at),
{
    let s = b.subrange(at, at + 4);
    assert(s.skip(2)[0] == b[at + 2]);
    assert(s.skip(2)[1] == b[at + 3]);
    assert(le32(s) == four_at(b, at));
}

/// A format says how samples are stored, how many channels there are, how many samples in a second, and
/// how many bits each has.
pub proof fn formats_are_laid_out(b: Seq<u8>, at: int)
    requires
        0 <= at,
        at + 16 <= b.len(),
    ensures
        format_at(b, at).audio_format == two_at(b, at),
        format_at(b, at).channels == two_at(b, at + 2),
        format_at(b, at).sample_rate == four_at(b, at + 4),
        format_at(b, at).bits_per_sample == two_at(b, at + 14),
{
    lemma_four_at(b, at + 4);
}

// ---------------------------------------------------------------------
// One channel
// ---------------------------------------------------------------------

/// Whether a value is a sample as a number from minus one to one.
pub open spec fn is_sample<T: Copy, F: Fn(Op, T, T, T) -> T>(
    s: SamplesView,
    i: int,
    calc: Calc<T, F>,
    v: T,
) -> bool {
    match s {
        SamplesView::Unsigned8(x) => calc.gives(
            Op::Sample((x[i] - 128) as i32, 128),
            calc.zero,
            calc.zero,
            calc.zero,
            v,
        ),
        SamplesView::Signed16(x) => calc.gives(
            Op::Sample(x[i] as i32, 32768),
            calc.zero,
            calc.zero,
            calc.zero,
            v,
        ),
        SamplesView::Signed24(x) => calc.gives(
            Op::Sample(x[i], 8388608),
            calc.zero,
            calc.zero,
            calc.zero,
            v,
        ),
        SamplesView::Signed32(x) => calc.gives(
            Op::Sample(x[i], 2147483648),
            calc.zero,
            calc.zero,
            calc.zero,
            v,
        ),
        SamplesView::Float32(x) => calc.gives(
            Op::Single(x[i]),
            calc.zero,
            calc.zero,
            calc.zero,
            v,
        ),
    }
}

/// Whether values are the sums of the first ones of a list, from zero on.
pub open spec fn are_sums_of<T: Copy, F: Fn(Op, T, T, T) -> T>(
    sums: Seq<T>,
    list: Seq<T>,
    calc: Calc<T, F>,
) -> bool {
    &&& sums.len() == list.len() + 1
    &&& sums[0] == calc.zero
    &&& forall|k: int|
        0 <= k < list.len() ==> calc.gives(
            Op::Plus,
            #[trigger] sums[k],
            list[k],
            calc.zero,
            sums[k + 1],
        )
}

/// Sound on one channel consists of its samples. Where there are more channels, a value is the mean
/// of all channels at its time.
pub proof fn channels_are_averaged<T: Copy, F: Fn(Op, T, T, T) -> T>(
    channels: u16,
    s: SamplesView,
    calc: Calc<T, F>,
    out: Seq<T>,
)
    requires
        is_mono(channels, s, calc, out),
        channels > 0,
    ensures
        exists|values: Seq<T>|
            {
                &&& #[trigger] are_all_samples(s, calc, values)
                &&& out.len() * channels == values.len()
                &&& channels == 1 ==> out == values
                &&& channels > 1 ==> forall|i: int|
                    0 <= i < out.len() ==> is_mean_of(
                        part(values, i * channels, channels as int),
                        calc,
                        #[trigger] out[i],
                    )
            },
{
    let values = choose|values: Seq<T>|
        #[trigger] are_sample_values(s, calc, values) && if channels == 1 {
            out == values
        } else {
            &&& out.len() * channels == values.len()
            &&& forall|i: int|
                0 <= i < out.len() ==> is_mean(
                    row(values, i, channels as int),
                    channels as usize,
                    calc,
                    #[trigger] out[i],
                )
        };
    assert forall|i: int| 0 <= i < values.len() implies is_sample(
        s,
        i,
        calc,
        #[trigger] values[i],
    ) by {}
    assert(are_all_samples(s, calc, values));
    if channels > 1 {
        assert forall|i: int| 0 <= i < out.len() implies is_mean_of(
            part(values, i * channels, channels as int),
            calc,
            #[trigger] out[i],
        ) by {
            lemma_mean(values, channels, out.len() as int, calc, i, out[i]);
        }
    }
}

/// Whether values are all samples as numbers.
pub open spec fn are_all_samples<T: Copy, F: Fn(Op, T, T, T) -> T>(
    s: SamplesView,
    calc: Calc<T, F>,
    values: Seq<T>,
) -> bool {
    &&& values.len() == crate::wav::sample_count(s)
    &&& forall|i: int| 0 <= i < values.len() ==> is_sample(s, i, calc, #[trigger] values[i])
}

/// Whether a value is the mean of a list.
pub open spec fn is_mean_of<T: Copy, F: Fn(Op, T, T, T) -> T>(
    list: Seq<T>,
    calc: Calc<T, F>,
    v: T,
) -> bool {
    exists|sums: Seq<T>|
        #[trigger] are_sums_of(sums, list, calc) && calc.gives(
            Op::OverCount(list.len() as usize),
            sums.last(),
            calc.zero,
            calc.zero,
            v,
        )
}

proof fn lemma_mean<T: Copy, F: Fn(Op, T, T, T) -> T>(
    values: Seq<T>,
    channels: u16,
    count: int,
    calc: Calc<T, F>,
    i: int,
    v: T,
)
    requires
        is_mean(row(values, i, channels as int), channels as usize, calc, v),
        0 <= i < count,
        count * channels == values.len(),
    ensures
        is_mean_of(part(values, i * channels, channels as int), calc, v),
{
    let c = channels as int;
    assert((i + 1) * c <= count * c && (i + 1) * c == i * c + c && 0 <= i * c) by (nonlinear_arith)
        requires
            0 <= i < count,
            c >= 0,
    ;
    let frame = row(values, i, c);
    assert(frame =~= part(values, i * channels, c));
    let sums = choose|sums: Seq<T>|
        {
            &&& #[trigger] folded(sums, frame, calc.zero, Op::Plus, calc)
            &&& sums.len() == frame.len() + 1
            &&& calc.gives(
                Op::OverCount(channels as usize),
                sums.last(),
                calc.zero,
                calc.zero,
                v,
            )
        };
    assert(are_sums_of(sums, frame, calc));
}

} // verus!
