//! How long and how loud a sound is, and whether that is worth a warning.
use crate::text::{dec, dec_u64};
use crate::wav::{
    data_tag, fmt_tag, format_at, has_tag, is_wave, lemma_header_fields, lemma_samples_back, n32,
    read_format, read_samples16, read_u32, sample_bytes, samples16, tag_at, wav_file, WavFormat,
};
use vstd::prelude::*;
use vstd::slice::slice_subrange;
use vstd::string::*;

verus! {

/// How long and how loud a sound is: frames, samples, the sum of their squares, and the largest
/// distance of a sample from zero.
#[derive(Debug, Clone, Copy, PartialEq, Eq, Structural)]
pub struct WavAnalysis {
    pub sample_rate: u32,
    pub channels: u16,
    pub frames: u64,
    pub samples: u64,
    pub square_sum: u128,
    pub peak: u32,
}

/// What the chunks from a position on say: the last format that is long enough, and where the last
/// sound lies. Nothing where a chunk reaches beyond the end.
pub open spec fn survey(
    b: Seq<u8>,
    at: int,
    format: Option<WavFormat>,
    data: Option<(int, int)>,
) -> Option<(Option<WavFormat>, Option<(int, int)>)>
    decreases b.len() - at + 1,
{
    if at < 0 || at + 8 > b.len() {
        Some((format, data))
    } else {
        let len = n32(b, at + 4);
        let start = at + 8;
        let end = start + len;
        if end > b.len() {
            None
        } else if tag_at(b, at) == fmt_tag() && len >= 16 {
            survey(b, end + len % 2, Some(format_at(b, start)), data)
        } else if tag_at(b, at) == data_tag() {
            survey(b, end + len % 2, format, Some((start, end)))
        } else {
            survey(b, end + len % 2, format, data)
        }
    }
}

/// The distance of a sample from zero.
pub open spec fn size_of(v: i16) -> nat {
    if v < 0 {
        (-(v as int)) as nat
    } else {
        v as nat
    }
}

/// The sum of the squares of the first samples.
pub open spec fn squares(v: Seq<i16>, n: int) -> nat
    decreases n,
{
    if n <= 0 {
        0
    } else {
        squares(v, n - 1) + size_of(v[n - 1]) * size_of(v[n - 1])
    }
}

/// The largest distance from zero of the first samples.
pub open spec fn largest(v: Seq<i16>, n: int) -> nat
    decreases n,
{
    if n <= 0 {
        0
    } else if size_of(v[n - 1]) > largest(v, n - 1) {
        size_of(v[n - 1])
    } else {
        largest(v, n - 1)
    }
}

/// How long and how loud a sound in a file is; nothing where the file does not hold samples of 16
/// bits.
pub open spec fn analysis_of(b: Seq<u8>) -> Option<WavAnalysis> {
    if b.len() < 44 || !is_wave(b) {
        None
    } else {
        match survey(b, 12, None, None) {
            Some((Some(f), Some((start, end)))) => if f.audio_format == 1 && f.bits_per_sample == 16
                && f.channels != 0 && f.sample_rate != 0 {
                let data = b.subrange(start, end);
                let frames = data.len() as int / (2 * f.channels);
                let v = samples16(data);
                Some(
                    if frames == 0 {
                        WavAnalysis {
                            sample_rate: f.sample_rate,
                            channels: f.channels,
                            frames: 0,
                            samples: 0,
                            square_sum: 0,
                            peak: 0,
                        }
                    } else {
                        WavAnalysis {
                            sample_rate: f.sample_rate,
                            channels: f.channels,
                            frames: frames as u64,
                            samples: v.len() as u64,
                            square_sum: squares(v, v.len() as int) as u128,
                            peak: largest(v, v.len() as int) as u32,
                        }
                    },
                )
            } else {
                None
            },
            _ => None,
        }
    }
}

/// Where a sound lies, as mathematical values.
pub open spec fn places(data: Option<(usize, usize)>) -> Option<(int, int)> {
    match data {
        None => None,
        Some((a, b)) => Some((a as int, b as int)),
    }
}

fn survey_chunks(bytes: &[u8]) -> (r: Option<(Option<WavFormat>, Option<(usize, usize)>)>)
    requires
        12 <= bytes@.len(),
        bytes.len() <= usize::MAX,
    ensures
        match r {
            None => survey(bytes@, 12, None, None) is None,
            Some((format, data)) => survey(bytes@, 12, None, None) == Some((format, places(data)))
                && (data matches Some((s, e)) ==> s <= e <= bytes@.len()),
        },
{
    let size: usize = bytes.len();
    let mut at: usize = 12;
    let mut done: bool = false;
    let mut format: Option<WavFormat> = None;
    let mut data: Option<(usize, usize)> = None;
    while !done
        invariant
            size == bytes@.len(),
            at <= size,
            data matches Some((s, e)) ==> s <= e <= size,
            done ==> survey(bytes@, 12, None, None) == Some((format, places(data))),
            !done ==> survey(bytes@, 12, None, None) == survey(
                bytes@,
                at as int,
                format,
                places(data),
            ),
        decreases (if done {
            0
        } else {
            size - at + 1
        }),
    {
        if size - at < 8 {
            done = true;
        } else {
            let len: u32 = read_u32(bytes, at + 4);
            let start: usize = at + 8;
            if len as u64 > (size - start) as u64 {
                return None;
            }
            let end: usize = start + len as usize;
            if has_tag(bytes, at, 102, 109, 116, 32) && len >= 16 {
                format = Some(read_format(bytes, start));
            } else if has_tag(bytes, at, 100, 97, 116, 97) {
                data = Some((start, end));
                assert(fmt_tag()[0] != data_tag()[0]);
            }
            let pad: usize = (len % 2) as usize;
            if pad > size - end {
                done = true;
                assert(survey(bytes@, end + pad, format, places(data)) == Some(
                    (format, places(data)),
                ));
            } else {
                at = end + pad;
            }
        }
    }
    Some((format, data))
}

proof fn lemma_square_bound(v: i16)
    ensures
        size_of(v) <= 32768,
        size_of(v) * size_of(v) <= 1073741824,
{
    let n = size_of(v);
    assert(n * n <= 32768 * 32768) by (nonlinear_arith)
        requires
            0 <= n <= 32768,
    ;
}

fn measure(v: &Vec<i16>) -> (r: (u128, u32))
    ensures
        r.0 == squares(v@, v@.len() as int),
        r.1 == largest(v@, v@.len() as int),
{
    let mut sum: u128 = 0;
    let mut peak: u32 = 0;
    let mut i: usize = 0;
    while i < v.len()
        invariant
            i <= v@.len(),
            sum == squares(v@, i as int),
            peak == largest(v@, i as int),
            sum <= i * 1073741824,
        decreases v@.len() - i,
    {
        let s: i16 = v[i];
        let n: u32 = if s < 0 {
            (-(s as i32)) as u32
        } else {
            s as u32
        };
        proof {
            lemma_square_bound(s);
            assert(n == size_of(s));
        }
        let square: u32 = n * n;
        sum = sum + square as u128;
        if n > peak {
            peak = n;
        }
        i = i + 1;
    }
    (sum, peak)
}

/// Measures how long and how loud a sound in a file is.
pub fn analyze_wav_bytes(bytes: &[u8]) -> (r: Option<WavAnalysis>)
    ensures
        r == analysis_of(bytes@),
{
    let size: usize = bytes.len();
    if size < 44 || !has_tag(bytes, 0, 82, 73, 70, 70) || !has_tag(bytes, 8, 87, 65, 86, 69) {
        return None;
    }
    match survey_chunks(bytes) {
        Some((Some(f), Some((start, end)))) => {
            if f.audio_format != 1 || f.bits_per_sample != 16 || f.channels == 0 || f.sample_rate
                == 0 {
                return None;
            }
            let data = slice_subrange(bytes, start, end);
            let width: usize = 2 * f.channels as usize;
            let frames: usize = data.len() / width;
            if frames == 0 {
                return Some(
                    WavAnalysis {
                        sample_rate: f.sample_rate,
                        channels: f.channels,
                        frames: 0,
                        samples: 0,
                        square_sum: 0,
                        peak: 0,
                    },
                );
            }
            let v = read_samples16(data);
            let (square_sum, peak) = measure(&v);
            Some(
                WavAnalysis {
                    sample_rate: f.sample_rate,
                    channels: f.channels,
                    frames: frames as u64,
                    samples: v.len() as u64,
                    square_sum,
                    peak,
                },
            )
        },
        _ => None,
    }
}

impl WavAnalysis {
    /// Whether the sound is shorter than half a second.
    pub open spec fn too_short(&self) -> bool {
        2 * self.frames < self.sample_rate
    }

    /// Whether the sound is close to silence: the root of the mean square lies below a thousandth
    /// of the full level, or the peak below two thousandths.
    pub open spec fn almost_silent(&self) -> bool {
        ||| self.square_sum * 1_000_000 < self.samples * 1_073_741_824
        ||| self.samples == 0
        ||| self.peak * 1000 < 65_536
    }
}

/// The warning that a sound is worth, if any. The texts say how long it is, how loud on the whole
/// and how loud at its peak.
pub open spec fn warning_of(
    a: WavAnalysis,
    max_new_tokens: u32,
    duration: Seq<char>,
    rms: Seq<char>,
    peak: Seq<char>,
) -> Option<Seq<char>> {
    if a.too_short() {
        Some(
            "生成的 WAV 只有 "@ + duration + "s，太短所以幾乎聽不到。max_new_tokens="@ + dec(
                max_new_tokens as nat,
            ) + " 只適合 smoke/debug，請在「生成 token」調高後再試。"@,
        )
    } else if a.almost_silent() {
        Some(
            "生成的 WAV 音量接近靜音：RMS "@ + rms + ", peak "@ + peak
                + "。請檢查 prompt/reference 或提高生成 token 後再試。"@,
        )
    } else {
        None
    }
}

/// The warning that a sound is worth, if any.
pub fn wav_warning(
    a: &WavAnalysis,
    max_new_tokens: u32,
    duration: &str,
    rms: &str,
    peak: &str,
) -> (r: Option<String>)
    ensures
        match r {
            Some(t) => warning_of(*a, max_new_tokens, duration@, rms@, peak@) == Some(t@),
            None => warning_of(*a, max_new_tokens, duration@, rms@, peak@) is None,
        },
{
    if (a.frames as u128) * 2 < a.sample_rate as u128 {
        let tokens = dec_u64(max_new_tokens as u64);
        return Some(
            String::from_str("生成的 WAV 只有 ").concat(duration).concat(
                "s，太短所以幾乎聽不到。max_new_tokens=",
            ).concat(tokens.as_str()).concat(
                " 只適合 smoke/debug，請在「生成 token」調高後再試。",
            ),
        );
    }
    let quiet: bool = match a.square_sum.checked_mul(1_000_000) {
        Some(n) => n < (a.samples as u128) * 1_073_741_824,
        None => false,
    };
    let flat: bool = (a.peak as u64) * 1000 < 65_536;
    if quiet || a.samples == 0 || flat {
        return Some(
            String::from_str("生成的 WAV 音量接近靜音：RMS ").concat(rms).concat(
                ", peak ",
            ).concat(peak).concat("。請檢查 prompt/reference 或提高生成 token 後再試。"),
        );
    }
    None
}

/// A file that was written is as long as its samples are many, and as loud as they are.
pub proof fn written_file_is_measured(samples: Seq<i16>, sample_rate: u32)
    requires
        44 + 2 * samples.len() <= u32::MAX,
        sample_rate * 2 <= u32::MAX,
        samples.len() > 0,
        sample_rate > 0,
    ensures
        analysis_of(wav_file(samples, sample_rate)) == Some(
            WavAnalysis {
                sample_rate,
                channels: 1,
                frames: samples.len() as u64,
                samples: samples.len() as u64,
                square_sum: squares(samples, samples.len() as int) as u128,
                peak: largest(samples, samples.len() as int) as u32,
            },
        ),
{
    let b = wav_file(samples, sample_rate);
    let n = samples.len();
    lemma_header_fields(n, sample_rate, sample_bytes(samples));
    lemma_samples_back(samples);
    let f = WavFormat { audio_format: 1, channels: 1, sample_rate, bits_per_sample: 16 };
    assert(format_at(b, 20) == f);
    lemma_two_chunks(b, f, n, sample_bytes(samples));
}

proof fn lemma_two_chunks(b: Seq<u8>, f: WavFormat, n: nat, data: Seq<u8>)
    requires
        b.len() == 44 + 2 * n <= u32::MAX,
        n > 0,
        is_wave(b),
        tag_at(b, 12) == fmt_tag(),
        n32(b, 16) == 16,
        format_at(b, 20) == f,
        f.channels == 1,
        f.audio_format == 1,
        f.bits_per_sample == 16,
        f.sample_rate != 0,
        tag_at(b, 36) == data_tag(),
        n32(b, 40) == 2 * n,
        b.subrange(44, b.len() as int) == data,
    ensures
        analysis_of(b) == Some(
            WavAnalysis {
                sample_rate: f.sample_rate,
                channels: 1,
                frames: n as u64,
                samples: samples16(data).len() as u64,
                square_sum: squares(samples16(data), samples16(data).len() as int) as u128,
                peak: largest(samples16(data), samples16(data).len() as int) as u32,
            },
        ),
{
    assert(fmt_tag()[0] != data_tag()[0]);
    let last = b.len() as int;
    assert(survey(b, last, Some(f), Some((44int, last))) == Some((Some(f), Some((44int, last)))));
    assert(survey(b, 36, Some(f), None) == survey(b, last, Some(f), Some((44int, last))));
    assert(survey(b, 12, None, None) == survey(b, 36, Some(f), None));
}

} // verus!
