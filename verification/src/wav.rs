//! WAV files: reading samples, and writing 16-bit mono audio.
use crate::bytes::{
    bytes16, bytes32, i16_le_bytes, le16, le32, read_u16_le, read_u32_le, u16_le_bytes,
    u32_le_bytes,
};
use crate::error::{message, ErrorView, InferError};
use crate::gguf_read::signed;
use crate::pcm::{samples, samples_of};
use crate::text::{dec, dec_u64, dec_usize};
use vstd::prelude::*;
use vstd::slice::slice_subrange;
use vstd::string::*;

verus! {

// ---------------------------------------------------------------------
// Chunks
// ---------------------------------------------------------------------

/// What a format chunk says: format, channels, sample rate, bits per sample.
#[derive(Debug, Clone, Copy, PartialEq, Eq, Structural)]
pub struct WavFormat {
    pub audio_format: u16,
    pub channels: u16,
    pub sample_rate: u32,
    pub bits_per_sample: u16,
}

/// The letters RIFF.
pub open spec fn riff_tag() -> Seq<u8> {
    seq![82u8, 73, 70, 70]
}

/// The letters WAVE.
pub open spec fn wave_tag() -> Seq<u8> {
    seq![87u8, 65, 86, 69]
}

/// The letters of a format chunk.
pub open spec fn fmt_tag() -> Seq<u8> {
    seq![102u8, 109, 116, 32]
}

/// The letters of a data chunk.
pub open spec fn data_tag() -> Seq<u8> {
    seq![100u8, 97, 116, 97]
}

/// The four bytes at a position.
pub open spec fn tag_at(b: Seq<u8>, at: int) -> Seq<u8> {
    b.subrange(at, at + 4)
}

/// The two-byte number at a position.
pub open spec fn n16(b: Seq<u8>, at: int) -> u16 {
    le16(b.subrange(at, at + 2)) as u16
}

/// The four-byte number at a position.
pub open spec fn n32(b: Seq<u8>, at: int) -> u32 {
    le32(b.subrange(at, at + 4)) as u32
}

/// The format chunk whose contents start at a position.
pub open spec fn format_at(b: Seq<u8>, at: int) -> WavFormat {
    WavFormat {
        audio_format: n16(b, at),
        channels: n16(b, at + 2),
        sample_rate: n32(b, at + 4),
        bits_per_sample: n16(b, at + 14),
    }
}

/// Whether a file starts as a WAV file does.
pub open spec fn is_wave(b: Seq<u8>) -> bool {
    b.len() >= 12 && tag_at(b, 0) == riff_tag() && tag_at(b, 8) == wave_tag()
}

/// Reads one of two tags; none for any other.
pub(crate) fn has_tag(b: &[u8], at: usize, t0: u8, t1: u8, t2: u8, t3: u8) -> (r: bool)
    requires
        at + 4 <= b.len(),
    ensures
        r == (tag_at(b@, at as int) == seq![t0, t1, t2, t3]),
{
    let r = b[at] == t0 && b[at + 1] == t1 && b[at + 2] == t2 && b[at + 3] == t3;
    proof {
        let tag = tag_at(b@, at as int);
        if r {
            assert(tag =~= seq![t0, t1, t2, t3]);
        } else {
            assert(tag[0] == b@[at as int] && tag[1] == b@[at + 1] && tag[2] == b@[at + 2]
                && tag[3] == b@[at + 3]);
        }
    }
    r
}

fn read_u16(b: &[u8], at: usize) -> (r: u16)
    requires
        at + 2 <= b.len(),
    ensures
        r == n16(b@, at as int),
{
    read_u16_le(slice_subrange(b, at, at + 2))
}

pub(crate) fn read_u32(b: &[u8], at: usize) -> (r: u32)
    requires
        at + 4 <= b.len(),
    ensures
        r == n32(b@, at as int),
{
    read_u32_le(slice_subrange(b, at, at + 4))
}

pub(crate) fn read_format(b: &[u8], at: usize) -> (r: WavFormat)
    requires
        at + 16 <= b.len(),
    ensures
        r == format_at(b@, at as int),
{
    WavFormat {
        audio_format: read_u16(b, at),
        channels: read_u16(b, at + 2),
        sample_rate: read_u32(b, at + 4),
        bits_per_sample: read_u16(b, at + 14),
    }
}

/// What the chunks from a position on say: the last format, and where the last audio lies.
pub open spec fn chunks_from(
    b: Seq<u8>,
    at: int,
    format: Option<WavFormat>,
    data: Option<(int, int)>,
) -> Result<(Option<WavFormat>, Option<(int, int)>), ErrorView>
    decreases b.len() - at + 1,
{
    if at < 0 || at + 8 > b.len() {
        Ok((format, data))
    } else {
        let len = n32(b, at + 4);
        let start = at + 8;
        let end = start + len;
        if end > usize::MAX {
            Err(message("WAV chunk length overflow"@))
        } else if end > b.len() {
            Err(message("WAV chunk extends past file end"@))
        } else if tag_at(b, at) == fmt_tag() {
            if len < 16 {
                Err(message("WAV fmt chunk too short"@))
            } else {
                chunks_from(b, end + len % 2, Some(format_at(b, start)), data)
            }
        } else if tag_at(b, at) == data_tag() {
            chunks_from(b, end + len % 2, format, Some((start, end)))
        } else {
            chunks_from(b, end + len % 2, format, data)
        }
    }
}

/// A WAV file: its format, and its audio as bytes.
#[derive(Debug)]
pub struct ParsedWav<'a> {
    pub format: WavFormat,
    pub data: &'a [u8],
}

/// The format and the audio of a WAV file.
pub open spec fn parsed(b: Seq<u8>) -> Result<(WavFormat, Seq<u8>), ErrorView> {
    if !is_wave(b) {
        Err(message("not a RIFF/WAVE file"@))
    } else {
        match chunks_from(b, 12, None, None) {
            Err(e) => Err(e),
            Ok((format, data)) => match format {
                None => Err(message("missing WAV fmt chunk"@)),
                Some(f) => match data {
                    None => Err(message("missing WAV data chunk"@)),
                    Some((start, end)) => if f.channels == 0 {
                        Err(message("WAV has zero channels"@))
                    } else {
                        Ok((f, b.subrange(start, end)))
                    },
                },
            },
        }
    }
}

impl<'a> ParsedWav<'a> {
    /// Reads the format and the audio of a WAV file.
    pub fn parse(bytes: &'a [u8]) -> (r: Result<ParsedWav<'a>, InferError>)
        ensures
            match r {
                Ok(w) => parsed(bytes@) == Ok::<(WavFormat, Seq<u8>), ErrorView>(
                    (w.format, w.data@),
                ),
                Err(e) => parsed(bytes@) == Err::<(WavFormat, Seq<u8>), ErrorView>(e@),
            },
    {
        let size: usize = bytes.len();
        if size < 12 || !has_tag(bytes, 0, 82, 73, 70, 70) || !has_tag(bytes, 8, 87, 65, 86, 69) {
            return Err(InferError::text("not a RIFF/WAVE file"));
        }
        let mut at: usize = 12;
        let mut done: bool = false;
        let mut format: Option<WavFormat> = None;
        let mut data: Option<(usize, usize)> = None;
        while !done
            invariant
                size == bytes@.len(),
                is_wave(bytes@),
                at <= size,
                data matches Some((s, e)) ==> s <= e <= size,
                done ==> chunks_from(bytes@, 12, None, None) == Ok::<
                    (Option<WavFormat>, Option<(int, int)>),
                    ErrorView,
                >((format, ends(data))),
                !done ==> chunks_from(bytes@, 12, None, None) == chunks_from(
                    bytes@,
                    at as int,
                    format,
                    ends(data),
                ),
            decreases (if done {
                0
            } else {
                size - at + 1
            }),
        {
            if size - at < 8 {
                done = true;
            } else {
                let len: u32 = read_u32(bytes, at + 4);
                let start: usize = at + 8;
                if len as u64 > (usize::MAX - start) as u64 {
                    return Err(InferError::text("WAV chunk length overflow"));
                }
                let end: usize = start + len as usize;
                if end > size {
                    return Err(InferError::text("WAV chunk extends past file end"));
                }
                if has_tag(bytes, at, 102, 109, 116, 32) {
                    if len < 16 {
                        return Err(InferError::text("WAV fmt chunk too short"));
                    }
                    format = Some(read_format(bytes, start));
                } else if has_tag(bytes, at, 100, 97, 116, 97) {
                    data = Some((start, end));
                    assert(fmt_tag()[0] != data_tag()[0]);
                }
                let pad: usize = (len % 2) as usize;
                if pad > size - end {
                    done = true;
                    assert(chunks_from(bytes@, end + pad, format, ends(data)) == Ok::<
                        (Option<WavFormat>, Option<(int, int)>),
                        ErrorView,
                    >((format, ends(data))));
                } else {
                    at = end + pad;
                }
            }
        }
        match format {
            None => Err(InferError::text("missing WAV fmt chunk")),
            Some(f) => match data {
                None => Err(InferError::text("missing WAV data chunk")),
                Some((start, end)) => {
                    if f.channels == 0 {
                        return Err(InferError::text("WAV has zero channels"));
                    }
                    Ok(ParsedWav { format: f, data: slice_subrange(bytes, start, end) })
                },
            },
        }
    }
}

/// Where audio lies, as mathematical numbers.
pub open spec fn ends(data: Option<(usize, usize)>) -> Option<(int, int)> {
    match data {
        Some((s, e)) => Some((s as int, e as int)),
        None => None,
    }
}

// ---------------------------------------------------------------------
// Samples
// ---------------------------------------------------------------------

/// Samples as they are stored. Floating-point ones are kept as their bits.
#[derive(Debug)]
pub enum WavSamples {
    Unsigned8(Vec<u8>),
    Signed16(Vec<i16>),
    Signed24(Vec<i32>),
    Signed32(Vec<i32>),
    Float32(Vec<u32>),
}

/// Samples as mathematical values.
pub ghost enum SamplesView {
    Unsigned8(Seq<u8>),
    Signed16(Seq<i16>),
    Signed24(Seq<i32>),
    Signed32(Seq<i32>),
    Float32(Seq<u32>),
}

impl View for WavSamples {
    type V = SamplesView;

    open spec fn view(&self) -> SamplesView {
        match self {
            WavSamples::Unsigned8(v) => SamplesView::Unsigned8(v@),
            WavSamples::Signed16(v) => SamplesView::Signed16(v@),
            WavSamples::Signed24(v) => SamplesView::Signed24(v@),
            WavSamples::Signed32(v) => SamplesView::Signed32(v@),
            WavSamples::Float32(v) => SamplesView::Float32(v@),
        }
    }
}

/// How many samples there are.
pub open spec fn sample_count(s: SamplesView) -> nat {
    match s {
        SamplesView::Unsigned8(v) => v.len(),
        SamplesView::Signed16(v) => v.len(),
        SamplesView::Signed24(v) => v.len(),
        SamplesView::Signed32(v) => v.len(),
        SamplesView::Float32(v) => v.len(),
    }
}

/// The 16-bit samples in bytes.
pub open spec fn samples16(b: Seq<u8>) -> Seq<i16> {
    Seq::new(b.len() / 2, |i: int| signed(le16(b.subrange(2 * i, 2 * i + 2)), 65536) as i16)
}

/// The number that three bytes stand for.
pub open spec fn le24(b: Seq<u8>) -> nat {
    b[0] as nat + 256 * (b[1] as nat) + 65536 * (b[2] as nat)
}

/// The 24-bit samples in bytes.
pub open spec fn samples24(b: Seq<u8>) -> Seq<i32> {
    Seq::new(b.len() / 3, |i: int| signed(le24(b.subrange(3 * i, 3 * i + 3)), 16777216) as i32)
}

/// The 32-bit samples in bytes.
pub open spec fn samples32(b: Seq<u8>) -> Seq<i32> {
    Seq::new(
        b.len() / 4,
        |i: int| signed(le32(b.subrange(4 * i, 4 * i + 4)), 0x1_0000_0000) as i32,
    )
}

/// The 32-bit patterns in bytes.
pub open spec fn patterns32(b: Seq<u8>) -> Seq<u32> {
    Seq::new(b.len() / 4, |i: int| le32(b.subrange(4 * i, 4 * i + 4)) as u32)
}

/// The error of audio that is cut off inside a sample.
pub open spec fn cut_off(width: nat) -> ErrorView {
    message("WAV data length is not divisible by "@ + dec(width))
}

/// The samples of audio in the given format.
pub open spec fn decoded(f: WavFormat, b: Seq<u8>) -> Result<SamplesView, ErrorView> {
    if f.audio_format == 1 && f.bits_per_sample == 8 {
        Ok(SamplesView::Unsigned8(b))
    } else if f.audio_format == 1 && f.bits_per_sample == 16 {
        if b.len() % 2 != 0 {
            Err(cut_off(2))
        } else {
            Ok(SamplesView::Signed16(samples16(b)))
        }
    } else if f.audio_format == 1 && f.bits_per_sample == 24 {
        if b.len() % 3 != 0 {
            Err(cut_off(3))
        } else {
            Ok(SamplesView::Signed24(samples24(b)))
        }
    } else if f.audio_format == 1 && f.bits_per_sample == 32 {
        if b.len() % 4 != 0 {
            Err(cut_off(4))
        } else {
            Ok(SamplesView::Signed32(samples32(b)))
        }
    } else if f.audio_format == 3 && f.bits_per_sample == 32 {
        if b.len() % 4 != 0 {
            Err(cut_off(4))
        } else {
            Ok(SamplesView::Float32(patterns32(b)))
        }
    } else {
        Err(
            message(
                "unsupported WAV format: audio_format="@ + dec(f.audio_format as nat)
                    + ", bits_per_sample="@ + dec(f.bits_per_sample as nat),
            ),
        )
    }
}

fn cut_off_error(width: usize) -> (r: InferError)
    ensures
        r@ == cut_off(width as nat),
{
    let digits = dec_usize(width);
    InferError::Message(
        String::from_str("WAV data length is not divisible by ").concat(digits.as_str()),
    )
}

fn to_signed16(v: u16) -> (r: i16)
    ensures
        r == signed(v as nat, 65536),
{
    if v < 32768 {
        v as i16
    } else {
        (v as i32 - 65536) as i16
    }
}

fn to_signed32(v: u32) -> (r: i32)
    ensures
        r == signed(v as nat, 0x1_0000_0000),
{
    if v < 0x8000_0000 {
        v as i32
    } else {
        (v as i64 - 0x1_0000_0000) as i32
    }
}

/// The 16-bit samples in bytes; a last byte that makes no sample is passed over.
pub fn read_samples16(b: &[u8]) -> (r: Vec<i16>)
    ensures
        r@ == samples16(b@),
{
    let mut out: Vec<i16> = Vec::new();
    let count: usize = b.len() / 2;
    let mut i: usize = 0;
    while i < count
        invariant
            i <= count,
            count == b@.len() / 2,
            b@.len() <= usize::MAX,
            out@ == samples16(b@).take(i as int),
        decreases count - i,
    {
        let v: i16 = to_signed16(read_u16(b, 2 * i));
        out.push(v);
        assert(samples16(b@).take(i as int + 1) =~= samples16(b@).take(i as int).push(v));
        i = i + 1;
    }
    assert(samples16(b@).take(i as int) =~= samples16(b@));
    out
}

fn read_samples24(b: &[u8]) -> (r: Vec<i32>)
    ensures
        r@ == samples24(b@),
{
    let mut out: Vec<i32> = Vec::new();
    let count: usize = b.len() / 3;
    let mut i: usize = 0;
    while i < count
        invariant
            i <= count,
            count == b@.len() / 3,
            b@.len() <= usize::MAX,
            out@ == samples24(b@).take(i as int),
        decreases count - i,
    {
        let at: usize = 3 * i;
        let raw: i32 = b[at] as i32 + 256 * (b[at + 1] as i32) + 65536 * (b[at + 2] as i32);
        let v: i32 = if raw < 8388608 {
            raw
        } else {
            raw - 16777216
        };
        out.push(v);
        proof {
            let part = b@.subrange(3 * i, 3 * i + 3);
            assert(part[0] == b@[at as int] && part[1] == b@[at + 1] && part[2] == b@[at + 2]);
            assert(samples24(b@)[i as int] == v);
            assert(samples24(b@).take(i as int + 1) =~= samples24(b@).take(i as int).push(v));
        }
        i = i + 1;
    }
    assert(samples24(b@).take(i as int) =~= samples24(b@));
    out
}

fn read_samples32(b: &[u8]) -> (r: Vec<i32>)
    ensures
        r@ == samples32(b@),
{
    let mut out: Vec<i32> = Vec::new();
    let count: usize = b.len() / 4;
    let mut i: usize = 0;
    while i < count
        invariant
            i <= count,
            count == b@.len() / 4,
            b@.len() <= usize::MAX,
            out@ == samples32(b@).take(i as int),
        decreases count - i,
    {
        let v: i32 = to_signed32(read_u32(b, 4 * i));
        out.push(v);
        assert(samples32(b@).take(i as int + 1) =~= samples32(b@).take(i as int).push(v));
        i = i + 1;
    }
    assert(samples32(b@).take(i as int) =~= samples32(b@));
    out
}

fn read_patterns32(b: &[u8]) -> (r: Vec<u32>)
    ensures
        r@ == patterns32(b@),
{
    let mut out: Vec<u32> = Vec::new();
    let count: usize = b.len() / 4;
    let mut i: usize = 0;
    while i < count
        invariant
            i <= count,
            count == b@.len() / 4,
            b@.len() <= usize::MAX,
            out@ == patterns32(b@).take(i as int),
        decreases count - i,
    {
        let v: u32 = read_u32(b, 4 * i);
        out.push(v);
        assert(patterns32(b@).take(i as int + 1) =~= patterns32(b@).take(i as int).push(v));
        i = i + 1;
    }
    assert(patterns32(b@).take(i as int) =~= patterns32(b@));
    out
}

/// The samples of a WAV file.
pub fn decode_wav_samples(wav: &ParsedWav<'_>) -> (r: Result<WavSamples, InferError>)
    ensures
        match r {
            Ok(s) => decoded(wav.format, wav.data@) == Ok::<SamplesView, ErrorView>(s@),
            Err(e) => decoded(wav.format, wav.data@) == Err::<SamplesView, ErrorView>(e@),
        },
{
    let f = wav.format;
    let b = wav.data;
    if f.audio_format == 1 && f.bits_per_sample == 8 {
        return Ok(WavSamples::Unsigned8(vstd::slice::slice_to_vec(b)));
    }
    if f.audio_format == 1 && f.bits_per_sample == 16 {
        if b.len() % 2 != 0 {
            return Err(cut_off_error(2));
        }
        return Ok(WavSamples::Signed16(read_samples16(b)));
    }
    if f.audio_format == 1 && f.bits_per_sample == 24 {
        if b.len() % 3 != 0 {
            return Err(cut_off_error(3));
        }
        return Ok(WavSamples::Signed24(read_samples24(b)));
    }
    if f.audio_format == 1 && f.bits_per_sample == 32 {
        if b.len() % 4 != 0 {
            return Err(cut_off_error(4));
        }
        return Ok(WavSamples::Signed32(read_samples32(b)));
    }
    if f.audio_format == 3 && f.bits_per_sample == 32 {
        if b.len() % 4 != 0 {
            return Err(cut_off_error(4));
        }
        return Ok(WavSamples::Float32(read_patterns32(b)));
    }
    let a = dec_u64(f.audio_format as u64);
    let c = dec_u64(f.bits_per_sample as u64);
    Err(
        InferError::Message(
            String::from_str("unsupported WAV format: audio_format=").concat(a.as_str()).concat(
                ", bits_per_sample=",
            ).concat(c.as_str()),
        ),
    )
}

/// The audio of a file with a whole number of frames: as many samples as channels in each.
#[derive(Debug)]
pub struct WavAudio {
    pub channels: u16,
    pub samples: WavSamples,
}

/// The audio of a file with the expected sample rate.
pub open spec fn audio_of(b: Seq<u8>, expected: u32) -> Result<(u16, SamplesView), ErrorView> {
    match parsed(b) {
        Err(e) => Err(e),
        Ok((f, data)) => if f.sample_rate != expected {
            Err(
                message(
                    "expected "@ + dec(expected as nat) + " Hz WAV, got "@ + dec(
                        f.sample_rate as nat,
                    ) + " Hz"@,
                ),
            )
        } else {
            match decoded(f, data) {
                Err(e) => Err(e),
                Ok(s) => if sample_count(s) == 0 {
                    Err(message("WAV contains no samples"@))
                } else if f.channels != 1 && sample_count(s) % f.channels as nat != 0 {
                    Err(message("WAV sample count is not divisible by channel count"@))
                } else {
                    Ok((f.channels, s))
                },
            }
        },
    }
}

fn count_samples(s: &WavSamples) -> (r: usize)
    ensures
        r == sample_count(s@),
{
    match s {
        WavSamples::Unsigned8(v) => v.len(),
        WavSamples::Signed16(v) => v.len(),
        WavSamples::Signed24(v) => v.len(),
        WavSamples::Signed32(v) => v.len(),
        WavSamples::Float32(v) => v.len(),
    }
}

/// The audio of a file with the expected sample rate, ready to be mixed to one channel.
pub fn wav_audio_from_bytes(bytes: &[u8], expected_sample_rate: u32) -> (r: Result<
    WavAudio,
    InferError,
>)
    ensures
        match r {
            Ok(a) => audio_of(bytes@, expected_sample_rate) == Ok::<(u16, SamplesView), ErrorView>(
                (a.channels, a.samples@),
            ),
            Err(e) => audio_of(bytes@, expected_sample_rate) == Err::<
                (u16, SamplesView),
                ErrorView,
            >(e@),
        },
{
    let wav = match ParsedWav::parse(bytes) {
        Err(e) => {
            return Err(e);
        },
        Ok(w) => w,
    };
    proof {
        lemma_parsed_channels(bytes@);
    }
    if wav.format.sample_rate != expected_sample_rate {
        let a = dec_u64(expected_sample_rate as u64);
        let b = dec_u64(wav.format.sample_rate as u64);
        return Err(
            InferError::Message(
                String::from_str("expected ").concat(a.as_str()).concat(
                    " Hz WAV, got ",
                ).concat(b.as_str()).concat(" Hz"),
            ),
        );
    }
    let samples = match decode_wav_samples(&wav) {
        Err(e) => {
            return Err(e);
        },
        Ok(s) => s,
    };
    let count: usize = count_samples(&samples);
    if count == 0 {
        return Err(InferError::text("WAV contains no samples"));
    }
    let channels: u16 = wav.format.channels;
    if channels != 1 && count % channels as usize != 0 {
        return Err(InferError::text("WAV sample count is not divisible by channel count"));
    }
    Ok(WavAudio { channels, samples })
}

proof fn lemma_parsed_channels(b: Seq<u8>)
    ensures
        parsed(b) matches Ok((f, _)) ==> f.channels != 0,
{
}

// ---------------------------------------------------------------------
// Writing
// ---------------------------------------------------------------------

/// The unsigned number that stands for a signed one of 16 bits.
pub open spec fn unsigned16(v: i16) -> nat {
    if v < 0 {
        (v + 65536) as nat
    } else {
        v as nat
    }
}

/// The header of a file with `n` samples of 16 bits on one channel.
pub open spec fn wav_header(n: nat, sample_rate: u32) -> Seq<u8> {
    riff_tag() + bytes32(44 + 2 * n) + wave_tag() + fmt_tag() + bytes32(16) + bytes16(1) + bytes16(
        1,
    ) + bytes32(sample_rate as nat) + bytes32((sample_rate * 2) as nat) + bytes16(2) + bytes16(16)
        + data_tag() + bytes32(2 * n)
}

/// Samples as bytes.
pub open spec fn sample_bytes(samples: Seq<i16>) -> Seq<u8> {
    Seq::new(2 * samples.len(), |k: int| bytes16(unsigned16(samples[k / 2]))[k % 2])
}

/// A file with samples of 16 bits on one channel.
pub open spec fn wav_file(samples: Seq<i16>, sample_rate: u32) -> Seq<u8> {
    wav_header(samples.len(), sample_rate) + sample_bytes(samples)
}

fn put_tag(out: &mut Vec<u8>, t0: u8, t1: u8, t2: u8, t3: u8)
    ensures
        final(out)@ == old(out)@ + seq![t0, t1, t2, t3],
{
    let ghost before = out@;
    out.push(t0);
    out.push(t1);
    out.push(t2);
    out.push(t3);
    assert(out@ =~= before + seq![t0, t1, t2, t3]);
}

fn put_u16(out: &mut Vec<u8>, v: u16)
    ensures
        final(out)@ == old(out)@ + bytes16(v as nat),
{
    let mut b = u16_le_bytes(v);
    proof {
        crate::bytes::two_bytes_are_told_by_number(b@);
    }
    out.append(&mut b);
}

fn put_u32(out: &mut Vec<u8>, v: u32)
    ensures
        final(out)@ == old(out)@ + bytes32(v as nat),
{
    let mut b = u32_le_bytes(v);
    proof {
        crate::bytes::four_bytes_are_told_by_number(b@);
    }
    out.append(&mut b);
}

/// Writes a WAV file with samples of 16 bits on one channel, for values that are given by their bits.
pub fn pcm_to_wav(values: &[u32], sample_rate: u32) -> (r: Vec<u8>)
    requires
        44 + 2 * values@.len() <= u32::MAX,
        sample_rate * 2 <= u32::MAX,
    ensures
        r@ == wav_file(samples_of(values@), sample_rate),
{
    let found = samples(values);
    write_samples(found.as_slice(), sample_rate)
}

fn write_samples(samples: &[i16], sample_rate: u32) -> (r: Vec<u8>)
    requires
        44 + 2 * samples@.len() <= u32::MAX,
        sample_rate * 2 <= u32::MAX,
    ensures
        r@ == wav_file(samples@, sample_rate),
{
    let n: u32 = samples.len() as u32;
    let mut out: Vec<u8> = Vec::new();
    put_tag(&mut out, 82, 73, 70, 70);
    assert(out@ =~= riff_tag());
    put_u32(&mut out, 44 + 2 * n);
    put_tag(&mut out, 87, 65, 86, 69);
    put_tag(&mut out, 102, 109, 116, 32);
    put_u32(&mut out, 16);
    put_u16(&mut out, 1);
    put_u16(&mut out, 1);
    put_u32(&mut out, sample_rate);
    put_u32(&mut out, sample_rate * 2);
    put_u16(&mut out, 2);
    put_u16(&mut out, 16);
    put_tag(&mut out, 100, 97, 116, 97);
    put_u32(&mut out, 2 * n);
    let ghost header = wav_header(samples@.len(), sample_rate);
    assert(out@ == header);
    let ghost body = sample_bytes(samples@);
    let mut i: usize = 0;
    assert(header + body.take(0) =~= header);
    while i < samples.len()
        invariant
            i <= samples@.len(),
            body == sample_bytes(samples@),
            out@ == header + body.take(2 * i),
        decreases samples@.len() - i,
    {
        let mut b = i16_le_bytes(samples[i]);
        let ghost two = b@;
        proof {
            crate::bytes::two_bytes_are_told_by_number(two);
            assert(two == bytes16(unsigned16(samples@[i as int])));
            assert(body[2 * i] == two[0]);
            assert(body[2 * i + 1] == two[1]);
        }
        out.append(&mut b);
        assert(header + body.take(2 * i) + two =~= header + body.take(2 * (i + 1)));
        i = i + 1;
    }
    assert(body.take(2 * i) =~= body);
    out
}

// ---------------------------------------------------------------------
// What holds of reading and writing
// ---------------------------------------------------------------------

proof fn lemma_bytes16(v: nat)
    requires
        v < 65536,
    ensures
        bytes16(v).len() == 2,
        le16(bytes16(v)) == v,
{
}

proof fn lemma_bytes32(v: nat)
    requires
        v < 0x1_0000_0000,
    ensures
        bytes32(v).len() == 4,
        le32(bytes32(v)) == v,
{
    let b = bytes32(v);
    assert(b.skip(2)[0] == b[2] && b.skip(2)[1] == b[3]);
    let q = v / 256;
    let q2 = v / 65536;
    let q3 = v / 16777216;
    assert(q2 == q / 256);
    assert(q3 == q2 / 256);
    assert(q3 < 256);
}

pub(crate) proof fn lemma_header_fields(n: nat, rate: u32, rest: Seq<u8>)
    requires
        44 + 2 * n <= u32::MAX,
        rate * 2 <= u32::MAX,
        rest.len() == 2 * n,
    ensures
        ({
            let b = wav_header(n, rate) + rest;
            &&& b.len() == 44 + 2 * n
            &&& tag_at(b, 0) == riff_tag()
            &&& tag_at(b, 8) == wave_tag()
            &&& tag_at(b, 12) == fmt_tag()
            &&& n32(b, 16) == 16
            &&& n16(b, 20) == 1
            &&& n16(b, 22) == 1
            &&& n32(b, 24) == rate
            &&& n16(b, 34) == 16
            &&& tag_at(b, 36) == data_tag()
            &&& n32(b, 40) == 2 * n
            &&& b.subrange(44, (44 + 2 * n) as int) == rest
        }),
{
    let b = wav_header(n, rate) + rest;
    lemma_bytes32(44 + 2 * n);
    lemma_bytes32(16);
    lemma_bytes16(1);
    lemma_bytes32(rate as nat);
    lemma_bytes32((rate * 2) as nat);
    lemma_bytes16(2);
    lemma_bytes16(16);
    lemma_bytes32(2 * n);
    assert(b.len() == 44 + 2 * n);
    assert(tag_at(b, 0) =~= riff_tag());
    assert(tag_at(b, 8) =~= wave_tag());
    assert(tag_at(b, 12) =~= fmt_tag());
    assert(b.subrange(16, 20) =~= bytes32(16));
    assert(b.subrange(20, 22) =~= bytes16(1));
    assert(b.subrange(22, 24) =~= bytes16(1));
    assert(b.subrange(24, 28) =~= bytes32(rate as nat));
    assert(b.subrange(34, 36) =~= bytes16(16));
    assert(tag_at(b, 36) =~= data_tag());
    assert(b.subrange(40, 44) =~= bytes32(2 * n));
    assert(b.subrange(44, (44 + 2 * n) as int) =~= rest);
}

pub(crate) proof fn lemma_samples_back(samples: Seq<i16>)
    ensures
        samples16(sample_bytes(samples)) == samples,
        sample_bytes(samples).len() % 2 == 0,
{
    let b = sample_bytes(samples);
    assert(b.len() == 2 * samples.len());
    assert forall|i: int| 0 <= i < samples.len() implies samples16(b)[i] == samples[i] by {
        let two = bytes16(unsigned16(samples[i]));
        lemma_bytes16(unsigned16(samples[i]));
        assert(b[2 * i] == two[0]);
        assert(b[2 * i + 1] == two[1]);
        assert(b.subrange(2 * i, 2 * i + 2) =~= two);
    }
    assert(samples16(b) =~= samples);
}

proof fn lemma_two_chunks(b: Seq<u8>, f: WavFormat, n: nat)
    requires
        b.len() == 44 + 2 * n <= u32::MAX,
        is_wave(b),
        tag_at(b, 12) == fmt_tag(),
        n32(b, 16) == 16,
        format_at(b, 20) == f,
        f.channels != 0,
        tag_at(b, 36) == data_tag(),
        n32(b, 40) == 2 * n,
    ensures
        parsed(b) == Ok::<(WavFormat, Seq<u8>), ErrorView>((f, b.subrange(44, b.len() as int))),
{
    assert(fmt_tag()[0] != data_tag()[0]);
    let last = b.len() as int;
    assert(chunks_from(b, last, Some(f), Some((44int, last))) == Ok::<
        (Option<WavFormat>, Option<(int, int)>),
        ErrorView,
    >((Some(f), Some((44int, last)))));
    assert(chunks_from(b, 36, Some(f), None) == chunks_from(
        b,
        last,
        Some(f),
        Some((44int, last)),
    ));
    assert(chunks_from(b, 12, None, None) == chunks_from(b, 36, Some(f), None));
}

/// Reading back a file that was written gives its sample rate, one channel, and the samples. Where
/// another sample rate is expected, the file is refused.
pub proof fn reading_gives_back_what_was_written(samples: Seq<i16>, sample_rate: u32)
    requires
        44 + 2 * samples.len() <= u32::MAX,
        sample_rate * 2 <= u32::MAX,
        samples.len() > 0,
    ensures
        audio_of(wav_file(samples, sample_rate), sample_rate) == Ok::<
            (u16, SamplesView),
            ErrorView,
        >((1u16, SamplesView::Signed16(samples))),
        forall|other: u32|
            other != sample_rate ==> (#[trigger] audio_of(
                wav_file(samples, sample_rate),
                other,
            )) is Err,
{
    let b = wav_file(samples, sample_rate);
    let n = samples.len();
    lemma_header_fields(n, sample_rate, sample_bytes(samples));
    lemma_samples_back(samples);
    let f = WavFormat { audio_format: 1, channels: 1, sample_rate, bits_per_sample: 16 };
    assert(format_at(b, 20) == f);
    lemma_two_chunks(b, f, n);
}

} // verus!
