//! Raw PCM buffers.

use crate::error::{fails, AppError, ErrorKind, Result};
use vstd::prelude::*;

verus! {

pub const TARGET_RATE: u32 = 16_000;

pub const TARGET_CHANNELS: u16 = 1;

#[derive(Clone, Copy, Debug, PartialEq, Eq, Structural)]
pub enum PcmFormat {
    U8,
    S16Le,
    S16Be,
    S24Le,
    S24_32Le,
    S32Le,
    F32Le,
}

impl PcmFormat {
    /// The bytes of one sample.
    pub open spec fn width(self) -> int {
        match self {
            PcmFormat::U8 => 1,
            PcmFormat::S16Le | PcmFormat::S16Be => 2,
            PcmFormat::S24Le => 3,
            PcmFormat::S24_32Le | PcmFormat::S32Le | PcmFormat::F32Le => 4,
        }
    }

    /// The message for a buffer that holds no whole number of samples.
    pub open spec fn uneven(self) -> Seq<char> {
        match self {
            PcmFormat::U8 | PcmFormat::S16Le | PcmFormat::S16Be =>
                "audio conversion failed because S16 PCM length is not a multiple of 2"@,
            PcmFormat::S24Le =>
                "audio conversion failed because S24 PCM length is not a multiple of 3"@,
            PcmFormat::S24_32Le | PcmFormat::S32Le =>
                "audio conversion failed because S32 PCM length is not a multiple of 4"@,
            PcmFormat::F32Le =>
                "audio conversion failed because F32 PCM length is not a multiple of 4"@,
        }
    }

    fn byte_width(self) -> (r: usize)
        ensures
            r == self.width(),
    {
        match self {
            PcmFormat::U8 => 1,
            PcmFormat::S16Le | PcmFormat::S16Be => 2,
            PcmFormat::S24Le => 3,
            PcmFormat::S24_32Le | PcmFormat::S32Le | PcmFormat::F32Le => 4,
        }
    }

    fn uneven_message(self) -> (r: &'static str)
        ensures
            r@ == self.uneven(),
    {
        match self {
            PcmFormat::U8 | PcmFormat::S16Le | PcmFormat::S16Be =>
                "audio conversion failed because S16 PCM length is not a multiple of 2",
            PcmFormat::S24Le =>
                "audio conversion failed because S24 PCM length is not a multiple of 3",
            PcmFormat::S24_32Le | PcmFormat::S32Le =>
                "audio conversion failed because S32 PCM length is not a multiple of 4",
            PcmFormat::F32Le =>
                "audio conversion failed because F32 PCM length is not a multiple of 4",
        }
    }
}

/// The number that two's complement bytes stand for, the lowest byte first.
pub open spec fn signed_le(b: Seq<u8>) -> int {
    let n = unsigned_le(b);
    if b.len() > 0 && b.last() >= 0x80 {
        n - pow256(b.len())
    } else {
        n
    }
}

pub open spec fn unsigned_le(b: Seq<u8>) -> int
    decreases b.len(),
{
    if b.len() == 0 {
        0
    } else {
        unsigned_le(b.drop_last()) + b.last() * pow256((b.len() - 1) as nat)
    }
}

pub open spec fn pow256(n: nat) -> int
    decreases n,
{
    if n == 0 {
        1
    } else {
        256 * pow256((n - 1) as nat)
    }
}

/// The bytes in the opposite order.
pub open spec fn swapped(b: Seq<u8>) -> Seq<u8> {
    Seq::new(b.len(), |i: int| b[b.len() - 1 - i])
}

/// The number that the bytes of one sample stand for. An unsigned byte is taken
/// around its middle, a float as the bits of its representation.
pub open spec fn sample_value(format: PcmFormat, b: Seq<u8>) -> int {
    match format {
        PcmFormat::U8 => b[0] - 128,
        PcmFormat::S16Be => signed_le(swapped(b)),
        _ => signed_le(b),
    }
}

/// The bytes of sample `k`.
pub open spec fn sample_bytes(bytes: Seq<u8>, width: int, k: int) -> Seq<u8> {
    bytes.subrange(k * width, (k + 1) * width)
}

proof fn lemma_signed_2(b: Seq<u8>)
    requires
        b.len() == 2,
    ensures
        unsigned_le(b) == b[0] + 256 * b[1],
        pow256(2) == 0x1_0000,
{
    let a = b.drop_last();
    reveal_with_fuel(pow256, 3);
    assert(pow256(0) == 1 && pow256(1) == 256);
    assert(a.drop_last().len() == 0);
    assert(unsigned_le(a.drop_last()) == 0);
    assert(a.last() == b[0]);
    assert(unsigned_le(a) == b[0] * pow256(0));
    assert(unsigned_le(b) == unsigned_le(a) + b[1] * pow256(1));
}

proof fn lemma_signed_3(b: Seq<u8>)
    requires
        b.len() == 3,
    ensures
        unsigned_le(b) == b[0] + 256 * b[1] + 0x1_0000 * b[2],
        pow256(3) == 0x100_0000,
{
    lemma_signed_2(b.drop_last());
    reveal_with_fuel(pow256, 4);
    assert(b.drop_last()[0] == b[0] && b.drop_last()[1] == b[1]);
}

proof fn lemma_signed_4(b: Seq<u8>)
    requires
        b.len() == 4,
    ensures
        unsigned_le(b) == b[0] + 256 * b[1] + 0x1_0000 * b[2] + 0x100_0000 * b[3],
        pow256(4) == 0x1_0000_0000,
{
    lemma_signed_3(b.drop_last());
    reveal_with_fuel(pow256, 5);
    assert(b.drop_last()[0] == b[0] && b.drop_last()[1] == b[1] && b.drop_last()[2] == b[2]);
}

/// Two bytes stand for a number between -32768 and 32767.
pub proof fn law_signed_pair(b: Seq<u8>)
    requires
        b.len() == 2,
    ensures
        signed_le(b) == b[0] + 256 * b[1] - (if b[1] >= 0x80 {
            0x1_0000int
        } else {
            0
        }),
        -0x8000 <= signed_le(b) <= 0x7fff,
{
    lemma_signed_2(b);
}

/// The number of a sample of one to four bytes, the lowest first.
fn signed_of(b0: u8, b1: u8, b2: u8, b3: u8, width: usize) -> (r: i32)
    requires
        2 <= width <= 4,
    ensures
        r == signed_le(seq![b0, b1, b2, b3].take(width as int)),
{
    let ghost b = seq![b0, b1, b2, b3].take(width as int);
    proof {
        if width == 2 {
            lemma_signed_2(b);
        } else if width == 3 {
            lemma_signed_3(b);
        } else {
            lemma_signed_4(b);
        }
    }
    let mut n: i64 = b0 as i64 + 256 * (b1 as i64);
    let mut top: u8 = b1;
    let mut span: i64 = 0x1_0000;
    if width >= 3 {
        n = n + 0x1_0000 * (b2 as i64);
        top = b2;
        span = 0x100_0000;
    }
    if width == 4 {
        n = n + 0x100_0000 * (b3 as i64);
        top = b3;
        span = 0x1_0000_0000;
    }
    assert(b.last() == top);
    if top >= 0x80 {
        n = n - span;
    }
    n as i32
}

/// The numbers of all samples in a buffer.
pub fn decode_samples(bytes: &[u8], format: PcmFormat) -> (r: Result<Vec<i32>>)
    ensures
        if bytes@.len() as int % format.width() != 0 {
            fails(r, ErrorKind::Audio, format.uneven())
        } else {
            &&& r matches Ok(v)
            &&& v@.len() == bytes@.len() as int / format.width()
            &&& forall|k: int|
                0 <= k < v@.len() ==> #[trigger] v@[k] == sample_value(
                    format,
                    sample_bytes(bytes@, format.width(), k),
                )
        },
{
    let width = format.byte_width();
    let len: usize = bytes.len();
    if len % width != 0 {
        return Err(AppError::audio(format.uneven_message()));
    }
    let count: usize = len / width;
    let mut v: Vec<i32> = Vec::new();
    let mut at: usize = 0;
    proof {
        assert(count * width == len) by (nonlinear_arith)
            requires
                count == len as int / width as int,
                len as int % width as int == 0,
                width > 0,
        ;
    }
    while v.len() < count
        invariant
            len == bytes@.len(),
            width == format.width(),
            1 <= width <= 4,
            count * width == len,
            v@.len() <= count,
            at == v@.len() * width,
            forall|k: int|
                0 <= k < v@.len() ==> #[trigger] v@[k] == sample_value(
                    format,
                    sample_bytes(bytes@, format.width(), k),
                ),
        decreases count - v.len(),
    {
        let ghost k = v@.len() as int;
        proof {
            assert((k + 1) * width == k * width + width) by (nonlinear_arith);
            assert((k + 1) * width <= count * width) by (nonlinear_arith)
                requires
                    k + 1 <= count,
                    width >= 1,
            ;
        }
        let ghost b = sample_bytes(bytes@, width as int, k);
        let b0: u8 = bytes[at];
        let value: i32 = match format {
            PcmFormat::U8 => {
                assert(b[0] == b0);
                b0 as i32 - 128
            },
            PcmFormat::S16Be => {
                let b1: u8 = bytes[at + 1];
                assert(seq![b1, b0, 0u8, 0u8].take(2) =~= swapped(b));
                signed_of(b1, b0, 0, 0, 2)
            },
            _ => {
                let b1: u8 = bytes[at + 1];
                let b2: u8 = if width >= 3 {
                    bytes[at + 2]
                } else {
                    0
                };
                let b3: u8 = if width == 4 {
                    bytes[at + 3]
                } else {
                    0
                };
                assert(seq![b0, b1, b2, b3].take(width as int) =~= b);
                signed_of(b0, b1, b2, b3, width)
            },
        };
        v.push(value);
        at = at + width;
    }
    assert(v@.len() == len as int / width as int);
    Ok(v)
}

/// The samples of a 16-bit buffer as they are.
pub fn decode_i16_raw(bytes: &[u8], big_endian: bool) -> (r: Result<Vec<i16>>)
    ensures
        if bytes@.len() % 2 != 0 {
            fails(
                r,
                ErrorKind::Audio,
                "audio conversion failed because S16 PCM length is not a multiple of 2"@,
            )
        } else {
            &&& r matches Ok(v)
            &&& v@.len() == bytes@.len() / 2
            &&& forall|k: int|
                0 <= k < v@.len() ==> #[trigger] v@[k] == sample_value(
                    if big_endian {
                        PcmFormat::S16Be
                    } else {
                        PcmFormat::S16Le
                    },
                    sample_bytes(bytes@, 2, k),
                )
        },
{
    let format = if big_endian {
        PcmFormat::S16Be
    } else {
        PcmFormat::S16Le
    };
    let values = match decode_samples(bytes, format) {
        Ok(values) => values,
        Err(e) => return Err(e),
    };
    let mut v: Vec<i16> = Vec::new();
    let mut i: usize = 0;
    while i < values.len()
        invariant
            i <= values@.len(),
            v@.len() == i,
            values@.len() == bytes@.len() / 2,
            format == if big_endian {
                PcmFormat::S16Be
            } else {
                PcmFormat::S16Le
            },
            forall|k: int|
                0 <= k < values@.len() ==> #[trigger] values@[k] == sample_value(
                    format,
                    sample_bytes(bytes@, 2, k),
                ),
            forall|k: int| 0 <= k < i ==> #[trigger] v@[k] == values@[k],
        decreases values.len() - i,
    {
        proof {
            let b = sample_bytes(bytes@, 2, i as int);
            assert(values@[i as int] == sample_value(format, b));
            if big_endian {
                lemma_signed_2(swapped(b));
            } else {
                lemma_signed_2(b);
            }
        }
        v.push(values[i] as i16);
        i += 1;
    }
    Ok(v)
}

/// What becomes of a captured buffer: samples that are ready, or frames with a number of
/// each channel. Of each frame one sample still has to be mixed, and the samples brought to
/// the target rate.
#[derive(Debug)]
pub enum Converted {
    Ready(Vec<i16>),
    ToResample { frames: Vec<Vec<i32>>, format: PcmFormat, rate: u32 },
}

/// Whether these are the whole frames of samples that lie one channel after the other.
pub open spec fn are_frames(frames: Seq<Vec<i32>>, samples: Seq<i32>, channels: int) -> bool {
    &&& frames.len() == samples.len() as int / channels
    &&& forall|f: int|
        0 <= f < frames.len() ==> (#[trigger] frames[f])@ == samples.subrange(
            f * channels,
            (f + 1) * channels,
        )
}

/// The whole frames of samples that lie one channel after the other. Samples that are left
/// over are dropped.
pub fn frames_of_samples(samples: &Vec<i32>, channels: u16) -> (r: Vec<Vec<i32>>)
    requires
        channels > 0,
    ensures
        are_frames(r@, samples@, channels as int),
{
    let width: usize = channels as usize;
    let len: usize = samples.len();
    let mut frames: Vec<Vec<i32>> = Vec::new();
    let mut at: usize = 0;
    assert(0 * width == 0);
    while len - at >= width
        invariant
            width == channels,
            width > 0,
            len == samples@.len(),
            at <= len,
            at == frames@.len() * width,
            forall|f: int|
                0 <= f < frames@.len() ==> (#[trigger] frames@[f])@ == samples@.subrange(
                    f * width,
                    (f + 1) * width,
                ),
        decreases len - at,
    {
        let ghost f = frames@.len() as int;
        let mut frame: Vec<i32> = Vec::new();
        while frame.len() < width
            invariant
                width > 0,
                len == samples@.len(),
                at + width <= len,
                frame@.len() <= width,
                frame@ == samples@.subrange(at as int, at + frame@.len()),
            decreases width - frame.len(),
        {
            frame.push(samples[at + frame.len()]);
            assert(frame@ =~= samples@.subrange(at as int, at + frame@.len()));
        }
        assert((f + 1) * width == f * width + width) by (nonlinear_arith);
        frames.push(frame);
        at = at + width;
    }
    let ghost n = frames@.len() as int;
    assert(n == len as int / width as int) by (nonlinear_arith)
        requires
            n * width == at,
            at <= len,
            len - at < width,
            width > 0,
    ;
    frames
}

/// Why a buffer of such a stream cannot be converted.
pub open spec fn stream_error(channels: u16, rate: u32) -> Option<Seq<char>> {
    if channels == 0 {
        Some("audio conversion failed because the stream has zero channels"@)
    } else if rate == 0 {
        Some("audio conversion failed because the stream sample rate is 0"@)
    } else {
        None
    }
}

/// Whether a stream already has the target form.
pub open spec fn is_target(format: PcmFormat, channels: u16, rate: u32) -> bool {
    channels == 1 && rate == TARGET_RATE && format == PcmFormat::S16Le
}

/// The samples of a raw PCM buffer.
pub open spec fn samples_of(bytes: Seq<u8>, format: PcmFormat) -> Seq<i32> {
    Seq::new(
        (bytes.len() as int / format.width()) as nat,
        |k: int| sample_value(format, sample_bytes(bytes, format.width(), k)) as i32,
    )
}

/// Takes a raw PCM buffer toward 16 kHz 16-bit mono samples. A stream in that form is
/// passed through; any other is read frame by frame, and the mixing of the frames is left
/// to the caller.
pub fn to_i16_mono_16k(
    bytes: &[u8],
    format: PcmFormat,
    channels: u16,
    rate: u32,
) -> (r: Result<Converted>)
    ensures
        match stream_error(channels, rate) {
            Some(message) => fails(r, ErrorKind::Audio, message),
            None => if bytes@.len() as int % format.width() != 0 {
                fails(r, ErrorKind::Audio, format.uneven())
            } else if is_target(format, channels, rate) {
                &&& r matches Ok(Converted::Ready(v))
                &&& v@.len() == bytes@.len() / 2
                &&& forall|k: int|
                    0 <= k < v@.len() ==> #[trigger] v@[k] == sample_value(
                        format,
                        sample_bytes(bytes@, 2, k),
                    )
            } else {
                &&& r matches Ok(Converted::ToResample { frames, format: f, rate: q })
                &&& (f, q) == (format, rate)
                &&& frames@.len() == bytes@.len() as int / format.width() / (channels as int)
                &&& are_frames(frames@, samples_of(bytes@, format), channels as int)
            },
        },
{
    if channels == 0 {
        return Err(
            AppError::audio("audio conversion failed because the stream has zero channels"),
        );
    }
    if rate == 0 {
        return Err(AppError::audio("audio conversion failed because the stream sample rate is 0"));
    }
    if channels == 1 && rate == TARGET_RATE && format == PcmFormat::S16Le {
        return match decode_i16_raw(bytes, false) {
            Ok(v) => Ok(Converted::Ready(v)),
            Err(e) => Err(e),
        };
    }
    match decode_samples(bytes, format) {
        Ok(samples) => {
            assert(samples@ =~= samples_of(bytes@, format));
            Ok(Converted::ToResample { frames: frames_of_samples(&samples, channels), format, rate })
        },
        Err(e) => Err(e),
    }
}

/// What the bytes of a sample stand for in each format.
pub proof fn law_what_samples_stand_for(b: Seq<u8>)
    ensures
        b.len() == 1 ==> sample_value(PcmFormat::U8, b) == b[0] - 128,
        b.len() == 2 ==> sample_value(PcmFormat::S16Le, b) == b[0] + 256 * b[1] - (if b[1] >= 128 {
            65_536int
        } else {
            0
        }),
        b.len() == 2 ==> sample_value(PcmFormat::S16Be, b) == b[1] + 256 * b[0] - (if b[0] >= 128 {
            65_536int
        } else {
            0
        }),
        b.len() == 3 ==> sample_value(PcmFormat::S24Le, b) == b[0] + 256 * b[1] + 65_536 * b[2] - (
        if b[2] >= 128 {
            16_777_216int
        } else {
            0
        }),
        b.len() == 4 ==> sample_value(PcmFormat::S32Le, b) == b[0] + 256 * b[1] + 65_536 * b[2]
            + 16_777_216 * b[3] - (if b[3] >= 128 {
            4_294_967_296int
        } else {
            0
        }),
{
    if b.len() == 2 {
        law_signed_pair(b);
        law_signed_pair(swapped(b));
    }
    if b.len() == 3 {
        lemma_signed_3(b);
    }
    if b.len() == 4 {
        lemma_signed_4(b);
    }
}

/// Samples stand one after the other, each as many bytes as its format has.
pub proof fn law_samples_stand_one_after_the_other(bytes: Seq<u8>, k: int)
    ensures
        PcmFormat::U8.width() == 1,
        PcmFormat::S16Le.width() == 2,
        PcmFormat::S16Be.width() == 2,
        PcmFormat::S24Le.width() == 3,
        PcmFormat::S24_32Le.width() == 4,
        PcmFormat::S32Le.width() == 4,
        PcmFormat::F32Le.width() == 4,
        0 <= k && 2 * k + 2 <= bytes.len() ==> {
            let pair = seq![bytes[2 * k], bytes[2 * k + 1]];
            &&& samples_of(bytes, PcmFormat::S16Le).len() == bytes.len() / 2
            &&& samples_of(bytes, PcmFormat::S16Le)[k] == sample_value(PcmFormat::S16Le, pair)
            &&& samples_of(bytes, PcmFormat::S16Be)[k] == sample_value(PcmFormat::S16Be, pair)
        },
{
    if 0 <= k && 2 * k + 2 <= bytes.len() {
        let pair = seq![bytes[2 * k], bytes[2 * k + 1]];
        assert(sample_bytes(bytes, 2, k) =~= pair);
        law_signed_pair(pair);
        law_signed_pair(swapped(pair));
    }
}

/// Frames hold one sample of each channel, in the order of the channels.
pub proof fn law_frames_hold_every_channel(
    frames: Seq<Vec<i32>>,
    samples: Seq<i32>,
    channels: int,
    f: int,
    c: int,
)
    requires
        are_frames(frames, samples, channels),
        0 <= f < frames.len(),
        0 <= c < channels,
    ensures
        frames.len() == samples.len() as int / channels,
        frames[f]@.len() == channels,
        frames[f]@[c] == samples[f * channels + c],
{
    assert((f + 1) * channels == f * channels + channels) by (nonlinear_arith);
    assert(0 <= f * channels && (f + 1) * channels <= samples.len()) by (nonlinear_arith)
        requires
            0 <= f < samples.len() as int / channels,
            channels > 0,
    ;
}

/// Audio passes as it is where it has one channel of 16-bit samples at 16 kHz; a stream
/// without channels or without a rate is refused.
pub proof fn law_what_needs_no_conversion(format: PcmFormat, channels: u16, rate: u32)
    ensures
        is_target(format, channels, rate) <==> channels == 1 && rate == 16_000 && format
            == PcmFormat::S16Le,
        stream_error(channels, rate) is Some <==> channels == 0 || rate == 0,
{
}

} // verus!
