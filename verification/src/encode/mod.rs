//! Audio files: their names, FLAC and WAV.

use crate::audio::convert::{
    law_signed_pair, sample_bytes, sample_value, PcmFormat, TARGET_RATE,
};
use crate::error::{fails, AppError, ErrorKind, Result};
use crate::paths::{join, joined_path};
use crate::text;
use crate::timeutil::{datetime_rfc3339, rfc3339_millis, UtcTime};
use flacenc::component::BitRepr;
use flacenc::error::Verify;
use vstd::prelude::*;

verus! {

pub const FLAC_BLOCK_SIZE: usize = 4096;

pub const BITS_PER_SAMPLE: usize = 16;

pub const CHANNELS: usize = 1;

/// The name of the file of a chunk: its number and when it began.
pub open spec fn chunk_file_name(sequence: u64, started_at: UtcTime) -> Seq<char> {
    text::zero_padded(text::decimal(sequence as nat), 8) + "_"@ + text::replaced(
        rfc3339_millis(started_at.secs, started_at.nanos),
        ':',
        '-',
    ) + ".flac"@
}

pub fn audio_file_name(sequence: u64, started_at: UtcTime) -> (r: String)
    requires
        started_at.wf(),
    ensures
        r@ == chunk_file_name(sequence, started_at),
{
    let number = text::zero_pad(text::decimal_of(sequence).as_str(), 8);
    let stamp = text::replace_char(datetime_rfc3339(started_at).as_str(), ':', '-');
    text::concat4(number.as_str(), "_", stamp.as_str(), ".flac")
}

/// What a FLAC stream holds. Where a sample cannot be read, `failure` says why and
/// `samples` holds those before it.
pub struct FlacStream {
    pub sample_rate: u32,
    pub channels: u32,
    pub bits_per_sample: u32,
    pub samples: Vec<i32>,
    pub failure: Option<String>,
}

/// What a FLAC stream holds, as plain values.
pub struct FlacContents {
    pub sample_rate: u32,
    pub channels: u32,
    pub bits_per_sample: u32,
    pub samples: Seq<i32>,
    pub failure: Option<Seq<char>>,
}

impl View for FlacStream {
    type V = FlacContents;

    open spec fn view(&self) -> FlacContents {
        FlacContents {
            sample_rate: self.sample_rate,
            channels: self.channels,
            bits_per_sample: self.bits_per_sample,
            samples: self.samples@,
            failure: text::text_of(self.failure),
        }
    }
}

/// Why an encoder gave no stream.
pub enum FlacFailure {
    Config(String),
    Encode(String),
    Write(String),
}

/// What `claxon::FlacReader` reads out of these bytes, or the text of its error.
pub uninterp spec fn flac_read(bytes: Seq<u8>) -> std::result::Result<FlacContents, Seq<char>>;

/// `claxon::FlacReader::new`, its `streaminfo` and its `samples` up to the first error.
/// Claims that what is read depends on the bytes alone.
#[verifier::external_body]
fn claxon_read(bytes: &[u8]) -> (r: std::result::Result<FlacStream, String>)
    ensures
        match r {
            Ok(s) => flac_read(bytes@) matches Ok(c) && c == s@,
            Err(e) => flac_read(bytes@) matches Err(m) && m == e@,
        },
{
    let mut reader = claxon::FlacReader::new(bytes).map_err(|e| e.to_string())?;
    let info = reader.streaminfo();
    let mut failure = None;
    let mut samples = Vec::new();
    for sample in reader.samples() {
        match sample {
            Ok(value) => samples.push(value),
            Err(e) => failure = Some(e.to_string()),
        }
    }
    let (sample_rate, channels) = (info.sample_rate, info.channels);
    Ok(FlacStream { sample_rate, channels, bits_per_sample: info.bits_per_sample, samples, failure })
}

/// Whether these are samples of 16 bits.
pub open spec fn is_16_bit(signal: Seq<i32>) -> bool {
    forall|i: int| 0 <= i < signal.len() ==> -0x8000 <= #[trigger] signal[i] <= 0x7fff
}

/// Whether a FLAC stream of these bytes begins with the mark of the format and holds
/// these samples. A last block of one to fifteen samples is left out: a reader
/// refuses it.
pub open spec fn holds_signal(bytes: Seq<u8>, signal: Seq<i32>) -> bool {
    &&& bytes.len() > 4
    &&& bytes.take(4) == seq![0x66u8, 0x4c, 0x61, 0x43]
    &&& 0 < signal.len() < 0x10_0000_0000 && (signal.len() % 4096 == 0 || signal.len() % 4096
        >= 16) ==> {
        &&& flac_read(bytes) matches Ok(c)
        &&& c == (FlacContents {
            sample_rate: 16_000,
            channels: 1,
            bits_per_sample: 16,
            samples: signal,
            failure: None,
        })
    }
}

/// `flacenc::encode_with_fixed_block_size` with the default encoder on one thread,
/// written to bytes, for one channel of 16-bit samples. Claims that they are encoded
/// unless they are too many for the format, that a stream begins with the mark of the
/// format, and that the codec loses nothing: what is read out of the bytes is the
/// signal. It does not claim which bytes come out.
#[verifier::external_body]
fn flacenc_encode(
    signal: &[i32],
    channels: usize,
    bits: usize,
    rate: usize,
    block_size: usize,
) -> (r: std::result::Result<Vec<u8>, FlacFailure>)
    requires
        channels == 1,
        bits == 16,
        is_16_bit(signal@),
        rate == 16_000,
        block_size == 4096,
    ensures
        0 < signal@.len() < 0x10_0000_0000 ==> r is Ok,
        r matches Ok(bytes) ==> holds_signal(bytes@, signal@),
{
    let source = flacenc::source::MemSource::from_samples(signal, channels, bits, rate);
    let mut config = flacenc::config::Encoder::default();
    config.multithread = false;
    let config = config.into_verified().map_err(|e| FlacFailure::Config(format!("{e:?}")))?;
    let stream = flacenc::encode_with_fixed_block_size(&config, source, block_size);
    let stream = stream.map_err(|e| FlacFailure::Encode(e.to_string()))?;
    let mut sink = flacenc::bitsink::ByteSink::new();
    stream.write(&mut sink).map_err(|e| FlacFailure::Write(e.to_string()))?;
    Ok(sink.as_slice().to_vec())
}

/// The samples as wider numbers.
pub open spec fn widened(samples: Seq<i16>) -> Seq<i32> {
    samples.map_values(|s: i16| s as i32)
}

/// Encodes 16 kHz mono samples as FLAC.
pub fn encode_flac_i16_mono_16k(samples: &[i16]) -> (r: Result<Vec<u8>>)
    ensures
        samples@.len() == 0 ==> fails(
            r,
            ErrorKind::Encode,
            "cannot encode an empty PCM buffer as FLAC"@,
        ),
        match r {
            Ok(bytes) => holds_signal(bytes@, widened(samples@)),
            Err(e) => e@.0 == ErrorKind::Encode,
        },
        0 < samples@.len() < 0x10_0000_0000 ==> r is Ok,
{
    if samples.len() == 0 {
        return Err(AppError::encode("cannot encode an empty PCM buffer as FLAC"));
    }
    let mut signal: Vec<i32> = Vec::new();
    let mut i: usize = 0;
    while i < samples.len()
        invariant
            i <= samples@.len(),
            signal@ == widened(samples@.take(i as int)),
        decreases samples.len() - i,
    {
        signal.push(samples[i] as i32);
        i += 1;
        assert(signal@ =~= widened(samples@.take(i as int)));
    }
    assert(samples@.take(i as int) =~= samples@);
    let encoded = flacenc_encode(
        signal.as_slice(),
        CHANNELS,
        BITS_PER_SAMPLE,
        TARGET_RATE as usize,
        FLAC_BLOCK_SIZE,
    );
    flac_outcome(encoded)
}

/// The bytes of a stream, or the error for the user.
pub fn flac_outcome(encoded: std::result::Result<Vec<u8>, FlacFailure>) -> (r: Result<Vec<u8>>)
    ensures
        match encoded {
            Ok(bytes) => r matches Ok(b) && b == bytes,
            Err(FlacFailure::Config(e)) => fails(
                r,
                ErrorKind::Encode,
                "invalid FLAC encoder configuration: "@ + e@,
            ),
            Err(FlacFailure::Encode(e)) => fails(
                r,
                ErrorKind::Encode,
                "FLAC encoding failed: "@ + e@,
            ),
            Err(FlacFailure::Write(e)) => fails(
                r,
                ErrorKind::Encode,
                "FLAC bitstream write failed: "@ + e@,
            ),
        },
{
    let message = match encoded {
        Ok(bytes) => return Ok(bytes),
        Err(FlacFailure::Config(e)) => text::concat2(
            "invalid FLAC encoder configuration: ",
            e.as_str(),
        ),
        Err(FlacFailure::Encode(e)) => text::concat2("FLAC encoding failed: ", e.as_str()),
        Err(FlacFailure::Write(e)) => text::concat2("FLAC bitstream write failed: ", e.as_str()),
    };
    Err(AppError::encode(message.as_str()))
}

/// A sample of `bits` bits brought to 16 bits.
pub open spec fn scaled(sample: i32, bits: u32) -> i16 {
    if bits == 16 {
        if sample < -0x8000 {
            i16::MIN
        } else if sample > 0x7fff {
            i16::MAX
        } else {
            sample as i16
        }
    } else if bits == 0 || bits > 32 {
        0
    } else if bits < 16 {
        (sample << ((16 - bits) as u32)) as i16
    } else {
        (sample >> ((bits - 16) as u32)) as i16
    }
}

pub fn scale_pcm_to_i16(sample: i32, bits: u32) -> (r: i16)
    ensures
        r == scaled(sample, bits),
{
    if bits == 16 {
        if sample < -0x8000 {
            return -0x8000;
        }
        if sample > 0x7fff {
            return 0x7fff;
        }
        return sample as i16;
    }
    if bits == 0 || bits > 32 {
        return 0;
    }
    if bits < 16 {
        (sample << (16 - bits)) as i16
    } else {
        (sample >> (bits - 16)) as i16
    }
}

/// The samples that a FLAC stream stands for, or why it is refused.
pub open spec fn pcm_of(
    read: std::result::Result<FlacContents, Seq<char>>,
    path: Seq<char>,
) -> std::result::Result<Seq<i16>, Seq<char>> {
    match read {
        Err(e) => Err("could not decode FLAC "@ + path + ": "@ + e),
        Ok(c) => if c.sample_rate != TARGET_RATE {
            Err(
                "FLAC "@ + path + " is "@ + text::decimal(c.sample_rate as nat)
                    + " Hz; expected 16000 Hz"@,
            )
        } else if c.channels != 1 {
            Err(
                "FLAC "@ + path + " has "@ + text::decimal(c.channels as nat)
                    + " channels; expected mono"@,
            )
        } else {
            match c.failure {
                Some(e) => Err("FLAC "@ + path + " contained an invalid sample: "@ + e),
                None => Ok(c.samples.map_values(|s: i32| scaled(s, c.bits_per_sample))),
            }
        },
    }
}

/// The samples of a stream that was read, or why it is refused.
pub fn pcm_of_stream(
    read: std::result::Result<FlacStream, String>,
    path: &str,
) -> (r: Result<Vec<i16>>)
    ensures
        match pcm_of(
            match read {
                Ok(s) => Ok(s@),
                Err(e) => Err(e@),
            },
            path@,
        ) {
            Ok(samples) => r matches Ok(v) && v@ == samples,
            Err(message) => fails(r, ErrorKind::Encode, message),
        },
{
    let stream = match read {
        Ok(stream) => stream,
        Err(e) => {
            let message = text::concat4("could not decode FLAC ", path, ": ", e.as_str());
            return Err(AppError::encode(message.as_str()));
        },
    };
    if stream.sample_rate != TARGET_RATE {
        let rate = text::decimal_of(stream.sample_rate as u64);
        let message = text::concat5(
            "FLAC ",
            path,
            " is ",
            rate.as_str(),
            " Hz; expected 16000 Hz",
        );
        return Err(AppError::encode(message.as_str()));
    }
    if stream.channels != 1 {
        let channels = text::decimal_of(stream.channels as u64);
        let message = text::concat5(
            "FLAC ",
            path,
            " has ",
            channels.as_str(),
            " channels; expected mono",
        );
        return Err(AppError::encode(message.as_str()));
    }
    if let Some(e) = &stream.failure {
        let message = text::concat4("FLAC ", path, " contained an invalid sample: ", e.as_str());
        return Err(AppError::encode(message.as_str()));
    }
    let bits = stream.bits_per_sample;
    let mut v: Vec<i16> = Vec::new();
    let mut i: usize = 0;
    while i < stream.samples.len()
        invariant
            i <= stream.samples@.len(),
            v@.len() == i,
            forall|k: int| 0 <= k < i ==> #[trigger] v@[k] == scaled(stream.samples@[k], bits),
        decreases stream.samples.len() - i,
    {
        v.push(scale_pcm_to_i16(stream.samples[i], bits));
        i += 1;
    }
    assert(v@ =~= stream.samples@.map_values(|s: i32| scaled(s, bits)));
    Ok(v)
}

/// The 16 kHz mono samples in the bytes of a FLAC file; `path` is for messages.
pub fn decode_flac_i16_mono_16k(path: &str, bytes: &[u8]) -> (r: Result<Vec<i16>>)
    ensures
        match pcm_of(flac_read(bytes@), path@) {
            Ok(samples) => r matches Ok(v) && v@ == samples,
            Err(message) => fails(r, ErrorKind::Encode, message),
        },
{
    let read = claxon_read(bytes);
    pcm_of_stream(read, path)
}

/// What was encoded is decoded to the same samples: FLAC loses nothing.
pub proof fn law_flac_round_trip(samples: Seq<i16>, bytes: Seq<u8>, path: Seq<char>)
    requires
        0 < samples.len() < 0x10_0000_0000,
        samples.len() % 4096 == 0 || samples.len() % 4096 >= 16,
        holds_signal(bytes, widened(samples)),
    ensures
        pcm_of(flac_read(bytes), path) == Ok::<Seq<i16>, Seq<char>>(samples),
{
    let c = flac_read(bytes)->Ok_0;
    assert(c.samples.map_values(|s: i32| scaled(s, c.bits_per_sample)) =~= samples);
}

/// The two bytes of a number, the lower first.
pub open spec fn le16(n: int) -> Seq<u8> {
    seq![(n % 256) as u8, (n / 256 % 256) as u8]
}

/// The four bytes of a number, the lowest first.
pub open spec fn le32(n: int) -> Seq<u8> {
    seq![
        (n % 256) as u8,
        (n / 256 % 256) as u8,
        (n / 0x1_0000 % 256) as u8,
        (n / 0x100_0000 % 256) as u8,
    ]
}

/// The bytes of samples.
pub open spec fn samples_le(samples: Seq<i16>) -> Seq<u8>
    decreases samples.len(),
{
    if samples.len() == 0 {
        Seq::empty()
    } else {
        samples_le(samples.drop_last()) + le16(samples.last() as int)
    }
}

/// The 44 bytes in front of `data_len` bytes of 16 kHz mono samples.
pub open spec fn wav_header(data_len: int) -> Seq<u8> {
    seq![0x52u8, 0x49, 0x46, 0x46] + le32(
        if data_len + 36 > u32::MAX {
            u32::MAX as int
        } else {
            data_len + 36
        },
    ) + seq![0x57u8, 0x41, 0x56, 0x45] + seq![0x66u8, 0x6d, 0x74, 0x20] + le32(16) + le16(1) + le16(
        1,
    ) + le32(TARGET_RATE as int) + le32(TARGET_RATE * 2) + le16(2) + le16(16)
        + seq![0x64u8, 0x61, 0x74, 0x61] + le32(data_len)
}

fn push_le16(v: &mut Vec<u8>, n: u16)
    ensures
        final(v)@ == old(v)@ + le16(n as int),
{
    v.push((n % 256) as u8);
    v.push((n / 256) as u8);
    assert(v@ =~= old(v)@ + le16(n as int));
}

fn push_le32(v: &mut Vec<u8>, n: u32)
    ensures
        final(v)@ == old(v)@ + le32(n as int),
{
    v.push((n % 256) as u8);
    v.push((n / 256 % 256) as u8);
    v.push((n / 0x1_0000 % 256) as u8);
    v.push((n / 0x100_0000) as u8);
    assert(v@ =~= old(v)@ + le32(n as int));
}

fn push_tag(v: &mut Vec<u8>, a: u8, b: u8, c: u8, d: u8)
    ensures
        final(v)@ == old(v)@ + seq![a, b, c, d],
{
    v.push(a);
    v.push(b);
    v.push(c);
    v.push(d);
    assert(v@ =~= old(v)@ + seq![a, b, c, d]);
}

proof fn lemma_samples_le_len(samples: Seq<i16>)
    ensures
        samples_le(samples).len() == 2 * samples.len(),
    decreases samples.len(),
{
    if samples.len() > 0 {
        lemma_samples_le_len(samples.drop_last());
    }
}

/// A WAV file of 16 kHz mono samples.
pub fn write_wav_i16_mono_16k(samples: &[i16]) -> (r: Result<Vec<u8>>)
    ensures
        if samples@.len() * 2 > u32::MAX {
            fails(r, ErrorKind::Encode, "WAV payload is too large to encode"@)
        } else {
            r matches Ok(v) && v@ == wav_header((samples@.len() * 2) as int) + samples_le(samples@)
        },
{
    if samples.len() > 0x7fff_ffff {
        return Err(AppError::encode("WAV payload is too large to encode"));
    }
    let data_len: u32 = (samples.len() * 2) as u32;
    let mut v: Vec<u8> = Vec::new();
    push_tag(&mut v, 0x52, 0x49, 0x46, 0x46);
    assert(v@ =~= seq![0x52u8, 0x49, 0x46, 0x46]);
    push_le32(&mut v, data_len.saturating_add(36));
    push_tag(&mut v, 0x57, 0x41, 0x56, 0x45);
    push_tag(&mut v, 0x66, 0x6d, 0x74, 0x20);
    push_le32(&mut v, 16);
    push_le16(&mut v, 1);
    push_le16(&mut v, 1);
    push_le32(&mut v, TARGET_RATE);
    push_le32(&mut v, TARGET_RATE * 2);
    push_le16(&mut v, 2);
    push_le16(&mut v, 16);
    push_tag(&mut v, 0x64, 0x61, 0x74, 0x61);
    push_le32(&mut v, data_len);
    assert(v@ == wav_header(data_len as int));
    let mut i: usize = 0;
    assert(v@ =~= wav_header(data_len as int) + samples_le(samples@.take(0)));
    while i < samples.len()
        invariant
            i <= samples@.len(),
            v@ == wav_header(data_len as int) + samples_le(samples@.take(i as int)),
        decreases samples.len() - i,
    {
        let s: i16 = samples[i];
        let n: u16 = if s < 0 {
            (s as i32 + 0x1_0000) as u16
        } else {
            s as u16
        };
        proof {
            assert(samples@.take(i + 1).drop_last() =~= samples@.take(i as int));
            assert(le16(n as int) =~= le16(s as int)) by {
                let m = s as int;
                assert(m < 0 ==> (m + 0x1_0000) % 256 == m % 256);
                assert(m < 0 ==> (m + 0x1_0000) / 256 % 256 == m / 256 % 256);
            }
        }
        push_le16(&mut v, n);
        i += 1;
        assert(v@ =~= wav_header(data_len as int) + samples_le(samples@.take(i as int)));
    }
    assert(samples@.take(i as int) =~= samples@);
    Ok(v)
}

/// The bytes behind the header of a WAV file are read back as the samples.
pub proof fn law_wav_samples_round_trip(samples: Seq<i16>, k: int)
    requires
        0 <= k < samples.len(),
    ensures
        samples_le(samples).len() == 2 * samples.len(),
        sample_value(PcmFormat::S16Le, sample_bytes(samples_le(samples), 2, k)) == samples[k],
    decreases samples.len(),
{
    lemma_samples_le_len(samples);
    lemma_samples_le_len(samples.drop_last());
    let all = samples_le(samples);
    let front = samples_le(samples.drop_last());
    if k == samples.len() - 1 {
        let b = sample_bytes(all, 2, k);
        assert(b =~= le16(samples.last() as int));
        law_signed_pair(b);
        let m = samples.last() as int;
        assert(m % 256 + 256 * (m / 256 % 256) == if m < 0 {
            m + 0x1_0000
        } else {
            m
        });
    } else {
        law_wav_samples_round_trip(samples.drop_last(), k);
        assert(sample_bytes(all, 2, k) =~= sample_bytes(front, 2, k));
    }
}

/// The header of a WAV file has 44 bytes and carries the marks of the format.
pub proof fn law_wav_header(data_len: int)
    ensures
        wav_header(data_len).len() == 44,
        wav_header(data_len).take(4) == seq![0x52u8, 0x49, 0x46, 0x46],
        wav_header(data_len).subrange(8, 12) == seq![0x57u8, 0x41, 0x56, 0x45],
{
    assert(wav_header(data_len).take(4) =~= seq![0x52u8, 0x49, 0x46, 0x46]);
    assert(wav_header(data_len).subrange(8, 12) =~= seq![0x57u8, 0x41, 0x56, 0x45]);
}

/// Where the file of a chunk goes, and where it is written before it is complete.
#[derive(Debug)]
pub struct ChunkPlace {
    pub path: String,
    pub unfinished: String,
}

/// Where a file goes in a directory: it is written beside its place under another name
/// first. `taken` is whether there is a file in its place, which is never overwritten.
pub fn write_flac_atomic(dir: &str, file_name: &str, taken: bool) -> (r: Result<ChunkPlace>)
    ensures
        if taken {
            fails(
                r,
                ErrorKind::Encode,
                "refusing to overwrite existing audio chunk "@ + joined_path(dir@, file_name@),
            )
        } else {
            r matches Ok(place) && place.path@ == joined_path(dir@, file_name@)
                && place.unfinished@ == joined_path(dir@, file_name@ + ".tmp"@)
        },
{
    let path = join(dir, file_name);
    if taken {
        let message = text::concat2("refusing to overwrite existing audio chunk ", path.as_str());
        return Err(AppError::encode(message.as_str()));
    }
    let unfinished = text::concat2(file_name, ".tmp");
    Ok(ChunkPlace { path, unfinished: join(dir, unfinished.as_str()) })
}

/// The file of a chunk: its name and its bytes.
#[derive(Debug)]
pub struct ChunkFile {
    pub name: String,
    pub bytes: Vec<u8>,
}

/// The file of a chunk.
pub fn persist_chunk(sequence: u64, started_at: UtcTime, samples: &[i16]) -> (r: Result<ChunkFile>)
    requires
        started_at.wf(),
    ensures
        samples@.len() == 0 ==> fails(
            r,
            ErrorKind::Encode,
            "cannot encode an empty PCM buffer as FLAC"@,
        ),
        match r {
            Ok(file) => file.name@ == chunk_file_name(sequence, started_at) && holds_signal(
                file.bytes@,
                widened(samples@),
            ),
            Err(e) => e@.0 == ErrorKind::Encode,
        },
        0 < samples@.len() < 0x10_0000_0000 ==> r is Ok,
{
    match encode_flac_i16_mono_16k(samples) {
        Ok(bytes) => Ok(ChunkFile { name: audio_file_name(sequence, started_at), bytes }),
        Err(e) => Err(e),
    }
}

/// The file of a chunk is named by its number, of eight digits at least, and by its start,
/// with hyphens for the colons.
pub proof fn law_how_chunks_are_named(sequence: u64, started_at: UtcTime, i: int)
    ensures
        ({
            let name = chunk_file_name(sequence, started_at);
            let stamp = rfc3339_millis(started_at.secs, started_at.nanos);
            let digits = text::decimal(sequence as nat);
            let width = if digits.len() < 8 {
                8int
            } else {
                digits.len() as int
            };
            &&& name.len() == width + 1 + stamp.len() + 5
            &&& name.subrange(width - digits.len(), width) == digits
            &&& 0 <= i < width - digits.len() ==> name[i] == '0'
            &&& name[width] == '_'
            &&& 0 <= i < stamp.len() ==> name[width + 1 + i] == (if stamp[i] == ':' {
                '-'
            } else {
                stamp[i]
            })
            &&& name.skip(name.len() - 5) == ".flac"@
        }),
{
    reveal_strlit("_");
    reveal_strlit(".flac");
    let name = chunk_file_name(sequence, started_at);
    let digits = text::decimal(sequence as nat);
    let padded = text::zero_padded(digits, 8);
    text::law_padding_puts_zeros_in_front(digits, 8);
    let width = padded.len() as int;
    assert(name.subrange(width - digits.len(), width) =~= digits) by {
        assert(name.take(width) =~= padded);
        if digits.len() < 8 {
            assert(padded.skip(8 - digits.len()) == digits);
        }
    }
    assert(name.skip(name.len() - 5) =~= ".flac"@);
}

/// Samples of 16 bits stay as they are, up to what 16 bits can hold.
pub proof fn law_samples_of_16_bits_stay(sample: i32)
    ensures
        -32_768 <= sample <= 32_767 ==> scaled(sample, 16) == sample,
        sample > 32_767 ==> scaled(sample, 16) == 32_767,
        sample < -32_768 ==> scaled(sample, 16) == -32_768,
{
}

/// Samples of 24 bits lose their lowest eight bits, and samples of eight bits gain eight.
pub proof fn law_other_samples_are_scaled(sample: i32)
    ensures
        -8_388_608 <= sample <= 8_388_607 ==> scaled(sample, 24) == sample as int / 256,
        -128 <= sample <= 127 ==> scaled(sample, 8) == sample * 256,
{
    if -8_388_608 <= sample <= 8_388_607 {
        assert((sample >> 8u32) as i16 == (sample >> 8u32) && (sample >> 8u32) * 256 <= sample
            && sample <= (sample >> 8u32) * 256 + 255) by (bit_vector)
            requires
                -8_388_608 <= sample <= 8_388_607,
        ;
    }
    if -128 <= sample <= 127 {
        assert((sample << 8u32) as i16 == sample * 256) by (bit_vector)
            requires
                -128 <= sample <= 127,
        ;
    }
}

/// A FLAC stream is taken where it can be read to its end and holds one channel at 16 kHz;
/// its samples are then given in their order, each brought to 16 bits.
pub proof fn law_flac_is_taken_or_refused(
    read: std::result::Result<FlacContents, Seq<char>>,
    path: Seq<char>,
    i: int,
)
    ensures
        pcm_of(read, path) is Ok <==> (read matches Ok(c) && c.sample_rate == 16_000 && c.channels
            == 1 && c.failure is None),
        pcm_of(read, path) matches Ok(samples) ==> {
            let c = read->Ok_0;
            &&& samples.len() == c.samples.len()
            &&& 0 <= i < samples.len() ==> samples[i] == scaled(c.samples[i], c.bits_per_sample)
        },
{
}

/// The head of a WAV file says how long the file and its samples are, and that it holds one
/// channel of 16-bit samples at 16 kHz.
#[verifier::rlimit(50)]
pub proof fn law_what_a_wav_header_says(data_len: int)
    requires
        0 <= data_len,
        data_len + 36 <= u32::MAX,
    ensures
        ({
            let h = wav_header(data_len);
            &&& h.len() == 44
            &&& h[4] + 256 * h[5] + 65_536 * h[6] + 16_777_216 * h[7] == data_len + 36
            &&& h[20] + 256 * h[21] == 1
            &&& h[22] + 256 * h[23] == 1
            &&& h[24] + 256 * h[25] + 65_536 * h[26] + 16_777_216 * h[27] == 16_000
            &&& h[28] + 256 * h[29] + 65_536 * h[30] + 16_777_216 * h[31] == 32_000
            &&& h[32] + 256 * h[33] == 2
            &&& h[34] + 256 * h[35] == 16
            &&& h.subrange(36, 40) == seq![0x64u8, 0x61, 0x74, 0x61]
            &&& h[40] + 256 * h[41] + 65_536 * h[42] + 16_777_216 * h[43] == data_len
        }),
{
    lemma_wav_parts(data_len);
    lemma_header_numbers(wav_header(data_len), data_len);
}

proof fn lemma_header_numbers(h: Seq<u8>, data_len: int)
    requires
        0 <= data_len,
        data_len + 36 <= u32::MAX,
        h.len() == 44,
        h.subrange(4, 8) == le32(data_len + 36),
        h.subrange(20, 24) == le16(1) + le16(1),
        h.subrange(24, 28) == le32(TARGET_RATE as int),
        h.subrange(28, 32) == le32(TARGET_RATE * 2),
        h.subrange(32, 36) == le16(2) + le16(16),
        h.subrange(40, 44) == le32(data_len),
    ensures
        h[4] + 256 * h[5] + 65_536 * h[6] + 16_777_216 * h[7] == data_len + 36,
        h[20] + 256 * h[21] == 1,
        h[22] + 256 * h[23] == 1,
        h[24] + 256 * h[25] + 65_536 * h[26] + 16_777_216 * h[27] == 16_000,
        h[28] + 256 * h[29] + 65_536 * h[30] + 16_777_216 * h[31] == 32_000,
        h[32] + 256 * h[33] == 2,
        h[34] + 256 * h[35] == 16,
        h[40] + 256 * h[41] + 65_536 * h[42] + 16_777_216 * h[43] == data_len,
{
    lemma_le32(data_len + 36);
    lemma_le32(data_len);
    lemma_le32(16_000);
    lemma_le32(32_000);
    assert(h[4] == h.subrange(4, 8)[0] && h[5] == h.subrange(4, 8)[1]);
    assert(h[6] == h.subrange(4, 8)[2] && h[7] == h.subrange(4, 8)[3]);
    assert(h[20] == h.subrange(20, 24)[0] && h[21] == h.subrange(20, 24)[1]);
    assert(h[22] == h.subrange(20, 24)[2] && h[23] == h.subrange(20, 24)[3]);
    assert(h[24] == h.subrange(24, 28)[0] && h[25] == h.subrange(24, 28)[1]);
    assert(h[26] == h.subrange(24, 28)[2] && h[27] == h.subrange(24, 28)[3]);
    assert(h[28] == h.subrange(28, 32)[0] && h[29] == h.subrange(28, 32)[1]);
    assert(h[30] == h.subrange(28, 32)[2] && h[31] == h.subrange(28, 32)[3]);
    assert(h[32] == h.subrange(32, 36)[0] && h[33] == h.subrange(32, 36)[1]);
    assert(h[34] == h.subrange(32, 36)[2] && h[35] == h.subrange(32, 36)[3]);
    assert(h[40] == h.subrange(40, 44)[0] && h[41] == h.subrange(40, 44)[1]);
    assert(h[42] == h.subrange(40, 44)[2] && h[43] == h.subrange(40, 44)[3]);
}

proof fn lemma_le32(n: int)
    requires
        0 <= n <= u32::MAX,
    ensures
        ({
            let b = le32(n);
            b.len() == 4 && b[0] + 256 * b[1] + 65_536 * b[2] + 16_777_216 * b[3] == n
        }),
{
}

#[verifier::rlimit(50)]
proof fn lemma_wav_parts(data_len: int)
    requires
        0 <= data_len,
        data_len + 36 <= u32::MAX,
    ensures
        ({
            let h = wav_header(data_len);
            &&& h.len() == 44
            &&& h.subrange(4, 8) == le32(data_len + 36)
            &&& h.subrange(20, 24) == le16(1) + le16(1)
            &&& h.subrange(24, 28) == le32(TARGET_RATE as int)
            &&& h.subrange(28, 32) == le32(TARGET_RATE * 2)
            &&& h.subrange(32, 36) == le16(2) + le16(16)
            &&& h.subrange(36, 40) == seq![0x64u8, 0x61, 0x74, 0x61]
            &&& h.subrange(40, 44) == le32(data_len)
        }),
{
    let a = seq![0x52u8, 0x49, 0x46, 0x46];
    let b = le32(data_len + 36);
    let c = seq![0x57u8, 0x41, 0x56, 0x45];
    let d = seq![0x66u8, 0x6d, 0x74, 0x20];
    let e = le32(16);
    let f = le16(1);
    let g = le32(TARGET_RATE as int);
    let i = le32(TARGET_RATE * 2);
    let j = le16(2);
    let k = le16(16);
    let l = seq![0x64u8, 0x61, 0x74, 0x61];
    let m = le32(data_len);
    let h = wav_header(data_len);
    lemma_cat(a, b, c, d, e, f, g, i, j, k, l, m);
    assert(h == a + b + c + d + e + f + f + g + i + j + k + l + m);
}

proof fn lemma_cat(
    a: Seq<u8>,
    b: Seq<u8>,
    c: Seq<u8>,
    d: Seq<u8>,
    e: Seq<u8>,
    f: Seq<u8>,
    g: Seq<u8>,
    i: Seq<u8>,
    j: Seq<u8>,
    k: Seq<u8>,
    l: Seq<u8>,
    m: Seq<u8>,
)
    requires
        a.len() == 4,
        b.len() == 4,
        c.len() == 4,
        d.len() == 4,
        e.len() == 4,
        f.len() == 2,
        g.len() == 4,
        i.len() == 4,
        j.len() == 2,
        k.len() == 2,
        l.len() == 4,
        m.len() == 4,
    ensures
        ({
            let h = a + b + c + d + e + f + f + g + i + j + k + l + m;
            &&& h.len() == 44
            &&& h.subrange(4, 8) == b
            &&& h.subrange(20, 24) == f + f
            &&& h.subrange(24, 28) == g
            &&& h.subrange(28, 32) == i
            &&& h.subrange(32, 36) == j + k
            &&& h.subrange(36, 40) == l
            &&& h.subrange(40, 44) == m
        }),
{
    let h = a + b + c + d + e + f + f + g + i + j + k + l + m;
    assert(h.subrange(4, 8) =~= b);
    assert(h.subrange(20, 24) =~= f + f);
    assert(h.subrange(24, 28) =~= g);
    assert(h.subrange(28, 32) =~= i);
    assert(h.subrange(32, 36) =~= j + k);
    assert(h.subrange(36, 40) =~= l);
    assert(h.subrange(40, 44) =~= m);
}

} // verus!
