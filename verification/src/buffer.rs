//! One callback's worth of native samples, and its conversion to the bytes
//! that go into the file: one 16-bit little-endian sample per frame.

use vstd::prelude::*;
use crate::le::{le_bytes_i16, push_i16_le};
use crate::sample::{
    convert_f32_mono, convert_f32_stereo, convert_f64_mono, convert_f64_stereo,
    convert_i16_mono, convert_i16_stereo, pcm_of_f32_mono, pcm_of_f32_stereo, pcm_of_f64_mono,
    pcm_of_f64_stereo, pcm_of_i16_mono, pcm_of_i16_stereo, SampleKind,
};

verus! {

/// Interleaved samples as the device delivered them. Floats are held by
/// their bit patterns.
#[derive(Debug)]
pub enum SampleBuffer {
    I16(Vec<i16>),
    F32(Vec<u32>),
    F64(Vec<u64>),
}

/// Why a buffer could not be converted.
#[derive(Clone, Copy, Debug, PartialEq, Eq, Structural)]
pub enum ConvertError {
    /// The channel count is neither 1 nor 2.
    UnsupportedChannels,
    /// A stereo buffer ends in the middle of a frame.
    IncompleteFrame,
}

/// The bytes of a run of PCM samples: two per sample, least significant
/// first, in order.
pub open spec fn pcm_bytes(samples: Seq<i16>) -> Seq<u8>
    decreases samples.len(),
{
    if samples.len() == 0 {
        Seq::<u8>::empty()
    } else {
        pcm_bytes(samples.drop_last()) + le_bytes_i16(samples.last())
    }
}

/// The sample that two bytes of a file stand for.
pub open spec fn sample_of_bytes(low: u8, high: u8) -> int {
    let bits = low + 256 * high;
    if bits >= 32768 {
        bits - 65536
    } else {
        bits
    }
}

impl SampleBuffer {
    /// The kind of the samples held.
    pub open spec fn kind(&self) -> SampleKind {
        match self {
            SampleBuffer::I16(_) => SampleKind::I16,
            SampleBuffer::F32(_) => SampleKind::F32,
            SampleBuffer::F64(_) => SampleKind::F64,
        }
    }

    /// The number of samples held, all channels counted.
    pub open spec fn len(&self) -> nat {
        match self {
            SampleBuffer::I16(v) => v@.len(),
            SampleBuffer::F32(v) => v@.len(),
            SampleBuffer::F64(v) => v@.len(),
        }
    }

    /// The number of whole frames held.
    pub open spec fn frames(&self, channels: u16) -> nat {
        if channels == 1 {
            self.len()
        } else {
            self.len() / 2
        }
    }

    /// The PCM value of frame `i`: the sample itself converted where there
    /// is one channel, the downmix of samples `2i` and `2i + 1` where there
    /// are two.
    pub open spec fn frame_pcm(&self, channels: u16, i: int) -> i16 {
        match self {
            SampleBuffer::I16(v) => if channels == 1 {
                pcm_of_i16_mono(v@[i])
            } else {
                pcm_of_i16_stereo(v@[2 * i], v@[2 * i + 1])
            },
            SampleBuffer::F32(v) => if channels == 1 {
                pcm_of_f32_mono(v@[i])
            } else {
                pcm_of_f32_stereo(v@[2 * i], v@[2 * i + 1])
            },
            SampleBuffer::F64(v) => if channels == 1 {
                pcm_of_f64_mono(v@[i])
            } else {
                pcm_of_f64_stereo(v@[2 * i], v@[2 * i + 1])
            },
        }
    }

    /// The mono PCM samples that the buffer converts to, one per frame.
    pub open spec fn pcm(&self, channels: u16) -> Seq<i16> {
        Seq::new(self.frames(channels), |i: int| self.frame_pcm(channels, i))
    }

    /// Whether the buffer can be converted as it stands: one or two
    /// channels, and no frame cut short.
    pub open spec fn convertible(&self, channels: u16) -> bool {
        channels == 1 || (channels == 2 && self.len() % 2 == 0)
    }

    /// The kind of the samples held.
    pub fn sample_kind(&self) -> (kind: SampleKind)
        ensures
            kind == self.kind(),
    {
        match self {
            SampleBuffer::I16(_) => SampleKind::I16,
            SampleBuffer::F32(_) => SampleKind::F32,
            SampleBuffer::F64(_) => SampleKind::F64,
        }
    }

    /// The number of samples held, all channels counted.
    pub fn sample_count(&self) -> (count: usize)
        ensures
            count == self.len(),
    {
        match self {
            SampleBuffer::I16(v) => v.len(),
            SampleBuffer::F32(v) => v.len(),
            SampleBuffer::F64(v) => v.len(),
        }
    }

    /// Converts frame `i`.
    pub fn convert_frame(&self, channels: u16, i: usize) -> (pcm: i16)
        requires
            channels == 1 || channels == 2,
            i < self.frames(channels),
        ensures
            pcm == self.frame_pcm(channels, i as int),
    {
        match self {
            SampleBuffer::I16(v) => if channels == 1 {
                convert_i16_mono(v[i])
            } else {
                assert(2 * i + 1 < v.len());
                convert_i16_stereo(v[2 * i], v[2 * i + 1])
            },
            SampleBuffer::F32(v) => if channels == 1 {
                convert_f32_mono(v[i])
            } else {
                assert(2 * i + 1 < v.len());
                convert_f32_stereo(v[2 * i], v[2 * i + 1])
            },
            SampleBuffer::F64(v) => if channels == 1 {
                convert_f64_mono(v[i])
            } else {
                assert(2 * i + 1 < v.len());
                convert_f64_stereo(v[2 * i], v[2 * i + 1])
            },
        }
    }
}

/// Converts a whole buffer to the bytes of its mono PCM samples, frame by
/// frame and in order. Nothing is produced for a buffer that cannot be
/// converted whole: `UnsupportedChannels` for a channel count other than 1
/// or 2, `IncompleteFrame` for a stereo buffer of odd length.
pub fn convert_buffer(buffer: &SampleBuffer, channels: u16) -> (result: Result<
    Vec<u8>,
    ConvertError,
>)
    ensures
        match result {
            Ok(bytes) => buffer.convertible(channels) && bytes@ == pcm_bytes(buffer.pcm(channels)),
            Err(e) => !buffer.convertible(channels) && e == (if channels == 2 {
                ConvertError::IncompleteFrame
            } else {
                ConvertError::UnsupportedChannels
            }),
        },
{
    if channels != 1 && channels != 2 {
        return Err(ConvertError::UnsupportedChannels);
    }
    let count: usize = buffer.sample_count();
    if channels == 2 && count % 2 != 0 {
        return Err(ConvertError::IncompleteFrame);
    }
    let frames: usize = if channels == 1 {
        count
    } else {
        count / 2
    };
    let mut out: Vec<u8> = if frames <= usize::MAX / 2 {
        Vec::with_capacity(2 * frames)
    } else {
        Vec::new()
    };
    let mut i: usize = 0;
    while i < frames
        invariant
            channels == 1 || channels == 2,
            frames == buffer.frames(channels),
            i <= frames,
            out@ == pcm_bytes(buffer.pcm(channels).take(i as int)),
        decreases frames - i,
    {
        let pcm: i16 = buffer.convert_frame(channels, i);
        push_i16_le(&mut out, pcm);
        proof {
            let all = buffer.pcm(channels);
            assert(all.take(i + 1).drop_last() =~= all.take(i as int));
            assert(all.take(i + 1).last() == pcm);
        }
        i += 1;
    }
    assert(buffer.pcm(channels).take(frames as int) =~= buffer.pcm(channels));
    Ok(out)
}

/// The bytes of a run of samples are twice as many as the samples, and the
/// pair at `2i` is the encoding of sample `i`.
pub proof fn lemma_pcm_bytes_layout(samples: Seq<i16>, i: int)
    requires
        0 <= i < samples.len(),
    ensures
        pcm_bytes(samples).len() == 2 * samples.len(),
        pcm_bytes(samples)[2 * i] == le_bytes_i16(samples[i])[0],
        pcm_bytes(samples)[2 * i + 1] == le_bytes_i16(samples[i])[1],
    decreases samples.len(),
{
    lemma_pcm_bytes_len(samples);
    lemma_pcm_bytes_len(samples.drop_last());
    if i < samples.len() - 1 {
        lemma_pcm_bytes_layout(samples.drop_last(), i);
    }
}

/// Two bytes per sample.
pub proof fn lemma_pcm_bytes_len(samples: Seq<i16>)
    ensures
        pcm_bytes(samples).len() == 2 * samples.len(),
    decreases samples.len(),
{
    if samples.len() > 0 {
        lemma_pcm_bytes_len(samples.drop_last());
    }
}

/// Reading back: the two bytes written for sample `i` stand for that
/// sample again.
pub proof fn lemma_read_back(samples: Seq<i16>, i: int)
    requires
        0 <= i < samples.len(),
    ensures
        sample_of_bytes(pcm_bytes(samples)[2 * i], pcm_bytes(samples)[2 * i + 1]) == samples[i],
{
    lemma_pcm_bytes_layout(samples, i);
}

/// Reading back a converted buffer: the bytes at frame `i` stand for the
/// PCM value of that frame, for every kind and both channel counts.
pub proof fn lemma_converted_read_back(buffer: SampleBuffer, channels: u16, i: int)
    requires
        buffer.convertible(channels),
        0 <= i < buffer.frames(channels),
    ensures
        pcm_bytes(buffer.pcm(channels)).len() == 2 * buffer.frames(channels),
        sample_of_bytes(
            pcm_bytes(buffer.pcm(channels))[2 * i],
            pcm_bytes(buffer.pcm(channels))[2 * i + 1],
        ) == buffer.frame_pcm(channels, i),
{
    lemma_read_back(buffer.pcm(channels), i);
    lemma_pcm_bytes_len(buffer.pcm(channels));
}

} // verus!
