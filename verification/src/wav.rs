//! The RIFF/WAVE container: a fixed 44-byte header followed by 16-bit mono
//! PCM. The writer never touches a file itself. It hands out positional
//! writes, and whoever owns the file performs them in order.

use vstd::prelude::*;
use crate::le::{le_bytes_u16, le_bytes_u32, push_u16_le, push_u32_le};

verus! {

/// Length of the header, and so the offset of the first sample.
pub const HEADER_LEN: u64 = 44;

/// Offset of the RIFF chunk size field.
pub const RIFF_SIZE_OFFSET: u64 = 4;

/// Offset of the data chunk size field.
pub const DATA_SIZE_OFFSET: u64 = 40;

/// The most payload bytes a file can hold: the RIFF chunk size, which is the
/// payload length plus 36, has to fit its 32-bit field.
pub const MAX_DATA_LEN: u64 = 4294967259;

/// Channels in the output: always mono.
pub const OUTPUT_CHANNELS: u16 = 1;

/// Bits per output sample.
pub const BITS_PER_SAMPLE: u16 = 16;

/// Why the container could not be written.
#[derive(Clone, Copy, Debug, PartialEq, Eq, Structural)]
pub enum WavError {
    /// The byte rate, twice the sample rate, does not fit its 32-bit field.
    SampleRateTooLarge,
    /// The payload would outgrow `MAX_DATA_LEN`.
    TooLarge,
    /// The file is shorter than a header.
    Truncated,
}

/// One positional write: `bytes` go to the file at `offset`.
#[derive(Debug)]
pub struct WriteOp {
    pub offset: u64,
    pub bytes: Vec<u8>,
}

/// A file after `bytes` were written at `offset`. A write past the end
/// leaves a gap of zeros, and a write inside the file replaces what was there.
pub open spec fn write_at(file: Seq<u8>, offset: nat, bytes: Seq<u8>) -> Seq<u8> {
    let end = offset + bytes.len();
    let len = if file.len() < end {
        end
    } else {
        file.len()
    };
    Seq::new(
        len,
        |i: int|
            if offset <= i < end {
                bytes[i - offset]
            } else if i < file.len() {
                file[i]
            } else {
                0u8
            },
    )
}

impl WriteOp {
    /// The file after this write.
    pub open spec fn applied_to(&self, file: Seq<u8>) -> Seq<u8> {
        write_at(file, self.offset as nat, self.bytes@)
    }

    /// Performs the write on a file held in memory.
    pub fn apply(&self, file: &mut Vec<u8>)
        requires
            self.offset + self.bytes@.len() <= usize::MAX,
        ensures
            final(file)@ == self.applied_to(old(file)@),
    {
        let offset: usize = self.offset as usize;
        let n: usize = self.bytes.len();
        while file.len() < offset + n
            invariant
                offset + n <= usize::MAX,
                old(file)@.len() <= file@.len(),
                file@.len() <= old(file)@.len() || file@.len() <= offset + n,
                forall|i: int| 0 <= i < old(file)@.len() ==> file@[i] == old(file)@[i],
                forall|i: int| old(file)@.len() <= i < file@.len() ==> file@[i] == 0u8,
            decreases offset + n - file@.len(),
        {
            file.push(0u8);
        }
        let mut k: usize = 0;
        while k < n
            invariant
                k <= n,
                n == self.bytes@.len(),
                offset == self.offset,
                offset + n <= usize::MAX,
                offset + n <= file@.len(),
                file@.len() == self.applied_to(old(file)@).len(),
                forall|i: int| 0 <= i < offset ==> file@[i] == self.applied_to(old(file)@)[i],
                forall|i: int| offset <= i < offset + k ==> file@[i] == self.bytes@[i - offset],
                forall|i: int|
                    offset + k <= i < file@.len() ==> file@[i] == (if i < old(file)@.len() {
                        old(file)@[i]
                    } else {
                        0u8
                    }),
            decreases n - k,
        {
            file[offset + k] = self.bytes[k];
            k += 1;
        }
        assert(file@ =~= self.applied_to(old(file)@));
    }
}

/// The four ASCII bytes `RIFF`.
pub open spec fn tag_riff() -> Seq<u8> {
    seq![0x52u8, 0x49u8, 0x46u8, 0x46u8]
}

/// The four ASCII bytes `WAVE`.
pub open spec fn tag_wave() -> Seq<u8> {
    seq![0x57u8, 0x41u8, 0x56u8, 0x45u8]
}

/// The four ASCII bytes `fmt `, with its trailing space.
pub open spec fn tag_fmt() -> Seq<u8> {
    seq![0x66u8, 0x6du8, 0x74u8, 0x20u8]
}

/// The four ASCII bytes `data`.
pub open spec fn tag_data() -> Seq<u8> {
    seq![0x64u8, 0x61u8, 0x74u8, 0x61u8]
}

/// Whether the byte rate of a mono 16-bit stream at this rate fits its field.
pub open spec fn rate_fits(sample_rate: u32) -> bool {
    sample_rate * 2 <= u32::MAX
}

/// The fields of a header. The chunk ids, the size of the `fmt ` sub-chunk
/// and the PCM format tag are fixed and not held here.
#[derive(Clone, Copy, Debug, PartialEq, Eq, Structural)]
pub struct WavHeader {
    pub riff_size: u32,
    pub channels: u16,
    pub sample_rate: u32,
    pub byte_rate: u32,
    pub block_align: u16,
    pub bits_per_sample: u16,
    pub data_size: u32,
}

impl WavHeader {
    /// The header of a mono 16-bit stream with the given sizes.
    pub open spec fn mono(sample_rate: u32, riff_size: u32, data_size: u32) -> WavHeader {
        WavHeader {
            riff_size,
            channels: OUTPUT_CHANNELS,
            sample_rate,
            byte_rate: (sample_rate * 2) as u32,
            block_align: 2,
            bits_per_sample: BITS_PER_SAMPLE,
            data_size,
        }
    }

    /// Whether byte rate and block align are what rate, channels and sample
    /// width make them.
    pub open spec fn format_consistent(self) -> bool {
        &&& self.byte_rate == self.sample_rate * self.channels * (self.bits_per_sample / 8)
        &&& self.block_align == self.channels * (self.bits_per_sample / 8)
    }

    /// Whether the two sizes are those of a file of the given length: all
    /// but the first 8 bytes, and all but the header.
    pub open spec fn describes(self, file_length: nat) -> bool {
        &&& self.riff_size == file_length - 8
        &&& self.data_size == file_length - HEADER_LEN
    }

    /// The 44 bytes, field by field: chunk id, chunk size, format, `fmt `
    /// sub-chunk (its size 16, PCM, channels, sample rate, byte rate, block
    /// align, bits per sample), then the `data` id and size.
    pub open spec fn image(self) -> Seq<u8> {
        tag_riff() + le_bytes_u32(self.riff_size) + tag_wave() + tag_fmt() + le_bytes_u32(16)
            + le_bytes_u16(1) + le_bytes_u16(self.channels) + le_bytes_u32(self.sample_rate)
            + le_bytes_u32(self.byte_rate) + le_bytes_u16(self.block_align) + le_bytes_u16(
            self.bits_per_sample,
        ) + tag_data() + le_bytes_u32(self.data_size)
    }

    /// The header of a mono 16-bit stream as it stands while the stream
    /// runs, both sizes still zero. Fails with `SampleRateTooLarge` exactly
    /// when the byte rate would not fit its field.
    pub fn placeholder(sample_rate: u32) -> (result: Result<WavHeader, WavError>)
        ensures
            match result {
                Ok(header) => rate_fits(sample_rate) && header == WavHeader::mono(
                    sample_rate,
                    0,
                    0,
                ),
                Err(e) => !rate_fits(sample_rate) && e == WavError::SampleRateTooLarge,
            },
    {
        if sample_rate > 2147483647 {
            return Err(WavError::SampleRateTooLarge);
        }
        Ok(
            WavHeader {
                riff_size: 0,
                channels: OUTPUT_CHANNELS,
                sample_rate,
                byte_rate: sample_rate * 2,
                block_align: 2,
                bits_per_sample: BITS_PER_SAMPLE,
                data_size: 0,
            },
        )
    }

    /// The bytes of the header.
    pub fn encode(&self) -> (bytes: Vec<u8>)
        ensures
            bytes@ == self.image(),
    {
        let mut bytes: Vec<u8> = Vec::new();
        bytes.push(0x52u8);
        bytes.push(0x49u8);
        bytes.push(0x46u8);
        bytes.push(0x46u8);
        push_u32_le(&mut bytes, self.riff_size);
        bytes.push(0x57u8);
        bytes.push(0x41u8);
        bytes.push(0x56u8);
        bytes.push(0x45u8);
        bytes.push(0x66u8);
        bytes.push(0x6du8);
        bytes.push(0x74u8);
        bytes.push(0x20u8);
        push_u32_le(&mut bytes, 16);
        push_u16_le(&mut bytes, 1);
        push_u16_le(&mut bytes, self.channels);
        push_u32_le(&mut bytes, self.sample_rate);
        push_u32_le(&mut bytes, self.byte_rate);
        push_u16_le(&mut bytes, self.block_align);
        push_u16_le(&mut bytes, self.bits_per_sample);
        bytes.push(0x64u8);
        bytes.push(0x61u8);
        bytes.push(0x74u8);
        bytes.push(0x61u8);
        push_u32_le(&mut bytes, self.data_size);
        assert(bytes@ =~= self.image());
        bytes
    }
}

/// The bytes of the header of a mono 16-bit stream with the given sizes.
pub open spec fn header_image(sample_rate: u32, riff_size: u32, data_size: u32) -> Seq<u8> {
    WavHeader::mono(sample_rate, riff_size, data_size).image()
}

/// The header as it stands while the stream runs: both sizes still zero.
pub open spec fn placeholder_header(sample_rate: u32) -> Seq<u8> {
    header_image(sample_rate, 0, 0)
}

/// A header is 44 bytes, whatever it holds.
pub proof fn lemma_header_len(header: WavHeader)
    ensures
        header.image().len() == HEADER_LEN,
{
}

/// The header of a mono 16-bit stream is consistent in its format fields
/// at every rate whose byte rate fits.
pub proof fn lemma_mono_is_consistent(sample_rate: u32, riff_size: u32, data_size: u32)
    requires
        rate_fits(sample_rate),
    ensures
        WavHeader::mono(sample_rate, riff_size, data_size).format_consistent(),
{
}

/// The write that starts a file: the placeholder header at offset 0.
/// Fails with `SampleRateTooLarge` exactly when the byte rate would not fit.
pub fn write_wav_header(sample_rate: u32) -> (result: Result<WriteOp, WavError>)
    ensures
        match result {
            Ok(op) => rate_fits(sample_rate) && op.offset == 0 && op.bytes@ == placeholder_header(
                sample_rate,
            ),
            Err(e) => !rate_fits(sample_rate) && e == WavError::SampleRateTooLarge,
        },
{
    match WavHeader::placeholder(sample_rate) {
        Ok(header) => Ok(WriteOp { offset: 0, bytes: header.encode() }),
        Err(e) => Err(e),
    }
}

/// The two writes that complete a header once the file's length is known:
/// `file_length - 8` at offset 4 and `file_length - 44` at offset 40.
/// Fails with `Truncated` when the file is shorter than a header and with
/// `TooLarge` when the chunk size would not fit its field.
pub fn update_wav_header(file_length: u64) -> (result: Result<(WriteOp, WriteOp), WavError>)
    ensures
        match result {
            Ok(patches) => {
                &&& HEADER_LEN <= file_length <= HEADER_LEN + MAX_DATA_LEN
                &&& patches.0.offset == RIFF_SIZE_OFFSET
                &&& patches.0.bytes@ == le_bytes_u32((file_length - 8) as u32)
                &&& patches.1.offset == DATA_SIZE_OFFSET
                &&& patches.1.bytes@ == le_bytes_u32((file_length - 44) as u32)
            },
            Err(e) => if file_length < HEADER_LEN {
                e == WavError::Truncated
            } else {
                file_length > HEADER_LEN + MAX_DATA_LEN && e == WavError::TooLarge
            },
        },
{
    if file_length < HEADER_LEN {
        return Err(WavError::Truncated);
    }
    if file_length - HEADER_LEN > MAX_DATA_LEN {
        return Err(WavError::TooLarge);
    }
    let mut riff: Vec<u8> = Vec::new();
    push_u32_le(&mut riff, (file_length - 8) as u32);
    let mut data: Vec<u8> = Vec::new();
    push_u32_le(&mut data, (file_length - 44) as u32);
    Ok(
        (
            WriteOp { offset: RIFF_SIZE_OFFSET, bytes: riff },
            WriteOp { offset: DATA_SIZE_OFFSET, bytes: data },
        ),
    )
}

} // verus!
