//! The streaming writer: a header with placeholder sizes when the stream
//! begins, the payload appended as it arrives, and the sizes patched in when
//! the stream ends.

use vstd::prelude::*;
use crate::le::{le_bytes_u32, le_value, lemma_le_value_u32, push_u32_le};
use crate::wav::{
    header_image, placeholder_header, rate_fits, write_at, write_wav_header, WavError,
    WavHeader, WriteOp, DATA_SIZE_OFFSET, HEADER_LEN, MAX_DATA_LEN, RIFF_SIZE_OFFSET,
};

verus! {

/// What has been handed out so far for one file: its sample rate and the
/// number of payload bytes appended.
#[derive(Clone, Copy, Debug)]
pub struct WavWriter {
    sample_rate: u32,
    data_len: u64,
}

impl WavWriter {
    #[verifier::type_invariant]
    spec fn well_formed(self) -> bool {
        rate_fits(self.sample_rate) && self.data_len <= MAX_DATA_LEN
    }

    /// The sample rate the header was written with.
    pub closed spec fn rate(&self) -> u32 {
        self.sample_rate
    }

    /// The number of payload bytes appended so far.
    pub closed spec fn payload_len(&self) -> nat {
        self.data_len as nat
    }

    /// Starts a file: a fresh writer and the write of the placeholder header
    /// at offset 0, after which the file's end is at byte 44.
    /// Fails with `SampleRateTooLarge` exactly when the byte rate would not
    /// fit its field.
    pub fn begin(sample_rate: u32) -> (result: Result<(WavWriter, WriteOp), WavError>)
        ensures
            match result {
                Ok(started) => {
                    &&& rate_fits(sample_rate)
                    &&& started.0.rate() == sample_rate
                    &&& started.0.payload_len() == 0
                    &&& started.1.offset == 0
                    &&& started.1.bytes@ == placeholder_header(sample_rate)
                },
                Err(e) => !rate_fits(sample_rate) && e == WavError::SampleRateTooLarge,
            },
    {
        match write_wav_header(sample_rate) {
            Ok(op) => Ok((WavWriter { sample_rate, data_len: 0 }, op)),
            Err(e) => Err(e),
        }
    }

    /// Appends `pcm` at the current end of the file. Fails with `TooLarge`,
    /// and changes nothing, exactly when the payload would outgrow
    /// `MAX_DATA_LEN`.
    pub fn append(&mut self, pcm: Vec<u8>) -> (result: Result<WriteOp, WavError>)
        ensures
            final(self).rate() == old(self).rate(),
            match result {
                Ok(op) => {
                    &&& old(self).payload_len() + pcm@.len() <= MAX_DATA_LEN
                    &&& final(self).payload_len() == old(self).payload_len() + pcm@.len()
                    &&& op.offset == HEADER_LEN + old(self).payload_len()
                    &&& op.bytes@ == pcm@
                },
                Err(e) => {
                    &&& old(self).payload_len() + pcm@.len() > MAX_DATA_LEN
                    &&& e == WavError::TooLarge
                    &&& final(self).payload_len() == old(self).payload_len()
                },
            },
    {
        proof {
            use_type_invariant(&*self);
        }
        let n: usize = pcm.len();
        if n as u64 > MAX_DATA_LEN - self.data_len {
            return Err(WavError::TooLarge);
        }
        let offset: u64 = HEADER_LEN + self.data_len;
        self.data_len = self.data_len + n as u64;
        Ok(WriteOp { offset, bytes: pcm })
    }

    /// The two writes that complete the header: the payload length plus 36
    /// at offset 4 and the payload length at offset 40.
    pub fn finalize(&self) -> (patches: (WriteOp, WriteOp))
        ensures
            patches.0.offset == RIFF_SIZE_OFFSET,
            patches.0.bytes@ == le_bytes_u32((self.payload_len() + 36) as u32),
            patches.1.offset == DATA_SIZE_OFFSET,
            patches.1.bytes@ == le_bytes_u32(self.payload_len() as u32),
    {
        proof {
            use_type_invariant(self);
        }
        let mut riff: Vec<u8> = Vec::new();
        push_u32_le(&mut riff, (self.data_len + 36) as u32);
        let mut data: Vec<u8> = Vec::new();
        push_u32_le(&mut data, self.data_len as u32);
        (
            WriteOp { offset: RIFF_SIZE_OFFSET, bytes: riff },
            WriteOp { offset: DATA_SIZE_OFFSET, bytes: data },
        )
    }

    /// The sample rate the header was written with.
    pub fn sample_rate(&self) -> (rate: u32)
        ensures
            rate == self.rate(),
    {
        self.sample_rate
    }

    /// The number of payload bytes appended so far.
    pub fn data_len(&self) -> (len: u64)
        ensures
            len == self.payload_len(),
            len <= MAX_DATA_LEN,
    {
        proof {
            use_type_invariant(self);
        }
        self.data_len
    }
}

/// The header depends on the sample rate alone: two files begun at the
/// same rate start with the same write of the same 44 bytes, whenever and
/// wherever they are begun.
pub proof fn lemma_begin_repeatable(
    sample_rate: u32,
    first: (WavWriter, WriteOp),
    second: (WavWriter, WriteOp),
)
    requires
        first.1.offset == 0,
        first.1.bytes@ == placeholder_header(sample_rate),
        second.1.offset == 0,
        second.1.bytes@ == placeholder_header(sample_rate),
    ensures
        first.1.offset == second.1.offset,
        first.1.bytes@ == second.1.bytes@,
        first.1.bytes@.len() == HEADER_LEN,
{
}

/// The lengths of all chunks, added up.
pub open spec fn total_len(chunks: Seq<Seq<u8>>) -> nat
    decreases chunks.len(),
{
    if chunks.len() == 0 {
        0
    } else {
        total_len(chunks.drop_last()) + chunks.last().len()
    }
}

/// All chunks, one after the other.
pub open spec fn payload(chunks: Seq<Seq<u8>>) -> Seq<u8>
    decreases chunks.len(),
{
    if chunks.len() == 0 {
        Seq::<u8>::empty()
    } else {
        payload(chunks.drop_last()) + chunks.last()
    }
}

/// The file after `begin` and one `append` per chunk, each write performed
/// as it was handed out.
pub open spec fn streamed(sample_rate: u32, chunks: Seq<Seq<u8>>) -> Seq<u8>
    decreases chunks.len(),
{
    if chunks.len() == 0 {
        write_at(Seq::<u8>::empty(), 0, placeholder_header(sample_rate))
    } else {
        write_at(
            streamed(sample_rate, chunks.drop_last()),
            (HEADER_LEN + total_len(chunks.drop_last())) as nat,
            chunks.last(),
        )
    }
}

/// The streamed file after the two writes of `finalize`.
pub open spec fn finalized(sample_rate: u32, chunks: Seq<Seq<u8>>) -> Seq<u8> {
    let n = total_len(chunks);
    write_at(
        write_at(
            streamed(sample_rate, chunks),
            RIFF_SIZE_OFFSET as nat,
            le_bytes_u32((n + 36) as u32),
        ),
        DATA_SIZE_OFFSET as nat,
        le_bytes_u32(n as u32),
    )
}

/// The payload is as long as its chunks together.
pub proof fn lemma_payload_len(chunks: Seq<Seq<u8>>)
    ensures
        payload(chunks).len() == total_len(chunks),
    decreases chunks.len(),
{
    if chunks.len() > 0 {
        lemma_payload_len(chunks.drop_last());
    }
}

/// While the stream runs the file is the placeholder header followed by
/// every chunk in the order of the appends.
pub proof fn lemma_streamed(sample_rate: u32, chunks: Seq<Seq<u8>>)
    ensures
        streamed(sample_rate, chunks) == placeholder_header(sample_rate) + payload(chunks),
        streamed(sample_rate, chunks).len() == HEADER_LEN + total_len(chunks),
    decreases chunks.len(),
{
    lemma_payload_len(chunks);
    if chunks.len() == 0 {
        assert(streamed(sample_rate, chunks) =~= placeholder_header(sample_rate) + payload(
            chunks,
        ));
    } else {
        lemma_streamed(sample_rate, chunks.drop_last());
        lemma_payload_len(chunks.drop_last());
        assert(streamed(sample_rate, chunks) =~= placeholder_header(sample_rate) + payload(
            chunks,
        ));
    }
}

/// Round trip: after `begin`, any appends within the size limit and
/// `finalize`, the file is 44 bytes longer than its payload, holds the
/// completed header followed by the payload, and its two size fields read
/// back as the payload length plus 36 and the payload length, which are the
/// sizes that describe a file of its length.
pub proof fn lemma_round_trip(sample_rate: u32, chunks: Seq<Seq<u8>>)
    requires
        total_len(chunks) <= MAX_DATA_LEN,
    ensures
        finalized(sample_rate, chunks).len() == HEADER_LEN + total_len(chunks),
        finalized(sample_rate, chunks) == header_image(
            sample_rate,
            (total_len(chunks) + 36) as u32,
            total_len(chunks) as u32,
        ) + payload(chunks),
        le_value(finalized(sample_rate, chunks).subrange(40, 44)) == total_len(chunks),
        le_value(finalized(sample_rate, chunks).subrange(4, 8)) == total_len(chunks) + 36,
        WavHeader::mono(
            sample_rate,
            (total_len(chunks) + 36) as u32,
            total_len(chunks) as u32,
        ).describes(finalized(sample_rate, chunks).len()),
{
    let n = total_len(chunks);
    let file = finalized(sample_rate, chunks);
    lemma_streamed(sample_rate, chunks);
    lemma_payload_len(chunks);
    assert(file =~= header_image(sample_rate, (n + 36) as u32, n as u32) + payload(chunks));
    assert(file.subrange(40, 44) =~= le_bytes_u32(n as u32));
    assert(file.subrange(4, 8) =~= le_bytes_u32((n + 36) as u32));
    lemma_le_value_u32(n as u32);
    lemma_le_value_u32((n + 36) as u32);
}

} // verus!
