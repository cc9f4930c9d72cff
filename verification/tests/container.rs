use audio_trans_vox::wav::{
    update_wav_header, write_wav_header, WavError, WavHeader, WriteOp, BITS_PER_SAMPLE,
    DATA_SIZE_OFFSET, HEADER_LEN, MAX_DATA_LEN, OUTPUT_CHANNELS, RIFF_SIZE_OFFSET,
};
use audio_trans_vox::writer::WavWriter;
use std::io::Cursor;

fn record(sample_rate: u32, chunks: &[Vec<u8>]) -> Vec<u8> {
    let mut file = Vec::new();
    let (mut writer, header) = WavWriter::begin(sample_rate).unwrap();
    header.apply(&mut file);
    for chunk in chunks {
        writer.append(chunk.clone()).unwrap().apply(&mut file);
    }
    let (riff, data) = writer.finalize();
    riff.apply(&mut file);
    data.apply(&mut file);
    file
}

fn u32_at(file: &[u8], offset: usize) -> u32 {
    u32::from_le_bytes([file[offset], file[offset + 1], file[offset + 2], file[offset + 3]])
}

fn u16_at(file: &[u8], offset: usize) -> u16 {
    u16::from_le_bytes([file[offset], file[offset + 1]])
}

#[test]
fn header_layout_is_bit_exact() {
    let op = write_wav_header(44100).unwrap();
    assert_eq!(op.offset, 0);
    let h = &op.bytes;
    assert_eq!(h.len(), 44);
    assert_eq!(&h[0..4], b"RIFF");
    assert_eq!(u32_at(h, 4), 0);
    assert_eq!(&h[8..12], b"WAVE");
    assert_eq!(&h[12..16], b"fmt ");
    assert_eq!(u32_at(h, 16), 16);
    assert_eq!(u16_at(h, 20), 1);
    assert_eq!(u16_at(h, 22), 1);
    assert_eq!(u32_at(h, 24), 44100);
    assert_eq!(u32_at(h, 28), 88200);
    assert_eq!(u16_at(h, 32), 2);
    assert_eq!(u16_at(h, 34), 16);
    assert_eq!(&h[36..40], b"data");
    assert_eq!(u32_at(h, 40), 0);
}

#[test]
fn header_bytes_for_16000_hz() {
    let op = write_wav_header(16000).unwrap();
    let expected: [u8; 44] = [
        0x52, 0x49, 0x46, 0x46, 0, 0, 0, 0, 0x57, 0x41, 0x56, 0x45, 0x66, 0x6d, 0x74, 0x20, 16,
        0, 0, 0, 1, 0, 1, 0, 0x80, 0x3e, 0, 0, 0x00, 0x7d, 0, 0, 2, 0, 16, 0, 0x64, 0x61, 0x74,
        0x61, 0, 0, 0, 0,
    ];
    assert_eq!(op.bytes, expected.to_vec());
}

#[test]
fn header_is_the_same_on_every_call() {
    for rate in [0u32, 1, 8000, 16000, 44100, 48000, 192000, 2147483647] {
        let first = write_wav_header(rate).unwrap();
        let second = write_wav_header(rate).unwrap();
        assert_eq!(first.offset, second.offset);
        assert_eq!(first.bytes, second.bytes);
        let (_, begun) = WavWriter::begin(rate).unwrap();
        assert_eq!(begun.offset, 0);
        assert_eq!(begun.bytes, first.bytes);
    }
}

#[test]
fn header_differs_only_in_the_rate_fields() {
    let a = write_wav_header(16000).unwrap().bytes;
    let b = write_wav_header(48000).unwrap().bytes;
    for i in 0..44 {
        if (24..32).contains(&i) {
            continue;
        }
        assert_eq!(a[i], b[i], "byte {}", i);
    }
    assert_ne!(a[24..32], b[24..32]);
}

#[test]
fn sample_rate_too_large_for_the_byte_rate() {
    assert!(write_wav_header(2147483647).is_ok());
    assert_eq!(write_wav_header(2147483648).unwrap_err(), WavError::SampleRateTooLarge);
    assert_eq!(write_wav_header(u32::MAX).unwrap_err(), WavError::SampleRateTooLarge);
    assert_eq!(WavWriter::begin(u32::MAX).unwrap_err(), WavError::SampleRateTooLarge);
    assert_eq!(u32_at(&write_wav_header(2147483647).unwrap().bytes, 28), 4294967294);
}

#[test]
fn begin_append_finalize_scenario() {
    let mut file = Vec::new();
    let (mut writer, header) = WavWriter::begin(16000).unwrap();
    header.apply(&mut file);
    assert_eq!(file.len(), 44);
    let append = writer.append(vec![0x00, 0x01, 0x00, 0x02]).unwrap();
    assert_eq!(append.offset, 44);
    append.apply(&mut file);
    let (riff, data) = writer.finalize();
    riff.apply(&mut file);
    data.apply(&mut file);
    assert_eq!(file.len(), 48);
    assert_eq!(&file[40..44], &[0x04, 0x00, 0x00, 0x00]);
    assert_eq!(&file[4..8], &[0x28, 0x00, 0x00, 0x00]);
    assert_eq!(&file[44..48], &[0x00, 0x01, 0x00, 0x02]);
}

#[test]
fn round_trip_sizes() {
    let chunks = vec![vec![1u8; 10], vec![], vec![2u8; 300], vec![3u8; 2]];
    let file = record(48000, &chunks);
    let total: usize = chunks.iter().map(|c| c.len()).sum();
    assert_eq!(file.len(), 44 + total);
    assert_eq!(u32_at(&file, 40) as usize, total);
    assert_eq!(u32_at(&file, 4) as usize, total + 36);
    assert_eq!(&file[44..54], &[1u8; 10]);
    assert_eq!(&file[54..354], &[2u8; 300][..]);
    assert_eq!(&file[354..356], &[3u8; 2]);
}

#[test]
fn round_trip_with_no_payload() {
    let file = record(8000, &[]);
    assert_eq!(file.len(), 44);
    assert_eq!(u32_at(&file, 40), 0);
    assert_eq!(u32_at(&file, 4), 36);
}

#[test]
fn appends_keep_their_order() {
    let (mut writer, _) = WavWriter::begin(16000).unwrap();
    let first = writer.append(vec![1, 2]).unwrap();
    let second = writer.append(vec![3, 4, 5, 6]).unwrap();
    let third = writer.append(vec![7, 8]).unwrap();
    assert_eq!((first.offset, second.offset, third.offset), (44, 46, 50));
    assert_eq!(writer.data_len(), 8);
    assert_eq!(writer.sample_rate(), 16000);
}

#[test]
fn finalize_twice_gives_the_same_patches() {
    let (mut writer, _) = WavWriter::begin(16000).unwrap();
    writer.append(vec![0; 6]).unwrap();
    let (riff1, data1) = writer.finalize();
    let (riff2, data2) = writer.finalize();
    assert_eq!((riff1.offset, data1.offset), (RIFF_SIZE_OFFSET, DATA_SIZE_OFFSET));
    assert_eq!(riff1.bytes, riff2.bytes);
    assert_eq!(data1.bytes, data2.bytes);
    assert_eq!(riff1.bytes, vec![42, 0, 0, 0]);
    assert_eq!(data1.bytes, vec![6, 0, 0, 0]);
}

#[test]
fn patches_from_file_length() {
    let (riff, data) = update_wav_header(48).unwrap();
    assert_eq!(riff.offset, 4);
    assert_eq!(riff.bytes, vec![40, 0, 0, 0]);
    assert_eq!(data.offset, 40);
    assert_eq!(data.bytes, vec![4, 0, 0, 0]);
    let (riff, data) = update_wav_header(44).unwrap();
    assert_eq!(riff.bytes, vec![36, 0, 0, 0]);
    assert_eq!(data.bytes, vec![0, 0, 0, 0]);
    let (riff, data) = update_wav_header(44 + 0x01020304).unwrap();
    assert_eq!(data.bytes, vec![0x04, 0x03, 0x02, 0x01]);
    assert_eq!(riff.bytes, vec![0x04 + 36, 0x03, 0x02, 0x01]);
}

#[test]
fn patches_from_file_length_limits() {
    assert_eq!(update_wav_header(0).unwrap_err(), WavError::Truncated);
    assert_eq!(update_wav_header(43).unwrap_err(), WavError::Truncated);
    let (riff, data) = update_wav_header(HEADER_LEN + MAX_DATA_LEN).unwrap();
    assert_eq!(riff.bytes, vec![0xff, 0xff, 0xff, 0xff]);
    assert_eq!(data.bytes, vec![0xdb, 0xff, 0xff, 0xff]);
    assert_eq!(update_wav_header(HEADER_LEN + MAX_DATA_LEN + 1).unwrap_err(), WavError::TooLarge);
    assert_eq!(update_wav_header(u64::MAX).unwrap_err(), WavError::TooLarge);
}

#[test]
fn patches_from_file_length_agree_with_the_writer() {
    let (mut writer, _) = WavWriter::begin(16000).unwrap();
    writer.append(vec![0; 1234]).unwrap();
    let (riff, data) = writer.finalize();
    let (riff_from_len, data_from_len) = update_wav_header(HEADER_LEN + writer.data_len()).unwrap();
    assert_eq!(riff.bytes, riff_from_len.bytes);
    assert_eq!(data.bytes, data_from_len.bytes);
}

#[test]
fn write_past_the_end_fills_the_gap_with_zeros() {
    let mut file = vec![9u8, 9];
    WriteOp { offset: 5, bytes: vec![1, 2] }.apply(&mut file);
    assert_eq!(file, vec![9, 9, 0, 0, 0, 1, 2]);
}

#[test]
fn write_inside_the_file_replaces_bytes() {
    let mut file = vec![1u8, 2, 3, 4, 5];
    WriteOp { offset: 1, bytes: vec![8, 9] }.apply(&mut file);
    assert_eq!(file, vec![1, 8, 9, 4, 5]);
    WriteOp { offset: 4, bytes: vec![6, 7] }.apply(&mut file);
    assert_eq!(file, vec![1, 8, 9, 4, 6, 7]);
    WriteOp { offset: 2, bytes: vec![] }.apply(&mut file);
    assert_eq!(file, vec![1, 8, 9, 4, 6, 7]);
}

#[test]
fn finished_file_is_read_by_a_standard_reader() {
    let samples: [i16; 5] = [0, 1, -1, i16::MAX, i16::MIN];
    let mut payload = Vec::new();
    for s in samples {
        payload.extend_from_slice(&s.to_le_bytes());
    }
    let file = record(22050, &[payload]);
    let mut reader = hound::WavReader::new(Cursor::new(file)).unwrap();
    let spec = reader.spec();
    assert_eq!(spec.channels, 1);
    assert_eq!(spec.sample_rate, 22050);
    assert_eq!(spec.bits_per_sample, 16);
    assert_eq!(spec.sample_format, hound::SampleFormat::Int);
    assert_eq!(reader.len(), 5);
    let read: Vec<i16> = reader.samples::<i16>().map(|s| s.unwrap()).collect();
    assert_eq!(read, samples.to_vec());
}

#[test]
fn payload_limit() {
    let block = 1usize << 28;
    let (mut writer, _) = WavWriter::begin(16000).unwrap();
    let mut written = 0u64;
    while written + block as u64 <= MAX_DATA_LEN {
        let op = writer.append(vec![0; block]).unwrap();
        assert_eq!(op.offset, HEADER_LEN + written);
        written += block as u64;
    }
    let rest = (MAX_DATA_LEN - written) as usize;
    assert_eq!(writer.append(vec![0; rest + 1]).unwrap_err(), WavError::TooLarge);
    assert_eq!(writer.data_len(), written);
    let last = writer.append(vec![0; rest]).unwrap();
    assert_eq!(last.offset, HEADER_LEN + written);
    assert_eq!(writer.data_len(), MAX_DATA_LEN);
    assert_eq!(writer.append(vec![9]).unwrap_err(), WavError::TooLarge);
    assert!(writer.append(vec![]).is_ok());
    let (riff, data) = writer.finalize();
    assert_eq!(riff.bytes, vec![0xff, 0xff, 0xff, 0xff]);
    assert_eq!(data.bytes, vec![0xdb, 0xff, 0xff, 0xff]);
}

#[test]
fn placeholder_fields() {
    let header = WavHeader::placeholder(44100).unwrap();
    assert_eq!(
        header,
        WavHeader {
            riff_size: 0,
            channels: 1,
            sample_rate: 44100,
            byte_rate: 88200,
            block_align: 2,
            bits_per_sample: 16,
            data_size: 0,
        }
    );
    assert_eq!((OUTPUT_CHANNELS, BITS_PER_SAMPLE), (1, 16));
    assert_eq!(header.encode(), write_wav_header(44100).unwrap().bytes);
    assert_eq!(WavHeader::placeholder(2147483648).unwrap_err(), WavError::SampleRateTooLarge);
}

#[test]
fn every_field_is_encoded_in_its_place() {
    let header = WavHeader {
        riff_size: 0x01020304,
        channels: 0x0506,
        sample_rate: 0x0708090a,
        byte_rate: 0x0b0c0d0e,
        block_align: 0x0f10,
        bits_per_sample: 0x1112,
        data_size: 0x13141516,
    };
    let bytes = header.encode();
    assert_eq!(bytes.len(), 44);
    assert_eq!(&bytes[0..4], b"RIFF");
    assert_eq!(&bytes[4..8], &[0x04, 0x03, 0x02, 0x01]);
    assert_eq!(&bytes[8..16], b"WAVEfmt ");
    assert_eq!(&bytes[16..20], &[16, 0, 0, 0]);
    assert_eq!(&bytes[20..22], &[1, 0]);
    assert_eq!(&bytes[22..24], &[0x06, 0x05]);
    assert_eq!(&bytes[24..28], &[0x0a, 0x09, 0x08, 0x07]);
    assert_eq!(&bytes[28..32], &[0x0e, 0x0d, 0x0c, 0x0b]);
    assert_eq!(&bytes[32..34], &[0x10, 0x0f]);
    assert_eq!(&bytes[34..36], &[0x12, 0x11]);
    assert_eq!(&bytes[36..40], b"data");
    assert_eq!(&bytes[40..44], &[0x16, 0x15, 0x14, 0x13]);
}
