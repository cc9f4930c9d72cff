use audio_trans_vox::buffer::SampleBuffer;
use audio_trans_vox::sample::SampleKind;
use audio_trans_vox::session::{
    AudioCapture, CaptureError, CaptureState, FailureCause, StreamConfig, DRAIN_MILLIS,
};
use audio_trans_vox::wav::{update_wav_header, write_wav_header, MAX_DATA_LEN};
use std::io::Cursor;

fn config(channel_count: u16, sample_rate: u32, sample_kind: SampleKind) -> StreamConfig {
    StreamConfig { channel_count, sample_rate, sample_kind }
}

fn running(channel_count: u16, sample_kind: SampleKind) -> (AudioCapture, Vec<u8>) {
    let mut session = AudioCapture::new(String::from("out.wav"));
    let mut file = Vec::new();
    session.start(config(channel_count, 48000, sample_kind)).unwrap().apply(&mut file);
    (session, file)
}

#[test]
fn stop_before_start_is_a_no_op() {
    let mut session = AudioCapture::new(String::from("audio_20240101000000.wav"));
    let plan = session.plan_stop();
    assert!(!plan.pause_stream);
    assert_eq!(plan.drain_millis, 0);
    assert!(session.stop().is_none());
    assert_eq!(session.state(), CaptureState::Idle);
    assert_eq!(session.file_name(), "audio_20240101000000.wav");
    assert_eq!(session.data_len(), 0);
    assert!(session.stop().is_none());
    assert_eq!(session.state(), CaptureState::Idle);
    assert!(session.start(config(2, 44100, SampleKind::F32)).is_ok());
}

#[test]
fn new_session_is_idle() {
    let session = AudioCapture::new(String::from("a/b.wav"));
    assert_eq!(session.state(), CaptureState::Idle);
    assert_eq!(session.file_name(), "a/b.wav");
    assert_eq!(session.data_len(), 0);
}

#[test]
fn start_hands_out_the_header() {
    let mut session = AudioCapture::new(String::from("out.wav"));
    let header = session.start(config(2, 44100, SampleKind::F32)).unwrap();
    assert_eq!(header.offset, 0);
    assert_eq!(header.bytes, write_wav_header(44100).unwrap().bytes);
    assert_eq!(session.state(), CaptureState::Running);
    assert_eq!(session.file_name(), "out.wav");
}

#[test]
fn second_start_is_rejected() {
    let (mut session, _) = running(1, SampleKind::I16);
    assert_eq!(
        session.start(config(1, 48000, SampleKind::I16)).unwrap_err(),
        CaptureError::AlreadyStarted
    );
    assert_eq!(session.state(), CaptureState::Running);
    session.stop();
    assert_eq!(
        session.start(config(1, 48000, SampleKind::I16)).unwrap_err(),
        CaptureError::AlreadyStarted
    );
    assert_eq!(session.state(), CaptureState::Stopped);
}

#[test]
fn unsupported_channel_counts_fail_the_setup() {
    for channels in [0u16, 3, 4, 6, 8] {
        let mut session = AudioCapture::new(String::from("out.wav"));
        assert_eq!(
            session.start(config(channels, 48000, SampleKind::F32)).unwrap_err(),
            CaptureError::UnsupportedChannels
        );
        assert_eq!(session.state(), CaptureState::Failed);
        assert_eq!(session.failure_cause(), Some(FailureCause::Configuration));
    }
}

#[test]
fn unsupported_sample_kinds_fail_the_setup() {
    for kind in [
        SampleKind::I8,
        SampleKind::I32,
        SampleKind::I64,
        SampleKind::U8,
        SampleKind::U16,
        SampleKind::U32,
        SampleKind::U64,
    ] {
        let mut session = AudioCapture::new(String::from("out.wav"));
        assert_eq!(
            session.start(config(2, 48000, kind)).unwrap_err(),
            CaptureError::UnsupportedSampleKind
        );
        assert_eq!(session.state(), CaptureState::Failed);
        assert_eq!(
            session.start(config(2, 48000, SampleKind::I16)).unwrap_err(),
            CaptureError::AlreadyStarted
        );
    }
}

#[test]
fn unsupported_sample_rates_fail_the_setup() {
    for rate in [0u32, 2147483648, u32::MAX] {
        let mut session = AudioCapture::new(String::from("out.wav"));
        assert_eq!(
            session.start(config(1, rate, SampleKind::I16)).unwrap_err(),
            CaptureError::UnsupportedSampleRate
        );
        assert_eq!(session.state(), CaptureState::Failed);
    }
    assert_eq!(config(1, 2147483647, SampleKind::I16).validate(), Ok(()));
}

#[test]
fn validation_looks_at_channels_then_kind_then_rate() {
    assert_eq!(config(5, 0, SampleKind::U8).validate(), Err(CaptureError::UnsupportedChannels));
    assert_eq!(config(2, 0, SampleKind::U8).validate(), Err(CaptureError::UnsupportedSampleKind));
    assert_eq!(config(2, 0, SampleKind::F64).validate(), Err(CaptureError::UnsupportedSampleRate));
    assert_eq!(config(2, 1, SampleKind::F64).validate(), Ok(()));
}

#[test]
fn capture_appends_in_order_and_stop_completes_the_header() {
    let (mut session, mut file) = running(2, SampleKind::I16);
    let first = session.capture(&SampleBuffer::I16(vec![100, 300, -50, -150])).unwrap();
    assert_eq!(first.offset, 44);
    assert_eq!(first.bytes.len(), 4);
    first.apply(&mut file);
    assert_eq!(session.data_len(), 4);
    let plan = session.plan_stop();
    assert!(plan.pause_stream);
    assert_eq!(plan.drain_millis, DRAIN_MILLIS);
    assert_eq!(plan.drain_millis, 100);
    let late = session.capture(&SampleBuffer::I16(vec![8, 8])).unwrap();
    assert_eq!(late.offset, 48);
    late.apply(&mut file);
    let (riff, data) = session.stop().unwrap();
    let (riff_from_len, data_from_len) = update_wav_header(file.len() as u64).unwrap();
    assert_eq!(riff.bytes, riff_from_len.bytes);
    assert_eq!(data.bytes, data_from_len.bytes);
    riff.apply(&mut file);
    data.apply(&mut file);
    assert_eq!(session.state(), CaptureState::Stopped);
    assert_eq!(file.len(), 50);
    let mut reader = hound::WavReader::new(Cursor::new(file)).unwrap();
    assert_eq!(reader.spec().channels, 1);
    assert_eq!(reader.spec().sample_rate, 48000);
    let read: Vec<i16> = reader.samples::<i16>().map(|s| s.unwrap()).collect();
    assert_eq!(read, vec![200, -100, 8]);
}

#[test]
fn float_session_end_to_end() {
    let (mut session, mut file) = running(2, SampleKind::F32);
    let bits: Vec<u32> = [1.0f32, -1.0, 0.5, 0.5, 2.0, 2.0].iter().map(|v| v.to_bits()).collect();
    session.capture(&SampleBuffer::F32(bits)).unwrap().apply(&mut file);
    let (riff, data) = session.stop().unwrap();
    riff.apply(&mut file);
    data.apply(&mut file);
    let read: Vec<i16> = hound::WavReader::new(Cursor::new(file))
        .unwrap()
        .samples::<i16>()
        .map(|s| s.unwrap())
        .collect();
    assert_eq!(read, vec![0, 16384, 32767]);
}

#[test]
fn second_stop_only_repeats_the_patches() {
    let (mut session, _) = running(1, SampleKind::I16);
    session.capture(&SampleBuffer::I16(vec![1, 2, 3])).unwrap();
    let (riff1, data1) = session.stop().unwrap();
    let plan = session.plan_stop();
    assert!(!plan.pause_stream);
    assert_eq!(plan.drain_millis, 0);
    let (riff2, data2) = session.stop().unwrap();
    assert_eq!(riff1.bytes, riff2.bytes);
    assert_eq!(data1.bytes, data2.bytes);
    assert_eq!(data1.bytes, vec![6, 0, 0, 0]);
    assert_eq!(session.state(), CaptureState::Stopped);
}

#[test]
fn buffer_outside_a_running_session_is_refused() {
    let mut idle = AudioCapture::new(String::from("out.wav"));
    assert_eq!(
        idle.capture(&SampleBuffer::I16(vec![1])).unwrap_err(),
        CaptureError::NotRunning
    );
    assert_eq!(idle.state(), CaptureState::Idle);
    let (mut session, _) = running(1, SampleKind::I16);
    session.stop();
    assert_eq!(
        session.capture(&SampleBuffer::I16(vec![1])).unwrap_err(),
        CaptureError::NotRunning
    );
    assert_eq!(session.state(), CaptureState::Stopped);
    assert_eq!(session.data_len(), 0);
}

#[test]
fn buffer_of_another_kind_fails_the_session() {
    let (mut session, _) = running(1, SampleKind::I16);
    session.capture(&SampleBuffer::I16(vec![1, 2])).unwrap();
    assert_eq!(
        session.capture(&SampleBuffer::F32(vec![0])).unwrap_err(),
        CaptureError::KindMismatch
    );
    assert_eq!(session.state(), CaptureState::Failed);
    assert_eq!(session.failure_cause(), Some(FailureCause::Buffer));
    assert_eq!(session.data_len(), 4);
    assert_eq!(
        session.capture(&SampleBuffer::I16(vec![1])).unwrap_err(),
        CaptureError::NotRunning
    );
}

#[test]
fn incomplete_frame_fails_the_session_and_writes_nothing() {
    let (mut session, _) = running(2, SampleKind::F64);
    assert_eq!(
        session.capture(&SampleBuffer::F64(vec![0, 0, 0])).unwrap_err(),
        CaptureError::IncompleteFrame
    );
    assert_eq!(session.state(), CaptureState::Failed);
    assert_eq!(session.data_len(), 0);
}

#[test]
fn file_that_would_outgrow_its_header_fails_the_session() {
    let (mut session, _) = running(1, SampleKind::I16);
    let block = SampleBuffer::I16(vec![0; 1 << 24]);
    let mut written = 0u64;
    for _ in 0..32 {
        let op = session.capture(&block).unwrap();
        assert_eq!(op.offset, 44 + written);
        written += 2 << 24;
    }
    assert_eq!(session.data_len(), written);
    let frames = 3usize << 29;
    assert!(written + 2 * frames as u64 > MAX_DATA_LEN);
    let too_long = SampleBuffer::I16(vec![0; frames]);
    assert_eq!(session.capture(&too_long).unwrap_err(), CaptureError::TooLarge);
    assert_eq!(session.state(), CaptureState::Failed);
    assert_eq!(session.data_len(), written);
    assert!(session.stop().is_none());
}

#[test]
fn reported_failure_is_terminal() {
    let mut idle = AudioCapture::new(String::from("out.wav"));
    assert_eq!(idle.failure_cause(), None);
    idle.fail(FailureCause::DeviceDiscovery);
    assert_eq!(idle.state(), CaptureState::Failed);
    assert_eq!(idle.failure_cause(), Some(FailureCause::DeviceDiscovery));
    idle.fail(FailureCause::ConfigRead);
    assert_eq!(idle.failure_cause(), Some(FailureCause::DeviceDiscovery));
    let plan = idle.plan_stop();
    assert!(!plan.pause_stream);
    assert_eq!(plan.drain_millis, 0);
    assert!(idle.stop().is_none());
    assert_eq!(
        idle.start(config(1, 48000, SampleKind::I16)).unwrap_err(),
        CaptureError::AlreadyStarted
    );

    let (mut session, _) = running(1, SampleKind::I16);
    session.capture(&SampleBuffer::I16(vec![1])).unwrap();
    session.fail(FailureCause::Write);
    assert_eq!(session.state(), CaptureState::Failed);
    assert_eq!(session.failure_cause(), Some(FailureCause::Write));
    let plan = session.plan_stop();
    assert!(plan.pause_stream);
    assert_eq!(plan.drain_millis, DRAIN_MILLIS);
    assert!(session.stop().is_none());
    assert_eq!(session.state(), CaptureState::Failed);
    assert_eq!(session.data_len(), 2);

    let (mut stopped, _) = running(1, SampleKind::I16);
    stopped.stop();
    stopped.fail(FailureCause::Write);
    assert_eq!(stopped.state(), CaptureState::Failed);
    assert_eq!(stopped.failure_cause(), Some(FailureCause::Write));

    let mut unopened = AudioCapture::new(String::from("out.wav"));
    unopened.start(config(2, 48000, SampleKind::F32)).unwrap();
    unopened.fail(FailureCause::FileCreation);
    assert_eq!(unopened.failure_cause(), Some(FailureCause::FileCreation));
    let mut silent = AudioCapture::new(String::from("out.wav"));
    silent.start(config(2, 48000, SampleKind::F32)).unwrap();
    silent.fail(FailureCause::StreamStart);
    assert_eq!(silent.failure_cause(), Some(FailureCause::StreamStart));
}
