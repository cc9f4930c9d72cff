//! The capture session: what may happen in which state, and what the owner
//! of the device and of the file has to do next.
//!
//! A session starts idle, runs once, and ends stopped or failed. It never
//! runs again. Opening the device, creating the file and performing the
//! writes are the caller's part. The session decides and keeps count.

use vstd::prelude::*;
use crate::buffer::{convert_buffer, lemma_pcm_bytes_len, pcm_bytes, SampleBuffer};
use crate::sample::SampleKind;
use crate::le::le_bytes_u32;
use crate::wav::{
    placeholder_header, rate_fits, WriteOp, DATA_SIZE_OFFSET, HEADER_LEN, MAX_DATA_LEN,
    RIFF_SIZE_OFFSET,
};
use crate::writer::WavWriter;

verus! {

/// How long a stopping session waits for a callback in flight, in
/// milliseconds.
pub const DRAIN_MILLIS: u64 = 100;

/// What a device delivers: discovered from the device, not chosen.
#[derive(Clone, Copy, Debug, PartialEq, Eq, Structural)]
pub struct StreamConfig {
    pub channel_count: u16,
    pub sample_rate: u32,
    pub sample_kind: SampleKind,
}

/// Where a session stands.
#[derive(Clone, Copy, Debug, PartialEq, Eq, Structural)]
pub enum CaptureState {
    Idle,
    Running,
    Stopped,
    Failed,
}

/// Why a session refused a request.
#[derive(Clone, Copy, Debug, PartialEq, Eq, Structural)]
pub enum CaptureError {
    /// `start` on a session that is no longer idle.
    AlreadyStarted,
    /// The device has neither one nor two channels.
    UnsupportedChannels,
    /// The device's sample kind is not one of the supported three.
    UnsupportedSampleKind,
    /// The sample rate is zero, or too large for the header's byte rate.
    UnsupportedSampleRate,
    /// A buffer arrived while the session was not running.
    NotRunning,
    /// A buffer holds another kind of sample than the session was started
    /// with.
    KindMismatch,
    /// A stereo buffer ends in the middle of a frame.
    IncompleteFrame,
    /// The file would outgrow what its header can describe.
    TooLarge,
}

/// What a session failed on.
#[derive(Clone, Copy, Debug, PartialEq, Eq, Structural)]
pub enum FailureCause {
    /// No output device was found.
    DeviceDiscovery,
    /// The device's configuration could not be read.
    ConfigRead,
    /// The device's configuration was rejected by `start`.
    Configuration,
    /// The output file could not be created.
    FileCreation,
    /// The device refused to open or to play the stream.
    StreamStart,
    /// A buffer was refused by `capture`.
    Buffer,
    /// A write to the file did not go through.
    Write,
}

/// What happens to a session.
#[derive(Clone, Copy, Debug, PartialEq, Eq, Structural)]
pub enum CaptureEvent {
    /// `start` with a configuration that is accepted.
    StartAccepted,
    /// `start` with a configuration that is rejected.
    StartRejected,
    /// A buffer that is converted and appended.
    BufferAppended,
    /// A buffer that cannot be converted or appended.
    BufferRefused,
    /// A failure reported from outside: device, file or write.
    Failure,
    /// `stop`.
    Stop,
}

/// The state that follows a state and an event.
pub open spec fn next_state(state: CaptureState, event: CaptureEvent) -> CaptureState {
    match (state, event) {
        (CaptureState::Idle, CaptureEvent::StartAccepted) => CaptureState::Running,
        (CaptureState::Idle, CaptureEvent::StartRejected) => CaptureState::Failed,
        (CaptureState::Running, CaptureEvent::BufferRefused) => CaptureState::Failed,
        (CaptureState::Running, CaptureEvent::Stop) => CaptureState::Stopped,
        (_, CaptureEvent::Failure) => CaptureState::Failed,
        (unchanged, _) => unchanged,
    }
}

/// The state after a run of events.
pub open spec fn state_after(state: CaptureState, events: Seq<CaptureEvent>) -> CaptureState
    decreases events.len(),
{
    if events.len() == 0 {
        state
    } else {
        next_state(state_after(state, events.drop_last()), events.last())
    }
}

/// A session runs once: whatever happens to a session that is stopped or
/// failed, it does not run again.
pub proof fn lemma_no_restart(state: CaptureState, events: Seq<CaptureEvent>)
    requires
        state == CaptureState::Stopped || state == CaptureState::Failed,
    ensures
        state_after(state, events) == CaptureState::Stopped || state_after(state, events)
            == CaptureState::Failed,
    decreases events.len(),
{
    if events.len() > 0 {
        lemma_no_restart(state, events.drop_last());
    }
}

/// Only an accepted start makes an idle session run, and only an idle
/// session can be started.
pub proof fn lemma_running_comes_from_start(state: CaptureState, event: CaptureEvent)
    requires
        next_state(state, event) == CaptureState::Running,
        state != CaptureState::Running,
    ensures
        state == CaptureState::Idle,
        event == CaptureEvent::StartAccepted,
{
}

impl StreamConfig {
    /// Why this configuration cannot be captured, if it cannot: the channel
    /// count is looked at first, then the sample kind, then the rate.
    pub open spec fn rejection(self) -> Option<CaptureError> {
        if self.channel_count != 1 && self.channel_count != 2 {
            Some(CaptureError::UnsupportedChannels)
        } else if !self.sample_kind.supported() {
            Some(CaptureError::UnsupportedSampleKind)
        } else if self.sample_rate == 0 || !rate_fits(self.sample_rate) {
            Some(CaptureError::UnsupportedSampleRate)
        } else {
            None
        }
    }

    /// Accepts mono or stereo input of a supported kind at a positive rate
    /// that the header can hold, and says what is wrong with any other.
    pub fn validate(&self) -> (result: Result<(), CaptureError>)
        ensures
            match result {
                Ok(_) => self.rejection() is None,
                Err(e) => self.rejection() == Some(e),
            },
    {
        if self.channel_count != 1 && self.channel_count != 2 {
            Err(CaptureError::UnsupportedChannels)
        } else if !self.sample_kind.is_supported() {
            Err(CaptureError::UnsupportedSampleKind)
        } else if self.sample_rate == 0 || self.sample_rate > 2147483647 {
            Err(CaptureError::UnsupportedSampleRate)
        } else {
            Ok(())
        }
    }
}

/// What has to happen to the device before a session is stopped: whether
/// the stream is paused, and how long to wait for the callback in flight.
#[derive(Clone, Copy, Debug, PartialEq, Eq, Structural)]
pub struct StopPlan {
    pub pause_stream: bool,
    pub drain_millis: u64,
}

/// A state with what the session holds in it.
#[derive(Clone, Copy, Debug)]
enum Phase {
    Idle,
    Running(StreamConfig, WavWriter),
    Stopped(WavWriter),
    Failed(Option<WavWriter>, FailureCause),
}

/// One capture session writing to one file.
#[derive(Debug)]
pub struct AudioCapture {
    file_name: String,
    phase: Phase,
}

impl AudioCapture {
    #[verifier::type_invariant]
    spec fn well_formed(self) -> bool {
        match self.phase {
            Phase::Running(config, writer) => config.rejection() is None && writer.rate()
                == config.sample_rate,
            _ => true,
        }
    }

    /// The path of the output file.
    pub closed spec fn path(&self) -> Seq<char> {
        self.file_name@
    }

    /// Where the session stands.
    pub closed spec fn phase(&self) -> CaptureState {
        match self.phase {
            Phase::Idle => CaptureState::Idle,
            Phase::Running(_, _) => CaptureState::Running,
            Phase::Stopped(_) => CaptureState::Stopped,
            Phase::Failed(_, _) => CaptureState::Failed,
        }
    }

    /// What a failed session failed on.
    pub closed spec fn failure(&self) -> Option<FailureCause> {
        match self.phase {
            Phase::Failed(_, cause) => Some(cause),
            _ => None,
        }
    }

    /// The configuration of a running session.
    pub closed spec fn config(&self) -> Option<StreamConfig> {
        match self.phase {
            Phase::Running(config, _) => Some(config),
            _ => None,
        }
    }

    /// Whether a header has been handed out, so that a file exists.
    pub closed spec fn has_file(&self) -> bool {
        match self.phase {
            Phase::Idle => false,
            Phase::Running(_, _) => true,
            Phase::Stopped(_) => true,
            Phase::Failed(writer, _) => writer is Some,
        }
    }

    /// The number of payload bytes handed out so far.
    pub closed spec fn written(&self) -> nat {
        match self.phase {
            Phase::Idle => 0,
            Phase::Running(_, writer) => writer.payload_len(),
            Phase::Stopped(writer) => writer.payload_len(),
            Phase::Failed(Some(writer), _) => writer.payload_len(),
            Phase::Failed(None, _) => 0,
        }
    }

    /// Why a buffer is refused, if it is: the state is looked at first,
    /// then the kind of the samples, then the frame boundary, then the size
    /// of the file.
    pub open spec fn refusal(&self, buffer: &SampleBuffer) -> Option<CaptureError> {
        if self.phase() != CaptureState::Running {
            Some(CaptureError::NotRunning)
        } else if buffer.kind() != self.config()->0.sample_kind {
            Some(CaptureError::KindMismatch)
        } else if !buffer.convertible(self.config()->0.channel_count) {
            Some(CaptureError::IncompleteFrame)
        } else if self.written() + 2 * buffer.frames(self.config()->0.channel_count)
            > MAX_DATA_LEN {
            Some(CaptureError::TooLarge)
        } else {
            None
        }
    }

    /// An idle session for the given output path.
    pub fn new(file_name: String) -> (session: Self)
        ensures
            session.path() == file_name@,
            session.phase() == CaptureState::Idle,
            session.failure() is None,
            session.config() is None,
            !session.has_file(),
            session.written() == 0,
    {
        AudioCapture { file_name, phase: Phase::Idle }
    }

    /// Starts an idle session on a supported configuration and hands out
    /// the header to write into the freshly created file. A configuration
    /// that is rejected fails the session. A session that is not idle
    /// answers `AlreadyStarted` and stays as it is.
    pub fn start(&mut self, config: StreamConfig) -> (result: Result<WriteOp, CaptureError>)
        ensures
            final(self).path() == old(self).path(),
            match result {
                Ok(header) => {
                    &&& old(self).phase() == CaptureState::Idle
                    &&& config.rejection() is None
                    &&& final(self).phase() == next_state(
                        old(self).phase(),
                        CaptureEvent::StartAccepted,
                    )
                    &&& final(self).config() == Some(config)
                    &&& final(self).failure() is None
                    &&& final(self).has_file()
                    &&& final(self).written() == 0
                    &&& header.offset == 0
                    &&& header.bytes@ == placeholder_header(config.sample_rate)
                },
                Err(e) => if old(self).phase() != CaptureState::Idle {
                    &&& e == CaptureError::AlreadyStarted
                    &&& final(self).phase() == old(self).phase()
                    &&& final(self).failure() == old(self).failure()
                    &&& final(self).config() == old(self).config()
                    &&& final(self).has_file() == old(self).has_file()
                    &&& final(self).written() == old(self).written()
                } else {
                    &&& config.rejection() == Some(e)
                    &&& final(self).phase() == next_state(
                        old(self).phase(),
                        CaptureEvent::StartRejected,
                    )
                    &&& final(self).failure() == Some(FailureCause::Configuration)
                    &&& !final(self).has_file()
                    &&& final(self).written() == 0
                },
            },
    {
        match self.phase {
            Phase::Idle => {},
            _ => {
                return Err(CaptureError::AlreadyStarted);
            },
        }
        match config.validate() {
            Ok(_) => {},
            Err(e) => {
                self.phase = Phase::Failed(None, FailureCause::Configuration);
                return Err(e);
            },
        }
        match WavWriter::begin(config.sample_rate) {
            Ok(started) => {
                self.phase = Phase::Running(config, started.0);
                Ok(started.1)
            },
            Err(_) => {
                self.phase = Phase::Failed(None, FailureCause::Configuration);
                Err(CaptureError::UnsupportedSampleRate)
            },
        }
    }

    /// Takes one buffer from the device: converts every frame and hands out
    /// the write that appends the bytes at the end of the file. A buffer
    /// that is refused while the session runs fails the session, and
    /// nothing of it is converted or written. A buffer that arrives in any
    /// other state is refused and changes nothing.
    pub fn capture(&mut self, buffer: &SampleBuffer) -> (result: Result<WriteOp, CaptureError>)
        ensures
            final(self).path() == old(self).path(),
            final(self).has_file() == old(self).has_file(),
            match result {
                Ok(append) => {
                    &&& old(self).refusal(buffer) is None
                    &&& final(self).phase() == next_state(
                        old(self).phase(),
                        CaptureEvent::BufferAppended,
                    )
                    &&& final(self).config() == old(self).config()
                    &&& final(self).failure() is None
                    &&& final(self).written() == old(self).written() + append.bytes@.len()
                    &&& append.offset == HEADER_LEN + old(self).written()
                    &&& append.bytes@ == pcm_bytes(buffer.pcm(old(self).config()->0.channel_count))
                },
                Err(e) => {
                    &&& old(self).refusal(buffer) == Some(e)
                    &&& final(self).phase() == next_state(
                        old(self).phase(),
                        CaptureEvent::BufferRefused,
                    )
                    &&& final(self).failure() == (if old(self).phase() == CaptureState::Running {
                        Some(FailureCause::Buffer)
                    } else {
                        old(self).failure()
                    })
                    &&& final(self).written() == old(self).written()
                },
            },
    {
        proof {
            use_type_invariant(&*self);
        }
        match self.phase {
            Phase::Running(config, writer) => {
                if buffer.sample_kind() != config.sample_kind {
                    self.phase = Phase::Failed(Some(writer), FailureCause::Buffer);
                    return Err(CaptureError::KindMismatch);
                }
                let count: usize = buffer.sample_count();
                if config.channel_count == 2 && count % 2 != 0 {
                    self.phase = Phase::Failed(Some(writer), FailureCause::Buffer);
                    return Err(CaptureError::IncompleteFrame);
                }
                let frames: usize = if config.channel_count == 1 {
                    count
                } else {
                    count / 2
                };
                if frames as u64 > (MAX_DATA_LEN - writer.data_len()) / 2 {
                    self.phase = Phase::Failed(Some(writer), FailureCause::Buffer);
                    return Err(CaptureError::TooLarge);
                }
                match convert_buffer(buffer, config.channel_count) {
                    Ok(bytes) => {
                        proof {
                            lemma_pcm_bytes_len(buffer.pcm(config.channel_count));
                        }
                        let mut grown = writer;
                        match grown.append(bytes) {
                            Ok(append) => {
                                self.phase = Phase::Running(config, grown);
                                Ok(append)
                            },
                            Err(_) => {
                                self.phase = Phase::Failed(Some(writer), FailureCause::Buffer);
                                Err(CaptureError::TooLarge)
                            },
                        }
                    },
                    Err(_) => {
                        self.phase = Phase::Failed(Some(writer), FailureCause::Buffer);
                        Err(CaptureError::IncompleteFrame)
                    },
                }
            },
            _ => Err(CaptureError::NotRunning),
        }
    }

    /// Records a failure that happened outside: no device, no file, a
    /// stream that would not start, a write that did not go through. The
    /// session fails, whatever its state. The first cause is the one kept.
    pub fn fail(&mut self, cause: FailureCause)
        ensures
            final(self).path() == old(self).path(),
            final(self).phase() == next_state(old(self).phase(), CaptureEvent::Failure),
            final(self).failure() == (if old(self).phase() == CaptureState::Failed {
                old(self).failure()
            } else {
                Some(cause)
            }),
            final(self).has_file() == old(self).has_file(),
            final(self).written() == old(self).written(),
    {
        match self.phase {
            Phase::Idle => {
                self.phase = Phase::Failed(None, cause);
            },
            Phase::Running(_, writer) => {
                self.phase = Phase::Failed(Some(writer), cause);
            },
            Phase::Stopped(writer) => {
                self.phase = Phase::Failed(Some(writer), cause);
            },
            Phase::Failed(_, _) => {},
        }
    }

    /// Whether a stream may be delivering buffers to this session: it is
    /// running, or it failed after it had started.
    pub open spec fn may_hold_stream(&self) -> bool {
        self.phase() == CaptureState::Running || (self.phase() == CaptureState::Failed
            && self.has_file())
    }

    /// Says what has to happen before `stop`: where a stream may be
    /// delivering, it is paused and the drain delay is waited, so that a
    /// callback in flight still gets its buffer appended. Anywhere else,
    /// and so on a session that never started, nothing is asked for.
    pub fn plan_stop(&self) -> (plan: StopPlan)
        ensures
            plan.pause_stream == self.may_hold_stream(),
            plan.drain_millis == (if self.may_hold_stream() {
                DRAIN_MILLIS
            } else {
                0
            }),
    {
        match self.phase {
            Phase::Running(_, _) | Phase::Failed(Some(_), _) => StopPlan {
                pause_stream: true,
                drain_millis: DRAIN_MILLIS,
            },
            _ => StopPlan { pause_stream: false, drain_millis: 0 },
        }
    }

    /// Stops the session and hands out the two writes that complete the
    /// header: the payload length plus 36 at offset 4 and the payload length
    /// at offset 40.
    ///
    /// On a session that never started this does nothing and hands out
    /// nothing. A running session becomes stopped. A stopped session hands
    /// out the same two writes again. A failed session stays failed and its
    /// file is left as it is.
    pub fn stop(&mut self) -> (patches: Option<(WriteOp, WriteOp)>)
        ensures
            final(self).path() == old(self).path(),
            final(self).phase() == next_state(old(self).phase(), CaptureEvent::Stop),
            final(self).config() is None,
            final(self).failure() == old(self).failure(),
            final(self).has_file() == old(self).has_file(),
            final(self).written() == old(self).written(),
            match patches {
                Some(sizes) => {
                    &&& old(self).phase() == CaptureState::Running || old(self).phase()
                        == CaptureState::Stopped
                    &&& sizes.0.offset == RIFF_SIZE_OFFSET
                    &&& sizes.0.bytes@ == le_bytes_u32((old(self).written() + 36) as u32)
                    &&& sizes.1.offset == DATA_SIZE_OFFSET
                    &&& sizes.1.bytes@ == le_bytes_u32(old(self).written() as u32)
                },
                None => old(self).phase() == CaptureState::Idle || old(self).phase()
                    == CaptureState::Failed,
            },
    {
        match self.phase {
            Phase::Running(_, writer) => {
                self.phase = Phase::Stopped(writer);
                Some(writer.finalize())
            },
            Phase::Stopped(writer) => Some(writer.finalize()),
            _ => None,
        }
    }

    /// Where the session stands.
    pub fn state(&self) -> (state: CaptureState)
        ensures
            state == self.phase(),
    {
        match self.phase {
            Phase::Idle => CaptureState::Idle,
            Phase::Running(_, _) => CaptureState::Running,
            Phase::Stopped(_) => CaptureState::Stopped,
            Phase::Failed(_, _) => CaptureState::Failed,
        }
    }

    /// What a failed session failed on.
    pub fn failure_cause(&self) -> (cause: Option<FailureCause>)
        ensures
            cause == self.failure(),
    {
        match self.phase {
            Phase::Failed(_, cause) => Some(cause),
            _ => None,
        }
    }

    /// The path of the output file.
    pub fn file_name(&self) -> (name: &str)
        ensures
            name@ == self.path(),
    {
        self.file_name.as_str()
    }

    /// The number of payload bytes handed out so far.
    pub fn data_len(&self) -> (len: u64)
        ensures
            len == self.written(),
            len <= MAX_DATA_LEN,
    {
        match self.phase {
            Phase::Idle => 0,
            Phase::Running(_, writer) => writer.data_len(),
            Phase::Stopped(writer) => writer.data_len(),
            Phase::Failed(Some(writer), _) => writer.data_len(),
            Phase::Failed(None, _) => 0,
        }
    }
}

} // verus!
